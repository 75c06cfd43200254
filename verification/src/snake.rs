//! The snake: a head, the cells that trail it, and a heading.

use vstd::prelude::*;
use crate::board::Board;
use crate::geometry::{Direction, Point};

verus! {

/// The snake. `body` lists the cells behind the head, the one the head left
/// last coming first. `growing` is set between a meal and the move that
/// follows it.
#[derive(Debug, Clone)]
pub struct Snake {
    pub head: Point,
    pub direction: Direction,
    pub body: Vec<Point>,
    pub growing: bool,
}

/// A snake as a mathematical value.
pub struct SnakeView {
    pub head: Point,
    pub direction: Direction,
    pub body: Seq<Point>,
    pub growing: bool,
}

impl View for Snake {
    type V = SnakeView;

    open spec fn view(&self) -> SnakeView {
        SnakeView {
            head: self.head,
            direction: self.direction,
            body: self.body@,
            growing: self.growing,
        }
    }
}

impl SnakeView {
    /// Head first, then the body in order.
    pub open spec fn cells(self) -> Seq<Point> {
        seq![self.head] + self.body
    }

    /// Whether the head or a body segment lies on `p`.
    pub open spec fn occupies(self, p: Point) -> bool {
        p == self.head || self.body.contains(p)
    }

    /// The same snake with heading `d`.
    pub open spec fn turned(self, d: Direction) -> SnakeView {
        SnakeView { direction: d, ..self }
    }

    /// The same snake, due to keep its last segment at the next move.
    pub open spec fn fed(self) -> SnakeView {
        SnakeView { growing: true, ..self }
    }

    /// Whether the cell ahead of the head can be held in a `Point`.
    pub open spec fn can_advance(self) -> bool {
        self.head.sum_fits(self.direction.delta())
    }

    /// The snake after one move: the head steps by the heading's delta, the
    /// cell it left becomes the first body segment, and the last segment is
    /// let go unless the snake is growing.
    pub open spec fn advanced(self) -> SnakeView
        recommends
            self.can_advance(),
    {
        let trail = seq![self.head] + self.body;
        SnakeView {
            head: self.head.plus(self.direction.delta()),
            direction: self.direction,
            body: if self.growing {
                trail
            } else {
                trail.drop_last()
            },
            growing: false,
        }
    }

    /// Whether the head and every body segment lie strictly inside the wall
    /// of `board`.
    pub open spec fn inside(self, board: Board) -> bool {
        forall|i: int| 0 <= i < self.cells().len() ==> board.interior(#[trigger] self.cells()[i])
    }

    /// Whether no two cells of the snake are the same cell.
    pub open spec fn simple(self) -> bool {
        self.cells().no_duplicates()
    }

    /// Whether the head is anywhere but strictly inside the wall of `board`.
    pub open spec fn hits_wall(self, board: Board) -> bool {
        !board.interior(self.head)
    }

    /// Whether the head lies on a body segment.
    pub open spec fn hits_itself(self) -> bool {
        self.body.contains(self.head)
    }

    /// The cell at the very end of the snake.
    pub open spec fn caboose(self) -> Point {
        if self.body.len() == 0 {
            self.head
        } else {
            self.body.last()
        }
    }
}

impl Snake {
    /// A snake that is all head, at `head` and bound for `direction`.
    pub fn new(head: Point, direction: Direction) -> (snake: Snake)
        ensures
            snake@ == (SnakeView { head, direction, body: Seq::empty(), growing: false }),
    {
        Snake { head, direction, body: Vec::new(), growing: false }
    }

    /// The sign to show at column `x` of row `y` if the head is there.
    pub fn at_head(&self, x: i16, y: i16) -> (sign: Option<&'static str>)
        ensures
            sign is Some <==> self.head == (Point { x, y }),
            sign matches Some(shown) ==> shown@ == self.direction.glyph(),
    {
        if self.head.x == x && self.head.y == y {
            proof {
                reveal_strlit("^");
                reveal_strlit("v");
                reveal_strlit(">");
                reveal_strlit("<");
            }
            return match self.direction {
                Direction::Up => Some("^"),
                Direction::Down => Some("v"),
                Direction::Right => Some(">"),
                Direction::Left => Some("<"),
            };
        }
        None
    }

    /// Whether a body segment lies on `p`.
    fn body_holds(&self, p: Point) -> (found: bool)
        ensures
            found == self.body@.contains(p),
    {
        let mut i: usize = 0;
        while i < self.body.len()
            invariant
                i <= self.body.len(),
                forall|j: int| 0 <= j < i ==> self.body@[j] != p,
            decreases self.body.len() - i,
        {
            if self.body[i] == p {
                return true;
            }
            i += 1;
        }
        false
    }

    /// Whether the head or a body segment lies on `p`.
    pub fn occupies(&self, p: Point) -> (taken: bool)
        ensures
            taken == self@.occupies(p),
    {
        p == self.head || self.body_holds(p)
    }

    /// Takes the heading `direction`, whatever the heading was.
    pub fn set_direction(&mut self, direction: Direction)
        ensures
            final(self)@ == old(self)@.turned(direction),
    {
        self.direction = direction;
    }

    /// Moves the snake one cell along its heading.
    pub fn advance(&mut self)
        requires
            old(self)@.can_advance(),
        ensures
            final(self)@ == old(self)@.advanced(),
    {
        let step = self.direction.direction_to_Point();
        self.body.insert(0, self.head);
        assert(self.body@ =~= seq![old(self).head] + old(self).body@);
        if !self.growing {
            self.body.pop();
        }
        self.growing = false;
        self.head = self.head + step;
        assert(self.body@ =~= old(self)@.advanced().body);
    }

    /// Takes the heading `direction` and moves one cell along it.
    pub fn slither(&mut self, direction: Direction)
        requires
            old(self)@.turned(direction).can_advance(),
        ensures
            final(self)@ == old(self)@.turned(direction).advanced(),
    {
        self.set_direction(direction);
        self.advance();
    }

    /// The cell at the very end of the snake: its last body segment, or the
    /// head where there is no body.
    pub fn get_snake_caboose(&self) -> (tail: &Point)
        ensures
            *tail == self@.caboose(),
    {
        if self.body.len() == 0 {
            &self.head
        } else {
            &self.body[self.body.len() - 1]
        }
    }

    /// Notes that food was eaten: the next move keeps the last segment, so
    /// that the body comes out one cell longer.
    pub fn grow_body(&mut self)
        ensures
            final(self)@ == old(self)@.fed(),
    {
        self.growing = true;
    }

    /// Whether the head has left the interior of `board`.
    pub fn collided_with_wall(&self, board: &Board) -> (hit: bool)
        ensures
            hit == self@.hits_wall(*board),
    {
        !board.is_interior(self.head)
    }

    /// Whether the head lies on a body segment.
    pub fn has_self_collision(&self) -> (hit: bool)
        ensures
            hit == self@.hits_itself(),
    {
        self.body_holds(self.head)
    }

    /// Whether the head and every body segment lie strictly inside the wall
    /// of `board`.
    pub fn lies_inside(&self, board: &Board) -> (all: bool)
        ensures
            all == self@.inside(*board),
    {
        if !board.is_interior(self.head) {
            assert(self@.cells()[0] == self.head);
            return false;
        }
        let mut i: usize = 0;
        while i < self.body.len()
            invariant
                i <= self.body.len(),
                board.interior(self.head),
                forall|j: int| 0 <= j < i ==> board.interior(#[trigger] self.body@[j]),
            decreases self.body.len() - i,
        {
            if !board.is_interior(self.body[i]) {
                assert(self@.cells()[i + 1] == self.body@[i as int]);
                return false;
            }
            i += 1;
        }
        assert forall|k: int| 0 <= k < self@.cells().len() implies board.interior(
            #[trigger] self@.cells()[k],
        ) by {
            if k > 0 {
                assert(self@.cells()[k] == self.body@[k - 1]);
            }
        }
        true
    }

    /// Whether no two cells of the snake are the same cell.
    pub fn is_simple(&self) -> (distinct: bool)
        ensures
            distinct == self@.simple(),
    {
        if self.has_self_collision() {
            proof {
                let j = choose|j: int| 0 <= j < self.body@.len() && self.body@[j] == self.head;
                assert(self@.cells()[0] == self@.cells()[j + 1]);
            }
            return false;
        }
        let mut i: usize = 0;
        while i < self.body.len()
            invariant
                i <= self.body.len(),
                !self@.hits_itself(),
                forall|a: int, b: int|
                    0 <= a < i && a < b < self.body@.len() ==> self.body@[a] != self.body@[b],
            decreases self.body.len() - i,
        {
            let mut k: usize = i + 1;
            while k < self.body.len()
                invariant
                    i < k <= self.body.len(),
                    forall|b: int| i < b < k ==> self.body@[i as int] != self.body@[b],
                decreases self.body.len() - k,
            {
                if self.body[i] == self.body[k] {
                    assert(self@.cells()[i + 1] == self@.cells()[k + 1]);
                    return false;
                }
                k += 1;
            }
            i += 1;
        }
        let ghost cells = self@.cells();
        assert forall|a: int, b: int|
            0 <= a < cells.len() && 0 <= b < cells.len() && a != b implies cells[a] != cells[b] by {
            if a == 0 {
                assert(cells[b] == self.body@[b - 1]);
            } else if b == 0 {
                assert(cells[a] == self.body@[a - 1]);
            } else if a < b {
                assert(self.body@[a - 1] != self.body@[b - 1]);
            } else {
                assert(self.body@[b - 1] != self.body@[a - 1]);
            }
        }
        true
    }
}

/// Inside the wall every heading can be taken and followed: the head then
/// moves by exactly the unit step of that heading, and the body keeps its
/// length, or gains one segment where the snake was growing.
pub proof fn lemma_turn_and_advance(board: Board, snake: SnakeView, direction: Direction)
    requires
        board.wf(),
        board.interior(snake.head),
    ensures
        snake.turned(direction).can_advance(),
        snake.turned(direction).advanced().head.x == snake.head.x + direction.delta().x,
        snake.turned(direction).advanced().head.y == snake.head.y + direction.delta().y,
        snake.turned(direction).advanced().direction == direction,
        !snake.growing ==> snake.turned(direction).advanced().body.len() == snake.body.len(),
        snake.growing ==> snake.turned(direction).advanced().body.len() == snake.body.len() + 1,
{
}

/// A snake that is all head cannot run into itself.
pub proof fn lemma_head_alone_is_safe(snake: SnakeView)
    requires
        snake.body.len() == 0,
        snake.can_advance(),
    ensures
        !snake.advanced().hits_itself(),
{
    if snake.growing {
        assert(snake.advanced().body =~= seq![snake.head]);
    }
}

/// Whether a snake has hit the wall depends on the board and on the cell of
/// its head, and on nothing else: what holds of a head on a cell once holds
/// of every head on that cell.
pub proof fn lemma_wall_collision_goes_by_head(board: Board, a: SnakeView, b: SnakeView)
    requires
        a.head == b.head,
    ensures
        a.hits_wall(board) == b.hits_wall(board),
{
}

/// A move from inside the wall ends inside the wall or on the outermost ring
/// of the board, and hits the wall exactly when it ends on the ring.
pub proof fn lemma_wall_collision_is_on_ring(board: Board, snake: SnakeView)
    requires
        board.wf(),
        board.interior(snake.head),
    ensures
        board.interior(snake.advanced().head) || board.on_wall(snake.advanced().head),
        snake.advanced().hits_wall(board) <==> board.on_wall(snake.advanced().head),
{
}

} // verus!
