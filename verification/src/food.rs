//! The food: one cell inside the wall, moved to a free cell when eaten.

use vstd::prelude::*;
use crate::board::Board;
use crate::geometry::{lemma_point_order, Point};
use crate::snake::{Snake, SnakeView};

verus! {

/// How often `Food::relocate` draws a cell at random before it walks the
/// board for a free one.
pub const RELOCATION_DRAWS: u32 = 64;

/// The cell where the food lies.
#[derive(Debug, Copy, Clone, PartialEq, Eq, Structural)]
pub struct Food {
    pub position: Point,
}

/// Whether food may lie on `p`: inside the wall of `board` and off `snake`.
pub open spec fn is_free(board: Board, snake: SnakeView, p: Point) -> bool {
    board.interior(p) && !snake.occupies(p)
}

/// Whether `p` is free and no free cell precedes it in the order of points.
pub open spec fn is_first_free(board: Board, snake: SnakeView, p: Point) -> bool {
    &&& is_free(board, snake, p)
    &&& forall|q: Point| #[trigger] is_free(board, snake, q) ==> !q.precedes(p)
}

/// The first free cell in the order of points, if any cell is free.
pub open spec fn first_free(board: Board, snake: SnakeView) -> Option<Point> {
    if exists|p: Point| is_free(board, snake, p) {
        Some(choose|p: Point| is_first_free(board, snake, p))
    } else {
        None
    }
}

/// Where the food goes when `candidate` is proposed: onto `candidate` if it
/// is free, else onto the first free cell, and nowhere if no cell is free.
pub open spec fn placement(board: Board, snake: SnakeView, candidate: Point) -> Option<Point> {
    if is_free(board, snake, candidate) {
        Some(candidate)
    } else {
        first_free(board, snake)
    }
}

/// A free cell that no free cell precedes is the first free cell.
pub proof fn lemma_first_free_is(board: Board, snake: SnakeView, p: Point)
    requires
        is_first_free(board, snake, p),
    ensures
        first_free(board, snake) == Some(p),
{
    let chosen = choose|c: Point| is_first_free(board, snake, c);
    assert(is_first_free(board, snake, chosen));
    assert(is_free(board, snake, p));
    assert(is_free(board, snake, chosen));
    lemma_point_order(p, chosen, p);
}

/// A proposed cell is turned down only for a free one, and food is left
/// without a place only where no cell is free.
pub proof fn lemma_placement_is_free(board: Board, snake: SnakeView, candidate: Point)
    requires
        board.wf(),
    ensures
        match placement(board, snake, candidate) {
            Some(p) => is_free(board, snake, p),
            None => forall|q: Point| !is_free(board, snake, q),
        },
{
    if !is_free(board, snake, candidate) {
        if exists|p: Point| is_free(board, snake, p) {
            lemma_some_cell_is_first_free(board, snake);
        }
    }
}

/// Where a cell is free, one of the free cells comes first.
proof fn lemma_some_cell_is_first_free(board: Board, snake: SnakeView)
    requires
        board.wf(),
        exists|p: Point| is_free(board, snake, p),
    ensures
        exists|p: Point| is_first_free(board, snake, p),
{
    let witness = choose|p: Point| is_free(board, snake, p);
    lemma_first_free_from(board, snake, witness, 1, 1);
}

/// Induction over the interior cells in the order of points, from row `y` of
/// column `x` on: when no free cell precedes that cell and some cell is free,
/// a first free cell exists.
proof fn lemma_first_free_from(board: Board, snake: SnakeView, witness: Point, x: int, y: int)
    requires
        board.wf(),
        is_free(board, snake, witness),
        1 <= x < board.width() - 1,
        1 <= y < board.height() - 1,
        forall|q: Point| #[trigger]
            is_free(board, snake, q) ==> q.x > x || (q.x == x && q.y >= y),
    ensures
        exists|p: Point| is_first_free(board, snake, p),
    decreases board.width() - x, board.height() - y,
{
    let here = Point { x: x as i16, y: y as i16 };
    if is_free(board, snake, here) {
        assert(is_first_free(board, snake, here));
    } else if y + 1 < board.height() - 1 {
        assert forall|q: Point| #[trigger] is_free(board, snake, q) implies q.x > x || (q.x == x
            && q.y >= y + 1) by {
            if q.x == x && q.y == y {
                assert(q == here);
            }
        }
        lemma_first_free_from(board, snake, witness, x, y + 1);
    } else {
        assert forall|q: Point| #[trigger] is_free(board, snake, q) implies q.x > x by {
            if q.x == x && q.y == y {
                assert(q == here);
            }
        }
        assert(witness.x > x);
        lemma_first_free_from(board, snake, witness, x + 1, 1);
    }
}

/// The first free cell of `board` in the order of points, found by walking
/// the interior column by column.
pub fn first_free_cell(board: &Board, snake: &Snake) -> (found: Option<Point>)
    ensures
        found == first_free(*board, snake@),
        found matches Some(p) ==> is_first_free(*board, snake@, p),
        found is None ==> forall|q: Point| !is_free(*board, snake@, q),
{
    proof {
        use_type_invariant(board);
    }
    let height = board.height();
    let width = board.width();
    let mut x: i16 = 1;
    while x < width - 1
        invariant
            height == board.height(),
            width == board.width(),
            board.wf(),
            1 <= x <= width - 1,
            forall|q: Point| #[trigger] is_free(*board, snake@, q) ==> q.x >= x,
        decreases width - x,
    {
        let mut y: i16 = 1;
        while y < height - 1
            invariant
                height == board.height(),
                width == board.width(),
                board.wf(),
                1 <= x < width - 1,
                1 <= y <= height - 1,
                forall|q: Point| #[trigger]
                    is_free(*board, snake@, q) ==> q.x > x || (q.x == x && q.y >= y),
            decreases height - y,
        {
            let here = Point { x, y };
            if !snake.occupies(here) {
                proof {
                    assert(is_first_free(*board, snake@, here));
                    lemma_first_free_is(*board, snake@, here);
                }
                return Some(here);
            }
            y += 1;
        }
        x += 1;
    }
    None
}

impl Food {
    /// Moves the food onto `candidate` if that cell is free, else onto the
    /// first free cell; leaves it where it is if no cell is free.
    pub fn place(&mut self, board: &Board, snake: &Snake, candidate: Point) -> (placed: Option<
        Point,
    >)
        ensures
            placed == placement(*board, snake@, candidate),
            final(self).position == match placed {
                Some(p) => p,
                None => old(self).position,
            },
    {
        let found = if board.is_interior(candidate) && !snake.occupies(candidate) {
            Some(candidate)
        } else {
            first_free_cell(board, snake)
        };
        if let Some(p) = found {
            self.position = p;
        }
        found
    }

    /// Moves the food to a free cell: one drawn at random if a free one comes
    /// up within `RELOCATION_DRAWS` draws, else the first free cell. Leaves
    /// the food where it is, and says so with `None`, only if no cell is
    /// free.
    pub fn relocate(&mut self, board: &Board, snake: &Snake) -> (placed: Option<Point>)
        ensures
            placed matches Some(p) ==> is_free(*board, snake@, p),
            placed is None ==> forall|q: Point| !is_free(*board, snake@, q),
            exists|candidate: Point| placed == #[trigger] placement(*board, snake@, candidate),
            final(self).position == match placed {
                Some(p) => p,
                None => old(self).position,
            },
    {
        let mut draws: u32 = 0;
        while draws < RELOCATION_DRAWS
            invariant
                *self == *old(self),
            decreases RELOCATION_DRAWS - draws,
        {
            let candidate = board.random_interior_position();
            if !snake.occupies(candidate) {
                assert(placement(*board, snake@, candidate) == Some(candidate));
                self.position = candidate;
                return Some(candidate);
            }
            draws += 1;
        }
        let found = first_free_cell(board, snake);
        match found {
            Some(p) => {
                assert(placement(*board, snake@, p) == found);
                self.position = p;
            },
            None => {
                assert(placement(*board, snake@, self.position) == found);
            },
        }
        found
    }
}

} // verus!
