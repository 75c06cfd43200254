//! A session of the game and the rule that takes it from one tick to the
//! next.

use vstd::prelude::*;
use crate::board::{lemma_distinct_cells_fit, lemma_interior_area_bounds, Board};
use crate::error::ConfigError;
use crate::food::{is_free, lemma_placement_is_free, placement, Food};
use crate::geometry::{Direction, Point};
use crate::snake::{Snake, SnakeView};

verus! {

/// What the head ran into.
#[derive(Debug, Copy, Clone, PartialEq, Eq, Structural)]
pub enum Collision {
    /// The head left the interior of the board.
    Wall,
    /// The head moved onto a body segment.
    Body,
}

/// Where a session stands.
#[derive(Debug, Copy, Clone, PartialEq, Eq, Structural)]
pub enum Status {
    /// The snake is alive and the next tick will move it.
    Running,
    /// The snake ran into the wall or into itself.
    Collided(Collision),
    /// The snake ate and left no free cell for new food.
    Filled,
    /// The player ended the session.
    Quit,
}

/// What the player asked for since the last tick.
#[derive(Debug, Copy, Clone, PartialEq, Eq, Structural)]
pub enum Input {
    /// A new heading.
    Turn(Direction),
    /// Nothing: the snake keeps its heading.
    Idle,
    /// The end of the session.
    Quit,
}

/// What the program around the session is to do after a tick.
#[derive(Debug, Copy, Clone, PartialEq, Eq, Structural)]
pub enum Action {
    /// Draw the session as it now is.
    Render,
    /// Report this final score and end: the session is over.
    GameOver(u32),
}

/// A session: the board, the snake on it, the food and the score.
#[derive(Debug)]
pub struct Game {
    board: Board,
    snake: Snake,
    food: Food,
    score: u32,
    status: Status,
}

/// A session as a mathematical value.
pub struct GameView {
    pub board: Board,
    pub snake: SnakeView,
    pub food: Point,
    pub score: nat,
    pub status: Status,
}

impl GameView {
    /// What holds of every session: the board has an interior, the food lies
    /// in it, and the score fits its counter. While the session runs, the
    /// snake lies inside the wall on cells that are all different, and has
    /// scored no more points than it has, or is due to have, body segments.
    pub open spec fn wf(self) -> bool {
        &&& self.board.wf()
        &&& self.board.interior(self.food)
        &&& self.score <= u32::MAX
        &&& self.status is Running ==> {
            &&& self.snake.inside(self.board)
            &&& self.snake.simple()
            &&& self.score <= self.snake.body.len() + if self.snake.growing {
                1nat
            } else {
                0nat
            }
        }
    }

    /// The snake once it has taken its heading from `input`, if that gives
    /// one.
    pub open spec fn steered(self, input: Input) -> SnakeView {
        match input {
            Input::Turn(direction) => self.snake.turned(direction),
            _ => self.snake,
        }
    }

    /// Whether the tick that takes `input` brings the head onto the food
    /// without a collision.
    pub open spec fn eats(self, input: Input) -> bool {
        let snake = self.steered(input).advanced();
        &&& self.status is Running
        &&& !(input is Quit)
        &&& !snake.hits_wall(self.board)
        &&& !snake.hits_itself()
        &&& snake.head == self.food
    }

    /// The session after the tick that takes `input`, with `candidate`
    /// proposed as the new place of the food should the food be eaten.
    ///
    /// A session that is over stays as it is, and one that the player ends
    /// is over with nothing else changed. Else the snake takes the heading
    /// and moves. If its head has left the interior, or else lies on its
    /// body, the session ends there. Else, if the head lies on the food, the
    /// score goes up by one, the snake is due to grow, and the food goes
    /// where `placement` says; with no place left for it the session ends.
    pub open spec fn step(self, input: Input, candidate: Point) -> GameView {
        if !(self.status is Running) {
            self
        } else if input is Quit {
            self.stopped()
        } else {
            let snake = self.steered(input).advanced();
            if snake.hits_wall(self.board) {
                GameView { snake, status: Status::Collided(Collision::Wall), ..self }
            } else if snake.hits_itself() {
                GameView { snake, status: Status::Collided(Collision::Body), ..self }
            } else if snake.head == self.food {
                match placement(self.board, snake.fed(), candidate) {
                    Some(p) => GameView {
                        snake: snake.fed(),
                        food: p,
                        score: self.score + 1,
                        ..self
                    },
                    None => GameView {
                        snake: snake.fed(),
                        score: self.score + 1,
                        status: Status::Filled,
                        ..self
                    },
                }
            } else {
                GameView { snake, ..self }
            }
        }
    }

    /// What holds of the food after a meal: it lies on a free cell, or, where
    /// the session ended for want of one, no cell is free.
    pub open spec fn food_is_fresh(self) -> bool {
        if self.status is Running {
            is_free(self.board, self.snake, self.food)
        } else {
            self.status is Filled && forall|q: Point| !is_free(self.board, self.snake, q)
        }
    }

    /// The session after the ticks of `ticks`, in order: each gives what the
    /// player asked for and the cell proposed for the food.
    pub open spec fn replay(self, ticks: Seq<(Input, Point)>) -> GameView
        decreases ticks.len(),
    {
        if ticks.len() == 0 {
            self
        } else {
            self.replay(ticks.drop_last()).step(ticks.last().0, ticks.last().1)
        }
    }

    /// The session after the player has ended it.
    pub open spec fn stopped(self) -> GameView {
        if self.status is Running {
            GameView { status: Status::Quit, ..self }
        } else {
            self
        }
    }

    /// What is to be done with the session as it stands: drawn while it
    /// runs, and closed with the score once it is over.
    pub open spec fn action(self) -> Action {
        if self.status is Running {
            Action::Render
        } else {
            Action::GameOver(self.score as u32)
        }
    }
}

impl View for Game {
    type V = GameView;

    closed spec fn view(&self) -> GameView {
        GameView {
            board: self.board,
            snake: self.snake@,
            food: self.food.position,
            score: self.score as nat,
            status: self.status,
        }
    }
}

impl Game {
    /// Every session that exists at run time is well-formed.
    #[verifier::type_invariant]
    pub open spec fn wf(&self) -> bool {
        self@.wf()
    }

    /// A new session on a board of `height` rows and `width` columns, or the
    /// reason why the board cannot be made. The snake is all head, bound
    /// upwards, on a cell drawn at random; the food lies on another cell
    /// drawn at random, unless the head takes up the whole interior.
    pub fn new(height: i16, width: i16) -> (made: Result<Game, ConfigError>)
        ensures
            height < 3 ==> made is Err && made->Err_0 == ConfigError::HeightTooSmall,
            height >= 3 && width < 3 ==> made is Err && made->Err_0 == ConfigError::WidthTooSmall,
            height >= 3 && width >= 3 ==> made is Ok,
            made matches Ok(game) ==> {
                &&& game@.wf()
                &&& game@.board.height() == height
                &&& game@.board.width() == width
                &&& game@.snake.direction == Direction::Up
                &&& game@.snake.body.len() == 0
                &&& !game@.snake.growing
                &&& game@.score == 0
                &&& game@.status == Status::Running
                &&& game@.food == game@.snake.head ==> game@.board.interior_area() == 1
            },
    {
        let board = match Board::new(height, width) {
            Ok(board) => board,
            Err(e) => {
                return Err(e);
            },
        };
        let head = board.random_interior_position();
        let snake = Snake::new(head, Direction::Up);
        let mut food = Food { position: board.random_interior_position() };
        if food.position == head {
            let moved = food.relocate(&board, &snake);
            proof {
                if moved is None {
                    assert forall|q: Point| board.interior(q) implies q == head by {
                        assert(!is_free(board, snake@, q));
                    }
                    lemma_lone_cell(board, head);
                }
            }
        }
        proof {
            assert(snake@.cells() =~= seq![head]);
        }
        Ok(Game { board, snake, food, score: 0, status: Status::Running })
    }

    /// A session that starts with `snake` and `food` on `board` and no
    /// points, or the first thing that is wrong with them: food that does not
    /// lie inside the wall, a snake that does not, or a snake that lies on one
    /// cell twice.
    pub fn from_parts(board: Board, snake: Snake, food: Food) -> (made: Result<Game, ConfigError>)
        ensures
            !board.interior(food.position) ==> made is Err && made->Err_0
                == ConfigError::FoodOutside,
            board.interior(food.position) && !snake@.inside(board) ==> made is Err && made->Err_0
                == ConfigError::SnakeOutside,
            board.interior(food.position) && snake@.inside(board) && !snake@.simple() ==> made is Err
                && made->Err_0 == ConfigError::SnakeOverlaps,
            board.interior(food.position) && snake@.inside(board) && snake@.simple() ==> made is Ok,
            made matches Ok(game) ==> game@ == (GameView {
                board,
                snake: snake@,
                food: food.position,
                score: 0,
                status: Status::Running,
            }),
    {
        proof {
            use_type_invariant(&board);
        }
        if !board.is_interior(food.position) {
            Err(ConfigError::FoodOutside)
        } else if !snake.lies_inside(&board) {
            Err(ConfigError::SnakeOutside)
        } else if !snake.is_simple() {
            Err(ConfigError::SnakeOverlaps)
        } else {
            Ok(Game { board, snake, food, score: 0, status: Status::Running })
        }
    }

    /// The board of the session.
    pub fn board(&self) -> (board: &Board)
        ensures
            *board == self@.board,
    {
        &self.board
    }

    /// The snake as it now lies.
    pub fn snake(&self) -> (snake: &Snake)
        ensures
            snake@ == self@.snake,
    {
        &self.snake
    }

    /// The food as it now lies.
    pub fn food(&self) -> (food: Food)
        ensures
            food.position == self@.food,
    {
        self.food
    }

    /// The points scored so far.
    pub fn score(&self) -> (score: u32)
        ensures
            score == self@.score,
    {
        self.score
    }

    /// Where the session stands.
    pub fn status(&self) -> (status: Status)
        ensures
            status == self@.status,
    {
        self.status
    }

    /// One tick with the new place of the food left to chance. `input` is
    /// what the player asked for since the last tick.
    ///
    /// The session goes the way `GameView::step` says for some candidate
    /// cell, and the result says what is to be done next.
    pub fn tick(&mut self, input: Input) -> (action: Action)
        ensures
            exists|candidate: Point| final(self)@ == #[trigger] old(self)@.step(input, candidate),
            action == final(self)@.action(),
            old(self)@.eats(input) ==> final(self)@.food_is_fresh(),
    {
        let ghost before = self@;
        proof {
            use_type_invariant(&*self);
        }
        let action = self.settle(input, None);
        proof {
            if before.eats(input) {
                let candidate = choose|candidate: Point|
                    self@ == #[trigger] before.step(input, candidate);
                lemma_meal_moves_food(before, input, candidate);
            }
        }
        action
    }

    /// One tick with `candidate` proposed as the new place of the food.
    /// `input` is what the player asked for since the last tick.
    pub fn tick_with(&mut self, input: Input, candidate: Point) -> (action: Action)
        ensures
            final(self)@ == old(self)@.step(input, candidate),
            action == final(self)@.action(),
    {
        self.settle(input, Some(candidate))
    }

    /// The ticks of `ticks`, one after the other: each gives what the player
    /// asked for and the cell proposed for the food.
    pub fn replay(&mut self, ticks: &Vec<(Input, Point)>) -> (action: Action)
        ensures
            final(self)@ == old(self)@.replay(ticks@),
            action == final(self)@.action(),
    {
        let mut action = match self.status {
            Status::Running => Action::Render,
            _ => Action::GameOver(self.score),
        };
        let mut done: usize = 0;
        while done < ticks.len()
            invariant
                done <= ticks.len(),
                self@ == old(self)@.replay(ticks@.take(done as int)),
                action == self@.action(),
            decreases ticks.len() - done,
        {
            let (input, candidate) = ticks[done];
            action = self.tick_with(input, candidate);
            assert(ticks@.take(done + 1).drop_last() =~= ticks@.take(done as int));
            done += 1;
        }
        assert(ticks@.take(done as int) =~= ticks@);
        action
    }

    /// Ends the session at the player's wish, if it still runs, and tells the
    /// program to report the score. A tick that takes `Input::Quit` does the
    /// same.
    pub fn quit(&mut self) -> (action: Action)
        ensures
            final(self)@ == old(self)@.stopped(),
            action == Action::GameOver(old(self)@.score as u32),
    {
        proof {
            use_type_invariant(&*self);
        }
        if let Status::Running = self.status {
            self.status = Status::Quit;
        }
        Action::GameOver(self.score)
    }

    /// One tick. The food, if eaten, goes where `proposed` leads, or where
    /// chance leads if nothing is proposed.
    fn settle(&mut self, input: Input, proposed: Option<Point>) -> (action: Action)
        ensures
            exists|candidate: Point|
                (proposed matches Some(p) ==> candidate == p) && final(self)@ == #[trigger] old(
                    self,
                )@.step(input, candidate),
            action == final(self)@.action(),
    {
        proof {
            use_type_invariant(&*self);
        }
        let ghost before = self@;
        let ghost witness = match proposed {
            Some(p) => p,
            None => self.food.position,
        };
        match self.status {
            Status::Running => {},
            _ => {
                assert(self@ == before.step(input, witness));
                return Action::GameOver(self.score);
            },
        }
        if let Input::Quit = input {
            let action = self.quit();
            assert(self@ == before.step(input, witness));
            return action;
        }
        // The parts are taken out of the session, moved on, and put back as a
        // whole: a session is never seen half-way through a tick.
        let mut taken = Game {
            board: self.board,
            snake: Snake::new(self.snake.head, self.snake.direction),
            food: self.food,
            score: self.score,
            status: Status::Quit,
        };
        core::mem::swap(self, &mut taken);
        let Game { board, mut snake, mut food, mut score, mut status } = taken;
        proof {
            assert(before.snake.cells()[0] == before.snake.head);
            assert(before.steered(input).can_advance());
            lemma_step_keeps_wf(before, input, witness);
        }
        if let Input::Turn(direction) = input {
            snake.set_direction(direction);
        }
        snake.advance();
        let ghost mut candidate = witness;
        if snake.collided_with_wall(&board) {
            status = Status::Collided(Collision::Wall);
        } else if snake.has_self_collision() {
            status = Status::Collided(Collision::Body);
        } else if snake.head == food.position {
            proof {
                lemma_move_keeps_snake_whole(board, before.steered(input));
                lemma_snake_fits(board, snake@);
            }
            score = score + 1;
            snake.grow_body();
            let placed = match proposed {
                Some(p) => food.place(&board, &snake, p),
                None => food.relocate(&board, &snake),
            };
            proof {
                candidate = choose|c: Point|
                    (proposed matches Some(p) ==> c == p) && placed == #[trigger] placement(
                        board,
                        snake@,
                        c,
                    );
                lemma_step_keeps_wf(before, input, candidate);
            }
            if placed.is_none() {
                status = Status::Filled;
            }
        }
        let action = match status {
            Status::Running => Action::Render,
            _ => Action::GameOver(score),
        };
        *self = Game { board, snake, food, score, status };
        assert(self@ == before.step(input, candidate));
        action
    }
}

/// A board on which the head leaves no cell free has one interior cell.
proof fn lemma_lone_cell(board: Board, head: Point)
    requires
        board.wf(),
        board.interior(head),
        forall|q: Point| board.interior(q) ==> q == head,
    ensures
        board.interior_area() == 1,
{
    let right = Point { x: (head.x + 1) as i16, y: head.y };
    let left = Point { x: (head.x - 1) as i16, y: head.y };
    let below = Point { x: head.x, y: (head.y + 1) as i16 };
    let above = Point { x: head.x, y: (head.y - 1) as i16 };
    assert(!board.interior(right));
    assert(!board.interior(left));
    assert(!board.interior(below));
    assert(!board.interior(above));
    assert(board.width() == 3 && board.height() == 3);
}

/// A simple snake inside the wall has fewer body segments than the interior
/// has cells.
pub proof fn lemma_snake_fits(board: Board, snake: SnakeView)
    requires
        board.wf(),
        snake.inside(board),
        snake.simple(),
    ensures
        snake.body.len() + 1 <= board.interior_area() <= 32765 * 32765,
{
    lemma_distinct_cells_fit(board, snake.cells());
    lemma_interior_area_bounds(board);
}

/// A move that ends without a collision leaves the snake inside the wall and
/// simple.
pub proof fn lemma_move_keeps_snake_whole(board: Board, snake: SnakeView)
    requires
        board.wf(),
        snake.inside(board),
        snake.simple(),
        !snake.advanced().hits_wall(board),
        !snake.advanced().hits_itself(),
    ensures
        snake.advanced().inside(board),
        snake.advanced().simple(),
        snake.advanced().body.len() == snake.body.len() + if snake.growing {
            1nat
        } else {
            0nat
        },
{
    let next = snake.advanced();
    let trail = seq![snake.head] + snake.body;
    assert(trail =~= snake.cells());
    assert forall|i: int| 0 <= i < next.body.len() implies next.body[i] == snake.cells()[i] by {}
    assert forall|i: int| 0 <= i < next.cells().len() implies board.interior(
        #[trigger] next.cells()[i],
    ) by {
        if i > 0 {
            assert(next.cells()[i] == snake.cells()[i - 1]);
        }
    }
    assert forall|i: int, j: int|
        0 <= i < next.cells().len() && 0 <= j < next.cells().len() && i != j implies next.cells()[i]
        != next.cells()[j] by {
        if i == 0 {
            assert(next.cells()[j] == next.body[j - 1]);
        } else if j == 0 {
            assert(next.cells()[i] == next.body[i - 1]);
        } else {
            assert(next.cells()[i] == snake.cells()[i - 1]);
            assert(next.cells()[j] == snake.cells()[j - 1]);
        }
    }
}

/// Every tick keeps a session well-formed.
pub proof fn lemma_step_keeps_wf(game: GameView, input: Input, candidate: Point)
    requires
        game.wf(),
    ensures
        game.step(input, candidate).wf(),
{
    if game.status is Running {
        let steered = game.steered(input);
        let snake = steered.advanced();
        assert(steered.cells() == game.snake.cells());
        if !snake.hits_wall(game.board) && !snake.hits_itself() {
            lemma_move_keeps_snake_whole(game.board, steered);
            lemma_snake_fits(game.board, snake);
            if snake.head == game.food {
                assert(snake.fed().cells() == snake.cells());
                lemma_placement_is_free(game.board, snake.fed(), candidate);
            }
        }
    }
}

/// After a meal the food lies on a cell inside the wall that the snake does
/// not cover, its head least of all; the session ends with the meal only if
/// there is no such cell.
pub proof fn lemma_meal_moves_food(game: GameView, input: Input, candidate: Point)
    requires
        game.wf(),
        game.eats(input),
    ensures
        game.step(input, candidate).food_is_fresh(),
{
    lemma_placement_is_free(game.board, game.steered(input).advanced().fed(), candidate);
}

/// The score counts the meals: a tick adds one point if it brings the head
/// onto the food and none if it does not, and only a meal moves the food.
pub proof fn lemma_score_counts_meals(
    game: GameView,
    input: Input,
    candidate: Point,
)
    ensures
        game.eats(input) ==> game.step(input, candidate).score == game.score + 1,
        !game.eats(input) ==> game.step(input, candidate).score == game.score,
        !game.eats(input) ==> game.step(input, candidate).food == game.food,
{
}

/// A meal is worth one point and one body segment. The tick that brings the
/// head onto the food adds the point at once and leaves the snake growing;
/// the move after it, wherever it leads, leaves the body one segment longer
/// than it was before the meal. The score stays one up unless the next tick
/// brings another meal.
pub proof fn lemma_meal_adds_point_and_segment(
    game: GameView,
    input: Input,
    candidate: Point,
    next_input: Input,
    next_candidate: Point,
)
    requires
        game.wf(),
        game.eats(input),
        !game.snake.growing,
    ensures
        ({
            let fed = game.step(input, candidate);
            let after = fed.step(next_input, next_candidate);
            &&& fed.score == game.score + 1
            &&& fed.snake.growing
            &&& fed.snake.body.len() == game.snake.body.len()
            &&& fed.status is Running && !(next_input is Quit) ==> after.snake.body.len()
                == game.snake.body.len() + 1
            &&& !fed.eats(next_input) ==> after.score == game.score + 1
        }),
{
}

/// Chance has a say only at meals: a tick that brings no meal leads to the
/// same session whatever cell is proposed for the food.
pub proof fn lemma_chance_enters_at_meals(
    game: GameView,
    input: Input,
    candidate: Point,
    other: Point,
)
    requires
        !game.eats(input),
    ensures
        game.step(input, candidate) == game.step(input, other),
{
}

/// The course of a session is settled by where it starts, what the player
/// asks for and the cells proposed for the food: two sessions that agree in
/// these agree after every tick, in the snake, the food, the score and all
/// else.
pub proof fn lemma_replay_is_determined(
    a: GameView,
    b: GameView,
    ticks: Seq<(Input, Point)>,
    n: int,
)
    requires
        a == b,
        0 <= n <= ticks.len(),
    ensures
        a.replay(ticks.take(n)) == b.replay(ticks.take(n)),
        a.replay(ticks.take(n)).snake.head == b.replay(ticks.take(n)).snake.head,
        a.replay(ticks.take(n)).food == b.replay(ticks.take(n)).food,
        a.replay(ticks) == b.replay(ticks),
        a.replay(ticks).score == b.replay(ticks).score,
{
}

/// A session that is over stays as it is, whatever is asked of it.
pub proof fn lemma_over_is_over(game: GameView, ticks: Seq<(Input, Point)>)
    requires
        !(game.status is Running),
    ensures
        game.replay(ticks) == game,
    decreases ticks.len(),
{
    if ticks.len() > 0 {
        lemma_over_is_over(game, ticks.drop_last());
    }
}

/// Every run of ticks keeps a session well-formed.
pub proof fn lemma_replay_keeps_wf(game: GameView, ticks: Seq<(Input, Point)>)
    requires
        game.wf(),
    ensures
        game.replay(ticks).wf(),
    decreases ticks.len(),
{
    if ticks.len() > 0 {
        lemma_replay_keeps_wf(game, ticks.drop_last());
        lemma_step_keeps_wf(game.replay(ticks.drop_last()), ticks.last().0, ticks.last().1);
    }
}

} // verus!
