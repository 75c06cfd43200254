//! What a screen shows of a session, cell by cell.

use vstd::prelude::*;
use crate::board::Board;
use crate::food::Food;
use crate::geometry::{Direction, Point};
use crate::snake::{Snake, SnakeView};

verus! {

/// What one cell of the board shows.
#[derive(Debug, Copy, Clone, PartialEq, Eq, Structural)]
pub enum Cell {
    /// Nothing.
    Empty,
    /// A piece of the wall.
    Wall,
    /// The food.
    Food,
    /// A body segment of the snake.
    Body,
    /// The head of the snake, with its heading.
    Head(Direction),
}

impl Board {
    /// What the cell `p` shows. Where several things share a cell, the food
    /// covers the wall, the wall covers the head, and the head covers the
    /// body.
    pub open spec fn cell(&self, snake: SnakeView, food: Point, p: Point) -> Cell {
        if p == food {
            Cell::Food
        } else if !self.interior(p) {
            Cell::Wall
        } else if p == snake.head {
            Cell::Head(snake.direction)
        } else if snake.body.contains(p) {
            Cell::Body
        } else {
            Cell::Empty
        }
    }

    /// The picture of the board with `snake` and `food` on it: one row for
    /// each `y` from the top, and in each row one cell for each `x` from the
    /// left.
    pub fn draw(&self, snake: &Snake, food: &Food) -> (rows: Vec<Vec<Cell>>)
        ensures
            rows@.len() == self.height(),
            forall|y: int| 0 <= y < self.height() ==> (#[trigger] rows@[y])@.len() == self.width(),
            forall|x: int, y: int|
                0 <= x < self.width() && 0 <= y < self.height() ==> (#[trigger] rows@[y]@[x])
                    == self.cell(snake@, food.position, Point { x: x as i16, y: y as i16 }),
    {
        proof {
            use_type_invariant(self);
        }
        let height = self.height();
        let width = self.width();
        let mut rows: Vec<Vec<Cell>> = Vec::new();
        let mut y: i16 = 0;
        while y < height
            invariant
                height == self.height(),
                width == self.width(),
                self.wf(),
                0 <= y <= height,
                rows@.len() == y,
                forall|j: int| 0 <= j < y ==> (#[trigger] rows@[j])@.len() == width,
                forall|i: int, j: int|
                    0 <= i < width && 0 <= j < y ==> (#[trigger] rows@[j]@[i]) == self.cell(
                        snake@,
                        food.position,
                        Point { x: i as i16, y: j as i16 },
                    ),
            decreases height - y,
        {
            let mut row: Vec<Cell> = Vec::new();
            let mut x: i16 = 0;
            while x < width
                invariant
                    height == self.height(),
                    width == self.width(),
                    self.wf(),
                    0 <= y < height,
                    0 <= x <= width,
                    row@.len() == x,
                    forall|i: int|
                        0 <= i < x ==> (#[trigger] row@[i]) == self.cell(
                            snake@,
                            food.position,
                            Point { x: i as i16, y },
                        ),
                decreases width - x,
            {
                let here = Point { x, y };
                let shown = if here == food.position {
                    Cell::Food
                } else if !self.is_interior(here) {
                    Cell::Wall
                } else if snake.at_head(x, y).is_some() {
                    Cell::Head(snake.direction)
                } else if snake.occupies(here) {
                    Cell::Body
                } else {
                    Cell::Empty
                };
                row.push(shown);
                x += 1;
            }
            rows.push(row);
            y += 1;
        }
        rows
    }
}

} // verus!
