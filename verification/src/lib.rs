//! A snake game on a bounded grid: the state of a session and the rules that
//! move it from one tick to the next. Screen and keyboard are left to the
//! program that embeds the library.

pub mod board;
pub mod error;
pub mod food;
pub mod frame;
pub mod game;
pub mod geometry;
pub mod random;
pub mod snake;

pub use board::Board;
pub use error::ConfigError;
pub use food::Food;
pub use frame::Cell;
pub use game::{Action, Collision, Game, GameView, Input, Status};
pub use geometry::{Direction, Point};
pub use random::random_Point;
pub use snake::{Snake, SnakeView};
