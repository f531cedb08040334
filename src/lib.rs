//! A falling-block puzzle engine: piece geometry and rotation, the board of
//! locked cells, line clearing, and the per-tick game state machine. Beside
//! it stand the pieces of a snake game and two integer sequences.

pub mod geometry;
pub mod graphics;
pub mod block;
pub mod matrix;
pub mod figure_type;
pub mod figure;
pub mod active_figure;
pub mod board;
pub mod game;
pub mod snake;
pub mod snake_game;
pub mod fibonacci;
pub mod euler;

pub use active_figure::ActiveFigure;
pub use block::Block;
pub use board::Board;
pub use figure::Figure;
pub use figure_type::FigureType;
pub use game::Game;
pub use geometry::{Direction, Point, Rect, Size, UPoint};
pub use graphics::Color;
pub use matrix::Matrix;
pub use snake::{SNAKE_START_DIRECTION, Snake, snake_block_at};
