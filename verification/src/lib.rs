//! The rules of a game of falling blocks: the field, the seven shapes and
//! how they turn, the falling piece, what counts as a valid position, and
//! the game itself with its steps, its score and its end.
//!
//! Every type has a view, a mathematical model of what it holds, and every
//! function says over those views what it returns or changes. The laws
//! that relate the functions to each other are proof functions beside the
//! models: `matrix` and `figure` for turning, `board` for taking rows out,
//! `move_validator` for validity, and `game_model` for the game.

pub mod active_figure;
pub mod block;
pub mod board;
pub mod direction;
pub mod figure;
pub mod figure_type;
pub mod game;
pub mod game_model;
pub mod geometry;
pub mod graphics;
pub mod matrix;
pub mod move_validator;

pub use active_figure::ActiveFigure;
pub use block::Block;
pub use board::Board;
pub use direction::Direction;
pub use figure::Figure;
pub use figure_type::FigureType;
pub use game::{Action, Game, GameState, Randomizer};
pub use geometry::{Point, Rect, Size, UPoint};
pub use graphics::Color;
pub use matrix::Matrix;
