//! The simulation core of a falling-block puzzle played on two boards at once.
//!
//! A single three-dimensional piece falls through a shared volume. Each board
//! sees the piece through its own projection onto a plane, validates moves on
//! its own, and locks the piece when gravity can no longer move it.
//!
//! Every executable function is specified against a mathematical model: a
//! piece is a [`PieceModel`], a board a [`GridModel`], and the moves of the
//! game are the functions of [`play_model`].

pub mod vector;
pub mod piece;
pub mod rotation;
pub mod falling_piece;
pub mod grid_model;
pub mod grid;
pub mod grab_bag;
pub mod play_model;
pub mod play;
pub mod controls;

pub use controls::{move_piece_event, KeyState};
pub use falling_piece::{FallingPiece, FallingPieceEvent, PieceModel};
pub use grab_bag::GrabBag;
pub use grid::{grid_size_fits, Grid};
pub use grid_model::{CellValue, GridModel, PieceCollisionResult, Projection};
pub use piece::{PieceType, ALL_PIECE_TYPES};
pub use play::{
    any_grid_active, fast_drop_piece, place_new_piece, process_event, process_events,
    spawn_falling_piece, speculate_fast_drop_piece, try_drop_piece, try_rotate_piece,
    try_translate_piece, update_falling_piece, BatchOutcome,
};
pub use rotation::Rotation;
pub use vector::{IVec2, IVec3};
