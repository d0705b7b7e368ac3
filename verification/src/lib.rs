//! A small animated text-grid game: a one-row "snake" of glyphs moves across a
//! fixed-size character display with wrap-around arithmetic, eating food cells
//! (which grow it and raise the score) and dying on hazard cells (which reset
//! it). The per-tick state machine is pure: `tick` advances the state and
//! returns the draw commands for the frame, so a host can render them on any
//! character display.

use vstd::prelude::*;

pub mod game;
pub mod laws;
pub mod modular;
pub mod screen;

pub use game::{ArrowKey, GameModel, InputEvent, LetterMover};
pub use screen::{render_number, Color, DrawCmd};

verus! {

/// Number of columns of the character display; also the snake's glyph capacity.
pub const WIDTH: usize = 80;

/// Number of rows of the character display.
pub const HEIGHT: usize = 25;

} // verus!
