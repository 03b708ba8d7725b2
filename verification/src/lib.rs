//! A countdown timer for a character-cell terminal: the timer's modes and
//! transitions, the projection of a mode onto the `MM:SS` display, the blink
//! clock, the digit glyphs and the layout of a frame.
//!
//! The library performs no input or output. It is driven by a caller that polls
//! the keyboard, reads a monotonic clock, and paints the frames it is handed.

pub mod clock;
pub mod font;
pub mod mode;
pub mod render;
pub mod session;
pub mod text;
