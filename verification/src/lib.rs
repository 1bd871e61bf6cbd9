//! Gameplay core of a side-scrolling endless runner.
//!
//! The crate holds the rules of the game and nothing that touches a screen or
//! a keyboard: a character with a small state machine and simple physics,
//! obstacles with their collision rules, a catalogue of obstacle layouts, and
//! the world that scrolls them past the character one tick at a time.
//! Whatever is drawn leaves the crate as a list of plain drawing commands.

pub mod engine;
pub mod game;
