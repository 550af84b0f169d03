//! Renders sequences of independently styled text fragments as ANSI
//! escape sequences, emitting as few control bytes as possible.
//!
//! The crate is organised leaf to root: [`style`] holds the style model
//! (attribute flags, colour slots, and the escape strings they produce),
//! [`difference`] classifies the minimal transition between two styles,
//! and [`display`] drives that classification across a sequence of
//! fragments to stream the whole output with one leading prefix, at most
//! one transition between fragments, and at most one trailing reset.

pub mod difference;
pub mod display;
pub mod style;
