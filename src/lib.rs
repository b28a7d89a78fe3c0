//! A terminal word clock: the current time spelled out in words and hidden
//! in a square grid of random capital letters.

pub mod cell;
pub mod clock;
pub mod grid;
pub mod outside;
pub mod style;
