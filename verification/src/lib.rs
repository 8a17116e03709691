//! A toy pseudo-random number library.
//!
//! Randomness is derived from the last character of the rendered current
//! time of day. Single digits are sampled from that source, and a
//! composition loop grows, shrinks and retries digit strings until a value
//! falls inside a caller-supplied inclusive range.

pub(crate) mod clock;
pub mod digits;
pub mod game;
pub mod my_random;
pub mod random;
