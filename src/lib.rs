//! Randomised call-sequence generation for fuzzing contract entry points.
//!
//! Generators describe how to draw each argument; a draw is recorded as a
//! [`arg::Sample`] and rendered to text by verified code, so that the text of a
//! script is a function of its drawn samples.

pub mod arg;
pub mod function;
pub mod fuzz_generator;
pub mod random;
pub mod text;
