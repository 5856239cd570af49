//! Solvers for a handful of small programming puzzles, with a stored-program
//! machine at the centre.
//!
//! The library reads no file and prints nothing. A solver says which input
//! file a part works on, takes the text of that file, and gives back the
//! line to print.

pub mod challenge;
pub mod four;
pub mod input;
pub mod one;
pub mod runner;
pub mod text;
pub mod three;
pub mod two;
