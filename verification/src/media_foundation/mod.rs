//! Media Foundation: H.264 and HEVC decoding on Windows.
//!
//! COM objects are addresses; zero stands for none.

pub mod com;
pub mod decoder;
pub mod extract;
pub mod geometry;
pub mod open;
pub mod run;
pub mod types;
