//! A test harness for heuristic contest solutions: which cases to run, where
//! their files live, how each run is scored, and the order results are reported in.

pub mod text;
pub mod cases;
pub mod score;
pub mod format;
pub mod reorder;
pub mod config;
pub mod harness;
pub mod engine;
