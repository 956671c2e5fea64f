//! The decisions of a crawler that gathers statistics about clans.
//!
//! The crate holds no input or output. A function that only computes takes and returns plain
//! values. A task that takes turns with a database, a web site or a clock is a state machine:
//! it says what it wants done and is told what came of it.

pub mod calendar;
pub mod checkdb;
pub mod clan;
pub mod config;
pub mod crawl;
pub mod import;
pub mod input;
pub mod leave;
pub mod model;
pub mod process;
pub mod task;
pub mod text;
pub mod timer;
pub mod update;
