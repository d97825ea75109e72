//! The test pipeline: what it runs, in which order, and how it judges what came of it.

pub mod args;
pub mod command;
pub mod report;
pub mod runner;
pub mod vm;
