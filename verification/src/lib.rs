//! Experiments with an analysis tool on many benchmarks: a script names a
//! command with placeholders and the providers that resolve them; the
//! library expands it into one task for each benchmark and keeps the book
//! of a run, in which workers take the tasks from a queue, each task once.

pub mod config;
pub mod document;
pub mod error;
pub mod expansion;
pub mod laws;
pub mod loaders;
pub mod runner;
pub mod script;
pub mod tacle;
pub mod task;
pub mod text;
