//! Core of a supervisor for a long-running command-line worker process.
//!
//! The library holds the verified logic: the lifecycle state machine of the
//! supervised process, the stateful parser that turns the worker's console
//! output into structured log records, the bounded in-memory log sink, and
//! the text helpers these share. Reading the worker's pipes, the log file on
//! disk and the rest of the surrounding plumbing live outside the library and
//! exchange plain values with it.

pub mod announcement;
pub mod clock;
pub mod config;
pub mod encryption;
pub mod logger;
pub mod process;
pub mod settings;
pub mod sra_parser;
pub mod text;
pub mod types;
pub mod wallpaper;
