//! A small logger for three destinations: the terminal, a log file and the system logger.
//!
//! Each destination has a filter. A record that a filter takes becomes a message, the messages go
//! through a channel, and a task writes them where they belong, so that whoever logs does not wait
//! for a terminal or a disk.
//!
//! This crate holds what the logger decides and the texts that it writes:
//!
//! - [`level`]: levels and filters.
//! - [`clock`]: the date and time of a line.
//! - [`paint`]: colors of the terminal.
//! - [`line`]: the line of a record.
//! - [`logger`]: the messages of a record.
//! - [`writer`]: what the writing task does with a message.
//! - [`lifecycle`]: how the logger starts and ends.
//! - [`syslog`]: what the system logger is handed.
//! - [`task`]: the writing task and its channel over time.
//! - [`session`]: what all of this comes to from the start of a logger to its end.

pub mod clock;
pub mod level;
pub mod lifecycle;
pub mod line;
pub mod logger;
pub mod paint;
pub mod session;
pub mod syslog;
pub mod task;
pub mod writer;

pub use crate::clock::now;
pub use crate::level::{Level, LevelFilter};
pub use crate::lifecycle::{end, init, LoggerHandler};
pub use crate::line::{create_log, create_log_colored, Record};
pub use crate::logger::{LogMsg, TinyLogger};
pub use crate::writer::writer;
