//! Events of a window manager's event stream, read from text.
//!
//! The stream is text, one event to a line: a keyword, the separator `>>`,
//! and a payload of comma-separated fields, such as `workspace>>3` or
//! `openwindow>>0x55f,3,kitty,~/projects`. A [`Command`] is one such event,
//! and it is read from a line with [`str::parse`]:
//!
//! ```text
//! "workspace>>3".parse::<Command>() == Ok(Command::Workspace(3))
//! ```
//!
//! [`grammar`] says what every line means, [`parse`] reads a line and is
//! proved to give exactly that, and [`laws`] holds what follows for all
//! lines. [`handle()`] writes the one-line report of an event.

pub mod command;
pub mod grammar;
pub mod handle;
pub mod kind;
pub mod laws;
pub mod number;
pub mod parse;
pub mod text;

pub use command::{Command, Error};
pub use handle::{handle, has_handler};
pub use kind::{Field, Kind};
