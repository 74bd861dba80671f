//! A line editor for byte-oriented serial consoles.
//!
//! The editor takes the bytes that a terminal sends, one at a time, and keeps
//! a line of text, a cursor in it, and a history of the lines entered before.
//! For every byte it says which bytes to send back, so that the terminal
//! shows the line as the editor has it.
//!
//! - [`line`]: a line of bytes of fixed capacity, with a cursor.
//! - [`buffers`]: the ring that holds the line in progress and the history.
//! - [`line_diff`]: what to send to the terminal after an edit.
//! - [`readline`]: what each byte of input asks for, and a session on
//!   recorded input.
//! - [`screen`], [`history`] and [`session`]: the laws that the editor keeps,
//!   of the terminal, of the history, and of a whole session.
//!
//! The library reads and writes nothing itself. A caller reads a byte, hands
//! it to [`Readline::process_byte`], and sends what comes back.

pub mod buffers;
pub mod history;
pub mod line;
pub mod line_diff;
pub mod readline;
pub mod readline_error;
pub mod screen;
pub mod session;
pub mod util;

pub use buffers::Buffers;
pub use line::{Line, LineError};
pub use line_diff::LineDiff;
pub use readline::{readline, Readline};
pub use readline_error::ReadlineError;
