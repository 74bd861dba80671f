//! What ends an editing session before its line is complete.

use vstd::prelude::*;
use crate::line::LineError;

verus! {

/// Why an editing session failed. `Error` is the error of the transport that
/// the bytes come from and go to.
#[derive(Debug, PartialEq)]
pub enum ReadlineError<Error> {
    /// The transport failed.
    ReaderWriterError(Error),
    /// An edit of the line was refused.
    LineError(LineError),
    /// The line is full.
    BufferFullError,
    /// An escape byte came within an escape sequence.
    UnexpectedEscape,
    /// A control sequence came where none can stand.
    UnexpectedCtrl,
    /// The transport ended before the line did.
    UnexpectedEof,
    /// This byte came after an escape byte, where only `[` can stand.
    UnexpectedChar(u8),
}

} // verus!
