//! What a whole session comes to: the bytes that it reads, what it sends, and
//! the line that it commits.

use vstd::prelude::*;
use vstd::arithmetic::div_mod::lemma_mod_bound;
use crate::buffers::BuffersView;
use crate::line::{LineError, LineView};
use crate::line_diff::{LineDiff, BACKSPACE};
use crate::readline::{
    action_of, char_edit, edit_diff, edit_fits, edit_result, edited_line, lemma_edit_diff_turns,
    lemma_edit_keeps_terminal, Action, Edit, ReadlineStatus,
};
use crate::readline_error::ReadlineError;
use crate::screen::{lemma_feed_concat, prints, Screen};
use crate::util::lemma_previous_word_start_bounds;

verus! {

/// How a session ends.
pub enum Ending {
    /// A line end was read, and this line was committed.
    Committed(LineView),
    /// The input ended before the line did.
    Eof,
    /// An escape byte came within an escape sequence.
    UnexpectedEscape,
    /// This byte came after an escape byte, where only `[` can stand.
    UnexpectedChar(u8),
    /// A byte was typed into a full line.
    OutOfBounds,
}

impl Ending {
    /// The error that the session returns, where it ends without a line.
    pub open spec fn error<Error>(self) -> Option<ReadlineError<Error>> {
        match self {
            Ending::Committed(_) => None,
            Ending::Eof => Some(ReadlineError::UnexpectedEof),
            Ending::UnexpectedEscape => Some(ReadlineError::UnexpectedEscape),
            Ending::UnexpectedChar(byte) => Some(ReadlineError::UnexpectedChar(byte)),
            Ending::OutOfBounds => Some(ReadlineError::LineError(LineError::OutOfBounds)),
        }
    }
}

/// A session from its first byte to its end.
pub struct Run {
    /// How many bytes of the input the session read.
    pub consumed: int,
    /// The bytes that it sent to the terminal.
    pub output: Seq<u8>,
    /// The line that was selected when it ended, before a commit.
    pub shown: LineView,
    /// The ring that it left.
    pub ring: BuffersView,
    /// How it ended.
    pub ending: Ending,
}

impl Run {
    /// The session that ends on its first byte, or before it.
    pub open spec fn ended(consumed: int, ring: BuffersView, ending: Ending) -> Run {
        Run { consumed, output: Seq::empty(), shown: ring.current(), ring, ending }
    }

    /// The session that read `consumed` bytes and sent `output` before this
    /// one began.
    pub open spec fn prefixed(self, consumed: int, output: Seq<u8>) -> Run {
        Run {
            consumed: consumed + self.consumed,
            output: output + self.output,
            shown: self.shown,
            ring: self.ring,
            ending: self.ending,
        }
    }

    /// The session that read one byte more at its start, and sent `sent` for it.
    pub open spec fn after(self, sent: Seq<u8>) -> Run {
        Run {
            consumed: self.consumed + 1,
            output: sent + self.output,
            shown: self.shown,
            ring: self.ring,
            ending: self.ending,
        }
    }
}

/// The session that reads `input` in state `status`, on a ring whose lines hold
/// `capacity` bytes. It reads up to the first line end, and commits the
/// selected line there; it ends early at the end of the input, at a byte that
/// can not stand where it comes, and at a byte typed into a full line, and
/// leaves the ring as it is then.
pub open spec fn run(
    status: ReadlineStatus,
    ring: BuffersView,
    input: Seq<u8>,
    capacity: int,
) -> Run
    decreases input.len(),
{
    if input.len() == 0 {
        Run::ended(0, ring, Ending::Eof)
    } else {
        let rest = input.skip(1);
        match action_of(input[0], status) {
            Action::Finish => Run {
                consumed: 1,
                output: Seq::empty(),
                shown: ring.current(),
                ring: ring.committed(),
                ending: Ending::Committed(LineView::typed(ring.current().content)),
            },
            Action::Enter(next) => run(next, ring, rest, capacity).after(Seq::empty()),
            Action::Ignore => run(ReadlineStatus::Char, ring, rest, capacity).after(Seq::empty()),
            Action::RejectEscape => Run::ended(1, ring, Ending::UnexpectedEscape),
            Action::RejectChar(byte) => Run::ended(1, ring, Ending::UnexpectedChar(byte)),
            Action::Apply(edit) => if edit_fits(ring, edit, capacity) {
                let next = edit_result(ring, edit);
                run(ReadlineStatus::Char, next, rest, capacity).after(
                    edit_diff(ring, edit).rendering(next.current()),
                )
            } else {
                Run::ended(1, ring, Ending::OutOfBounds)
            },
        }
    }
}

/// No line of the ring holds a backspace.
pub open spec fn ring_prints(ring: BuffersView) -> bool {
    forall|i: int| 0 <= i < ring.depth() ==> prints(#[trigger] ring.lines[i].content)
}

/// An edit puts no backspace into the ring, unless it types one.
pub proof fn lemma_edit_keeps_printable(ring: BuffersView, edit: Edit, capacity: int)
    requires
        ring.fits(capacity),
        ring_prints(ring),
        edit != Edit::Insert(BACKSPACE),
    ensures
        ring_prints(edit_result(ring, edit)),
{
    let line = ring.current();
    lemma_mod_bound(ring.last_idx, ring.depth());
    lemma_mod_bound(ring.last_idx - ring.offset, ring.depth());
    if edit == Edit::DeleteWord {
        lemma_previous_word_start_bounds(line.content, line.cursor);
    }
}

/// A session keeps the terminal in step with the editor. A terminal that
/// shows the selected line and takes all that a session sends, shows the line
/// that is selected when the session ends, however it ends. No line of the
/// ring may hold a backspace at the start; the session puts none in.
pub proof fn lemma_session_keeps_terminal(
    screen: Screen,
    status: ReadlineStatus,
    ring: BuffersView,
    input: Seq<u8>,
    capacity: int,
)
    requires
        ring.fits(capacity),
        capacity <= usize::MAX,
        ring_prints(ring),
        screen.shows(ring.current()),
    ensures
        screen.feed(run(status, ring, input, capacity).output).shows(
            run(status, ring, input, capacity).shown,
        ),
    decreases input.len(),
{
    if input.len() > 0 {
        let rest = input.skip(1);
        match action_of(input[0], status) {
            Action::Enter(next) => {
                lemma_session_keeps_terminal(screen, next, ring, rest, capacity);
            },
            Action::Ignore => {
                lemma_session_keeps_terminal(screen, ReadlineStatus::Char, ring, rest, capacity);
            },
            Action::Apply(edit) => {
                if edit_fits(ring, edit, capacity) {
                    let next = edit_result(ring, edit);
                    let sent = edit_diff(ring, edit).rendering(next.current());
                    lemma_edit_diff_turns(ring, edit, capacity);
                    lemma_edit_keeps_printable(ring, edit, capacity);
                    lemma_mod_bound(next.last_idx - next.offset, next.depth());
                    lemma_edit_keeps_terminal(screen, ring, edit, capacity);
                    lemma_session_keeps_terminal(
                        screen.feed(sent),
                        ReadlineStatus::Char,
                        next,
                        rest,
                        capacity,
                    );
                    lemma_feed_concat(
                        screen,
                        sent,
                        run(ReadlineStatus::Char, next, rest, capacity).output,
                    );
                }
            },
            _ => {},
        }
    }
}

/// A request for a line that is not there is no error: it changes nothing,
/// and nothing is sent. That is the next line where the line in progress is
/// selected, and the previous line where the oldest retained line is.
pub proof fn lemma_request_out_of_range(ring: BuffersView, capacity: int)
    requires
        ring.fits(capacity),
    ensures
        ring.offset == 0 ==> edit_result(ring, Edit::NextLine) == ring && edit_diff(
            ring,
            Edit::NextLine,
        ) == LineDiff::nothing_at(ring.current().len()),
        ring.offset == ring.retained() ==> edit_result(ring, Edit::PrevLine) == ring && edit_diff(
            ring,
            Edit::PrevLine,
        ) == LineDiff::nothing_at(ring.current().len()),
{
}

/// Looking at the previous line and coming back changes nothing: the line in
/// progress is selected again, and every line is as it was.
pub proof fn lemma_previous_then_next(ring: BuffersView, capacity: int)
    requires
        ring.fits(capacity),
        ring.offset == 0,
    ensures
        edit_result(edit_result(ring, Edit::PrevLine), Edit::NextLine) == ring,
{
}

/// `byte` is one that is typed as it comes: no line end, no escape, and none
/// of the bytes that ask for an edit.
pub open spec fn is_typed(byte: u8) -> bool {
    action_of(byte, ReadlineStatus::Char) == Action::Apply(Edit::Insert(byte))
}

/// What is typed is echoed as it is typed. A session that begins with
/// the cursor at the end of the selected line and reads bytes that are typed
/// as they come, as many as the line holds, and then a line end, sends just
/// these bytes, and commits the line with them at its end.
pub proof fn lemma_typing_is_echoed(ring: BuffersView, text: Seq<u8>, end: u8, capacity: int)
    requires
        ring.fits(capacity),
        capacity <= usize::MAX,
        ring.current().cursor == ring.current().len(),
        ring.current().len() + text.len() <= capacity,
        forall|i: int| 0 <= i < text.len() ==> is_typed(#[trigger] text[i]),
        end == 0x0A || end == 0x0D,
    ensures
        ({
            let session = run(ReadlineStatus::Char, ring, text.push(end), capacity);
            &&& session.consumed == text.len() + 1
            &&& session.output == text
            &&& session.ending == Ending::Committed(
                LineView::typed(ring.current().content + text),
            )
        }),
    decreases text.len(),
{
    let input = text.push(end);
    let line = ring.current();
    if text.len() > 0 {
        let byte = text[0];
        let edit = Edit::Insert(byte);
        let next = edit_result(ring, edit);
        lemma_edit_diff_turns(ring, edit, capacity);
        lemma_mod_bound(ring.last_idx, ring.depth());
        lemma_mod_bound(ring.last_idx - ring.offset, ring.depth());
        assert(next.current().content =~= line.content.push(byte));
        assert(input.skip(1) =~= text.skip(1).push(end));
        lemma_typing_is_echoed(next, text.skip(1), end, capacity);
        assert(line.content.push(byte) + text.skip(1) =~= line.content + text);
    }
}

} // verus!
