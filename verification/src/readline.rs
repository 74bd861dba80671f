//! The editor's response to its input, byte by byte.
//!
//! A session reads bytes one at a time. [`Readline::process_byte`] takes the
//! next byte, edits the [`Buffers`] as the byte asks, and returns what to send
//! to the terminal and whether the line is complete. Reading and sending are
//! the caller's part. [`readline`] runs a whole session on input that is at
//! hand already.

use vstd::prelude::*;
use vstd::arithmetic::div_mod::lemma_mod_bound;
use crate::screen::{lemma_diff_of_turns, lemma_rendering_shows_new, prints, Screen};
use crate::util::lemma_previous_word_start_bounds;
use crate::buffers::{
    backward_diff, delete_diff, forward_diff, insert_diff, truncate_diff, Buffers, BuffersView,
    LineResult,
};
use crate::line::{Line, LineError, LineView};
use crate::line_diff::{diff_of, LineDiff};
use crate::readline_error::ReadlineError;
use crate::session::{run, Ending, Run};
use crate::util::previous_word_start;

verus! {

/// Where in an escape sequence the session stands.
#[derive(Debug, PartialEq, Eq, Copy, Clone, Structural)]
pub enum ReadlineStatus {
    /// Reading plain bytes.
    Char,
    /// Just read an escape byte.
    Escape,
    /// Just read an escape byte and `[`.
    Ctrl,
}

/// Whether the session goes on reading.
#[derive(Debug, PartialEq, Eq, Copy, Clone, Structural)]
pub enum Loop {
    /// The line is not complete.
    Continue,
    /// The line is complete.
    Break,
}

/// An edit that a byte, or an escape sequence, asks for.
#[derive(Debug, PartialEq, Eq, Copy, Clone, Structural)]
pub enum Edit {
    /// Type this byte at the cursor.
    Insert(u8),
    /// Delete the byte before the cursor.
    DeleteChar,
    /// Delete the word before the cursor.
    DeleteWord,
    /// Delete from the cursor to the end of the line.
    DeleteToEnd,
    /// Move the cursor to the start of the line.
    CursorToStart,
    /// Move the cursor to the end of the line.
    CursorToEnd,
    /// Move the cursor one byte to the left.
    CursorLeft,
    /// Move the cursor one byte to the right.
    CursorRight,
    /// Select the line committed before the selected one.
    PrevLine,
    /// Select the line committed after the selected one.
    NextLine,
}

/// What a byte means to a session.
pub enum Action {
    /// The line is complete.
    Finish,
    /// The byte is part of an escape sequence, which goes on in this state.
    Enter(ReadlineStatus),
    /// The byte, or the sequence that it ends, asks for this edit.
    Apply(Edit),
    /// The byte ends an escape sequence that asks for nothing.
    Ignore,
    /// An escape byte within an escape sequence.
    RejectEscape,
    /// A byte other than `[` after an escape byte.
    RejectChar(u8),
}

/// The edit that the last byte of a control sequence asks for: the four arrow
/// keys, and nothing else.
pub open spec fn control_edit(byte: u8) -> Option<Edit> {
    if byte == 0x41 {
        Some(Edit::PrevLine)
    } else if byte == 0x42 {
        Some(Edit::NextLine)
    } else if byte == 0x43 {
        Some(Edit::CursorRight)
    } else if byte == 0x44 {
        Some(Edit::CursorLeft)
    } else {
        None
    }
}

/// The edit that a byte asks for outside escape sequences.
pub open spec fn char_edit(byte: u8) -> Edit {
    if byte == 0x08 || byte == 0x7F {
        Edit::DeleteChar
    } else if byte == 0x01 {
        Edit::CursorToStart
    } else if byte == 0x05 {
        Edit::CursorToEnd
    } else if byte == 0x0B {
        Edit::DeleteToEnd
    } else if byte == 0x0E {
        Edit::NextLine
    } else if byte == 0x10 {
        Edit::PrevLine
    } else if byte == 0x17 {
        Edit::DeleteWord
    } else {
        Edit::Insert(byte)
    }
}

/// What `byte` means to a session in state `status`.
pub open spec fn action_of(byte: u8, status: ReadlineStatus) -> Action {
    if byte == 0x0A || byte == 0x0D {
        Action::Finish
    } else if byte == 0x1B {
        if status == ReadlineStatus::Char {
            Action::Enter(ReadlineStatus::Escape)
        } else {
            Action::RejectEscape
        }
    } else {
        match status {
            ReadlineStatus::Char => Action::Apply(char_edit(byte)),
            ReadlineStatus::Escape => if byte == 0x5B {
                Action::Enter(ReadlineStatus::Ctrl)
            } else {
                Action::RejectChar(byte)
            },
            ReadlineStatus::Ctrl => match control_edit(byte) {
                Some(edit) => Action::Apply(edit),
                None => Action::Ignore,
            },
        }
    }
}

/// The selected line after `edit`, where the edit is one of the line.
pub open spec fn edited_line(line: LineView, edit: Edit) -> LineView {
    match edit {
        Edit::Insert(byte) => line.insert(line.cursor, seq![byte]),
        Edit::DeleteChar => line.remove(
            if line.cursor >= 1 {
                line.cursor - 1
            } else {
                0
            },
            line.cursor,
        ),
        Edit::DeleteWord => line.remove(
            previous_word_start(line.content, line.cursor),
            line.cursor,
        ),
        Edit::DeleteToEnd => line.truncated(),
        Edit::CursorToStart => line.with_cursor(0),
        Edit::CursorToEnd => line.with_cursor(line.len()),
        Edit::CursorLeft => line.moved(-1),
        Edit::CursorRight => line.moved(1),
        Edit::PrevLine | Edit::NextLine => line,
    }
}

/// The ring after `edit`. A move through the history changes the selection;
/// any other edit leaves the edited line in progress.
pub open spec fn edit_result(ring: BuffersView, edit: Edit) -> BuffersView {
    match edit {
        Edit::PrevLine => ring.selecting(
            if ring.offset < ring.retained() {
                ring.offset + 1
            } else {
                ring.offset
            },
        ),
        Edit::NextLine => ring.selecting(
            if ring.offset > 0 {
                ring.offset - 1
            } else {
                0
            },
        ),
        _ => ring.edited(edited_line(ring.current(), edit)),
    }
}

/// What is sent to the terminal after `edit`.
pub open spec fn edit_diff(ring: BuffersView, edit: Edit) -> LineDiff {
    let line = ring.current();
    let next = edit_result(ring, edit).current();
    match edit {
        Edit::Insert(_) => insert_diff(line, next),
        Edit::DeleteChar | Edit::DeleteWord => delete_diff(line, next),
        Edit::DeleteToEnd => truncate_diff(line),
        Edit::CursorToStart | Edit::CursorLeft => backward_diff(line, next),
        Edit::CursorToEnd | Edit::CursorRight => forward_diff(line, next),
        Edit::PrevLine | Edit::NextLine => diff_of(line, next),
    }
}

/// Whether `edit` can be made: typing needs room for one more byte in a line
/// of `capacity` bytes.
pub open spec fn edit_fits(ring: BuffersView, edit: Edit, capacity: int) -> bool {
    edit matches Edit::Insert(_) ==> ring.current().len() + 1 <= capacity
}

/// An edit that can be made keeps the ring in order, and what is sent after
/// it is a diff from the line that was selected before to the line that is
/// selected after.
pub proof fn lemma_edit_diff_turns(ring: BuffersView, edit: Edit, capacity: int)
    requires
        ring.fits(capacity),
        capacity <= usize::MAX,
        edit_fits(ring, edit, capacity),
    ensures
        edit_result(ring, edit).fits(capacity),
        edit_diff(ring, edit).turns(ring.current(), edit_result(ring, edit).current()),
{
    let line = ring.current();
    let next = edit_result(ring, edit).current();
    lemma_mod_bound(ring.last_idx, ring.depth());
    lemma_mod_bound(ring.last_idx - ring.offset, ring.depth());
    match edit {
        Edit::PrevLine | Edit::NextLine => {
            lemma_mod_bound(
                ring.last_idx - edit_result(ring, edit).offset,
                ring.depth(),
            );
            lemma_diff_of_turns(line, next, capacity);
        },
        _ => {
            if edit == Edit::DeleteWord {
                lemma_previous_word_start_bounds(line.content, line.cursor);
            }
        },
    }
}

/// Every edit keeps the terminal in step with the editor: a terminal that
/// shows the selected line and takes what is sent after an edit, shows the
/// line that is selected then. The line must hold no backspace.
pub proof fn lemma_edit_keeps_terminal(
    screen: Screen,
    ring: BuffersView,
    edit: Edit,
    capacity: int,
)
    requires
        ring.fits(capacity),
        capacity <= usize::MAX,
        edit_fits(ring, edit, capacity),
        screen.shows(ring.current()),
        prints(edit_result(ring, edit).current().content),
    ensures
        screen.feed(
            edit_diff(ring, edit).rendering(edit_result(ring, edit).current()),
        ).shows(edit_result(ring, edit).current()),
{
    let next = edit_result(ring, edit).current();
    let diff = edit_diff(ring, edit);
    lemma_edit_diff_turns(ring, edit, capacity);
    lemma_mod_bound(ring.last_idx - edit_result(ring, edit).offset, ring.depth());
    lemma_rendering_shows_new(screen, ring.current(), next, diff);
}

/// What came of reading the next byte.
pub enum Input<Error> {
    /// This byte was read.
    Byte(u8),
    /// There is nothing more to read.
    Eof,
    /// Reading failed.
    Failed(Error),
}

/// What came of a session on recorded input.
pub struct Transcript<Error, const A: usize> {
    /// How many bytes of the input the session read.
    pub consumed: usize,
    /// The bytes that it sent to the terminal.
    pub output: Vec<u8>,
    /// The line that it committed, or why it committed none.
    pub result: Result<Line<A>, ReadlineError<Error>>,
}

/// What one byte leads to.
pub struct Step {
    /// Whether to go on reading.
    pub flow: Loop,
    /// The bytes to send to the terminal.
    pub output: Vec<u8>,
}

/// The state of an editing session.
pub struct Readline {
    status: ReadlineStatus,
}

impl Readline {
    /// Where in an escape sequence the session stands.
    pub closed spec fn spec_status(&self) -> ReadlineStatus {
        self.status
    }

    /// A session that has read nothing yet.
    pub fn new() -> (session: Self)
        ensures
            session.spec_status() == ReadlineStatus::Char,
    {
        Readline { status: ReadlineStatus::Char }
    }

    /// Where in an escape sequence the session stands.
    #[verifier::when_used_as_spec(spec_status)]
    pub fn status(&self) -> (status: ReadlineStatus)
        ensures
            status == self.spec_status(),
    {
        self.status
    }

    /// Reads one line from `input`: takes its bytes one after the other up to
    /// the first line end, edits the ring as they ask, and commits the
    /// selected line there. The session ends early, and commits nothing, at the
    /// end of the input, at a byte that can not stand where it comes, and at a
    /// byte typed into a full line.
    pub fn readline<Error, const A: usize, const B: usize>(
        self,
        input: &[u8],
        buffers: &mut Buffers<A, B>,
    ) -> (transcript: Transcript<Error, A>)
        requires
            old(buffers).wf(),
            old(buffers)@.last_idx < usize::MAX,
        ensures
            final(buffers).wf(),
            ({
                let run = run(self.status(), old(buffers)@, input@, A as int);
                &&& transcript.consumed == run.consumed
                &&& transcript.output@ == run.output
                &&& final(buffers)@ == run.ring
                &&& match transcript.result {
                    Ok(line) => line.wf() && run.ending == Ending::Committed(line@),
                    Err(e) => run.ending.error::<Error>() == Some(e),
                }
            }),
    {
        let mut session = self;
        let mut output: Vec<u8> = Vec::new();
        let mut pos: usize = 0;
        let len = input.len();
        let ghost whole = run(self.status(), buffers@, input@, A as int);
        proof {
            assert(input@.skip(0) =~= input@);
        }
        loop
            invariant_except_break
                whole == run(
                    session.status(),
                    buffers@,
                    input@.skip(pos as int),
                    A as int,
                ).prefixed(pos as int, output@),
            invariant
                buffers.wf(),
                buffers@.last_idx == old(buffers)@.last_idx,
                pos <= input@.len(),
                len == input@.len(),
                whole == run(self.status(), old(buffers)@, input@, A as int),
            ensures
                whole == (Run {
                    consumed: pos as int,
                    output: output@,
                    shown: buffers@.current(),
                    ring: buffers@.committed(),
                    ending: Ending::Committed(LineView::typed(buffers@.current().content)),
                }),
            decreases input@.len() - pos,
        {
            let ghost here = run(session.status(), buffers@, input@.skip(pos as int), A as int);
            let next = if pos < len {
                Input::Byte(input[pos])
            } else {
                Input::Eof
            };
            let byte = match session.read_byte(next) {
                Ok(byte) => byte,
                Err(e) => {
                    return Transcript { consumed: pos, output, result: Err(e) };
                },
            };
            assert(input@.skip(pos as int).skip(1) =~= input@.skip(pos + 1));
            pos = pos + 1;
            let step = match session.process_byte(buffers, byte) {
                Ok(step) => step,
                Err(e) => {
                    assert(output@ + here.output =~= output@);
                    return Transcript { consumed: pos, output, result: Err(e) };
                },
            };
            match step.flow {
                Loop::Break => {
                    break ;
                },
                Loop::Continue => {
                    let ghost sent = step.output@;
                    let ghost before = output@;
                    let ghost next = run(
                        session.status(),
                        buffers@,
                        input@.skip(pos as int),
                        A as int,
                    );
                    let mut sent_bytes = step.output;
                    output.append(&mut sent_bytes);
                    assert(before + (sent + next.output) =~= output@ + next.output);
                },
            }
        }
        let line = buffers.push_history();
        Transcript { consumed: pos, output, result: Ok(line) }
    }

    /// The byte that was read, or the error that ends the session where none
    /// was: the input ended, or reading it failed.
    pub fn read_byte<Error>(&self, input: Input<Error>) -> (r: Result<u8, ReadlineError<Error>>)
        ensures
            r == (match input {
                Input::Byte(byte) => Ok::<u8, ReadlineError<Error>>(byte),
                Input::Eof => Err(ReadlineError::UnexpectedEof),
                Input::Failed(err) => Err(ReadlineError::ReaderWriterError(err)),
            }),
    {
        match input {
            Input::Byte(byte) => Ok(byte),
            Input::Eof => Err(ReadlineError::UnexpectedEof),
            Input::Failed(err) => Err(ReadlineError::ReaderWriterError(err)),
        }
    }

    /// Makes `edit` on the ring and returns what to send to the terminal.
    /// Where the edit is refused, the ring stays as it is.
    pub fn apply_diff<Error, const A: usize, const B: usize>(
        &mut self,
        buffers: &mut Buffers<A, B>,
        edit: Edit,
    ) -> (r: Result<Vec<u8>, ReadlineError<Error>>)
        requires
            old(buffers).wf(),
        ensures
            final(buffers).wf(),
            final(self).status() == old(self).status(),
            r is Ok <==> edit_fits(old(buffers)@, edit, A as int),
            match r {
                Ok(output) => {
                    let diff = edit_diff(old(buffers)@, edit);
                    &&& final(buffers)@ == edit_result(old(buffers)@, edit)
                    &&& diff.turns(old(buffers)@.current(), final(buffers)@.current())
                    &&& output@ == diff.rendering(final(buffers)@.current())
                },
                Err(e) => {
                    &&& e == ReadlineError::<Error>::LineError(LineError::OutOfBounds)
                    &&& *final(buffers) == *old(buffers)
                },
            },
    {
        let result: LineResult = match edit {
            Edit::Insert(byte) => {
                let typed: [u8; 1] = [byte];
                assert(typed@ =~= seq![byte]);
                buffers.insert_chars(&typed)
            },
            Edit::DeleteChar => buffers.delete_chars(1),
            Edit::DeleteWord => buffers.delete_word(),
            Edit::DeleteToEnd => buffers.delete_to_end(),
            Edit::CursorToStart => buffers.cursor_to_start(),
            Edit::CursorToEnd => buffers.cursor_to_end(),
            Edit::CursorLeft => buffers.move_cursor_by(-1),
            Edit::CursorRight => buffers.move_cursor_by(1),
            Edit::PrevLine => buffers.select_prev_line(),
            Edit::NextLine => buffers.select_next_line(),
        };
        let diff = match result {
            Ok(diff) => diff,
            Err(err) => {
                return Err(ReadlineError::LineError(err));
            },
        };
        Ok(self.apply_line_diff(buffers, diff))
    }

    /// Takes the next byte of input: follows the escape sequences, makes the
    /// edit that the byte asks for, and returns what to send to the terminal
    /// and whether the line is complete. A byte that can not stand where it
    /// comes, and an edit that is refused, end the session with an error and
    /// leave the ring as it is. Whatever happens to the byte, the session is
    /// outside escape sequences afterwards, unless the byte began or continued
    /// one.
    pub fn process_byte<Error, const A: usize, const B: usize>(
        &mut self,
        buffers: &mut Buffers<A, B>,
        byte: u8,
    ) -> (r: Result<Step, ReadlineError<Error>>)
        requires
            old(buffers).wf(),
        ensures
            final(buffers).wf(),
            match action_of(byte, old(self).status()) {
                Action::Finish => {
                    &&& r matches Ok(step) && step.flow == Loop::Break && step.output@.len() == 0
                    &&& *final(buffers) == *old(buffers)
                    &&& final(self).status() == ReadlineStatus::Char
                },
                Action::Enter(status) => {
                    &&& r matches Ok(step) && step.flow == Loop::Continue && step.output@.len()
                        == 0
                    &&& *final(buffers) == *old(buffers)
                    &&& final(self).status() == status
                },
                Action::Ignore => {
                    &&& r matches Ok(step) && step.flow == Loop::Continue && step.output@.len()
                        == 0
                    &&& *final(buffers) == *old(buffers)
                    &&& final(self).status() == ReadlineStatus::Char
                },
                Action::RejectEscape => {
                    &&& r matches Err(e) && e == ReadlineError::<Error>::UnexpectedEscape
                    &&& *final(buffers) == *old(buffers)
                    &&& final(self).status() == ReadlineStatus::Char
                },
                Action::RejectChar(seen) => {
                    &&& r matches Err(e) && e == ReadlineError::<Error>::UnexpectedChar(seen)
                    &&& *final(buffers) == *old(buffers)
                    &&& final(self).status() == ReadlineStatus::Char
                },
                Action::Apply(edit) => {
                    &&& final(self).status() == ReadlineStatus::Char
                    &&& r is Ok <==> edit_fits(old(buffers)@, edit, A as int)
                    &&& match r {
                        Ok(step) => {
                            let diff = edit_diff(old(buffers)@, edit);
                            &&& step.flow == Loop::Continue
                            &&& final(buffers)@ == edit_result(old(buffers)@, edit)
                            &&& diff.turns(old(buffers)@.current(), final(buffers)@.current())
                            &&& step.output@ == diff.rendering(final(buffers)@.current())
                        },
                        Err(e) => {
                            &&& e == ReadlineError::<Error>::LineError(LineError::OutOfBounds)
                            &&& *final(buffers) == *old(buffers)
                        },
                    }
                },
            },
    {
        let status = self.status;
        self.status = ReadlineStatus::Char;
        if byte == 0x0A || byte == 0x0D {
            return Ok(Step { flow: Loop::Break, output: Vec::new() });
        }
        if byte == 0x1B {
            return match status {
                ReadlineStatus::Char => {
                    self.status = ReadlineStatus::Escape;
                    Ok(Step { flow: Loop::Continue, output: Vec::new() })
                },
                _ => Err(ReadlineError::UnexpectedEscape),
            };
        }
        let output = match status {
            ReadlineStatus::Escape => {
                if byte != 0x5B {
                    return Err(ReadlineError::UnexpectedChar(byte));
                }
                self.status = ReadlineStatus::Ctrl;
                Vec::new()
            },
            ReadlineStatus::Ctrl => self.handle_control(buffers, byte)?,
            ReadlineStatus::Char => {
                let edit = if byte == 0x08 || byte == 0x7F {
                    Edit::DeleteChar
                } else if byte == 0x01 {
                    // go to the beginning of the line
                    Edit::CursorToStart
                } else if byte == 0x05 {
                    // go to the end of the line
                    Edit::CursorToEnd
                } else if byte == 0x0B {
                    // delete to end of line
                    Edit::DeleteToEnd
                } else if byte == 0x0E {
                    // ctrl+n, next history line
                    Edit::NextLine
                } else if byte == 0x10 {
                    // ctrl+p, previous history line
                    Edit::PrevLine
                } else if byte == 0x17 {
                    // ctrl+w, delete the previous word
                    Edit::DeleteWord
                } else {
                    // anything else is typed
                    Edit::Insert(byte)
                };
                self.apply_diff(buffers, edit)?
            },
        };
        Ok(Step { flow: Loop::Continue, output })
    }

    /// Takes the last byte of a control sequence: makes the edit that an
    /// arrow key asks for, and nothing for any other byte.
    pub fn handle_control<Error, const A: usize, const B: usize>(
        &mut self,
        buffers: &mut Buffers<A, B>,
        byte: u8,
    ) -> (r: Result<Vec<u8>, ReadlineError<Error>>)
        requires
            old(buffers).wf(),
        ensures
            final(buffers).wf(),
            final(self).status() == old(self).status(),
            match control_edit(byte) {
                Some(edit) => {
                    let diff = edit_diff(old(buffers)@, edit);
                    &&& r matches Ok(output) && output@ == diff.rendering(
                        final(buffers)@.current(),
                    )
                    &&& final(buffers)@ == edit_result(old(buffers)@, edit)
                    &&& diff.turns(old(buffers)@.current(), final(buffers)@.current())
                },
                None => {
                    &&& r matches Ok(output) && output@.len() == 0
                    &&& *final(buffers) == *old(buffers)
                },
            },
    {
        if byte == 0x41 {
            // up arrow key, go to previous history item
            self.apply_diff(buffers, Edit::PrevLine)
        } else if byte == 0x42 {
            // down arrow key, go to next history item
            self.apply_diff(buffers, Edit::NextLine)
        } else if byte == 0x43 {
            // right arrow key, go right
            self.apply_diff(buffers, Edit::CursorRight)
        } else if byte == 0x44 {
            // left arrow key, go left
            self.apply_diff(buffers, Edit::CursorLeft)
        } else {
            Ok(Vec::new())
        }
    }

    /// The bytes that `line_diff` sends, written against the selected line.
    pub fn apply_line_diff<const A: usize, const B: usize>(
        &self,
        buffers: &Buffers<A, B>,
        line_diff: LineDiff,
    ) -> (output: Vec<u8>)
        requires
            buffers.wf(),
            line_diff.fits(buffers@.current()),
        ensures
            output@ == line_diff.rendering(buffers@.current()),
    {
        let line = buffers.current_line();
        line_diff.apply(line)
    }
}

/// Reads one line from `input` in a new session, and commits it to
/// `buffers`.
pub fn readline<Error, const A: usize, const B: usize>(
    input: &[u8],
    buffers: &mut Buffers<A, B>,
) -> (transcript: Transcript<Error, A>)
    requires
        old(buffers).wf(),
        old(buffers)@.last_idx < usize::MAX,
    ensures
        final(buffers).wf(),
        ({
            let run = run(ReadlineStatus::Char, old(buffers)@, input@, A as int);
            &&& transcript.consumed == run.consumed
            &&& transcript.output@ == run.output
            &&& final(buffers)@ == run.ring
            &&& match transcript.result {
                Ok(line) => line.wf() && run.ending == Ending::Committed(line@),
                Err(e) => run.ending.error::<Error>() == Some(e),
            }
        }),
{
    Readline::new().readline(input, buffers)
}

} // verus!
