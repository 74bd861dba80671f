//! The line being edited and the lines entered before it.
//!
//! [`Buffers`] keeps a ring of lines. One slot of the ring holds the line in
//! progress, the others the lines committed last, newest first when walking
//! back from it. A line of the history is never edited where it stands: every
//! edit first copies the selected line into the slot of the line in progress.

use vstd::prelude::*;
use vstd::slice::slice_to_vec;
use crate::line::{Line, LineError, LineView};
use crate::line_diff::{diff_of, LineDiff};
use crate::screen::lemma_diff_of_turns;
use crate::util::{
    get_two_mut_checked, lemma_previous_word_start_bounds, previous_word_cursor_position,
    previous_word_start,
};

verus! {

/// What a [`Buffers`] stands for: the lines of its ring, the number of lines
/// committed so far, and how many commits back the selected line lies.
pub struct BuffersView {
    pub lines: Seq<LineView>,
    pub last_idx: int,
    pub offset: int,
}

impl BuffersView {
    /// The number of slots of the ring.
    pub open spec fn depth(self) -> int {
        self.lines.len() as int
    }

    /// The slot of the line in progress.
    pub open spec fn in_progress_idx(self) -> int {
        self.last_idx % self.depth()
    }

    /// The slot of the selected line.
    pub open spec fn selected_idx(self) -> int {
        (self.last_idx - self.offset) % self.depth()
    }

    /// The selected line: the one that is shown and edited.
    pub open spec fn current(self) -> LineView {
        self.lines[self.selected_idx()]
    }

    /// How many committed lines the ring still holds: one slot is taken by the
    /// line in progress.
    pub open spec fn retained(self) -> int {
        if self.last_idx < self.depth() - 1 {
            self.last_idx
        } else {
            self.depth() - 1
        }
    }

    /// The line that was committed `back` commits ago, for `back` from 1 to
    /// [`retained`](Self::retained).
    pub open spec fn entry(self, back: int) -> LineView {
        self.lines[(self.last_idx - back) % self.depth()]
    }

    /// The invariant of the ring, where each line holds at most `capacity`
    /// bytes: the selection stays within the retained lines, and each line but
    /// the one in progress has its cursor at its end.
    pub open spec fn fits(self, capacity: int) -> bool {
        &&& self.depth() >= 1
        &&& 0 <= self.offset <= self.retained()
        &&& 0 <= self.last_idx <= usize::MAX
        &&& forall|i: int| 0 <= i < self.depth() ==> (#[trigger] self.lines[i]).fits(capacity)
        &&& forall|i: int|
            0 <= i < self.depth() && i != self.in_progress_idx() ==> (#[trigger] self.lines[i]).cursor
                == self.lines[i].len()
    }

    /// The ring after an edit that leaves `line` in progress: the line takes
    /// the slot of the line in progress and is selected.
    pub open spec fn edited(self, line: LineView) -> BuffersView {
        BuffersView {
            lines: self.lines.update(self.in_progress_idx(), line),
            last_idx: self.last_idx,
            offset: 0,
        }
    }

    /// The ring with the selection moved to `offset`.
    pub open spec fn selecting(self, offset: int) -> BuffersView {
        BuffersView { lines: self.lines, last_idx: self.last_idx, offset }
    }

    /// The ring after the selected line was committed: the line joins the
    /// history with its cursor at its end, and the slot behind it, which held
    /// the oldest line, is emptied for the next line in progress.
    pub open spec fn committed(self) -> BuffersView {
        let line = LineView::typed(self.current().content);
        BuffersView {
            lines: self.lines.update(self.in_progress_idx(), line).update(
                (self.last_idx + 1) % self.depth(),
                LineView::empty(),
            ),
            last_idx: self.last_idx + 1,
            offset: 0,
        }
    }
}

/// What is sent after bytes were typed at the cursor: the line from the old
/// cursor to its end, and the steps back to the new cursor.
pub open spec fn insert_diff(old: LineView, new: LineView) -> LineDiff {
    LineDiff {
        caret_back_before: 0,
        write_bytes: (old.cursor as usize)..(new.len() as usize),
        clear_bytes: 0,
        caret_back_after: (new.len() - new.cursor) as usize,
    }
}

/// What is sent after bytes before the cursor were deleted: the steps back
/// over them, the rest of the line, blanks over what is left of the old line,
/// and the steps back to the new cursor. Nothing where the cursor stood at the
/// start of the line.
pub open spec fn delete_diff(old: LineView, new: LineView) -> LineDiff {
    if old.cursor == 0 {
        LineDiff::nothing()
    } else {
        LineDiff {
            caret_back_before: (old.cursor - new.cursor) as usize,
            write_bytes: (new.cursor as usize)..(new.len() as usize),
            clear_bytes: (old.cursor - new.cursor) as usize,
            caret_back_after: (old.len() - new.cursor) as usize,
        }
    }
}

/// What is sent after the line was cut off at the cursor: blanks over what
/// stood behind it, and the steps back.
pub open spec fn truncate_diff(old: LineView) -> LineDiff {
    LineDiff {
        caret_back_before: 0,
        write_bytes: (old.cursor as usize)..(old.cursor as usize),
        clear_bytes: (old.len() - old.cursor) as usize,
        caret_back_after: (old.len() - old.cursor) as usize,
    }
}

/// What is sent after the cursor moved to the right: the bytes that it
/// passed.
pub open spec fn forward_diff(old: LineView, new: LineView) -> LineDiff {
    LineDiff {
        caret_back_before: 0,
        write_bytes: (old.cursor as usize)..(new.cursor as usize),
        clear_bytes: 0,
        caret_back_after: 0,
    }
}

/// What is sent after the cursor moved to the left: that many steps back.
pub open spec fn backward_diff(old: LineView, new: LineView) -> LineDiff {
    LineDiff {
        caret_back_before: (old.cursor - new.cursor) as usize,
        write_bytes: 0usize..0usize,
        clear_bytes: 0,
        caret_back_after: 0,
    }
}

/// A ring of `MAX_LINES` lines of at most `MAX_LINE_LEN` bytes each.
#[derive(Debug)]
pub struct Buffers<const MAX_LINE_LEN: usize, const MAX_LINES: usize> {
    lines: [Line<MAX_LINE_LEN>; MAX_LINES],
    last_idx: usize,
    offset: usize,
}

impl<const MAX_LINE_LEN: usize, const MAX_LINES: usize> View for Buffers<MAX_LINE_LEN, MAX_LINES> {
    type V = BuffersView;

    closed spec fn view(&self) -> BuffersView {
        BuffersView {
            lines: Seq::new(MAX_LINES as nat, |i: int| self.lines@[i]@),
            last_idx: self.last_idx as int,
            offset: self.offset as int,
        }
    }
}

impl<const MAX_LINE_LEN: usize, const MAX_LINES: usize> Default for Buffers<
    MAX_LINE_LEN,
    MAX_LINES,
> {
    /// A ring of empty lines with no history.
    fn default() -> (buffers: Self)
        ensures
            MAX_LINES >= 1 ==> buffers.wf(),
            buffers@.depth() == MAX_LINES,
            buffers@.last_idx == 0,
            buffers@.offset == 0,
            forall|i: int| 0 <= i < MAX_LINES ==> buffers@.lines[i] == LineView::empty(),
    {
        let line: Line<MAX_LINE_LEN> = Line::default();
        let lines = [line;MAX_LINES];
        assert(lines == vstd::array::spec_array_fill_for_copy_type::<Line<MAX_LINE_LEN>, MAX_LINES>(line));
        assert forall|i: int| 0 <= i < MAX_LINES implies lines@[i] == line by {}
        Buffers { lines, last_idx: 0, offset: 0 }
    }
}

/// What [`Buffers::debug`] tells of one slot of the ring.
#[derive(Debug)]
pub struct SlotReport {
    /// The slot's place in the ring.
    pub slot: usize,
    /// Where the cursor of its line stands.
    pub cursor_index: usize,
    /// How long its line is.
    pub end_index: usize,
    /// The content of its line.
    pub content: Vec<u8>,
}

/// What [`Buffers::debug`] tells of the ring.
#[derive(Debug)]
pub struct Report {
    /// How many lines were committed so far.
    pub last_idx: usize,
    /// How many commits back the selected line lies.
    pub offset: usize,
    /// The slots that the last commits went to, the oldest first.
    pub slots: Vec<SlotReport>,
}

/// What an edit of the selected line returns.
pub type LineResult = Result<LineDiff, LineError>;

impl<const MAX_LINE_LEN: usize, const MAX_LINES: usize> Buffers<MAX_LINE_LEN, MAX_LINES> {
    /// Every line of the ring is well formed.
    pub closed spec fn inv(&self) -> bool {
        forall|i: int| 0 <= i < MAX_LINES ==> (#[trigger] self.lines@[i]).wf()
    }

    /// The invariant of the ring.
    pub open spec fn wf(&self) -> bool {
        &&& self.inv()
        &&& self@.depth() == MAX_LINES
        &&& self@.fits(MAX_LINE_LEN as int)
    }

    /// Where one slot of the ring changed and nothing else, the ring is the
    /// one before with that line replaced.
    proof fn lemma_slot_changed(self, before: Self, idx: int)
        requires
            0 <= idx < MAX_LINES,
            self.last_idx == before.last_idx,
            self.offset == before.offset,
            forall|j: int| 0 <= j < MAX_LINES && j != idx ==> self.lines@[j] == before.lines@[j],
        ensures
            self@ == (BuffersView {
                lines: before@.lines.update(idx, self.lines@[idx]@),
                last_idx: before@.last_idx,
                offset: before@.offset,
            }),
            self@.lines[idx] == self.lines@[idx]@,
    {
        assert(self@.lines =~= before@.lines.update(idx, self.lines@[idx]@));
    }

    /// After the selected line was copied into the slot of the line in
    /// progress, that slot is the selected one and holds the line.
    proof fn lemma_prepared(self, before: Self, idx: int)
        requires
            before.wf(),
            self.wf(),
            self@ == before@.edited(before@.current()),
            idx == self@.selected_idx(),
        ensures
            0 <= idx < MAX_LINES,
            idx == before@.in_progress_idx(),
            idx == self@.in_progress_idx(),
            self.lines@[idx]@ == before@.current(),
            self.lines@[idx].wf(),
            before@.current().fits(MAX_LINE_LEN as int),
    {
        assert(self@.lines[idx] == self.lines@[idx]@);
    }

    /// The slot of the selected line.
    fn selected_idx(&self) -> (idx: usize)
        requires
            self.wf(),
        ensures
            idx == self@.selected_idx(),
            idx < MAX_LINES,
    {
        (self.last_idx - self.offset) % MAX_LINES
    }

    /// Copies the selected line into the slot of the line in progress, and
    /// selects that slot.
    fn prepare_to_change_line(&mut self)
        requires
            old(self).wf(),
        ensures
            final(self).wf(),
            final(self)@ == old(self)@.edited(old(self)@.current()),
    {
        let from_idx = self.selected_idx();
        self.offset = 0;
        let to_idx = self.selected_idx();
        if from_idx != to_idx {
            let (from_line, to_line) = get_two_mut_checked(
                from_idx,
                to_idx,
                &mut self.lines,
            ).unwrap();
            to_line.set_from_cursor(from_line);
        }
        assert(self@.lines =~= old(self)@.edited(old(self)@.current()).lines);
    }

    /// Types `c` at the cursor of the selected line. Refuses, and changes
    /// nothing, where the line cannot hold `c` too.
    pub fn insert_chars(&mut self, c: &[u8]) -> (r: LineResult)
        requires
            old(self).wf(),
        ensures
            final(self).wf(),
            r is Ok <==> old(self)@.current().len() + c@.len() <= MAX_LINE_LEN,
            match r {
                Ok(diff) => {
                    let line = old(self)@.current();
                    let typed = line.insert(line.cursor, c@);
                    &&& final(self)@ == old(self)@.edited(typed)
                    &&& diff == insert_diff(line, typed)
                    &&& diff.turns(line, typed)
                },
                Err(e) => e == LineError::OutOfBounds && *final(self) == *old(self),
            },
    {
        if c.len() > MAX_LINE_LEN - self.current_line().end_index() {
            return Err(LineError::OutOfBounds);
        }
        self.prepare_to_change_line();
        let idx = self.selected_idx();
        let ghost line = old(self)@.current();
        let ghost prepared = *self;
        proof {
            self.lemma_prepared(*old(self), idx as int);
        }
        let cursor_index = self.lines[idx].cursor_index();
        match self.lines[idx].insert_range(cursor_index, c) {
            Ok(_) => {},
            Err(e) => {
                return Err(e);
            },
        }
        let num_after_cursor = self.lines[idx].num_after_cursor();
        let end_index = self.lines[idx].end_index();
        proof {
            self.lemma_slot_changed(prepared, idx as int);
            assert(self@.lines =~= old(self)@.edited(line.insert(line.cursor, c@)).lines);
        }
        Ok(
            LineDiff {
                caret_back_before: 0,
                write_bytes: cursor_index..end_index,
                clear_bytes: 0,
                caret_back_after: num_after_cursor,
            },
        )
    }

    /// Deletes up to `n` bytes before the cursor of the selected line.
    pub fn delete_chars(&mut self, n: usize) -> (r: LineResult)
        requires
            old(self).wf(),
        ensures
            final(self).wf(),
            r matches Ok(diff) && ({
                let line = old(self)@.current();
                let from = if n <= line.cursor {
                    line.cursor - n
                } else {
                    0
                };
                let cut = line.remove(from, line.cursor);
                &&& final(self)@ == old(self)@.edited(cut)
                &&& diff == delete_diff(line, cut)
                &&& diff.turns(line, cut)
            }),
    {
        self.prepare_to_change_line();
        let idx = self.selected_idx();
        let ghost line = old(self)@.current();
        let ghost prepared = *self;
        proof {
            self.lemma_prepared(*old(self), idx as int);
        }
        let cursor_index = self.lines[idx].cursor_index();
        if cursor_index == 0 {
            return Ok(LineDiff::default());
        }
        let n = if n < cursor_index {
            n
        } else {
            cursor_index
        };
        let range = (cursor_index - n)..cursor_index;
        let num_after_cursor = self.lines[idx].num_after_cursor();
        let num_removed = match self.lines[idx].remove_range(range) {
            Ok(removed) => removed,
            Err(e) => {
                return Err(e);
            },
        };
        let write_bytes = self.lines[idx].cursor_index()..self.lines[idx].end_index();
        proof {
            self.lemma_slot_changed(prepared, idx as int);
            let cut = line.remove(cursor_index - n, cursor_index as int);
            assert(self@.lines =~= old(self)@.edited(cut).lines);
        }
        Ok(
            LineDiff {
                caret_back_before: num_removed,
                write_bytes,
                clear_bytes: num_removed,
                caret_back_after: num_removed + num_after_cursor,
            },
        )
    }

    /// Deletes the word before the cursor of the selected line, with the
    /// blanks between the two.
    pub fn delete_word(&mut self) -> (r: LineResult)
        requires
            old(self).wf(),
        ensures
            final(self).wf(),
            r matches Ok(diff) && ({
                let line = old(self)@.current();
                let cut = line.remove(
                    previous_word_start(line.content, line.cursor),
                    line.cursor,
                );
                &&& final(self)@ == old(self)@.edited(cut)
                &&& diff == delete_diff(line, cut)
                &&& diff.turns(line, cut)
            }),
    {
        self.prepare_to_change_line();
        let idx = self.selected_idx();
        let ghost line = old(self)@.current();
        let ghost prepared = *self;
        proof {
            self.lemma_prepared(*old(self), idx as int);
        }
        let old_cursor_index = self.lines[idx].cursor_index();
        previous_word_cursor_position(&mut self.lines[idx]);
        proof {
            lemma_previous_word_start_bounds(line.content, line.cursor);
        }
        let num_removed = old_cursor_index - self.lines[idx].cursor_index();
        self.lines[idx].set_cursor_index(old_cursor_index);
        proof {
            self.lemma_slot_changed(prepared, idx as int);
            assert(self@.lines =~= prepared@.lines);
        }
        let r = self.delete_chars(num_removed);
        proof {
            let cut = line.remove(previous_word_start(line.content, line.cursor), line.cursor);
            assert(prepared@.edited(cut).lines =~= old(self)@.edited(cut).lines);
        }
        r
    }

    /// Selects the line committed before the selected one, if the ring still
    /// holds one. Where it holds none, nothing changes and nothing is sent.
    pub fn select_prev_line(&mut self) -> (r: LineResult)
        requires
            old(self).wf(),
        ensures
            final(self).wf(),
            old(self)@.offset >= old(self)@.retained() ==> {
                &&& *final(self) == *old(self)
                &&& r matches Ok(diff) && diff == LineDiff::nothing_at(old(self)@.current().len())
            },
            final(self)@ == old(self)@.selecting(
                if old(self)@.offset < old(self)@.retained() {
                    old(self)@.offset + 1
                } else {
                    old(self)@.offset
                },
            ),
            r matches Ok(diff) && ({
                &&& diff == diff_of(old(self)@.current(), final(self)@.current())
                &&& diff.turns(old(self)@.current(), final(self)@.current())
            }),
    {
        let old_line = &self.lines[self.selected_idx()];
        if self.offset < self.last_idx && self.offset + 1 < MAX_LINES {
            self.offset += 1;
        }
        let new_line = &self.lines[self.selected_idx()];
        proof {
            lemma_diff_of_turns(old_line@, new_line@, MAX_LINE_LEN as int);
        }
        Ok(LineDiff::from(old_line, new_line))
    }

    /// Selects the line committed after the selected one, or the line in
    /// progress behind the newest of them. Where the line in progress is
    /// selected already, nothing changes and nothing is sent.
    pub fn select_next_line(&mut self) -> (r: LineResult)
        requires
            old(self).wf(),
        ensures
            final(self).wf(),
            old(self)@.offset == 0 ==> {
                &&& *final(self) == *old(self)
                &&& r matches Ok(diff) && diff == LineDiff::nothing_at(old(self)@.current().len())
            },
            final(self)@ == old(self)@.selecting(
                if old(self)@.offset > 0 {
                    old(self)@.offset - 1
                } else {
                    0
                },
            ),
            r matches Ok(diff) && ({
                &&& diff == diff_of(old(self)@.current(), final(self)@.current())
                &&& diff.turns(old(self)@.current(), final(self)@.current())
            }),
    {
        let old_line = &self.lines[self.selected_idx()];
        if self.offset > 0 {
            self.offset -= 1;
        }
        let new_line = &self.lines[self.selected_idx()];
        proof {
            lemma_diff_of_turns(old_line@, new_line@, MAX_LINE_LEN as int);
        }
        Ok(LineDiff::from(old_line, new_line))
    }

    /// Cuts the selected line off at its cursor.
    pub fn delete_to_end(&mut self) -> (r: LineResult)
        requires
            old(self).wf(),
        ensures
            final(self).wf(),
            r matches Ok(diff) && ({
                let line = old(self)@.current();
                &&& final(self)@ == old(self)@.edited(line.truncated())
                &&& diff == truncate_diff(line)
                &&& diff.turns(line, line.truncated())
            }),
    {
        self.prepare_to_change_line();
        let idx = self.selected_idx();
        let ghost line = old(self)@.current();
        let ghost prepared = *self;
        proof {
            self.lemma_prepared(*old(self), idx as int);
        }
        let cursor_index = self.lines[idx].cursor_index();
        let end_index = self.lines[idx].end_index();
        self.lines[idx].set_end_index(cursor_index);
        let num_to_clear = end_index - cursor_index;
        proof {
            self.lemma_slot_changed(prepared, idx as int);
            assert(self.lines@[idx as int]@.content =~= line.truncated().content);
            assert(self@.lines =~= old(self)@.edited(line.truncated()).lines);
        }
        Ok(
            LineDiff {
                caret_back_before: 0,
                write_bytes: cursor_index..cursor_index,
                clear_bytes: num_to_clear,
                caret_back_after: num_to_clear,
            },
        )
    }

    /// Moves the cursor of the selected line to its end.
    pub fn cursor_to_end(&mut self) -> (r: LineResult)
        requires
            old(self).wf(),
        ensures
            final(self).wf(),
            r matches Ok(diff) && ({
                let line = old(self)@.current();
                let moved = line.with_cursor(line.len());
                &&& final(self)@ == old(self)@.edited(moved)
                &&& diff == forward_diff(line, moved)
                &&& diff.turns(line, moved)
            }),
    {
        let by = self.current_line().num_after_cursor();
        self.cursor_fwd_by(by)
    }

    /// Moves the cursor of the selected line to its start.
    pub fn cursor_to_start(&mut self) -> (r: LineResult)
        requires
            old(self).wf(),
        ensures
            final(self).wf(),
            r matches Ok(diff) && ({
                let line = old(self)@.current();
                let moved = line.with_cursor(0);
                &&& final(self)@ == old(self)@.edited(moved)
                &&& diff == backward_diff(line, moved)
                &&& diff.turns(line, moved)
            }),
    {
        let by = self.current_line().cursor_index();
        self.cursor_back_by(by)
    }

    /// Moves the cursor of the selected line by `by`, to the left where it is
    /// negative, as far as the line reaches.
    pub fn move_cursor_by(&mut self, by: isize) -> (r: LineResult)
        requires
            old(self).wf(),
        ensures
            final(self).wf(),
            r matches Ok(diff) && ({
                let line = old(self)@.current();
                let moved = line.moved(by as int);
                &&& final(self)@ == old(self)@.edited(moved)
                &&& diff == if by < 0 {
                    backward_diff(line, moved)
                } else {
                    forward_diff(line, moved)
                }
                &&& diff.turns(line, moved)
            }),
    {
        if by < 0 {
            let steps = if by == isize::MIN {
                (isize::MAX as usize) + 1
            } else {
                (-by) as usize
            };
            self.cursor_back_by(steps)
        } else {
            self.cursor_fwd_by(by as usize)
        }
    }

    /// Moves the cursor of the selected line `by` bytes to the right, as far
    /// as the line reaches.
    pub fn cursor_fwd_by(&mut self, by: usize) -> (r: LineResult)
        requires
            old(self).wf(),
        ensures
            final(self).wf(),
            r matches Ok(diff) && ({
                let line = old(self)@.current();
                let moved = line.moved(by as int);
                &&& final(self)@ == old(self)@.edited(moved)
                &&& diff == forward_diff(line, moved)
                &&& diff.turns(line, moved)
            }),
    {
        self.prepare_to_change_line();
        let idx = self.selected_idx();
        let ghost line = old(self)@.current();
        let ghost prepared = *self;
        proof {
            self.lemma_prepared(*old(self), idx as int);
        }
        let old_cursor_index = self.lines[idx].cursor_index();
        let reach = self.lines[idx].num_after_cursor();
        let move_caret = if by < reach {
            by
        } else {
            reach
        };
        self.lines[idx].set_cursor_index(old_cursor_index + move_caret);
        proof {
            self.lemma_slot_changed(prepared, idx as int);
            assert(self@.lines =~= old(self)@.edited(line.moved(by as int)).lines);
        }
        Ok(
            LineDiff {
                caret_back_before: 0,
                write_bytes: old_cursor_index..old_cursor_index + move_caret,
                clear_bytes: 0,
                caret_back_after: 0,
            },
        )
    }

    /// Moves the cursor of the selected line `by` bytes to the left, as far
    /// as the line reaches.
    pub fn cursor_back_by(&mut self, by: usize) -> (r: LineResult)
        requires
            old(self).wf(),
        ensures
            final(self).wf(),
            r matches Ok(diff) && ({
                let line = old(self)@.current();
                let moved = line.moved(-(by as int));
                &&& final(self)@ == old(self)@.edited(moved)
                &&& diff == backward_diff(line, moved)
                &&& diff.turns(line, moved)
            }),
    {
        self.prepare_to_change_line();
        let idx = self.selected_idx();
        let ghost line = old(self)@.current();
        let ghost prepared = *self;
        proof {
            self.lemma_prepared(*old(self), idx as int);
        }
        let old_cursor_index = self.lines[idx].cursor_index();
        let move_caret = if by < old_cursor_index {
            by
        } else {
            old_cursor_index
        };
        self.lines[idx].set_cursor_index(old_cursor_index - move_caret);
        proof {
            self.lemma_slot_changed(prepared, idx as int);
            assert(self@.lines =~= old(self)@.edited(line.moved(-(by as int))).lines);
        }
        Ok(
            LineDiff {
                caret_back_before: move_caret,
                write_bytes: 0..0,
                clear_bytes: 0,
                caret_back_after: 0,
            },
        )
    }

    /// Commits the selected line: it becomes the newest line of the history,
    /// with its cursor at its end, and is returned. The slot behind it is
    /// emptied and holds the next line in progress; the line that it held, the
    /// oldest, is gone.
    pub fn push_history(&mut self) -> (line: Line<MAX_LINE_LEN>)
        requires
            old(self).wf(),
            old(self)@.last_idx < usize::MAX,
        ensures
            final(self).wf(),
            final(self)@ == old(self)@.committed(),
            line.wf(),
            line@ == LineView::typed(old(self)@.current().content),
    {
        self.prepare_to_change_line();
        let idx = self.selected_idx();
        let ghost prepared = *self;
        proof {
            self.lemma_prepared(*old(self), idx as int);
        }
        let end_index = self.lines[idx].end_index();
        self.lines[idx].set_cursor_index(end_index);
        let line = self.lines[idx];
        let ghost closed = *self;
        proof {
            self.lemma_slot_changed(prepared, idx as int);
        }
        self.last_idx += 1;
        let next = (self.last_idx - self.offset) % MAX_LINES;
        self.lines[next].clear();
        proof {
            assert forall|j: int| 0 <= j < MAX_LINES implies self@.lines[j] == old(
                self,
            )@.committed().lines[j] by {
                if j != next {
                    assert(self@.lines[j] == closed@.lines[j]);
                }
            }
            assert(self@.lines =~= old(self)@.committed().lines);
        }
        line
    }

    /// A report on the ring for a log: the two counters, and the slots that
    /// the last `MAX_LINES` commits went to, the oldest first.
    pub fn debug(&self) -> (report: Report)
        requires
            self.wf(),
        ensures
            report.last_idx == self@.last_idx,
            report.offset == self@.offset,
            report.slots@.len() == (if self@.last_idx < MAX_LINES {
                self@.last_idx
            } else {
                MAX_LINES as int
            }),
            forall|i: int|
                0 <= i < report.slots@.len() ==> {
                    let slot = (self@.last_idx - report.slots@.len() + i) % (MAX_LINES as int);
                    &&& (#[trigger] report.slots@[i]).slot == slot
                    &&& report.slots@[i].cursor_index == self@.lines[slot].cursor
                    &&& report.slots@[i].end_index == self@.lines[slot].len()
                    &&& report.slots@[i].content@ == self@.lines[slot].content
                },
    {
        let start_idx = if self.last_idx < MAX_LINES {
            0
        } else {
            self.last_idx - MAX_LINES
        };
        let mut slots: Vec<SlotReport> = Vec::new();
        let mut idx = start_idx;
        while idx < self.last_idx
            invariant
                self.wf(),
                start_idx <= idx <= self.last_idx,
                start_idx == (if self.last_idx < MAX_LINES {
                    0
                } else {
                    self.last_idx - MAX_LINES
                }),
                slots@.len() == idx - start_idx,
                forall|i: int|
                    0 <= i < slots@.len() ==> {
                        let slot = (start_idx + i) % (MAX_LINES as int);
                        &&& (#[trigger] slots@[i]).slot == slot
                        &&& slots@[i].cursor_index == self@.lines[slot].cursor
                        &&& slots@[i].end_index == self@.lines[slot].len()
                        &&& slots@[i].content@ == self@.lines[slot].content
                    },
            decreases self.last_idx - idx,
        {
            let slot = idx % MAX_LINES;
            let line = &self.lines[slot];
            slots.push(
                SlotReport {
                    slot,
                    cursor_index: line.cursor_index(),
                    end_index: line.end_index(),
                    content: slice_to_vec(line.start_to_end()),
                },
            );
            idx = idx + 1;
        }
        Report { last_idx: self.last_idx, offset: self.offset, slots }
    }

    /// The selected line, to be changed. The ring is in order afterwards if
    /// the line is, and if a line of the history still has its cursor at its
    /// end.
    pub fn current_line_mut(&mut self) -> (line: &mut Line<MAX_LINE_LEN>)
        requires
            old(self).wf(),
        ensures
            line.wf(),
            line@ == old(self)@.current(),
            final(self)@ == (BuffersView {
                lines: old(self)@.lines.update(old(self)@.selected_idx(), final(line)@),
                last_idx: old(self)@.last_idx,
                offset: old(self)@.offset,
            }),
            final(line).wf() && (old(self)@.offset == 0 || final(line)@.cursor
                == final(line)@.len()) ==> final(self).wf(),
    {
        let idx = self.selected_idx();
        let ghost before = *self;
        let line = &mut self.lines[idx];
        proof {
            // The ring as it will be once the borrow ends.
            let after = Buffers {
                lines: vstd::array::spec_array_update(before.lines, idx as int, *final(line)),
                last_idx: before.last_idx,
                offset: before.offset,
            };
            after.lemma_slot_changed(before, idx as int);
        }
        line
    }

    /// How many lines were committed so far.
    pub fn last_idx(&self) -> (n: usize)
        ensures
            n == self@.last_idx,
    {
        self.last_idx
    }

    /// How many commits back the selected line lies; 0 for the line in progress.
    pub fn offset(&self) -> (n: usize)
        ensures
            n == self@.offset,
    {
        self.offset
    }

    /// The selected line.
    pub fn current_line(&self) -> (line: &Line<MAX_LINE_LEN>)
        requires
            self.wf(),
        ensures
            line.wf(),
            line@ == self@.current(),
    {
        &self.lines[self.selected_idx()]
    }
}

} // verus!
