//! What has to be sent to a terminal so that it shows a changed line.
//!
//! A [`LineDiff`] names four steps: step back, write a part of the new line,
//! blank what is left over of the old one, and step back to the cursor.
//! [`Screen`](crate::screen::Screen) is the terminal that the contracts reason
//! about.

use vstd::prelude::*;
use crate::line::{span, Line, LineView};

verus! {

/// The byte that moves a terminal's cursor one cell to the left.
pub const BACKSPACE: u8 = 0x08;

/// The byte that shows as an empty cell.
pub const SPACE: u8 = 0x20;

/// The edit of a terminal's line that follows an edit of a [`Line`].
#[derive(Debug, PartialEq)]
pub struct LineDiff {
    /// How many cells to step back before writing.
    pub caret_back_before: usize,
    /// Which bytes of the new line to write.
    pub write_bytes: core::ops::Range<usize>,
    /// How many cells to blank behind what was written.
    pub clear_bytes: usize,
    /// How many cells to step back at the end.
    pub caret_back_after: usize,
}

/// The number of leading bytes that `a` and `b` have in common.
pub open spec fn common_prefix_len(a: Seq<u8>, b: Seq<u8>) -> nat
    decreases a.len(),
{
    if a.len() == 0 || b.len() == 0 || a[0] != b[0] {
        0
    } else {
        1 + common_prefix_len(a.skip(1), b.skip(1))
    }
}

/// `n` is the common prefix length of `a` and `b` where their first `n` bytes
/// agree and the next ones, if both have one, differ.
pub proof fn lemma_common_prefix_len(a: Seq<u8>, b: Seq<u8>, n: int)
    requires
        0 <= n <= a.len(),
        n <= b.len(),
        forall|i: int| 0 <= i < n ==> a[i] == b[i],
        n == a.len() || n == b.len() || a[n] != b[n],
    ensures
        common_prefix_len(a, b) == n,
    decreases a.len(),
{
    if n > 0 {
        lemma_common_prefix_len(a.skip(1), b.skip(1), n - 1);
    }
}

/// The common prefix is a prefix of both, and the bytes within it agree.
pub proof fn lemma_common_prefix_agrees(a: Seq<u8>, b: Seq<u8>)
    ensures
        common_prefix_len(a, b) <= a.len(),
        common_prefix_len(a, b) <= b.len(),
        forall|i: int| 0 <= i < common_prefix_len(a, b) ==> a[i] == b[i],
    decreases a.len(),
{
    if !(a.len() == 0 || b.len() == 0 || a[0] != b[0]) {
        lemma_common_prefix_agrees(a.skip(1), b.skip(1));
        assert forall|i: int| 0 <= i < common_prefix_len(a, b) implies a[i] == b[i] by {
            if i > 0 {
                assert(a.skip(1)[i - 1] == b.skip(1)[i - 1]);
            }
        }
    }
}

/// The diff that takes a terminal from showing `old` to showing `new`.
/// Between a line and itself it sends nothing, wherever the cursor stands: no
/// step, no blank, and the range to write is the empty one at the end of the
/// line, where the common prefix ends. Between two lines that differ, in
/// content or in cursor: where the old cursor stands behind the common prefix
/// of the two, the diff steps back to the end of that prefix. From where the
/// cursor stands then, it writes the new line to its end, blanks what the old
/// line had more, and steps back to the new cursor. The prefix is the only part
/// of the lines that it compares: what follows the first difference is written
/// whole.
pub open spec fn diff_of(old: LineView, new: LineView) -> LineDiff {
    if old == new {
        LineDiff::nothing_at(new.len())
    } else {
        let prefix = common_prefix_len(old.content, new.content) as int;
        let from = if old.cursor <= prefix {
            old.cursor
        } else {
            prefix
        };
        let reach = if old.len() <= new.len() {
            new.len()
        } else {
            old.len()
        };
        LineDiff {
            caret_back_before: (old.cursor - from) as usize,
            write_bytes: (from as usize)..(new.len() as usize),
            clear_bytes: span(new.len(), old.len()) as usize,
            caret_back_after: (reach - new.cursor) as usize,
        }
    }
}

/// Where the old cursor stands at the end of the common prefix of the two
/// lines or behind it, the diff steps back to the end of the prefix, and the
/// range to write is the new line from there on. That holds of two lines that
/// are the same as well: the range is the empty one at their end.
pub proof fn lemma_diff_of_writes_from_prefix(old: LineView, new: LineView, capacity: int)
    requires
        old.fits(capacity),
        new.fits(capacity),
        capacity <= usize::MAX,
        old.cursor >= common_prefix_len(old.content, new.content),
    ensures
        diff_of(old, new).caret_back_before == old.cursor - common_prefix_len(
            old.content,
            new.content,
        ),
        diff_of(old, new).write_bytes.start == common_prefix_len(old.content, new.content),
        diff_of(old, new).write_bytes.end == new.len(),
{
    lemma_common_prefix_agrees(old.content, new.content);
    if old == new {
        lemma_common_prefix_len(old.content, old.content, old.len());
    }
}

/// `n` times the byte `byte`.
pub open spec fn repeat(byte: u8, n: int) -> Seq<u8> {
    Seq::new(n as nat, |i: int| byte)
}

impl Default for LineDiff {
    /// The diff that sends nothing.
    fn default() -> (d: Self)
        ensures
            d == LineDiff::nothing(),
    {
        LineDiff { caret_back_before: 0, write_bytes: 0..0, clear_bytes: 0, caret_back_after: 0 }
    }
}

impl LineDiff {
    /// The diff that sends nothing, with its empty range to write at `at`.
    pub open spec fn nothing_at(at: int) -> LineDiff {
        LineDiff {
            caret_back_before: 0,
            write_bytes: (at as usize)..(at as usize),
            clear_bytes: 0,
            caret_back_after: 0,
        }
    }

    /// The diff sends nothing: it steps nowhere, blanks nothing, and the range
    /// to write is empty.
    pub open spec fn sends_nothing(self) -> bool {
        &&& self.caret_back_before == 0
        &&& self.write_bytes.start == self.write_bytes.end
        &&& self.clear_bytes == 0
        &&& self.caret_back_after == 0
    }

    /// The diff that sends nothing, with its empty range to write at the start.
    pub open spec fn nothing() -> LineDiff {
        LineDiff { caret_back_before: 0, write_bytes: 0usize..0usize, clear_bytes: 0, caret_back_after: 0 }
    }

    /// The bytes to write are bytes of `line`.
    pub open spec fn fits(self, line: LineView) -> bool {
        self.write_bytes.start <= self.write_bytes.end <= line.len()
    }

    /// The bytes that the diff sends, where `line` is the new line.
    pub open spec fn rendering(self, line: LineView) -> Seq<u8> {
        repeat(BACKSPACE, self.caret_back_before as int) + line.content.subrange(
            self.write_bytes.start as int,
            self.write_bytes.end as int,
        ) + repeat(SPACE, self.clear_bytes as int) + repeat(
            BACKSPACE,
            self.caret_back_after as int,
        )
    }

    /// The diff between two lines. Where the two are the same in content and
    /// cursor it sends nothing. Where the old cursor stands at the end of the
    /// common prefix or behind it, the range to write is the new line from
    /// the end of that prefix on.
    pub fn from<const LEN: usize>(old_line: &Line<LEN>, new_line: &Line<LEN>) -> (d: Self)
        requires
            old_line.wf(),
            new_line.wf(),
        ensures
            d == diff_of(old_line@, new_line@),
            d.fits(new_line@),
            old_line@ == new_line@ ==> d == LineDiff::nothing_at(new_line@.len())
                && d.sends_nothing(),
            old_line@.cursor >= common_prefix_len(old_line@.content, new_line@.content) ==> {
                &&& d.caret_back_before == old_line@.cursor - common_prefix_len(
                    old_line@.content,
                    new_line@.content,
                )
                &&& d.write_bytes.start == common_prefix_len(old_line@.content, new_line@.content)
                &&& d.write_bytes.end == new_line@.len()
            },
    {
        calc_line_diff(old_line, new_line)
    }

    /// The bytes to send to the terminal, in order: the backspaces, the
    /// bytes of `new_line` to write, the blanks, the backspaces.
    pub fn apply<const LEN: usize>(self, new_line: &Line<LEN>) -> (out: Vec<u8>)
        requires
            new_line.wf(),
            self.fits(new_line@),
        ensures
            out@ == self.rendering(new_line@),
    {
        let line_data = new_line.start_to_end();
        let mut out: Vec<u8> = Vec::new();
        let ghost back = repeat(BACKSPACE, self.caret_back_before as int);
        let ghost written = new_line@.content.subrange(
            self.write_bytes.start as int,
            self.write_bytes.end as int,
        );
        let ghost blank = repeat(SPACE, self.clear_bytes as int);

        let mut i: usize = 0;
        while i < self.caret_back_before
            invariant
                i <= self.caret_back_before,
                out@ == repeat(BACKSPACE, i as int),
            decreases self.caret_back_before - i,
        {
            out.push(BACKSPACE);
            i = i + 1;
        }
        assert(out@ =~= back + line_data@.subrange(
            self.write_bytes.start as int,
            self.write_bytes.start as int,
        ));

        let mut j: usize = self.write_bytes.start;
        while j < self.write_bytes.end
            invariant
                self.write_bytes.start <= j <= self.write_bytes.end <= line_data@.len(),
                line_data@ == new_line@.content,
                out@ == back + line_data@.subrange(self.write_bytes.start as int, j as int),
            decreases self.write_bytes.end - j,
        {
            out.push(line_data[j]);
            j = j + 1;
        }

        let mut k: usize = 0;
        while k < self.clear_bytes
            invariant
                k <= self.clear_bytes,
                out@ == back + written + repeat(SPACE, k as int),
            decreases self.clear_bytes - k,
        {
            out.push(SPACE);
            k = k + 1;
        }

        let mut l: usize = 0;
        while l < self.caret_back_after
            invariant
                l <= self.caret_back_after,
                out@ == back + written + blank + repeat(BACKSPACE, l as int),
            decreases self.caret_back_after - l,
        {
            out.push(BACKSPACE);
            l = l + 1;
        }
        out
    }
}

/// Compares the two lines byte by byte from the start. Where they are the
/// same, cursor and all, the diff sends nothing; else it is laid out from the
/// place where they part.
fn calc_line_diff<const LEN: usize>(old_line: &Line<LEN>, new_line: &Line<LEN>) -> (d: LineDiff)
    requires
        old_line.wf(),
        new_line.wf(),
    ensures
        d == diff_of(old_line@, new_line@),
        d.fits(new_line@),
        old_line@ == new_line@ ==> d == LineDiff::nothing_at(new_line@.len())
            && d.sends_nothing(),
        old_line@.cursor >= common_prefix_len(old_line@.content, new_line@.content) ==> {
            &&& d.caret_back_before == old_line@.cursor - common_prefix_len(
                old_line@.content,
                new_line@.content,
            )
            &&& d.write_bytes.start == common_prefix_len(old_line@.content, new_line@.content)
            &&& d.write_bytes.end == new_line@.len()
        },
{
    let old_data = old_line.start_to_end();
    let new_data = new_line.start_to_end();

    let mut prefix_length: usize = 0;
    while prefix_length < old_data.len() && prefix_length < new_data.len()
        && old_data[prefix_length] == new_data[prefix_length]
        invariant
            prefix_length <= old_data@.len(),
            prefix_length <= new_data@.len(),
            forall|i: int| 0 <= i < prefix_length ==> old_data@[i] == new_data@[i],
        decreases old_data@.len() - prefix_length,
    {
        prefix_length = prefix_length + 1;
    }
    proof {
        lemma_common_prefix_len(old_data@, new_data@, prefix_length as int);
        if old_line@ == new_line@ {
            lemma_common_prefix_len(old_data@, old_data@, old_data@.len() as int);
        }
    }
    if prefix_length == old_data.len() && prefix_length == new_data.len()
        && old_line.cursor_index() == new_line.cursor_index() {
        // The two lines are the same: there is nothing to send. The range to
        // write is what is left of the line behind the common prefix.
        assert(old_line@.content =~= new_line@.content);
        return LineDiff {
            caret_back_before: 0,
            write_bytes: prefix_length..new_line.end_index(),
            clear_bytes: 0,
            caret_back_after: 0,
        };
    }

    let caret_back_before = if prefix_length < old_line.cursor_index() {
        old_line.cursor_index() - prefix_length
    } else {
        0
    };

    let current_index = old_line.cursor_index() - caret_back_before;
    let write_bytes = current_index..new_line.end_index();
    let clear_bytes = if new_line.end_index() < old_line.end_index() {
        old_line.end_index() - new_line.end_index()
    } else {
        0
    };

    let current_index = new_line.end_index() + clear_bytes;
    let caret_back_after = current_index - new_line.cursor_index();

    LineDiff { caret_back_before, write_bytes, clear_bytes, caret_back_after }
}

} // verus!
