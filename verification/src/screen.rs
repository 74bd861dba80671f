//! The terminal that the editor writes to, as the contracts see it.
//!
//! A [`Screen`] is one row of cells and a cursor. A backspace moves the
//! cursor one cell to the left; any other byte is printed in the cell under
//! the cursor, which then moves one cell to the right. The laws of this module
//! say that a [`LineDiff`] takes such a terminal from one line to the next.

use vstd::prelude::*;
use crate::line::LineView;
use crate::line_diff::{diff_of, lemma_common_prefix_agrees, repeat, LineDiff, BACKSPACE, SPACE};

verus! {

/// The byte that a terminal showing `line` has in cell `i`: the line's byte,
/// and a blank behind the line.
pub open spec fn cell_of(line: LineView, i: int) -> u8 {
    if 0 <= i < line.len() {
        line.content[i]
    } else {
        SPACE
    }
}

/// None of `bytes` is a backspace.
pub open spec fn prints(bytes: Seq<u8>) -> bool {
    forall|i: int| 0 <= i < bytes.len() ==> bytes[i] != BACKSPACE
}

/// One row of a terminal: what each cell holds, and where the cursor stands.
pub struct Screen {
    pub cells: spec_fn(int) -> u8,
    pub cursor: int,
}

impl Screen {
    /// The screen after it took `byte`.
    pub open spec fn put(self, byte: u8) -> Screen {
        if byte == BACKSPACE {
            Screen {
                cells: self.cells,
                cursor: if self.cursor > 0 {
                    self.cursor - 1
                } else {
                    0
                },
            }
        } else {
            Screen {
                cells: |i: int|
                    if i == self.cursor {
                        byte
                    } else {
                        (self.cells)(i)
                    },
                cursor: self.cursor + 1,
            }
        }
    }

    /// The screen after it took `bytes`, one after the other.
    pub open spec fn feed(self, bytes: Seq<u8>) -> Screen
        decreases bytes.len(),
    {
        if bytes.len() == 0 {
            self
        } else {
            self.put(bytes[0]).feed(bytes.skip(1))
        }
    }

    /// The screen shows `line`: its bytes from the first cell on, blanks behind
    /// them, and the cursor where the line has it.
    pub open spec fn shows(self, line: LineView) -> bool {
        &&& self.cursor == line.cursor
        &&& forall|i: int| 0 <= i ==> (self.cells)(i) == #[trigger] cell_of(line, i)
    }
}

impl LineDiff {
    /// The diff is one that takes a terminal from `old` to `new`. It steps back
    /// to a cell within the old line and writes bytes of the new line that
    /// belong there; the cells that it passes over hold in the end what the
    /// new line has there, the others hold it already; and its last steps
    /// lead to the new cursor.
    pub open spec fn turns(self, old: LineView, new: LineView) -> bool {
        let from = old.cursor - self.caret_back_before;
        let wrote = from + (self.write_bytes.end - self.write_bytes.start);
        let stop = wrote + self.clear_bytes;
        &&& 0 <= from
        &&& self.fits(new)
        &&& self.write_bytes.start < self.write_bytes.end ==> self.write_bytes.start == from
        &&& self.caret_back_after == stop - new.cursor
        &&& forall|i: int| 0 <= i < from || stop <= i ==> cell_of(old, i) == cell_of(new, i)
        &&& forall|i: int| wrote <= i < stop ==> cell_of(new, i) == SPACE
    }
}

/// Feeding two runs of bytes one after the other is feeding them joined.
pub proof fn lemma_feed_concat(screen: Screen, a: Seq<u8>, b: Seq<u8>)
    ensures
        screen.feed(a + b) == screen.feed(a).feed(b),
    decreases a.len(),
{
    if a.len() > 0 {
        assert((a + b).skip(1) =~= a.skip(1) + b);
        lemma_feed_concat(screen.put(a[0]), a.skip(1), b);
    }
}

/// Backspaces move the cursor to the left and change no cell.
pub proof fn lemma_feed_backspaces(screen: Screen, n: int)
    requires
        0 <= n <= screen.cursor,
    ensures
        screen.feed(repeat(BACKSPACE, n)) == (Screen {
            cells: screen.cells,
            cursor: screen.cursor - n,
        }),
    decreases n,
{
    if n > 0 {
        assert(repeat(BACKSPACE, n).skip(1) =~= repeat(BACKSPACE, n - 1));
        lemma_feed_backspaces(screen.put(BACKSPACE), n - 1);
    }
}

/// Bytes other than backspaces fill the cells from the cursor on and leave the
/// cursor behind them.
pub proof fn lemma_feed_printed(screen: Screen, bytes: Seq<u8>)
    requires
        prints(bytes),
    ensures
        screen.feed(bytes).cursor == screen.cursor + bytes.len(),
        forall|i: int|
            (#[trigger] (screen.feed(bytes).cells)(i)) == (if screen.cursor <= i < screen.cursor
                + bytes.len() {
                bytes[i - screen.cursor]
            } else {
                (screen.cells)(i)
            }),
    decreases bytes.len(),
{
    if bytes.len() > 0 {
        lemma_feed_printed(screen.put(bytes[0]), bytes.skip(1));
    }
}

/// A terminal that shows `old` and takes what a diff from `old` to `new`
/// sends, shows `new`: the same content and the same cursor. The bytes
/// that the diff writes must be such that a terminal prints them.
pub proof fn lemma_rendering_shows_new(screen: Screen, old: LineView, new: LineView, diff: LineDiff)
    requires
        0 <= new.cursor,
        screen.shows(old),
        diff.turns(old, new),
        prints(new.content.subrange(diff.write_bytes.start as int, diff.write_bytes.end as int)),
    ensures
        screen.feed(diff.rendering(new)).shows(new),
{
    let back = repeat(BACKSPACE, diff.caret_back_before as int);
    let written = new.content.subrange(diff.write_bytes.start as int, diff.write_bytes.end as int);
    let blank = repeat(SPACE, diff.clear_bytes as int);
    let home = repeat(BACKSPACE, diff.caret_back_after as int);
    let s1 = screen.feed(back);
    let s2 = s1.feed(written);
    let s3 = s2.feed(blank);

    lemma_feed_concat(screen, back + written + blank, home);
    lemma_feed_concat(screen, back + written, blank);
    lemma_feed_concat(screen, back, written);

    lemma_feed_backspaces(screen, diff.caret_back_before as int);
    lemma_feed_printed(s1, written);
    lemma_feed_printed(s2, blank);
    lemma_feed_backspaces(s3, diff.caret_back_after as int);
}

/// The diff between two lines is one that takes a terminal from the first to
/// the second.
pub proof fn lemma_diff_of_turns(old: LineView, new: LineView, capacity: int)
    requires
        old.fits(capacity),
        new.fits(capacity),
        capacity <= usize::MAX,
    ensures
        diff_of(old, new).turns(old, new),
{
    lemma_common_prefix_agrees(old.content, new.content);
}

/// Diff and apply lead to the new line: a terminal that shows `old` and
/// takes the rendering of the diff between `old` and `new`, shows `new`,
/// whatever the two lines hold, as long as `new` holds no backspace.
pub proof fn lemma_diff_and_apply_show_new(screen: Screen, old: LineView, new: LineView, capacity: int)
    requires
        old.fits(capacity),
        new.fits(capacity),
        capacity <= usize::MAX,
        prints(new.content),
        screen.shows(old),
    ensures
        screen.feed(diff_of(old, new).rendering(new)).shows(new),
{
    lemma_diff_of_turns(old, new, capacity);
    lemma_rendering_shows_new(screen, old, new, diff_of(old, new));
}

/// The diff between a line and itself sends nothing, wherever the cursor
/// stands: no step back, no byte written, no blank. Its range to write is the
/// empty one at the end of the line.
pub proof fn lemma_diff_of_same_line(line: LineView)
    ensures
        diff_of(line, line) == LineDiff::nothing_at(line.len()),
        diff_of(line, line).sends_nothing(),
        diff_of(line, line).rendering(line) == Seq::<u8>::empty(),
{
    assert(diff_of(line, line).rendering(line) =~= Seq::<u8>::empty());
}

} // verus!
