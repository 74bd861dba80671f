//! A fixed-capacity line of bytes with a cursor.
//!
//! A [`Line`] owns `LEN` bytes of storage, of which the first `end` are its
//! content. Contracts speak of a line through its view, a [`LineView`]: the
//! content as a sequence of bytes and the place of the cursor in it. Bytes of
//! the storage behind the content are stale, and no contract constrains them.

use vstd::prelude::*;
use vstd::slice::slice_subrange;
use vstd::std_specs::cmp::PartialEqSpecImpl;

verus! {

/// Why an edit of a [`Line`] was refused.
#[derive(Copy, Clone, Debug, PartialEq, Eq, Structural)]
pub enum LineError {
    /// The edit reaches past the line's content or its capacity.
    OutOfBounds,
}

/// What a [`Line`] stands for: its content and the place of its cursor.
pub struct LineView {
    pub content: Seq<u8>,
    pub cursor: int,
}

/// The number of places in the half-open range from `start` to `end`; none where `end` comes first.
pub open spec fn span(start: int, end: int) -> int {
    if start <= end {
        end - start
    } else {
        0
    }
}

impl LineView {
    /// The line without content, its cursor at the start.
    pub open spec fn empty() -> LineView {
        LineView { content: Seq::empty(), cursor: 0 }
    }

    /// The line that holds `content` with the cursor behind its last byte.
    pub open spec fn typed(content: Seq<u8>) -> LineView {
        LineView { content, cursor: content.len() as int }
    }

    /// The number of bytes of content.
    pub open spec fn len(self) -> int {
        self.content.len() as int
    }

    /// The cursor lies within the content, and the content fits `capacity` bytes.
    pub open spec fn fits(self, capacity: int) -> bool {
        0 <= self.cursor <= self.len() <= capacity
    }

    /// The line with `bytes` put in at `at`. A cursor at or behind `at` moves along.
    pub open spec fn insert(self, at: int, bytes: Seq<u8>) -> LineView {
        LineView {
            content: self.content.subrange(0, at) + bytes + self.content.subrange(at, self.len()),
            cursor: if at <= self.cursor {
                self.cursor + bytes.len()
            } else {
                self.cursor
            },
        }
    }

    /// The line without the bytes from `start` up to `end`. A cursor behind the
    /// range moves back by its length, one inside it snaps to `start`, one
    /// before it stays. An empty range changes nothing.
    pub open spec fn remove(self, start: int, end: int) -> LineView {
        if start >= end {
            self
        } else {
            LineView {
                content: self.content.subrange(0, start) + self.content.subrange(end, self.len()),
                cursor: if end <= self.cursor {
                    self.cursor - (end - start)
                } else if start <= self.cursor {
                    start
                } else {
                    self.cursor
                },
            }
        }
    }

    /// The line with its cursor moved by `by`, as far as the content reaches.
    pub open spec fn moved(self, by: int) -> LineView {
        LineView {
            content: self.content,
            cursor: if self.cursor + by < 0 {
                0
            } else if self.cursor + by > self.len() {
                self.len()
            } else {
                self.cursor + by
            },
        }
    }

    /// The line with the cursor set to `cursor`.
    pub open spec fn with_cursor(self, cursor: int) -> LineView {
        LineView { content: self.content, cursor }
    }

    /// The line cut off at the cursor.
    pub open spec fn truncated(self) -> LineView {
        LineView { content: self.content.subrange(0, self.cursor), cursor: self.cursor }
    }
}

/// Removing what was just inserted gives the line back, content and cursor.
pub proof fn lemma_remove_undoes_insert(line: LineView, at: int, bytes: Seq<u8>)
    requires
        0 <= line.cursor <= line.len(),
        0 <= at <= line.len(),
    ensures
        line.insert(at, bytes).remove(at, at + bytes.len()) == line,
{
    let after = line.insert(at, bytes).remove(at, at + bytes.len());
    assert(after.content =~= line.content);
}

/// A line of at most `LEN` bytes, edited in place.
#[derive(Copy, Clone, Debug)]
pub struct Line<const LEN: usize> {
    data: [u8; LEN],
    cursor_index: usize,
    end_index: usize,
}

impl<const LEN: usize> View for Line<LEN> {
    type V = LineView;

    closed spec fn view(&self) -> LineView {
        LineView {
            content: Seq::new(
                (if self.end_index <= LEN {
                    self.end_index
                } else {
                    LEN
                }) as nat,
                |i: int| self.data@[i],
            ),
            cursor: self.cursor_index as int,
        }
    }
}

impl<const LEN: usize> Default for Line<LEN> {
    /// An empty line.
    fn default() -> (line: Self)
        ensures
            line.wf(),
            line@ == LineView::empty(),
    {
        let line = Line { data: [0u8; LEN], cursor_index: 0, end_index: 0 };
        assert(line@.content =~= Seq::<u8>::empty());
        line
    }
}

impl<const LEN: usize> PartialEq for Line<LEN> {
    /// Two lines are equal when they hold the same content and cursor.
    fn eq(&self, other: &Self) -> (same: bool) {
        let n = if self.end_index <= LEN {
            self.end_index
        } else {
            LEN
        };
        let m = if other.end_index <= LEN {
            other.end_index
        } else {
            LEN
        };
        assert(self@.content.len() == n && other@.content.len() == m);
        if self.cursor_index != other.cursor_index || n != m {
            return false;
        }
        let mut i: usize = 0;
        while i < n
            invariant
                i <= n <= LEN,
                n == self@.content.len(),
                n == other@.content.len(),
                self@.cursor == other@.cursor,
                forall|j: int| 0 <= j < i ==> self@.content[j] == other@.content[j],
            decreases n - i,
        {
            if self.data[i] != other.data[i] {
                assert(self@.content[i as int] != other@.content[i as int]);
                return false;
            }
            i = i + 1;
        }
        assert(self@.content =~= other@.content);
        true
    }
}

impl<const LEN: usize> PartialEqSpecImpl for Line<LEN> {
    open spec fn obeys_eq_spec() -> bool {
        true
    }

    open spec fn eq_spec(&self, other: &Self) -> bool {
        self@ == other@
    }
}

impl<const LEN: usize> Line<LEN> {
    /// What the storage must satisfy for the view to be the line.
    pub closed spec fn inv(&self) -> bool {
        self.cursor_index <= self.end_index <= LEN
    }

    /// The invariant of a line: the cursor lies within the content, and the
    /// content within the capacity.
    pub open spec fn wf(&self) -> bool {
        &&& self.inv()
        &&& self@.fits(LEN as int)
    }

    /// The line that holds `data`, with the cursor behind its last byte.
    pub fn from_u8(data: &[u8]) -> (line: Self)
        requires
            data@.len() <= LEN,
        ensures
            line.wf(),
            line@ == LineView::typed(data@),
    {
        let mut line = Line::default();
        line.set_from_u8(data);
        line
    }

    /// The content before the cursor.
    pub fn start_to_cursor(&self) -> (bytes: &[u8])
        requires
            self.wf(),
        ensures
            bytes@ == self@.content.subrange(0, self@.cursor),
    {
        let bytes = slice_subrange(self.data.as_slice(), 0, self.cursor_index);
        bytes
    }

    /// The whole content.
    pub fn start_to_end(&self) -> (bytes: &[u8])
        requires
            self.wf(),
        ensures
            bytes@ == self@.content,
    {
        let bytes = slice_subrange(self.data.as_slice(), 0, self.end_index);
        bytes
    }

    /// The number of bytes from the cursor to the end of the content.
    pub fn num_after_cursor(&self) -> (n: usize)
        requires
            self.wf(),
        ensures
            n == self@.len() - self@.cursor,
    {
        self.end_index - self.cursor_index
    }

    /// The place of the cursor.
    pub fn cursor_index(&self) -> (i: usize)
        requires
            self.wf(),
        ensures
            i == self@.cursor,
    {
        self.cursor_index
    }

    /// The length of the content.
    pub fn end_index(&self) -> (i: usize)
        requires
            self.wf(),
        ensures
            i == self@.len(),
    {
        self.end_index
    }

    /// Puts `data` into the line at `at`, moving what stands there to the
    /// right. Refuses, and leaves the line as it is, where `at` lies behind the
    /// content or the capacity does not hold `data` too.
    pub fn insert_range(&mut self, at: usize, data: &[u8]) -> (r: Result<usize, LineError>)
        requires
            old(self).wf(),
        ensures
            final(self).wf(),
            r is Ok <==> at <= old(self)@.len() && old(self)@.len() + data@.len() <= LEN,
            match r {
                Ok(n) => {
                    &&& n == data@.len()
                    &&& final(self)@ == old(self)@.insert(at as int, data@)
                    &&& final(self)@.len() == old(self)@.len() + data@.len()
                    &&& final(self)@.content.subrange(at as int, at + data@.len()) == data@
                },
                Err(e) => e == LineError::OutOfBounds && *final(self) == *old(self),
            },
    {
        let n = data.len();
        if n > LEN - self.end_index || at > self.end_index {
            return Err(LineError::OutOfBounds);
        }
        let ghost before = self.data@;
        let end = self.end_index;
        let mut i: usize = end;
        while i > at
            invariant
                at <= i <= end,
                end + n <= LEN,
                self.end_index == end,
                self.cursor_index == old(self).cursor_index,
                forall|j: int| 0 <= j < i + n && j < LEN ==> self.data@[j] == before[j],
                forall|j: int| i + n <= j < end + n ==> self.data@[j] == before[j - n],
            decreases i,
        {
            i = i - 1;
            self.data[i + n] = self.data[i];
        }
        let mut k: usize = 0;
        while k < n
            invariant
                k <= n,
                n == data@.len(),
                at <= end,
                end + n <= LEN,
                self.end_index == end,
                self.cursor_index == old(self).cursor_index,
                forall|j: int| 0 <= j < at ==> self.data@[j] == before[j],
                forall|j: int| at <= j < at + k ==> self.data@[j] == data@[j - at],
                forall|j: int| at + n <= j < end + n ==> self.data@[j] == before[j - n],
            decreases n - k,
        {
            self.data[at + k] = data[k];
            k = k + 1;
        }
        self.end_index = end + n;
        if at <= self.cursor_index {
            self.cursor_index = self.cursor_index + n;
        }
        assert(self@.content =~= old(self)@.insert(at as int, data@).content);
        Ok(n)
    }

    /// Takes the bytes of `range` out of the line, moving what stands behind
    /// them to the left. Refuses, and leaves the line as it is, where the range
    /// ends behind the content.
    pub fn remove_range(&mut self, range: core::ops::Range<usize>) -> (r: Result<
        usize,
        LineError,
    >)
        requires
            old(self).wf(),
        ensures
            final(self).wf(),
            r is Ok <==> range.end <= old(self)@.len(),
            match r {
                Ok(n) => {
                    &&& n == span(range.start as int, range.end as int)
                    &&& final(self)@ == old(self)@.remove(range.start as int, range.end as int)
                    &&& final(self)@.len() == old(self)@.len() - n
                    &&& range.start <= range.end ==> final(self)@.content == old(
                        self,
                    )@.content.subrange(0, range.start as int) + old(self)@.content.subrange(
                        range.end as int,
                        old(self)@.len(),
                    )
                },
                Err(e) => e == LineError::OutOfBounds && *final(self) == *old(self),
            },
    {
        if range.end > self.end_index {
            return Err(LineError::OutOfBounds);
        }
        if range.start >= range.end {
            assert(range.start == range.end ==> self@.content =~= self@.content.subrange(
                0,
                range.start as int,
            ) + self@.content.subrange(range.end as int, self@.len()));
            return Ok(0);
        }
        let ghost before = self.data@;
        let n = range.end - range.start;
        let end = self.end_index;
        let mut i: usize = range.end;
        while i < end
            invariant
                range.start < range.end <= i <= end <= LEN,
                n == range.end - range.start,
                self.end_index == end,
                self.cursor_index == old(self).cursor_index,
                forall|j: int| 0 <= j < range.start ==> self.data@[j] == before[j],
                forall|j: int| range.start <= j < i - n ==> self.data@[j] == before[j + n],
                forall|j: int| i <= j < LEN ==> self.data@[j] == before[j],
            decreases end - i,
        {
            self.data[i - n] = self.data[i];
            i = i + 1;
        }
        self.end_index = end - n;
        if range.end <= self.cursor_index {
            self.cursor_index = self.cursor_index - n;
        } else if range.start <= self.cursor_index {
            self.cursor_index = range.start;
        }
        assert(self@.content =~= old(self)@.remove(range.start as int, range.end as int).content);
        Ok(n)
    }

    /// Makes `data` the content, with the cursor behind its last byte.
    pub fn set_from_u8(&mut self, data: &[u8])
        requires
            data@.len() <= LEN,
        ensures
            final(self).wf(),
            final(self)@ == LineView::typed(data@),
    {
        let n = data.len();
        let mut k: usize = 0;
        while k < n
            invariant
                k <= n <= LEN,
                n == data@.len(),
                forall|j: int| 0 <= j < k ==> self.data@[j] == data@[j],
            decreases n - k,
        {
            self.data[k] = data[k];
            k = k + 1;
        }
        self.cursor_index = n;
        self.end_index = n;
        assert(self@.content =~= data@);
    }

    /// Makes this line a copy of `from`: content and cursor.
    pub fn set_from_cursor(&mut self, from: &Self)
        requires
            from.wf(),
        ensures
            final(self).wf(),
            final(self)@ == from@,
    {
        let n = from.end_index;
        let mut k: usize = 0;
        while k < n
            invariant
                k <= n <= LEN,
                n == from.end_index,
                forall|j: int| 0 <= j < k ==> self.data@[j] == from.data@[j],
            decreases n - k,
        {
            self.data[k] = from.data[k];
            k = k + 1;
        }
        self.cursor_index = from.cursor_index;
        self.end_index = n;
        assert(self@.content =~= from@.content);
    }

    /// Puts the cursor at `cursor_index`, which lies within the content.
    pub fn set_cursor_index(&mut self, cursor_index: usize)
        requires
            old(self).wf(),
            cursor_index <= old(self)@.len(),
        ensures
            final(self).wf(),
            final(self)@ == old(self)@.with_cursor(cursor_index as int),
    {
        self.cursor_index = cursor_index;
    }

    /// Makes the content end at `end_index`, which lies at or behind the
    /// cursor and within the capacity. The bytes that the content had before
    /// stay; of the bytes that it gains nothing is known.
    pub fn set_end_index(&mut self, end_index: usize)
        requires
            old(self).wf(),
            old(self)@.cursor <= end_index <= LEN,
        ensures
            final(self).wf(),
            final(self)@.cursor == old(self)@.cursor,
            final(self)@.len() == end_index,
            forall|i: int|
                0 <= i < end_index && i < old(self)@.len() ==> final(self)@.content[i] == old(
                    self,
                )@.content[i],
    {
        self.end_index = end_index;
    }

    /// Moves the cursor by `by`, stopping at the start and at the end of the
    /// content, and returns how far it went.
    pub fn move_cursor(&mut self, by: isize) -> (moved: isize)
        requires
            old(self).wf(),
        ensures
            final(self).wf(),
            final(self)@ == old(self)@.moved(by as int),
            moved == final(self)@.cursor - old(self)@.cursor,
    {
        let cursor = self.cursor_index as i128;
        let end = self.end_index as i128;
        let wanted = cursor + by as i128;
        let target = if wanted < 0 {
            0
        } else if wanted > end {
            end
        } else {
            wanted
        };
        self.cursor_index = target as usize;
        (target - cursor) as isize
    }

    /// The byte that stands `by` places from the cursor. Within the content it
    /// is the content's byte. Right behind the content, where the
    /// capacity reaches that far, it is a stale byte of the storage.
    /// Anywhere else there is none.
    pub fn at_cursor(&self, by: isize) -> (byte: Option<u8>)
        requires
            self.wf(),
        ensures
            byte is Some <==> 0 <= self@.cursor + by <= self@.len() && self@.cursor + by < LEN,
            0 <= self@.cursor + by < self@.len() ==> byte == Some(
                self@.content[self@.cursor + by],
            ),
    {
        let idx = self.cursor_index as i128 + by as i128;
        if idx < 0 || idx > self.end_index as i128 || idx >= LEN as i128 {
            None
        } else {
            Some(self.data[idx as usize])
        }
    }

    /// Empties the line.
    pub fn clear(&mut self)
        ensures
            final(self).wf(),
            final(self)@ == LineView::empty(),
    {
        self.cursor_index = 0;
        self.end_index = 0;
        assert(self@.content =~= Seq::<u8>::empty());
    }
}

} // verus!
