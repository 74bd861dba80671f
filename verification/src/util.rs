//! Small helpers of the editor.

use vstd::prelude::*;
use vstd::string::StringSliceAdditionalSpecFns;
use crate::line::Line;

verus! {

/// `byte` is a blank of ASCII: a space, a tab, a line feed, a form feed or a
/// carriage return.
pub open spec fn is_ascii_whitespace(byte: u8) -> bool {
    byte == 0x20 || byte == 0x09 || byte == 0x0A || byte == 0x0C || byte == 0x0D
}

/// Where one ends up who walks back from `from` over the bytes of `content`
/// that are blanks (`blank` is true) or that are not (`blank` is false).
pub open spec fn walk_back(content: Seq<u8>, from: int, blank: bool) -> int
    decreases from,
{
    if from <= 0 || is_ascii_whitespace(content[from - 1]) != blank {
        from
    } else {
        walk_back(content, from - 1, blank)
    }
}

/// Where the word before `cursor` starts: back over the blanks before the
/// cursor, then back over the word before them.
pub open spec fn previous_word_start(content: Seq<u8>, cursor: int) -> int {
    walk_back(content, walk_back(content, cursor, true), false)
}

/// The walk ends between the start of the content and where it began.
pub proof fn lemma_walk_back_bounds(content: Seq<u8>, from: int, blank: bool)
    requires
        0 <= from,
    ensures
        0 <= walk_back(content, from, blank) <= from,
    decreases from,
{
    if !(from <= 0 || is_ascii_whitespace(content[from - 1]) != blank) {
        lemma_walk_back_bounds(content, from - 1, blank);
    }
}

/// The walk passes over a run of bytes of the one kind, and ends at the start
/// of the content or behind a byte of the other kind.
pub proof fn lemma_walk_back_passes_a_run(content: Seq<u8>, from: int, blank: bool)
    requires
        0 <= from,
    ensures
        forall|i: int|
            walk_back(content, from, blank) <= i < from ==> is_ascii_whitespace(
                #[trigger] content[i],
            ) == blank,
        walk_back(content, from, blank) == 0 || is_ascii_whitespace(
            content[walk_back(content, from, blank) - 1],
        ) != blank,
    decreases from,
{
    if !(from <= 0 || is_ascii_whitespace(content[from - 1]) != blank) {
        lemma_walk_back_passes_a_run(content, from - 1, blank);
    }
}

/// The word before the cursor starts between the start of the content and
/// the cursor.
pub proof fn lemma_previous_word_start_bounds(content: Seq<u8>, cursor: int)
    requires
        0 <= cursor,
    ensures
        0 <= previous_word_start(content, cursor) <= cursor,
{
    lemma_walk_back_bounds(content, cursor, true);
    lemma_walk_back_bounds(content, walk_back(content, cursor, true), false);
}

/// Whether `byte` is a blank of ASCII.
fn is_blank(byte: u8) -> (blank: bool)
    ensures
        blank == is_ascii_whitespace(byte),
{
    byte == 0x20 || byte == 0x09 || byte == 0x0A || byte == 0x0C || byte == 0x0D
}

/// Borrows two different elements of `slice` at once. Refuses where an index
/// lies outside the slice or the two are the same, and says which.
pub fn get_two_mut_checked<T>(idx1: usize, idx2: usize, slice: &mut [T]) -> (r: Result<
    (&mut T, &mut T),
    &'static str,
>)
    ensures
        r is Ok <==> idx1 < old(slice)@.len() && idx2 < old(slice)@.len() && idx1 != idx2,
        match r {
            Ok((e1, e2)) => {
                &&& *e1 == old(slice)@[idx1 as int]
                &&& *e2 == old(slice)@[idx2 as int]
                &&& final(slice)@ == old(slice)@.update(idx1 as int, *final(e1)).update(
                    idx2 as int,
                    *final(e2),
                )
            },
            Err(why) => {
                &&& final(slice)@ == old(slice)@
                &&& why == (if idx1 >= old(slice)@.len() {
                    "idx1 out of range"
                } else if idx2 >= old(slice)@.len() {
                    "idx2 out of range"
                } else {
                    "idx1 == idx2; must be different"
                })
            },
        },
{
    if idx1 >= slice.len() {
        return Err("idx1 out of range");
    }
    if idx2 >= slice.len() {
        return Err("idx2 out of range");
    }
    if idx1 == idx2 {
        return Err("idx1 == idx2; must be different");
    }
    let (swapped, idx1, idx2) = if idx1 < idx2 {
        (false, idx1, idx2)
    } else {
        (true, idx2, idx1)
    };

    let (s1, s2) = slice.split_at_mut(idx1 + 1);
    let e1 = &mut s1[idx1];
    let e2 = &mut s2[idx2 - idx1 - 1];

    if swapped {
        Ok((e2, e1))
    } else {
        Ok((e1, e2))
    }
}

/// Moves the cursor of `line` back over the blanks before it, and from there
/// to the start of the word before them.
pub fn previous_word_cursor_position<const LEN: usize>(line: &mut Line<LEN>)
    requires
        old(line).wf(),
    ensures
        final(line).wf(),
        final(line)@ == old(line)@.with_cursor(
            previous_word_start(old(line)@.content, old(line)@.cursor),
        ),
{
    let ghost content = line@.content;
    let ghost start = line@.cursor;
    loop
        invariant
            line.wf(),
            line@.content == content,
            0 <= line@.cursor <= start,
            walk_back(content, start, true) == walk_back(content, line@.cursor, true),
        ensures
            line.wf(),
            line@.content == content,
            line@.cursor == walk_back(content, start, true),
        decreases line@.cursor,
    {
        match line.at_cursor(-1) {
            Some(c) => {
                if !is_blank(c) || line.cursor_index() == 0 {
                    break ;
                }
                line.move_cursor(-1);
            },
            None => {
                break ;
            },
        }
    }
    let ghost middle = line@.cursor;
    loop
        invariant
            line.wf(),
            line@.content == content,
            0 <= line@.cursor <= middle,
            walk_back(content, middle, false) == walk_back(content, line@.cursor, false),
        ensures
            line.wf(),
            line@.content == content,
            line@.cursor == walk_back(content, middle, false),
        decreases line@.cursor,
    {
        match line.at_cursor(-1) {
            Some(c) => {
                if is_blank(c) || line.cursor_index() == 0 {
                    break ;
                }
                line.move_cursor(-1);
            },
            None => {
                break ;
            },
        }
    }
}

/// Whether `actual` holds the bytes of `expected`.
pub fn assert_eq_u8(actual: &[u8], expected: &str) -> (same: bool)
    ensures
        same <==> actual@ == expected.spec_bytes(),
{
    let wanted = expected.as_bytes();
    if actual.len() != wanted.len() {
        return false;
    }
    let mut i: usize = 0;
    while i < actual.len()
        invariant
            i <= actual@.len(),
            actual@.len() == wanted@.len(),
            wanted@ == expected.spec_bytes(),
            forall|j: int| 0 <= j < i ==> actual@[j] == wanted@[j],
        decreases actual@.len() - i,
    {
        if actual[i] != wanted[i] {
            return false;
        }
        i = i + 1;
    }
    assert(actual@ =~= wanted@);
    true
}

} // verus!
