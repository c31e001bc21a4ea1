//! Word-boundary scanning over a line of characters.
//!
//! These are the single source of truth for the editor's `w`/`e`/`b`
//! motions and for the ranges its operators act on. A "word character" is
//! an alphanumeric character, decided by `char::is_alphanumeric`.

use vstd::prelude::*;

verus! {

/// What `char::is_alphanumeric` returns for each character. The full
/// predicate is defined by Unicode tables, so it is left abstract here.
pub uninterp spec fn alphanumeric_of(c: char) -> bool;

/// Relies on char::is_alphanumeric: whether the character is a letter or a
/// number. The result depends on the character alone.
#[verifier::external_body]
pub fn is_word_char(c: char) -> (r: bool)
    ensures
        r == alphanumeric_of(c),
{
    c.is_alphanumeric()
}

/// Smallest index at or after `i` holding a word character, or the length
/// of `s` if there is none.
pub open spec fn first_word_at(s: Seq<char>, i: int) -> int
    recommends
        0 <= i,
    decreases s.len() - i when 0 <= i
{
    if i >= s.len() {
        s.len() as int
    } else if alphanumeric_of(s[i]) {
        i
    } else {
        first_word_at(s, i + 1)
    }
}

/// Smallest index at or after `i` holding a non-word character, or the
/// length of `s` if there is none.
pub open spec fn first_non_word_at(s: Seq<char>, i: int) -> int
    recommends
        0 <= i,
    decreases s.len() - i when 0 <= i
{
    if i >= s.len() {
        s.len() as int
    } else if !alphanumeric_of(s[i]) {
        i
    } else {
        first_non_word_at(s, i + 1)
    }
}

/// Largest index at or before `i` holding a word character, or -1 if there
/// is none.
pub open spec fn last_word_at(s: Seq<char>, i: int) -> int
    recommends
        i < s.len(),
    decreases i + 1 when i < s.len()
{
    if i < 0 {
        -1
    } else if alphanumeric_of(s[i]) {
        i
    } else {
        last_word_at(s, i - 1)
    }
}

/// Largest index at or before `i` holding a non-word character, or -1 if
/// there is none.
pub open spec fn last_non_word_at(s: Seq<char>, i: int) -> int
    recommends
        i < s.len(),
    decreases i + 1 when i < s.len()
{
    if i < 0 {
        -1
    } else if !alphanumeric_of(s[i]) {
        i
    } else {
        last_non_word_at(s, i - 1)
    }
}

/// The offset of the last character of `s`, or 0 when `s` is empty.
pub open spec fn last_offset(s: Seq<char>) -> int {
    if s.len() == 0 {
        0
    } else {
        s.len() - 1
    }
}

/// Where the `e` motion lands from `cursor`: scan forward from the next
/// offset into a word, then to the offset just before that word ends, or
/// the last offset when the scan runs off the end.
pub open spec fn spec_word_end(s: Seq<char>, cursor: int) -> int
    recommends
        0 <= cursor,
{
    let i = first_word_at(s, cursor + 1);
    if i == s.len() {
        last_offset(s)
    } else {
        first_non_word_at(s, i) - 1
    }
}

/// Where the `b` motion lands from `cursor`: scan backward into a word,
/// then to that word's first offset, or 0 when the scan runs off the start.
pub open spec fn spec_word_start(s: Seq<char>, cursor: int) -> int
    recommends
        cursor <= s.len(),
{
    let i = last_word_at(s, cursor - 1);
    if i == -1 {
        0
    } else {
        last_non_word_at(s, i) + 1
    }
}

/// Where the `w` motion lands from `cursor`: scan forward out of the
/// current word, then to the first offset of the next word, or the last
/// offset when the text ends first.
pub open spec fn spec_next_word_start(s: Seq<char>, cursor: int) -> int
    recommends
        0 <= cursor,
{
    let j = first_word_at(s, first_non_word_at(s, cursor));
    if j == s.len() {
        last_offset(s)
    } else {
        j
    }
}

/// Forward scans stay within `[i, len]`.
pub proof fn lemma_first_word_at_bounds(s: Seq<char>, i: int)
    requires
        0 <= i,
    ensures
        first_word_at(s, i) <= s.len(),
        first_non_word_at(s, i) <= s.len(),
        i <= s.len() ==> i <= first_word_at(s, i),
        i <= s.len() ==> i <= first_non_word_at(s, i),
    decreases s.len() - i,
{
    if i < s.len() {
        lemma_first_word_at_bounds(s, i + 1);
    }
}

/// Backward scans stay within `[-1, i]` (and below the length).
pub proof fn lemma_last_word_at_bounds(s: Seq<char>, i: int)
    requires
        i < s.len(),
    ensures
        -1 <= last_word_at(s, i),
        -1 <= last_non_word_at(s, i),
        i >= -1 ==> last_word_at(s, i) <= i,
        i >= -1 ==> last_non_word_at(s, i) <= i,
        last_word_at(s, i) >= 0 ==> alphanumeric_of(s[last_word_at(s, i)]),
        last_non_word_at(s, i) >= 0 ==> !alphanumeric_of(s[last_non_word_at(s, i)]),
    decreases i + 1,
{
    if i >= 0 {
        lemma_last_word_at_bounds(s, i - 1);
    }
}

/// A forward scan that stops before the end stops on what it looked for.
pub proof fn lemma_first_word_at_found(s: Seq<char>, i: int)
    requires
        0 <= i,
    ensures
        first_word_at(s, i) < s.len() ==> alphanumeric_of(s[first_word_at(s, i)]),
        first_non_word_at(s, i) < s.len() ==> !alphanumeric_of(s[first_non_word_at(s, i)]),
    decreases s.len() - i,
{
    if i < s.len() {
        lemma_first_word_at_found(s, i + 1);
    }
}

/// Every motion target lies inside the text. This is the navigation
/// functions' safety law: for non-empty text and any starting offset within
/// it, `e`, `b` and `w` land on a valid character offset.
pub proof fn lemma_motion_targets_in_bounds(s: Seq<char>, cursor: int)
    requires
        s.len() > 0,
        0 <= cursor <= s.len(),
    ensures
        0 <= spec_word_end(s, cursor) < s.len(),
        0 <= spec_word_start(s, cursor) < s.len(),
        0 <= spec_next_word_start(s, cursor) < s.len(),
{
    lemma_first_word_at_bounds(s, cursor + 1);
    let i = first_word_at(s, cursor + 1);
    if i < s.len() {
        lemma_first_word_at_found(s, cursor + 1);
        lemma_first_word_at_bounds(s, i);
        // the scan for the word's end starts on a word character, so it
        // moves at least one step
        assert(first_non_word_at(s, i) == first_non_word_at(s, i + 1));
        lemma_first_word_at_bounds(s, i + 1);
    }
    lemma_last_word_at_bounds(s, cursor - 1);
    let b = last_word_at(s, cursor - 1);
    if b >= 0 {
        lemma_last_word_at_bounds(s, b);
        assert(last_non_word_at(s, b) == last_non_word_at(s, b - 1));
        lemma_last_word_at_bounds(s, b - 1);
    }
    lemma_first_word_at_bounds(s, cursor);
    let nw = first_non_word_at(s, cursor);
    lemma_first_word_at_bounds(s, nw);
    lemma_first_word_at_found(s, nw);
}

/// The `w` motion never moves backward.
pub proof fn lemma_next_word_start_moves_forward(s: Seq<char>, cursor: int)
    requires
        s.len() > 0,
        0 <= cursor < s.len(),
    ensures
        spec_next_word_start(s, cursor) >= cursor,
{
    lemma_first_word_at_bounds(s, cursor);
    let nw = first_non_word_at(s, cursor);
    lemma_first_word_at_bounds(s, nw);
}

/// The `b` motion never moves forward.
pub proof fn lemma_word_start_moves_backward(s: Seq<char>, cursor: int)
    requires
        0 <= cursor <= s.len(),
    ensures
        spec_word_start(s, cursor) <= cursor,
{
    lemma_last_word_at_bounds(s, cursor - 1);
    let b = last_word_at(s, cursor - 1);
    if b >= 0 {
        lemma_last_word_at_bounds(s, b);
        assert(last_non_word_at(s, b) == last_non_word_at(s, b - 1));
        lemma_last_word_at_bounds(s, b - 1);
    }
}

/// First word-character offset at or after `from`, or the text's length.
pub fn find_word_at(line: &Vec<char>, from: usize) -> (r: usize)
    ensures
        r == first_word_at(line@, from as int),
{
    let len = line.len();
    let mut i = from;
    if i > len {
        proof {
            assert(first_word_at(line@, from as int) == len);
        }
        return len;
    }
    while i < len && !is_word_char(line[i])
        invariant
            from <= i <= len,
            len == line@.len(),
            first_word_at(line@, from as int) == first_word_at(line@, i as int),
        decreases len - i,
    {
        i = i + 1;
    }
    i
}

/// First non-word-character offset at or after `from`, or the text's length.
pub fn find_non_word_at(line: &Vec<char>, from: usize) -> (r: usize)
    ensures
        r == first_non_word_at(line@, from as int),
{
    let len = line.len();
    let mut i = from;
    if i > len {
        proof {
            assert(first_non_word_at(line@, from as int) == len);
        }
        return len;
    }
    while i < len && is_word_char(line[i])
        invariant
            from <= i <= len,
            len == line@.len(),
            first_non_word_at(line@, from as int) == first_non_word_at(line@, i as int),
        decreases len - i,
    {
        i = i + 1;
    }
    i
}

} // verus!
