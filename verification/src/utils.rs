//! Title-casing of free text.
//!
//! The text is split into chunks that each end at a whitespace character;
//! a chunk is capitalized unless it already holds an uppercase letter or is
//! a short connective word (article, conjunction, preposition) somewhere in
//! the middle of the text.

use vstd::prelude::*;

use crate::fuzzy::is_whitespace_of;
use crate::text::{
    char_is_uppercase, char_to_upper, chars_eq_str, chars_to_string, is_uppercase_of, str_to_chars,
    upper_of,
};
use crate::fuzzy::char_is_whitespace;

verus! {

/// The text split after every whitespace character: each chunk is a run of
/// characters ending at a whitespace character, with the final chunk
/// possibly unterminated.
pub open spec fn split_after_ws(s: Seq<char>) -> Seq<Seq<char>>
    decreases s.len(),
{
    if s.len() == 0 {
        Seq::empty()
    } else {
        let rest = split_after_ws(s.drop_last());
        let c = s.last();
        if s.len() == 1 || is_whitespace_of(s[s.len() - 2]) || rest.len() == 0 {
            rest.push(seq![c])
        } else {
            rest.update(rest.len() - 1, rest.last().push(c))
        }
    }
}

/// The chunk with leading and trailing whitespace removed (what `str::trim`
/// leaves).
pub open spec fn trimmed(s: Seq<char>) -> Seq<char>
    decreases s.len(),
{
    if s.len() == 0 {
        s
    } else if is_whitespace_of(s[0]) {
        trimmed(s.skip(1))
    } else if is_whitespace_of(s.last()) {
        trimmed(s.drop_last())
    } else {
        s
    }
}

/// The connective words kept lowercase in the middle of a title.
pub open spec fn is_connective_word(w: Seq<char>) -> bool {
    ||| w == "a"@
    ||| w == "an"@
    ||| w == "and"@
    ||| w == "as"@
    ||| w == "at"@
    ||| w == "but"@
    ||| w == "by"@
    ||| w == "for"@
    ||| w == "if"@
    ||| w == "in"@
    ||| w == "of"@
    ||| w == "on"@
    ||| w == "or"@
    ||| w == "the"@
    ||| w == "to"@
    ||| w == "up"@
    ||| w == "yet"@
    ||| w == "nor"@
    ||| w == "via"@
}

/// Whether the chunk at `word_index` of `total_words` gets its first letter
/// capitalized: never when it already holds an uppercase letter, always at
/// the first and last position, and otherwise unless it is a connective
/// word.
pub open spec fn spec_should_capitalize(w: Seq<char>, word_index: int, total_words: int) -> bool {
    if exists|k: int| 0 <= k < w.len() && is_uppercase_of(#[trigger] w[k]) {
        false
    } else if word_index == 0 {
        true
    } else if word_index + 1 == total_words {
        true
    } else {
        !is_connective_word(trimmed(w))
    }
}

/// The chunk as it appears in the title: capitalized or kept as it is.
pub open spec fn spec_capitalized(w: Seq<char>, word_index: int, total_words: int) -> Seq<char> {
    if spec_should_capitalize(w, word_index, total_words) && w.len() > 0 {
        upper_of(w[0]) + w.skip(1)
    } else {
        w
    }
}

/// The title-cased chunks from index `i` on, joined back together.
pub open spec fn title_from(chunks: Seq<Seq<char>>, total: int, i: int) -> Seq<char>
    decreases chunks.len() - i when 0 <= i
{
    if i >= chunks.len() {
        Seq::empty()
    } else {
        spec_capitalized(chunks[i], i, total) + title_from(chunks, total, i + 1)
    }
}

/// The whole input in title case.
pub open spec fn spec_title_case(s: Seq<char>) -> Seq<char> {
    title_from(split_after_ws(s), split_after_ws(s).len() as int, 0)
}

/// Split the text after every whitespace character.
fn split_chunks(s: &Vec<char>) -> (r: Vec<Vec<char>>)
    ensures
        r.deep_view() == split_after_ws(s@),
{
    let mut chunks: Vec<Vec<char>> = Vec::new();
    let mut k: usize = 0;
    while k < s.len()
        invariant
            0 <= k <= s@.len(),
            chunks.deep_view() =~~= split_after_ws(s@.take(k as int)),
        decreases s@.len() - k,
    {
        let ghost before = chunks.deep_view();
        let c = s[k];
        if k == 0 || char_is_whitespace(s[k - 1]) || chunks.len() == 0 {
            chunks.push(vec![c]);
            proof {
                assert(chunks.deep_view() =~~= before.push(seq![c]));
            }
        } else {
            let mut last_chunk = match chunks.pop() {
                Some(t) => t,
                None => Vec::new(),
            };
            last_chunk.push(c);
            chunks.push(last_chunk);
            proof {
                assert(chunks.deep_view() =~~= before.update(
                    before.len() - 1,
                    before.last().push(c),
                ));
            }
        }
        k = k + 1;
        proof {
            assert(s@.take(k as int).drop_last() =~= s@.take(k - 1 as int));
            assert(chunks.deep_view() =~~= split_after_ws(s@.take(k as int)));
        }
    }
    proof {
        assert(s@.take(s@.len() as int) =~= s@);
    }
    chunks
}

/// Strip leading and trailing whitespace from the chunk.
fn trim_chunk(w: &Vec<char>) -> (r: Vec<char>)
    ensures
        r@ == trimmed(w@),
    decreases w@.len(),
{
    if w.len() == 0 {
        Vec::new()
    } else if char_is_whitespace(w[0]) {
        let mut rest: Vec<char> = Vec::new();
        let mut i: usize = 1;
        while i < w.len()
            invariant
                1 <= i <= w@.len(),
                rest@ =~= w@.subrange(1, i as int),
            decreases w@.len() - i,
        {
            rest.push(w[i]);
            i = i + 1;
        }
        proof {
            assert(rest@ =~= w@.skip(1));
        }
        trim_chunk(&rest)
    } else if char_is_whitespace(w[w.len() - 1]) {
        let mut rest: Vec<char> = Vec::new();
        let mut i: usize = 0;
        while i < w.len() - 1
            invariant
                0 <= i <= w@.len() - 1,
                w@.len() >= 1,
                rest@ =~= w@.subrange(0, i as int),
            decreases w@.len() - 1 - i,
        {
            rest.push(w[i]);
            i = i + 1;
        }
        proof {
            assert(rest@ =~= w@.drop_last());
        }
        trim_chunk(&rest)
    } else {
        let mut out: Vec<char> = Vec::new();
        let mut i: usize = 0;
        while i < w.len()
            invariant
                0 <= i <= w@.len(),
                out@ =~= w@.subrange(0, i as int),
            decreases w@.len() - i,
        {
            out.push(w[i]);
            i = i + 1;
        }
        proof {
            assert(out@ =~= w@);
        }
        out
    }
}

/// Whether the chunk, once trimmed, is one of the connective words.
fn is_connective(w: &Vec<char>) -> (r: bool)
    ensures
        r == is_connective_word(trimmed(w@)),
{
    let t = trim_chunk(w);
    chars_eq_str(&t, "a") || chars_eq_str(&t, "an") || chars_eq_str(&t, "and") || chars_eq_str(
        &t,
        "as",
    ) || chars_eq_str(&t, "at") || chars_eq_str(&t, "but") || chars_eq_str(&t, "by")
        || chars_eq_str(&t, "for") || chars_eq_str(&t, "if") || chars_eq_str(&t, "in")
        || chars_eq_str(&t, "of") || chars_eq_str(&t, "on") || chars_eq_str(&t, "or")
        || chars_eq_str(&t, "the") || chars_eq_str(&t, "to") || chars_eq_str(&t, "up")
        || chars_eq_str(&t, "yet") || chars_eq_str(&t, "nor") || chars_eq_str(&t, "via")
}

/// Whether the chunk at `word_index` of `total_words` gets capitalized.
pub fn should_capitalize(word: &Vec<char>, word_index: usize, total_words: usize) -> (r: bool)
    ensures
        r == spec_should_capitalize(word@, word_index as int, total_words as int),
{
    let mut k: usize = 0;
    while k < word.len()
        invariant
            0 <= k <= word@.len(),
            forall|j: int| 0 <= j < k ==> !is_uppercase_of(word@[j]),
        decreases word@.len() - k,
    {
        if char_is_uppercase(word[k]) {
            return false;
        }
        k = k + 1;
    }
    if word_index == 0 {
        return true;
    }
    if word_index < total_words && word_index + 1 == total_words {
        return true;
    }
    !is_connective(word)
}

/// Render the text in title case: capitalize the first letter of each
/// chunk, leaving chunks that already carry an uppercase letter, and
/// mid-text connective words, untouched.
pub fn to_title_case(input: &str) -> (r: String)
    ensures
        r@ == spec_title_case(input@),
{
    let cs = str_to_chars(input);
    let chunks = split_chunks(&cs);
    let ghost spec_chunks = split_after_ws(input@);
    let total_words = chunks.len();
    let mut out: Vec<char> = Vec::new();
    let mut i: usize = 0;
    while i < chunks.len()
        invariant
            0 <= i <= chunks@.len(),
            chunks.deep_view() == spec_chunks,
            chunks@.len() == spec_chunks.len(),
            total_words == chunks@.len(),
            out@ =~= title_upto(spec_chunks, total_words as int, i as int),
        decreases chunks@.len() - i,
    {
        proof {
            assert(chunks@[i as int]@ == spec_chunks[i as int]);
        }
        let chunk = &chunks[i];
        if should_capitalize(chunk, i, total_words) && chunk.len() > 0 {
            let upper = char_to_upper(chunk[0]);
            let mut j: usize = 0;
            while j < upper.len()
                invariant
                    0 <= j <= upper@.len(),
                    out@ =~= old_out_cap(spec_chunks, total_words as int, i as int, upper@, j as int),
                decreases upper@.len() - j,
            {
                out.push(upper[j]);
                j = j + 1;
            }
            let mut j2: usize = 1;
            while j2 < chunk.len()
                invariant
                    1 <= j2 <= chunk@.len(),
                    chunk@.len() >= 1,
                    out@ =~= old_out_cap(
                        spec_chunks,
                        total_words as int,
                        i as int,
                        upper@,
                        upper@.len() as int,
                    ) + chunk@.subrange(1, j2 as int),
                decreases chunk@.len() - j2,
            {
                out.push(chunk[j2]);
                j2 = j2 + 1;
            }
            proof {
                assert(out@ =~= old_out_cap(
                    spec_chunks,
                    total_words as int,
                    i as int,
                    upper@,
                    upper@.len() as int,
                ) + chunk@.skip(1));
            }
        } else {
            let mut j: usize = 0;
            while j < chunk.len()
                invariant
                    0 <= j <= chunk@.len(),
                    out@ =~= old_out_plain(spec_chunks, total_words as int, i as int) + chunk@.subrange(
                        0,
                        j as int,
                    ),
                decreases chunk@.len() - j,
            {
                out.push(chunk[j]);
                j = j + 1;
            }
            proof {
                assert(chunk@.subrange(0, chunk@.len() as int) =~= chunk@);
            }
        }
        i = i + 1;
        proof {
            assert(out@ =~= title_upto(spec_chunks, total_words as int, i as int));
        }
    }
    proof {
        lemma_title_split(input@, spec_chunks, total_words as int, total_words as int);
        assert(title_from(spec_chunks, total_words as int, total_words as int)
            =~= Seq::<char>::empty());
        assert(out@ =~= spec_title_case(input@));
    }
    chars_to_string(&out)
}

/// The title text produced by the chunks before index `i`.
pub open spec fn title_upto(chunks: Seq<Seq<char>>, total: int, i: int) -> Seq<char>
    decreases i when i >= 0
{
    if i <= 0 {
        Seq::empty()
    } else {
        title_upto(chunks, total, i - 1) + spec_capitalized(chunks[i - 1], i - 1, total)
    }
}

/// Output shape while copying a capitalized chunk: everything before it,
/// the uppercase mapping so far, nothing of the tail yet.
pub open spec fn old_out_cap(
    chunks: Seq<Seq<char>>,
    total: int,
    i: int,
    upper: Seq<char>,
    j: int,
) -> Seq<char> {
    title_upto(chunks, total, i) + upper.take(j)
}

/// Output shape while copying an untouched chunk.
pub open spec fn old_out_plain(chunks: Seq<Seq<char>>, total: int, i: int) -> Seq<char> {
    title_upto(chunks, total, i)
}

/// The finished prefix plus the chunks still to come always rebuild the
/// whole title.
proof fn lemma_title_split(s: Seq<char>, chunks: Seq<Seq<char>>, total: int, i: int)
    requires
        chunks == split_after_ws(s),
        total == chunks.len(),
        0 <= i <= chunks.len(),
    ensures
        spec_title_case(s) =~= title_upto(chunks, total, i) + title_from(chunks, total, i),
    decreases i,
{
    if i > 0 {
        lemma_title_split(s, chunks, total, i - 1);
        assert(title_from(chunks, total, i - 1) == spec_capitalized(chunks[i - 1], i - 1, total)
            + title_from(chunks, total, i));
        assert(title_upto(chunks, total, i) =~= title_upto(chunks, total, i - 1)
            + spec_capitalized(chunks[i - 1], i - 1, total));
    }
}

} // verus!
