//! Conversions and character classifications shared across the crate.
//!
//! The crate's algorithms work over vectors of characters; these helpers
//! move between that representation and `String`, and wrap the Unicode
//! character classifications of the standard library that the algorithms
//! consult.

use vstd::prelude::*;
use vstd::string::StrSliceExecFns;

verus! {

/// Relies on String::from_iter: collects exactly the characters of the
/// vector, in order.
#[verifier::external_body]
pub fn chars_to_string(v: &Vec<char>) -> (r: String)
    ensures
        r@ == v@,
{
    v.iter().collect()
}

/// The characters of a string slice, in order.
pub fn str_to_chars(s: &str) -> (r: Vec<char>)
    ensures
        r@ == s@,
{
    let len = s.unicode_len();
    let mut out: Vec<char> = Vec::new();
    let mut i: usize = 0;
    while i < len
        invariant
            0 <= i <= len,
            len == s@.len(),
            out@ =~= s@.take(i as int),
        decreases len - i,
    {
        out.push(s.get_char(i));
        i = i + 1;
    }
    proof {
        assert(s@.take(len as int) =~= s@);
    }
    out
}

/// What `str::to_lowercase` returns: the Unicode lowercase mapping of the
/// whole string, left abstract.
pub uninterp spec fn lower_of(s: Seq<char>) -> Seq<char>;

/// Relies on str::to_lowercase: the result depends on the characters alone,
/// and an empty string stays empty.
#[verifier::external_body]
pub fn lowercase(s: &str) -> (r: String)
    ensures
        r@ == lower_of(s@),
        s@.len() == 0 ==> r@.len() == 0,
{
    s.to_lowercase()
}

/// What `char::to_uppercase` yields for one character: its Unicode
/// uppercase mapping, one character or more.
pub uninterp spec fn upper_of(c: char) -> Seq<char>;

/// Relies on char::to_uppercase: yields the character's uppercase mapping
/// (the character itself when it has none), never empty; the result depends
/// on the character alone.
#[verifier::external_body]
pub fn char_to_upper(c: char) -> (r: Vec<char>)
    ensures
        r@ == upper_of(c),
        r@.len() >= 1,
{
    c.to_uppercase().collect()
}

/// What `char::is_uppercase` returns, left abstract (Unicode property).
pub uninterp spec fn is_uppercase_of(c: char) -> bool;

/// Relies on char::is_uppercase: whether the character has the Unicode
/// uppercase property; depends on the character alone.
#[verifier::external_body]
pub fn char_is_uppercase(c: char) -> (r: bool)
    ensures
        r == is_uppercase_of(c),
{
    c.is_uppercase()
}

/// What `char::is_alphabetic` returns, left abstract (Unicode property).
pub uninterp spec fn is_alphabetic_of(c: char) -> bool;

/// Relies on char::is_alphabetic: whether the character is a letter;
/// depends on the character alone.
#[verifier::external_body]
pub fn char_is_alphabetic(c: char) -> (r: bool)
    ensures
        r == is_alphabetic_of(c),
{
    c.is_alphabetic()
}

/// Smallest index at or after `i` holding one of the characters in
/// `targets`, or the length of `s` if there is none.
pub open spec fn first_of_at(s: Seq<char>, i: int, targets: Seq<char>) -> int
    recommends
        0 <= i,
    decreases s.len() - i when 0 <= i
{
    if i >= s.len() {
        s.len() as int
    } else if targets.contains(s[i]) {
        i
    } else {
        first_of_at(s, i + 1, targets)
    }
}

/// The scan stays within `[i, len]`.
pub proof fn lemma_first_of_at_bounds(s: Seq<char>, i: int, targets: Seq<char>)
    requires
        0 <= i,
    ensures
        first_of_at(s, i, targets) <= s.len(),
        i <= s.len() ==> i <= first_of_at(s, i, targets),
    decreases s.len() - i,
{
    if i < s.len() {
        lemma_first_of_at_bounds(s, i + 1, targets);
    }
}

/// A position holding a target character bounds the scan from above.
pub proof fn lemma_first_of_at_found_le(s: Seq<char>, targets: Seq<char>, from: int, i: int)
    requires
        0 <= from <= i < s.len(),
        targets.contains(s[i]),
    ensures
        first_of_at(s, from, targets) <= i,
    decreases i - from,
{
    if from < i && !targets.contains(s[from]) {
        lemma_first_of_at_found_le(s, targets, from + 1, i);
    }
}

/// Find the first occurrence, at or after `from`, of any character of
/// `targets`; the text's length when there is none.
pub fn find_first_of(v: &Vec<char>, from: usize, targets: &Vec<char>) -> (r: usize)
    requires
        from <= v@.len(),
    ensures
        r == first_of_at(v@, from as int, targets@),
{
    let len = v.len();
    let mut i = from;
    while i < len && !contains_char(targets, v[i])
        invariant
            from <= i <= len,
            len == v@.len(),
            first_of_at(v@, from as int, targets@) == first_of_at(v@, i as int, targets@),
        decreases len - i,
    {
        i = i + 1;
    }
    i
}

/// Whether `targets` holds the character `c`.
pub fn contains_char(targets: &Vec<char>, c: char) -> (r: bool)
    ensures
        r == targets@.contains(c),
{
    let mut k: usize = 0;
    while k < targets.len()
        invariant
            0 <= k <= targets@.len(),
            forall|j: int| 0 <= j < k ==> targets@[j] != c,
        decreases targets@.len() - k,
    {
        if targets[k] == c {
            return true;
        }
        k = k + 1;
    }
    false
}

/// Whether two string slices hold the same characters.
pub fn str_eq(a: &str, b: &str) -> (r: bool)
    ensures
        r == (a@ == b@),
{
    let la = a.unicode_len();
    let lb = b.unicode_len();
    if la != lb {
        proof {
            assert(a@.len() != b@.len());
        }
        return false;
    }
    let mut i: usize = 0;
    while i < la
        invariant
            0 <= i <= la,
            la == a@.len(),
            la == b@.len(),
            forall|j: int| 0 <= j < i ==> a@[j] == b@[j],
        decreases la - i,
    {
        if a.get_char(i) != b.get_char(i) {
            return false;
        }
        i = i + 1;
    }
    proof {
        assert(a@ =~= b@);
    }
    true
}

/// Whether the characters held by `v` spell exactly the string `s`.
pub fn chars_eq_str(v: &Vec<char>, s: &str) -> (r: bool)
    ensures
        r == (v@ == s@),
{
    let len = s.unicode_len();
    if v.len() != len {
        proof {
            assert(v@.len() != s@.len());
        }
        return false;
    }
    let mut i: usize = 0;
    while i < len
        invariant
            0 <= i <= len,
            len == s@.len(),
            v@.len() == len,
            forall|j: int| 0 <= j < i ==> v@[j] == s@[j],
        decreases len - i,
    {
        if v[i] != s.get_char(i) {
            return false;
        }
        i = i + 1;
    }
    proof {
        assert(v@ =~= s@);
    }
    true
}

} // verus!
