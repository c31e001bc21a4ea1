//! Fuzzy filtering of a list of options against typed filter text.
//!
//! The filter text is split on whitespace into terms; an option survives
//! only when every term matches it, and the survivors are ordered by
//! descending total score with ties broken by the options' original order.
//! The score itself comes from the skim fuzzy matcher; whether a term
//! matches at all is pinned down exactly: the term's characters must appear
//! in order within the option, compared case-sensitively when the term
//! holds an ASCII uppercase letter and ASCII-case-insensitively otherwise.

use vstd::prelude::*;

use fuzzy_matcher::skim::SkimMatcherV2;
use fuzzy_matcher::FuzzyMatcher;

verus! {

/// What `char::is_whitespace` returns for each character. The predicate is
/// defined by the Unicode white-space property, so it is left abstract.
pub uninterp spec fn is_whitespace_of(c: char) -> bool;

/// Relies on char::is_whitespace: whether the character has the Unicode
/// white-space property. The result depends on the character alone.
#[verifier::external_body]
pub fn char_is_whitespace(c: char) -> (r: bool)
    ensures
        r == is_whitespace_of(c),
{
    c.is_whitespace()
}

/// The score the skim matcher assigns a matching option for one term. The
/// scoring weighs adjacency, word boundaries and letter case and is left
/// abstract; it depends on the two strings alone.
pub uninterp spec fn fuzzy_score_of(choice: Seq<char>, pattern: Seq<char>) -> int;

/// ASCII uppercase letters.
pub open spec fn is_ascii_upper(c: char) -> bool {
    65 <= c as int <= 90
}

/// The character's code point with an ASCII uppercase letter folded to its
/// lowercase counterpart.
pub open spec fn ascii_lower_val(c: char) -> int {
    if is_ascii_upper(c) {
        c as int + 32
    } else {
        c as int
    }
}

/// Character equality as the matcher sees it: exact when matching is case
/// sensitive, up to ASCII case otherwise.
pub open spec fn chars_eq(a: char, b: char, sensitive: bool) -> bool {
    if sensitive {
        a == b
    } else {
        ascii_lower_val(a) == ascii_lower_val(b)
    }
}

/// A term containing an ASCII uppercase letter is matched case-sensitively.
pub open spec fn term_case_sensitive(p: Seq<char>) -> bool {
    exists|k: int| 0 <= k < p.len() && is_ascii_upper(#[trigger] p[k])
}

/// The pattern's characters appear in order within the choice, matching the
/// earliest possible position each time (which succeeds exactly when any
/// in-order embedding exists).
pub open spec fn subseq_match(choice: Seq<char>, pat: Seq<char>, sensitive: bool) -> bool
    decreases choice.len() + pat.len(),
{
    if pat.len() == 0 {
        true
    } else if choice.len() == 0 {
        false
    } else if chars_eq(choice[0], pat[0], sensitive) {
        subseq_match(choice.skip(1), pat.skip(1), sensitive)
    } else {
        subseq_match(choice.skip(1), pat, sensitive)
    }
}

/// Whether the skim matcher scores `pat` against `choice` at all.
pub open spec fn fuzzy_matched(choice: Seq<char>, pat: Seq<char>) -> bool {
    pat.len() == 0 || subseq_match(choice, pat, term_case_sensitive(pat))
}

/// Relies on fuzzy_matcher's SkimMatcherV2 (default configuration, smart
/// case): fuzzy_match returns a score exactly when the pattern's characters
/// appear in order within the choice, compared case-sensitively when the
/// pattern holds an ASCII uppercase letter and ASCII-case-insensitively
/// otherwise; an empty pattern scores 0, and the score is a function of the
/// two strings alone.
#[verifier::external_body]
fn fuzzy_match_score(choice: &str, pattern: &Vec<char>) -> (r: Option<i64>)
    ensures
        r.is_some() == fuzzy_matched(choice@, pattern@),
        r matches Some(s) ==> s as int == fuzzy_score_of(choice@, pattern@),
        pattern@.len() == 0 ==> r == Some(0i64),
{
    let pattern_str: String = pattern.iter().collect();
    let matcher = SkimMatcherV2::default().smart_case();
    matcher.fuzzy_match(choice, &pattern_str)
}

/// The filter text split on whitespace: the maximal runs of non-whitespace
/// characters, in order.
pub open spec fn split_ws(s: Seq<char>) -> Seq<Seq<char>>
    decreases s.len(),
{
    if s.len() == 0 {
        Seq::empty()
    } else {
        let rest = split_ws(s.drop_last());
        let c = s.last();
        if is_whitespace_of(c) {
            rest
        } else if s.len() >= 2 && !is_whitespace_of(s[s.len() - 2]) && rest.len() > 0 {
            rest.update(rest.len() - 1, rest.last().push(c))
        } else {
            rest.push(seq![c])
        }
    }
}

/// Split the filter text on whitespace into terms.
pub fn split_filter_terms(filter: &Vec<char>) -> (r: Vec<Vec<char>>)
    ensures
        r.deep_view() == split_ws(filter@),
{
    let mut terms: Vec<Vec<char>> = Vec::new();
    let mut k: usize = 0;
    while k < filter.len()
        invariant
            0 <= k <= filter@.len(),
            terms.deep_view() =~~= split_ws(filter@.take(k as int)),
        decreases filter@.len() - k,
    {
        let ghost before = terms.deep_view();
        let c = filter[k];
        if !char_is_whitespace(c) {
            if k > 0 && !char_is_whitespace(filter[k - 1]) && terms.len() > 0 {
                let mut last_term = match terms.pop() {
                    Some(t) => t,
                    None => Vec::new(),
                };
                last_term.push(c);
                terms.push(last_term);
                proof {
                    assert(terms.deep_view() =~~= before.update(
                        before.len() - 1,
                        before.last().push(c),
                    ));
                }
            } else {
                terms.push(vec![c]);
                proof {
                    assert(terms.deep_view() =~~= before.push(seq![c]));
                }
            }
        }
        k = k + 1;
        proof {
            assert(filter@.take(k as int).drop_last() =~= filter@.take(k - 1 as int));
            assert(terms.deep_view() =~~= split_ws(filter@.take(k as int)));
        }
    }
    proof {
        assert(filter@.take(filter@.len() as int) =~= filter@);
    }
    terms
}

/// An option survives the filter when every term matches it.
pub open spec fn option_matched(option: Seq<char>, terms: Seq<Seq<char>>) -> bool {
    forall|k: int| 0 <= k < terms.len() ==> fuzzy_matched(option, #[trigger] terms[k])
}

/// Sum of the per-term scores from index `i` on.
pub open spec fn score_sum_from(option: Seq<char>, terms: Seq<Seq<char>>, i: int) -> int
    decreases terms.len() - i when 0 <= i
{
    if i >= terms.len() {
        0
    } else {
        fuzzy_score_of(option, terms[i]) + score_sum_from(option, terms, i + 1)
    }
}

/// The option's total score: the sum of its scores for every term.
pub open spec fn option_score(option: Seq<char>, terms: Seq<Seq<char>>) -> int {
    score_sum_from(option, terms, 0)
}

/// Score `option` against every term: the total score when each term
/// matches, nothing as soon as one does not.
pub fn calculate_match_score(option: &str, filter_terms: &Vec<Vec<char>>) -> (r: Option<i128>)
    ensures
        r.is_some() == option_matched(option@, filter_terms.deep_view()),
        r matches Some(s) ==> s as int == option_score(option@, filter_terms.deep_view()),
{
    let ghost terms = filter_terms.deep_view();
    let mut score: i128 = 0;
    let mut k: usize = 0;
    while k < filter_terms.len()
        invariant
            0 <= k <= terms.len(),
            terms == filter_terms.deep_view(),
            forall|j: int| 0 <= j < k ==> fuzzy_matched(option@, #[trigger] terms[j]),
            option_score(option@, terms) == score + score_sum_from(option@, terms, k as int),
            -(k as int) * 0x8000_0000_0000_0000 <= score
                <= (k as int) * 0x7fff_ffff_ffff_ffff,
        decreases terms.len() - k,
    {
        proof {
            assert(terms[k as int] == filter_terms@[k as int]@);
        }
        match fuzzy_match_score(option, &filter_terms[k]) {
            Some(term_score) => {
                score = score + term_score as i128;
            },
            None => {
                return None;
            },
        }
        k = k + 1;
    }
    Some(score)
}

/// Order on scored options: higher total score first, the options' original
/// order on ties.
pub open spec fn pair_leq(a: (i128, usize), b: (i128, usize)) -> bool {
    a.0 > b.0 || (a.0 == b.0 && a.1 <= b.1)
}

/// The sequence is ordered by `pair_leq`.
pub open spec fn pairs_sorted(s: Seq<(i128, usize)>) -> bool {
    forall|i: int, j: int| 0 <= i < j < s.len() ==> pair_leq(#[trigger] s[i], #[trigger] s[j])
}

fn pair_leq_exec(a: (i128, usize), b: (i128, usize)) -> (r: bool)
    ensures
        r == pair_leq(a, b),
{
    a.0 > b.0 || (a.0 == b.0 && a.1 <= b.1)
}

/// Sort scored options by descending score, ties in original order. The
/// result holds exactly the input's elements.
fn sort_pairs(input: &Vec<(i128, usize)>) -> (r: Vec<(i128, usize)>)
    ensures
        pairs_sorted(r@),
        r@.to_multiset() == input@.to_multiset(),
{
    let mut out: Vec<(i128, usize)> = Vec::new();
    let mut idx: usize = 0;
    proof {
        assert(out@ =~= input@.take(0));
    }
    while idx < input.len()
        invariant
            0 <= idx <= input@.len(),
            pairs_sorted(out@),
            out@.to_multiset() == input@.take(idx as int).to_multiset(),
        decreases input@.len() - idx,
    {
        let x = input[idx];
        let mut p: usize = 0;
        while p < out.len() && pair_leq_exec(out[p], x)
            invariant
                0 <= p <= out@.len(),
                forall|j: int| 0 <= j < p ==> pair_leq(#[trigger] out@[j], x),
            decreases out@.len() - p,
        {
            p = p + 1;
        }
        let ghost old_out = out@;
        out.insert(p, x);
        proof {
            broadcast use vstd::seq_lib::group_to_multiset_ensures;

            assert(pairs_sorted(out@)) by {
                assert forall|i: int, j: int| 0 <= i < j < out@.len() implies pair_leq(
                    #[trigger] out@[i],
                    #[trigger] out@[j],
                ) by {
                    if i < p && j == p {
                    } else if i == p && j > p {
                        // x sorts before everything the scan did not pass:
                        // the first unpassed element is not before x, and
                        // the old order carries that forward
                        assert(!pair_leq(old_out[p as int], x));
                        assert(pair_leq(x, old_out[j - 1]));
                    } else if i < p && j > p {
                        assert(pair_leq(old_out[i], old_out[j - 1]));
                    } else if i > p && j > p {
                        assert(pair_leq(old_out[i - 1], old_out[j - 1]));
                    }
                }
            }
            // inserting in the middle adds one copy, as pushing would
            assert(out@ =~= old_out.take(p as int) + seq![x] + old_out.skip(p as int));
            assert(old_out =~= old_out.take(p as int) + old_out.skip(p as int));
            vstd::seq_lib::lemma_multiset_commutative(old_out.take(p as int) + seq![x], old_out.skip(p as int));
            vstd::seq_lib::lemma_multiset_commutative(old_out.take(p as int), seq![x]);
            vstd::seq_lib::lemma_multiset_commutative(old_out.take(p as int), old_out.skip(p as int));
            assert(seq![x].to_multiset() =~= vstd::multiset::Multiset::empty().insert(x)) by {
                assert(seq![x].drop_first() =~= Seq::<(i128, usize)>::empty());
            }
            assert(out@.to_multiset() =~= old_out.to_multiset().insert(x));
            assert(input@.take(idx + 1).drop_last() =~= input@.take(idx as int));
            assert(input@.take(idx + 1) =~= input@.take(idx as int).push(x));
        }
        idx = idx + 1;
    }
    proof {
        assert(input@.take(input@.len() as int) =~= input@);
    }
    out
}


/// How many of the first `upto` options the filter terms match.
pub open spec fn matched_count(options: Seq<String>, terms: Seq<Seq<char>>, upto: int) -> int
    decreases upto when upto >= 0
{
    if upto <= 0 {
        0
    } else {
        matched_count(options, terms, upto - 1) + (if option_matched(options[upto - 1]@, terms) {
            1int
        } else {
            0int
        })
    }
}

/// `f` lists exactly the options the filter terms keep: every entry is the
/// index of a matched option, every matched option's index appears, the
/// order is by descending total score with ties kept in the options'
/// original order, and the length is the matched count. Only one sequence
/// satisfies this (`lemma_filtered_sequence_unique`).
pub open spec fn is_filtered_sequence(
    f: Seq<usize>,
    options: Seq<String>,
    terms: Seq<Seq<char>>,
) -> bool {
    &&& forall|k: int|
        0 <= k < f.len() ==> ((#[trigger] f[k]) as int) < options.len() && option_matched(
            options[f[k] as int]@,
            terms,
        )
    &&& forall|idx: int|
        0 <= idx < options.len() && option_matched(#[trigger] options[idx]@, terms) ==> f.contains(
            idx as usize,
        )
    &&& forall|k1: int, k2: int|
        0 <= k1 < k2 < f.len() ==> option_score(options[#[trigger] f[k1] as int]@, terms)
            > option_score(options[#[trigger] f[k2] as int]@, terms) || (option_score(
            options[f[k1] as int]@,
            terms,
        ) == option_score(options[f[k2] as int]@, terms) && f[k1] < f[k2])
    &&& f.len() == matched_count(options, terms, options.len() as int)
}

/// At most one sequence lists the filtered options: two sequences that both
/// satisfy the characterization are equal, position by position.
pub proof fn lemma_filtered_sequence_unique(
    f1: Seq<usize>,
    f2: Seq<usize>,
    options: Seq<String>,
    terms: Seq<Seq<char>>,
)
    requires
        is_filtered_sequence(f1, options, terms),
        is_filtered_sequence(f2, options, terms),
    ensures
        f1 == f2,
{
    lemma_filtered_prefix_eq(f1, f2, options, terms, f1.len() as int);
    assert(f1 =~= f2);
}

/// The first `upto` positions of two filtered sequences agree.
proof fn lemma_filtered_prefix_eq(
    f1: Seq<usize>,
    f2: Seq<usize>,
    options: Seq<String>,
    terms: Seq<Seq<char>>,
    upto: int,
)
    requires
        is_filtered_sequence(f1, options, terms),
        is_filtered_sequence(f2, options, terms),
        0 <= upto <= f1.len(),
    ensures
        forall|j: int| 0 <= j < upto ==> f1[j] == f2[j],
    decreases upto,
{
    if upto > 0 {
        let k = upto - 1;
        lemma_filtered_prefix_eq(f1, f2, options, terms, k);
        let x = f1[k];
        let y = f2[k];
        assert(f1.len() == f2.len());
        // x occurs in f2 as well; before position k it would collide with
        // the strict order, so it sits at k or later, and symmetrically
        assert(f2.contains(x));
        let p = choose|p: int| 0 <= p < f2.len() && f2[p] == x;
        assert(f1.contains(y));
        let q = choose|q: int| 0 <= q < f1.len() && f1[q] == y;
        if p < k {
            assert(f1[p] == f2[p]);
            assert(f1[p] == f1[k]);
        } else if q < k {
            assert(f1[q] == f2[q]);
            assert(f2[q] == f2[k]);
        } else if p > k && q > k {
            // y sorts strictly before x in f2, and x strictly before y in
            // f1: impossible
            assert(option_score(options[y as int]@, terms) > option_score(
                options[x as int]@,
                terms,
            ) || (option_score(options[y as int]@, terms) == option_score(
                options[x as int]@,
                terms,
            ) && y < x));
            assert(option_score(options[x as int]@, terms) > option_score(
                options[y as int]@,
                terms,
            ) || (option_score(options[x as int]@, terms) == option_score(
                options[y as int]@,
                terms,
            ) && x < y));
        }
        assert(f1[k] == f2[k]);
    }
}

/// Filter the options against the typed filter text.
///
/// Returns the indices (into `options`) of the options every filter term
/// matches, ordered by descending total fuzzy score with ties kept in the
/// options' original order (the one sequence `is_filtered_sequence`
/// describes).
pub fn filter_options(filter: &Vec<char>, options: &Vec<String>) -> (r: Vec<usize>)
    ensures
        is_filtered_sequence(r@, options@, split_ws(filter@)),
{
    let ghost terms = split_ws(filter@);
    let filter_terms = split_filter_terms(filter);
    let mut scored: Vec<(i128, usize)> = Vec::new();
    let mut i: usize = 0;
    while i < options.len()
        invariant
            0 <= i <= options@.len(),
            filter_terms.deep_view() == terms,
            forall|k: int|
                0 <= k < scored@.len() ==> (#[trigger] scored@[k]).1 < i && option_matched(
                    options@[scored@[k].1 as int]@,
                    terms,
                ) && scored@[k].0 as int == option_score(options@[scored@[k].1 as int]@, terms),
            forall|k1: int, k2: int|
                0 <= k1 < k2 < scored@.len() ==> (#[trigger] scored@[k1]).1 < (
                #[trigger] scored@[k2]).1,
            forall|idx: int|
                0 <= idx < i && option_matched(#[trigger] options@[idx]@, terms) ==> exists|k: int|
                    0 <= k < scored@.len() && (#[trigger] scored@[k]).1 == idx,
            scored@.len() == matched_count(options@, terms, i as int),
        decreases options@.len() - i,
    {
        let ghost before = scored@;
        match calculate_match_score(options[i].as_str(), &filter_terms) {
            Some(s) => {
                scored.push((s, i));
                proof {
                    assert forall|idx: int|
                        0 <= idx < i + 1 && option_matched(
                            #[trigger] options@[idx]@,
                            terms,
                        ) implies exists|k: int|
                        0 <= k < scored@.len() && (#[trigger] scored@[k]).1 == idx by {
                        if idx == i {
                            assert(scored@[scored@.len() - 1].1 == idx);
                        } else {
                            let k = choose|k: int|
                                0 <= k < before.len() && (#[trigger] before[k]).1 == idx;
                            assert(scored@[k].1 == idx);
                        }
                    }
                }
            },
            None => {},
        }
        i = i + 1;
    }
    let sorted = sort_pairs(&scored);
    let mut result: Vec<usize> = Vec::new();
    let mut k: usize = 0;
    proof {
        broadcast use vstd::seq_lib::group_to_multiset_ensures;

    }
    while k < sorted.len()
        invariant
            0 <= k <= sorted@.len(),
            result@.len() == k,
            forall|j: int| 0 <= j < k ==> result@[j] == (#[trigger] sorted@[j]).1,
        decreases sorted@.len() - k,
    {
        result.push(sorted[k].1);
        k = k + 1;
    }
    proof {
        broadcast use vstd::seq_lib::group_to_multiset_ensures;

        assert(sorted@.len() == scored@.len()) by {
            assert(sorted@.to_multiset().len() == sorted@.len());
            assert(scored@.to_multiset().len() == scored@.len());
        }
        // every sorted element is one of the scored pairs
        assert forall|j: int| 0 <= j < sorted@.len() implies scored@.contains(
            #[trigger] sorted@[j],
        ) by {
            assert(sorted@.to_multiset().count(sorted@[j]) > 0);
        }
        // and every scored pair survives the sort
        assert forall|j: int| 0 <= j < scored@.len() implies sorted@.contains(
            #[trigger] scored@[j],
        ) by {
            assert(scored@.to_multiset().count(scored@[j]) > 0);
        }
        // each reported index carries a matching option with its score
        assert forall|k0: int| 0 <= k0 < result@.len() implies (result@[k0] as int)
            < options@.len() && option_matched(options@[#[trigger] result@[k0] as int]@, terms)
            && (sorted@[k0].0 as int) == option_score(options@[result@[k0] as int]@, terms) by {
            assert(scored@.contains(sorted@[k0]));
            let j0 = choose|j0: int| 0 <= j0 < scored@.len() && scored@[j0] == sorted@[k0];
            assert(result@[k0] == scored@[j0].1);
        }
        assert forall|idx: int|
            0 <= idx < options@.len() && option_matched(#[trigger] options@[idx]@, terms)
                implies result@.contains(idx as usize) by {
            let k0 = choose|k0: int| 0 <= k0 < scored@.len() && (#[trigger] scored@[k0]).1 == idx;
            assert(sorted@.contains(scored@[k0]));
            let j = choose|j: int| 0 <= j < sorted@.len() && sorted@[j] == scored@[k0];
            assert(result@[j] == idx as usize);
        }
        assert forall|k1: int, k2: int| 0 <= k1 < k2 < result@.len() implies option_score(
            options@[#[trigger] result@[k1] as int]@,
            terms,
        ) > option_score(options@[#[trigger] result@[k2] as int]@, terms) || (option_score(
            options@[result@[k1] as int]@,
            terms,
        ) == option_score(options@[result@[k2] as int]@, terms) && result@[k1] < result@[k2]) by {
            let a = sorted@[k1];
            let b = sorted@[k2];
            assert(pair_leq(a, b));
            assert(scored@.contains(a));
            assert(scored@.contains(b));
            if a.0 == b.0 && a.1 == b.1 {
                // one scored pair cannot stand at two places: the scored
                // pairs carry strictly increasing option indices, so each
                // appears once, while two equal positions would put two
                // copies in the sort's multiset
                assert(scored@.no_duplicates()) by {
                    assert forall|i1: int, i2: int|
                        0 <= i1 < scored@.len() && 0 <= i2 < scored@.len() && i1 != i2 implies
                        scored@[i1] != scored@[i2] by {
                        if i1 < i2 {
                            assert(scored@[i1].1 < scored@[i2].1);
                        } else {
                            assert(scored@[i2].1 < scored@[i1].1);
                        }
                    }
                }
                scored@.lemma_multiset_has_no_duplicates();
                assert(scored@.to_multiset().count(a) <= 1);
                let removed = sorted@.remove(k1);
                assert(removed[k2 - 1] == a);
                assert(removed.to_multiset().count(a) > 0);
                assert(sorted@.to_multiset().count(a) >= 2);
            }
        }
    }
    result
}


/// A match for a pattern still matches after the pattern loses its first
/// character.
proof fn lemma_subseq_drop_first(choice: Seq<char>, pat: Seq<char>, sensitive: bool)
    requires
        pat.len() > 0,
        subseq_match(choice, pat, sensitive),
    ensures
        subseq_match(choice, pat.skip(1), sensitive),
    decreases choice.len() + pat.len(),
{
    if pat.len() == 1 {
        assert(pat.skip(1).len() == 0);
    } else if choice.len() == 0 {
    } else {
        if chars_eq(choice[0], pat[0], sensitive) {
            lemma_subseq_drop_first(choice.skip(1), pat.skip(1), sensitive);
            assert(pat.skip(1).skip(1) =~= pat.skip(2));
            if chars_eq(choice[0], pat.skip(1)[0], sensitive) {
                assert(subseq_match(choice.skip(1), pat.skip(1).skip(1), sensitive));
            } else {
                assert(subseq_match(choice.skip(1), pat.skip(1), sensitive));
            }
        } else {
            lemma_subseq_drop_first(choice.skip(1), pat, sensitive);
            if chars_eq(choice[0], pat.skip(1)[0], sensitive) {
                lemma_subseq_drop_first(choice.skip(1), pat.skip(1), sensitive);
            }
        }
    }
}

/// A case-sensitive match is also a case-insensitive one.
proof fn lemma_subseq_weaken_case(choice: Seq<char>, pat: Seq<char>)
    requires
        subseq_match(choice, pat, true),
    ensures
        subseq_match(choice, pat, false),
    decreases choice.len() + pat.len(),
{
    if pat.len() == 0 || choice.len() == 0 {
    } else if chars_eq(choice[0], pat[0], true) {
        lemma_subseq_weaken_case(choice.skip(1), pat.skip(1));
    } else {
        lemma_subseq_weaken_case(choice.skip(1), pat);
        if chars_eq(choice[0], pat[0], false) {
            lemma_subseq_drop_first(choice.skip(1), pat, false);
        }
    }
}

/// A match for a pattern still matches after the pattern loses its last
/// character.
proof fn lemma_subseq_drop_last(choice: Seq<char>, pat: Seq<char>, c: char, sensitive: bool)
    requires
        subseq_match(choice, pat.push(c), sensitive),
    ensures
        subseq_match(choice, pat, sensitive),
    decreases choice.len() + pat.len(),
{
    if pat.len() == 0 {
    } else if choice.len() == 0 {
        assert(pat.push(c).len() > 0);
    } else {
        assert(pat.push(c)[0] == pat[0]);
        if chars_eq(choice[0], pat[0], sensitive) {
            assert(pat.push(c).skip(1) =~= pat.skip(1).push(c));
            lemma_subseq_drop_last(choice.skip(1), pat.skip(1), c, sensitive);
        } else {
            lemma_subseq_drop_last(choice.skip(1), pat, c, sensitive);
        }
    }
}

/// An option that one term with one more character still matches was
/// already matched by the shorter term.
proof fn lemma_matched_drop_last(option: Seq<char>, term: Seq<char>, c: char)
    requires
        fuzzy_matched(option, term.push(c)),
    ensures
        fuzzy_matched(option, term),
{
    if term.len() > 0 {
        let long = term.push(c);
        assert(long.len() > 0);
        if term_case_sensitive(term) {
            // the shorter term keeps its uppercase letter, so both match
            // case-sensitively
            let k = choose|k: int| 0 <= k < term.len() && is_ascii_upper(#[trigger] term[k]);
            assert(is_ascii_upper(long[k]));
            assert(term_case_sensitive(long));
            lemma_subseq_drop_last(option, term, c, true);
        } else {
            if term_case_sensitive(long) {
                lemma_subseq_drop_last(option, term, c, true);
                lemma_subseq_weaken_case(option, term);
            } else {
                lemma_subseq_drop_last(option, term, c, false);
            }
        }
    }
}

/// Narrowing never gains matches: any option matched by the filter text
/// with one more character appended was already matched by the shorter
/// filter text. Together with `filter_options`' contract this says the
/// filtered set can only shrink as the filter grows.
pub proof fn lemma_filter_narrowing(filter: Seq<char>, c: char, option: Seq<char>)
    requires
        option_matched(option, split_ws(filter.push(c))),
    ensures
        option_matched(option, split_ws(filter)),
{
    let s2 = filter.push(c);
    assert(s2.drop_last() =~= filter);
    let t1 = split_ws(filter);
    let t2 = split_ws(s2);
    if is_whitespace_of(c) {
        assert(t2 == t1);
    } else if s2.len() >= 2 && !is_whitespace_of(s2[s2.len() - 2]) && t1.len() > 0 {
        assert(t2 == t1.update(t1.len() - 1, t1.last().push(c)));
        assert forall|k: int| 0 <= k < t1.len() implies fuzzy_matched(
            option,
            #[trigger] t1[k],
        ) by {
            if k == t1.len() - 1 {
                assert(t2[k] == t1.last().push(c));
                lemma_matched_drop_last(option, t1.last(), c);
            } else {
                assert(t2[k] == t1[k]);
            }
        }
    } else {
        assert(t2 == t1.push(seq![c]));
        assert forall|k: int| 0 <= k < t1.len() implies fuzzy_matched(
            option,
            #[trigger] t1[k],
        ) by {
            assert(t2[k] == t1[k]);
        }
    }
}

} // verus!
