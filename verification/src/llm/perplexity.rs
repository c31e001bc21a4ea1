//! Perplexity chat provider: its data model, the client's credentials, and
//! the extraction of citation references from answer text.
//!
//! Perplexity marks citations inline as bracketed source numbers
//! (`...sentence.[0][2] more text`); `extract_supports_from_text` removes
//! the markers and records which sources support each sentence. HTTP calls
//! happen outside the library.

use vstd::prelude::*;

use crate::llm::ModelType;
use crate::urls::{parse_url_parts, url_host_of, url_parses};
use crate::text::chars_to_string;

verus! {

/// The models the tool selects between.
#[derive(Clone, Copy, Debug, PartialEq, Eq, Structural)]
pub enum PerplexityModel {
    Sonar,
    SonarPro,
    SonarReasoning,
    SonarReasoningPro,
}

impl PerplexityModel {
    /// The provider model backing each shared model class.
    pub fn from_model_type(model_type: ModelType) -> (r: PerplexityModel)
        ensures
            r == (match model_type {
                ModelType::Small => PerplexityModel::Sonar,
                ModelType::Large => PerplexityModel::SonarPro,
                ModelType::Thinking => PerplexityModel::SonarReasoningPro,
            }),
    {
        match model_type {
            ModelType::Small => PerplexityModel::Sonar,
            ModelType::Large => PerplexityModel::SonarPro,
            ModelType::Thinking => PerplexityModel::SonarReasoningPro,
        }
    }
}

/// One answer candidate in a response.
#[derive(Debug)]
pub struct Choice {
    pub delta: crate::llm::Message,
    pub message: crate::llm::Message,
    pub finish_reason: Option<String>,
    pub index: i32,
}

/// Token accounting of a response.
#[derive(Debug)]
pub struct Usage {
    pub completion_tokens: i32,
    pub prompt_tokens: i32,
    pub total_tokens: i32,
}

/// A complete answer.
#[derive(Debug)]
pub struct PerplexityResponse {
    pub choices: Vec<Choice>,
    pub created: i64,
    pub id: String,
    pub model: PerplexityModel,
    pub usage: Usage,
    pub citations: Option<Vec<String>>,
}

/// Credentials for the Perplexity API.
pub struct PerplexityClient {
    pub api_key: String,
}

impl PerplexityClient {
    /// Remember the API key.
    pub fn new(api_key: String) -> (r: Self)
        ensures
            r.api_key == api_key,
    {
        Self { api_key }
    }
}

/// Smallest index at or after `i` holding an alphabetic character, or the
/// length of `s` if there is none.
pub open spec fn first_alphabetic_at(s: Seq<char>, i: int) -> int
    recommends
        0 <= i,
    decreases s.len() - i when 0 <= i
{
    if i >= s.len() {
        s.len() as int
    } else if crate::text::is_alphabetic_of(s[i]) {
        i
    } else {
        first_alphabetic_at(s, i + 1)
    }
}

fn find_alphabetic_at(v: &Vec<char>, from: usize) -> (r: usize)
    requires
        from <= v@.len(),
    ensures
        r == first_alphabetic_at(v@, from as int),
        from <= r <= v@.len(),
{
    let len = v.len();
    let mut i = from;
    while i < len && !crate::text::char_is_alphabetic(v[i])
        invariant
            from <= i <= len,
            len == v@.len(),
            first_alphabetic_at(v@, from as int) == first_alphabetic_at(v@, i as int),
        decreases len - i,
    {
        i = i + 1;
    }
    i
}

/// Decimal value of the digits, as `u8::from_str` reads them; 255 stands in
/// for anything unparsable, as the extraction treats unknown numbers.
fn parse_u8_or_max(digits: &Vec<char>) -> u8 {
    let mut val: u32 = 0;
    let mut i: usize = 0;
    if digits.len() == 0 {
        return 255;
    }
    let mut start: usize = 0;
    if digits[0] == '+' {
        if digits.len() == 1 {
            return 255;
        }
        start = 1;
    }
    i = start;
    while i < digits.len()
        invariant
            start <= i <= digits@.len(),
            val <= 255,
        decreases digits@.len() - i,
    {
        let c = digits[i];
        let d = c as u32;
        if d < 48 || d > 57 {
            return 255;
        }
        if val > 25 || (val == 25 && d - 48 > 5) {
            return 255;
        }
        val = val * 10 + (d - 48);
        i = i + 1;
    }
    val as u8
}

/// Every recorded end point stands right after a sentence-ending character
/// (or at the very start of the text).
spec fn ends_ok(ends: Seq<usize>, cleaned: Seq<char>) -> bool {
    forall|j: int|
        0 <= j < ends.len() ==> ((#[trigger] ends[j]) == 0 || (1 <= ends[j] <= cleaned.len() && (
        cleaned[ends[j] - 1] == '.' || cleaned[ends[j] - 1] == '\n')))
}

/// A recorded support span is ordered, cites something, and cites only
/// known sources.
spec fn triples_ok(triples: Seq<(usize, usize, Vec<u8>)>, limit: int) -> bool {
    forall|k: int|
        0 <= k < triples.len() ==> ({
            let t = #[trigger] triples[k];
            &&& t.0 <= t.1
            &&& t.2@.len() > 0
            &&& forall|i: int| 0 <= i < t.2@.len() ==> (#[trigger] t.2@[i]) <= limit
        })
}

/// Strip Perplexity's inline citation markers (`[0]`, `[1]`, ...) out of
/// the answer text and record, for each run of valid markers, the sentence
/// they close together with the sources they point to.
///
/// Markers whose number exceeds the source count stay in the text and
/// record nothing.
pub fn extract_supports_from_text(text: &str, sources: &Vec<crate::llm::Source>) -> (r: (
    Vec<crate::llm::Support>,
    String,
))
    requires
        sources@.len() <= 255,
    ensures
        r.1@.len() <= text@.len(),
        !text@.contains('[') ==> r.1@ == text@ && r.0@.len() == 0,
        forall|k: int|
            0 <= k < r.0@.len() ==> ({
                let s = #[trigger] r.0@[k];
                &&& s.start_index <= s.end_index <= r.1@.len()
                &&& s.text@ == r.1@.subrange(s.start_index as int, s.end_index as int)
                &&& s.source_indices@.len() > 0
                &&& forall|i: int|
                    0 <= i < s.source_indices@.len() ==> (#[trigger] s.source_indices@[i])
                        <= sources@.len()
            }),
{
    let cs = crate::text::str_to_chars(text);
    let len = cs.len();
    let num_sources: u8 = sources.len() as u8;
    let mut cleaned: Vec<char> = Vec::new();
    let mut sentence_ends: Vec<usize> = Vec::new();
    sentence_ends.push(0);
    let mut triples: Vec<(usize, usize, Vec<u8>)> = Vec::new();
    let ghost plain = !text@.contains('[');
    let mut i: usize = 0;
    while i < len
        invariant
            0 <= i <= len,
            len == cs@.len(),
            cs@ == text@,
            num_sources == sources@.len(),
            cleaned@.len() <= i,
            ends_ok(sentence_ends@, cleaned@),
            triples_ok(triples@, sources@.len() as int),
            plain == !text@.contains('['),
            plain ==> cleaned@ =~= text@.take(i as int) && triples@.len() == 0,
        decreases len - i,
    {
        let ghost i_outer = i;
        // copy plain text, remembering where sentences end
        while i < len && cs[i] != '['
            invariant
                i_outer <= i <= len,
                len == cs@.len(),
                cs@ == text@,
                cleaned@.len() <= i,
                ends_ok(sentence_ends@, cleaned@),
                triples_ok(triples@, sources@.len() as int),
                plain ==> cleaned@ =~= text@.take(i as int) && triples@.len() == 0,
            decreases len - i,
        {
            let c = cs[i];
            cleaned.push(c);
            if c == '.' || c == '\n' {
                sentence_ends.push(cleaned.len());
            }
            i = i + 1;
        }
        if i < len {
            proof {
                assert(text@.contains('[')) by {
                    assert(text@[i as int] == '[');
                }
            }
            // consume one run of bracketed markers
            let mut consumed: Vec<char> = Vec::new();
            let mut source_indices: Vec<u8> = Vec::new();
            let ghost i_at_group = i;
            let mut keep_reading = true;
            while keep_reading && i < len
                invariant
                    i_at_group <= i <= len,
                    i_at_group < len,
                    len == cs@.len(),
                    cs@ == text@,
                    num_sources == sources@.len(),
                    consumed@.len() <= i - i_at_group,
                    keep_reading ==> consumed@.len() == 0,
                    !keep_reading ==> i > i_at_group,
                    forall|k: int|
                        0 <= k < source_indices@.len() ==> (#[trigger] source_indices@[k])
                            <= sources@.len(),
                decreases len - i + (if keep_reading { 1int } else { 0int }),
            {
                let c = cs[i];
                i = i + 1;
                if c != '[' {
                    consumed.push(c);
                    keep_reading = false;
                } else {
                    let mut source_num_str: Vec<char> = Vec::new();
                    let ghost digits_start = i;
                    while i < len && cs[i] != ']'
                        invariant
                            i_at_group < digits_start <= i <= len,
                            len == cs@.len(),
                            cs@ == text@,
                            source_num_str@.len() == i - digits_start,
                        decreases len - i,
                    {
                        source_num_str.push(cs[i]);
                        i = i + 1;
                    }
                    let source_num = parse_u8_or_max(&source_num_str);
                    if source_num > num_sources {
                        consumed.push('[');
                        let mut q: usize = 0;
                        while q < source_num_str.len()
                            invariant
                                0 <= q <= source_num_str@.len(),
                                consumed@.len() == 1 + q,
                            decreases source_num_str@.len() - q,
                        {
                            consumed.push(source_num_str[q]);
                            q = q + 1;
                        }
                        keep_reading = false;
                    } else if i >= len {
                        consumed.push('[');
                        let mut q: usize = 0;
                        while q < source_num_str.len()
                            invariant
                                0 <= q <= source_num_str@.len(),
                                consumed@.len() == 1 + q,
                            decreases source_num_str@.len() - q,
                        {
                            consumed.push(source_num_str[q]);
                            q = q + 1;
                        }
                        keep_reading = false;
                    } else {
                        let next_char = cs[i];
                        i = i + 1;
                        if next_char == ']' {
                            source_indices.push(source_num);
                        } else {
                            consumed.push('[');
                            let mut q: usize = 0;
                            while q < source_num_str.len()
                                invariant
                                    0 <= q <= source_num_str@.len(),
                                    consumed@.len() == 1 + q,
                                decreases source_num_str@.len() - q,
                            {
                                consumed.push(source_num_str[q]);
                                q = q + 1;
                            }
                            consumed.push(next_char);
                            keep_reading = false;
                        }
                    }
                }
            }
            if source_indices.len() > 0 {
                if cleaned.len() > 0 && cleaned[cleaned.len() - 1] == ' ' {
                    cleaned.pop();
                    proof {
                        assert(ends_ok(sentence_ends@, cleaned@));
                    }
                }
                let sentence_end_index: usize = if sentence_ends.len() >= 2 {
                    sentence_ends[sentence_ends.len() - 2]
                } else {
                    0
                };
                let scan_from = if sentence_end_index <= cleaned.len() {
                    sentence_end_index
                } else {
                    cleaned.len()
                };
                let found = find_alphabetic_at(&cleaned, scan_from);
                let start_index = if found < cleaned.len() {
                    found
                } else {
                    scan_from
                };
                let current_index = cleaned.len();
                triples.push((start_index, current_index, source_indices));
            }
            // the characters that ended the marker run go back into the text
            let mut q2: usize = 0;
            while q2 < consumed.len()
                invariant
                    0 <= q2 <= consumed@.len(),
                    consumed@.len() <= i - i_at_group,
                    i <= len,
                    cleaned@.len() <= i_at_group + q2,
                    i_at_group <= i,
                    triples_ok(triples@, sources@.len() as int),
                    ends_ok(sentence_ends@, cleaned@),
                decreases consumed@.len() - q2,
            {
                cleaned.push(consumed[q2]);
                q2 = q2 + 1;
                proof {
                    assert(ends_ok(sentence_ends@, cleaned@));
                }
            }
        }
    }
    let mut supports: Vec<crate::llm::Support> = Vec::new();
    let mut k: usize = 0;
    while k < triples.len()
        invariant
            0 <= k <= triples@.len(),
            triples_ok(triples@, sources@.len() as int),
            supports@.len() == k,
            forall|j: int|
                0 <= j < k ==> ({
                    let s = #[trigger] supports@[j];
                    &&& s.start_index <= s.end_index <= cleaned@.len()
                    &&& s.text@ == cleaned@.subrange(s.start_index as int, s.end_index as int)
                    &&& s.source_indices@.len() > 0
                    &&& forall|i2: int|
                        0 <= i2 < s.source_indices@.len() ==> (#[trigger] s.source_indices@[i2])
                            <= sources@.len()
                }),
        decreases triples@.len() - k,
    {
        let end = if triples[k].1 <= cleaned.len() {
            triples[k].1
        } else {
            cleaned.len()
        };
        let start = if triples[k].0 <= end {
            triples[k].0
        } else {
            end
        };
        let mut piece: Vec<char> = Vec::new();
        let mut p: usize = start;
        while p < end
            invariant
                start <= p <= end,
                end <= cleaned@.len(),
                piece@ =~= cleaned@.subrange(start as int, p as int),
            decreases end - p,
        {
            piece.push(cleaned[p]);
            p = p + 1;
        }
        let mut idx_copy: Vec<u8> = Vec::new();
        let mut p2: usize = 0;
        while p2 < triples[k].2.len()
            invariant
                0 <= p2 <= triples@[k as int].2@.len(),
                0 <= k < triples@.len(),
                idx_copy@ =~= triples@[k as int].2@.subrange(0, p2 as int),
            decreases triples@[k as int].2@.len() - p2,
        {
            idx_copy.push(triples[k].2[p2]);
            p2 = p2 + 1;
        }
        proof {
            assert(idx_copy@ =~= triples@[k as int].2@);
        }
        let support = crate::llm::Support {
            start_index: start,
            end_index: end,
            text: crate::text::chars_to_string(&piece),
            source_indices: idx_copy,
        };
        supports.push(support);
        k = k + 1;
    }
    let cleaned_text = crate::text::chars_to_string(&cleaned);
    proof {
        if plain {
            assert(cleaned@ =~= text@);
        }
    }
    (supports, cleaned_text)
}

/// A display title for a cited URL: its host when it parses as a URL with a
/// host, the text itself otherwise.
pub fn extract_title_from_url(url_str: &str) -> (r: String)
    ensures
        url_parses(url_str@) && url_host_of(url_str@) is Some ==> r@ == url_host_of(
            url_str@,
        )->Some_0,
        !(url_parses(url_str@) && url_host_of(url_str@) is Some) ==> r@ == url_str@,
    {
    match parse_url_parts(url_str) {
        Some((_, Some(host))) => host,
        _ => url_str.to_owned(),
    }
}

} // verus!
