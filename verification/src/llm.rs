//! Shared chat data model: requests, responses and citation metadata, with
//! the formatting of citation markers for display.
//!
//! The HTTP work of the individual providers happens outside the library;
//! each provider module here holds its data model and the pure parts of its
//! logic.

use vstd::prelude::*;

use crate::text::chars_to_string;

pub mod anthropic;
pub mod ollama;
pub mod perplexity;
pub mod vertex_ai;

verus! {

/// A plain chat request.
#[derive(Debug)]
pub struct ChatRequest {
    pub query: String,
    pub model_type: ModelType,
}

/// A chat request whose answer should be grounded in web sources.
#[derive(Debug)]
pub struct GroundedChatRequest {
    pub query: String,
    pub model_type: ModelType,
}

/// Who a message comes from.
#[derive(Clone, Copy, Debug, PartialEq, Eq, Structural)]
pub enum Role {
    Assistant,
    System,
    User,
}

/// The rough capability class of the model to use.
#[derive(Clone, Copy, Debug, PartialEq, Eq, Structural)]
pub enum ModelType {
    Small,
    Large,
    Thinking,
}

/// One chat message.
#[derive(Debug)]
pub struct Message {
    pub role: Role,
    pub content: String,
}

/// A plain chat answer.
#[derive(Debug)]
pub struct ChatResponse {
    pub message: Message,
}

/// A grounded chat answer: the message and the citations backing it.
#[derive(Debug)]
pub struct GroundedChatResponse {
    pub message: Message,
    pub citations: CitationMetadata,
}

/// The web sources an answer cites and the text spans they support.
#[derive(Debug)]
pub struct CitationMetadata {
    pub sources: Vec<Source>,
    pub supports: Vec<Support>,
}

/// One cited web source.
#[derive(Debug, Clone)]
pub struct Source {
    pub title: String,
    pub uri: String,
}

/// A span of the answer supported by sources: character offsets into the
/// cleaned answer text, the text itself, and the sources backing it.
#[derive(Debug)]
pub struct Support {
    pub start_index: usize,
    pub end_index: usize,
    pub text: String,
    pub source_indices: Vec<u8>,
}

/// One server-sent event, as the streaming endpoints deliver them.
#[derive(Debug)]
pub struct ServerSentEvent {
    pub event: Option<String>,
    pub data: String,
    pub id: Option<String>,
    pub retry: Option<u64>,
}

/// The superscript form of one decimal digit.
pub open spec fn superscript_digit(d: int) -> char {
    if d == 0 {
        '⁰'
    } else if d == 1 {
        '¹'
    } else if d == 2 {
        '²'
    } else if d == 3 {
        '³'
    } else if d == 4 {
        '⁴'
    } else if d == 5 {
        '⁵'
    } else if d == 6 {
        '⁶'
    } else if d == 7 {
        '⁷'
    } else if d == 8 {
        '⁸'
    } else {
        '⁹'
    }
}

/// A citation number in superscript: its decimal digits, each mapped to the
/// superscript alphabet.
pub open spec fn spec_superscript(n: int) -> Seq<char> {
    if n < 10 {
        seq![superscript_digit(n)]
    } else if n < 100 {
        seq![superscript_digit(n / 10), superscript_digit(n % 10)]
    } else {
        seq![
            superscript_digit(n / 100),
            superscript_digit((n / 10) % 10),
            superscript_digit(n % 10),
        ]
    }
}

fn superscript_digit_exec(d: u8) -> (r: char)
    requires
        d <= 9,
    ensures
        r == superscript_digit(d as int),
{
    match d {
        0 => '⁰',
        1 => '¹',
        2 => '²',
        3 => '³',
        4 => '⁴',
        5 => '⁵',
        6 => '⁶',
        7 => '⁷',
        8 => '⁸',
        _ => '⁹',
    }
}

/// Render a citation number in superscript digits.
pub fn number_to_superscript(number: &u8) -> (r: String)
    ensures
        r@ == spec_superscript(*number as int),
{
    let n = *number;
    let mut out: Vec<char> = Vec::new();
    if n >= 100 {
        out.push(superscript_digit_exec(n / 100));
    }
    if n >= 10 {
        out.push(superscript_digit_exec((n / 10) % 10));
    }
    out.push(superscript_digit_exec(n % 10));
    proof {
        assert(out@ =~= spec_superscript(n as int));
    }
    chars_to_string(&out)
}

/// The superscript citation numbers from index `i` on, joined with the
/// breathing-mark separator.
pub open spec fn spec_citation_indices_from(indices: Seq<u8>, i: int) -> Seq<char>
    decreases indices.len() - i when 0 <= i
{
    if i >= indices.len() {
        Seq::empty()
    } else if i == indices.len() - 1 {
        spec_superscript(indices[i] as int)
    } else {
        spec_superscript(indices[i] as int) + "˒"@ + spec_citation_indices_from(indices, i + 1)
    }
}

/// Render a list of citation numbers as superscripts separated by a small
/// breathing mark.
pub fn format_citation_indices(indices: &Vec<u8>) -> (r: String)
    ensures
        r@ == spec_citation_indices_from(indices@, 0),
{
    let mut out: Vec<char> = Vec::new();
    let mut i: usize = 0;
    while i < indices.len()
        invariant
            0 <= i <= indices@.len(),
            out@ + spec_citation_indices_from(indices@, i as int) =~= spec_citation_indices_from(
                indices@,
                0,
            ),
        decreases indices@.len() - i,
    {
        let sup = number_to_superscript(&indices[i]);
        let sup_chars = crate::text::str_to_chars(sup.as_str());
        let mut j: usize = 0;
        let ghost out_before = out@;
        while j < sup_chars.len()
            invariant
                0 <= j <= sup_chars@.len(),
                out@ =~= out_before + sup_chars@.subrange(0, j as int),
            decreases sup_chars@.len() - j,
        {
            out.push(sup_chars[j]);
            j = j + 1;
        }
        proof {
            assert(out@ =~= out_before + spec_superscript(indices@[i as int] as int));
        }
        if i + 1 < indices.len() {
            out.push('˒');
            proof {
                assert(seq!['˒'] =~= "˒"@) by {
                    reveal_strlit("˒");
                }
                assert(out@ =~= out_before + spec_superscript(indices@[i as int] as int) + "˒"@);
            }
        }
        i = i + 1;
        proof {
            assert(out@ + spec_citation_indices_from(indices@, i as int)
                =~= spec_citation_indices_from(indices@, 0));
        }
    }
    chars_to_string(&out)
}

} // verus!
