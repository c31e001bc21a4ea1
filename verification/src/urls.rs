//! The parts of a parsed URL the crate reads: success of parsing, the path,
//! and the host.

use vstd::prelude::*;

verus! {

/// Whether `url::Url::parse` accepts the text.
pub uninterp spec fn url_parses(s: Seq<char>) -> bool;

/// The path of the parsed URL (with its leading slash), left abstract.
pub uninterp spec fn url_path_of(s: Seq<char>) -> Seq<char>;

/// The host of the parsed URL, when it has one, left abstract.
pub uninterp spec fn url_host_of(s: Seq<char>) -> Option<Seq<char>>;

/// Relies on url::Url::parse, Url::path and Url::host_str: parsing either
/// fails or yields a normalized URL whose path and host are functions of
/// the text alone.
#[verifier::external_body]
pub fn parse_url_parts(s: &str) -> (r: Option<(String, Option<String>)>)
    ensures
        r.is_some() == url_parses(s@),
        r matches Some(p) ==> p.0@ == url_path_of(s@),
        r matches Some(p) ==> (p.1 is Some <==> url_host_of(s@) is Some),
        r matches Some(p) ==> (p.1 matches Some(h) ==> h@ == url_host_of(s@)->Some_0),
{
    match url::Url::parse(s) {
        Ok(u) => Some((u.path().to_string(), u.host_str().map(|h| h.to_string()))),
        Err(_) => None,
    }
}

} // verus!
