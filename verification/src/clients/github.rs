//! A second, minimal GitHub client: just the API base address for a host
//! and the pull-request shape its one query returns.

use vstd::prelude::*;
use vstd::string::StringExecFns;

use crate::text::str_eq;

verus! {

/// A pull request, reduced to what the tool reads.
#[derive(Debug)]
pub struct PullRequest {
    pub number: i64,
    pub merged_at: Option<String>,
    pub html_url: String,
}

/// Address and credentials for one GitHub host.
pub struct GitHubClient {
    pub api_base: String,
    pub token: String,
}

impl GitHubClient {
    /// Remember the host's API base address (the public API for
    /// github.com, the `api/v3` prefix for an enterprise host) and the
    /// token.
    pub fn new(host: String, token: String) -> (r: Self)
        ensures
            host@ == "github.com"@ ==> r.api_base@ == "https://api.github.com"@,
            host@ != "github.com"@ ==> r.api_base@ == "https://"@ + host@ + "/api/v3"@,
            r.token == token,
    {
        let api_base = if str_eq(host.as_str(), "github.com") {
            let b = "https://api.github.com";
            b.to_owned()
        } else {
            let mut b = {
                let p = "https://";
                p.to_owned()
            };
            b.append(host.as_str());
            b.append("/api/v3");
            b
        };
        GitHubClient { api_base, token }
    }
}

} // verus!
