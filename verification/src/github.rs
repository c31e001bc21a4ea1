//! GitHub data model: pull requests and their comments, the client's
//! addresses and credentials, and the rule telling bot accounts apart.
//!
//! The HTTP and GraphQL requests happen outside the library.

use vstd::prelude::*;
use vstd::string::StringExecFns;

use crate::gql_queries::review_comments::GraphQLReviewCommentNode;
use crate::text::str_eq;
use crate::text::str_to_chars;

verus! {

/// A pull request, reduced to what the tool reads.
#[derive(Debug)]
pub struct PullRequest {
    pub number: u64,
    pub merged_at: Option<String>,
    pub html_url: String,
}

/// A GitHub user: login and account type.
#[derive(Debug)]
pub struct User {
    pub login: String,
    pub user_type: String,
}

/// A timeline comment on an issue or pull request.
#[derive(Debug)]
pub struct IssueComment {
    pub body: String,
    pub user: User,
    pub created_at: String,
}

/// A review comment attached to a diff.
#[derive(Debug)]
pub struct ReviewComment {
    pub body: String,
    pub user: User,
    pub created_at: String,
    pub path: String,
    pub original_line: Option<u32>,
    pub original_start_line: Option<u32>,
    pub diff_hunk: String,
    pub side: String,
    pub start_side: Option<String>,
    pub is_resolved: Option<bool>,
}

/// All the comments of one pull request.
#[derive(Debug)]
pub struct PrComments {
    pub issue_comments: Vec<IssueComment>,
    pub review_comments: Vec<ReviewComment>,
}

/// Addresses and credentials for one GitHub host.
pub struct GitHubClient {
    pub api_base: String,
    pub graphql_base: String,
    pub token: String,
}

impl GitHubClient {
    /// Remember the host's REST and GraphQL addresses (the public API for
    /// github.com, the `api/v3` and `api/graphql` prefixes for an
    /// enterprise host) and the token.
    pub fn new(host: String, token: String) -> (r: Self)
        ensures
            host@ == "github.com"@ ==> r.api_base@ == "https://api.github.com"@
                && r.graphql_base@ == "https://api.github.com/graphql"@,
            host@ != "github.com"@ ==> r.api_base@ == "https://"@ + host@ + "/api/v3"@
                && r.graphql_base@ == "https://"@ + host@ + "/api/graphql"@,
            r.token == token,
    {
        if str_eq(host.as_str(), "github.com") {
            let api_base = {
                let b = "https://api.github.com";
                b.to_owned()
            };
            let graphql_base = {
                let b = "https://api.github.com/graphql";
                b.to_owned()
            };
            GitHubClient { api_base, graphql_base, token }
        } else {
            let mut api_base = {
                let p = "https://";
                p.to_owned()
            };
            api_base.append(host.as_str());
            api_base.append("/api/v3");
            let mut graphql_base = {
                let p = "https://";
                p.to_owned()
            };
            graphql_base.append(host.as_str());
            graphql_base.append("/api/graphql");
            GitHubClient { api_base, graphql_base, token }
        }
    }
}

/// A review comment built from one GraphQL node: fields carry over, a
/// missing author reads as the unknown user, and the thread's resolution
/// state comes along when the thread is known.
pub fn review_comment_from_node(node: GraphQLReviewCommentNode) -> (r: ReviewComment)
    ensures
        r.body == node.body,
        r.created_at == node.created_at,
        r.path == node.path,
        r.original_line == node.original_line,
        r.original_start_line == node.original_start_line,
        r.diff_hunk == node.diff_hunk,
        r.side == node.side,
        r.start_side == node.start_side,
        node.author matches Some(a) ==> r.user.login == a.login && r.user.user_type == a.typename,
        node.author is None ==> r.user.login@ == "unknown"@ && r.user.user_type@ == "Unknown"@,
        node.pull_request_review_thread matches Some(t) ==> r.is_resolved == Some(t.is_resolved),
        node.pull_request_review_thread is None ==> r.is_resolved is None,
{
    let user = match node.author {
        Some(author) => User { login: author.login, user_type: author.typename },
        None => {
            let login = {
                let l = "unknown";
                l.to_owned()
            };
            let user_type = {
                let t = "Unknown";
                t.to_owned()
            };
            User { login, user_type }
        },
    };
    let is_resolved = match node.pull_request_review_thread {
        Some(thread) => Some(thread.is_resolved),
        None => None,
    };
    ReviewComment {
        body: node.body,
        user,
        created_at: node.created_at,
        path: node.path,
        original_line: node.original_line,
        original_start_line: node.original_start_line,
        diff_hunk: node.diff_hunk,
        side: node.side,
        start_side: node.start_side,
        is_resolved,
    }
}

/// Whether the login belongs to the bot accounts filtered out of comment
/// listings.
pub open spec fn spec_is_bot_user(login: Seq<char>, user_type: Seq<char>) -> bool {
    user_type == "Bot"@ || ("service"@.is_prefix_of(login)) || ("[bot]"@.is_suffix_of(login))
}

/// A user counts as a bot when its type says `Bot`, its login starts with
/// `service`, or its login ends with `[bot]`.
pub fn is_bot_user(user_login: &str, user_type: &str) -> (r: bool)
    ensures
        r == spec_is_bot_user(user_login@, user_type@),
{
    if str_eq(user_type, "Bot") {
        return true;
    }
    let login = str_to_chars(user_login);
    let service = str_to_chars("service");
    let bot = str_to_chars("[bot]");
    let starts = prefix_matches(&login, &service);
    let ends = suffix_matches(&login, &bot);
    starts || ends
}

/// Whether `p` is a prefix of `s`.
fn prefix_matches(s: &Vec<char>, p: &Vec<char>) -> (r: bool)
    ensures
        r == p@.is_prefix_of(s@),
{
    if p.len() > s.len() {
        proof {
            assert(!p@.is_prefix_of(s@));
        }
        return false;
    }
    let mut i: usize = 0;
    while i < p.len()
        invariant
            0 <= i <= p@.len() <= s@.len(),
            forall|j: int| 0 <= j < i ==> p@[j] == s@[j],
        decreases p@.len() - i,
    {
        if p[i] != s[i] {
            proof {
                assert(p@[i as int] != s@.subrange(0, p@.len() as int)[i as int]);
            }
            return false;
        }
        i = i + 1;
    }
    proof {
        assert(p@ =~= s@.subrange(0, p@.len() as int));
    }
    true
}

/// Whether `p` is a suffix of `s`.
fn suffix_matches(s: &Vec<char>, p: &Vec<char>) -> (r: bool)
    ensures
        r == p@.is_suffix_of(s@),
{
    if p.len() > s.len() {
        proof {
            assert(!p@.is_suffix_of(s@));
        }
        return false;
    }
    let offset = s.len() - p.len();
    let mut i: usize = 0;
    while i < p.len()
        invariant
            0 <= i <= p@.len() <= s@.len(),
            s@.len() <= usize::MAX,
            offset == s@.len() - p@.len(),
            forall|j: int| 0 <= j < i ==> p@[j] == s@[offset + j],
        decreases p@.len() - i,
    {
        proof {
            assert(offset + i < s@.len());
        }
        let si = offset + i;
        if p[i] != s[si] {
            proof {
                assert(p@[i as int] != s@.subrange(offset as int, s@.len() as int)[i as int]);
            }
            return false;
        }
        i = i + 1;
    }
    proof {
        assert(p@ =~= s@.subrange(offset as int, s@.len() as int));
    }
    true
}

} // verus!
