//! Jira data model: issues, their fields, and the client's address and
//! credentials.
//!
//! The HTTP requests themselves happen outside the library; here live the
//! issue types the responses decode into, the construction of the API base
//! address and the authorization header, and the formatting of Jira's
//! timestamps for display.

pub mod adf;

use vstd::prelude::*;
use vstd::string::StringExecFns;

use crate::text::{chars_to_string, find_first_of, first_of_at, lemma_first_of_at_bounds, str_to_chars};

verus! {

/// A Jira issue, reduced to what the tool shows.
#[derive(Debug)]
pub struct Issue {
    pub id: String,
    pub key: String,
    pub fields: IssueFields,
}

/// The fields of an issue. Rich-text fields (description, comments) carry
/// their rendered text.
#[derive(Debug)]
pub struct IssueFields {
    pub summary: String,
    pub description: Option<String>,
    pub status: Status,
    pub assignee: Option<User>,
    pub reporter: Option<User>,
    pub created: String,
    pub updated: String,
    pub priority: Option<Priority>,
    pub issuetype: IssueType,
    pub project: Project,
    pub comment: CommentBlock,
}

/// The comments attached to an issue.
#[derive(Debug)]
pub struct CommentBlock {
    pub comments: Vec<Comment>,
}

/// The project an issue belongs to.
#[derive(Debug)]
pub struct Project {
    pub id: String,
    pub name: String,
    pub key: String,
}

/// A Jira user.
#[derive(Debug)]
pub struct User {
    pub account_id: String,
    pub display_name: String,
    pub email_address: Option<String>,
}

/// An issue's workflow status.
#[derive(Debug)]
pub struct Status {
    pub id: String,
    pub name: String,
    pub status_category: StatusCategory,
}

/// The broad category a status falls in.
#[derive(Debug)]
pub struct StatusCategory {
    pub key: String,
    pub name: String,
}

/// An issue's priority.
#[derive(Debug)]
pub struct Priority {
    pub id: String,
    pub name: String,
}

/// An issue's type (bug, task, ...).
#[derive(Debug)]
pub struct IssueType {
    pub id: String,
    pub name: String,
    pub subtask: bool,
}

/// One comment on an issue, its body carried as rendered text.
#[derive(Debug)]
pub struct Comment {
    pub id: String,
    pub body: String,
    pub author: User,
    pub created: String,
    pub updated: String,
}

/// Address and credentials for one Jira instance.
pub struct JiraClient {
    pub api_base: String,
    pub email: String,
    pub api_token: String,
}

/// The instance address with every trailing slash removed.
pub open spec fn trim_trailing_slashes(s: Seq<char>) -> Seq<char>
    decreases s.len(),
{
    if s.len() > 0 && s.last() == '/' {
        trim_trailing_slashes(s.drop_last())
    } else {
        s
    }
}

/// What base64's standard engine produces for the bytes of `s`: the
/// standard alphabet with padding, left abstract.
pub uninterp spec fn base64_of(s: Seq<char>) -> Seq<char>;

/// Relies on base64::engine::general_purpose::STANDARD.encode: the standard
/// base64 encoding of the input's bytes, with padding; four output
/// characters for every three input bytes, and a function of the input
/// alone.
#[verifier::external_body]
fn base64_encode(s: &str) -> (r: String)
    ensures
        r@ == base64_of(s@),
{
    base64::Engine::encode(&base64::engine::general_purpose::STANDARD, s)
}

impl JiraClient {
    /// Remember the instance address (normalized to its REST API base) and
    /// the credentials.
    pub fn new(instance_url: String, email: String, api_token: String) -> (r: Self)
        ensures
            r.api_base@ == trim_trailing_slashes(instance_url@) + "/rest/api/3"@,
            r.email == email,
            r.api_token == api_token,
    {
        let cs = str_to_chars(instance_url.as_str());
        let mut k = cs.len();
        proof {
            assert(cs@.take(cs@.len() as int) =~= cs@);
        }
        while k > 0 && cs[k - 1] == '/'
            invariant
                0 <= k <= cs@.len(),
                trim_trailing_slashes(cs@) == trim_trailing_slashes(cs@.take(k as int)),
            decreases k,
        {
            proof {
                assert(cs@.take(k as int).drop_last() =~= cs@.take(k - 1 as int));
            }
            k = k - 1;
        }
        let mut out: Vec<char> = Vec::new();
        let mut i: usize = 0;
        while i < k
            invariant
                0 <= i <= k <= cs@.len(),
                out@ =~= cs@.subrange(0, i as int),
            decreases k - i,
        {
            out.push(cs[i]);
            i = i + 1;
        }
        proof {
            assert(out@ =~= cs@.take(k as int));
            assert(trim_trailing_slashes(cs@.take(k as int)) == cs@.take(k as int));
        }
        let mut api_base = chars_to_string(&out);
        api_base.append("/rest/api/3");
        JiraClient { api_base, email, api_token }
    }

    /// The HTTP basic-authorization header for this client: the base64 of
    /// `email:token` behind the `Basic` scheme.
    pub fn auth_header(&self) -> (r: String)
        ensures
            r@ == "Basic "@ + base64_of(self.email@ + ":"@ + self.api_token@),
    {
        let mut credentials = self.email.clone();
        credentials.append(":");
        credentials.append(self.api_token.as_str());
        let encoded = base64_encode(credentials.as_str());
        let mut out = {
            let b = "Basic ";
            b.to_owned()
        };
        out.append(encoded.as_str());
        out
    }
}

/// A Jira timestamp cut down for display: the date, a space, and the time
/// with fractional seconds and time zone removed. Text without a `T`
/// separator stands as it is.
pub open spec fn spec_format_jira_date(s: Seq<char>) -> Seq<char> {
    let t = first_of_at(s, 0, "T"@);
    if t == s.len() {
        s
    } else {
        let date_part = s.take(t);
        let rest = s.skip(t + 1);
        let tz = first_of_at(rest, 0, "+-Z"@);
        let time_no_tz = rest.take(tz);
        let dot = first_of_at(time_no_tz, 0, "."@);
        date_part + " "@ + time_no_tz.take(dot)
    }
}

/// Format a Jira timestamp (`2024-05-03T14:30:25.123+0200` and the like)
/// for display: `2024-05-03 14:30:25`.
pub fn format_jira_date(date_str: &str) -> (r: String)
    ensures
        r@ == spec_format_jira_date(date_str@),
{
    let cs = str_to_chars(date_str);
    let t_targets = vec!['T'];
    proof {
        assert(t_targets@ =~= "T"@) by {
            reveal_strlit("T");
        }
    }
    let t = find_first_of(&cs, 0, &t_targets);
    if t == cs.len() {
        let copy = date_str.to_owned();
        return copy;
    }
    proof {
        lemma_first_of_at_bounds(cs@, 0, "T"@);
    }
    let mut rest: Vec<char> = Vec::new();
    let mut i: usize = t + 1;
    while i < cs.len()
        invariant
            t + 1 <= i <= cs@.len(),
            rest@ =~= cs@.subrange(t + 1, i as int),
        decreases cs@.len() - i,
    {
        rest.push(cs[i]);
        i = i + 1;
    }
    proof {
        assert(rest@ =~= cs@.skip(t + 1));
    }
    let tz_targets = vec!['+', '-', 'Z'];
    proof {
        assert(tz_targets@ =~= "+-Z"@) by {
            reveal_strlit("+-Z");
        }
    }
    let tz = find_first_of(&rest, 0, &tz_targets);
    proof {
        lemma_first_of_at_bounds(rest@, 0, "+-Z"@);
    }
    let mut time_no_tz: Vec<char> = Vec::new();
    let mut j: usize = 0;
    while j < tz
        invariant
            0 <= j <= tz <= rest@.len(),
            time_no_tz@ =~= rest@.subrange(0, j as int),
        decreases tz - j,
    {
        time_no_tz.push(rest[j]);
        j = j + 1;
    }
    proof {
        assert(time_no_tz@ =~= rest@.take(tz as int));
    }
    let dot_targets = vec!['.'];
    proof {
        assert(dot_targets@ =~= "."@) by {
            reveal_strlit(".");
        }
    }
    let dot = find_first_of(&time_no_tz, 0, &dot_targets);
    proof {
        lemma_first_of_at_bounds(time_no_tz@, 0, "."@);
    }
    let mut out: Vec<char> = Vec::new();
    let mut k: usize = 0;
    while k < t
        invariant
            0 <= k <= t <= cs@.len(),
            out@ =~= cs@.subrange(0, k as int),
        decreases t - k,
    {
        out.push(cs[k]);
        k = k + 1;
    }
    out.push(' ');
    let mut m: usize = 0;
    while m < dot
        invariant
            0 <= m <= dot <= time_no_tz@.len(),
            out@ =~= cs@.take(t as int) + seq![' '] + time_no_tz@.subrange(0, m as int),
        decreases dot - m,
    {
        out.push(time_no_tz[m]);
        m = m + 1;
    }
    proof {
        assert(seq![' '] =~= " "@) by {
            reveal_strlit(" ");
        }
        assert(out@ =~= spec_format_jira_date(cs@));
    }
    chars_to_string(&out)
}

} // verus!
