//! Git-adjacent pure logic: parsing unified diff hunks and reading the
//! owner, repository and host out of remote URLs.
//!
//! The repository operations themselves (branches, worktrees, clones) are
//! terminal and filesystem work and stay outside the library.

use vstd::prelude::*;
use vstd::string::StrSliceExecFns;
use vstd::string::StringExecFns;

use crate::text::{chars_to_string, str_to_chars};
use crate::urls::{parse_url_parts, url_host_of, url_parses, url_path_of};

verus! {

/// Which side of a diff a line belongs to.
#[derive(Clone, Copy, Debug, PartialEq, Eq, Structural)]
pub enum DiffSide {
    Right,
    Left,
    Context,
}

impl DiffSide {
    /// The prefix character unified diff format uses for this side: `+`
    /// for added lines, `-` for deleted lines, a space for context lines.
    pub fn to_symbol(self) -> (r: char)
        ensures
            self is Right ==> r == '+',
            self is Left ==> r == '-',
            self is Context ==> r == ' ',
    {
        match self {
            DiffSide::Right => '+',
            DiffSide::Left => '-',
            DiffSide::Context => ' ',
        }
    }
}

/// Why a diff hunk or a remote URL could not be read.
#[derive(Clone, Copy, Debug, PartialEq, Eq, Structural)]
pub enum GitParseError {
    /// The diff hunk holds no lines at all.
    EmptyHunk,
    /// The hunk does not begin with an `@@` header.
    MissingHeader,
    /// The `@@` header has fewer than three whitespace-separated parts.
    HeaderParts,
    /// A line number in the header is not an unsigned number.
    BadLineNumber,
    /// A hunk line is empty where a prefixed line was expected.
    EmptyDiffLine,
    /// A hunk line begins with something other than `+`, `-` or a space.
    UnknownPrefix,
    /// An SSH-style remote URL has no `:` after the host.
    SshMissingColon,
    /// An SSH-style remote URL has no `@`.
    SshMissingAt,
    /// The remote URL does not parse as a URL.
    UnparsableUrl,
    /// The URL carries no repository path.
    NoRepositoryPath,
    /// The repository path is empty once cleaned.
    InvalidRepositoryPath,
    /// The path does not split into an owner and a repository.
    NoOwnerRepo,
    /// The URL carries no host.
    NoHost,
}

/// One line of a parsed diff hunk: its side, its line number (the
/// right-hand number for context lines), the left-hand number for context
/// lines, and the text without its prefix character.
#[derive(Debug)]
pub struct DiffLine {
    pub side: DiffSide,
    pub line: u32,
    pub left_line: Option<u32>,
    pub content: String,
}

/// The mathematical model of a parsed diff line.
#[verifier::ext_equal]
pub ghost struct DiffLineView {
    pub side: DiffSide,
    pub line: u32,
    pub left_line: Option<u32>,
    pub content: Seq<char>,
}

impl View for DiffLine {
    type V = DiffLineView;

    open spec fn view(&self) -> DiffLineView {
        DiffLineView {
            side: self.side,
            line: self.line,
            left_line: self.left_line,
            content: self.content@,
        }
    }
}

/// A line with a trailing carriage return removed.
pub open spec fn strip_cr(l: Seq<char>) -> Seq<char> {
    if l.len() > 0 && l.last() == '\r' {
        l.drop_last()
    } else {
        l
    }
}

/// The lines closed by a newline within `s`, carriage returns stripped.
pub open spec fn closed_lines(s: Seq<char>) -> Seq<Seq<char>>
    decreases s.len(),
{
    if s.len() == 0 {
        Seq::empty()
    } else if s.last() == '\n' {
        closed_lines(s.drop_last()).push(strip_cr(open_line(s.drop_last())))
    } else {
        closed_lines(s.drop_last())
    }
}

/// The text after the last newline of `s` (all of `s` without one).
pub open spec fn open_line(s: Seq<char>) -> Seq<char>
    decreases s.len(),
{
    if s.len() == 0 {
        Seq::empty()
    } else if s.last() == '\n' {
        Seq::empty()
    } else {
        open_line(s.drop_last()).push(s.last())
    }
}

/// The text's lines as `str::lines` reads them: split at newlines, a final
/// piece without a newline kept, carriage returns stripped.
pub open spec fn lines_of(s: Seq<char>) -> Seq<Seq<char>> {
    if s.len() > 0 && s.last() != '\n' {
        closed_lines(s).push(strip_cr(open_line(s)))
    } else {
        closed_lines(s)
    }
}

/// Copy the characters of `v` between `from` and `to`.
fn copy_range(cs: &Vec<char>, from: usize, to: usize) -> (r: Vec<char>)
    requires
        from <= to <= cs@.len(),
    ensures
        r@ == cs@.subrange(from as int, to as int),
{
    let mut out: Vec<char> = Vec::new();
    let mut i = from;
    while i < to
        invariant
            from <= i <= to <= cs@.len(),
            out@ =~= cs@.subrange(from as int, i as int),
        decreases to - i,
    {
        out.push(cs[i]);
        i = i + 1;
    }
    out
}

/// Copy `v` with a trailing carriage return removed.
fn strip_cr_copy(cur: &Vec<char>) -> (r: Vec<char>)
    ensures
        r@ == strip_cr(cur@),
{
    let keep = if cur.len() > 0 && cur[cur.len() - 1] == '\r' {
        cur.len() - 1
    } else {
        cur.len()
    };
    let out = copy_range(cur, 0, keep);
    proof {
        assert(out@ =~= strip_cr(cur@));
    }
    out
}

/// Split the text into its lines.
fn split_lines(cs: &Vec<char>) -> (r: Vec<Vec<char>>)
    ensures
        r.deep_view() == lines_of(cs@),
{
    let mut closed: Vec<Vec<char>> = Vec::new();
    let mut cur: Vec<char> = Vec::new();
    let mut k: usize = 0;
    while k < cs.len()
        invariant
            0 <= k <= cs@.len(),
            closed.deep_view() =~~= closed_lines(cs@.take(k as int)),
            cur@ =~= open_line(cs@.take(k as int)),
        decreases cs@.len() - k,
    {
        let ghost before = closed.deep_view();
        let c = cs[k];
        if c == '\n' {
            let finished = strip_cr_copy(&cur);
            closed.push(finished);
            cur = Vec::new();
            proof {
                assert(closed.deep_view() =~~= before.push(strip_cr(open_line(cs@.take(
                    k as int,
                )))));
            }
        } else {
            cur.push(c);
        }
        k = k + 1;
        proof {
            assert(cs@.take(k as int).drop_last() =~= cs@.take(k - 1 as int));
            assert(closed.deep_view() =~~= closed_lines(cs@.take(k as int)));
            assert(cur@ =~= open_line(cs@.take(k as int)));
        }
    }
    proof {
        assert(cs@.take(cs@.len() as int) =~= cs@);
    }
    if cs.len() > 0 && cs[cs.len() - 1] != '\n' {
        let ghost before = closed.deep_view();
        let finished = strip_cr_copy(&cur);
        closed.push(finished);
        proof {
            assert(closed.deep_view() =~~= before.push(strip_cr(open_line(cs@))));
        }
    }
    proof {
        assert(closed.deep_view() =~~= lines_of(cs@));
    }
    closed
}

/// Decimal digits (with an optional leading `+`) read as a number, or
/// nothing when the text is not such a numeral or overflows.
fn parse_u32_chars(v: &Vec<char>) -> (r: Option<u32>)
{
    if v.len() == 0 {
        return None;
    }
    let mut start: usize = 0;
    if v[0] == '+' {
        if v.len() == 1 {
            return None;
        }
        start = 1;
    }
    let mut val: u32 = 0;
    let mut i: usize = start;
    while i < v.len()
        invariant
            start <= i <= v@.len(),
        decreases v@.len() - i,
    {
        let d = v[i] as u32;
        if d < 48 || d > 57 {
            return None;
        }
        if val > 429496729 || (val == 429496729 && d - 48 > 5) {
            return None;
        }
        val = val * 10 + (d - 48);
        i = i + 1;
    }
    Some(val)
}

/// The part of `v` before the first `,`, with every leading `mark`
/// removed.
fn header_number_part(v: &Vec<char>, mark: char) -> Vec<char> {
    let mut start: usize = 0;
    while start < v.len() && v[start] == mark
        invariant
            0 <= start <= v@.len(),
        decreases v@.len() - start,
    {
        start = start + 1;
    }
    let mut out: Vec<char> = Vec::new();
    let mut i: usize = start;
    while i < v.len() && v[i] != ','
        invariant
            start <= i <= v@.len(),
        decreases v@.len() - i,
    {
        out.push(v[i]);
        i = i + 1;
    }
    out
}

/// Parse a unified diff hunk (an `@@` header and its prefixed lines) into
/// structured lines.
///
/// Each returned entry covers the hunk line after the header at the same
/// position: its side matches the line's prefix character (`+`, `-` or
/// space) and its content is the line without that prefix. Added and
/// context lines are numbered from the header's right-hand start, deleted
/// and context lines from its left-hand start (line counters saturate at
/// the integer's bound rather than overflow).
pub fn parse_diff_hunk(diff_hunk: &str) -> (r: Result<Vec<DiffLine>, GitParseError>)
    ensures
        r == Err::<Vec<DiffLine>, GitParseError>(GitParseError::EmptyHunk) <==> lines_of(
            diff_hunk@,
        ).len() == 0,
        r == Err::<Vec<DiffLine>, GitParseError>(GitParseError::MissingHeader) <==> ({
            let lines = lines_of(diff_hunk@);
            lines.len() >= 1 && !(lines[0].len() >= 2 && lines[0][0] == '@' && lines[0][1]
                == '@')
        }),
        r matches Ok(v) ==> ({
            let lines = lines_of(diff_hunk@);
            &&& lines.len() >= 1
            &&& lines[0].len() >= 2 && lines[0][0] == '@' && lines[0][1] == '@'
            &&& v@.len() + 1 == lines.len()
            &&& forall|k: int|
                0 <= k < v@.len() ==> ({
                    let ln = lines[k + 1];
                    &&& ln.len() >= 1
                    &&& (#[trigger] v@[k])@.content == ln.skip(1)
                    &&& (ln[0] == '+' ==> v@[k].side == DiffSide::Right && v@[k].left_line is None)
                    &&& (ln[0] == '-' ==> v@[k].side == DiffSide::Left && v@[k].left_line is None)
                    &&& (ln[0] == ' ' ==> v@[k].side == DiffSide::Context && v@[k].left_line
                        is Some)
                })
        }),
{
    let cs = str_to_chars(diff_hunk);
    let lines = split_lines(&cs);
    let ghost spec_lines = lines_of(diff_hunk@);
    if lines.len() == 0 {
        return Err(GitParseError::EmptyHunk);
    }
    let header = &lines[0];
    proof {
        assert(lines.deep_view()[0] == lines@[0]@);
    }
    if !(header.len() >= 2 && header[0] == '@' && header[1] == '@') {
        return Err(GitParseError::MissingHeader);
    }
    let parts = crate::fuzzy::split_filter_terms(header);
    if parts.len() < 3 {
        return Err(GitParseError::HeaderParts);
    }
    let left_info = header_number_part(&parts[1], '-');
    let right_info = header_number_part(&parts[2], '+');
    let left_start = match parse_u32_chars(&left_info) {
        Some(n) => n,
        None => {
            return Err(GitParseError::BadLineNumber);
        },
    };
    let right_start = match parse_u32_chars(&right_info) {
        Some(n) => n,
        None => {
            return Err(GitParseError::BadLineNumber);
        },
    };
    let mut left_line = left_start;
    let mut right_line = right_start;
    let mut result: Vec<DiffLine> = Vec::new();
    let mut k: usize = 1;
    while k < lines.len()
        invariant
            1 <= k <= lines@.len(),
            lines.deep_view() == spec_lines,
            spec_lines == lines_of(diff_hunk@),
            spec_lines.len() >= 1,
            spec_lines[0].len() >= 2 && spec_lines[0][0] == '@' && spec_lines[0][1] == '@',
            result@.len() + 1 == k,
            forall|j: int|
                0 <= j < result@.len() ==> ({
                    let ln = spec_lines[j + 1];
                    &&& ln.len() >= 1
                    &&& (#[trigger] result@[j])@.content == ln.skip(1)
                    &&& (ln[0] == '+' ==> result@[j].side == DiffSide::Right && result@[j].left_line
                        is None)
                    &&& (ln[0] == '-' ==> result@[j].side == DiffSide::Left && result@[j].left_line
                        is None)
                    &&& (ln[0] == ' ' ==> result@[j].side == DiffSide::Context
                        && result@[j].left_line is Some)
                }),
        decreases lines@.len() - k,
    {
        let line = &lines[k];
        proof {
            assert(lines.deep_view()[k as int] == lines@[k as int]@);
        }
        if line.len() == 0 {
            return Err(GitParseError::EmptyDiffLine);
        }
        let first_char = line[0];
        let mut content_chars: Vec<char> = Vec::new();
        let mut c2: usize = 1;
        while c2 < line.len()
            invariant
                1 <= c2 <= line@.len(),
                content_chars@ =~= line@.subrange(1, c2 as int),
            decreases line@.len() - c2,
        {
            content_chars.push(line[c2]);
            c2 = c2 + 1;
        }
        proof {
            assert(content_chars@ =~= line@.skip(1));
        }
        let content = chars_to_string(&content_chars);
        if first_char == '+' {
            result.push(DiffLine { side: DiffSide::Right, line: right_line, left_line: None, content });
            if right_line < u32::MAX {
                right_line = right_line + 1;
            }
        } else if first_char == '-' {
            result.push(DiffLine { side: DiffSide::Left, line: left_line, left_line: None, content });
            if left_line < u32::MAX {
                left_line = left_line + 1;
            }
        } else if first_char == ' ' {
            result.push(DiffLine {
                side: DiffSide::Context,
                line: right_line,
                left_line: Some(left_line),
                content,
            });
            if left_line < u32::MAX {
                left_line = left_line + 1;
            }
            if right_line < u32::MAX {
                right_line = right_line + 1;
            }
        } else {
            return Err(GitParseError::UnknownPrefix);
        }
        k = k + 1;
    }
    Ok(result)
}

/// The piece of `s` after the first occurrence of `sep`, when `sep`
/// occurs.
pub open spec fn after_first(s: Seq<char>, sep: char) -> Seq<char> {
    s.skip(crate::text::first_of_at(s, 0, seq![sep]) + 1)
}

/// The piece of `s` before the first occurrence of `sep` (all of `s` when
/// `sep` does not occur).
pub open spec fn before_first(s: Seq<char>, sep: char) -> Seq<char> {
    s.take(crate::text::first_of_at(s, 0, seq![sep]))
}

/// Whether `s` begins with the four characters `git@`.
pub open spec fn is_ssh_url(s: Seq<char>) -> bool {
    s.len() >= 4 && s[0] == 'g' && s[1] == 'i' && s[2] == 't' && s[3] == '@'
}

/// The repository path with one leading slash removed.
pub open spec fn strip_lead_slash(p: Seq<char>) -> Seq<char> {
    if p.len() > 0 && p[0] == '/' {
        p.skip(1)
    } else {
        p
    }
}

/// The repository path with one trailing `.git` removed.
pub open spec fn strip_git_suffix(p: Seq<char>) -> Seq<char> {
    if p.len() >= 4 && p.skip(p.len() - 4) == ".git"@ {
        p.take(p.len() - 4)
    } else {
        p
    }
}

fn chars_is_ssh_url(cs: &Vec<char>) -> (r: bool)
    ensures
        r == is_ssh_url(cs@),
{
    cs.len() >= 4 && cs[0] == 'g' && cs[1] == 'i' && cs[2] == 't' && cs[3] == '@'
}

fn find_char(cs: &Vec<char>, c: char) -> (r: usize)
    ensures
        r == crate::text::first_of_at(cs@, 0, seq![c]),
        r <= cs@.len(),
        r < cs@.len() ==> cs@[r as int] == c,
{
    let mut i: usize = 0;
    while i < cs.len() && cs[i] != c
        invariant
            0 <= i <= cs@.len(),
            crate::text::first_of_at(cs@, 0, seq![c]) == crate::text::first_of_at(
                cs@,
                i as int,
                seq![c],
            ),
        decreases cs@.len() - i,
    {
        i = i + 1;
    }
    proof {
        if i < cs@.len() {
            assert(seq![c][0] == c);
            assert(seq![c].contains(cs@[i as int]));
        }
    }
    i
}


/// The raw repository path a remote URL names: the part after the colon
/// for SSH-style URLs, the URL's path otherwise.
pub open spec fn spec_raw_repo_path(s: Seq<char>) -> Seq<char> {
    if is_ssh_url(s) {
        after_first(s, ':')
    } else {
        url_path_of(s)
    }
}

/// The cleaned repository path: the raw path without a leading slash or a
/// `.git` suffix.
pub open spec fn spec_repo_path(s: Seq<char>) -> Seq<char> {
    strip_git_suffix(strip_lead_slash(spec_raw_repo_path(s)))
}

/// A remote URL names a usable repository path: an SSH-style URL holds a
/// colon, any other URL parses with a path beyond a bare slash, and the
/// cleaned path is not empty.
pub open spec fn repo_path_extractable(s: Seq<char>) -> bool {
    &&& if is_ssh_url(s) {
        crate::text::first_of_at(s, 0, seq![':']) < s.len()
    } else {
        url_parses(s) && !(url_path_of(s).len() == 0 || (url_path_of(s).len() == 1 && url_path_of(
            s,
        )[0] == '/'))
    }
    &&& spec_repo_path(s).len() > 0
}

/// The `owner/name` path of a repository remote URL: for SSH-style URLs
/// (`git@host:owner/name.git`) the part after the colon, for others the
/// URL's path; in both cases without a leading slash or a `.git` suffix.
/// Succeeds exactly when that cleaned path exists and is not empty.
pub fn extract_repo_from_url(repo_url_str: &str) -> (r: Result<String, GitParseError>)
    ensures
        r is Ok <==> repo_path_extractable(repo_url_str@),
        r matches Ok(p) ==> p@ == spec_repo_path(repo_url_str@),
        r matches Err(e) ==> ({
            let s = repo_url_str@;
            &&& (e == GitParseError::SshMissingColon || e == GitParseError::UnparsableUrl || e
                == GitParseError::NoRepositoryPath || e == GitParseError::InvalidRepositoryPath)
            &&& (e == GitParseError::SshMissingColon <==> is_ssh_url(s)
                && crate::text::first_of_at(s, 0, seq![':']) == s.len())
            &&& (e == GitParseError::UnparsableUrl <==> !is_ssh_url(s) && !url_parses(s))
            &&& (e == GitParseError::NoRepositoryPath <==> !is_ssh_url(s) && url_parses(s) && (
            url_path_of(s).len() == 0 || (url_path_of(s).len() == 1 && url_path_of(s)[0] == '/')))
            &&& (e == GitParseError::InvalidRepositoryPath <==> ({
                let raw_reachable = if is_ssh_url(s) {
                    crate::text::first_of_at(s, 0, seq![':']) < s.len()
                } else {
                    url_parses(s) && !(url_path_of(s).len() == 0 || (url_path_of(s).len() == 1
                        && url_path_of(s)[0] == '/'))
                };
                raw_reachable && spec_repo_path(s).len() == 0
            }))
        }),
{
    let cs = str_to_chars(repo_url_str);
    let repo_path: Vec<char>;
    if chars_is_ssh_url(&cs) {
        let colon = find_char(&cs, ':');
        if colon == cs.len() {
            return Err(GitParseError::SshMissingColon);
        }
        repo_path = copy_range(&cs, colon + 1, cs.len());
        proof {
            assert(repo_path@ =~= after_first(cs@, ':'));
        }
    } else {
        match parse_url_parts(repo_url_str) {
            None => {
                return Err(GitParseError::UnparsableUrl);
            },
            Some((path, _)) => {
                let path_chars = str_to_chars(path.as_str());
                if path_chars.len() == 0 || (path_chars.len() == 1 && path_chars[0] == '/') {
                    return Err(GitParseError::NoRepositoryPath);
                }
                repo_path = path_chars;
            },
        }
    }
    let no_slash = if repo_path.len() > 0 && repo_path[0] == '/' {
        copy_range(&repo_path, 1, repo_path.len())
    } else {
        copy_range(&repo_path, 0, repo_path.len())
    };
    proof {
        assert(no_slash@ =~= strip_lead_slash(repo_path@));
    }
    let has_git_suffix = no_slash.len() >= 4 && no_slash[no_slash.len() - 4] == '.' && no_slash[
        no_slash.len() - 3
    ] == 'g' && no_slash[no_slash.len() - 2] == 'i' && no_slash[no_slash.len() - 1] == 't';
    let cleaned = if has_git_suffix {
        copy_range(&no_slash, 0, no_slash.len() - 4)
    } else {
        copy_range(&no_slash, 0, no_slash.len())
    };
    proof {
        reveal_strlit(".git");
        if has_git_suffix {
            assert(no_slash@.skip(no_slash@.len() - 4) =~= ".git"@);
        } else {
            if no_slash@.len() >= 4 && no_slash@.skip(no_slash@.len() - 4) == ".git"@ {
                let g = no_slash@.skip(no_slash@.len() - 4);
                assert(g[0] == no_slash@[no_slash@.len() - 4]);
                assert(g[1] == no_slash@[no_slash@.len() - 3]);
                assert(g[2] == no_slash@[no_slash@.len() - 2]);
                assert(g[3] == no_slash@[no_slash@.len() - 1]);
                assert(g[0] == '.' && g[1] == 'g' && g[2] == 'i' && g[3] == 't');
            }
        }
        assert(cleaned@ =~= strip_git_suffix(no_slash@));
    }
    proof {
        assert(repo_path@ == spec_raw_repo_path(repo_url_str@));
        assert(cleaned@ == spec_repo_path(repo_url_str@));
    }
    if cleaned.len() == 0 {
        return Err(GitParseError::InvalidRepositoryPath);
    }
    Ok(chars_to_string(&cleaned))
}

/// The owner and repository name of a remote URL: the repository path
/// split at its first slash. Succeeds exactly when the path exists and
/// holds a slash.
pub fn extract_owner_repo_from_url(remote_url: &str) -> (r: Result<(String, String), GitParseError>)
    ensures
        r is Ok <==> repo_path_extractable(remote_url@) && crate::text::first_of_at(
            spec_repo_path(remote_url@),
            0,
            seq!['/'],
        ) < spec_repo_path(remote_url@).len(),
        r matches Ok(pair) ==> ({
            let path = spec_repo_path(remote_url@);
            &&& pair.0@ == before_first(path, '/')
            &&& pair.1@ == after_first(path, '/')
        }),
        r == Err::<(String, String), GitParseError>(GitParseError::NoOwnerRepo)
            <==> repo_path_extractable(remote_url@) && crate::text::first_of_at(
            spec_repo_path(remote_url@),
            0,
            seq!['/'],
        ) == spec_repo_path(remote_url@).len(),
{
    let owner_repo = match extract_repo_from_url(remote_url) {
        Ok(p) => p,
        Err(e) => {
            return Err(e);
        },
    };
    let cs = str_to_chars(owner_repo.as_str());
    let slash = find_char(&cs, '/');
    if slash == cs.len() {
        return Err(GitParseError::NoOwnerRepo);
    }
    let owner = copy_range(&cs, 0, slash);
    let repo = copy_range(&cs, slash + 1, cs.len());
    proof {
        assert(owner@ =~= before_first(cs@, '/'));
        assert(repo@ =~= after_first(cs@, '/'));
    }
    Ok((chars_to_string(&owner), chars_to_string(&repo)))
}

/// Whether the piece of an SSH-style URL after its `@` holds a colon.
pub open spec fn ssh_host_delimited(s: Seq<char>) -> bool {
    crate::text::first_of_at(after_first(s, '@'), 0, seq![':']) < after_first(s, '@').len()
}

/// The host of a remote URL: the piece between `@` and `:` for SSH-style
/// URLs, the URL's host otherwise. Succeeds exactly when that piece is
/// delimited (SSH form) or the parsed URL carries a host.
pub fn host_from_remote_url(remote_url: &str) -> (r: Result<String, GitParseError>)
    ensures
        ({
            let s = remote_url@;
            r is Ok <==> if is_ssh_url(s) {
                ssh_host_delimited(s)
            } else {
                url_parses(s) && url_host_of(s) is Some
            }
        }),
        r matches Ok(h) ==> ({
            let s = remote_url@;
            if is_ssh_url(s) {
                h@ == before_first(after_first(s, '@'), ':')
            } else {
                h@ == url_host_of(s)->Some_0
            }
        }),
        r matches Err(e) ==> ({
            let s = remote_url@;
            &&& (e == GitParseError::SshMissingColon <==> is_ssh_url(s) && !ssh_host_delimited(s))
            &&& (e == GitParseError::UnparsableUrl <==> !is_ssh_url(s) && !url_parses(s))
            &&& (e == GitParseError::NoHost <==> !is_ssh_url(s) && url_parses(s) && url_host_of(s)
                is None)
        }),
{
    let cs = str_to_chars(remote_url);
    if chars_is_ssh_url(&cs) {
        let at = find_char(&cs, '@');
        proof {
            // an SSH-style URL holds its `@` at offset 3, so the scan finds
            // one
            assert(seq!['@'][0] == '@');
            assert(seq!['@'].contains(cs@[3]));
            crate::text::lemma_first_of_at_found_le(cs@, seq!['@'], 0, 3);
        }
        if at == cs.len() {
            return Err(GitParseError::SshMissingAt);
        }
        let after_at = copy_range(&cs, at + 1, cs.len());
        proof {
            assert(after_at@ =~= after_first(cs@, '@'));
        }
        let colon = find_char(&after_at, ':');
        if colon == after_at.len() {
            return Err(GitParseError::SshMissingColon);
        }
        let host = copy_range(&after_at, 0, colon);
        proof {
            assert(host@ =~= before_first(after_at@, ':'));
        }
        Ok(chars_to_string(&host))
    } else {
        match parse_url_parts(remote_url) {
            None => Err(GitParseError::UnparsableUrl),
            Some((_, Some(host))) => Ok(host),
            Some((_, None)) => Err(GitParseError::NoHost),
        }
    }
}

} // verus!
