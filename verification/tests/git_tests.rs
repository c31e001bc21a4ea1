use wkfl::git::{
    extract_owner_repo_from_url, extract_repo_from_url, host_from_remote_url, parse_diff_hunk,
    DiffSide, GitParseError,
};

#[test]
fn test_host_from_remote_url_github_com() {
    let url = "git@github.com:owner/repo.git";
    let host = host_from_remote_url(url).unwrap();
    assert_eq!(host, "github.com");
}

#[test]
fn test_host_from_remote_url_enterprise() {
    let url = "git@github.example.com:owner/repo.git";
    let host = host_from_remote_url(url).unwrap();
    assert_eq!(host, "github.example.com");
}

#[test]
fn test_host_from_remote_url_https_url() {
    let url = "https://github.com/owner/repo.git";
    let host = host_from_remote_url(url).unwrap();
    assert_eq!(host, "github.com");
}

#[test]
fn test_host_from_remote_url_http_url_enterprise() {
    let url = "http://github.example.com/owner/repo";
    let host = host_from_remote_url(url).unwrap();
    assert_eq!(host, "github.example.com");
}

#[test]
fn test_extract_repo_from_url_git_ssh() {
    let url = "git@github.com:owner/repo.git";
    let repo = extract_repo_from_url(url).unwrap();
    assert_eq!(repo, "owner/repo");
}

#[test]
fn test_extract_repo_from_url_https() {
    let url = "https://github.com/owner/repo.git";
    let repo = extract_repo_from_url(url).unwrap();
    assert_eq!(repo, "owner/repo");
}

#[test]
fn test_extract_owner_repo_basic() {
    let url = "git@github.com:alice/project.git";
    let (owner, repo) = extract_owner_repo_from_url(url).unwrap();
    assert_eq!(owner, "alice");
    assert_eq!(repo, "project");
}

#[test]
fn test_extract_owner_repo_http() {
    let url = "https://github.com/bob/tool";
    let (owner, repo) = extract_owner_repo_from_url(url).unwrap();
    assert_eq!(owner, "bob");
    assert_eq!(repo, "tool");
}

#[test]
fn test_extract_owner_repo_error() {
    // missing slash between owner and repository
    let url = "https://github.com/onlyowner";
    assert!(extract_owner_repo_from_url(url).is_err());
}

#[test]
fn unparsable_remote_url_is_rejected() {
    assert_eq!(
        extract_repo_from_url("not a url").unwrap_err(),
        GitParseError::UnparsableUrl
    );
    assert_eq!(
        host_from_remote_url("not a url").unwrap_err(),
        GitParseError::UnparsableUrl
    );
}

#[test]
fn diff_side_symbols() {
    assert_eq!(DiffSide::Right.to_symbol(), '+');
    assert_eq!(DiffSide::Left.to_symbol(), '-');
    assert_eq!(DiffSide::Context.to_symbol(), ' ');
}

#[test]
fn parse_diff_hunk_reads_sides_and_numbers() {
    let hunk = "@@ -3,3 +10,4 @@\n old line\n-deleted\n+added\n new line";
    let lines = parse_diff_hunk(hunk).unwrap();
    assert_eq!(lines.len(), 4);

    assert_eq!(lines[0].side, DiffSide::Context);
    assert_eq!(lines[0].content, "old line");
    assert_eq!(lines[0].line, 10);
    assert_eq!(lines[0].left_line, Some(3));

    assert_eq!(lines[1].side, DiffSide::Left);
    assert_eq!(lines[1].content, "deleted");
    assert_eq!(lines[1].line, 4);
    assert_eq!(lines[1].left_line, None);

    assert_eq!(lines[2].side, DiffSide::Right);
    assert_eq!(lines[2].content, "added");
    assert_eq!(lines[2].line, 11);
    assert_eq!(lines[2].left_line, None);

    assert_eq!(lines[3].side, DiffSide::Context);
    assert_eq!(lines[3].content, "new line");
    assert_eq!(lines[3].line, 12);
    assert_eq!(lines[3].left_line, Some(5));
}

#[test]
fn parse_diff_hunk_rejects_malformed_input() {
    assert_eq!(parse_diff_hunk("").unwrap_err(), GitParseError::EmptyHunk);
    assert_eq!(
        parse_diff_hunk("no header here").unwrap_err(),
        GitParseError::MissingHeader
    );
    assert_eq!(
        parse_diff_hunk("@@ -1,1").unwrap_err(),
        GitParseError::HeaderParts
    );
    assert_eq!(
        parse_diff_hunk("@@ -x,1 +1,1 @@\n context").unwrap_err(),
        GitParseError::BadLineNumber
    );
    assert_eq!(
        parse_diff_hunk("@@ -1,1 +1,1 @@\n\n context").unwrap_err(),
        GitParseError::EmptyDiffLine
    );
    assert_eq!(
        parse_diff_hunk("@@ -1,1 +1,1 @@\n?strange").unwrap_err(),
        GitParseError::UnknownPrefix
    );
}
