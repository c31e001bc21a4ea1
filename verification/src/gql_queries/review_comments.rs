//! The review-comments query's variables and response model.

use vstd::prelude::*;

verus! {

/// Variables of the review-comments query.
#[derive(Debug)]
pub struct GraphQLReviewCommentsVariables {
    pub owner: String,
    pub name: String,
    pub pr_number: i64,
    pub cursor: Option<String>,
}

/// The query's top-level response data.
#[derive(Debug)]
pub struct GraphQLReviewCommentsData {
    pub repository: Option<GraphQLRepository>,
}

/// The queried repository, when it exists.
#[derive(Debug)]
pub struct GraphQLRepository {
    pub pull_request: Option<GraphQLPullRequest>,
}

/// The queried pull request, when it exists.
#[derive(Debug)]
pub struct GraphQLPullRequest {
    pub review_comments: GraphQLReviewCommentConnection,
}

/// One page of review comments.
#[derive(Debug)]
pub struct GraphQLReviewCommentConnection {
    pub nodes: Vec<GraphQLReviewCommentNode>,
    pub page_info: GraphQLPageInfo,
}

/// Cursor bookkeeping for pagination.
#[derive(Debug)]
pub struct GraphQLPageInfo {
    pub has_next_page: bool,
    pub end_cursor: Option<String>,
}

/// One review comment as the query returns it.
#[derive(Debug)]
pub struct GraphQLReviewCommentNode {
    pub body: String,
    pub author: Option<GraphQLAuthor>,
    pub created_at: String,
    pub path: String,
    pub original_line: Option<u32>,
    pub original_start_line: Option<u32>,
    pub diff_hunk: String,
    pub side: String,
    pub start_side: Option<String>,
    pub pull_request_review_thread: Option<GraphQLReviewThread>,
}

/// The thread a review comment belongs to.
#[derive(Debug)]
pub struct GraphQLReviewThread {
    pub is_resolved: bool,
}

/// A comment's author.
#[derive(Debug)]
pub struct GraphQLAuthor {
    pub login: String,
    pub typename: String,
}

} // verus!
