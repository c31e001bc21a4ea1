//! GraphQL envelope types: the response wrapper and its errors.

use vstd::prelude::*;

pub mod review_comments;

verus! {

/// A GraphQL response: data on success, errors otherwise.
#[derive(Debug)]
pub struct GraphQLResponse<T> {
    pub data: Option<T>,
    pub errors: Option<Vec<GraphQLError>>,
}

/// One error a GraphQL endpoint reported.
#[derive(Debug)]
pub struct GraphQLError {
    pub message: String,
}

} // verus!
