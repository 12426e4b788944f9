//! What a caller gets back.

use super::models::PaginationInfo;
use std::collections::HashMap;
use vstd::prelude::*;

verus! {

/// `From::from` of a type on itself: the value comes back as it is.
pub assume_specification<T>[ <T as From<T>>::from ](t: T) -> (r: T)
    ensures
        r == t,
;

/// One recipe in full.
#[derive(Debug, Clone)]
pub struct RecipeResponse {
    /// The recipe's id, derived from its path.
    pub recipe_id: String,
    /// The recipe's title.
    pub recipe_name: String,
    /// The directory the recipe lies in, relative to the recipes root.
    pub path: Option<String>,
    /// The name of the recipe's file.
    pub file_name: String,
    /// The recipe's text.
    pub content: String,
    pub description: Option<String>,
}

/// One recipe in a listing, without its text.
#[derive(Debug, Clone)]
pub struct RecipeSummary {
    /// The recipe's id, derived from its path.
    pub recipe_id: String,
    /// The recipe's title.
    pub recipe_name: String,
    /// The directory the recipe lies in, relative to the recipes root.
    pub path: Option<String>,
}

/// One page of a listing.
#[derive(Debug, Clone)]
pub struct RecipeListResponse {
    pub recipes: Vec<RecipeSummary>,
    pub pagination: PaginationInfo,
}

/// The categories in use.
#[derive(Debug, Clone)]
pub struct CategoryListResponse {
    pub categories: Vec<String>,
}

/// The recipes of one category.
#[derive(Debug, Clone)]
pub struct CategoryRecipesResponse {
    pub path: String,
    pub recipes: Vec<RecipeSummary>,
    pub count: usize,
}

/// How the service is doing.
#[derive(Debug, Clone)]
pub struct StatusResponse {
    pub status: String,
    pub version: String,
    pub recipe_count: usize,
    pub categories: usize,
}

/// What went wrong.
#[derive(Debug, Clone)]
pub struct ErrorResponse {
    /// The kind of error.
    pub error: String,
    /// The error in words.
    pub message: String,
    /// More about the error, by key.
    pub details: Option<HashMap<String, String>>,
}

impl ErrorResponse {
    /// An error of the given kind, with the given words and no details.
    /// Kind and words are what the arguments convert into: for a `&str` or
    /// a `String`, its characters.
    pub fn new<E: Into<String>, M: Into<String>>(error: E, message: M) -> (r: Self)
        ensures
            call_ensures(<E as Into<String>>::into, (error,), r.error),
            call_ensures(<M as Into<String>>::into, (message,), r.message),
            r.details is None,
    {
        Self { error: error.into(), message: message.into(), details: None }
    }

    /// The same error with the given details in place of any it had.
    pub fn with_details(self, details: HashMap<String, String>) -> (r: Self)
        ensures
            r.error == self.error,
            r.message == self.message,
            r.details == Some(details),
    {
        let mut this = self;
        this.details = Some(details);
        this
    }
}

} // verus!
