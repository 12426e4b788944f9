//! What a caller sends.

use vstd::prelude::*;

verus! {

/// A request to create a recipe.
#[derive(Debug, Clone)]
pub struct CreateRecipeRequest {
    /// The recipe's text; its front matter must hold a `title`.
    pub content: String,
    /// The directory to put the recipe in, relative to the recipes root.
    pub path: Option<String>,
    /// Who makes the change.
    pub author: Option<String>,
    /// Why the change is made.
    pub comment: Option<String>,
}

/// A request to update a recipe. At least one of `content` and `path` must
/// be there.
#[derive(Debug, Clone)]
pub struct UpdateRecipeRequest {
    /// The recipe's new text.
    pub content: Option<String>,
    /// The directory to move the recipe to.
    pub path: Option<String>,
    /// Who makes the change.
    pub author: Option<String>,
    /// Why the change is made.
    pub comment: Option<String>,
}

/// Which page of a listing is asked for.
#[derive(Debug, Clone)]
pub struct ListQuery {
    /// How many items a page holds (20 unless given, never over 100).
    pub limit: Option<u32>,
    /// How many items to skip (none unless given).
    pub offset: Option<u32>,
}

/// A search by name, and which page of its results is asked for.
#[derive(Debug, Clone)]
pub struct SearchQuery {
    /// The text to look for.
    pub q: String,
    /// How many items a page holds (20 unless given, never over 100).
    pub limit: Option<u32>,
    /// How many items to skip (none unless given).
    pub offset: Option<u32>,
}

/// Where a page lies in the whole listing.
#[derive(Debug, Clone)]
pub struct PaginationInfo {
    pub limit: u32,
    pub offset: u32,
    pub total: u32,
}

} // verus!
