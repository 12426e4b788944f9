//! What the service answers: each request against the store, and the
//! status that goes with the answer.
//!
//! Nothing here speaks HTTP. A request arrives as a plain value, and what
//! leaves is a status code with a body.

use super::models::{
    CreateRecipeRequest, ListQuery, PaginationInfo, SearchQuery, UpdateRecipeRequest,
};
use super::responses::{
    CategoryListResponse, CategoryRecipesResponse, ErrorResponse, RecipeListResponse,
    RecipeResponse, RecipeSummary, StatusResponse,
};
use crate::cache::{generate_recipe_id, lists_categories, recipe_id_of, Selection};
use crate::parser::title::{extract_recipe_title, text_view, title_of};
use crate::repository::create::create_outcome;
use crate::repository::update::update_outcome;
use crate::repository::{
    delete_outcome, read_as, recipe_views, shows, Recipe, RecipeRepository, RecipeView,
    RepositoryErrorView, StoreView,
};
use crate::storage::RecipeStorage;
use crate::text::{chars_of, lowercase, same, trim, trimmed, CharClass};
use vstd::prelude::*;

verus! {

/// The request succeeded.
pub const OK: u16 = 200;

/// The request succeeded and made a recipe.
pub const CREATED: u16 = 201;

/// The request succeeded and there is nothing to show.
pub const NO_CONTENT: u16 = 204;

/// The request is not in order.
pub const BAD_REQUEST: u16 = 400;

/// What the request names is not there.
pub const NOT_FOUND: u16 = 404;

/// The store failed.
pub const INTERNAL_SERVER_ERROR: u16 = 500;

/// How many recipes a page holds unless the request says otherwise.
pub const DEFAULT_LIMIT: u32 = 20;

/// How many recipes a page holds at most.
pub const MAX_LIMIT: u32 = 100;

/// A request that failed: the status, and what went wrong.
#[derive(Debug, Clone)]
pub struct Failure {
    pub status: u16,
    pub body: ErrorResponse,
}

impl Failure {
    /// Whether the failure has this status, kind and wording, and no
    /// details.
    pub open spec fn reads(self, status: u16, error: Seq<char>, message: Seq<char>) -> bool {
        &&& self.status == status
        &&& self.body.error@ == error
        &&& self.body.message@ == message
        &&& self.body.details is None
    }
}

/// A failure of the given status and kind, with the given wording.
fn failure(status: u16, error: &str, message: String) -> (r: Failure)
    ensures
        r.reads(status, error@, message@),
{
    Failure {
        status,
        body: ErrorResponse { error: String::from_str(error), message, details: None },
    }
}

/// A wording made of a fixed beginning and what follows it.
fn worded(beginning: &str, rest: &str) -> (r: String)
    ensures
        r@ == beginning@ + rest@,
{
    let mut s = String::from_str(beginning);
    s.append(rest);
    s
}

/// A path to find recipes by.
#[derive(Debug, Clone)]
pub struct FindByPathQuery {
    /// The directory to look in; the root where none is given.
    pub path: Option<String>,
}

/// Whether a text is empty or white space only.
pub open spec fn is_blank(s: Seq<char>) -> bool {
    trimmed(s, CharClass::Whitespace).len() == 0
}

/// Tests whether a text is empty or white space only.
pub fn blank(s: &str) -> (r: bool)
    ensures
        r == is_blank(s@),
{
    let chars = chars_of(s);
    trim(&chars, CharClass::Whitespace).len() == 0
}

/// The category that a request names: the path given, unless it is blank.
pub open spec fn requested_category(path: Option<Seq<char>>) -> Option<Seq<char>> {
    match path {
        Some(p) => if is_blank(p) {
            None
        } else {
            Some(p)
        },
        None => None,
    }
}

/// The category that a request names.
pub fn category_of_request(path: &Option<String>) -> (r: Option<&str>)
    ensures
        crate::repository::str_view(r) == requested_category(text_view(*path)),
{
    match path {
        Some(p) => if blank(p.as_str()) {
            None
        } else {
            Some(p.as_str())
        },
        None => None,
    }
}

/// How many recipes a page holds: what the request asks for, 20 where it
/// asks for nothing, and never more than 100.
pub open spec fn limit_of(limit: Option<u32>) -> u32 {
    match limit {
        Some(n) => if n < MAX_LIMIT {
            n
        } else {
            MAX_LIMIT
        },
        None => DEFAULT_LIMIT,
    }
}

/// How many recipes a page holds.
pub fn page_limit(limit: Option<u32>) -> (r: u32)
    ensures
        r == limit_of(limit),
{
    match limit {
        Some(n) => if n < MAX_LIMIT {
            n
        } else {
            MAX_LIMIT
        },
        None => DEFAULT_LIMIT,
    }
}

/// How many recipes a page skips: what the request asks for, none where it
/// asks for nothing.
pub open spec fn offset_of(offset: Option<u32>) -> u32 {
    match offset {
        Some(n) => n,
        None => 0,
    }
}

/// How many recipes a page skips.
pub fn page_offset(offset: Option<u32>) -> (r: u32)
    ensures
        r == offset_of(offset),
{
    match offset {
        Some(n) => n,
        None => 0,
    }
}

/// The mathematical content of a `RecipeSummary`.
pub struct SummaryView {
    pub recipe_id: Seq<char>,
    pub recipe_name: Seq<char>,
    pub path: Option<Seq<char>>,
}

impl View for RecipeSummary {
    type V = SummaryView;

    open spec fn view(&self) -> SummaryView {
        SummaryView {
            recipe_id: self.recipe_id@,
            recipe_name: self.recipe_name@,
            path: text_view(self.path),
        }
    }
}

/// The summary of a recipe: its id, its name and its category.
pub open spec fn summary(recipe: RecipeView) -> SummaryView {
    SummaryView {
        recipe_id: recipe_id_of(recipe.git_path),
        recipe_name: recipe.name,
        path: recipe.category,
    }
}

/// The mathematical content of a list of summaries.
pub open spec fn summary_views(list: Seq<RecipeSummary>) -> Seq<SummaryView> {
    Seq::new(list.len(), |i: int| list[i]@)
}

/// The page of a list of recipes: their summaries, from the offset on, as
/// many as the limit allows.
pub open spec fn page(recipes: Seq<RecipeView>, offset: u32, limit: u32) -> Seq<SummaryView> {
    let from = if offset <= recipes.len() {
        offset as int
    } else {
        recipes.len() as int
    };
    let to = if from + limit <= recipes.len() {
        from + limit
    } else {
        recipes.len() as int
    };
    Seq::new((to - from) as nat, |i: int| summary(recipes[from + i]))
}

/// Summarizes a recipe.
pub fn summary_of(recipe: &Recipe) -> (r: RecipeSummary)
    ensures
        r@ == summary(recipe@),
{
    RecipeSummary {
        recipe_id: generate_recipe_id(recipe.git_path.as_str()),
        recipe_name: recipe.name.clone(),
        path: match &recipe.category {
            Some(c) => Some(c.clone()),
            None => None,
        },
    }
}

/// Cuts a page out of a list of recipes.
pub fn page_of(recipes: &Vec<Recipe>, offset: u32, limit: u32) -> (r: Vec<RecipeSummary>)
    ensures
        summary_views(r@) == page(recipe_views(recipes@), offset, limit),
{
    let n = recipes.len();
    let from = if (offset as usize) <= n {
        offset as usize
    } else {
        n
    };
    let to = if (limit as usize) <= n - from {
        from + limit as usize
    } else {
        n
    };
    let mut out: Vec<RecipeSummary> = Vec::new();
    let mut i: usize = from;
    while i < to
        invariant
            from <= i <= to <= n,
            n == recipes.len(),
            out@.len() == i - from,
            forall|k: int|
                0 <= k < out@.len() ==> #[trigger] out@[k]@ == summary(recipes@[from + k]@),
        decreases to - i,
    {
        out.push(summary_of(&recipes[i]));
        i += 1;
    }
    assert(summary_views(out@) =~= page(recipe_views(recipes@), offset, limit));
    out
}

/// A page with where it lies in the whole list.
fn list_response(recipes: &Vec<Recipe>, limit: Option<u32>, offset: Option<u32>) -> (r:
    RecipeListResponse)
    ensures
        r.pagination.limit == limit_of(limit),
        r.pagination.offset == offset_of(offset),
        recipes@.len() <= u32::MAX ==> r.pagination.total == recipes@.len(),
        summary_views(r.recipes@) == page(
            recipe_views(recipes@),
            offset_of(offset),
            limit_of(limit),
        ),
{
    let limit = page_limit(limit);
    let offset = page_offset(offset);
    let total = #[verifier::truncate] (recipes.len() as u32);
    RecipeListResponse {
        recipes: page_of(recipes, offset, limit),
        pagination: PaginationInfo { limit, offset, total },
    }
}

/// The answer to a request for the service's health.
pub fn health_check() -> (r: &'static str)
    ensures
        r@ == "OK"@,
{
    "OK"
}

/// Lists the recipes, a page at a time.
///
/// The page is cut out of a listing of every recipe; the order of the
/// listing is the index's own.
pub fn list_recipes<S: RecipeStorage>(repo: &RecipeRepository<S>, params: &ListQuery) -> (r:
    RecipeListResponse)
    ensures
        r.pagination.limit == limit_of(params.limit),
        r.pagination.offset == offset_of(params.offset),
        repo.index().dom().len() <= u32::MAX ==> r.pagination.total == repo.index().dom().len(),
        exists|all: Seq<RecipeView>|
            shows(all, repo.index(), Selection::All) && summary_views(r.recipes@) == page(
                all,
                offset_of(params.offset),
                limit_of(params.limit),
            ),
{
    let all = repo.list_all();
    let r = list_response(&all, params.limit, params.offset);
    proof {
        let found = choose|found: Seq<crate::cache::CachedRecipeView>|
            crate::cache::is_listing(found, repo.index(), Selection::All) && found.len()
                == recipe_views(all@).len();
        crate::cache::lemma_listing_of_all(found, repo.index());
        assert(shows(recipe_views(all@), repo.index(), Selection::All));
    }
    r
}

/// What a search answers: a blank query is refused; any other is answered
/// with a page cut out of a listing of the recipes whose name holds it.
pub open spec fn search_answer<S: RecipeStorage>(
    repo: &RecipeRepository<S>,
    params: &SearchQuery,
    r: Result<RecipeListResponse, Failure>,
) -> bool {
    if is_blank(params.q@) {
        r matches Err(f) && f.reads(
            BAD_REQUEST,
            "validation_error"@,
            "Search query cannot be empty"@,
        )
    } else {
        match r {
            Ok(list) => {
                &&& list.pagination.limit == limit_of(params.limit)
                &&& list.pagination.offset == offset_of(params.offset)
                &&& exists|all: Seq<RecipeView>|
                    shows(all, repo.index(), Selection::NameContains(lowercase(params.q@)))
                        && (all.len() <= u32::MAX ==> list.pagination.total == all.len())
                        && summary_views(list.recipes@) == page(
                        all,
                        offset_of(params.offset),
                        limit_of(params.limit),
                    )
            },
            Err(_) => false,
        }
    }
}

/// Searches the recipes by name, a page at a time.
pub fn search_recipes<S: RecipeStorage>(repo: &RecipeRepository<S>, params: &SearchQuery) -> (r:
    Result<RecipeListResponse, Failure>)
    ensures
        search_answer(repo, params, r),
{
    if blank(params.q.as_str()) {
        return Err(
            failure(
                BAD_REQUEST,
                "validation_error",
                String::from_str("Search query cannot be empty"),
            ),
        );
    }
    let found = repo.search_by_name(params.q.as_str());
    let r = list_response(&found, params.limit, params.offset);
    assert(shows(
        recipe_views(found@),
        repo.index(),
        Selection::NameContains(lowercase(params.q@)),
    ));
    Ok(r)
}

/// Finds recipes by name: a search under another address.
pub fn find_recipe_by_name<S: RecipeStorage>(
    repo: &RecipeRepository<S>,
    params: &SearchQuery,
) -> (r: Result<RecipeListResponse, Failure>)
    ensures
        search_answer(repo, params, r),
{
    search_recipes(repo, params)
}

/// Lists the categories in use, in ascending order.
pub fn list_categories<S: RecipeStorage>(repo: &RecipeRepository<S>) -> (r: CategoryListResponse)
    ensures
        lists_categories(r.categories@, repo.index()),
{
    CategoryListResponse { categories: repo.get_categories() }
}

/// The mathematical content of a `RecipeResponse`.
pub struct ResponseView {
    pub recipe_id: Seq<char>,
    pub recipe_name: Seq<char>,
    pub path: Option<Seq<char>>,
    pub file_name: Seq<char>,
    pub content: Seq<char>,
    pub description: Option<Seq<char>>,
}

impl View for RecipeResponse {
    type V = ResponseView;

    open spec fn view(&self) -> ResponseView {
        ResponseView {
            recipe_id: self.recipe_id@,
            recipe_name: self.recipe_name@,
            path: text_view(self.path),
            file_name: self.file_name@,
            content: self.content@,
            description: text_view(self.description),
        }
    }
}

/// A recipe as the service shows it under an id.
pub open spec fn response(recipe: RecipeView, recipe_id: Seq<char>) -> ResponseView {
    ResponseView {
        recipe_id,
        recipe_name: recipe.name,
        path: recipe.category,
        file_name: recipe.file_name,
        content: recipe.content,
        description: recipe.description,
    }
}

/// Shows a recipe under an id.
pub fn response_of(recipe: Recipe, recipe_id: String) -> (r: RecipeResponse)
    ensures
        r@ == response(recipe@, recipe_id@),
{
    RecipeResponse {
        recipe_id,
        recipe_name: recipe.name,
        path: recipe.category,
        file_name: recipe.file_name,
        content: recipe.content,
        description: recipe.description,
    }
}

/// How the service is doing: that it runs, in which version, and how many
/// recipes and categories the index holds.
pub fn status<S: RecipeStorage>(repo: &RecipeRepository<S>, version: &str) -> (r: StatusResponse)
    ensures
        r.status@ == "running"@,
        r.version@ == version@,
        r.recipe_count == repo.index().dom().len(),
        r.categories == crate::cache::categories_of(repo.index()).len(),
{
    let recipes = repo.list_all();
    let categories = repo.get_categories();
    proof {
        let found = choose|found: Seq<crate::cache::CachedRecipeView>|
            crate::cache::is_listing(found, repo.index(), Selection::All) && found.len()
                == recipe_views(recipes@).len();
        crate::cache::lemma_listing_of_all(found, repo.index());
        crate::cache::lemma_list_of_categories(categories@, repo.index());
    }
    StatusResponse {
        status: String::from_str("running"),
        version: String::from_str(version),
        recipe_count: recipes.len(),
        categories: categories.len(),
    }
}

/// What a request to create a recipe is answered with, and what it leaves
/// behind.
///
/// Blank text is refused, and so is text without a title; nothing changes.
/// Otherwise the store creates the recipe, in the category that the request
/// names: a recipe created is shown under the id of its path; a recipe not
/// created is a bad request, in the store's words.
pub open spec fn create_answer(
    before: StoreView,
    after: StoreView,
    content: Seq<char>,
    path: Option<Seq<char>>,
    r: Result<(u16, RecipeResponse), Failure>,
) -> bool {
    if is_blank(content) {
        r matches Err(f) && f.reads(
            BAD_REQUEST,
            "validation_error"@,
            "Recipe content cannot be empty"@,
        ) && after == before
    } else {
        match title_of(content) {
            Err(e) => r matches Err(f) && f.reads(
                BAD_REQUEST,
                "validation_error"@,
                "Recipe content must include YAML front matter with 'title' field: "@ + e.text(),
            ) && after == before,
            Ok(_) => match r {
                Ok((status, body)) => status == CREATED && exists|recipe: RecipeView|
                    create_outcome(before, after, content, requested_category(path), Ok(recipe))
                        && body@ == response(recipe, recipe_id_of(recipe.git_path)),
                Err(f) => exists|e: RepositoryErrorView|
                    create_outcome(before, after, content, requested_category(path), Err(e))
                        && f.reads(
                        BAD_REQUEST,
                        "creation_error"@,
                        "Failed to create recipe: "@ + e.text(),
                    ),
            },
        }
    }
}

/// Creates a recipe.
pub fn create_recipe<S: RecipeStorage>(
    repo: &mut RecipeRepository<S>,
    payload: &CreateRecipeRequest,
) -> (r: Result<(u16, RecipeResponse), Failure>)
    requires
        old(repo)@.wf(),
    ensures
        final(repo)@.wf(),
        create_answer(old(repo)@, final(repo)@, payload.content@, text_view(payload.path), r),
{
    if blank(payload.content.as_str()) {
        return Err(
            failure(
                BAD_REQUEST,
                "validation_error",
                String::from_str("Recipe content cannot be empty"),
            ),
        );
    }
    let title = match extract_recipe_title(payload.content.as_str()) {
        Ok(title) => title,
        Err(e) => {
            return Err(
                failure(
                    BAD_REQUEST,
                    "validation_error",
                    worded(
                        "Recipe content must include YAML front matter with 'title' field: ",
                        e.message().as_str(),
                    ),
                ),
            );
        },
    };
    let category = category_of_request(&payload.path);
    let author = match &payload.author {
        Some(a) => Some(a.as_str()),
        None => None,
    };
    let comment = match &payload.comment {
        Some(c) => Some(c.as_str()),
        None => None,
    };
    match repo.create_with_author_and_comment(
        title.as_str(),
        payload.content.as_str(),
        category,
        author,
        comment,
    ) {
        Ok(recipe) => {
            let ghost shown = recipe@;
            let recipe_id = generate_recipe_id(recipe.git_path.as_str());
            let body = response_of(recipe, recipe_id);
            assert(create_outcome(
                old(repo)@,
                repo@,
                payload.content@,
                requested_category(text_view(payload.path)),
                Ok(shown),
            ));
            Ok((CREATED, body))
        },
        Err(e) => {
            assert(create_outcome(
                old(repo)@,
                repo@,
                payload.content@,
                requested_category(text_view(payload.path)),
                Err(e@),
            ));
            Err(
                failure(
                    BAD_REQUEST,
                    "creation_error",
                    worded("Failed to create recipe: ", e.message().as_str()),
                ),
            )
        },
    }
}

/// What a request for a recipe is answered with: an id that the index does
/// not hold is not found; otherwise the recipe under the id's path is read
/// and shown under the id, or the reading fails, in the backend's words.
pub open spec fn get_answer(
    store: StoreView,
    recipe_id: Seq<char>,
    r: Result<RecipeResponse, Failure>,
) -> bool {
    if !store.paths.contains_key(recipe_id) {
        r matches Err(f) && f.reads(NOT_FOUND, "not_found"@, "Recipe not found"@)
    } else {
        match r {
            Ok(body) => body@ == response(
                read_as(store.records[store.paths[recipe_id]], body@.content),
                recipe_id,
            ),
            Err(f) => exists|e: RepositoryErrorView|
                e is Storage && f.reads(
                    INTERNAL_SERVER_ERROR,
                    "read_error"@,
                    "Failed to read recipe: "@ + e.text(),
                ),
        }
    }
}

/// Reads a recipe by its id.
pub fn get_recipe<S: RecipeStorage>(repo: &RecipeRepository<S>, recipe_id: String) -> (r: Result<
    RecipeResponse,
    Failure,
>)
    requires
        repo@.wf(),
    ensures
        get_answer(repo@, recipe_id@, r),
{
    let git_path = match repo.get_recipe_git_path(recipe_id.as_str()) {
        Some(path) => path,
        None => {
            return Err(failure(NOT_FOUND, "not_found", String::from_str("Recipe not found")));
        },
    };
    match repo.read(git_path.as_str()) {
        Ok(recipe) => Ok(response_of(recipe, recipe_id)),
        Err(e) => {
            let ghost cause = e@;
            let f = failure(
                INTERNAL_SERVER_ERROR,
                "read_error",
                worded("Failed to read recipe: ", e.message().as_str()),
            );
            assert(cause is Storage && f.reads(
                INTERNAL_SERVER_ERROR,
                "read_error"@,
                "Failed to read recipe: "@ + cause.text(),
            ));
            Err(f)
        },
    }
}

/// What a request to delete a recipe is answered with, and what it leaves
/// behind: an id that the index does not hold is not found, and nothing
/// changes; otherwise the store deletes the recipe under the id's path, and
/// there is nothing to show, or it fails, in the store's words.
pub open spec fn delete_answer(
    before: StoreView,
    after: StoreView,
    recipe_id: Seq<char>,
    r: Result<u16, Failure>,
) -> bool {
    if !before.paths.contains_key(recipe_id) {
        r matches Err(f) && f.reads(NOT_FOUND, "not_found"@, "Recipe not found"@) && after
            == before
    } else {
        match r {
            Ok(status) => status == NO_CONTENT && delete_outcome(
                before,
                after,
                before.paths[recipe_id],
                Ok(()),
            ),
            Err(f) => exists|e: RepositoryErrorView|
                delete_outcome(before, after, before.paths[recipe_id], Err(e)) && f.reads(
                    INTERNAL_SERVER_ERROR,
                    "delete_error"@,
                    "Failed to delete recipe: "@ + e.text(),
                ),
        }
    }
}

/// Deletes a recipe by its id.
pub fn delete_recipe<S: RecipeStorage>(repo: &mut RecipeRepository<S>, recipe_id: &str) -> (r:
    Result<u16, Failure>)
    requires
        old(repo)@.wf(),
    ensures
        final(repo)@.wf(),
        delete_answer(old(repo)@, final(repo)@, recipe_id@, r),
{
    let git_path = match repo.get_recipe_git_path(recipe_id) {
        Some(path) => path,
        None => {
            return Err(failure(NOT_FOUND, "not_found", String::from_str("Recipe not found")));
        },
    };
    match repo.delete(git_path.as_str()) {
        Ok(_) => Ok(NO_CONTENT),
        Err(e) => {
            assert(delete_outcome(old(repo)@, repo@, git_path@, Err(e@)));
            Err(
                failure(
                    INTERNAL_SERVER_ERROR,
                    "delete_error",
                    worded("Failed to delete recipe: ", e.message().as_str()),
                ),
            )
        },
    }
}

/// What a request to update a recipe is answered with, and what it leaves
/// behind.
///
/// A request with neither text nor path is refused; an id that the index
/// does not hold is not found; new text without a title is refused; in each
/// case nothing changes. Otherwise the store updates the recipe under the
/// id's path, with the new text and in the category that the request names:
/// a recipe updated is shown under the id of its path after the update; a
/// recipe not updated is a bad request, in the store's words.
pub open spec fn update_answer(
    before: StoreView,
    after: StoreView,
    recipe_id: Seq<char>,
    content: Option<Seq<char>>,
    path: Option<Seq<char>>,
    r: Result<RecipeResponse, Failure>,
) -> bool {
    if content is None && path is None {
        r matches Err(f) && f.reads(
            BAD_REQUEST,
            "validation_error"@,
            "At least one of 'content' or 'path' must be provided"@,
        ) && after == before
    } else if !before.paths.contains_key(recipe_id) {
        r matches Err(f) && f.reads(NOT_FOUND, "not_found"@, "Recipe not found"@) && after
            == before
    } else if content is Some && title_of(content->0) is Err {
        r matches Err(f) && f.reads(
            BAD_REQUEST,
            "validation_error"@,
            "Recipe content must include YAML front matter with 'title' field"@,
        ) && after == before
    } else {
        update_passed_on(before, after, before.paths[recipe_id], content, nested(
            requested_category(path),
        ), r)
    }
}

/// A category as a request to update names it, if it names one.
pub open spec fn nested(category: Option<Seq<char>>) -> Option<Option<Seq<char>>> {
    match category {
        Some(c) => Some(Some(c)),
        None => None,
    }
}

/// What a request to update is answered with once it is passed on to the
/// store.
pub open spec fn update_passed_on(
    before: StoreView,
    after: StoreView,
    git_path: Seq<char>,
    content: Option<Seq<char>>,
    category: Option<Option<Seq<char>>>,
    r: Result<RecipeResponse, Failure>,
) -> bool {
    match r {
        Ok(body) => exists|recipe: RecipeView|
            update_outcome(before, after, git_path, None, content, category, Ok(recipe))
                && body@ == response(recipe, recipe_id_of(recipe.git_path)),
        Err(f) => exists|e: RepositoryErrorView|
            update_outcome(before, after, git_path, None, content, category, Err(e)) && f.reads(
                BAD_REQUEST,
                "update_error"@,
                "Failed to update recipe: "@ + e.text(),
            ),
    }
}

/// Updates a recipe by its id.
pub fn update_recipe<S: RecipeStorage>(
    repo: &mut RecipeRepository<S>,
    recipe_id: &str,
    payload: &UpdateRecipeRequest,
) -> (r: Result<RecipeResponse, Failure>)
    requires
        old(repo)@.wf(),
    ensures
        final(repo)@.wf(),
        update_answer(
            old(repo)@,
            final(repo)@,
            recipe_id@,
            text_view(payload.content),
            text_view(payload.path),
            r,
        ),
{
    if payload.content.is_none() && payload.path.is_none() {
        return Err(
            failure(
                BAD_REQUEST,
                "validation_error",
                String::from_str("At least one of 'content' or 'path' must be provided"),
            ),
        );
    }
    let git_path = match repo.get_recipe_git_path(recipe_id) {
        Some(path) => path,
        None => {
            return Err(failure(NOT_FOUND, "not_found", String::from_str("Recipe not found")));
        },
    };
    let content = match &payload.content {
        Some(text) => {
            if extract_recipe_title(text.as_str()).is_err() {
                return Err(
                    failure(
                        BAD_REQUEST,
                        "validation_error",
                        String::from_str(
                            "Recipe content must include YAML front matter with 'title' field",
                        ),
                    ),
                );
            }
            Some(text.as_str())
        },
        None => None,
    };
    let category = match category_of_request(&payload.path) {
        Some(c) => Some(Some(c)),
        None => None,
    };
    let author = match &payload.author {
        Some(a) => Some(a.as_str()),
        None => None,
    };
    let comment = match &payload.comment {
        Some(c) => Some(c.as_str()),
        None => None,
    };
    let ghost wanted = nested(requested_category(text_view(payload.path)));
    assert(crate::repository::update::category_view(category) == wanted);
    assert(crate::repository::str_view(content) == text_view(payload.content));
    match repo.update_with_author_and_comment(
        git_path.as_str(),
        None,
        content,
        category,
        author,
        comment,
    ) {
        Ok(recipe) => {
            let ghost shown = recipe@;
            let updated_id = generate_recipe_id(recipe.git_path.as_str());
            let body = response_of(recipe, updated_id);
            assert(update_outcome(
                old(repo)@,
                repo@,
                git_path@,
                None,
                text_view(payload.content),
                wanted,
                Ok(shown),
            ) && body@ == response(shown, recipe_id_of(shown.git_path)));
            let r = Ok(body);
            assert(update_passed_on(
                old(repo)@,
                repo@,
                git_path@,
                text_view(payload.content),
                wanted,
                r,
            ));
            r
        },
        Err(e) => {
            let ghost cause = e@;
            let f = failure(
                BAD_REQUEST,
                "update_error",
                worded("Failed to update recipe: ", e.message().as_str()),
            );
            assert(update_outcome(
                old(repo)@,
                repo@,
                git_path@,
                None,
                text_view(payload.content),
                wanted,
                Err(cause),
            ) && f.reads(
                BAD_REQUEST,
                "update_error"@,
                "Failed to update recipe: "@ + cause.text(),
            ));
            let r = Err(f);
            assert(update_passed_on(
                old(repo)@,
                repo@,
                git_path@,
                text_view(payload.content),
                wanted,
                r,
            ));
            r
        },
    }
}

/// The directory that a recipe lies in, as a text: empty for a recipe
/// directly under the root.
pub open spec fn directory_of(recipe: RecipeView) -> Seq<char> {
    match recipe.category {
        Some(c) => c,
        None => Seq::empty(),
    }
}

/// The summaries of the recipes of a list that lie in a directory, in the
/// order of the list.
pub open spec fn in_directory(recipes: Seq<RecipeView>, path: Seq<char>) -> Seq<SummaryView>
    decreases recipes.len(),
{
    if recipes.len() == 0 {
        Seq::empty()
    } else if directory_of(recipes.last()) == path {
        in_directory(recipes.drop_last(), path).push(summary(recipes.last()))
    } else {
        in_directory(recipes.drop_last(), path)
    }
}

/// Finds the recipes that lie in a directory, the root where the request
/// names none. The order is that of a listing of every recipe.
pub fn find_recipe_by_path<S: RecipeStorage>(
    repo: &RecipeRepository<S>,
    params: &FindByPathQuery,
) -> (r: Vec<RecipeSummary>)
    ensures
        exists|all: Seq<RecipeView>|
            shows(all, repo.index(), Selection::All) && summary_views(r@) == in_directory(
                all,
                directory_of_request(text_view(params.path)),
            ),
{
    let wanted = match &params.path {
        Some(p) => chars_of(p.as_str()),
        None => Vec::new(),
    };
    let all = repo.list_all();
    let ghost shown = recipe_views(all@);
    let mut out: Vec<RecipeSummary> = Vec::new();
    let mut i: usize = 0;
    while i < all.len()
        invariant
            i <= all.len(),
            shown == recipe_views(all@),
            summary_views(out@) == in_directory(shown.take(i as int), wanted@),
        decreases all.len() - i,
    {
        let recipe = &all[i];
        let directory = match &recipe.category {
            Some(c) => chars_of(c.as_str()),
            None => Vec::new(),
        };
        proof {
            let t = shown.take(i + 1);
            assert(t.drop_last() =~= shown.take(i as int));
            assert(t.last() == recipe@);
            assert(directory@ =~= directory_of(recipe@));
        }
        if same(&directory, &wanted) {
            let ghost before = summary_views(out@);
            out.push(summary_of(recipe));
            assert(summary_views(out@) =~= before.push(summary(recipe@)));
        }
        i += 1;
    }
    assert(shown.take(all@.len() as int) =~= shown);
    assert(wanted@ =~= directory_of_request(text_view(params.path)));
    assert(shows(shown, repo.index(), Selection::All));
    out
}

/// The directory that a request names, as a text: empty where it names
/// none.
pub open spec fn directory_of_request(path: Option<Seq<char>>) -> Seq<char> {
    match path {
        Some(p) => p,
        None => Seq::empty(),
    }
}

/// The summaries of a list of recipes, in the order of the list.
pub open spec fn summaries(recipes: Seq<RecipeView>) -> Seq<SummaryView> {
    Seq::new(recipes.len(), |i: int| summary(recipes[i]))
}

/// What a request for the recipes of a category is answered with: a
/// category that no recipe lies in is not found; any other is answered with
/// the summaries of a listing of its recipes, and their number.
pub open spec fn category_answer(
    store: StoreView,
    category_name: Seq<char>,
    r: Result<CategoryRecipesResponse, Failure>,
) -> bool {
    if !crate::cache::categories_of(store.records).contains(category_name) {
        r matches Err(f) && f.reads(
            NOT_FOUND,
            "not_found"@,
            "Path '"@ + category_name + "' not found"@,
        )
    } else {
        match r {
            Ok(body) => {
                &&& body.path@ == category_name
                &&& body.count == body.recipes@.len()
                &&& exists|all: Seq<RecipeView>|
                    shows(all, store.records, Selection::InCategory(category_name))
                        && summary_views(body.recipes@) == summaries(all)
            },
            Err(_) => false,
        }
    }
}

/// Lists the recipes of a category.
pub fn get_category_recipes<S: RecipeStorage>(
    repo: &RecipeRepository<S>,
    category_name: String,
) -> (r: Result<CategoryRecipesResponse, Failure>)
    ensures
        category_answer(repo@, category_name@, r),
{
    let categories = repo.get_categories();
    let wanted = chars_of(category_name.as_str());
    let mut known = false;
    let mut i: usize = 0;
    while i < categories.len()
        invariant
            i <= categories.len(),
            wanted@ == category_name@,
            known == exists|k: int| 0 <= k < i && categories@[k]@ == category_name@,
        decreases categories.len() - i,
    {
        let name = chars_of(categories[i].as_str());
        if same(&name, &wanted) {
            known = true;
        }
        i += 1;
    }
    if !known {
        let mut message = String::from_str("Path '");
        message.append(category_name.as_str());
        message.append("' not found");
        return Err(failure(NOT_FOUND, "not_found", message));
    }
    let recipes = repo.list_by_category(category_name.as_str());
    let mut out: Vec<RecipeSummary> = Vec::new();
    let mut j: usize = 0;
    while j < recipes.len()
        invariant
            j <= recipes.len(),
            out@.len() == j,
            forall|k: int| 0 <= k < j ==> #[trigger] out@[k]@ == summary(recipes@[k]@),
        decreases recipes.len() - j,
    {
        out.push(summary_of(&recipes[j]));
        j += 1;
    }
    assert(summary_views(out@) =~= summaries(recipe_views(recipes@)));
    assert(shows(recipe_views(recipes@), repo.index(), Selection::InCategory(category_name@)));
    let count = out.len();
    Ok(CategoryRecipesResponse { path: category_name, recipes: out, count })
}

} // verus!
