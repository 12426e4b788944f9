//! The store itself: the index and the backend, kept in step.
//!
//! Every operation first decides what is to be done, from the index and the
//! text alone; then asks the backend to do it; then brings the index up to
//! date. What an operation leaves behind is stated over `StoreView`: the
//! two maps of the index, and the record of what the backend has done at
//! the store's request. The backend's files themselves are beyond what is
//! stated: the store knows them by what the backend answers.

pub mod create;
pub mod laws;
pub mod numbering;
pub mod paths;
pub mod rebuild;
pub mod update;

use crate::cache::{
    is_listing, lists_categories, recipe_id_of, record_views, CachedRecipe, CachedRecipeView,
    RecipeIndex, Selection,
};
use crate::parser::recipe::ParsedRecipeView;
use crate::parser::title::{text_view, TitleError, TitleErrorView};
use crate::storage::{RecipeStorage, StorageError, StorageErrorView};
use crate::text::lowercase;
use paths::{extract_filename_from_path, filename_of};
use vstd::prelude::*;

verus! {

/// Why an operation of the store failed.
#[derive(Debug, Clone)]
pub enum RepositoryError {
    /// The text has no title to go by.
    InvalidContent(TitleError),
    /// The text is no recipe; the parser's complaint.
    ParseFailed(String),
    /// The index holds no recipe under this path.
    NotFound(String),
    /// The backend failed.
    Storage(StorageError),
}

/// The mathematical content of a `RepositoryError`.
pub enum RepositoryErrorView {
    InvalidContent(TitleErrorView),
    ParseFailed(Seq<char>),
    NotFound(Seq<char>),
    Storage(StorageErrorView),
}

impl View for RepositoryError {
    type V = RepositoryErrorView;

    open spec fn view(&self) -> RepositoryErrorView {
        match self {
            RepositoryError::InvalidContent(e) => RepositoryErrorView::InvalidContent(e@),
            RepositoryError::ParseFailed(m) => RepositoryErrorView::ParseFailed(m@),
            RepositoryError::NotFound(p) => RepositoryErrorView::NotFound(p@),
            RepositoryError::Storage(e) => RepositoryErrorView::Storage(e@),
        }
    }
}

/// The kinds of failure that a caller tells apart.
#[derive(Debug, Clone, Copy, PartialEq, Eq, Structural)]
pub enum ErrorKind {
    /// The text handed in is no recipe with a title.
    Validation,
    /// The path or id names no recipe.
    NotFound,
    /// A file could not be read, written or removed.
    Io,
    /// The repository of versions failed.
    VersionControl,
}

impl RepositoryErrorView {
    /// The error in words.
    pub open spec fn text(self) -> Seq<char> {
        match self {
            RepositoryErrorView::InvalidContent(e) => "Invalid recipe content: "@ + e.text(),
            RepositoryErrorView::ParseFailed(m) => "Failed to parse recipe: "@ + m,
            RepositoryErrorView::NotFound(p) => "Recipe not found: "@ + p,
            RepositoryErrorView::Storage(StorageErrorView::Io(m)) => m,
            RepositoryErrorView::Storage(StorageErrorView::VersionControl(m)) => m,
        }
    }

    /// The kind of the error.
    pub open spec fn kind(self) -> ErrorKind {
        match self {
            RepositoryErrorView::InvalidContent(_) => ErrorKind::Validation,
            RepositoryErrorView::ParseFailed(_) => ErrorKind::Validation,
            RepositoryErrorView::NotFound(_) => ErrorKind::NotFound,
            RepositoryErrorView::Storage(StorageErrorView::Io(_)) => ErrorKind::Io,
            RepositoryErrorView::Storage(StorageErrorView::VersionControl(_)) =>
                ErrorKind::VersionControl,
        }
    }
}

impl RepositoryError {
    /// The error in words.
    pub fn message(&self) -> (r: String)
        ensures
            r@ == self@.text(),
    {
        match self {
            RepositoryError::InvalidContent(e) => {
                let mut s = String::from_str("Invalid recipe content: ");
                s.append(e.message().as_str());
                s
            },
            RepositoryError::ParseFailed(m) => {
                let mut s = String::from_str("Failed to parse recipe: ");
                s.append(m.as_str());
                s
            },
            RepositoryError::NotFound(p) => {
                let mut s = String::from_str("Recipe not found: ");
                s.append(p.as_str());
                s
            },
            RepositoryError::Storage(e) => e.message(),
        }
    }

    /// The kind of the error.
    pub fn kind(&self) -> (r: ErrorKind)
        ensures
            r == self@.kind(),
    {
        match self {
            RepositoryError::InvalidContent(_) => ErrorKind::Validation,
            RepositoryError::ParseFailed(_) => ErrorKind::Validation,
            RepositoryError::NotFound(_) => ErrorKind::NotFound,
            RepositoryError::Storage(StorageError::Io(_)) => ErrorKind::Io,
            RepositoryError::Storage(StorageError::VersionControl(_)) => ErrorKind::VersionControl,
        }
    }
}

/// A recipe as the store hands it out.
#[derive(Debug, Clone)]
pub struct Recipe {
    /// The path under which the recipe is stored.
    pub git_path: String,
    /// The name of the recipe's file.
    pub file_name: String,
    /// The recipe's title.
    pub name: String,
    pub description: Option<String>,
    /// The directories between the recipes root and the file.
    pub category: Option<String>,
    /// The recipe's text. Listings leave it empty.
    pub content: String,
}

/// The mathematical content of a `Recipe`.
pub struct RecipeView {
    pub git_path: Seq<char>,
    pub file_name: Seq<char>,
    pub name: Seq<char>,
    pub description: Option<Seq<char>>,
    pub category: Option<Seq<char>>,
    pub content: Seq<char>,
}

impl View for Recipe {
    type V = RecipeView;

    open spec fn view(&self) -> RecipeView {
        RecipeView {
            git_path: self.git_path@,
            file_name: self.file_name@,
            name: self.name@,
            description: text_view(self.description),
            category: text_view(self.category),
            content: self.content@,
        }
    }
}

/// The characters of a text that may be missing.
pub open spec fn str_view(s: Option<&str>) -> Option<Seq<char>> {
    match s {
        Some(t) => Some(t@),
        None => None,
    }
}

/// The category that a recipe is put in: the one given, but none where the
/// one given is empty.
pub open spec fn effective_category(category: Option<Seq<char>>) -> Option<Seq<char>> {
    match category {
        Some(c) => if c.len() == 0 {
            None
        } else {
            Some(c)
        },
        None => None,
    }
}

/// The record under which the index keeps a recipe.
pub open spec fn record_of(
    git_path: Seq<char>,
    title: Seq<char>,
    category: Option<Seq<char>>,
    recipe: ParsedRecipeView,
) -> CachedRecipeView {
    CachedRecipeView {
        recipe_id: recipe_id_of(git_path),
        git_path,
        name: title,
        description: None,
        category,
        recipe,
    }
}

/// Something that the backend has done at the store's request, by its own
/// account: a request that it answered with success.
pub enum Action {
    /// It wrote a text under a path.
    Wrote { path: Seq<char>, content: Seq<char> },
    /// It removed the file under a path.
    Removed { path: Seq<char> },
}

/// What the store holds: the records of the index by path, the paths by
/// id, and what the backend has done at the store's request, in the order
/// in which it did it.
pub struct StoreView {
    pub records: Map<Seq<char>, CachedRecipeView>,
    pub paths: Map<Seq<char>, Seq<char>>,
    pub log: Seq<Action>,
}

impl StoreView {
    /// The store after the recipe under a path is deleted: its file
    /// removed, and neither its record nor its id in the index.
    pub open spec fn without(self, git_path: Seq<char>) -> StoreView {
        StoreView {
            records: self.records.remove(git_path),
            paths: self.paths.remove(self.records[git_path].recipe_id),
            log: self.log.push(Action::Removed { path: git_path }),
        }
    }

    /// Whether the index is in order: it holds finitely many records; every
    /// record lies under its own path and carries the id of that path; and
    /// every id leads to a record that carries it.
    pub open spec fn wf(self) -> bool {
        &&& self.records.dom().finite()
        &&& forall|p: Seq<char>| #[trigger]
            self.records.contains_key(p) ==> self.records[p].git_path == p
                && self.records[p].recipe_id == recipe_id_of(p)
        &&& forall|id: Seq<char>| #[trigger]
            self.paths.contains_key(id) ==> self.records.contains_key(self.paths[id])
                && recipe_id_of(self.paths[id]) == id
    }
}

/// Taking a recipe out keeps the index in order.
pub proof fn lemma_without_keeps_order(store: StoreView, git_path: Seq<char>)
    requires
        store.wf(),
        store.records.contains_key(git_path),
    ensures
        store.without(git_path).wf(),
{
}

/// A recipe as a listing shows it: with the file name of its path, and
/// without its text.
pub open spec fn listed(record: CachedRecipeView) -> RecipeView {
    RecipeView {
        git_path: record.git_path,
        file_name: filename_of(record.git_path),
        name: record.name,
        description: record.description,
        category: record.category,
        content: Seq::empty(),
    }
}

/// A recipe as it is read: as a listing shows it, with its text.
pub open spec fn read_as(record: CachedRecipeView, content: Seq<char>) -> RecipeView {
    RecipeView { content, ..listed(record) }
}

/// The mathematical content of a list of recipes.
pub open spec fn recipe_views(list: Seq<Recipe>) -> Seq<RecipeView> {
    Seq::new(list.len(), |i: int| list[i]@)
}

/// Whether `list` shows, each once and in some order, the records of
/// `records` that the selection takes.
pub open spec fn shows(
    list: Seq<RecipeView>,
    records: Map<Seq<char>, CachedRecipeView>,
    selection: Selection,
) -> bool {
    exists|found: Seq<CachedRecipeView>|
        is_listing(found, records, selection) && found.len() == list.len() && forall|i: int|
            0 <= i < list.len() ==> #[trigger] list[i] == listed(found[i])
}

/// The mathematical content of what an operation gives that returns a
/// recipe.
pub open spec fn recipe_result_view(r: Result<Recipe, RepositoryError>) -> Result<
    RecipeView,
    RepositoryErrorView,
> {
    match r {
        Ok(recipe) => Ok(recipe@),
        Err(e) => Err(e@),
    }
}

/// The mathematical content of what an operation gives that returns
/// nothing.
pub open spec fn unit_result_view(r: Result<(), RepositoryError>) -> Result<
    (),
    RepositoryErrorView,
> {
    match r {
        Ok(_) => Ok(()),
        Err(e) => Err(e@),
    }
}

/// What deleting the recipe under `git_path` may leave behind, and what it
/// then returns.
///
/// A path that the index does not hold is not found, and nothing changes.
/// Otherwise the backend is asked to remove the file: where it does, the
/// record and its id go too; where it fails, nothing changes.
pub open spec fn delete_outcome(
    before: StoreView,
    after: StoreView,
    git_path: Seq<char>,
    r: Result<(), RepositoryErrorView>,
) -> bool {
    if !before.records.contains_key(git_path) {
        r == Err::<(), RepositoryErrorView>(RepositoryErrorView::NotFound(git_path)) && after
            == before
    } else {
        match r {
            Ok(_) => after == before.without(git_path),
            Err(e) => e is Storage && after == before,
        }
    }
}

/// A recipe made of an index record and a text.
pub fn recipe_from(record: CachedRecipe, content: String) -> (r: Recipe)
    ensures
        r@ == read_as(record@, content@),
{
    let file_name = extract_filename_from_path(record.git_path.as_str());
    Recipe {
        git_path: record.git_path,
        file_name,
        name: record.name,
        description: record.description,
        category: record.category,
        content,
    }
}

/// The recipes that a listing shows for a list of records.
fn recipes_from(records: Vec<CachedRecipe>) -> (r: Vec<Recipe>)
    ensures
        r@.len() == records@.len(),
        forall|i: int| 0 <= i < r@.len() ==> #[trigger] r@[i]@ == listed(records@[i]@),
{
    let mut records = records;
    let ghost all = records@;
    let mut out: Vec<Recipe> = Vec::new();
    while records.len() > 0
        invariant
            records@.len() <= all.len(),
            records@ == all.take(records@.len() as int),
            out@.len() == all.len() - records@.len(),
            forall|i: int|
                0 <= i < out@.len() ==> #[trigger] out@[i]@ == listed(all[all.len() - 1 - i]@),
        decreases records.len(),
    {
        let ghost n = records@.len();
        let record = records.pop().unwrap();
        assert(record == all[n - 1]);
        assert(records@ =~= all.take(n - 1));
        out.push(recipe_from(record, String::new()));
    }
    let mut r: Vec<Recipe> = Vec::new();
    while out.len() > 0
        invariant
            out@.len() <= all.len(),
            r@.len() == all.len() - out@.len(),
            forall|i: int|
                0 <= i < out@.len() ==> #[trigger] out@[i]@ == listed(all[all.len() - 1 - i]@),
            forall|i: int| 0 <= i < r@.len() ==> #[trigger] r@[i]@ == listed(all[i]@),
        decreases out.len(),
    {
        let recipe = out.pop().unwrap();
        r.push(recipe);
    }
    r
}

/// The store: an index over the files of a backend.
pub struct RecipeRepository<S: RecipeStorage> {
    cache: RecipeIndex,
    storage: S,
    log: Ghost<Seq<Action>>,
}

impl<S: RecipeStorage> RecipeRepository<S> {
    /// The records of the index, by path.
    pub open spec fn index(&self) -> Map<Seq<char>, CachedRecipeView> {
        self@.records
    }

    /// The paths of the index, by id.
    pub open spec fn ids(&self) -> Map<Seq<char>, Seq<char>> {
        self@.paths
    }

    /// What the backend has done at the store's request.
    pub open spec fn log(&self) -> Seq<Action> {
        self@.log
    }

    /// Reads a recipe: its record from the index, its text from the
    /// backend.
    ///
    /// A path that the index does not hold is not found. Otherwise the
    /// backend is asked for the file: where it hands out a text, the recipe
    /// is the record with that text; where it fails, so does the reading.
    pub fn read(&self, git_path: &str) -> (r: Result<Recipe, RepositoryError>)
        ensures
            !self.index().contains_key(git_path@) ==> recipe_result_view(r) == Err::<
                RecipeView,
                RepositoryErrorView,
            >(RepositoryErrorView::NotFound(git_path@)),
            self.index().contains_key(git_path@) ==> match r {
                Ok(recipe) => recipe@ == read_as(self.index()[git_path@], recipe@.content),
                Err(e) => e@ is Storage,
            },
    {
        let record = match self.cache.get(git_path) {
            Some(record) => record,
            None => {
                return Err(RepositoryError::NotFound(String::from_str(git_path)));
            },
        };
        match self.storage.read_file(git_path) {
            Ok(content) => Ok(recipe_from(record, content)),
            Err(e) => Err(RepositoryError::Storage(e)),
        }
    }

    /// Deletes a recipe: its file from the backend, then its record from
    /// the index.
    ///
    /// A path that the index does not hold is not found, and nothing
    /// changes. Otherwise the backend decides: where it removes the file,
    /// the record goes too; where it fails, the index stays as it was.
    pub fn delete(&mut self, git_path: &str) -> (r: Result<(), RepositoryError>)
        requires
            old(self)@.wf(),
        ensures
            final(self)@.wf(),
            delete_outcome(old(self)@, final(self)@, git_path@, unit_result_view(r)),
    {
        self.delete_with_author_and_comment(git_path, None, None)
    }

    /// Deletes a recipe on behalf of an author.
    pub fn delete_with_author(&mut self, git_path: &str, author: Option<&str>) -> (r: Result<
        (),
        RepositoryError,
    >)
        requires
            old(self)@.wf(),
        ensures
            final(self)@.wf(),
            delete_outcome(old(self)@, final(self)@, git_path@, unit_result_view(r)),
    {
        self.delete_with_author_and_comment(git_path, author, None)
    }

    /// Deletes a recipe on behalf of an author, with a comment. Neither
    /// bears on what is deleted.
    pub fn delete_with_author_and_comment(
        &mut self,
        git_path: &str,
        _author: Option<&str>,
        _comment: Option<&str>,
    ) -> (r: Result<(), RepositoryError>)
        requires
            old(self)@.wf(),
        ensures
            final(self)@.wf(),
            delete_outcome(old(self)@, final(self)@, git_path@, unit_result_view(r)),
    {
        if self.cache.get(git_path).is_none() {
            return Err(RepositoryError::NotFound(String::from_str(git_path)));
        }
        match self.storage.delete_file(git_path) {
            Ok(_) => {},
            Err(e) => {
                return Err(RepositoryError::Storage(e));
            },
        }
        self.log = Ghost(self.log@.push(Action::Removed { path: git_path@ }));
        let removed = self.cache.remove(git_path);
        proof {
            lemma_without_keeps_order(old(self)@, git_path@);
        }
        Ok(())
    }

    /// Every recipe, each once, in no stated order, without its text.
    pub fn list_all(&self) -> (r: Vec<Recipe>)
        ensures
            shows(recipe_views(r@), self.index(), Selection::All),
    {
        let found = self.cache.get_all();
        let ghost views = record_views(found@);
        let r = recipes_from(found);
        assert(is_listing(views, self.index(), Selection::All));
        r
    }

    /// The recipes whose name holds the query, whatever the case of either.
    pub fn search_by_name(&self, query: &str) -> (r: Vec<Recipe>)
        ensures
            shows(recipe_views(r@), self.index(), Selection::NameContains(lowercase(query@))),
    {
        let found = self.cache.search_by_name(query);
        let ghost views = record_views(found@);
        let r = recipes_from(found);
        assert(is_listing(views, self.index(), Selection::NameContains(lowercase(query@))));
        r
    }

    /// The recipes of a category.
    pub fn list_by_category(&self, category: &str) -> (r: Vec<Recipe>)
        ensures
            shows(recipe_views(r@), self.index(), Selection::InCategory(category@)),
    {
        let found = self.cache.get_by_category(category);
        let ghost views = record_views(found@);
        let r = recipes_from(found);
        assert(is_listing(views, self.index(), Selection::InCategory(category@)));
        r
    }

    /// The categories in use, each once, in ascending order.
    pub fn get_categories(&self) -> (r: Vec<String>)
        ensures
            lists_categories(r@, self.index()),
    {
        self.cache.get_categories()
    }

    /// The path of the recipe with the given id, if there is one.
    pub fn get_recipe_git_path(&self, recipe_id: &str) -> (r: Option<String>)
        ensures
            match r {
                Some(path) => self.ids().contains_key(recipe_id@) && path@
                    == self.ids()[recipe_id@],
                None => !self.ids().contains_key(recipe_id@),
            },
    {
        self.cache.get_git_path(recipe_id)
    }
}

impl<S: RecipeStorage> View for RecipeRepository<S> {
    type V = StoreView;

    closed spec fn view(&self) -> StoreView {
        StoreView { records: self.cache.records(), paths: self.cache.paths(), log: self.log@ }
    }
}

} // verus!
