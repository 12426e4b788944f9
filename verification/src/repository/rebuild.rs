//! Building the index from what the backend holds.

use super::paths::{category_of, extract_category_from_path, name_of_path, path_to_name};
use super::{record_of, Action, RecipeRepository, RepositoryError, StoreView};
use crate::cache::{generate_recipe_id, recipe_id_of, CachedRecipe, CachedRecipeView, RecipeIndex};
use crate::parser::recipe::{cooklang_parse, parse_recipe};
use crate::parser::title::{extract_recipe_title, title_of};
use crate::storage::{RecipeStorage, StorageError};
use vstd::prelude::*;

verus! {

/// The title under which a stored file is indexed: the title of its text,
/// or, where the text gives none, the name that its path stands for.
pub open spec fn title_or_name(git_path: Seq<char>, content: Seq<char>) -> Seq<char> {
    match title_of(content) {
        Ok(title) => title,
        Err(_) => name_of_path(git_path),
    }
}

/// The record that the index gets for a stored file, if its text parses.
/// The category is the one that the path shows.
pub open spec fn rebuilt_record(git_path: Seq<char>, content: Seq<char>) -> Option<
    CachedRecipeView,
> {
    let title = title_or_name(git_path, content);
    match cooklang_parse(content, title) {
        Ok(recipe) => Some(record_of(git_path, title, category_of(git_path), recipe)),
        Err(_) => None,
    }
}

/// Makes the record for a stored file, if its text parses.
pub fn record_for(git_path: &str, content: &str) -> (r: Option<CachedRecipe>)
    ensures
        match r {
            Some(record) => rebuilt_record(git_path@, content@) == Some(record@),
            None => rebuilt_record(git_path@, content@) is None,
        },
{
    let category = extract_category_from_path(git_path);
    let title = match extract_recipe_title(content) {
        Ok(title) => title,
        Err(_) => path_to_name(git_path),
    };
    match parse_recipe(content, title.as_str()) {
        Ok(recipe) => Some(
            CachedRecipe {
                recipe_id: generate_recipe_id(git_path),
                git_path: String::from_str(git_path),
                name: title,
                description: None,
                category,
                recipe,
            },
        ),
        Err(_) => None,
    }
}

/// A file that the backend found, with what came of reading it: its text,
/// or nothing where the reading failed.
pub struct FoundFile {
    pub git_path: Seq<char>,
    pub content: Option<Seq<char>>,
}

/// What came of reading a file, as far as the index goes by it.
pub open spec fn read_view(read: Result<String, StorageError>) -> Option<Seq<char>> {
    match read {
        Ok(content) => Some(content@),
        Err(_) => None,
    }
}

impl StoreView {
    /// The store with an empty index.
    pub open spec fn cleared(self) -> StoreView {
        StoreView { records: Map::empty(), paths: Map::empty(), log: self.log }
    }

    /// The store after a found file is entered: where it was read and its
    /// text parses, its record lies under its path and its path under its
    /// id; else nothing changes.
    pub open spec fn with_file(self, file: FoundFile) -> StoreView {
        match file.content {
            Some(content) => match rebuilt_record(file.git_path, content) {
                Some(record) => StoreView {
                    records: self.records.insert(file.git_path, record),
                    paths: self.paths.insert(record.recipe_id, file.git_path),
                    log: self.log,
                },
                None => self,
            },
            None => self,
        }
    }

    /// The store after found files are entered one after the other.
    pub open spec fn with_files(self, files: Seq<FoundFile>) -> StoreView
        decreases files.len(),
    {
        if files.len() == 0 {
            self
        } else {
            self.with_files(files.drop_last()).with_file(files.last())
        }
    }

    /// Whether every record is one that a text under its path gives.
    pub open spec fn rebuilt(self) -> bool {
        forall|p: Seq<char>| #[trigger]
            self.records.contains_key(p) ==> exists|content: Seq<char>|
                rebuilt_record(p, content) == Some(self.records[p])
    }
}

/// Entering a found file keeps the index in order, and keeps every record
/// one that a text under its path gives.
pub proof fn lemma_with_file(store: StoreView, file: FoundFile)
    requires
        store.wf(),
    ensures
        store.with_file(file).wf(),
        store.rebuilt() ==> store.with_file(file).rebuilt(),
        store.with_file(file).log == store.log,
{
    let after = store.with_file(file);
    assert forall|id: Seq<char>| #[trigger]
        after.paths.contains_key(id) implies after.records.contains_key(after.paths[id])
        && recipe_id_of(after.paths[id]) == id by {
        if after != store && id != recipe_id_of(file.git_path) {
            assert(store.paths.contains_key(id));
        }
    }
    if store.rebuilt() {
        assert forall|p: Seq<char>| #[trigger] after.records.contains_key(p) implies exists|
            content: Seq<char>,
        |
            rebuilt_record(p, content) == Some(after.records[p]) by {
            if after != store && p == file.git_path {
                assert(rebuilt_record(p, file.content->0) == Some(after.records[p]));
            } else {
                assert(store.records.contains_key(p));
            }
        }
    }
}

/// An index built from found files is in order, and every record of it is
/// one that a text under its path gives.
pub proof fn lemma_with_files(store: StoreView, files: Seq<FoundFile>)
    ensures
        store.cleared().with_files(files).wf(),
        store.cleared().with_files(files).rebuilt(),
        store.cleared().with_files(files).log == store.log,
    decreases files.len(),
{
    if files.len() > 0 {
        lemma_with_files(store, files.drop_last());
        lemma_with_file(store.cleared().with_files(files.drop_last()), files.last());
    }
}

impl<S: RecipeStorage> RecipeRepository<S> {
    /// A store over a backend, with the index built from what the backend
    /// holds.
    pub fn new(storage: S) -> (r: Result<Self, RepositoryError>)
        ensures
            match r {
                Ok(store) => store@.wf() && store@.rebuilt() && store.log() == Seq::<
                    Action,
                >::empty(),
                Err(e) => e@ is Storage,
            },
    {
        Self::with_storage(storage)
    }

    /// A store over a backend, with the index built from what the backend
    /// holds.
    pub fn with_storage(storage: S) -> (r: Result<Self, RepositoryError>)
        ensures
            match r {
                Ok(store) => store@.wf() && store@.rebuilt() && store.log() == Seq::<
                    Action,
                >::empty(),
                Err(e) => e@ is Storage,
            },
    {
        let mut store = RecipeRepository {
            cache: RecipeIndex::new(),
            storage,
            log: Ghost(Seq::empty()),
        };
        match store.rebuild_from_storage() {
            Ok(_) => Ok(store),
            Err(e) => Err(e),
        }
    }

    /// Enters a file that the backend found into the index, going by what
    /// came of reading it.
    pub fn index_file(&mut self, git_path: &str, read: Result<String, StorageError>)
        requires
            old(self)@.wf(),
        ensures
            final(self)@.wf(),
            final(self)@ == old(self)@.with_file(
                FoundFile { git_path: git_path@, content: read_view(read) },
            ),
    {
        proof {
            lemma_with_file(
                old(self)@,
                FoundFile { git_path: git_path@, content: read_view(read) },
            );
        }
        match read {
            Ok(content) => match record_for(git_path, content.as_str()) {
                Some(record) => {
                    self.cache.insert(String::from_str(git_path), record);
                },
                None => {},
            },
            Err(_) => {},
        }
    }

    /// Builds the index anew from what the backend holds.
    ///
    /// The index is emptied. Where the backend cannot say which files it
    /// holds, the rebuilding fails and the index stays empty. Otherwise the
    /// files that it names are read and entered one after the other: every
    /// file that can be read and parses gets its record; a file that cannot
    /// be read or does not parse is passed over. The backend is asked to
    /// change nothing.
    pub fn rebuild_from_storage(&mut self) -> (r: Result<(), RepositoryError>)
        ensures
            final(self)@.wf(),
            final(self).log() == old(self).log(),
            match r {
                Ok(_) => final(self)@.rebuilt() && exists|files: Seq<FoundFile>|
                    final(self)@ == old(self)@.cleared().with_files(files),
                Err(e) => e@ is Storage && final(self)@ == old(self)@.cleared(),
            },
    {
        self.cache.clear();
        let found = match self.storage.discover_files() {
            Ok(found) => found,
            Err(e) => {
                return Err(RepositoryError::Storage(e));
            },
        };
        let ghost mut files: Seq<FoundFile> = Seq::empty();
        let mut i: usize = 0;
        while i < found.len()
            invariant
                i <= found.len(),
                self@ == old(self)@.cleared().with_files(files),
            decreases found.len() - i,
        {
            let git_path = &found[i];
            let read = self.storage.read_file(git_path.as_str());
            proof {
                lemma_with_files(old(self)@, files);
                let file = FoundFile { git_path: git_path@, content: read_view(read) };
                assert(files.push(file).drop_last() =~= files);
                files = files.push(file);
            }
            self.index_file(git_path.as_str(), read);
            i += 1;
        }
        proof {
            lemma_with_files(old(self)@, files);
        }
        Ok(())
    }
}

} // verus!
