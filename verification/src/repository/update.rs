//! Updating a recipe: new text, a new category, or both.

use super::numbering::{free_path, lemma_free_path};
use super::paths::{extract_filename_from_path, filename_of};
use super::{
    record_of, str_view, Action, Recipe, RecipeRepository, RecipeView, RepositoryError,
    RepositoryErrorView, StoreView,
};
use crate::cache::{generate_recipe_id, recipe_id_of, CachedRecipe, CachedRecipeView};
use crate::parser::filename::{filename_for, generate_filename, should_rename_file};
use crate::parser::recipe::{cooklang_parse, parse_recipe, ParsedRecipe, ParsedRecipeView};
use crate::parser::title::{extract_recipe_title, text_view, title_of};
use crate::storage::RecipeStorage;
use crate::text::{chars_of, same};
use vstd::prelude::*;

verus! {

/// What updating a recipe comes to, once its new text is found to be in
/// order: where the recipe lies afterwards and what the index is to hold of
/// it.
#[derive(Debug, Clone)]
pub struct Update {
    /// The path of the recipe after the update.
    pub git_path: String,
    /// The file name that belongs to the title.
    pub file_name: String,
    /// The title after the update.
    pub title: String,
    /// The category after the update.
    pub category: Option<String>,
    /// The text after the update.
    pub content: String,
    /// The text as parsed.
    pub recipe: ParsedRecipe,
    /// Whether the recipe changes its path.
    pub moved: bool,
    /// Whether a file is written.
    pub written: bool,
}

/// The mathematical content of an `Update`.
pub struct UpdateView {
    pub git_path: Seq<char>,
    pub file_name: Seq<char>,
    pub title: Seq<char>,
    pub category: Option<Seq<char>>,
    pub content: Seq<char>,
    pub recipe: ParsedRecipeView,
    pub moved: bool,
    pub written: bool,
}

impl View for Update {
    type V = UpdateView;

    open spec fn view(&self) -> UpdateView {
        UpdateView {
            git_path: self.git_path@,
            file_name: self.file_name@,
            title: self.title@,
            category: text_view(self.category),
            content: self.content@,
            recipe: self.recipe@,
            moved: self.moved,
            written: self.written,
        }
    }
}

impl UpdateView {
    /// The record that the index gets.
    pub open spec fn record(self) -> CachedRecipeView {
        record_of(self.git_path, self.title, self.category, self.recipe)
    }

    /// The recipe that the caller gets.
    pub open spec fn recipe(self) -> RecipeView {
        RecipeView {
            git_path: self.git_path,
            file_name: self.file_name,
            name: self.title,
            description: None,
            category: self.category,
            content: self.content,
        }
    }
}

impl StoreView {
    /// The store after an update of the recipe under `git_path` as far as
    /// the new file goes: the text written under the new path, where
    /// anything is written; the record under the new path and the new path
    /// under its id; where the recipe moved, nothing in the index under the
    /// old path nor under the old id.
    pub open spec fn with_rewritten(self, git_path: Seq<char>, plan: UpdateView) -> StoreView {
        let records = if plan.moved {
            self.records.remove(git_path)
        } else {
            self.records
        };
        let paths = if plan.moved {
            self.paths.remove(self.records[git_path].recipe_id)
        } else {
            self.paths
        };
        StoreView {
            records: records.insert(plan.git_path, plan.record()),
            paths: paths.insert(recipe_id_of(plan.git_path), plan.git_path),
            log: if plan.written {
                self.log.push(Action::Wrote { path: plan.git_path, content: plan.content })
            } else {
                self.log
            },
        }
    }

    /// The store after an update of the recipe under `git_path`: as
    /// `with_rewritten` has it, and then, where the recipe moved, the old
    /// file removed.
    pub open spec fn with_updated(self, git_path: Seq<char>, plan: UpdateView) -> StoreView {
        let rewritten = self.with_rewritten(git_path, plan);
        StoreView {
            log: if plan.moved {
                rewritten.log.push(Action::Removed { path: git_path })
            } else {
                rewritten.log
            },
            ..rewritten
        }
    }
}

/// The categories of a request to update: none given, or one given, which
/// may itself be none.
pub open spec fn category_view(category: Option<Option<&str>>) -> Option<Option<Seq<char>>> {
    match category {
        Some(c) => Some(str_view(c)),
        None => None,
    }
}

/// The category of a recipe after an update: the one given, unless it is
/// empty, which puts the recipe directly under the root; the current one
/// where none is given.
pub open spec fn category_after(
    current: Option<Seq<char>>,
    category: Option<Option<Seq<char>>>,
) -> Option<Seq<char>> {
    match category {
        Some(Some(c)) => if c.len() == 0 {
            None
        } else {
            Some(c)
        },
        _ => current,
    }
}

/// The title of a recipe after an update: the title of the new text where
/// there is new text; else the name given, where one is given; else the
/// current title.
pub open spec fn title_after(
    current: Seq<char>,
    name: Option<Seq<char>>,
    content: Option<Seq<char>>,
) -> Result<Seq<char>, RepositoryErrorView> {
    match content {
        Some(text) => match title_of(text) {
            Ok(title) => Ok(title),
            Err(e) => Err(RepositoryErrorView::InvalidContent(e)),
        },
        None => match name {
            Some(n) => Ok(n),
            None => Ok(current),
        },
    }
}

/// What updating the recipe under `git_path` comes to, given the paths that
/// are taken, the recipe's record and its stored text.
///
/// The text after the update, new or stored, must parse under the title
/// after the update. The recipe moves if its file name no longer belongs to
/// its title, or if its category changes; it then goes where a new recipe
/// of that title and category would go. A file is written if there is new
/// text or the recipe moves.
pub open spec fn update_plan(
    taken: Set<Seq<char>>,
    git_path: Seq<char>,
    current: CachedRecipeView,
    stored: Seq<char>,
    name: Option<Seq<char>>,
    content: Option<Seq<char>>,
    category: Option<Option<Seq<char>>>,
) -> Result<UpdateView, RepositoryErrorView> {
    match title_after(current.name, name, content) {
        Err(e) => Err(e),
        Ok(title) => {
            let text = match content {
                Some(c) => c,
                None => stored,
            };
            let new_category = category_after(current.category, category);
            let file_name = filename_for(title);
            let moved = file_name != filename_of(git_path) || new_category != current.category;
            match cooklang_parse(text, title) {
                Err(m) => Err(RepositoryErrorView::ParseFailed(m)),
                Ok(recipe) => if moved {
                    Ok(
                        UpdateView {
                            git_path: free_path(taken, new_category, file_name),
                            file_name,
                            title,
                            category: new_category,
                            content: text,
                            recipe,
                            moved: true,
                            written: true,
                        },
                    )
                } else {
                    Ok(
                        UpdateView {
                            git_path,
                            file_name,
                            title,
                            category: new_category,
                            content: text,
                            recipe,
                            moved: false,
                            written: content is Some,
                        },
                    )
                },
            }
        },
    }
}

/// The mathematical content of a plan or of the failure to make one.
pub open spec fn update_result_view(r: Result<Update, RepositoryError>) -> Result<
    UpdateView,
    RepositoryErrorView,
> {
    match r {
        Ok(plan) => Ok(plan@),
        Err(e) => Err(e@),
    }
}

/// A recipe that moves goes to a path that was not taken; one that stays
/// keeps its path.
pub proof fn lemma_update_plan_path(
    taken: Set<Seq<char>>,
    git_path: Seq<char>,
    current: CachedRecipeView,
    stored: Seq<char>,
    name: Option<Seq<char>>,
    content: Option<Seq<char>>,
    category: Option<Option<Seq<char>>>,
)
    requires
        taken.finite(),
    ensures
        match update_plan(taken, git_path, current, stored, name, content, category) {
            Ok(plan) => if plan.moved {
                !taken.contains(plan.git_path) && plan.written
            } else {
                plan.git_path == git_path
            },
            Err(_) => true,
        },
{
    match title_after(current.name, name, content) {
        Ok(title) => {
            lemma_free_path(
                taken,
                category_after(current.category, category),
                filename_for(title),
            );
        },
        Err(_) => {},
    }
}

/// Updating a recipe keeps the index in order.
pub proof fn lemma_with_updated_keeps_order(store: StoreView, git_path: Seq<char>, plan: UpdateView)
    requires
        store.wf(),
        store.records.contains_key(git_path),
        plan.moved ==> plan.git_path != git_path,
        !plan.moved ==> plan.git_path == git_path,
    ensures
        store.with_rewritten(git_path, plan).wf(),
        store.with_updated(git_path, plan).wf(),
{
    let after = store.with_rewritten(git_path, plan);
    assert forall|id: Seq<char>| #[trigger]
        after.paths.contains_key(id) implies after.records.contains_key(after.paths[id])
        && recipe_id_of(after.paths[id]) == id by {
        if id != recipe_id_of(plan.git_path) {
            assert(store.paths.contains_key(id));
        }
    }
}

/// Tests whether two categories are the same.
fn same_category(a: &Option<String>, b: &Option<String>) -> (r: bool)
    ensures
        r == (text_view(*a) == text_view(*b)),
{
    match (a, b) {
        (Some(x), Some(y)) => {
            let xs = chars_of(x.as_str());
            let ys = chars_of(y.as_str());
            same(&xs, &ys)
        },
        (None, None) => true,
        _ => false,
    }
}

/// What an update of the recipe under `git_path` may leave behind, and what
/// it then returns, where `stored` is the text that the backend hands out
/// for the recipe.
///
/// An update that cannot be planned fails with the plan's error, and nothing
/// changes. For one that can be planned the backend is asked to write the
/// text of the plan under the path of the plan, if anything is to be
/// written, and then, if the recipe moves, to remove the old file. Where it
/// does what it is asked, and so too where it is asked nothing, the update
/// succeeds and the index is as the plan has it. Where it cannot write,
/// nothing changes. Where it writes and cannot remove, the update fails,
/// and the index follows the new file.
pub open spec fn update_outcome_with(
    before: StoreView,
    after: StoreView,
    git_path: Seq<char>,
    stored: Seq<char>,
    name: Option<Seq<char>>,
    content: Option<Seq<char>>,
    category: Option<Option<Seq<char>>>,
    r: Result<RecipeView, RepositoryErrorView>,
) -> bool {
    match update_plan(
        before.records.dom(),
        git_path,
        before.records[git_path],
        stored,
        name,
        content,
        category,
    ) {
        Err(e) => r == Err::<RecipeView, RepositoryErrorView>(e) && after == before,
        Ok(plan) => match r {
            Ok(recipe) => recipe == plan.recipe() && after == before.with_updated(git_path, plan),
            Err(e) => e is Storage && plan.written && (after == before || (plan.moved && after
                == before.with_rewritten(git_path, plan))),
        },
    }
}

/// What an update of the recipe under `git_path` may leave behind, and what
/// it then returns.
///
/// A path that the index does not hold is not found, and nothing changes.
/// Otherwise the backend is asked for the stored text. Where it fails, so
/// does the update, and nothing changes; where it hands out a text, the
/// update goes by it as `update_outcome_with` says.
pub open spec fn update_outcome(
    before: StoreView,
    after: StoreView,
    git_path: Seq<char>,
    name: Option<Seq<char>>,
    content: Option<Seq<char>>,
    category: Option<Option<Seq<char>>>,
    r: Result<RecipeView, RepositoryErrorView>,
) -> bool {
    if !before.records.contains_key(git_path) {
        r == Err::<RecipeView, RepositoryErrorView>(RepositoryErrorView::NotFound(git_path))
            && after == before
    } else {
        ||| (r matches Err(e) && e is Storage && after == before)
        ||| exists|stored: Seq<char>|
            update_outcome_with(before, after, git_path, stored, name, content, category, r)
    }
}

impl<S: RecipeStorage> RecipeRepository<S> {
    /// Decides what updating a recipe comes to, from its record and its
    /// stored text. Nothing is written and nothing changes.
    pub fn plan_update(
        &self,
        git_path: &str,
        current: &CachedRecipe,
        stored: &str,
        name: Option<&str>,
        content: Option<&str>,
        category: Option<Option<&str>>,
    ) -> (r: Result<Update, RepositoryError>)
        requires
            self@.wf(),
        ensures
            update_result_view(r) == update_plan(
                self.index().dom(),
                git_path@,
                current@,
                stored@,
                str_view(name),
                str_view(content),
                category_view(category),
            ),
    {
        let title = match content {
            Some(text) => match extract_recipe_title(text) {
                Ok(title) => title,
                Err(e) => {
                    return Err(RepositoryError::InvalidContent(e));
                },
            },
            None => match name {
                Some(n) => String::from_str(n),
                None => current.name.clone(),
            },
        };
        let text = match content {
            Some(c) => c,
            None => stored,
        };
        let new_category = match category {
            Some(Some(c)) => if c.is_empty() {
                None
            } else {
                Some(String::from_str(c))
            },
            _ => match &current.category {
                Some(c) => Some(c.clone()),
                None => None,
            },
        };
        let recipe = match parse_recipe(text, title.as_str()) {
            Ok(recipe) => recipe,
            Err(m) => {
                return Err(RepositoryError::ParseFailed(m));
            },
        };
        let file_name = generate_filename(title.as_str());
        let old_name = extract_filename_from_path(git_path);
        let renamed = should_rename_file(old_name.as_str(), title.as_str());
        let moved = renamed || !same_category(&new_category, &current.category);
        if moved {
            let wanted = match &new_category {
                Some(c) => Some(c.as_str()),
                None => None,
            };
            let new_path = self.generate_git_path_from_filename(file_name.as_str(), wanted);
            Ok(
                Update {
                    git_path: new_path,
                    file_name,
                    title,
                    category: new_category,
                    content: String::from_str(text),
                    recipe,
                    moved: true,
                    written: true,
                },
            )
        } else {
            Ok(
                Update {
                    git_path: String::from_str(git_path),
                    file_name,
                    title,
                    category: new_category,
                    content: String::from_str(text),
                    recipe,
                    moved: false,
                    written: content.is_some(),
                },
            )
        }
    }

    /// Updates a recipe: new text, a new category, or both.
    pub fn update(
        &mut self,
        git_path: &str,
        name: Option<&str>,
        content: Option<&str>,
        category: Option<Option<&str>>,
    ) -> (r: Result<Recipe, RepositoryError>)
        requires
            old(self)@.wf(),
        ensures
            final(self)@.wf(),
            update_outcome(
                old(self)@,
                final(self)@,
                git_path@,
                str_view(name),
                str_view(content),
                category_view(category),
                super::recipe_result_view(r),
            ),
    {
        self.update_with_author_and_comment(git_path, name, content, category, None, None)
    }

    /// Updates a recipe on behalf of an author.
    pub fn update_with_author(
        &mut self,
        git_path: &str,
        name: Option<&str>,
        content: Option<&str>,
        category: Option<Option<&str>>,
        author: Option<&str>,
    ) -> (r: Result<Recipe, RepositoryError>)
        requires
            old(self)@.wf(),
        ensures
            final(self)@.wf(),
            update_outcome(
                old(self)@,
                final(self)@,
                git_path@,
                str_view(name),
                str_view(content),
                category_view(category),
                super::recipe_result_view(r),
            ),
    {
        self.update_with_author_and_comment(git_path, name, content, category, author, None)
    }

    /// Updates a recipe on behalf of an author, with a comment. Neither
    /// bears on what is updated.
    ///
    /// The new file is written before the old one is removed, and the index
    /// is brought up to date last.
    pub fn update_with_author_and_comment(
        &mut self,
        git_path: &str,
        name: Option<&str>,
        content: Option<&str>,
        category: Option<Option<&str>>,
        _author: Option<&str>,
        _comment: Option<&str>,
    ) -> (r: Result<Recipe, RepositoryError>)
        requires
            old(self)@.wf(),
        ensures
            final(self)@.wf(),
            update_outcome(
                old(self)@,
                final(self)@,
                git_path@,
                str_view(name),
                str_view(content),
                category_view(category),
                super::recipe_result_view(r),
            ),
    {
        let current = match self.cache.get(git_path) {
            Some(record) => record,
            None => {
                return Err(RepositoryError::NotFound(String::from_str(git_path)));
            },
        };
        let stored = match self.storage.read_file(git_path) {
            Ok(text) => text,
            Err(e) => {
                return Err(RepositoryError::Storage(e));
            },
        };
        let plan = match self.plan_update(
            git_path,
            &current,
            stored.as_str(),
            name,
            content,
            category,
        ) {
            Ok(plan) => plan,
            Err(e) => {
                assert(update_outcome_with(
                    old(self)@,
                    self@,
                    git_path@,
                    stored@,
                    str_view(name),
                    str_view(content),
                    category_view(category),
                    Err(e@),
                ));
                return Err(e);
            },
        };
        let ghost planned = plan@;
        proof {
            lemma_update_plan_path(
                old(self).index().dom(),
                git_path@,
                current@,
                stored@,
                str_view(name),
                str_view(content),
                category_view(category),
            );
        }
        let mut failed: Option<RepositoryError> = None;
        if plan.written {
            match self.storage.write_file(plan.git_path.as_str(), plan.content.as_str()) {
                Ok(_) => {},
                Err(e) => {
                    return Err(RepositoryError::Storage(e));
                },
            }
            self.log = Ghost(
                self.log@.push(Action::Wrote { path: planned.git_path, content: planned.content }),
            );
            if plan.moved {
                match self.storage.delete_file(git_path) {
                    Ok(_) => {
                        self.log = Ghost(self.log@.push(Action::Removed { path: git_path@ }));
                    },
                    Err(e) => {
                        failed = Some(RepositoryError::Storage(e));
                    },
                }
            }
        }
        if plan.moved {
            let _ = self.cache.remove(git_path);
        }
        let record = CachedRecipe {
            recipe_id: generate_recipe_id(plan.git_path.as_str()),
            git_path: plan.git_path.clone(),
            name: plan.title.clone(),
            description: None,
            category: match &plan.category {
                Some(c) => Some(c.clone()),
                None => None,
            },
            recipe: plan.recipe,
        };
        assert(record@ == planned.record());
        self.cache.insert(plan.git_path.clone(), record);
        proof {
            if failed is Some {
                assert(self@ == old(self)@.with_rewritten(git_path@, planned));
            } else {
                assert(self@ == old(self)@.with_updated(git_path@, planned));
            }
            lemma_with_updated_keeps_order(old(self)@, git_path@, planned);
        }
        let result = match failed {
            Some(e) => Err(e),
            None => Ok(
                Recipe {
                    git_path: plan.git_path,
                    file_name: plan.file_name,
                    name: plan.title,
                    description: None,
                    category: plan.category,
                    content: plan.content,
                },
            ),
        };
        assert(update_outcome_with(
            old(self)@,
            self@,
            git_path@,
            stored@,
            str_view(name),
            str_view(content),
            category_view(category),
            super::recipe_result_view(result),
        ));
        result
    }
}

} // verus!
