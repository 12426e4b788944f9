//! Creating a recipe.

use super::numbering::{
    candidate, candidate_chars, first_free, free_path, lemma_taken_places,
};
use super::{
    effective_category, record_of, recipe_result_view, str_view, Action, Recipe,
    RecipeRepository, RecipeView, RepositoryError, RepositoryErrorView, StoreView,
};
use crate::cache::{generate_recipe_id, recipe_id_of, CachedRecipe, CachedRecipeView};
use crate::parser::filename::{filename_for, generate_filename};
use crate::parser::recipe::{cooklang_parse, parse_recipe, ParsedRecipe, ParsedRecipeView};
use crate::parser::title::{extract_recipe_title, text_view, title_of};
use crate::storage::RecipeStorage;
use crate::text::{chars_of, string_of};
use vstd::prelude::*;

verus! {

/// What creating a recipe comes to, once the text is found to be in order:
/// where the recipe goes and what the index is to hold of it.
#[derive(Debug, Clone)]
pub struct Creation {
    /// The path that the recipe gets.
    pub git_path: String,
    /// The file name that belongs to the title.
    pub file_name: String,
    /// The title, read from the text.
    pub title: String,
    /// The category that the recipe is put in.
    pub category: Option<String>,
    /// The recipe as parsed.
    pub recipe: ParsedRecipe,
}

/// The mathematical content of a `Creation`.
pub struct CreationView {
    pub git_path: Seq<char>,
    pub file_name: Seq<char>,
    pub title: Seq<char>,
    pub category: Option<Seq<char>>,
    pub recipe: ParsedRecipeView,
}

impl View for Creation {
    type V = CreationView;

    open spec fn view(&self) -> CreationView {
        CreationView {
            git_path: self.git_path@,
            file_name: self.file_name@,
            title: self.title@,
            category: text_view(self.category),
            recipe: self.recipe@,
        }
    }
}

impl CreationView {
    /// The record that the index gets.
    pub open spec fn record(self) -> CachedRecipeView {
        record_of(self.git_path, self.title, self.category, self.recipe)
    }

    /// The recipe that the caller gets.
    pub open spec fn recipe_with(self, content: Seq<char>) -> RecipeView {
        RecipeView {
            git_path: self.git_path,
            file_name: self.file_name,
            name: self.title,
            description: None,
            category: self.category,
            content,
        }
    }
}

impl StoreView {
    /// The store after a recipe is created: its text written under its
    /// path, its record under its path, its path under its id.
    pub open spec fn with_created(self, plan: CreationView, content: Seq<char>) -> StoreView {
        StoreView {
            records: self.records.insert(plan.git_path, plan.record()),
            paths: self.paths.insert(recipe_id_of(plan.git_path), plan.git_path),
            log: self.log.push(Action::Wrote { path: plan.git_path, content }),
        }
    }
}

/// What creating a recipe from a text comes to, given the paths that are
/// taken.
///
/// The text must have a title and must parse under it. The recipe then goes
/// into the given category, under the file name that belongs to its title;
/// where that path is taken, under the first numbered one that is not.
pub open spec fn creation_plan(
    taken: Set<Seq<char>>,
    content: Seq<char>,
    category: Option<Seq<char>>,
) -> Result<CreationView, RepositoryErrorView> {
    match title_of(content) {
        Err(e) => Err(RepositoryErrorView::InvalidContent(e)),
        Ok(title) => match cooklang_parse(content, title) {
            Err(m) => Err(RepositoryErrorView::ParseFailed(m)),
            Ok(recipe) => Ok(
                CreationView {
                    git_path: free_path(taken, effective_category(category), filename_for(title)),
                    file_name: filename_for(title),
                    title,
                    category: effective_category(category),
                    recipe,
                },
            ),
        },
    }
}

/// The mathematical content of a plan or of the failure to make one.
pub open spec fn creation_result_view(r: Result<Creation, RepositoryError>) -> Result<
    CreationView,
    RepositoryErrorView,
> {
    match r {
        Ok(plan) => Ok(plan@),
        Err(e) => Err(e@),
    }
}

/// What creating a recipe from a text may leave behind, and what it then
/// returns.
///
/// A creation that cannot be planned fails with the plan's error, and
/// nothing changes. For one that can be planned the backend is asked to
/// write the text, as it was handed in, under the path of the plan. Where it
/// does, the index holds the recipe, and the recipe returned carries the
/// text as it was handed in. Where it fails, nothing changes.
pub open spec fn create_outcome(
    before: StoreView,
    after: StoreView,
    content: Seq<char>,
    category: Option<Seq<char>>,
    r: Result<RecipeView, RepositoryErrorView>,
) -> bool {
    match creation_plan(before.records.dom(), content, category) {
        Err(e) => r == Err::<RecipeView, RepositoryErrorView>(e) && after == before,
        Ok(plan) => match r {
            Ok(recipe) => recipe == plan.recipe_with(content) && after == before.with_created(
                plan,
                content,
            ),
            Err(e) => e is Storage && after == before,
        },
    }
}

/// Adding a recipe under the id of its path keeps the index in order.
pub proof fn lemma_with_created_keeps_order(
    store: StoreView,
    plan: CreationView,
    content: Seq<char>,
)
    requires
        store.wf(),
    ensures
        store.with_created(plan, content).wf(),
{
    let after = store.with_created(plan, content);
    assert forall|id: Seq<char>| #[trigger]
        after.paths.contains_key(id) implies after.records.contains_key(after.paths[id])
        && recipe_id_of(after.paths[id]) == id by {
        if id != recipe_id_of(plan.git_path) {
            assert(store.paths.contains_key(id));
        }
    }
}

impl<S: RecipeStorage> RecipeRepository<S> {
    /// Finds the path for a file in a category: the file name itself where
    /// that path is free, else the first of `-2`, `-3` and so on that is.
    pub fn generate_git_path_from_filename(&self, filename: &str, category: Option<&str>) -> (r:
        String)
        requires
            self@.wf(),
        ensures
            r@ == free_path(self.index().dom(), str_view(category), filename@),
            !self.index().contains_key(r@),
    {
        let file_chars = chars_of(filename);
        let category_chars = match category {
            Some(c) => Some(chars_of(c)),
            None => None,
        };
        let ghost taken = self.index().dom();
        let ghost cat = str_view(category);
        let held = self.cache.len();
        let mut n: u128 = 1;
        loop
            invariant
                self@.wf(),
                taken == self.index().dom(),
                held == taken.len(),
                cat == str_view(category),
                file_chars@ == filename@,
                match category_chars {
                    Some(c) => cat == Some(c@),
                    None => cat is None,
                },
                1 <= n <= held + 1,
                forall|j: nat|
                    1 <= j < n ==> taken.contains(#[trigger] candidate(cat, filename@, j)),
                first_free(taken, cat, filename@, 1) == first_free(taken, cat, filename@, n as nat),
            decreases held + 1 - n,
        {
            let path = string_of(&candidate_chars(category_chars.as_ref(), &file_chars, n));
            if self.cache.get(path.as_str()).is_none() {
                return path;
            }
            proof {
                lemma_taken_places(taken, cat, filename@, n as nat);
            }
            n += 1;
        }
    }

    /// Decides what creating a recipe from a text comes to. Nothing is
    /// written and nothing changes.
    pub fn plan_create(&self, content: &str, category: Option<&str>) -> (r: Result<
        Creation,
        RepositoryError,
    >)
        requires
            self@.wf(),
        ensures
            creation_result_view(r) == creation_plan(
                self.index().dom(),
                content@,
                str_view(category),
            ),
    {
        let title = match extract_recipe_title(content) {
            Ok(title) => title,
            Err(e) => {
                return Err(RepositoryError::InvalidContent(e));
            },
        };
        let recipe = match parse_recipe(content, title.as_str()) {
            Ok(recipe) => recipe,
            Err(m) => {
                return Err(RepositoryError::ParseFailed(m));
            },
        };
        let file_name = generate_filename(title.as_str());
        let category = match category {
            Some(c) => if c.is_empty() {
                None
            } else {
                Some(c)
            },
            None => None,
        };
        assert(str_view(category) == effective_category(str_view(category)));
        let git_path = self.generate_git_path_from_filename(file_name.as_str(), category);
        let category = match category {
            Some(c) => Some(String::from_str(c)),
            None => None,
        };
        Ok(Creation { git_path, file_name, title, category, recipe })
    }

    /// Creates a recipe from a text, in a category or directly under the
    /// root.
    ///
    /// Where the text has no title or does not parse, nothing is written and
    /// nothing changes. Otherwise the backend decides: where it writes the
    /// file, the index gets the record; where it fails, the index stays as
    /// it was.
    pub fn create(&mut self, name: &str, content: &str, category: Option<&str>) -> (r: Result<
        Recipe,
        RepositoryError,
    >)
        requires
            old(self)@.wf(),
        ensures
            final(self)@.wf(),
            create_outcome(
                old(self)@,
                final(self)@,
                content@,
                str_view(category),
                recipe_result_view(r),
            ),
    {
        self.create_with_author_and_comment(name, content, category, None, None)
    }

    /// Creates a recipe on behalf of an author.
    pub fn create_with_author(
        &mut self,
        name: &str,
        content: &str,
        category: Option<&str>,
        author: Option<&str>,
    ) -> (r: Result<Recipe, RepositoryError>)
        requires
            old(self)@.wf(),
        ensures
            final(self)@.wf(),
            create_outcome(
                old(self)@,
                final(self)@,
                content@,
                str_view(category),
                recipe_result_view(r),
            ),
    {
        self.create_with_author_and_comment(name, content, category, author, None)
    }

    /// Creates a recipe on behalf of an author, with a comment. Neither
    /// bears on what is created, nor does the name: the title is read from
    /// the text.
    pub fn create_with_author_and_comment(
        &mut self,
        _name: &str,
        content: &str,
        category: Option<&str>,
        _author: Option<&str>,
        _comment: Option<&str>,
    ) -> (r: Result<Recipe, RepositoryError>)
        requires
            old(self)@.wf(),
        ensures
            final(self)@.wf(),
            create_outcome(
                old(self)@,
                final(self)@,
                content@,
                str_view(category),
                recipe_result_view(r),
            ),
    {
        let plan = match self.plan_create(content, category) {
            Ok(plan) => plan,
            Err(e) => {
                return Err(e);
            },
        };
        match self.storage.write_file(plan.git_path.as_str(), content) {
            Ok(_) => {},
            Err(e) => {
                return Err(RepositoryError::Storage(e));
            },
        }
        let ghost planned = plan@;
        self.log = Ghost(
            self.log@.push(Action::Wrote { path: planned.git_path, content: content@ }),
        );
        let record = CachedRecipe {
            recipe_id: generate_recipe_id(plan.git_path.as_str()),
            git_path: plan.git_path.clone(),
            name: plan.title.clone(),
            description: None,
            category: plan.category.clone(),
            recipe: plan.recipe,
        };
        assert(record@ == planned.record());
        self.cache.insert(plan.git_path.clone(), record);
        proof {
            lemma_with_created_keeps_order(old(self)@, planned, content@);
        }
        Ok(
            Recipe {
                git_path: plan.git_path,
                file_name: plan.file_name,
                name: plan.title,
                description: None,
                category: plan.category,
                content: String::from_str(content),
            },
        )
    }
}

} // verus!
