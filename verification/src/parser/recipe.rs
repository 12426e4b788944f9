//! Recipes as the cooklang parser reads them.
//!
//! The grammar is the `cooklang` crate's business. The store asks it one
//! question, whether a text is a recipe, and keeps a summary of the answer.

use vstd::prelude::*;

verus! {

/// An ingredient of a parsed recipe.
#[derive(Debug, Clone)]
pub struct ParsedIngredient {
    pub name: String,
    /// Whether the recipe says how much of it is needed.
    pub has_quantity: bool,
}

/// What the store keeps of a parsed recipe.
#[derive(Debug, Clone)]
pub struct ParsedRecipe {
    /// The name under which the recipe was parsed.
    pub name: String,
    /// The metadata entries, key and value, in the order of the text.
    pub metadata: Vec<(String, String)>,
    /// The ingredients, in the order of the text.
    pub ingredients: Vec<ParsedIngredient>,
    /// The names of the cookware, in the order of the text.
    pub cookware: Vec<String>,
    /// The names of the timers, where they have one, in the order of the text.
    pub timers: Vec<Option<String>>,
    /// The number of steps of each section.
    pub steps: Vec<usize>,
}

/// The mathematical content of a `ParsedIngredient`.
pub struct IngredientView {
    pub name: Seq<char>,
    pub has_quantity: bool,
}

/// The mathematical content of a `ParsedRecipe`.
pub struct ParsedRecipeView {
    pub name: Seq<char>,
    pub metadata: Seq<(Seq<char>, Seq<char>)>,
    pub ingredients: Seq<IngredientView>,
    pub cookware: Seq<Seq<char>>,
    pub timers: Seq<Option<Seq<char>>>,
    pub steps: Seq<usize>,
}

impl View for ParsedIngredient {
    type V = IngredientView;

    open spec fn view(&self) -> IngredientView {
        IngredientView { name: self.name@, has_quantity: self.has_quantity }
    }
}

impl View for ParsedRecipe {
    type V = ParsedRecipeView;

    open spec fn view(&self) -> ParsedRecipeView {
        ParsedRecipeView {
            name: self.name@,
            metadata: Seq::new(
                self.metadata@.len(),
                |i: int| (self.metadata@[i].0@, self.metadata@[i].1@),
            ),
            ingredients: Seq::new(self.ingredients@.len(), |i: int| self.ingredients@[i]@),
            cookware: Seq::new(self.cookware@.len(), |i: int| self.cookware@[i]@),
            timers: Seq::new(
                self.timers@.len(),
                |i: int|
                    match self.timers@[i] {
                        Some(t) => Some(t@),
                        None => None,
                    },
            ),
            steps: self.steps@,
        }
    }
}

/// The mathematical content of what parsing gives: the recipe, or the
/// parser's complaint.
pub open spec fn parse_result_view(r: Result<ParsedRecipe, String>) -> Result<
    ParsedRecipeView,
    Seq<char>,
> {
    match r {
        Ok(recipe) => Ok(recipe@),
        Err(e) => Err(e@),
    }
}

/// What the cooklang parser, with all its extensions and its own table of
/// units, makes of a text that is parsed under a name.
pub uninterp spec fn cooklang_parse(content: Seq<char>, name: Seq<char>) -> Result<
    ParsedRecipeView,
    Seq<char>,
>;

/// Parses a recipe: `cooklang::parse`, which parses with the crate's default
/// parser (all extensions, the default converter), then
/// `PassResult::into_result`.
///
/// The result depends on the two texts alone. On success it holds the
/// recipe's fields as the parser filled them, warnings dropped; on failure
/// the parser's report as text.
#[verifier::external_body]
pub fn parse_recipe(content: &str, name: &str) -> (r: Result<ParsedRecipe, String>)
    ensures
        parse_result_view(r) == cooklang_parse(content@, name@),
{
    match cooklang::parse(content, name).into_result() {
        Err(report) => Err(report.to_string()),
        Ok((recipe, _)) => Ok(ParsedRecipe {
            name: recipe.name,
            metadata: recipe.metadata.map.into_iter().collect(),
            ingredients: recipe.ingredients.into_iter().map(|i| ParsedIngredient {
                has_quantity: i.quantity.is_some(),
                name: i.name,
            }).collect(),
            cookware: recipe.cookware.into_iter().map(|c| c.name).collect(),
            timers: recipe.timers.into_iter().map(|t| t.name).collect(),
            steps: recipe.sections.iter().map(|s| s.steps.len()).collect(),
        }),
    }
}

} // verus!
