//! Reading what a recipe's text says of itself: its title, the file name
//! that goes with the title, and whether the text is a recipe at all.

pub mod filename;
pub mod recipe;
pub mod title;

pub use filename::{generate_filename, normalize_path, should_rename_file, PathError};
pub use recipe::{parse_recipe, ParsedIngredient, ParsedRecipe};
pub use title::{extract_recipe_title, TitleError};
