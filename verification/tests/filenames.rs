use cooklang_backend::parser::{generate_filename, normalize_path, should_rename_file};

#[test]
fn test_generate_filename_simple_title() {
    assert_eq!(generate_filename("Chocolate Cake"), "chocolate-cake.cook");
}

#[test]
fn test_generate_filename_already_lowercase() {
    assert_eq!(generate_filename("pasta carbonara"), "pasta-carbonara.cook");
}

#[test]
fn test_generate_filename_all_uppercase() {
    assert_eq!(generate_filename("BEEF STEAK"), "beef-steak.cook");
}

#[test]
fn test_generate_filename_mixed_case() {
    assert_eq!(
        generate_filename("Chocolate Layer Cake"),
        "chocolate-layer-cake.cook"
    );
}

#[test]
fn test_generate_filename_with_special_characters() {
    assert_eq!(
        generate_filename("Quick & Easy Recipe"),
        "quick-easy-recipe.cook"
    );
}

#[test]
fn test_generate_filename_with_numbers() {
    assert_eq!(
        generate_filename("5-Ingredient Chili"),
        "5-ingredient-chili.cook"
    );
}

#[test]
fn test_generate_filename_with_apostrophe() {
    assert_eq!(
        generate_filename("Mom's Secret Sauce"),
        "mom-s-secret-sauce.cook"
    );
}

#[test]
fn test_generate_filename_with_parentheses() {
    assert_eq!(generate_filename("Pasta (Homemade)"), "pasta-homemade.cook");
}

#[test]
fn test_generate_filename_with_multiple_spaces() {
    assert_eq!(
        generate_filename("Chocolate    Cake"),
        "chocolate-cake.cook"
    );
}

#[test]
fn test_generate_filename_with_leading_trailing_spaces() {
    assert_eq!(
        generate_filename("  Chocolate Cake  "),
        "chocolate-cake.cook"
    );
}

#[test]
fn test_generate_filename_with_special_chars_consecutive() {
    assert_eq!(
        generate_filename("Cake & Frosting & Berries"),
        "cake-frosting-berries.cook"
    );
}

#[test]
fn test_generate_filename_unicode_characters() {
    assert_eq!(
        generate_filename("Gâteau Chocolat Français"),
        "gâteau-chocolat-français.cook"
    );
}

#[test]
fn test_generate_filename_with_dots_in_numbers() {
    assert_eq!(
        generate_filename("1.5 Liter Smoothie"),
        "1.5-liter-smoothie.cook"
    );
}

#[test]
fn test_generate_filename_single_word() {
    assert_eq!(generate_filename("Brownies"), "brownies.cook");
}

#[test]
fn test_generate_filename_with_hyphens() {
    assert_eq!(
        generate_filename("Chocolate-Chip Cookies"),
        "chocolate-chip-cookies.cook"
    );
}

#[test]
fn test_generate_filename_empty_title() {
    assert_eq!(generate_filename(""), ".cook");
}

#[test]
fn test_generate_filename_only_special_characters() {
    assert_eq!(generate_filename("&&&"), ".cook");
}

#[test]
fn test_generate_filename_very_long_title() {
    let long_title = "The Most Delicious and Decadent Triple-Layer Chocolate Cake with Ganache";
    let result = generate_filename(long_title);
    assert!(result.ends_with(".cook"));
    assert!(result
        .chars()
        .all(|c| c.is_alphanumeric() || c == '-' || c == '.'));
}

#[test]
fn test_normalize_path_simple() {
    assert_eq!(
        normalize_path("recipes/chocolate-cake.cook").unwrap(),
        "recipes/chocolate-cake.cook"
    );
}

#[test]
fn test_normalize_path_with_leading_slash() {
    assert_eq!(
        normalize_path("/recipes/chocolate-cake.cook").unwrap(),
        "recipes/chocolate-cake.cook"
    );
}

#[test]
fn test_normalize_path_with_trailing_slash() {
    assert_eq!(
        normalize_path("recipes/chocolate-cake.cook/").unwrap(),
        "recipes/chocolate-cake.cook"
    );
}

#[test]
fn test_normalize_path_with_leading_and_trailing_slashes() {
    assert_eq!(
        normalize_path("/recipes/chocolate-cake.cook/").unwrap(),
        "recipes/chocolate-cake.cook"
    );
}

#[test]
fn test_normalize_path_nested_directories() {
    assert_eq!(
        normalize_path("/recipes/desserts/cakes/chocolate-cake.cook").unwrap(),
        "recipes/desserts/cakes/chocolate-cake.cook"
    );
}

#[test]
fn test_normalize_path_with_underscores() {
    assert_eq!(
        normalize_path("recipes/my_recipe.cook").unwrap(),
        "recipes/my_recipe.cook"
    );
}

#[test]
fn test_normalize_path_with_numbers() {
    assert_eq!(
        normalize_path("recipes/5-ingredient-chili.cook").unwrap(),
        "recipes/5-ingredient-chili.cook"
    );
}

#[test]
fn test_normalize_path_single_file() {
    assert_eq!(normalize_path("recipe.cook").unwrap(), "recipe.cook");
}

#[test]
fn test_normalize_path_empty_string() {
    assert!(normalize_path("").is_err());
    assert!(normalize_path("")
        .unwrap_err()
        .message()
        .contains("empty"));
}

#[test]
fn test_normalize_path_only_slashes() {
    assert!(normalize_path("///").is_err());
    assert!(normalize_path("///")
        .unwrap_err()
        .message()
        .contains("empty"));
}

#[test]
fn test_normalize_path_with_spaces() {
    assert!(normalize_path("recipes/chocolate cake.cook").is_err());
    assert!(normalize_path("recipes/chocolate cake.cook")
        .unwrap_err()
        .message()
        .contains("invalid character"));
}

#[test]
fn test_normalize_path_with_special_characters() {
    assert!(normalize_path("recipes/cake&frosting.cook").is_err());
    assert!(normalize_path("recipes/cake@frosting.cook").is_err());
    assert!(normalize_path("recipes/cake#frosting.cook").is_err());
}

#[test]
fn test_normalize_path_with_dots_in_filename() {
    assert_eq!(
        normalize_path("recipes/1.5.liter.smoothie.cook").unwrap(),
        "recipes/1.5.liter.smoothie.cook"
    );
}

#[test]
fn test_normalize_path_mixed_valid_chars() {
    assert_eq!(
        normalize_path("/recipes/desserts/my_5-ingredient_cake.cook/").unwrap(),
        "recipes/desserts/my_5-ingredient_cake.cook"
    );
}

#[test]
fn test_should_rename_file_title_changed() {
    // Title changed from "Chocolate Cake" to "Dark Chocolate Cake"
    assert!(should_rename_file(
        "chocolate-cake.cook",
        "Dark Chocolate Cake"
    ));
}

#[test]
fn test_should_rename_file_title_unchanged() {
    // Title remains the same, no rename needed
    assert!(!should_rename_file("chocolate-cake.cook", "Chocolate Cake"));
}

#[test]
fn test_should_rename_file_title_with_extra_whitespace() {
    // Title has different whitespace but generates same filename
    assert!(!should_rename_file(
        "chocolate-cake.cook",
        "  Chocolate   Cake  "
    ));
}

#[test]
fn test_should_rename_file_case_difference() {
    // Case differs but generates same lowercase filename
    assert!(!should_rename_file("chocolate-cake.cook", "CHOCOLATE CAKE"));
}

#[test]
fn test_should_rename_file_special_chars_removed() {
    // Special characters are normalized away, resulting in same filename
    assert!(!should_rename_file(
        "quick-easy-recipe.cook",
        "Quick & Easy Recipe"
    ));
}

#[test]
fn test_should_rename_file_multiple_spaces_to_hyphens() {
    // Multiple spaces normalized to single hyphens
    assert!(!should_rename_file(
        "chocolate-cake.cook",
        "Chocolate    Cake"
    ));
}

#[test]
fn test_should_rename_file_leading_trailing_spaces() {
    // Leading/trailing spaces are trimmed during filename generation
    assert!(!should_rename_file(
        "chocolate-cake.cook",
        "  Chocolate Cake  "
    ));
}

#[test]
fn test_should_rename_file_word_removed() {
    // One word removed from title
    assert!(should_rename_file(
        "chocolate-layer-cake.cook",
        "Chocolate Cake"
    ));
}

#[test]
fn test_should_rename_file_word_added() {
    // New word added to title
    assert!(should_rename_file(
        "chocolate-cake.cook",
        "Decadent Chocolate Cake"
    ));
}

#[test]
fn test_should_rename_file_word_order_changed() {
    // Words reordered changes the filename
    assert!(should_rename_file("chocolate-cake.cook", "Cake Chocolate"));
}

#[test]
fn test_should_rename_file_apostrophe_handling() {
    // Apostrophe normalized to hyphen
    assert!(!should_rename_file(
        "mom-s-secret-sauce.cook",
        "Mom's Secret Sauce"
    ));
}

#[test]
fn test_should_rename_file_parentheses_removed() {
    // Parentheses and content normalized away
    assert!(!should_rename_file(
        "pasta-homemade.cook",
        "Pasta (Homemade)"
    ));
}

#[test]
fn test_should_rename_file_unicode_chars() {
    // Unicode characters preserved (lowercase transformation)
    assert!(!should_rename_file(
        "gâteau-chocolat-français.cook",
        "Gâteau Chocolat Français"
    ));
}

#[test]
fn test_should_rename_file_numbers_in_title() {
    // Numbers preserved in filename
    assert!(!should_rename_file(
        "5-ingredient-chili.cook",
        "5-Ingredient Chili"
    ));
}

#[test]
fn test_should_rename_file_dots_in_title() {
    // Dots preserved in filenames (e.g., "1.5")
    assert!(!should_rename_file(
        "1.5-liter-smoothie.cook",
        "1.5 Liter Smoothie"
    ));
}

#[test]
fn test_should_rename_file_significant_title_change() {
    // Completely different title
    assert!(should_rename_file("chocolate-cake.cook", "Vanilla Pudding"));
}

#[test]
fn test_should_rename_file_single_character_difference() {
    // Single character change in title
    assert!(should_rename_file("chocolate-cake.cook", "Chocolate Cakee"));
}

#[test]
fn test_should_rename_file_empty_old_filename() {
    // Edge case: empty old filename (should rename if new title generates non-empty)
    assert!(should_rename_file("", "Chocolate Cake"));
}

#[test]
fn test_should_rename_file_both_empty() {
    // Both empty or generate empty filenames
    assert!(!should_rename_file(".cook", ""));
}
