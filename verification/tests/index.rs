use cooklang_backend::cache::{generate_recipe_id, CachedRecipe, RecipeIndex};
use cooklang_backend::parser::{parse_recipe, ParsedRecipe};

fn create_test_recipe(name: &str) -> ParsedRecipe {
    parse_recipe(&format!("# {}\n\n@ingredient{{}} test", name), name)
        .expect("Failed to parse test recipe")
}

#[test]
fn test_insert_and_get() {
    let mut index = RecipeIndex::new();
    let git_path = "recipes/test.cook".to_string();
    let recipe_id = generate_recipe_id(&git_path);
    let recipe = CachedRecipe {
        recipe_id: recipe_id.clone(),
        git_path: git_path.clone(),
        name: "Test Recipe".to_string(),
        description: None,
        category: Some("desserts".to_string()),
        recipe: create_test_recipe("Test Recipe"),
    };

    index.insert(git_path.clone(), recipe.clone());
    let retrieved = index.get(&git_path).unwrap();

    assert_eq!(retrieved.name, "Test Recipe");
    assert_eq!(retrieved.category, Some("desserts".to_string()));
    assert_eq!(retrieved.recipe_id, recipe_id);
}

#[test]
fn cache_test_search_by_name() {
    let mut index = RecipeIndex::new();
    let recipes = vec![
        ("recipes/chocolate.cook", "Chocolate Cake"),
        ("recipes/vanilla.cook", "Vanilla Cake"),
        ("recipes/carrot.cook", "Carrot Cake"),
    ];

    for (path, name) in recipes {
        let git_path = path.to_string();
        let recipe_id = generate_recipe_id(&git_path);
        let recipe = CachedRecipe {
            recipe_id,
            git_path: git_path.clone(),
            name: name.to_string(),
            description: None,
            category: None,
            recipe: create_test_recipe(name),
        };
        index.insert(git_path, recipe);
    }

    let results = index.search_by_name("cake");
    assert_eq!(results.len(), 3);

    let results = index.search_by_name("Chocolate");
    assert_eq!(results.len(), 1);
    assert_eq!(results[0].name, "Chocolate Cake");
}

#[test]
fn test_get_by_category() {
    let mut index = RecipeIndex::new();
    let recipes = vec![
        ("recipes/desserts/cake.cook", "Cake", Some("desserts")),
        ("recipes/desserts/brownie.cook", "Brownie", Some("desserts")),
        ("recipes/mains/pasta.cook", "Pasta", Some("mains")),
    ];

    for (path, name, category) in recipes {
        let git_path = path.to_string();
        let recipe_id = generate_recipe_id(&git_path);
        let recipe = CachedRecipe {
            recipe_id,
            git_path: git_path.clone(),
            name: name.to_string(),
            description: None,
            category: category.map(|s| s.to_string()),
            recipe: create_test_recipe(name),
        };
        index.insert(git_path, recipe);
    }

    let desserts = index.get_by_category("desserts");
    assert_eq!(desserts.len(), 2);

    let mains = index.get_by_category("mains");
    assert_eq!(mains.len(), 1);
}

#[test]
fn test_remove() {
    let mut index = RecipeIndex::new();
    let git_path = "recipes/test.cook".to_string();
    let recipe_id = generate_recipe_id(&git_path);
    let recipe = CachedRecipe {
        recipe_id: recipe_id.clone(),
        git_path: git_path.clone(),
        name: "Test".to_string(),
        description: None,
        category: None,
        recipe: create_test_recipe("Test"),
    };

    index.insert(git_path.clone(), recipe);
    assert_eq!(index.len(), 1);

    index.remove(&git_path);
    assert_eq!(index.len(), 0);
    // Verify reverse index is also cleaned up
    assert!(index.get_git_path(&recipe_id).is_none());
}

#[test]
fn test_get_git_path_by_recipe_id() {
    let mut index = RecipeIndex::new();
    let git_path = "recipes/test.cook".to_string();
    let recipe_id = generate_recipe_id(&git_path);
    let recipe = CachedRecipe {
        recipe_id: recipe_id.clone(),
        git_path: git_path.clone(),
        name: "Test".to_string(),
        description: None,
        category: None,
        recipe: create_test_recipe("Test"),
    };

    index.insert(git_path.clone(), recipe);
    let retrieved_path = index.get_git_path(&recipe_id).unwrap();
    assert_eq!(retrieved_path, git_path);
}

#[test]
fn test_get_categories() {
    let mut index = RecipeIndex::new();
    let recipes = vec![
        ("recipes/desserts/cake.cook", "Cake", Some("desserts")),
        ("recipes/mains/pasta.cook", "Pasta", Some("mains")),
        ("recipes/appetizers/dip.cook", "Dip", Some("appetizers")),
        ("recipes/uncategorized.cook", "Uncategorized", None),
    ];

    for (path, name, category) in recipes {
        let git_path = path.to_string();
        let recipe_id = generate_recipe_id(&git_path);
        let recipe = CachedRecipe {
            recipe_id,
            git_path: git_path.clone(),
            name: name.to_string(),
            description: None,
            category: category.map(|s| s.to_string()),
            recipe: create_test_recipe(name),
        };
        index.insert(git_path, recipe);
    }

    let categories = index.get_categories();
    assert_eq!(categories.len(), 3);
    assert!(categories.contains(&"desserts".to_string()));
    assert!(categories.contains(&"mains".to_string()));
    assert!(categories.contains(&"appetizers".to_string()));
}

fn record(path: &str, name: &str, category: Option<&str>, text: &str) -> CachedRecipe {
    CachedRecipe {
        recipe_id: generate_recipe_id(path),
        git_path: path.to_string(),
        name: name.to_string(),
        description: None,
        category: category.map(str::to_string),
        recipe: parse_recipe(text, name).expect("Failed to parse test recipe"),
    }
}

#[test]
fn index_filters_by_ingredient() {
    let mut index = RecipeIndex::new();
    index.insert(
        "recipes/a.cook".to_string(),
        record("recipes/a.cook", "A", None, "Mix @Brown Sugar{1%cup} and @butter{}."),
    );
    index.insert(
        "recipes/b.cook".to_string(),
        record("recipes/b.cook", "B", None, "Boil @water{1%l} with @sugar{}."),
    );
    index.insert(
        "recipes/c.cook".to_string(),
        record("recipes/c.cook", "C", None, "Slice the @bread{}."),
    );

    let mut sweet: Vec<String> = index
        .filter_by_ingredient("SUGAR")
        .into_iter()
        .map(|r| r.name)
        .collect();
    sweet.sort();
    assert_eq!(sweet, vec!["A".to_string(), "B".to_string()]);
    assert_eq!(index.filter_by_ingredient("brown sugar").len(), 1);
    assert_eq!(index.filter_by_ingredient("salt").len(), 0);
    assert_eq!(index.filter_by_ingredient("").len(), 3);
}

#[test]
fn index_is_emptied_by_clear() {
    let mut index = RecipeIndex::default();
    assert!(index.is_empty());
    assert_eq!(index.len(), 0);
    assert!(index.get_all().is_empty());

    let id = generate_recipe_id("recipes/a.cook");
    index.insert(
        "recipes/a.cook".to_string(),
        record("recipes/a.cook", "A", Some("x"), "Stir."),
    );
    index.insert(
        "recipes/b.cook".to_string(),
        record("recipes/b.cook", "B", None, "Stir."),
    );
    assert!(!index.is_empty());
    assert_eq!(index.len(), 2);
    assert_eq!(index.get_all().len(), 2);

    index.clear();
    assert!(index.is_empty());
    assert_eq!(index.len(), 0);
    assert!(index.get("recipes/a.cook").is_none());
    assert!(index.get_git_path(&id).is_none());
    assert!(index.get_categories().is_empty());
}

#[test]
fn index_overwrites_the_record_under_a_path() {
    let mut index = RecipeIndex::new();
    index.insert(
        "recipes/a.cook".to_string(),
        record("recipes/a.cook", "Old", Some("x"), "Stir."),
    );
    index.insert(
        "recipes/a.cook".to_string(),
        record("recipes/a.cook", "New", Some("y"), "Stir."),
    );
    assert_eq!(index.len(), 1);
    assert_eq!(index.get("recipes/a.cook").unwrap().name, "New");
    assert_eq!(index.get_categories(), vec!["y".to_string()]);

    let removed = index.remove("recipes/a.cook").unwrap();
    assert_eq!(removed.name, "New");
    assert!(index.remove("recipes/a.cook").is_none());
}
