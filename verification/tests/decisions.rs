use cooklang_backend::cache::{generate_recipe_id, CachedRecipe};
use cooklang_backend::parser::title::{title_from_front_matter, FrontMatter, FrontMatterEntry};
use cooklang_backend::parser::{parse_recipe, TitleError};
use cooklang_backend::repository::{recipe_from, RecipeRepository, RepositoryError};
use cooklang_backend::storage::{RecipeStorage, StorageError};

/// A backend that holds nothing and refuses everything.
struct NoStorage;

impl RecipeStorage for NoStorage {
    fn write_file(&mut self, _rel_path: &str, _content: &str) -> Result<(), StorageError> {
        Err(StorageError::Io("no storage".to_string()))
    }

    fn read_file(&self, _rel_path: &str) -> Result<String, StorageError> {
        Err(StorageError::Io("no storage".to_string()))
    }

    fn delete_file(&mut self, _rel_path: &str) -> Result<(), StorageError> {
        Err(StorageError::Io("no storage".to_string()))
    }

    fn discover_files(&self) -> Result<Vec<String>, StorageError> {
        Ok(Vec::new())
    }
}

fn entry(key: Option<&str>, value: Option<&str>) -> FrontMatterEntry {
    FrontMatterEntry {
        key: key.map(str::to_string),
        value: value.map(str::to_string),
    }
}

fn text(title: &str) -> String {
    format!("---\ntitle: {}\n---\n\nKnead the @dough{{}}.", title)
}

fn record(git_path: &str, name: &str, category: Option<&str>) -> CachedRecipe {
    CachedRecipe {
        recipe_id: generate_recipe_id(git_path),
        git_path: git_path.to_string(),
        name: name.to_string(),
        description: None,
        category: category.map(str::to_string),
        recipe: parse_recipe("Knead the @dough{}.", name).unwrap(),
    }
}

#[test]
fn title_is_picked_from_the_entries() {
    let doc = FrontMatter::Mapping(vec![
        entry(Some("author"), Some("me")),
        entry(None, Some("keyless")),
        entry(Some("TiTlE"), Some("  Bread \n")),
        entry(Some("title"), Some("Later")),
    ]);
    assert_eq!(title_from_front_matter(&doc).unwrap(), "Bread");
}

#[test]
fn title_is_refused_with_its_reason() {
    assert!(matches!(
        title_from_front_matter(&FrontMatter::Invalid("bad".to_string())),
        Err(TitleError::InvalidYaml(m)) if m == "bad"
    ));
    assert!(matches!(
        title_from_front_matter(&FrontMatter::NotMapping),
        Err(TitleError::NotAMapping)
    ));
    assert!(matches!(
        title_from_front_matter(&FrontMatter::Mapping(vec![])),
        Err(TitleError::TitleNotFound)
    ));
    assert!(matches!(
        title_from_front_matter(&FrontMatter::Mapping(vec![entry(Some("titles"), Some("x"))])),
        Err(TitleError::TitleNotFound)
    ));
    assert!(matches!(
        title_from_front_matter(&FrontMatter::Mapping(vec![
            entry(Some("title"), None),
            entry(Some("title"), Some("Second")),
        ])),
        Err(TitleError::TitleNotString)
    ));
    assert!(matches!(
        title_from_front_matter(&FrontMatter::Mapping(vec![entry(Some("Title"), Some(" \t"))])),
        Err(TitleError::TitleEmpty)
    ));
}

#[test]
fn every_title_error_has_its_words() {
    let worded = [
        (TitleError::ContentEmpty, "Content is empty"),
        (
            TitleError::MissingFrontMatter,
            "Missing YAML front matter: content must start with ---",
        ),
        (
            TitleError::MissingClosingDelimiter,
            "Malformed YAML front matter: missing closing --- delimiter",
        ),
        (
            TitleError::InvalidYaml("line 1".to_string()),
            "Invalid YAML front matter: line 1",
        ),
        (TitleError::NotAMapping, "YAML front matter must be a mapping"),
        (
            TitleError::TitleNotFound,
            "Title field not found in YAML front matter. Expected format: title: Recipe Name",
        ),
        (TitleError::TitleNotString, "Title field must be a string"),
        (
            TitleError::TitleEmpty,
            "Title field is empty in YAML front matter",
        ),
    ];
    for (error, words) in worded {
        assert_eq!(error.message(), words);
        assert_eq!(
            RepositoryError::InvalidContent(error).message(),
            format!("Invalid recipe content: {}", words)
        );
    }
}

#[test]
fn recipe_is_its_record_and_its_text() {
    let recipe = recipe_from(
        record("recipes/a/b/rye-bread-2.cook", "Rye Bread", Some("a/b")),
        "text".to_string(),
    );
    assert_eq!(recipe.git_path, "recipes/a/b/rye-bread-2.cook");
    assert_eq!(recipe.file_name, "rye-bread-2.cook");
    assert_eq!(recipe.name, "Rye Bread");
    assert_eq!(recipe.category, Some("a/b".to_string()));
    assert_eq!(recipe.description, None);
    assert_eq!(recipe.content, "text");
}

#[test]
fn creation_is_planned_without_the_backend() {
    let repo = RecipeRepository::new(NoStorage).unwrap();
    let plan = repo.plan_create(&text("Rye Bread"), Some("breads")).unwrap();
    assert_eq!(plan.git_path, "recipes/breads/rye-bread.cook");
    assert_eq!(plan.file_name, "rye-bread.cook");
    assert_eq!(plan.title, "Rye Bread");
    assert_eq!(plan.category, Some("breads".to_string()));
    assert_eq!(plan.recipe.ingredients[0].name, "dough");

    let rooted = repo.plan_create(&text("Rye Bread"), Some("")).unwrap();
    assert_eq!(rooted.git_path, "recipes/rye-bread.cook");
    assert_eq!(rooted.category, None);

    assert!(matches!(
        repo.plan_create("no front matter", None),
        Err(RepositoryError::InvalidContent(TitleError::MissingFrontMatter))
    ));
    assert!(matches!(
        repo.plan_create("---\ntitle: x\n---\n@a{1/0}", None),
        Err(RepositoryError::ParseFailed(m)) if m == "Division by zero"
    ));
}

#[test]
fn files_are_entered_as_they_were_read() {
    let mut repo = RecipeRepository::new(NoStorage).unwrap();
    repo.index_file("recipes/breads/rye.cook", Ok(text("Rye Bread")));
    repo.index_file("recipes/plain-loaf.cook", Ok("Knead the @dough{}.".to_string()));
    repo.index_file("recipes/lost.cook", Err(StorageError::Io("gone".to_string())));
    repo.index_file("recipes/bad.cook", Ok("@a{1/0}".to_string()));

    let mut listed: Vec<(String, String, Option<String>)> = repo
        .list_all()
        .into_iter()
        .map(|r| (r.git_path, r.name, r.category))
        .collect();
    listed.sort();
    assert_eq!(
        listed,
        vec![
            (
                "recipes/breads/rye.cook".to_string(),
                "Rye Bread".to_string(),
                Some("breads".to_string())
            ),
            (
                "recipes/plain-loaf.cook".to_string(),
                "Plain Loaf".to_string(),
                None
            ),
        ]
    );
    assert_eq!(
        repo.get_recipe_git_path(&generate_recipe_id("recipes/breads/rye.cook")),
        Some("recipes/breads/rye.cook".to_string())
    );
}

#[test]
fn update_is_planned_from_record_and_stored_text() {
    let mut repo = RecipeRepository::new(NoStorage).unwrap();
    repo.index_file("recipes/breads/rye-bread.cook", Ok(text("Rye Bread")));
    repo.index_file("recipes/breads/white-bread.cook", Ok(text("White Bread")));
    let path = "recipes/breads/rye-bread.cook";
    let current = record(path, "Rye Bread", Some("breads"));
    let stored = text("Rye Bread");

    let idle = repo
        .plan_update(path, &current, &stored, None, None, None)
        .unwrap();
    assert_eq!(idle.git_path, path);
    assert!(!idle.moved);
    assert!(!idle.written);
    assert_eq!(idle.content, stored);

    let rewritten = repo
        .plan_update(path, &current, &stored, None, Some(&text("rye  bread")), None)
        .unwrap();
    assert_eq!(rewritten.git_path, path);
    assert_eq!(rewritten.title, "rye  bread");
    assert!(!rewritten.moved);
    assert!(rewritten.written);
    assert_eq!(rewritten.content, text("rye  bread"));

    let renamed = repo
        .plan_update(path, &current, &stored, None, Some(&text("White Bread")), None)
        .unwrap();
    assert_eq!(renamed.git_path, "recipes/breads/white-bread-2.cook");
    assert_eq!(renamed.file_name, "white-bread.cook");
    assert!(renamed.moved);
    assert!(renamed.written);

    let moved = repo
        .plan_update(path, &current, &stored, None, None, Some(Some("old/breads")))
        .unwrap();
    assert_eq!(moved.git_path, "recipes/old/breads/rye-bread.cook");
    assert_eq!(moved.category, Some("old/breads".to_string()));
    assert_eq!(moved.content, stored);
    assert!(moved.moved);
    assert!(moved.written);

    let named = repo
        .plan_update(path, &current, &stored, Some("Dark Rye"), None, Some(None))
        .unwrap();
    assert_eq!(named.git_path, "recipes/breads/dark-rye.cook");
    assert_eq!(named.title, "Dark Rye");
    assert_eq!(named.category, Some("breads".to_string()));

    assert!(matches!(
        repo.plan_update(path, &current, &stored, Some("x"), Some("untitled"), None),
        Err(RepositoryError::InvalidContent(TitleError::MissingFrontMatter))
    ));
    assert!(matches!(
        repo.plan_update(path, &current, "@a{1/0}", None, None, None),
        Err(RepositoryError::ParseFailed(_))
    ));
}
