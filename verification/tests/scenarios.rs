use cooklang_backend::cache::generate_recipe_id;
use cooklang_backend::parser::{extract_recipe_title, generate_filename, parse_recipe, TitleError};
use cooklang_backend::repository::paths::{
    extract_category_from_path, extract_filename_from_path, path_to_name,
};
use cooklang_backend::repository::rebuild::record_for;
use cooklang_backend::repository::{ErrorKind, RecipeRepository, RepositoryError};
use cooklang_backend::storage::{
    author_email, author_name, default_author, delete_commit_message, is_recipe_file,
    storage_kind, write_commit_message, RecipeStorage, StorageError, StorageKind,
};
use std::collections::BTreeMap;

/// A backend that keeps its files in memory, and fails on demand.
struct MemoryStorage {
    files: BTreeMap<String, String>,
    refuse_writes: bool,
    refuse_deletes: bool,
    refuse_reads: bool,
    refuse_discovery: bool,
}

impl MemoryStorage {
    fn new() -> Self {
        MemoryStorage {
            files: BTreeMap::new(),
            refuse_writes: false,
            refuse_deletes: false,
            refuse_reads: false,
            refuse_discovery: false,
        }
    }

    fn holding(files: &[(&str, &str)]) -> Self {
        let mut storage = MemoryStorage::new();
        for (path, content) in files {
            storage.files.insert(path.to_string(), content.to_string());
        }
        storage
    }
}

impl RecipeStorage for MemoryStorage {
    fn write_file(&mut self, rel_path: &str, content: &str) -> Result<(), StorageError> {
        if self.refuse_writes {
            return Err(StorageError::Io("disk full".to_string()));
        }
        self.files.insert(rel_path.to_string(), content.to_string());
        Ok(())
    }

    fn read_file(&self, rel_path: &str) -> Result<String, StorageError> {
        if self.refuse_reads {
            return Err(StorageError::Io("unreadable".to_string()));
        }
        match self.files.get(rel_path) {
            Some(content) => Ok(content.clone()),
            None => Err(StorageError::Io(format!("Failed to read file: {}", rel_path))),
        }
    }

    fn delete_file(&mut self, rel_path: &str) -> Result<(), StorageError> {
        if self.refuse_deletes {
            return Err(StorageError::VersionControl("commit failed".to_string()));
        }
        self.files.remove(rel_path);
        Ok(())
    }

    fn discover_files(&self) -> Result<Vec<String>, StorageError> {
        if self.refuse_discovery {
            return Err(StorageError::Io("cannot walk".to_string()));
        }
        Ok(self
            .files
            .keys()
            .filter(|path| is_recipe_file(path))
            .cloned()
            .collect())
    }
}

fn empty_store() -> RecipeRepository<MemoryStorage> {
    RecipeRepository::new(MemoryStorage::new()).unwrap()
}

fn recipe_text(title: &str) -> String {
    format!("---\ntitle: {}\n---\n\nMix @flour{{200%g}} and @water{{}}.", title)
}

// File names

#[test]
fn filename_ignores_case_and_surrounding_space() {
    let titles = [
        "Chocolate Cake",
        "  Quick & Easy Recipe  ",
        "\tGâteau Chocolat Français\n",
        "5-Ingredient Chili",
        "ÉCLAIR au Café",
        "İstanbul Kebabı",
        " ΟΔΥΣΣΕΥΣ \u{2003}",
        "ǅemper — Ǆ",
        "ẞ/ß",
        "   ",
        "",
    ];
    for title in titles {
        let plain = generate_filename(title);
        assert_eq!(generate_filename(&title.to_lowercase()), plain);
        assert_eq!(generate_filename(title.trim()), plain);
    }
}

#[test]
fn filename_squeezes_runs_and_trims_hyphens() {
    assert_eq!(generate_filename("--a -- b--"), "a-b.cook");
    assert_eq!(generate_filename("a---b"), "a-b.cook");
    assert_eq!(generate_filename("a/b\\c"), "a-b-c.cook");
    assert_eq!(generate_filename("v1.5"), "v1.5.cook");
    assert_eq!(generate_filename("-"), ".cook");
}

// Titles

#[test]
fn title_is_searched_after_the_first_marker_only() {
    assert_eq!(
        extract_recipe_title("  \n---\ntitle: Soup\n---\nbody --- more").unwrap(),
        "Soup"
    );
}

#[test]
fn title_comes_from_the_first_title_entry() {
    assert_eq!(
        extract_recipe_title("---\nTitle: First\ntitle: Second\n---\n").unwrap(),
        "First"
    );
}

#[test]
fn title_errors_tell_the_reasons_apart() {
    assert!(matches!(
        extract_recipe_title(" \n "),
        Err(TitleError::ContentEmpty)
    ));
    assert!(matches!(
        extract_recipe_title("title: x"),
        Err(TitleError::MissingFrontMatter)
    ));
    assert!(matches!(
        extract_recipe_title("---\ntitle: x"),
        Err(TitleError::MissingClosingDelimiter)
    ));
    assert!(matches!(
        extract_recipe_title("---\ntitle: [unclosed\n---\n"),
        Err(TitleError::InvalidYaml(_))
    ));
    assert!(matches!(
        extract_recipe_title("---\njust text\n---\n"),
        Err(TitleError::NotAMapping)
    ));
    assert!(matches!(
        extract_recipe_title("---\nauthor: x\n---\n"),
        Err(TitleError::TitleNotFound)
    ));
    assert!(matches!(
        extract_recipe_title("---\ntitle: 42\n---\n"),
        Err(TitleError::TitleNotString)
    ));
    assert!(matches!(
        extract_recipe_title("---\ntitle: '  '\n---\n"),
        Err(TitleError::TitleEmpty)
    ));
    assert!(extract_recipe_title("---\ntitle: [unclosed\n---\n")
        .unwrap_err()
        .message()
        .starts_with("Invalid YAML front matter: "));
    assert_eq!(
        extract_recipe_title("---\ntitle: '  '\n---\n")
            .unwrap_err()
            .message(),
        "Title field is empty in YAML front matter"
    );
}

#[test]
fn parser_rejects_what_is_no_recipe() {
    let rejected = parse_recipe("Add @flour{1/0%cups}.", "Bread");
    assert_eq!(rejected.unwrap_err(), "Division by zero");
    let accepted = parse_recipe("Add @flour{1/2%cups} to the #bowl.", "Bread").unwrap();
    assert_eq!(accepted.name, "Bread");
    assert_eq!(accepted.ingredients.len(), 1);
    assert_eq!(accepted.ingredients[0].name, "flour");
    assert_eq!(accepted.cookware, vec!["bowl".to_string()]);
}

// Ids

#[test]
fn recipe_id_is_the_start_of_the_digest() {
    assert_eq!(generate_recipe_id("recipes/test.cook"), "35da09e122c1");
    assert_eq!(generate_recipe_id("recipes/desserts/cake.cook"), "e52fcf25a87c");
    assert_eq!(generate_recipe_id(""), "e3b0c44298fc");
}

// Paths

#[test]
fn category_is_everything_between_root_and_file() {
    assert_eq!(
        extract_category_from_path("recipes/a/b/c/slug.cook"),
        Some("a/b/c".to_string())
    );
    assert_eq!(extract_category_from_path("recipes/slug.cook"), None);
    assert_eq!(extract_category_from_path("elsewhere/a/slug.cook"), None);
    assert_eq!(extract_category_from_path("recipes"), None);
    assert_eq!(extract_category_from_path(""), None);
    assert_eq!(
        extract_category_from_path("recipes//slug.cook"),
        Some("".to_string())
    );
}

#[test]
fn filename_is_what_follows_the_last_slash() {
    assert_eq!(extract_filename_from_path("recipes/a/b/slug.cook"), "slug.cook");
    assert_eq!(extract_filename_from_path("slug.cook"), "slug.cook");
    assert_eq!(extract_filename_from_path("recipes/"), "");
}

#[test]
fn name_of_a_path_capitalizes_its_words() {
    assert_eq!(path_to_name("recipes/a/pad--thai  noodles.cook"), "Pad Thai Noodles");
    assert_eq!(path_to_name("recipes/ßtraße.cook"), "SStraße");
    assert_eq!(path_to_name("recipes/notes.txt"), "");
    assert_eq!(path_to_name("recipes/.cook"), "");
}

// The store

#[test]
fn created_recipe_reads_back_unchanged() {
    let mut repo = empty_store();
    let content = "---\ntitle: Crème Brûlée\n---\n\n  Whisk @eggs{4} — gently.\r\n\n\n";
    let created = repo.create("ignored", content, Some("desserts")).unwrap();
    assert_eq!(created.content, content);
    let read = repo.read(&created.git_path).unwrap();
    assert_eq!(read.content, content);
    assert_eq!(read.name, "Crème Brûlée");
    assert_eq!(read.file_name, "crème-brûlée.cook");
}

#[test]
fn second_recipe_of_a_name_is_numbered() {
    let mut repo = empty_store();
    let first = repo
        .create("x", &recipe_text("Apple Pie"), Some("desserts"))
        .unwrap();
    let second = repo
        .create("x", &recipe_text("apple pie!"), Some("desserts"))
        .unwrap();
    let third = repo
        .create("x", &recipe_text("APPLE  PIE"), Some("desserts"))
        .unwrap();
    assert_eq!(first.git_path, "recipes/desserts/apple-pie.cook");
    assert_eq!(second.git_path, "recipes/desserts/apple-pie-2.cook");
    assert_eq!(third.git_path, "recipes/desserts/apple-pie-3.cook");
    assert_eq!(second.file_name, "apple-pie.cook");
    let elsewhere = repo
        .create("x", &recipe_text("Apple Pie"), Some("mains"))
        .unwrap();
    assert_eq!(elsewhere.git_path, "recipes/mains/apple-pie.cook");
}

#[test]
fn numbered_name_is_taken_up_to_the_first_gap() {
    let mut repo = empty_store();
    for _ in 0..11 {
        repo.create("x", &recipe_text("Stew"), None).unwrap();
    }
    let paths: Vec<String> = repo.list_all().into_iter().map(|r| r.git_path).collect();
    assert!(paths.contains(&"recipes/stew-10.cook".to_string()));
    assert!(paths.contains(&"recipes/stew-11.cook".to_string()));
    repo.delete("recipes/stew-2.cook").unwrap();
    let again = repo.create("x", &recipe_text("Stew"), None).unwrap();
    assert_eq!(again.git_path, "recipes/stew-2.cook");
}

#[test]
fn renamed_recipe_gets_a_new_id() {
    let mut repo = empty_store();
    let created = repo.create("x", &recipe_text("Cake"), Some("desserts")).unwrap();
    let old_id = generate_recipe_id(&created.git_path);
    assert_eq!(repo.get_recipe_git_path(&old_id), Some(created.git_path.clone()));

    let updated = repo
        .update(&created.git_path, None, Some(&recipe_text("Chocolate Cake")), None)
        .unwrap();
    let new_id = generate_recipe_id(&updated.git_path);

    assert_ne!(new_id, old_id);
    assert_eq!(repo.get_recipe_git_path(&old_id), None);
    assert_eq!(repo.get_recipe_git_path(&new_id), Some(updated.git_path.clone()));
    assert!(matches!(
        repo.read(&created.git_path),
        Err(RepositoryError::NotFound(_))
    ));
}

#[test]
fn two_paths_can_share_an_id() {
    let first = "recipes/5232661.cook";
    let second = "recipes/9840223.cook";
    assert_eq!(generate_recipe_id(first), "b79f8b42c951");
    assert_eq!(generate_recipe_id(second), "b79f8b42c951");

    // A recipe renamed from the one to the other keeps its id.
    let mut repo = empty_store();
    let created = repo.create("x", &recipe_text("'5232661'"), None).unwrap();
    assert_eq!(created.git_path, first);
    let renamed = repo
        .update(first, None, Some(&recipe_text("'9840223'")), None)
        .unwrap();
    assert_eq!(renamed.git_path, second);
    assert_eq!(
        repo.get_recipe_git_path("b79f8b42c951"),
        Some(second.to_string())
    );
    assert!(repo.read(first).is_err());

    // Of two recipes that share an id, the id leads to the later one, and
    // to none once that one is gone.
    let again = repo.create("x", &recipe_text("'5232661'"), None).unwrap();
    assert_eq!(again.git_path, first);
    assert_eq!(
        repo.get_recipe_git_path("b79f8b42c951"),
        Some(first.to_string())
    );
    repo.delete(first).unwrap();
    assert_eq!(repo.get_recipe_git_path("b79f8b42c951"), None);
    assert!(repo.read(second).is_ok());
    assert_eq!(repo.list_all().len(), 1);
}

#[test]
fn deleted_recipe_is_gone_everywhere() {
    let mut repo = empty_store();
    let kept = repo.create("x", &recipe_text("Carrot Cake"), None).unwrap();
    let doomed = repo.create("x", &recipe_text("Cheese Cake"), None).unwrap();
    let id = generate_recipe_id(&doomed.git_path);

    repo.delete(&doomed.git_path).unwrap();

    let all: Vec<String> = repo.list_all().into_iter().map(|r| r.git_path).collect();
    assert_eq!(all, vec![kept.git_path.clone()]);
    let found: Vec<String> = repo
        .search_by_name("cake")
        .into_iter()
        .map(|r| r.git_path)
        .collect();
    assert_eq!(found, vec![kept.git_path.clone()]);
    assert_eq!(repo.get_recipe_git_path(&id), None);
    assert!(repo.read(&doomed.git_path).is_err());
    assert!(matches!(
        repo.delete(&doomed.git_path),
        Err(RepositoryError::NotFound(_))
    ));
}

#[test]
fn title_with_special_characters_goes_under_the_root() {
    let mut repo = empty_store();
    let recipe = repo
        .create("x", &recipe_text("Dark Chocolate & Vanilla Cake"), None)
        .unwrap();
    assert_eq!(recipe.file_name, "dark-chocolate-vanilla-cake.cook");
    assert_eq!(recipe.git_path, "recipes/dark-chocolate-vanilla-cake.cook");
    assert_eq!(recipe.category, None);
}

#[test]
fn nested_category_round_trips() {
    let mut repo = empty_store();
    let recipe = repo
        .create("x", &recipe_text("Chicken Biryani"), Some("meals/meat/traditional"))
        .unwrap();
    assert_eq!(
        recipe.git_path,
        "recipes/meals/meat/traditional/chicken-biryani.cook"
    );
    assert_eq!(
        extract_category_from_path(&recipe.git_path),
        Some("meals/meat/traditional".to_string())
    );
    let read = repo.read(&recipe.git_path).unwrap();
    assert_eq!(read.category, Some("meals/meat/traditional".to_string()));
    assert_eq!(repo.list_by_category("meals/meat/traditional").len(), 1);
    assert_eq!(repo.list_by_category("meals").len(), 0);
}

#[test]
fn empty_category_is_no_category() {
    let mut repo = empty_store();
    let recipe = repo.create("x", &recipe_text("Toast"), Some("")).unwrap();
    assert_eq!(recipe.git_path, "recipes/toast.cook");
    assert_eq!(recipe.category, None);
    assert!(repo.get_categories().is_empty());
}

#[test]
fn moving_a_recipe_changes_only_the_category() {
    let mut repo = empty_store();
    let content = recipe_text("Vanilla Cake");
    let created = repo.create("x", &content, Some("desserts")).unwrap();
    assert_eq!(created.git_path, "recipes/desserts/vanilla-cake.cook");
    let old_id = generate_recipe_id(&created.git_path);

    let moved = repo
        .update(&created.git_path, None, None, Some(Some("mains")))
        .unwrap();

    assert_eq!(moved.git_path, "recipes/mains/vanilla-cake.cook");
    assert_eq!(moved.content, content);
    assert!(repo.read(&created.git_path).is_err());
    assert_eq!(repo.read(&moved.git_path).unwrap().content, content);
    assert_ne!(generate_recipe_id(&moved.git_path), old_id);
    assert_eq!(repo.get_recipe_git_path(&old_id), None);
    assert_eq!(repo.get_categories(), vec!["mains".to_string()]);
}

#[test]
fn update_without_changes_keeps_the_path() {
    let mut repo = empty_store();
    let created = repo.create("x", &recipe_text("Soup"), Some("mains")).unwrap();
    let same = repo.update(&created.git_path, None, None, None).unwrap();
    assert_eq!(same.git_path, created.git_path);
    let kept = repo
        .update(&created.git_path, None, None, Some(None))
        .unwrap();
    assert_eq!(kept.category, Some("mains".to_string()));
    let to_root = repo
        .update(&created.git_path, None, None, Some(Some("")))
        .unwrap();
    assert_eq!(to_root.git_path, "recipes/soup.cook");
    assert_eq!(to_root.category, None);
}

#[test]
fn update_by_name_renames_without_new_text() {
    let mut repo = empty_store();
    let content = recipe_text("Soup");
    let created = repo.create("x", &content, None).unwrap();
    let renamed = repo
        .update(&created.git_path, Some("Hot Soup"), None, None)
        .unwrap();
    assert_eq!(renamed.git_path, "recipes/hot-soup.cook");
    assert_eq!(renamed.name, "Hot Soup");
    assert_eq!(renamed.content, content);
}

#[test]
fn invalid_text_changes_nothing() {
    let mut repo = empty_store();
    let untitled = repo.create("x", "---\nauthor: me\n---\n\nMix.", None);
    assert!(matches!(
        untitled,
        Err(RepositoryError::InvalidContent(TitleError::TitleNotFound))
    ));
    let unparsed = repo.create("x", "---\ntitle: Bad\n---\n\nAdd @flour{1/0}.", None);
    match unparsed {
        Err(e) => {
            assert_eq!(e.kind(), ErrorKind::Validation);
            assert_eq!(e.message(), "Failed to parse recipe: Division by zero");
        }
        Ok(_) => panic!("text that does not parse was accepted"),
    }
    assert!(repo.list_all().is_empty());

    let created = repo.create("x", &recipe_text("Good"), None).unwrap();
    let refused = repo.update(
        &created.git_path,
        None,
        Some("---\ntitle: Bad\n---\n\nAdd @flour{1/0}."),
        None,
    );
    assert!(matches!(refused, Err(RepositoryError::ParseFailed(_))));
    assert_eq!(repo.read(&created.git_path).unwrap().name, "Good");
}

#[test]
fn unknown_path_is_not_found() {
    let mut repo = empty_store();
    let missing = "recipes/missing.cook";
    for error in [
        repo.read(missing).unwrap_err(),
        repo.update(missing, None, None, None).unwrap_err(),
        repo.delete(missing).unwrap_err(),
    ] {
        assert_eq!(error.kind(), ErrorKind::NotFound);
        assert_eq!(error.message(), "Recipe not found: recipes/missing.cook");
    }
}

#[test]
fn failed_write_leaves_the_index_alone() {
    let mut storage = MemoryStorage::new();
    storage.refuse_writes = true;
    let mut repo = RecipeRepository::new(storage).unwrap();
    let error = repo.create("x", &recipe_text("Soup"), None).unwrap_err();
    assert_eq!(error.kind(), ErrorKind::Io);
    assert_eq!(error.message(), "disk full");
    assert!(repo.list_all().is_empty());
}

#[test]
fn failed_delete_after_a_move_follows_the_new_file() {
    let mut storage = MemoryStorage::holding(&[(
        "recipes/desserts/cake.cook",
        "---\ntitle: Cake\n---\n\nBake.",
    )]);
    storage.refuse_deletes = true;
    let mut repo = RecipeRepository::new(storage).unwrap();

    let error = repo
        .update("recipes/desserts/cake.cook", None, None, Some(Some("mains")))
        .unwrap_err();
    assert_eq!(error.kind(), ErrorKind::VersionControl);

    let paths: Vec<String> = repo.list_all().into_iter().map(|r| r.git_path).collect();
    assert_eq!(paths, vec!["recipes/mains/cake.cook".to_string()]);
    assert!(matches!(
        repo.delete("recipes/desserts/cake.cook"),
        Err(RepositoryError::NotFound(_))
    ));
    let error = repo.delete("recipes/mains/cake.cook").unwrap_err();
    assert!(matches!(
        error,
        RepositoryError::Storage(StorageError::VersionControl(_))
    ));
    assert_eq!(repo.list_all().len(), 1);
}

#[test]
fn unreadable_files_are_passed_over() {
    let mut storage =
        MemoryStorage::holding(&[("recipes/cake.cook", "---\ntitle: Cake\n---\n\nBake.")]);
    storage.refuse_reads = true;
    let repo = RecipeRepository::new(storage).unwrap();
    assert!(repo.list_all().is_empty());
}

#[test]
fn failed_discovery_fails_the_rebuilding() {
    let mut storage =
        MemoryStorage::holding(&[("recipes/cake.cook", "---\ntitle: Cake\n---\n\nBake.")]);
    storage.refuse_discovery = true;
    assert!(matches!(
        RecipeRepository::new(storage),
        Err(RepositoryError::Storage(StorageError::Io(_)))
    ));
}

#[test]
fn rebuild_passes_over_what_does_not_parse() {
    let storage = MemoryStorage::holding(&[
        (
            "recipes/broken.cook",
            "---\ntitle: [unclosed\n---\n\nAdd @flour{1/0}.",
        ),
        (
            "recipes/mains/pad-thai.cook",
            "---\ntitle: Pad Thai\n---\n\nFry the @noodles{200%g}.",
        ),
        ("recipes/readme.txt", "not a recipe"),
    ]);
    let repo = RecipeRepository::new(storage).unwrap();
    let all = repo.list_all();
    assert_eq!(all.len(), 1);
    assert_eq!(all[0].git_path, "recipes/mains/pad-thai.cook");
    assert_eq!(all[0].name, "Pad Thai");
    assert_eq!(all[0].category, Some("mains".to_string()));
    assert_eq!(all[0].file_name, "pad-thai.cook");
    assert_eq!(all[0].content, "");
}

#[test]
fn rebuild_names_an_untitled_file_after_its_path() {
    let storage = MemoryStorage::holding(&[(
        "recipes/soups/tom-yum.cook",
        "Boil the @water{1%l}.",
    )]);
    let mut repo = RecipeRepository::new(storage).unwrap();
    let all = repo.list_all();
    assert_eq!(all.len(), 1);
    assert_eq!(all[0].name, "Tom Yum");
    assert_eq!(all[0].category, Some("soups".to_string()));

    repo.create("x", &recipe_text("Ramen"), Some("soups")).unwrap();
    assert_eq!(repo.list_all().len(), 2);
    repo.rebuild_from_storage().unwrap();
    assert_eq!(repo.list_all().len(), 2);
    assert_eq!(repo.get_categories(), vec!["soups".to_string()]);
}

#[test]
fn record_for_a_file_shows_its_path() {
    let record = record_for(
        "recipes/a/b/green-curry.cook",
        "---\ntitle: Green Curry\n---\n\nSimmer the @coconut milk{400%ml}.",
    )
    .unwrap();
    assert_eq!(record.git_path, "recipes/a/b/green-curry.cook");
    assert_eq!(record.recipe_id, generate_recipe_id("recipes/a/b/green-curry.cook"));
    assert_eq!(record.name, "Green Curry");
    assert_eq!(record.category, Some("a/b".to_string()));
    assert_eq!(record.recipe.ingredients[0].name, "coconut milk");
    assert!(record_for("recipes/x.cook", "Add @flour{1/0}.").is_none());
}

#[test]
fn categories_come_sorted_and_once() {
    let mut repo = empty_store();
    for (title, category) in [
        ("A", Some("mains")),
        ("B", Some("desserts/cakes")),
        ("C", Some("desserts")),
        ("D", Some("mains")),
        ("E", None),
        ("F", Some("Zebra")),
        ("G", Some("émincé")),
    ] {
        repo.create("x", &recipe_text(title), category).unwrap();
    }
    assert_eq!(
        repo.get_categories(),
        vec![
            "Zebra".to_string(),
            "desserts".to_string(),
            "desserts/cakes".to_string(),
            "mains".to_string(),
            "émincé".to_string(),
        ]
    );
}

#[test]
fn search_ignores_case() {
    let mut repo = empty_store();
    repo.create("x", &recipe_text("Crème Brûlée"), None).unwrap();
    repo.create("x", &recipe_text("Ice Cream"), None).unwrap();
    assert_eq!(repo.search_by_name("CR").len(), 2);
    assert_eq!(repo.search_by_name("crème").len(), 1);
    assert_eq!(repo.search_by_name("").len(), 2);
    assert_eq!(repo.search_by_name("tofu").len(), 0);
}

// The backends' rules

#[test]
fn recipe_files_carry_the_extension() {
    assert!(is_recipe_file("recipes/cake.cook"));
    assert!(is_recipe_file("recipes/a/b/1.5.cook"));
    assert!(is_recipe_file("x.cook"));
    assert!(is_recipe_file("recipes/..cook"));
    assert!(!is_recipe_file("recipes/.cook"));
    assert!(!is_recipe_file(".cook"));
    assert!(!is_recipe_file("recipes/cake.cook/readme.txt"));
    assert!(!is_recipe_file("recipes/cake.COOK"));
    assert!(!is_recipe_file("recipes/cook"));
    assert!(!is_recipe_file("recipes/cake.cook "));
    assert!(!is_recipe_file(""));
}

#[test]
fn only_git_names_the_versioned_backend() {
    assert_eq!(storage_kind("git"), StorageKind::Git);
    assert_eq!(storage_kind("disk"), StorageKind::Disk);
    assert_eq!(storage_kind("Git"), StorageKind::Disk);
    assert_eq!(storage_kind(""), StorageKind::Disk);
    assert_eq!(storage_kind("unknown"), StorageKind::Disk);
}

#[test]
fn commits_are_worded_and_signed() {
    assert_eq!(
        write_commit_message("recipes/a/cake.cook"),
        "Update recipe: recipes/a/cake.cook"
    );
    assert_eq!(
        delete_commit_message("recipes/a/cake.cook"),
        "Delete recipe: recipes/a/cake.cook"
    );
    assert_eq!(default_author(), "CookLang Backend");
    assert_eq!(author_email(), "backend@cooklang.local");
    assert_eq!(author_name(Some("Alice")), "Alice");
    assert_eq!(author_name(None), "CookLang Backend");
}
