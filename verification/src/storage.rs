//! Where the recipes' files live.
//!
//! The store does not touch files itself. It asks a backend, which keeps them
//! on disk, with or without a history of versions. This module states what
//! the store expects of a backend, and the few rules of the backends that are
//! not input or output: which backend a configuration names, and how the
//! versioned backend words and signs its commits.

use crate::parser::filename::{extension, extension_chars};
use crate::repository::paths::{filename_chars, filename_of, has_extension};
use crate::text::{chars_of, ends_with, same};
use vstd::prelude::*;

verus! {

/// Why a backend could not do what it was asked.
#[derive(Debug, Clone)]
pub enum StorageError {
    /// A file could not be read, written or removed.
    Io(String),
    /// The repository of versions could not be opened or committed to.
    VersionControl(String),
}

/// The mathematical content of a `StorageError`.
pub enum StorageErrorView {
    Io(Seq<char>),
    VersionControl(Seq<char>),
}

impl View for StorageError {
    type V = StorageErrorView;

    open spec fn view(&self) -> StorageErrorView {
        match self {
            StorageError::Io(m) => StorageErrorView::Io(m@),
            StorageError::VersionControl(m) => StorageErrorView::VersionControl(m@),
        }
    }
}

impl StorageError {
    /// The error in words.
    pub fn message(&self) -> (r: String)
        ensures
            r@ == match self@ {
                StorageErrorView::Io(m) => m,
                StorageErrorView::VersionControl(m) => m,
            },
    {
        match self {
            StorageError::Io(m) => m.clone(),
            StorageError::VersionControl(m) => m.clone(),
        }
    }
}

/// A backend that keeps the recipes' files, each under its path relative to
/// the backend's root.
///
/// The store tells a backend what to write and remove, and takes what it
/// reads on trust: nothing here says what a backend returns. What both
/// backends owe the store is said with each operation.
pub trait RecipeStorage {
    /// Writes a file, with the directories above it where they are missing,
    /// in place of any file at that path.
    fn write_file(&mut self, rel_path: &str, content: &str) -> Result<(), StorageError>;

    /// Reads a file. Fails where there is none, or where it is no text.
    fn read_file(&self, rel_path: &str) -> Result<String, StorageError>;

    /// Removes a file. Succeeds where there is none.
    fn delete_file(&mut self, rel_path: &str) -> Result<(), StorageError>;

    /// Finds every file under the root that `is_recipe_file` takes, in any
    /// order.
    fn discover_files(&self) -> Result<Vec<String>, StorageError>;
}

/// Whether a path names a recipe's file: its file name ends with the
/// extension, and something stands before the extension.
pub open spec fn names_recipe(rel_path: Seq<char>) -> bool {
    has_extension(filename_of(rel_path)) && filename_of(rel_path).len() > extension().len()
}

/// Tests whether a path names a recipe's file. A backend finds the files
/// that do.
pub fn is_recipe_file(rel_path: &str) -> (r: bool)
    ensures
        r == names_recipe(rel_path@),
{
    let chars = chars_of(rel_path);
    let name = filename_chars(&chars);
    let ext = extension_chars();
    ends_with(&name, &ext) && name.len() > ext.len()
}

/// The kinds of backend.
#[derive(Debug, Clone, Copy, PartialEq, Eq, Structural)]
pub enum StorageKind {
    /// Files on disk, without history.
    Disk,
    /// Files on disk in a git repository: every write and delete is a commit.
    Git,
}

/// The name that selects the versioned backend.
pub open spec fn git_name() -> Seq<char> {
    seq!['g', 'i', 't']
}

/// The kind of backend that a configuration names: `git` is the versioned
/// backend, anything else the plain one.
pub fn storage_kind(storage_type: &str) -> (r: StorageKind)
    ensures
        r == if storage_type@ == git_name() {
            StorageKind::Git
        } else {
            StorageKind::Disk
        },
{
    let given = chars_of(storage_type);
    let git = vec!['g', 'i', 't'];
    assert(git@ =~= git_name());
    if same(&given, &git) {
        StorageKind::Git
    } else {
        StorageKind::Disk
    }
}

/// The name under which the versioned backend commits where the caller gives
/// none.
pub fn default_author() -> (r: String)
    ensures
        r@ == "CookLang Backend"@,
{
    String::from_str("CookLang Backend")
}

/// The address under which the versioned backend commits.
pub fn author_email() -> (r: String)
    ensures
        r@ == "backend@cooklang.local"@,
{
    String::from_str("backend@cooklang.local")
}

/// The name under which a change is committed: the caller's, or the default.
pub fn author_name(author: Option<&str>) -> (r: String)
    ensures
        r@ == match author {
            Some(name) => name@,
            None => "CookLang Backend"@,
        },
{
    match author {
        Some(name) => String::from_str(name),
        None => default_author(),
    }
}

/// The message of the commit that records a written file.
pub fn write_commit_message(rel_path: &str) -> (r: String)
    ensures
        r@ == "Update recipe: "@ + rel_path@,
{
    let mut message = String::from_str("Update recipe: ");
    message.append(rel_path);
    message
}

/// The message of the commit that records a removed file.
pub fn delete_commit_message(rel_path: &str) -> (r: String)
    ensures
        r@ == "Delete recipe: "@ + rel_path@,
{
    let mut message = String::from_str("Delete recipe: ");
    message.append(rel_path);
    message
}

} // verus!
