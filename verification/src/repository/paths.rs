//! The paths under which recipes are stored.
//!
//! A recipe lies at `recipes/{category}/{file name}`, or at
//! `recipes/{file name}` where it has no category. The category may itself
//! hold slashes: every directory between the root and the file belongs to it.

use crate::parser::filename::{extension, extension_chars};
use crate::text::{
    append, chars_of, ends_with, occurs_at, slice_of, starts_with, string_of, whitespace,
};
use vstd::prelude::*;

verus! {

/// The directory that holds every recipe, with the slash that ends it.
pub open spec fn root() -> Seq<char> {
    seq!['r', 'e', 'c', 'i', 'p', 'e', 's', '/']
}

/// The root as characters.
fn root_chars() -> (r: Vec<char>)
    ensures
        r@ == root(),
{
    let r = vec!['r', 'e', 'c', 'i', 'p', 'e', 's', '/'];
    assert(r@ =~= root());
    r
}

/// The position of the last slash of a path, or -1 where it has none.
pub open spec fn last_slash(path: Seq<char>) -> int
    decreases path.len(),
{
    if path.len() == 0 {
        -1
    } else if path.last() == '/' {
        path.len() - 1
    } else {
        last_slash(path.drop_last())
    }
}

/// The last slash is a slash, and no slash follows it.
pub proof fn lemma_last_slash(path: Seq<char>)
    ensures
        -1 <= last_slash(path) < path.len(),
        last_slash(path) >= 0 ==> path[last_slash(path)] == '/',
        forall|i: int| last_slash(path) < i < path.len() ==> path[i] != '/',
    decreases path.len(),
{
    if path.len() > 0 && path.last() != '/' {
        let rest = path.drop_last();
        lemma_last_slash(rest);
        assert forall|i: int| last_slash(path) < i < path.len() implies path[i] != '/' by {
            if i < rest.len() {
                assert(rest[i] == path[i]);
            }
        }
    }
}

/// A position is the last slash if a slash stands there and none after it.
pub proof fn lemma_last_slash_is(path: Seq<char>, k: int)
    requires
        -1 <= k < path.len(),
        k >= 0 ==> path[k] == '/',
        forall|i: int| k < i < path.len() ==> path[i] != '/',
    ensures
        last_slash(path) == k,
    decreases path.len(),
{
    if path.len() > 0 && k < path.len() - 1 {
        lemma_last_slash_is(path.drop_last(), k);
    }
}

/// The file name of a path: what follows its last slash, or all of it where
/// it has none.
pub open spec fn filename_of(path: Seq<char>) -> Seq<char> {
    path.skip(last_slash(path) + 1)
}

/// The category of a path: what stands between the root and the last slash.
/// A path outside the root has none, nor has a file directly under the root.
pub open spec fn category_of(path: Seq<char>) -> Option<Seq<char>> {
    if occurs_at(path, root(), 0) && last_slash(path) >= root().len() {
        Some(path.subrange(root().len() as int, last_slash(path)))
    } else {
        None
    }
}

/// The path of a file in a category.
pub open spec fn document_path(category: Option<Seq<char>>, filename: Seq<char>) -> Seq<char> {
    match category {
        Some(c) => root() + c + seq!['/'] + filename,
        None => root() + filename,
    }
}

/// Finds the last slash of a path.
fn find_last_slash(path: &Vec<char>) -> (r: Option<usize>)
    ensures
        match r {
            Some(k) => last_slash(path@) == k && k < path@.len(),
            None => last_slash(path@) == -1,
        },
{
    let mut i: usize = path.len();
    while i > 0
        invariant
            i <= path.len(),
            forall|j: int| i <= j < path.len() ==> path@[j] != '/',
        decreases i,
    {
        if path[i - 1] == '/' {
            proof {
                lemma_last_slash_is(path@, i - 1);
            }
            return Some(i - 1);
        }
        i -= 1;
    }
    proof {
        lemma_last_slash_is(path@, -1);
    }
    None
}

/// The file name of a path, as characters.
pub fn filename_chars(path: &Vec<char>) -> (r: Vec<char>)
    ensures
        r@ == filename_of(path@),
{
    let n = path.len();
    match find_last_slash(path) {
        Some(k) => slice_of(path, k + 1, n),
        None => slice_of(path, 0, n),
    }
}

/// The file name of a path.
pub fn extract_filename_from_path(git_path: &str) -> (r: String)
    ensures
        r@ == filename_of(git_path@),
{
    let chars = chars_of(git_path);
    string_of(&filename_chars(&chars))
}

/// The category of a path.
pub fn extract_category_from_path(git_path: &str) -> (r: Option<String>)
    ensures
        match r {
            Some(c) => category_of(git_path@) == Some(c@),
            None => category_of(git_path@) is None,
        },
{
    let chars = chars_of(git_path);
    let root = root_chars();
    if !starts_with(&chars, &root) {
        return None;
    }
    match find_last_slash(&chars) {
        Some(k) => {
            if k >= root.len() {
                Some(string_of(&slice_of(&chars, root.len(), k)))
            } else {
                None
            }
        },
        None => None,
    }
}

/// Composes the path of a file in a category.
pub fn compose_path(category: Option<&Vec<char>>, filename: &Vec<char>) -> (r: Vec<char>)
    ensures
        r@ == document_path(
            match category {
                Some(c) => Some(c@),
                None => None,
            },
            filename@,
        ),
{
    let mut path = root_chars();
    match category {
        Some(c) => {
            append(&mut path, c);
            path.push('/');
            append(&mut path, filename);
            assert(path@ =~= root() + c@ + seq!['/'] + filename@);
        },
        None => {
            append(&mut path, filename);
        },
    }
    path
}

/// Whether a file name ends with the extension.
pub open spec fn has_extension(filename: Seq<char>) -> bool {
    filename.len() >= extension().len() && occurs_at(
        filename,
        extension(),
        filename.len() - extension().len(),
    )
}

/// A file name without the extension, where it has it.
pub open spec fn stem_of(filename: Seq<char>) -> Seq<char> {
    if has_extension(filename) {
        filename.take(filename.len() - extension().len())
    } else {
        filename
    }
}

/// A file name without the extension, where it has it.
pub fn stem_chars(filename: &Vec<char>) -> (r: Vec<char>)
    ensures
        r@ == stem_of(filename@),
{
    let ext = extension_chars();
    if ends_with(filename, &ext) {
        slice_of(filename, 0, filename.len() - ext.len())
    } else {
        slice_of(filename, 0, filename.len())
    }
}

/// Whether a character separates the words of a file name: a hyphen, or
/// white space.
pub open spec fn separates(c: char) -> bool {
    c == '-' || whitespace(c)
}

/// The upper-case form of a character, as `char::to_uppercase` gives it.
pub uninterp spec fn uppercase(c: char) -> Seq<char>;

/// `char::to_uppercase`, collected: the upper-case form of the character,
/// which depends on the character alone and is one character or more.
#[verifier::external_body]
fn uppercase_chars(c: char) -> (r: Vec<char>)
    ensures
        r@ == uppercase(c),
        r@.len() >= 1,
{
    c.to_uppercase().collect()
}

/// The words of a stem, each with its first character in upper case, one
/// space between them.
pub open spec fn words_capitalized(stem: Seq<char>) -> Seq<char>
    decreases stem.len(),
{
    if stem.len() == 0 {
        stem
    } else {
        let before = words_capitalized(stem.drop_last());
        let c = stem.last();
        if separates(c) {
            before
        } else if stem.len() >= 2 && !separates(stem[stem.len() - 2]) {
            before.push(c)
        } else if before.len() == 0 {
            uppercase(c)
        } else {
            before.push(' ') + uppercase(c)
        }
    }
}

/// The name that a path stands for where the file itself gives none: the
/// words of the file name, without the extension, capitalized. A file name
/// without the extension stands for no name.
pub open spec fn name_of_path(path: Seq<char>) -> Seq<char> {
    let filename = filename_of(path);
    if has_extension(filename) {
        words_capitalized(stem_of(filename))
    } else {
        Seq::empty()
    }
}

/// Derives a name from a path.
pub fn path_to_name(git_path: &str) -> (r: String)
    ensures
        r@ == name_of_path(git_path@),
{
    let chars = chars_of(git_path);
    let filename = filename_chars(&chars);
    let ext = extension_chars();
    if !ends_with(&filename, &ext) {
        return String::new();
    }
    let stem = slice_of(&filename, 0, filename.len() - ext.len());
    let mut out: Vec<char> = Vec::new();
    let mut in_word = false;
    let mut i: usize = 0;
    while i < stem.len()
        invariant
            i <= stem.len(),
            out@ == words_capitalized(stem@.take(i as int)),
            in_word == (i > 0 && !separates(stem@[i - 1])),
        decreases stem.len() - i,
    {
        let c = stem[i];
        proof {
            let t = stem@.take(i + 1);
            assert(t.drop_last() =~= stem@.take(i as int));
            assert(t.last() == c);
            if i > 0 {
                assert(t[t.len() - 2] == stem@[i - 1]);
            }
        }
        let gap = c == '-' || c.is_whitespace();
        if !gap {
            if in_word {
                out.push(c);
            } else {
                if out.len() > 0 {
                    out.push(' ');
                }
                append(&mut out, &uppercase_chars(c));
            }
        }
        in_word = !gap;
        i += 1;
    }
    assert(stem@.take(stem@.len() as int) =~= stem@);
    string_of(&out)
}

} // verus!
