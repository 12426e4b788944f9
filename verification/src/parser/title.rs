//! The title of a recipe, read from the front matter of its text.
//!
//! A recipe's text begins with a block of YAML between two `---` markers.
//! The YAML itself is read by `serde_yaml`; what this module adds is where
//! the block lies and which of its entries is the title.

use crate::text::{
    chars_of, find, lowercase, occurs_at, position, same, slice_of, starts_with, string_of, trim,
    trimmed, CharClass,
};
use vstd::prelude::*;

verus! {

/// One entry of a YAML mapping, as far as the title lookup reads it.
#[derive(Debug, Clone)]
pub struct FrontMatterEntry {
    /// The key, where it is a string.
    pub key: Option<String>,
    /// The value, where it is a string.
    pub value: Option<String>,
}

/// A block of YAML, as far as the title lookup reads it.
#[derive(Debug, Clone)]
pub enum FrontMatter {
    /// The text is no YAML; the parser's complaint.
    Invalid(String),
    /// The text is YAML, but no mapping.
    NotMapping,
    /// A mapping, with its entries in the mapping's own order.
    Mapping(Vec<FrontMatterEntry>),
}

/// The mathematical content of a `FrontMatterEntry`.
pub struct EntryView {
    pub key: Option<Seq<char>>,
    pub value: Option<Seq<char>>,
}

/// The mathematical content of a `FrontMatter`.
pub enum FrontMatterView {
    Invalid(Seq<char>),
    NotMapping,
    Mapping(Seq<EntryView>),
}

/// The characters of a text that may be missing.
pub open spec fn text_view(s: Option<String>) -> Option<Seq<char>> {
    match s {
        Some(t) => Some(t@),
        None => None,
    }
}

impl View for FrontMatterEntry {
    type V = EntryView;

    open spec fn view(&self) -> EntryView {
        EntryView { key: text_view(self.key), value: text_view(self.value) }
    }
}

impl View for FrontMatter {
    type V = FrontMatterView;

    open spec fn view(&self) -> FrontMatterView {
        match self {
            FrontMatter::Invalid(e) => FrontMatterView::Invalid(e@),
            FrontMatter::NotMapping => FrontMatterView::NotMapping,
            FrontMatter::Mapping(entries) => FrontMatterView::Mapping(
                Seq::new(entries@.len(), |i: int| entries@[i]@),
            ),
        }
    }
}

/// What `serde_yaml` makes of a text, as far as the title lookup reads it.
pub uninterp spec fn yaml_front_matter(text: Seq<char>) -> FrontMatterView;

/// `serde_yaml::from_str` into a `serde_yaml::Value`, then `Value::as_mapping`
/// and, on every key and value that `Mapping::iter` yields, `Value::as_str`.
///
/// What is claimed is that the result depends on the text alone. Where the
/// text is no YAML, it holds the parser's error as text; where the document
/// is a mapping, it holds the entries in the order in which the mapping
/// yields them.
#[verifier::external_body]
pub(crate) fn read_front_matter(text: &str) -> (r: FrontMatter)
    ensures
        r@ == yaml_front_matter(text@),
{
    match serde_yaml::from_str::<serde_yaml::Value>(text) {
        Err(e) => FrontMatter::Invalid(e.to_string()),
        Ok(document) => match document.as_mapping() {
            None => FrontMatter::NotMapping,
            Some(mapping) => FrontMatter::Mapping(
                mapping.iter().map(|(key, value)| FrontMatterEntry {
                    key: key.as_str().map(str::to_string),
                    value: value.as_str().map(str::to_string),
                }).collect(),
            ),
        },
    }
}

/// Why a text yields no title.
#[derive(Debug, Clone)]
pub enum TitleError {
    /// The text is empty, or white space only.
    ContentEmpty,
    /// The text does not begin with `---`.
    MissingFrontMatter,
    /// No second `---` ends the front matter.
    MissingClosingDelimiter,
    /// The front matter is no YAML; the parser's complaint.
    InvalidYaml(String),
    /// The front matter is YAML, but no mapping.
    NotAMapping,
    /// The front matter has no `title` entry.
    TitleNotFound,
    /// The `title` entry holds something other than a string.
    TitleNotString,
    /// The title is empty, or white space only.
    TitleEmpty,
}

/// The mathematical content of a `TitleError`.
pub enum TitleErrorView {
    ContentEmpty,
    MissingFrontMatter,
    MissingClosingDelimiter,
    InvalidYaml(Seq<char>),
    NotAMapping,
    TitleNotFound,
    TitleNotString,
    TitleEmpty,
}

impl View for TitleError {
    type V = TitleErrorView;

    open spec fn view(&self) -> TitleErrorView {
        match self {
            TitleError::ContentEmpty => TitleErrorView::ContentEmpty,
            TitleError::MissingFrontMatter => TitleErrorView::MissingFrontMatter,
            TitleError::MissingClosingDelimiter => TitleErrorView::MissingClosingDelimiter,
            TitleError::InvalidYaml(e) => TitleErrorView::InvalidYaml(e@),
            TitleError::NotAMapping => TitleErrorView::NotAMapping,
            TitleError::TitleNotFound => TitleErrorView::TitleNotFound,
            TitleError::TitleNotString => TitleErrorView::TitleNotString,
            TitleError::TitleEmpty => TitleErrorView::TitleEmpty,
        }
    }
}

impl TitleErrorView {
    /// The error in words.
    pub open spec fn text(self) -> Seq<char> {
        match self {
            TitleErrorView::ContentEmpty => "Content is empty"@,
            TitleErrorView::MissingFrontMatter =>
                "Missing YAML front matter: content must start with ---"@,
            TitleErrorView::MissingClosingDelimiter =>
                "Malformed YAML front matter: missing closing --- delimiter"@,
            TitleErrorView::InvalidYaml(e) => "Invalid YAML front matter: "@ + e,
            TitleErrorView::NotAMapping => "YAML front matter must be a mapping"@,
            TitleErrorView::TitleNotFound =>
                "Title field not found in YAML front matter. Expected format: title: Recipe Name"@,
            TitleErrorView::TitleNotString => "Title field must be a string"@,
            TitleErrorView::TitleEmpty => "Title field is empty in YAML front matter"@,
        }
    }
}

impl TitleError {
    /// The error in words.
    pub fn message(&self) -> (r: String)
        ensures
            r@ == self@.text(),
    {
        match self {
            TitleError::ContentEmpty => String::from_str("Content is empty"),
            TitleError::MissingFrontMatter => String::from_str(
                "Missing YAML front matter: content must start with ---",
            ),
            TitleError::MissingClosingDelimiter => String::from_str(
                "Malformed YAML front matter: missing closing --- delimiter",
            ),
            TitleError::InvalidYaml(e) => {
                let mut s = String::from_str("Invalid YAML front matter: ");
                s.append(e.as_str());
                s
            },
            TitleError::NotAMapping => String::from_str("YAML front matter must be a mapping"),
            TitleError::TitleNotFound => String::from_str(
                "Title field not found in YAML front matter. Expected format: title: Recipe Name",
            ),
            TitleError::TitleNotString => String::from_str("Title field must be a string"),
            TitleError::TitleEmpty => String::from_str("Title field is empty in YAML front matter"),
        }
    }
}

/// The marker that opens and closes the front matter.
pub open spec fn delimiter() -> Seq<char> {
    seq!['-', '-', '-']
}

/// The key under which the front matter holds the title, in lower case.
pub open spec fn title_key() -> Seq<char> {
    seq!['t', 'i', 't', 'l', 'e']
}

/// Whether an entry is a title entry: its key is a string that reads
/// `title` in lower case.
pub open spec fn is_title_entry(entry: EntryView) -> bool {
    match entry.key {
        Some(k) => lowercase(k) == title_key(),
        None => false,
    }
}

/// The first title entry among `entries`, from position `i` on.
pub open spec fn title_entry_from(entries: Seq<EntryView>, i: int) -> Option<EntryView>
    decreases entries.len() - i,
{
    if i < 0 || i >= entries.len() {
        None
    } else if is_title_entry(entries[i]) {
        Some(entries[i])
    } else {
        title_entry_from(entries, i + 1)
    }
}

/// The title that a block of YAML holds: the value of its first title entry,
/// without the white space around it. Where it holds none, the reason.
pub open spec fn title_in(doc: FrontMatterView) -> Result<Seq<char>, TitleErrorView> {
    match doc {
        FrontMatterView::Invalid(e) => Err(TitleErrorView::InvalidYaml(e)),
        FrontMatterView::NotMapping => Err(TitleErrorView::NotAMapping),
        FrontMatterView::Mapping(entries) => match title_entry_from(entries, 0) {
            None => Err(TitleErrorView::TitleNotFound),
            Some(entry) => match entry.value {
                None => Err(TitleErrorView::TitleNotString),
                Some(v) => {
                    let title = trimmed(v, CharClass::Whitespace);
                    if title.len() == 0 {
                        Err(TitleErrorView::TitleEmpty)
                    } else {
                        Ok(title)
                    }
                },
            },
        },
    }
}

/// Where the front matter of a text lies: the text, without the white space
/// around it, must begin with the marker; the front matter is what stands
/// between that marker and the next one, without the white space around it.
pub open spec fn front_matter_of(content: Seq<char>) -> Result<Seq<char>, TitleErrorView> {
    let body = trimmed(content, CharClass::Whitespace);
    if body.len() == 0 {
        Err(TitleErrorView::ContentEmpty)
    } else if !occurs_at(body, delimiter(), 0) {
        Err(TitleErrorView::MissingFrontMatter)
    } else {
        let rest = body.skip(3);
        match position(rest, delimiter()) {
            None => Err(TitleErrorView::MissingClosingDelimiter),
            Some(end) => Ok(trimmed(rest.take(end), CharClass::Whitespace)),
        }
    }
}

/// The title of a recipe's text, or the reason why it has none.
pub open spec fn title_of(content: Seq<char>) -> Result<Seq<char>, TitleErrorView> {
    match front_matter_of(content) {
        Err(e) => Err(e),
        Ok(block) => title_in(yaml_front_matter(block)),
    }
}

/// The mathematical content of an extracted title or of the failure to
/// extract one.
pub open spec fn title_result_view(r: Result<String, TitleError>) -> Result<
    Seq<char>,
    TitleErrorView,
> {
    match r {
        Ok(t) => Ok(t@),
        Err(e) => Err(e@),
    }
}

/// The marker as characters.
fn delimiter_chars() -> (r: Vec<char>)
    ensures
        r@ == delimiter(),
{
    let r = vec!['-', '-', '-'];
    assert(r@ =~= delimiter());
    r
}

/// Tests whether a key reads `title` in lower case.
fn is_title_key(key: &str) -> (r: bool)
    ensures
        r == (lowercase(key@) == title_key()),
{
    let lowered = key.to_lowercase();
    let chars = chars_of(lowered.as_str());
    let wanted = vec!['t', 'i', 't', 'l', 'e'];
    assert(wanted@ =~= title_key());
    same(&chars, &wanted)
}

/// Picks the title out of a block of YAML that has been read.
pub fn title_from_front_matter(doc: &FrontMatter) -> (r: Result<String, TitleError>)
    ensures
        title_result_view(r) == title_in(doc@),
{
    match doc {
        FrontMatter::Invalid(e) => Err(TitleError::InvalidYaml(e.clone())),
        FrontMatter::NotMapping => Err(TitleError::NotAMapping),
        FrontMatter::Mapping(entries) => {
            let ghost views = Seq::new(entries@.len(), |i: int| entries@[i]@);
            let mut i: usize = 0;
            while i < entries.len()
                invariant
                    i <= entries.len(),
                    views == Seq::new(entries@.len(), |i: int| entries@[i]@),
                    doc@ == FrontMatterView::Mapping(views),
                    title_entry_from(views, 0) == title_entry_from(views, i as int),
                decreases entries.len() - i,
            {
                let entry = &entries[i];
                let found = match &entry.key {
                    Some(k) => is_title_key(k.as_str()),
                    None => false,
                };
                assert(found == is_title_entry(views[i as int]));
                if found {
                    match &entry.value {
                        None => {
                            return Err(TitleError::TitleNotString);
                        },
                        Some(v) => {
                            let chars = chars_of(v.as_str());
                            let title = trim(&chars, CharClass::Whitespace);
                            if title.len() == 0 {
                                return Err(TitleError::TitleEmpty);
                            }
                            return Ok(string_of(&title));
                        },
                    }
                }
                i += 1;
            }
            Err(TitleError::TitleNotFound)
        },
    }
}

/// Extracts the title of a recipe from the front matter of its text.
pub fn extract_recipe_title(content: &str) -> (r: Result<String, TitleError>)
    ensures
        title_result_view(r) == title_of(content@),
{
    let chars = chars_of(content);
    let body = trim(&chars, CharClass::Whitespace);
    if body.len() == 0 {
        return Err(TitleError::ContentEmpty);
    }
    let marker = delimiter_chars();
    if !starts_with(&body, &marker) {
        return Err(TitleError::MissingFrontMatter);
    }
    let rest = slice_of(&body, 3, body.len());
    match find(&rest, &marker) {
        None => Err(TitleError::MissingClosingDelimiter),
        Some(end) => {
            let between = slice_of(&rest, 0, end);
            let block = trim(&between, CharClass::Whitespace);
            let doc = read_front_matter(string_of(&block).as_str());
            title_from_front_matter(&doc)
        },
    }
}

} // verus!
