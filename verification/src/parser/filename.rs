//! File names derived from titles, and the checks on paths that callers
//! hand in.

use crate::text::{
    alphanumeric, append, chars_of, lemma_trimmed_parts, lemma_trimmed_prepend,
    lemma_trimmed_push, lowercase, same, string_of, trim, trimmed, whitespace, CharClass,
};
use vstd::prelude::*;

verus! {

/// The extension that every stored document carries.
pub open spec fn extension() -> Seq<char> {
    seq!['.', 'c', 'o', 'o', 'k']
}

/// The extension as characters.
pub fn extension_chars() -> (r: Vec<char>)
    ensures
        r@ == extension(),
{
    let r = vec!['.', 'c', 'o', 'o', 'k'];
    assert(r@ =~= extension());
    r
}

/// What a character of a title becomes in a file name: letters, digits,
/// hyphens and dots stay, everything else turns into a hyphen.
pub open spec fn slug_char(c: char) -> char {
    if alphanumeric(c) || c == '-' || c == '.' {
        c
    } else {
        '-'
    }
}

/// `s` with every character replaced by its `slug_char`.
pub open spec fn hyphenated(s: Seq<char>) -> Seq<char> {
    Seq::new(s.len(), |i: int| slug_char(s[i]))
}

/// `s` without the hyphens that directly follow a hyphen, so that every run
/// of hyphens shrinks to one.
pub open spec fn squeezed(s: Seq<char>) -> Seq<char>
    decreases s.len(),
{
    if s.len() == 0 {
        s
    } else if s.len() >= 2 && s.last() == '-' && s[s.len() - 2] == '-' {
        squeezed(s.drop_last())
    } else {
        squeezed(s.drop_last()).push(s.last())
    }
}

/// The slug of a text that is already in lower case.
pub open spec fn slug_of_lowered(lowered: Seq<char>) -> Seq<char> {
    trimmed(squeezed(hyphenated(lowered)), CharClass::Only('-'))
}

/// The slug of a title: its lower-case form with every run of characters
/// other than letters, digits, hyphens and dots turned into one hyphen, and
/// without hyphens at either end.
pub open spec fn slug(title: Seq<char>) -> Seq<char> {
    slug_of_lowered(lowercase(title))
}

/// The file name that belongs to a title: its slug and the extension.
pub open spec fn filename_for(title: Seq<char>) -> Seq<char> {
    slug(title) + extension()
}

/// Whether every character of a text turns into a hyphen in a slug.
pub open spec fn all_separators(s: Seq<char>) -> bool {
    forall|i: int| 0 <= i < s.len() ==> slug_char(#[trigger] s[i]) == '-'
}

/// A hyphen in front of a text is squeezed into the hyphen that follows it,
/// if one does.
proof fn lemma_squeezed_prepend(s: Seq<char>)
    ensures
        squeezed(seq!['-'] + s) == if s.len() > 0 && s[0] == '-' {
            squeezed(s)
        } else {
            seq!['-'] + squeezed(s)
        },
    decreases s.len(),
{
    let t = seq!['-'] + s;
    if s.len() == 0 {
        assert(t.drop_last() =~= Seq::<char>::empty());
        assert(squeezed(t.drop_last()) =~= Seq::<char>::empty());
        assert(t.last() == '-');
        assert(squeezed(t) =~= seq!['-']);
        assert(squeezed(s) =~= Seq::<char>::empty());
        assert(squeezed(t) =~= seq!['-'] + squeezed(s));
    } else {
        let y = s.drop_last();
        let c = s.last();
        assert(t.drop_last() =~= seq!['-'] + y);
        assert(t.last() == c);
        lemma_squeezed_prepend(y);
        if y.len() == 0 {
            assert(t[t.len() - 2] == '-');
            assert(squeezed(y) =~= Seq::<char>::empty());
            if c == '-' {
                assert(squeezed(t) =~= squeezed(s));
            } else {
                assert(squeezed(t) =~= seq!['-'] + squeezed(s));
            }
        } else {
            assert(t[t.len() - 2] == y.last());
            assert(s[s.len() - 2] == y.last());
            assert(s[0] == y[0]);
            if !(c == '-' && y.last() == '-') && s[0] != '-' {
                assert((seq!['-'] + squeezed(y)).push(c) =~= seq!['-'] + squeezed(y).push(c));
            }
        }
    }
}

/// A separator in front of a text does not change its slug.
proof fn lemma_slug_prepend(c: char, s: Seq<char>)
    requires
        slug_char(c) == '-',
    ensures
        slug_of_lowered(seq![c] + s) == slug_of_lowered(s),
{
    let h = hyphenated(s);
    assert(hyphenated(seq![c] + s) =~= seq!['-'] + h);
    lemma_squeezed_prepend(h);
    if !(h.len() > 0 && h[0] == '-') {
        lemma_trimmed_prepend('-', squeezed(h), CharClass::Only('-'));
    }
}

/// A separator at the end of a text does not change its slug.
proof fn lemma_slug_push(s: Seq<char>, c: char)
    requires
        slug_char(c) == '-',
    ensures
        slug_of_lowered(s.push(c)) == slug_of_lowered(s),
{
    let h = hyphenated(s);
    let t = h.push('-');
    assert(hyphenated(s.push(c)) =~= t);
    assert(t.drop_last() =~= h);
    if h.len() > 0 && h.last() == '-' {
        assert(t[t.len() - 2] == h.last());
    } else {
        if h.len() > 0 {
            assert(t[t.len() - 2] == h.last());
        }
        lemma_trimmed_push(squeezed(h), '-', CharClass::Only('-'));
    }
}

/// Separators around a text do not change its slug: what would turn into
/// hyphens at either end is as good as not there.
pub proof fn lemma_slug_ignores_padding(before: Seq<char>, s: Seq<char>, after: Seq<char>)
    requires
        all_separators(before),
        all_separators(after),
    ensures
        slug_of_lowered(before + s + after) == slug_of_lowered(s),
    decreases before.len() + after.len(),
{
    if after.len() > 0 {
        let shorter = after.drop_last();
        assert(before + s + after =~= (before + s + shorter).push(after.last()));
        lemma_slug_push(before + s + shorter, after.last());
        assert(all_separators(shorter)) by {
            assert forall|i: int| 0 <= i < shorter.len() implies slug_char(
                #[trigger] shorter[i],
            ) == '-' by {
                assert(shorter[i] == after[i]);
            }
        }
        lemma_slug_ignores_padding(before, s, shorter);
    } else if before.len() > 0 {
        let shorter = before.drop_first();
        assert(before + s + after =~= seq![before[0]] + (shorter + s + after));
        lemma_slug_prepend(before[0], shorter + s + after);
        assert(all_separators(shorter)) by {
            assert forall|i: int| 0 <= i < shorter.len() implies slug_char(
                #[trigger] shorter[i],
            ) == '-' by {
                assert(shorter[i] == before[i + 1]);
            }
        }
        lemma_slug_ignores_padding(shorter, s, after);
    } else {
        assert(before + s + after =~= s);
    }
}

/// White space around a text in lower case does not change its slug,
/// provided that white space is what it is taken to be: no letter, no
/// digit, no hyphen and no dot.
pub proof fn lemma_slug_ignores_surrounding_space(lowered: Seq<char>)
    requires
        forall|c: char| whitespace(c) ==> slug_char(c) == '-',
    ensures
        slug_of_lowered(trimmed(lowered, CharClass::Whitespace)) == slug_of_lowered(lowered),
{
    let class = CharClass::Whitespace;
    lemma_trimmed_parts(lowered, class);
    let a = crate::text::leading(lowered, class) as int;
    let rest = lowered.skip(a);
    let b = a + rest.len() - crate::text::trailing(rest, class);
    let before = lowered.take(a);
    let after = lowered.skip(b);
    assert(all_separators(before)) by {
        assert forall|i: int| 0 <= i < before.len() implies slug_char(#[trigger] before[i])
            == '-' by {
            assert(before[i] == lowered[i]);
        }
    }
    assert(all_separators(after)) by {
        assert forall|i: int| 0 <= i < after.len() implies slug_char(#[trigger] after[i])
            == '-' by {
            assert(after[i] == lowered[i + b]);
        }
    }
    lemma_slug_ignores_padding(before, trimmed(lowered, class), after);
}

/// Titles with the same lower-case form get the same file name: the case of
/// a title's letters does not bear on it.
pub proof fn lemma_filename_ignores_case(a: Seq<char>, b: Seq<char>)
    requires
        lowercase(a) == lowercase(b),
    ensures
        filename_for(a) == filename_for(b),
{
}

/// The file name of a title stays the same when the title is put in lower
/// case or loses the white space around it, for every title on which the
/// case mapping is what it is taken to be: putting a text in lower case
/// twice is the same as doing it once, and trimming before is the same as
/// trimming after. White space is taken to be no letter, no digit, no
/// hyphen and no dot.
pub proof fn lemma_filename_is_stable(title: Seq<char>)
    requires
        lowercase(lowercase(title)) == lowercase(title),
        lowercase(trimmed(title, CharClass::Whitespace)) == trimmed(
            lowercase(title),
            CharClass::Whitespace,
        ),
        forall|c: char| whitespace(c) ==> slug_char(c) == '-',
    ensures
        filename_for(lowercase(title)) == filename_for(title),
        filename_for(trimmed(title, CharClass::Whitespace)) == filename_for(title),
{
    lemma_slug_ignores_surrounding_space(lowercase(title));
}

/// Computes the slug of a text that is already in lower case.
pub fn slug_chars(lowered: &Vec<char>) -> (r: Vec<char>)
    ensures
        r@ == slug_of_lowered(lowered@),
{
    let ghost h = hyphenated(lowered@);
    let n = lowered.len();
    let mut out: Vec<char> = Vec::new();
    let mut after_hyphen = false;
    let mut i: usize = 0;
    while i < n
        invariant
            i <= n,
            n == lowered.len(),
            h == hyphenated(lowered@),
            out@ == squeezed(h.take(i as int)),
            after_hyphen == (i > 0 && h[i - 1] == '-'),
        decreases n - i,
    {
        let c = lowered[i];
        let m = if c.is_alphanumeric() || c == '-' || c == '.' {
            c
        } else {
            '-'
        };
        proof {
            let t = h.take(i + 1);
            assert(t.drop_last() =~= h.take(i as int));
            assert(t.last() == m);
            if i > 0 {
                assert(t[t.len() - 2] == h[i - 1]);
            }
        }
        if !(m == '-' && after_hyphen) {
            out.push(m);
        }
        after_hyphen = m == '-';
        i += 1;
    }
    assert(h.take(n as int) =~= h);
    trim(&out, CharClass::Only('-'))
}

/// Derives the file name of a document from its title.
pub fn generate_filename(title: &str) -> (r: String)
    ensures
        r@ == filename_for(title@),
{
    let lowered = title.to_lowercase();
    let chars = chars_of(lowered.as_str());
    let mut name = slug_chars(&chars);
    let ext = extension_chars();
    append(&mut name, &ext);
    string_of(&name)
}

/// Whether a stored file has to be renamed to fit a new title: it has,
/// unless it already carries the file name that belongs to the title.
pub fn should_rename_file(old_filename: &str, new_title: &str) -> (r: bool)
    ensures
        r == (filename_for(new_title@) != old_filename@),
{
    let generated = generate_filename(new_title);
    let old = chars_of(old_filename);
    let new = chars_of(generated.as_str());
    !same(&new, &old)
}

/// Why a path was not accepted.
#[derive(Clone, Copy, Debug, PartialEq, Eq, Structural)]
pub enum PathError {
    /// Nothing is left of the path once the slashes at its ends are gone.
    Empty,
    /// The path holds this character, which no path may hold.
    InvalidCharacter(char),
}

impl PathError {
    /// The error in words.
    pub open spec fn text(self) -> Seq<char> {
        match self {
            PathError::Empty => "Path is empty after normalization"@,
            PathError::InvalidCharacter(c) => "Path contains invalid character '"@.push(c)
                + "'. Allowed: alphanumeric, hyphens, underscores, dots, slashes"@,
        }
    }

    /// The error in words.
    pub fn message(&self) -> (r: String)
        ensures
            r@ == self.text(),
    {
        match self {
            PathError::Empty => String::from_str("Path is empty after normalization"),
            PathError::InvalidCharacter(c) => {
                let mut s = String::from_str("Path contains invalid character '");
                s.push(*c);
                s.append("'. Allowed: alphanumeric, hyphens, underscores, dots, slashes");
                s
            },
        }
    }
}

/// Whether a path may hold the character: letters, digits, hyphens,
/// underscores, dots and slashes.
pub open spec fn path_char(c: char) -> bool {
    alphanumeric(c) || c == '-' || c == '_' || c == '.' || c == '/'
}

/// The first character of `s`, from position `i` on, that no path may hold.
pub open spec fn first_foreign(s: Seq<char>, i: int) -> Option<char>
    decreases s.len() - i,
{
    if i < 0 || i >= s.len() {
        None
    } else if !path_char(s[i]) {
        Some(s[i])
    } else {
        first_foreign(s, i + 1)
    }
}

/// A path in normal form: without slashes at its ends, not empty, and made
/// of path characters only. Where it has no normal form, the reason.
pub open spec fn normalized(path: Seq<char>) -> Result<Seq<char>, PathError> {
    let inner = trimmed(path, CharClass::Only('/'));
    if inner.len() == 0 {
        Err(PathError::Empty)
    } else {
        match first_foreign(inner, 0) {
            Some(c) => Err(PathError::InvalidCharacter(c)),
            None => Ok(inner),
        }
    }
}

/// Brings a path into normal form, or says why it has none.
pub fn normalize_path(path: &str) -> (r: Result<String, PathError>)
    ensures
        match r {
            Ok(p) => normalized(path@) == Ok::<Seq<char>, PathError>(p@),
            Err(e) => normalized(path@) == Err::<Seq<char>, PathError>(e),
        },
{
    let chars = chars_of(path);
    let inner = trim(&chars, CharClass::Only('/'));
    if inner.len() == 0 {
        return Err(PathError::Empty);
    }
    let mut i: usize = 0;
    while i < inner.len()
        invariant
            0 < inner.len(),
            i <= inner.len(),
            inner@ == trimmed(path@, CharClass::Only('/')),
            first_foreign(inner@, 0) == first_foreign(inner@, i as int),
        decreases inner.len() - i,
    {
        let c = inner[i];
        if !c.is_alphanumeric() && c != '-' && c != '_' && c != '.' && c != '/' {
            return Err(PathError::InvalidCharacter(c));
        }
        i += 1;
    }
    Ok(string_of(&inner))
}

} // verus!
