//! Telling apart recipes whose titles give the same file name.
//!
//! Where a path is taken, the next recipe of that file name gets `-2` before
//! the extension, the one after it `-3`, and so on: the first number whose
//! path is free. The index is finite, so one always is.

use super::paths::{compose_path, document_path, has_extension, stem_chars, stem_of};
use crate::parser::filename::{extension, extension_chars};
use crate::text::append;
use vstd::prelude::*;

verus! {

/// The ten digits.
pub open spec fn digits() -> Seq<char> {
    seq!['0', '1', '2', '3', '4', '5', '6', '7', '8', '9']
}

/// A number written in decimal.
pub open spec fn decimal(n: nat) -> Seq<char>
    decreases n,
{
    if n < 10 {
        seq![digits()[n as int]]
    } else {
        decimal(n / 10).push(digits()[(n % 10) as int])
    }
}

/// The number that a digit stands for.
pub open spec fn digit_value(c: char) -> nat {
    if c == '1' {
        1
    } else if c == '2' {
        2
    } else if c == '3' {
        3
    } else if c == '4' {
        4
    } else if c == '5' {
        5
    } else if c == '6' {
        6
    } else if c == '7' {
        7
    } else if c == '8' {
        8
    } else if c == '9' {
        9
    } else {
        0
    }
}

/// The number that a text in decimal stands for.
pub open spec fn decimal_value(s: Seq<char>) -> nat
    decreases s.len(),
{
    if s.len() == 0 {
        0
    } else {
        decimal_value(s.drop_last()) * 10 + digit_value(s.last())
    }
}

/// A number written in decimal stands for that number, and takes at least
/// one digit.
pub proof fn lemma_decimal_value(n: nat)
    ensures
        decimal_value(decimal(n)) == n,
        decimal(n).len() >= 1,
    decreases n,
{
    if n < 10 {
        let s = decimal(n);
        assert(s.drop_last() =~= Seq::<char>::empty());
        assert(decimal_value(s.drop_last()) == 0);
        assert(digit_value(digits()[n as int]) == n);
    } else {
        let s = decimal(n);
        lemma_decimal_value(n / 10);
        assert(s.drop_last() =~= decimal(n / 10));
        assert(digit_value(digits()[(n % 10) as int]) == n % 10);
    }
}

/// Writes a number in decimal.
pub fn decimal_chars(n: u128) -> (r: Vec<char>)
    ensures
        r@ == decimal(n as nat),
    decreases n,
{
    let table = vec!['0', '1', '2', '3', '4', '5', '6', '7', '8', '9'];
    assert(table@ =~= digits());
    if n < 10 {
        let r = vec![table[n as usize]];
        assert(r@ =~= seq![digits()[n as int]]);
        r
    } else {
        let mut r = decimal_chars(n / 10);
        r.push(table[(n % 10) as usize]);
        r
    }
}

/// The file name that is tried in the `n`th place: the file name itself
/// first, then its stem with `-2`, `-3` and so on before the extension.
pub open spec fn numbered(filename: Seq<char>, n: nat) -> Seq<char> {
    if n <= 1 {
        filename
    } else {
        stem_of(filename) + seq!['-'] + decimal(n) + extension()
    }
}

/// The path that is tried in the `n`th place.
pub open spec fn candidate(category: Option<Seq<char>>, filename: Seq<char>, n: nat) -> Seq<char> {
    document_path(category, numbered(filename, n))
}

/// Composes the path that is tried in the `n`th place.
pub fn candidate_chars(category: Option<&Vec<char>>, filename: &Vec<char>, n: u128) -> (r: Vec<
    char,
>)
    ensures
        r@ == candidate(
            match category {
                Some(c) => Some(c@),
                None => None,
            },
            filename@,
            n as nat,
        ),
{
    if n <= 1 {
        compose_path(category, filename)
    } else {
        let mut name = stem_chars(filename);
        name.push('-');
        append(&mut name, &decimal_chars(n));
        append(&mut name, &extension_chars());
        assert(name@ =~= stem_of(filename@) + seq!['-'] + decimal(n as nat) + extension());
        compose_path(category, &name)
    }
}

/// Different places are tried under different file names.
pub proof fn lemma_numbered_differ(filename: Seq<char>, i: nat, j: nat)
    requires
        1 <= i < j,
    ensures
        numbered(filename, i) != numbered(filename, j),
{
    let stem = stem_of(filename);
    lemma_decimal_value(j);
    let b = numbered(filename, j);
    if i == 1 {
        if has_extension(filename) {
            assert(stem.len() + extension().len() == filename.len());
        }
        assert(b.len() > filename.len());
    } else {
        let a = numbered(filename, i);
        lemma_decimal_value(i);
        if a == b {
            let from: int = stem.len() as int + 1;
            assert(a.len() == stem.len() + 1 + decimal(i).len() + extension().len());
            assert(b.len() == stem.len() + 1 + decimal(j).len() + extension().len());
            assert(decimal(i).len() == decimal(j).len());
            assert(a.subrange(from, from + decimal(i).len()) =~= decimal(i));
            assert(b.subrange(from, from + decimal(j).len()) =~= decimal(j));
        }
    }
}

/// Different places are tried under different paths.
pub proof fn lemma_candidates_differ(
    category: Option<Seq<char>>,
    filename: Seq<char>,
    i: nat,
    j: nat,
)
    requires
        1 <= i,
        1 <= j,
        i != j,
    ensures
        candidate(category, filename, i) != candidate(category, filename, j),
{
    if i < j {
        lemma_numbered_differ(filename, i, j);
    } else {
        lemma_numbered_differ(filename, j, i);
    }
    let a = numbered(filename, i);
    let b = numbered(filename, j);
    let x = candidate(category, filename, i);
    let y = candidate(category, filename, j);
    if x == y {
        let from: int = x.len() - a.len();
        assert(x.skip(from) =~= a);
        assert(y.skip(y.len() - b.len()) =~= b);
    }
}

/// The paths that are tried in the first `n` places.
pub open spec fn candidates(category: Option<Seq<char>>, filename: Seq<char>, n: nat) -> Set<
    Seq<char>,
>
    decreases n,
{
    if n == 0 {
        Set::empty()
    } else {
        candidates(category, filename, (n - 1) as nat).insert(candidate(category, filename, n))
    }
}

/// The first `n` places are tried under `n` paths.
pub proof fn lemma_candidates(category: Option<Seq<char>>, filename: Seq<char>, n: nat)
    ensures
        candidates(category, filename, n).finite(),
        candidates(category, filename, n).len() == n,
        forall|p: Seq<char>| #[trigger]
            candidates(category, filename, n).contains(p) ==> exists|j: nat|
                1 <= j <= n && p == candidate(category, filename, j),
        forall|j: nat|
            1 <= j <= n ==> candidates(category, filename, n).contains(
                #[trigger] candidate(category, filename, j),
            ),
    decreases n,
{
    if n > 0 {
        let fewer = candidates(category, filename, (n - 1) as nat);
        let last = candidate(category, filename, n);
        lemma_candidates(category, filename, (n - 1) as nat);
        if fewer.contains(last) {
            let j = choose|j: nat| 1 <= j <= n - 1 && last == candidate(category, filename, j);
            lemma_candidates_differ(category, filename, j, n);
        }
        assert forall|p: Seq<char>| #[trigger]
            candidates(category, filename, n).contains(p) implies exists|j: nat|
            1 <= j <= n && p == candidate(category, filename, j) by {
            if p == last {
                assert(1 <= n <= n && p == candidate(category, filename, n));
            } else {
                assert(fewer.contains(p));
                let j = choose|j: nat| 1 <= j <= n - 1 && p == candidate(category, filename, j);
                assert(1 <= j <= n && p == candidate(category, filename, j));
            }
        }
    }
}

/// Where the paths of the first `n` places are all taken, at least `n`
/// paths are taken.
pub proof fn lemma_taken_places(
    taken: Set<Seq<char>>,
    category: Option<Seq<char>>,
    filename: Seq<char>,
    n: nat,
)
    requires
        taken.finite(),
        forall|j: nat| 1 <= j <= n ==> taken.contains(#[trigger] candidate(category, filename, j)),
    ensures
        n <= taken.len(),
{
    let tried = candidates(category, filename, n);
    lemma_candidates(category, filename, n);
    assert(tried.subset_of(taken)) by {
        assert forall|p: Seq<char>| tried.contains(p) implies taken.contains(p) by {
            let j = choose|j: nat| 1 <= j <= n && p == candidate(category, filename, j);
            assert(taken.contains(candidate(category, filename, j)));
        }
    }
    vstd::set_lib::lemma_len_subset(tried, taken);
}

/// The first place from `n` on whose path is not among `taken`.
pub open spec fn first_free(
    taken: Set<Seq<char>>,
    category: Option<Seq<char>>,
    filename: Seq<char>,
    n: nat,
) -> nat
    decreases taken.len() + 2 - n,
{
    if n > taken.len() + 1 || !taken.contains(candidate(category, filename, n)) {
        n
    } else {
        first_free(taken, category, filename, n + 1)
    }
}

/// The path that a new file gets: the first that is tried and not taken.
pub open spec fn free_path(
    taken: Set<Seq<char>>,
    category: Option<Seq<char>>,
    filename: Seq<char>,
) -> Seq<char> {
    candidate(category, filename, first_free(taken, category, filename, 1))
}

/// The first free place from `n` on is free, and the places between are
/// taken, provided that the places before `n` are taken too.
pub proof fn lemma_first_free(
    taken: Set<Seq<char>>,
    category: Option<Seq<char>>,
    filename: Seq<char>,
    n: nat,
)
    requires
        taken.finite(),
        1 <= n,
        forall|j: nat| 1 <= j < n ==> taken.contains(#[trigger] candidate(category, filename, j)),
    ensures
        n <= first_free(taken, category, filename, n) <= taken.len() + 1,
        !taken.contains(
            candidate(category, filename, first_free(taken, category, filename, n)),
        ),
        forall|j: nat|
            1 <= j < first_free(taken, category, filename, n) ==> taken.contains(
                #[trigger] candidate(category, filename, j),
            ),
    decreases taken.len() + 2 - n,
{
    if taken.contains(candidate(category, filename, n)) {
        lemma_taken_places(taken, category, filename, n);
        lemma_first_free(taken, category, filename, n + 1);
    } else {
        lemma_taken_places(taken, category, filename, (n - 1) as nat);
    }
}

/// The path that a new file gets is not taken.
pub proof fn lemma_free_path(
    taken: Set<Seq<char>>,
    category: Option<Seq<char>>,
    filename: Seq<char>,
)
    requires
        taken.finite(),
    ensures
        !taken.contains(free_path(taken, category, filename)),
{
    lemma_first_free(taken, category, filename, 1);
}

} // verus!
