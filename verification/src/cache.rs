//! The in-memory index: one record per stored recipe, found by its path or
//! by its id.

use crate::parser::recipe::{ParsedRecipe, ParsedRecipeView};
use crate::parser::title::text_view;
use crate::text::{
    chars_of, contains, find, lemma_text_less_irreflexive, lemma_text_less_total,
    lemma_text_less_transitive, less_than, lowercase, lowered_chars, same, string_of, text_less,
};
use dashmap::DashMap;
use sha2::Digest;
use vstd::prelude::*;
use vstd::utf8::encode_utf8;

verus! {

/// The SHA-256 digest of a string of bytes.
pub uninterp spec fn sha256(data: Seq<u8>) -> Seq<u8>;

/// `Digest::digest` of `sha2::Sha256`: the digest of the bytes, which is 32
/// bytes long and depends on the bytes alone.
#[verifier::external_body]
pub(crate) fn sha256_digest(data: &[u8]) -> (r: Vec<u8>)
    ensures
        r@ == sha256(data@),
        r@.len() == 32,
{
    sha2::Sha256::digest(data).to_vec()
}

/// The sixteen hexadecimal digits, in lower case.
pub open spec fn hex_digits() -> Seq<char> {
    seq!['0', '1', '2', '3', '4', '5', '6', '7', '8', '9', 'a', 'b', 'c', 'd', 'e', 'f']
}

/// The bytes written in hexadecimal, two digits each.
pub open spec fn hex(bytes: Seq<u8>) -> Seq<char>
    decreases bytes.len(),
{
    if bytes.len() == 0 {
        Seq::empty()
    } else {
        hex(bytes.drop_last()).push(hex_digits()[bytes.last() as int / 16]).push(
            hex_digits()[bytes.last() as int % 16],
        )
    }
}

/// Two digits stand for each byte.
pub proof fn lemma_hex_len(bytes: Seq<u8>)
    ensures
        hex(bytes).len() == 2 * bytes.len(),
    decreases bytes.len(),
{
    if bytes.len() > 0 {
        lemma_hex_len(bytes.drop_last());
    }
}

/// How many bytes of the digest make up an id.
pub const ID_BYTES: usize = 6;

/// The id of the recipe that is stored at a path: the first six bytes of the
/// SHA-256 digest of the path, in hexadecimal.
pub open spec fn recipe_id_of(git_path: Seq<char>) -> Seq<char> {
    hex(sha256(encode_utf8(git_path)).take(ID_BYTES as int))
}

/// Derives a recipe's id from its path. The id is twelve characters long
/// and changes whenever the path does.
pub fn generate_recipe_id(git_path: &str) -> (r: String)
    ensures
        r@ == recipe_id_of(git_path@),
        r@.len() == 12,
{
    let digest = sha256_digest(git_path.as_bytes());
    let table = vec![
        '0', '1', '2', '3', '4', '5', '6', '7', '8', '9', 'a', 'b', 'c', 'd', 'e', 'f',
    ];
    assert(table@ =~= hex_digits());
    let mut out = String::new();
    let mut i: usize = 0;
    while i < ID_BYTES
        invariant
            i <= ID_BYTES,
            digest@.len() == 32,
            table@ == hex_digits(),
            out@ == hex(digest@.take(i as int)),
        decreases ID_BYTES - i,
    {
        let b = digest[i];
        proof {
            let t = digest@.take(i + 1);
            assert(t.drop_last() =~= digest@.take(i as int));
            assert(t.last() == b);
        }
        out.push(table[(b / 16) as usize]);
        out.push(table[(b % 16) as usize]);
        i += 1;
    }
    proof {
        lemma_hex_len(digest@.take(ID_BYTES as int));
    }
    out
}

/// What the index holds of one recipe.
#[derive(Debug, Clone)]
pub struct CachedRecipe {
    /// The recipe's id, derived from its path.
    pub recipe_id: String,
    /// The path under which the recipe is stored.
    pub git_path: String,
    /// The recipe's title.
    pub name: String,
    pub description: Option<String>,
    /// The directories between the recipes root and the file.
    pub category: Option<String>,
    /// The recipe as parsed.
    pub recipe: ParsedRecipe,
}

/// The mathematical content of a `CachedRecipe`.
pub struct CachedRecipeView {
    pub recipe_id: Seq<char>,
    pub git_path: Seq<char>,
    pub name: Seq<char>,
    pub description: Option<Seq<char>>,
    pub category: Option<Seq<char>>,
    pub recipe: ParsedRecipeView,
}

impl View for CachedRecipe {
    type V = CachedRecipeView;

    open spec fn view(&self) -> CachedRecipeView {
        CachedRecipeView {
            recipe_id: self.recipe_id@,
            git_path: self.git_path@,
            name: self.name@,
            description: text_view(self.description),
            category: text_view(self.category),
            recipe: self.recipe@,
        }
    }
}

/// The concurrent hash map of the `dashmap` crate.
#[verifier::external_type_specification]
#[verifier::external_body]
#[verifier::reject_recursive_types(K)]
#[verifier::reject_recursive_types(V)]
#[verifier::reject_recursive_types(S)]
pub struct ExDashMap<K, V, S>(DashMap<K, V, S>);

/// The records that a map from paths to records holds, by path.
pub uninterp spec fn record_entries(m: DashMap<String, CachedRecipe>) -> Map<
    Seq<char>,
    CachedRecipeView,
>;

/// The paths that a map from ids to paths holds, by id.
pub uninterp spec fn path_entries(m: DashMap<String, String>) -> Map<Seq<char>, Seq<char>>;

/// `DashMap::new`: the new map is empty.
#[verifier::external_body]
fn new_record_map() -> (m: DashMap<String, CachedRecipe>)
    ensures
        record_entries(m) == (Map::<Seq<char>, CachedRecipeView>::empty()),
{
    DashMap::new()
}

/// `DashMap::insert`: afterwards the map holds the value under the key, in
/// place of any value it held there, and everything else as before.
#[verifier::external_body]
fn record_map_insert(m: &mut DashMap<String, CachedRecipe>, key: String, value: CachedRecipe)
    ensures
        record_entries(*final(m)) == record_entries(*old(m)).insert(key@, value@),
{
    m.insert(key, value);
}

/// `DashMap::get`, then a clone of the value found: the value under the key,
/// if the map holds one.
#[verifier::external_body]
fn record_map_get(m: &DashMap<String, CachedRecipe>, key: &str) -> (r: Option<CachedRecipe>)
    ensures
        match r {
            Some(v) => record_entries(*m).contains_key(key@) && v@ == record_entries(*m)[key@],
            None => !record_entries(*m).contains_key(key@),
        },
{
    m.get(key).map(|found| found.value().clone())
}

/// `DashMap::remove`: afterwards the map holds nothing under the key, and
/// everything else as before. The result is the value that it held there.
#[verifier::external_body]
fn record_map_remove(m: &mut DashMap<String, CachedRecipe>, key: &str) -> (r: Option<CachedRecipe>)
    ensures
        record_entries(*final(m)) == record_entries(*old(m)).remove(key@),
        match r {
            Some(v) => record_entries(*old(m)).contains_key(key@) && v@ == record_entries(
                *old(m),
            )[key@],
            None => !record_entries(*old(m)).contains_key(key@),
        },
{
    m.remove(key).map(|(_, value)| value)
}

/// `DashMap::iter`, then a clone of each key: every key of the map, once.
/// The order is the map's own and not stated.
#[verifier::external_body]
fn record_map_keys(m: &DashMap<String, CachedRecipe>) -> (r: Vec<String>)
    ensures
        lists_keys(r@, record_entries(*m).dom()),
{
    m.iter().map(|entry| entry.key().clone()).collect()
}

/// `DashMap::len`: the number of entries.
#[verifier::external_body]
fn record_map_len(m: &DashMap<String, CachedRecipe>) -> (r: usize)
    ensures
        r == record_entries(*m).dom().len(),
{
    m.len()
}

/// `DashMap::clear`: afterwards the map is empty.
#[verifier::external_body]
fn record_map_clear(m: &mut DashMap<String, CachedRecipe>)
    ensures
        record_entries(*final(m)) == (Map::<Seq<char>, CachedRecipeView>::empty()),
{
    m.clear();
}

/// `DashMap::new`: the new map is empty.
#[verifier::external_body]
fn new_path_map() -> (m: DashMap<String, String>)
    ensures
        path_entries(m) == (Map::<Seq<char>, Seq<char>>::empty()),
{
    DashMap::new()
}

/// `DashMap::insert`: afterwards the map holds the value under the key, in
/// place of any value it held there, and everything else as before.
#[verifier::external_body]
fn path_map_insert(m: &mut DashMap<String, String>, key: String, value: String)
    ensures
        path_entries(*final(m)) == path_entries(*old(m)).insert(key@, value@),
{
    m.insert(key, value);
}

/// `DashMap::get`, then a clone of the value found: the value under the key,
/// if the map holds one.
#[verifier::external_body]
fn path_map_get(m: &DashMap<String, String>, key: &str) -> (r: Option<String>)
    ensures
        match r {
            Some(v) => path_entries(*m).contains_key(key@) && v@ == path_entries(*m)[key@],
            None => !path_entries(*m).contains_key(key@),
        },
{
    m.get(key).map(|found| found.value().clone())
}

/// `DashMap::remove`: afterwards the map holds nothing under the key, and
/// everything else as before.
#[verifier::external_body]
fn path_map_remove(m: &mut DashMap<String, String>, key: &str)
    ensures
        path_entries(*final(m)) == path_entries(*old(m)).remove(key@),
{
    m.remove(key);
}

/// `DashMap::clear`: afterwards the map is empty.
#[verifier::external_body]
fn path_map_clear(m: &mut DashMap<String, String>)
    ensures
        path_entries(*final(m)) == (Map::<Seq<char>, Seq<char>>::empty()),
{
    m.clear();
}

/// Whether `keys` names every member of `wanted` once and nothing else.
pub open spec fn lists_keys(keys: Seq<String>, wanted: Set<Seq<char>>) -> bool {
    &&& forall|i: int, j: int| 0 <= i < j < keys.len() ==> keys[i]@ != keys[j]@
    &&& forall|i: int| 0 <= i < keys.len() ==> wanted.contains(#[trigger] keys[i]@)
    &&& forall|k: Seq<char>| #[trigger]
        wanted.contains(k) ==> exists|i: int| 0 <= i < keys.len() && keys[i]@ == k
}

/// Which records a listing is to hold.
pub enum Selection {
    /// Every record.
    All,
    /// The records whose name, in lower case, holds the given text.
    NameContains(Seq<char>),
    /// The records of the given category.
    InCategory(Seq<char>),
    /// The records with an ingredient whose name, in lower case, holds the
    /// given text.
    UsesIngredient(Seq<char>),
}

impl Selection {
    /// Whether the selection takes the record.
    pub open spec fn takes(self, record: CachedRecipeView) -> bool {
        match self {
            Selection::All => true,
            Selection::NameContains(needle) => contains(lowercase(record.name), needle),
            Selection::InCategory(category) => record.category == Some(category),
            Selection::UsesIngredient(needle) => exists|i: int|
                0 <= i < record.recipe.ingredients.len() && contains(
                    lowercase(#[trigger] record.recipe.ingredients[i].name),
                    needle,
                ),
        }
    }
}

/// The mathematical content of a list of records.
pub open spec fn record_views(list: Seq<CachedRecipe>) -> Seq<CachedRecipeView> {
    Seq::new(list.len(), |i: int| list[i]@)
}

/// Whether `list` holds the records that `records` holds under `keys`, in
/// the order of `keys`, and these are, each once, the records that the
/// selection takes.
pub open spec fn is_listing_by(
    list: Seq<CachedRecipeView>,
    keys: Seq<Seq<char>>,
    records: Map<Seq<char>, CachedRecipeView>,
    selection: Selection,
) -> bool {
    &&& keys.len() == list.len()
    &&& keys.no_duplicates()
    &&& forall|i: int|
        0 <= i < keys.len() ==> records.contains_key(#[trigger] keys[i]) && list[i]
            == records[keys[i]] && selection.takes(list[i])
    &&& forall|k: Seq<char>| #[trigger]
        records.contains_key(k) && selection.takes(records[k]) ==> keys.contains(k)
}

/// Whether `list` holds, each once and in some order, the records of
/// `records` that the selection takes.
pub open spec fn is_listing(
    list: Seq<CachedRecipeView>,
    records: Map<Seq<char>, CachedRecipeView>,
    selection: Selection,
) -> bool {
    exists|keys: Seq<Seq<char>>| is_listing_by(list, keys, records, selection)
}

/// The categories that the records of an index lie in.
pub open spec fn categories_of(records: Map<Seq<char>, CachedRecipeView>) -> Set<Seq<char>> {
    Set::new(
        |c: Seq<char>|
            exists|k: Seq<char>|
                records.contains_key(k) && #[trigger] records[k].category == Some(c),
    )
}

/// Whether `list` holds the categories of `records`, each once, in
/// ascending order.
pub open spec fn lists_categories(
    list: Seq<String>,
    records: Map<Seq<char>, CachedRecipeView>,
) -> bool {
    &&& forall|i: int, j: int|
        0 <= i < j < list.len() ==> text_less(#[trigger] list[i]@, #[trigger] list[j]@)
    &&& forall|i: int|
        0 <= i < list.len() ==> categories_of(records).contains(#[trigger] list[i]@)
    &&& forall|c: Seq<char>| #[trigger]
        categories_of(records).contains(c) ==> exists|i: int|
            0 <= i < list.len() && list[i]@ == c
}

/// Whether every text of the list comes before the texts after it.
pub open spec fn ascending(list: Seq<Vec<char>>) -> bool {
    forall|i: int, j: int|
        0 <= i < j < list.len() ==> text_less(#[trigger] list[i]@, #[trigger] list[j]@)
}

/// Whether the list holds the text.
pub open spec fn holds_text(list: Seq<Vec<char>>, text: Seq<char>) -> bool {
    exists|i: int| 0 <= i < list.len() && #[trigger] list[i]@ == text
}

/// Puts a text into an ascending list, at its place, unless the list holds
/// it already.
fn insert_ascending(list: &mut Vec<Vec<char>>, item: Vec<char>)
    requires
        ascending(old(list)@),
    ensures
        ascending(final(list)@),
        forall|t: Seq<char>|
            holds_text(final(list)@, t) <==> holds_text(old(list)@, t) || t == item@,
{
    let mut j: usize = 0;
    while j < list.len() && less_than(&list[j], &item)
        invariant
            j <= list.len(),
            list@ == old(list)@,
            forall|k: int| 0 <= k < j ==> text_less(#[trigger] list@[k]@, item@),
        decreases list.len() - j,
    {
        j += 1;
    }
    let ghost before = list@;
    if j < list.len() && same(&list[j], &item) {
        assert forall|t: Seq<char>| holds_text(before, t) || t == item@ implies holds_text(
            before,
            t,
        ) by {
            if t == item@ {
                assert(before[j as int]@ == t);
            }
        }
        return ;
    }
    proof {
        if j < before.len() {
            lemma_text_less_total(before[j as int]@, item@);
            assert forall|k: int| j <= k < before.len() implies text_less(
                item@,
                #[trigger] before[k]@,
            ) by {
                if k > j {
                    assert(text_less(before[j as int]@, before[k]@));
                    lemma_text_less_transitive(item@, before[j as int]@, before[k]@);
                }
            }
        }
        assert forall|k: int| 0 <= k < before.len() implies #[trigger] before[k]@ != item@ by {
            lemma_text_less_irreflexive(item@);
        }
    }
    let ghost added = item@;
    list.insert(j, item);
    proof {
        let after = list@;
        assert forall|a: int, b: int| 0 <= a < b < after.len() implies text_less(
            #[trigger] after[a]@,
            #[trigger] after[b]@,
        ) by {
            let x = if a < j { a } else { a - 1 };
            let y = if b < j { b } else { b - 1 };
            if a != j {
                assert(after[a] == before[x]);
            }
            if b != j {
                assert(after[b] == before[y]);
            }
            if a != j && b != j {
                assert(text_less(before[x]@, before[y]@));
            }
        }
        assert forall|t: Seq<char>| holds_text(after, t) <==> holds_text(before, t) || t
            == added by {
            if holds_text(after, t) {
                let i = choose|i: int| 0 <= i < after.len() && #[trigger] after[i]@ == t;
                if i < j {
                    assert(before[i]@ == t);
                } else if i > j {
                    assert(before[i - 1]@ == t);
                }
            }
            if holds_text(before, t) {
                let i = choose|i: int| 0 <= i < before.len() && #[trigger] before[i]@ == t;
                if i < j {
                    assert(after[i]@ == t);
                } else {
                    assert(after[i + 1]@ == t);
                }
            }
            if t == added {
                assert(after[j as int]@ == t);
            }
        }
    }
}

/// A listing of every record is as long as the index is large.
pub proof fn lemma_listing_of_all(
    list: Seq<CachedRecipeView>,
    records: Map<Seq<char>, CachedRecipeView>,
)
    requires
        is_listing(list, records, Selection::All),
    ensures
        records.dom().finite(),
        list.len() == records.dom().len(),
{
    let keys = choose|keys: Seq<Seq<char>>| is_listing_by(list, keys, records, Selection::All);
    keys.unique_seq_to_set();
    assert(keys.to_set() =~= records.dom()) by {
        assert forall|k: Seq<char>| keys.to_set().contains(k) == records.dom().contains(k) by {
            if keys.contains(k) {
                let i = choose|i: int| 0 <= i < keys.len() && keys[i] == k;
                assert(records.contains_key(keys[i]));
            }
            if records.contains_key(k) {
                assert(Selection::All.takes(records[k]));
            }
        }
    }
}

/// A list of the categories is as long as there are categories.
pub proof fn lemma_list_of_categories(
    list: Seq<String>,
    records: Map<Seq<char>, CachedRecipeView>,
)
    requires
        lists_categories(list, records),
    ensures
        categories_of(records).finite(),
        list.len() == categories_of(records).len(),
{
    let names = Seq::new(list.len(), |i: int| list[i]@);
    assert(names.no_duplicates()) by {
        assert forall|i: int, j: int| 0 <= i < names.len() && 0 <= j < names.len() && i
            != j implies names[i] != names[j] by {
            if i < j {
                assert(text_less(list[i]@, list[j]@));
            } else {
                assert(text_less(list[j]@, list[i]@));
            }
            lemma_text_less_irreflexive(names[i]);
        }
    }
    names.unique_seq_to_set();
    assert(names.to_set() =~= categories_of(records)) by {
        assert forall|c: Seq<char>| names.to_set().contains(c) == categories_of(
            records,
        ).contains(c) by {
            if names.contains(c) {
                let i = choose|i: int| 0 <= i < names.len() && names[i] == c;
                assert(categories_of(records).contains(list[i]@));
            }
            if categories_of(records).contains(c) {
                let i = choose|i: int| 0 <= i < list.len() && list[i]@ == c;
                assert(names[i] == c);
            }
        }
    }
}

/// A selection as the index tests it, with its text as characters.
enum Probe {
    All,
    Name(Vec<char>),
    Category(Vec<char>),
    Ingredient(Vec<char>),
}

impl Probe {
    /// The selection that the probe tests.
    spec fn selection(self) -> Selection {
        match self {
            Probe::All => Selection::All,
            Probe::Name(needle) => Selection::NameContains(needle@),
            Probe::Category(category) => Selection::InCategory(category@),
            Probe::Ingredient(needle) => Selection::UsesIngredient(needle@),
        }
    }

    /// Tests whether the selection takes the record.
    fn takes(&self, record: &CachedRecipe) -> (r: bool)
        ensures
            r == self.selection().takes(record@),
    {
        match self {
            Probe::All => true,
            Probe::Name(needle) => {
                let name = lowered_chars(record.name.as_str());
                find(&name, needle).is_some()
            },
            Probe::Category(category) => match &record.category {
                Some(c) => {
                    let chars = chars_of(c.as_str());
                    same(&chars, category)
                },
                None => false,
            },
            Probe::Ingredient(needle) => {
                let ingredients = &record.recipe.ingredients;
                let ghost views = record@.recipe.ingredients;
                let mut i: usize = 0;
                while i < ingredients.len()
                    invariant
                        i <= ingredients.len(),
                        ingredients == &record.recipe.ingredients,
                        views == record@.recipe.ingredients,
                        self.selection() == Selection::UsesIngredient(needle@),
                        forall|j: int|
                            0 <= j < i ==> !contains(lowercase(#[trigger] views[j].name), needle@),
                    decreases ingredients.len() - i,
                {
                    let name = lowered_chars(ingredients[i].name.as_str());
                    if find(&name, needle).is_some() {
                        assert(contains(lowercase(views[i as int].name), needle@));
                        return true;
                    }
                    i += 1;
                }
                false
            },
        }
    }
}

/// The index: every record under its path, and every path under the id of
/// its record.
pub struct RecipeIndex {
    recipes: DashMap<String, CachedRecipe>,
    id_to_path: DashMap<String, String>,
}

impl RecipeIndex {
    /// The records, by path.
    pub closed spec fn records(&self) -> Map<Seq<char>, CachedRecipeView> {
        record_entries(self.recipes)
    }

    /// The paths, by id.
    pub closed spec fn paths(&self) -> Map<Seq<char>, Seq<char>> {
        path_entries(self.id_to_path)
    }

    /// An empty index.
    pub fn new() -> (r: Self)
        ensures
            r.records() == Map::<Seq<char>, CachedRecipeView>::empty(),
            r.paths() == Map::<Seq<char>, Seq<char>>::empty(),
    {
        RecipeIndex { recipes: new_record_map(), id_to_path: new_path_map() }
    }

    /// Puts a record under a path, in place of any record that was there,
    /// and the path under the record's id.
    pub fn insert(&mut self, git_path: String, recipe: CachedRecipe)
        ensures
            final(self).records() == old(self).records().insert(git_path@, recipe@),
            final(self).paths() == old(self).paths().insert(recipe@.recipe_id, git_path@),
    {
        let recipe_id = recipe.recipe_id.clone();
        record_map_insert(&mut self.recipes, git_path.clone(), recipe);
        path_map_insert(&mut self.id_to_path, recipe_id, git_path);
    }

    /// The record under a path, if there is one.
    pub fn get(&self, git_path: &str) -> (r: Option<CachedRecipe>)
        ensures
            match r {
                Some(record) => self.records().contains_key(git_path@) && record@
                    == self.records()[git_path@],
                None => !self.records().contains_key(git_path@),
            },
    {
        record_map_get(&self.recipes, git_path)
    }

    /// The path under an id, if there is one.
    pub fn get_git_path(&self, recipe_id: &str) -> (r: Option<String>)
        ensures
            match r {
                Some(path) => self.paths().contains_key(recipe_id@) && path@
                    == self.paths()[recipe_id@],
                None => !self.paths().contains_key(recipe_id@),
            },
    {
        path_map_get(&self.id_to_path, recipe_id)
    }

    /// Takes the record under a path out of the index, and with it the path
    /// under the record's id. Returns the record, if there was one.
    pub fn remove(&mut self, git_path: &str) -> (r: Option<CachedRecipe>)
        ensures
            match r {
                Some(record) => {
                    &&& old(self).records().contains_key(git_path@)
                    &&& record@ == old(self).records()[git_path@]
                    &&& final(self).records() == old(self).records().remove(git_path@)
                    &&& final(self).paths() == old(self).paths().remove(record@.recipe_id)
                },
                None => {
                    &&& !old(self).records().contains_key(git_path@)
                    &&& final(self).records() == old(self).records()
                    &&& final(self).paths() == old(self).paths()
                },
            },
    {
        match record_map_remove(&mut self.recipes, git_path) {
            Some(record) => {
                path_map_remove(&mut self.id_to_path, record.recipe_id.as_str());
                Some(record)
            },
            None => {
                assert(self.records() =~= old(self).records());
                None
            },
        }
    }

    /// The records that a selection takes.
    fn select(&self, probe: &Probe) -> (r: Vec<CachedRecipe>)
        ensures
            is_listing(record_views(r@), self.records(), probe.selection()),
    {
        let keys = record_map_keys(&self.recipes);
        let mut out: Vec<CachedRecipe> = Vec::new();
        let ghost mut kept: Seq<Seq<char>> = Seq::empty();
        let ghost mut from: Seq<int> = Seq::empty();
        let mut i: usize = 0;
        while i < keys.len()
            invariant
                i <= keys.len(),
                lists_keys(keys@, self.records().dom()),
                kept.len() == out@.len(),
                from.len() == out@.len(),
                forall|j: int|
                    0 <= j < kept.len() ==> self.records().contains_key(#[trigger] kept[j]),
                forall|j: int|
                    0 <= j < kept.len() ==> out@[j]@ == self.records()[#[trigger] kept[j]],
                forall|j: int|
                    0 <= j < kept.len() ==> probe.selection().takes(#[trigger] out@[j]@),
                forall|j: int| 0 <= j < kept.len() ==> 0 <= #[trigger] from[j] < i,
                forall|j: int| 0 <= j < kept.len() ==> keys@[from[j]]@ == #[trigger] kept[j],
                kept.no_duplicates(),
                forall|n: int|
                    0 <= n < i && probe.selection().takes(self.records()[#[trigger] keys@[n]@])
                        ==> kept.contains(keys@[n]@),
            decreases keys.len() - i,
        {
            let key = &keys[i];
            match record_map_get(&self.recipes, key.as_str()) {
                Some(record) => {
                    if probe.takes(&record) {
                        proof {
                            let ghost before = kept;
                            assert forall|j: int| 0 <= j < before.len() implies before[j]
                                != key@ by {
                                assert(self.records().contains_key(kept[j]));
                                assert(keys@[from[j]]@ != keys@[i as int]@);
                            }
                            kept = kept.push(key@);
                            from = from.push(i as int);
                            assert(kept[kept.len() - 1] == key@);
                            assert forall|n: int|
                                0 <= n < i + 1 && probe.selection().takes(
                                    self.records()[#[trigger] keys@[n]@],
                                ) implies kept.contains(keys@[n]@) by {
                                if n < i {
                                    assert(before.contains(keys@[n]@));
                                    let at = choose|at: int|
                                        0 <= at < before.len() && before[at] == keys@[n]@;
                                    assert(kept[at] == keys@[n]@);
                                } else {
                                    assert(kept[kept.len() - 1] == keys@[n]@);
                                }
                            }
                        }
                        let ghost earlier = out@;
                        out.push(record);
                        assert forall|j: int| 0 <= j < kept.len() implies probe.selection().takes(
                            #[trigger] out@[j]@,
                        ) by {
                            if j < earlier.len() {
                                assert(out@[j] == earlier[j]);
                            }
                        }
                    }
                },
                None => {
                    assert(self.records().dom().contains(keys@[i as int]@));
                },
            }
            i += 1;
        }
        proof {
            assert forall|k: Seq<char>| #[trigger]
                self.records().contains_key(k) && probe.selection().takes(
                    self.records()[k],
                ) implies kept.contains(k) by {
                assert(self.records().dom().contains(k));
                let n = choose|n: int| 0 <= n < keys@.len() && keys@[n]@ == k;
                assert(kept.contains(keys@[n]@));
            }
            assert(is_listing_by(record_views(out@), kept, self.records(), probe.selection()));
        }
        out
    }

    /// Every record, each once, in no stated order.
    pub fn get_all(&self) -> (r: Vec<CachedRecipe>)
        ensures
            is_listing(record_views(r@), self.records(), Selection::All),
    {
        self.select(&Probe::All)
    }

    /// The records whose name holds the query, whatever the case of either.
    pub fn search_by_name(&self, query: &str) -> (r: Vec<CachedRecipe>)
        ensures
            is_listing(
                record_views(r@),
                self.records(),
                Selection::NameContains(lowercase(query@)),
            ),
    {
        self.select(&Probe::Name(lowered_chars(query)))
    }

    /// The records of a category.
    pub fn get_by_category(&self, category: &str) -> (r: Vec<CachedRecipe>)
        ensures
            is_listing(record_views(r@), self.records(), Selection::InCategory(category@)),
    {
        self.select(&Probe::Category(chars_of(category)))
    }

    /// The records with an ingredient whose name holds the given text,
    /// whatever the case of either.
    pub fn filter_by_ingredient(&self, ingredient_name: &str) -> (r: Vec<CachedRecipe>)
        ensures
            is_listing(
                record_views(r@),
                self.records(),
                Selection::UsesIngredient(lowercase(ingredient_name@)),
            ),
    {
        self.select(&Probe::Ingredient(lowered_chars(ingredient_name)))
    }

    /// The categories that the records lie in, each once, in ascending
    /// order.
    pub fn get_categories(&self) -> (r: Vec<String>)
        ensures
            lists_categories(r@, self.records()),
    {
        let keys = record_map_keys(&self.recipes);
        let mut found: Vec<Vec<char>> = Vec::new();
        let mut i: usize = 0;
        while i < keys.len()
            invariant
                i <= keys.len(),
                lists_keys(keys@, self.records().dom()),
                ascending(found@),
                forall|t: Seq<char>|
                    holds_text(found@, t) <==> exists|n: int|
                        0 <= n < i && #[trigger] self.records()[keys@[n]@].category == Some(t),
            decreases keys.len() - i,
        {
            let ghost before = found@;
            match record_map_get(&self.recipes, keys[i].as_str()) {
                Some(record) => match record.category {
                    Some(category) => {
                        insert_ascending(&mut found, chars_of(category.as_str()));
                        assert forall|t: Seq<char>| holds_text(found@, t) <==> exists|n: int|
                            0 <= n < i + 1 && #[trigger] self.records()[keys@[n]@].category
                                == Some(t) by {
                            if holds_text(before, t) {
                                let n = choose|n: int|
                                    0 <= n < i && #[trigger] self.records()[keys@[n]@].category
                                        == Some(t);
                                assert(0 <= n < i + 1);
                            }
                            if t == category@ {
                                assert(self.records()[keys@[i as int]@].category == Some(t));
                            }
                        }
                    },
                    None => {},
                },
                None => {
                    assert(self.records().dom().contains(keys@[i as int]@));
                },
            }
            i += 1;
        }
        let mut out: Vec<String> = Vec::new();
        let mut j: usize = 0;
        while j < found.len()
            invariant
                j <= found.len(),
                out@.len() == j,
                forall|k: int| 0 <= k < j ==> #[trigger] out@[k]@ == found@[k]@,
            decreases found.len() - j,
        {
            out.push(string_of(&found[j]));
            j += 1;
        }
        proof {
            assert forall|a: int, b: int| 0 <= a < b < out@.len() implies text_less(
                #[trigger] out@[a]@,
                #[trigger] out@[b]@,
            ) by {
                assert(text_less(found@[a]@, found@[b]@));
            }
            assert forall|a: int| 0 <= a < out@.len() implies categories_of(
                self.records(),
            ).contains(#[trigger] out@[a]@) by {
                assert(holds_text(found@, found@[a]@));
                let n = choose|n: int|
                    0 <= n < keys@.len() && #[trigger] self.records()[keys@[n]@].category == Some(
                        found@[a]@,
                    );
                assert(self.records().contains_key(keys@[n]@));
            }
            assert forall|c: Seq<char>| #[trigger]
                categories_of(self.records()).contains(c) implies exists|a: int|
                0 <= a < out@.len() && out@[a]@ == c by {
                let k = choose|k: Seq<char>|
                    self.records().contains_key(k) && #[trigger] self.records()[k].category
                        == Some(c);
                assert(self.records().dom().contains(k));
                let n = choose|n: int| 0 <= n < keys@.len() && keys@[n]@ == k;
                assert(self.records()[keys@[n]@].category == Some(c));
                assert(holds_text(found@, c));
                let a = choose|a: int| 0 <= a < found@.len() && #[trigger] found@[a]@ == c;
                assert(out@[a]@ == c);
            }
        }
        out
    }

    /// The number of records.
    pub fn len(&self) -> (r: usize)
        ensures
            r == self.records().dom().len(),
    {
        record_map_len(&self.recipes)
    }

    /// Whether the index holds no record.
    pub fn is_empty(&self) -> (r: bool)
        ensures
            r == (self.records().dom().len() == 0),
    {
        record_map_len(&self.recipes) == 0
    }

    /// Empties the index.
    pub fn clear(&mut self)
        ensures
            final(self).records() == Map::<Seq<char>, CachedRecipeView>::empty(),
            final(self).paths() == Map::<Seq<char>, Seq<char>>::empty(),
    {
        record_map_clear(&mut self.recipes);
        path_map_clear(&mut self.id_to_path);
    }
}

impl Default for RecipeIndex {
    fn default() -> (r: Self)
        ensures
            r.records() == Map::<Seq<char>, CachedRecipeView>::empty(),
            r.paths() == Map::<Seq<char>, Seq<char>>::empty(),
    {
        RecipeIndex::new()
    }
}

} // verus!
