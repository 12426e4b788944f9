//! What holds of the store whatever it holds: laws that relate its
//! operations to one another.

use super::create::creation_plan;
use super::numbering::{
    candidate, decimal, first_free, lemma_candidates_differ, lemma_free_path, numbered,
};
use super::paths::{
    category_of, document_path, filename_of, lemma_last_slash_is, root, stem_of,
};
use super::update::{lemma_update_plan_path, update_plan, UpdateView};
use super::{effective_category, listed, shows, Action, RecipeView, StoreView};
use crate::cache::{is_listing_by, recipe_id_of, CachedRecipeView, Selection};
use crate::parser::filename::{extension, filename_for};
use crate::parser::title::title_of;
use vstd::prelude::*;

verus! {

/// Whether a text holds no slash.
pub open spec fn slash_free(s: Seq<char>) -> bool {
    forall|i: int| 0 <= i < s.len() ==> s[i] != '/'
}

/// The category of a path is the category that the path was composed with:
/// a file put into a category lies in that category, however deep, and a
/// file put directly under the root lies in none.
pub proof fn lemma_category_round_trip(category: Option<Seq<char>>, filename: Seq<char>)
    requires
        slash_free(filename),
    ensures
        category_of(document_path(category, filename)) == category,
        filename_of(document_path(category, filename)) == filename,
{
    let path = document_path(category, filename);
    match category {
        Some(c) => {
            let cut: int = (root().len() + c.len()) as int;
            assert(path[cut] == '/');
            assert forall|i: int| cut < i < path.len() implies path[i] != '/' by {
                assert(path[i] == filename[i - cut - 1]);
            }
            lemma_last_slash_is(path, cut);
            assert(path.subrange(0, root().len() as int) =~= root());
            assert(path.subrange(root().len() as int, cut) =~= c);
            assert(path.skip(cut + 1) =~= filename);
        },
        None => {
            let cut: int = root().len() as int - 1;
            assert(path[cut] == '/');
            assert forall|i: int| cut < i < path.len() implies path[i] != '/' by {
                assert(path[i] == filename[i - cut - 1]);
            }
            lemma_last_slash_is(path, cut);
            assert(path.skip(cut + 1) =~= filename);
        },
    }
}

/// The second file name that is tried differs from the first, and carries
/// `-2` before the extension.
pub proof fn lemma_second_candidate(category: Option<Seq<char>>, filename: Seq<char>)
    ensures
        numbered(filename, 2) == stem_of(filename) + seq!['-', '2'] + extension(),
        candidate(category, filename, 2) != candidate(category, filename, 1),
{
    assert(decimal(2) =~= seq!['2']);
    assert(stem_of(filename) + seq!['-'] + decimal(2) + extension() =~= stem_of(filename)
        + seq!['-', '2'] + extension());
    lemma_candidates_differ(category, filename, 1, 2);
}

/// A recipe that is created never takes the path of another: whatever the
/// index holds, two recipes created one after the other lie under
/// different paths.
pub proof fn lemma_created_paths_differ(
    store: StoreView,
    first_content: Seq<char>,
    first_category: Option<Seq<char>>,
    second_content: Seq<char>,
    second_category: Option<Seq<char>>,
)
    requires
        store.wf(),
        creation_plan(store.records.dom(), first_content, first_category) is Ok,
        creation_plan(
            store.with_created(
                creation_plan(store.records.dom(), first_content, first_category)->Ok_0,
                first_content,
            ).records.dom(),
            second_content,
            second_category,
        ) is Ok,
    ensures
        ({
            let first = creation_plan(store.records.dom(), first_content, first_category)->Ok_0;
            let second = creation_plan(
                store.with_created(first, first_content).records.dom(),
                second_content,
                second_category,
            )->Ok_0;
            second.git_path != first.git_path && !store.records.contains_key(second.git_path)
        }),
{
    let first = creation_plan(store.records.dom(), first_content, first_category)->Ok_0;
    let taken = store.with_created(first, first_content).records.dom();
    let title = title_of(second_content)->Ok_0;
    lemma_free_path(taken, effective_category(second_category), filename_for(title));
    assert(taken.contains(first.git_path));
}

/// Two recipes whose titles give the same file name, created one after the
/// other in the same category: where the file name was free, the first gets
/// it, and the second gets the same with `-2` before the extension, unless
/// that is taken too.
pub proof fn lemma_second_recipe_is_numbered(
    store: StoreView,
    first_content: Seq<char>,
    second_content: Seq<char>,
    category: Option<Seq<char>>,
)
    requires
        store.wf(),
        creation_plan(store.records.dom(), first_content, category) is Ok,
        creation_plan(
            store.with_created(
                creation_plan(store.records.dom(), first_content, category)->Ok_0,
                first_content,
            ).records.dom(),
            second_content,
            category,
        ) is Ok,
        filename_for(title_of(first_content)->Ok_0) == filename_for(title_of(second_content)->Ok_0),
        !store.records.contains_key(
            document_path(
                effective_category(category),
                filename_for(title_of(first_content)->Ok_0),
            ),
        ),
        !store.records.contains_key(
            candidate(
                effective_category(category),
                filename_for(title_of(first_content)->Ok_0),
                2,
            ),
        ),
    ensures
        ({
            let first = creation_plan(store.records.dom(), first_content, category)->Ok_0;
            let second = creation_plan(
                store.with_created(first, first_content).records.dom(),
                second_content,
                category,
            )->Ok_0;
            let filename = filename_for(title_of(first_content)->Ok_0);
            &&& first.git_path == document_path(effective_category(category), filename)
            &&& second.git_path == document_path(
                effective_category(category),
                stem_of(filename) + seq!['-', '2'] + extension(),
            )
            &&& second.git_path != first.git_path
        }),
{
    let cat = effective_category(category);
    let filename = filename_for(title_of(first_content)->Ok_0);
    let first = creation_plan(store.records.dom(), first_content, category)->Ok_0;
    let taken = store.with_created(first, first_content).records.dom();
    lemma_second_candidate(cat, filename);
    assert(first_free(store.records.dom(), cat, filename, 1) == 1);
    assert(first.git_path == candidate(cat, filename, 1));
    assert(taken.contains(candidate(cat, filename, 1)));
    assert(!taken.contains(candidate(cat, filename, 2)));
    assert(taken.len() >= 1) by {
        vstd::set_lib::lemma_len_subset(set![candidate(cat, filename, 1)], taken);
    }
    assert(first_free(taken, cat, filename, 2) == 2);
    assert(first_free(taken, cat, filename, 1) == 2);
}

/// A recipe that moves gets a new id, and its old id then leads nowhere,
/// provided that the ids of the two paths differ. (An id is a part of a
/// digest: two paths may share one.)
pub proof fn lemma_moved_recipe_changes_id(
    store: StoreView,
    git_path: Seq<char>,
    stored: Seq<char>,
    name: Option<Seq<char>>,
    content: Option<Seq<char>>,
    category: Option<Option<Seq<char>>>,
)
    requires
        store.wf(),
        store.records.contains_key(git_path),
        update_plan(
            store.records.dom(),
            git_path,
            store.records[git_path],
            stored,
            name,
            content,
            category,
        ) is Ok,
        update_plan(
            store.records.dom(),
            git_path,
            store.records[git_path],
            stored,
            name,
            content,
            category,
        )->Ok_0.moved,
        recipe_id_of(
            update_plan(
                store.records.dom(),
                git_path,
                store.records[git_path],
                stored,
                name,
                content,
                category,
            )->Ok_0.git_path,
        ) != recipe_id_of(git_path),
    ensures
        ({
            let plan = update_plan(
                store.records.dom(),
                git_path,
                store.records[git_path],
                stored,
                name,
                content,
                category,
            )->Ok_0;
            let after = store.with_updated(git_path, plan);
            &&& plan.git_path != git_path
            &&& !after.records.contains_key(git_path)
            &&& !after.paths.contains_key(recipe_id_of(git_path))
            &&& after.records[plan.git_path].recipe_id == recipe_id_of(plan.git_path)
            &&& after.paths[recipe_id_of(plan.git_path)] == plan.git_path
        }),
{
    lemma_update_plan_path(
        store.records.dom(),
        git_path,
        store.records[git_path],
        stored,
        name,
        content,
        category,
    );
}

/// A recipe whose new title gives another file name than its file has, or
/// whose category changes, moves.
pub proof fn lemma_rename_moves(
    taken: Set<Seq<char>>,
    git_path: Seq<char>,
    current: CachedRecipeView,
    stored: Seq<char>,
    name: Option<Seq<char>>,
    content: Option<Seq<char>>,
    category: Option<Option<Seq<char>>>,
)
    requires
        taken.finite(),
        update_plan(taken, git_path, current, stored, name, content, category) is Ok,
    ensures
        ({
            let plan = update_plan(taken, git_path, current, stored, name, content, category)->Ok_0;
            &&& plan.moved == (plan.file_name != filename_of(git_path) || plan.category
                != current.category)
            &&& plan.moved ==> !taken.contains(plan.git_path)
            &&& !plan.moved ==> plan.git_path == git_path
        }),
{
    lemma_update_plan_path(taken, git_path, current, stored, name, content, category);
}

/// A deleted recipe is in no listing: whatever is selected from the index
/// after the recipe under a path has been taken out, no recipe shown lies
/// under that path.
pub proof fn lemma_deleted_is_not_listed(
    store: StoreView,
    git_path: Seq<char>,
    selection: Selection,
    list: Seq<RecipeView>,
)
    requires
        store.wf(),
        shows(list, store.without(git_path).records, selection),
    ensures
        forall|i: int| 0 <= i < list.len() ==> (#[trigger] list[i]).git_path != git_path,
        !store.without(git_path).records.contains_key(git_path),
{
    let after = store.without(git_path).records;
    let found = choose|found: Seq<CachedRecipeView>|
        crate::cache::is_listing(found, after, selection) && found.len() == list.len()
            && forall|i: int| 0 <= i < list.len() ==> #[trigger] list[i] == listed(found[i]);
    let keys = choose|keys: Seq<Seq<char>>| is_listing_by(found, keys, after, selection);
    assert forall|i: int| 0 <= i < list.len() implies (#[trigger] list[i]).git_path
        != git_path by {
        assert(after.contains_key(keys[i]));
        assert(store.records.contains_key(keys[i]));
        assert(found[i] == store.records[keys[i]]);
    }
}

/// A deleted recipe is not found by its id either, and the other recipes
/// stay where they are.
pub proof fn lemma_deleted_id_leads_nowhere(store: StoreView, git_path: Seq<char>)
    requires
        store.wf(),
        store.records.contains_key(git_path),
    ensures
        !store.without(git_path).paths.contains_key(recipe_id_of(git_path)),
        forall|p: Seq<char>|
            p != git_path && store.records.contains_key(p) ==> #[trigger] store.without(
                git_path,
            ).records.contains_key(p) && store.without(git_path).records[p] == store.records[p],
{
}

/// A created recipe carries the text that was handed in, and that text,
/// unchanged, is what the backend wrote last, under the recipe's path.
pub proof fn lemma_created_text_is_written(
    store: StoreView,
    content: Seq<char>,
    category: Option<Seq<char>>,
)
    requires
        creation_plan(store.records.dom(), content, category) is Ok,
    ensures
        ({
            let plan = creation_plan(store.records.dom(), content, category)->Ok_0;
            let after = store.with_created(plan, content);
            &&& plan.recipe_with(content).content == content
            &&& after.log.last() == (Action::Wrote { path: plan.git_path, content })
            &&& after.log.drop_last() == store.log
            &&& after.records.contains_key(plan.git_path)
        }),
{
    let plan = creation_plan(store.records.dom(), content, category)->Ok_0;
    assert(store.with_created(plan, content).log.drop_last() =~= store.log);
}

/// The file of a deleted recipe is what the backend removed last.
pub proof fn lemma_deleted_file_is_removed(store: StoreView, git_path: Seq<char>)
    ensures
        store.without(git_path).log.last() == (Action::Removed { path: git_path }),
        store.without(git_path).log.drop_last() == store.log,
{
    assert(store.without(git_path).log.drop_last() =~= store.log);
}

/// A recipe that moves is written under its new path before its old file
/// is removed, and nothing else is asked of the backend.
pub proof fn lemma_move_writes_before_it_removes(
    store: StoreView,
    git_path: Seq<char>,
    plan: UpdateView,
)
    requires
        plan.moved,
        plan.written,
    ensures
        store.with_updated(git_path, plan).log == store.log + seq![
            Action::Wrote { path: plan.git_path, content: plan.content },
            Action::Removed { path: git_path },
        ],
        store.with_rewritten(git_path, plan).log == store.log + seq![
            Action::Wrote { path: plan.git_path, content: plan.content },
        ],
{
    assert(store.with_updated(git_path, plan).log =~= store.log + seq![
        Action::Wrote { path: plan.git_path, content: plan.content },
        Action::Removed { path: git_path },
    ]);
    assert(store.with_rewritten(git_path, plan).log =~= store.log + seq![
        Action::Wrote { path: plan.git_path, content: plan.content },
    ]);
}

/// An update that changes neither text nor place asks nothing of the
/// backend.
pub proof fn lemma_idle_update_writes_nothing(
    store: StoreView,
    git_path: Seq<char>,
    plan: UpdateView,
)
    requires
        !plan.moved,
        !plan.written,
    ensures
        store.with_updated(git_path, plan).log == store.log,
{
}

} // verus!
