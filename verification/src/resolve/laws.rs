//! What holds of every walk.

use vstd::prelude::*;

use crate::resolve::errors::{Namespace, WalkErrorView};
use crate::resolve::items::{
    ImportTreeView, ItemBodyView, ItemView, LowerErrorView, MacroItemView, SymbolItemView,
    TypeItemView, Visibility,
};
use crate::resolve::paths::{AbsolutePathView, CrateView, PathView, UnresolvedPathView};
use crate::resolve::phase::{
    CrateDataView, DbView, LocationView, ModuleView, PendingView, PhaseView, UnexpandedItemView,
};
use crate::resolve::scope::{use_imports, ImportView, ScopeView};
use crate::resolve::source::{lowered_items, source_items};
use crate::resolve::walk::{
    aliased, crate_effect, crate_outcome, exported_macro_path, insert_effect, item_effect, kept,
    relevant_effect, root_of, root_phase, waits_for_macro, walk_effect, walkable, WarningView,
};

verus! {

/// Walking items in two parts is walking them in one go.
pub proof fn law_walk_in_parts(
    before: (PhaseView, Seq<WarningView>),
    loc: LocationView,
    first: Seq<ItemView>,
    second: Seq<ItemView>,
)
    ensures
        walk_effect(before, loc, first + second) == walk_effect(
            walk_effect(before, loc, first),
            loc,
            second,
        ),
    decreases second.len(),
{
    if second.len() == 0 {
        assert(first + second == first);
    } else {
        assert((first + second).drop_last() == first + second.drop_last());
        assert((first + second).last() == second.last());
        law_walk_in_parts(before, loc, first, second.drop_last());
    }
}

/// A walk of a module that the phase holds neither adds nor drops modules, changes no module but
/// its own, does not move that module, and leaves the macro prelude alone. It can always go on.
pub proof fn law_walk_stays_in_module(
    before: (PhaseView, Seq<WarningView>),
    loc: LocationView,
    items: Seq<ItemView>,
)
    requires
        before.0.unexpanded_modules.contains_key(loc.module),
    ensures
        ({
            let after = walk_effect(before, loc, items).0;
            &&& after.unexpanded_modules.dom() == before.0.unexpanded_modules.dom()
            &&& after.unexpanded_modules.remove(loc.module)
                == before.0.unexpanded_modules.remove(loc.module)
            &&& after.unexpanded_modules[loc.module].loc
                == before.0.unexpanded_modules[loc.module].loc
            &&& after.macro_prelude == before.0.macro_prelude
        }),
        walkable(before.0, loc, items),
    decreases items.len(),
{
    if items.len() > 0 {
        law_walk_stays_in_module(before, loc, items.drop_last());
        let middle = walk_effect(before, loc, items.drop_last()).0;
        let after = walk_effect(before, loc, items).0;
        assert(after.unexpanded_modules.dom() =~= middle.unexpanded_modules.dom());
        assert(after.unexpanded_modules.remove(loc.module) =~= middle.unexpanded_modules.remove(
            loc.module,
        ));
    }
    assert forall|i: int|
        #![trigger items[i]]
        0 <= i < items.len() implies walk_effect(
        (before.0, Seq::empty()),
        loc,
        items.take(i),
    ).0.unexpanded_modules.contains_key(loc.module) by {
        law_walk_stays_in_module((before.0, Seq::empty()), loc, items.take(i));
    }
}

/// What is defined stays defined, as it was: a walk only adds to the database.
pub proof fn law_definitions_stay(
    before: (PhaseView, Seq<WarningView>),
    loc: LocationView,
    items: Seq<ItemView>,
)
    ensures
        before.0.db.types.submap_of(walk_effect(before, loc, items).0.db.types),
        before.0.db.symbols.submap_of(walk_effect(before, loc, items).0.db.symbols),
        before.0.db.macros.submap_of(walk_effect(before, loc, items).0.db.macros),
    decreases items.len(),
{
    if items.len() > 0 {
        law_definitions_stay(before, loc, items.drop_last());
        let middle = walk_effect(before, loc, items.drop_last()).0.db;
        let after = walk_effect(before, loc, items).0.db;
        lemma_submap(before.0.db.types, middle.types, after.types);
        lemma_submap(before.0.db.symbols, middle.symbols, after.symbols);
        lemma_submap(before.0.db.macros, middle.macros, after.macros);
    }
}

proof fn lemma_submap<V>(
    one: Map<AbsolutePathView, V>,
    two: Map<AbsolutePathView, V>,
    three: Map<AbsolutePathView, V>,
)
    requires
        one.submap_of(two),
        two.submap_of(three),
    ensures
        one.submap_of(three),
{
    assert forall|path: AbsolutePathView| #[trigger] one.dom().contains(path) implies three.dom()
        .contains(path) && one[path] == three[path] by {
        assert(two.dom().contains(path));
    }
}

/// The only macros that a walk adds to the database are `macro_rules!` definitions with
/// `#[macro_export]`, and each of them stands at the root of the crate under its own name.
pub proof fn law_only_exported_macros(
    before: (PhaseView, Seq<WarningView>),
    loc: LocationView,
    items: Seq<ItemView>,
    path: AbsolutePathView,
)
    requires
        walk_effect(before, loc, items).0.db.macros.contains_key(path),
        !before.0.db.macros.contains_key(path),
    ensures
        ({
            let MacroItemView::Declarative(def) = walk_effect(before, loc, items).0.db.macros[path];
            def.macro_export && path == exported_macro_path(loc, def.name)
        }),
    decreases items.len(),
{
    if items.len() > 0 {
        let middle = walk_effect(before, loc, items.drop_last());
        if middle.0.db.macros.contains_key(path) {
            law_only_exported_macros(before, loc, items.drop_last(), path);
            law_definitions_stay(middle, loc, seq![items.last()]);
            law_walk_in_parts(before, loc, items.drop_last(), seq![items.last()]);
            assert(items.drop_last() + seq![items.last()] =~= items);
        }
    }
}

/// Every function, struct and enum that a walk adds to the database stands in the walked module
/// under its own name.
pub proof fn law_definitions_in_module(
    before: (PhaseView, Seq<WarningView>),
    loc: LocationView,
    items: Seq<ItemView>,
    path: AbsolutePathView,
)
    ensures
        ({
            let after = walk_effect(before, loc, items).0.db;
            after.symbols.contains_key(path) && !before.0.db.symbols.contains_key(path) ==> {
                let SymbolItemView::Function(definition) = after.symbols[path];
                path == loc.module.join(definition.name)
            }
        }),
        ({
            let after = walk_effect(before, loc, items).0.db;
            after.types.contains_key(path) && !before.0.db.types.contains_key(path) ==> {
                match after.types[path] {
                    TypeItemView::Struct(definition) => path == loc.module.join(definition.name),
                    TypeItemView::Enum(definition) => path == loc.module.join(definition.name),
                }
            }
        }),
    decreases items.len(),
{
    if items.len() > 0 {
        let middle = walk_effect(before, loc, items.drop_last());
        law_definitions_in_module(before, loc, items.drop_last(), path);
        law_definitions_stay(middle, loc, seq![items.last()]);
        law_walk_in_parts(before, loc, items.drop_last(), seq![items.last()]);
        assert(items.drop_last() + seq![items.last()] =~= items);
    }
}

/// Where an item goes in the database, if it is put there at all.
pub open spec fn destination(loc: LocationView, item: ItemView) -> Option<
    (Namespace, AbsolutePathView),
> {
    match item.body {
        ItemBodyView::Fn { visibility: Visibility::Pub, lowered: Ok(definition) } => Some(
            (Namespace::Symbols, loc.module.join(definition.name)),
        ),
        ItemBodyView::Struct { lowered: Ok(definition) } => Some(
            (Namespace::Types, loc.module.join(definition.name)),
        ),
        ItemBodyView::Enum { lowered: Ok(definition) } => Some(
            (Namespace::Types, loc.module.join(definition.name)),
        ),
        _ => None,
    }
}

/// Items that do not go to the same place can be put into the database in either order: the
/// database and both results are the same.
pub proof fn law_insertion_order(db: DbView, loc: LocationView, one: ItemView, other: ItemView)
    requires
        destination(loc, one) != destination(loc, other) || destination(loc, one) is None,
    ensures
        ({
            let (one_first, one_result) = insert_effect(db, loc, one);
            let (one_other, other_result) = insert_effect(one_first, loc, other);
            let (other_first, other_result_first) = insert_effect(db, loc, other);
            let (other_one, one_result_last) = insert_effect(other_first, loc, one);
            &&& one_other == other_one
            &&& one_result == one_result_last
            &&& other_result == other_result_first
        }),
{
    let one_other = insert_effect(insert_effect(db, loc, one).0, loc, other).0;
    let other_one = insert_effect(insert_effect(db, loc, other).0, loc, one).0;
    assert(one_other.types =~= other_one.types);
    assert(one_other.symbols =~= other_one.symbols);
}

/// An item is put at its destination unless something stands there: then the item is refused and
/// what stands there is kept.
pub proof fn law_insertion_at_destination(db: DbView, loc: LocationView, item: ItemView)
    ensures
        ({
            let (after, result) = insert_effect(db, loc, item);
            match destination(loc, item) {
                Some((Namespace::Symbols, path)) => {
                    &&& after.symbols.dom() == db.symbols.dom().insert(path)
                    &&& result == (if db.symbols.contains_key(path) {
                        Err(WalkErrorView::AlreadyDefined(Namespace::Symbols, path))
                    } else {
                        Ok(())
                    })
                    &&& after.types == db.types
                },
                Some((_, path)) => {
                    &&& after.types.dom() == db.types.dom().insert(path)
                    &&& result == (if db.types.contains_key(path) {
                        Err(WalkErrorView::AlreadyDefined(Namespace::Types, path))
                    } else {
                        Ok(())
                    })
                    &&& after.symbols == db.symbols
                },
                None => after == db,
            }
        }),
        insert_effect(db, loc, item).0.macros == db.macros,
{
    let after = insert_effect(db, loc, item).0;
    match destination(loc, item) {
        Some((Namespace::Symbols, path)) => {
            assert(after.symbols.dom() =~= db.symbols.dom().insert(path));
        },
        Some((_, path)) => {
            assert(after.types.dom() =~= db.types.dom().insert(path));
        },
        None => {},
    }
}

/// Handling the items that are relevant to the phase leaves types and symbols alone, and a
/// refused item leaves the whole phase alone.
pub proof fn law_relevant_items(phase: PhaseView, loc: LocationView, item: ItemView)
    ensures
        relevant_effect(phase, loc, item).0.db.types == phase.db.types,
        relevant_effect(phase, loc, item).0.db.symbols == phase.db.symbols,
        relevant_effect(phase, loc, item).1 is Err ==> relevant_effect(phase, loc, item).0 == phase,
{
}

/// The macros that the text of a module defines only grow while it is walked, and the macro
/// invocations that are kept for later stay in order. Each invocation that a walk adds sees the
/// macros that were defined before it: what it sees, up to its own empty entry, is where the
/// module's textual scope started, followed by a part of what the walk went on to define.
pub proof fn law_textual_scopes(
    before: (PhaseView, Seq<WarningView>),
    loc: LocationView,
    items: Seq<ItemView>,
)
    requires
        before.0.unexpanded_modules.contains_key(loc.module),
    ensures
        ({
            let start = before.0.unexpanded_modules[loc.module];
            let end = walk_effect(before, loc, items).0.unexpanded_modules[loc.module];
            &&& start.textual_scope.is_prefix_of(end.textual_scope)
            &&& start.unexpanded_items.is_prefix_of(end.unexpanded_items)
            &&& forall|i: int|
                start.unexpanded_items.len() <= i < end.unexpanded_items.len() ==> sees_between(
                    start,
                    #[trigger] end.unexpanded_items[i],
                    end,
                )
        }),
    decreases items.len(),
{
    let start = before.0.unexpanded_modules[loc.module];
    let end = walk_effect(before, loc, items).0.unexpanded_modules[loc.module];
    if items.len() > 0 {
        law_textual_scopes(before, loc, items.drop_last());
        law_walk_stays_in_module(before, loc, items.drop_last());
        let walked = walk_effect(before, loc, items.drop_last());
        let middle = walked.0.unexpanded_modules[loc.module];
        lemma_item_textual_scope(walked, loc, items.last());
        assert forall|i: int|
            start.unexpanded_items.len() <= i < end.unexpanded_items.len() implies sees_between(
            start,
            #[trigger] end.unexpanded_items[i],
            end,
        ) by {
            if i < middle.unexpanded_items.len() {
                assert(end.unexpanded_items[i] == middle.unexpanded_items[i]);
                assert(sees_between(start, middle.unexpanded_items[i], middle));
            } else {
                assert(sees_between(middle, end.unexpanded_items[i], end));
            }
        }
    }
}

proof fn lemma_item_textual_scope(
    before: (PhaseView, Seq<WarningView>),
    loc: LocationView,
    item: ItemView,
)
    requires
        before.0.unexpanded_modules.contains_key(loc.module),
    ensures
        ({
            let start = before.0.unexpanded_modules[loc.module];
            let end = item_effect(before, loc, item).0.unexpanded_modules[loc.module];
            &&& start.textual_scope.is_prefix_of(end.textual_scope)
            &&& start.unexpanded_items.is_prefix_of(end.unexpanded_items)
            &&& forall|i: int|
                start.unexpanded_items.len() <= i < end.unexpanded_items.len() ==> sees_between(
                    start,
                    #[trigger] end.unexpanded_items[i],
                    end,
                )
        }),
{
    let start = before.0.unexpanded_modules[loc.module];
    let end = item_effect(before, loc, item).0.unexpanded_modules[loc.module];
    assert(start.textual_scope.push(None).drop_last() =~= start.textual_scope);
}

/// Whether a pending item sees what `start` defines, and nothing that `end` does not.
pub open spec fn sees_between(start: ModuleView, item: PendingView, end: ModuleView) -> bool {
    &&& item.textual_scope.len() > 0
    &&& item.textual_scope.last() is None
    &&& start.textual_scope.is_prefix_of(item.textual_scope.drop_last())
    &&& item.textual_scope.drop_last().is_prefix_of(end.textual_scope)
}

/// A walk keeps the warnings that it started with and adds at most one for each item. That an item
/// has nothing to do with the phase, is not `pub` or is configured out is never warned of.
pub proof fn law_warnings(
    before: (PhaseView, Seq<WarningView>),
    loc: LocationView,
    items: Seq<ItemView>,
)
    ensures
        before.1.is_prefix_of(walk_effect(before, loc, items).1),
        walk_effect(before, loc, items).1.len() <= before.1.len() + items.len(),
        forall|i: int|
            before.1.len() <= i < walk_effect(before, loc, items).1.len() ==> ({
                let cause = (#[trigger] walk_effect(before, loc, items).1[i]).cause;
                &&& cause != WalkErrorView::PhaseIrrelevant
                &&& cause != WalkErrorView::NonPub
                &&& cause != WalkErrorView::Lower(LowerErrorView::CfgdOut)
            }),
    decreases items.len(),
{
    if items.len() > 0 {
        law_warnings(before, loc, items.drop_last());
    }
}

proof fn lemma_around(
    before: (PhaseView, Seq<WarningView>),
    loc: LocationView,
    items: Seq<ItemView>,
    i: int,
)
    requires
        0 <= i < items.len(),
    ensures
        walk_effect(before, loc, items) == walk_effect(
            item_effect(walk_effect(before, loc, items.take(i)), loc, items[i]),
            loc,
            items.skip(i + 1),
        ),
{
    assert(items.take(i + 1).drop_last() =~= items.take(i));
    law_walk_in_parts(before, loc, items.take(i + 1), items.skip(i + 1));
    assert(items.take(i + 1) + items.skip(i + 1) =~= items);
}

/// A walk leaves nothing out: the path of every function that is `pub`, and of every struct and
/// enum, that was lowered is defined after it, and so is that of every `macro_rules!` definition
/// with `#[macro_export]`.
pub proof fn law_all_defined(
    before: (PhaseView, Seq<WarningView>),
    loc: LocationView,
    items: Seq<ItemView>,
    i: int,
)
    requires
        0 <= i < items.len(),
    ensures
        ({
            let after = walk_effect(before, loc, items).0.db;
            &&& match destination(loc, items[i]) {
                Some((Namespace::Symbols, path)) => after.symbols.contains_key(path),
                Some((_, path)) => after.types.contains_key(path),
                None => true,
            }
            &&& match items[i].body {
                ItemBodyView::Macro { path, definition: Ok(def), .. } => path.ident() == Some(
                    "macro_rules"@,
                ) && def.macro_export ==> after.macros.contains_key(
                    exported_macro_path(loc, def.name),
                ),
                _ => true,
            }
        }),
{
    let middle = item_effect(walk_effect(before, loc, items.take(i)), loc, items[i]);
    lemma_around(before, loc, items, i);
    law_definitions_stay(middle, loc, items.skip(i + 1));
    match destination(loc, items[i]) {
        Some((Namespace::Symbols, path)) => {
            assert(middle.0.db.symbols.dom().contains(path));
        },
        Some((_, path)) => {
            assert(middle.0.db.types.dom().contains(path));
        },
        None => {},
    }
    match items[i].body {
        ItemBodyView::Macro { path, definition: Ok(def), .. } => {
            if path.ident() == Some("macro_rules"@) && def.macro_export {
                assert(middle.0.db.macros.dom().contains(exported_macro_path(loc, def.name)));
            }
        },
        _ => {},
    }
}

/// What an item leaves to expand: a macro invocation that is no `macro_rules!` definition, or an
/// item that holds a macro in type position.
pub open spec fn left_to_expand(item: ItemView) -> Option<UnexpandedItemView> {
    match item.body {
        ItemBodyView::Macro { path, .. } => if path.ident() != Some("macro_rules"@) {
            Some(UnexpandedItemView::UnresolvedMacroInvocation(item.tokens))
        } else {
            None
        },
        _ => if waits_for_macro(item) {
            Some(UnexpandedItemView::TypeMacro(item.tokens))
        } else {
            None
        },
    }
}

/// What cannot be defined before a macro is expanded is not lost: macro invocations, and items that
/// hold a macro in type position, are in their module after the walk, with their spans and tokens.
pub proof fn law_all_kept(
    before: (PhaseView, Seq<WarningView>),
    loc: LocationView,
    items: Seq<ItemView>,
    i: int,
)
    requires
        0 <= i < items.len(),
        before.0.unexpanded_modules.contains_key(loc.module),
    ensures
        ({
            let after = walk_effect(before, loc, items).0.unexpanded_modules[loc.module];
            left_to_expand(items[i]) matches Some(left) ==> exists|k: int|
                {
                    &&& 0 <= k < after.unexpanded_items.len()
                    &&& (#[trigger] after.unexpanded_items[k]).item == left
                    &&& after.unexpanded_items[k].span == loc.span_at(items[i].position)
                }
        }),
{
    law_walk_stays_in_module(before, loc, items.take(i));
    lemma_around(before, loc, items, i);
    let walked = walk_effect(before, loc, items.take(i));
    let middle = item_effect(walked, loc, items[i]);
    law_textual_scopes(middle, loc, items.skip(i + 1));
    let waiting = middle.0.unexpanded_modules[loc.module].unexpanded_items;
    let after = walk_effect(before, loc, items).0.unexpanded_modules[loc.module];
    let k = waiting.len() - 1;
    if left_to_expand(items[i]) is Some {
        assert(waiting.last().item == left_to_expand(items[i])->Some_0);
        assert(after.unexpanded_items[k] == waiting[k]);
    }
}

/// A single item that holds a macro in type position adds exactly one entry to its module, and
/// neither a definition nor a warning.
pub proof fn law_type_macro(
    before: (PhaseView, Seq<WarningView>),
    loc: LocationView,
    item: ItemView,
)
    requires
        waits_for_macro(item),
    ensures
        item_effect(before, loc, item) == (kept(before.0, loc, item), before.1),
        walk_effect(before, loc, seq![item]) == item_effect(before, loc, item),
{
    reveal_with_fuel(walk_effect, 2);
    assert(seq![item].drop_last() =~= Seq::empty());
    assert(item_effect(before, loc, item).0 =~= kept(before.0, loc, item));
}

/// Walking the root module of a crate leaves nothing out: the path of every function that is `pub`,
/// and of every struct and enum, that was lowered there is in the database, and what has to be
/// expanded first is in the root module.
pub proof fn law_crate_is_stored(
    crate_data: CrateDataView,
    db: DbView,
    items: Seq<ItemView>,
    i: int,
)
    requires
        0 <= i < items.len(),
    ensures
        ({
            let loc = root_of(crate_data);
            let (after, walked) = crate_effect(crate_data, db, items);
            &&& match destination(loc, items[i]) {
                Some((Namespace::Symbols, path)) => after.symbols.contains_key(path),
                Some((_, path)) => after.types.contains_key(path),
                None => true,
            }
            &&& left_to_expand(items[i]) matches Some(left) ==> exists|k: int|
                {
                    &&& 0 <= k < walked.root.unexpanded_items.len()
                    &&& (#[trigger] walked.root.unexpanded_items[k]).item == left
                    &&& walked.root.unexpanded_items[k].span == loc.span_at(items[i].position)
                }
        }),
{
    let loc = root_of(aliased(crate_data, items));
    law_all_defined((root_phase(db, loc), Seq::empty()), loc, items, i);
    law_all_kept((root_phase(db, loc), Seq::empty()), loc, items, i);
}

/// Two crates can be walked into one database in either order: what is known of each crate, what is
/// left of each, or why it failed, and the database are the same as after the other order.
pub proof fn law_crates_in_either_order(
    db: DbView,
    one: CrateDataView,
    one_source: Seq<char>,
    one_failures: Seq<Option<LowerErrorView>>,
    other: CrateDataView,
    other_source: Seq<char>,
    other_failures: Seq<Option<LowerErrorView>>,
)
    requires
        one.crate_ != other.crate_,
    ensures
        ({
            let one_first = crate_outcome(one, db, one_source, one_failures);
            let other_second = crate_outcome(other, one_first.1, other_source, other_failures);
            let other_first = crate_outcome(other, db, other_source, other_failures);
            let one_second = crate_outcome(one, other_first.1, one_source, one_failures);
            &&& one_second.0 == one_first.0
            &&& other_second.0 == other_first.0
            &&& other_second.1 == one_second.1
            &&& one_second.2 == one_first.2
            &&& other_second.2 == other_first.2
        }),
{
    if source_items(one_source) is Some && source_items(other_source) is Some {
        let one_items = lowered_items(source_items(one_source)->Some_0, one_failures);
        let other_items = lowered_items(source_items(other_source)->Some_0, other_failures);
        let one_loc = root_of(aliased(one, one_items));
        let other_loc = root_of(aliased(other, other_items));
        let one_phase = root_phase(db, one_loc);
        let other_phase = root_phase(db, other_loc);
        law_crates_are_independent(
            db,
            (one_phase, Seq::empty()),
            one_loc,
            one_items,
            (other_phase, Seq::empty()),
            other_loc,
            other_items,
        );
        assert(with_db(one_phase, db) == one_phase);
        assert(with_db(other_phase, db) == other_phase);
        let one_first = crate_outcome(one, db, one_source, one_failures);
        let other_first = crate_outcome(other, db, other_source, other_failures);
        assert(with_db(one_phase, other_first.1) == root_phase(other_first.1, one_loc));
        assert(with_db(other_phase, one_first.1) == root_phase(one_first.1, other_loc));
    }
}

/// Whether an error is not warned of: functions and the like that are not `pub` are passed over,
/// and items that hold a macro in type position are kept until it is expanded.
pub open spec fn passed_over(error: WalkErrorView) -> bool {
    ||| error == WalkErrorView::NonPub
    ||| error == WalkErrorView::Lower(LowerErrorView::TypePositionMacro)
}

/// No error gets lost: an item that fails leaves a warning with its cause and its span, unless the
/// error is passed over or the item is configured out.
pub proof fn law_failures_are_warned_of(
    before: (PhaseView, Seq<WarningView>),
    loc: LocationView,
    items: Seq<ItemView>,
    i: int,
    cause: WalkErrorView,
)
    requires
        0 <= i < items.len(),
        cause != WalkErrorView::PhaseIrrelevant,
        cause != WalkErrorView::Lower(LowerErrorView::CfgdOut),
        ({
            let (phase, _) = walk_effect(before, loc, items.take(i));
            let (handled_phase, handled) = relevant_effect(phase, loc, items[i]);
            ||| handled == Err::<(), _>(cause)
            ||| {
                &&& handled == Err::<(), _>(WalkErrorView::PhaseIrrelevant)
                &&& insert_effect(handled_phase.db, loc, items[i]).1 == Err::<(), _>(cause)
                &&& !passed_over(cause)
            }
        }),
    ensures
        walk_effect(before, loc, items).1.contains(
            WarningView { cause, span: loc.span_at(items[i].position) },
        ),
{
    let middle = item_effect(walk_effect(before, loc, items.take(i)), loc, items[i]);
    lemma_around(before, loc, items, i);
    law_warnings(middle, loc, items.skip(i + 1));
    let at = middle.1.len() - 1;
    assert(middle.1[at] == WarningView { cause, span: loc.span_at(items[i].position) });
    assert(walk_effect(before, loc, items).1[at] == middle.1[at]);
}

/// What a table says of a path.
pub open spec fn entry<V>(table: Map<AbsolutePathView, V>, path: AbsolutePathView) -> Option<V> {
    if table.contains_key(path) {
        Some(table[path])
    } else {
        None
    }
}

/// Whether two tables say the same of the paths in `crate_`.
pub open spec fn agree_in<V>(
    one: Map<AbsolutePathView, V>,
    other: Map<AbsolutePathView, V>,
    crate_: CrateView,
) -> bool {
    forall|path: AbsolutePathView|
        #![trigger entry(one, path)]
        #![trigger entry(other, path)]
        path.crate_ == crate_ ==> entry(one, path) == entry(other, path)
}

/// Whether two tables say the same of the paths outside `crate_`.
pub open spec fn agree_outside<V>(
    one: Map<AbsolutePathView, V>,
    other: Map<AbsolutePathView, V>,
    crate_: CrateView,
) -> bool {
    forall|path: AbsolutePathView|
        #![trigger entry(one, path)]
        #![trigger entry(other, path)]
        path.crate_ != crate_ ==> entry(one, path) == entry(other, path)
}

proof fn lemma_same_entries<V>(one: Map<AbsolutePathView, V>, other: Map<AbsolutePathView, V>)
    requires
        forall|path: AbsolutePathView| #[trigger] entry(one, path) == entry(other, path),
    ensures
        one == other,
{
    assert forall|path: AbsolutePathView| #[trigger]
        one.dom().contains(path) == other.dom().contains(path) by {
        assert(entry(one, path) == entry(other, path));
    }
    assert forall|path: AbsolutePathView| #[trigger] one.dom().contains(path) implies one[path]
        == other[path] by {
        assert(entry(one, path) == entry(other, path));
    }
    assert(one =~= other);
}

proof fn lemma_define_in_both<V>(
    one: Map<AbsolutePathView, V>,
    other: Map<AbsolutePathView, V>,
    path: AbsolutePathView,
    value: V,
)
    requires
        agree_in(one, other, path.crate_),
    ensures
        entry(one, path) == entry(other, path),
        agree_in(one.insert(path, value), other.insert(path, value), path.crate_),
        agree_outside(one, one.insert(path, value), path.crate_),
{
    assert forall|at: AbsolutePathView| at.crate_ == path.crate_ implies entry(
        one.insert(path, value),
        at,
    ) == entry(other.insert(path, value), at) by {
        assert(entry(one, at) == entry(other, at));
    }
    assert forall|at: AbsolutePathView| at.crate_ != path.crate_ implies entry(one, at) == entry(
        one.insert(path, value),
        at,
    ) by {}
}

/// Whether two databases say the same of `crate_`.
pub open spec fn same_crate(one: DbView, other: DbView, crate_: CrateView) -> bool {
    &&& agree_in(one.types, other.types, crate_)
    &&& agree_in(one.symbols, other.symbols, crate_)
    &&& agree_in(one.macros, other.macros, crate_)
}

/// Whether two databases say the same of all crates but `crate_`.
pub open spec fn same_other_crates(one: DbView, other: DbView, crate_: CrateView) -> bool {
    &&& agree_outside(one.types, other.types, crate_)
    &&& agree_outside(one.symbols, other.symbols, crate_)
    &&& agree_outside(one.macros, other.macros, crate_)
}

/// The phase with another database.
pub open spec fn with_db(phase: PhaseView, db: DbView) -> PhaseView {
    PhaseView { db, ..phase }
}

/// Whether a module is a module of its own crate.
pub open spec fn at_home(loc: LocationView) -> bool {
    loc.module.crate_ == loc.crate_data.crate_
}

/// A walk changes the database in the module's own crate only, and what is said of other crates
/// makes no difference to it.
pub proof fn law_walk_stays_in_crate(
    before: (PhaseView, Seq<WarningView>),
    other: DbView,
    loc: LocationView,
    items: Seq<ItemView>,
)
    requires
        at_home(loc),
        same_crate(before.0.db, other, loc.module.crate_),
    ensures
        ({
            let after = walk_effect(before, loc, items);
            let after_other = walk_effect((with_db(before.0, other), before.1), loc, items);
            &&& same_other_crates(before.0.db, after.0.db, loc.module.crate_)
            &&& same_crate(after.0.db, after_other.0.db, loc.module.crate_)
            &&& after_other.0 == with_db(after.0, after_other.0.db)
            &&& after_other.1 == after.1
        }),
    decreases items.len(),
{
    if items.len() > 0 {
        law_walk_stays_in_crate(before, other, loc, items.drop_last());
        let middle = walk_effect(before, loc, items.drop_last());
        let middle_other = walk_effect(
            (with_db(before.0, other), before.1),
            loc,
            items.drop_last(),
        );
        lemma_item_stays_in_crate(middle, middle_other.0.db, loc, items.last());
    }
}

proof fn lemma_item_stays_in_crate(
    before: (PhaseView, Seq<WarningView>),
    other: DbView,
    loc: LocationView,
    item: ItemView,
)
    requires
        at_home(loc),
        same_crate(before.0.db, other, loc.module.crate_),
    ensures
        ({
            let after = item_effect(before, loc, item);
            let after_other = item_effect((with_db(before.0, other), before.1), loc, item);
            &&& same_other_crates(before.0.db, after.0.db, loc.module.crate_)
            &&& same_crate(after.0.db, after_other.0.db, loc.module.crate_)
            &&& after_other.0 == with_db(after.0, after_other.0.db)
            &&& after_other.1 == after.1
        }),
{
    match item.body {
        ItemBodyView::Macro { definition: Ok(def), .. } => {
            let path = exported_macro_path(loc, def.name);
            lemma_define_in_both(
                before.0.db.macros,
                other.macros,
                path,
                MacroItemView::Declarative(def),
            );
        },
        ItemBodyView::Fn { lowered: Ok(definition), .. } => {
            let path = loc.module.join(definition.name);
            lemma_define_in_both(
                before.0.db.symbols,
                other.symbols,
                path,
                SymbolItemView::Function(definition),
            );
        },
        ItemBodyView::Struct { lowered: Ok(definition) } => {
            let path = loc.module.join(definition.name);
            lemma_define_in_both(
                before.0.db.types,
                other.types,
                path,
                TypeItemView::Struct(definition),
            );
        },
        ItemBodyView::Enum { lowered: Ok(definition) } => {
            let path = loc.module.join(definition.name);
            lemma_define_in_both(
                before.0.db.types,
                other.types,
                path,
                TypeItemView::Enum(definition),
            );
        },
        _ => {},
    }
    let after = item_effect(before, loc, item);
    let after_other = item_effect((with_db(before.0, other), before.1), loc, item);
    assert(after_other.1 == after.1);
    assert(after_other.0 == with_db(after.0, after_other.0.db));
}

/// Crates can be walked into one database in either order: the database, what the phases hold of
/// the modules and the warnings are the same.
pub proof fn law_crates_are_independent(
    db: DbView,
    one: (PhaseView, Seq<WarningView>),
    one_loc: LocationView,
    one_items: Seq<ItemView>,
    other: (PhaseView, Seq<WarningView>),
    other_loc: LocationView,
    other_items: Seq<ItemView>,
)
    requires
        at_home(one_loc),
        at_home(other_loc),
        one_loc.module.crate_ != other_loc.module.crate_,
    ensures
        ({
            let one_first = walk_effect((with_db(one.0, db), one.1), one_loc, one_items);
            let other_second = walk_effect(
                (with_db(other.0, one_first.0.db), other.1),
                other_loc,
                other_items,
            );
            let other_first = walk_effect((with_db(other.0, db), other.1), other_loc, other_items);
            let one_second = walk_effect(
                (with_db(one.0, other_first.0.db), one.1),
                one_loc,
                one_items,
            );
            &&& other_second.0.db == one_second.0.db
            &&& one_second.0.unexpanded_modules == one_first.0.unexpanded_modules
            &&& other_second.0.unexpanded_modules == other_first.0.unexpanded_modules
            &&& one_second.0.macro_prelude == one_first.0.macro_prelude
            &&& other_second.0.macro_prelude == other_first.0.macro_prelude
            &&& one_second.1 == one_first.1
            &&& other_second.1 == other_first.1
        }),
{
    let one_start = (with_db(one.0, db), one.1);
    let other_start = (with_db(other.0, db), other.1);
    let one_first = walk_effect(one_start, one_loc, one_items);
    let other_first = walk_effect(other_start, other_loc, other_items);
    law_walk_stays_in_crate(one_start, db, one_loc, one_items);
    law_walk_stays_in_crate(other_start, db, other_loc, other_items);
    law_walk_stays_in_crate(other_start, one_first.0.db, other_loc, other_items);
    law_walk_stays_in_crate(one_start, other_first.0.db, one_loc, one_items);
    let one_middle = (with_db(one.0, other_first.0.db), one.1);
    let other_middle = (with_db(other.0, one_first.0.db), other.1);
    law_walk_stays_in_crate(one_middle, other_first.0.db, one_loc, one_items);
    law_walk_stays_in_crate(other_middle, one_first.0.db, other_loc, other_items);
    assert(with_db(one_start.0, other_first.0.db) == one_middle.0);
    assert(with_db(other_start.0, one_first.0.db) == other_middle.0);
    let one_second = walk_effect(one_middle, one_loc, one_items);
    let other_second = walk_effect(other_middle, other_loc, other_items);
    lemma_same_entries(other_second.0.db.types, one_second.0.db.types);
    lemma_same_entries(other_second.0.db.symbols, one_second.0.db.symbols);
    lemma_same_entries(other_second.0.db.macros, one_second.0.db.macros);
}

/// The `use` tree in which `leaf` stands after the names `prefix`.
pub open spec fn use_chain(prefix: Seq<Seq<char>>, leaf: ImportTreeView) -> ImportTreeView
    decreases prefix.len(),
{
    if prefix.len() == 0 {
        leaf
    } else {
        ImportTreeView::Path(prefix[0], Box::new(use_chain(prefix.drop_first(), leaf)))
    }
}

proof fn lemma_use_chain(
    rooted: bool,
    done: Seq<Seq<char>>,
    prefix: Seq<Seq<char>>,
    leaf: ImportTreeView,
)
    ensures
        use_imports(rooted, done, use_chain(prefix, leaf)) == use_imports(
            rooted,
            done + prefix,
            leaf,
        ),
    decreases prefix.len(),
{
    if prefix.len() == 0 {
        assert(done + prefix =~= done);
    } else {
        lemma_use_chain(rooted, done.push(prefix[0]), prefix.drop_first(), leaf);
        assert(done.push(prefix[0]) + prefix.drop_first() =~= done + prefix);
    }
}

proof fn lemma_bind_one(scope: ScopeView, visibility: Visibility, import: ImportView)
    ensures
        scope.bind_all(visibility, seq![import]) == scope.bind(visibility, import),
{
    reveal_with_fuel(ScopeView::bind_all, 2);
    assert(seq![import].drop_last() =~= Seq::empty());
}

/// `use x::Y` is stored as `Y => x::Y`, whatever names stand in `x`.
pub proof fn law_use_name(
    scope: ScopeView,
    visibility: Visibility,
    rooted: bool,
    prefix: Seq<Seq<char>>,
    name: Seq<char>,
)
    requires
        name != "self"@,
    ensures
        scope.bind_all(
            visibility,
            use_imports(rooted, Seq::empty(), use_chain(prefix, ImportTreeView::Name(name))),
        ) == scope.import(
            visibility,
            name,
            PathView::Unresolved(UnresolvedPathView { rooted, path: prefix.push(name) }),
        ),
{
    lemma_use_chain(rooted, Seq::empty(), prefix, ImportTreeView::Name(name));
    assert(Seq::<Seq<char>>::empty() + prefix =~= prefix);
    lemma_bind_one(
        scope,
        visibility,
        ImportView::Named { name, path: UnresolvedPathView { rooted, path: prefix.push(name) } },
    );
}

/// `use x::z as w` is stored as `w => x::z`.
pub proof fn law_use_rename(
    scope: ScopeView,
    visibility: Visibility,
    rooted: bool,
    prefix: Seq<Seq<char>>,
    name: Seq<char>,
    alias: Seq<char>,
)
    requires
        name != "self"@,
    ensures
        scope.bind_all(
            visibility,
            use_imports(
                rooted,
                Seq::empty(),
                use_chain(prefix, ImportTreeView::Rename(name, alias)),
            ),
        ) == scope.import(
            visibility,
            alias,
            PathView::Unresolved(UnresolvedPathView { rooted, path: prefix.push(name) }),
        ),
{
    lemma_use_chain(rooted, Seq::empty(), prefix, ImportTreeView::Rename(name, alias));
    assert(Seq::<Seq<char>>::empty() + prefix =~= prefix);
    lemma_bind_one(
        scope,
        visibility,
        ImportView::Named {
            name: alias,
            path: UnresolvedPathView { rooted, path: prefix.push(name) },
        },
    );
}

/// `use x::y::z::*` is stored as `x::y::z` among the globs.
pub proof fn law_use_glob(
    scope: ScopeView,
    visibility: Visibility,
    rooted: bool,
    prefix: Seq<Seq<char>>,
)
    ensures
        scope.bind_all(
            visibility,
            use_imports(rooted, Seq::empty(), use_chain(prefix, ImportTreeView::Glob)),
        ) == scope.import_glob(
            visibility,
            PathView::Unresolved(UnresolvedPathView { rooted, path: prefix }),
        ),
{
    lemma_use_chain(rooted, Seq::empty(), prefix, ImportTreeView::Glob);
    assert(Seq::<Seq<char>>::empty() + prefix =~= prefix);
    lemma_bind_one(
        scope,
        visibility,
        ImportView::Glob { path: UnresolvedPathView { rooted, path: prefix } },
    );
}

} // verus!
