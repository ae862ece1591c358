//! What walking makes of each kind of items.

use vstd::prelude::*;

use crate::resolve::errors::{Namespace, WalkErrorView};
use crate::resolve::items::{
    DeclarativeMacroView, DefinitionView, ImportTreeView, ItemBodyView, ItemView, LowerErrorView,
    MacroItemView, SpanView, SymbolItemView, TypeItemView, Visibility,
};
use crate::resolve::paths::{AbsolutePathView, PathView, UnresolvedPathView};
use crate::resolve::phase::{
    CrateDataView, DbView, LocationView, ModuleView, PendingView, PhaseView, UnexpandedItemView,
};
use crate::resolve::scope::{use_imports, ScopeView};
use crate::resolve::source::{
    failure_at, located, lowered, lowered_items, source_error, source_items, ItemKind, RawItemView,
    SourceItemView,
};
use crate::resolve::walk::{
    aliased, aliases, crate_outcome, insert_effect, item_effect, relevant_effect, root_of,
    root_phase, source_effect, walk_effect, warned, WarningView,
};

verus! {

/// The path of a definition called `name` in the module at `loc`.
pub open spec fn path_in(loc: LocationView, name: Seq<char>) -> AbsolutePathView {
    AbsolutePathView { crate_: loc.module.crate_, path: loc.module.path + seq![name] }
}

proof fn lemma_path_in(loc: LocationView, name: Seq<char>)
    ensures
        path_in(loc, name) == loc.module.join(name),
{
    assert(loc.module.path.push(name) =~= loc.module.path + seq![name]);
}

/// A struct that was lowered is stored as it is, as a type at its path, and nothing else changes.
/// Where that path is defined the struct is refused and nothing changes.
pub proof fn law_struct_is_stored(
    db: DbView,
    loc: LocationView,
    item: ItemView,
    definition: DefinitionView,
)
    requires
        item.body == (ItemBodyView::Struct { lowered: Ok(definition) }),
    ensures
        ({
            let path = path_in(loc, definition.name);
            let (after, result) = insert_effect(db, loc, item);
            if db.types.contains_key(path) {
                after == db && result == Err::<(), _>(
                    WalkErrorView::AlreadyDefined(Namespace::Types, path),
                )
            } else {
                &&& result is Ok
                &&& after.types.contains_key(path)
                &&& after.types[path] == TypeItemView::Struct(definition)
                &&& after.types.remove(path) == db.types
                &&& after.symbols == db.symbols
                &&& after.macros == db.macros
            }
        }),
{
    lemma_path_in(loc, definition.name);
    let path = path_in(loc, definition.name);
    if !db.types.contains_key(path) {
        assert(insert_effect(db, loc, item).0.types.remove(path) =~= db.types);
    }
}

/// An enum that was lowered is stored as it is, as a type at its path, and nothing else changes.
/// Where that path is defined the enum is refused and nothing changes.
pub proof fn law_enum_is_stored(
    db: DbView,
    loc: LocationView,
    item: ItemView,
    definition: DefinitionView,
)
    requires
        item.body == (ItemBodyView::Enum { lowered: Ok(definition) }),
    ensures
        ({
            let path = path_in(loc, definition.name);
            let (after, result) = insert_effect(db, loc, item);
            if db.types.contains_key(path) {
                after == db && result == Err::<(), _>(
                    WalkErrorView::AlreadyDefined(Namespace::Types, path),
                )
            } else {
                &&& result is Ok
                &&& after.types.contains_key(path)
                &&& after.types[path] == TypeItemView::Enum(definition)
                &&& after.types.remove(path) == db.types
                &&& after.symbols == db.symbols
                &&& after.macros == db.macros
            }
        }),
{
    lemma_path_in(loc, definition.name);
    let path = path_in(loc, definition.name);
    if !db.types.contains_key(path) {
        assert(insert_effect(db, loc, item).0.types.remove(path) =~= db.types);
    }
}

/// A function that is `pub` and was lowered is stored as it is, as a symbol at its path, and
/// nothing else changes. Where that path is defined the function is refused and nothing changes.
pub proof fn law_function_is_stored(
    db: DbView,
    loc: LocationView,
    item: ItemView,
    definition: DefinitionView,
)
    requires
        item.body == (ItemBodyView::Fn { visibility: Visibility::Pub, lowered: Ok(definition) }),
    ensures
        ({
            let path = path_in(loc, definition.name);
            let (after, result) = insert_effect(db, loc, item);
            if db.symbols.contains_key(path) {
                after == db && result == Err::<(), _>(
                    WalkErrorView::AlreadyDefined(Namespace::Symbols, path),
                )
            } else {
                &&& result is Ok
                &&& after.symbols.contains_key(path)
                &&& after.symbols[path] == SymbolItemView::Function(definition)
                &&& after.symbols.remove(path) == db.symbols
                &&& after.types == db.types
                &&& after.macros == db.macros
            }
        }),
{
    lemma_path_in(loc, definition.name);
    let path = path_in(loc, definition.name);
    if !db.symbols.contains_key(path) {
        assert(insert_effect(db, loc, item).0.symbols.remove(path) =~= db.symbols);
    }
}

/// Statics, constants and functions that are not `pub` are refused as such. An item that could not
/// be lowered is refused with that error. Everything else is passed by. None of these changes the
/// database.
pub proof fn law_not_stored(db: DbView, loc: LocationView, item: ItemView)
    ensures
        match item.body {
            ItemBodyView::Static { visibility, .. } | ItemBodyView::Const { visibility, .. } => {
                insert_effect(db, loc, item) == (
                    db,
                    if visibility == Visibility::Pub {
                        Ok(())
                    } else {
                        Err(WalkErrorView::NonPub)
                    },
                )
            },
            ItemBodyView::Fn { visibility, lowered } => {
                &&& visibility == Visibility::NonPub ==> insert_effect(db, loc, item) == (
                    db,
                    Err::<(), _>(WalkErrorView::NonPub),
                )
                &&& visibility == Visibility::Pub && lowered is Err ==> insert_effect(
                    db,
                    loc,
                    item,
                ) == (db, Err::<(), _>(WalkErrorView::Lower(lowered->Err_0)))
            },
            ItemBodyView::Struct { lowered } | ItemBodyView::Enum { lowered } => {
                lowered is Err ==> insert_effect(db, loc, item) == (
                    db,
                    Err::<(), _>(WalkErrorView::Lower(lowered->Err_0)),
                )
            },
            _ => insert_effect(db, loc, item) == (db, Ok::<(), WalkErrorView>(())),
        },
{
}

/// The phase in which the module at `loc` is `module`, and nothing else differs from `phase`.
pub open spec fn with_module(phase: PhaseView, loc: LocationView, module: ModuleView) -> PhaseView {
    PhaseView {
        db: phase.db,
        macro_prelude: phase.macro_prelude,
        unexpanded_modules: phase.unexpanded_modules.insert(loc.module, module),
    }
}

/// At the root of a crate an `extern crate` is left alone. Elsewhere it fails where it could not be
/// lowered, and where the crate has no such dependency; otherwise it imports the root of that
/// dependency, under the name that it gives or else under the crate's own, by its visibility.
pub proof fn law_extern_crate(
    phase: PhaseView,
    loc: LocationView,
    item: ItemView,
    metadata: Result<Visibility, LowerErrorView>,
    name: Seq<char>,
    rename: Option<Seq<char>>,
)
    requires
        item.body == (ItemBodyView::ExternCrate { metadata, name, rename }),
    ensures
        ({
            let module = phase.unexpanded_modules[loc.module];
            let alias = if rename is Some {
                rename->Some_0
            } else {
                name
            };
            let found = relevant_effect(phase, loc, item);
            if loc.module.path.len() == 0 {
                found == (phase, Ok::<(), WalkErrorView>(()))
            } else if metadata is Err {
                found == (phase, Err::<(), _>(WalkErrorView::Lower(metadata->Err_0)))
            } else if !loc.crate_data.deps.contains_key(name) {
                found == (phase, Err::<(), _>(WalkErrorView::ExternCrateNotFound(name)))
            } else {
                let root = PathView::Absolute(
                    AbsolutePathView { crate_: loc.crate_data.deps[name], path: Seq::empty() },
                );
                let scope = module.scope;
                &&& found.1 is Ok
                &&& metadata == Ok::<_, LowerErrorView>(Visibility::Pub) ==> found.0 == with_module(
                    phase,
                    loc,
                    ModuleView {
                        scope: ScopeView {
                            pub_imports: scope.pub_imports.insert(alias, root),
                            imports: scope.imports,
                            glob_imports: scope.glob_imports,
                            pub_glob_imports: scope.pub_glob_imports,
                        },
                        loc: module.loc,
                        textual_scope: module.textual_scope,
                        unexpanded_items: module.unexpanded_items,
                    },
                )
                &&& metadata == Ok::<_, LowerErrorView>(Visibility::NonPub) ==> found.0
                    == with_module(
                    phase,
                    loc,
                    ModuleView {
                        scope: ScopeView {
                            imports: scope.imports.insert(alias, root),
                            pub_imports: scope.pub_imports,
                            glob_imports: scope.glob_imports,
                            pub_glob_imports: scope.pub_glob_imports,
                        },
                        loc: module.loc,
                        textual_scope: module.textual_scope,
                        unexpanded_items: module.unexpanded_items,
                    },
                )
            }
        }),
{
}

/// A `use` declaration adds its imports to the scope of its module, by its visibility, and changes
/// nothing else.
pub proof fn law_use_declaration(
    phase: PhaseView,
    loc: LocationView,
    item: ItemView,
    visibility: Visibility,
    rooted: bool,
    tree: ImportTreeView,
)
    requires
        item.body == (ItemBodyView::Use { visibility, rooted, tree }),
    ensures
        ({
            let module = phase.unexpanded_modules[loc.module];
            relevant_effect(phase, loc, item) == (
                with_module(
                    phase,
                    loc,
                    ModuleView {
                        scope: module.scope.bind_all(
                            visibility,
                            use_imports(rooted, Seq::empty(), tree),
                        ),
                        loc: module.loc,
                        textual_scope: module.textual_scope,
                        unexpanded_items: module.unexpanded_items,
                    },
                ),
                Ok::<(), WalkErrorView>(()),
            )
        }),
{
}

/// A `macro_rules!` definition is added at the end of its module's textual scope. With
/// `#[macro_export]` it is stored at the root of the crate too, as it is; where that path is
/// defined, or the definition could not be lowered, nothing changes and it fails.
pub proof fn law_macro_definition(
    phase: PhaseView,
    loc: LocationView,
    item: ItemView,
    path: UnresolvedPathView,
    definition: Result<DeclarativeMacroView, LowerErrorView>,
)
    requires
        item.body == (ItemBodyView::Macro { path, definition }),
        !path.rooted,
        path.path == seq!["macro_rules"@],
    ensures
        ({
            let module = phase.unexpanded_modules[loc.module];
            let found = relevant_effect(phase, loc, item);
            match definition {
                Err(error) => found == (phase, Err::<(), _>(WalkErrorView::Lower(error))),
                Ok(def) => {
                    let target = AbsolutePathView {
                        crate_: loc.crate_data.crate_,
                        path: seq![def.name],
                    };
                    if def.macro_export && phase.db.macros.contains_key(target) {
                        found == (
                            phase,
                            Err::<(), _>(WalkErrorView::AlreadyDefined(Namespace::Macros, target)),
                        )
                    } else {
                        let extended = ModuleView {
                            scope: module.scope,
                            loc: module.loc,
                            textual_scope: module.textual_scope + seq![Some(def)],
                            unexpanded_items: module.unexpanded_items,
                        };
                        &&& found.1 is Ok
                        &&& found.0.unexpanded_modules == phase.unexpanded_modules.insert(
                            loc.module,
                            extended,
                        )
                        &&& found.0.macro_prelude == phase.macro_prelude
                        &&& found.0.db.types == phase.db.types
                        &&& found.0.db.symbols == phase.db.symbols
                        &&& !def.macro_export ==> found.0.db.macros == phase.db.macros
                        &&& def.macro_export ==> found.0.db.macros == phase.db.macros.insert(
                            target,
                            MacroItemView::Declarative(def),
                        )
                    }
                },
            }
        }),
{
    assert(path.path[0] == "macro_rules"@);
    let module = phase.unexpanded_modules[loc.module];
    if definition is Ok {
        let def = definition->Ok_0;
        assert(module.textual_scope.push(Some(def)) =~= module.textual_scope + seq![Some(def)]);
    }
}

/// A macro invocation that is no `macro_rules!` definition waits at the end of its module's items,
/// with its tokens and its span, and sees the macros that are defined so far. Nothing else changes.
pub proof fn law_macro_invocation(
    phase: PhaseView,
    loc: LocationView,
    item: ItemView,
    path: UnresolvedPathView,
    definition: Result<DeclarativeMacroView, LowerErrorView>,
)
    requires
        item.body == (ItemBodyView::Macro { path, definition }),
        path.rooted || path.path != seq!["macro_rules"@],
    ensures
        relevant_effect(phase, loc, item) == (
            with_module(
                phase,
                loc,
                waiting_with(
                    phase.unexpanded_modules[loc.module],
                    loc,
                    item,
                    UnexpandedItemView::UnresolvedMacroInvocation(item.tokens),
                ),
            ),
            Ok::<(), WalkErrorView>(()),
        ),
{
    if !path.rooted && path.path.len() == 1 && path.path[0] == "macro_rules"@ {
        assert(path.path =~= seq!["macro_rules"@]);
    }
    lemma_waiting(
        phase.unexpanded_modules[loc.module],
        loc,
        item,
        UnexpandedItemView::UnresolvedMacroInvocation(item.tokens),
    );
}

/// A module after an item was added behind those that wait.
pub open spec fn waiting_with(
    module: ModuleView,
    loc: LocationView,
    item: ItemView,
    left: UnexpandedItemView,
) -> ModuleView {
    ModuleView {
        scope: module.scope,
        loc: module.loc,
        textual_scope: module.textual_scope,
        unexpanded_items: module.unexpanded_items + seq![
            PendingView {
                span: SpanView {
                    macro_invocation: loc.macro_invocation,
                    source_file: loc.source_file,
                    position: item.position,
                },
                textual_scope: module.textual_scope + seq![None],
                item: left,
            },
        ],
    }
}

proof fn lemma_waiting(
    module: ModuleView,
    loc: LocationView,
    item: ItemView,
    left: UnexpandedItemView,
)
    ensures
        module.waiting(loc.span_at(item.position), left) == waiting_with(module, loc, item, left),
{
    assert(module.textual_scope.push(None) =~= module.textual_scope + seq![None]);
    let after = module.waiting(loc.span_at(item.position), left);
    assert(after.unexpanded_items =~= waiting_with(module, loc, item, left).unexpanded_items);
}

/// Only `extern crate`, `use` and macros have to do with the phase.
pub proof fn law_irrelevant(phase: PhaseView, loc: LocationView, item: ItemView)
    requires
        !(item.body is ExternCrate),
        !(item.body is Use),
        !(item.body is Macro),
    ensures
        relevant_effect(phase, loc, item) == (
            phase,
            Err::<(), _>(WalkErrorView::PhaseIrrelevant),
        ),
{
}

/// The warning of an error that comes from an item.
pub open spec fn warning_of(
    loc: LocationView,
    item: ItemView,
    cause: WalkErrorView,
) -> WarningView {
    WarningView {
        cause,
        span: SpanView {
            macro_invocation: loc.macro_invocation,
            source_file: loc.source_file,
            position: item.position,
        },
    }
}

/// An error is added behind the warnings, unless the item is configured out.
pub proof fn law_warned(warnings: Seq<WarningView>, cause: WalkErrorView, span: SpanView)
    ensures
        cause == WalkErrorView::Lower(LowerErrorView::CfgdOut) ==> warned(warnings, cause, span)
            == warnings,
        cause != WalkErrorView::Lower(LowerErrorView::CfgdOut) ==> warned(warnings, cause, span)
            == warnings + seq![WarningView { cause, span }],
{
    assert(warnings.push(WarningView { cause, span }) =~= warnings + seq![
        WarningView { cause, span },
    ]);
}

/// An item that has to do with the phase changes it, or leaves a warning unless it is configured
/// out.
pub proof fn law_walk_relevant_item(
    before: (PhaseView, Seq<WarningView>),
    loc: LocationView,
    item: ItemView,
)
    requires
        item.body is ExternCrate || item.body is Use || item.body is Macro,
    ensures
        ({
            let (phase, result) = relevant_effect(before.0, loc, item);
            let after = item_effect(before, loc, item);
            &&& after.0 == phase
            &&& result is Ok ==> after.1 == before.1
            &&& result matches Err(cause) ==> after.1 == (if cause == WalkErrorView::Lower(
                LowerErrorView::CfgdOut,
            ) {
                before.1
            } else {
                before.1 + seq![warning_of(loc, item, cause)]
            })
        }),
{
    let (_, result) = relevant_effect(before.0, loc, item);
    if let Err(cause) = result {
        assert(cause != WalkErrorView::PhaseIrrelevant);
        law_warned(before.1, cause, loc.span_at(item.position));
    }
}

/// Any other item goes to the database. An item that is not `pub` leaves no trace, one that holds a
/// macro in type position waits in its module, and every other error leaves a warning unless the
/// item is configured out.
pub proof fn law_walk_other_item(
    before: (PhaseView, Seq<WarningView>),
    loc: LocationView,
    item: ItemView,
)
    requires
        !(item.body is ExternCrate),
        !(item.body is Use),
        !(item.body is Macro),
    ensures
        ({
            let (db, result) = insert_effect(before.0.db, loc, item);
            let after = item_effect(before, loc, item);
            &&& after.0.db == db
            &&& after.0.macro_prelude == before.0.macro_prelude
            &&& match result {
                Err(WalkErrorView::Lower(LowerErrorView::TypePositionMacro)) => {
                    &&& after.0.unexpanded_modules == before.0.unexpanded_modules.insert(
                        loc.module,
                        waiting_with(
                            before.0.unexpanded_modules[loc.module],
                            loc,
                            item,
                            UnexpandedItemView::TypeMacro(item.tokens),
                        ),
                    )
                    &&& after.1 == before.1
                },
                Ok(_)
                | Err(WalkErrorView::NonPub)
                | Err(WalkErrorView::Lower(LowerErrorView::CfgdOut)) => {
                    &&& after.0.unexpanded_modules == before.0.unexpanded_modules
                    &&& after.1 == before.1
                },
                Err(cause) => {
                    &&& after.0.unexpanded_modules == before.0.unexpanded_modules
                    &&& after.1 == before.1 + seq![warning_of(loc, item, cause)]
                },
            }
        }),
{
    lemma_waiting(
        before.0.unexpanded_modules[loc.module],
        loc,
        item,
        UnexpandedItemView::TypeMacro(item.tokens),
    );
    let (_, result) = insert_effect(before.0.db, loc, item);
    if let Err(cause) = result {
        law_warned(before.1, cause, loc.span_at(item.position));
    }
}

/// Walking no items changes nothing, and one more item is walked after the others.
pub proof fn law_walk_one_more(
    before: (PhaseView, Seq<WarningView>),
    loc: LocationView,
    items: Seq<ItemView>,
    item: ItemView,
)
    ensures
        walk_effect(before, loc, Seq::empty()) == before,
        walk_effect(before, loc, items.push(item)) == item_effect(
            walk_effect(before, loc, items),
            loc,
            item,
        ),
{
    assert(items.push(item).drop_last() =~= items);
}

/// What lowering makes of each kind of items, where it does not fail. Only `pub` without a
/// restriction is public.
pub proof fn law_lowered(source: SourceItemView)
    ensures
        ({
            let raw = source.raw;
            let item = lowered(source, None);
            let visibility = if raw.public == Some(true) {
                Visibility::Pub
            } else {
                Visibility::NonPub
            };
            let name = if raw.name is Some {
                raw.name->Some_0
            } else {
                Seq::empty()
            };
            let definition = DefinitionView { visibility, name, tokens: raw.text };
            &&& item.position == source.position
            &&& item.tokens == raw.text
            &&& match raw.kind {
                ItemKind::Struct => item.body == (ItemBodyView::Struct { lowered: Ok(definition) }),
                ItemKind::Enum => item.body == (ItemBodyView::Enum { lowered: Ok(definition) }),
                ItemKind::Fn => item.body == (ItemBodyView::Fn {
                    visibility,
                    lowered: Ok(definition),
                }),
                ItemKind::Static => item.body == (ItemBodyView::Static { visibility, name }),
                ItemKind::Const => item.body == (ItemBodyView::Const { visibility, name }),
                ItemKind::ExternCrate => item.body == (ItemBodyView::ExternCrate {
                    metadata: Ok(visibility),
                    name,
                    rename: raw.rename,
                }),
                ItemKind::Use => raw.tree matches Some(tree) ==> item.body == (ItemBodyView::Use {
                    visibility,
                    rooted: raw.rooted,
                    tree,
                }),
                ItemKind::Macro => item.body == (ItemBodyView::Macro {
                    path: UnresolvedPathView { rooted: raw.rooted, path: raw.segments },
                    definition: match raw.name {
                        Some(name) => Ok(
                            DeclarativeMacroView {
                                name,
                                macro_export: exists|i: int|
                                    0 <= i < raw.attributes.len() && #[trigger] raw.attributes[i]
                                        == "macro_export"@,
                                tokens: raw.text,
                            },
                        ),
                        None => Err(LowerErrorView::Other("the macro has no name"@)),
                    },
                }),
                _ => item.body is Other,
            }
        }),
{
}

/// Where lowering fails the item holds that error in place of its definition; the rest of it is as
/// if lowering did not fail.
pub proof fn law_lowering_fails(source: SourceItemView, error: LowerErrorView)
    ensures
        ({
            let item = lowered(source, Some(error));
            let good = lowered(source, None);
            &&& item.position == good.position
            &&& item.tokens == good.tokens
            &&& match good.body {
                ItemBodyView::Struct { .. } => item.body == (ItemBodyView::Struct {
                    lowered: Err(error),
                }),
                ItemBodyView::Enum { .. } => item.body == (ItemBodyView::Enum {
                    lowered: Err(error),
                }),
                ItemBodyView::Fn { visibility, .. } => item.body == (ItemBodyView::Fn {
                    visibility,
                    lowered: Err(error),
                }),
                ItemBodyView::ExternCrate { name, rename, .. } => item.body == (
                ItemBodyView::ExternCrate { metadata: Err(error), name, rename }),
                ItemBodyView::Macro { path, .. } => item.body == (ItemBodyView::Macro {
                    path,
                    definition: Err(error),
                }),
                _ => item.body == good.body,
            }
        }),
{
}

/// The items of a file are lowered one by one, in order, each with what is known of its own
/// failure; items beyond the list of failures do not fail.
pub proof fn law_lowered_items(
    source: Seq<SourceItemView>,
    failures: Seq<Option<LowerErrorView>>,
    i: int,
)
    requires
        0 <= i < source.len(),
    ensures
        lowered_items(source, failures).len() == source.len(),
        i < failures.len() ==> lowered_items(source, failures)[i] == lowered(
            source[i],
            failures[i],
        ),
        i >= failures.len() ==> lowered_items(source, failures)[i] == lowered(source[i], None),
        failure_at(failures, i) == (if i < failures.len() {
            failures[i]
        } else {
            None
        }),
{
}

/// Each item of a file has the position at its own place.
pub proof fn law_located(
    positions: Seq<crate::resolve::items::Position>,
    items: Seq<RawItemView>,
    i: int,
)
    requires
        0 <= i < items.len(),
    ensures
        located(positions, items).len() == items.len(),
        located(positions, items)[i] == (SourceItemView { position: positions[i], raw: items[i] }),
{
}

/// At the root of a crate an `extern crate` with a new name makes that name known for the crate
/// that was known under the old one before. One that could not be lowered, or whose crate is not
/// known, leaves a warning. Other items make no difference.
pub proof fn law_aliases(loc: LocationView, items: Seq<ItemView>, item: ItemView)
    ensures
        aliases(loc, Seq::empty()) == (loc.crate_data.deps, Seq::<WarningView>::empty()),
        ({
            let (deps, warnings) = aliases(loc, items);
            let after = aliases(loc, items.push(item));
            match item.body {
                ItemBodyView::ExternCrate { metadata, name, rename } => match metadata {
                    Err(LowerErrorView::CfgdOut) => after == (deps, warnings),
                    Err(error) => after == (
                        deps,
                        warnings + seq![warning_of(loc, item, WalkErrorView::Lower(error))],
                    ),
                    Ok(_) => if !loc.crate_data.deps.contains_key(name) {
                        after == (
                            deps,
                            warnings + seq![
                                warning_of(loc, item, WalkErrorView::ExternCrateNotFound(name)),
                            ],
                        )
                    } else if rename is Some {
                        after == (
                            deps.insert(rename->Some_0, loc.crate_data.deps[name]),
                            warnings,
                        )
                    } else {
                        after == (deps, warnings)
                    },
                },
                _ => after == (deps, warnings),
            }
        }),
{
    assert(items.push(item).drop_last() =~= items);
    let (_, warnings) = aliases(loc, items);
    if let ItemBodyView::ExternCrate { metadata, name, .. } = item.body {
        match metadata {
            Err(error) => {
                law_warned(warnings, WalkErrorView::Lower(error), loc.span_at(item.position));
            },
            Ok(_) => {
                law_warned(
                    warnings,
                    WalkErrorView::ExternCrateNotFound(name),
                    loc.span_at(item.position),
                );
            },
        }
    }
}

/// The root module of a crate stands in the file that the crate starts in, at the crate itself, and
/// comes from no macro. Before it is walked it holds nothing.
pub proof fn law_root(crate_data: CrateDataView, db: DbView)
    ensures
        ({
            let loc = root_of(crate_data);
            let phase = root_phase(db, loc);
            let module = phase.unexpanded_modules[loc.module];
            &&& loc.source_file == crate_data.entry
            &&& loc.macro_invocation is None
            &&& loc.crate_data == crate_data
            &&& loc.module.crate_ == crate_data.crate_
            &&& loc.module.path.len() == 0
            &&& phase.db == db
            &&& phase.macro_prelude == Map::<Seq<char>, DeclarativeMacroView>::empty()
            &&& phase.unexpanded_modules.contains_key(loc.module)
            &&& module.loc == loc
            &&& module.scope.imports == Map::<Seq<char>, PathView>::empty()
            &&& module.scope.pub_imports == Map::<Seq<char>, PathView>::empty()
            &&& module.scope.glob_imports.len() == 0
            &&& module.scope.pub_glob_imports.len() == 0
            &&& module.textual_scope.len() == 0
            &&& module.unexpanded_items.len() == 0
        }),
{
}

/// Walking a crate walks the items of its text in its root module, after the names that its
/// `extern crate`s give are known, which changes nothing else of what is known of the crate. The
/// warnings of the `extern crate`s come first. A text that does not parse changes nothing.
pub proof fn law_crate_walk(
    crate_data: CrateDataView,
    db: DbView,
    source: Seq<char>,
    failures: Seq<Option<LowerErrorView>>,
)
    ensures
        ({
            let (after_data, after_db, result) = crate_outcome(crate_data, db, source, failures);
            match source_items(source) {
                None => {
                    &&& after_data == crate_data
                    &&& after_db == db
                    &&& result matches Err(error)
                    &&& error == WalkErrorView::Parse(source_error(source))
                },
                Some(raw) => {
                    let items = lowered_items(raw, failures);
                    let (deps, first_warnings) = aliases(root_of(crate_data), items);
                    let loc = root_of(after_data);
                    let (phase, warnings) = walk_effect(
                        (root_phase(db, loc), Seq::empty()),
                        loc,
                        items,
                    );
                    &&& after_data.crate_ == crate_data.crate_
                    &&& after_data.entry == crate_data.entry
                    &&& after_data.deps == deps
                    &&& after_data == aliased(crate_data, items)
                    &&& after_db == phase.db
                    &&& result matches Ok(walked)
                    &&& walked.warnings == first_warnings + warnings
                    &&& walked.root == phase.unexpanded_modules[loc.module]
                },
            }
        }),
{
}

/// Walking the source file of a module walks the items of its text. A text that does not parse
/// changes nothing.
pub proof fn law_source_walk(
    phase: PhaseView,
    loc: LocationView,
    source: Seq<char>,
    failures: Seq<Option<LowerErrorView>>,
)
    ensures
        ({
            let (after, result) = source_effect(phase, loc, source, failures);
            match source_items(source) {
                None => {
                    &&& after == phase
                    &&& result matches Err(error)
                    &&& error == WalkErrorView::Parse(source_error(source))
                },
                Some(raw) => {
                    let (walked, warnings) = walk_effect(
                        (phase, Seq::empty()),
                        loc,
                        lowered_items(raw, failures),
                    );
                    &&& after == walked
                    &&& result matches Ok(returned)
                    &&& returned == warnings
                },
            }
        }),
{
}

} // verus!
