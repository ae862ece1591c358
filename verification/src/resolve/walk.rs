//! Walking the items of a module.

use vstd::prelude::*;

use crate::resolve::errors::{outcome, Namespace, WalkError, WalkErrorView};
use crate::resolve::items::{
    item_views, Item, ItemBody, ItemBodyView, ItemView, LowerError, LowerErrorView, MacroItem,
    MacroItemView, Span, SpanView, SymbolItem, SymbolItemView, TypeItem, TypeItemView, Visibility,
};
use crate::resolve::laws::law_walk_stays_in_module;
use crate::resolve::paths::{
    AbsoluteCrate, AbsolutePath, AbsolutePathView, CrateView, Ident, Path, PathView,
};
use crate::resolve::phase::{
    define, CrateData, CrateDataView, Db, DbView, LocationMetadata, LocationView, ModuleView,
    PhaseView, UnexpandedItem, UnexpandedItemView, UnexpandedModule, WalkParseExpandPhase,
};
use crate::resolve::scope::{lower_use, use_imports};
use crate::resolve::source::{
    failure_views, lower_items, lowered_items, parse_file, source_error, source_items,
    MAX_SOURCE_CHARS,
};
use crate::resolve::table::{Duplicate, Key, Table};

verus! {

/// The result of defining `path` as `item`, where nothing may be defined twice.
pub open spec fn defined<V>(
    table: Map<AbsolutePathView, V>,
    namespace: Namespace,
    path: AbsolutePathView,
    item: V,
) -> (Map<AbsolutePathView, V>, Result<(), WalkErrorView>) {
    if table.contains_key(path) {
        (table, Err(WalkErrorView::AlreadyDefined(namespace, path)))
    } else {
        (table.insert(path, item), Ok(()))
    }
}

/// The database after an item of the module at `loc` was put into it, and the result. Functions
/// go to the symbols, structs and enums to the types; statics, constants and functions that are
/// not `pub` are refused; everything else leaves the database alone.
pub open spec fn insert_effect(db: DbView, loc: LocationView, item: ItemView) -> (
    DbView,
    Result<(), WalkErrorView>,
) {
    match item.body {
        ItemBodyView::Static { visibility: Visibility::NonPub, .. }
        | ItemBodyView::Const { visibility: Visibility::NonPub, .. }
        | ItemBodyView::Fn { visibility: Visibility::NonPub, .. } => (
            db,
            Err(WalkErrorView::NonPub),
        ),
        ItemBodyView::Fn { lowered: Err(error), .. }
        | ItemBodyView::Struct { lowered: Err(error) }
        | ItemBodyView::Enum { lowered: Err(error) } => (db, Err(WalkErrorView::Lower(error))),
        ItemBodyView::Fn { lowered: Ok(definition), .. } => {
            let (symbols, result) = defined(
                db.symbols,
                Namespace::Symbols,
                loc.module.join(definition.name),
                SymbolItemView::Function(definition),
            );
            (DbView { symbols, ..db }, result)
        },
        ItemBodyView::Struct { lowered: Ok(definition) } => {
            let (types, result) = defined(
                db.types,
                Namespace::Types,
                loc.module.join(definition.name),
                TypeItemView::Struct(definition),
            );
            (DbView { types, ..db }, result)
        },
        ItemBodyView::Enum { lowered: Ok(definition) } => {
            let (types, result) = defined(
                db.types,
                Namespace::Types,
                loc.module.join(definition.name),
                TypeItemView::Enum(definition),
            );
            (DbView { types, ..db }, result)
        },
        _ => (db, Ok(())),
    }
}

/// Puts an item into the database.
pub fn insert_into_db(db: &mut Db, loc: &LocationMetadata, item: &Item) -> (result: Result<
    (),
    WalkError,
>)
    ensures
        (final(db)@, outcome(result)) == insert_effect(old(db)@, loc@, item@),
{
    match &item.body {
        ItemBody::Static { visibility, .. } | ItemBody::Const { visibility, .. } => {
            match visibility {
                Visibility::Pub => Ok(()),
                Visibility::NonPub => Err(WalkError::NonPub),
            }
        },
        ItemBody::Fn { visibility, lowered } => {
            match visibility {
                Visibility::Pub => {},
                Visibility::NonPub => {
                    return Err(WalkError::NonPub);
                },
            }
            match lowered {
                Ok(definition) => {
                    let path = loc.module.clone().join(definition.name.clone());
                    define(
                        &mut db.symbols,
                        Namespace::Symbols,
                        path,
                        SymbolItem::Function(definition.clone()),
                    )
                },
                Err(error) => Err(WalkError::Lower(error.clone())),
            }
        },
        ItemBody::Struct { lowered } => match lowered {
            Ok(definition) => {
                let path = loc.module.clone().join(definition.name.clone());
                define(
                    &mut db.types,
                    Namespace::Types,
                    path,
                    TypeItem::Struct(definition.clone()),
                )
            },
            Err(error) => Err(WalkError::Lower(error.clone())),
        },
        ItemBody::Enum { lowered } => match lowered {
            Ok(definition) => {
                let path = loc.module.clone().join(definition.name.clone());
                define(&mut db.types, Namespace::Types, path, TypeItem::Enum(definition.clone()))
            },
            Err(error) => Err(WalkError::Lower(error.clone())),
        },
        _ => Ok(()),
    }
}

/// The name that an `extern crate` is imported as.
pub open spec fn imported_as(name: Seq<char>, rename: Option<Seq<char>>) -> Seq<char> {
    match rename {
        Some(alias) => alias,
        None => name,
    }
}

/// Where `macro_rules!` definitions with `#[macro_export]` go: the root of their crate.
pub open spec fn exported_macro_path(loc: LocationView, name: Seq<char>) -> AbsolutePathView {
    AbsolutePathView { crate_: loc.crate_data.crate_, path: seq![name] }
}

/// How an item bears on the phase.
pub enum Relevance {
    /// The item is left alone.
    Nothing,
    /// The item fails.
    Failure(WalkErrorView),
    /// The item changes its module, and may export a macro.
    Change { module: ModuleView, exported: Option<MacroItemView> },
}

/// How an item of the module at `loc` bears on a phase with the given exported macros, where
/// `module` is what the phase holds of the module. Imports go to the module's scope, by
/// visibility; `macro_rules!` definitions extend its textual scope; other macro invocations are
/// kept with the textual scope at their place.
pub open spec fn relevance(
    macros: Map<AbsolutePathView, MacroItemView>,
    module: ModuleView,
    loc: LocationView,
    item: ItemView,
) -> Relevance {
    match item.body {
        ItemBodyView::ExternCrate { metadata, name, rename } => {
            if loc.module.path.len() == 0 {
                Relevance::Nothing
            } else {
                match metadata {
                    Err(error) => Relevance::Failure(WalkErrorView::Lower(error)),
                    Ok(visibility) => if !loc.crate_data.deps.contains_key(name) {
                        Relevance::Failure(WalkErrorView::ExternCrateNotFound(name))
                    } else {
                        let root = AbsolutePathView {
                            crate_: loc.crate_data.deps[name],
                            path: Seq::empty(),
                        };
                        Relevance::Change {
                            module: ModuleView {
                                scope: module.scope.import(
                                    visibility,
                                    imported_as(name, rename),
                                    PathView::Absolute(root),
                                ),
                                ..module
                            },
                            exported: None,
                        }
                    },
                }
            }
        },
        ItemBodyView::Use { visibility, rooted, tree } => Relevance::Change {
            module: ModuleView {
                scope: module.scope.bind_all(
                    visibility,
                    use_imports(rooted, Seq::empty(), tree),
                ),
                ..module
            },
            exported: None,
        },
        ItemBodyView::Macro { path, definition } => {
            if path.ident() == Some("macro_rules"@) {
                match definition {
                    Err(error) => Relevance::Failure(WalkErrorView::Lower(error)),
                    Ok(def) => {
                        let target = exported_macro_path(loc, def.name);
                        if def.macro_export && macros.contains_key(target) {
                            Relevance::Failure(
                                WalkErrorView::AlreadyDefined(Namespace::Macros, target),
                            )
                        } else {
                            Relevance::Change {
                                module: ModuleView {
                                    textual_scope: module.textual_scope.push(Some(def)),
                                    ..module
                                },
                                exported: if def.macro_export {
                                    Some(MacroItemView::Declarative(def))
                                } else {
                                    None
                                },
                            }
                        }
                    },
                }
            } else {
                Relevance::Change {
                    module: module.waiting(
                        loc.span_at(item.position),
                        UnexpandedItemView::UnresolvedMacroInvocation(item.tokens),
                    ),
                    exported: None,
                }
            }
        },
        _ => Relevance::Failure(WalkErrorView::PhaseIrrelevant),
    }
}

/// How an item of the module at `loc` bears on `phase`.
pub open spec fn relevance_in(phase: PhaseView, loc: LocationView, item: ItemView) -> Relevance {
    relevance(phase.db.macros, phase.unexpanded_modules[loc.module], loc, item)
}

/// Whether the phase holds the module at `loc`, if the item changes it.
pub open spec fn module_present(phase: PhaseView, loc: LocationView, item: ItemView) -> bool {
    relevance_in(phase, loc, item) is Change ==> phase.unexpanded_modules.contains_key(loc.module)
}

/// The phase after an item of the module at `loc` was handled, and the result.
pub open spec fn relevant_effect(phase: PhaseView, loc: LocationView, item: ItemView) -> (
    PhaseView,
    Result<(), WalkErrorView>,
) {
    match relevance_in(phase, loc, item) {
        Relevance::Nothing => (phase, Ok(())),
        Relevance::Failure(error) => (phase, Err(error)),
        Relevance::Change { module, exported } => {
            let macros = match exported {
                Some(MacroItemView::Declarative(def)) => phase.db.macros.insert(
                    exported_macro_path(loc, def.name),
                    MacroItemView::Declarative(def),
                ),
                None => phase.db.macros,
            };
            (
                PhaseView {
                    db: DbView { macros, ..phase.db },
                    unexpanded_modules: phase.unexpanded_modules.insert(loc.module, module),
                    ..phase
                },
                Ok(()),
            )
        },
    }
}

/// Handles the items that matter to macro expansion: `extern crate`, `use` and macros.
pub fn handle_relevant_item(
    phase: &mut WalkParseExpandPhase,
    loc: &LocationMetadata,
    item: &Item,
) -> (result: Result<(), WalkError>)
    requires
        module_present(old(phase)@, loc@, item@),
    ensures
        (final(phase)@, outcome(result)) == relevant_effect(old(phase)@, loc@, item@),
{
    match &item.body {
        ItemBody::ExternCrate { metadata, name, rename } => {
            if loc.module.path.len() == 0 {
                return Ok(());
            }
            let visibility = match metadata {
                Ok(visibility) => *visibility,
                Err(error) => {
                    return Err(WalkError::Lower(error.clone()));
                },
            };
            let crate_ = match loc.crate_data.deps.get(name) {
                Some(crate_) => crate_.clone(),
                None => {
                    return Err(WalkError::ExternCrateNotFound(name.clone()));
                },
            };
            let alias = match rename {
                Some(alias) => alias.clone(),
                None => name.clone(),
            };
            let no_path: Vec<Ident> = Vec::new();
            let root = AbsolutePath::new(crate_, no_path);
            assert(root@.path =~= Seq::empty());
            match phase.unexpanded_modules.get_mut(&loc.module) {
                Some(module) => {
                    module.scope.import(visibility, alias, Path::Absolute(root));
                },
                None => {},
            }
            Ok(())
        },
        ItemBody::Use { visibility, rooted, tree } => {
            match phase.unexpanded_modules.get_mut(&loc.module) {
                Some(module) => {
                    lower_use(&mut module.scope, *visibility, *rooted, tree);
                },
                None => {},
            }
            Ok(())
        },
        ItemBody::Macro { path, definition } => {
            let macro_rules = Ident::new("macro_rules");
            let is_definition = match path.get_ident() {
                Some(ident) => ident.same(&macro_rules),
                None => false,
            };
            if is_definition {
                let def = match definition {
                    Ok(def) => def,
                    Err(error) => {
                        return Err(WalkError::Lower(error.clone()));
                    },
                };
                if def.macro_export {
                    let mut names: Vec<Ident> = Vec::new();
                    names.push(def.name.clone());
                    let target = AbsolutePath::new(loc.crate_data.crate_.clone(), names);
                    assert(target@.path =~= seq![def.name@]);
                    let exported = MacroItem::Declarative(def.clone());
                    match define(&mut phase.db.macros, Namespace::Macros, target, exported) {
                        Ok(_) => {},
                        Err(error) => {
                            return Err(error);
                        },
                    }
                }
                match phase.unexpanded_modules.get_mut(&loc.module) {
                    Some(module) => {
                        let extended = module.textual_scope.append_scope(Some(def.clone()));
                        module.textual_scope = extended;
                    },
                    None => {},
                }
                return Ok(());
            }
            let invocation = UnexpandedItem::UnresolvedMacroInvocation(item.tokens.clone());
            match phase.unexpanded_modules.get_mut(&loc.module) {
                Some(module) => {
                    module.keep(loc.span(item.position), invocation);
                },
                None => {},
            }
            Ok(())
        },
        _ => Err(WalkError::PhaseIrrelevant),
    }
}

/// An error that was not passed on, with the span of the item that it came from.
#[derive(Debug)]
pub struct Warning {
    pub cause: WalkError,
    pub span: Span,
}

/// What a [`Warning`] says.
pub struct WarningView {
    pub cause: WalkErrorView,
    pub span: SpanView,
}

impl View for Warning {
    type V = WarningView;

    open spec fn view(&self) -> WarningView {
        WarningView { cause: self.cause@, span: self.span@ }
    }
}

/// What a sequence of warnings says.
pub open spec fn warning_views(warnings: Seq<Warning>) -> Seq<WarningView> {
    warnings.map_values(|warning: Warning| warning@)
}

/// The warnings that one more error leads to: none if the item is only configured out.
pub open spec fn warned(warnings: Seq<WarningView>, cause: WalkErrorView, span: SpanView) -> Seq<
    WarningView,
> {
    if cause == WalkErrorView::Lower(LowerErrorView::CfgdOut) {
        warnings
    } else {
        warnings.push(WarningView { cause, span })
    }
}

/// Keeps a warning for an error, unless the item is only configured out.
pub fn warn(warnings: &mut Vec<Warning>, cause: WalkError, span: Span)
    ensures
        warning_views(final(warnings)@) == warned(warning_views(old(warnings)@), cause@, span@),
{
    match &cause {
        WalkError::Lower(LowerError::CfgdOut) => {
            return;
        },
        _ => {},
    }
    warnings.push(Warning { cause, span });
    assert(warning_views(warnings@) =~= warning_views(old(warnings)@).push(warnings@.last()@));
}

/// The phase after an item of the module at `loc` was kept until a macro that it holds in type
/// position is expanded.
pub open spec fn kept(phase: PhaseView, loc: LocationView, item: ItemView) -> PhaseView {
    let module = phase.unexpanded_modules[loc.module].waiting(
        loc.span_at(item.position),
        UnexpandedItemView::TypeMacro(item.tokens),
    );
    PhaseView {
        unexpanded_modules: phase.unexpanded_modules.insert(loc.module, module),
        ..phase
    }
}

/// The phase and the warnings after one more item of the module at `loc`: the phase handles what
/// is relevant to it, and everything else goes to the database. What cannot go there because it
/// holds a macro in type position is kept in its module.
pub open spec fn item_effect(
    before: (PhaseView, Seq<WarningView>),
    loc: LocationView,
    item: ItemView,
) -> (PhaseView, Seq<WarningView>) {
    let (phase, warnings) = before;
    let span = loc.span_at(item.position);
    let (after, handled) = relevant_effect(phase, loc, item);
    match handled {
        Ok(_) => (after, warnings),
        Err(WalkErrorView::PhaseIrrelevant) => {
            let (db, inserted) = insert_effect(after.db, loc, item);
            let stored = PhaseView { db, ..after };
            match inserted {
                Ok(_) => (stored, warnings),
                Err(WalkErrorView::NonPub) => (stored, warnings),
                Err(WalkErrorView::Lower(LowerErrorView::TypePositionMacro)) => (
                    kept(stored, loc, item),
                    warnings,
                ),
                Err(error) => (stored, warned(warnings, error, span)),
            }
        },
        Err(error) => (after, warned(warnings, error, span)),
    }
}

/// The phase and the warnings after the items of the module at `loc`, in the order of the text.
pub open spec fn walk_effect(
    before: (PhaseView, Seq<WarningView>),
    loc: LocationView,
    items: Seq<ItemView>,
) -> (PhaseView, Seq<WarningView>)
    decreases items.len(),
{
    if items.len() == 0 {
        before
    } else {
        item_effect(walk_effect(before, loc, items.drop_last()), loc, items.last())
    }
}

/// Whether an item has to be kept because it holds a macro in type position.
pub open spec fn waits_for_macro(item: ItemView) -> bool {
    match item.body {
        ItemBodyView::Fn {
            visibility: Visibility::Pub,
            lowered: Err(LowerErrorView::TypePositionMacro),
        }
        | ItemBodyView::Struct { lowered: Err(LowerErrorView::TypePositionMacro) }
        | ItemBodyView::Enum { lowered: Err(LowerErrorView::TypePositionMacro) } => true,
        _ => false,
    }
}

/// Whether the phase holds the module at `loc` whenever one of the items changes it.
pub open spec fn walkable(phase: PhaseView, loc: LocationView, items: Seq<ItemView>) -> bool {
    forall|i: int|
        #![trigger items[i]]
        0 <= i < items.len() ==> {
            let before = walk_effect((phase, Seq::empty()), loc, items.take(i)).0;
            &&& module_present(before, loc, items[i])
            &&& waits_for_macro(items[i]) ==> before.unexpanded_modules.contains_key(loc.module)
        }
}

/// Walks one item of a module, and keeps a warning where it fails.
fn walk_item(
    phase: &mut WalkParseExpandPhase,
    loc: &LocationMetadata,
    item: &Item,
    warnings: &mut Vec<Warning>,
)
    requires
        module_present(old(phase)@, loc@, item@),
        waits_for_macro(item@) ==> old(phase)@.unexpanded_modules.contains_key(loc.module@),
    ensures
        (final(phase)@, warning_views(final(warnings)@)) == item_effect(
            (old(phase)@, warning_views(old(warnings)@)),
            loc@,
            item@,
        ),
{
    match handle_relevant_item(phase, loc, item) {
        Ok(_) => {},
        Err(WalkError::PhaseIrrelevant) => match insert_into_db(&mut phase.db, loc, item) {
            Ok(_) => {},
            Err(WalkError::NonPub) => {},
            Err(WalkError::Lower(LowerError::TypePositionMacro)) => {
                let waiting = UnexpandedItem::TypeMacro(item.tokens.clone());
                match phase.unexpanded_modules.get_mut(&loc.module) {
                    Some(module) => {
                        module.keep(loc.span(item.position), waiting);
                    },
                    None => {},
                }
            },
            Err(error) => {
                warn(warnings, error, loc.span(item.position));
            },
        },
        Err(error) => {
            warn(warnings, error, loc.span(item.position));
        },
    }
}

/// Walks the items of a module. An item that fails does not stop the walk: its error is among the
/// warnings that are returned.
pub fn walk_items(phase: &mut WalkParseExpandPhase, loc: &LocationMetadata, items: &[Item]) -> (
    warnings: Vec<Warning>)
    requires
        walkable(old(phase)@, loc@, item_views(items@)),
    ensures
        (final(phase)@, warning_views(warnings@)) == walk_effect(
            (old(phase)@, Seq::empty()),
            loc@,
            item_views(items@),
        ),
{
    let mut warnings: Vec<Warning> = Vec::new();
    assert(warning_views(warnings@) =~= Seq::empty());
    let ghost views = item_views(items@);
    let mut i: usize = 0;
    while i < items.len()
        invariant
            i <= items@.len(),
            views == item_views(items@),
            walkable(old(phase)@, loc@, views),
            (phase@, warning_views(warnings@)) == walk_effect(
                (old(phase)@, Seq::empty()),
                loc@,
                views.take(i as int),
            ),
        decreases items@.len() - i,
    {
        assert(views[i as int] == items@[i as int]@);
        walk_item(phase, loc, &items[i], &mut warnings);
        i += 1;
        assert(views.take(i as int).drop_last() == views.take(i - 1));
        assert(views.take(i as int).last() == views[i - 1]);
    }
    assert(views.take(i as int) == views);
    warnings
}

/// The outcome of walking the source file of a module: the phase, and the warnings or the error.
/// A text that does not parse leaves the phase alone.
pub open spec fn source_effect(
    phase: PhaseView,
    loc: LocationView,
    source: Seq<char>,
    failures: Seq<Option<LowerErrorView>>,
) -> (PhaseView, Result<Seq<WarningView>, WalkErrorView>) {
    match source_items(source) {
        Some(items) => {
            let (after, warnings) = walk_effect(
                (phase, Seq::empty()),
                loc,
                lowered_items(items, failures),
            );
            (after, Ok(warnings))
        },
        None => (phase, Err(WalkErrorView::Parse(source_error(source)))),
    }
}

/// Parses the source file of a module and walks its items, where `failures` says of each item why
/// it cannot be lowered, if it cannot be. A text that does not parse leaves the phase alone.
pub fn walk_source(
    phase: &mut WalkParseExpandPhase,
    loc: &LocationMetadata,
    source: &str,
    failures: &[Option<LowerError>],
) -> (result: Result<Vec<Warning>, WalkError>)
    requires
        source@.len() <= MAX_SOURCE_CHARS,
        old(phase)@.unexpanded_modules.contains_key(loc.module@),
    ensures
        (
            final(phase)@,
            match result {
                Ok(warnings) => Ok(warning_views(warnings@)),
                Err(error) => Err(error@),
            },
        ) == source_effect(old(phase)@, loc@, source@, failure_views(failures@)),
{
    match parse_file(source) {
        Ok(parsed) => {
            let items = lower_items(parsed, failures);
            proof {
                law_walk_stays_in_module((phase@, Seq::empty()), loc@, item_views(items@));
            }
            Ok(walk_items(phase, loc, items.as_slice()))
        },
        Err(error) => Err(error),
    }
}

/// The names of crates and the warnings after one more item at the root of a crate, where `loc` is
/// the root. A name that an `extern crate` gives there is known in the whole crate.
pub open spec fn alias_effect(
    before: (Map<Seq<char>, CrateView>, Seq<WarningView>),
    loc: LocationView,
    item: ItemView,
) -> (Map<Seq<char>, CrateView>, Seq<WarningView>) {
    let (deps, warnings) = before;
    let known = loc.crate_data.deps;
    let span = loc.span_at(item.position);
    match item.body {
        ItemBodyView::ExternCrate { metadata: Err(error), .. } => (
            deps,
            warned(warnings, WalkErrorView::Lower(error), span),
        ),
        ItemBodyView::ExternCrate { metadata: Ok(_), name, rename } => {
            if !known.contains_key(name) {
                (deps, warned(warnings, WalkErrorView::ExternCrateNotFound(name), span))
            } else {
                match rename {
                    Some(alias) => (deps.insert(alias, known[name]), warnings),
                    None => (deps, warnings),
                }
            }
        },
        _ => before,
    }
}

/// The names of crates and the warnings after the items at the root of a crate, where `loc` is the
/// root.
pub open spec fn aliases(loc: LocationView, items: Seq<ItemView>) -> (
    Map<Seq<char>, CrateView>,
    Seq<WarningView>,
)
    decreases items.len(),
{
    if items.len() == 0 {
        (loc.crate_data.deps, Seq::empty())
    } else {
        alias_effect(aliases(loc, items.drop_last()), loc, items.last())
    }
}

/// Adds the names that `extern crate`s at the root of a crate give.
fn add_aliases(
    deps: &mut Table<Ident, AbsoluteCrate>,
    loc: &LocationMetadata,
    items: &Vec<Item>,
) -> (warnings: Vec<Warning>)
    requires
        old(deps)@ == loc.crate_data.deps@,
    ensures
        (final(deps)@, warning_views(warnings@)) == aliases(loc@, item_views(items@)),
{
    let mut warnings: Vec<Warning> = Vec::new();
    assert(warning_views(warnings@) =~= Seq::empty());
    let ghost views = item_views(items@);
    let mut i: usize = 0;
    while i < items.len()
        invariant
            i <= items@.len(),
            views == item_views(items@),
            (deps@, warning_views(warnings@)) == aliases(loc@, views.take(i as int)),
        decreases items@.len() - i,
    {
        let item = &items[i];
        assert(views.take(i + 1).drop_last() == views.take(i as int));
        assert(views.take(i + 1).last() == item@);
        match &item.body {
            ItemBody::ExternCrate { metadata, name, rename } => match metadata {
                Err(error) => {
                    warn(
                        &mut warnings,
                        WalkError::Lower(error.clone()),
                        loc.span(item.position),
                    );
                },
                Ok(_) => match loc.crate_data.deps.get(name) {
                    Some(crate_) => match rename {
                        Some(alias) => {
                            deps.insert(alias.clone(), crate_.clone());
                        },
                        None => {},
                    },
                    None => {
                        warn(
                            &mut warnings,
                            WalkError::ExternCrateNotFound(name.clone()),
                            loc.span(item.position),
                        );
                    },
                },
            },
            _ => {},
        }
        i += 1;
    }
    assert(views.take(i as int) == views);
    warnings
}

/// Where the root module of a crate is.
pub open spec fn root_of(crate_data: CrateDataView) -> LocationView {
    LocationView {
        source_file: crate_data.entry,
        macro_invocation: None,
        crate_data,
        module: AbsolutePathView { crate_: crate_data.crate_, path: Seq::empty() },
    }
}

/// Where the root module of a crate is.
fn root_location(crate_data: &CrateData) -> (loc: LocationMetadata)
    ensures
        loc@ == root_of(crate_data@),
{
    let no_path: Vec<Ident> = Vec::new();
    let module = AbsolutePath::new(crate_data.crate_.clone(), no_path);
    assert(module@.path =~= Seq::empty());
    LocationMetadata {
        source_file: crate_data.entry.clone(),
        macro_invocation: None,
        crate_data: crate_data.duplicate(),
        module,
    }
}

/// The phase that starts from `db` and holds the root module at `loc`.
pub open spec fn root_phase(db: DbView, loc: LocationView) -> PhaseView {
    PhaseView {
        db,
        macro_prelude: Map::empty(),
        unexpanded_modules: Map::empty().insert(loc.module, ModuleView::untouched(loc)),
    }
}

/// What is left of a crate after it was walked.
pub struct WalkedCrate {
    /// The errors that were not passed on.
    pub warnings: Vec<Warning>,
    /// The root module: what it imports, and the items that are left to expand.
    pub root: UnexpandedModule,
}

/// What a [`WalkedCrate`] holds.
pub struct WalkedCrateView {
    pub warnings: Seq<WarningView>,
    pub root: ModuleView,
}

impl View for WalkedCrate {
    type V = WalkedCrateView;

    open spec fn view(&self) -> WalkedCrateView {
        WalkedCrateView { warnings: warning_views(self.warnings@), root: self.root@ }
    }
}

/// What is known of a crate after the `extern crate`s at its root gave names to crates.
pub open spec fn aliased(crate_data: CrateDataView, items: Seq<ItemView>) -> CrateDataView {
    CrateDataView { deps: aliases(root_of(crate_data), items).0, ..crate_data }
}

/// What walking the items of a crate's root module makes of the database, and what is left of the
/// crate. The warnings are those of its `extern crate`s, and then those of the walk, which knows
/// the names that they give.
pub open spec fn crate_effect(crate_data: CrateDataView, db: DbView, items: Seq<ItemView>) -> (
    DbView,
    WalkedCrateView,
) {
    let loc = root_of(aliased(crate_data, items));
    let (phase, warnings) = walk_effect((root_phase(db, loc), Seq::empty()), loc, items);
    (
        phase.db,
        WalkedCrateView {
            warnings: aliases(root_of(crate_data), items).1 + warnings,
            root: phase.unexpanded_modules[loc.module],
        },
    )
}

/// The outcome of walking the root module of a crate, from the text of the source file that it
/// starts in: what is known of the crate, the database, and what is left of the crate or the error.
/// A text that does not parse leaves everything alone.
pub open spec fn crate_outcome(
    crate_data: CrateDataView,
    db: DbView,
    source: Seq<char>,
    failures: Seq<Option<LowerErrorView>>,
) -> (CrateDataView, DbView, Result<WalkedCrateView, WalkErrorView>) {
    match source_items(source) {
        Some(source_items) => {
            let items = lowered_items(source_items, failures);
            let (after, walked) = crate_effect(crate_data, db, items);
            (aliased(crate_data, items), after, Ok(walked))
        },
        None => (crate_data, db, Err(WalkErrorView::Parse(source_error(source)))),
    }
}

/// Walks the root module of a crate, from the text of the source file that the crate starts in:
/// what is found there goes to the database, and what has to be expanded first is returned with the
/// module. The contents of its submodules are not walked. `failures` says of each item why it
/// cannot be lowered, if it cannot be. The names that `extern crate`s at the root give become known
/// to the crate. A text that does not parse leaves everything alone.
pub fn walk_crate(
    crate_data: &mut CrateData,
    db: &mut Db,
    source: &str,
    failures: &[Option<LowerError>],
) -> (result: Result<WalkedCrate, WalkError>)
    requires
        source@.len() <= MAX_SOURCE_CHARS,
    ensures
        (
            final(crate_data)@,
            final(db)@,
            match result {
                Ok(walked) => Ok(walked@),
                Err(error) => Err(error@),
            },
        ) == crate_outcome(old(crate_data)@, old(db)@, source@, failure_views(failures@)),
{
    let parsed = match parse_file(source) {
        Ok(parsed) => parsed,
        Err(error) => {
            return Err(error);
        },
    };
    let items = lower_items(parsed, failures);
    let start = root_location(crate_data);
    let mut warnings = add_aliases(&mut crate_data.deps, &start, &items);
    let ghost first_warnings = warnings@;
    let loc = root_location(crate_data);
    let mut phase = WalkParseExpandPhase::new(Db::new());
    std::mem::swap(&mut phase.db, db);
    phase.unexpanded_modules.insert(
        loc.module.clone(),
        UnexpandedModule::new(root_location(crate_data)),
    );
    assert(crate_data@ =~= aliased(old(crate_data)@, item_views(items@)));
    assert(phase@ =~= root_phase(old(db)@, loc@));
    proof {
        law_walk_stays_in_module((phase@, Seq::empty()), loc@, item_views(items@));
    }
    let mut walked = walk_items(&mut phase, &loc, items.as_slice());
    let ghost walk_warnings = walked@;
    std::mem::swap(&mut phase.db, db);
    let mut root = UnexpandedModule::new(root_location(crate_data));
    match phase.unexpanded_modules.get_mut(&loc.module) {
        Some(module) => {
            std::mem::swap(module, &mut root);
        },
        None => {},
    }
    warnings.append(&mut walked);
    assert(warning_views(warnings@) =~= warning_views(first_warnings) + warning_views(
        walk_warnings,
    ));
    Ok(WalkedCrate { warnings, root })
}

} // verus!
