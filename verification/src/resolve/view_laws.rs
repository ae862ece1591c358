//! What values say: nothing of them is left out.

use vstd::prelude::*;

use crate::resolve::errors::{outcome, WalkError, WalkErrorView};
use crate::resolve::items::{
    invocation_view, item_views, lowered_view, DeclarativeMacroItem, Definition, ImportTree,
    ImportTreeView, Item, ItemBody, ItemBodyView, LowerError, LowerErrorView, MacroItem,
    MacroItemView, Span, SymbolItem, SymbolItemView, Tokens, TypeItem, TypeItemView,
};
use crate::resolve::locate::{source_path_views, SourceLookup, SourceLookupView, SourcePath};
use crate::resolve::paths::{
    spellings, AbsoluteCrate, AbsolutePath, Ident, Path, PathView, UnresolvedPath,
};
use crate::resolve::phase::{
    pending_views, CrateData, Db, LocationMetadata, LocationView, PendingItem, TextualScope,
    UnexpandedItem, UnexpandedItemView, UnexpandedModule, WalkParseExpandPhase,
};
use crate::resolve::scope::{path_views, ModuleScope};
use crate::resolve::source::{
    failure_view, failure_views, option_view, source_item_views, RawItem, SourceItem,
    MAX_SOURCE_CHARS,
};
use crate::resolve::walk::{module_present, warning_views, WalkedCrate, Warning};
use crate::text::string_views;

verus! {

/// Names and paths say their whole spelling, in order.
pub proof fn law_paths_say(
    ident: Ident,
    idents: Seq<Ident>,
    crate_: AbsoluteCrate,
    absolute: AbsolutePath,
    unresolved: UnresolvedPath,
    path: Path,
)
    ensures
        ident@ == ident.text@,
        spellings(idents).len() == idents.len(),
        forall|i: int| 0 <= i < idents.len() ==> #[trigger] spellings(idents)[i] == idents[i].text@,
        crate_@.name == crate_.name@,
        crate_@.version == crate_.version@,
        absolute@.crate_ == absolute.crate_@,
        absolute@.path == spellings(absolute.path@),
        unresolved@.rooted == unresolved.rooted,
        unresolved@.path == spellings(unresolved.path@),
        match path {
            Path::Absolute(absolute) => path@ == PathView::Absolute(absolute@),
            Path::Unresolved(unresolved) => path@ == PathView::Unresolved(unresolved@),
        },
{
}

/// An error says which it is, with all that comes with it.
pub proof fn law_errors_say(lower: LowerError, error: WalkError)
    ensures
        match lower {
            LowerError::CfgdOut => lower@ == LowerErrorView::CfgdOut,
            LowerError::TypePositionMacro => lower@ == LowerErrorView::TypePositionMacro,
            LowerError::Other(cause) => lower@ == LowerErrorView::Other(cause@),
        },
        match error {
            WalkError::Parse(message) => error@ == WalkErrorView::Parse(message@),
            WalkError::AlreadyDefined(namespace, path) => error@ == WalkErrorView::AlreadyDefined(
                namespace,
                path@,
            ),
            WalkError::Lower(lower) => error@ == WalkErrorView::Lower(lower@),
            WalkError::MalformedPathAttribute(text) => error@
                == WalkErrorView::MalformedPathAttribute(text@),
            WalkError::Root => error@ == WalkErrorView::Root,
            WalkError::ModuleNotFound => error@ == WalkErrorView::ModuleNotFound,
            WalkError::ExternCrateNotFound(name) => error@ == WalkErrorView::ExternCrateNotFound(
                name@,
            ),
            WalkError::PhaseIrrelevant => error@ == WalkErrorView::PhaseIrrelevant,
            WalkError::NonPub => error@ == WalkErrorView::NonPub,
        },
        outcome(Err(error)) == Err::<(), _>(error@),
        outcome(Ok(())) == Ok::<(), WalkErrorView>(()),
{
}

/// A span says its file, its place and the invocation that it comes from.
pub proof fn law_spans_say(span: Span)
    ensures
        span@.source_file == span.source_file@,
        span@.position == span.position,
        span@.macro_invocation == invocation_view(span.macro_invocation),
        span.macro_invocation is None ==> invocation_view(span.macro_invocation) is None,
        span.macro_invocation matches Some(outer) ==> invocation_view(span.macro_invocation)
            == Some(Box::new((*outer)@)),
{
}

/// Definitions say their visibility, their name and their tokens, and where they go.
pub proof fn law_definitions_say(
    tokens: Tokens,
    definition: Definition,
    def: DeclarativeMacroItem,
    error: LowerError,
)
    ensures
        tokens@ == tokens.text@,
        definition@.visibility == definition.visibility,
        definition@.name == definition.name@,
        definition@.tokens == definition.tokens@,
        def@.name == def.name@,
        def@.macro_export == def.macro_export,
        def@.tokens == def.tokens@,
        SymbolItem::Function(definition)@ == SymbolItemView::Function(definition@),
        TypeItem::Struct(definition)@ == TypeItemView::Struct(definition@),
        TypeItem::Enum(definition)@ == TypeItemView::Enum(definition@),
        MacroItem::Declarative(def)@ == MacroItemView::Declarative(def@),
        lowered_view(Ok(definition)) == Ok::<_, LowerErrorView>(definition@),
        lowered_view(Err(error)) == Err::<crate::resolve::items::DefinitionView, _>(error@),
{
}

/// A `use` tree says its names and what is under them.
pub proof fn law_trees_say(tree: ImportTree)
    ensures
        match tree {
            ImportTree::Path(name, rest) => tree@ == ImportTreeView::Path(
                name@,
                Box::new((*rest)@),
            ),
            ImportTree::Name(name) => tree@ == ImportTreeView::Name(name@),
            ImportTree::Rename(name, alias) => tree@ == ImportTreeView::Rename(name@, alias@),
            ImportTree::Glob => tree@ == ImportTreeView::Glob,
            ImportTree::Group(trees) => {
                &&& tree@ matches ImportTreeView::Group(views)
                &&& views.len() == trees@.len()
                &&& forall|i: int| 0 <= i < views.len() ==> #[trigger] views[i] == trees@[i]@
            },
        },
{
    if let ImportTree::Group(trees) = tree {
        crate::resolve::import_laws::law_trees(trees@);
    }
}

/// An item says its place, its tokens and all that its body holds.
pub proof fn law_items_say(item: Item, items: Seq<Item>)
    ensures
        item@.position == item.position,
        item@.tokens == item.tokens@,
        match item.body {
            ItemBody::ExternCrate { metadata, name, rename } => {
                &&& item@.body matches ItemBodyView::ExternCrate {
                    metadata: metadata_view,
                    name: name_view,
                    rename: rename_view,
                }
                &&& metadata matches Ok(visibility) ==> metadata_view == Ok::<_, LowerErrorView>(
                    visibility,
                )
                &&& metadata matches Err(error) ==> metadata_view == Err::<
                    crate::resolve::items::Visibility,
                    _,
                >(error@)
                &&& name_view == name@
                &&& rename matches Some(alias) ==> rename_view == Some(alias@)
                &&& rename is None ==> rename_view is None
            },
            ItemBody::Use { visibility, rooted, tree } => item@.body == (ItemBodyView::Use {
                visibility,
                rooted,
                tree: tree@,
            }),
            ItemBody::Macro { path, definition } => {
                &&& item@.body matches ItemBodyView::Macro {
                    path: path_view,
                    definition: definition_view,
                }
                &&& path_view == path@
                &&& definition matches Ok(def) ==> definition_view == Ok::<_, LowerErrorView>(def@)
                &&& definition matches Err(error) ==> definition_view == Err::<
                    crate::resolve::items::DeclarativeMacroView,
                    _,
                >(error@)
            },
            ItemBody::Static { visibility, name } => item@.body == (ItemBodyView::Static {
                visibility,
                name: name@,
            }),
            ItemBody::Const { visibility, name } => item@.body == (ItemBodyView::Const {
                visibility,
                name: name@,
            }),
            ItemBody::Fn { visibility, lowered } => item@.body == (ItemBodyView::Fn {
                visibility,
                lowered: lowered_view(lowered),
            }),
            ItemBody::Struct { lowered } => item@.body == (ItemBodyView::Struct {
                lowered: lowered_view(lowered),
            }),
            ItemBody::Enum { lowered } => item@.body == (ItemBodyView::Enum {
                lowered: lowered_view(lowered),
            }),
            ItemBody::Other => item@.body == ItemBodyView::Other,
        },
        item_views(items).len() == items.len(),
        forall|i: int| 0 <= i < items.len() ==> #[trigger] item_views(items)[i] == items[i]@,
{
}

/// A scope says all its imports, by name or in order.
pub proof fn law_scopes_say(scope: ModuleScope, paths: Seq<Path>)
    ensures
        scope@.imports == scope.imports@,
        scope@.pub_imports == scope.pub_imports@,
        scope@.glob_imports == path_views(scope.glob_imports@),
        scope@.pub_glob_imports == path_views(scope.pub_glob_imports@),
        path_views(paths).len() == paths.len(),
        forall|i: int| 0 <= i < paths.len() ==> #[trigger] path_views(paths)[i] == paths[i]@,
{
}

/// The state of a walk says all that it holds.
pub proof fn law_phases_say(
    crate_data: CrateData,
    loc: LocationMetadata,
    db: Db,
    textual_scope: TextualScope,
    pending: PendingItem,
    all_pending: Seq<PendingItem>,
    module: UnexpandedModule,
    phase: WalkParseExpandPhase,
)
    ensures
        crate_data@.crate_ == crate_data.crate_@,
        crate_data@.entry == crate_data.entry@,
        crate_data@.deps == crate_data.deps@,
        loc@ == (LocationView {
            source_file: loc.source_file@,
            macro_invocation: invocation_view(loc.macro_invocation),
            crate_data: loc.crate_data@,
            module: loc.module@,
        }),
        db@.types == db.types@,
        db@.symbols == db.symbols@,
        db@.macros == db.macros@,
        textual_scope@.len() == textual_scope.definitions@.len(),
        forall|i: int|
            #![trigger textual_scope@[i]]
            0 <= i < textual_scope@.len() ==> {
                &&& textual_scope.definitions@[i] is None ==> textual_scope@[i] is None
                &&& textual_scope.definitions@[i] matches Some(def) ==> textual_scope@[i] == Some(
                    def@,
                )
            },
        pending@.span == pending.span@,
        pending@.textual_scope == pending.textual_scope@,
        match pending.item {
            UnexpandedItem::UnresolvedMacroInvocation(tokens) => pending@.item
                == UnexpandedItemView::UnresolvedMacroInvocation(tokens@),
            UnexpandedItem::TypeMacro(tokens) => pending@.item == UnexpandedItemView::TypeMacro(
                tokens@,
            ),
            UnexpandedItem::AttributeMacro(tokens) => pending@.item
                == UnexpandedItemView::AttributeMacro(tokens@),
            UnexpandedItem::DeriveMacro(tokens) => pending@.item == UnexpandedItemView::DeriveMacro(
                tokens@,
            ),
        },
        pending_views(all_pending).len() == all_pending.len(),
        forall|i: int|
            0 <= i < all_pending.len() ==> #[trigger] pending_views(all_pending)[i]
                == all_pending[i]@,
        module@.loc == module.loc@,
        module@.scope == module.scope@,
        module@.textual_scope == module.textual_scope@,
        module@.unexpanded_items == pending_views(module.unexpanded_items@),
        phase@.db == phase.db@,
        phase@.macro_prelude == phase.macro_prelude@,
        phase@.unexpanded_modules == phase.unexpanded_modules@,
{
}

/// Warnings say their cause and their span, in order, and what is left of a crate says both its
/// warnings and its root.
pub proof fn law_warnings_say(warning: Warning, warnings: Seq<Warning>, walked: WalkedCrate)
    ensures
        warning@.cause == warning.cause@,
        warning@.span == warning.span@,
        warning_views(warnings).len() == warnings.len(),
        forall|i: int|
            0 <= i < warnings.len() ==> #[trigger] warning_views(warnings)[i] == warnings[i]@,
        walked@.warnings == warning_views(walked.warnings@),
        walked@.root == walked.root@,
{
}

/// A place says its base and all that is joined to it, in order.
pub proof fn law_places_say(path: SourcePath, paths: Seq<SourcePath>, lookup: SourceLookup)
    ensures
        path@.base == path.base,
        path@.joins == string_views(path.joins@),
        source_path_views(paths).len() == paths.len(),
        forall|i: int| 0 <= i < paths.len() ==> #[trigger] source_path_views(paths)[i] == paths[i]@,
        match lookup {
            SourceLookup::Exact(path) => lookup@ == SourceLookupView::Exact(path@),
            SourceLookup::Search(paths) => lookup@ == SourceLookupView::Search(
                source_path_views(paths@),
            ),
        },
{
}

/// An item of a text says all that was read of it; a list of items or failures says all of them, in
/// order.
pub proof fn law_sources_say(
    raw: RawItem,
    item: SourceItem,
    items: Seq<SourceItem>,
    failure: LowerError,
    failures: Seq<Option<LowerError>>,
    text: String,
)
    ensures
        option_view(Some(text)) == Some(text@),
        option_view(None) is None,
        raw@.kind == raw.kind,
        raw@.public == raw.public,
        raw@.name == option_view(raw.name),
        raw@.rename == option_view(raw.rename),
        raw@.attributes == string_views(raw.attributes@),
        raw@.rooted == raw.rooted,
        raw@.segments == string_views(raw.segments@),
        raw.tree matches Some(tree) ==> raw@.tree == Some(tree@),
        raw.tree is None ==> raw@.tree is None,
        raw@.text == raw.text@,
        item@.position == item.position,
        item@.raw == item.raw@,
        source_item_views(items).len() == items.len(),
        forall|i: int| 0 <= i < items.len() ==> #[trigger] source_item_views(items)[i] == items[i]@,
        failure_view(Some(failure)) == Some(failure@),
        failure_view(None) is None,
        failure_views(failures).len() == failures.len(),
        forall|i: int|
            0 <= i < failures.len() ==> #[trigger] failure_views(failures)[i] == failure_view(
                failures[i],
            ),
        MAX_SOURCE_CHARS == 0x0fff_ffff,
{
}

/// An item can be handled whenever the phase holds its module. It need not where the item is left
/// alone or fails.
pub proof fn law_module_present(
    phase: crate::resolve::phase::PhaseView,
    loc: LocationView,
    item: crate::resolve::items::ItemView,
)
    ensures
        phase.unexpanded_modules.contains_key(loc.module) ==> module_present(phase, loc, item),
        !(item.body is ExternCrate) && !(item.body is Use) && !(item.body is Macro)
            ==> module_present(phase, loc, item),
        item.body is ExternCrate && loc.module.path.len() == 0 ==> module_present(
            phase,
            loc,
            item,
        ),
        item.body matches ItemBodyView::ExternCrate { metadata, name, .. } && (metadata is Err
            || !loc.crate_data.deps.contains_key(name)) ==> module_present(phase, loc, item),
{
}

} // verus!
