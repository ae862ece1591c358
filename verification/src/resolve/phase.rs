//! The state of a walk: the database, and the modules whose macros are not expanded yet.

use std::sync::Arc;

use vstd::prelude::*;

use crate::resolve::errors::{outcome, Namespace, WalkError, WalkErrorView};
use crate::resolve::items::{
    invocation_view, DeclarativeMacroItem, DeclarativeMacroView, MacroItem, MacroItemView, Position,
    Span, SpanView, SymbolItem, SymbolItemView, Tokens, TypeItem, TypeItemView,
};
use crate::resolve::paths::{AbsoluteCrate, AbsolutePath, AbsolutePathView, CrateView, Ident};
use crate::resolve::scope::{ModuleScope, ScopeView};
use crate::resolve::table::{Duplicate, Table};

verus! {

/// What is known of a crate before it is walked.
pub struct CrateData {
    pub crate_: AbsoluteCrate,
    /// The source file that the crate starts in.
    pub entry: String,
    /// The crates that this one depends on, by the names that it knows them under.
    pub deps: Table<Ident, AbsoluteCrate>,
}

/// What a [`CrateData`] says.
#[verifier::ext_equal]
pub struct CrateDataView {
    pub crate_: CrateView,
    pub entry: Seq<char>,
    pub deps: Map<Seq<char>, CrateView>,
}

impl View for CrateData {
    type V = CrateDataView;

    open spec fn view(&self) -> CrateDataView {
        CrateDataView { crate_: self.crate_@, entry: self.entry@, deps: self.deps@ }
    }
}

impl Duplicate for CrateData {
    fn duplicate(&self) -> (copy: Self) {
        CrateData {
            crate_: self.crate_.clone(),
            entry: self.entry.clone(),
            deps: self.deps.duplicate(),
        }
    }
}

/// Where a module stands, in the file system and among the crate's modules.
pub struct LocationMetadata {
    pub source_file: String,
    pub macro_invocation: Option<Arc<Span>>,
    pub crate_data: CrateData,
    pub module: AbsolutePath,
}

/// What a [`LocationMetadata`] says.
#[verifier::ext_equal]
pub struct LocationView {
    pub source_file: Seq<char>,
    pub macro_invocation: Option<Box<SpanView>>,
    pub crate_data: CrateDataView,
    pub module: AbsolutePathView,
}

impl View for LocationMetadata {
    type V = LocationView;

    open spec fn view(&self) -> LocationView {
        LocationView {
            source_file: self.source_file@,
            macro_invocation: invocation_view(self.macro_invocation),
            crate_data: self.crate_data@,
            module: self.module@,
        }
    }
}

impl LocationView {
    /// The span of what stands at `position` in this module's file.
    pub open spec fn span_at(self, position: Position) -> SpanView {
        SpanView {
            macro_invocation: self.macro_invocation,
            source_file: self.source_file,
            position,
        }
    }
}

impl LocationMetadata {
    /// The span of what stands at `position` in this module's file.
    pub fn span(&self, position: Position) -> (span: Span)
        ensures
            span@ == self@.span_at(position),
    {
        let macro_invocation = match &self.macro_invocation {
            Some(invocation) => Some(invocation.clone()),
            None => None,
        };
        Span::new(macro_invocation, self.source_file.clone(), position)
    }
}

/// The definitions of all crates that were walked.
pub struct Db {
    pub types: Table<AbsolutePath, TypeItem>,
    pub symbols: Table<AbsolutePath, SymbolItem>,
    pub macros: Table<AbsolutePath, MacroItem>,
}

/// What a [`Db`] holds.
#[verifier::ext_equal]
pub struct DbView {
    pub types: Map<AbsolutePathView, TypeItemView>,
    pub symbols: Map<AbsolutePathView, SymbolItemView>,
    pub macros: Map<AbsolutePathView, MacroItemView>,
}

impl View for Db {
    type V = DbView;

    open spec fn view(&self) -> DbView {
        DbView { types: self.types@, symbols: self.symbols@, macros: self.macros@ }
    }
}

impl Db {
    /// The database without definitions.
    pub fn new() -> (db: Self)
        ensures
            db@ == (DbView { types: Map::empty(), symbols: Map::empty(), macros: Map::empty() }),
    {
        Db { types: Table::new(), symbols: Table::new(), macros: Table::new() }
    }
}

/// Defines `path` as `item`, unless `path` is defined already.
pub fn define<V: View>(
    table: &mut Table<AbsolutePath, V>,
    namespace: Namespace,
    path: AbsolutePath,
    item: V,
) -> (result: Result<(), WalkError>)
    ensures
        outcome(result) == (if old(table)@.contains_key(path@) {
            Err(WalkErrorView::AlreadyDefined(namespace, path@))
        } else {
            Ok(())
        }),
        final(table)@ == (if old(table)@.contains_key(path@) {
            old(table)@
        } else {
            old(table)@.insert(path@, item@)
        }),
{
    if table.contains(&path) {
        Err(WalkError::AlreadyDefined(namespace, path))
    } else {
        table.insert(path, item);
        Ok(())
    }
}

/// The `macro_rules!` definitions that are visible at a point of a module, in the order of the
/// text. A point without a definition of its own adds an empty entry.
pub struct TextualScope {
    pub definitions: Vec<Option<DeclarativeMacroItem>>,
}

/// What stands at a point of a [`TextualScope`].
pub open spec fn scope_entry_view(definition: Option<DeclarativeMacroItem>) -> Option<
    DeclarativeMacroView,
> {
    match definition {
        Some(def) => Some(def@),
        None => None,
    }
}

/// What stands at the points of a [`TextualScope`].
pub open spec fn scope_entry_views(definitions: Seq<Option<DeclarativeMacroItem>>) -> Seq<
    Option<DeclarativeMacroView>,
> {
    definitions.map_values(|definition: Option<DeclarativeMacroItem>| scope_entry_view(definition))
}

impl View for TextualScope {
    type V = Seq<Option<DeclarativeMacroView>>;

    open spec fn view(&self) -> Seq<Option<DeclarativeMacroView>> {
        scope_entry_views(self.definitions@)
    }
}

/// A copy of what stands at a point of a [`TextualScope`].
fn copy_definition(definition: &Option<DeclarativeMacroItem>) -> (copy: Option<
    DeclarativeMacroItem,
>)
    ensures
        scope_entry_view(copy) == scope_entry_view(*definition),
{
    match definition {
        Some(item) => Some(item.clone()),
        None => None,
    }
}

impl TextualScope {
    /// The scope in which no macro is defined.
    pub fn new() -> (scope: Self)
        ensures
            scope@ == Seq::<Option<DeclarativeMacroView>>::empty(),
    {
        let scope = TextualScope { definitions: Vec::new() };
        assert(scope@ =~= Seq::empty());
        scope
    }

    /// The scope that follows this one, after `definition` if there is one.
    pub fn append_scope(&self, definition: Option<DeclarativeMacroItem>) -> (scope: Self)
        ensures
            scope@ == self@.push(scope_entry_view(definition)),
    {
        let mut definitions: Vec<Option<DeclarativeMacroItem>> = Vec::new();
        let mut i: usize = 0;
        while i < self.definitions.len()
            invariant
                i <= self.definitions@.len(),
                scope_entry_views(definitions@) == self@.take(i as int),
            decreases self.definitions@.len() - i,
        {
            let ghost before = definitions@;
            definitions.push(copy_definition(&self.definitions[i]));
            i += 1;
            assert(scope_entry_views(definitions@) =~= scope_entry_views(before).push(
                scope_entry_view(self.definitions@[i - 1]),
            ));
            assert(self@.take(i as int) =~= self@.take(i - 1).push(self@[i - 1]));
        }
        assert(self@.take(i as int) =~= self@);
        let ghost before = definitions@;
        definitions.push(definition);
        assert(scope_entry_views(definitions@) =~= scope_entry_views(before).push(
            scope_entry_view(definition),
        ));
        TextualScope { definitions }
    }
}

/// An item that is not expanded yet.
#[derive(Debug)]
pub enum UnexpandedItem {
    /// A macro invocation in item position.
    UnresolvedMacroInvocation(Tokens),
    /// An item with a macro invocation in type position.
    TypeMacro(Tokens),
    /// An item with an attribute macro.
    AttributeMacro(Tokens),
    /// An item with a derive macro.
    DeriveMacro(Tokens),
}

/// What an [`UnexpandedItem`] holds.
pub enum UnexpandedItemView {
    UnresolvedMacroInvocation(Seq<char>),
    TypeMacro(Seq<char>),
    AttributeMacro(Seq<char>),
    DeriveMacro(Seq<char>),
}

impl View for UnexpandedItem {
    type V = UnexpandedItemView;

    open spec fn view(&self) -> UnexpandedItemView {
        match self {
            UnexpandedItem::UnresolvedMacroInvocation(tokens) => {
                UnexpandedItemView::UnresolvedMacroInvocation(tokens@)
            },
            UnexpandedItem::TypeMacro(tokens) => UnexpandedItemView::TypeMacro(tokens@),
            UnexpandedItem::AttributeMacro(tokens) => UnexpandedItemView::AttributeMacro(tokens@),
            UnexpandedItem::DeriveMacro(tokens) => UnexpandedItemView::DeriveMacro(tokens@),
        }
    }
}

/// An item that is not expanded yet, with its span and the macros that it can see.
pub struct PendingItem {
    pub span: Span,
    pub textual_scope: TextualScope,
    pub item: UnexpandedItem,
}

/// What a [`PendingItem`] holds.
pub struct PendingView {
    pub span: SpanView,
    pub textual_scope: Seq<Option<DeclarativeMacroView>>,
    pub item: UnexpandedItemView,
}

impl View for PendingItem {
    type V = PendingView;

    open spec fn view(&self) -> PendingView {
        PendingView { span: self.span@, textual_scope: self.textual_scope@, item: self.item@ }
    }
}

/// A module whose macros are not expanded yet.
pub struct UnexpandedModule {
    /// Where the module is.
    pub loc: LocationMetadata,
    /// What the module imports.
    pub scope: ModuleScope,
    /// The macros that are visible at the end of the module.
    pub textual_scope: TextualScope,
    /// The items that are left to expand, in the order of the text.
    pub unexpanded_items: Vec<PendingItem>,
}

/// What an [`UnexpandedModule`] holds.
#[verifier::ext_equal]
pub struct ModuleView {
    pub loc: LocationView,
    pub scope: ScopeView,
    pub textual_scope: Seq<Option<DeclarativeMacroView>>,
    pub unexpanded_items: Seq<PendingView>,
}

impl ModuleView {
    /// A module before anything of it was walked.
    pub open spec fn untouched(loc: LocationView) -> ModuleView {
        ModuleView {
            loc,
            scope: ScopeView::empty(),
            textual_scope: Seq::empty(),
            unexpanded_items: Seq::empty(),
        }
    }

    /// The module after one more item that is left to expand. The item sees the macros that are
    /// defined so far, and adds an entry of its own.
    pub open spec fn waiting(self, span: SpanView, item: UnexpandedItemView) -> ModuleView {
        let pending = PendingView { span, textual_scope: self.textual_scope.push(None), item };
        ModuleView { unexpanded_items: self.unexpanded_items.push(pending), ..self }
    }
}

/// What a sequence of pending items holds.
pub open spec fn pending_views(items: Seq<PendingItem>) -> Seq<PendingView> {
    items.map_values(|item: PendingItem| item@)
}

impl View for UnexpandedModule {
    type V = ModuleView;

    open spec fn view(&self) -> ModuleView {
        ModuleView {
            loc: self.loc@,
            scope: self.scope@,
            textual_scope: self.textual_scope@,
            unexpanded_items: pending_views(self.unexpanded_items@),
        }
    }
}

impl UnexpandedModule {
    /// The module at `loc`, before anything of it was walked.
    pub fn new(loc: LocationMetadata) -> (module: Self)
        ensures
            module@ == ModuleView::untouched(loc@),
    {
        let module = UnexpandedModule {
            loc,
            scope: ModuleScope::new(),
            textual_scope: TextualScope::new(),
            unexpanded_items: Vec::new(),
        };
        assert(module@.unexpanded_items =~= Seq::empty());
        module
    }

    /// Keeps an item until it is expanded.
    pub fn keep(&mut self, span: Span, item: UnexpandedItem)
        ensures
            final(self)@ == old(self)@.waiting(span@, item@),
    {
        let textual_scope = self.textual_scope.append_scope(None);
        let ghost before = self.unexpanded_items@;
        self.unexpanded_items.push(PendingItem { span, textual_scope, item });
        assert(pending_views(self.unexpanded_items@) =~= pending_views(before).push(
            self.unexpanded_items@.last()@,
        ));
    }
}

/// The first phase of a walk: files are parsed, imports found and macros expanded. What has
/// nothing to do with macros goes to the database.
pub struct WalkParseExpandPhase {
    pub db: Db,
    /// The macros that every module of the crate can see without importing them.
    pub macro_prelude: Table<Ident, DeclarativeMacroItem>,
    /// The modules that are not expanded yet.
    pub unexpanded_modules: Table<AbsolutePath, UnexpandedModule>,
}

/// What a [`WalkParseExpandPhase`] holds.
#[verifier::ext_equal]
pub struct PhaseView {
    pub db: DbView,
    pub macro_prelude: Map<Seq<char>, DeclarativeMacroView>,
    pub unexpanded_modules: Map<AbsolutePathView, ModuleView>,
}

impl View for WalkParseExpandPhase {
    type V = PhaseView;

    open spec fn view(&self) -> PhaseView {
        PhaseView {
            db: self.db@,
            macro_prelude: self.macro_prelude@,
            unexpanded_modules: self.unexpanded_modules@,
        }
    }
}

impl WalkParseExpandPhase {
    /// The phase that starts from `db`, before any module was walked.
    pub fn new(db: Db) -> (phase: Self)
        ensures
            phase@ == (PhaseView {
                db: db@,
                macro_prelude: Map::empty(),
                unexpanded_modules: Map::empty(),
            }),
    {
        WalkParseExpandPhase { db, macro_prelude: Table::new(), unexpanded_modules: Table::new() }
    }
}

} // verus!
