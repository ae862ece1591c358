//! The items of a source file, and what lowering makes of them.

use std::sync::Arc;

use vstd::prelude::*;

use crate::resolve::paths::{Ident, UnresolvedPath, UnresolvedPathView};
use crate::resolve::table::Key;

verus! {

/// Where an item starts and ends in its file; lines count from 1, columns from 0.
#[derive(Clone, Copy, Debug, PartialEq, Eq, Structural)]
pub struct Position {
    pub start_line: usize,
    pub start_column: usize,
    pub end_line: usize,
    pub end_column: usize,
}

/// A region of source text, with the macro invocation that it was expanded from, if any.
#[derive(Debug)]
pub struct Span {
    pub macro_invocation: Option<Arc<Span>>,
    pub source_file: String,
    pub position: Position,
}

/// What a [`Span`] says.
pub struct SpanView {
    pub macro_invocation: Option<Box<SpanView>>,
    pub source_file: Seq<char>,
    pub position: Position,
}

/// What a span says.
pub open spec fn span_view(span: Span) -> SpanView
    decreases span,
{
    SpanView {
        macro_invocation: match span.macro_invocation {
            Some(outer) => Some(Box::new(span_view(*outer))),
            None => None,
        },
        source_file: span.source_file@,
        position: span.position,
    }
}

impl View for Span {
    type V = SpanView;

    open spec fn view(&self) -> SpanView {
        span_view(*self)
    }
}

/// What the macro invocation of a span says.
pub open spec fn invocation_view(invocation: Option<Arc<Span>>) -> Option<Box<SpanView>> {
    match invocation {
        Some(outer) => Some(Box::new((*outer)@)),
        None => None,
    }
}

impl Span {
    /// The region at `position` in `source_file`.
    pub fn new(
        macro_invocation: Option<Arc<Span>>,
        source_file: String,
        position: Position,
    ) -> (span: Self)
        ensures
            span@ == (SpanView {
                macro_invocation: invocation_view(macro_invocation),
                source_file: source_file@,
                position,
            }),
    {
        Span { macro_invocation, source_file, position }
    }
}

/// Whether an item can be named from outside its module.
#[derive(Clone, Copy, Debug, PartialEq, Eq, Structural)]
pub enum Visibility {
    Pub,
    NonPub,
}

/// Why an item could not be lowered.
#[derive(Debug)]
pub enum LowerError {
    /// The item is configured out of the build.
    CfgdOut,
    /// The item holds a macro invocation where a type is expected.
    TypePositionMacro,
    /// Anything else.
    Other(String),
}

/// What a [`LowerError`] says.
pub enum LowerErrorView {
    CfgdOut,
    TypePositionMacro,
    Other(Seq<char>),
}

impl View for LowerError {
    type V = LowerErrorView;

    open spec fn view(&self) -> LowerErrorView {
        match self {
            LowerError::CfgdOut => LowerErrorView::CfgdOut,
            LowerError::TypePositionMacro => LowerErrorView::TypePositionMacro,
            LowerError::Other(cause) => LowerErrorView::Other(cause@),
        }
    }
}

impl Clone for LowerError {
    fn clone(&self) -> (error: Self)
        ensures
            error@ == self@,
    {
        match self {
            LowerError::CfgdOut => LowerError::CfgdOut,
            LowerError::TypePositionMacro => LowerError::TypePositionMacro,
            LowerError::Other(cause) => LowerError::Other(cause.clone()),
        }
    }
}

/// Source text, kept as tokens until it is needed.
#[derive(Debug)]
pub struct Tokens {
    pub text: String,
}

impl View for Tokens {
    type V = Seq<char>;

    open spec fn view(&self) -> Seq<char> {
        self.text@
    }
}

impl Clone for Tokens {
    fn clone(&self) -> (tokens: Self)
        ensures
            tokens@ == self@,
    {
        Tokens { text: self.text.clone() }
    }
}

/// A lowered function, struct or enum.
#[derive(Debug)]
pub struct Definition {
    pub visibility: Visibility,
    pub name: Ident,
    pub tokens: Tokens,
}

/// What a [`Definition`] says.
pub struct DefinitionView {
    pub visibility: Visibility,
    pub name: Seq<char>,
    pub tokens: Seq<char>,
}

impl View for Definition {
    type V = DefinitionView;

    open spec fn view(&self) -> DefinitionView {
        DefinitionView { visibility: self.visibility, name: self.name@, tokens: self.tokens@ }
    }
}

impl Clone for Definition {
    fn clone(&self) -> (definition: Self)
        ensures
            definition@ == self@,
    {
        Definition {
            visibility: self.visibility,
            name: self.name.clone(),
            tokens: self.tokens.clone(),
        }
    }
}

/// A `macro_rules!` definition.
#[derive(Debug)]
pub struct DeclarativeMacroItem {
    pub name: Ident,
    /// Whether the definition carries `#[macro_export]`.
    pub macro_export: bool,
    pub tokens: Tokens,
}

impl Clone for DeclarativeMacroItem {
    fn clone(&self) -> (item: Self)
        ensures
            item@ == self@,
    {
        DeclarativeMacroItem {
            name: self.name.clone(),
            macro_export: self.macro_export,
            tokens: self.tokens.clone(),
        }
    }
}

/// What a [`DeclarativeMacroItem`] says.
pub struct DeclarativeMacroView {
    pub name: Seq<char>,
    pub macro_export: bool,
    pub tokens: Seq<char>,
}

impl View for DeclarativeMacroItem {
    type V = DeclarativeMacroView;

    open spec fn view(&self) -> DeclarativeMacroView {
        DeclarativeMacroView {
            name: self.name@,
            macro_export: self.macro_export,
            tokens: self.tokens@,
        }
    }
}

/// An entry of the namespace of values.
#[derive(Debug)]
pub enum SymbolItem {
    Function(Definition),
}

/// What a [`SymbolItem`] says.
pub enum SymbolItemView {
    Function(DefinitionView),
}

impl View for SymbolItem {
    type V = SymbolItemView;

    open spec fn view(&self) -> SymbolItemView {
        match self {
            SymbolItem::Function(definition) => SymbolItemView::Function(definition@),
        }
    }
}

/// An entry of the namespace of types.
#[derive(Debug)]
pub enum TypeItem {
    Struct(Definition),
    Enum(Definition),
}

/// What a [`TypeItem`] says.
pub enum TypeItemView {
    Struct(DefinitionView),
    Enum(DefinitionView),
}

impl View for TypeItem {
    type V = TypeItemView;

    open spec fn view(&self) -> TypeItemView {
        match self {
            TypeItem::Struct(definition) => TypeItemView::Struct(definition@),
            TypeItem::Enum(definition) => TypeItemView::Enum(definition@),
        }
    }
}

/// An entry of the namespace of macros.
#[derive(Debug)]
pub enum MacroItem {
    Declarative(DeclarativeMacroItem),
}

/// What a [`MacroItem`] says.
pub enum MacroItemView {
    Declarative(DeclarativeMacroView),
}

impl View for MacroItem {
    type V = MacroItemView;

    open spec fn view(&self) -> MacroItemView {
        match self {
            MacroItem::Declarative(def) => MacroItemView::Declarative(def@),
        }
    }
}

/// The tree of a `use` declaration.
#[derive(Debug)]
pub enum ImportTree {
    /// `name::tree`
    Path(Ident, Box<ImportTree>),
    /// `name`
    Name(Ident),
    /// `name as alias`
    Rename(Ident, Ident),
    /// `*`
    Glob,
    /// `{tree, tree}`
    Group(Vec<ImportTree>),
}

/// What a [`ImportTree`] says.
pub enum ImportTreeView {
    Path(Seq<char>, Box<ImportTreeView>),
    Name(Seq<char>),
    Rename(Seq<char>, Seq<char>),
    Glob,
    Group(Seq<ImportTreeView>),
}

/// What a `use` tree says.
pub open spec fn import_tree_view(tree: ImportTree) -> ImportTreeView
    decreases tree,
{
    match tree {
        ImportTree::Path(name, rest) => ImportTreeView::Path(
            name@,
            Box::new(import_tree_view(*rest)),
        ),
        ImportTree::Name(name) => ImportTreeView::Name(name@),
        ImportTree::Rename(name, alias) => ImportTreeView::Rename(name@, alias@),
        ImportTree::Glob => ImportTreeView::Glob,
        ImportTree::Group(trees) => ImportTreeView::Group(import_tree_views(trees@)),
    }
}

/// What a sequence of `use` trees says.
pub open spec fn import_tree_views(trees: Seq<ImportTree>) -> Seq<ImportTreeView>
    decreases trees,
{
    if trees.len() == 0 {
        Seq::empty()
    } else {
        import_tree_views(trees.drop_last()).push(import_tree_view(trees.last()))
    }
}

impl View for ImportTree {
    type V = ImportTreeView;

    open spec fn view(&self) -> ImportTreeView {
        import_tree_view(*self)
    }
}

/// What an item is. What lowering returned stands in the item, where walking depends on it.
#[derive(Debug)]
pub enum ItemBody {
    /// `extern crate name as rename;`
    ExternCrate { metadata: Result<Visibility, LowerError>, name: Ident, rename: Option<Ident> },
    /// `use tree;`, or `use ::tree;` where `rooted`
    Use { visibility: Visibility, rooted: bool, tree: ImportTree },
    /// `path! { .. }`, with the definition that it makes where it is a `macro_rules!`
    Macro { path: UnresolvedPath, definition: Result<DeclarativeMacroItem, LowerError> },
    Static { visibility: Visibility, name: Ident },
    Const { visibility: Visibility, name: Ident },
    Fn { visibility: Visibility, lowered: Result<Definition, LowerError> },
    Struct { lowered: Result<Definition, LowerError> },
    Enum { lowered: Result<Definition, LowerError> },
    /// Anything else: type aliases, unions, traits and their aliases, implementations, foreign
    /// items, modules, and text that is not understood.
    Other,
}

/// An item of a source file.
#[derive(Debug)]
pub struct Item {
    pub position: Position,
    /// The whole item.
    pub tokens: Tokens,
    pub body: ItemBody,
}

/// What an [`ItemBody`] says.
pub enum ItemBodyView {
    ExternCrate {
        metadata: Result<Visibility, LowerErrorView>,
        name: Seq<char>,
        rename: Option<Seq<char>>,
    },
    Use { visibility: Visibility, rooted: bool, tree: ImportTreeView },
    Macro { path: UnresolvedPathView, definition: Result<DeclarativeMacroView, LowerErrorView> },
    Static { visibility: Visibility, name: Seq<char> },
    Const { visibility: Visibility, name: Seq<char> },
    Fn { visibility: Visibility, lowered: Result<DefinitionView, LowerErrorView> },
    Struct { lowered: Result<DefinitionView, LowerErrorView> },
    Enum { lowered: Result<DefinitionView, LowerErrorView> },
    Other,
}

/// What a lowered definition says, or why there is none.
pub open spec fn lowered_view(lowered: Result<Definition, LowerError>) -> Result<
    DefinitionView,
    LowerErrorView,
> {
    match lowered {
        Ok(definition) => Ok(definition@),
        Err(error) => Err(error@),
    }
}

impl View for ItemBody {
    type V = ItemBodyView;

    open spec fn view(&self) -> ItemBodyView {
        match self {
            ItemBody::ExternCrate { metadata, name, rename } => ItemBodyView::ExternCrate {
                metadata: match metadata {
                    Ok(visibility) => Ok(*visibility),
                    Err(error) => Err(error@),
                },
                name: name@,
                rename: match rename {
                    Some(alias) => Some(alias@),
                    None => None,
                },
            },
            ItemBody::Use { visibility, rooted, tree } => ItemBodyView::Use {
                visibility: *visibility,
                rooted: *rooted,
                tree: tree@,
            },
            ItemBody::Macro { path, definition } => ItemBodyView::Macro {
                path: path@,
                definition: match definition {
                    Ok(def) => Ok(def@),
                    Err(error) => Err(error@),
                },
            },
            ItemBody::Static { visibility, name } => ItemBodyView::Static {
                visibility: *visibility,
                name: name@,
            },
            ItemBody::Const { visibility, name } => ItemBodyView::Const {
                visibility: *visibility,
                name: name@,
            },
            ItemBody::Fn { visibility, lowered } => ItemBodyView::Fn {
                visibility: *visibility,
                lowered: lowered_view(*lowered),
            },
            ItemBody::Struct { lowered } => ItemBodyView::Struct {
                lowered: lowered_view(*lowered),
            },
            ItemBody::Enum { lowered } => ItemBodyView::Enum { lowered: lowered_view(*lowered) },
            ItemBody::Other => ItemBodyView::Other,
        }
    }
}

/// What an [`Item`] says.
pub struct ItemView {
    pub position: Position,
    pub tokens: Seq<char>,
    pub body: ItemBodyView,
}

impl View for Item {
    type V = ItemView;

    open spec fn view(&self) -> ItemView {
        ItemView { position: self.position, tokens: self.tokens@, body: self.body@ }
    }
}

/// What a sequence of items says.
pub open spec fn item_views(items: Seq<Item>) -> Seq<ItemView> {
    items.map_values(|item: Item| item@)
}

/// An attribute that lowering gave no meaning to.
#[derive(Debug)]
pub struct Attribute {
    pub path: UnresolvedPath,
    /// The string that the attribute assigns, as in `#[path = "file.rs"]`.
    pub assigned: Option<String>,
    /// The whole attribute, for messages.
    pub text: String,
}

/// What surrounds an item.
#[derive(Debug)]
pub struct Metadata {
    pub visibility: Visibility,
    pub extra_attributes: Vec<Attribute>,
}

/// The position of the first attribute called `name`, or the number of attributes.
pub open spec fn attribute_index(attributes: Seq<Attribute>, name: Seq<char>) -> int
    decreases attributes.len(),
{
    if attributes.len() == 0 || attributes[0].path@.ident() == Some(name) {
        0
    } else {
        1 + attribute_index(attributes.drop_first(), name)
    }
}

impl Metadata {
    /// Takes the first attribute called `name` out.
    pub fn extract_attribute(&mut self, name: &Ident) -> (attribute: Option<Attribute>)
        ensures
            final(self).visibility == old(self).visibility,
            ({
                let attributes = old(self).extra_attributes@;
                let i = attribute_index(attributes, name@);
                if i < attributes.len() {
                    attribute == Some(attributes[i]) && final(self).extra_attributes@
                        == attributes.remove(i)
                } else {
                    attribute is None && final(self).extra_attributes@ == attributes
                }
            }),
    {
        let mut i: usize = 0;
        assert(self.extra_attributes@.skip(0) == self.extra_attributes@);
        while i < self.extra_attributes.len()
            invariant
                self.visibility == old(self).visibility,
                self.extra_attributes@ == old(self).extra_attributes@,
                i <= self.extra_attributes@.len(),
                attribute_index(self.extra_attributes@, name@) == i + attribute_index(
                    self.extra_attributes@.skip(i as int),
                    name@,
                ),
            decreases self.extra_attributes@.len() - i,
        {
            let found = match self.extra_attributes[i].path.get_ident() {
                Some(ident) => ident.same(name),
                None => false,
            };
            assert(self.extra_attributes@.skip(i as int).drop_first()
                == self.extra_attributes@.skip(i + 1));
            if found {
                return Some(self.extra_attributes.remove(i));
            }
            i += 1;
        }
        None
    }
}

/// A module declaration.
#[derive(Debug)]
pub struct ModuleItem {
    pub name: Ident,
    pub metadata: Metadata,
}

} // verus!
