//! Reading the items of a source file.

use syn::Item as ParsedItem;
use vstd::prelude::*;

use crate::resolve::errors::{WalkError, WalkErrorView};
use crate::resolve::items::{
    import_tree_views, item_views, lowered_view, DeclarativeMacroItem, DeclarativeMacroView,
    Definition, DefinitionView, ImportTree, ImportTreeView, Item, ItemBody, ItemBodyView, ItemView,
    LowerError, LowerErrorView, Position, Tokens, Visibility,
};
use crate::resolve::paths::{spellings, Ident, UnresolvedPath, UnresolvedPathView};
use crate::text::string_views;

verus! {

/// A failure to parse, as `syn` reports it.
#[verifier::external_type_specification]
#[verifier::external_body]
pub struct ExSynError(syn::Error);

/// A parsed source file: a sequence of items.
#[verifier::external_type_specification]
#[verifier::external_body]
pub struct ExSynFile(syn::File);

/// A parsed `use` tree.
#[verifier::external_type_specification]
#[verifier::external_body]
pub struct ExSynUseTree(syn::UseTree);

/// The kinds of items.
#[derive(Clone, Copy, Debug, PartialEq, Eq, Structural)]
pub enum ItemKind {
    ExternCrate,
    Use,
    Macro,
    Static,
    Const,
    Fn,
    Struct,
    Enum,
    Type,
    Union,
    Trait,
    TraitAlias,
    Impl,
    ForeignMod,
    Mod,
    /// Text that the parser does not understand.
    Verbatim,
    /// A kind that is not listed here.
    Unlisted,
}

/// Whether walking tells a kind of items apart from the others.
pub open spec fn is_walked(kind: ItemKind) -> bool {
    match kind {
        ItemKind::ExternCrate
        | ItemKind::Use
        | ItemKind::Macro
        | ItemKind::Static
        | ItemKind::Const
        | ItemKind::Fn
        | ItemKind::Struct
        | ItemKind::Enum => true,
        _ => false,
    }
}

/// What the text of a source file says of one of its items.
#[derive(Debug)]
pub struct RawItem {
    pub kind: ItemKind,
    /// Whether the visibility is `pub` without a restriction, of the kinds that are walked by it.
    pub public: Option<bool>,
    /// The name, of the kinds that have one.
    pub name: Option<String>,
    /// The new name that an `extern crate` gives.
    pub rename: Option<String>,
    /// The paths of a macro's attributes.
    pub attributes: Vec<String>,
    /// Whether the path of a `use` or of a macro starts with `::`.
    pub rooted: bool,
    /// The names in the path of a macro.
    pub segments: Vec<String>,
    /// The tree of a `use`.
    pub tree: Option<ImportTree>,
    /// The tokens of the item.
    pub text: String,
}

/// What a [`RawItem`] says.
pub struct RawItemView {
    pub kind: ItemKind,
    pub public: Option<bool>,
    pub name: Option<Seq<char>>,
    pub rename: Option<Seq<char>>,
    pub attributes: Seq<Seq<char>>,
    pub rooted: bool,
    pub segments: Seq<Seq<char>>,
    pub tree: Option<ImportTreeView>,
    pub text: Seq<char>,
}

/// An item of a source file, before it is lowered.
#[derive(Debug)]
pub struct SourceItem {
    pub position: Position,
    pub raw: RawItem,
}

/// What a [`SourceItem`] says.
pub struct SourceItemView {
    pub position: Position,
    pub raw: RawItemView,
}

impl View for SourceItem {
    type V = SourceItemView;

    open spec fn view(&self) -> SourceItemView {
        SourceItemView { position: self.position, raw: self.raw@ }
    }
}

/// What a sequence of items says.
pub open spec fn source_item_views(items: Seq<SourceItem>) -> Seq<SourceItemView> {
    items.map_values(|item: SourceItem| item@)
}

/// What an optional string says.
pub open spec fn option_view(text: Option<String>) -> Option<Seq<char>> {
    match text {
        Some(text) => Some(text@),
        None => None,
    }
}

impl View for RawItem {
    type V = RawItemView;

    open spec fn view(&self) -> RawItemView {
        RawItemView {
            kind: self.kind,
            public: self.public,
            name: option_view(self.name),
            rename: option_view(self.rename),
            attributes: string_views(self.attributes@),
            rooted: self.rooted,
            segments: string_views(self.segments@),
            tree: match self.tree {
                Some(tree) => Some(tree@),
                None => None,
            },
            text: self.text@,
        }
    }
}

/// The number of characters that a source file may have. The parser counts them in 32 bits, and
/// counts parts of a text again each time it looks at them as a negative literal, or as numbers
/// behind a dot: some ten times at most. So the limit is a sixteenth of what 32 bits can count.
pub const MAX_SOURCE_CHARS: usize = 0x0fff_ffff;

/// The items of the source file with the given text; `None` where it is not a Rust source file.
pub uninterp spec fn source_items(source: Seq<char>) -> Option<Seq<SourceItemView>>;

/// Why the given text is not a Rust source file, where it is none.
pub uninterp spec fn source_error(source: Seq<char>) -> Seq<char>;

/// The message of a failure to parse.
pub uninterp spec fn error_message(error: syn::Error) -> Seq<char>;

/// The items that a parsed file holds, without their positions.
pub uninterp spec fn file_items(file: syn::File) -> Seq<RawItemView>;

/// What a parsed `use` tree holds.
pub uninterp spec fn parsed_use_tree(tree: syn::UseTree) -> ImportTreeView;

/// Items with their positions.
pub open spec fn located(positions: Seq<Position>, items: Seq<RawItemView>) -> Seq<SourceItemView> {
    Seq::new(
        items.len(),
        |i: int| SourceItemView { position: positions[i], raw: items[i] },
    )
}

/// Calls `syn::parse_file`, and reads the lines and columns of each item off its span, which
/// `syn::spanned::Spanned::span` gives. Whether a text is accepted, the items of the file and their
/// positions, and the message of the error otherwise are determined by the text. How they follow
/// from the text is left unsaid: that is the grammar of Rust.
///
/// Positions are counted over all texts that a thread has parsed, so that count is reset first, by
/// `proc_macro2::extra::invalidate_current_thread_spans`. Spans that the thread got before are
/// invalid afterwards. Inside a procedural macro that function is not available.
#[verifier::external_body]
fn parse_source(source: &str) -> (parsed: Result<(syn::File, Vec<Position>), syn::Error>)
    requires
        source@.len() <= MAX_SOURCE_CHARS,
    ensures
        match parsed {
            Ok((file, positions)) => {
                &&& positions@.len() == file_items(file).len()
                &&& source_items(source@) == Some(located(positions@, file_items(file)))
            },
            Err(error) => {
                &&& source_items(source@) is None
                &&& source_error(source@) == error_message(error)
            },
        },
{
    proc_macro2::extra::invalidate_current_thread_spans();
    let file = syn::parse_file(source)?;
    let spans = file.items.iter().map(|item| syn::spanned::Spanned::span(item));
    let positions = spans.map(
        |span| Position {
            start_line: span.start().line,
            start_column: span.start().column,
            end_line: span.end().line,
            end_column: span.end().column,
        },
    ).collect();
    Ok((file, positions))
}

/// Calls `to_string` of a `syn::Error`, which gives its message.
#[verifier::external_body]
fn error_text(error: &syn::Error) -> (message: String)
    ensures
        message@ == error_message(*error),
{
    error.to_string()
}

/// Reads the number of items off the field `items` of a `syn::File`.
#[verifier::external_body]
fn item_count(file: &syn::File) -> (count: usize)
    ensures
        count == file_items(*file).len(),
{
    file.items.len()
}

/// Reads the kind of an item off the variant of its `syn::Item`, of the kinds that are walked.
#[verifier::external_body]
fn walked_kind(file: &syn::File, i: usize) -> (kind: Option<ItemKind>)
    requires
        i < file_items(*file).len(),
    ensures
        match kind {
            Some(kind) => kind == file_items(*file)[i as int].kind,
            None => !is_walked(file_items(*file)[i as int].kind),
        },
{
    match &file.items[i] {
        ParsedItem::ExternCrate(_) => Some(ItemKind::ExternCrate),
        ParsedItem::Use(_) => Some(ItemKind::Use),
        ParsedItem::Macro(_) => Some(ItemKind::Macro),
        ParsedItem::Static(_) => Some(ItemKind::Static),
        ParsedItem::Const(_) => Some(ItemKind::Const),
        ParsedItem::Fn(_) => Some(ItemKind::Fn),
        ParsedItem::Struct(_) => Some(ItemKind::Struct),
        ParsedItem::Enum(_) => Some(ItemKind::Enum),
        _ => None,
    }
}

/// Reads the kind of an item off the variant of its `syn::Item`, of the kinds that are not walked.
#[verifier::external_body]
fn other_kind(file: &syn::File, i: usize) -> (kind: ItemKind)
    requires
        i < file_items(*file).len(),
        !is_walked(file_items(*file)[i as int].kind),
    ensures
        kind == file_items(*file)[i as int].kind,
{
    match &file.items[i] {
        ParsedItem::Type(_) => ItemKind::Type,
        ParsedItem::Union(_) => ItemKind::Union,
        ParsedItem::Trait(_) => ItemKind::Trait,
        ParsedItem::TraitAlias(_) => ItemKind::TraitAlias,
        ParsedItem::Impl(_) => ItemKind::Impl,
        ParsedItem::ForeignMod(_) => ItemKind::ForeignMod,
        ParsedItem::Mod(_) => ItemKind::Mod,
        ParsedItem::Verbatim(_) => ItemKind::Verbatim,
        _ => ItemKind::Unlisted,
    }
}

/// Reads whether the field `vis` of an item's `syn::Item` is `syn::Visibility::Public`, of the
/// kinds that are walked by their visibility.
#[verifier::external_body]
fn item_public(file: &syn::File, i: usize) -> (public: Option<bool>)
    requires
        i < file_items(*file).len(),
    ensures
        public == file_items(*file)[i as int].public,
{
    let vis = match &file.items[i] {
        ParsedItem::ExternCrate(item) => &item.vis,
        ParsedItem::Use(item) => &item.vis,
        ParsedItem::Static(item) => &item.vis,
        ParsedItem::Const(item) => &item.vis,
        ParsedItem::Fn(item) => &item.vis,
        ParsedItem::Struct(item) => &item.vis,
        ParsedItem::Enum(item) => &item.vis,
        _ => return None,
    };
    Some(matches!(vis, syn::Visibility::Public(_)))
}

/// Reads the name of an item off the field `ident` of its `syn::Item`, as text. A macro has a
/// name where it is a definition.
#[verifier::external_body]
fn item_name(file: &syn::File, i: usize) -> (name: Option<String>)
    requires
        i < file_items(*file).len(),
    ensures
        option_view(name) == file_items(*file)[i as int].name,
{
    let ident = match &file.items[i] {
        ParsedItem::ExternCrate(item) => Some(&item.ident),
        ParsedItem::Macro(item) => item.ident.as_ref(),
        ParsedItem::Static(item) => Some(&item.ident),
        ParsedItem::Const(item) => Some(&item.ident),
        ParsedItem::Fn(item) => Some(&item.sig.ident),
        ParsedItem::Struct(item) => Some(&item.ident),
        ParsedItem::Enum(item) => Some(&item.ident),
        _ => None,
    };
    ident.map(|ident| ident.to_string())
}

/// Reads the new name off the field `rename` of a `syn::ItemExternCrate`, as text.
#[verifier::external_body]
fn item_rename(file: &syn::File, i: usize) -> (rename: Option<String>)
    requires
        i < file_items(*file).len(),
    ensures
        option_view(rename) == file_items(*file)[i as int].rename,
{
    match &file.items[i] {
        ParsedItem::ExternCrate(item) => item.rename.as_ref().map(|rename| rename.1.to_string()),
        _ => None,
    }
}

/// Reads the paths of the attributes off the field `attrs` of a `syn::ItemMacro`, as text.
#[verifier::external_body]
fn item_attributes(file: &syn::File, i: usize) -> (attributes: Vec<String>)
    requires
        i < file_items(*file).len(),
    ensures
        string_views(attributes@) == file_items(*file)[i as int].attributes,
{
    match &file.items[i] {
        ParsedItem::Macro(item) => item.attrs.iter().map(
            |attr| quote::ToTokens::to_token_stream(attr.path()).to_string(),
        ).collect(),
        _ => Vec::new(),
    }
}

/// Reads whether the path of a `syn::ItemUse` or a `syn::ItemMacro` starts with `::` off the field
/// `leading_colon`.
#[verifier::external_body]
fn item_rooted(file: &syn::File, i: usize) -> (rooted: bool)
    requires
        i < file_items(*file).len(),
    ensures
        rooted == file_items(*file)[i as int].rooted,
{
    match &file.items[i] {
        ParsedItem::Use(item) => item.leading_colon.is_some(),
        ParsedItem::Macro(item) => item.mac.path.leading_colon.is_some(),
        _ => false,
    }
}

/// Reads the names in the path of a `syn::ItemMacro`, as text.
#[verifier::external_body]
fn item_segments(file: &syn::File, i: usize) -> (segments: Vec<String>)
    requires
        i < file_items(*file).len(),
    ensures
        string_views(segments@) == file_items(*file)[i as int].segments,
{
    match &file.items[i] {
        ParsedItem::Macro(item) => item.mac.path.segments.iter().map(
            |segment| segment.ident.to_string(),
        ).collect(),
        _ => Vec::new(),
    }
}

/// Reads the field `tree` of a `syn::ItemUse`.
#[verifier::external_body]
fn item_tree(file: &syn::File, i: usize) -> (tree: Option<&syn::UseTree>)
    requires
        i < file_items(*file).len(),
    ensures
        file_items(*file)[i as int].tree == (match tree {
            Some(tree) => Some(parsed_use_tree(*tree)),
            None => None,
        }),
{
    match &file.items[i] {
        ParsedItem::Use(item) => Some(&item.tree),
        _ => None,
    }
}

/// Prints the tokens of an item, which `quote::ToTokens::to_token_stream` gives.
#[verifier::external_body]
fn item_text(file: &syn::File, i: usize) -> (text: String)
    requires
        i < file_items(*file).len(),
    ensures
        text@ == file_items(*file)[i as int].text,
{
    quote::ToTokens::to_token_stream(&file.items[i]).to_string()
}

/// The outermost level of a parsed `use` tree.
enum UseShape<'a> {
    Path(String, &'a syn::UseTree),
    Name(String),
    Rename(String, String),
    Glob,
    Group(Vec<&'a syn::UseTree>),
}

/// What the outermost level of a `use` tree stands for.
spec fn shape_view(shape: UseShape<'_>) -> ImportTreeView {
    match shape {
        UseShape::Path(name, rest) => ImportTreeView::Path(name@, Box::new(parsed_use_tree(*rest))),
        UseShape::Name(name) => ImportTreeView::Name(name@),
        UseShape::Rename(name, alias) => ImportTreeView::Rename(name@, alias@),
        UseShape::Glob => ImportTreeView::Glob,
        UseShape::Group(trees) => ImportTreeView::Group(
            trees@.map_values(|tree: &syn::UseTree| parsed_use_tree(*tree)),
        ),
    }
}

/// Reads the variant of a `syn::UseTree` and its fields; names as text.
#[verifier::external_body]
fn open_use_tree(tree: &syn::UseTree) -> (shape: UseShape<'_>)
    ensures
        shape_view(shape) == parsed_use_tree(*tree),
{
    match tree {
        syn::UseTree::Path(path) => UseShape::Path(path.ident.to_string(), &path.tree),
        syn::UseTree::Name(name) => UseShape::Name(name.ident.to_string()),
        syn::UseTree::Rename(name) => {
            UseShape::Rename(name.ident.to_string(), name.rename.to_string())
        },
        syn::UseTree::Glob(_) => UseShape::Glob,
        syn::UseTree::Group(group) => UseShape::Group(group.items.iter().collect()),
    }
}

/// Reads a parsed `use` tree.
fn read_use_tree(tree: &syn::UseTree) -> (read: ImportTree)
    ensures
        read@ == parsed_use_tree(*tree),
    decreases parsed_use_tree(*tree),
{
    match open_use_tree(tree) {
        UseShape::Path(name, rest) => {
            assert(decreases_to!(parsed_use_tree(*tree) => parsed_use_tree(*tree)->Path_1));
            ImportTree::Path(Ident { text: name }, Box::new(read_use_tree(rest)))
        },
        UseShape::Name(name) => ImportTree::Name(Ident { text: name }),
        UseShape::Rename(name, alias) => ImportTree::Rename(
            Ident { text: name },
            Ident { text: alias },
        ),
        UseShape::Glob => ImportTree::Glob,
        UseShape::Group(trees) => {
            let ghost views = trees@.map_values(|tree: &syn::UseTree| parsed_use_tree(*tree));
            assert(parsed_use_tree(*tree) == ImportTreeView::Group(views));
            let mut read: Vec<ImportTree> = Vec::new();
            let mut i: usize = 0;
            while i < trees.len()
                invariant
                    i <= trees@.len(),
                    views == trees@.map_values(|tree: &syn::UseTree| parsed_use_tree(*tree)),
                    parsed_use_tree(*tree) == ImportTreeView::Group(views),
                    import_tree_views(read@) == views.take(i as int),
                decreases trees@.len() - i,
            {
                let ghost before = read@;
                assert(decreases_to!(parsed_use_tree(*tree) => parsed_use_tree(*tree)->Group_0));
                assert(decreases_to!(views => views[i as int]));
                assert(views[i as int] == parsed_use_tree(*trees@[i as int]));
                let next = read_use_tree(trees[i]);
                read.push(next);
                assert(read@.drop_last() == before);
                i += 1;
                assert(views.take(i as int) == views.take(i - 1).push(views[i - 1]));
            }
            assert(views.take(i as int) == views);
            ImportTree::Group(read)
        },
    }
}

/// Reads an item of a parsed file.
fn read_item(file: &syn::File, i: usize) -> (raw: RawItem)
    requires
        i < file_items(*file).len(),
    ensures
        raw@ == file_items(*file)[i as int],
{
    let tree = match item_tree(file, i) {
        Some(tree) => Some(read_use_tree(tree)),
        None => None,
    };
    let kind = match walked_kind(file, i) {
        Some(kind) => kind,
        None => other_kind(file, i),
    };
    RawItem {
        kind,
        public: item_public(file, i),
        name: item_name(file, i),
        rename: item_rename(file, i),
        attributes: item_attributes(file, i),
        rooted: item_rooted(file, i),
        segments: item_segments(file, i),
        tree,
        text: item_text(file, i),
    }
}

/// The name of an item, or no text where it has none.
pub open spec fn name_of(raw: RawItemView) -> Seq<char> {
    match raw.name {
        Some(name) => name,
        None => Seq::empty(),
    }
}

/// The visibility of an item: only `pub` without a restriction lets it be named from outside.
pub open spec fn visibility_of(raw: RawItemView) -> Visibility {
    match raw.public {
        Some(true) => Visibility::Pub,
        _ => Visibility::NonPub,
    }
}

/// What an optional failure says.
pub open spec fn failure_view(failure: Option<LowerError>) -> Option<LowerErrorView> {
    match failure {
        Some(failure) => Some(failure@),
        None => None,
    }
}

/// What a sequence of optional failures says.
pub open spec fn failure_views(failures: Seq<Option<LowerError>>) -> Seq<Option<LowerErrorView>> {
    failures.map_values(|failure: Option<LowerError>| failure_view(failure))
}

/// What lowering makes of a function, a struct or an enum, where `failure` says why it fails.
pub open spec fn lowered_definition(raw: RawItemView, failure: Option<LowerErrorView>) -> Result<
    DefinitionView,
    LowerErrorView,
> {
    match failure {
        Some(failure) => Err(failure),
        None => Ok(
            DefinitionView {
                visibility: visibility_of(raw),
                name: name_of(raw),
                tokens: raw.text,
            },
        ),
    }
}

/// What lowering makes of a macro definition, where `failure` says why it fails. An item without a
/// name defines no macro.
pub open spec fn lowered_macro(raw: RawItemView, failure: Option<LowerErrorView>) -> Result<
    DeclarativeMacroView,
    LowerErrorView,
> {
    match (failure, raw.name) {
        (Some(failure), _) => Err(failure),
        (None, Some(name)) => Ok(
            DeclarativeMacroView {
                name,
                macro_export: raw.attributes.contains("macro_export"@),
                tokens: raw.text,
            },
        ),
        (None, None) => Err(LowerErrorView::Other("the macro has no name"@)),
    }
}

/// What lowering makes of an item, where `failure` says why it fails.
pub open spec fn lowered(source: SourceItemView, failure: Option<LowerErrorView>) -> ItemView {
    let raw = source.raw;
    let visibility = visibility_of(raw);
    ItemView {
        position: source.position,
        tokens: raw.text,
        body: match raw.kind {
            ItemKind::ExternCrate => ItemBodyView::ExternCrate {
                metadata: match failure {
                    Some(failure) => Err(failure),
                    None => Ok(visibility),
                },
                name: name_of(raw),
                rename: raw.rename,
            },
            ItemKind::Use => ItemBodyView::Use {
                visibility,
                rooted: raw.rooted,
                tree: match raw.tree {
                    Some(tree) => tree,
                    None => ImportTreeView::Group(Seq::empty()),
                },
            },
            ItemKind::Macro => ItemBodyView::Macro {
                path: UnresolvedPathView { rooted: raw.rooted, path: raw.segments },
                definition: lowered_macro(raw, failure),
            },
            ItemKind::Static => ItemBodyView::Static { visibility, name: name_of(raw) },
            ItemKind::Const => ItemBodyView::Const { visibility, name: name_of(raw) },
            ItemKind::Fn => ItemBodyView::Fn {
                visibility,
                lowered: lowered_definition(raw, failure),
            },
            ItemKind::Struct => ItemBodyView::Struct { lowered: lowered_definition(raw, failure) },
            ItemKind::Enum => ItemBodyView::Enum { lowered: lowered_definition(raw, failure) },
            _ => ItemBodyView::Other,
        },
    }
}

/// Why lowering item `i` fails. Of the items that `failures` does not reach, lowering fails for
/// none.
pub open spec fn failure_at(failures: Seq<Option<LowerErrorView>>, i: int) -> Option<
    LowerErrorView,
> {
    if 0 <= i < failures.len() {
        failures[i]
    } else {
        None
    }
}

/// What lowering makes of the items of a file, where `failures` says why it fails.
pub open spec fn lowered_items(
    source: Seq<SourceItemView>,
    failures: Seq<Option<LowerErrorView>>,
) -> Seq<ItemView> {
    Seq::new(source.len(), |i: int| lowered(source[i], failure_at(failures, i)))
}

/// The name spelled `name`, or no text where there is none.
fn ident_or_empty(name: Option<String>) -> (ident: Ident)
    ensures
        ident@ == (match name {
            Some(name) => name@,
            None => Seq::empty(),
        }),
{
    match name {
        Some(name) => Ident { text: name },
        None => Ident { text: String::new() },
    }
}

/// Whether `text` is among `texts`.
fn contains_text(texts: &Vec<String>, text: &str) -> (found: bool)
    ensures
        found == string_views(texts@).contains(text@),
{
    let wanted = text.to_owned();
    let mut i: usize = 0;
    while i < texts.len()
        invariant
            wanted@ == text@,
            i <= texts@.len(),
            forall|j: int| 0 <= j < i ==> (#[trigger] texts@[j])@ != text@,
        decreases texts@.len() - i,
    {
        if texts[i] == wanted {
            assert(string_views(texts@)[i as int] == text@);
            return true;
        }
        i += 1;
    }
    assert forall|j: int| 0 <= j < string_views(texts@).len() implies string_views(texts@)[j]
        != text@ by {
        assert(texts@[j]@ != text@);
    }
    false
}

/// The names spelled as the given texts.
fn idents_from(texts: Vec<String>) -> (idents: Vec<Ident>)
    ensures
        spellings(idents@) == string_views(texts@),
{
    let mut idents: Vec<Ident> = Vec::new();
    let mut i: usize = 0;
    while i < texts.len()
        invariant
            i <= texts@.len(),
            spellings(idents@) == string_views(texts@).take(i as int),
        decreases texts@.len() - i,
    {
        let ghost before = idents@;
        idents.push(Ident { text: texts[i].clone() });
        assert(spellings(idents@) =~= spellings(before).push(texts@[i as int]@));
        i += 1;
        assert(string_views(texts@).take(i as int) =~= string_views(texts@).take(i - 1).push(
            texts@[i - 1]@,
        ));
    }
    assert(string_views(texts@).take(i as int) =~= string_views(texts@));
    idents
}

/// What lowering makes of a function, a struct or an enum.
fn lower_definition(
    visibility: Visibility,
    name: Option<String>,
    text: String,
    failure: Option<LowerError>,
) -> (lowered: Result<Definition, LowerError>)
    ensures
        lowered_view(lowered) == (match failure {
            Some(failure) => Err(failure@),
            None => Ok(
                DefinitionView {
                    visibility,
                    name: match name {
                        Some(name) => name@,
                        None => Seq::empty(),
                    },
                    tokens: text@,
                },
            ),
        }),
{
    match failure {
        Some(failure) => Err(failure),
        None => Ok(Definition { visibility, name: ident_or_empty(name), tokens: Tokens { text } }),
    }
}

/// Makes of an item what walking works on. `failure` says why its types or attributes cannot be
/// lowered, if they cannot be.
pub fn lower_item(source: SourceItem, failure: Option<LowerError>) -> (item: Item)
    ensures
        item@ == lowered(source@, failure_view(failure)),
{
    let position = source.position;
    let raw = source.raw;
    let visibility = match raw.public {
        Some(true) => Visibility::Pub,
        _ => Visibility::NonPub,
    };
    let tokens = Tokens { text: raw.text.clone() };
    let body = match raw.kind {
        ItemKind::ExternCrate => ItemBody::ExternCrate {
            metadata: match failure {
                Some(failure) => Err(failure),
                None => Ok(visibility),
            },
            name: ident_or_empty(raw.name),
            rename: match raw.rename {
                Some(alias) => Some(Ident { text: alias }),
                None => None,
            },
        },
        ItemKind::Use => ItemBody::Use {
            visibility,
            rooted: raw.rooted,
            tree: match raw.tree {
                Some(tree) => tree,
                None => {
                    let none: Vec<ImportTree> = Vec::new();
                    assert(import_tree_views(none@) == Seq::<ImportTreeView>::empty());
                    ImportTree::Group(none)
                },
            },
        },
        ItemKind::Macro => {
            let macro_export = contains_text(&raw.attributes, "macro_export");
            let definition = match failure {
                Some(failure) => Err(failure),
                None => match raw.name {
                    Some(name) => Ok(
                        DeclarativeMacroItem {
                            name: Ident { text: name },
                            macro_export,
                            tokens: Tokens { text: raw.text },
                        },
                    ),
                    None => Err(LowerError::Other("the macro has no name".to_owned())),
                },
            };
            ItemBody::Macro {
                path: UnresolvedPath { rooted: raw.rooted, path: idents_from(raw.segments) },
                definition,
            }
        },
        ItemKind::Static => ItemBody::Static { visibility, name: ident_or_empty(raw.name) },
        ItemKind::Const => ItemBody::Const { visibility, name: ident_or_empty(raw.name) },
        ItemKind::Fn => ItemBody::Fn {
            visibility,
            lowered: lower_definition(visibility, raw.name, raw.text, failure),
        },
        ItemKind::Struct => ItemBody::Struct {
            lowered: lower_definition(visibility, raw.name, raw.text, failure),
        },
        ItemKind::Enum => ItemBody::Enum {
            lowered: lower_definition(visibility, raw.name, raw.text, failure),
        },
        _ => ItemBody::Other,
    };
    Item { position, tokens, body }
}

/// Makes of the items of a file what walking works on. `failures` says of each item why it cannot
/// be lowered, if it cannot be; items that it does not reach can be.
pub fn lower_items(source: Vec<SourceItem>, failures: &[Option<LowerError>]) -> (items: Vec<Item>)
    ensures
        item_views(items@) == lowered_items(
            source_item_views(source@),
            failure_views(failures@),
        ),
{
    let ghost all = source@;
    let ghost reasons = failure_views(failures@);
    let mut items: Vec<Item> = Vec::new();
    for item in it: source
        invariant
            it.seq() == all,
            reasons == failure_views(failures@),
            items@.len() == it.index(),
            forall|j: int|
                0 <= j < items@.len() ==> (#[trigger] items@[j])@ == lowered(
                    all[j]@,
                    failure_at(reasons, j),
                ),
    {
        let i: usize = items.len();
        let failure = if i < failures.len() {
            match &failures[i] {
                Some(failure) => Some(failure.clone()),
                None => None,
            }
        } else {
            None
        };
        assert(failure_view(failure) == failure_at(reasons, i as int));
        items.push(lower_item(item, failure));
    }
    assert(item_views(items@) =~= lowered_items(source_item_views(all), reasons));
    items
}

/// The items of the source file with the given text, in order.
pub fn parse_file(source: &str) -> (parsed: Result<Vec<SourceItem>, WalkError>)
    requires
        source@.len() <= MAX_SOURCE_CHARS,
    ensures
        match parsed {
            Ok(items) => source_items(source@) == Some(source_item_views(items@)),
            Err(error) => {
                &&& source_items(source@) is None
                &&& error@ == WalkErrorView::Parse(source_error(source@))
            },
        },
{
    let (file, positions) = match parse_source(source) {
        Ok(parsed) => parsed,
        Err(error) => {
            return Err(WalkError::Parse(error_text(&error)));
        },
    };
    let count = item_count(&file);
    let mut items: Vec<SourceItem> = Vec::new();
    let mut i: usize = 0;
    while i < count
        invariant
            count == file_items(file).len(),
            positions@.len() == count,
            i <= count,
            items@.len() == i,
            forall|j: int|
                0 <= j < i ==> (#[trigger] items@[j])@ == located(
                    positions@,
                    file_items(file),
                )[j],
        decreases count - i,
    {
        items.push(SourceItem { position: positions[i], raw: read_item(&file, i) });
        i += 1;
    }
    assert(source_item_views(items@) =~= located(positions@, file_items(file)));
    Ok(items)
}

} // verus!
