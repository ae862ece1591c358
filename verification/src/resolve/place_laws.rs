//! Where the source file of a module is looked for.

use vstd::prelude::*;

use crate::resolve::errors::WalkErrorView;
use crate::resolve::items::{attribute_index, Attribute, ModuleItem};
use crate::resolve::locate::{
    first_true, lookup, BaseDir, SourceLookupView, SourcePathView,
};
use crate::resolve::paths::{AbsolutePathView, UnresolvedPathView};
use crate::resolve::phase::LocationMetadata;
use crate::text::has_suffix;

verus! {

/// The first flag that is set: those before it are not, and it is. Where none is set it is the
/// number of flags.
pub proof fn law_first_true(flags: Seq<bool>)
    ensures
        0 <= first_true(flags) <= flags.len(),
        forall|i: int| 0 <= i < first_true(flags) ==> !#[trigger] flags[i],
        first_true(flags) < flags.len() ==> flags[first_true(flags)],
    decreases flags.len(),
{
    if flags.len() > 0 && !flags[0] {
        let rest = flags.drop_first();
        law_first_true(rest);
        assert forall|i: int| 0 <= i < first_true(flags) implies !#[trigger] flags[i] by {
            if i > 0 {
                assert(flags[i] == rest[i - 1]);
            }
        }
    }
}

/// A path is a single name where it has one name and no `::` before it, and the name is that one.
pub proof fn law_ident(path: UnresolvedPathView, name: Seq<char>)
    ensures
        path.ident() == Some(name) <==> !path.rooted && path.path == seq![name],
        path.ident() is None <==> path.rooted || path.path.len() != 1,
{
    if !path.rooted && path.path.len() == 1 {
        assert(path.path =~= seq![path.path[0]]);
        assert(seq![name][0] == name);
    }
}

/// Joining a name adds it behind the names of a path, in the same crate.
pub proof fn law_join(path: AbsolutePathView, name: Seq<char>)
    ensures
        path.join(name).path == path.path.push(name),
        path.join(name).crate_ == path.crate_,
{
}

/// The attribute that is found is the first whose path is the name alone.
pub proof fn law_attribute(attributes: Seq<Attribute>, name: Seq<char>)
    ensures
        0 <= attribute_index(attributes, name) <= attributes.len(),
        forall|i: int|
            0 <= i < attribute_index(attributes, name) ==> (#[trigger] attributes[i]).path@.ident()
                != Some(name),
        attribute_index(attributes, name) < attributes.len() ==> attributes[attribute_index(
            attributes,
            name,
        )].path@.ident() == Some(name),
    decreases attributes.len(),
{
    if attributes.len() > 0 && attributes[0].path@.ident() != Some(name) {
        let rest = attributes.drop_first();
        law_attribute(rest, name);
        assert forall|i: int| 0 <= i < attribute_index(attributes, name) implies (
        #[trigger] attributes[i]).path@.ident() != Some(name) by {
            if i > 0 {
                assert(attributes[i] == rest[i - 1]);
            }
        }
    }
}

/// The places where the file of a module called `name` is looked for, in this order: `name.rs` and
/// `name/mod.rs` under the directories of the parent modules, and then beside the declaring file.
pub open spec fn places(parent: AbsolutePathView, name: Seq<char>) -> Seq<SourcePathView> {
    seq![
        SourcePathView { base: BaseDir::EntryDir, joins: parent.path + seq![name + ".rs"@] },
        SourcePathView { base: BaseDir::EntryDir, joins: parent.path + seq![name, "mod.rs"@] },
        SourcePathView { base: BaseDir::SourceDir, joins: seq![name + ".rs"@] },
        SourcePathView { base: BaseDir::SourceDir, joins: seq![name, "mod.rs"@] },
    ]
}

proof fn lemma_places(
    source_in_dir: bool,
    parent: LocationMetadata,
    item: ModuleItem,
    name: Seq<char>,
)
    requires
        crate::resolve::locate::wanted(item) == crate::resolve::locate::Wanted::Module(name),
    ensures
        lookup(source_in_dir, parent, item) == Ok::<_, WalkErrorView>(
            SourceLookupView::Search(places(parent.module@, name)),
        ),
{
    let found = lookup(source_in_dir, parent, item)->Ok_0->Search_0;
    let wanted = places(parent.module@, name);
    let none: Seq<Seq<char>> = Seq::empty();
    assert(parent.module@.path.push(name + ".rs"@) =~= parent.module@.path + seq![name + ".rs"@]);
    assert(parent.module@.path.push(name).push("mod.rs"@) =~= parent.module@.path + seq![
        name,
        "mod.rs"@,
    ]);
    assert(none.push(name + ".rs"@) =~= seq![name + ".rs"@]);
    assert(none.push(name).push("mod.rs"@) =~= seq![name, "mod.rs"@]);
    assert(found =~= wanted);
}

/// A module without a `#[path]` attribute is looked for by its name.
pub proof fn law_lookup_by_name(source_in_dir: bool, parent: LocationMetadata, item: ModuleItem)
    requires
        forall|i: int|
            0 <= i < item.metadata.extra_attributes@.len()
                ==> (#[trigger] item.metadata.extra_attributes@[i]).path@.ident() != Some("path"@),
    ensures
        lookup(source_in_dir, parent, item) == Ok::<_, WalkErrorView>(
            SourceLookupView::Search(places(parent.module@, item.name@)),
        ),
{
    law_attribute(item.metadata.extra_attributes@, "path"@);
    lemma_places(source_in_dir, parent, item, item.name@);
}

/// The first `#[path]` attribute of a module decides. A string that ends in `.rs` is the file, next
/// to the declaring file, which has to lie in a directory; another string takes the place of the
/// module's name; without a string the attribute is malformed.
pub proof fn law_lookup_by_attribute(
    source_in_dir: bool,
    parent: LocationMetadata,
    item: ModuleItem,
    i: int,
)
    requires
        0 <= i < item.metadata.extra_attributes@.len(),
        item.metadata.extra_attributes@[i].path@.ident() == Some("path"@),
        forall|j: int|
            0 <= j < i ==> (#[trigger] item.metadata.extra_attributes@[j]).path@.ident() != Some(
                "path"@,
            ),
    ensures
        ({
            let attribute = item.metadata.extra_attributes@[i];
            let found = lookup(source_in_dir, parent, item);
            match attribute.assigned {
                None => found == Err::<SourceLookupView, _>(
                    WalkErrorView::MalformedPathAttribute(attribute.text@),
                ),
                Some(file) => {
                    &&& has_suffix(file@, ".rs"@) && source_in_dir ==> found == Ok::<
                        _,
                        WalkErrorView,
                    >(
                        SourceLookupView::Exact(
                            SourcePathView { base: BaseDir::SourceDir, joins: seq![file@] },
                        ),
                    )
                    &&& has_suffix(file@, ".rs"@) && !source_in_dir ==> found == Err::<
                        SourceLookupView,
                        _,
                    >(WalkErrorView::Root)
                    &&& !has_suffix(file@, ".rs"@) ==> found == Ok::<_, WalkErrorView>(
                        SourceLookupView::Search(places(parent.module@, file@)),
                    )
                },
            }
        }),
{
    let attributes = item.metadata.extra_attributes@;
    law_attribute(attributes, "path"@);
    let at = attribute_index(attributes, "path"@);
    if at < i {
        assert(attributes[at].path@.ident() != Some("path"@));
    }
    if at > i {
        assert(attributes[i].path@.ident() != Some("path"@));
    }
    if let Some(file) = attributes[i].assigned {
        if !has_suffix(file@, ".rs"@) {
            lemma_places(source_in_dir, parent, item, file@);
        }
    }
}

} // verus!
