//! Finding the source file of a module.

use vstd::prelude::*;
use vstd::string::*;

use crate::resolve::errors::{WalkError, WalkErrorView};
use crate::resolve::items::{attribute_index, ModuleItem};
use crate::resolve::paths::{spellings, Ident};
use crate::resolve::phase::LocationMetadata;
use crate::resolve::place_laws::law_first_true;
use crate::text::{ends_with, has_suffix, string_views};

verus! {

/// A directory that the file of a module is looked for in.
#[derive(Clone, Copy, Debug, PartialEq, Eq, Structural)]
pub enum BaseDir {
    /// The directory of the file that declares the module.
    SourceDir,
    /// The directory of the file that the crate starts in.
    EntryDir,
}

/// A file: `joins` is joined to the directory, one after the other.
#[derive(Debug)]
pub struct SourcePath {
    pub base: BaseDir,
    pub joins: Vec<String>,
}

/// What a [`SourcePath`] says.
pub struct SourcePathView {
    pub base: BaseDir,
    pub joins: Seq<Seq<char>>,
}

impl View for SourcePath {
    type V = SourcePathView;

    open spec fn view(&self) -> SourcePathView {
        SourcePathView { base: self.base, joins: string_views(self.joins@) }
    }
}

/// What a sequence of files says.
pub open spec fn source_path_views(paths: Seq<SourcePath>) -> Seq<SourcePathView> {
    paths.map_values(|path: SourcePath| path@)
}

/// Where the source file of a module can be.
#[derive(Debug)]
pub enum SourceLookup {
    /// The file is this one.
    Exact(SourcePath),
    /// The file is the first of these that is a file.
    Search(Vec<SourcePath>),
}

/// What a [`SourceLookup`] says.
pub enum SourceLookupView {
    Exact(SourcePathView),
    Search(Seq<SourcePathView>),
}

impl View for SourceLookup {
    type V = SourceLookupView;

    open spec fn view(&self) -> SourceLookupView {
        match self {
            SourceLookup::Exact(path) => SourceLookupView::Exact(path@),
            SourceLookup::Search(paths) => SourceLookupView::Search(source_path_views(paths@)),
        }
    }
}

/// What a module declaration says of its file.
pub enum Wanted {
    /// There is a `#[path]` attribute, with this text, that assigns no string.
    Malformed(Seq<char>),
    /// The `#[path]` attribute names a file.
    File(Seq<char>),
    /// The file has this name, or lies in a directory of this name.
    Module(Seq<char>),
}

/// What a module declaration says of its file.
pub open spec fn wanted(item: ModuleItem) -> Wanted {
    let attributes = item.metadata.extra_attributes@;
    let i = attribute_index(attributes, "path"@);
    if i < attributes.len() {
        match attributes[i].assigned {
            None => Wanted::Malformed(attributes[i].text@),
            Some(assigned) => if has_suffix(assigned@, ".rs"@) {
                Wanted::File(assigned@)
            } else {
                Wanted::Module(assigned@)
            },
        }
    } else {
        Wanted::Module(item.name@)
    }
}

/// The files that a module called `name` can have under a directory: the file `name.rs` comes
/// before the file `mod.rs` in the directory `name`.
pub open spec fn candidates_under(
    base: BaseDir,
    directories: Seq<Seq<char>>,
    name: Seq<char>,
) -> Seq<SourcePathView> {
    seq![
        SourcePathView { base, joins: directories.push(name + ".rs"@) },
        SourcePathView { base, joins: directories.push(name).push("mod.rs"@) },
    ]
}

/// Where the source file of a module can be, if the file that declares it lies in a directory
/// as `source_in_dir` says. A module is looked for under the directories of its parent modules
/// first, and then beside the declaring file.
pub open spec fn lookup(source_in_dir: bool, parent: LocationMetadata, item: ModuleItem) -> Result<
    SourceLookupView,
    WalkErrorView,
> {
    match wanted(item) {
        Wanted::Malformed(text) => Err(WalkErrorView::MalformedPathAttribute(text)),
        Wanted::File(file) => if source_in_dir {
            Ok(
                SourceLookupView::Exact(
                    SourcePathView { base: BaseDir::SourceDir, joins: seq![file] },
                ),
            )
        } else {
            Err(WalkErrorView::Root)
        },
        Wanted::Module(name) => Ok(
            SourceLookupView::Search(
                candidates_under(BaseDir::EntryDir, parent.module@.path, name) + candidates_under(
                    BaseDir::SourceDir,
                    Seq::empty(),
                    name,
                ),
            ),
        ),
    }
}

/// The two files that a module called `name` can have under a directory.
fn push_candidates(
    candidates: &mut Vec<SourcePath>,
    base: BaseDir,
    directories: &Vec<Ident>,
    name: &String,
)
    ensures
        source_path_views(final(candidates)@) == source_path_views(old(candidates)@)
            + candidates_under(base, spellings(directories@), name@),
{
    let mut file: Vec<String> = Vec::new();
    let mut nested: Vec<String> = Vec::new();
    let mut i: usize = 0;
    while i < directories.len()
        invariant
            i <= directories@.len(),
            string_views(file@) == spellings(directories@).take(i as int),
            string_views(nested@) == spellings(directories@).take(i as int),
        decreases directories@.len() - i,
    {
        let ghost before = (file@, nested@);
        file.push(directories[i].text.clone());
        nested.push(directories[i].text.clone());
        i += 1;
        assert(string_views(file@) =~= string_views(before.0).push(directories@[i - 1]@));
        assert(string_views(nested@) =~= string_views(before.1).push(directories@[i - 1]@));
        assert(spellings(directories@).take(i as int) =~= spellings(directories@).take(
            i - 1,
        ).push(directories@[i - 1]@));
    }
    assert(spellings(directories@).take(i as int) =~= spellings(directories@));
    file.push(name.clone().concat(".rs"));
    nested.push(name.clone());
    nested.push("mod.rs".to_owned());
    assert(string_views(file@) =~= spellings(directories@).push(name@ + ".rs"@));
    assert(string_views(nested@) =~= spellings(directories@).push(name@).push("mod.rs"@));
    candidates.push(SourcePath { base, joins: file });
    candidates.push(SourcePath { base, joins: nested });
    assert(source_path_views(candidates@) =~= source_path_views(old(candidates)@)
        + candidates_under(base, spellings(directories@), name@));
}

/// Says where the source file of a module can be. `source_in_dir` says whether the file that
/// declares the module lies in a directory. The `#[path]` attribute is taken out of the
/// declaration.
pub fn find_source_file(
    source_in_dir: bool,
    parent: &LocationMetadata,
    item: &mut ModuleItem,
) -> (found: Result<SourceLookup, WalkError>)
    ensures
        match found {
            Ok(place) => lookup(source_in_dir, *parent, *old(item)) == Ok::<_, WalkErrorView>(
                place@,
            ),
            Err(error) => lookup(source_in_dir, *parent, *old(item)) == Err::<SourceLookupView, _>(
                error@,
            ),
        },
        final(item).name == old(item).name,
        final(item).metadata.visibility == old(item).metadata.visibility,
        ({
            let attributes = old(item).metadata.extra_attributes@;
            let i = attribute_index(attributes, "path"@);
            final(item).metadata.extra_attributes@ == (if i < attributes.len() {
                attributes.remove(i)
            } else {
                attributes
            })
        }),
{
    let path_name = Ident::new("path");
    let name = match item.metadata.extract_attribute(&path_name) {
        Some(attribute) => match attribute.assigned {
            None => {
                return Err(WalkError::MalformedPathAttribute(attribute.text));
            },
            Some(assigned) => {
                if ends_with(assigned.as_str(), ".rs") {
                    if !source_in_dir {
                        return Err(WalkError::Root);
                    }
                    let mut joins: Vec<String> = Vec::new();
                    joins.push(assigned);
                    assert(string_views(joins@) =~= seq![assigned@]);
                    return Ok(
                        SourceLookup::Exact(SourcePath { base: BaseDir::SourceDir, joins }),
                    );
                }
                assigned
            },
        },
        None => item.name.text.clone(),
    };
    let mut candidates: Vec<SourcePath> = Vec::new();
    assert(source_path_views(candidates@) =~= Seq::empty());
    push_candidates(&mut candidates, BaseDir::EntryDir, &parent.module.path, &name);
    let no_directories: Vec<Ident> = Vec::new();
    assert(spellings(no_directories@) =~= Seq::empty());
    push_candidates(&mut candidates, BaseDir::SourceDir, &no_directories, &name);
    assert(source_path_views(candidates@) =~= candidates_under(
        BaseDir::EntryDir,
        parent.module@.path,
        name@,
    ) + candidates_under(BaseDir::SourceDir, Seq::empty(), name@));
    Ok(SourceLookup::Search(candidates))
}

/// The position of the first `true`, or the length.
pub open spec fn first_true(flags: Seq<bool>) -> int
    decreases flags.len(),
{
    if flags.len() == 0 || flags[0] {
        0
    } else {
        1 + first_true(flags.drop_first())
    }
}

/// Picks the first candidate that is a file.
pub fn pick_source_file(candidates: Vec<SourcePath>, is_file: &[bool]) -> (found: Result<
    SourcePath,
    WalkError,
>)
    requires
        candidates@.len() == is_file@.len(),
    ensures
        match found {
            Ok(path) => first_true(is_file@) < is_file@.len() && path == candidates@[first_true(
                is_file@,
            )],
            Err(error) => first_true(is_file@) == is_file@.len() && error@
                == WalkErrorView::ModuleNotFound,
        },
        match found {
            Ok(path) => exists|i: int|
                {
                    &&& 0 <= i < is_file@.len()
                    &&& #[trigger] is_file@[i]
                    &&& path == candidates@[i]
                    &&& forall|j: int| 0 <= j < i ==> !#[trigger] is_file@[j]
                },
            Err(_) => forall|j: int| 0 <= j < is_file@.len() ==> !#[trigger] is_file@[j],
        },
{
    proof {
        law_first_true(is_file@);
    }
    let mut rest = candidates;
    let mut i: usize = 0;
    assert(is_file@.skip(0) == is_file@);
    while i < is_file.len()
        invariant
            rest@ == candidates@,
            candidates@.len() == is_file@.len(),
            i <= is_file@.len(),
            forall|j: int| 0 <= j < i ==> !#[trigger] is_file@[j],
            first_true(is_file@) == i + first_true(is_file@.skip(i as int)),
        decreases is_file@.len() - i,
    {
        assert(is_file@.skip(i as int).drop_first() == is_file@.skip(i + 1));
        if is_file[i] {
            return Ok(rest.remove(i));
        }
        i += 1;
    }
    Err(WalkError::ModuleNotFound)
}

} // verus!
