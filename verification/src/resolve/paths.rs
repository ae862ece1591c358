//! Names, and the paths that lead to them.

use vstd::prelude::*;

use crate::resolve::table::{Duplicate, Key};

verus! {

/// A name in a Rust source file.
#[derive(Debug)]
pub struct Ident {
    pub text: String,
}

impl View for Ident {
    type V = Seq<char>;

    open spec fn view(&self) -> Seq<char> {
        self.text@
    }
}

impl Ident {
    /// The name spelled `text`.
    pub fn new(text: &str) -> (ident: Self)
        ensures
            ident@ == text@,
    {
        Ident { text: text.to_owned() }
    }
}

impl Clone for Ident {
    fn clone(&self) -> (ident: Self)
        ensures
            ident == *self,
    {
        Ident { text: self.text.clone() }
    }
}

impl Key for Ident {
    fn same(&self, other: &Self) -> (same: bool) {
        self.text == other.text
    }
}

impl Duplicate for Ident {
    fn duplicate(&self) -> (copy: Self) {
        self.clone()
    }
}

/// The spellings of a sequence of names.
pub open spec fn spellings(idents: Seq<Ident>) -> Seq<Seq<char>> {
    idents.map_values(|ident: Ident| ident@)
}

/// A copy of a sequence of names.
pub fn copy_idents(idents: &Vec<Ident>) -> (copy: Vec<Ident>)
    ensures
        copy@ == idents@,
{
    let copy = idents.clone();
    assert forall|i: int| 0 <= i < idents@.len() implies copy@[i] == idents@[i] by {
        assert(cloned(idents@[i], copy@[i]));
    }
    assert(copy@ =~= idents@);
    copy
}

/// Whether two sequences of names are spelled alike.
fn same_idents(left: &Vec<Ident>, right: &Vec<Ident>) -> (same: bool)
    ensures
        same == (spellings(left@) == spellings(right@)),
{
    if left.len() != right.len() {
        assert(spellings(left@).len() != spellings(right@).len());
        return false;
    }
    let mut i: usize = 0;
    while i < left.len()
        invariant
            left@.len() == right@.len(),
            i <= left@.len(),
            forall|j: int| 0 <= j < i ==> (#[trigger] left@[j])@ == right@[j]@,
        decreases left@.len() - i,
    {
        if !left[i].same(&right[i]) {
            assert(spellings(left@)[i as int] != spellings(right@)[i as int]);
            return false;
        }
        i += 1;
    }
    assert(spellings(left@) =~= spellings(right@));
    true
}

/// A crate, by its name and version.
#[derive(Debug)]
pub struct AbsoluteCrate {
    pub name: String,
    pub version: String,
}

/// What an [`AbsoluteCrate`] says.
pub struct CrateView {
    pub name: Seq<char>,
    pub version: Seq<char>,
}

impl View for AbsoluteCrate {
    type V = CrateView;

    open spec fn view(&self) -> CrateView {
        CrateView { name: self.name@, version: self.version@ }
    }
}

impl AbsoluteCrate {
    /// The crate called `name`, at `version`.
    pub fn new(name: &str, version: &str) -> (crate_: Self)
        ensures
            crate_@ == (CrateView { name: name@, version: version@ }),
    {
        AbsoluteCrate { name: name.to_owned(), version: version.to_owned() }
    }
}

impl Clone for AbsoluteCrate {
    fn clone(&self) -> (crate_: Self)
        ensures
            crate_ == *self,
    {
        AbsoluteCrate { name: self.name.clone(), version: self.version.clone() }
    }
}

impl Duplicate for AbsoluteCrate {
    fn duplicate(&self) -> (copy: Self) {
        self.clone()
    }
}

/// A path from the root of a crate.
#[derive(Debug)]
pub struct AbsolutePath {
    pub crate_: AbsoluteCrate,
    pub path: Vec<Ident>,
}

/// What an [`AbsolutePath`] says.
pub struct AbsolutePathView {
    pub crate_: CrateView,
    pub path: Seq<Seq<char>>,
}

impl AbsolutePathView {
    /// The path that goes one name further.
    pub open spec fn join(self, name: Seq<char>) -> AbsolutePathView {
        AbsolutePathView { crate_: self.crate_, path: self.path.push(name) }
    }
}

impl View for AbsolutePath {
    type V = AbsolutePathView;

    open spec fn view(&self) -> AbsolutePathView {
        AbsolutePathView { crate_: self.crate_@, path: spellings(self.path@) }
    }
}

impl AbsolutePath {
    /// The path `path` in `crate_`.
    pub fn new(crate_: AbsoluteCrate, path: Vec<Ident>) -> (absolute: Self)
        ensures
            absolute@ == (AbsolutePathView { crate_: crate_@, path: spellings(path@) }),
    {
        AbsolutePath { crate_, path }
    }

    /// The path that goes one name further.
    pub fn join(self, name: Ident) -> (joined: Self)
        ensures
            joined@ == self@.join(name@),
    {
        let mut path = self.path;
        let ghost before = path@;
        path.push(name);
        assert(spellings(path@) =~= spellings(before).push(name@));
        AbsolutePath { crate_: self.crate_, path }
    }
}

impl Clone for AbsolutePath {
    fn clone(&self) -> (path: Self)
        ensures
            path@ == self@,
    {
        AbsolutePath { crate_: self.crate_.clone(), path: copy_idents(&self.path) }
    }
}

impl Key for AbsolutePath {
    fn same(&self, other: &Self) -> (same: bool) {
        self.crate_.name == other.crate_.name && self.crate_.version == other.crate_.version
            && same_idents(&self.path, &other.path)
    }
}

/// A path as written, before it is resolved.
#[derive(Debug)]
pub struct UnresolvedPath {
    /// Whether the path starts with `::`.
    pub rooted: bool,
    pub path: Vec<Ident>,
}

/// What an [`UnresolvedPath`] says.
pub struct UnresolvedPathView {
    pub rooted: bool,
    pub path: Seq<Seq<char>>,
}

impl UnresolvedPathView {
    /// The only name of a path that is a single name.
    pub open spec fn ident(self) -> Option<Seq<char>> {
        if !self.rooted && self.path.len() == 1 {
            Some(self.path[0])
        } else {
            None
        }
    }
}

impl View for UnresolvedPath {
    type V = UnresolvedPathView;

    open spec fn view(&self) -> UnresolvedPathView {
        UnresolvedPathView { rooted: self.rooted, path: spellings(self.path@) }
    }
}

impl UnresolvedPath {
    /// The only name of a path that is a single name.
    pub fn get_ident(&self) -> (ident: Option<&Ident>)
        ensures
            match ident {
                Some(name) => self@.ident() == Some(name@),
                None => self@.ident() is None,
            },
    {
        if !self.rooted && self.path.len() == 1 {
            Some(&self.path[0])
        } else {
            None
        }
    }
}

impl Clone for UnresolvedPath {
    fn clone(&self) -> (path: Self)
        ensures
            path@ == self@,
    {
        UnresolvedPath { rooted: self.rooted, path: copy_idents(&self.path) }
    }
}

/// A path, resolved or not.
#[derive(Debug)]
pub enum Path {
    Absolute(AbsolutePath),
    Unresolved(UnresolvedPath),
}

/// What a [`Path`] says.
pub enum PathView {
    Absolute(AbsolutePathView),
    Unresolved(UnresolvedPathView),
}

impl View for Path {
    type V = PathView;

    open spec fn view(&self) -> PathView {
        match self {
            Path::Absolute(path) => PathView::Absolute(path@),
            Path::Unresolved(path) => PathView::Unresolved(path@),
        }
    }
}

} // verus!
