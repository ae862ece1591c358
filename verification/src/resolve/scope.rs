//! What a module imports.

use vstd::prelude::*;

use crate::resolve::items::{import_tree_views, ImportTree, ImportTreeView, Visibility};
use crate::resolve::paths::{
    copy_idents, spellings, Ident, Path, PathView, UnresolvedPath, UnresolvedPathView,
};
use crate::resolve::table::{Key, Table};

verus! {

/// The imports of a module. Glob imports are stored by the path that stands before the `*`;
/// other imports by the name that they are imported as.
pub struct ModuleScope {
    /// Globs that are not `pub`.
    pub glob_imports: Vec<Path>,
    /// Other imports that are not `pub`.
    pub imports: Table<Ident, Path>,
    /// `pub` globs.
    pub pub_glob_imports: Vec<Path>,
    /// Other `pub` imports.
    pub pub_imports: Table<Ident, Path>,
}

/// What a [`ModuleScope`] holds.
#[verifier::ext_equal]
pub struct ScopeView {
    pub glob_imports: Seq<PathView>,
    pub imports: Map<Seq<char>, PathView>,
    pub pub_glob_imports: Seq<PathView>,
    pub pub_imports: Map<Seq<char>, PathView>,
}

/// What a sequence of paths says.
pub open spec fn path_views(paths: Seq<Path>) -> Seq<PathView> {
    paths.map_values(|path: Path| path@)
}

impl View for ModuleScope {
    type V = ScopeView;

    open spec fn view(&self) -> ScopeView {
        ScopeView {
            glob_imports: path_views(self.glob_imports@),
            imports: self.imports@,
            pub_glob_imports: path_views(self.pub_glob_imports@),
            pub_imports: self.pub_imports@,
        }
    }
}

impl ScopeView {
    /// The scope without imports.
    pub open spec fn empty() -> ScopeView {
        ScopeView {
            glob_imports: Seq::empty(),
            imports: Map::empty(),
            pub_glob_imports: Seq::empty(),
            pub_imports: Map::empty(),
        }
    }

    /// The scope in which `name` also leads to `path`.
    pub open spec fn import(
        self,
        visibility: Visibility,
        name: Seq<char>,
        path: PathView,
    ) -> ScopeView {
        match visibility {
            Visibility::Pub => ScopeView {
                pub_imports: self.pub_imports.insert(name, path),
                ..self
            },
            Visibility::NonPub => ScopeView { imports: self.imports.insert(name, path), ..self },
        }
    }

    /// The scope in which everything under `path` is imported too.
    pub open spec fn import_glob(self, visibility: Visibility, path: PathView) -> ScopeView {
        match visibility {
            Visibility::Pub => ScopeView {
                pub_glob_imports: self.pub_glob_imports.push(path),
                ..self
            },
            Visibility::NonPub => ScopeView { glob_imports: self.glob_imports.push(path), ..self },
        }
    }

    /// The scope after one more import.
    pub open spec fn bind(self, visibility: Visibility, import: ImportView) -> ScopeView {
        match import {
            ImportView::Named { name, path } => self.import(
                visibility,
                name,
                PathView::Unresolved(path),
            ),
            ImportView::Glob { path } => self.import_glob(visibility, PathView::Unresolved(path)),
        }
    }

    /// The scope after the given imports, in order.
    pub open spec fn bind_all(self, visibility: Visibility, imports: Seq<ImportView>) -> ScopeView
        decreases imports.len(),
    {
        if imports.len() == 0 {
            self
        } else {
            self.bind_all(visibility, imports.drop_last()).bind(visibility, imports.last())
        }
    }
}

/// One import of a `use` declaration.
pub enum ImportView {
    /// `name` leads to `path`.
    Named { name: Seq<char>, path: UnresolvedPathView },
    /// Everything under `path` is imported.
    Glob { path: UnresolvedPathView },
}

/// The path that `name` stands for after the names `prefix`: `self` is the prefix itself.
pub open spec fn use_target(prefix: Seq<Seq<char>>, name: Seq<char>) -> Seq<Seq<char>> {
    if name == "self"@ && prefix.len() > 0 {
        prefix
    } else {
        prefix.push(name)
    }
}

/// The imports of a `use` tree that stands after the names `prefix`, from left to right.
pub open spec fn use_imports(
    rooted: bool,
    prefix: Seq<Seq<char>>,
    tree: ImportTreeView,
) -> Seq<ImportView>
    decreases tree,
{
    match tree {
        ImportTreeView::Path(name, rest) => use_imports(rooted, prefix.push(name), *rest),
        ImportTreeView::Name(name) => {
            let path = use_target(prefix, name);
            seq![ImportView::Named { name: path.last(), path: UnresolvedPathView { rooted, path } }]
        },
        ImportTreeView::Rename(name, alias) => seq![
            ImportView::Named {
                name: alias,
                path: UnresolvedPathView { rooted, path: use_target(prefix, name) },
            },
        ],
        ImportTreeView::Glob => seq![
            ImportView::Glob { path: UnresolvedPathView { rooted, path: prefix } },
        ],
        ImportTreeView::Group(trees) => group_imports(rooted, prefix, trees),
    }
}

/// The imports of several `use` trees that stand after the same names.
pub open spec fn group_imports(
    rooted: bool,
    prefix: Seq<Seq<char>>,
    trees: Seq<ImportTreeView>,
) -> Seq<ImportView>
    decreases trees,
{
    if trees.len() == 0 {
        Seq::empty()
    } else {
        group_imports(rooted, prefix, trees.drop_last()) + use_imports(rooted, prefix, trees.last())
    }
}

proof fn lemma_bind_all_concat(
    scope: ScopeView,
    visibility: Visibility,
    first: Seq<ImportView>,
    second: Seq<ImportView>,
)
    ensures
        scope.bind_all(visibility, first + second) == scope.bind_all(visibility, first).bind_all(
            visibility,
            second,
        ),
    decreases second.len(),
{
    if second.len() == 0 {
        assert(first + second == first);
    } else {
        lemma_bind_all_concat(scope, visibility, first, second.drop_last());
        assert((first + second).drop_last() == first + second.drop_last());
        assert((first + second).last() == second.last());
    }
}

impl ModuleScope {
    /// The scope without imports.
    pub fn new() -> (scope: Self)
        ensures
            scope@ == ScopeView::empty(),
    {
        let scope = ModuleScope {
            glob_imports: Vec::new(),
            imports: Table::new(),
            pub_glob_imports: Vec::new(),
            pub_imports: Table::new(),
        };
        assert(scope@ =~= ScopeView::empty());
        scope
    }

    /// Lets `name` lead to `path`.
    pub fn import(&mut self, visibility: Visibility, name: Ident, path: Path)
        ensures
            final(self)@ == old(self)@.import(visibility, name@, path@),
    {
        match visibility {
            Visibility::Pub => self.pub_imports.insert(name, path),
            Visibility::NonPub => self.imports.insert(name, path),
        }
    }

    /// Imports everything under `path`.
    pub fn import_glob(&mut self, visibility: Visibility, path: Path)
        ensures
            final(self)@ == old(self)@.import_glob(visibility, path@),
    {
        match visibility {
            Visibility::Pub => {
                let ghost before = self.pub_glob_imports@;
                self.pub_glob_imports.push(path);
                assert(path_views(self.pub_glob_imports@) =~= path_views(before).push(path@));
            },
            Visibility::NonPub => {
                let ghost before = self.glob_imports@;
                self.glob_imports.push(path);
                assert(path_views(self.glob_imports@) =~= path_views(before).push(path@));
            },
        }
    }
}

/// The path and the name that `name` imports after the names `prefix`.
fn use_path(rooted: bool, prefix: &Vec<Ident>, name: &Ident) -> (imported: (UnresolvedPath, Ident))
    ensures
        imported.0@ == (UnresolvedPathView { rooted, path: use_target(spellings(prefix@), name@) }),
        imported.1@ == use_target(spellings(prefix@), name@).last(),
{
    let self_name = Ident::new("self");
    let mut path = copy_idents(prefix);
    if name.same(&self_name) && prefix.len() > 0 {
        let last = prefix[prefix.len() - 1].clone();
        (UnresolvedPath { rooted, path }, last)
    } else {
        path.push(name.clone());
        assert(spellings(path@) =~= spellings(prefix@).push(name@));
        (UnresolvedPath { rooted, path }, name.clone())
    }
}

/// Adds the imports of a `use` tree that stands after the names `prefix`.
fn lower_use_tree(
    scope: &mut ModuleScope,
    visibility: Visibility,
    rooted: bool,
    prefix: &Vec<Ident>,
    tree: &ImportTree,
)
    ensures
        final(scope)@ == old(scope)@.bind_all(
            visibility,
            use_imports(rooted, spellings(prefix@), tree@),
        ),
    decreases tree,
{
    let ghost imports = use_imports(rooted, spellings(prefix@), tree@);
    match tree {
        ImportTree::Path(name, rest) => {
            let mut longer = copy_idents(prefix);
            longer.push(name.clone());
            assert(spellings(longer@) =~= spellings(prefix@).push(name@));
            lower_use_tree(scope, visibility, rooted, &longer, rest);
        },
        ImportTree::Name(name) => {
            let (path, last) = use_path(rooted, prefix, name);
            scope.import(visibility, last, Path::Unresolved(path));
            assert(imports.drop_last() =~= Seq::empty());
            reveal_with_fuel(ScopeView::bind_all, 2);
        },
        ImportTree::Rename(name, alias) => {
            let (path, _) = use_path(rooted, prefix, name);
            scope.import(visibility, alias.clone(), Path::Unresolved(path));
            assert(imports.drop_last() =~= Seq::empty());
            reveal_with_fuel(ScopeView::bind_all, 2);
        },
        ImportTree::Glob => {
            let path = UnresolvedPath { rooted, path: copy_idents(prefix) };
            scope.import_glob(visibility, Path::Unresolved(path));
            assert(imports.drop_last() =~= Seq::empty());
            reveal_with_fuel(ScopeView::bind_all, 2);
        },
        ImportTree::Group(trees) => {
            let mut i: usize = 0;
            while i < trees.len()
                invariant
                    i <= trees@.len(),
                    *tree == ImportTree::Group(*trees),
                    scope@ == old(scope)@.bind_all(
                        visibility,
                        group_imports(
                            rooted,
                            spellings(prefix@),
                            import_tree_views(trees@.take(i as int)),
                        ),
                    ),
                decreases trees@.len() - i,
            {
                let ghost done = trees@.take(i as int);
                let ghost next = trees@.take(i + 1);
                assert(next.drop_last() == done);
                assert(next.last() == trees@[i as int]);
                assert(import_tree_views(next).drop_last() == import_tree_views(done));
                assert(decreases_to!(tree => tree->Group_0));
                assert(decreases_to!(trees => trees@));
                assert(decreases_to!(trees@ => trees@[i as int]));
                lower_use_tree(scope, visibility, rooted, prefix, &trees[i]);
                proof {
                    lemma_bind_all_concat(
                        old(scope)@,
                        visibility,
                        group_imports(rooted, spellings(prefix@), import_tree_views(done)),
                        use_imports(rooted, spellings(prefix@), trees@[i as int]@),
                    );
                }
                i += 1;
            }
            assert(trees@.take(trees@.len() as int) == trees@);
        },
    }
}

/// Adds the imports of a `use` declaration: `use x::Y` lets `Y` lead to `x::Y`, `use x::z as w`
/// lets `w` lead to `x::z`, and `use x::y::*` imports everything under `x::y`.
pub fn lower_use(scope: &mut ModuleScope, visibility: Visibility, rooted: bool, tree: &ImportTree)
    ensures
        final(scope)@ == old(scope)@.bind_all(
            visibility,
            use_imports(rooted, Seq::empty(), tree@),
        ),
{
    let prefix: Vec<Ident> = Vec::new();
    assert(spellings(prefix@) =~= Seq::empty());
    lower_use_tree(scope, visibility, rooted, &prefix, tree);
}

} // verus!
