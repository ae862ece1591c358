//! What `use` declarations import.

use vstd::prelude::*;

use crate::resolve::items::{
    import_tree_view, import_tree_views, ImportTree, ImportTreeView, Visibility,
};
use crate::resolve::laws::use_chain;
use crate::resolve::paths::{PathView, UnresolvedPathView};
use crate::resolve::scope::{group_imports, use_imports, ImportView, ScopeView};

verus! {

/// A named import changes what its name leads to, among the imports of its visibility, and nothing
/// else.
pub proof fn law_import(scope: ScopeView, name: Seq<char>, path: PathView)
    ensures
        ({
            let after = scope.import(Visibility::Pub, name, path);
            &&& after.pub_imports == scope.pub_imports.insert(name, path)
            &&& after.imports == scope.imports
            &&& after.glob_imports == scope.glob_imports
            &&& after.pub_glob_imports == scope.pub_glob_imports
        }),
        ({
            let after = scope.import(Visibility::NonPub, name, path);
            &&& after.imports == scope.imports.insert(name, path)
            &&& after.pub_imports == scope.pub_imports
            &&& after.glob_imports == scope.glob_imports
            &&& after.pub_glob_imports == scope.pub_glob_imports
        }),
{
}

/// A glob is added behind the globs of its visibility, and nothing else changes.
pub proof fn law_import_glob(scope: ScopeView, path: PathView)
    ensures
        ({
            let after = scope.import_glob(Visibility::Pub, path);
            &&& after.pub_glob_imports == scope.pub_glob_imports.push(path)
            &&& after.glob_imports == scope.glob_imports
            &&& after.imports == scope.imports
            &&& after.pub_imports == scope.pub_imports
        }),
        ({
            let after = scope.import_glob(Visibility::NonPub, path);
            &&& after.glob_imports == scope.glob_imports.push(path)
            &&& after.pub_glob_imports == scope.pub_glob_imports
            &&& after.imports == scope.imports
            &&& after.pub_imports == scope.pub_imports
        }),
{
}

/// A scope takes imports one by one, in order: a named one by its name, a glob as a glob.
pub proof fn law_imports_in_order(
    scope: ScopeView,
    visibility: Visibility,
    first: Seq<ImportView>,
    second: Seq<ImportView>,
    name: Seq<char>,
    path: UnresolvedPathView,
)
    ensures
        scope.bind_all(visibility, first + second) == scope.bind_all(visibility, first).bind_all(
            visibility,
            second,
        ),
        scope.bind_all(visibility, Seq::empty()) == scope,
        scope.bind_all(visibility, seq![ImportView::Named { name, path }]) == scope.import(
            visibility,
            name,
            PathView::Unresolved(path),
        ),
        scope.bind_all(visibility, seq![ImportView::Glob { path }]) == scope.import_glob(
            visibility,
            PathView::Unresolved(path),
        ),
    decreases second.len(),
{
    reveal_with_fuel(ScopeView::bind_all, 2);
    assert(seq![ImportView::Named { name, path }].drop_last() =~= Seq::empty());
    assert(seq![ImportView::Glob { path }].drop_last() =~= Seq::empty());
    if second.len() == 0 {
        assert(first + second =~= first);
    } else {
        law_imports_in_order(scope, visibility, first, second.drop_last(), name, path);
        assert((first + second).drop_last() =~= first + second.drop_last());
        assert((first + second).last() == second.last());
    }
}

proof fn lemma_chain(
    rooted: bool,
    done: Seq<Seq<char>>,
    prefix: Seq<Seq<char>>,
    leaf: ImportTreeView,
)
    ensures
        use_imports(rooted, done, use_chain(prefix, leaf)) == use_imports(
            rooted,
            done + prefix,
            leaf,
        ),
    decreases prefix.len(),
{
    if prefix.len() == 0 {
        assert(done + prefix =~= done);
    } else {
        lemma_chain(rooted, done.push(prefix[0]), prefix.drop_first(), leaf);
        assert(done.push(prefix[0]) + prefix.drop_first() =~= done + prefix);
    }
}

/// What stands behind a name and `::` is imported after that name.
pub proof fn law_use_path(
    rooted: bool,
    prefix: Seq<Seq<char>>,
    name: Seq<char>,
    rest: ImportTreeView,
)
    ensures
        use_imports(rooted, prefix, ImportTreeView::Path(name, Box::new(rest))) == use_imports(
            rooted,
            prefix + seq![name],
            rest,
        ),
{
    assert(prefix.push(name) =~= prefix + seq![name]);
}

/// What is imported after the names `prefix`.
pub open spec fn imports_after(
    rooted: bool,
    prefix: Seq<Seq<char>>,
    leaf: ImportTreeView,
) -> Seq<ImportView> {
    use_imports(rooted, Seq::empty(), use_chain(prefix, leaf))
}

proof fn lemma_imports_after(rooted: bool, prefix: Seq<Seq<char>>, leaf: ImportTreeView)
    ensures
        imports_after(rooted, prefix, leaf) == use_imports(rooted, prefix, leaf),
{
    lemma_chain(rooted, Seq::empty(), prefix, leaf);
    assert(Seq::<Seq<char>>::empty() + prefix =~= prefix);
}

/// `use x::y::{self}` imports `x::y` under its last name, and `use x::y::{self as w}` under `w`. So
/// it is without the braces.
pub proof fn law_use_self(
    scope: ScopeView,
    visibility: Visibility,
    rooted: bool,
    prefix: Seq<Seq<char>>,
    alias: Seq<char>,
)
    requires
        prefix.len() > 0,
    ensures
        ({
            let path = PathView::Unresolved(UnresolvedPathView { rooted, path: prefix });
            let itself = ImportTreeView::Name("self"@);
            let renamed = ImportTreeView::Rename("self"@, alias);
            &&& scope.bind_all(visibility, imports_after(rooted, prefix, itself)) == scope.import(
                visibility,
                prefix.last(),
                path,
            )
            &&& scope.bind_all(
                visibility,
                imports_after(rooted, prefix, ImportTreeView::Group(seq![itself])),
            ) == scope.import(visibility, prefix.last(), path)
            &&& scope.bind_all(visibility, imports_after(rooted, prefix, renamed)) == scope.import(
                visibility,
                alias,
                path,
            )
            &&& scope.bind_all(
                visibility,
                imports_after(rooted, prefix, ImportTreeView::Group(seq![renamed])),
            ) == scope.import(visibility, alias, path)
        }),
{
    let itself = ImportTreeView::Name("self"@);
    let renamed = ImportTreeView::Rename("self"@, alias);
    let path = UnresolvedPathView { rooted, path: prefix };
    lemma_imports_after(rooted, prefix, itself);
    lemma_imports_after(rooted, prefix, renamed);
    law_use_group(rooted, prefix, Seq::empty(), Seq::empty(), itself);
    law_use_group(rooted, prefix, Seq::empty(), Seq::empty(), renamed);
    law_imports_in_order(scope, visibility, Seq::empty(), Seq::empty(), prefix.last(), path);
    law_imports_in_order(scope, visibility, Seq::empty(), Seq::empty(), alias, path);
}

/// A name at the very start of a `use` declaration is imported as it is, whatever it is.
pub proof fn law_use_first_name(rooted: bool, name: Seq<char>, alias: Seq<char>)
    ensures
        imports_after(rooted, Seq::empty(), ImportTreeView::Name(name)) == seq![
            ImportView::Named { name, path: UnresolvedPathView { rooted, path: seq![name] } },
        ],
        imports_after(rooted, Seq::empty(), ImportTreeView::Rename(name, alias)) == seq![
            ImportView::Named {
                name: alias,
                path: UnresolvedPathView { rooted, path: seq![name] },
            },
        ],
{
    let empty: Seq<Seq<char>> = Seq::empty();
    lemma_imports_after(rooted, empty, ImportTreeView::Name(name));
    lemma_imports_after(rooted, empty, ImportTreeView::Rename(name, alias));
    assert(empty.push(name) =~= seq![name]);
}

/// A group imports what its trees import, one after the other, each after the same names.
pub proof fn law_use_group(
    rooted: bool,
    prefix: Seq<Seq<char>>,
    first: Seq<ImportTreeView>,
    second: Seq<ImportTreeView>,
    tree: ImportTreeView,
)
    ensures
        imports_after(rooted, prefix, ImportTreeView::Group(first + second)) == imports_after(
            rooted,
            prefix,
            ImportTreeView::Group(first),
        ) + imports_after(rooted, prefix, ImportTreeView::Group(second)),
        imports_after(rooted, prefix, ImportTreeView::Group(seq![tree])) == imports_after(
            rooted,
            prefix,
            tree,
        ),
        imports_after(rooted, prefix, ImportTreeView::Group(Seq::empty())) == Seq::<
            ImportView,
        >::empty(),
{
    lemma_imports_after(rooted, prefix, ImportTreeView::Group(first + second));
    lemma_imports_after(rooted, prefix, ImportTreeView::Group(first));
    lemma_imports_after(rooted, prefix, ImportTreeView::Group(second));
    lemma_imports_after(rooted, prefix, ImportTreeView::Group(seq![tree]));
    lemma_imports_after(rooted, prefix, ImportTreeView::Group(Seq::empty()));
    lemma_imports_after(rooted, prefix, tree);
    lemma_group(rooted, prefix, first, second);
    reveal_with_fuel(use_imports, 3);
    reveal_with_fuel(group_imports, 3);
    assert(seq![tree].drop_last() =~= Seq::empty());
    assert(group_imports(rooted, prefix, Seq::empty()) =~= Seq::empty());
    assert(group_imports(rooted, prefix, seq![tree]) == group_imports(rooted, prefix, Seq::empty())
        + use_imports(rooted, prefix, tree));
    assert(Seq::empty() + use_imports(rooted, prefix, tree) =~= use_imports(rooted, prefix, tree));
}

proof fn lemma_group(
    rooted: bool,
    prefix: Seq<Seq<char>>,
    first: Seq<ImportTreeView>,
    second: Seq<ImportTreeView>,
)
    ensures
        group_imports(rooted, prefix, first + second) == group_imports(rooted, prefix, first)
            + group_imports(rooted, prefix, second),
    decreases second.len(),
{
    if second.len() == 0 {
        assert(first + second =~= first);
        assert(group_imports(rooted, prefix, first) + group_imports(rooted, prefix, second)
            =~= group_imports(rooted, prefix, first));
    } else {
        assert((first + second).drop_last() =~= first + second.drop_last());
        assert((first + second).last() == second.last());
        lemma_group(rooted, prefix, first, second.drop_last());
        assert(group_imports(rooted, prefix, first + second) =~= group_imports(
            rooted,
            prefix,
            first,
        ) + group_imports(rooted, prefix, second));
    }
}

/// A group of `use` trees says what its trees say, in order.
pub proof fn law_trees(trees: Seq<ImportTree>)
    ensures
        import_tree_views(trees).len() == trees.len(),
        forall|i: int|
            0 <= i < trees.len() ==> #[trigger] import_tree_views(trees)[i] == import_tree_view(
                trees[i],
            ),
    decreases trees.len(),
{
    if trees.len() > 0 {
        law_trees(trees.drop_last());
    }
}

} // verus!
