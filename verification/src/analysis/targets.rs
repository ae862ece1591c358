//! Choosing the files that hold analysis data.

use vstd::prelude::*;

use crate::analysis::error::{AnalysisError, AnalysisErrorView};

verus! {

/// A component of a path, as the platform splits it. Names are in the platform's encoding.
#[derive(Debug)]
pub enum Component {
    /// A prefix such as a drive: its kind, and up to two names that it holds.
    Prefix { kind: u8, head: Vec<u8>, tail: Vec<u8> },
    /// The root directory.
    RootDir,
    /// `.`
    CurDir,
    /// `..`
    ParentDir,
    /// The name of a file or a directory.
    Normal(Vec<u8>),
}

/// By which components are ordered after the kinds of prefixes, which are numbers below these.
pub const ROOT_DIR: u16 = 256;

pub const CUR_DIR: u16 = 257;

pub const PARENT_DIR: u16 = 258;

pub const NORMAL: u16 = 259;

/// What a [`Component`] says: what it is, and up to two names.
#[verifier::ext_equal]
pub struct ComponentView {
    pub kind: int,
    pub head: Seq<u8>,
    pub tail: Seq<u8>,
}

impl View for Component {
    type V = ComponentView;

    /// Prefixes come first, then the root, `.`, `..` and names.
    open spec fn view(&self) -> ComponentView {
        match self {
            Component::Prefix { kind, head, tail } => ComponentView {
                kind: *kind as int,
                head: head@,
                tail: tail@,
            },
            Component::RootDir => ComponentView::plain(ROOT_DIR as int),
            Component::CurDir => ComponentView::plain(CUR_DIR as int),
            Component::ParentDir => ComponentView::plain(PARENT_DIR as int),
            Component::Normal(name) => ComponentView::normal(name@),
        }
    }
}

impl ComponentView {
    /// A component without names.
    pub open spec fn plain(kind: int) -> ComponentView {
        ComponentView { kind, head: Seq::empty(), tail: Seq::empty() }
    }

    /// The name of a file or a directory.
    pub open spec fn normal(name: Seq<u8>) -> ComponentView {
        ComponentView { kind: NORMAL as int, head: name, tail: Seq::empty() }
    }
}

/// The order of names: byte by byte, and a name before what it is the start of.
pub open spec fn bytes_le(left: Seq<u8>, right: Seq<u8>) -> bool
    decreases left.len(),
{
    if left.len() == 0 {
        true
    } else if right.len() == 0 {
        false
    } else if left[0] == right[0] {
        bytes_le(left.drop_first(), right.drop_first())
    } else {
        left[0] < right[0]
    }
}

/// The order of components.
pub open spec fn component_le(left: ComponentView, right: ComponentView) -> bool {
    if left.kind != right.kind {
        left.kind < right.kind
    } else if left.head != right.head {
        bytes_le(left.head, right.head)
    } else {
        bytes_le(left.tail, right.tail)
    }
}

/// The order of paths: component by component, and a directory before what lies in it.
pub open spec fn path_le(left: Seq<ComponentView>, right: Seq<ComponentView>) -> bool
    decreases left.len(),
{
    if left.len() == 0 {
        true
    } else if right.len() == 0 {
        false
    } else if left[0] == right[0] {
        path_le(left.drop_first(), right.drop_first())
    } else {
        component_le(left[0], right[0])
    }
}

proof fn lemma_bytes_order(a: Seq<u8>, b: Seq<u8>, c: Seq<u8>)
    ensures
        bytes_le(a, b) || bytes_le(b, a),
        bytes_le(a, b) && bytes_le(b, a) ==> a == b,
        bytes_le(a, b) && bytes_le(b, c) ==> bytes_le(a, c),
    decreases a.len(),
{
    if a.len() > 0 && b.len() > 0 && c.len() > 0 {
        lemma_bytes_order(a.drop_first(), b.drop_first(), c.drop_first());
        if a[0] == b[0] && a.drop_first() == b.drop_first() {
            assert(a =~= seq![a[0]] + a.drop_first());
            assert(b =~= seq![b[0]] + b.drop_first());
        }
    } else if a.len() > 0 && b.len() > 0 {
        lemma_bytes_order(a.drop_first(), b.drop_first(), c);
        if a[0] == b[0] && a.drop_first() == b.drop_first() {
            assert(a =~= seq![a[0]] + a.drop_first());
            assert(b =~= seq![b[0]] + b.drop_first());
        }
    } else if a.len() == 0 && b.len() == 0 {
        assert(a =~= b);
    }
}

proof fn lemma_component_order(a: ComponentView, b: ComponentView, c: ComponentView)
    ensures
        component_le(a, b) || component_le(b, a),
        component_le(a, b) && component_le(b, a) ==> a == b,
        component_le(a, b) && component_le(b, c) ==> component_le(a, c),
{
    lemma_bytes_order(a.head, b.head, c.head);
    lemma_bytes_order(b.head, a.head, c.head);
    lemma_bytes_order(b.head, c.head, a.head);
    lemma_bytes_order(a.tail, b.tail, c.tail);
}

/// The order of paths is total: of two paths one comes first, two paths that both come first are
/// the same, and what comes before an earlier path comes before a later one.
pub proof fn law_path_order(
    a: Seq<ComponentView>,
    b: Seq<ComponentView>,
    c: Seq<ComponentView>,
)
    ensures
        path_le(a, b) || path_le(b, a),
        path_le(a, b) && path_le(b, a) ==> a == b,
        path_le(a, b) && path_le(b, c) ==> path_le(a, c),
    decreases a.len(),
{
    if a.len() > 0 && b.len() > 0 {
        if c.len() > 0 {
            law_path_order(a.drop_first(), b.drop_first(), c.drop_first());
            lemma_component_order(a[0], b[0], c[0]);
            lemma_component_order(b[0], c[0], a[0]);
        } else {
            law_path_order(a.drop_first(), b.drop_first(), c);
            lemma_component_order(a[0], b[0], b[0]);
        }
        if a[0] == b[0] && a.drop_first() == b.drop_first() {
            assert(a =~= seq![a[0]] + a.drop_first());
            assert(b =~= seq![b[0]] + b.drop_first());
        }
    } else if a.len() == 0 && b.len() == 0 {
        assert(a =~= b);
    }
}

/// A file in a directory.
#[derive(Debug)]
pub struct Entry {
    /// By which the file is found again.
    pub id: usize,
    pub path: Vec<Component>,
}

/// What a sequence of components says.
pub open spec fn component_views(components: Seq<Component>) -> Seq<ComponentView> {
    components.map_values(|component: Component| component@)
}

/// What an [`Entry`] says.
pub struct EntryView {
    pub id: usize,
    pub path: Seq<ComponentView>,
}

impl View for Entry {
    type V = EntryView;

    open spec fn view(&self) -> EntryView {
        EntryView { id: self.id, path: component_views(self.path@) }
    }
}

/// Whether `left` comes before `right`, or both are the same.
fn names_in_order(left: &Vec<u8>, right: &Vec<u8>) -> (in_order: bool)
    ensures
        in_order == bytes_le(left@, right@),
{
    let mut i: usize = 0;
    assert(left@.skip(0) == left@);
    assert(right@.skip(0) == right@);
    while i < left.len()
        invariant
            i <= left@.len(),
            i <= right@.len(),
            bytes_le(left@, right@) == bytes_le(left@.skip(i as int), right@.skip(i as int)),
        decreases left@.len() - i,
    {
        if i == right.len() {
            return false;
        }
        assert(left@.skip(i as int).drop_first() == left@.skip(i + 1));
        assert(right@.skip(i as int).drop_first() == right@.skip(i + 1));
        if left[i] != right[i] {
            return left[i] < right[i];
        }
        i += 1;
    }
    true
}

/// Whether two names are the same.
fn same_name(left: &Vec<u8>, right: &Vec<u8>) -> (same: bool)
    ensures
        same == (left@ == right@),
{
    if left.len() != right.len() {
        return false;
    }
    let mut i: usize = 0;
    while i < left.len()
        invariant
            left@.len() == right@.len(),
            i <= left@.len(),
            forall|j: int| 0 <= j < i ==> left@[j] == right@[j],
        decreases left@.len() - i,
    {
        if left[i] != right[i] {
            return false;
        }
        i += 1;
    }
    assert(left@ =~= right@);
    true
}

/// How two components compare.
enum Comparison {
    Before,
    Same,
    After,
}

/// How two names compare, where `rest` is how what follows them compares.
fn compare_names(left: &Vec<u8>, right: &Vec<u8>, rest: Comparison) -> (comparison: Comparison)
    ensures
        comparison == (if left@ == right@ {
            rest
        } else if bytes_le(left@, right@) {
            Comparison::Before
        } else {
            Comparison::After
        }),
{
    if same_name(left, right) {
        rest
    } else if names_in_order(left, right) {
        Comparison::Before
    } else {
        Comparison::After
    }
}

/// What a component is, as a number by which components are ordered.
fn component_kind(component: &Component) -> (kind: u16)
    ensures
        kind == component@.kind,
{
    match component {
        Component::Prefix { kind, .. } => *kind as u16,
        Component::RootDir => ROOT_DIR,
        Component::CurDir => CUR_DIR,
        Component::ParentDir => PARENT_DIR,
        Component::Normal(_) => NORMAL,
    }
}

/// How two components compare.
fn compare_components(left: &Component, right: &Component) -> (comparison: Comparison)
    ensures
        match comparison {
            Comparison::Before => left@ != right@ && component_le(left@, right@),
            Comparison::Same => left@ == right@,
            Comparison::After => left@ != right@ && !component_le(left@, right@),
        },
{
    proof {
        lemma_component_order(left@, right@, right@);
    }
    let left_kind = component_kind(left);
    let right_kind = component_kind(right);
    if left_kind < right_kind {
        return Comparison::Before;
    }
    if left_kind > right_kind {
        return Comparison::After;
    }
    match (left, right) {
        (
            Component::Prefix { head: left_head, tail: left_tail, .. },
            Component::Prefix { head: right_head, tail: right_tail, .. },
        ) => {
            proof {
                lemma_bytes_order(left_head@, right_head@, right_head@);
                lemma_bytes_order(left_tail@, right_tail@, right_tail@);
            }
            let rest = compare_names(left_tail, right_tail, Comparison::Same);
            compare_names(left_head, right_head, rest)
        },
        (Component::Normal(left_name), Component::Normal(right_name)) => {
            proof {
                lemma_bytes_order(left_name@, right_name@, right_name@);
            }
            compare_names(left_name, right_name, Comparison::Same)
        },
        _ => Comparison::Same,
    }
}

/// Whether one path comes before another, or both are the same.
pub fn paths_in_order(left: &Vec<Component>, right: &Vec<Component>) -> (in_order: bool)
    ensures
        in_order == path_le(component_views(left@), component_views(right@)),
{
    let ghost left_views = component_views(left@);
    let ghost right_views = component_views(right@);
    let mut i: usize = 0;
    assert(left_views.skip(0) == left_views);
    assert(right_views.skip(0) == right_views);
    while i < left.len()
        invariant
            left_views == component_views(left@),
            right_views == component_views(right@),
            i <= left@.len(),
            i <= right@.len(),
            path_le(left_views, right_views) == path_le(
                left_views.skip(i as int),
                right_views.skip(i as int),
            ),
        decreases left@.len() - i,
    {
        if i == right.len() {
            return false;
        }
        assert(left_views.skip(i as int).drop_first() == left_views.skip(i + 1));
        assert(right_views.skip(i as int).drop_first() == right_views.skip(i + 1));
        match compare_components(&left[i], &right[i]) {
            Comparison::Before => {
                return true;
            },
            Comparison::Same => {},
            Comparison::After => {
                return false;
            },
        }
        i += 1;
    }
    true
}

/// Where the last dot of a name stands, or -1.
pub open spec fn last_dot(name: Seq<u8>) -> int
    decreases name.len(),
{
    if name.len() == 0 {
        -1
    } else if name.last() == 46 {
        name.len() - 1
    } else {
        last_dot(name.drop_last())
    }
}

/// The extension of a file name: what follows its last dot, unless the name starts with that dot.
pub open spec fn name_extension(name: Seq<u8>) -> Option<Seq<u8>> {
    if last_dot(name) > 0 {
        Some(name.skip(last_dot(name) + 1))
    } else {
        None
    }
}

/// The extension of a path: that of its last component, where it is a name.
pub open spec fn extension(path: Seq<ComponentView>) -> Option<Seq<u8>> {
    if path.len() > 0 && path.last().kind == NORMAL {
        name_extension(path.last().head)
    } else {
        None
    }
}

/// The bytes of `json`.
pub open spec fn json_bytes() -> Seq<u8> {
    seq![106, 115, 111, 110]
}

/// Whether a path has the extension `json`.
pub open spec fn is_json(path: Seq<ComponentView>) -> bool {
    extension(path) == Some(json_bytes())
}

/// Whether a path has the extension `json`.
pub fn has_json_extension(path: &Vec<Component>) -> (json: bool)
    ensures
        json == is_json(component_views(path@)),
{
    if path.len() == 0 {
        return false;
    }
    match &path[path.len() - 1] {
        Component::Normal(name) => {
            let mut i: usize = name.len();
            assert(name@.take(i as int) == name@);
            while i > 0 && name[i - 1] != 46
                invariant
                    i <= name@.len(),
                    last_dot(name@) == last_dot(name@.take(i as int)),
                decreases i,
            {
                assert(name@.take(i as int).drop_last() == name@.take(i - 1));
                i -= 1;
            }
            if i <= 1 {
                return false;
            }
            assert(last_dot(name@) == i - 1);
            let ghost rest = name@.skip(i as int);
            if name.len() - i != 4 {
                assert(rest.len() != json_bytes().len());
                return false;
            }
            let json = name[i] == 106 && name[i + 1] == 115 && name[i + 2] == 111 && name[i + 3]
                == 110;
            assert(json == (rest =~= json_bytes())) by {
                assert(rest[0] == name@[i as int]);
                assert(rest[1] == name@[i + 1]);
                assert(rest[2] == name@[i + 2]);
                assert(rest[3] == name@[i + 3]);
            }
            json
        },
        _ => false,
    }
}

/// A file whose name is a name that is not empty, a dot and an extension without a dot has that
/// extension, wherever it lies.
pub proof fn law_extension(directory: Seq<ComponentView>, stem: Seq<u8>, rest: Seq<u8>)
    requires
        stem.len() > 0,
        !rest.contains(46),
    ensures
        extension(directory.push(ComponentView::normal(stem + seq![46u8] + rest))) == Some(rest),
{
    lemma_last_dot(stem, rest);
    let name = stem + seq![46u8] + rest;
    assert(name.skip(stem.len() as int + 1) =~= rest);
}

proof fn lemma_last_dot(stem: Seq<u8>, rest: Seq<u8>)
    requires
        !rest.contains(46),
    ensures
        last_dot(stem + seq![46u8] + rest) == stem.len(),
    decreases rest.len(),
{
    let name = stem + seq![46u8] + rest;
    if rest.len() == 0 {
        assert(name.last() == 46);
    } else {
        assert(rest[rest.len() - 1] != 46);
        assert(name.last() == rest.last());
        assert(name.drop_last() =~= stem + seq![46u8] + rest.drop_last());
        assert forall|i: int| 0 <= i < rest.drop_last().len() implies rest.drop_last()[i] != 46 by {
            assert(rest[i] != 46);
        }
        lemma_last_dot(stem, rest.drop_last());
    }
}

/// A directory that is searched for analysis data.
#[derive(Debug)]
pub struct Listing {
    /// The directory, for messages.
    pub dir: String,
    pub is_dir: bool,
    /// The files in the directory, or why they could not be listed.
    pub entries: Result<Vec<Entry>, String>,
}

/// Why a directory cannot be searched.
pub open spec fn listing_failure(listing: Listing) -> Option<AnalysisErrorView> {
    if !listing.is_dir {
        Some(AnalysisErrorView::MissingSaveAnalysis { dir: listing.dir@ })
    } else {
        match listing.entries {
            Ok(_) => None,
            Err(message) => Some(AnalysisErrorView::Io(message@)),
        }
    }
}

/// Why the first directory that cannot be searched cannot be.
pub open spec fn first_failure(listings: Seq<Listing>) -> Option<AnalysisErrorView>
    decreases listings.len(),
{
    if listings.len() == 0 {
        None
    } else {
        match first_failure(listings.drop_last()) {
            Some(error) => Some(error),
            None => listing_failure(listings.last()),
        }
    }
}

/// The files among `entries` that have the extension `json`, in order.
pub open spec fn json_entries(entries: Seq<Entry>) -> Seq<Entry>
    decreases entries.len(),
{
    if entries.len() == 0 {
        Seq::empty()
    } else if is_json(entries.last()@.path) {
        json_entries(entries.drop_last()).push(entries.last())
    } else {
        json_entries(entries.drop_last())
    }
}

/// The files in the given directories that have the extension `json`, in order.
pub open spec fn listed_json(listings: Seq<Listing>) -> Seq<Entry>
    decreases listings.len(),
{
    if listings.len() == 0 {
        Seq::empty()
    } else {
        listed_json(listings.drop_last()) + (match listings.last().entries {
            Ok(entries) => json_entries(entries@),
            Err(_) => Seq::empty(),
        })
    }
}

/// Whether the paths of the given files are in order.
pub open spec fn in_path_order(entries: Seq<Entry>) -> bool {
    forall|i: int, j: int|
        0 <= i < j < entries.len() ==> path_le(
            (#[trigger] entries[i])@.path,
            (#[trigger] entries[j])@.path,
        )
}

/// Puts a file among files in order, behind those that come before it.
fn insert_in_order(targets: &mut Vec<Entry>, entry: Entry)
    requires
        in_path_order(old(targets)@),
    ensures
        in_path_order(final(targets)@),
        final(targets)@.to_multiset() == old(targets)@.to_multiset().insert(entry),
{
    let mut at: usize = targets.len();
    while at > 0 && !paths_in_order(&targets[at - 1].path, &entry.path)
        invariant
            at <= targets@.len(),
            targets@ == old(targets)@,
            forall|j: int|
                at <= j < targets@.len() ==> !path_le((#[trigger] targets@[j])@.path, entry@.path),
        decreases at,
    {
        at -= 1;
    }
    let ghost before = targets@;
    targets.insert(at, entry);
    let ghost after = targets@;
    assert(after == before.insert(at as int, entry));
    proof {
        vstd::seq_lib::to_multiset_insert(before, at as int, entry);
    }
    assert forall|i: int, j: int| 0 <= i < j < after.len() implies path_le(
        (#[trigger] after[i])@.path,
        (#[trigger] after[j])@.path,
    ) by {
        if j == at {
            assert(after[i] == before[i]);
            law_path_order(before[i]@.path, before[at - 1]@.path, entry@.path);
            if i < at - 1 {
                assert(path_le(before[i]@.path, before[at - 1]@.path));
            }
        } else if i == at {
            assert(after[j] == before[j - 1]);
            law_path_order(before[j - 1]@.path, entry@.path, entry@.path);
        } else {
            let old_i = if i < at {
                i
            } else {
                i - 1
            };
            let old_j = if j < at {
                j
            } else {
                j - 1
            };
            assert(after[i] == before[old_i] && after[j] == before[old_j]);
        }
    }
}

/// Chooses the files with the extension `json` in the given directories, in the order of their
/// paths.
fn choose_targets(listings: Vec<Listing>) -> (targets: Result<Vec<Entry>, AnalysisError>)
    ensures
        match targets {
            Ok(targets) => {
                &&& first_failure(listings@) is None
                &&& in_path_order(targets@)
                &&& targets@.to_multiset() == listed_json(listings@).to_multiset()
            },
            Err(error) => first_failure(listings@) == Some(error@),
        },
{
    let mut targets: Vec<Entry> = Vec::new();
    let ghost all = listings@;
    assert(all.take(0) =~= Seq::empty());
    for listing in it: listings
        invariant
            it.seq() == all,
            all == listings@,
            first_failure(all.take(it.index() as int)) is None,
            in_path_order(targets@),
            targets@.to_multiset() == listed_json(all.take(it.index() as int)).to_multiset(),
    {
        let ghost done = all.take(it.index() as int);
        let ghost next = all.take(it.index() + 1);
        proof {
            assert(next.drop_last() =~= done);
            assert(next.last() == listing);
            if listing_failure(listing) is Some {
                lemma_first_failure(all, it.index() + 1);
            }
        }
        if !listing.is_dir {
            return Err(AnalysisError::MissingSaveAnalysis { dir: listing.dir });
        }
        match listing.entries {
            Ok(entries) => {
                let ghost listed = entries@;
                assert(listed.take(0) =~= Seq::empty());
                assert(listed_json(done) + json_entries(listed.take(0)) =~= listed_json(done));
                for entry in inner: entries
                    invariant
                        inner.seq() == listed,
                        in_path_order(targets@),
                        targets@.to_multiset() == (listed_json(done) + json_entries(
                            listed.take(inner.index() as int),
                        )).to_multiset(),
                {
                    let ghost seen = listed.take(inner.index() as int);
                    let ghost more = listed.take(inner.index() + 1);
                    assert(more.drop_last() =~= seen);
                    assert(more.last() == entry);
                    if has_json_extension(&entry.path) {
                        let ghost found = listed_json(done) + json_entries(seen);
                        proof {
                            vstd::seq_lib::to_multiset_build(found, entry);
                            assert(listed_json(done) + json_entries(more) =~= found.push(entry));
                        }
                        insert_in_order(&mut targets, entry);
                    }
                }
                assert(listed.take(listed.len() as int) =~= listed);
            },
            Err(message) => {
                return Err(AnalysisError::Io(message));
            },
        }
    }
    assert(all.take(all.len() as int) =~= all);
    Ok(targets)
}

/// Why the files cannot be chosen: the directories are not known, or one cannot be searched.
pub open spec fn fetch_failure(listings: Result<Vec<Listing>, AnalysisError>) -> Option<
    AnalysisErrorView,
> {
    match listings {
        Err(error) => Some(error@),
        Ok(listings) => first_failure(listings@),
    }
}

/// Chooses the files that hold analysis data: those in the given directories with the extension
/// `json`, in the order of their paths. Every directory has to be there and to be listed. Where the
/// directories are not known, that error comes first.
pub fn fetch_analysis(listings: Result<Vec<Listing>, AnalysisError>) -> (targets: Result<
    Vec<Entry>,
    AnalysisError,
>)
    ensures
        match targets {
            Ok(targets) => {
                &&& fetch_failure(listings) is None
                &&& listings matches Ok(listings)
                &&& in_path_order(targets@)
                &&& targets@.to_multiset() == listed_json(listings@).to_multiset()
            },
            Err(error) => fetch_failure(listings) == Some(error@),
        },
{
    match listings {
        Ok(listings) => choose_targets(listings),
        Err(error) => Err(error),
    }
}

/// What keeps some of the directories from being searched keeps all of them from it.
proof fn lemma_first_failure(listings: Seq<Listing>, count: int)
    requires
        0 <= count <= listings.len(),
        first_failure(listings.take(count)) is Some,
    ensures
        first_failure(listings) == first_failure(listings.take(count)),
    decreases listings.len(),
{
    if count < listings.len() {
        assert(listings.drop_last().take(count) =~= listings.take(count));
        lemma_first_failure(listings.drop_last(), count);
    } else {
        assert(listings.take(count) =~= listings);
    }
}

/// The paths of the given files.
pub open spec fn entry_paths(entries: Seq<Entry>) -> Seq<Seq<ComponentView>> {
    entries.map_values(|entry: Entry| entry@.path)
}

proof fn lemma_paths_multiset(first: Seq<Entry>, second: Seq<Entry>)
    requires
        first.to_multiset() == second.to_multiset(),
    ensures
        entry_paths(first).to_multiset() == entry_paths(second).to_multiset(),
    decreases first.len(),
{
    broadcast use vstd::seq_lib::group_to_multiset_ensures;

    vstd::seq_lib::to_multiset_len(first);
    vstd::seq_lib::to_multiset_len(second);
    if first.len() == 0 {
        assert(entry_paths(first) =~= entry_paths(second));
    } else {
        let last = first.last();
        let init = first.drop_last();
        assert(first == init.push(last));
        assert(first[first.len() - 1] == last);
        assert(first.to_multiset().contains(last));
        assert(second.to_multiset().contains(last));
        assert(second.contains(last));
        let k = choose|k: int| 0 <= k < second.len() && second[k] == last;
        let rest = second.remove(k);
        vstd::seq_lib::to_multiset_remove(second, k);
        vstd::seq_lib::to_multiset_build(init, last);
        assert(init.to_multiset() =~= rest.to_multiset());
        lemma_paths_multiset(init, rest);
        assert(entry_paths(first) =~= entry_paths(init).push(last@.path));
        assert(entry_paths(second) =~= entry_paths(rest).insert(k, last@.path));
        vstd::seq_lib::to_multiset_build(entry_paths(init), last@.path);
        vstd::seq_lib::to_multiset_insert(entry_paths(rest), k, last@.path);
    }
}

/// Files in the order of their paths come in one order only, whatever order they were listed in and
/// whatever they are found again by.
pub proof fn law_one_order(first: Seq<Entry>, second: Seq<Entry>)
    requires
        in_path_order(first),
        in_path_order(second),
        entry_paths(first).to_multiset() == entry_paths(second).to_multiset(),
    ensures
        entry_paths(first) == entry_paths(second),
{
    let le = |left: Seq<ComponentView>, right: Seq<ComponentView>| path_le(left, right);
    assert forall|x: Seq<ComponentView>| #[trigger] le(x, x) by {
        law_path_order(x, x, x);
    }
    assert forall|x: Seq<ComponentView>, y: Seq<ComponentView>|
        #[trigger] le(x, y) && #[trigger] le(y, x) implies x == y by {
        law_path_order(x, y, y);
    }
    assert forall|x: Seq<ComponentView>, y: Seq<ComponentView>, z: Seq<ComponentView>|
        #[trigger] le(x, y) && #[trigger] le(y, z) implies le(x, z) by {
        law_path_order(x, y, z);
    }
    assert forall|x: Seq<ComponentView>, y: Seq<ComponentView>| #[trigger]
        le(x, y) || #[trigger] le(y, x) by {
        law_path_order(x, y, y);
    }
    assert forall|i: int, j: int| 0 <= i < j < entry_paths(first).len() implies #[trigger] le(
        entry_paths(first)[i],
        entry_paths(first)[j],
    ) by {
        assert(path_le(first[i]@.path, first[j]@.path));
    }
    assert forall|i: int, j: int| 0 <= i < j < entry_paths(second).len() implies #[trigger] le(
        entry_paths(second)[i],
        entry_paths(second)[j],
    ) by {
        assert(path_le(second[i]@.path, second[j]@.path));
    }
    vstd::seq_lib::lemma_sorted_unique(entry_paths(first), entry_paths(second), le);
}

/// Two listings of the same files give the same files in the same order: `first_targets` and
/// `second_targets` are what is chosen of them.
pub proof fn law_same_files(
    first: Seq<Listing>,
    first_targets: Seq<Entry>,
    second: Seq<Listing>,
    second_targets: Seq<Entry>,
)
    requires
        in_path_order(first_targets),
        first_targets.to_multiset() == listed_json(first).to_multiset(),
        in_path_order(second_targets),
        second_targets.to_multiset() == listed_json(second).to_multiset(),
        entry_paths(listed_json(first)).to_multiset() == entry_paths(
            listed_json(second),
        ).to_multiset(),
    ensures
        entry_paths(first_targets) == entry_paths(second_targets),
{
    lemma_paths_multiset(first_targets, listed_json(first));
    lemma_paths_multiset(second_targets, listed_json(second));
    law_one_order(first_targets, second_targets);
}

proof fn lemma_json_entries_concat(first: Seq<Entry>, second: Seq<Entry>)
    ensures
        json_entries(first + second) == json_entries(first) + json_entries(second),
    decreases second.len(),
{
    if second.len() == 0 {
        assert(first + second =~= first);
        assert(json_entries(first) + json_entries(second) =~= json_entries(first));
    } else {
        assert((first + second).drop_last() =~= first + second.drop_last());
        assert((first + second).last() == second.last());
        lemma_json_entries_concat(first, second.drop_last());
        assert(json_entries(first + second) =~= json_entries(first) + json_entries(second));
    }
}

/// A file without the extension `json` makes no difference, wherever it is listed.
pub proof fn law_other_files(before: Seq<Entry>, entry: Entry, after: Seq<Entry>)
    requires
        !is_json(entry@.path),
    ensures
        json_entries(before + seq![entry] + after) == json_entries(before + after),
{
    lemma_json_entries_concat(before + seq![entry], after);
    lemma_json_entries_concat(before, seq![entry]);
    lemma_json_entries_concat(before, after);
    assert(seq![entry].drop_last() =~= Seq::empty());
    reveal_with_fuel(json_entries, 2);
    assert(json_entries(before) + json_entries(seq![entry]) =~= json_entries(before));
}

/// The values of the results that are good, in order.
pub open spec fn good_values<T, E>(results: Seq<Result<T, E>>) -> Seq<T>
    decreases results.len(),
{
    if results.len() == 0 {
        Seq::empty()
    } else {
        match results.last() {
            Ok(value) => good_values(results.drop_last()).push(value),
            Err(_) => good_values(results.drop_last()),
        }
    }
}

/// Keeps what could be read, in order; files that could not be read are passed over.
pub fn keep_good<T, E>(results: Vec<Result<T, E>>) -> (kept: Vec<T>)
    ensures
        kept@ == good_values(results@),
{
    let mut kept: Vec<T> = Vec::new();
    let ghost all = results@;
    assert(all.take(0) =~= Seq::empty());
    for result in it: results
        invariant
            it.seq() == all,
            kept@ == good_values(all.take(it.index() as int)),
    {
        let ghost next = all.take(it.index() + 1);
        assert(next.drop_last() =~= all.take(it.index() as int));
        assert(next.last() == result);
        match result {
            Ok(value) => {
                kept.push(value);
            },
            Err(_) => {},
        }
    }
    assert(all.take(all.len() as int) =~= all);
    kept
}

proof fn lemma_good_values_concat<T, E>(first: Seq<Result<T, E>>, second: Seq<Result<T, E>>)
    ensures
        good_values(first + second) == good_values(first) + good_values(second),
    decreases second.len(),
{
    if second.len() == 0 {
        assert(first + second =~= first);
        assert(good_values(first) + good_values(second) =~= good_values(first));
    } else {
        assert((first + second).drop_last() =~= first + second.drop_last());
        assert((first + second).last() == second.last());
        lemma_good_values_concat(first, second.drop_last());
        assert(good_values(first + second) =~= good_values(first) + good_values(second));
    }
}

/// A file that cannot be read makes no difference to what is kept of the others.
pub proof fn law_unreadable_files<T, E>(
    before: Seq<Result<T, E>>,
    error: E,
    after: Seq<Result<T, E>>,
)
    ensures
        good_values(before + seq![Err(error)] + after) == good_values(before + after),
{
    let failed: Seq<Result<T, E>> = seq![Err(error)];
    lemma_good_values_concat(before + failed, after);
    lemma_good_values_concat(before, failed);
    lemma_good_values_concat(before, after);
    assert(failed.drop_last() =~= Seq::empty());
    reveal_with_fuel(good_values, 2);
    assert(good_values(before) + good_values(failed) =~= good_values(before));
}

} // verus!
