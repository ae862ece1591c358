//! What the parts of reading analysis data mean, each in terms of what goes in and what comes out.

use vstd::prelude::*;

use crate::analysis::ensure::{
    actions, reaction, run, transition, ActionView, EventView, HeardView, StageView,
    FIRST_LINE_SECONDS,
};
use crate::analysis::error::AnalysisErrorView;
use crate::analysis::json::{
    element_views, json_text, json_view, member_index, member_views, Json, JsonView,
};
use crate::analysis::progress::{built_now, line_says_done, other_version, says_done};
use crate::analysis::targets::{
    bytes_le, component_le, first_failure, good_values, in_path_order, is_json, json_entries,
    last_dot, listed_json, path_le, Component, ComponentView, Entry, Listing,
};
use crate::analysis::toolchain::{
    crate_folder, host_triple, system_folder, target_triple, toolchain_triple, FolderBase,
    FolderView,
};
use crate::text::{has_prefix, lemma_until_char, lines, words};

verus! {

proof fn lemma_member_index(members: Seq<(Seq<char>, JsonView)>, name: Seq<char>)
    ensures
        0 <= member_index(members, name) <= members.len(),
        forall|j: int| 0 <= j < member_index(members, name) ==> (#[trigger] members[j]).0 != name,
        member_index(members, name) < members.len() ==> members[member_index(members, name)].0
            == name,
    decreases members.len(),
{
    if members.len() > 0 && members[0].0 != name {
        let rest = members.drop_first();
        lemma_member_index(rest, name);
        assert forall|j: int| 0 <= j < member_index(members, name) implies (#[trigger] members[j]).0
            != name by {
            if j > 0 {
                assert(members[j] == rest[j - 1]);
            }
        }
    }
}

/// The member of a value with a given name is the first one that an object holds under that name.
pub proof fn law_member(json: JsonView, name: Seq<char>, value: JsonView)
    ensures
        json.member(name) == Some(value) <==> (json matches JsonView::Object(members)
            && exists|i: int|
            {
                &&& 0 <= i < members.len()
                &&& #[trigger] members[i] == (name, value)
                &&& forall|j: int| 0 <= j < i ==> (#[trigger] members[j]).0 != name
            }),
        json.member(name) is None <==> (json matches JsonView::Object(members) ==> forall|i: int|
            0 <= i < members.len() ==> (#[trigger] members[i]).0 != name),
{
    if let JsonView::Object(members) = json {
        lemma_member_index(members, name);
        let at = member_index(members, name);
        if at < members.len() {
            assert(members[at].0 == name);
            if members[at].1 == value {
                assert(members[at] == (name, value));
            }
            assert forall|i: int|
                {
                    &&& 0 <= i < members.len()
                    &&& #[trigger] members[i] == (name, value)
                    &&& forall|j: int| 0 <= j < i ==> (#[trigger] members[j]).0 != name
                } implies members[at].1 == value by {
                assert(i == at);
            }
        }
    }
}

/// A value says what its parts say, in order.
pub proof fn law_json_parts(elements: Seq<Json>, members: Seq<(String, Json)>)
    ensures
        element_views(elements).len() == elements.len(),
        forall|i: int|
            0 <= i < elements.len() ==> #[trigger] element_views(elements)[i] == json_view(
                elements[i],
            ),
        member_views(members).len() == members.len(),
        forall|i: int|
            0 <= i < members.len() ==> #[trigger] member_views(members)[i] == (
                members[i].0@,
                json_view(members[i].1),
            ),
    decreases elements.len() + members.len(),
{
    if elements.len() > 0 {
        law_json_parts(elements.drop_last(), members);
    } else if members.len() > 0 {
        law_json_parts(elements, members.drop_last());
    }
}

/// A message says that the build is done exactly where it is a progress message about building
/// whose parameters say `done`.
pub proof fn law_done(message: JsonView)
    ensures
        says_done(message) <==> exists|params: JsonView|
            {
                &&& message.member("method"@) == Some(JsonView::Text("window/progress"@))
                &&& message.member("params"@) == Some(params)
                &&& #[trigger] params.member("title"@) == Some(JsonView::Text("Building"@))
                &&& params.member("done"@) == Some(JsonView::Bool(true))
            },
{
    if says_done(message) {
        let params = message.member("params"@)->Some_0;
        assert(params.member("title"@) == Some(JsonView::Text("Building"@)));
    }
}

/// A line says that the build is done exactly where it is JSON and a progress message about
/// building whose parameters say `done`.
pub proof fn law_line_done(line: Seq<char>)
    ensures
        line_says_done(line) <==> exists|message: JsonView, params: JsonView|
            {
                &&& json_text(line) == Some(message)
                &&& message.member("method"@) == Some(JsonView::Text("window/progress"@))
                &&& #[trigger] message.member("params"@) == Some(params)
                &&& #[trigger] params.member("title"@) == Some(JsonView::Text("Building"@))
                &&& params.member("done"@) == Some(JsonView::Bool(true))
            },
{
    if json_text(line) is Some {
        let message = json_text(line)->Some_0;
        law_done(message);
        if line_says_done(line) {
            let params = message.member("params"@)->Some_0;
            assert(message.member("params"@) == Some(params));
            assert(params.member("title"@) == Some(JsonView::Text("Building"@)));
        }
    }
}

/// What is being built is the text of a progress message about building that does not say `done`.
pub proof fn law_building_message(message: JsonView, text: Seq<char>)
    ensures
        built_now(message) == Some(text) <==> exists|params: JsonView|
            {
                &&& message.member("method"@) == Some(JsonView::Text("window/progress"@))
                &&& message.member("params"@) == Some(params)
                &&& #[trigger] params.member("title"@) == Some(JsonView::Text("Building"@))
                &&& params.member("done"@) != Some(JsonView::Bool(true))
                &&& params.member("message"@) == Some(JsonView::Text(text))
            },
{
    if built_now(message) == Some(text) {
        let params = message.member("params"@)->Some_0;
        assert(params.member("title"@) == Some(JsonView::Text("Building"@)));
    }
}

/// The expected version of the protocol is the text `2.0`, and nothing else.
pub proof fn law_version(message: JsonView)
    ensures
        !other_version(message) <==> message.member("jsonrpc"@) == Some(JsonView::Text("2.0"@)),
{
}

/// What the listener does with each thing that it can hear. Somebody has to be there for the
/// announcement only the first time.
pub proof fn law_reactions(announced: bool, alive: bool, message: Seq<char>)
    ensures
        reaction(announced, alive, HeardView::Ended) == Some(
            Err::<(), _>(
                AnalysisErrorView::Other { cause: "rls stopped before the build was done"@ },
            ),
        ),
        forall|heard: HeardView|
            !(heard is Ended) ==> #[trigger] reaction(false, false, heard) == Some(
                Err::<(), _>(AnalysisErrorView::Other { cause: "rx died"@ }),
            ),
        announced || alive ==> {
            &&& reaction(announced, alive, HeardView::Failed(message)) == Some(
                Err::<(), _>(AnalysisErrorView::Io(message)),
            )
            &&& reaction(announced, alive, HeardView::Line { done: true }) == Some(
                Ok::<(), AnalysisErrorView>(()),
            )
            &&& reaction(announced, alive, HeardView::Line { done: false }) is None
        },
{
}

/// What is returned for each way in which the work can fail.
pub proof fn law_failed_runs(message: Seq<char>, error: AnalysisErrorView)
    ensures
        run(StageView::Checking, seq![EventView::CheckFailed(message)]) == Some(
            Err::<(), _>(AnalysisErrorView::Io(message)),
        ),
        run(StageView::Checking, seq![EventView::CheckExited { success: false }]) == Some(
            Err::<(), _>(AnalysisErrorView::CargoCheckFailed),
        ),
        run(
            StageView::Checking,
            seq![EventView::CheckExited { success: true }, EventView::LaunchFailed(message)],
        ) == Some(Err::<(), _>(AnalysisErrorView::Io(message))),
        run(
            StageView::Checking,
            seq![
                EventView::CheckExited { success: true },
                EventView::Launched { stdout: false },
                EventView::Killed,
            ],
        ) == Some(Err::<(), _>(AnalysisErrorView::Other { cause: "can't get rls stdout"@ })),
        run(
            StageView::Checking,
            seq![
                EventView::CheckExited { success: true },
                EventView::Launched { stdout: true },
                EventView::ListenerGone,
                EventView::Killed,
            ],
        ) == Some(Err::<(), _>(AnalysisErrorView::Other { cause: "listener died"@ })),
        run(
            StageView::Checking,
            seq![
                EventView::CheckExited { success: true },
                EventView::Launched { stdout: true },
                EventView::TimedOut(message),
                EventView::Killed,
            ],
        ) == Some(Err::<(), _>(AnalysisErrorView::Io(message))),
        run(
            StageView::Checking,
            seq![
                EventView::CheckExited { success: true },
                EventView::Launched { stdout: true },
                EventView::FirstLine,
                EventView::Listened(Err(error)),
                EventView::Killed,
            ],
        ) == Some(Err::<(), _>(error)),
{
    reveal_with_fuel(run, 6);
    let started = seq![
        EventView::CheckExited { success: true },
        EventView::Launched { stdout: true },
        EventView::FirstLine,
        EventView::Listened(Err(error)),
        EventView::Killed,
    ];
    assert(started.drop_first()[0] == EventView::Launched { stdout: true });
}

/// What is done at each point of a run that gets as far as the result of the listener.
pub proof fn law_actions(result: Result<(), AnalysisErrorView>)
    ensures
        actions(
            StageView::Checking,
            seq![
                EventView::CheckExited { success: true },
                EventView::Launched { stdout: true },
                EventView::FirstLine,
                EventView::Listened(result),
                EventView::Killed,
            ],
        ) == seq![
            ActionView::Launch,
            ActionView::AwaitFirstLine,
            ActionView::AwaitResult,
            ActionView::Kill,
            ActionView::Return(result),
        ],
        FIRST_LINE_SECONDS == 5,
{
    reveal_with_fuel(actions, 7);
    let events = seq![
        EventView::CheckExited { success: true },
        EventView::Launched { stdout: true },
        EventView::FirstLine,
        EventView::Listened(result),
        EventView::Killed,
    ];
    let rest1 = events.drop_first();
    let rest2 = rest1.drop_first();
    let rest3 = rest2.drop_first();
    let rest4 = rest3.drop_first();
    assert(rest4.drop_first() =~= Seq::empty());
    assert(actions(StageView::Checking, events) =~= seq![
        ActionView::Launch,
        ActionView::AwaitFirstLine,
        ActionView::AwaitResult,
        ActionView::Kill,
        ActionView::Return(result),
    ]);
}

/// Which events can happen at which stage.
pub proof fn law_possible_events(stage: StageView, event: EventView)
    ensures
        transition(stage, event) is Some <==> match stage {
            StageView::Checking => event is CheckFailed || event is CheckExited,
            StageView::Launching => event is LaunchFailed || event is Launched,
            StageView::AwaitingFirstLine => event is FirstLine || event is ListenerGone
                || event is TimedOut,
            StageView::AwaitingResult => event is Listened,
            StageView::Killing(_) => event is Killed,
            StageView::Finished => false,
        },
        transition(stage, event) matches Some((next, action)) ==> (next is Finished <==> action
            is Return),
{
}

/// Where no line starts with `host: `, or the first that does has no second word, there is no
/// triple.
pub proof fn law_no_host_line(text: Seq<char>)
    ensures
        (forall|i: int|
            0 <= i < lines(text).len() ==> !has_prefix(#[trigger] lines(text)[i], "host: "@))
            ==> host_triple(text) is None,
        host_triple(text) matches Some(triple) ==> exists|i: int|
            {
                &&& 0 <= i < lines(text).len()
                &&& has_prefix(#[trigger] lines(text)[i], "host: "@)
                &&& words(lines(text)[i]).len() > 1
                &&& words(lines(text)[i])[1] == triple
                &&& forall|j: int| 0 <= j < i ==> !has_prefix(#[trigger] lines(text)[j], "host: "@)
            },
        host_triple(text) is None ==> forall|i: int|
            {
                &&& 0 <= i < lines(text).len()
                &&& has_prefix(#[trigger] lines(text)[i], "host: "@)
                &&& forall|j: int| 0 <= j < i ==> !has_prefix(#[trigger] lines(text)[j], "host: "@)
            } ==> words(lines(text)[i]).len() <= 1,
{
    lemma_host_line(lines(text));
}

proof fn lemma_host_line(all: Seq<Seq<char>>)
    ensures
        match crate::analysis::toolchain::host_line(all) {
            Some(line) => exists|i: int|
                {
                    &&& 0 <= i < all.len()
                    &&& #[trigger] all[i] == line
                    &&& has_prefix(line, "host: "@)
                    &&& forall|j: int| 0 <= j < i ==> !has_prefix(#[trigger] all[j], "host: "@)
                },
            None => forall|i: int| 0 <= i < all.len() ==> !has_prefix(#[trigger] all[i], "host: "@),
        },
    decreases all.len(),
{
    if all.len() > 0 {
        if has_prefix(all[0], "host: "@) {
            assert(all[0] == crate::analysis::toolchain::host_line(all)->Some_0);
        } else {
            let rest = all.drop_first();
            lemma_host_line(rest);
            match crate::analysis::toolchain::host_line(rest) {
                Some(line) => {
                    let i = choose|i: int|
                        {
                            &&& 0 <= i < rest.len()
                            &&& #[trigger] rest[i] == line
                            &&& has_prefix(line, "host: "@)
                            &&& forall|j: int|
                                0 <= j < i ==> !has_prefix(#[trigger] rest[j], "host: "@)
                        };
                    assert(all[i + 1] == line);
                    assert forall|j: int| 0 <= j < i + 1 implies !has_prefix(
                        #[trigger] all[j],
                        "host: "@,
                    ) by {
                        if j > 0 {
                            assert(rest[j - 1] == all[j]);
                        }
                    }
                },
                None => {
                    assert forall|i: int| 0 <= i < all.len() implies !has_prefix(
                        #[trigger] all[i],
                        "host: "@,
                    ) by {
                        if i > 0 {
                            assert(rest[i - 1] == all[i]);
                        }
                    }
                },
            }
        }
    }
}

/// The triple in the path of a sysroot stands in its last component, behind the first dash; a
/// component without a dash is the triple. A path without components has none, nor has one whose
/// last component is not text.
pub proof fn law_sysroot_triple(
    parents: Seq<Option<Seq<char>>>,
    channel: Seq<char>,
    triple: Seq<char>,
)
    requires
        !channel.contains('-'),
    ensures
        toolchain_triple(parents.push(Some(channel + seq!['-'] + triple))) == Ok::<
            _,
            AnalysisErrorView,
        >(triple),
        toolchain_triple(parents.push(Some(channel))) == Ok::<_, AnalysisErrorView>(channel),
        toolchain_triple(parents.push(None)) == Err::<Seq<char>, _>(
            AnalysisErrorView::Other { cause: "extracting toolchain failed"@ },
        ),
        toolchain_triple(Seq::empty()) == Err::<Seq<char>, _>(
            AnalysisErrorView::Other { cause: "extracting toolchain failed"@ },
        ),
{
    crate::analysis::toolchain::law_toolchain_name(channel, triple);
    lemma_until_char(channel, '-');
    if crate::text::until_char(channel, '-') < channel.len() {
        assert(channel[crate::text::until_char(channel, '-')] == '-');
    }
}

/// The triple that `rustc` reports is taken as it is; without one the path of the sysroot decides.
pub proof fn law_target_triple(host: Seq<char>, sys_root_path: Seq<Option<Seq<char>>>)
    ensures
        target_triple(Some(host), sys_root_path) == Ok::<_, AnalysisErrorView>(host),
        target_triple(None, sys_root_path) == toolchain_triple(sys_root_path),
{
}

/// Where analysis data lies. Of two errors that of the sysroot comes first.
pub proof fn law_folders(
    error: AnalysisErrorView,
    host: Option<Seq<char>>,
    sys_root_path: Seq<Option<Seq<char>>>,
)
    ensures
        system_folder(Err(error), host) == Err::<FolderView, _>(error),
        target_triple(host, sys_root_path) matches Err(error) ==> system_folder(
            Ok(sys_root_path),
            host,
        ) == Err::<FolderView, _>(error),
        target_triple(host, sys_root_path) matches Ok(triple) ==> system_folder(
            Ok(sys_root_path),
            host,
        ) == Ok::<_, AnalysisErrorView>(
            FolderView {
                base: FolderBase::SysRoot,
                joins: seq!["lib"@, "rustlib"@, triple, "analysis"@],
            },
        ),
        crate_folder() == (FolderView {
            base: FolderBase::Crate,
            joins: seq!["target"@, "rls"@, "debug"@, "deps"@, "save-analysis"@],
        }),
{
}

/// Names are ordered by the first byte in which they differ; a name comes before what it is the
/// start of.
pub proof fn law_bytes_order(left: Seq<u8>, right: Seq<u8>)
    ensures
        bytes_le(left, right) <==> left.is_prefix_of(right) || exists|i: int|
            {
                &&& 0 <= i < left.len()
                &&& i < right.len()
                &&& #[trigger] left[i] < right[i]
                &&& left.take(i) == right.take(i)
            },
    decreases left.len(),
{
    if left.len() > 0 && right.len() > 0 {
        if left[0] == right[0] {
            let left_rest = left.drop_first();
            let right_rest = right.drop_first();
            law_bytes_order(left_rest, right_rest);
            if left_rest.is_prefix_of(right_rest) {
                assert forall|i: int| 0 <= i < left.len() implies left[i] == right[i] by {
                    if i > 0 {
                        assert(left_rest[i - 1] == right_rest[i - 1]);
                    }
                }
                assert(left =~= right.take(left.len() as int));
            }
            if left.is_prefix_of(right) {
                assert(left_rest =~= right_rest.take(left_rest.len() as int)) by {
                    assert forall|i: int| 0 <= i < left_rest.len() implies left_rest[i]
                        == right_rest[i] by {
                        assert(left[i + 1] == right.take(left.len() as int)[i + 1]);
                    }
                }
            }
            assert forall|i: int|
                {
                    &&& 0 <= i < left_rest.len()
                    &&& i < right_rest.len()
                    &&& #[trigger] left_rest[i] < right_rest[i]
                    &&& left_rest.take(i) == right_rest.take(i)
                } implies left[i + 1] < right[i + 1] && left.take(i + 1) == right.take(i + 1) by {
                assert(left.take(i + 1) =~= seq![left[0]] + left_rest.take(i));
                assert(right.take(i + 1) =~= seq![right[0]] + right_rest.take(i));
            }
            assert forall|i: int|
                {
                    &&& 0 <= i < left.len()
                    &&& i < right.len()
                    &&& #[trigger] left[i] < right[i]
                    &&& left.take(i) == right.take(i)
                } implies i > 0 && left_rest[i - 1] < right_rest[i - 1] && left_rest.take(i - 1)
                == right_rest.take(i - 1) by {
                assert(left_rest.take(i - 1) =~= left.take(i).drop_first());
                assert(right_rest.take(i - 1) =~= right.take(i).drop_first());
            }
        } else {
            if left.is_prefix_of(right) {
                assert(left[0] == right.take(left.len() as int)[0]);
            }
            assert(left.take(0) =~= right.take(0));
            assert forall|i: int|
                {
                    &&& 0 <= i < left.len()
                    &&& i < right.len()
                    &&& #[trigger] left[i] < right[i]
                    &&& left.take(i) == right.take(i)
                } implies i == 0 by {
                if i > 0 {
                    assert(left.take(i)[0] == right.take(i)[0]);
                }
            }
        }
    } else if left.len() == 0 {
        assert(left =~= right.take(0));
    }
}

/// Components are ordered by what they are, then by their names; of a prefix with two names the
/// second decides where the first are the same.
pub proof fn law_component_order(left: ComponentView, right: ComponentView)
    ensures
        left.kind < right.kind ==> component_le(left, right) && !component_le(right, left),
        left.kind == right.kind && left.head != right.head ==> component_le(left, right)
            == bytes_le(left.head, right.head),
        left.kind == right.kind && left.head == right.head ==> component_le(left, right)
            == bytes_le(left.tail, right.tail),
{
}

/// Prefixes come before the root directory, and then come `.`, `..` and names. A component keeps
/// its names.
pub proof fn law_components(prefix: u8, head: Vec<u8>, tail: Vec<u8>)
    ensures
        ({
            let drive = Component::Prefix { kind: prefix, head, tail };
            &&& drive@.kind < Component::RootDir@.kind
            &&& Component::RootDir@.kind < Component::CurDir@.kind
            &&& Component::CurDir@.kind < Component::ParentDir@.kind
            &&& Component::ParentDir@.kind < Component::Normal(head)@.kind
            &&& drive@ == (ComponentView { kind: prefix as int, head: head@, tail: tail@ })
            &&& Component::Normal(head)@.head == head@
            &&& Component::Normal(head)@ == ComponentView::normal(head@)
        }),
{
}

/// Paths are ordered by the first component in which they differ; a directory comes before what
/// lies in it.
pub proof fn law_path_differs(left: Seq<ComponentView>, right: Seq<ComponentView>)
    ensures
        path_le(left, right) <==> left.is_prefix_of(right) || exists|i: int|
            {
                &&& 0 <= i < left.len()
                &&& i < right.len()
                &&& left[i] != right[i]
                &&& #[trigger] component_le(left[i], right[i])
                &&& left.take(i) == right.take(i)
            },
    decreases left.len(),
{
    if left.len() > 0 && right.len() > 0 {
        if left[0] == right[0] {
            let left_rest = left.drop_first();
            let right_rest = right.drop_first();
            law_path_differs(left_rest, right_rest);
            if left_rest.is_prefix_of(right_rest) {
                assert forall|i: int| 0 <= i < left.len() implies left[i] == right[i] by {
                    if i > 0 {
                        assert(left_rest[i - 1] == right_rest[i - 1]);
                    }
                }
                assert(left =~= right.take(left.len() as int));
            }
            if left.is_prefix_of(right) {
                assert(left_rest =~= right_rest.take(left_rest.len() as int)) by {
                    assert forall|i: int| 0 <= i < left_rest.len() implies left_rest[i]
                        == right_rest[i] by {
                        assert(left[i + 1] == right.take(left.len() as int)[i + 1]);
                    }
                }
            }
            assert forall|i: int|
                {
                    &&& 0 <= i < left_rest.len()
                    &&& i < right_rest.len()
                    &&& left_rest[i] != right_rest[i]
                    &&& #[trigger] component_le(left_rest[i], right_rest[i])
                    &&& left_rest.take(i) == right_rest.take(i)
                } implies left[i + 1] != right[i + 1] && component_le(left[i + 1], right[i + 1])
                && left.take(i + 1) == right.take(i + 1) by {
                assert(left.take(i + 1) =~= seq![left[0]] + left_rest.take(i));
                assert(right.take(i + 1) =~= seq![right[0]] + right_rest.take(i));
            }
            assert forall|i: int|
                {
                    &&& 0 <= i < left.len()
                    &&& i < right.len()
                    &&& left[i] != right[i]
                    &&& #[trigger] component_le(left[i], right[i])
                    &&& left.take(i) == right.take(i)
                } implies i > 0 && component_le(left_rest[i - 1], right_rest[i - 1])
                && left_rest.take(i - 1) == right_rest.take(i - 1) by {
                assert(left_rest.take(i - 1) =~= left.take(i).drop_first());
                assert(right_rest.take(i - 1) =~= right.take(i).drop_first());
            }
        } else {
            if left.is_prefix_of(right) {
                assert(left[0] == right.take(left.len() as int)[0]);
            }
            assert(left.take(0) =~= right.take(0));
            assert forall|i: int|
                {
                    &&& 0 <= i < left.len()
                    &&& i < right.len()
                    &&& left[i] != right[i]
                    &&& #[trigger] component_le(left[i], right[i])
                    &&& left.take(i) == right.take(i)
                } implies i == 0 by {
                if i > 0 {
                    assert(left.take(i)[0] == right.take(i)[0]);
                }
            }
            if component_le(left[0], right[0]) {
                assert(component_le(left[0], right[0]) && left.take(0) == right.take(0));
            }
        }
    } else if left.len() == 0 {
        assert(left =~= right.take(0));
    }
}

/// The files with the extension `json` are those whose last component is a name that ends in
/// `.json` and has something before that.
pub proof fn law_json_files(path: Seq<ComponentView>)
    ensures
        is_json(path) <==> {
            &&& path.len() > 0
            &&& path.last().kind == ComponentView::normal(path.last().head).kind
            &&& path.last().head.len() > 5
            &&& path.last().head.skip(path.last().head.len() - 5) == seq![46u8, 106, 115, 111, 110]
        },
        ComponentView::normal(Seq::empty()).kind == 259,
{
    let json = seq![106u8, 115, 111, 110];
    let dotted = seq![46u8, 106, 115, 111, 110];
    assert(dotted =~= seq![46u8] + json);
    if path.len() > 0 {
        let name = path.last().head;
        lemma_last_dot_is_a_dot(name);
        if is_json(path) {
            let rest = name.skip(last_dot(name) + 1);
            assert(rest =~= json);
            assert(name.len() == last_dot(name) + 5);
            let tail = name.skip(name.len() - 5);
            assert forall|i: int| 0 <= i < 5 implies tail[i] == dotted[i] by {
                if i > 0 {
                    assert(tail[i] == rest[i - 1]);
                }
            }
            assert(tail =~= dotted);
        }
        if path.last().kind == ComponentView::normal(name).kind && name.len() > 5 && name.skip(
            name.len() - 5,
        ) == dotted {
            let stem = name.take(name.len() - 5);
            assert(!json.contains(46));
            let directory = path.drop_last();
            crate::analysis::targets::law_extension(directory, stem, json);
            let whole = stem + seq![46u8] + json;
            assert forall|i: int| 0 <= i < name.len() implies name[i] == whole[i] by {
                if i >= name.len() - 5 {
                    assert(name[i] == dotted[i - (name.len() - 5)]);
                }
            }
            assert(name =~= whole);
            let named = directory.push(ComponentView::normal(whole));
            assert(named.last().head == path.last().head);
            assert(named.last().kind == path.last().kind);
        }
    }
}

proof fn lemma_last_dot_is_a_dot(name: Seq<u8>)
    ensures
        -1 <= last_dot(name) < name.len(),
        last_dot(name) >= 0 ==> name[last_dot(name)] == 46,
    decreases name.len(),
{
    if name.len() > 0 && name.last() != 46 {
        lemma_last_dot_is_a_dot(name.drop_last());
    }
}

/// The directories fail with the failure of the first that fails: one that is not there, or that
/// could not be listed.
pub proof fn law_first_failure(listings: Seq<Listing>)
    ensures
        first_failure(listings) is None <==> forall|i: int|
            0 <= i < listings.len() ==> (#[trigger] listings[i]).is_dir
                && listings[i].entries is Ok,
        first_failure(listings) matches Some(error) ==> exists|i: int|
            {
                &&& 0 <= i < listings.len()
                &&& forall|j: int|
                    0 <= j < i ==> (#[trigger] listings[j]).is_dir && listings[j].entries is Ok
                &&& if !(#[trigger] listings[i]).is_dir {
                    error == (AnalysisErrorView::MissingSaveAnalysis { dir: listings[i].dir@ })
                } else {
                    listings[i].entries matches Err(message) && error == AnalysisErrorView::Io(
                        message@,
                    )
                }
            },
    decreases listings.len(),
{
    if listings.len() > 0 {
        let init = listings.drop_last();
        law_first_failure(init);
        assert forall|i: int| 0 <= i < init.len() implies init[i] == #[trigger] listings[i] by {}
        if first_failure(init) is None {
            assert forall|i: int| 0 <= i < init.len() implies (#[trigger] listings[i]).is_dir
                && listings[i].entries is Ok by {
                assert(init[i].is_dir && init[i].entries is Ok);
            }
            let last = listings.len() - 1;
            assert(listings[last] == listings.last());
        } else {
            let error = first_failure(init)->Some_0;
            let i = choose|i: int|
                {
                    &&& 0 <= i < init.len()
                    &&& forall|j: int|
                        0 <= j < i ==> (#[trigger] init[j]).is_dir && init[j].entries is Ok
                    &&& if !(#[trigger] init[i]).is_dir {
                        error == (AnalysisErrorView::MissingSaveAnalysis { dir: init[i].dir@ })
                    } else {
                        init[i].entries matches Err(message) && error == AnalysisErrorView::Io(
                            message@,
                        )
                    }
                };
            assert(listings[i] == init[i]);
            assert forall|j: int| 0 <= j < i implies (#[trigger] listings[j]).is_dir
                && listings[j].entries is Ok by {
                assert(init[j].is_dir && init[j].entries is Ok);
            }
        }
    }
}

/// Files are chosen one by one: what is chosen of two lists is what is chosen of each, and a single
/// file is chosen where it has the extension `json`.
pub proof fn law_json_entries(first: Seq<Entry>, second: Seq<Entry>, entry: Entry)
    ensures
        json_entries(first + second) == json_entries(first) + json_entries(second),
        is_json(entry@.path) ==> json_entries(seq![entry]) == seq![entry],
        !is_json(entry@.path) ==> json_entries(seq![entry]) == Seq::<Entry>::empty(),
        json_entries(Seq::empty()) == Seq::<Entry>::empty(),
    decreases second.len(),
{
    reveal_with_fuel(json_entries, 2);
    assert(seq![entry].drop_last() =~= Seq::empty());
    assert(Seq::empty().push(entry) =~= seq![entry]);
    if second.len() == 0 {
        assert(first + second =~= first);
        assert(json_entries(first) + json_entries(second) =~= json_entries(first));
    } else {
        assert((first + second).drop_last() =~= first + second.drop_last());
        assert((first + second).last() == second.last());
        law_json_entries(first, second.drop_last(), entry);
        assert(json_entries(first + second) =~= json_entries(first) + json_entries(second));
    }
}

/// Directories are searched one by one, whatever the others hold: what is chosen of several is what
/// is chosen of each, one after the other.
pub proof fn law_listed_json(first: Seq<Listing>, second: Seq<Listing>, listing: Listing)
    ensures
        listed_json(first + second) == listed_json(first) + listed_json(second),
        listing.entries matches Ok(entries) ==> listed_json(seq![listing])
            == json_entries(entries@),
        listed_json(Seq::empty()) == Seq::<Entry>::empty(),
    decreases second.len(),
{
    reveal_with_fuel(listed_json, 2);
    assert(seq![listing].drop_last() =~= Seq::empty());
    if listing.entries is Ok {
        let entries = listing.entries->Ok_0@;
        assert(Seq::empty() + json_entries(entries) =~= json_entries(entries));
    }
    if second.len() == 0 {
        assert(first + second =~= first);
        assert(listed_json(first) + listed_json(second) =~= listed_json(first));
    } else {
        assert((first + second).drop_last() =~= first + second.drop_last());
        assert((first + second).last() == second.last());
        law_listed_json(first, second.drop_last(), listing);
        assert(listed_json(first + second) =~= listed_json(first) + listed_json(second));
    }
}

proof fn lemma_json_entries_contains(entries: Seq<Entry>, entry: Entry)
    ensures
        json_entries(entries).contains(entry) <==> entries.contains(entry) && is_json(entry@.path),
    decreases entries.len(),
{
    if entries.len() > 0 {
        let init = entries.drop_last();
        lemma_json_entries_contains(init, entry);
        if init.contains(entry) {
            let i = init.index_of(entry);
            assert(entries[i] == entry);
        }
        if entries.contains(entry) {
            let i = entries.index_of(entry);
            if i < init.len() {
                assert(init[i] == entry);
            }
        }
        assert(entries[entries.len() - 1] == entries.last());
        if is_json(entries.last()@.path) {
            let found = json_entries(init);
            let all = found.push(entries.last());
            assert(all[found.len() as int] == entries.last());
            if found.contains(entry) {
                let k = found.index_of(entry);
                assert(all[k] == entry);
            }
            if all.contains(entry) {
                let k = all.index_of(entry);
                if k < found.len() {
                    assert(found[k] == entry);
                }
            }
        }
    }
}

/// A file is chosen exactly where it stands in some directory and has the extension `json`.
pub proof fn law_chosen_files(listings: Seq<Listing>, entry: Entry)
    ensures
        listed_json(listings).contains(entry) <==> is_json(entry@.path) && exists|i: int|
            {
                &&& 0 <= i < listings.len()
                &&& (#[trigger] listings[i]).entries matches Ok(entries)
                &&& entries@.contains(entry)
            },
    decreases listings.len(),
{
    if listings.len() > 0 {
        let init = listings.drop_last();
        let last = listings.last();
        law_chosen_files(init, entry);
        let found = listed_json(init);
        let more = match last.entries {
            Ok(entries) => json_entries(entries@),
            Err(_) => Seq::empty(),
        };
        if last.entries is Ok {
            lemma_json_entries_contains(last.entries->Ok_0@, entry);
        }
        law_listed_json(init, seq![last], last);
        assert(init + seq![last] =~= listings);
        let all = found + more;
        if found.contains(entry) {
            let k = found.index_of(entry);
            assert(all[k] == entry);
            let i = choose|i: int|
                {
                    &&& 0 <= i < init.len()
                    &&& (#[trigger] init[i]).entries matches Ok(entries)
                    &&& entries@.contains(entry)
                };
            assert(listings[i] == init[i]);
        }
        if more.contains(entry) {
            let k = more.index_of(entry);
            assert(all[found.len() + k] == entry);
            assert(listings[listings.len() - 1] == last);
        }
        if all.contains(entry) {
            let k = all.index_of(entry);
            if k < found.len() {
                assert(found[k] == entry);
            } else {
                assert(more[k - found.len()] == entry);
            }
        }
        assert forall|i: int|
            {
                &&& 0 <= i < listings.len()
                &&& (#[trigger] listings[i]).entries matches Ok(entries)
                &&& entries@.contains(entry)
            } && is_json(entry@.path) implies all.contains(entry) by {
            if i < init.len() {
                assert(init[i] == listings[i]);
            }
        }
        assert(listed_json(listings) =~= all);
    }
}

/// Files are in order where of any two the earlier one does not come after the later.
pub proof fn law_files_in_order(entries: Seq<Entry>)
    ensures
        in_path_order(entries) <==> forall|i: int, j: int|
            #![trigger entries[i], entries[j]]
            0 <= i <= j < entries.len() ==> path_le(entries[i]@.path, entries[j]@.path),
{
    assert forall|i: int|
        #![trigger entries[i]]
        0 <= i < entries.len() implies path_le(entries[i]@.path, entries[i]@.path) by {
        crate::analysis::targets::law_path_order(
            entries[i]@.path,
            entries[i]@.path,
            entries[i]@.path,
        );
    }
}

/// Good values are kept one by one: what is kept of two lists is what is kept of each, a value is
/// kept as it is, and of an error nothing is kept.
pub proof fn law_good_values<T, E>(
    first: Seq<Result<T, E>>,
    second: Seq<Result<T, E>>,
    value: T,
    error: E,
)
    ensures
        good_values(first + second) == good_values(first) + good_values(second),
        good_values(seq![Ok::<T, E>(value)]) == seq![value],
        good_values(seq![Err::<T, E>(error)]) == Seq::<T>::empty(),
        good_values(Seq::<Result<T, E>>::empty()) == Seq::<T>::empty(),
    decreases second.len(),
{
    reveal_with_fuel(good_values, 2);
    assert(seq![Ok::<T, E>(value)].drop_last() =~= Seq::empty());
    assert(seq![Err::<T, E>(error)].drop_last() =~= Seq::empty());
    assert(Seq::empty().push(value) =~= seq![value]);
    if second.len() == 0 {
        assert(first + second =~= first);
        assert(good_values(first) + good_values(second) =~= good_values(first));
    } else {
        assert((first + second).drop_last() =~= first + second.drop_last());
        assert((first + second).last() == second.last());
        law_good_values(first, second.drop_last(), value, error);
        assert(good_values(first + second) =~= good_values(first) + good_values(second));
    }
}

} // verus!
