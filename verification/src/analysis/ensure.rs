//! Making sure that analysis data is there and up to date.
//!
//! `cargo check` is run first, then the language server. A listener reads what the server prints,
//! and announces the first line to the side that waits for it. Once the server runs it is killed
//! before anything is returned.

use vstd::prelude::*;

use crate::analysis::error::{outcome, AnalysisError, AnalysisErrorView};
use crate::analysis::progress::{line_is_done, line_says_done};

verus! {

/// How many seconds the server may take until its first line.
pub const FIRST_LINE_SECONDS: u64 = 5;

/// What the listener gets from the server's output.
#[derive(Debug)]
pub enum Heard {
    /// A line, and whether it says that the build is done.
    Line { done: bool },
    /// The output could not be read; the message says why.
    Failed(String),
    /// The output is over.
    Ended,
}

/// What a [`Heard`] says.
pub enum HeardView {
    Line { done: bool },
    Failed(Seq<char>),
    Ended,
}

impl View for Heard {
    type V = HeardView;

    open spec fn view(&self) -> HeardView {
        match self {
            Heard::Line { done } => HeardView::Line { done: *done },
            Heard::Failed(message) => HeardView::Failed(message@),
            Heard::Ended => HeardView::Ended,
        }
    }
}

/// What the listener does after it heard something: `None` to go on, otherwise its result. The
/// first time that it reads the output it announces that, unless the output is over: if nobody
/// waits for the announcement, as `alive` says, the listener fails. It also fails where the output
/// is over before a line said that the build is done.
pub open spec fn reaction(announced: bool, alive: bool, heard: HeardView) -> Option<
    Result<(), AnalysisErrorView>,
> {
    if heard is Ended {
        Some(Err(AnalysisErrorView::Other { cause: "rls stopped before the build was done"@ }))
    } else if !announced && !alive {
        Some(Err(AnalysisErrorView::Other { cause: "rx died"@ }))
    } else {
        match heard {
            HeardView::Failed(message) => Some(Err(AnalysisErrorView::Io(message))),
            HeardView::Line { done: true } => Some(Ok(())),
            _ => None,
        }
    }
}

/// What an optional result says.
pub open spec fn option_outcome(result: Option<Result<(), AnalysisError>>) -> Option<
    Result<(), AnalysisErrorView>,
> {
    match result {
        Some(result) => Some(outcome(result)),
        None => None,
    }
}

/// The side that reads what the server prints.
#[derive(Debug)]
pub struct Listener {
    /// Whether it was announced that there is output.
    pub announced: bool,
}

impl Listener {
    /// The listener that has read nothing yet.
    pub fn new() -> (listener: Self)
        ensures
            !listener.announced,
    {
        Listener { announced: false }
    }

    /// Takes in what was heard: `None` to go on, otherwise the result. `alive` says whether the
    /// announcement reached somebody, and matters the first time only.
    pub fn listen(&mut self, heard: Heard, alive: bool) -> (result: Option<
        Result<(), AnalysisError>,
    >)
        ensures
            option_outcome(result) == reaction(old(self).announced, alive, heard@),
            final(self).announced == (old(self).announced || !(heard is Ended)),
    {
        match heard {
            Heard::Ended => Some(
                Err(AnalysisError::other("rls stopped before the build was done")),
            ),
            _ => {
                let announced = self.announced;
                self.announced = true;
                if !announced && !alive {
                    return Some(Err(AnalysisError::other("rx died")));
                }
                match heard {
                    Heard::Failed(message) => Some(Err(AnalysisError::Io(message))),
                    Heard::Line { done } => if done {
                        Some(Ok(()))
                    } else {
                        None
                    },
                    Heard::Ended => None,
                }
            },
        }
    }

    /// Takes in a line of output.
    pub fn listen_to_line(&mut self, line: &str, alive: bool) -> (result: Option<
        Result<(), AnalysisError>,
    >)
        ensures
            option_outcome(result) == reaction(
                old(self).announced,
                alive,
                (HeardView::Line { done: line_says_done(line@) }),
            ),
            final(self).announced,
    {
        self.listen(Heard::Line { done: line_is_done(line) }, alive)
    }
}

/// How far the work has come.
#[derive(Debug)]
pub enum Stage {
    /// `cargo check` runs.
    Checking,
    /// The language server is started.
    Launching,
    /// The server runs, and its first line is waited for.
    AwaitingFirstLine,
    /// The result of the listener is waited for.
    AwaitingResult,
    /// The server is killed; what is returned after that is known.
    Killing(Result<(), AnalysisError>),
    /// There is nothing left to do.
    Finished,
}

/// What a [`Stage`] says.
pub enum StageView {
    Checking,
    Launching,
    AwaitingFirstLine,
    AwaitingResult,
    Killing(Result<(), AnalysisErrorView>),
    Finished,
}

impl View for Stage {
    type V = StageView;

    open spec fn view(&self) -> StageView {
        match self {
            Stage::Checking => StageView::Checking,
            Stage::Launching => StageView::Launching,
            Stage::AwaitingFirstLine => StageView::AwaitingFirstLine,
            Stage::AwaitingResult => StageView::AwaitingResult,
            Stage::Killing(result) => StageView::Killing(outcome(*result)),
            Stage::Finished => StageView::Finished,
        }
    }
}

/// What happened to the work that was going on.
#[derive(Debug)]
pub enum Event {
    /// `cargo check` could not be run; the message says why.
    CheckFailed(String),
    /// `cargo check` ran.
    CheckExited { success: bool },
    /// The server could not be started; the message says why.
    LaunchFailed(String),
    /// The server was started, with or without an output to read.
    Launched { stdout: bool },
    /// The listener announced the first line.
    FirstLine,
    /// The listener went away without announcing a line.
    ListenerGone,
    /// The first line took too long; the message says so.
    TimedOut(String),
    /// The listener came to its result.
    Listened(Result<(), AnalysisError>),
    /// The server was killed, or was gone already.
    Killed,
}

/// What an [`Event`] says.
pub enum EventView {
    CheckFailed(Seq<char>),
    CheckExited { success: bool },
    LaunchFailed(Seq<char>),
    Launched { stdout: bool },
    FirstLine,
    ListenerGone,
    TimedOut(Seq<char>),
    Listened(Result<(), AnalysisErrorView>),
    Killed,
}

impl View for Event {
    type V = EventView;

    open spec fn view(&self) -> EventView {
        match self {
            Event::CheckFailed(message) => EventView::CheckFailed(message@),
            Event::CheckExited { success } => EventView::CheckExited { success: *success },
            Event::LaunchFailed(message) => EventView::LaunchFailed(message@),
            Event::Launched { stdout } => EventView::Launched { stdout: *stdout },
            Event::FirstLine => EventView::FirstLine,
            Event::ListenerGone => EventView::ListenerGone,
            Event::TimedOut(message) => EventView::TimedOut(message@),
            Event::Listened(result) => EventView::Listened(outcome(*result)),
            Event::Killed => EventView::Killed,
        }
    }
}

/// What is to be done next.
#[derive(Debug)]
pub enum Action {
    /// Start the language server.
    Launch,
    /// Start the listener, and wait for its first line.
    AwaitFirstLine,
    /// Wait for the result of the listener.
    AwaitResult,
    /// Kill the language server.
    Kill,
    /// Return.
    Return(Result<(), AnalysisError>),
}

/// What an [`Action`] says.
pub enum ActionView {
    Launch,
    AwaitFirstLine,
    AwaitResult,
    Kill,
    Return(Result<(), AnalysisErrorView>),
}

impl View for Action {
    type V = ActionView;

    open spec fn view(&self) -> ActionView {
        match self {
            Action::Launch => ActionView::Launch,
            Action::AwaitFirstLine => ActionView::AwaitFirstLine,
            Action::AwaitResult => ActionView::AwaitResult,
            Action::Kill => ActionView::Kill,
            Action::Return(result) => ActionView::Return(outcome(*result)),
        }
    }
}

/// The stage and the action that follow an event; `None` where the event cannot happen at the
/// stage.
pub open spec fn transition(stage: StageView, event: EventView) -> Option<(StageView, ActionView)> {
    match (stage, event) {
        (StageView::Checking, EventView::CheckFailed(message)) => finishes(
            Err(AnalysisErrorView::Io(message)),
        ),
        (StageView::Checking, EventView::CheckExited { success: false }) => finishes(
            Err(AnalysisErrorView::CargoCheckFailed),
        ),
        (StageView::Checking, EventView::CheckExited { success: true }) => Some(
            (StageView::Launching, ActionView::Launch),
        ),
        (StageView::Launching, EventView::LaunchFailed(message)) => finishes(
            Err(AnalysisErrorView::Io(message)),
        ),
        (StageView::Launching, EventView::Launched { stdout: false }) => kills(
            Err(AnalysisErrorView::Other { cause: "can't get rls stdout"@ }),
        ),
        (StageView::Launching, EventView::Launched { stdout: true }) => Some(
            (StageView::AwaitingFirstLine, ActionView::AwaitFirstLine),
        ),
        (StageView::AwaitingFirstLine, EventView::ListenerGone) => kills(
            Err(AnalysisErrorView::Other { cause: "listener died"@ }),
        ),
        (StageView::AwaitingFirstLine, EventView::TimedOut(message)) => kills(
            Err(AnalysisErrorView::Io(message)),
        ),
        (StageView::AwaitingFirstLine, EventView::FirstLine) => Some(
            (StageView::AwaitingResult, ActionView::AwaitResult),
        ),
        (StageView::AwaitingResult, EventView::Listened(result)) => kills(result),
        (StageView::Killing(result), EventView::Killed) => finishes(result),
        _ => None,
    }
}

/// The work is over, with the given result.
pub open spec fn finishes(result: Result<(), AnalysisErrorView>) -> Option<
    (StageView, ActionView),
> {
    Some((StageView::Finished, ActionView::Return(result)))
}

/// The server is killed before the given result is returned.
pub open spec fn kills(result: Result<(), AnalysisErrorView>) -> Option<(StageView, ActionView)> {
    Some((StageView::Killing(result), ActionView::Kill))
}

/// What an optional stage and action say.
pub open spec fn step_view(step: Option<(Stage, Action)>) -> Option<(StageView, ActionView)> {
    match step {
        Some((stage, action)) => Some((stage@, action@)),
        None => None,
    }
}

/// Stops the work before the server runs.
fn stop(error: AnalysisError) -> (next: Option<(Stage, Action)>)
    ensures
        step_view(next) == finishes(Err(error@)),
{
    Some((Stage::Finished, Action::Return(Err(error))))
}

/// Has the server killed before `result` is returned.
fn kill(result: Result<(), AnalysisError>) -> (next: Option<(Stage, Action)>)
    ensures
        step_view(next) == kills(outcome(result)),
{
    Some((Stage::Killing(result), Action::Kill))
}

/// Says what to do after an event: the stage that follows, and the next action. `None` where the
/// event cannot happen at the stage.
pub fn ensure_analysis(stage: Stage, event: Event) -> (next: Option<(Stage, Action)>)
    ensures
        step_view(next) == transition(stage@, event@),
{
    match (stage, event) {
        (Stage::Checking, Event::CheckFailed(message)) => stop(AnalysisError::Io(message)),
        (Stage::Checking, Event::CheckExited { success }) => if success {
            Some((Stage::Launching, Action::Launch))
        } else {
            stop(AnalysisError::CargoCheckFailed)
        },
        (Stage::Launching, Event::LaunchFailed(message)) => stop(AnalysisError::Io(message)),
        (Stage::Launching, Event::Launched { stdout }) => if stdout {
            Some((Stage::AwaitingFirstLine, Action::AwaitFirstLine))
        } else {
            kill(Err(AnalysisError::other("can't get rls stdout")))
        },
        (Stage::AwaitingFirstLine, Event::ListenerGone) => kill(
            Err(AnalysisError::other("listener died")),
        ),
        (Stage::AwaitingFirstLine, Event::TimedOut(message)) => kill(
            Err(AnalysisError::Io(message)),
        ),
        (Stage::AwaitingFirstLine, Event::FirstLine) => Some(
            (Stage::AwaitingResult, Action::AwaitResult),
        ),
        (Stage::AwaitingResult, Event::Listened(result)) => kill(result),
        (Stage::Killing(result), Event::Killed) => Some((Stage::Finished, Action::Return(result))),
        _ => None,
    }
}

/// The result after a sequence of events, if the work is over after exactly these.
pub open spec fn run(stage: StageView, events: Seq<EventView>) -> Option<
    Result<(), AnalysisErrorView>,
>
    decreases events.len(),
{
    if events.len() == 0 {
        None
    } else {
        match transition(stage, events[0]) {
            Some((_, ActionView::Return(result))) => if events.len() == 1 {
                Some(result)
            } else {
                None
            },
            Some((next, _)) => run(next, events.drop_first()),
            None => None,
        }
    }
}

/// The actions that a sequence of events leads to, up to an event that cannot happen.
pub open spec fn actions(stage: StageView, events: Seq<EventView>) -> Seq<ActionView>
    decreases events.len(),
{
    if events.len() == 0 {
        Seq::empty()
    } else {
        match transition(stage, events[0]) {
            Some((next, action)) => seq![action] + actions(next, events.drop_first()),
            None => Seq::empty(),
        }
    }
}

/// The work succeeds in one way only: `cargo check` succeeds, the server starts with an output to
/// read, the listener announces a line and comes to success, and the server is killed.
pub proof fn law_success(events: Seq<EventView>)
    ensures
        run(StageView::Checking, events) == Some(Ok::<(), AnalysisErrorView>(())) <==> events
            == seq![
            EventView::CheckExited { success: true },
            EventView::Launched { stdout: true },
            EventView::FirstLine,
            EventView::Listened(Ok(())),
            EventView::Killed,
        ],
{
    reveal_with_fuel(run, 6);
    let wanted = seq![
        EventView::CheckExited { success: true },
        EventView::Launched { stdout: true },
        EventView::FirstLine,
        EventView::Listened(Ok(())),
        EventView::Killed,
    ];
    if run(StageView::Checking, events) == Some(Ok::<(), AnalysisErrorView>(())) {
        let rest = events.drop_first().drop_first().drop_first().drop_first();
        assert(rest[0] == EventView::Killed);
        assert(rest.drop_first().len() == 0);
        assert(events =~= wanted);
    }
}

/// No work takes more than five events.
pub proof fn law_five_events(events: Seq<EventView>)
    requires
        run(StageView::Checking, events) is Some,
    ensures
        events.len() <= 5,
{
    reveal_with_fuel(run, 7);
}

/// Once the work is over nothing happens any more.
pub proof fn law_finished(event: EventView)
    ensures
        transition(StageView::Finished, event) is None,
{
}

/// The server is started at most once, and only after `cargo check` succeeded. If it was started
/// it is killed once, whatever the result, right before the result is returned; if it was not,
/// nothing is killed.
pub proof fn law_server_is_killed(events: Seq<EventView>)
    requires
        run(StageView::Checking, events) is Some,
    ensures
        ({
            let taken = actions(StageView::Checking, events);
            let started = exists|i: int|
                0 <= i < events.len() && #[trigger] events[i] is Launched;
            &&& taken.len() == events.len()
            &&& taken.last() == ActionView::Return(run(StageView::Checking, events)->Some_0)
            &&& forall|i: int|
                0 <= i < taken.len() && #[trigger] taken[i] is Launch ==> i == 0 && events[0] == (
                EventView::CheckExited { success: true })
            &&& forall|i: int|
                0 <= i < taken.len() ==> (#[trigger] taken[i] is Kill <==> started && i
                    == taken.len() - 2)
            &&& started ==> taken.len() >= 2
        }),
{
    reveal_with_fuel(run, 7);
    reveal_with_fuel(actions, 7);
    law_five_events(events);
    let taken = actions(StageView::Checking, events);
    let rest1 = events.drop_first();
    let rest2 = rest1.drop_first();
    let rest3 = rest2.drop_first();
    let rest4 = rest3.drop_first();
    assert(events.len() > 1 ==> rest1[0] == events[1]);
    assert(events.len() > 2 ==> rest2[0] == events[2]);
    assert(events.len() > 3 ==> rest3[0] == events[3]);
    assert(events.len() > 4 ==> rest4[0] == events[4]);
    assert(events.len() > 1 ==> events[1] is Launched || events[1] is LaunchFailed);
}

/// The result of a listener that hears the given things in turn, and whether it announced that
/// there is output.
pub open spec fn overhear(announced: bool, alive: bool, heard: Seq<HeardView>) -> (
    Option<Result<(), AnalysisErrorView>>,
    bool,
)
    decreases heard.len(),
{
    if heard.len() == 0 {
        (None, announced)
    } else {
        let now = announced || !(heard[0] is Ended);
        match reaction(announced, alive, heard[0]) {
            Some(result) => (Some(result), now),
            None => overhear(now, alive, heard.drop_first()),
        }
    }
}

/// A listener passes over lines that do not say that the build is done, however many there are:
/// what comes after them decides.
pub proof fn law_listener_waits(alive: bool, heard: Seq<HeardView>, last: HeardView)
    requires
        forall|i: int|
            0 <= i < heard.len() ==> #[trigger] heard[i] == (HeardView::Line { done: false }),
        alive,
    ensures
        overhear(false, alive, heard) == (
            None::<Result<(), AnalysisErrorView>>,
            heard.len() > 0,
        ),
        overhear(false, alive, heard.push(last)).0 == reaction(true, alive, last),
{
    lemma_listener_waits(false, alive, heard, last);
}

proof fn lemma_listener_waits(
    announced: bool,
    alive: bool,
    heard: Seq<HeardView>,
    last: HeardView,
)
    requires
        forall|i: int|
            0 <= i < heard.len() ==> #[trigger] heard[i] == (HeardView::Line { done: false }),
        alive,
    ensures
        overhear(announced, alive, heard) == (
            None::<Result<(), AnalysisErrorView>>,
            announced || heard.len() > 0,
        ),
        overhear(announced, alive, heard.push(last)).0 == reaction(true, alive, last),
    decreases heard.len(),
{
    if heard.len() > 0 {
        lemma_listener_waits(true, alive, heard.drop_first(), last);
        assert(heard.push(last)[0] == heard[0]);
        assert(heard.push(last).drop_first() =~= heard.drop_first().push(last));
    } else {
        reveal_with_fuel(overhear, 2);
        assert(heard.push(last)[0] == last);
        assert(heard.push(last).drop_first() =~= Seq::empty());
    }
}

/// A listener whose output is over at once fails, and announces nothing.
pub proof fn law_silence(alive: bool, rest: Seq<HeardView>)
    ensures
        overhear(false, alive, seq![HeardView::Ended] + rest).0 matches Some(Err(_)),
        !overhear(false, alive, seq![HeardView::Ended] + rest).1,
{
    assert((seq![HeardView::Ended] + rest)[0] == HeardView::Ended);
}

/// A listener succeeds only after a line that says that the build is done.
pub proof fn law_done_was_heard(announced: bool, alive: bool, heard: Seq<HeardView>)
    requires
        overhear(announced, alive, heard).0 == Some(Ok::<(), AnalysisErrorView>(())),
    ensures
        exists|i: int| 0 <= i < heard.len() && heard[i] == (HeardView::Line { done: true }),
    decreases heard.len(),
{
    let now = announced || !(heard[0] is Ended);
    if reaction(announced, alive, heard[0]) is None {
        law_done_was_heard(now, alive, heard.drop_first());
        let i = choose|i: int|
            0 <= i < heard.drop_first().len() && heard.drop_first()[i] == (HeardView::Line {
                done: true,
            });
        assert(heard[i + 1] == (HeardView::Line { done: true }));
    } else {
        assert(heard[0] == (HeardView::Line { done: true }));
    }
}

/// Success means that analysis data is up to date: `cargo check` succeeded, and the server printed
/// a line that says that the build is done. `heard` is what the listener heard of the server.
pub proof fn law_success_is_up_to_date(
    events: Seq<EventView>,
    alive: bool,
    heard: Seq<HeardView>,
)
    requires
        run(StageView::Checking, events) == Some(Ok::<(), AnalysisErrorView>(())),
        forall|i: int|
            0 <= i < events.len() ==> (#[trigger] events[i] matches EventView::Listened(result)
                ==> overhear(false, alive, heard).0 == Some(result)),
    ensures
        events.contains(EventView::CheckExited { success: true }),
        exists|i: int| 0 <= i < heard.len() && heard[i] == (HeardView::Line { done: true }),
{
    law_success(events);
    assert(events[0] == (EventView::CheckExited { success: true }));
    assert(events[3] == EventView::Listened(Ok(())));
    law_done_was_heard(false, alive, heard);
}

} // verus!
