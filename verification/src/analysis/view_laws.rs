//! What values say: nothing of them is left out.

use vstd::prelude::*;

use crate::analysis::ensure::{
    option_outcome, step_view, Action, ActionView, Event, EventView, Heard, HeardView, Stage,
    StageView,
};
use crate::analysis::error::{outcome, AnalysisError, AnalysisErrorView};
use crate::analysis::json::{json_view, Json, JsonView};
use crate::analysis::targets::{
    component_views, entry_paths, fetch_failure, first_failure, listing_failure, Component, Entry,
    Listing,
};
use crate::analysis::toolchain::{
    component_texts, folder_outcome, option_text, sys_root_view, text_outcome, Folder,
};
use crate::text::string_views;

verus! {

/// An error says which it is, with its whole text.
pub proof fn law_error_says(error: AnalysisError)
    ensures
        match error {
            AnalysisError::Io(message) => error@ == AnalysisErrorView::Io(message@),
            AnalysisError::CargoCheckFailed => error@ == AnalysisErrorView::CargoCheckFailed,
            AnalysisError::MissingSaveAnalysis { dir } => error@ == (
            AnalysisErrorView::MissingSaveAnalysis { dir: dir@ }),
            AnalysisError::CantResolveSysroot => error@ == AnalysisErrorView::CantResolveSysroot,
            AnalysisError::Other { cause } => error@ == (AnalysisErrorView::Other {
                cause: cause@,
            }),
        },
        outcome(Err(error)) == Err::<(), _>(error@),
        outcome(Ok(())) == Ok::<(), AnalysisErrorView>(()),
        option_outcome(None) is None,
        option_outcome(Some(Ok(()))) == Some(Ok::<(), AnalysisErrorView>(())),
        option_outcome(Some(Err(error))) == Some(Err::<(), _>(error@)),
        text_outcome(Err(error)) == Err::<Seq<char>, _>(error@),
        sys_root_view(Err(error)) == Err::<Seq<Option<Seq<char>>>, _>(error@),
        fetch_failure(Err(error)) == Some(error@),
{
}

/// What happens says which it is, with all that comes with it.
pub proof fn law_event_says(heard: Heard, event: Event)
    ensures
        match heard {
            Heard::Line { done } => heard@ == (HeardView::Line { done }),
            Heard::Failed(message) => heard@ == HeardView::Failed(message@),
            Heard::Ended => heard@ == HeardView::Ended,
        },
        match event {
            Event::CheckFailed(message) => event@ == EventView::CheckFailed(message@),
            Event::CheckExited { success } => event@ == (EventView::CheckExited { success }),
            Event::LaunchFailed(message) => event@ == EventView::LaunchFailed(message@),
            Event::Launched { stdout } => event@ == (EventView::Launched { stdout }),
            Event::FirstLine => event@ == EventView::FirstLine,
            Event::ListenerGone => event@ == EventView::ListenerGone,
            Event::TimedOut(message) => event@ == EventView::TimedOut(message@),
            Event::Listened(Ok(_)) => event@ == EventView::Listened(Ok(())),
            Event::Listened(Err(error)) => event@ == EventView::Listened(Err(error@)),
            Event::Killed => event@ == EventView::Killed,
        },
{
}

/// A step says which stage follows and what is done, with the result that is returned.
pub proof fn law_step_says(stage: Stage, action: Action)
    ensures
        match stage {
            Stage::Checking => stage@ == StageView::Checking,
            Stage::Launching => stage@ == StageView::Launching,
            Stage::AwaitingFirstLine => stage@ == StageView::AwaitingFirstLine,
            Stage::AwaitingResult => stage@ == StageView::AwaitingResult,
            Stage::Killing(Ok(_)) => stage@ == StageView::Killing(Ok(())),
            Stage::Killing(Err(error)) => stage@ == StageView::Killing(Err(error@)),
            Stage::Finished => stage@ == StageView::Finished,
        },
        match action {
            Action::Launch => action@ == ActionView::Launch,
            Action::AwaitFirstLine => action@ == ActionView::AwaitFirstLine,
            Action::AwaitResult => action@ == ActionView::AwaitResult,
            Action::Kill => action@ == ActionView::Kill,
            Action::Return(Ok(_)) => action@ == ActionView::Return(Ok(())),
            Action::Return(Err(error)) => action@ == ActionView::Return(Err(error@)),
        },
        step_view(Some((stage, action))) == Some((stage@, action@)),
        step_view(None) is None,
{
}

/// A JSON value says what it is, and all that it holds.
pub proof fn law_json_says(json: Json)
    ensures
        json@ == json_view(json),
        match json {
            Json::Null => json@ == JsonView::Null,
            Json::Bool(flag) => json@ == JsonView::Bool(flag),
            Json::Number(number) => json@ == JsonView::Number(number@),
            Json::Text(text) => json@ == JsonView::Text(text@),
            Json::Array(elements) => {
                &&& json@ matches JsonView::Array(views)
                &&& views.len() == elements@.len()
                &&& forall|i: int| 0 <= i < views.len() ==> #[trigger] views[i] == elements@[i]@
            },
            Json::Object(members) => {
                &&& json@ matches JsonView::Object(views)
                &&& views.len() == members@.len()
                &&& forall|i: int|
                    0 <= i < views.len() ==> #[trigger] views[i] == (
                        members@[i].0@,
                        members@[i].1@,
                    )
            },
        },
{
    match json {
        Json::Array(elements) => {
            crate::analysis::laws::law_json_parts(elements@, Seq::empty());
        },
        Json::Object(members) => {
            crate::analysis::laws::law_json_parts(Seq::empty(), members@);
        },
        _ => {},
    }
}

/// Texts and lists of texts say all that they hold, in order.
pub proof fn law_texts_say(
    text: String,
    texts: Seq<String>,
    components: Seq<Option<String>>,
    folder: Folder,
)
    ensures
        option_text(Some(text)) == Some(text@),
        option_text(None) is None,
        text_outcome(Ok(text)) == Ok::<_, AnalysisErrorView>(text@),
        string_views(texts).len() == texts.len(),
        forall|i: int| 0 <= i < texts.len() ==> #[trigger] string_views(texts)[i] == texts[i]@,
        component_texts(components).len() == components.len(),
        forall|i: int|
            0 <= i < components.len() ==> #[trigger] component_texts(components)[i]
                == option_text(components[i]),
        folder@.base == folder.base,
        folder@.joins == string_views(folder.joins@),
        folder_outcome(Ok(folder)) == Ok::<_, AnalysisErrorView>(folder@),
{
}

/// A file says what it is found by and its whole path; a list of files says all paths, in order. A
/// directory fails where it is not there, and where it could not be listed.
pub proof fn law_files_say(
    entry: Entry,
    entries: Seq<Entry>,
    components: Seq<Component>,
    listing: Listing,
    listings: Vec<Listing>,
)
    ensures
        entry@.id == entry.id,
        entry@.path == component_views(entry.path@),
        component_views(components).len() == components.len(),
        forall|i: int|
            0 <= i < components.len() ==> #[trigger] component_views(components)[i]
                == components[i]@,
        entry_paths(entries).len() == entries.len(),
        forall|i: int|
            0 <= i < entries.len() ==> #[trigger] entry_paths(entries)[i] == entries[i]@.path,
        listing_failure(listing) is None <==> listing.is_dir && listing.entries is Ok,
        fetch_failure(Ok(listings)) == first_failure(listings@),
{
}

} // verus!
