//! Reading the progress that the language server reports.

use vstd::prelude::*;

use crate::analysis::json::{json_text, parse_json, Json, JsonView};

verus! {

/// Whether a message speaks another version of the protocol than the expected one.
pub open spec fn other_version(message: JsonView) -> bool {
    message.member("jsonrpc"@) != Some(JsonView::Text("2.0"@))
}

/// What a message says of the progress of a build, if it does.
pub open spec fn building(message: JsonView) -> Option<JsonView> {
    match message.member("params"@) {
        Some(params) => if message.member("method"@) == Some(JsonView::Text("window/progress"@))
            && params.member("title"@) == Some(JsonView::Text("Building"@)) {
            Some(params)
        } else {
            None
        },
        None => None,
    }
}

/// Whether a message says that the build is done.
pub open spec fn says_done(message: JsonView) -> bool {
    match building(message) {
        Some(params) => params.member("done"@) == Some(JsonView::Bool(true)),
        None => false,
    }
}

/// Whether a message speaks another version of the protocol than the expected one. Such a message
/// is read all the same.
pub fn has_unexpected_version(message: &Json) -> (unexpected: bool)
    ensures
        unexpected == other_version(message@),
{
    match message.get("jsonrpc") {
        Some(version) => !version.is_text("2.0"),
        None => true,
    }
}

/// What a message says of the progress of a build, if it does.
fn build_progress(message: &Json) -> (params: Option<&Json>)
    ensures
        building(message@) == (match params {
            Some(params) => Some(params@),
            None => None,
        }),
{
    match message.get("method") {
        Some(method) => if !method.is_text("window/progress") {
            return None;
        },
        None => {
            return None;
        },
    }
    match message.get("params") {
        Some(params) => match params.get("title") {
            Some(title) => if title.is_text("Building") {
                Some(params)
            } else {
                None
            },
            None => None,
        },
        None => None,
    }
}

/// Whether a message says that the build is done.
pub fn is_done(message: &Json) -> (done: Option<()>)
    ensures
        done is Some == says_done(message@),
        done is Some <==> {
            &&& message@.member("method"@) == Some(JsonView::Text("window/progress"@))
            &&& message@.member("params"@) matches Some(params)
            &&& params.member("title"@) == Some(JsonView::Text("Building"@))
            &&& params.member("done"@) == Some(JsonView::Bool(true))
        },
{
    match build_progress(message) {
        Some(params) => match params.get("done") {
            Some(Json::Bool(true)) => Some(()),
            _ => None,
        },
        None => None,
    }
}

/// What a message says is being built, where it reports a build that is not done.
pub open spec fn built_now(message: JsonView) -> Option<Seq<char>> {
    match building(message) {
        Some(params) => match params.member("message"@) {
            Some(JsonView::Text(text)) => if says_done(message) {
                None
            } else {
                Some(text)
            },
            _ => None,
        },
        None => None,
    }
}

/// What a message says is being built, where it reports a build that is not done.
pub fn building_message(message: &Json) -> (text: Option<String>)
    ensures
        built_now(message@) == (match text {
            Some(text) => Some(text@),
            None => None,
        }),
{
    if is_done(message).is_some() {
        return None;
    }
    match build_progress(message) {
        Some(params) => match params.get("message") {
            Some(Json::Text(text)) => Some(text.clone()),
            _ => None,
        },
        None => None,
    }
}

/// Whether a line of output says that the build is done.
pub open spec fn line_says_done(line: Seq<char>) -> bool {
    match json_text(line) {
        Some(message) => says_done(message),
        None => false,
    }
}

/// Whether a line of output says that the build is done. A line that is not JSON does not.
pub fn line_is_done(line: &str) -> (done: bool)
    ensures
        done == line_says_done(line@),
{
    match parse_json(line) {
        Some(message) => is_done(&message).is_some(),
        None => false,
    }
}

} // verus!
