//! JSON values.

use vstd::prelude::*;

verus! {

/// A JSON value.
#[derive(Debug)]
pub enum Json {
    Null,
    Bool(bool),
    /// A number, as text.
    Number(String),
    Text(String),
    Array(Vec<Json>),
    /// The members of an object, each with its name.
    Object(Vec<(String, Json)>),
}

/// What a [`Json`] says.
pub enum JsonView {
    Null,
    Bool(bool),
    Number(Seq<char>),
    Text(Seq<char>),
    Array(Seq<JsonView>),
    Object(Seq<(Seq<char>, JsonView)>),
}

/// What a JSON value says.
pub open spec fn json_view(json: Json) -> JsonView
    decreases json,
{
    match json {
        Json::Null => JsonView::Null,
        Json::Bool(flag) => JsonView::Bool(flag),
        Json::Number(number) => JsonView::Number(number@),
        Json::Text(text) => JsonView::Text(text@),
        Json::Array(elements) => JsonView::Array(element_views(elements@)),
        Json::Object(members) => JsonView::Object(member_views(members@)),
    }
}

/// What the elements of an array say.
pub open spec fn element_views(elements: Seq<Json>) -> Seq<JsonView>
    decreases elements,
{
    if elements.len() == 0 {
        Seq::empty()
    } else {
        element_views(elements.drop_last()).push(json_view(elements.last()))
    }
}

/// What the members of an object say.
pub open spec fn member_views(members: Seq<(String, Json)>) -> Seq<(Seq<char>, JsonView)>
    decreases members,
{
    if members.len() == 0 {
        Seq::empty()
    } else {
        member_views(members.drop_last()).push((members.last().0@, json_view(members.last().1)))
    }
}

impl View for Json {
    type V = JsonView;

    open spec fn view(&self) -> JsonView {
        json_view(*self)
    }
}

/// The position of the first member called `name`, or the number of members.
pub open spec fn member_index(members: Seq<(Seq<char>, JsonView)>, name: Seq<char>) -> int
    decreases members.len(),
{
    if members.len() == 0 || members[0].0 == name {
        0
    } else {
        1 + member_index(members.drop_first(), name)
    }
}

impl JsonView {
    /// The first member called `name` of an object. Other values have no members.
    pub open spec fn member(self, name: Seq<char>) -> Option<JsonView> {
        match self {
            JsonView::Object(members) => {
                let i = member_index(members, name);
                if i < members.len() {
                    Some(members[i].1)
                } else {
                    None
                }
            },
            _ => None,
        }
    }
}

proof fn lemma_member_views(members: Seq<(String, Json)>)
    ensures
        member_views(members).len() == members.len(),
        forall|i: int|
            0 <= i < members.len() ==> #[trigger] member_views(members)[i] == (
                members[i].0@,
                members[i].1@,
            ),
    decreases members.len(),
{
    if members.len() > 0 {
        lemma_member_views(members.drop_last());
    }
}

impl Json {
    /// The first member called `name`, if this is an object that has one.
    pub fn get(&self, name: &str) -> (found: Option<&Json>)
        ensures
            self@.member(name@) == (match found {
                Some(json) => Some(json@),
                None => None,
            }),
    {
        match self {
            Json::Object(members) => {
                let wanted = name.to_owned();
                let ghost views = member_views(members@);
                proof {
                    lemma_member_views(members@);
                }
                assert(views.skip(0) == views);
                let mut i: usize = 0;
                while i < members.len()
                    invariant
                        wanted@ == name@,
                        views.len() == members@.len(),
                        forall|j: int|
                            0 <= j < members@.len() ==> #[trigger] views[j] == (
                                members@[j].0@,
                                members@[j].1@,
                            ),
                        self@ == JsonView::Object(views),
                        i <= members@.len(),
                        member_index(views, name@) == i + member_index(
                            views.skip(i as int),
                            name@,
                        ),
                    decreases members@.len() - i,
                {
                    assert(views.skip(i as int).drop_first() == views.skip(i + 1));
                    assert(views.skip(i as int)[0] == views[i as int]);
                    if members[i].0 == wanted {
                        return Some(&members[i].1);
                    }
                    i += 1;
                }
                None
            },
            _ => None,
        }
    }

    /// Whether this is the string `text`.
    pub fn is_text(&self, text: &str) -> (is: bool)
        ensures
            is == (self@ == JsonView::Text(text@)),
    {
        match self {
            Json::Text(own) => *own == text.to_owned(),
            _ => false,
        }
    }
}

/// A JSON value, as `serde_json` holds it.
#[verifier::external_type_specification]
#[verifier::external_body]
pub struct ExJsonValue(serde_json::Value);

/// The members of a JSON object, as `serde_json` holds them.
#[verifier::external_type_specification]
#[verifier::external_body]
#[verifier::reject_recursive_types(K)]
#[verifier::reject_recursive_types(V)]
pub struct ExJsonMap<K, V>(serde_json::Map<K, V>);

/// A failure to parse, as `serde_json` reports it.
#[verifier::external_type_specification]
#[verifier::external_body]
pub struct ExJsonError(serde_json::Error);

/// The JSON value with the given text; `None` where the text is not JSON.
pub uninterp spec fn json_text(text: Seq<char>) -> Option<JsonView>;

/// What a parsed JSON value holds.
pub uninterp spec fn value_json(value: serde_json::Value) -> JsonView;

/// What the members of a parsed JSON object hold.
pub uninterp spec fn map_members(map: serde_json::Map<String, serde_json::Value>) -> Seq<
    (Seq<char>, JsonView),
>;

/// Calls `serde_json::from_str` for a `serde_json::Value`. Whether it accepts a text, and the
/// value that it then returns, are determined by the text. How they follow from the text is left
/// unsaid: that is the grammar of JSON.
#[verifier::external_body]
fn parse_value(text: &str) -> (parsed: Result<serde_json::Value, serde_json::Error>)
    ensures
        match parsed {
            Ok(value) => json_text(text@) == Some(value_json(value)),
            Err(_) => json_text(text@) is None,
        },
{
    serde_json::from_str::<serde_json::Value>(text)
}

/// The outermost level of a parsed JSON value.
enum Shape<'a> {
    Null,
    Bool(bool),
    Number(String),
    Text(String),
    Array(&'a Vec<serde_json::Value>),
    Object(&'a serde_json::Map<String, serde_json::Value>),
}

/// What the outermost level of a JSON value stands for.
spec fn shape_json(shape: Shape<'_>) -> JsonView {
    match shape {
        Shape::Null => JsonView::Null,
        Shape::Bool(flag) => JsonView::Bool(flag),
        Shape::Number(number) => JsonView::Number(number@),
        Shape::Text(text) => JsonView::Text(text@),
        Shape::Array(elements) => JsonView::Array(
            elements@.map_values(|element: serde_json::Value| value_json(element)),
        ),
        Shape::Object(members) => JsonView::Object(map_members(*members)),
    }
}

/// Reads the variant of a `serde_json::Value` and its field; a number as the text that it prints.
#[verifier::external_body]
fn open_value(value: &serde_json::Value) -> (shape: Shape<'_>)
    ensures
        shape_json(shape) == value_json(*value),
{
    match value {
        serde_json::Value::Null => Shape::Null,
        serde_json::Value::Bool(flag) => Shape::Bool(*flag),
        serde_json::Value::Number(number) => Shape::Number(number.to_string()),
        serde_json::Value::String(text) => Shape::Text(text.clone()),
        serde_json::Value::Array(elements) => Shape::Array(elements),
        serde_json::Value::Object(members) => Shape::Object(members),
    }
}

/// Calls `serde_json::Map::iter`, which gives every member with its name.
#[verifier::external_body]
fn open_members(map: &serde_json::Map<String, serde_json::Value>) -> (members: Vec<
    (String, &serde_json::Value),
>)
    ensures
        members@.map_values(
            |member: (String, &serde_json::Value)| (member.0@, value_json(*member.1)),
        ) == map_members(*map),
{
    map.iter().map(|member| (member.0.clone(), member.1)).collect()
}

/// Reads a parsed JSON value.
fn read_value(value: &serde_json::Value) -> (json: Json)
    ensures
        json@ == value_json(*value),
    decreases value_json(*value),
{
    match open_value(value) {
        Shape::Null => Json::Null,
        Shape::Bool(flag) => Json::Bool(flag),
        Shape::Number(number) => Json::Number(number),
        Shape::Text(text) => Json::Text(text),
        Shape::Array(elements) => {
            let ghost views = elements@.map_values(
                |element: serde_json::Value| value_json(element),
            );
            assert(value_json(*value) == JsonView::Array(views));
            let mut read: Vec<Json> = Vec::new();
            let mut i: usize = 0;
            while i < elements.len()
                invariant
                    i <= elements@.len(),
                    views == elements@.map_values(
                        |element: serde_json::Value| value_json(element),
                    ),
                    value_json(*value) == JsonView::Array(views),
                    element_views(read@) == views.take(i as int),
                decreases elements@.len() - i,
            {
                let ghost before = read@;
                assert(decreases_to!(value_json(*value) => value_json(*value)->Array_0));
                assert(decreases_to!(views => views[i as int]));
                assert(views[i as int] == value_json(elements@[i as int]));
                let next = read_value(&elements[i]);
                read.push(next);
                assert(read@.drop_last() == before);
                i += 1;
                assert(views.take(i as int) == views.take(i - 1).push(views[i - 1]));
            }
            assert(views.take(i as int) == views);
            Json::Array(read)
        },
        Shape::Object(map) => {
            let members = open_members(map);
            let ghost views = map_members(*map);
            assert(value_json(*value) == JsonView::Object(views));
            let mut read: Vec<(String, Json)> = Vec::new();
            let mut i: usize = 0;
            while i < members.len()
                invariant
                    i <= members@.len(),
                    views == members@.map_values(
                        |member: (String, &serde_json::Value)| (member.0@, value_json(*member.1)),
                    ),
                    value_json(*value) == JsonView::Object(views),
                    member_views(read@) == views.take(i as int),
                decreases members@.len() - i,
            {
                let ghost before = read@;
                assert(decreases_to!(value_json(*value) => value_json(*value)->Object_0));
                assert(decreases_to!(views => views[i as int]));
                assert(decreases_to!(views[i as int] => views[i as int].1));
                assert(views[i as int].1 == value_json(*members@[i as int].1));
                let next = read_value(members[i].1);
                read.push((members[i].0.clone(), next));
                assert(read@.drop_last() == before);
                i += 1;
                assert(views.take(i as int) == views.take(i - 1).push(views[i - 1]));
            }
            assert(views.take(i as int) == views);
            Json::Object(read)
        },
    }
}

/// The JSON value with the given text.
pub fn parse_json(text: &str) -> (json: Option<Json>)
    ensures
        json_text(text@) == (match json {
            Some(json) => Some(json@),
            None => None,
        }),
{
    match parse_value(text) {
        Ok(value) => Some(read_value(&value)),
        Err(_) => None,
    }
}

} // verus!
