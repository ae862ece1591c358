use tendon::analysis::json::{parse_json, Json};
use tendon::analysis::progress::{
    building_message, has_unexpected_version, is_done, line_is_done,
};

fn text(value: &str) -> Json {
    Json::Text(value.to_string())
}

fn object(members: Vec<(&str, Json)>) -> Json {
    Json::Object(
        members
            .into_iter()
            .map(|(name, value)| (name.to_string(), value))
            .collect(),
    )
}

fn progress(method: &str, title: &str, done: Json) -> Json {
    object(vec![
        ("jsonrpc", text("2.0")),
        ("method", text(method)),
        (
            "params",
            object(vec![
                ("title", text(title)),
                ("done", done),
                ("message", text("serde")),
            ]),
        ),
    ])
}

#[test]
fn build_is_done() {
    assert_eq!(
        is_done(&progress("window/progress", "Building", Json::Bool(true))),
        Some(())
    );
}

#[test]
fn build_is_not_done() {
    for message in [
        progress("window/progress", "Building", Json::Bool(false)),
        progress("window/progress", "Building", text("true")),
        progress("window/progress", "Indexing", Json::Bool(true)),
        progress("window/logMessage", "Building", Json::Bool(true)),
        object(vec![("method", text("window/progress"))]),
        object(vec![("method", text("window/progress")), ("params", text("Building"))]),
        object(vec![]),
        Json::Null,
        Json::Array(vec![progress("window/progress", "Building", Json::Bool(true))]),
    ] {
        assert_eq!(is_done(&message), None);
    }
}

#[test]
fn version_does_not_decide() {
    let message = object(vec![
        ("jsonrpc", text("1.0")),
        ("method", text("window/progress")),
        (
            "params",
            object(vec![("title", text("Building")), ("done", Json::Bool(true))]),
        ),
    ]);
    assert!(has_unexpected_version(&message));
    assert_eq!(is_done(&message), Some(()));
    assert!(!has_unexpected_version(&object(vec![("jsonrpc", text("2.0"))])));
    assert!(has_unexpected_version(&object(vec![("jsonrpc", Json::Number("2.0".to_string()))])));
    assert!(has_unexpected_version(&object(vec![])));
}

#[test]
fn message_of_a_build_under_way() {
    assert_eq!(
        building_message(&progress("window/progress", "Building", Json::Bool(false))),
        Some("serde".to_string())
    );
    assert_eq!(
        building_message(&progress("window/progress", "Building", Json::Bool(true))),
        None
    );
    assert_eq!(
        building_message(&progress("window/progress", "Indexing", Json::Bool(false))),
        None
    );
}

#[test]
fn lines_of_output() {
    assert!(line_is_done(
        r#"{"jsonrpc":"2.0","method":"window/progress","params":{"title":"Building","done":true}}"#
    ));
    assert!(!line_is_done(
        r#"{"jsonrpc":"2.0","method":"window/progress","params":{"title":"Building","done":false}}"#
    ));
    assert!(!line_is_done(
        r#"{"jsonrpc":"2.0","method":"window/progress","params":["Building",true]}"#
    ));
    assert!(!line_is_done("Content-Length: 5"));
    assert!(!line_is_done(""));
}

#[test]
fn json_is_read_in_full() {
    let json = parse_json(r#"{"b":[1,2.5,null,true],"a":{"x":"yA"}}"#).unwrap();
    match json.get("b") {
        Some(Json::Array(elements)) => {
            assert_eq!(elements.len(), 4);
            assert!(matches!(&elements[0], Json::Number(n) if n == "1"));
            assert!(matches!(&elements[1], Json::Number(n) if n == "2.5"));
            assert!(matches!(&elements[2], Json::Null));
            assert!(matches!(&elements[3], Json::Bool(true)));
        }
        _ => panic!("no array"),
    }
    let inner = json.get("a").and_then(|a| a.get("x")).unwrap();
    assert!(inner.is_text("yA"));
    assert!(json.get("c").is_none());
    assert!(parse_json("{").is_none());
    assert!(matches!(parse_json("7"), Some(Json::Number(n)) if n == "7"));
    // Of two members with one name the later one is kept.
    let twice = parse_json(r#"{"k":"old","k":"new"}"#).unwrap();
    assert!(twice.get("k").unwrap().is_text("new"));
}

#[test]
fn first_member_counts() {
    let twice = object(vec![("k", text("first")), ("k", text("second"))]);
    assert!(twice.get("k").unwrap().is_text("first"));
}
