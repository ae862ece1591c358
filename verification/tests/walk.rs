use std::sync::Arc;

use tendon::resolve::errors::{Namespace, WalkError};
use tendon::resolve::items::{
    DeclarativeMacroItem, Definition, ImportTree, Item, ItemBody, LowerError, MacroItem, Position,
    Span, SymbolItem, Tokens, TypeItem, Visibility,
};
use tendon::resolve::paths::{AbsoluteCrate, AbsolutePath, Ident, Path, UnresolvedPath};
use tendon::resolve::phase::{
    CrateData, Db, LocationMetadata, UnexpandedItem, UnexpandedModule, WalkParseExpandPhase,
};
use tendon::resolve::table::Table;
use tendon::resolve::walk::{handle_relevant_item, insert_into_db, walk_crate, walk_items, warn};

fn fake_crate() -> AbsoluteCrate {
    AbsoluteCrate::new("fake_crate", "0.1.0")
}

fn absolute(names: &[&str]) -> AbsolutePath {
    AbsolutePath::new(fake_crate(), names.iter().map(|name| Ident::new(name)).collect())
}

fn crate_data() -> CrateData {
    let mut deps = Table::new();
    deps.insert(Ident::new("bees"), AbsoluteCrate::new("bees", "2.0.0"));
    CrateData { crate_: fake_crate(), entry: "/fake/fake_file.rs".to_string(), deps }
}

fn location(names: &[&str]) -> LocationMetadata {
    LocationMetadata {
        source_file: "/fake/fake_file.rs".to_string(),
        macro_invocation: None,
        crate_data: crate_data(),
        module: absolute(names),
    }
}

fn phase_with(names: &[&str]) -> WalkParseExpandPhase {
    let mut phase = WalkParseExpandPhase::new(Db::new());
    phase
        .unexpanded_modules
        .insert(absolute(names), UnexpandedModule::new(location(names)));
    phase
}

fn position(line: usize) -> Position {
    Position { start_line: line, start_column: 0, end_line: line, end_column: 7 }
}

fn item(line: usize, body: ItemBody) -> Item {
    Item {
        position: position(line),
        tokens: Tokens { text: format!("item at {}", line) },
        body,
    }
}

fn definition(visibility: Visibility, name: &str) -> Definition {
    Definition {
        visibility,
        name: Ident::new(name),
        tokens: Tokens { text: format!("tokens of {}", name) },
    }
}

fn struct_(line: usize, name: &str) -> Item {
    item(line, ItemBody::Struct { lowered: Ok(definition(Visibility::NonPub, name)) })
}

fn enum_(line: usize, name: &str) -> Item {
    item(line, ItemBody::Enum { lowered: Ok(definition(Visibility::Pub, name)) })
}

fn fn_(line: usize, visibility: Visibility, name: &str) -> Item {
    item(line, ItemBody::Fn { visibility, lowered: Ok(definition(visibility, name)) })
}

fn extern_crate(metadata: Result<Visibility, LowerError>, name: &str, rename: Option<&str>) -> Item {
    item(
        1,
        ItemBody::ExternCrate { metadata, name: Ident::new(name), rename: rename.map(Ident::new) },
    )
}

fn macro_(line: usize, path: &[&str], rooted: bool, name: &str, macro_export: bool) -> Item {
    item(
        line,
        ItemBody::Macro {
            path: UnresolvedPath {
                rooted,
                path: path.iter().map(|name| Ident::new(name)).collect(),
            },
            definition: Ok(DeclarativeMacroItem {
                name: Ident::new(name),
                macro_export,
                tokens: Tokens { text: format!("rules of {}", name) },
            }),
        },
    )
}

fn rules(line: usize, name: &str, macro_export: bool) -> Item {
    macro_(line, &["macro_rules"], false, name, macro_export)
}

fn names(path: &[Ident]) -> Vec<&str> {
    path.iter().map(|ident| ident.text.as_str()).collect()
}

fn scope_names(definitions: &[Option<DeclarativeMacroItem>]) -> Vec<Option<&str>> {
    definitions
        .iter()
        .map(|definition| definition.as_ref().map(|def| def.name.text.as_str()))
        .collect()
}

#[test]
fn definitions_go_to_their_namespaces() {
    let mut phase = phase_with(&["m"]);
    let loc = location(&["m"]);
    let warnings = walk_items(
        &mut phase,
        &loc,
        &[
            fn_(1, Visibility::Pub, "f"),
            struct_(2, "S"),
            enum_(3, "E"),
            fn_(4, Visibility::NonPub, "hidden"),
            item(5, ItemBody::Static { visibility: Visibility::Pub, name: Ident::new("A") }),
            item(6, ItemBody::Const { visibility: Visibility::NonPub, name: Ident::new("B") }),
            item(7, ItemBody::Other),
        ],
    );
    assert!(warnings.is_empty());
    let SymbolItem::Function(f) = phase.db.symbols.get(&absolute(&["m", "f"])).unwrap();
    assert_eq!(f.tokens.text, "tokens of f");
    assert!(matches!(
        phase.db.types.get(&absolute(&["m", "S"])),
        Some(TypeItem::Struct(definition)) if definition.name.text == "S"
    ));
    assert!(matches!(
        phase.db.types.get(&absolute(&["m", "E"])),
        Some(TypeItem::Enum(definition)) if definition.name.text == "E"
    ));
    assert!(!phase.db.symbols.contains(&absolute(&["m", "hidden"])));
    assert!(!phase.db.symbols.contains(&absolute(&["f"])));
    assert!(!phase.db.types.contains(&absolute(&["m", "f"])));
    assert!(!phase.db.symbols.contains(&absolute(&["m", "A"])));
}

#[test]
fn nothing_is_defined_twice() {
    let mut phase = phase_with(&[]);
    let loc = location(&[]);
    let warnings =
        walk_items(&mut phase, &loc, &[struct_(1, "X"), enum_(2, "X"), fn_(3, Visibility::Pub, "X")]);
    assert_eq!(warnings.len(), 1);
    assert_eq!(warnings[0].span.position, position(2));
    assert_eq!(warnings[0].span.source_file, "/fake/fake_file.rs");
    match &warnings[0].cause {
        WalkError::AlreadyDefined(namespace, path) => {
            assert_eq!(*namespace, Namespace::Types);
            assert_eq!(names(&path.path), vec!["X"]);
            assert_eq!(path.crate_.name, "fake_crate");
        }
        other => panic!("{:?}", other),
    }
    assert!(matches!(
        phase.db.types.get(&absolute(&["X"])),
        Some(TypeItem::Struct(_))
    ));
    assert!(phase.db.symbols.contains(&absolute(&["X"])));
}

#[test]
fn walking_in_parts() {
    let loc = location(&[]);
    let mut whole = phase_with(&[]);
    walk_items(&mut whole, &loc, &[rules(1, "a", true), struct_(2, "X"), struct_(3, "Y")]);
    let mut parts = phase_with(&[]);
    walk_items(&mut parts, &loc, &[rules(1, "a", true)]);
    walk_items(&mut parts, &loc, &[struct_(2, "X"), struct_(3, "Y")]);
    for phase in [&whole, &parts] {
        assert!(phase.db.macros.contains(&absolute(&["a"])));
        assert!(phase.db.types.contains(&absolute(&["X"])));
        assert!(phase.db.types.contains(&absolute(&["Y"])));
        let module = phase.unexpanded_modules.get(&absolute(&[])).unwrap();
        assert_eq!(scope_names(&module.textual_scope.definitions), vec![Some("a")]);
    }
}

#[test]
fn insertion_results() {
    let mut db = Db::new();
    let loc = location(&[]);
    assert!(matches!(
        insert_into_db(&mut db, &loc, &fn_(1, Visibility::NonPub, "f")),
        Err(WalkError::NonPub)
    ));
    let static_ = |visibility| item(1, ItemBody::Static { visibility, name: Ident::new("S") });
    let const_ = |visibility| item(1, ItemBody::Const { visibility, name: Ident::new("C") });
    assert!(matches!(
        insert_into_db(&mut db, &loc, &static_(Visibility::NonPub)),
        Err(WalkError::NonPub)
    ));
    assert!(matches!(
        insert_into_db(&mut db, &loc, &const_(Visibility::NonPub)),
        Err(WalkError::NonPub)
    ));
    assert!(insert_into_db(&mut db, &loc, &static_(Visibility::Pub)).is_ok());
    assert!(insert_into_db(&mut db, &loc, &const_(Visibility::Pub)).is_ok());
    assert!(insert_into_db(&mut db, &loc, &item(1, ItemBody::Other)).is_ok());
    // What is not `pub` is refused before lowering counts.
    let refused = item(
        1,
        ItemBody::Fn { visibility: Visibility::NonPub, lowered: Err(LowerError::CfgdOut) },
    );
    assert!(matches!(insert_into_db(&mut db, &loc, &refused), Err(WalkError::NonPub)));
    let failed =
        item(1, ItemBody::Enum { lowered: Err(LowerError::Other("bad".to_string())) });
    assert!(matches!(
        insert_into_db(&mut db, &loc, &failed),
        Err(WalkError::Lower(LowerError::Other(cause))) if cause == "bad"
    ));
    assert!(insert_into_db(&mut db, &loc, &struct_(1, "S")).is_ok());
    assert!(matches!(
        insert_into_db(&mut db, &loc, &struct_(1, "S")),
        Err(WalkError::AlreadyDefined(Namespace::Types, _))
    ));
}

#[test]
fn insertion_in_either_order() {
    let loc = location(&["m"]);
    let mut one = Db::new();
    let mut other = Db::new();
    for item in [struct_(1, "S"), fn_(2, Visibility::Pub, "S"), enum_(3, "E")] {
        assert!(insert_into_db(&mut one, &loc, &item).is_ok());
    }
    for item in [enum_(3, "E"), fn_(2, Visibility::Pub, "S"), struct_(1, "S")] {
        assert!(insert_into_db(&mut other, &loc, &item).is_ok());
    }
    for db in [&one, &other] {
        assert!(matches!(db.types.get(&absolute(&["m", "S"])), Some(TypeItem::Struct(_))));
        assert!(matches!(db.types.get(&absolute(&["m", "E"])), Some(TypeItem::Enum(_))));
        assert!(db.symbols.contains(&absolute(&["m", "S"])));
    }
}

#[test]
fn lowering_errors() {
    let mut phase = phase_with(&[]);
    let loc = location(&[]);
    let failed = |line, error| item(line, ItemBody::Struct { lowered: Err(error) });
    let warnings = walk_items(
        &mut phase,
        &loc,
        &[
            failed(1, LowerError::CfgdOut),
            failed(2, LowerError::TypePositionMacro),
            failed(3, LowerError::Other("odd".to_string())),
            struct_(4, "Last"),
        ],
    );
    assert_eq!(warnings.len(), 1);
    assert_eq!(warnings[0].span.position, position(3));
    assert!(matches!(
        &warnings[0].cause,
        WalkError::Lower(LowerError::Other(cause)) if cause == "odd"
    ));
    assert!(phase.db.types.contains(&absolute(&["Last"])));
}

#[test]
fn macros_of_a_module() {
    let mut phase = phase_with(&["m"]);
    let loc = location(&["m"]);
    let warnings = walk_items(
        &mut phase,
        &loc,
        &[
            macro_(1, &["early"], false, "early", false),
            rules(2, "private", false),
            rules(3, "exported", true),
            macro_(4, &["std", "println"], true, "println", false),
            rules(5, "late", false),
            // Not definitions: the path is more than the name.
            macro_(6, &["macro_rules"], true, "rooted", true),
            macro_(7, &["x", "macro_rules"], false, "long", true),
        ],
    );
    assert!(warnings.is_empty());
    // Exported macros stand at the root of the crate.
    let MacroItem::Declarative(exported) =
        phase.db.macros.get(&absolute(&["exported"])).unwrap();
    assert_eq!(exported.tokens.text, "rules of exported");
    assert!(!phase.db.macros.contains(&absolute(&["m", "exported"])));
    for name in ["private", "late", "rooted", "long"] {
        assert!(!phase.db.macros.contains(&absolute(&[name])));
    }
    let module = phase.unexpanded_modules.get(&absolute(&["m"])).unwrap();
    assert_eq!(
        scope_names(&module.textual_scope.definitions),
        vec![Some("private"), Some("exported"), Some("late")]
    );
    let pending: Vec<_> = module
        .unexpanded_items
        .iter()
        .map(|pending| {
            let text = match &pending.item {
                UnexpandedItem::UnresolvedMacroInvocation(tokens) => tokens.text.as_str(),
                other => panic!("{:?}", other),
            };
            (
                pending.span.position.start_line,
                text,
                scope_names(&pending.textual_scope.definitions),
            )
        })
        .collect();
    assert_eq!(
        pending,
        vec![
            (1, "item at 1", vec![None]),
            (4, "item at 4", vec![Some("private"), Some("exported"), None]),
            (
                6,
                "item at 6",
                vec![Some("private"), Some("exported"), Some("late"), None]
            ),
            (7, "item at 7", vec![Some("private"), Some("exported"), Some("late"), None]),
        ]
    );
    assert!(!phase.macro_prelude.contains(&Ident::new("exported")));
}

#[test]
fn exported_macros_collide() {
    let mut phase = phase_with(&["m"]);
    let loc = location(&["m"]);
    let warnings = walk_items(&mut phase, &loc, &[rules(1, "a", true), rules(2, "a", true)]);
    assert_eq!(warnings.len(), 1);
    assert_eq!(warnings[0].span.position, position(2));
    assert!(matches!(
        &warnings[0].cause,
        WalkError::AlreadyDefined(Namespace::Macros, path) if names(&path.path) == ["a"]
    ));
    let module = phase.unexpanded_modules.get(&absolute(&["m"])).unwrap();
    assert_eq!(scope_names(&module.textual_scope.definitions), vec![Some("a")]);
}

#[test]
fn broken_macro_definitions() {
    let mut phase = phase_with(&[]);
    let loc = location(&[]);
    let broken = item(
        1,
        ItemBody::Macro {
            path: UnresolvedPath { rooted: false, path: vec![Ident::new("macro_rules")] },
            definition: Err(LowerError::CfgdOut),
        },
    );
    assert!(matches!(
        handle_relevant_item(&mut phase, &loc, &broken),
        Err(WalkError::Lower(LowerError::CfgdOut))
    ));
    assert!(walk_items(&mut phase, &loc, &[broken]).is_empty());
    let module = phase.unexpanded_modules.get(&absolute(&[])).unwrap();
    assert!(module.textual_scope.definitions.is_empty());
    assert!(module.unexpanded_items.is_empty());
}

#[test]
fn crates_in_a_module() {
    let mut phase = phase_with(&["m"]);
    let loc = location(&["m"]);
    assert!(handle_relevant_item(
        &mut phase,
        &loc,
        &extern_crate(Ok(Visibility::NonPub), "bees", None)
    )
    .is_ok());
    assert!(handle_relevant_item(
        &mut phase,
        &loc,
        &extern_crate(Ok(Visibility::Pub), "bees", Some("thing"))
    )
    .is_ok());
    assert!(matches!(
        handle_relevant_item(&mut phase, &loc, &extern_crate(Ok(Visibility::Pub), "wasps", None)),
        Err(WalkError::ExternCrateNotFound(name)) if name.text == "wasps"
    ));
    // The new name is no name of a crate.
    assert!(matches!(
        handle_relevant_item(
            &mut phase,
            &loc,
            &extern_crate(Ok(Visibility::Pub), "thing", Some("bees"))
        ),
        Err(WalkError::ExternCrateNotFound(name)) if name.text == "thing"
    ));
    assert!(matches!(
        handle_relevant_item(
            &mut phase,
            &loc,
            &extern_crate(Err(LowerError::CfgdOut), "wasps", None)
        ),
        Err(WalkError::Lower(LowerError::CfgdOut))
    ));
    let scope = &phase.unexpanded_modules.get(&absolute(&["m"])).unwrap().scope;
    match scope.imports.get(&Ident::new("bees")) {
        Some(Path::Absolute(path)) => {
            assert_eq!(path.crate_.name, "bees");
            assert_eq!(path.crate_.version, "2.0.0");
            assert!(path.path.is_empty());
        }
        other => panic!("{:?}", other),
    }
    assert!(matches!(
        scope.pub_imports.get(&Ident::new("thing")),
        Some(Path::Absolute(path)) if path.crate_.name == "bees"
    ));
    assert!(!scope.pub_imports.contains(&Ident::new("bees")));
    assert!(!scope.imports.contains(&Ident::new("thing")));
    assert!(!scope.imports.contains(&Ident::new("wasps")));
}

#[test]
fn failures_of_relevant_items_are_warned_of() {
    let mut phase = phase_with(&["m"]);
    let loc = location(&["m"]);
    let warnings = walk_items(
        &mut phase,
        &loc,
        &[extern_crate(Ok(Visibility::Pub), "wasps", None), struct_(2, "S")],
    );
    assert_eq!(warnings.len(), 1);
    assert_eq!(warnings[0].span.position, position(1));
    assert!(matches!(
        &warnings[0].cause,
        WalkError::ExternCrateNotFound(name) if name.text == "wasps"
    ));
    assert!(phase.db.types.contains(&absolute(&["m", "S"])));
}

#[test]
fn crates_at_the_root_are_left_alone() {
    let mut phase = phase_with(&[]);
    let loc = location(&[]);
    assert!(handle_relevant_item(
        &mut phase,
        &loc,
        &extern_crate(Err(LowerError::CfgdOut), "wasps", None)
    )
    .is_ok());
    let scope = &phase.unexpanded_modules.get(&absolute(&[])).unwrap().scope;
    assert!(!scope.imports.contains(&Ident::new("wasps")));
    assert!(!scope.pub_imports.contains(&Ident::new("wasps")));
}

#[test]
fn irrelevant_items() {
    let mut phase = phase_with(&[]);
    let loc = location(&[]);
    for item in [struct_(1, "S"), fn_(1, Visibility::Pub, "f"), item(1, ItemBody::Other)] {
        assert!(matches!(
            handle_relevant_item(&mut phase, &loc, &item),
            Err(WalkError::PhaseIrrelevant)
        ));
    }
    assert!(!phase.db.types.contains(&absolute(&["S"])));
}

#[test]
fn a_walk_stays_in_its_module() {
    let mut phase = phase_with(&["m"]);
    phase
        .unexpanded_modules
        .insert(absolute(&["n"]), UnexpandedModule::new(location(&["n"])));
    let use_ = item(
        1,
        ItemBody::Use {
            visibility: Visibility::Pub,
            rooted: false,
            tree: ImportTree::Path(Ident::new("x"), Box::new(ImportTree::Name(Ident::new("Y")))),
        },
    );
    walk_items(
        &mut phase,
        &location(&["m"]),
        &[use_, rules(2, "a", false), macro_(3, &["b"], false, "b", false)],
    );
    let walked = phase.unexpanded_modules.get(&absolute(&["m"])).unwrap();
    assert!(walked.scope.pub_imports.contains(&Ident::new("Y")));
    assert!(!walked.scope.imports.contains(&Ident::new("Y")));
    assert_eq!(walked.unexpanded_items.len(), 1);
    let other = phase.unexpanded_modules.get(&absolute(&["n"])).unwrap();
    assert!(!other.scope.pub_imports.contains(&Ident::new("Y")));
    assert!(other.textual_scope.definitions.is_empty());
    assert!(other.unexpanded_items.is_empty());
    assert!(phase.unexpanded_modules.get(&absolute(&[])).is_none());
}

#[test]
fn spans_name_the_macro_invocation() {
    let outer = Arc::new(Span::new(None, "/fake/outer.rs".to_string(), position(9)));
    let mut loc = location(&[]);
    loc.macro_invocation = Some(outer);
    let mut phase = phase_with(&[]);
    let failed = item(3, ItemBody::Struct { lowered: Err(LowerError::Other("odd".to_string())) });
    let warnings = walk_items(&mut phase, &loc, &[failed]);
    let invocation = warnings[0].span.macro_invocation.as_ref().unwrap();
    assert_eq!(invocation.source_file, "/fake/outer.rs");
    assert_eq!(invocation.position, position(9));
    assert!(invocation.macro_invocation.is_none());
}

#[test]
fn warnings_are_kept() {
    let span = || Span::new(None, "f.rs".to_string(), position(1));
    let mut warnings = Vec::new();
    warn(&mut warnings, WalkError::Lower(LowerError::CfgdOut), span());
    assert!(warnings.is_empty());
    warn(&mut warnings, WalkError::ModuleNotFound, span());
    warn(&mut warnings, WalkError::Lower(LowerError::TypePositionMacro), span());
    assert_eq!(warnings.len(), 2);
    assert!(matches!(warnings[0].cause, WalkError::ModuleNotFound));
}

#[test]
fn a_whole_crate_is_stored() {
    let mut data = crate_data();
    let mut db = Db::new();
    let walked = walk_crate(&mut data, &mut db, "pub struct S {}", &[]).unwrap();
    assert!(walked.warnings.is_empty());
    assert!(walked.root.unexpanded_items.is_empty());
    assert!(matches!(db.types.get(&absolute(&["S"])), Some(TypeItem::Struct(_))));
    assert_eq!(data.crate_.name, "fake_crate");
    assert_eq!(data.deps.get(&Ident::new("bees")).unwrap().version, "2.0.0");
    // What is in the database stays there.
    let walked = walk_crate(
        &mut data,
        &mut db,
        "pub fn f() {} enum S {} #[macro_export] macro_rules! m { () => {} } m! {} use x::Y;",
        &[],
    )
    .unwrap();
    let warnings = walked.warnings;
    assert_eq!(warnings.len(), 1);
    assert!(matches!(&warnings[0].cause, WalkError::AlreadyDefined(Namespace::Types, _)));
    assert_eq!(warnings[0].span.source_file, "/fake/fake_file.rs");
    assert!(matches!(db.types.get(&absolute(&["S"])), Some(TypeItem::Struct(_))));
    assert!(db.symbols.contains(&absolute(&["f"])));
    assert!(db.macros.contains(&absolute(&["m"])));
    assert_eq!(walked.root.unexpanded_items.len(), 1);
    assert_eq!(scope_names(&walked.root.textual_scope.definitions), vec![Some("m")]);
    assert!(walked.root.scope.imports.contains(&Ident::new("Y")));
    assert!(walked.root.loc.module.path.is_empty());
}

#[test]
fn names_of_crates_at_the_root() {
    let mut data = crate_data();
    let mut db = Db::new();
    let warnings = walk_crate(
        &mut data,
        &mut db,
        "extern crate bees as thing;\nextern crate wasps;\nextern crate thing as other;\n\
         extern crate bees as gone;\nstruct S;",
        &[None, None, None, Some(LowerError::CfgdOut)],
    )
    .unwrap()
    .warnings;
    assert_eq!(data.deps.get(&Ident::new("thing")).unwrap().name, "bees");
    assert_eq!(data.deps.get(&Ident::new("bees")).unwrap().name, "bees");
    assert!(!data.deps.contains(&Ident::new("other")));
    assert!(!data.deps.contains(&Ident::new("gone")));
    let missing: Vec<(&str, usize)> = warnings
        .iter()
        .map(|warning| match &warning.cause {
            WalkError::ExternCrateNotFound(name) => {
                (name.text.as_str(), warning.span.position.start_line)
            }
            other => panic!("{:?}", other),
        })
        .collect();
    assert_eq!(missing, vec![("wasps", 2), ("thing", 3)]);
    assert!(db.types.contains(&absolute(&["S"])));
}

#[test]
fn a_crate_that_does_not_parse() {
    let mut data = crate_data();
    let mut db = Db::new();
    let error =
        walk_crate(&mut data, &mut db, "extern crate bees as thing; struct S; fn {}", &[]).err();
    assert!(matches!(error, Some(WalkError::Parse(message)) if message == "expected identifier"));
    assert!(!data.deps.contains(&Ident::new("thing")));
    assert!(!db.types.contains(&absolute(&["S"])));
}

#[test]
fn items_with_type_macros_are_kept() {
    let mut phase = phase_with(&["m"]);
    let loc = location(&["m"]);
    let waiting = || Err(LowerError::TypePositionMacro);
    let warnings = walk_items(
        &mut phase,
        &loc,
        &[
            rules(1, "a", false),
            item(2, ItemBody::Struct { lowered: waiting() }),
            item(3, ItemBody::Fn { visibility: Visibility::Pub, lowered: waiting() }),
            item(4, ItemBody::Fn { visibility: Visibility::NonPub, lowered: waiting() }),
            item(5, ItemBody::Enum { lowered: waiting() }),
            rules(6, "b", false),
        ],
    );
    assert!(warnings.is_empty());
    let module = phase.unexpanded_modules.get(&absolute(&["m"])).unwrap();
    let kept: Vec<_> = module
        .unexpanded_items
        .iter()
        .map(|pending| match &pending.item {
            UnexpandedItem::TypeMacro(tokens) => (
                pending.span.position.start_line,
                tokens.text.as_str(),
                scope_names(&pending.textual_scope.definitions),
            ),
            other => panic!("{:?}", other),
        })
        .collect();
    assert_eq!(
        kept,
        vec![
            (2, "item at 2", vec![Some("a"), None]),
            (3, "item at 3", vec![Some("a"), None]),
            (5, "item at 5", vec![Some("a"), None]),
        ]
    );
}

#[test]
fn tables() {
    let mut table = Table::new();
    assert!(table.get(&Ident::new("a")).is_none());
    table.insert(Ident::new("a"), absolute(&["first"]));
    table.insert(Ident::new("b"), absolute(&["other"]));
    table.insert(Ident::new("a"), absolute(&["second"]));
    assert_eq!(names(&table.get(&Ident::new("a")).unwrap().path), vec!["second"]);
    assert_eq!(names(&table.get(&Ident::new("b")).unwrap().path), vec!["other"]);
    *table.get_mut(&Ident::new("b")).unwrap() = absolute(&["third"]);
    assert_eq!(names(&table.get(&Ident::new("b")).unwrap().path), vec!["third"]);
    assert!(table.get_mut(&Ident::new("c")).is_none());
    assert!(!table.contains(&Ident::new("c")));
    assert!(table.contains(&Ident::new("a")));
}

#[test]
fn crates_in_either_order() {
    let loc_of = |name: &str| {
        let mut loc = location(&["m"]);
        loc.crate_data.crate_ = AbsoluteCrate::new(name, "1.0.0");
        loc.module = AbsolutePath::new(AbsoluteCrate::new(name, "1.0.0"), vec![Ident::new("m")]);
        loc
    };
    let walk_into = |db: Db, name: &str| {
        let mut phase = WalkParseExpandPhase::new(db);
        let loc = loc_of(name);
        phase.unexpanded_modules.insert(loc.module.clone(), UnexpandedModule::new(loc_of(name)));
        let items =
            [struct_(1, "S"), rules(2, "a", true), fn_(3, Visibility::Pub, "f"), enum_(4, "S")];
        let warnings = walk_items(&mut phase, &loc, &items);
        (phase.db, warnings.len())
    };
    for order in [["one", "other"], ["other", "one"]] {
        let (db, first) = walk_into(Db::new(), order[0]);
        let (db, second) = walk_into(db, order[1]);
        assert_eq!((first, second), (1, 1));
        for name in order {
            let loc = loc_of(name);
            let at = |item: &str| loc.module.clone().join(Ident::new(item));
            assert!(matches!(db.types.get(&at("S")), Some(TypeItem::Struct(_))));
            assert!(db.symbols.contains(&at("f")));
            let root = AbsolutePath::new(loc.crate_data.crate_.clone(), vec![Ident::new("a")]);
            assert!(db.macros.contains(&root));
        }
    }
}

#[test]
fn whole_crates_in_either_order() {
    let data_of = |name: &str| {
        let mut data = crate_data();
        data.crate_ = AbsoluteCrate::new(name, "1.0.0");
        data
    };
    let sources = [
        ("one", "struct S; enum S {} call! {} extern crate bees as thing;"),
        ("other", "enum S {} #[macro_export] macro_rules! m { () => {} }"),
    ];
    for order in [[0, 1], [1, 0]] {
        let mut db = Db::new();
        for at in order {
            let (name, source) = sources[at];
            let mut data = data_of(name);
            let walked = walk_crate(&mut data, &mut db, source, &[]).unwrap();
            assert_eq!(walked.warnings.len(), 1 - at);
            assert_eq!(walked.root.unexpanded_items.len(), 1 - at);
            assert_eq!(data.deps.contains(&Ident::new("thing")), at == 0);
        }
        let at = |name: &str, item: &str| {
            AbsolutePath::new(AbsoluteCrate::new(name, "1.0.0"), vec![Ident::new(item)])
        };
        assert!(matches!(db.types.get(&at("one", "S")), Some(TypeItem::Struct(_))));
        assert!(matches!(db.types.get(&at("other", "S")), Some(TypeItem::Enum(_))));
        assert!(db.macros.contains(&at("other", "m")));
        assert!(!db.macros.contains(&at("one", "m")));
    }
}
