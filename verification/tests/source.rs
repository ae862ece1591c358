use tendon::resolve::errors::WalkError;
use tendon::resolve::items::{ImportTree, Item, ItemBody, LowerError, Position, Visibility};
use tendon::resolve::paths::{AbsoluteCrate, AbsolutePath, Ident, Path};
use tendon::resolve::phase::{
    CrateData, Db, LocationMetadata, UnexpandedItem, UnexpandedModule, WalkParseExpandPhase,
};
use tendon::resolve::scope::{lower_use, ModuleScope};
use tendon::resolve::source::{
    lower_item, lower_items, parse_file, ItemKind, RawItem, SourceItem,
};
use tendon::resolve::table::Table;
use tendon::resolve::walk::walk_source;

fn module(names: &[&str]) -> AbsolutePath {
    AbsolutePath::new(
        AbsoluteCrate::new("fake_crate", "0.1.0"),
        names.iter().map(|name| Ident::new(name)).collect(),
    )
}

fn location(names: &[&str]) -> LocationMetadata {
    let mut deps = Table::new();
    deps.insert(Ident::new("bees"), AbsoluteCrate::new("bees", "2.0.0"));
    LocationMetadata {
        source_file: "/fake/fake_file.rs".to_string(),
        macro_invocation: None,
        crate_data: CrateData {
            crate_: AbsoluteCrate::new("fake_crate", "0.1.0"),
            entry: "/fake/fake_file.rs".to_string(),
            deps,
        },
        module: module(names),
    }
}

fn items_in(source: &str) -> Vec<Item> {
    lower_items(parse_file(source).unwrap(), &[])
}

fn only(source: &str) -> Item {
    let mut items = items_in(source);
    assert_eq!(items.len(), 1);
    items.remove(0)
}

fn show(tree: &ImportTree) -> String {
    match tree {
        ImportTree::Path(name, rest) => format!("{}::{}", name.text, show(rest)),
        ImportTree::Name(name) => name.text.clone(),
        ImportTree::Rename(name, alias) => format!("{} as {}", name.text, alias.text),
        ImportTree::Glob => "*".to_string(),
        ImportTree::Group(trees) => {
            format!("{{{}}}", trees.iter().map(show).collect::<Vec<_>>().join(", "))
        }
    }
}

fn spelled(path: &Path) -> String {
    match path {
        Path::Unresolved(path) => {
            let names: Vec<&str> = path.path.iter().map(|name| name.text.as_str()).collect();
            format!("{}{}", if path.rooted { "::" } else { "" }, names.join("::"))
        }
        Path::Absolute(path) => panic!("{:?}", path),
    }
}

fn scope_of(source: &str) -> ModuleScope {
    let mut scope = ModuleScope::new();
    for item in items_in(source) {
        match item.body {
            ItemBody::Use { visibility, rooted, tree } => {
                lower_use(&mut scope, visibility, rooted, &tree)
            }
            other => panic!("{:?}", other),
        }
    }
    scope
}

fn import(scope: &ModuleScope, name: &str) -> Option<String> {
    scope.imports.get(&Ident::new(name)).map(spelled)
}

#[test]
fn kinds_of_items() {
    let source = "
        extern crate bees;
        use x::Y;
        macro_rules! m { () => {} }
        static A: u8 = 0;
        const B: u8 = 0;
        fn f() {}
        struct S;
        enum E {}
        type T = u8;
        union U { x: u8 }
        trait Tr {}
        impl S {}
        mod n {}
        mod o;
    ";
    let kinds: Vec<&str> = items_in(source)
        .iter()
        .map(|item| match &item.body {
            ItemBody::ExternCrate { .. } => "crate",
            ItemBody::Use { .. } => "use",
            ItemBody::Macro { .. } => "macro",
            ItemBody::Static { .. } => "static",
            ItemBody::Const { .. } => "const",
            ItemBody::Fn { .. } => "fn",
            ItemBody::Struct { .. } => "struct",
            ItemBody::Enum { .. } => "enum",
            ItemBody::Other => "other",
        })
        .collect();
    assert_eq!(
        kinds,
        vec![
            "crate", "use", "macro", "static", "const", "fn", "struct", "enum", "other", "other",
            "other", "other", "other", "other"
        ]
    );
}

#[test]
fn kinds_of_items_that_are_not_walked() {
    let source = "
        type T = u8;
        union U { x: u8 }
        trait Tr {}
        trait Al = Tr;
        impl S {}
        extern \"C\" {}
        mod n {}
        pub macro m() {}
    ";
    let kinds: Vec<ItemKind> =
        parse_file(source).unwrap().iter().map(|item| item.raw.kind).collect();
    assert_eq!(
        kinds,
        vec![
            ItemKind::Type,
            ItemKind::Union,
            ItemKind::Trait,
            ItemKind::TraitAlias,
            ItemKind::Impl,
            ItemKind::ForeignMod,
            ItemKind::Mod,
            ItemKind::Verbatim,
        ]
    );
}

#[test]
fn text_that_is_no_source() {
    let message = |source: &str| match parse_file(source) {
        Err(WalkError::Parse(message)) => message,
        other => panic!("{:?}", other),
    };
    for (source, expected) in [
        ("fn {}", "expected identifier"),
        ("struct", "unexpected end of input, expected identifier"),
        ("struct S; }", "cannot parse string into token stream"),
    ] {
        assert_eq!(message(source), expected);
        assert_eq!(message(source), syn::parse_file(source).err().unwrap().to_string());
    }
    assert!(parse_file("").unwrap().is_empty());
    assert!(parse_file("//! Only words.\n").unwrap().is_empty());
}

#[test]
fn names_visibilities_and_tokens() {
    match only("pub struct Point { x: u8 }").body {
        ItemBody::Struct { lowered: Ok(definition) } => {
            assert_eq!(definition.name.text, "Point");
            assert_eq!(definition.visibility, Visibility::Pub);
            assert_eq!(definition.tokens.text, "pub struct Point { x : u8 }");
        }
        other => panic!("{:?}", other),
    }
    match only("pub(crate) enum Color {}").body {
        ItemBody::Enum { lowered: Ok(definition) } => {
            assert_eq!(definition.name.text, "Color");
            assert_eq!(definition.visibility, Visibility::NonPub);
        }
        other => panic!("{:?}", other),
    }
    match only("pub fn walk() {}").body {
        ItemBody::Fn { visibility, lowered: Ok(definition) } => {
            assert_eq!(visibility, Visibility::Pub);
            assert_eq!(definition.name.text, "walk");
        }
        other => panic!("{:?}", other),
    }
    match only("static HIDDEN: u8 = 1;").body {
        ItemBody::Static { visibility, name } => {
            assert_eq!(visibility, Visibility::NonPub);
            assert_eq!(name.text, "HIDDEN");
        }
        other => panic!("{:?}", other),
    }
    match only("pub const SEEN: u8 = 1;").body {
        ItemBody::Const { visibility, name } => {
            assert_eq!(visibility, Visibility::Pub);
            assert_eq!(name.text, "SEEN");
        }
        other => panic!("{:?}", other),
    }
}

#[test]
fn crates_and_their_new_names() {
    match only("pub extern crate bees as thing;").body {
        ItemBody::ExternCrate { metadata, name, rename } => {
            assert!(matches!(metadata, Ok(Visibility::Pub)));
            assert_eq!(name.text, "bees");
            assert_eq!(rename.unwrap().text, "thing");
        }
        other => panic!("{:?}", other),
    }
    match only("extern crate bees;").body {
        ItemBody::ExternCrate { metadata, name, rename } => {
            assert!(matches!(metadata, Ok(Visibility::NonPub)));
            assert_eq!(name.text, "bees");
            assert!(rename.is_none());
        }
        other => panic!("{:?}", other),
    }
}

#[test]
fn macros_and_their_attributes() {
    match only("#[doc(hidden)] #[macro_export] macro_rules! shout { () => {} }").body {
        ItemBody::Macro { path, definition } => {
            assert_eq!(path.get_ident().unwrap().text, "macro_rules");
            let definition = definition.unwrap();
            assert_eq!(definition.name.text, "shout");
            assert!(definition.macro_export);
            assert!(definition.tokens.text.contains("shout"));
        }
        other => panic!("{:?}", other),
    }
    match only("macro_rules! whisper { () => {} }").body {
        ItemBody::Macro { definition, .. } => assert!(!definition.unwrap().macro_export),
        other => panic!("{:?}", other),
    }
    match only("::lib::make! { x }").body {
        ItemBody::Macro { path, definition } => {
            assert!(path.rooted);
            let names: Vec<&str> = path.path.iter().map(|name| name.text.as_str()).collect();
            assert_eq!(names, vec!["lib", "make"]);
            assert!(matches!(
                definition,
                Err(LowerError::Other(cause)) if cause == "the macro has no name"
            ));
        }
        other => panic!("{:?}", other),
    }
}

#[test]
fn positions_in_the_file() {
    // Texts that were parsed before make no difference.
    assert_eq!(parse_file("fn f() { x.0.1 } mod n { fn g() {} }").unwrap().len(), 2);
    let items = items_in("struct A;\n\n    enum B {\n    }\n");
    assert_eq!(
        items[0].position,
        Position { start_line: 1, start_column: 0, end_line: 1, end_column: 9 }
    );
    assert_eq!(
        items[1].position,
        Position { start_line: 3, start_column: 4, end_line: 4, end_column: 5 }
    );
}

#[test]
fn use_trees() {
    for (source, shown) in [
        ("use x;", "x"),
        ("use x::Y;", "x::Y"),
        ("use x::z as w;", "x::z as w"),
        ("use x::y::z::*;", "x::y::z::*"),
        ("use x::{self, y::{A, B as C}, *};", "x::{self, y::{A, B as C}, *}"),
        ("use {};", "{}"),
    ] {
        match only(source).body {
            ItemBody::Use { visibility, rooted, tree } => {
                assert_eq!(show(&tree), shown);
                assert_eq!(visibility, Visibility::NonPub);
                assert!(!rooted);
            }
            other => panic!("{:?}", other),
        }
    }
    assert!(matches!(
        only("pub use ::x::Y;").body,
        ItemBody::Use { visibility: Visibility::Pub, rooted: true, .. }
    ));
}

#[test]
fn imports_by_the_name_they_are_imported_as() {
    let scope = scope_of("use x::Y; use x::z as w; use ::top::T; use one;");
    assert_eq!(import(&scope, "Y"), Some("x::Y".to_string()));
    assert_eq!(import(&scope, "w"), Some("x::z".to_string()));
    assert_eq!(import(&scope, "z"), None);
    assert_eq!(import(&scope, "T"), Some("::top::T".to_string()));
    assert_eq!(import(&scope, "one"), Some("one".to_string()));
    assert!(scope.glob_imports.is_empty());
}

#[test]
fn imports_of_groups() {
    let scope = scope_of("use x::{self, y::{self as why, A}, B as C, *};");
    assert_eq!(import(&scope, "x"), Some("x".to_string()));
    assert_eq!(import(&scope, "why"), Some("x::y".to_string()));
    assert_eq!(import(&scope, "A"), Some("x::y::A".to_string()));
    assert_eq!(import(&scope, "C"), Some("x::B".to_string()));
    assert_eq!(import(&scope, "self"), None);
    let globs: Vec<String> = scope.glob_imports.iter().map(spelled).collect();
    assert_eq!(globs, vec!["x"]);
}

#[test]
fn globs_and_visibility() {
    let scope = scope_of("use x::y::z::*; use a::*; pub use b::*; pub use c::D; use e::D;");
    let globs: Vec<String> = scope.glob_imports.iter().map(spelled).collect();
    assert_eq!(globs, vec!["x::y::z", "a"]);
    let pub_globs: Vec<String> = scope.pub_glob_imports.iter().map(spelled).collect();
    assert_eq!(pub_globs, vec!["b"]);
    assert_eq!(scope.pub_imports.get(&Ident::new("D")).map(spelled), Some("c::D".to_string()));
    assert_eq!(import(&scope, "D"), Some("e::D".to_string()));
}

#[test]
fn later_imports_win() {
    let scope = scope_of("use a::X; use b::X;");
    assert_eq!(import(&scope, "X"), Some("b::X".to_string()));
}

#[test]
fn raw_items() {
    let raw = |kind, name: Option<&str>, attributes: Vec<&str>| SourceItem {
        position: Position { start_line: 1, start_column: 2, end_line: 3, end_column: 4 },
        raw: RawItem {
            kind,
            public: None,
            name: name.map(String::from),
            rename: None,
            attributes: attributes.into_iter().map(String::from).collect(),
            rooted: false,
            segments: vec!["macro_rules".to_string()],
            tree: None,
            text: "the text".to_string(),
        },
    };
    let item = lower_item(raw(ItemKind::Macro, Some("m"), vec!["doc", "macro_export"]), None);
    assert_eq!(item.position.end_column, 4);
    assert_eq!(item.tokens.text, "the text");
    assert!(matches!(
        item.body,
        ItemBody::Macro { definition: Ok(def), .. } if def.macro_export && def.name.text == "m"
    ));
    assert!(matches!(
        lower_item(raw(ItemKind::Macro, Some("m"), vec!["macro_export_not"]), None).body,
        ItemBody::Macro { definition: Ok(def), .. } if !def.macro_export
    ));
    assert!(matches!(
        lower_item(raw(ItemKind::Fn, Some("f"), vec![]), None).body,
        ItemBody::Fn { visibility: Visibility::NonPub, lowered: Ok(definition) }
            if definition.tokens.text == "the text"
    ));
    for kind in [
        ItemKind::Type,
        ItemKind::Union,
        ItemKind::Trait,
        ItemKind::TraitAlias,
        ItemKind::Impl,
        ItemKind::ForeignMod,
        ItemKind::Mod,
        ItemKind::Verbatim,
        ItemKind::Unlisted,
    ] {
        assert!(matches!(lower_item(raw(kind, None, vec![]), None).body, ItemBody::Other));
    }
    let failed = |kind| lower_item(raw(kind, Some("x"), vec![]), Some(LowerError::CfgdOut)).body;
    let cfgd_out = |body: ItemBody| match body {
        ItemBody::ExternCrate { metadata, .. } => matches!(metadata, Err(LowerError::CfgdOut)),
        ItemBody::Macro { definition, .. } => matches!(definition, Err(LowerError::CfgdOut)),
        ItemBody::Fn { lowered, .. } => matches!(lowered, Err(LowerError::CfgdOut)),
        ItemBody::Struct { lowered } => matches!(lowered, Err(LowerError::CfgdOut)),
        ItemBody::Enum { lowered } => matches!(lowered, Err(LowerError::CfgdOut)),
        other => panic!("{:?}", other),
    };
    for kind in [
        ItemKind::ExternCrate,
        ItemKind::Macro,
        ItemKind::Fn,
        ItemKind::Struct,
        ItemKind::Enum,
    ] {
        assert!(cfgd_out(failed(kind)));
    }
    for (public, visibility) in [
        (Some(true), Visibility::Pub),
        (Some(false), Visibility::NonPub),
        (None, Visibility::NonPub),
    ] {
        let mut item = raw(ItemKind::Struct, Some("S"), vec![]);
        item.raw.public = public;
        assert!(matches!(
            lower_item(item, None).body,
            ItemBody::Struct { lowered: Ok(definition) } if definition.visibility == visibility
        ));
    }
}

#[test]
fn a_source_file_is_walked() {
    let mut phase = WalkParseExpandPhase::new(Db::new());
    phase.unexpanded_modules.insert(module(&["m"]), UnexpandedModule::new(location(&["m"])));
    let source = "
        extern crate bees as thing;

        // Functions that are not `pub` are passed over.
        fn f(y: i32) -> i32 {}
        pub fn g() {}

        enum X {}
        enum Y {}

        #[derive(Debug)]
        struct TestStruct {
            x: X, y: Y
        }

        use x::Z;
        #[macro_export]
        macro_rules! shout { () => {} }
        shout! {}
        extern crate wasps;
        struct X;
    ";
    let warnings = walk_source(&mut phase, &location(&["m"]), source, &[]).unwrap();
    for name in ["X", "Y", "TestStruct"] {
        assert!(phase.db.types.contains(&module(&["m", name])));
    }
    assert!(!phase.db.symbols.contains(&module(&["m", "f"])));
    assert!(phase.db.symbols.contains(&module(&["m", "g"])));
    assert!(phase.db.macros.contains(&module(&["shout"])));
    let walked = phase.unexpanded_modules.get(&module(&["m"])).unwrap();
    assert!(walked.scope.imports.contains(&Ident::new("thing")));
    assert_eq!(import(&walked.scope, "Z"), Some("x::Z".to_string()));
    assert_eq!(walked.unexpanded_items.len(), 1);
    assert_eq!(walked.unexpanded_items[0].span.position.start_line, 19);
    assert_eq!(walked.unexpanded_items[0].textual_scope.definitions.len(), 2);
    assert_eq!(warnings.len(), 2);
    assert!(matches!(
        &warnings[0].cause,
        WalkError::ExternCrateNotFound(name) if name.text == "wasps"
    ));
    assert!(matches!(&warnings[1].cause, WalkError::AlreadyDefined(_, _)));
    assert_eq!(warnings[1].span.position.start_line, 21);
}

#[test]
fn what_does_not_parse_changes_nothing() {
    let mut phase = WalkParseExpandPhase::new(Db::new());
    phase.unexpanded_modules.insert(module(&[]), UnexpandedModule::new(location(&[])));
    assert!(matches!(
        walk_source(&mut phase, &location(&[]), "struct S; fn {", &[]),
        Err(WalkError::Parse(_))
    ));
    assert!(!phase.db.types.contains(&module(&["S"])));
}

#[test]
fn what_cannot_be_lowered_is_not_defined() {
    let mut phase = WalkParseExpandPhase::new(Db::new());
    phase.unexpanded_modules.insert(module(&[]), UnexpandedModule::new(location(&[])));
    let source = "struct A; struct B { x: choose!() } struct C; struct D;";
    let failures = [
        Some(LowerError::CfgdOut),
        Some(LowerError::TypePositionMacro),
        Some(LowerError::Other("odd".to_string())),
    ];
    let warnings = walk_source(&mut phase, &location(&[]), source, &failures).unwrap();
    assert_eq!(warnings.len(), 1);
    assert!(matches!(
        &warnings[0].cause,
        WalkError::Lower(LowerError::Other(cause)) if cause == "odd"
    ));
    for name in ["A", "B", "C"] {
        assert!(!phase.db.types.contains(&module(&[name])));
    }
    assert!(phase.db.types.contains(&module(&["D"])));
    let walked = phase.unexpanded_modules.get(&module(&[])).unwrap();
    assert_eq!(walked.unexpanded_items.len(), 1);
    match &walked.unexpanded_items[0].item {
        UnexpandedItem::TypeMacro(tokens) => {
            assert_eq!(tokens.text, "struct B { x : choose ! () }")
        }
        other => panic!("{:?}", other),
    }
}

#[test]
fn literals_of_every_kind() {
    let source = "
        const A: &CStr = c\"hi\";
        const B: &CStr = cr#\"hi\"#;
        const C: &[u8] = b\"hi\";
        const D: (char, u8, f32, i8) = ('x', b'x', 1e3, -1);
        fn f() { x.0.1; 1.0foo; 0b12; \"hi\"suffix; }
    ";
    assert_eq!(parse_file(source).is_ok(), syn::parse_file(source).is_ok());
    assert_eq!(items_in("const A: &CStr = c\"hi\"; const B: &CStr = cr#\"hi\"#;").len(), 2);
}
