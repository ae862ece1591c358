use tendon::resolve::errors::WalkError;
use tendon::resolve::items::{Attribute, Metadata, ModuleItem, Visibility};
use tendon::resolve::locate::{
    find_source_file, pick_source_file, BaseDir, SourceLookup, SourcePath,
};
use tendon::resolve::paths::{AbsoluteCrate, AbsolutePath, Ident, UnresolvedPath};
use tendon::resolve::phase::{CrateData, LocationMetadata};
use tendon::resolve::table::Table;

fn parent(names: &[&str]) -> LocationMetadata {
    let crate_ = || AbsoluteCrate::new("fake_crate", "0.1.0");
    LocationMetadata {
        source_file: "/fake/src/lib.rs".to_string(),
        macro_invocation: None,
        crate_data: CrateData {
            crate_: crate_(),
            entry: "/fake/src/lib.rs".to_string(),
            deps: Table::new(),
        },
        module: AbsolutePath::new(crate_(), names.iter().map(|name| Ident::new(name)).collect()),
    }
}

fn attribute(path: &[&str], rooted: bool, assigned: Option<&str>) -> Attribute {
    Attribute {
        path: UnresolvedPath {
            rooted,
            path: path.iter().map(|name| Ident::new(name)).collect(),
        },
        assigned: assigned.map(String::from),
        text: format!("#[{}]", path.join("::")),
    }
}

fn module(attributes: Vec<Attribute>) -> ModuleItem {
    ModuleItem {
        name: Ident::new("child"),
        metadata: Metadata { visibility: Visibility::Pub, extra_attributes: attributes },
    }
}

fn show(path: &SourcePath) -> String {
    let base = match path.base {
        BaseDir::SourceDir => "SOURCE",
        BaseDir::EntryDir => "ENTRY",
    };
    format!("{}/{}", base, path.joins.join("/"))
}

fn searched(lookup: Result<SourceLookup, WalkError>) -> Vec<String> {
    match lookup {
        Ok(SourceLookup::Search(paths)) => paths.iter().map(show).collect(),
        other => panic!("{:?}", other),
    }
}

#[test]
fn candidates_of_a_module() {
    assert_eq!(
        searched(find_source_file(true, &parent(&["a", "b"]), &mut module(vec![]))),
        vec![
            "ENTRY/a/b/child.rs",
            "ENTRY/a/b/child/mod.rs",
            "SOURCE/child.rs",
            "SOURCE/child/mod.rs"
        ]
    );
    assert_eq!(
        searched(find_source_file(true, &parent(&[]), &mut module(vec![]))),
        vec!["ENTRY/child.rs", "ENTRY/child/mod.rs", "SOURCE/child.rs", "SOURCE/child/mod.rs"]
    );
}

#[test]
fn path_attribute_with_a_file() {
    let mut item = module(vec![
        attribute(&["doc"], false, Some("words")),
        attribute(&["path"], false, Some("other/place.rs")),
        attribute(&["path"], false, Some("second.rs")),
    ]);
    match find_source_file(true, &parent(&["a"]), &mut item) {
        Ok(SourceLookup::Exact(path)) => assert_eq!(show(&path), "SOURCE/other/place.rs"),
        other => panic!("{:?}", other),
    }
    // The first attribute of that name is taken out.
    assert_eq!(item.metadata.extra_attributes.len(), 2);
    assert_eq!(item.metadata.extra_attributes[0].assigned.as_deref(), Some("words"));
    assert_eq!(item.metadata.extra_attributes[1].assigned.as_deref(), Some("second.rs"));
    assert_eq!(item.name.text, "child");
    assert!(matches!(item.metadata.visibility, Visibility::Pub));
    assert!(matches!(find_source_file(false, &parent(&[]), &mut item), Err(WalkError::Root)));
    assert_eq!(item.metadata.extra_attributes.len(), 1);
}

#[test]
fn path_attribute_with_a_name() {
    let mut item = module(vec![attribute(&["path"], false, Some("renamed"))]);
    assert_eq!(
        searched(find_source_file(true, &parent(&["a"]), &mut item)),
        vec![
            "ENTRY/a/renamed.rs",
            "ENTRY/a/renamed/mod.rs",
            "SOURCE/renamed.rs",
            "SOURCE/renamed/mod.rs"
        ]
    );
    assert!(item.metadata.extra_attributes.is_empty());
}

#[test]
fn path_attribute_without_a_string() {
    let mut item = module(vec![attribute(&["path"], false, None)]);
    assert!(matches!(
        find_source_file(true, &parent(&[]), &mut item),
        Err(WalkError::MalformedPathAttribute(text)) if text == "#[path]"
    ));
    assert!(item.metadata.extra_attributes.is_empty());
}

#[test]
fn attributes_that_are_not_path() {
    let mut item = module(vec![
        attribute(&["path"], true, None),
        attribute(&["x", "path"], false, None),
        attribute(&["paths"], false, None),
    ]);
    assert_eq!(searched(find_source_file(true, &parent(&[]), &mut item)).len(), 4);
    assert_eq!(item.metadata.extra_attributes.len(), 3);
}

#[test]
fn extracted_attributes() {
    let mut metadata = module(vec![
        attribute(&["a"], false, Some("1")),
        attribute(&["b"], false, Some("2")),
        attribute(&["a"], false, Some("3")),
    ])
    .metadata;
    let name = Ident::new("a");
    assert_eq!(metadata.extract_attribute(&name).unwrap().assigned.as_deref(), Some("1"));
    assert_eq!(metadata.extract_attribute(&name).unwrap().assigned.as_deref(), Some("3"));
    assert!(metadata.extract_attribute(&name).is_none());
    assert_eq!(metadata.extra_attributes.len(), 1);
}

#[test]
fn the_first_file_is_picked() {
    let candidates = || match find_source_file(true, &parent(&["a"]), &mut module(vec![])) {
        Ok(SourceLookup::Search(paths)) => paths,
        other => panic!("{:?}", other),
    };
    let picked = |is_file: &[bool]| pick_source_file(candidates(), is_file).map(|p| show(&p));
    assert_eq!(picked(&[true, true, true, true]).unwrap(), "ENTRY/a/child.rs");
    assert_eq!(picked(&[false, true, false, true]).unwrap(), "ENTRY/a/child/mod.rs");
    assert_eq!(picked(&[false, false, true, true]).unwrap(), "SOURCE/child.rs");
    assert_eq!(picked(&[false, false, false, true]).unwrap(), "SOURCE/child/mod.rs");
    assert!(matches!(
        pick_source_file(candidates(), &[false, false, false, false]),
        Err(WalkError::ModuleNotFound)
    ));
}
