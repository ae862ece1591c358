use tendon::analysis::error::AnalysisError;
use tendon::analysis::targets::{
    fetch_analysis, has_json_extension, keep_good, paths_in_order, Component, Entry, Listing,
};

fn path(text: &str) -> Vec<Component> {
    std::path::Path::new(text)
        .components()
        .map(|component| match component {
            std::path::Component::RootDir => Component::RootDir,
            std::path::Component::CurDir => Component::CurDir,
            std::path::Component::ParentDir => Component::ParentDir,
            std::path::Component::Normal(name) => {
                Component::Normal(name.to_str().unwrap().as_bytes().to_vec())
            }
            std::path::Component::Prefix(_) => unreachable!(),
        })
        .collect()
}

fn listing(dir: &str, files: Vec<(usize, &str)>) -> Listing {
    Listing {
        dir: dir.to_string(),
        is_dir: true,
        entries: Ok(files
            .into_iter()
            .map(|(id, file)| Entry { id, path: path(file) })
            .collect()),
    }
}

fn ids(listings: Vec<Listing>) -> Vec<usize> {
    fetch_analysis(Ok(listings)).unwrap().iter().map(|entry| entry.id).collect()
}

#[test]
fn json_files_in_order() {
    let crate_dir = listing(
        "/b",
        vec![(0, "/b/z.json"), (1, "/b/a.txt"), (2, "/b/a.json"), (3, "/b/json")],
    );
    let system_dir = listing("/a", vec![(4, "/a/libstd.json"), (5, "/a/libcore.json")]);
    assert_eq!(ids(vec![crate_dir, system_dir]), vec![5, 4, 2, 0]);
    assert_eq!(ids(vec![]), Vec::<usize>::new());
}

#[test]
fn order_of_listing_does_not_matter() {
    let one = listing("/d", vec![(0, "/d/a.json"), (1, "/d/b.json"), (2, "/d/c.json")]);
    let other = listing("/d", vec![(2, "/d/c.json"), (0, "/d/a.json"), (1, "/d/b.json")]);
    assert_eq!(ids(vec![one]), ids(vec![other]));
    // The same files under other numbers.
    let renumbered = listing("/d", vec![(7, "/d/c.json"), (8, "/d/a.json"), (9, "/d/b.json")]);
    assert_eq!(ids(vec![renumbered]), vec![8, 9, 7]);
}

#[test]
fn other_files_make_no_difference() {
    let one = listing("/d", vec![(0, "/d/a.json"), (1, "/d/b.json")]);
    let other = listing("/d", vec![(0, "/d/a.json"), (5, "/d/a.d"), (1, "/d/b.json")]);
    assert_eq!(ids(vec![one]), ids(vec![other]));
}

#[test]
fn paths_order_as_the_platform_does() {
    let texts = [
        "", ".", "..", "/", "a", "a/b", "a-b", "a/b/c", "/a", "../a", "a.json", "ab", "b", "B",
        "/a/b.json", "/a.json", "./a",
    ];
    for left in texts {
        for right in texts {
            assert_eq!(
                paths_in_order(&path(left), &path(right)),
                std::path::Path::new(left) <= std::path::Path::new(right),
                "{} {}",
                left,
                right
            );
        }
    }
}

#[test]
fn prefixes_come_first() {
    let drive = |letter: u8| Component::Prefix { kind: 5, head: vec![letter], tail: vec![] };
    let share = |tail: u8| Component::Prefix { kind: 4, head: vec![115], tail: vec![tail] };
    assert!(paths_in_order(&vec![drive(67)], &vec![drive(68)]));
    assert!(!paths_in_order(&vec![drive(68)], &vec![drive(67)]));
    assert!(paths_in_order(&vec![share(2)], &vec![drive(1)]));
    assert!(!paths_in_order(&vec![share(2)], &vec![share(1)]));
    assert!(paths_in_order(&vec![share(2)], &vec![share(2)]));
    assert!(paths_in_order(&vec![drive(200)], &vec![Component::RootDir]));
}

#[test]
fn extensions_as_the_platform_finds_them() {
    for text in [
        "a.json", "dir.json/a", "a.json.txt", "a.tar.json", ".json", "..json", "a.", "json",
        "a.JSON", "a.jsonx", "a.xjson", "x/.json", "/", "", "..", "a..json", "b/a.json",
    ] {
        assert_eq!(
            has_json_extension(&path(text)),
            std::path::Path::new(text).extension().map(|e| e == "json") == Some(true),
            "{}",
            text
        );
    }
}

#[test]
fn directories_have_to_be_there() {
    let missing = || Listing {
        dir: "/gone".to_string(),
        is_dir: false,
        entries: Ok(vec![]),
    };
    let unreadable = || Listing {
        dir: "/secret".to_string(),
        is_dir: true,
        entries: Err("denied".to_string()),
    };
    let good = || listing("/d", vec![(0, "/d/a.json")]);
    match fetch_analysis(Ok(vec![good(), missing(), unreadable()])) {
        Err(AnalysisError::MissingSaveAnalysis { dir }) => assert_eq!(dir, "/gone"),
        other => panic!("{:?}", other),
    }
    match fetch_analysis(Ok(vec![unreadable(), missing()])) {
        Err(AnalysisError::Io(message)) => assert_eq!(message, "denied"),
        other => panic!("{:?}", other),
    }
}

#[test]
fn directories_have_to_be_known() {
    assert!(matches!(
        fetch_analysis(Err(AnalysisError::CantResolveSysroot)),
        Err(AnalysisError::CantResolveSysroot)
    ));
}

#[test]
fn what_cannot_be_read_is_passed_over() {
    let results: Vec<Result<u32, String>> =
        vec![Ok(1), Err("bad".to_string()), Ok(2), Err("worse".to_string()), Ok(3)];
    assert_eq!(keep_good(results), vec![1, 2, 3]);
    assert_eq!(keep_good(Vec::<Result<u32, String>>::new()), Vec::<u32>::new());
}
