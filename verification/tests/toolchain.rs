use tendon::analysis::error::AnalysisError;
use tendon::analysis::toolchain::{
    analysis_folders, extract_rustc_host_triple, extract_rustup_target_triple,
    extract_target_triple, rustc_command, sys_root_path, system_analysis_folder, FolderBase,
};

const VERBOSE: &str = "rustc 1.40.0-nightly (b520af6fd 2019-11-03)
binary: rustc
commit-hash: b520af6fd515b186caa436d75162a42aa183c95a
commit-date: 2019-11-03
host: x86_64-unknown-linux-gnu
release: 1.40.0-nightly
LLVM version: 9.0
";

#[test]
fn host_line_of_rustc() {
    assert_eq!(
        extract_rustc_host_triple(VERBOSE),
        Some("x86_64-unknown-linux-gnu".to_string())
    );
    assert_eq!(
        extract_rustc_host_triple("host: x86_64-unknown-linux-gnu"),
        Some("x86_64-unknown-linux-gnu".to_string())
    );
}

#[test]
fn host_line_details() {
    assert_eq!(
        extract_rustc_host_triple("a\r\nhost: \t x86_64-pc-windows-msvc  rest\r\nb\r\n"),
        Some("x86_64-pc-windows-msvc".to_string())
    );
    assert_eq!(extract_rustc_host_triple("host: one\nhost: two\n"), Some("one".to_string()));
    // The first such line decides, also where it names no triple.
    assert_eq!(extract_rustc_host_triple("host: \nhost: two\n"), None);
    assert_eq!(extract_rustc_host_triple(" host: one\n"), None);
    assert_eq!(extract_rustc_host_triple("host:\n"), None);
    assert_eq!(extract_rustc_host_triple(""), None);
    assert_eq!(extract_rustc_host_triple("\n\n"), None);
    assert_eq!(extract_rustc_host_triple("host: a\u{2003}b"), Some("a".to_string()));
}

fn components(path: &str) -> Vec<Option<String>> {
    std::path::Path::new(path).iter().map(|part| part.to_str().map(String::from)).collect()
}

fn cause<T: std::fmt::Debug>(result: Result<T, AnalysisError>) -> String {
    match result {
        Err(AnalysisError::Other { cause }) => cause,
        other => panic!("{:?}", other),
    }
}

#[test]
fn toolchain_names() {
    for (path, triple) in [
        ("/home/me/.rustup/toolchains/nightly-x86_64-pc-windows-msvc", "x86_64-pc-windows-msvc"),
        ("nightly-x86_64-pc-windows-msvc/", "x86_64-pc-windows-msvc"),
        ("/rust-repo/build/target/stage2", "stage2"),
        ("/x/stable-", ""),
        ("/", "/"),
        ("a-b/..", ".."),
    ] {
        assert_eq!(extract_rustup_target_triple(&components(path)).unwrap(), triple);
    }
    for path in [vec![], vec![Some("a-b".to_string()), None]] {
        assert_eq!(cause(extract_rustup_target_triple(&path)), "extracting toolchain failed");
    }
}

#[test]
fn reported_triple_comes_first() {
    let path = components("/x/nightly-other");
    assert_eq!(
        extract_target_triple(Some("host-triple".to_string()), &path).unwrap(),
        "host-triple"
    );
    assert_eq!(extract_target_triple(None, &path).unwrap(), "other");
    assert!(extract_target_triple(None, &vec![]).is_err());
    assert_eq!(extract_target_triple(Some("t".to_string()), &vec![]).unwrap(), "t");
}

#[test]
fn sysroot_sources() {
    assert_eq!(
        sys_root_path(Some(" /opt/rust ".to_string()), Some("/usr".to_string())).unwrap(),
        " /opt/rust "
    );
    assert_eq!(sys_root_path(None, Some("\t/usr/lib rust \n".to_string())).unwrap(), "/usr/lib rust");
    assert_eq!(sys_root_path(None, Some(" \n".to_string())).unwrap(), "");
    assert!(matches!(sys_root_path(None, None), Err(AnalysisError::CantResolveSysroot)));
}

#[test]
fn compiler_command() {
    assert_eq!(rustc_command(None), "rustc");
    assert_eq!(rustc_command(Some("/bin/rustc-dev".to_string())), "/bin/rustc-dev");
}

#[test]
fn folders() {
    let system = system_analysis_folder(
        Ok(components("/x/nightly-other")),
        Some("x86_64-unknown-linux-gnu".to_string()),
    );
    let folders = analysis_folders(system).unwrap();
    assert_eq!(folders.len(), 2);
    assert_eq!(folders[0].base, FolderBase::Crate);
    assert_eq!(folders[0].joins, vec!["target", "rls", "debug", "deps", "save-analysis"]);
    assert_eq!(folders[1].base, FolderBase::SysRoot);
    assert_eq!(
        folders[1].joins,
        vec!["lib", "rustlib", "x86_64-unknown-linux-gnu", "analysis"]
    );
    let fallback = system_analysis_folder(Ok(components("/x/nightly-other")), None).unwrap();
    assert_eq!(fallback.joins[2], "other");
}

#[test]
fn errors_of_the_system_folder() {
    // The sysroot comes before the triple.
    assert!(matches!(
        system_analysis_folder(Err(AnalysisError::CantResolveSysroot), Some("t".to_string())),
        Err(AnalysisError::CantResolveSysroot)
    ));
    let failed = system_analysis_folder(Ok(vec![]), None);
    assert_eq!(cause(analysis_folders(failed)), "extracting toolchain failed");
}
