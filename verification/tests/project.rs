use std::cell::RefCell;
use std::collections::BTreeMap;

use pact::manifest::{Manifest, ManifestError, PackageInfo, PactRequirements};
use pact::order::{path_le_exec, sort_paths};
use pact::project::{
    classify_entry, find_project_root, join_path, EntryAction, EntryKind, ProjectError, SourceSet,
};

fn manifest() -> Manifest {
    Manifest {
        package: PackageInfo {
            name: "test-project".to_string(),
            version: "0.1.0".to_string(),
            authors: vec![],
            license: None,
            description: None,
        },
        dependencies: BTreeMap::new(),
        pacts: PactRequirements::default(),
        seal: None,
    }
}

fn strings(v: &[&str]) -> Vec<String> {
    v.iter().map(|s| s.to_string()).collect()
}

// --- find_project_root ----------------------------------------------------

#[test]
fn find_root_at_start() {
    let found = find_project_root("/tmp/proj", |d: &str| d == "/tmp/proj").unwrap();
    assert_eq!(found, "/tmp/proj");
}

#[test]
fn find_root_in_ancestor() {
    let asked = RefCell::new(Vec::new());
    let found = find_project_root("/tmp/proj/a/b", |d: &str| {
        asked.borrow_mut().push(d.to_string());
        d == "/tmp/proj"
    })
    .unwrap();
    assert_eq!(found, "/tmp/proj");
    assert_eq!(*asked.borrow(), strings(&["/tmp/proj/a/b", "/tmp/proj/a", "/tmp/proj"]));
}

#[test]
fn find_root_nearest_wins() {
    let found = find_project_root("/w/x/y", |d: &str| d == "/w" || d == "/w/x").unwrap();
    assert_eq!(found, "/w/x");
}

#[test]
fn find_root_at_filesystem_root() {
    let found = find_project_root("/a", |d: &str| d == "/").unwrap();
    assert_eq!(found, "/");
}

#[test]
fn find_root_missing_everywhere() {
    let asked = RefCell::new(Vec::new());
    let err = find_project_root("/tmp/x", |d: &str| {
        asked.borrow_mut().push(d.to_string());
        false
    })
    .unwrap_err();
    match err {
        ProjectError::ManifestNotFound { searched_from } => assert_eq!(searched_from, "/tmp/x"),
        other => panic!("expected ManifestNotFound, got {other:?}"),
    }
    assert_eq!(*asked.borrow(), strings(&["/tmp/x", "/tmp", "/"]));
}

// --- walking rules ------------------------------------------------------------

#[test]
fn classify_entries() {
    assert_eq!(classify_entry("main.pact", EntryKind::File), EntryAction::Collect);
    assert_eq!(classify_entry("a.b.pact", EntryKind::File), EntryAction::Collect);
    assert_eq!(classify_entry(".hidden.pact", EntryKind::File), EntryAction::Skip);
    assert_eq!(classify_entry(".hidden_dir", EntryKind::Dir), EntryAction::Skip);
    assert_eq!(classify_entry("utils", EntryKind::Dir), EntryAction::Descend);
    assert_eq!(classify_entry("notes.txt", EntryKind::File), EntryAction::Skip);
    assert_eq!(classify_entry("README.md", EntryKind::File), EntryAction::Skip);
    assert_eq!(classify_entry("pact", EntryKind::File), EntryAction::Skip);
    assert_eq!(classify_entry("link.pact", EntryKind::Symlink), EntryAction::Skip);
    assert_eq!(classify_entry("odd.pact", EntryKind::Other), EntryAction::Skip);
    assert_eq!(classify_entry("main.pact", EntryKind::Dir), EntryAction::Descend);
}

#[test]
fn join_paths() {
    assert_eq!(join_path("/r", "src"), "/r/src");
    assert_eq!(join_path("/r/", "src"), "/r/src");
    assert_eq!(join_path("", "src"), "src");
    assert_eq!(join_path("/r", "/abs"), "/abs");
}

// --- ordering -----------------------------------------------------------------

#[test]
fn path_order_puts_separator_first() {
    assert!(path_le_exec("src/a/x.pact", "src/a-b.pact"));
    assert!(!path_le_exec("src/a-b.pact", "src/a/x.pact"));
    assert!(path_le_exec("src/lib.pact", "src/main.pact"));
    assert!(path_le_exec("src", "src/a"));
    assert!(path_le_exec("abc", "abc"));
    assert!(!path_le_exec("b", "a"));
}

#[test]
fn sort_paths_orders_by_components() {
    let sorted = sort_paths(strings(&["src/main.pact", "src/a-b.pact", "src/lib.pact", "src/a/x.pact"]));
    assert_eq!(sorted, strings(&["src/a/x.pact", "src/a-b.pact", "src/lib.pact", "src/main.pact"]));
    assert!(sort_paths(vec![]).is_empty());
    assert_eq!(sort_paths(strings(&["b", "a", "b"])), strings(&["a", "b", "b"]));
}

// --- discover -----------------------------------------------------------------

#[test]
fn discover_sorts_sources_and_tests() {
    let ss = SourceSet::discover(
        "/p",
        Ok(manifest()),
        Some(Ok(strings(&["/p/src/main.pact", "/p/src/lib.pact"]))),
        Some(Ok(strings(&["/p/test/z.pact", "/p/test/main_test.pact"]))),
    )
    .unwrap();
    assert_eq!(ss.root, "/p");
    assert_eq!(ss.sources, strings(&["/p/src/lib.pact", "/p/src/main.pact"]));
    assert_eq!(ss.tests, strings(&["/p/test/main_test.pact", "/p/test/z.pact"]));
    assert_eq!(ss.manifest, manifest());
}

#[test]
fn discover_without_test_dir_has_no_tests() {
    let ss = SourceSet::discover("/p", Ok(manifest()), Some(Ok(strings(&["/p/src/main.pact"]))), None)
        .unwrap();
    assert!(ss.tests.is_empty(), "tests should be empty without test/");
}

#[test]
fn discover_with_empty_src() {
    let ss = SourceSet::discover("/p", Ok(manifest()), Some(Ok(vec![])), None).unwrap();
    assert!(ss.sources.is_empty());
}

#[test]
fn discover_without_src_dir() {
    let err = SourceSet::discover("/p", Ok(manifest()), None, Some(Ok(vec![]))).unwrap_err();
    match err {
        ProjectError::NoSourceDir { root } => assert_eq!(root, "/p"),
        other => panic!("expected NoSourceDir, got {other:?}"),
    }
}

#[test]
fn discover_manifest_error_comes_first() {
    let err = SourceSet::discover(
        "/p",
        Err(ManifestError::MissingField("package".to_string())),
        None,
        None,
    )
    .unwrap_err();
    assert!(matches!(err, ProjectError::ManifestError(ManifestError::MissingField(ref f)) if f == "package"));
}

#[test]
fn discover_passes_walk_errors_on() {
    let io = || std::io::Error::new(std::io::ErrorKind::PermissionDenied, "denied");
    let err = SourceSet::discover(
        "/p",
        Ok(manifest()),
        Some(Err(ProjectError::IoError("/p/src".to_string(), io()))),
        Some(Err(ProjectError::IoError("/p/test".to_string(), io()))),
    )
    .unwrap_err();
    assert!(matches!(err, ProjectError::IoError(ref p, _) if p == "/p/src"));
    let err = SourceSet::discover(
        "/p",
        Ok(manifest()),
        Some(Ok(vec![])),
        Some(Err(ProjectError::IoError("/p/test".to_string(), io()))),
    )
    .unwrap_err();
    assert!(matches!(err, ProjectError::IoError(ref p, _) if p == "/p/test"));
}

#[test]
fn discover_ignores_walk_order() {
    let a = SourceSet::discover(
        "/p",
        Ok(manifest()),
        Some(Ok(strings(&["/p/src/b.pact", "/p/src/a/z.pact", "/p/src/a-c.pact"]))),
        None,
    )
    .unwrap();
    let b = SourceSet::discover(
        "/p",
        Ok(manifest()),
        Some(Ok(strings(&["/p/src/a-c.pact", "/p/src/b.pact", "/p/src/a/z.pact"]))),
        None,
    )
    .unwrap();
    assert_eq!(a.sources, b.sources);
    assert_eq!(a.sources, strings(&["/p/src/a/z.pact", "/p/src/a-c.pact", "/p/src/b.pact"]));
}

#[test]
fn errors_convert_into_their_wrappers() {
    let e: ManifestError = std::io::Error::new(std::io::ErrorKind::NotFound, "gone").into();
    assert!(matches!(e, ManifestError::IoError(_)));
    let p: ProjectError = ManifestError::MissingField("package".to_string()).into();
    assert!(matches!(p, ProjectError::ManifestError(ManifestError::MissingField(ref f)) if f == "package"));
}
