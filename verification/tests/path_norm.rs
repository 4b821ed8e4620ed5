use mxu::path_norm::{normalize_components, normalize_path, normalized_components, PathPart};
use std::path::PathBuf;

fn n(s: &str) -> PathPart {
    PathPart::Normal(s.to_string())
}

#[test]
fn removes_current_dir_and_resolves_parent() {
    assert_eq!(normalize_path("a/./b/../c"), PathBuf::from("a/c"));
}

#[test]
fn keeps_leading_parent_dirs() {
    assert_eq!(normalize_path("../a/.."), PathBuf::from(".."));
    assert_eq!(normalize_path("../../x"), PathBuf::from("../../x"));
}

#[test]
fn parent_after_root_stays() {
    assert_eq!(normalize_path("/../a"), PathBuf::from("/../a"));
}

#[test]
fn leading_current_dir_is_dropped() {
    assert_eq!(normalize_path("./a/b/"), PathBuf::from("a/b"));
}

#[test]
fn empty_and_dot_give_empty_path() {
    assert_eq!(normalize_path(""), PathBuf::from(""));
    assert_eq!(normalize_path("."), PathBuf::from(""));
}

#[test]
fn absolute_path_with_repeated_separators() {
    assert_eq!(normalize_path("/usr//local/../bin/./ls"), PathBuf::from("/usr/bin/ls"));
}

#[test]
fn components_normalisation_on_parts() {
    let parts = vec![PathPart::CurDir, n("a"), PathPart::ParentDir, PathPart::ParentDir, n("b")];
    assert_eq!(normalize_components(parts), vec![PathPart::ParentDir, n("b")]);
}

#[test]
fn normalisation_is_idempotent_on_example() {
    let once = normalize_components(vec![n("x"), PathPart::ParentDir, PathPart::ParentDir, n("y"), PathPart::CurDir]);
    let twice = normalize_components(once.clone());
    assert_eq!(once, twice);
    assert_eq!(once, vec![PathPart::ParentDir, n("y")]);
}

#[test]
fn normalized_components_of_path() {
    assert_eq!(normalized_components("a/b/../c"), vec![n("a"), n("c")]);
    assert_eq!(normalized_components("/a"), vec![PathPart::RootDir, n("a")]);
}
