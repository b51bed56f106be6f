use wer::path::RelativePath;
use wer::store::PathChange;
use wer::touch::{diff_touches, touches, TreeChangeSet};

fn change(new_path: Option<&str>, old_path: Option<&str>) -> PathChange {
    PathChange { new_path: new_path.map(String::from), old_path: old_path.map(String::from) }
}

fn path(text: &str) -> RelativePath {
    RelativePath::parse(text)
}

#[test]
fn a_changed_file_touches_itself_and_what_lies_above_it() {
    let diff = vec![change(Some("src/git/blame.x"), Some("src/git/blame.x"))];
    assert!(diff_touches(&diff, &path("src/git/blame.x")));
    assert!(diff_touches(&diff, &path("src/git")));
    assert!(diff_touches(&diff, &path("src")));
    assert!(diff_touches(&diff, &path("")));
}

#[test]
fn a_changed_entry_touches_what_lies_below_it() {
    let diff = vec![change(Some("vendor"), Some("vendor"))];
    assert!(diff_touches(&diff, &path("vendor/lib/file")));
}

#[test]
fn names_are_held_against_each_other_whole() {
    let diff = vec![change(Some("src/main.x"), Some("src/main.x"))];
    assert!(!diff_touches(&diff, &path("sr")));
    assert!(!diff_touches(&diff, &path("src/main")));
    assert!(!diff_touches(&diff, &path("src/main.xy")));
    assert!(!diff_touches(&diff, &path("main.x")));
    assert!(!diff_touches(&diff, &path("docs")));
}

#[test]
fn either_side_of_an_entry_counts() {
    let renamed = vec![change(Some("new/name"), Some("old/name"))];
    assert!(diff_touches(&renamed, &path("new")));
    assert!(diff_touches(&renamed, &path("old")));
    assert!(!diff_touches(&renamed, &path("name")));
    let added = vec![change(Some("a"), None)];
    assert!(diff_touches(&added, &path("a")));
    let removed = vec![change(None, Some("b"))];
    assert!(diff_touches(&removed, &path("b")));
    let neither = vec![change(None, None)];
    assert!(!diff_touches(&neither, &path("")));
}

#[test]
fn any_entry_of_the_diff_may_touch() {
    let diff = vec![
        change(Some("a/1"), Some("a/1")),
        change(Some("b/2"), Some("b/2")),
        change(Some("c/3"), Some("c/3")),
    ];
    assert!(diff_touches(&diff, &path("c")));
    assert!(diff_touches(&diff, &path("b/2")));
    assert!(!diff_touches(&diff, &path("d")));
}

#[test]
fn an_empty_diff_touches_nothing() {
    assert!(!diff_touches(&Vec::new(), &path("")));
    assert!(!diff_touches(&Vec::new(), &path("a")));
    assert!(!touches(&TreeChangeSet::Changes { entries: Vec::new() }, &path("")));
}

#[test]
fn a_commit_without_parents_touches_the_root_and_its_entries() {
    assert!(touches(&TreeChangeSet::Root { entry_found: false }, &path("")));
    assert!(touches(&TreeChangeSet::Root { entry_found: false }, &path(".")));
    assert!(touches(&TreeChangeSet::Root { entry_found: true }, &path("README.md")));
    assert!(!touches(&TreeChangeSet::Root { entry_found: false }, &path("README.md")));
}
