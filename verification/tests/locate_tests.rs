use wer::error::ErrorKind;
use wer::locate::{check_target, parent_of, place_in_workdir, validate_git_path, PathProbe};

fn probe(resolved: Option<&str>, exists: bool, is_dir: bool, is_file: bool) -> PathProbe {
    PathProbe { resolved: resolved.map(String::from), exists, is_dir, is_file }
}

#[test]
fn unresolved_path_is_not_found() {
    let error = check_target("../gone", &probe(None, false, false, false), false).err().unwrap();
    assert_eq!(error.kind, ErrorKind::PathNotFound);
    assert_eq!(error.to_string(), "Cannot resolve path '../gone'. Check if it exists.");
}

#[test]
fn missing_path_is_not_found() {
    let error =
        check_target("/tmp/gone", &probe(Some("/tmp/gone"), false, false, false), true).err().unwrap();
    assert_eq!(error.kind, ErrorKind::PathNotFound);
    assert_eq!(error.to_string(), "Path '/tmp/gone' doesn't exist. Check spelling.");
}

#[test]
fn directory_is_refused_where_a_file_is_needed() {
    let p = probe(Some("/repo/src"), true, true, false);
    let error = check_target("src", &p, true).err().unwrap();
    assert_eq!(error.kind, ErrorKind::PathIsDirectory);
    assert_eq!(error.to_string(), "Blame can only be used on files, not directories: src");
    let through_validate = validate_git_path("src", &p, true).err().unwrap();
    assert_eq!(through_validate.kind, ErrorKind::PathIsDirectory);
}

#[test]
fn failures_come_in_a_fixed_order() {
    let nothing = probe(None, false, true, false);
    assert_eq!(check_target("x", &nothing, true).err().unwrap().kind, ErrorKind::PathNotFound);
    let gone_dir = probe(Some("/x"), false, true, false);
    assert_eq!(
        check_target("x", &gone_dir, true).err().unwrap().to_string(),
        "Path 'x' doesn't exist. Check spelling."
    );
}

#[test]
fn search_starts_above_a_file_and_at_a_directory() {
    let file = check_target("f", &probe(Some("/repo/src/f"), true, false, true), true).ok().unwrap();
    assert_eq!(file.full_path, "/repo/src/f");
    assert_eq!(file.start, "/repo/src");
    let dir = check_target("d", &probe(Some("/repo/src/"), true, true, false), false).ok().unwrap();
    assert_eq!(dir.full_path, "/repo/src/");
    assert_eq!(dir.start, "/repo/src/");
    let other = check_target("s", &probe(Some("/dev/null"), true, false, false), false).ok().unwrap();
    assert_eq!(other.start, "/dev/null");
}

#[test]
fn parent_drops_the_last_name() {
    assert_eq!(parent_of("/a/b/c"), "/a/b");
    assert_eq!(parent_of("/a/b/c/"), "/a/b");
    assert_eq!(parent_of("/a"), "/");
    assert_eq!(parent_of("/"), "/");
    assert_eq!(parent_of("a/b"), "a");
    assert_eq!(parent_of("a"), "");
    assert_eq!(parent_of(""), "");
    assert_eq!(parent_of("/a//b/./c"), "/a/b");
}

#[test]
fn path_is_placed_below_the_working_directory() {
    let workdir = Some("/home/me/repo/".to_string());
    let placed = place_in_workdir("lib.x", "/home/me/repo/src/lib.x", &workdir).ok().unwrap();
    assert_eq!(placed.parts, vec!["src", "lib.x"]);
    let root = place_in_workdir(".", "/home/me/repo", &workdir).ok().unwrap();
    assert!(root.is_root());
}

#[test]
fn path_outside_the_working_directory_is_refused() {
    let workdir = Some("/home/me/repo/".to_string());
    let error = place_in_workdir("x", "/home/me/other/x", &workdir).err().unwrap();
    assert_eq!(error.kind, ErrorKind::PathOutsideRepository);
    assert_eq!(
        error.to_string(),
        "Path 'x' is not within the repository at '/home/me/repo/'"
    );
    let bare = place_in_workdir("x", "/home/me/repo.git/x", &None).err().unwrap();
    assert_eq!(bare.kind, ErrorKind::PathOutsideRepository);
    assert_eq!(bare.to_string(), "Repository has no working directory");
}

#[test]
fn placed_path_holds_no_step_up() {
    let workdir = Some("/w/repo".to_string());
    let placed = place_in_workdir("x", "/w/repo/src/../README.md", &workdir).ok().unwrap();
    assert_eq!(placed.parts, vec!["README.md"]);
    let deeper = place_in_workdir("x", "/w/repo/a/b/../../c/d/../e", &workdir).ok().unwrap();
    assert_eq!(deeper.parts, vec!["c", "e"]);
    let outside = place_in_workdir("x", "/w/repo/../elsewhere/f", &workdir).err().unwrap();
    assert_eq!(outside.kind, ErrorKind::PathOutsideRepository);
    assert_eq!(outside.to_string(), "Path 'x' is not within the repository at '/w/repo'");
}

#[test]
fn search_for_the_repository_starts_at_the_path_as_given() {
    let file =
        check_target("f", &probe(Some("/repo/a/../src/f"), true, false, true), true).ok().unwrap();
    assert_eq!(file.full_path, "/repo/a/../src/f");
    assert_eq!(file.start, "/repo/a/../src");
}
