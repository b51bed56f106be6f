use wer::path::{is_absolute, relative_to, split_pieces, RelativePath};

fn parts(text: &str) -> Vec<String> {
    RelativePath::parse(text).parts
}

#[test]
fn parse_splits_at_separators() {
    assert_eq!(parts("src/lib.x"), vec!["src", "lib.x"]);
    assert_eq!(parts("README.md"), vec!["README.md"]);
    assert_eq!(parts("a/b/c/d"), vec!["a", "b", "c", "d"]);
}

#[test]
fn empty_pieces_and_lone_dots_name_nothing() {
    let none: Vec<String> = Vec::new();
    assert_eq!(parts(""), none);
    assert_eq!(parts("."), none);
    assert_eq!(parts("./"), none);
    assert_eq!(parts("/"), none);
    assert_eq!(parts("src/"), vec!["src"]);
    assert_eq!(parts("src//lib.x"), vec!["src", "lib.x"]);
    assert_eq!(parts("./src/./lib.x"), vec!["src", "lib.x"]);
    assert_eq!(parts("/abs/path"), vec!["abs", "path"]);
}

#[test]
fn dots_inside_names_are_kept() {
    assert_eq!(parts(".git/config"), vec![".git", "config"]);
    assert_eq!(parts("a/.../b"), vec!["a", "...", "b"]);
    assert_eq!(parts("a/..b/c.."), vec!["a", "..b", "c.."]);
}

#[test]
fn a_step_up_takes_away_the_name_before_it() {
    let none: Vec<String> = Vec::new();
    assert_eq!(parts("a/../b"), vec!["b"]);
    assert_eq!(parts("src/../README.md"), vec!["README.md"]);
    assert_eq!(parts("a/b/../../c"), vec!["c"]);
    assert_eq!(parts("a/b/c/.."), vec!["a", "b"]);
    assert_eq!(parts("a/./../b"), vec!["b"]);
    assert_eq!(parts("a/.."), none);
}

#[test]
fn a_step_up_at_the_start_leads_nowhere() {
    let none: Vec<String> = Vec::new();
    assert_eq!(parts(".."), none);
    assert_eq!(parts("../a"), vec!["a"]);
    assert_eq!(parts("/../a"), vec!["a"]);
    assert_eq!(parts("a/../../b"), vec!["b"]);
}

#[test]
fn no_parsed_path_holds_a_step_up() {
    for text in ["..", "../..", "a/..", "a/../..", "x/../y/../z", "/a/b/../../../c/..", "./../."] {
        assert!(parts(text).iter().all(|name| name != ".." && name != "." && !name.is_empty()));
    }
}

#[test]
fn pieces_are_split_without_resolving() {
    assert_eq!(split_pieces("a/../b"), vec!["a", "..", "b"]);
    assert_eq!(split_pieces("/a//b/./c/"), vec!["a", "b", "c"]);
    assert_eq!(split_pieces(""), Vec::<String>::new());
}

#[test]
fn root_is_the_path_without_names() {
    assert!(RelativePath::root().is_root());
    assert!(RelativePath::parse("").is_root());
    assert!(RelativePath::parse(".").is_root());
    assert!(!RelativePath::parse("a").is_root());
}

#[test]
fn starts_with_compares_whole_names() {
    let file = RelativePath::parse("src/lib.x");
    assert!(file.starts_with(&RelativePath::parse("src")));
    assert!(file.starts_with(&RelativePath::parse("src/lib.x")));
    assert!(file.starts_with(&RelativePath::root()));
    assert!(!file.starts_with(&RelativePath::parse("sr")));
    assert!(!file.starts_with(&RelativePath::parse("src/lib")));
    assert!(!file.starts_with(&RelativePath::parse("src/lib.x/more")));
    assert!(!file.starts_with(&RelativePath::parse("lib.x")));
    assert!(!RelativePath::parse("srcs/a").starts_with(&RelativePath::parse("src")));
}

#[test]
fn relation_holds_in_both_directions() {
    let dir = RelativePath::parse("src");
    let file = RelativePath::parse("src/lib.x");
    let other = RelativePath::parse("docs/guide");
    assert!(dir.is_related_to(&file));
    assert!(file.is_related_to(&dir));
    assert!(file.is_related_to(&file));
    assert!(!file.is_related_to(&other));
    assert!(!other.is_related_to(&file));
    assert!(other.is_related_to(&RelativePath::root()));
    assert!(RelativePath::root().is_related_to(&other));
}

#[test]
fn to_text_writes_the_names_with_separators() {
    assert_eq!(RelativePath::parse("src//lib.x").to_text(), "src/lib.x");
    assert_eq!(RelativePath::parse("./a/").to_text(), "a");
    assert_eq!(RelativePath::root().to_text(), "");
}

#[test]
fn skip_drops_leading_names() {
    let path = RelativePath::parse("a/b/c");
    assert_eq!(path.skip(0).parts, vec!["a", "b", "c"]);
    assert_eq!(path.skip(2).parts, vec!["c"]);
    assert!(path.skip(3).is_root());
}

#[test]
fn absolute_paths_start_with_a_separator() {
    assert!(is_absolute("/"));
    assert!(is_absolute("/a/b"));
    assert!(!is_absolute(""));
    assert!(!is_absolute("a/b"));
    assert!(!is_absolute("~/a"));
}

#[test]
fn relative_to_strips_the_base() {
    assert_eq!(relative_to("/repo/src/lib.x", "/repo/").unwrap().parts, vec!["src", "lib.x"]);
    assert_eq!(relative_to("/repo/src/lib.x", "/repo").unwrap().parts, vec!["src", "lib.x"]);
    assert!(relative_to("/repo", "/repo/").unwrap().is_root());
    assert!(relative_to("/repo/", "/repo").unwrap().is_root());
    assert_eq!(relative_to("/a", "/").unwrap().parts, vec!["a"]);
}

#[test]
fn relative_to_refuses_what_lies_elsewhere() {
    assert!(relative_to("/other/file", "/repo/").is_none());
    assert!(relative_to("/repository/file", "/repo/").is_none());
    assert!(relative_to("/rep", "/repo/").is_none());
    assert!(relative_to("repo/file", "/repo/").is_none());
    assert!(relative_to("/repo/file", "repo").is_none());
    assert!(relative_to("repo/file", "repo").is_none());
}

#[test]
fn relative_to_resolves_steps_up_first() {
    assert_eq!(relative_to("/w/repo/src/../README.md", "/w/repo").unwrap().parts, vec!["README.md"]);
    assert_eq!(relative_to("/w/other/../repo/a", "/w/repo/").unwrap().parts, vec!["a"]);
    assert_eq!(relative_to("/w/repo/a", "/w/x/../repo").unwrap().parts, vec!["a"]);
    assert!(relative_to("/w/repo/../other/a", "/w/repo").is_none());
    assert!(relative_to("/w/repo/..", "/w/repo").is_none());
    assert!(relative_to("/w/repo/a/..", "/w/repo").unwrap().is_root());
}
