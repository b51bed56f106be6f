use wer::commit::{ColorScheme, CommitInfo};
use wer::error::ErrorKind;
use wer::history::{
    describe_history, last_n_contributors, last_touching, render_contributors, render_last,
    ContributorWalk, Visit,
};
use wer::path::RelativePath;
use wer::store::PathChange;
use wer::touch::TreeChangeSet;

fn info(hash: &str, author: &str, date: &str, message: &str) -> CommitInfo {
    CommitInfo {
        hash: hash.to_string(),
        author: author.to_string(),
        date: date.to_string(),
        message: message.to_string(),
    }
}

fn changed(paths: &[&str]) -> TreeChangeSet {
    TreeChangeSet::Changes {
        entries: paths
            .iter()
            .map(|p| PathChange { new_path: Some(p.to_string()), old_path: Some(p.to_string()) })
            .collect(),
    }
}

/// The walk of a repository in which A adds README.md, B adds src/lib.x
/// and C changes README.md, seen from `path`. A and C are by one author.
fn walk_for(path: &str) -> Vec<Visit> {
    let in_first_tree = path == "README.md";
    vec![
        Visit {
            info: info("ccccccc", "Alice", "11 Jun 2025", "Extend readme"),
            changes: changed(&["README.md"]),
        },
        Visit {
            info: info("bbbbbbb", "Bob", "10 Jun 2025", "Add library"),
            changes: changed(&["src/lib.x"]),
        },
        Visit {
            info: info("aaaaaaa", "Alice", "09 Jun 2025", "Add readme"),
            changes: TreeChangeSet::Root { entry_found: in_first_tree },
        },
    ]
}

fn describe(path: &str, last: Option<usize>) -> Result<String, wer::error::WerError> {
    describe_history(
        path,
        &walk_for(path),
        &RelativePath::parse(path),
        &ColorScheme::new(true),
        false,
        false,
        last,
    )
}

#[test]
fn last_touching_finds_the_newest_commit_that_touches() {
    assert_eq!(last_touching(&walk_for("README.md"), &RelativePath::parse("README.md")), Some(0));
    assert_eq!(last_touching(&walk_for("src"), &RelativePath::parse("src")), Some(1));
    assert_eq!(last_touching(&walk_for("src/lib.x"), &RelativePath::parse("src/lib.x")), Some(1));
    assert_eq!(last_touching(&walk_for("none"), &RelativePath::parse("none")), None);
    assert_eq!(last_touching(&Vec::new(), &RelativePath::root()), None);
}

#[test]
fn readme_was_last_touched_by_the_third_commit() {
    assert_eq!(describe("README.md", None).unwrap(), "ccccccc Alice - 11 Jun 2025: Extend readme");
}

#[test]
fn directory_was_last_touched_by_the_second_commit() {
    assert_eq!(describe("src", None).unwrap(), "bbbbbbb Bob - 10 Jun 2025: Add library");
}

#[test]
fn one_author_is_one_contributor_and_the_answer_says_so() {
    assert_eq!(
        describe("README.md", Some(5)).unwrap(),
        "ccccccc Alice - 11 Jun 2025: Extend readme\nSearched for 5 but only 1 contributed"
    );
}

#[test]
fn root_commit_answers_for_the_root_when_nothing_else_does() {
    let walk = vec![Visit {
        info: info("aaaaaaa", "Alice", "09 Jun 2025", "Empty start"),
        changes: TreeChangeSet::Root { entry_found: false },
    }];
    let colors = ColorScheme::new(true);
    let root = RelativePath::root();
    assert_eq!(last_touching(&walk, &root), Some(0));
    let text = describe_history(".", &walk, &root, &colors, false, false, None).unwrap();
    assert_eq!(text, "aaaaaaa Alice - 09 Jun 2025: Empty start");
    let file = RelativePath::parse("file");
    assert_eq!(last_touching(&walk, &file), None);
}

#[test]
fn a_path_held_by_the_first_commit_alone_is_found_there() {
    let walk = vec![
        Visit { info: info("ccccccc", "Cid", "11 Jun 2025", "Later"), changes: changed(&["b"]) },
        Visit { info: info("bbbbbbb", "Bob", "10 Jun 2025", "Then"), changes: changed(&["a"]) },
        Visit {
            info: info("aaaaaaa", "Ann", "09 Jun 2025", "Start"),
            changes: TreeChangeSet::Root { entry_found: true },
        },
    ];
    let license = RelativePath::parse("LICENSE");
    let colors = ColorScheme::new(true);
    assert_eq!(last_touching(&walk, &license), Some(2));
    assert_eq!(
        describe_history("LICENSE", &walk, &license, &colors, false, false, None).unwrap(),
        "aaaaaaa Ann - 09 Jun 2025: Start"
    );
    assert_eq!(
        describe_history("LICENSE", &walk, &license, &colors, false, false, Some(1)).unwrap(),
        "aaaaaaa Ann - 09 Jun 2025: Start"
    );
}

#[test]
fn untouched_path_has_no_history() {
    let error = describe("docs", None).unwrap_err();
    assert_eq!(error.kind, ErrorKind::NoHistory);
    assert_eq!(error.to_string(), "No commits found for path: docs");
    let error = describe("docs", Some(2)).unwrap_err();
    assert_eq!(error.kind, ErrorKind::NoHistory);
    assert_eq!(error.to_string(), "No commits found for path: docs");
}

#[test]
fn contributors_are_distinct_and_newest_first() {
    let authors = ["Ann", "Bob", "Ann", "Cid", "Bob", "Dan"];
    let walk: Vec<Visit> = authors
        .iter()
        .enumerate()
        .map(|(i, a)| Visit {
            info: info(&format!("{:07}", i), a, "01 Jan 2025", "m"),
            changes: changed(&["f"]),
        })
        .collect();
    let path = RelativePath::parse("f");
    let hashes = |n: usize| -> Vec<String> {
        last_n_contributors(&walk, &path, n).into_iter().map(|c| c.hash).collect()
    };
    assert_eq!(hashes(1), vec!["0000000"]);
    assert_eq!(hashes(2), vec!["0000000", "0000001"]);
    assert_eq!(hashes(3), vec!["0000000", "0000001", "0000003"]);
    assert_eq!(hashes(4), vec!["0000000", "0000001", "0000003", "0000005"]);
    assert_eq!(hashes(9), vec!["0000000", "0000001", "0000003", "0000005"]);
}

#[test]
fn commits_that_do_not_touch_are_no_contributors() {
    let walk = vec![
        Visit { info: info("1", "Ann", "d", "m"), changes: changed(&["other"]) },
        Visit { info: info("2", "Bob", "d", "m"), changes: changed(&["f"]) },
        Visit { info: info("3", "Ann", "d", "m"), changes: changed(&["f/inner"]) },
    ];
    let picks = last_n_contributors(&walk, &RelativePath::parse("f"), 5);
    let hashes: Vec<String> = picks.into_iter().map(|c| c.hash).collect();
    assert_eq!(hashes, vec!["2", "3"]);
}

#[test]
fn asking_for_no_contributor_gives_none() {
    let walk = walk_for("README.md");
    let picks = last_n_contributors(&walk, &RelativePath::parse("README.md"), 0);
    assert!(picks.is_empty());
    let error = describe("README.md", Some(0)).unwrap_err();
    assert_eq!(error.kind, ErrorKind::NoHistory);
    assert_eq!(error.to_string(), "No commits found for path: README.md");
}

#[test]
fn a_walk_for_no_contributor_is_complete_at_once() {
    let mut walk = ContributorWalk::new(0);
    assert!(walk.is_complete());
    assert!(walk.offer(info("1", "Ann", "d", "m")));
    assert!(walk.picks.is_empty());
}

#[test]
fn a_complete_walk_takes_no_more() {
    let mut walk = ContributorWalk::new(1);
    assert!(walk.offer(info("1", "Ann", "d", "m")));
    assert!(walk.offer(info("2", "Bob", "d", "m")));
    assert_eq!(walk.picks.len(), 1);
    assert_eq!(walk.picks[0].hash, "1");
}

#[test]
fn take_looks_at_what_the_commit_changed() {
    let path = RelativePath::parse("f");
    let mut walk = ContributorWalk::new(2);
    let other = Visit { info: info("1", "Ann", "d", "m"), changes: changed(&["g"]) };
    assert!(!walk.take(&other, &path));
    assert!(walk.picks.is_empty());
    let first = Visit { info: info("2", "Ann", "d", "m"), changes: changed(&["f"]) };
    assert!(!walk.take(&first, &path));
    let again = Visit { info: info("3", "Ann", "d", "m"), changes: changed(&["f"]) };
    assert!(!walk.take(&again, &path));
    let second = Visit { info: info("4", "Bob", "d", "m"), changes: changed(&["f/x"]) };
    assert!(walk.take(&second, &path));
    let hashes: Vec<String> = walk.picks.into_iter().map(|c| c.hash).collect();
    assert_eq!(hashes, vec!["2", "4"]);
}

#[test]
fn authors_are_told_apart_by_the_name_shown() {
    let long_a = CommitInfo::from_parts("1", Some("Maximilian Mustermann"), "d".to_string(), None);
    let long_b = CommitInfo::from_parts("2", Some("Maximilian Musterfrau"), "d".to_string(), None);
    let mut walk = ContributorWalk::new(5);
    assert!(!walk.offer(long_a));
    assert!(!walk.offer(long_b));
    assert_eq!(walk.picks.len(), 1);
    assert_eq!(walk.picks[0].hash, "1");
}

#[test]
fn walk_stops_when_it_has_what_was_asked_for() {
    let mut walk = ContributorWalk::new(2);
    assert!(!walk.is_complete());
    assert!(!walk.offer(info("1", "Ann", "d", "m")));
    assert!(walk.knows("Ann"));
    assert!(!walk.knows("Bob"));
    assert!(!walk.offer(info("2", "Ann", "d", "m")));
    assert!(!walk.is_complete());
    assert!(walk.offer(info("3", "Bob", "d", "m")));
    assert!(walk.is_complete());
    let hashes: Vec<String> = walk.picks.into_iter().map(|c| c.hash).collect();
    assert_eq!(hashes, vec!["1", "3"]);
}

#[test]
fn contributors_are_written_one_on_each_line() {
    let picks = vec![info("1111111", "Ann", "01 Jan 2025", "one"), info("2222222", "Bob", "02 Jan 2025", "two")];
    let colors = ColorScheme::new(true);
    assert_eq!(
        render_contributors("p", &picks, 2, &colors, false).unwrap(),
        "1111111 Ann - 01 Jan 2025: one\n2222222 Bob - 02 Jan 2025: two"
    );
    assert_eq!(
        render_contributors("p", &picks, 3, &colors, false).unwrap(),
        "1111111 Ann - 01 Jan 2025: one\n2222222 Bob - 02 Jan 2025: two\nSearched for 3 but only 2 contributed"
    );
    let first = vec![info("1111111", "Ann", "01 Jan 2025", "one")];
    assert_eq!(
        render_contributors("p", &first, 1, &colors, true).unwrap(),
        "1111111 Ann - 01 Jan 2025\n└─ one"
    );
    let error = render_contributors("some/path", &Vec::new(), 3, &colors, false).unwrap_err();
    assert_eq!(error.kind, ErrorKind::NoHistory);
    assert_eq!(error.to_string(), "No commits found for path: some/path");
}

#[test]
fn last_commit_is_written_as_a_line_or_as_a_date() {
    let commit = info("1111111", "Ann", "01 Jan 2025", "one");
    assert_eq!(
        render_last(&commit, &ColorScheme::new(true), false, false),
        "1111111 Ann - 01 Jan 2025: one"
    );
    assert_eq!(render_last(&commit, &ColorScheme::new(true), true, false), "01 Jan 2025");
    assert_eq!(
        render_last(&commit, &ColorScheme::new(false), true, false),
        "\x1b[36m01 Jan 2025\x1b[0m"
    );
    assert_eq!(
        render_last(&commit, &ColorScheme::new(true), false, true),
        "1111111 Ann - 01 Jan 2025\n└─ one"
    );
}
