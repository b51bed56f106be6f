use wer::cli::{check_targets, label_outcome, validate_request, Cli};
use wer::error::{ErrorKind, WerError};

fn cli(blame: bool, date_only: bool, commit_message: bool, last: Option<usize>) -> Cli {
    Cli { path: Some("x".to_string()), blame, date_only, commit_message, last, no_color: false }
}

#[test]
fn options_that_go_together_pass() {
    assert!(validate_request(&cli(false, false, false, None)).is_ok());
    assert!(validate_request(&cli(true, true, false, None)).is_ok());
    assert!(validate_request(&cli(true, false, true, None)).is_ok());
    assert!(validate_request(&cli(false, true, false, Some(3))).is_ok());
    assert!(validate_request(&cli(false, false, true, Some(0))).is_ok());
}

#[test]
fn dates_only_excludes_commit_messages() {
    let error = validate_request(&cli(false, true, true, None)).unwrap_err();
    assert_eq!(error.kind, ErrorKind::InvalidRequest);
    assert_eq!(
        error.to_string(),
        "Cannot use both --date-only and --commit-message flags together. Choose one."
    );
}

#[test]
fn last_contributors_exclude_blame() {
    let error = validate_request(&cli(true, false, false, Some(2))).unwrap_err();
    assert_eq!(error.kind, ErrorKind::InvalidRequest);
    assert_eq!(error.to_string(), "--last flag only works in normal mode, not with --blame");
}

#[test]
fn the_first_broken_rule_is_reported() {
    let error = validate_request(&cli(true, true, true, Some(2))).unwrap_err();
    assert_eq!(
        error.to_string(),
        "Cannot use both --date-only and --commit-message flags together. Choose one."
    );
}

#[test]
fn blame_takes_one_file() {
    let two = vec!["src/main.x".to_string(), "tests/main.x".to_string()];
    let error = check_targets("main.x", &two, true).unwrap_err();
    assert_eq!(error.kind, ErrorKind::InvalidRequest);
    assert_eq!(
        error.to_string(),
        "Multiple files/directories named 'main.x' found:\n  1. src/main.x\n  2. tests/main.x\n\nBlame mode only works with a single file. Please specify the full path to the desired file."
    );
}

#[test]
fn several_paths_are_fine_without_blame() {
    let two = vec!["a".to_string(), "b".to_string()];
    assert!(check_targets("x", &two, false).is_ok());
    assert!(check_targets("x", &two[..1].to_vec(), true).is_ok());
    assert!(check_targets("x", &Vec::new(), true).is_ok());
}

#[test]
fn candidates_are_numbered_from_one() {
    let many: Vec<String> = (0..11).map(|i| format!("d{}/f", i)).collect();
    let text = check_targets("f", &many, true).unwrap_err().to_string();
    assert!(text.contains("\n  1. d0/f\n"));
    assert!(text.contains("\n  10. d9/f\n"));
    assert!(text.contains("\n  11. d10/f\n\nBlame mode"));
}

#[test]
fn single_answer_is_printed_as_it_is() {
    let answer: Result<String, WerError> = Ok("abc1234 Ann - 01 Jan 2025: m".to_string());
    assert_eq!(label_outcome("f", &answer, false), "abc1234 Ann - 01 Jan 2025: m");
}

#[test]
fn answers_of_several_paths_carry_their_path() {
    let answer: Result<String, WerError> = Ok("abc1234 Ann - 01 Jan 2025: m".to_string());
    assert_eq!(label_outcome("a/f", &answer, true), "a/f:\nabc1234 Ann - 01 Jan 2025: m");
}

#[test]
fn a_failure_stands_in_the_place_of_its_own_path() {
    let failure: Result<String, WerError> =
        Err(WerError::with(ErrorKind::NoHistory, "No commits found for path: ", "b/f"));
    assert_eq!(label_outcome("b/f", &failure, true), "b/f:\nError: No commits found for path: b/f");
    assert_eq!(label_outcome("b/f", &failure, false), "Error: No commits found for path: b/f");
}

#[test]
fn errors_are_built_from_their_parts() {
    let error = WerError::about(ErrorKind::PathNotFound, "Path '", "x y", "' not found");
    assert_eq!(error.kind, ErrorKind::PathNotFound);
    assert_eq!(error.message, "Path 'x y' not found");
    assert_eq!(error.to_string(), "Path 'x y' not found");
}
