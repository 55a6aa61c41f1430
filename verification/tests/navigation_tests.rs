use cargit::history::CommitRecord;
use cargit::navigation::{
    parse_load_mode, resolve, resolve_next, resolve_prev, LoadMode, NavigationFailure,
};

fn history() -> Vec<CommitRecord> {
    vec![
        CommitRecord { id: "c3".to_string(), tags: vec![] },
        CommitRecord { id: "c2".to_string(), tags: vec![] },
        CommitRecord { id: "c1".to_string(), tags: vec![] },
    ]
}

#[test]
fn no_argument_loads_the_latest() {
    let mode = parse_load_mode(&vec![]).unwrap();
    assert!(matches!(mode, LoadMode::Latest));
}

#[test]
fn mode_words_are_matched_ignoring_case() {
    assert!(matches!(
        parse_load_mode(&vec!["prev".to_string()]).unwrap(),
        LoadMode::Prev
    ));
    assert!(matches!(
        parse_load_mode(&vec!["NEXT".to_string()]).unwrap(),
        LoadMode::Next
    ));
    assert!(matches!(
        parse_load_mode(&vec!["Latest".to_string()]).unwrap(),
        LoadMode::Latest
    ));
}

#[test]
fn any_other_argument_is_an_identifier_kept_verbatim() {
    match parse_load_mode(&vec!["DeadBeef".to_string()]).unwrap() {
        LoadMode::ById(id) => assert_eq!(id, "DeadBeef"),
        other => panic!("expected an identifier, got {:?}", other),
    }
}

#[test]
fn two_mode_arguments_are_ambiguous() {
    assert_eq!(
        parse_load_mode(&vec!["prev".to_string(), "next".to_string()]).unwrap_err(),
        NavigationFailure::AmbiguousMode
    );
}

#[test]
fn prev_resolves_to_the_next_older_commit() {
    assert_eq!(resolve_prev(&history(), "c2").unwrap(), "c1");
}

#[test]
fn next_resolves_to_the_next_newer_commit() {
    assert_eq!(resolve_next(&history(), "c2").unwrap(), "c3");
}

#[test]
fn prev_at_the_oldest_commit_fails() {
    assert_eq!(
        resolve_prev(&history(), "c1").unwrap_err(),
        NavigationFailure::NoSuchCommit
    );
}

#[test]
fn next_at_the_newest_commit_fails() {
    assert_eq!(
        resolve_next(&history(), "c3").unwrap_err(),
        NavigationFailure::NoSuchCommit
    );
}

#[test]
fn an_unknown_current_commit_fails_both_directions() {
    assert_eq!(
        resolve_prev(&history(), "zz").unwrap_err(),
        NavigationFailure::NoSuchCommit
    );
    assert_eq!(
        resolve_next(&history(), "zz").unwrap_err(),
        NavigationFailure::NoSuchCommit
    );
}

#[test]
fn resolving_prev_builds_target_and_report_line() {
    let plan = resolve(&LoadMode::Prev, &history(), "main", "c2").unwrap();
    assert_eq!(plan.target, "c1");
    assert_eq!(plan.message, "checked out previous commit (c1)");
}

#[test]
fn resolving_next_builds_target_and_report_line() {
    let plan = resolve(&LoadMode::Next, &history(), "main", "c2").unwrap();
    assert_eq!(plan.target, "c3");
    assert_eq!(plan.message, "checked out next commit (c3)");
}

#[test]
fn resolving_latest_targets_the_branch_itself() {
    let plan = resolve(&LoadMode::Latest, &history(), "main", "c2").unwrap();
    assert_eq!(plan.target, "main");
    assert_eq!(plan.message, "checked out latest commit in branch main");
}

#[test]
fn resolving_by_id_passes_the_identifier_through() {
    let plan = resolve(
        &LoadMode::ById("v1.0.0".to_string()),
        &history(),
        "main",
        "c2",
    )
    .unwrap();
    assert_eq!(plan.target, "v1.0.0");
    assert_eq!(plan.message, "checked out v1.0.0");
}

#[test]
fn navigation_failure_messages_name_the_cause() {
    assert_eq!(
        NavigationFailure::NoSuchCommit.message(),
        "no such commit in the current branch history"
    );
    assert_eq!(
        NavigationFailure::AmbiguousMode.message(),
        "load mode ('prev' or 'next' or 'latest' or '<id>') set more than once"
    );
}
