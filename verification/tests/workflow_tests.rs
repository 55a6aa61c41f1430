use cargit::text::collect_full_command;
use cargit::version::{Version, VersionPart};
use cargit::workflow::{
    cli_affirmative, compose_save_message, process_args, resolve_detached_choice,
    DetachedResolution, ReleaseWorkflow, SaveAction, SaveArgError, SaveEvent, SaveModeOptions,
    WorkflowFailure,
};

#[test]
fn affirmatives_are_y_ye_yes_in_any_case_trimmed() {
    assert!(cli_affirmative("y".to_string()));
    assert!(cli_affirmative("Y".to_string()));
    assert!(cli_affirmative("ye".to_string()));
    assert!(cli_affirmative("YES".to_string()));
    assert!(cli_affirmative("  yes \n".to_string()));
    assert!(!cli_affirmative("n".to_string()));
    assert!(!cli_affirmative("".to_string()));
    assert!(!cli_affirmative("yeah".to_string()));
}

#[test]
fn blank_options_choose_nothing() {
    let o = SaveModeOptions::blank();
    assert!(o.update_part.is_none());
    assert!(o.commit_message.is_none());
    assert!(o.new_version.is_none());
    assert!(!o.publish_after_push);
}

#[test]
fn no_arguments_leave_the_options_blank() {
    let o = process_args(&vec![]).unwrap();
    assert!(o.update_part.is_none());
    assert!(o.commit_message.is_none());
    assert!(!o.publish_after_push);
}

#[test]
fn all_options_can_be_set_together() {
    let args = vec![
        "Minor".to_string(),
        "-m".to_string(),
        "Fix the thing".to_string(),
        "-publish".to_string(),
    ];
    let o = process_args(&args).unwrap();
    assert!(matches!(o.update_part, Some(VersionPart::Minor)));
    assert_eq!(o.commit_message.as_deref(), Some("Fix the thing"));
    assert!(o.publish_after_push);
}

#[test]
fn the_message_argument_is_taken_verbatim() {
    let args = vec!["-m".to_string(), "KEEP My Case".to_string()];
    let o = process_args(&args).unwrap();
    assert_eq!(o.commit_message.as_deref(), Some("KEEP My Case"));
}

#[test]
fn a_second_bump_part_is_refused() {
    let args = vec!["major".to_string(), "patch".to_string()];
    assert_eq!(process_args(&args).unwrap_err(), SaveArgError::DuplicateBumpPart);
}

#[test]
fn a_second_message_is_refused() {
    let args = vec![
        "-m".to_string(),
        "a".to_string(),
        "-m".to_string(),
        "b".to_string(),
    ];
    assert_eq!(process_args(&args).unwrap_err(), SaveArgError::DuplicateMessage);
}

#[test]
fn a_trailing_message_flag_is_refused() {
    assert_eq!(
        process_args(&vec!["-m".to_string()]).unwrap_err(),
        SaveArgError::MissingMessageText
    );
}

#[test]
fn an_unknown_argument_is_refused() {
    assert_eq!(
        process_args(&vec!["bogus".to_string()]).unwrap_err(),
        SaveArgError::UnknownArgument
    );
}

#[test]
fn a_yes_answer_names_a_branch_to_create() {
    match resolve_detached_choice("y", "fix-1\n") {
        DetachedResolution::CreateBranch(name) => assert_eq!(name, "fix-1"),
        other => panic!("expected a branch, got {:?}", other),
    }
}

#[test]
fn a_no_then_yes_discards_the_changes() {
    assert!(matches!(
        resolve_detached_choice("n", "y"),
        DetachedResolution::Discard
    ));
}

#[test]
fn two_negative_answers_decline_the_save() {
    assert!(matches!(
        resolve_detached_choice("n", "n"),
        DetachedResolution::Decline
    ));
    assert!(matches!(
        resolve_detached_choice("whatever", ""),
        DetachedResolution::Decline
    ));
}

#[test]
fn the_report_line_reflects_exactly_the_steps_taken() {
    let v = Some(Version { major: 1, minor: 2, patch: 3 });
    assert_eq!(compose_save_message(&None, false, false), "Saved, Committed!");
    assert_eq!(
        compose_save_message(&v, false, false),
        "Saved, Committed, Tagged! New version: 1.2.3"
    );
    assert_eq!(compose_save_message(&None, true, false), "Saved, Committed, Pushed!");
    assert_eq!(
        compose_save_message(&None, false, true),
        "Saved, Committed, Published!"
    );
    assert_eq!(
        compose_save_message(&v, true, false),
        "Saved, Committed, Tagged, Pushed! New version: 1.2.3"
    );
    assert_eq!(
        compose_save_message(&v, false, true),
        "Saved, Committed, Tagged, Published! New version: 1.2.3"
    );
    assert_eq!(
        compose_save_message(&None, true, true),
        "Saved, Committed, Pushed, Published!"
    );
    assert_eq!(
        compose_save_message(&v, true, true),
        "Saved, Committed, Tagged, Pushed, Published! New version: 1.2.3"
    );
}

#[test]
fn a_full_save_with_bump_push_and_publish_walks_every_step() {
    let options = SaveModeOptions {
        update_part: Some(VersionPart::Patch),
        commit_message: Some("changes".to_string()),
        new_version: None,
        publish_after_push: true,
    };
    let (mut wf, action) = ReleaseWorkflow::start(options);
    assert!(matches!(action, SaveAction::UpdateManifest(VersionPart::Patch)));
    let v = Version { major: 1, minor: 2, patch: 4 };
    let action = wf.advance(SaveEvent::VersionComputed(v));
    assert!(matches!(action, SaveAction::CheckDetached));
    let action = wf.advance(SaveEvent::Detached(false));
    assert!(matches!(action, SaveAction::GenerateLockfile));
    let action = wf.advance(SaveEvent::Proceed);
    assert!(matches!(action, SaveAction::StageAll));
    let action = wf.advance(SaveEvent::Proceed);
    match action {
        SaveAction::Commit(message) => assert_eq!(message, "changes"),
        other => panic!("expected a commit, got {:?}", other),
    }
    let action = wf.advance(SaveEvent::Proceed);
    match action {
        SaveAction::CreateTag(tag) => assert_eq!(tag, "1.2.4"),
        other => panic!("expected a tag, got {:?}", other),
    }
    let action = wf.advance(SaveEvent::Proceed);
    assert!(matches!(action, SaveAction::QueryRemote));
    let action = wf.advance(SaveEvent::Remote(Some("origin".to_string())));
    match action {
        SaveAction::Push(remote) => assert_eq!(remote, "origin"),
        other => panic!("expected a push, got {:?}", other),
    }
    let action = wf.advance(SaveEvent::Proceed);
    assert!(matches!(action, SaveAction::Publish));
    let action = wf.advance(SaveEvent::Proceed);
    match action {
        SaveAction::Report(line) => {
            assert_eq!(line, "Saved, Committed, Tagged, Pushed, Published! New version: 1.2.4")
        },
        other => panic!("expected the report, got {:?}", other),
    }
}

#[test]
fn a_plain_save_skips_bump_tag_push_and_publish() {
    let (mut wf, action) = ReleaseWorkflow::start(SaveModeOptions::blank());
    assert!(matches!(action, SaveAction::CheckDetached));
    let action = wf.advance(SaveEvent::Detached(false));
    assert!(matches!(action, SaveAction::GenerateLockfile));
    let action = wf.advance(SaveEvent::Proceed);
    assert!(matches!(action, SaveAction::StageAll));
    let action = wf.advance(SaveEvent::Proceed);
    match action {
        SaveAction::Commit(message) => assert_eq!(message, "(undocumented change)"),
        other => panic!("expected a commit, got {:?}", other),
    }
    let action = wf.advance(SaveEvent::Proceed);
    assert!(matches!(action, SaveAction::QueryRemote));
    let action = wf.advance(SaveEvent::Remote(None));
    match action {
        SaveAction::Report(line) => assert_eq!(line, "Saved, Committed!"),
        other => panic!("expected the report, got {:?}", other),
    }
}

#[test]
fn a_detached_save_continues_after_creating_a_branch() {
    let (mut wf, _) = ReleaseWorkflow::start(SaveModeOptions::blank());
    let action = wf.advance(SaveEvent::Detached(true));
    assert!(matches!(action, SaveAction::AskRecovery));
    let resolution = resolve_detached_choice("y", "fix-1");
    let action = wf.advance(SaveEvent::Recovery(resolution));
    match action {
        SaveAction::CreateBranchAndSwitch(name) => assert_eq!(name, "fix-1"),
        other => panic!("expected a branch creation, got {:?}", other),
    }
    let action = wf.advance(SaveEvent::Proceed);
    assert!(matches!(action, SaveAction::GenerateLockfile));
    let action = wf.advance(SaveEvent::Proceed);
    assert!(matches!(action, SaveAction::StageAll));
    let action = wf.advance(SaveEvent::Proceed);
    assert!(matches!(action, SaveAction::Commit(_)));
}

#[test]
fn a_detached_save_discarding_changes_returns_and_aborts() {
    let (mut wf, _) = ReleaseWorkflow::start(SaveModeOptions::blank());
    let action = wf.advance(SaveEvent::Detached(true));
    assert!(matches!(action, SaveAction::AskRecovery));
    let resolution = resolve_detached_choice("n", "y");
    let action = wf.advance(SaveEvent::Recovery(resolution));
    assert!(matches!(action, SaveAction::ReturnToOrigin));
    let action = wf.advance(SaveEvent::Proceed);
    assert!(matches!(
        action,
        SaveAction::Fail(WorkflowFailure::AbortedDetachedDiscard)
    ));
}

#[test]
fn a_detached_save_declined_twice_aborts_in_place() {
    let (mut wf, _) = ReleaseWorkflow::start(SaveModeOptions::blank());
    wf.advance(SaveEvent::Detached(true));
    let action = wf.advance(SaveEvent::Recovery(resolve_detached_choice("n", "n")));
    assert!(matches!(
        action,
        SaveAction::Fail(WorkflowFailure::AbortedDetachedDeclined)
    ));
}

#[test]
fn workflow_failure_messages_name_the_cause() {
    assert_eq!(
        WorkflowFailure::AbortedDetachedDeclined.message(),
        "save aborted due to detached head"
    );
    assert_eq!(
        WorkflowFailure::AbortedDetachedDiscard.message(),
        "save aborted due to detached head, returned to original branch while discarding changes"
    );
}

#[test]
fn a_command_line_is_joined_with_single_blanks() {
    assert_eq!(
        collect_full_command("git", &vec!["log".to_string(), "main".to_string()]),
        "git log main"
    );
    assert_eq!(collect_full_command("cargo", &vec![]), "cargo");
}
