use committo::selection::{
    present_candidates, present_response, resolve_choice, Presentation, Selection,
    NO_CANDIDATES_MESSAGE,
};
use committo::session::{
    commit_arguments, dry_run_summary, should_skip_generation, CommitError, NO_STAGED_CHANGES,
};

#[test]
fn one_candidate_menu_offers_retry_then_message() {
    match present_response("fix: typo", 1) {
        Presentation::Choose(m) => {
            assert_eq!(m.options, vec!["🔄 Retry (generate new commit message)", "fix: typo"]);
            assert_eq!(m.default_index, 1);
            assert_eq!(m.title, "Select an option:");
            assert_eq!(m.candidates, vec!["fix: typo"]);
            assert_eq!(m.regenerate_notice, "🔄 Generating new commit message...");
        }
        Presentation::NoCandidates => panic!("no menu"),
    }
}

#[test]
fn several_candidates_menu_keeps_order() {
    match present_response("1. a\n2. b\n3. c", 3) {
        Presentation::Choose(m) => {
            assert_eq!(m.options, vec!["🔄 Retry (generate new messages)", "a", "b", "c"]);
            assert_eq!(m.default_index, 1);
            assert_eq!(m.title, "Select a commit message:");
            assert_eq!(m.regenerate_notice, "🔄 Generating new commit messages...");
            assert!(matches!(resolve_choice(&m.candidates, 0), Selection::Regenerate));
            match resolve_choice(&m.candidates, 2) {
                Selection::Commit(msg) => assert_eq!(msg, "b"),
                other => panic!("unexpected {:?}", other),
            }
        }
        Presentation::NoCandidates => panic!("no menu"),
    }
}

#[test]
fn no_candidates_stop_the_loop() {
    assert!(matches!(present_candidates(Vec::new()), Presentation::NoCandidates));
    assert_eq!(NO_CANDIDATES_MESSAGE, "No commit message candidates generated.");
}

#[test]
fn live_run_without_staged_changes_is_skipped() {
    assert!(should_skip_generation("", false));
    assert!(should_skip_generation("  \n\t", false));
    assert!(!should_skip_generation("", true));
    assert!(!should_skip_generation("diff --git a/x b/x", false));
    assert_eq!(NO_STAGED_CHANGES, "No staged changes to commit.");
}

#[test]
fn dry_run_summary_reports_count_or_result() {
    assert_eq!(dry_run_summary("Dry run complete.", 3), "Dry run: Would generate 3 candidates");
    assert_eq!(dry_run_summary("Dry run complete.", 1), "Dry run complete.");
}

#[test]
fn commit_reads_message_from_stdin() {
    assert_eq!(commit_arguments(true), vec!["commit", "--edit", "-F", "-"]);
    assert_eq!(commit_arguments(false), vec!["commit", "-F", "-"]);
}

#[test]
fn commit_failure_names_exit_code() {
    assert_eq!(
        CommitError::ProcessFailed { code: Some(128) }.message(),
        "git commit failed with exit code: 128"
    );
    assert_eq!(
        CommitError::ProcessFailed { code: None }.message(),
        "git commit failed with exit code: -1"
    );
    assert_eq!(
        CommitError::ProcessFailed { code: Some(i32::MIN) }.message(),
        "git commit failed with exit code: -2147483648"
    );
}
