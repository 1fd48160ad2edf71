use committo::candidates::parse_commit_message_candidates;

#[test]
fn test_single_candidate() {
    let response = "fix: resolve authentication issue";
    let candidates = parse_commit_message_candidates(response, 1);
    assert_eq!(candidates.len(), 1);
    assert_eq!(candidates[0], "fix: resolve authentication issue");
}

#[test]
fn test_multiple_candidates_with_numbers() {
    let response = "1. fix: resolve authentication issue\n2. feat: add login validation\n3. refactor: improve auth flow";
    let candidates = parse_commit_message_candidates(response, 3);
    assert_eq!(candidates.len(), 3);
    assert_eq!(candidates[0], "fix: resolve authentication issue");
    assert_eq!(candidates[1], "feat: add login validation");
    assert_eq!(candidates[2], "refactor: improve auth flow");
}

#[test]
fn test_multiple_candidates_with_dashes() {
    let response = "- fix: resolve authentication issue\n- feat: add login validation\n- refactor: improve auth flow";
    let candidates = parse_commit_message_candidates(response, 3);
    assert_eq!(candidates.len(), 3);
    assert_eq!(candidates[0], "fix: resolve authentication issue");
    assert_eq!(candidates[1], "feat: add login validation");
    assert_eq!(candidates[2], "refactor: improve auth flow");
}

#[test]
fn test_multiple_candidates_plain_lines() {
    let response = "fix: resolve authentication issue\nfeat: add login validation\nrefactor: improve auth flow";
    let candidates = parse_commit_message_candidates(response, 3);
    assert_eq!(candidates.len(), 3);
    assert_eq!(candidates[0], "fix: resolve authentication issue");
    assert_eq!(candidates[1], "feat: add login validation");
    assert_eq!(candidates[2], "refactor: improve auth flow");
}

#[test]
fn test_single_line_but_multiple_expected() {
    let response = "fix: resolve authentication issue";
    let candidates = parse_commit_message_candidates(response, 3);
    assert_eq!(candidates.len(), 1);
    assert_eq!(candidates[0], "fix: resolve authentication issue");
}

#[test]
fn test_empty_lines_filtered() {
    let response = "1. fix: resolve authentication issue\n\n2. feat: add login validation\n\n\n3. refactor: improve auth flow\n";
    let candidates = parse_commit_message_candidates(response, 3);
    assert_eq!(candidates.len(), 3);
    assert_eq!(candidates[0], "fix: resolve authentication issue");
    assert_eq!(candidates[1], "feat: add login validation");
    assert_eq!(candidates[2], "refactor: improve auth flow");
}

#[test]
fn numbered_response_of_three_parses_to_three() {
    let response = "1. fix: resolve auth issue\n2. feat: add validation\n3. refactor: improve flow";
    let candidates = parse_commit_message_candidates(response, 3);
    assert_eq!(
        candidates,
        vec!["fix: resolve auth issue", "feat: add validation", "refactor: improve flow"]
    );
}

#[test]
fn single_line_response_falls_back_to_itself() {
    let candidates = parse_commit_message_candidates("fix: resolve auth issue", 3);
    assert_eq!(candidates, vec!["fix: resolve auth issue"]);
}

#[test]
fn single_line_response_is_trimmed_not_emptied() {
    let candidates = parse_commit_message_candidates("   1. fix: typo  \n", 5);
    assert_eq!(candidates, vec!["1. fix: typo"]);
}

#[test]
fn one_expected_keeps_subject_and_body() {
    let response = "  feat: add login\n\n- validate input\n- show errors\n";
    let candidates = parse_commit_message_candidates(response, 1);
    assert_eq!(candidates, vec!["feat: add login\n\n- validate input\n- show errors"]);
}

#[test]
fn one_expected_parse_is_idempotent() {
    let first = parse_commit_message_candidates("\t fix: a\nfeat: b \n", 1);
    let second = parse_commit_message_candidates(&first[0], 1);
    assert_eq!(first, second);
}

#[test]
fn mixed_markers_and_carriage_returns_are_stripped() {
    let response = "* fix: one\r\n2) feat: two\r\n  -  docs: three\r\n";
    let candidates = parse_commit_message_candidates(response, 2);
    assert_eq!(candidates, vec!["fix: one", "feat: two", "docs: three"]);
}

#[test]
fn marker_only_lines_are_dropped() {
    let response = "1.\nfix: one\n- \nfeat: two";
    let candidates = parse_commit_message_candidates(response, 2);
    assert_eq!(candidates, vec!["fix: one", "feat: two"]);
}

#[test]
fn leading_digits_of_a_message_are_stripped_too() {
    let response = "1. 2024 release notes\n2. fix: bug";
    let candidates = parse_commit_message_candidates(response, 2);
    assert_eq!(candidates, vec!["release notes", "fix: bug"]);
}

#[test]
fn zero_expected_still_splits() {
    let candidates = parse_commit_message_candidates("a\nb", 0);
    assert_eq!(candidates, vec!["a", "b"]);
}

#[test]
fn empty_response_gives_one_empty_candidate() {
    assert_eq!(parse_commit_message_candidates("", 3), vec![""]);
    assert_eq!(parse_commit_message_candidates("  \n ", 1), vec![""]);
}

#[test]
fn one_usable_line_among_many_falls_back_to_whole_text() {
    let response = "fix: only one\n\n1.\n";
    let candidates = parse_commit_message_candidates(response, 3);
    assert_eq!(candidates, vec!["fix: only one\n\n1."]);
}

#[test]
fn unicode_whitespace_is_trimmed() {
    let response = "\u{3000}fix: wide space\u{a0}\nfeat: b";
    let candidates = parse_commit_message_candidates(response, 2);
    assert_eq!(candidates, vec!["fix: wide space", "feat: b"]);
}
