use ghbox::error::Error;
use ghbox::filter::{exit_failure, kept_ids, stderr_tail, CommentFilter};

fn filter() -> CommentFilter {
    CommentFilter::new("nogu3", &[]).unwrap()
}

#[test]
fn matches_mention_and_english_merge() {
    assert!(filter().is_merge_request("@nogu3 please merge this"));
}

#[test]
fn matches_mention_and_japanese_merge() {
    assert!(filter().is_merge_request("@nogu3 マージお願いします"));
}

#[test]
fn keyword_is_case_insensitive() {
    assert!(filter().is_merge_request("@nogu3 MERGE it"));
}

#[test]
fn rejects_mention_without_keyword() {
    assert!(!filter().is_merge_request("@nogu3 ちょっと見て"));
}

#[test]
fn rejects_keyword_without_mention() {
    assert!(!filter().is_merge_request("merged into main"));
}

#[test]
fn rejects_mention_of_longer_login() {
    // @nogu3x is a different user
    assert!(!filter().is_merge_request("@nogu3x please merge"));
}

#[test]
fn rejects_mention_of_hyphenated_longer_login() {
    // @nogu3-fork is a different user; a hyphen is no boundary
    assert!(!filter().is_merge_request("@nogu3-fork please merge"));
}

#[test]
fn extra_pattern_counts_as_keyword() {
    let f = CommentFilter::new("nogu3", &[r"(?i)ship\s*it".to_string()]).unwrap();
    assert!(f.is_merge_request("@nogu3 ship it!"));
    // extra pattern alone without mention still rejected
    assert!(!f.is_merge_request("ship it!"));
}

#[test]
fn invalid_extra_pattern_is_config_error() {
    assert!(CommentFilter::new("nogu3", &["(".to_string()]).is_err());
}

#[test]
fn mention_is_case_insensitive() {
    assert!(filter().is_merge_request("@NoGu3 please merge"));
}

#[test]
fn matches_mention_at_end_of_body() {
    assert!(filter().is_merge_request("please merge @nogu3"));
}

#[test]
fn login_with_regex_characters_is_matched_literally() {
    let f = CommentFilter::new("a.b", &[]).unwrap();
    assert!(f.is_merge_request("@a.b merge"));
    assert!(!f.is_merge_request("@axb merge"));
}

#[test]
fn invalid_extra_pattern_message_names_the_pattern() {
    match CommentFilter::new("nogu3", &["ok".to_string(), "(".to_string()]) {
        Err(Error::Config(m)) => assert!(m.starts_with("invalid extra pattern \"(\": "), "got: {m}"),
        Err(other) => panic!("unexpected error {other:?}"),
        Ok(_) => panic!("pattern accepted"),
    }
}

#[test]
fn stderr_tail_keeps_only_the_last_lines() {
    let long: String = (1..=20).map(|n| format!("line{n}\n")).collect();
    let tail = stderr_tail(&long);
    assert!(tail.contains("line20"));
    assert!(tail.contains("line16"));
    // earlier lines are dropped
    assert!(!tail.contains("line15"));
    assert!(!tail.contains("line1\n"));
}

#[test]
fn stderr_tail_keeps_short_text_whole() {
    assert_eq!(stderr_tail("a\nb"), "a\nb");
}

#[test]
fn stderr_tail_caps_bytes_at_a_char_boundary() {
    let long = "é".repeat(1500); // 3000 bytes on one line
    let tail = stderr_tail(&long);
    assert!(tail.starts_with('…'));
    assert_eq!(tail.len(), "…".len() + 2000);
}

#[test]
fn command_filter_trims_and_skips_blank_lines() {
    let keep = kept_ids("  pr:o/r#1  \n\n");
    assert_eq!(keep, vec!["pr:o/r#1".to_string()]);
}

#[test]
fn command_filter_empty_stdout_keeps_nothing() {
    assert!(kept_ids("").is_empty());
}

#[test]
fn command_filter_nonzero_exit_is_error() {
    let err = exit_failure("exit 3", "exit status: 3", "");
    assert!(matches!(err, Error::Filter(m) if m.contains("exited") && m == "command filter exited with exit status: 3: exit 3"));
}

#[test]
fn command_filter_error_includes_stderr() {
    let err = exit_failure("x", "exit status: 1", "boom:123\n");
    assert!(matches!(&err, Error::Filter(m) if m.ends_with("\nboom:123")), "got: {err:?}");
}
