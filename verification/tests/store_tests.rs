use ghbox::error::Error;
use ghbox::store::{pending_migrations, DoneRow, DoneTable, KIND_MERGE_COMMENT, KIND_PR, KIND_REVIEW_REQUEST};

#[test]
fn fresh_store_has_nothing_done() {
    let store = DoneTable::new();
    assert!(!store.is_done(KIND_MERGE_COMMENT, "123"));
}

#[test]
fn mark_done_then_is_done() {
    let mut store = DoneTable::new();
    store.mark_done(KIND_MERGE_COMMENT, "123");
    assert!(store.is_done(KIND_MERGE_COMMENT, "123"));
    // different kind, same key: independent
    assert!(!store.is_done("review_request", "123"));
}

#[test]
fn mark_done_is_idempotent() {
    let mut store = DoneTable::new();
    store.mark_done("review_request", "o/r#1");
    store.mark_done("review_request", "o/r#1");
    assert!(store.is_done("review_request", "o/r#1"));
}

#[test]
fn pr_mark_done_upserts_and_resurfaces_on_update() {
    let mut store = DoneTable::new();
    assert!(!store.is_done_pr("o/r#1", "2026-01-01T00:00:00Z"));
    store.mark_done_pr("o/r#1", "2026-01-01T00:00:00Z");
    assert!(store.is_done_pr("o/r#1", "2026-01-01T00:00:00Z"));
    // PR updated later → resurfaces
    assert!(!store.is_done_pr("o/r#1", "2026-02-01T00:00:00Z"));
    // `d` again with the new updatedAt → done again
    store.mark_done_pr("o/r#1", "2026-02-01T00:00:00Z");
    assert!(store.is_done_pr("o/r#1", "2026-02-01T00:00:00Z"));
}

#[test]
fn newer_db_version_is_rejected() {
    match pending_migrations(99, 2) {
        Err(Error::Schema(m)) => {
            assert_eq!(m, "db schema version 99 is newer than this binary supports (max 2); update ghbox")
        }
        other => panic!("expected a schema error, got {other:?}"),
    }
}

#[test]
fn migrations_start_at_the_current_version() {
    assert_eq!(pending_migrations(0, 2), Ok(0));
    assert_eq!(pending_migrations(1, 2), Ok(1));
    assert_eq!(pending_migrations(2, 2), Ok(2));
}

#[test]
fn later_rows_replace_earlier_ones() {
    let rows = vec![
        DoneRow { kind: KIND_PR.into(), key: "o/r#1".into(), updated_at: Some("2026-01-01T00:00:00Z".into()) },
        DoneRow { kind: KIND_PR.into(), key: "o/r#1".into(), updated_at: Some("2026-03-01T00:00:00Z".into()) },
        DoneRow { kind: KIND_REVIEW_REQUEST.into(), key: "o/r#2".into(), updated_at: None },
    ];
    let store = DoneTable::from_rows(rows);
    assert!(store.is_done_pr("o/r#1", "2026-02-01T00:00:00Z"));
    assert!(!store.is_done_pr("o/r#1", "2026-04-01T00:00:00Z"));
    assert!(store.is_done(KIND_REVIEW_REQUEST, "o/r#2"));
    // a mark without a recorded time covers no pull request
    assert!(!store.is_done_pr("o/r#2", "2026-01-01T00:00:00Z"));
}

#[test]
fn mark_done_keeps_other_marks() {
    let mut store = DoneTable::new();
    store.mark_done_pr("o/r#1", "2026-01-01T00:00:00Z");
    store.mark_done(KIND_MERGE_COMMENT, "7");
    assert!(store.is_done_pr("o/r#1", "2026-01-01T00:00:00Z"));
    assert!(store.is_done(KIND_MERGE_COMMENT, "7"));
    assert!(!store.is_done(KIND_MERGE_COMMENT, "8"));
}
