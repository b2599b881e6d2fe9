use ghbox::item::{CommentInfo, Item, PrState};
use ghbox::types::ReviewRequest;

fn pr_item() -> Item {
    Item {
        repo: "nogu3/hestia".into(),
        pr_number: 9,
        pr_title: "t".into(),
        pr_url: "u".into(),
        pr_author: "alice".into(),
        pr_updated_at: "2026-07-02T00:00:00Z".into(),
        pr_created_at: "2026-07-01T00:00:00Z".into(),
        state: PrState::Open,
        comment: None,
    }
}

fn comment_item() -> Item {
    Item {
        comment: Some(CommentInfo {
            id: 42,
            author: "bob".into(),
            body: "@nogu3 merge please".into(),
            created_at: "2026-07-03T00:00:00Z".into(),
        }),
        ..pr_item()
    }
}

#[test]
fn pr_item_stable_id_and_key() {
    assert_eq!(pr_item().stable_id(), "pr:nogu3/hestia#9");
    assert_eq!(pr_item().pr_key(), "nogu3/hestia#9");
}

#[test]
fn comment_item_stable_id_uses_comment_id() {
    assert_eq!(comment_item().stable_id(), "comment:42");
}

#[test]
fn sort_time_follows_item_kind() {
    assert_eq!(pr_item().sort_time(), "2026-07-02T00:00:00Z");
    assert_eq!(comment_item().sort_time(), "2026-07-03T00:00:00Z");
}

#[test]
fn display_author_follows_item_kind() {
    assert_eq!(pr_item().display_author(), "alice");
    assert_eq!(comment_item().display_author(), "bob");
}

#[test]
fn review_request_key_is_repo_and_number() {
    let rr = ReviewRequest {
        repo: "nogu3/hestia".into(),
        pr_number: 9,
        pr_title: "t".into(),
        pr_url: "u".into(),
        author: "a".into(),
        created_at: "2026-01-01T00:00:00Z".into(),
    };
    assert_eq!(rr.key(), "nogu3/hestia#9");
}

#[test]
fn negative_comment_id_keeps_its_sign() {
    let mut item = comment_item();
    item.comment.as_mut().unwrap().id = -7;
    assert_eq!(item.stable_id(), "comment:-7");
}

#[test]
fn stable_ids_of_different_rows_differ() {
    // a repository name with '#' still yields distinct keys
    let mut a = pr_item();
    a.repo = "o/r#1".into();
    a.pr_number = 2;
    let mut b = pr_item();
    b.repo = "o/r".into();
    b.pr_number = 12;
    assert_eq!(a.pr_key(), "o/r#1#2");
    assert_eq!(b.pr_key(), "o/r#12");
    assert_ne!(a.stable_id(), b.stable_id());
    assert_ne!(pr_item().stable_id(), comment_item().stable_id());
}

#[test]
fn duplicate_keeps_every_field() {
    assert_eq!(comment_item().duplicate(), comment_item());
    assert_eq!(pr_item().duplicate(), pr_item());
}
