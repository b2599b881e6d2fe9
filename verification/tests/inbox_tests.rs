use ghbox::config::{Column, Section, SectionFilter, SortBy};
use ghbox::filter::{kept_ids, CommentFilter};
use ghbox::github::{Fetched, Parsed, PrData};
use ghbox::inbox::{build_inbox, build_sections, pr_items, sort_items, SectionResult};
use ghbox::item::{CommentInfo, PrState};
use ghbox::store::{DoneTable, KIND_MERGE_COMMENT, KIND_PR, KIND_REVIEW_REQUEST};
use ghbox::types::{MergeRequest, ReviewRequest};

fn comment(id: i64, repo: &str, author: &str, body: &str, at: &str) -> MergeRequest {
    MergeRequest {
        comment_id: id,
        repo: repo.into(),
        pr_number: 1,
        pr_title: "t".into(),
        pr_url: "u".into(),
        author: author.into(),
        body: body.into(),
        created_at: at.into(),
    }
}

fn review(repo: &str, number: u64) -> ReviewRequest {
    ReviewRequest {
        repo: repo.into(),
        pr_number: number,
        pr_title: "t".into(),
        pr_url: "u".into(),
        author: "a".into(),
        created_at: "2026-01-01T00:00:00Z".into(),
    }
}

fn parsed(comments: Vec<MergeRequest>, reviews: Vec<ReviewRequest>) -> Parsed {
    Parsed { viewer_login: "nogu3".into(), comments, review_requests: reviews }
}

fn setup() -> (CommentFilter, DoneTable) {
    (CommentFilter::new("nogu3", &[]).unwrap(), DoneTable::new())
}

#[test]
fn keeps_only_matching_comments() {
    let (filter, store) = setup();
    let p = parsed(
        vec![
            comment(1, "o/r", "bot", "@nogu3 merge please", "2026-01-01T00:00:00Z"),
            comment(2, "o/r", "bot", "just chatting", "2026-01-02T00:00:00Z"),
        ],
        vec![],
    );
    let inbox = build_inbox(&p, &filter, &store);
    assert_eq!(inbox.merge_requests.len(), 1);
    assert_eq!(inbox.merge_requests[0].comment_id, 1);
}

#[test]
fn excludes_viewer_own_comments() {
    let (filter, store) = setup();
    let p = parsed(vec![comment(1, "o/r", "nogu3", "@nogu3 merge memo to self", "2026-01-01T00:00:00Z")], vec![]);
    let inbox = build_inbox(&p, &filter, &store);
    assert!(inbox.merge_requests.is_empty());
}

#[test]
fn excludes_done_comment_ids() {
    let (filter, mut store) = setup();
    store.mark_done(KIND_MERGE_COMMENT, "1");
    let p = parsed(
        vec![
            comment(1, "o/r", "bot", "@nogu3 merge", "2026-01-01T00:00:00Z"),
            comment(2, "o/r", "bot", "@nogu3 マージして", "2026-01-02T00:00:00Z"),
        ],
        vec![],
    );
    let inbox = build_inbox(&p, &filter, &store);
    assert_eq!(inbox.merge_requests.len(), 1);
    assert_eq!(inbox.merge_requests[0].comment_id, 2);
}

#[test]
fn excludes_done_review_requests() {
    let (filter, mut store) = setup();
    store.mark_done(KIND_REVIEW_REQUEST, "o/r#1");
    let p = parsed(vec![], vec![review("o/r", 1), review("o/r", 2)]);
    let inbox = build_inbox(&p, &filter, &store);
    assert_eq!(inbox.review_requests.len(), 1);
    assert_eq!(inbox.review_requests[0].pr_number, 2);
}

#[test]
fn sorts_by_repo_then_newest_first() {
    let (filter, store) = setup();
    let p = parsed(
        vec![
            comment(1, "z/repo", "bot", "@nogu3 merge", "2026-01-01T00:00:00Z"),
            comment(2, "a/repo", "bot", "@nogu3 merge", "2026-01-01T00:00:00Z"),
            comment(3, "a/repo", "bot", "@nogu3 merge", "2026-01-02T00:00:00Z"),
        ],
        vec![],
    );
    let inbox = build_inbox(&p, &filter, &store);
    let ids: Vec<i64> = inbox.merge_requests.iter().map(|m| m.comment_id).collect();
    assert_eq!(ids, vec![3, 2, 1]); // a/repo newest first, then z/repo
}

fn section(filter: SectionFilter) -> Section {
    Section { title: "sec".into(), query: "q".into(), columns: vec![Column::Repo], filter, sort: SortBy::Updated }
}

fn pr_data(repo: &str, number: u64, updated_at: &str, comments: Vec<CommentInfo>) -> PrData {
    PrData {
        repo: repo.into(),
        pr_number: number,
        pr_title: "t".into(),
        pr_url: "u".into(),
        pr_author: "author".into(),
        pr_updated_at: updated_at.into(),
        pr_created_at: "2026-01-01T00:00:00Z".into(),
        state: PrState::Open,
        comments,
    }
}

fn cinfo(id: i64, author: &str, body: &str, created_at: &str) -> CommentInfo {
    CommentInfo { id, author: author.into(), body: body.into(), created_at: created_at.into() }
}

fn fetched(sections: Vec<Vec<PrData>>) -> Fetched {
    Fetched { viewer_login: "nogu3".into(), sections, errors: vec![] }
}

fn build(sections: &[Section], f: &Fetched, store: &DoneTable) -> Vec<SectionResult> {
    let outcomes = vec![None; sections.len()];
    build_sections(sections, f, store, &outcomes).unwrap()
}

#[test]
fn none_filter_yields_pr_items() {
    let store = DoneTable::new();
    let f = fetched(vec![vec![pr_data("o/r", 1, "2026-07-02T00:00:00Z", vec![])]]);
    let results = build(&[section(SectionFilter::Unfiltered)], &f, &store);
    let data = results[0].as_ref().unwrap();
    assert_eq!(data.title, "sec");
    assert_eq!(data.items.len(), 1);
    assert!(data.items[0].comment.is_none());
    assert_eq!(data.items[0].stable_id(), "pr:o/r#1");
}

#[test]
fn comment_mention_emits_item_per_matching_comment() {
    let store = DoneTable::new();
    let f = fetched(vec![vec![pr_data(
        "o/r",
        1,
        "2026-07-02T00:00:00Z",
        vec![
            cinfo(1, "bot", "@nogu3 merge please", "2026-01-01T00:00:00Z"),
            cinfo(2, "bot", "@nogu3 マージして", "2026-01-02T00:00:00Z"),
            cinfo(3, "bot", "just chatting", "2026-01-03T00:00:00Z"),
            cinfo(4, "nogu3", "@nogu3 merge memo to self", "2026-01-04T00:00:00Z"),
        ],
    )]]);
    let results = build(&[section(SectionFilter::CommentMention { extra_patterns: vec![] })], &f, &store);
    let items = &results[0].as_ref().unwrap().items;
    // non-matching comment and the viewer's own comment are excluded
    let mut ids: Vec<i64> = items.iter().map(|i| i.comment.as_ref().unwrap().id).collect();
    ids.sort();
    assert_eq!(ids, vec![1, 2]);
}

#[test]
fn done_comment_ids_are_excluded() {
    let mut store = DoneTable::new();
    store.mark_done(KIND_MERGE_COMMENT, "1");
    let f = fetched(vec![vec![pr_data(
        "o/r",
        1,
        "2026-07-02T00:00:00Z",
        vec![
            cinfo(1, "bot", "@nogu3 merge", "2026-01-01T00:00:00Z"),
            cinfo(2, "bot", "@nogu3 merge", "2026-01-02T00:00:00Z"),
        ],
    )]]);
    let results = build(&[section(SectionFilter::CommentMention { extra_patterns: vec![] })], &f, &store);
    let items = &results[0].as_ref().unwrap().items;
    assert_eq!(items.len(), 1);
    assert_eq!(items[0].comment.as_ref().unwrap().id, 2);
}

#[test]
fn done_pr_items_resurface_after_update() {
    let mut store = DoneTable::new();
    store.mark_done_pr("o/r#1", "2026-07-02T00:00:00Z");
    // same updatedAt → still done
    let f1 = fetched(vec![vec![pr_data("o/r", 1, "2026-07-02T00:00:00Z", vec![])]]);
    let r1 = build(&[section(SectionFilter::Unfiltered)], &f1, &store);
    assert!(r1[0].as_ref().unwrap().items.is_empty());
    // PR updated later → resurfaces
    let f2 = fetched(vec![vec![pr_data("o/r", 1, "2026-07-03T00:00:00Z", vec![])]]);
    let r2 = build(&[section(SectionFilter::Unfiltered)], &f2, &store);
    assert_eq!(r2[0].as_ref().unwrap().items.len(), 1);
    // KIND_PR is what got recorded
    assert!(store.is_done(KIND_PR, "o/r#1"));
}

#[test]
fn command_filter_retains_listed_ids_and_ignores_unknown() {
    let store = DoneTable::new();
    let f = fetched(vec![vec![
        pr_data("o/r", 1, "2026-07-02T00:00:00Z", vec![]),
        pr_data("o/r", 2, "2026-07-02T00:00:00Z", vec![]),
    ]]);
    // the command printed one known id and one bogus id; bogus matches nothing
    let outcomes = vec![Some(Ok(kept_ids("pr:o/r#2\npr:bogus#9\n")))];
    let sections = [section(SectionFilter::Command { command: "printf 'pr:o/r#2\\npr:bogus#9\\n'".into() })];
    let results = build_sections(&sections, &f, &store, &outcomes).unwrap();
    let items = &results[0].as_ref().unwrap().items;
    assert_eq!(items.len(), 1);
    assert_eq!(items[0].pr_number, 2);
}

#[test]
fn command_filter_failure_is_per_section() {
    let store = DoneTable::new();
    let f = fetched(vec![
        vec![pr_data("o/r", 1, "2026-07-02T00:00:00Z", vec![])],
        vec![pr_data("o/r", 2, "2026-07-02T00:00:00Z", vec![])],
    ]);
    let sections = [section(SectionFilter::Command { command: "exit 1".into() }), section(SectionFilter::Unfiltered)];
    let outcomes = vec![Some(Err("command filter exited with exit status: 1: exit 1".to_string())), None];
    let results = build_sections(&sections, &f, &store, &outcomes).unwrap();
    // failed section carries an error message including its title
    let err = results[0].as_ref().unwrap_err();
    assert!(err.contains("sec"), "got: {err}");
    assert_eq!(err, "sec: command filter exited with exit status: 1: exit 1");
    // the other section is unaffected
    assert_eq!(results[1].as_ref().unwrap().items.len(), 1);
}

#[test]
fn items_sorted_by_repo_then_time_desc() {
    let store = DoneTable::new();
    let f = fetched(vec![vec![
        pr_data("z/repo", 1, "2026-07-01T00:00:00Z", vec![]),
        pr_data("a/repo", 2, "2026-07-01T00:00:00Z", vec![]),
        pr_data("a/repo", 3, "2026-07-02T00:00:00Z", vec![]),
    ]]);
    let results = build(&[section(SectionFilter::Unfiltered)], &f, &store);
    let numbers: Vec<u64> = results[0].as_ref().unwrap().items.iter().map(|i| i.pr_number).collect();
    assert_eq!(numbers, vec![3, 2, 1]); // a/repo newest first, then z/repo
}

#[test]
fn invalid_viewer_pattern_fails_the_build() {
    let store = DoneTable::new();
    let f = fetched(vec![vec![]]);
    let sections = [section(SectionFilter::CommentMention { extra_patterns: vec!["(".into()] })];
    assert!(build_sections(&sections, &f, &store, &[None]).is_err());
}

#[test]
fn sections_and_fetched_lists_pair_up_to_the_shorter() {
    let store = DoneTable::new();
    let f = fetched(vec![vec![pr_data("o/r", 1, "2026-07-02T00:00:00Z", vec![])]]);
    let sections = [section(SectionFilter::Unfiltered), section(SectionFilter::Unfiltered)];
    let results = build(&sections, &f, &store);
    assert_eq!(results.len(), 1);
}

#[test]
fn created_sort_orders_comments_by_their_creation() {
    let f = vec![pr_data(
        "o/r",
        1,
        "2026-07-09T00:00:00Z",
        vec![],
    )];
    let mut items = pr_items(&f);
    let mut older = items[0].clone();
    older.pr_number = 2;
    older.pr_created_at = "2025-01-01T00:00:00Z".into();
    older.pr_updated_at = "2026-07-10T00:00:00Z".into();
    items.push(older);
    let by_update: Vec<u64> = sort_items(items.clone(), SortBy::Updated).iter().map(|i| i.pr_number).collect();
    assert_eq!(by_update, vec![2, 1]);
    let by_creation: Vec<u64> = sort_items(items, SortBy::Created).iter().map(|i| i.pr_number).collect();
    assert_eq!(by_creation, vec![1, 2]);
}

#[test]
fn ties_keep_their_order() {
    let f = vec![
        pr_data("o/r", 5, "2026-07-01T00:00:00Z", vec![]),
        pr_data("o/r", 4, "2026-07-01T00:00:00Z", vec![]),
        pr_data("o/r", 6, "2026-07-01T00:00:00Z", vec![]),
    ];
    let sorted: Vec<u64> = sort_items(pr_items(&f), SortBy::Updated).iter().map(|i| i.pr_number).collect();
    assert_eq!(sorted, vec![5, 4, 6]);
}
