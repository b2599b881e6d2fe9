use ghbox::app::{action_for, compose_status, hms, Action, App, DoneEntry, Effect};
use ghbox::config::{KeySpec, Keybindings};
use ghbox::inbox::SectionData;
use ghbox::item::{CommentInfo, Item, PrState};

fn pr_item(number: u64) -> Item {
    Item {
        repo: "o/r".into(),
        pr_number: number,
        pr_title: "t".into(),
        pr_url: format!("https://example.com/pr/{number}"),
        pr_author: "a".into(),
        pr_updated_at: "2026-07-02T00:00:00Z".into(),
        pr_created_at: "2026-07-01T00:00:00Z".into(),
        state: PrState::Open,
        comment: None,
    }
}

fn comment_item(id: i64) -> Item {
    Item {
        pr_url: format!("https://example.com/{id}"),
        comment: Some(CommentInfo {
            id,
            author: "bob".into(),
            body: "@nogu3 merge".into(),
            created_at: "2026-07-03T00:00:00Z".into(),
        }),
        ..pr_item(1)
    }
}

fn app3() -> App {
    let mut app = App::new(vec!["A".into(), "B".into(), "C".into()]);
    app.sections[0].items = vec![comment_item(7), comment_item(8)];
    app.sections[1].items = vec![pr_item(3)];
    app
}

#[test]
fn navigation_clamps_at_boundaries() {
    let mut app = app3();
    app.prev();
    assert_eq!(app.selected, 0);
    app.next();
    assert_eq!(app.selected, 1);
    app.next();
    assert_eq!(app.selected, 1);
}

#[test]
fn section_cycling_wraps_and_resets_selection() {
    let mut app = app3();
    app.next();
    app.next_section();
    assert_eq!(app.active, 1);
    assert_eq!(app.selected, 0);
    app.next_section();
    app.next_section();
    assert_eq!(app.active, 0); // wrapped
    app.prev_section();
    assert_eq!(app.active, 2); // wrapped backwards
}

#[test]
fn done_entry_follows_item_kind() {
    let mut app = app3();
    assert_eq!(app.selected_done_entry(), Some(DoneEntry::Comment(7)));
    assert_eq!(app.selected_url(), Some("https://example.com/7"));
    app.next_section();
    assert_eq!(
        app.selected_done_entry(),
        Some(DoneEntry::Pr { key: "o/r#3".into(), updated_at: "2026-07-02T00:00:00Z".into() })
    );
}

#[test]
fn empty_section_yields_none() {
    let mut app = app3();
    app.active = 2;
    assert_eq!(app.selected_url(), None);
    assert_eq!(app.selected_done_entry(), None);
}

#[test]
fn apply_results_replaces_ok_and_keeps_err_sections() {
    let mut app = app3();
    let err = app.apply_results(vec![
        Ok(SectionData { title: "A".into(), items: vec![comment_item(9)] }),
        Err("B: command filter exited with 1".into()),
        Ok(SectionData { title: "C".into(), items: vec![] }),
    ]);
    assert_eq!(err.as_deref(), Some("B: command filter exited with 1"));
    assert_eq!(app.sections[0].items.len(), 1); // replaced
    assert_eq!(app.sections[1].items.len(), 1); // previous items kept
}

#[test]
fn apply_results_clamps_selection() {
    let mut app = app3();
    app.next(); // selected = 1
    app.apply_results(vec![
        Ok(SectionData { title: "A".into(), items: vec![comment_item(9)] }),
        Ok(SectionData { title: "B".into(), items: vec![] }),
        Ok(SectionData { title: "C".into(), items: vec![] }),
    ]);
    assert_eq!(app.selected, 0);
}

#[test]
fn remove_selected_removes_same_item_from_all_sections() {
    // the same PR can match several sections' queries; done is global
    let mut app = app3();
    app.sections[2].items = vec![pr_item(3), pr_item(4)];
    app.active = 1; // section B holds pr_item(3)
    app.remove_selected();
    assert!(app.sections[1].items.is_empty());
    let remaining: Vec<u64> = app.sections[2].items.iter().map(|i| i.pr_number).collect();
    assert_eq!(remaining, vec![4]); // 3 removed here too, 4 untouched
}

#[test]
fn apply_results_drops_items_done_since_fetch_started() {
    let mut app = app3();
    app.remove_selected(); // marks comment 7 done locally
    // a fetch already in flight still carries comment 7: it must not flash back
    let results = |ids: Vec<i64>| {
        vec![
            Ok(SectionData { title: "A".into(), items: ids.into_iter().map(comment_item).collect() }),
            Ok(SectionData { title: "B".into(), items: vec![] }),
            Ok(SectionData { title: "C".into(), items: vec![] }),
        ]
    };
    app.apply_results(results(vec![7, 9]));
    let ids: Vec<i64> = app.sections[0].items.iter().map(|i| i.comment.as_ref().unwrap().id).collect();
    assert_eq!(ids, vec![9]);
    // suppression is one-shot: a legitimately resurfaced item shows again
    app.apply_results(results(vec![7]));
    assert_eq!(app.sections[0].items.len(), 1);
}

#[test]
fn remove_selected_clamps_selection() {
    let mut app = app3();
    app.next(); // select last of section 0
    app.remove_selected();
    assert_eq!(app.items_len(), 1);
    assert_eq!(app.selected, 0);
    app.remove_selected();
    assert_eq!(app.items_len(), 0);
    assert_eq!(app.selected, 0);
}

#[test]
fn new_app_shows_titles_before_the_first_fetch() {
    let app = App::new(vec!["A".into(), "B".into()]);
    assert_eq!(app.sections.len(), 2);
    assert_eq!(app.sections[1].title, "B");
    assert!(app.sections[0].items.is_empty());
    assert_eq!(app.status, "loading...");
    assert!(!app.should_quit);
}

#[test]
fn status_is_plain_update_when_no_errors() {
    let s = compose_status("00:00:00".into(), None, &[]);
    assert_eq!(s, "00:00:00");
}

#[test]
fn status_leads_with_filter_error() {
    let s = compose_status("00:00:00".into(), Some("sec: exited with 1".into()), &[]);
    assert_eq!(s, "filter error: sec: exited with 1");
}

#[test]
fn status_appends_api_warnings_after_update() {
    let s = compose_status("00:00:00".into(), None, &["SAML enforcement".to_string(), "rate limited".to_string()]);
    assert_eq!(s, "00:00:00 ⚠ API: SAML enforcement; rate limited");
}

#[test]
fn status_shows_both_filter_error_and_api_warnings() {
    let s = compose_status("00:00:00".into(), Some("sec: exited with 1".into()), &["SAML enforcement".to_string()]);
    assert_eq!(s, "filter error: sec: exited with 1 ⚠ API: SAML enforcement");
}

#[test]
fn hms_pads_each_field() {
    assert_eq!(hms(9, 0, 0), "09:00:00");
    assert_eq!(hms(0, 0, 0), "00:00:00");
    assert_eq!(hms(23, 59, 7), "23:59:07");
}

#[test]
fn keys_map_to_actions_in_priority_order() {
    let kb = Keybindings::default();
    assert_eq!(action_for(&kb, KeySpec::Char('q')), Some(Action::Quit));
    assert_eq!(action_for(&kb, KeySpec::Char('j')), Some(Action::Down));
    assert_eq!(action_for(&kb, KeySpec::Up), Some(Action::Up));
    assert_eq!(action_for(&kb, KeySpec::Right), Some(Action::NextSection));
    assert_eq!(action_for(&kb, KeySpec::Char('h')), Some(Action::PrevSection));
    assert_eq!(action_for(&kb, KeySpec::Char('o')), Some(Action::Open));
    assert_eq!(action_for(&kb, KeySpec::Char('d')), Some(Action::Done));
    assert_eq!(action_for(&kb, KeySpec::Char('r')), Some(Action::Refresh));
    assert_eq!(action_for(&kb, KeySpec::Char('z')), None);
}

#[test]
fn handle_key_moves_and_reports_effects() {
    let kb = Keybindings::default();
    let mut app = app3();
    assert_eq!(app.handle_key(&kb, KeySpec::Down), Effect::Nothing);
    assert_eq!(app.selected, 1);
    assert_eq!(app.handle_key(&kb, KeySpec::Char('o')), Effect::Open("https://example.com/8".into()));
    assert_eq!(app.handle_key(&kb, KeySpec::Char('d')), Effect::MarkDone(DoneEntry::Comment(8)));
    assert_eq!(app.handle_key(&kb, KeySpec::Char('r')), Effect::Refresh);
    assert_eq!(app.handle_key(&kb, KeySpec::Char('l')), Effect::Nothing);
    assert_eq!(app.active, 1);
    assert_eq!(app.selected, 0);
    app.active = 2;
    assert_eq!(app.handle_key(&kb, KeySpec::Char('o')), Effect::Nothing);
    assert_eq!(app.handle_key(&kb, KeySpec::Char('q')), Effect::Nothing);
    assert!(app.should_quit);
}

#[test]
fn done_outcome_updates_rows_and_status() {
    let mut app = app3();
    let entry = app.selected_done_entry().unwrap();
    app.done_recorded(&entry, Err("disk I/O error".into()));
    assert_eq!(app.status, "db error: disk I/O error");
    assert_eq!(app.items_len(), 2);
    app.done_recorded(&entry, Ok(()));
    assert_eq!(app.status, "done: 7");
    assert_eq!(app.items_len(), 1);
    app.next_section();
    let entry = app.selected_done_entry().unwrap();
    app.done_recorded(&entry, Ok(()));
    assert_eq!(app.status, "done: o/r#3");
}

#[test]
fn refresh_and_failures_set_the_status() {
    let mut app = app3();
    app.refresh_requested(true);
    assert_eq!(app.status, "refreshing...");
    app.refresh_requested(false);
    assert_eq!(app.status, "fetch already in progress");
    app.open_failed("no browser");
    assert_eq!(app.status, "failed to open browser: no browser");
    app.fetch_failed("GitHub API error: rate limited");
    assert_eq!(app.status, "fetch error: GitHub API error: rate limited");
}

#[test]
fn finished_fetch_applies_results_and_reports() {
    let mut app = app3();
    app.fetch_finished(
        vec![
            Ok(SectionData { title: "A".into(), items: vec![] }),
            Err("B: timed out".into()),
        ],
        "12:34:56".into(),
        &["SAML enforcement".to_string()],
    );
    assert!(app.sections[0].items.is_empty());
    assert_eq!(app.sections[1].items.len(), 1);
    assert_eq!(app.status, "filter error: B: timed out ⚠ API: SAML enforcement");
}

#[test]
fn hms_applies_local_offset() {
    let epoch = time::OffsetDateTime::from_unix_timestamp(0).unwrap();
    let jst = time::UtcOffset::from_hms(9, 0, 0).unwrap();
    let t = epoch.to_offset(jst);
    assert_eq!(hms(t.hour(), t.minute(), t.second()), "09:00:00");
    assert_eq!(hms(epoch.hour(), epoch.minute(), epoch.second()), "00:00:00");
}
