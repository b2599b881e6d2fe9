use ghbox::app::App;
use ghbox::config::{Column, KeySpec, Keybindings, Theme};
use ghbox::item::{CommentInfo, Item, PrState};
use ghbox::ui::{
    active_tab_range, cell_color, cell_text, column_label, column_width, fmt_relative, help_line, key_glyph,
    relative_from, spinner_frame, state_color, state_icon, ColumnWidth,
};

fn epoch(ts: &str) -> i64 {
    time::OffsetDateTime::parse(ts, &time::format_description::well_known::Rfc3339).unwrap().unix_timestamp()
}

fn item() -> Item {
    Item {
        repo: "nogu3/casa".into(),
        pr_number: 12,
        pr_title: "Fix xxx".into(),
        pr_url: "u".into(),
        pr_author: "alice".into(),
        pr_updated_at: "2026-07-13T11:30:00Z".into(),
        pr_created_at: "2026-07-13T07:00:00Z".into(),
        state: PrState::Merged,
        comment: Some(CommentInfo {
            id: 1,
            author: "bob".into(),
            body: "@nogu3 merge please\r\nsecond line".into(),
            created_at: "2026-07-11T12:00:00Z".into(),
        }),
    }
}

#[test]
fn active_tab_range_accounts_for_cjk_width() {
    let mut app = App::new(vec!["マージ依頼".into(), "b".into()]);
    // first tab: right after the leading space, display width 10
    assert_eq!(active_tab_range(&app), (1, 10));
    // second: 1 + 10 (title) + 2 (" 0") + 3 (" │ ") = 16
    app.active = 1;
    assert_eq!(active_tab_range(&app), (16, 1));
}

#[test]
fn active_tab_past_the_sections_has_no_range() {
    let mut app = App::new(vec!["a".into()]);
    app.active = 3;
    assert_eq!(active_tab_range(&app), (0, 0));
}

#[test]
fn help_line_uses_primary_keys_with_arrow_glyphs() {
    let kb = Keybindings::default();
    assert_eq!(help_line(&kb), "↓↑ move · ←→ section · o open · d done · r refresh · q quit");
}

#[test]
fn spinner_frame_cycles_every_100ms() {
    assert_eq!(spinner_frame(0), "⠋");
    assert_eq!(spinner_frame(100), "⠙");
    assert_eq!(spinner_frame(950), "⠏");
    assert_eq!(spinner_frame(1000), "⠋"); // a full revolution per second
}

#[test]
fn fmt_relative_boundaries() {
    let now = epoch("2026-07-13T12:00:00Z");
    assert_eq!(fmt_relative("2026-07-13T11:59:30Z", now), "now");
    assert_eq!(fmt_relative("2026-07-13T11:30:00Z", now), "30m");
    assert_eq!(fmt_relative("2026-07-13T07:00:00Z", now), "5h");
    assert_eq!(fmt_relative("2026-07-11T12:00:00Z", now), "2d");
    assert_eq!(fmt_relative("2026-05-01T00:00:00Z", now), "05-01");
    // a timestamp in the future (clock skew) reads as "now"
    assert_eq!(fmt_relative("2026-07-14T00:00:00Z", now), "now");
    assert_eq!(fmt_relative("garbage", now), "garbage");
}

#[test]
fn relative_time_from_a_given_parse() {
    assert_eq!(relative_from("2026-07-13T11:00:00Z", Some(0), 3599), "59m");
    assert_eq!(relative_from("2026-07-13T11:00:00Z", Some(0), 3600), "1h");
    assert_eq!(relative_from("2026-07-13T11:00:00Z", Some(0), 86_400 * 29), "29d");
    assert_eq!(relative_from("2026-07-13T11:00:00Z", Some(0), 86_400 * 30), "07-13");
    assert_eq!(relative_from("x", None, 0), "x");
}

#[test]
fn cells_show_each_column() {
    let now = epoch("2026-07-13T12:00:00Z");
    let i = item();
    assert_eq!(cell_text(&i, Column::Repo, now, true), "nogu3/casa");
    assert_eq!(cell_text(&i, Column::Number, now, true), "#12");
    assert_eq!(cell_text(&i, Column::Title, now, true), "Fix xxx");
    assert_eq!(cell_text(&i, Column::Author, now, true), "bob");
    assert_eq!(cell_text(&i, Column::Comment, now, true), "@nogu3 merge please");
    assert_eq!(cell_text(&i, Column::Updated, now, true), "30m");
    assert_eq!(cell_text(&i, Column::Created, now, true), "2d");
    assert_eq!(cell_text(&i, Column::State, now, true), "\u{f419}");
    assert_eq!(cell_text(&i, Column::State, now, false), "●");
    let mut pr = item();
    pr.comment = None;
    assert_eq!(cell_text(&pr, Column::Comment, now, true), "");
    assert_eq!(cell_text(&pr, Column::Created, now, true), "5h");
    assert_eq!(cell_text(&pr, Column::Author, now, true), "alice");
}

#[test]
fn state_icons_and_colors_per_state() {
    let theme = Theme::default();
    assert_eq!(state_icon(PrState::Open, true), "\u{f407}");
    assert_eq!(state_icon(PrState::Draft, true), "\u{f4dd}");
    assert_eq!(state_icon(PrState::Closed, true), "\u{f4dc}");
    assert_eq!(state_icon(PrState::Closed, false), "●");
    assert_eq!(state_color(PrState::Open, &theme), theme.state_open);
    assert_eq!(state_color(PrState::Merged, &theme), theme.state_merged);
    assert_eq!(cell_color(Column::State, &theme, PrState::Draft), Some(theme.state_draft));
    assert_eq!(cell_color(Column::Repo, &theme, PrState::Open), Some(theme.faint));
    assert_eq!(cell_color(Column::Title, &theme, PrState::Open), None);
    assert_eq!(cell_color(Column::Created, &theme, PrState::Open), Some(theme.time));
}

#[test]
fn column_headers_and_widths() {
    assert_eq!(column_label(Column::Repo), "REPO");
    assert_eq!(column_label(Column::State), "");
    assert_eq!(column_label(Column::Number), "#");
    let items = vec![item()];
    assert_eq!(column_width(Column::Repo, &items), ColumnWidth::Length(10));
    assert_eq!(column_width(Column::Repo, &[]), ColumnWidth::Length(4));
    let mut long = item();
    long.repo = "x".repeat(40);
    assert_eq!(column_width(Column::Repo, &[long]), ColumnWidth::Length(30));
    assert_eq!(column_width(Column::Title, &items), ColumnWidth::Fill(1));
    assert_eq!(column_width(Column::Updated, &items), ColumnWidth::Length(7));
}

#[test]
fn arrows_show_as_glyphs() {
    assert_eq!(key_glyph(KeySpec::Up), "↑");
    assert_eq!(key_glyph(KeySpec::Left), "←");
    assert_eq!(key_glyph(KeySpec::Esc), "esc");
    assert_eq!(key_glyph(KeySpec::Char('x')), "x");
}
