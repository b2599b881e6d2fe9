use ghbox::config::{
    default_columns, default_sections, Column, Config, ConfigFile, FilterSpec, KeyBinding, KeyBindingSpec, KeySpec,
    Keybindings, KeybindingsSpec, NamedColor, SectionFilter, SectionSpec, SortBy, Theme, ThemeColor, ThemeSpec,
};
use ghbox::error::Error;

fn section(title: &str) -> SectionSpec {
    SectionSpec { title: title.into(), query: "q".into(), columns: None, filter: None, sort: None }
}

fn load(file: ConfigFile) -> Result<Config, Error> {
    Config::from_parsed(Some(&file), "/cfg/config.toml", "/data/ghbox/state.db")
}

#[test]
fn key_spec_display_roundtrip() {
    assert_eq!(KeySpec::Char('k').to_text(), "k");
    assert_eq!(KeySpec::BackTab.to_text(), "backtab");
}

#[test]
fn left_right_keys_parse() {
    assert_eq!(KeySpec::Left.to_text(), "left");
    assert_eq!(KeySpec::Right.to_text(), "right");
    assert_eq!(KeySpec::parse("left"), Ok(KeySpec::Left));
    assert_eq!(KeySpec::parse("right"), Ok(KeySpec::Right));
}

#[test]
fn every_key_reads_back_from_its_text() {
    for k in [
        KeySpec::Char('q'),
        KeySpec::Char('#'),
        KeySpec::Tab,
        KeySpec::BackTab,
        KeySpec::Enter,
        KeySpec::Up,
        KeySpec::Down,
        KeySpec::Left,
        KeySpec::Right,
        KeySpec::Esc,
    ] {
        assert_eq!(KeySpec::parse(&k.to_text()), Ok(k));
    }
}

#[test]
fn invalid_key_name_is_error() {
    assert_eq!(
        KeySpec::parse("ctrl-q"),
        Err("invalid key \"ctrl-q\": expected one character or tab/backtab/enter/up/down/left/right/esc".to_string())
    );
}

#[test]
fn missing_file_yields_default_two_sections() {
    let cfg = Config::from_parsed(None, "/cfg/config.toml", "/data/ghbox/state.db").unwrap();
    assert_eq!(cfg.poll_interval_secs, 300);
    assert!(cfg.db_path.ends_with("ghbox/state.db"));
    assert_eq!(cfg.sections.len(), 2);
    assert_eq!(cfg.sections[0].title, "Merge Requests");
    assert!(matches!(cfg.sections[0].filter, SectionFilter::CommentMention { .. }));
    assert_eq!(cfg.sections[1].filter, SectionFilter::Unfiltered);
    assert!(cfg.icons);
}

#[test]
fn default_sections_match_the_readme() {
    let s = default_sections();
    assert_eq!(s[0].query, "is:pr is:open mentions:@me");
    assert_eq!(s[1].title, "Review Requests");
    assert_eq!(s[1].query, "is:pr is:open review-requested:@me");
    assert_eq!(s[1].columns, default_columns());
    assert_eq!(
        default_columns(),
        vec![Column::State, Column::Repo, Column::Number, Column::Title, Column::Author, Column::Updated]
    );
}

#[test]
fn sections_key_omitted_uses_defaults() {
    let cfg = load(ConfigFile { poll_interval_secs: Some(60), ..Default::default() }).unwrap();
    assert_eq!(cfg.poll_interval_secs, 60);
    assert_eq!(cfg.sections.len(), 2);
}

#[test]
fn explicit_empty_sections_is_error() {
    let err = load(ConfigFile { sections: Some(vec![]), ..Default::default() }).unwrap_err();
    assert_eq!(
        err,
        Error::Config("sections must not be empty (omit the key entirely for the defaults)".into())
    );
}

#[test]
fn full_section_parses() {
    let mut merge = section("Merge Requests");
    merge.columns = Some(vec!["repo".into(), "number".into(), "title".into(), "author".into(), "comment".into()]);
    merge.filter = Some(FilterSpec {
        kind: "comment-mention".into(),
        extra_patterns: Some(vec!["(?i)ship\\s*it".into()]),
        command: None,
    });
    merge.sort = Some("created".into());
    let mut involved = section("PRs involving me");
    involved.filter = Some(FilterSpec { kind: "command".into(), extra_patterns: None, command: Some("jq -r .id".into()) });
    let cfg = load(ConfigFile { sections: Some(vec![merge, involved]), ..Default::default() }).unwrap();
    assert_eq!(cfg.sections.len(), 2);
    assert_eq!(cfg.sections[0].columns[4], Column::Comment);
    assert_eq!(
        cfg.sections[0].filter,
        SectionFilter::CommentMention { extra_patterns: vec!["(?i)ship\\s*it".into()] }
    );
    assert_eq!(cfg.sections[0].sort, SortBy::Created);
    assert_eq!(cfg.sections[1].filter, SectionFilter::Command { command: "jq -r .id".into() });
    // columns omitted → defaults; sort omitted → updated
    assert_eq!(cfg.sections[1].columns, default_columns());
    assert_eq!(cfg.sections[1].sort, SortBy::Updated);
}

#[test]
fn filter_omitted_is_none() {
    let cfg = load(ConfigFile { sections: Some(vec![section("t")]), ..Default::default() }).unwrap();
    assert_eq!(cfg.sections[0].filter, SectionFilter::Unfiltered);
}

#[test]
fn unknown_column_is_error() {
    let mut s = section("t");
    s.columns = Some(vec!["bogus".into()]);
    let err = load(ConfigFile { sections: Some(vec![s]), ..Default::default() });
    assert!(matches!(err, Err(Error::Config(m)) if m.starts_with("/cfg/config.toml: ")));
}

#[test]
fn unknown_filter_type_is_error() {
    let mut s = section("t");
    s.filter = Some(FilterSpec { kind: "bogus".into(), extra_patterns: None, command: None });
    assert!(load(ConfigFile { sections: Some(vec![s]), ..Default::default() }).is_err());
}

#[test]
fn misplaced_filter_key_is_error() {
    let mut s = section("t");
    s.filter = Some(FilterSpec { kind: "comment-mention".into(), extra_patterns: None, command: Some("x".into()) });
    assert!(load(ConfigFile { sections: Some(vec![s]), ..Default::default() }).is_err());
}

#[test]
fn command_filter_requires_command() {
    let mut s = section("t");
    s.filter = Some(FilterSpec { kind: "command".into(), extra_patterns: None, command: None });
    assert!(load(ConfigFile { sections: Some(vec![s]), ..Default::default() }).is_err());
}

#[test]
fn invalid_extra_pattern_is_error() {
    let mut s = section("t");
    s.filter = Some(FilterSpec { kind: "comment-mention".into(), extra_patterns: Some(vec!["(".into()]), command: None });
    let err = load(ConfigFile { sections: Some(vec![s]), ..Default::default() });
    assert!(matches!(err, Err(Error::Config(m)) if m.starts_with("section \"t\": invalid extra pattern \"(\": ")));
}

#[test]
fn unknown_sort_is_error() {
    assert_eq!(SortBy::parse("oldest"), Err("unknown sort \"oldest\" (expected \"updated\" or \"created\")".to_string()));
    assert_eq!(SortBy::parse("created"), Ok(SortBy::Created));
}

#[test]
fn theme_defaults_and_partial_override() {
    let theme = ThemeSpec { tab_active: Some("red".into()), ..Default::default() };
    let cfg = load(ConfigFile { theme: Some(theme), ..Default::default() }).unwrap();
    assert_eq!(cfg.theme.tab_active, ThemeColor::Named(NamedColor::Red));
    // omitted keys keep defaults
    assert_eq!(cfg.theme.selection_bg, Theme::default().selection_bg);
    assert_eq!(cfg.theme.selection_bg, ThemeColor::Rgb(0x31, 0x32, 0x44));
}

#[test]
fn hex_color_parses() {
    assert_eq!(ThemeColor::parse("#1a2B3c"), Ok(ThemeColor::Rgb(0x1a, 0x2b, 0x3c)));
    assert_eq!(ThemeColor::parse("lightcyan"), Ok(ThemeColor::Named(NamedColor::LightCyan)));
}

#[test]
fn invalid_color_is_error() {
    assert!(ThemeColor::parse("mauve").is_err());
    assert!(ThemeColor::parse("#12345").is_err());
    let theme = ThemeSpec { border: Some("mauve".into()), ..Default::default() };
    assert!(load(ConfigFile { theme: Some(theme), ..Default::default() }).is_err());
}

#[test]
fn keybindings_defaults_and_partial_override() {
    let kb = KeybindingsSpec { quit: Some(KeyBindingSpec::One("x".into())), ..Default::default() };
    let cfg = load(ConfigFile { keybindings: Some(kb), ..Default::default() }).unwrap();
    assert_eq!(cfg.keybindings.quit, KeyBinding(vec![KeySpec::Char('x')]));
    assert_eq!(cfg.keybindings.next_section, KeyBinding(vec![KeySpec::Right, KeySpec::Char('l')]));
}

#[test]
fn keybinding_accepts_string_and_array() {
    let kb = KeybindingsSpec {
        down: Some(KeyBindingSpec::Many(vec!["down".into(), "j".into()])),
        open: Some(KeyBindingSpec::One("o".into())),
        ..Default::default()
    };
    let cfg = load(ConfigFile { keybindings: Some(kb), ..Default::default() }).unwrap();
    assert_eq!(cfg.keybindings.down, KeyBinding(vec![KeySpec::Down, KeySpec::Char('j')]));
    assert_eq!(cfg.keybindings.open, KeyBinding(vec![KeySpec::Char('o')]));
}

#[test]
fn keybinding_empty_array_is_error() {
    let kb = KeybindingsSpec { quit: Some(KeyBindingSpec::Many(vec![])), ..Default::default() };
    assert!(load(ConfigFile { keybindings: Some(kb), ..Default::default() }).is_err());
}

#[test]
fn keybinding_defaults_are_arrow_first_with_vim() {
    let kb = Keybindings::default();
    assert_eq!(kb.next_section, KeyBinding(vec![KeySpec::Right, KeySpec::Char('l')]));
    assert_eq!(kb.prev_section, KeyBinding(vec![KeySpec::Left, KeySpec::Char('h')]));
    assert_eq!(kb.down, KeyBinding(vec![KeySpec::Down, KeySpec::Char('j')]));
    assert_eq!(kb.open, KeyBinding(vec![KeySpec::Char('o')]));
}

#[test]
fn keybinding_primary_returns_first_key() {
    assert_eq!(KeyBinding(vec![KeySpec::Down, KeySpec::Char('j')]).primary(), KeySpec::Down);
}

#[test]
fn duplicate_keybinding_is_error() {
    let kb = KeybindingsSpec { quit: Some(KeyBindingSpec::One("j".into())), ..Default::default() };
    let err = load(ConfigFile { keybindings: Some(kb), ..Default::default() }).unwrap_err();
    let msg = err.message();
    assert!(msg.contains("down") && msg.contains("quit"), "got: {msg}");
    assert_eq!(msg, "config error: keybindings: down and quit are both bound to \"j\"");
}

#[test]
fn special_key_names_parse() {
    let kb = KeybindingsSpec {
        quit: Some(KeyBindingSpec::One("esc".into())),
        open: Some(KeyBindingSpec::One("o".into())),
        ..Default::default()
    };
    let cfg = load(ConfigFile { keybindings: Some(kb), ..Default::default() }).unwrap();
    assert_eq!(cfg.keybindings.quit, KeyBinding(vec![KeySpec::Esc]));
    assert_eq!(cfg.keybindings.open, KeyBinding(vec![KeySpec::Char('o')]));
}
