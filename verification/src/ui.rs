//! What the screen shows, as text and choices: column headers and cells,
//! relative times, state icons and colors, column widths, the spinner, the
//! help line and the active tab's position. Drawing it is the caller's.

use vstd::prelude::*;

use crate::app::App;
use crate::config::{key_text, Column, KeySpec, Keybindings, Theme, ThemeColor};
use crate::inbox::{item_views, SectionDataModel};
use crate::item::{Item, ItemModel, PrState};
use crate::text::{chars_of, concat2, decimal, lines, lines_of, owned, text_of_range, u64_text};

verus! {

/// The header of a column.
pub open spec fn column_label_text(col: Column) -> Seq<char> {
    match col {
        Column::State => ""@,
        Column::Repo => "REPO"@,
        Column::Number => "#"@,
        Column::Title => "TITLE"@,
        Column::Author => "AUTHOR"@,
        Column::Comment => "COMMENT"@,
        Column::Updated => "UPDATED"@,
        Column::Created => "CREATED"@,
    }
}

/// The header of a column.
pub fn column_label(col: Column) -> (s: &'static str)
    ensures
        s@ == column_label_text(col),
{
    match col {
        Column::State => "",
        Column::Repo => "REPO",
        Column::Number => "#",
        Column::Title => "TITLE",
        Column::Author => "AUTHOR",
        Column::Comment => "COMMENT",
        Column::Updated => "UPDATED",
        Column::Created => "CREATED",
    }
}

/// The Unix time (seconds) of an RFC 3339 timestamp, or `None` when the
/// text is not one; named for `time`'s parser.
pub uninterp spec fn rfc3339_seconds(ts: Seq<char>) -> Option<int>;

/// `OffsetDateTime::parse(ts, &Rfc3339)` then `unix_timestamp()`, from the
/// `time` crate. Claimed: the result is `rfc3339_seconds` of the text, and
/// a text that parses starts with ten ASCII characters (the parser reads a
/// `YYYY-MM-DD` date first).
#[verifier::external_body]
fn parse_rfc3339(ts: &str) -> (r: Option<i64>)
    ensures
        match r {
            Some(t) => rfc3339_seconds(ts@) == Some(t as int),
            None => rfc3339_seconds(ts@) is None,
        },
        r is Some ==> ts@.len() >= 10 && forall|i: int| 0 <= i < 10 ==> (#[trigger] ts@[i] as int) < 128,
{
    match time::OffsetDateTime::parse(ts, &time::format_description::well_known::Rfc3339) {
        Ok(t) => Some(t.unix_timestamp()),
        Err(_) => None,
    }
}

/// How long ago `ts` was at `now` (Unix seconds), given the Unix time the
/// text stands for: `now` under a minute (or in the future), then minutes,
/// hours and days, then `MM-DD` from 30 days on; the text itself when it
/// is not a timestamp.
pub open spec fn relative_given(ts: Seq<char>, parsed: Option<int>, now: int) -> Seq<char> {
    match parsed {
        None => ts,
        Some(t) => {
            let delta = now - t;
            if delta < 60 {
                "now"@
            } else if delta < 3600 {
                decimal((delta / 60) as nat) + "m"@
            } else if delta < 86400 {
                decimal((delta / 3600) as nat) + "h"@
            } else if delta < 30 * 86400 {
                decimal((delta / 86400) as nat) + "d"@
            } else {
                ts.subrange(5, 10)
            }
        },
    }
}

/// How long ago the timestamp `ts` was at `now` (Unix seconds).
pub open spec fn relative_text(ts: Seq<char>, now: int) -> Seq<char> {
    relative_given(ts, rfc3339_seconds(ts), now)
}

/// How long ago `ts` was at `now_epoch` (Unix seconds), given the Unix time
/// `parsed` that the text stands for (`None` when it is not a timestamp).
pub fn relative_from(ts: &str, parsed: Option<i64>, now_epoch: i64) -> (s: String)
    requires
        parsed is Some ==> ts@.len() >= 10,
    ensures
        s@ == relative_given(
            ts@,
            match parsed {
                Some(t) => Some(t as int),
                None => None,
            },
            now_epoch as int,
        ),
{
    match parsed {
        None => owned(ts),
        Some(t) => {
            let delta: i128 = now_epoch as i128 - t as i128;
            if delta < 60 {
                owned("now")
            } else if delta < 3600 {
                let n = u64_text((delta / 60) as u64);
                concat2(n.as_str(), "m")
            } else if delta < 86400 {
                let n = u64_text((delta / 3600) as u64);
                concat2(n.as_str(), "h")
            } else if delta < 30 * 86400 {
                let n = u64_text((delta / 86400) as u64);
                concat2(n.as_str(), "d")
            } else {
                let v = chars_of(ts);
                text_of_range(&v, 5, 10)
            }
        },
    }
}

/// `"2026-07-12T10:30:00Z"` → `"2d"` (relative to `now_epoch`, Unix
/// seconds). Falls back to `MM-DD` from 30 days on and to the text itself
/// when it does not parse.
pub fn fmt_relative(ts: &str, now_epoch: i64) -> (s: String)
    ensures
        s@ == relative_text(ts@, now_epoch as int),
{
    let parsed = parse_rfc3339(ts);
    relative_from(ts, parsed, now_epoch)
}

/// Braille spinner frames, one per 100 ms tick.
pub open spec fn spinner_glyph(i: int) -> Seq<char> {
    if i == 0 {
        "⠋"@
    } else if i == 1 {
        "⠙"@
    } else if i == 2 {
        "⠹"@
    } else if i == 3 {
        "⠸"@
    } else if i == 4 {
        "⠼"@
    } else if i == 5 {
        "⠴"@
    } else if i == 6 {
        "⠦"@
    } else if i == 7 {
        "⠧"@
    } else if i == 8 {
        "⠇"@
    } else {
        "⠏"@
    }
}

/// The spinner frame shown at a wall-clock time in milliseconds.
pub open spec fn frame_index(now_millis: nat) -> int {
    ((now_millis / 100) % 10) as int
}

/// The spinner frame for a wall-clock time (milliseconds). Stateless: each
/// redraw picks its frame from the clock, so nothing counts ticks.
pub fn spinner_frame(now_millis: u128) -> (s: &'static str)
    ensures
        s@ == spinner_glyph(frame_index(now_millis as nat)),
{
    let i = now_millis / 100 % 10;
    if i == 0 {
        "⠋"
    } else if i == 1 {
        "⠙"
    } else if i == 2 {
        "⠹"
    } else if i == 3 {
        "⠸"
    } else if i == 4 {
        "⠼"
    } else if i == 5 {
        "⠴"
    } else if i == 6 {
        "⠦"
    } else if i == 7 {
        "⠧"
    } else if i == 8 {
        "⠇"
    } else {
        "⠏"
    }
}

/// The spinner makes a full revolution every second and moves one frame
/// every 100 ms.
pub proof fn lemma_spinner_period(now_millis: nat)
    ensures
        frame_index(now_millis + 1000) == frame_index(now_millis),
        frame_index(now_millis + 100) == (frame_index(now_millis) + 1) % 10,
        0 <= frame_index(now_millis) < 10,
{
    assert((now_millis + 1000) / 100 == now_millis / 100 + 10) by (nonlinear_arith);
    assert((now_millis + 100) / 100 == now_millis / 100 + 1) by (nonlinear_arith);
    assert((now_millis / 100 + 10) % 10 == (now_millis / 100) % 10) by (nonlinear_arith);
    assert((now_millis / 100 + 1) % 10 == ((now_millis / 100) % 10 + 1) % 10) by (nonlinear_arith);
}

/// The state icon: a Nerd Font octicon per state, or with `icons` off a
/// plain dot (the state color alone carries the meaning).
pub open spec fn state_icon_text(state: PrState, icons: bool) -> Seq<char> {
    if !icons {
        "●"@
    } else {
        match state {
            PrState::Open => "\u{f407}"@,
            PrState::Draft => "\u{f4dd}"@,
            PrState::Merged => "\u{f419}"@,
            PrState::Closed => "\u{f4dc}"@,
        }
    }
}

/// The state icon (Nerd Font octicons; a plain dot with `icons` off).
pub fn state_icon(state: PrState, icons: bool) -> (s: &'static str)
    ensures
        s@ == state_icon_text(state, icons),
{
    if !icons {
        return "●";
    }
    match state {
        PrState::Open => "\u{f407}",
        PrState::Draft => "\u{f4dd}",
        PrState::Merged => "\u{f419}",
        PrState::Closed => "\u{f4dc}",
    }
}

/// The theme color of a state.
pub open spec fn state_color_of(state: PrState, theme: Theme) -> ThemeColor {
    match state {
        PrState::Open => theme.state_open,
        PrState::Draft => theme.state_draft,
        PrState::Merged => theme.state_merged,
        PrState::Closed => theme.state_closed,
    }
}

/// The theme color of a state.
pub fn state_color(state: PrState, theme: &Theme) -> (c: ThemeColor)
    ensures
        c == state_color_of(state, *theme),
{
    match state {
        PrState::Open => theme.state_open,
        PrState::Draft => theme.state_draft,
        PrState::Merged => theme.state_merged,
        PrState::Closed => theme.state_closed,
    }
}

/// The foreground color of an unselected cell: the state color for the
/// state column, `faint` for repository and comment, the themed colors for
/// number, author and times; the title keeps the terminal's default
/// (`None`).
pub open spec fn cell_color_of(col: Column, theme: Theme, state: PrState) -> Option<ThemeColor> {
    match col {
        Column::State => Some(state_color_of(state, theme)),
        Column::Repo | Column::Comment => Some(theme.faint),
        Column::Number => Some(theme.pr_number),
        Column::Title => None,
        Column::Author => Some(theme.author),
        Column::Updated | Column::Created => Some(theme.time),
    }
}

/// The foreground color of an unselected cell (`None`: the default).
pub fn cell_color(col: Column, theme: &Theme, state: PrState) -> (c: Option<ThemeColor>)
    ensures
        c == cell_color_of(col, *theme, state),
{
    match col {
        Column::State => Some(state_color(state, theme)),
        Column::Repo | Column::Comment => Some(theme.faint),
        Column::Number => Some(theme.pr_number),
        Column::Title => None,
        Column::Author => Some(theme.author),
        Column::Updated | Column::Created => Some(theme.time),
    }
}

/// The first line of a comment body, or nothing.
pub open spec fn first_line_of(body: Seq<char>) -> Seq<char> {
    if lines_of(body).len() > 0 {
        lines_of(body)[0]
    } else {
        Seq::empty()
    }
}

/// What a cell shows for a row.
pub open spec fn cell_value(i: ItemModel, col: Column, now: int, icons: bool) -> Seq<char> {
    match col {
        Column::State => state_icon_text(i.state, icons),
        Column::Repo => i.repo,
        Column::Number => seq!['#'] + decimal(i.pr_number),
        Column::Title => i.pr_title,
        Column::Author => i.display_author(),
        Column::Comment => match i.comment {
            Some(c) => first_line_of(c.body),
            None => Seq::empty(),
        },
        Column::Updated => relative_text(i.pr_updated_at, now),
        Column::Created => relative_text(
            match i.comment {
                Some(c) => c.created_at,
                None => i.pr_created_at,
            },
            now,
        ),
    }
}

/// What a cell shows for a row: the state icon, the repository, `#number`,
/// the title, the author, the comment's first line, or how long ago the
/// pull request was updated or the comment (or pull request) created.
pub fn cell_text(item: &Item, col: Column, now_epoch: i64, icons: bool) -> (s: String)
    ensures
        s@ == cell_value(item@, col, now_epoch as int, icons),
{
    match col {
        Column::State => owned(state_icon(item.state, icons)),
        Column::Repo => item.repo.clone(),
        Column::Number => {
            let n = u64_text(item.pr_number);
            let s = concat2("#", n.as_str());
            proof {
                reveal_strlit("#");
                assert("#"@ =~= seq!['#']);
            }
            s
        },
        Column::Title => item.pr_title.clone(),
        Column::Author => owned(item.display_author()),
        Column::Comment => match &item.comment {
            Some(c) => {
                let ls = lines(c.body.as_str());
                if ls.len() > 0 {
                    ls[0].clone()
                } else {
                    String::new()
                }
            },
            None => String::new(),
        },
        Column::Updated => fmt_relative(item.pr_updated_at.as_str(), now_epoch),
        Column::Created => match &item.comment {
            Some(c) => fmt_relative(c.created_at.as_str(), now_epoch),
            None => fmt_relative(item.pr_created_at.as_str(), now_epoch),
        },
    }
}

/// How wide a table column is: a fixed number of cells, or a share of the
/// space the fixed columns leave.
#[derive(Clone, Copy, Debug, PartialEq, Eq, Structural)]
pub enum ColumnWidth {
    Length(u16),
    Fill(u16),
}

/// The length in bytes (UTF-8) of a text, as `str::len` gives it.
pub open spec fn byte_len(s: Seq<char>) -> usize {
    vstd::utf8::encode_utf8(s).len() as usize
}

/// The longest repository name among the rows, in bytes (0 for none).
pub open spec fn max_repo_len(items: Seq<ItemModel>) -> usize
    decreases items.len(),
{
    if items.len() == 0 {
        0
    } else {
        let m = max_repo_len(items.drop_last());
        let l = byte_len(items.last().repo);
        if l > m {
            l
        } else {
            m
        }
    }
}

/// The width of a column for these rows: the repository column fits its
/// longest name, kept between 4 and 30; the title takes the rest.
pub open spec fn column_width_of(col: Column, items: Seq<ItemModel>) -> ColumnWidth {
    match col {
        Column::State => ColumnWidth::Length(2),
        Column::Repo => {
            let m = max_repo_len(items);
            ColumnWidth::Length(
                if m < 4 {
                    4
                } else if m > 30 {
                    30
                } else {
                    m as u16
                },
            )
        },
        Column::Number => ColumnWidth::Length(6),
        Column::Title => ColumnWidth::Fill(1),
        Column::Author => ColumnWidth::Length(12),
        Column::Comment => ColumnWidth::Length(30),
        Column::Updated | Column::Created => ColumnWidth::Length(7),
    }
}

/// The width of a column for these rows.
pub fn column_width(col: Column, items: &[Item]) -> (w: ColumnWidth)
    ensures
        w == column_width_of(col, item_views(items@)),
{
    match col {
        Column::State => ColumnWidth::Length(2),
        Column::Repo => {
            let ghost v = item_views(items@);
            let mut m: usize = 0;
            let mut i: usize = 0;
            while i < items.len()
                invariant
                    i <= items@.len(),
                    v == item_views(items@),
                    m == max_repo_len(v.take(i as int)),
                decreases items.len() - i,
            {
                let l = items[i].repo.as_str().len();
                proof {
                    let t = v.take(i + 1);
                    assert(t.drop_last() =~= v.take(i as int));
                    assert(t.last() == items@[i as int]@);
                }
                if l > m {
                    m = l;
                }
                i = i + 1;
            }
            assert(v.take(items@.len() as int) =~= v);
            let w: u16 = if m < 4 {
                4
            } else if m > 30 {
                30
            } else {
                m as u16
            };
            ColumnWidth::Length(w)
        },
        Column::Number => ColumnWidth::Length(6),
        Column::Title => ColumnWidth::Fill(1),
        Column::Author => ColumnWidth::Length(12),
        Column::Comment => ColumnWidth::Length(30),
        Column::Updated | Column::Created => ColumnWidth::Length(7),
    }
}

/// How a key is shown in the help line: arrows as glyphs, other keys by
/// their config name.
pub open spec fn glyph_text(k: KeySpec) -> Seq<char> {
    match k {
        KeySpec::Up => "↑"@,
        KeySpec::Down => "↓"@,
        KeySpec::Left => "←"@,
        KeySpec::Right => "→"@,
        _ => key_text(k),
    }
}

/// How a key is shown in the help line.
pub fn key_glyph(spec: KeySpec) -> (s: String)
    ensures
        s@ == glyph_text(spec),
{
    match spec {
        KeySpec::Up => owned("↑"),
        KeySpec::Down => owned("↓"),
        KeySpec::Left => owned("←"),
        KeySpec::Right => owned("→"),
        other => other.to_text(),
    }
}

/// Every action has at least one key.
pub open spec fn all_bound(kb: Keybindings) -> bool {
    &&& kb.up.0@.len() > 0
    &&& kb.down.0@.len() > 0
    &&& kb.next_section.0@.len() > 0
    &&& kb.prev_section.0@.len() > 0
    &&& kb.open.0@.len() > 0
    &&& kb.done.0@.len() > 0
    &&& kb.refresh.0@.len() > 0
    &&& kb.quit.0@.len() > 0
}

/// The help line: each action's first key.
pub open spec fn help_text(kb: Keybindings) -> Seq<char> {
    glyph_text(kb.down.0@[0]) + glyph_text(kb.up.0@[0]) + " move · "@ + glyph_text(kb.prev_section.0@[0])
        + glyph_text(kb.next_section.0@[0]) + " section · "@ + glyph_text(kb.open.0@[0]) + " open · "@
        + glyph_text(kb.done.0@[0]) + " done · "@ + glyph_text(kb.refresh.0@[0]) + " refresh · "@
        + glyph_text(kb.quit.0@[0]) + " quit"@
}

/// The help line, from each action's first key.
pub fn help_line(kb: &Keybindings) -> (s: String)
    requires
        all_bound(*kb),
    ensures
        s@ == help_text(*kb),
{
    let mut s = key_glyph(kb.down.primary());
    s.append(key_glyph(kb.up.primary()).as_str());
    s.append(" move · ");
    s.append(key_glyph(kb.prev_section.primary()).as_str());
    s.append(key_glyph(kb.next_section.primary()).as_str());
    s.append(" section · ");
    s.append(key_glyph(kb.open.primary()).as_str());
    s.append(" open · ");
    s.append(key_glyph(kb.done.primary()).as_str());
    s.append(" done · ");
    s.append(key_glyph(kb.refresh.primary()).as_str());
    s.append(" refresh · ");
    s.append(key_glyph(kb.quit.primary()).as_str());
    s.append(" quit");
    s
}

/// The display width in terminal columns of a text, as `unicode-width`
/// measures it.
pub uninterp spec fn text_width(s: Seq<char>) -> usize;

/// `UnicodeWidthStr::width` from `unicode-width`. Claimed: the result is
/// `text_width` of the text; nothing more (the tables are the crate's).
#[verifier::external_body]
fn display_width(s: &str) -> (w: usize)
    ensures
        w == text_width(s@),
{
    unicode_width::UnicodeWidthStr::width(s)
}

/// 16-bit wrapping addition.
fn add16(a: u16, b: u16) -> (r: u16)
    ensures
        r == wrap16(a + b),
{
    let r = a.wrapping_add(b);
    assert(r == wrap16(a + b)) by {
        if a + b > u16::MAX {
            assert((a + b) % 65536 == a + b - 65536);
        } else {
            assert((a + b) % 65536 == a + b);
        }
    }
    r
}

/// The separator between tabs.
pub open spec fn tab_separator() -> Seq<char> {
    " │ "@
}

/// 16-bit wrapping of a sum of columns.
pub open spec fn wrap16(a: int) -> u16 {
    (a % 65536) as u16
}

/// How far one tab moves the next along: its title, its count and the
/// separator, in columns (16-bit, wrapping).
pub open spec fn tab_advance(d: SectionDataModel) -> u16 {
    wrap16(
        wrap16((text_width(d.title) as u16) + (text_width(seq![' '] + decimal(d.items.len())) as u16)) + (
        text_width(tab_separator()) as u16),
    )
}

/// The column where tab `k` starts: after a leading space and the tabs
/// before it.
pub open spec fn tab_start(sections: Seq<SectionDataModel>, k: int) -> u16
    decreases k,
{
    if k <= 0 {
        1
    } else {
        wrap16(tab_start(sections, k - 1) + tab_advance(sections[k - 1]))
    }
}

/// (x offset, display width) of the active tab's title in the tab line;
/// (0, 0) when the active index is past the sections.
pub open spec fn tab_range(sections: Seq<SectionDataModel>, active: int) -> (u16, u16) {
    if 0 <= active < sections.len() {
        (tab_start(sections, active), text_width(sections[active].title) as u16)
    } else {
        (0, 0)
    }
}

/// (x offset, display width) of the active tab's title in the tab line,
/// mirroring the tab line's layout. Drives the accent underline below the
/// tabs.
pub fn active_tab_range(app: &App) -> (r: (u16, u16))
    ensures
        r == tab_range(app.section_values(), app.active as int),
{
    let ghost secs = app.section_values();
    let sep_w = display_width(" │ ") as u16;
    let mut x: u16 = 1;
    let mut i: usize = 0;
    while i < app.sections.len()
        invariant
            i <= app.sections@.len(),
            secs == app.section_values(),
            x == tab_start(secs, i as int),
            app.active >= i,
            sep_w == text_width(tab_separator()) as u16,
        decreases app.sections.len() - i,
    {
        let s = &app.sections[i];
        assert(secs[i as int] == s@);
        let title_w = display_width(s.title.as_str()) as u16;
        if i == app.active {
            return (x, title_w);
        }
        let count = u64_text(s.items.len() as u64);
        let count_text = concat2(" ", count.as_str());
        proof {
            reveal_strlit(" ");
            assert(" "@ =~= seq![' ']);
            assert(item_views(s.items@).len() == s.items@.len());
        }
        let count_w = display_width(count_text.as_str()) as u16;
        let advance = add16(add16(title_w, count_w), sep_w);
        x = add16(x, advance);
        i = i + 1;
    }
    (0, 0)
}


/// A text with its ASCII capitals made small.
pub open spec fn ascii_lowercase(s: Seq<char>) -> Seq<char> {
    s.map_values(|c: char| if 'A' <= c && c <= 'Z' { ((c as int) + 32) as char } else { c })
}

/// A config names each column by its header in small letters (the state
/// column, whose header is empty, by `state`, and the `#` column by
/// `number`), and no name stands for two columns.
pub proof fn lemma_column_names_match_headers(c: Column, s: Seq<char>, t: Seq<char>)
    ensures
        c != Column::State && c != Column::Number ==> crate::config::column_named(
            ascii_lowercase(column_label_text(c)),
        ) == Some(c),
        crate::config::column_named("state"@) == Some(Column::State),
        crate::config::column_named("number"@) == Some(Column::Number),
        crate::config::column_named(s) == Some(c) && crate::config::column_named(t) == Some(c) ==> s == t,
{
    reveal_strlit("state");
    reveal_strlit("repo");
    reveal_strlit("number");
    reveal_strlit("title");
    reveal_strlit("author");
    reveal_strlit("comment");
    reveal_strlit("updated");
    reveal_strlit("created");
    reveal_strlit("REPO");
    reveal_strlit("TITLE");
    reveal_strlit("AUTHOR");
    reveal_strlit("COMMENT");
    reveal_strlit("UPDATED");
    reveal_strlit("CREATED");
    assert(ascii_lowercase("REPO"@) =~= "repo"@);
    assert(ascii_lowercase("TITLE"@) =~= "title"@);
    assert(ascii_lowercase("AUTHOR"@) =~= "author"@);
    assert(ascii_lowercase("COMMENT"@) =~= "comment"@);
    assert(ascii_lowercase("UPDATED"@) =~= "updated"@);
    assert(ascii_lowercase("CREATED"@) =~= "created"@);
    assert("state"@.len() == 5 && "repo"@.len() == 4 && "number"@.len() == 6 && "title"@.len() == 5);
    assert("author"@.len() == 6 && "comment"@.len() == 7 && "updated"@.len() == 7 && "created"@.len() == 7);
    assert("state"@[0] != "title"@[0]);
    assert("number"@[0] != "author"@[0]);
    assert("comment"@[0] != "updated"@[0] && "comment"@[1] != "created"@[1] && "updated"@[0] != "created"@[0]);
}

} // verus!
