//! Configuration: sections, columns, filters, theme and keybindings, the
//! rules that turn a parsed config file into them, and their validation.

use vstd::prelude::*;

use crate::error::Error;
use crate::pattern::{regex_compile_error, regex_search};
use crate::text::{
    chars_of, concat2, concat3, debug_str, debug_text, first_where, lemma_first_where, lemma_first_where_spec, owned,
    push_char, text_eq, views,
};

verus! {

/// A table column a section can show.
#[derive(Clone, Copy, Debug, PartialEq, Eq, Structural)]
pub enum Column {
    State,
    Repo,
    Number,
    Title,
    Author,
    Comment,
    Updated,
    Created,
}

/// The column that a config name (lowercase) stands for.
pub open spec fn column_named(s: Seq<char>) -> Option<Column> {
    if s == "state"@ {
        Some(Column::State)
    } else if s == "repo"@ {
        Some(Column::Repo)
    } else if s == "number"@ {
        Some(Column::Number)
    } else if s == "title"@ {
        Some(Column::Title)
    } else if s == "author"@ {
        Some(Column::Author)
    } else if s == "comment"@ {
        Some(Column::Comment)
    } else if s == "updated"@ {
        Some(Column::Updated)
    } else if s == "created"@ {
        Some(Column::Created)
    } else {
        None
    }
}

/// Message for an unknown column name.
pub open spec fn column_error(s: Seq<char>) -> Seq<char> {
    "unknown column "@ + debug_text(s)
        + " (expected state, repo, number, title, author, comment, updated, or created)"@
}

impl Column {
    /// The column a config name stands for.
    pub fn parse(s: &str) -> (r: Result<Column, String>)
        ensures
            (r is Ok) == (column_named(s@) is Some),
            r matches Ok(c) ==> column_named(s@) == Some(c),
            r matches Err(m) ==> m@ == column_error(s@),
    {
        if text_eq(s, "state") {
            Ok(Column::State)
        } else if text_eq(s, "repo") {
            Ok(Column::Repo)
        } else if text_eq(s, "number") {
            Ok(Column::Number)
        } else if text_eq(s, "title") {
            Ok(Column::Title)
        } else if text_eq(s, "author") {
            Ok(Column::Author)
        } else if text_eq(s, "comment") {
            Ok(Column::Comment)
        } else if text_eq(s, "updated") {
            Ok(Column::Updated)
        } else if text_eq(s, "created") {
            Ok(Column::Created)
        } else {
            let q = debug_str(s);
            Err(concat3(
                "unknown column ",
                q.as_str(),
                " (expected state, repo, number, title, author, comment, updated, or created)",
            ))
        }
    }
}

/// The time a section orders its rows by (newest first within a repo).
#[derive(Clone, Copy, Debug, PartialEq, Eq, Structural)]
pub enum SortBy {
    /// The pull request's last update.
    Updated,
    /// The comment's creation for comment items, the pull request's creation
    /// otherwise.
    Created,
}

/// The sort order a config name stands for.
pub open spec fn sort_named(s: Seq<char>) -> Option<SortBy> {
    if s == "updated"@ {
        Some(SortBy::Updated)
    } else if s == "created"@ {
        Some(SortBy::Created)
    } else {
        None
    }
}

/// Message for an unknown sort name.
pub open spec fn sort_error(s: Seq<char>) -> Seq<char> {
    "unknown sort "@ + debug_text(s) + " (expected \"updated\" or \"created\")"@
}

impl SortBy {
    /// The sort order a config name stands for.
    pub fn parse(s: &str) -> (r: Result<SortBy, String>)
        ensures
            (r is Ok) == (sort_named(s@) is Some),
            r matches Ok(c) ==> sort_named(s@) == Some(c),
            r matches Err(m) ==> m@ == sort_error(s@),
    {
        if text_eq(s, "updated") {
            Ok(SortBy::Updated)
        } else if text_eq(s, "created") {
            Ok(SortBy::Created)
        } else {
            let q = debug_str(s);
            Err(concat3("unknown sort ", q.as_str(), " (expected \"updated\" or \"created\")"))
        }
    }
}

/// A key a config action can be bound to: a single character or a named
/// special key.
#[derive(Clone, Copy, Debug, PartialEq, Eq, Structural)]
pub enum KeySpec {
    Char(char),
    Tab,
    BackTab,
    Enter,
    Up,
    Down,
    Left,
    Right,
    Esc,
}

/// The key a config string names: a special key name, or a single
/// character.
pub open spec fn key_named(s: Seq<char>) -> Option<KeySpec> {
    if s == "tab"@ {
        Some(KeySpec::Tab)
    } else if s == "backtab"@ {
        Some(KeySpec::BackTab)
    } else if s == "enter"@ {
        Some(KeySpec::Enter)
    } else if s == "up"@ {
        Some(KeySpec::Up)
    } else if s == "down"@ {
        Some(KeySpec::Down)
    } else if s == "left"@ {
        Some(KeySpec::Left)
    } else if s == "right"@ {
        Some(KeySpec::Right)
    } else if s == "esc"@ {
        Some(KeySpec::Esc)
    } else if s.len() == 1 {
        Some(KeySpec::Char(s[0]))
    } else {
        None
    }
}

/// Message for a string that names no key.
pub open spec fn key_error(s: Seq<char>) -> Seq<char> {
    "invalid key "@ + debug_text(s)
        + ": expected one character or tab/backtab/enter/up/down/left/right/esc"@
}

/// How a key is written: its character, or its special name.
pub open spec fn key_text(k: KeySpec) -> Seq<char> {
    match k {
        KeySpec::Char(c) => seq![c],
        KeySpec::Tab => "tab"@,
        KeySpec::BackTab => "backtab"@,
        KeySpec::Enter => "enter"@,
        KeySpec::Up => "up"@,
        KeySpec::Down => "down"@,
        KeySpec::Left => "left"@,
        KeySpec::Right => "right"@,
        KeySpec::Esc => "esc"@,
    }
}

impl KeySpec {
    /// The key a config string names.
    pub fn parse(s: &str) -> (r: Result<KeySpec, String>)
        ensures
            (r is Ok) == (key_named(s@) is Some),
            r matches Ok(k) ==> key_named(s@) == Some(k),
            r matches Err(m) ==> m@ == key_error(s@),
    {
        if text_eq(s, "tab") {
            Ok(KeySpec::Tab)
        } else if text_eq(s, "backtab") {
            Ok(KeySpec::BackTab)
        } else if text_eq(s, "enter") {
            Ok(KeySpec::Enter)
        } else if text_eq(s, "up") {
            Ok(KeySpec::Up)
        } else if text_eq(s, "down") {
            Ok(KeySpec::Down)
        } else if text_eq(s, "left") {
            Ok(KeySpec::Left)
        } else if text_eq(s, "right") {
            Ok(KeySpec::Right)
        } else if text_eq(s, "esc") {
            Ok(KeySpec::Esc)
        } else {
            let v = chars_of(s);
            if v.len() == 1 {
                Ok(KeySpec::Char(v[0]))
            } else {
                let q = debug_str(s);
                Err(concat3(
                    "invalid key ",
                    q.as_str(),
                    ": expected one character or tab/backtab/enter/up/down/left/right/esc",
                ))
            }
        }
    }

    /// How the key is written (its `Display`): the character itself, or the
    /// special key's name.
    pub fn to_text(&self) -> (s: String)
        ensures
            s@ == key_text(*self),
    {
        match self {
            KeySpec::Char(c) => {
                let mut s = String::new();
                push_char(&mut s, *c);
                assert(s@ =~= seq![*c]);
                s
            },
            KeySpec::Tab => owned("tab"),
            KeySpec::BackTab => owned("backtab"),
            KeySpec::Enter => owned("enter"),
            KeySpec::Up => owned("up"),
            KeySpec::Down => owned("down"),
            KeySpec::Left => owned("left"),
            KeySpec::Right => owned("right"),
            KeySpec::Esc => owned("esc"),
        }
    }
}

} // verus!

verus! {

/// One action's keys, never empty.
#[derive(Clone, Debug, PartialEq, Eq)]
pub struct KeyBinding(pub Vec<KeySpec>);

/// A keybinding as the config file writes it: one key string or an array.
#[derive(Clone, Debug, PartialEq, Eq)]
pub enum KeyBindingSpec {
    One(String),
    Many(Vec<String>),
}

/// The index of the first string in `names` that names no key, if any.
pub open spec fn first_bad_key(names: Seq<Seq<char>>) -> Option<int> {
    if exists|i: int| 0 <= i < names.len() && key_named(names[i]) is None {
        Some(choose|i: int| 0 <= i < names.len() && key_named(names[i]) is None
            && forall|j: int| 0 <= j < i ==> key_named(names[j]) is Some)
    } else {
        None
    }
}

/// Message for an empty key array.
pub open spec fn empty_binding_error() -> Seq<char> {
    "keybinding must have at least one key"@
}

/// The keys that a keybinding in the config file stands for, or the message
/// of its error.
pub open spec fn binding_of(names: Seq<Seq<char>>) -> Result<Seq<KeySpec>, Seq<char>> {
    match first_bad_key(names) {
        Some(i) => Err(key_error(names[i])),
        None => if names.len() == 0 {
            Err(empty_binding_error())
        } else {
            Ok(names.map_values(|n: Seq<char>| key_named(n)->Some_0))
        },
    }
}

/// The key strings a keybinding spec holds.
pub open spec fn binding_spec_names(spec: KeyBindingSpec) -> Seq<Seq<char>> {
    match spec {
        KeyBindingSpec::One(s) => seq![s@],
        KeyBindingSpec::Many(v) => views(v@),
    }
}

pub proof fn lemma_first_bad_key(names: Seq<Seq<char>>, i: int)
    requires
        0 <= i <= names.len(),
        forall|j: int| 0 <= j < i ==> key_named(names[j]) is Some,
        i < names.len() ==> key_named(names[i]) is None,
    ensures
        first_bad_key(names) == (if i < names.len() { Some(i) } else { None::<int> }),
{
    if i < names.len() {
        let k = choose|k: int| 0 <= k < names.len() && key_named(names[k]) is None
            && forall|j: int| 0 <= j < k ==> key_named(names[j]) is Some;
        assert(0 <= i < names.len() && key_named(names[i]) is None
            && forall|j: int| 0 <= j < i ==> key_named(names[j]) is Some);
        if k < i {
            assert(key_named(names[k]) is Some);
        }
        if k > i {
            assert(key_named(names[i]) is Some);
        }
    }
}

impl KeyBinding {
    /// The keys a keybinding spec stands for: every string must name a key,
    /// and an array must not be empty.
    pub fn from_spec(spec: &KeyBindingSpec) -> (r: Result<KeyBinding, String>)
        ensures
            match binding_of(binding_spec_names(*spec)) {
                Ok(keys) => r matches Ok(b) && b.0@ == keys,
                Err(m) => r matches Err(e) && e@ == m,
            },
    {
        let ghost names = binding_spec_names(*spec);
        match spec {
            KeyBindingSpec::One(s) => {
                let k = KeySpec::parse(s.as_str());
                proof {
                    lemma_first_bad_key(names, if k is Ok { 1 } else { 0 });
                }
                match k {
                    Ok(key) => {
                        let mut keys: Vec<KeySpec> = Vec::new();
                        keys.push(key);
                        assert(keys@ =~= names.map_values(|n: Seq<char>| key_named(n)->Some_0));
                        Ok(KeyBinding(keys))
                    },
                    Err(e) => Err(e),
                }
            },
            KeyBindingSpec::Many(v) => {
                let mut keys: Vec<KeySpec> = Vec::new();
                let mut i: usize = 0;
                while i < v.len()
                    invariant
                        names == views(v@),
                        names == binding_spec_names(*spec),
                        i <= v.len(),
                        keys@.len() == i,
                        forall|j: int| 0 <= j < i ==> key_named(#[trigger] names[j]) == Some(keys@[j]),
                    decreases v.len() - i,
                {
                    match KeySpec::parse(v[i].as_str()) {
                        Ok(key) => {
                            assert(names[i as int] == v@[i as int]@);
                            keys.push(key);
                        },
                        Err(e) => {
                            proof {
                                assert(names[i as int] == v@[i as int]@);
                                lemma_first_bad_key(names, i as int);
                            }
                            return Err(e);
                        },
                    }
                    i = i + 1;
                }
                proof {
                    lemma_first_bad_key(names, names.len() as int);
                }
                if keys.len() == 0 {
                    Err(owned("keybinding must have at least one key"))
                } else {
                    assert(keys@ =~= names.map_values(|n: Seq<char>| key_named(n)->Some_0));
                    Ok(KeyBinding(keys))
                }
            },
        }
    }

    /// The binding's primary key: the first one listed.
    pub fn primary(&self) -> (k: KeySpec)
        requires
            self.0@.len() > 0,
        ensures
            k == self.0@[0],
    {
        self.0[0]
    }

    /// Whether `key` is one of the binding's keys.
    pub fn contains(&self, key: KeySpec) -> (r: bool)
        ensures
            r == self.0@.contains(key),
    {
        let mut i: usize = 0;
        while i < self.0.len()
            invariant
                i <= self.0.len(),
                forall|j: int| 0 <= j < i ==> self.0@[j] != key,
            decreases self.0.len() - i,
        {
            if self.0[i] == key {
                assert(self.0@[i as int] == key);
                return true;
            }
            i = i + 1;
        }
        false
    }

    /// The keys written one after another, separated by `/` (the binding's
    /// `Display`).
    pub fn to_text(&self) -> (s: String)
        ensures
            s@ == binding_text(self.0@),
    {
        let mut s = String::new();
        let mut i: usize = 0;
        while i < self.0.len()
            invariant
                i <= self.0.len(),
                s@ == binding_text(self.0@.take(i as int)),
            decreases self.0.len() - i,
        {
            assert(self.0@.take(i + 1).drop_last() =~= self.0@.take(i as int));
            if i > 0 {
                s.append("/");
                proof {
                    reveal_strlit("/");
                }
            }
            let k = self.0[i].to_text();
            s.append(k.as_str());
            i = i + 1;
            assert(s@ =~= binding_text(self.0@.take(i as int)));
        }
        assert(self.0@.take(self.0@.len() as int) =~= self.0@);
        s
    }
}

/// The keys of a binding written one after another, separated by `/`.
pub open spec fn binding_text(keys: Seq<KeySpec>) -> Seq<char>
    decreases keys.len(),
{
    if keys.len() == 0 {
        Seq::empty()
    } else if keys.len() == 1 {
        key_text(keys[0])
    } else {
        binding_text(keys.drop_last()) + seq!['/'] + key_text(keys.last())
    }
}

} // verus!

verus! {

/// A named terminal color (written in lowercase in the config).
#[derive(Clone, Copy, Debug, PartialEq, Eq, Structural)]
pub enum NamedColor {
    Black,
    Red,
    Green,
    Yellow,
    Blue,
    Magenta,
    Cyan,
    Gray,
    DarkGray,
    LightRed,
    LightGreen,
    LightYellow,
    LightBlue,
    LightMagenta,
    LightCyan,
    White,
}

/// A theme color: a named terminal color or `#rrggbb`.
#[derive(Clone, Copy, Debug, PartialEq, Eq, Structural)]
pub enum ThemeColor {
    Named(NamedColor),
    Rgb(u8, u8, u8),
}

/// The named color a lowercase name stands for.
pub open spec fn named_color_of(s: Seq<char>) -> Option<NamedColor> {
    if s == "black"@ {
        Some(NamedColor::Black)
    } else if s == "red"@ {
        Some(NamedColor::Red)
    } else if s == "green"@ {
        Some(NamedColor::Green)
    } else if s == "yellow"@ {
        Some(NamedColor::Yellow)
    } else if s == "blue"@ {
        Some(NamedColor::Blue)
    } else if s == "magenta"@ {
        Some(NamedColor::Magenta)
    } else if s == "cyan"@ {
        Some(NamedColor::Cyan)
    } else if s == "gray"@ {
        Some(NamedColor::Gray)
    } else if s == "darkgray"@ {
        Some(NamedColor::DarkGray)
    } else if s == "lightred"@ {
        Some(NamedColor::LightRed)
    } else if s == "lightgreen"@ {
        Some(NamedColor::LightGreen)
    } else if s == "lightyellow"@ {
        Some(NamedColor::LightYellow)
    } else if s == "lightblue"@ {
        Some(NamedColor::LightBlue)
    } else if s == "lightmagenta"@ {
        Some(NamedColor::LightMagenta)
    } else if s == "lightcyan"@ {
        Some(NamedColor::LightCyan)
    } else if s == "white"@ {
        Some(NamedColor::White)
    } else {
        None
    }
}

/// Value of an ASCII hexadecimal digit.
pub open spec fn hex_value(c: char) -> Option<nat> {
    if '0' <= c && c <= '9' {
        Some((c as int - 48) as nat)
    } else if 'a' <= c && c <= 'f' {
        Some((c as int - 87) as nat)
    } else if 'A' <= c && c <= 'F' {
        Some((c as int - 55) as nat)
    } else {
        None
    }
}

/// The byte written by the two hex digits at `i` and `i + 1` of `h`.
pub open spec fn hex_byte(h: Seq<char>, i: int) -> u8 {
    (hex_value(h[i])->Some_0 * 16 + hex_value(h[i + 1])->Some_0) as u8
}

/// The color a config string stands for: `#rrggbb` (six hex digits, either
/// case) or a lowercase color name.
pub open spec fn color_of(s: Seq<char>) -> Option<ThemeColor> {
    if s.len() > 0 && s[0] == '#' {
        let h = s.drop_first();
        if h.len() == 6 && forall|i: int| 0 <= i < 6 ==> #[trigger] hex_value(h[i]) is Some {
            Some(ThemeColor::Rgb(hex_byte(h, 0), hex_byte(h, 2), hex_byte(h, 4)))
        } else {
            None
        }
    } else {
        match named_color_of(s) {
            Some(n) => Some(ThemeColor::Named(n)),
            None => None,
        }
    }
}

/// Message for a string that is no color.
pub open spec fn color_error(s: Seq<char>) -> Seq<char> {
    if s.len() > 0 && s[0] == '#' {
        "invalid color "@ + debug_text(s) + ": expected #rrggbb"@
    } else {
        "unknown color "@ + debug_text(s)
    }
}

/// Value of a hexadecimal digit.
fn hex_digit(c: char) -> (d: Option<u8>)
    ensures
        d matches Some(x) ==> hex_value(c) == Some(x as nat),
        d is None ==> hex_value(c) is None,
{
    if '0' <= c && c <= '9' {
        Some(((c as u32) - 48) as u8)
    } else if 'a' <= c && c <= 'f' {
        Some(((c as u32) - 87) as u8)
    } else if 'A' <= c && c <= 'F' {
        Some(((c as u32) - 55) as u8)
    } else {
        None
    }
}

impl ThemeColor {
    /// The color a config string stands for.
    pub fn parse(s: &str) -> (r: Result<ThemeColor, String>)
        ensures
            (r is Ok) == (color_of(s@) is Some),
            r matches Ok(c) ==> color_of(s@) == Some(c),
            r matches Err(m) ==> m@ == color_error(s@),
    {
        let v = chars_of(s);
        if v.len() > 0 && v[0] == '#' {
            let ghost h = s@.drop_first();
            if v.len() == 7 {
                let mut vals: Vec<u8> = Vec::new();
                let mut i: usize = 1;
                while i < 7
                    invariant
                        v@ == s@,
                        v@.len() == 7,
                        s@[0] == '#',
                        h == s@.drop_first(),
                        1 <= i <= 7,
                        vals@.len() == i - 1,
                        forall|j: int| 0 <= j < i - 1 ==> hex_value(#[trigger] h[j]) == Some(vals@[j] as nat),
                    decreases 7 - i,
                {
                    match hex_digit(v[i]) {
                        Some(d) => {
                            vals.push(d);
                        },
                        None => {
                            assert(hex_value(h[i - 1]) is None);
                            assert(!(forall|j: int| 0 <= j < 6 ==> #[trigger] hex_value(h[j]) is Some));
                            let q = debug_str(s);
                            return Err(concat3("invalid color ", q.as_str(), ": expected #rrggbb"));
                        },
                    }
                    i = i + 1;
                }
                assert(forall|j: int| 0 <= j < 6 ==> #[trigger] hex_value(h[j]) is Some);
                let r: u8 = vals[0] * 16 + vals[1];
                let g: u8 = vals[2] * 16 + vals[3];
                let b: u8 = vals[4] * 16 + vals[5];
                assert(hex_value(h[0]) == Some(vals@[0] as nat));
                assert(hex_value(h[1]) == Some(vals@[1] as nat));
                assert(hex_value(h[2]) == Some(vals@[2] as nat));
                assert(hex_value(h[3]) == Some(vals@[3] as nat));
                assert(hex_value(h[4]) == Some(vals@[4] as nat));
                assert(hex_value(h[5]) == Some(vals@[5] as nat));
                Ok(ThemeColor::Rgb(r, g, b))
            } else {
                let q = debug_str(s);
                Err(concat3("invalid color ", q.as_str(), ": expected #rrggbb"))
            }
        } else {
            let named = if text_eq(s, "black") {
                Some(NamedColor::Black)
            } else if text_eq(s, "red") {
                Some(NamedColor::Red)
            } else if text_eq(s, "green") {
                Some(NamedColor::Green)
            } else if text_eq(s, "yellow") {
                Some(NamedColor::Yellow)
            } else if text_eq(s, "blue") {
                Some(NamedColor::Blue)
            } else if text_eq(s, "magenta") {
                Some(NamedColor::Magenta)
            } else if text_eq(s, "cyan") {
                Some(NamedColor::Cyan)
            } else if text_eq(s, "gray") {
                Some(NamedColor::Gray)
            } else if text_eq(s, "darkgray") {
                Some(NamedColor::DarkGray)
            } else if text_eq(s, "lightred") {
                Some(NamedColor::LightRed)
            } else if text_eq(s, "lightgreen") {
                Some(NamedColor::LightGreen)
            } else if text_eq(s, "lightyellow") {
                Some(NamedColor::LightYellow)
            } else if text_eq(s, "lightblue") {
                Some(NamedColor::LightBlue)
            } else if text_eq(s, "lightmagenta") {
                Some(NamedColor::LightMagenta)
            } else if text_eq(s, "lightcyan") {
                Some(NamedColor::LightCyan)
            } else if text_eq(s, "white") {
                Some(NamedColor::White)
            } else {
                None
            };
            match named {
                Some(n) => Ok(ThemeColor::Named(n)),
                None => {
                    let q = debug_str(s);
                    Err(concat2("unknown color ", q.as_str()))
                },
            }
        }
    }
}

} // verus!

verus! {

/// Per-section filter.
#[derive(Clone, Debug, PartialEq)]
pub enum SectionFilter {
    /// Keep the search results as they are (`type = "none"`, or no filter).
    Unfiltered,
    /// One row per comment that mentions the viewer and asks to merge.
    CommentMention { extra_patterns: Vec<String> },
    /// Keep the rows whose ids an external command prints.
    Command { command: String },
}

/// Mathematical value of a [`SectionFilter`].
pub enum FilterModel {
    Unfiltered,
    CommentMention { extra_patterns: Seq<Seq<char>> },
    Command { command: Seq<char> },
}

impl View for SectionFilter {
    type V = FilterModel;

    open spec fn view(&self) -> FilterModel {
        match self {
            SectionFilter::Unfiltered => FilterModel::Unfiltered,
            SectionFilter::CommentMention { extra_patterns } => FilterModel::CommentMention {
                extra_patterns: views(extra_patterns@),
            },
            SectionFilter::Command { command } => FilterModel::Command { command: command@ },
        }
    }
}

/// A section filter as the config file writes it (`filter = { type = ..,
/// .. }`).
#[derive(Clone, Debug, PartialEq)]
pub struct FilterSpec {
    /// The `type` key.
    pub kind: String,
    pub extra_patterns: Option<Vec<String>>,
    pub command: Option<String>,
}

/// View of an optional string.
pub open spec fn opt_text(o: Option<String>) -> Option<Seq<char>> {
    match o {
        Some(s) => Some(s@),
        None => None,
    }
}

/// View of an optional vector of strings.
pub open spec fn opt_texts(o: Option<Vec<String>>) -> Option<Seq<Seq<char>>> {
    match o {
        Some(v) => Some(views(v@)),
        None => None,
    }
}

/// The filter that a filter spec stands for, or the message of its error:
/// each type takes only its own keys, and `command` needs its command.
pub open spec fn filter_of(
    kind: Seq<char>,
    extra: Option<Seq<Seq<char>>>,
    command: Option<Seq<char>>,
) -> Result<FilterModel, Seq<char>> {
    if kind == "none"@ {
        if extra is Some || command is Some {
            Err("filter type \"none\" takes no other keys"@)
        } else {
            Ok(FilterModel::Unfiltered)
        }
    } else if kind == "comment-mention"@ {
        if command is Some {
            Err("filter type \"comment-mention\" does not take `command`"@)
        } else {
            Ok(
                FilterModel::CommentMention {
                    extra_patterns: match extra {
                        Some(v) => v,
                        None => Seq::empty(),
                    },
                },
            )
        }
    } else if kind == "command"@ {
        if extra is Some {
            Err("filter type \"command\" does not take `extra_patterns`"@)
        } else {
            match command {
                Some(c) => Ok(FilterModel::Command { command: c }),
                None => Err("filter type \"command\" requires `command`"@),
            }
        }
    } else {
        Err(
            "unknown filter type "@ + debug_text(kind)
                + " (expected \"none\", \"comment-mention\", or \"command\")"@,
        )
    }
}

/// Copy of a vector of strings.
pub fn copy_texts(v: &Vec<String>) -> (w: Vec<String>)
    ensures
        views(w@) == views(v@),
{
    let mut w: Vec<String> = Vec::new();
    let mut i: usize = 0;
    while i < v.len()
        invariant
            i <= v.len(),
            views(w@) == views(v@).take(i as int),
        decreases v.len() - i,
    {
        let c = v[i].clone();
        assert(c@ == v@[i as int]@);
        let ghost old_w = w@;
        w.push(c);
        assert(w@ == old_w.push(c));
        assert(views(w@) =~= views(old_w).push(c@));
        i = i + 1;
        assert(views(w@) =~= views(v@).take(i as int));
    }
    assert(views(v@).take(v.len() as int) =~= views(v@));
    w
}

impl SectionFilter {
    /// The filter a filter spec stands for.
    pub fn from_spec(spec: &FilterSpec) -> (r: Result<SectionFilter, String>)
        ensures
            match filter_of(spec.kind@, opt_texts(spec.extra_patterns), opt_text(spec.command)) {
                Ok(f) => r matches Ok(x) && x@ == f,
                Err(m) => r matches Err(e) && e@ == m,
            },
    {
        let kind = spec.kind.as_str();
        if text_eq(kind, "none") {
            if spec.extra_patterns.is_some() || spec.command.is_some() {
                return Err(owned("filter type \"none\" takes no other keys"));
            }
            Ok(SectionFilter::Unfiltered)
        } else if text_eq(kind, "comment-mention") {
            if spec.command.is_some() {
                return Err(owned("filter type \"comment-mention\" does not take `command`"));
            }
            let extra_patterns = match &spec.extra_patterns {
                Some(v) => copy_texts(v),
                None => Vec::new(),
            };
            proof {
                if spec.extra_patterns is None {
                    assert(views(extra_patterns@) =~= Seq::<Seq<char>>::empty());
                }
            }
            Ok(SectionFilter::CommentMention { extra_patterns })
        } else if text_eq(kind, "command") {
            if spec.extra_patterns.is_some() {
                return Err(owned("filter type \"command\" does not take `extra_patterns`"));
            }
            match &spec.command {
                Some(c) => Ok(SectionFilter::Command { command: c.clone() }),
                None => Err(owned("filter type \"command\" requires `command`")),
            }
        } else {
            let q = debug_str(kind);
            Err(concat3(
                "unknown filter type ",
                q.as_str(),
                " (expected \"none\", \"comment-mention\", or \"command\")",
            ))
        }
    }

    /// A copy with the same value.
    pub fn duplicate(&self) -> (f: SectionFilter)
        ensures
            f@ == self@,
    {
        match self {
            SectionFilter::Unfiltered => SectionFilter::Unfiltered,
            SectionFilter::CommentMention { extra_patterns } => SectionFilter::CommentMention {
                extra_patterns: copy_texts(extra_patterns),
            },
            SectionFilter::Command { command } => SectionFilter::Command { command: command.clone() },
        }
    }
}

} // verus!

verus! {

/// Colors of the view. Keys omitted in the config keep their defaults
/// (catppuccin mocha).
#[derive(Clone, Copy, Debug, PartialEq, Eq, Structural)]
pub struct Theme {
    pub tab_active: ThemeColor,
    pub tab_inactive: ThemeColor,
    pub border: ThemeColor,
    pub selection_bg: ThemeColor,
    pub selection_fg: ThemeColor,
    pub table_header: ThemeColor,
    pub status_bar: ThemeColor,
    pub pr_number: ThemeColor,
    pub author: ThemeColor,
    pub time: ThemeColor,
    /// De-emphasized text: repo and comment columns, the empty-state line.
    pub faint: ThemeColor,
    pub state_open: ThemeColor,
    pub state_draft: ThemeColor,
    pub state_merged: ThemeColor,
    pub state_closed: ThemeColor,
}

/// The theme's colors in the order of its fields.
pub open spec fn theme_colors(t: Theme) -> Seq<ThemeColor> {
    seq![
        t.tab_active,
        t.tab_inactive,
        t.border,
        t.selection_bg,
        t.selection_fg,
        t.table_header,
        t.status_bar,
        t.pr_number,
        t.author,
        t.time,
        t.faint,
        t.state_open,
        t.state_draft,
        t.state_merged,
        t.state_closed,
    ]
}

/// The default colors (catppuccin mocha), in the order of the theme's fields.
pub open spec fn default_theme_colors() -> Seq<ThemeColor> {
    seq![
        ThemeColor::Rgb(0xcb, 0xa6, 0xf7),
        ThemeColor::Rgb(0x6c, 0x70, 0x86),
        ThemeColor::Rgb(0x45, 0x47, 0x5a),
        ThemeColor::Rgb(0x31, 0x32, 0x44),
        ThemeColor::Rgb(0xcd, 0xd6, 0xf4),
        ThemeColor::Rgb(0xb4, 0xbe, 0xfe),
        ThemeColor::Rgb(0x6c, 0x70, 0x86),
        ThemeColor::Rgb(0x89, 0xb4, 0xfa),
        ThemeColor::Rgb(0xf5, 0xc2, 0xe7),
        ThemeColor::Rgb(0x7f, 0x84, 0x9c),
        ThemeColor::Rgb(0x6c, 0x70, 0x86),
        ThemeColor::Rgb(0xa6, 0xe3, 0xa1),
        ThemeColor::Rgb(0x6c, 0x70, 0x86),
        ThemeColor::Rgb(0xcb, 0xa6, 0xf7),
        ThemeColor::Rgb(0xf3, 0x8b, 0xa8),
    ]
}

impl Default for Theme {
    fn default() -> (t: Self)
        ensures
            theme_colors(t) == default_theme_colors(),
    {
        Theme {
            tab_active: ThemeColor::Rgb(0xcb, 0xa6, 0xf7),  // mauve
            tab_inactive: ThemeColor::Rgb(0x6c, 0x70, 0x86),  // overlay0
            border: ThemeColor::Rgb(0x45, 0x47, 0x5a),  // surface1
            selection_bg: ThemeColor::Rgb(0x31, 0x32, 0x44),  // surface0
            selection_fg: ThemeColor::Rgb(0xcd, 0xd6, 0xf4),  // text
            table_header: ThemeColor::Rgb(0xb4, 0xbe, 0xfe),  // lavender
            status_bar: ThemeColor::Rgb(0x6c, 0x70, 0x86),  // overlay0
            pr_number: ThemeColor::Rgb(0x89, 0xb4, 0xfa),  // blue
            author: ThemeColor::Rgb(0xf5, 0xc2, 0xe7),  // pink
            time: ThemeColor::Rgb(0x7f, 0x84, 0x9c),  // overlay1
            faint: ThemeColor::Rgb(0x6c, 0x70, 0x86),  // overlay0
            state_open: ThemeColor::Rgb(0xa6, 0xe3, 0xa1),  // green
            state_draft: ThemeColor::Rgb(0x6c, 0x70, 0x86),  // overlay0
            state_merged: ThemeColor::Rgb(0xcb, 0xa6, 0xf7),  // mauve
            state_closed: ThemeColor::Rgb(0xf3, 0x8b, 0xa8),  // red
        }
    }
}

/// The `[theme]` table as the config file writes it; omitted keys are
/// `None`.
#[derive(Clone, Debug, PartialEq, Default)]
pub struct ThemeSpec {
    pub tab_active: Option<String>,
    pub tab_inactive: Option<String>,
    pub border: Option<String>,
    pub selection_bg: Option<String>,
    pub selection_fg: Option<String>,
    pub table_header: Option<String>,
    pub status_bar: Option<String>,
    pub pr_number: Option<String>,
    pub author: Option<String>,
    pub time: Option<String>,
    pub faint: Option<String>,
    pub state_open: Option<String>,
    pub state_draft: Option<String>,
    pub state_merged: Option<String>,
    pub state_closed: Option<String>,
}

/// The theme spec's keys in the order of the theme's fields.
pub open spec fn theme_spec_fields(s: ThemeSpec) -> Seq<Option<Seq<char>>> {
    seq![
        opt_text(s.tab_active),
        opt_text(s.tab_inactive),
        opt_text(s.border),
        opt_text(s.selection_bg),
        opt_text(s.selection_fg),
        opt_text(s.table_header),
        opt_text(s.status_bar),
        opt_text(s.pr_number),
        opt_text(s.author),
        opt_text(s.time),
        opt_text(s.faint),
        opt_text(s.state_open),
        opt_text(s.state_draft),
        opt_text(s.state_merged),
        opt_text(s.state_closed),
    ]
}

/// A theme key resolved: its default when omitted, else the color it names.
pub open spec fn resolved_color(o: Option<Seq<char>>, d: ThemeColor) -> Option<ThemeColor> {
    match o {
        None => Some(d),
        Some(s) => color_of(s),
    }
}

/// The index of the first theme key that names no color.
pub open spec fn first_bad_color(fields: Seq<Option<Seq<char>>>) -> Option<int> {
    first_where(15, |i: int| resolved_color(fields[i], default_theme_colors()[i]) is None)
}

/// A theme key resolved (its default, or the color it names).
fn resolve_color(o: &Option<String>, d: ThemeColor) -> (r: Result<ThemeColor, String>)
    ensures
        (r is Ok) == (resolved_color(opt_text(*o), d) is Some),
        r matches Ok(c) ==> resolved_color(opt_text(*o), d) == Some(c),
        r matches Err(m) ==> o is Some && m@ == color_error(o->Some_0@),
{
    match o {
        None => Ok(d),
        Some(s) => ThemeColor::parse(s.as_str()),
    }
}

impl Theme {
    /// The theme a `[theme]` table stands for: omitted keys keep their
    /// defaults; the first key (in field order) that names no color is the
    /// error.
    pub fn from_spec(spec: &ThemeSpec) -> (r: Result<Theme, String>)
        ensures
            match first_bad_color(theme_spec_fields(*spec)) {
                Some(i) => r matches Err(m) && m@ == color_error(
                    theme_spec_fields(*spec)[i]->Some_0,
                ),
                None => r matches Ok(t) && forall|i: int|
                    0 <= i < 15 ==> Some(#[trigger] theme_colors(t)[i]) == resolved_color(
                        theme_spec_fields(*spec)[i],
                        default_theme_colors()[i],
                    ),
            },
    {
        let ghost fields = theme_spec_fields(*spec);
        let ghost bad = |i: int| resolved_color(fields[i], default_theme_colors()[i]) is None;
        let d = Theme::default();
        let opts: Vec<&Option<String>> = vec![
            &spec.tab_active,
            &spec.tab_inactive,
            &spec.border,
            &spec.selection_bg,
            &spec.selection_fg,
            &spec.table_header,
            &spec.status_bar,
            &spec.pr_number,
            &spec.author,
            &spec.time,
            &spec.faint,
            &spec.state_open,
            &spec.state_draft,
            &spec.state_merged,
            &spec.state_closed,
        ];
        let defaults: Vec<ThemeColor> = vec![
            d.tab_active,
            d.tab_inactive,
            d.border,
            d.selection_bg,
            d.selection_fg,
            d.table_header,
            d.status_bar,
            d.pr_number,
            d.author,
            d.time,
            d.faint,
            d.state_open,
            d.state_draft,
            d.state_merged,
            d.state_closed,
        ];
        assert(defaults@ =~= default_theme_colors());
        assert forall|i: int| 0 <= i < 15 implies opt_text(*#[trigger] opts@[i]) == fields[i] by {}
        let mut colors: Vec<ThemeColor> = Vec::new();
        let mut i: usize = 0;
        while i < 15
            invariant
                opts@.len() == 15,
                defaults@ == default_theme_colors(),
                fields == theme_spec_fields(*spec),
                forall|k: int| 0 <= k < 15 ==> opt_text(*#[trigger] opts@[k]) == fields[k],
                bad == (|k: int| resolved_color(fields[k], default_theme_colors()[k]) is None),
                i <= 15,
                colors@.len() == i,
                forall|k: int| 0 <= k < i ==> Some(#[trigger] colors@[k]) == resolved_color(fields[k], default_theme_colors()[k]),
            decreases 15 - i,
        {
            match resolve_color(opts[i], defaults[i]) {
                Ok(c) => {
                    colors.push(c);
                },
                Err(m) => {
                    proof {
                        assert forall|k: int| 0 <= k < i implies !#[trigger] bad(k) by {
                            assert(Some(colors@[k]) == resolved_color(fields[k], default_theme_colors()[k]));
                        }
                        lemma_first_where(15, bad, i as int);
                    }
                    return Err(m);
                },
            }
            i = i + 1;
        }
        proof {
            assert forall|k: int| 0 <= k < 15 implies !#[trigger] bad(k) by {
                assert(Some(colors@[k]) == resolved_color(fields[k], default_theme_colors()[k]));
            }
            lemma_first_where(15, bad, 15);
        }
        let t = Theme {
            tab_active: colors[0],
            tab_inactive: colors[1],
            border: colors[2],
            selection_bg: colors[3],
            selection_fg: colors[4],
            table_header: colors[5],
            status_bar: colors[6],
            pr_number: colors[7],
            author: colors[8],
            time: colors[9],
            faint: colors[10],
            state_open: colors[11],
            state_draft: colors[12],
            state_merged: colors[13],
            state_closed: colors[14],
        };
        assert(theme_colors(t) =~= colors@);
        Ok(t)
    }
}

} // verus!

verus! {

/// The keys of every action.
#[derive(Clone, Debug, PartialEq, Eq)]
pub struct Keybindings {
    pub up: KeyBinding,
    pub down: KeyBinding,
    pub next_section: KeyBinding,
    pub prev_section: KeyBinding,
    pub open: KeyBinding,
    pub done: KeyBinding,
    pub refresh: KeyBinding,
    pub quit: KeyBinding,
}

/// The bindings in action order: up, down, next_section, prev_section,
/// open, done, refresh, quit.
pub open spec fn binding_list(kb: Keybindings) -> Seq<Seq<KeySpec>> {
    seq![
        kb.up.0@,
        kb.down.0@,
        kb.next_section.0@,
        kb.prev_section.0@,
        kb.open.0@,
        kb.done.0@,
        kb.refresh.0@,
        kb.quit.0@,
    ]
}

/// Default keys: arrows first, vim keys beside them.
pub open spec fn default_binding_list() -> Seq<Seq<KeySpec>> {
    seq![
        seq![KeySpec::Up, KeySpec::Char('k')],
        seq![KeySpec::Down, KeySpec::Char('j')],
        seq![KeySpec::Right, KeySpec::Char('l')],
        seq![KeySpec::Left, KeySpec::Char('h')],
        seq![KeySpec::Char('o')],
        seq![KeySpec::Char('d')],
        seq![KeySpec::Char('r')],
        seq![KeySpec::Char('q')],
    ]
}

/// Name of the action at `i` in action order.
pub open spec fn action_name(i: int) -> Seq<char> {
    if i == 0 {
        "up"@
    } else if i == 1 {
        "down"@
    } else if i == 2 {
        "next_section"@
    } else if i == 3 {
        "prev_section"@
    } else if i == 4 {
        "open"@
    } else if i == 5 {
        "done"@
    } else if i == 6 {
        "refresh"@
    } else {
        "quit"@
    }
}

/// Name of the action at `i` in action order.
pub fn action_name_text(i: usize) -> (s: &'static str)
    ensures
        s@ == action_name(i as int),
{
    if i == 0 {
        "up"
    } else if i == 1 {
        "down"
    } else if i == 2 {
        "next_section"
    } else if i == 3 {
        "prev_section"
    } else if i == 4 {
        "open"
    } else if i == 5 {
        "done"
    } else if i == 6 {
        "refresh"
    } else {
        "quit"
    }
}

fn binding(keys: Vec<KeySpec>) -> (b: KeyBinding)
    ensures
        b.0@ == keys@,
{
    KeyBinding(keys)
}

impl Default for Keybindings {
    fn default() -> (kb: Self)
        ensures
            binding_list(kb) == default_binding_list(),
    {
        let kb = Keybindings {
            up: Keybindings::default_binding(0),
            down: Keybindings::default_binding(1),
            next_section: Keybindings::default_binding(2),
            prev_section: Keybindings::default_binding(3),
            open: Keybindings::default_binding(4),
            done: Keybindings::default_binding(5),
            refresh: Keybindings::default_binding(6),
            quit: Keybindings::default_binding(7),
        };
        assert(binding_list(kb) =~= default_binding_list());
        kb
    }
}

/// The `[keybindings]` table as the config file writes it; omitted actions
/// are `None`.
#[derive(Clone, Debug, PartialEq, Default)]
pub struct KeybindingsSpec {
    pub up: Option<KeyBindingSpec>,
    pub down: Option<KeyBindingSpec>,
    pub next_section: Option<KeyBindingSpec>,
    pub prev_section: Option<KeyBindingSpec>,
    pub open: Option<KeyBindingSpec>,
    pub done: Option<KeyBindingSpec>,
    pub refresh: Option<KeyBindingSpec>,
    pub quit: Option<KeyBindingSpec>,
}

/// The keybinding spec's entries in action order.
pub open spec fn keybindings_spec_fields(s: KeybindingsSpec) -> Seq<Option<KeyBindingSpec>> {
    seq![s.up, s.down, s.next_section, s.prev_section, s.open, s.done, s.refresh, s.quit]
}

/// An action's keys resolved: its defaults when omitted, else what its
/// spec stands for.
pub open spec fn resolved_binding(o: Option<KeyBindingSpec>, d: Seq<KeySpec>) -> Result<
    Seq<KeySpec>,
    Seq<char>,
> {
    match o {
        None => Ok(d),
        Some(s) => binding_of(binding_spec_names(s)),
    }
}

/// The index of the first action whose keybinding is invalid.
pub open spec fn first_bad_binding(fields: Seq<Option<KeyBindingSpec>>) -> Option<int> {
    first_where(8, |i: int| resolved_binding(fields[i], default_binding_list()[i]) is Err)
}

fn resolve_binding(o: &Option<KeyBindingSpec>, d: KeyBinding) -> (r: Result<KeyBinding, String>)
    ensures
        match resolved_binding(*o, d.0@) {
            Ok(keys) => r matches Ok(b) && b.0@ == keys,
            Err(m) => r matches Err(e) && e@ == m,
        },
{
    match o {
        None => Ok(d),
        Some(s) => KeyBinding::from_spec(s),
    }
}

impl Keybindings {
    /// The keys a `[keybindings]` table stands for: omitted actions keep
    /// their defaults; the first invalid action (in action order) is the
    /// error.
    pub fn from_spec(spec: &KeybindingsSpec) -> (r: Result<Keybindings, String>)
        ensures
            match first_bad_binding(keybindings_spec_fields(*spec)) {
                Some(i) => r matches Err(m) && resolved_binding(
                    keybindings_spec_fields(*spec)[i],
                    default_binding_list()[i],
                ) == Err::<Seq<KeySpec>, Seq<char>>(m@),
                None => r matches Ok(kb) && forall|i: int|
                    0 <= i < 8 ==> Ok::<Seq<KeySpec>, Seq<char>>(#[trigger] binding_list(kb)[i])
                        == resolved_binding(
                        keybindings_spec_fields(*spec)[i],
                        default_binding_list()[i],
                    ),
            },
    {
        let ghost fields = keybindings_spec_fields(*spec);
        let ghost bad = |i: int| resolved_binding(fields[i], default_binding_list()[i]) is Err;
        let opts: Vec<&Option<KeyBindingSpec>> = vec![
            &spec.up,
            &spec.down,
            &spec.next_section,
            &spec.prev_section,
            &spec.open,
            &spec.done,
            &spec.refresh,
            &spec.quit,
        ];
        assert forall|k: int| 0 <= k < 8 implies *#[trigger] opts@[k] == fields[k] by {}
        let mut out: Vec<KeyBinding> = Vec::new();
        let mut i: usize = 0;
        while i < 8
            invariant
                opts@.len() == 8,
                fields == keybindings_spec_fields(*spec),
                forall|k: int| 0 <= k < 8 ==> *#[trigger] opts@[k] == fields[k],
                bad == (|k: int| resolved_binding(fields[k], default_binding_list()[k]) is Err),
                i <= 8,
                out@.len() == i,
                forall|k: int| 0 <= k < i ==> Ok::<Seq<KeySpec>, Seq<char>>((#[trigger] out@[k]).0@) == resolved_binding(fields[k], default_binding_list()[k]),
            decreases 8 - i,
        {
            let di = Keybindings::default_binding(i);
            match resolve_binding(opts[i], di) {
                Ok(b) => {
                    out.push(b);
                },
                Err(m) => {
                    proof {
                        assert forall|k: int| 0 <= k < i implies !#[trigger] bad(k) by {
                            assert(Ok::<Seq<KeySpec>, Seq<char>>(out@[k].0@) == resolved_binding(fields[k], default_binding_list()[k]));
                        }
                        lemma_first_where(8, bad, i as int);
                    }
                    return Err(m);
                },
            }
            i = i + 1;
        }
        proof {
            assert forall|k: int| 0 <= k < 8 implies !#[trigger] bad(k) by {
                assert(Ok::<Seq<KeySpec>, Seq<char>>(out@[k].0@) == resolved_binding(fields[k], default_binding_list()[k]));
            }
            lemma_first_where(8, bad, 8);
        }
        let ghost all = out@;
        let quit = out.pop().unwrap();
        let refresh = out.pop().unwrap();
        let done = out.pop().unwrap();
        let open = out.pop().unwrap();
        let prev_section = out.pop().unwrap();
        let next_section = out.pop().unwrap();
        let down = out.pop().unwrap();
        let up = out.pop().unwrap();
        let kb = Keybindings { up, down, next_section, prev_section, open, done, refresh, quit };
        assert(binding_list(kb) =~= all.map_values(|b: KeyBinding| b.0@));
        Ok(kb)
    }

    /// The default binding of the action at `i` in action order.
    fn default_binding(i: usize) -> (b: KeyBinding)
        requires
            i < 8,
        ensures
            b.0@ == default_binding_list()[i as int],
    {
        let b = if i == 0 {
            binding(vec![KeySpec::Up, KeySpec::Char('k')])
        } else if i == 1 {
            binding(vec![KeySpec::Down, KeySpec::Char('j')])
        } else if i == 2 {
            binding(vec![KeySpec::Right, KeySpec::Char('l')])
        } else if i == 3 {
            binding(vec![KeySpec::Left, KeySpec::Char('h')])
        } else if i == 4 {
            binding(vec![KeySpec::Char('o')])
        } else if i == 5 {
            binding(vec![KeySpec::Char('d')])
        } else if i == 6 {
            binding(vec![KeySpec::Char('r')])
        } else {
            binding(vec![KeySpec::Char('q')])
        };
        assert(b.0@ =~= default_binding_list()[i as int]);
        b
    }

    /// The binding of the action at `i` in action order.
    pub fn binding_at(&self, i: usize) -> (b: &KeyBinding)
        requires
            i < 8,
        ensures
            b.0@ == binding_list(*self)[i as int],
    {
        if i == 0 {
            &self.up
        } else if i == 1 {
            &self.down
        } else if i == 2 {
            &self.next_section
        } else if i == 3 {
            &self.prev_section
        } else if i == 4 {
            &self.open
        } else if i == 5 {
            &self.done
        } else if i == 6 {
            &self.refresh
        } else {
            &self.quit
        }
    }
}

} // verus!

verus! {

/// One tab of the view: a GitHub search, the columns to show, the filter to
/// apply and the time to order rows by.
#[derive(Clone, Debug, PartialEq)]
pub struct Section {
    pub title: String,
    pub query: String,
    pub columns: Vec<Column>,
    pub filter: SectionFilter,
    pub sort: SortBy,
}

/// Mathematical value of a [`Section`].
pub struct SectionModel {
    pub title: Seq<char>,
    pub query: Seq<char>,
    pub columns: Seq<Column>,
    pub filter: FilterModel,
    pub sort: SortBy,
}

impl View for Section {
    type V = SectionModel;

    open spec fn view(&self) -> SectionModel {
        SectionModel {
            title: self.title@,
            query: self.query@,
            columns: self.columns@,
            filter: self.filter@,
            sort: self.sort,
        }
    }
}

/// A `[[sections]]` entry as the config file writes it; omitted keys are
/// `None`.
#[derive(Clone, Debug, PartialEq)]
pub struct SectionSpec {
    pub title: String,
    pub query: String,
    pub columns: Option<Vec<String>>,
    pub filter: Option<FilterSpec>,
    pub sort: Option<String>,
}

/// Columns shown when a section names none.
pub open spec fn default_column_list() -> Seq<Column> {
    seq![Column::State, Column::Repo, Column::Number, Column::Title, Column::Author, Column::Updated]
}

/// Columns shown when a section names none: state, repo, number, title,
/// author, updated.
pub fn default_columns() -> (v: Vec<Column>)
    ensures
        v@ == default_column_list(),
{
    let v = vec![
        Column::State,
        Column::Repo,
        Column::Number,
        Column::Title,
        Column::Author,
        Column::Updated,
    ];
    assert(v@ =~= default_column_list());
    v
}

/// The columns that a list of column names stands for, or the message for
/// the first unknown name.
pub open spec fn columns_of(names: Seq<Seq<char>>) -> Result<Seq<Column>, Seq<char>> {
    match first_where(names.len() as int, |i: int| column_named(names[i]) is None) {
        Some(i) => Err(column_error(names[i])),
        None => Ok(names.map_values(|n: Seq<char>| column_named(n)->Some_0)),
    }
}

/// The section that a section spec stands for, or the message of its first
/// error (columns, then filter, then sort).
pub open spec fn section_of(spec: SectionSpec) -> Result<SectionModel, Seq<char>> {
    let cols = match opt_texts(spec.columns) {
        None => Ok(default_column_list()),
        Some(names) => columns_of(names),
    };
    let filter = match spec.filter {
        None => Ok(FilterModel::Unfiltered),
        Some(f) => filter_of(f.kind@, opt_texts(f.extra_patterns), opt_text(f.command)),
    };
    let sort = match opt_text(spec.sort) {
        None => Ok(SortBy::Updated),
        Some(s) => match sort_named(s) {
            Some(o) => Ok(o),
            None => Err(sort_error(s)),
        },
    };
    match cols {
        Err(m) => Err(m),
        Ok(c) => match filter {
            Err(m) => Err(m),
            Ok(f) => match sort {
                Err(m) => Err(m),
                Ok(o) => Ok(
                    SectionModel { title: spec.title@, query: spec.query@, columns: c, filter: f, sort: o },
                ),
            },
        },
    }
}

/// The columns a list of names stands for.
fn parse_columns(names: &Vec<String>) -> (r: Result<Vec<Column>, String>)
    ensures
        match columns_of(views(names@)) {
            Ok(c) => r matches Ok(v) && v@ == c,
            Err(m) => r matches Err(e) && e@ == m,
        },
{
    let ghost n = views(names@);
    let ghost bad = |i: int| column_named(n[i]) is None;
    let mut out: Vec<Column> = Vec::new();
    let mut i: usize = 0;
    while i < names.len()
        invariant
            n == views(names@),
            bad == (|k: int| column_named(n[k]) is None),
            i <= names.len(),
            out@.len() == i,
            forall|k: int| 0 <= k < i ==> column_named(#[trigger] n[k]) == Some(out@[k]),
        decreases names.len() - i,
    {
        assert(n[i as int] == names@[i as int]@);
        match Column::parse(names[i].as_str()) {
            Ok(c) => {
                out.push(c);
            },
            Err(e) => {
                proof {
                    assert forall|k: int| 0 <= k < i implies !#[trigger] bad(k) by {
                        assert(column_named(n[k]) == Some(out@[k]));
                    }
                    lemma_first_where(n.len() as int, bad, i as int);
                }
                return Err(e);
            },
        }
        i = i + 1;
    }
    proof {
        assert forall|k: int| 0 <= k < n.len() implies !#[trigger] bad(k) by {
            assert(column_named(n[k]) == Some(out@[k]));
        }
        lemma_first_where(n.len() as int, bad, n.len() as int);
        assert(out@ =~= n.map_values(|x: Seq<char>| column_named(x)->Some_0));
    }
    Ok(out)
}

impl Section {
    /// The section a section spec stands for: omitted columns are the
    /// default columns, an omitted filter keeps results as they are, an
    /// omitted sort orders by last update.
    pub fn from_spec(spec: &SectionSpec) -> (r: Result<Section, String>)
        ensures
            match section_of(*spec) {
                Ok(s) => r matches Ok(x) && x@ == s,
                Err(m) => r matches Err(e) && e@ == m,
            },
    {
        let columns = match &spec.columns {
            None => default_columns(),
            Some(names) => match parse_columns(names) {
                Ok(c) => c,
                Err(e) => {
                    return Err(e);
                },
            },
        };
        let filter = match &spec.filter {
            None => SectionFilter::Unfiltered,
            Some(f) => match SectionFilter::from_spec(f) {
                Ok(x) => x,
                Err(e) => {
                    return Err(e);
                },
            },
        };
        let sort = match &spec.sort {
            None => SortBy::Updated,
            Some(s) => match SortBy::parse(s.as_str()) {
                Ok(o) => o,
                Err(e) => {
                    return Err(e);
                },
            },
        };
        Ok(Section { title: spec.title.clone(), query: spec.query.clone(), columns, filter, sort })
    }

    /// A copy with the same value.
    pub fn duplicate(&self) -> (s: Section)
        ensures
            s@ == self@,
    {
        let mut columns: Vec<Column> = Vec::new();
        let mut i: usize = 0;
        while i < self.columns.len()
            invariant
                i <= self.columns.len(),
                columns@ == self.columns@.take(i as int),
            decreases self.columns.len() - i,
        {
            columns.push(self.columns[i]);
            i = i + 1;
            assert(columns@ =~= self.columns@.take(i as int));
        }
        assert(self.columns@.take(self.columns.len() as int) =~= self.columns@);
        Section {
            title: self.title.clone(),
            query: self.query.clone(),
            columns,
            filter: self.filter.duplicate(),
            sort: self.sort,
        }
    }
}

/// The built-in sections, used when the config has no `sections` key:
/// merge requests (comment-mention filter) and review requests.
pub open spec fn default_section_list() -> Seq<SectionModel> {
    seq![
        SectionModel {
            title: "Merge Requests"@,
            query: "is:pr is:open mentions:@me"@,
            columns: seq![Column::State, Column::Repo, Column::Number, Column::Title, Column::Author, Column::Comment],
            filter: FilterModel::CommentMention { extra_patterns: Seq::empty() },
            sort: SortBy::Updated,
        },
        SectionModel {
            title: "Review Requests"@,
            query: "is:pr is:open review-requested:@me"@,
            columns: default_column_list(),
            filter: FilterModel::Unfiltered,
            sort: SortBy::Updated,
        },
    ]
}

/// The built-in sections: merge requests and review requests.
pub fn default_sections() -> (v: Vec<Section>)
    ensures
        v@.map_values(|s: Section| s@) == default_section_list(),
{
    let merge_columns = vec![
        Column::State,
        Column::Repo,
        Column::Number,
        Column::Title,
        Column::Author,
        Column::Comment,
    ];
    let no_patterns: Vec<String> = Vec::new();
    assert(views(no_patterns@) =~= Seq::<Seq<char>>::empty());
    let merge = Section {
        title: owned("Merge Requests"),
        query: owned("is:pr is:open mentions:@me"),
        columns: merge_columns,
        filter: SectionFilter::CommentMention { extra_patterns: no_patterns },
        sort: SortBy::Updated,
    };
    let review = Section {
        title: owned("Review Requests"),
        query: owned("is:pr is:open review-requested:@me"),
        columns: default_columns(),
        filter: SectionFilter::Unfiltered,
        sort: SortBy::Updated,
    };
    assert(merge@.columns =~= default_section_list()[0].columns);
    assert(merge@ == default_section_list()[0]);
    let v = vec![merge, review];
    assert(v@.map_values(|s: Section| s@) =~= default_section_list());
    v
}

} // verus!

verus! {

/// Views of a vector of sections.
pub open spec fn section_views(v: Seq<Section>) -> Seq<SectionModel> {
    v.map_values(|s: Section| s@)
}

/// The colors a `[theme]` table stands for (in field order), or the message
/// for its first invalid key.
pub open spec fn theme_of(spec: ThemeSpec) -> Result<Seq<ThemeColor>, Seq<char>> {
    let f = theme_spec_fields(spec);
    match first_bad_color(f) {
        Some(i) => Err(color_error(f[i]->Some_0)),
        None => Ok(Seq::new(15, |i: int| resolved_color(f[i], default_theme_colors()[i])->Some_0)),
    }
}

/// The keys a `[keybindings]` table stands for (in action order), or the
/// message for its first invalid action.
pub open spec fn keybindings_of(spec: KeybindingsSpec) -> Result<Seq<Seq<KeySpec>>, Seq<char>> {
    let f = keybindings_spec_fields(spec);
    match first_bad_binding(f) {
        Some(i) => Err(resolved_binding(f[i], default_binding_list()[i])->Err_0),
        None => Ok(
            Seq::new(8, |i: int| resolved_binding(f[i], default_binding_list()[i])->Ok_0),
        ),
    }
}

/// The sections a `sections` array stands for, or the message for its first
/// invalid entry.
pub open spec fn sections_of(specs: Seq<SectionSpec>) -> Result<Seq<SectionModel>, Seq<char>> {
    match first_where(specs.len() as int, |i: int| section_of(specs[i]) is Err) {
        Some(i) => Err(section_of(specs[i])->Err_0),
        None => Ok(Seq::new(specs.len(), |i: int| section_of(specs[i])->Ok_0)),
    }
}

/// The application configuration.
#[derive(Clone, Debug)]
pub struct Config {
    /// Seconds between fetches (the view waits at least 30).
    pub poll_interval_secs: u64,
    /// Where the done-state database lives.
    pub db_path: String,
    /// Nerd Font state icons in the state column; a colored dot otherwise.
    pub icons: bool,
    pub sections: Vec<Section>,
    pub theme: Theme,
    pub keybindings: Keybindings,
}

/// A config file as parsed, before defaults and checks; omitted keys are
/// `None`.
#[derive(Clone, Debug, PartialEq, Default)]
pub struct ConfigFile {
    pub poll_interval_secs: Option<u64>,
    pub db_path: Option<String>,
    pub icons: Option<bool>,
    pub sections: Option<Vec<SectionSpec>>,
    pub theme: Option<ThemeSpec>,
    pub keybindings: Option<KeybindingsSpec>,
}

/// The theme spec's colors: the defaults when the table is omitted.
pub open spec fn file_theme(file: ConfigFile) -> Result<Seq<ThemeColor>, Seq<char>> {
    match file.theme {
        None => Ok(default_theme_colors()),
        Some(t) => theme_of(t),
    }
}

/// The file's keys: the defaults when the table is omitted.
pub open spec fn file_keybindings(file: ConfigFile) -> Result<Seq<Seq<KeySpec>>, Seq<char>> {
    match file.keybindings {
        None => Ok(default_binding_list()),
        Some(k) => keybindings_of(k),
    }
}

/// The file's sections: the built-in ones when the key is omitted.
pub open spec fn file_sections(file: ConfigFile) -> Result<Seq<SectionModel>, Seq<char>> {
    match file.sections {
        None => Ok(default_section_list()),
        Some(v) => sections_of(v@),
    }
}

/// The conversion error of a config file (sections, then theme, then
/// keybindings), if it has one.
pub open spec fn file_error(file: ConfigFile) -> Option<Seq<char>> {
    if file_sections(file) is Err {
        Some(file_sections(file)->Err_0)
    } else if file_theme(file) is Err {
        Some(file_theme(file)->Err_0)
    } else if file_keybindings(file) is Err {
        Some(file_keybindings(file)->Err_0)
    } else {
        None
    }
}

/// Extra patterns of a section (none unless its filter is comment-mention).
pub open spec fn patterns_of(s: SectionModel) -> Seq<Seq<char>> {
    match s.filter {
        FilterModel::CommentMention { extra_patterns } => extra_patterns,
        _ => Seq::empty(),
    }
}

/// Pattern `p` of section `s` does not compile.
pub open spec fn pattern_bad(secs: Seq<SectionModel>, s: int, p: int) -> bool {
    0 <= s < secs.len() && 0 <= p < patterns_of(secs[s]).len() && regex_compile_error(
        patterns_of(secs[s])[p],
    ) is Some
}

/// Key `k` of action `i` is also one of action `j`'s keys (`i < j`).
pub open spec fn key_conflict(b: Seq<Seq<KeySpec>>, i: int, j: int, k: int) -> bool {
    0 <= i < j < 8 && 0 <= k < b[i].len() && b[j].contains(b[i][k])
}

/// Message when no section is configured.
pub open spec fn empty_sections_error() -> Seq<char> {
    "sections must not be empty (omit the key entirely for the defaults)"@
}

/// Message for a pattern that does not compile.
pub open spec fn bad_pattern_error(title: Seq<char>, pattern: Seq<char>) -> Seq<char> {
    "section "@ + debug_text(title) + ": invalid extra pattern "@ + debug_text(pattern) + ": "@
        + regex_compile_error(pattern)->Some_0
}

/// Message for a key bound to two actions.
pub open spec fn key_conflict_error(i: int, j: int, key: KeySpec) -> Seq<char> {
    "keybindings: "@ + action_name(i) + " and "@ + action_name(j) + " are both bound to \""@
        + key_text(key) + "\""@
}

/// Section `s` has a pattern that does not compile.
pub open spec fn section_is_bad(secs: Seq<SectionModel>) -> spec_fn(int) -> bool {
    |s: int| exists|p: int| #[trigger] pattern_bad(secs, s, p)
}

/// Pattern `p` of section `s` does not compile.
pub open spec fn pattern_is_bad(secs: Seq<SectionModel>, s: int) -> spec_fn(int) -> bool {
    |p: int| pattern_bad(secs, s, p)
}

/// Action `i` has a key that a later action also has.
pub open spec fn action_conflicts(b: Seq<Seq<KeySpec>>) -> spec_fn(int) -> bool {
    |i: int| exists|j: int, k: int| #[trigger] key_conflict(b, i, j, k)
}

/// Action `j` shares a key with action `i`.
pub open spec fn partner_conflicts(b: Seq<Seq<KeySpec>>, i: int) -> spec_fn(int) -> bool {
    |j: int| exists|k: int| #[trigger] key_conflict(b, i, j, k)
}

/// Key `k` of action `i` is also a key of action `j`.
pub open spec fn key_conflicts(b: Seq<Seq<KeySpec>>, i: int, j: int) -> spec_fn(int) -> bool {
    |k: int| key_conflict(b, i, j, k)
}

/// The first section with a pattern that does not compile.
pub open spec fn first_bad_section(secs: Seq<SectionModel>) -> Option<int> {
    first_where(secs.len() as int, section_is_bad(secs))
}

/// The first pattern of section `s` that does not compile.
pub open spec fn first_bad_pattern(secs: Seq<SectionModel>, s: int) -> Option<int> {
    first_where(patterns_of(secs[s]).len() as int, pattern_is_bad(secs, s))
}

/// The first action with a key that a later action also has.
pub open spec fn first_conflict_action(b: Seq<Seq<KeySpec>>) -> Option<int> {
    first_where(8, action_conflicts(b))
}

/// The first later action that shares a key with action `i`.
pub open spec fn first_conflict_partner(b: Seq<Seq<KeySpec>>, i: int) -> Option<int> {
    first_where(8, partner_conflicts(b, i))
}

/// The first of action `i`'s keys that action `j` also has.
pub open spec fn first_conflict_key(b: Seq<Seq<KeySpec>>, i: int, j: int) -> Option<int> {
    first_where(b[i].len() as int, key_conflicts(b, i, j))
}

/// What validation reports: `None` when the config is usable, else the
/// message of the first problem — no sections, then (in section and
/// pattern order) an extra pattern that does not compile, then (in action
/// and key order) a key bound to two actions.
pub open spec fn validation_error(secs: Seq<SectionModel>, b: Seq<Seq<KeySpec>>) -> Option<
    Seq<char>,
> {
    if secs.len() == 0 {
        Some(empty_sections_error())
    } else if first_bad_section(secs) is Some {
        let s = first_bad_section(secs)->Some_0;
        let p = first_bad_pattern(secs, s)->Some_0;
        Some(bad_pattern_error(secs[s].title, patterns_of(secs[s])[p]))
    } else if first_conflict_action(b) is Some {
        let i = first_conflict_action(b)->Some_0;
        let j = first_conflict_partner(b, i)->Some_0;
        let k = first_conflict_key(b, i, j)->Some_0;
        Some(key_conflict_error(i, j, b[i][k]))
    } else {
        None
    }
}

} // verus!

verus! {

impl Config {
    /// Checks what the file format cannot: at least one section, every extra
    /// pattern compiles, no key is bound to two actions. Reports the first
    /// problem (see `validation_error`).
    pub fn validate(&self) -> (r: Result<(), Error>)
        ensures
            match validation_error(section_views(self.sections@), binding_list(self.keybindings)) {
                None => r is Ok,
                Some(m) => r matches Err(Error::Config(e)) && e@ == m,
            },
    {
        let ghost secs = section_views(self.sections@);
        let ghost b = binding_list(self.keybindings);
        if self.sections.len() == 0 {
            return Err(Error::Config(owned("sections must not be empty (omit the key entirely for the defaults)")));
        }
        let mut s: usize = 0;
        while s < self.sections.len()
            invariant
                secs == section_views(self.sections@),
                secs.len() > 0,
                s <= self.sections.len(),
                forall|s2: int, p: int| 0 <= s2 < s ==> !#[trigger] pattern_bad(secs, s2, p),
            decreases self.sections.len() - s,
        {
            let section = &self.sections[s];
            assert(secs[s as int] == section@);
            match &section.filter {
                SectionFilter::CommentMention { extra_patterns } => {
                    let mut p: usize = 0;
                    while p < extra_patterns.len()
                        invariant
                            secs == section_views(self.sections@),
                            secs.len() > 0,
                            s < self.sections.len(),
                            secs[s as int] == section@,
                            section.filter == (SectionFilter::CommentMention { extra_patterns: *extra_patterns }),
                            patterns_of(secs[s as int]) == views(extra_patterns@),
                            p <= extra_patterns.len(),
                            forall|s2: int, q: int| 0 <= s2 < s ==> !#[trigger] pattern_bad(secs, s2, q),
                            forall|q: int| 0 <= q < p ==> !#[trigger] pattern_bad(secs, s as int, q),
                        decreases extra_patterns.len() - p,
                    {
                        let pattern = extra_patterns[p].as_str();
                        assert(views(extra_patterns@)[p as int] == pattern@);
                        match regex_search(pattern, "") {
                            Ok(_) => {},
                            Err(e) => {
                                proof {
                                    assert(pattern_bad(secs, s as int, p as int));
                                    assert forall|s2: int| 0 <= s2 < s implies !#[trigger] section_is_bad(secs)(s2) by {
                                        assert(forall|q: int| !#[trigger] pattern_bad(secs, s2, q));
                                    }
                                    assert(section_is_bad(secs)(s as int));
                                    lemma_first_where(secs.len() as int, section_is_bad(secs), s as int);
                                    assert forall|q: int| 0 <= q < p implies !#[trigger] pattern_is_bad(secs, s as int)(q) by {}
                                    assert(pattern_is_bad(secs, s as int)(p as int));
                                    lemma_first_where(patterns_of(secs[s as int]).len() as int, pattern_is_bad(secs, s as int), p as int);
                                }
                                let t = debug_str(section.title.as_str());
                                let q = debug_str(pattern);
                                let mut m = concat3("section ", t.as_str(), ": invalid extra pattern ");
                                m.append(q.as_str());
                                m.append(": ");
                                m.append(e.as_str());
                                return Err(Error::Config(m));
                            },
                        }
                        p = p + 1;
                    }
                    assert forall|q: int| #![trigger pattern_bad(secs, s as int, q)] true implies !pattern_bad(secs, s as int, q) by {
                        if 0 <= q < p {
                        }
                    }
                },
                _ => {
                    assert(patterns_of(secs[s as int]) =~= Seq::<Seq<char>>::empty());
                },
            }
            s = s + 1;
        }
        proof {
            assert forall|s2: int| 0 <= s2 < secs.len() implies !#[trigger] section_is_bad(secs)(s2) by {
                assert(forall|q: int| !#[trigger] pattern_bad(secs, s2, q));
            }
            lemma_first_where(secs.len() as int, section_is_bad(secs), secs.len() as int);
        }
        let mut i: usize = 0;
        while i < 8
            invariant
                secs == section_views(self.sections@),
                secs.len() > 0,
                first_bad_section(secs) is None,
                b == binding_list(self.keybindings),
                i <= 8,
                forall|i2: int, j: int, k: int| 0 <= i2 < i ==> !#[trigger] key_conflict(b, i2, j, k),
            decreases 8 - i,
        {
            let bi = self.keybindings.binding_at(i);
            let mut j: usize = i + 1;
            while j < 8
                invariant
                    secs == section_views(self.sections@),
                    secs.len() > 0,
                    first_bad_section(secs) is None,
                    b == binding_list(self.keybindings),
                    i < 8,
                    bi.0@ == b[i as int],
                    i < j <= 8,
                    forall|i2: int, j2: int, k: int| 0 <= i2 < i ==> !#[trigger] key_conflict(b, i2, j2, k),
                    forall|j2: int, k: int| j2 < j ==> !#[trigger] key_conflict(b, i as int, j2, k),
                decreases 8 - j,
            {
                let bj = self.keybindings.binding_at(j);
                let mut k: usize = 0;
                while k < bi.0.len()
                    invariant
                        secs == section_views(self.sections@),
                        secs.len() > 0,
                        first_bad_section(secs) is None,
                        b == binding_list(self.keybindings),
                        i < j < 8,
                        bi.0@ == b[i as int],
                        bj.0@ == b[j as int],
                        k <= bi.0.len(),
                        forall|i2: int, j2: int, k2: int| 0 <= i2 < i ==> !#[trigger] key_conflict(b, i2, j2, k2),
                        forall|j2: int, k2: int| j2 < j ==> !#[trigger] key_conflict(b, i as int, j2, k2),
                        forall|k2: int| 0 <= k2 < k ==> !#[trigger] key_conflict(b, i as int, j as int, k2),
                    decreases bi.0.len() - k,
                {
                    let key = bi.0[k];
                    if bj.contains(key) {
                        proof {
                            assert(key_conflict(b, i as int, j as int, k as int));
                            assert forall|i2: int| 0 <= i2 < i implies !#[trigger] action_conflicts(b)(i2) by {}
                            assert(action_conflicts(b)(i as int));
                            lemma_first_where(8, action_conflicts(b), i as int);
                            assert forall|j2: int| 0 <= j2 < j implies !#[trigger] partner_conflicts(b, i as int)(j2) by {}
                            assert(partner_conflicts(b, i as int)(j as int));
                            lemma_first_where(8, partner_conflicts(b, i as int), j as int);
                            assert forall|k2: int| 0 <= k2 < k implies !#[trigger] key_conflicts(b, i as int, j as int)(k2) by {}
                            assert(key_conflicts(b, i as int, j as int)(k as int));
                            lemma_first_where(b[i as int].len() as int, key_conflicts(b, i as int, j as int), k as int);
                        }
                        let kt = key.to_text();
                        let mut m = concat3("keybindings: ", action_name_text(i), " and ");
                        m.append(action_name_text(j));
                        m.append(" are both bound to \"");
                        m.append(kt.as_str());
                        m.append("\"");
                        assert(m@ == key_conflict_error(i as int, j as int, b[i as int][k as int]));
                        return Err(Error::Config(m));
                    }
                    k = k + 1;
                }
                assert forall|k2: int| #![trigger key_conflict(b, i as int, j as int, k2)] true implies !key_conflict(b, i as int, j as int, k2) by {}
                j = j + 1;
            }
            assert forall|j2: int, k: int| #![trigger key_conflict(b, i as int, j2, k)] true implies !key_conflict(b, i as int, j2, k) by {}
            i = i + 1;
        }
        proof {
            assert forall|i2: int| 0 <= i2 < 8 implies !#[trigger] action_conflicts(b)(i2) by {}
            lemma_first_where(8, action_conflicts(b), 8);
        }
        Ok(())
    }
}

} // verus!

verus! {

/// The sections a list of section specs stands for.
fn parse_sections(specs: &Vec<SectionSpec>) -> (r: Result<Vec<Section>, String>)
    ensures
        match sections_of(specs@) {
            Ok(v) => r matches Ok(x) && section_views(x@) == v,
            Err(m) => r matches Err(e) && e@ == m,
        },
{
    let ghost bad = |i: int| section_of(specs@[i]) is Err;
    let mut out: Vec<Section> = Vec::new();
    let mut i: usize = 0;
    while i < specs.len()
        invariant
            bad == (|k: int| section_of(specs@[k]) is Err),
            i <= specs.len(),
            out@.len() == i,
            forall|k: int| 0 <= k < i ==> Ok::<SectionModel, Seq<char>>(#[trigger] out@[k]@) == section_of(specs@[k]),
        decreases specs.len() - i,
    {
        match Section::from_spec(&specs[i]) {
            Ok(s) => {
                out.push(s);
            },
            Err(e) => {
                proof {
                    assert forall|k: int| 0 <= k < i implies !#[trigger] bad(k) by {
                        assert(Ok::<SectionModel, Seq<char>>(out@[k]@) == section_of(specs@[k]));
                    }
                    lemma_first_where(specs.len() as int, bad, i as int);
                }
                return Err(e);
            },
        }
        i = i + 1;
    }
    proof {
        assert forall|k: int| 0 <= k < specs.len() implies !#[trigger] bad(k) by {
            assert(Ok::<SectionModel, Seq<char>>(out@[k]@) == section_of(specs@[k]));
        }
        lemma_first_where(specs.len() as int, bad, specs.len() as int);
        assert(section_views(out@) =~= Seq::new(specs@.len(), |k: int| section_of(specs@[k])->Ok_0));
    }
    Ok(out)
}

/// Error for a conversion failure of the file at `path`.
fn file_failure(path: &str, m: String) -> (e: Error)
    ensures
        e matches Error::Config(t) && t@ == path@ + ": "@ + m@,
{
    Error::Config(concat3(path, ": ", m.as_str()))
}

/// The file's theme.
fn theme_from_file(file: &ConfigFile) -> (r: Result<Theme, String>)
    ensures
        match file_theme(*file) {
            Ok(c) => r matches Ok(t) && theme_colors(t) == c,
            Err(m) => r matches Err(e) && e@ == m,
        },
{
    match &file.theme {
        None => Ok(Theme::default()),
        Some(t) => match Theme::from_spec(t) {
            Ok(x) => {
                proof {
                    let f = theme_spec_fields(*t);
                    assert forall|i: int| 0 <= i < 15 implies theme_colors(x)[i] == resolved_color(
                        f[i],
                        default_theme_colors()[i],
                    )->Some_0 by {
                        assert(Some(theme_colors(x)[i]) == resolved_color(f[i], default_theme_colors()[i]));
                    }
                    assert(theme_colors(x) =~= Seq::new(
                        15,
                        |i: int| resolved_color(f[i], default_theme_colors()[i])->Some_0,
                    ));
                }
                Ok(x)
            },
            Err(m) => Err(m),
        },
    }
}

/// The file's keybindings.
fn keybindings_from_file(file: &ConfigFile) -> (r: Result<Keybindings, String>)
    ensures
        match file_keybindings(*file) {
            Ok(b) => r matches Ok(k) && binding_list(k) == b,
            Err(m) => r matches Err(e) && e@ == m,
        },
{
    match &file.keybindings {
        None => Ok(Keybindings::default()),
        Some(k) => match Keybindings::from_spec(k) {
            Ok(x) => {
                proof {
                    let f = keybindings_spec_fields(*k);
                    assert forall|i: int| 0 <= i < 8 implies binding_list(x)[i] == resolved_binding(
                        f[i],
                        default_binding_list()[i],
                    )->Ok_0 by {
                        assert(Ok::<Seq<KeySpec>, Seq<char>>(binding_list(x)[i]) == resolved_binding(f[i], default_binding_list()[i]));
                    }
                    assert(binding_list(x) =~= Seq::new(
                        8,
                        |i: int| resolved_binding(f[i], default_binding_list()[i])->Ok_0,
                    ));
                }
                Ok(x)
            },
            Err(m) => Err(m),
        },
    }
}

impl Config {
    /// The built-in configuration with the given database path: polling every
    /// 300 seconds, icons on, the built-in sections, default theme and keys.
    pub fn with_db_path(db_path: String) -> (c: Config)
        ensures
            c.poll_interval_secs == 300,
            c.db_path@ == db_path@,
            c.icons,
            section_views(c.sections@) == default_section_list(),
            theme_colors(c.theme) == default_theme_colors(),
            binding_list(c.keybindings) == default_binding_list(),
    {
        Config {
            poll_interval_secs: 300,
            db_path,
            icons: true,
            sections: default_sections(),
            theme: Theme::default(),
            keybindings: Keybindings::default(),
        }
    }

    /// The configuration a parsed config file stands for: omitted keys take
    /// their defaults (300 seconds, `default_db_path`, icons on, built-in
    /// sections, default theme and keys). A conversion error is a config
    /// error prefixed with the file's path. Does not validate.
    pub fn from_file(file: &ConfigFile, path: &str, default_db_path: &str) -> (r: Result<Config, Error>)
        ensures
            match file_error(*file) {
                Some(m) => r matches Err(Error::Config(e)) && e@ == path@ + ": "@ + m,
                None => r matches Ok(c) && c.poll_interval_secs == (match file.poll_interval_secs {
                    Some(p) => p,
                    None => 300u64,
                }) && c.db_path@ == (match file.db_path {
                    Some(d) => d@,
                    None => default_db_path@,
                }) && c.icons == (match file.icons {
                    Some(i) => i,
                    None => true,
                }) && section_views(c.sections@) == file_sections(*file)->Ok_0 && theme_colors(
                    c.theme,
                ) == file_theme(*file)->Ok_0 && binding_list(c.keybindings) == file_keybindings(
                    *file,
                )->Ok_0,
            },
    {
        let sections = match &file.sections {
            None => default_sections(),
            Some(specs) => match parse_sections(specs) {
                Ok(v) => v,
                Err(m) => {
                    return Err(file_failure(path, m));
                },
            },
        };
        let theme = match theme_from_file(file) {
            Ok(t) => t,
            Err(m) => {
                return Err(file_failure(path, m));
            },
        };
        let keybindings = match keybindings_from_file(file) {
            Ok(k) => k,
            Err(m) => {
                return Err(file_failure(path, m));
            },
        };
        let poll_interval_secs = match file.poll_interval_secs {
            Some(p) => p,
            None => 300,
        };
        let db_path = match &file.db_path {
            Some(d) => d.clone(),
            None => owned(default_db_path),
        };
        let icons = match file.icons {
            Some(i) => i,
            None => true,
        };
        Ok(Config { poll_interval_secs, db_path, icons, sections, theme, keybindings })
    }

    /// `Config::load_from` once the file has been read: the parsed file (or
    /// the built-in configuration when there is no file), then validation.
    pub fn from_parsed(file: Option<&ConfigFile>, path: &str, default_db_path: &str) -> (r: Result<
        Config,
        Error,
    >)
        ensures
            match file {
                Some(f) => match file_error(*f) {
                    Some(m) => r matches Err(Error::Config(e)) && e@ == path@ + ": "@ + m,
                    None => match validation_error(
                        file_sections(*f)->Ok_0,
                        file_keybindings(*f)->Ok_0,
                    ) {
                        Some(m) => r matches Err(Error::Config(e)) && e@ == m,
                        None => r matches Ok(c) && section_views(c.sections@) == file_sections(
                            *f,
                        )->Ok_0 && theme_colors(c.theme) == file_theme(*f)->Ok_0 && binding_list(
                            c.keybindings,
                        ) == file_keybindings(*f)->Ok_0 && c.poll_interval_secs == (match f.poll_interval_secs {
                            Some(p) => p,
                            None => 300u64,
                        }) && c.icons == (match f.icons {
                            Some(i) => i,
                            None => true,
                        }) && c.db_path@ == (match f.db_path {
                            Some(d) => d@,
                            None => default_db_path@,
                        }),
                    },
                },
                None => match validation_error(default_section_list(), default_binding_list()) {
                    Some(m) => r matches Err(Error::Config(e)) && e@ == m,
                    None => r matches Ok(c) && section_views(c.sections@) == default_section_list()
                        && theme_colors(c.theme) == default_theme_colors() && binding_list(
                        c.keybindings,
                    ) == default_binding_list() && c.poll_interval_secs == 300 && c.icons
                        && c.db_path@ == default_db_path@,
                },
            },
    {
        let config = match file {
            Some(f) => match Config::from_file(f, path, default_db_path) {
                Ok(c) => c,
                Err(e) => {
                    return Err(e);
                },
            },
            None => Config::with_db_path(owned(default_db_path)),
        };
        match config.validate() {
            Ok(()) => Ok(config),
            Err(e) => Err(e),
        }
    }
}

/// Every key is written in a form that reads back as the same key.
pub proof fn lemma_key_text_roundtrip(k: KeySpec)
    ensures
        key_named(key_text(k)) == Some(k),
{
    reveal_strlit("tab");
    reveal_strlit("backtab");
    reveal_strlit("enter");
    reveal_strlit("up");
    reveal_strlit("down");
    reveal_strlit("left");
    reveal_strlit("right");
    reveal_strlit("esc");
    assert("tab"@.len() == 3 && "backtab"@.len() == 7 && "enter"@.len() == 5 && "up"@.len() == 2);
    assert("down"@.len() == 4 && "left"@.len() == 4 && "right"@.len() == 5 && "esc"@.len() == 3);
    assert("left"@[0] != "down"@[0]);
    assert("right"@[0] != "enter"@[0]);
    assert("esc"@[0] != "tab"@[0]);
    assert("backtab"@ != "tab"@);
    assert("enter"@ != "tab"@ && "enter"@ != "backtab"@);
    assert("up"@ != "tab"@ && "up"@ != "backtab"@ && "up"@ != "enter"@);
    assert("down"@ != "tab"@ && "down"@ != "backtab"@ && "down"@ != "enter"@ && "down"@ != "up"@);
    assert("left"@ != "tab"@ && "left"@ != "backtab"@ && "left"@ != "enter"@ && "left"@ != "up"@ && "left"@ != "down"@);
    assert("right"@ != "tab"@ && "right"@ != "backtab"@ && "right"@ != "enter"@ && "right"@ != "up"@
        && "right"@ != "down"@ && "right"@ != "left"@);
    assert("esc"@ != "tab"@ && "esc"@ != "backtab"@ && "esc"@ != "enter"@ && "esc"@ != "up"@ && "esc"@ != "down"@
        && "esc"@ != "left"@ && "esc"@ != "right"@);
    match k {
        KeySpec::Char(c) => {
            assert(key_text(k).len() == 1);
            assert(key_text(k) != "tab"@);
            assert(key_text(k) != "backtab"@);
            assert(key_text(k) != "enter"@);
            assert(key_text(k) != "up"@);
            assert(key_text(k) != "down"@);
            assert(key_text(k) != "left"@);
            assert(key_text(k) != "right"@);
            assert(key_text(k) != "esc"@);
            assert(key_text(k)[0] == c);
        },
        _ => {},
    }
}

/// A configuration that validates binds no key to two actions, so a key
/// press means at most one action.
pub proof fn lemma_valid_bindings_are_disjoint(secs: Seq<SectionModel>, b: Seq<Seq<KeySpec>>)
    requires
        validation_error(secs, b) is None,
        b.len() == 8,
    ensures
        forall|i: int, j: int, k: int|
            0 <= i < 8 && 0 <= j < 8 && i != j && 0 <= k < b[i].len() ==> !#[trigger] b[j].contains(b[i][k]),
{
    lemma_first_where_spec(8, action_conflicts(b));
    assert forall|i: int, j: int, k: int|
        0 <= i < 8 && 0 <= j < 8 && i != j && 0 <= k < b[i].len() implies !#[trigger] b[j].contains(b[i][k]) by {
        if b[j].contains(b[i][k]) {
            if i < j {
                assert(key_conflict(b, i, j, k));
                assert(action_conflicts(b)(i));
            } else {
                let k2 = choose|k2: int| 0 <= k2 < b[j].len() && b[j][k2] == b[i][k];
                assert(b[i].contains(b[j][k2]));
                assert(key_conflict(b, j, i, k2));
                assert(action_conflicts(b)(j));
            }
        }
    }
}

/// Theme keys left out of the config keep their default colors.
pub proof fn lemma_theme_omitted_keys_keep_defaults(spec: ThemeSpec)
    requires
        theme_of(spec) is Ok,
    ensures
        forall|i: int|
            0 <= i < 15 && theme_spec_fields(spec)[i] is None ==> (#[trigger] theme_of(spec)->Ok_0[i])
                == default_theme_colors()[i],
{
}

/// Actions left out of `[keybindings]` keep their default keys.
pub proof fn lemma_keybindings_omitted_keep_defaults(spec: KeybindingsSpec)
    requires
        keybindings_of(spec) is Ok,
    ensures
        forall|i: int|
            0 <= i < 8 && keybindings_spec_fields(spec)[i] is None ==> (#[trigger] keybindings_of(spec)->Ok_0[i])
                == default_binding_list()[i],
{
}

} // verus!
