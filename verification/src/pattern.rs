//! Regular-expression searches, done by the `regex` crate.

use vstd::prelude::*;

verus! {

/// The message of the error that `regex::Regex::new` gives for `pattern`,
/// or `None` when the pattern compiles (under the crate's default size
/// limit, a function of the pattern alone).
pub uninterp spec fn regex_compile_error(pattern: Seq<char>) -> Option<Seq<char>>;

/// Whether the regular expression `pattern` matches somewhere in `text`, as
/// `regex::Regex::is_match` reports it.
pub uninterp spec fn regex_finds(pattern: Seq<char>, text: Seq<char>) -> bool;

/// `pattern` compiles and matches somewhere in `text`.
pub open spec fn pattern_hits(pattern: Seq<char>, text: Seq<char>) -> bool {
    regex_compile_error(pattern) is None && regex_finds(pattern, text)
}

/// Compiles `pattern` with `regex::Regex::new` and, when that succeeds,
/// reports `is_match(text)`; when it fails, the error's message. The
/// compile outcome is named by `regex_compile_error`, the match by
/// `regex_finds`; what either is on given values is the crate's.
#[verifier::external_body]
pub(crate) fn regex_search(pattern: &str, text: &str) -> (r: Result<bool, String>)
    ensures
        (r is Ok) == (regex_compile_error(pattern@) is None),
        r matches Ok(b) ==> b == regex_finds(pattern@, text@),
        r matches Err(m) ==> regex_compile_error(pattern@) == Some(m@),
{
    match regex::Regex::new(pattern) {
        Ok(re) => Ok(re.is_match(text)),
        Err(e) => Err(e.to_string()),
    }
}

/// The characters that `regex::escape` escapes (regex-syntax's
/// `is_meta_character`).
pub open spec fn is_regex_meta(c: char) -> bool {
    c == '\\' || c == '.' || c == '+' || c == '*' || c == '?' || c == '(' || c == ')' || c
        == '|' || c == '[' || c == ']' || c == '{' || c == '}' || c == '^' || c == '$' || c
        == '#' || c == '&' || c == '-' || c == '~'
}

/// `s` with a backslash before every meta character.
pub open spec fn escape_text(s: Seq<char>) -> Seq<char>
    decreases s.len(),
{
    if s.len() == 0 {
        Seq::empty()
    } else if is_regex_meta(s.last()) {
        escape_text(s.drop_last()) + seq!['\\', s.last()]
    } else {
        escape_text(s.drop_last()).push(s.last())
    }
}

/// `regex::escape`: puts a backslash before every meta character, so the
/// result matches `s` literally.
#[verifier::external_body]
pub(crate) fn regex_escape(s: &str) -> (t: String)
    ensures
        t@ == escape_text(s@),
{
    regex::escape(s)
}

} // verus!
