//! The comment-mention filter, and the parts of the command filter that are
//! not process handling: reading the ids it prints and reporting its
//! failures.

use vstd::prelude::*;

use crate::error::Error;
use crate::pattern::{pattern_hits, regex_compile_error, regex_escape, regex_finds, regex_search};
use crate::text::{
    char_utf8_width, chars_of, owned, concat2, concat3, debug_str, debug_text, first_where, join, joined,
    lemma_first_where, lemma_first_where_spec, lemma_utf8_len_concat, lines, lines_of, text_of_range, trim,
    trim_text, utf8_len, utf8_width, views,
};

verus! {

/// The merge keyword pattern: "merge" in any case, or "マージ".
pub open spec fn keyword_pattern() -> Seq<char> {
    "(?i)(merge|マージ)"@
}

/// The pattern for a mention of `login`: `@login` in any case, not followed
/// by a word character or `-` (so `@login2` and `@login-fork` are others).
pub open spec fn mention_pattern(login: Seq<char>) -> Seq<char> {
    "(?i)@"@ + escape_text(login) + "(?:[^\\w-]|$)"@
}

use crate::pattern::escape_text;

/// Detects "merge request" comments: a comment whose body contains both a
/// mention of the viewer and a merge keyword. GitHub search cannot express
/// this same-comment condition.
pub struct CommentFilter {
    mention: String,
    keyword: String,
    extra: Vec<String>,
}

/// Mathematical value of a [`CommentFilter`]: its three kinds of pattern.
pub struct CommentFilterModel {
    pub mention: Seq<char>,
    pub keyword: Seq<char>,
    pub extra: Seq<Seq<char>>,
}

impl View for CommentFilter {
    type V = CommentFilterModel;

    closed spec fn view(&self) -> CommentFilterModel {
        CommentFilterModel { mention: self.mention@, keyword: self.keyword@, extra: views(self.extra@) }
    }
}

/// Whether `body` is a merge request under the patterns of `f`.
pub open spec fn is_merge_request_spec(f: CommentFilterModel, body: Seq<char>) -> bool {
    regex_finds(f.mention, body) && (pattern_hits(f.keyword, body) || exists|i: int|
        0 <= i < f.extra.len() && #[trigger] regex_finds(f.extra[i], body))
}

/// Extra pattern `i` does not compile.
pub open spec fn extra_is_bad(extra: Seq<Seq<char>>) -> spec_fn(int) -> bool {
    |i: int| regex_compile_error(extra[i]) is Some
}

/// Why no filter can be made for `login` with these extra patterns: the
/// mention pattern does not compile, or else the first extra pattern that
/// does not; `None` when all compile.
pub open spec fn filter_error(login: Seq<char>, patterns: Seq<Seq<char>>) -> Option<Seq<char>> {
    match regex_compile_error(mention_pattern(login)) {
        Some(e) => Some("bad viewer login: "@ + e),
        None => match first_where(patterns.len() as int, extra_is_bad(patterns)) {
            Some(i) => Some(
                "invalid extra pattern "@ + debug_text(patterns[i]) + ": "@ + regex_compile_error(
                    patterns[i],
                )->Some_0,
            ),
            None => None,
        },
    }
}

/// The patterns of the filter for `login` with these extra patterns.
pub open spec fn filter_model(login: Seq<char>, patterns: Seq<Seq<char>>) -> CommentFilterModel {
    CommentFilterModel { mention: mention_pattern(login), keyword: keyword_pattern(), extra: patterns }
}

impl CommentFilter {
    #[verifier::type_invariant]
    spec fn patterns_compile(&self) -> bool {
        &&& regex_compile_error(self.mention@) is None
        &&& forall|i: int| 0 <= i < self.extra@.len() ==> regex_compile_error(#[trigger] self.extra@[i]@) is None
    }

    /// The filter for `viewer_login` with extra keyword patterns. Fails with a
    /// config error when the mention pattern does not compile, or else for
    /// the first extra pattern that does not.
    pub fn new(viewer_login: &str, extra_patterns: &[String]) -> (r: Result<CommentFilter, Error>)
        ensures
            match filter_error(viewer_login@, views(extra_patterns@)) {
                Some(m) => r matches Err(Error::Config(e)) && e@ == m,
                None => r matches Ok(f) && f@ == filter_model(viewer_login@, views(extra_patterns@)),
            },
    {
        let escaped = regex_escape(viewer_login);
        let mention = concat3("(?i)@", escaped.as_str(), "(?:[^\\w-]|$)");
        if let Err(e) = regex_search(mention.as_str(), "") {
            return Err(Error::Config(concat2("bad viewer login: ", e.as_str())));
        }
        let ghost ex = views(extra_patterns@);
        let mut extra: Vec<String> = Vec::new();
        let mut i: usize = 0;
        while i < extra_patterns.len()
            invariant
                ex == views(extra_patterns@),
                mention@ == mention_pattern(viewer_login@),
                regex_compile_error(mention@) is None,
                i <= extra_patterns.len(),
                views(extra@) == ex.take(i as int),
                forall|k: int| 0 <= k < i ==> regex_compile_error(#[trigger] ex[k]) is None,
            decreases extra_patterns.len() - i,
        {
            let p = &extra_patterns[i];
            assert(ex[i as int] == p@);
            match regex_search(p.as_str(), "") {
                Ok(_) => {
                    let ghost old_extra = extra@;
                    extra.push(p.clone());
                    assert(views(extra@) =~= views(old_extra).push(p@));
                    assert(ex.take(i + 1) =~= ex.take(i as int).push(p@));
                },
                Err(e) => {
                    proof {
                        assert forall|k: int| 0 <= k < i implies !#[trigger] extra_is_bad(ex)(k) by {}
                        assert(extra_is_bad(ex)(i as int));
                        lemma_first_where(ex.len() as int, extra_is_bad(ex), i as int);
                    }
                    let q = debug_str(p.as_str());
                    let mut m = concat3("invalid extra pattern ", q.as_str(), ": ");
                    m.append(e.as_str());
                    return Err(Error::Config(m));
                },
            }
            i = i + 1;
        }
        proof {
            assert forall|k: int| 0 <= k < ex.len() implies !#[trigger] extra_is_bad(ex)(k) by {}
            lemma_first_where(ex.len() as int, extra_is_bad(ex), ex.len() as int);
            assert(ex.take(ex.len() as int) =~= ex);
            assert forall|k: int| 0 <= k < extra@.len() implies regex_compile_error(#[trigger] extra@[k]@) is None by {
                assert(views(extra@)[k] == extra@[k]@);
            }
        }
        Ok(CommentFilter { mention, keyword: owned("(?i)(merge|マージ)"), extra })
    }

    /// Whether a comment body mentions the viewer and asks to merge (the
    /// merge keyword or one of the extra patterns).
    pub fn is_merge_request(&self, body: &str) -> (b: bool)
        ensures
            b == is_merge_request_spec(self@, body@),
    {
        proof {
            use_type_invariant(self);
        }
        match regex_search(self.mention.as_str(), body) {
            Ok(true) => {},
            _ => {
                return false;
            },
        }
        if let Ok(true) = regex_search(self.keyword.as_str(), body) {
            return true;
        }
        let mut i: usize = 0;
        while i < self.extra.len()
            invariant
                i <= self.extra.len(),
                forall|k: int| 0 <= k < self.extra@.len() ==> regex_compile_error(#[trigger] self.extra@[k]@) is None,
                regex_finds(self@.mention, body@),
                !pattern_hits(self@.keyword, body@),
                forall|k: int| 0 <= k < i ==> !#[trigger] regex_finds(self@.extra[k], body@),
            decreases self.extra.len() - i,
        {
            assert(self@.extra[i as int] == self.extra@[i as int]@);
            if let Ok(true) = regex_search(self.extra[i].as_str(), body) {
                return true;
            }
            i = i + 1;
        }
        false
    }
}

} // verus!

verus! {

/// At most this many of the last stderr lines are reported.
pub const TAIL_LINES: usize = 5;

/// At most this many bytes of stderr are reported.
pub const TAIL_BYTES: usize = 2000;

/// The last `TAIL_LINES` lines of `s`.
pub open spec fn tail_lines(s: Seq<char>) -> Seq<Seq<char>> {
    let ls = lines_of(s);
    if ls.len() > TAIL_LINES {
        ls.skip(ls.len() - TAIL_LINES)
    } else {
        ls
    }
}

/// Byte offset of character `j` of `t`.
pub open spec fn byte_offset(t: Seq<char>, j: int) -> nat {
    utf8_len(t.take(j))
}

/// The first character boundary of `t` at or after byte `cut`.
pub open spec fn boundary_at_or_after(t: Seq<char>, cut: int) -> Option<int> {
    first_where(t.len() as int + 1, |j: int| byte_offset(t, j) >= cut)
}

/// The tail of a command's stderr shown in its error: the last lines,
/// joined by `'\n'`; past `TAIL_BYTES` bytes only the text from the first
/// character boundary within the last `TAIL_BYTES` bytes, after an ellipsis.
pub open spec fn stderr_tail_text(s: Seq<char>) -> Seq<char> {
    let t = joined(tail_lines(s), seq!['\n']);
    if utf8_len(t) <= TAIL_BYTES {
        t
    } else {
        seq!['…'] + t.skip(boundary_at_or_after(t, utf8_len(t) - TAIL_BYTES)->Some_0)
    }
}

/// The reported tail is bounded: at most `TAIL_LINES` lines, and at most
/// `TAIL_BYTES` bytes besides the leading ellipsis (3 bytes).
pub proof fn lemma_stderr_tail_bounded(s: Seq<char>)
    ensures
        tail_lines(s).len() <= TAIL_LINES,
        utf8_len(stderr_tail_text(s)) <= TAIL_BYTES + 3,
{
    let t = joined(tail_lines(s), seq!['\n']);
    let total = utf8_len(t);
    if total > TAIL_BYTES {
        let cut = total - TAIL_BYTES;
        let f = |j: int| byte_offset(t, j) >= cut;
        assert(t.take(t.len() as int) =~= t);
        assert(f(t.len() as int));
        lemma_first_where_spec(t.len() as int + 1, f);
        assert(boundary_at_or_after(t, cut) == first_where(t.len() as int + 1, f));
        let b = boundary_at_or_after(t, cut)->Some_0;
        assert(0 <= b <= t.len());
        assert(byte_offset(t, b) >= cut);
        assert(t =~= t.take(b) + t.skip(b));
        lemma_utf8_len_concat(t.take(b), t.skip(b));
        lemma_utf8_len_concat(seq!['…'], t.skip(b));
        assert(seq!['…'].drop_last() =~= Seq::<char>::empty());
        assert(('…' as int) == 0x2026);
        assert(utf8_width('…') == 3);
        assert(utf8_len(Seq::<char>::empty()) == 0);
        assert(seq!['…'].last() == '…');
        assert(utf8_len(seq!['…']) == 3);
    }
}

proof fn lemma_utf8_len_take_step(t: Seq<char>, j: int)
    requires
        0 <= j < t.len(),
    ensures
        utf8_len(t.take(j + 1)) == utf8_len(t.take(j)) + utf8_width(t[j]),
{
    assert(t.take(j + 1).drop_last() =~= t.take(j));
}

/// Keeps the tail of a filter's stderr so a chatty script cannot flood the
/// status bar: bounded by lines and by bytes, cut on a character boundary.
pub fn stderr_tail(stderr: &str) -> (s: String)
    ensures
        s@ == stderr_tail_text(stderr@),
{
    let all = lines(stderr);
    let ghost ls = lines_of(stderr@);
    assert(views(all@) =~= ls);
    let start: usize = if all.len() > TAIL_LINES {
        all.len() - TAIL_LINES
    } else {
        0
    };
    let mut kept: Vec<String> = Vec::new();
    let mut i: usize = start;
    while i < all.len()
        invariant
            start <= i <= all.len(),
            views(all@) == ls,
            views(kept@) == ls.subrange(start as int, i as int),
        decreases all.len() - i,
    {
        let ghost old_kept = kept@;
        kept.push(all[i].clone());
        assert(views(kept@) =~= views(old_kept).push(all@[i as int]@));
        i = i + 1;
        assert(views(kept@) =~= ls.subrange(start as int, i as int));
    }
    assert(views(kept@) =~= tail_lines(stderr@));
    let tail = join(kept.as_slice(), "\n");
    proof {
        reveal_strlit("\n");
        assert("\n"@ =~= seq!['\n']);
    }
    let ghost t = tail@;
    assert(t == joined(tail_lines(stderr@), seq!['\n']));
    let v = chars_of(tail.as_str());
    // total byte length
    let mut total: u128 = 0;
    let mut j: usize = 0;
    while j < v.len()
        invariant
            v@ == t,
            j <= v.len(),
            total == byte_offset(t, j as int),
            total <= 4 * j,
        decreases v.len() - j,
    {
        proof {
            lemma_utf8_len_take_step(t, j as int);
        }
        total = total + char_utf8_width(v[j]) as u128;
        j = j + 1;
    }
    assert(t.take(v.len() as int) =~= t);
    if total <= TAIL_BYTES as u128 {
        return tail;
    }
    let cut: u128 = total - TAIL_BYTES as u128;
    let ghost at_cut = |k: int| byte_offset(t, k) >= cut;
    let mut off: u128 = 0;
    let mut k: usize = 0;
    while k < v.len() && off < cut
        invariant
            v@ == t,
            k <= v.len(),
            off == byte_offset(t, k as int),
            off <= 4 * k,
            at_cut == (|x: int| byte_offset(t, x) >= cut),
            forall|x: int| 0 <= x < k ==> !#[trigger] at_cut(x),
        decreases v.len() - k,
    {
        proof {
            lemma_utf8_len_take_step(t, k as int);
        }
        off = off + char_utf8_width(v[k]) as u128;
        k = k + 1;
    }
    proof {
        assert(at_cut(k as int));
        lemma_first_where(t.len() as int + 1, at_cut, k as int);
    }
    let rest = text_of_range(&v, k, v.len());
    assert(rest@ =~= t.skip(k as int));
    let mut out = concat2("…", rest.as_str());
    proof {
        reveal_strlit("…");
    }
    assert(out@ =~= seq!['…'] + t.skip(k as int));
    out
}

/// The ids a command filter printed: its stdout's lines, trimmed, without
/// the blank ones.
pub open spec fn kept_id_list(stdout: Seq<char>) -> Seq<Seq<char>> {
    lines_of(stdout).map_values(|l: Seq<char>| trim_text(l)).filter(|l: Seq<char>| l.len() > 0)
}

/// Reads the ids to keep from a command filter's stdout: one per line,
/// surrounding whitespace trimmed, blank lines skipped.
pub fn kept_ids(stdout: &str) -> (ids: Vec<String>)
    ensures
        views(ids@) == kept_id_list(stdout@),
{
    let all = lines(stdout);
    let ghost trimmed = lines_of(stdout@).map_values(|l: Seq<char>| trim_text(l));
    let mut ids: Vec<String> = Vec::new();
    let mut i: usize = 0;
    while i < all.len()
        invariant
            i <= all.len(),
            all@.len() == lines_of(stdout@).len(),
            forall|k: int| 0 <= k < all@.len() ==> #[trigger] all@[k]@ == lines_of(stdout@)[k],
            trimmed == lines_of(stdout@).map_values(|l: Seq<char>| trim_text(l)),
            views(ids@) == trimmed.take(i as int).filter(|l: Seq<char>| l.len() > 0),
        decreases all.len() - i,
    {
        let t = trim(all[i].as_str());
        assert(trimmed.take(i + 1).drop_last() =~= trimmed.take(i as int));
        assert(trimmed.take(i + 1).last() == t@);
        let ghost old_ids = ids@;
        if !t.as_str().is_empty() {
            ids.push(t);
            assert(views(ids@) =~= views(old_ids).push(t@));
        }
        proof {
            reveal(Seq::filter);
        }
        i = i + 1;
    }
    assert(trimmed.take(all@.len() as int) =~= trimmed);
    ids
}

/// The error for a command filter that exited unsuccessfully: its exit
/// status and command, then the tail of its stderr (trimmed) when there is
/// any.
pub fn exit_failure(command: &str, status: &str, stderr: &str) -> (e: Error)
    ensures
        e matches Error::Filter(m) && m@ == "command filter exited with "@ + status@ + ": "@
            + command@ + (if trim_text(stderr@).len() == 0 {
            Seq::<char>::empty()
        } else {
            seq!['\n'] + stderr_tail_text(trim_text(stderr@))
        }),
{
    let trimmed = trim(stderr);
    let mut m = concat3("command filter exited with ", status, ": ");
    m.append(command);
    if !trimmed.as_str().is_empty() {
        let tail = stderr_tail(trimmed.as_str());
        m.append("\n");
        m.append(tail.as_str());
        proof {
            reveal_strlit("\n");
            assert("\n"@ =~= seq!['\n']);
        }
    }
    Error::Filter(m)
}


/// The merge keyword always counts: a comment that mentions the viewer and
/// matches the merge keyword is a merge request for the viewer's filter,
/// whatever extra patterns are configured.
pub proof fn lemma_keyword_counts_with_any_extra(login: Seq<char>, extra: Seq<Seq<char>>, body: Seq<char>)
    requires
        regex_finds(mention_pattern(login), body),
        pattern_hits(keyword_pattern(), body),
    ensures
        is_merge_request_spec(filter_model(login, extra), body),
{
}

/// Extra patterns only add to what counts: a comment that is a merge request
/// under some extra patterns stays one when more patterns are added.
pub proof fn lemma_extra_patterns_only_add(login: Seq<char>, extra: Seq<Seq<char>>, more: Seq<Seq<char>>, body: Seq<char>)
    requires
        is_merge_request_spec(filter_model(login, extra), body),
    ensures
        is_merge_request_spec(filter_model(login, extra + more), body),
        is_merge_request_spec(filter_model(login, more + extra), body),
{
    let f = filter_model(login, extra);
    let f1 = filter_model(login, extra + more);
    let f2 = filter_model(login, more + extra);
    if !pattern_hits(f.keyword, body) {
        let i = choose|i: int| 0 <= i < f.extra.len() && #[trigger] regex_finds(f.extra[i], body);
        let j = more.len() + i;
        assert(f1.extra[i] == extra[i]);
        assert(f2.extra[j] == extra[i]);
        assert(0 <= i < f1.extra.len() && regex_finds(f1.extra[i], body));
        assert(0 <= j < f2.extra.len() && regex_finds(f2.extra[j], body));
    }
}

/// Without a mention of the viewer no comment is a merge request, whatever
/// the keywords and patterns.
pub proof fn lemma_mention_required(login: Seq<char>, extra: Seq<Seq<char>>, body: Seq<char>)
    requires
        !regex_finds(mention_pattern(login), body),
    ensures
        !is_merge_request_spec(filter_model(login, extra), body),
{
}

} // verus!
