//! Character-level string helpers shared by the rest of the library.

use vstd::prelude::*;

verus! {

/// Appends one character (`String::push`).
#[verifier::external_body]
pub(crate) fn push_char(s: &mut String, c: char)
    ensures
        final(s)@ == old(s)@.push(c),
{
    s.push(c);
}

/// The characters of `s`, in order.
pub fn chars_of(s: &str) -> (v: Vec<char>)
    ensures
        v@ == s@,
{
    let mut v: Vec<char> = Vec::new();
    for c in it: s.chars()
        invariant
            v@ == it.seq().take(it.index() as int),
    {
        v.push(c);
    }
    v
}

} // verus!

verus! {

/// The ASCII digit for `d < 10`.
pub open spec fn digit_char(d: nat) -> char {
    (48 + d) as char
}

/// Decimal notation of a natural number, without leading zeros.
pub open spec fn decimal(n: nat) -> Seq<char>
    decreases n,
{
    if n < 10 {
        seq![digit_char(n)]
    } else {
        decimal(n / 10).push(digit_char(n % 10))
    }
}

/// Decimal notation of an integer, with a leading `-` when negative.
pub open spec fn signed_decimal(i: int) -> Seq<char> {
    if i < 0 {
        seq!['-'].add(decimal((-i) as nat))
    } else {
        decimal(i as nat)
    }
}

/// `n.to_string()` for an unsigned integer.
pub fn u64_text(n: u64) -> (s: String)
    ensures
        s@ == decimal(n as nat),
{
    let mut digits: Vec<char> = Vec::new();
    let mut m: u64 = n;
    // digits holds the low-order digits, least significant first
    while m >= 10
        invariant
            decimal(n as nat) == decimal(m as nat) + digits@.reverse(),
        decreases m,
    {
        let d: u64 = m % 10;
        let c: char = ((48 + d) as u8) as char;
        assert(c == digit_char(d as nat));
        let ghost old_digits = digits@;
        digits.push(c);
        assert(digits@.reverse() =~= seq![c] + old_digits.reverse());
        assert(decimal(m as nat) == decimal((m / 10) as nat).push(c));
        m = m / 10;
        assert(decimal(n as nat) =~= decimal(m as nat) + digits@.reverse());
    }
    let c: char = ((48 + m) as u8) as char;
    assert(c == digit_char(m as nat));
    let ghost old_digits = digits@;
    digits.push(c);
    assert(digits@.reverse() =~= seq![c] + old_digits.reverse());
    assert(decimal(n as nat) =~= digits@.reverse());
    let mut s = String::new();
    let mut i: usize = digits.len();
    while i > 0
        invariant
            i <= digits.len(),
            s@ == digits@.reverse().take((digits.len() - i) as int),
        decreases i,
    {
        i = i - 1;
        push_char(&mut s, digits[i]);
        assert(s@ =~= digits@.reverse().take((digits.len() - i) as int));
    }
    assert(s@ =~= decimal(n as nat));
    s
}

/// `n.to_string()` for a signed integer.
pub fn i64_text(n: i64) -> (s: String)
    ensures
        s@ == signed_decimal(n as int),
{
    if n < 0 {
        let m: u64 = (0i128 - (n as i128)) as u64;
        let digits = u64_text(m);
        let mut s = String::new();
        push_char(&mut s, '-');
        s.append(digits.as_str());
        s
    } else {
        u64_text(n as u64)
    }
}

} // verus!

verus! {

/// Code-point lexicographic order of `a` and `b` from position `i` on
/// (the order of `str`'s `Ord`, which compares UTF-8 bytes).
pub open spec fn lex_lt_at(a: Seq<char>, b: Seq<char>, i: int) -> bool
    decreases a.len() - i,
{
    if i < 0 || i >= a.len() {
        0 <= i < b.len()
    } else if i >= b.len() {
        false
    } else if a[i] != b[i] {
        (a[i] as int) < (b[i] as int)
    } else {
        lex_lt_at(a, b, i + 1)
    }
}

/// `a` sorts strictly before `b`.
pub open spec fn lex_lt(a: Seq<char>, b: Seq<char>) -> bool {
    lex_lt_at(a, b, 0)
}

/// No text sorts strictly before itself.
pub proof fn lemma_lex_lt_irreflexive(a: Seq<char>)
    ensures
        !lex_lt(a, a),
{
    lemma_lex_lt_at_irreflexive(a, 0);
}

proof fn lemma_lex_lt_at_irreflexive(a: Seq<char>, i: int)
    requires
        0 <= i,
    ensures
        !lex_lt_at(a, a, i),
    decreases a.len() - i,
{
    if i < a.len() {
        lemma_lex_lt_at_irreflexive(a, i + 1);
    }
}

/// Of two different texts, one sorts before the other.
pub proof fn lemma_lex_lt_total(a: Seq<char>, b: Seq<char>)
    ensures
        a == b || lex_lt(a, b) || lex_lt(b, a),
{
    lemma_lex_lt_at_total(a, b, 0);
    if !lex_lt(a, b) && !lex_lt(b, a) {
        assert(a =~= b);
    }
}

proof fn lemma_lex_lt_at_total(a: Seq<char>, b: Seq<char>, i: int)
    requires
        0 <= i <= a.len(),
        i <= b.len(),
    ensures
        lex_lt_at(a, b, i) || lex_lt_at(b, a, i) || (a.len() == b.len() && forall|j: int|
            i <= j < a.len() ==> a[j] == b[j]),
    decreases a.len() - i,
{
    if i < a.len() && i < b.len() && a[i] == b[i] {
        lemma_lex_lt_at_total(a, b, i + 1);
    }
}

/// The order of texts is transitive.
pub proof fn lemma_lex_lt_transitive(a: Seq<char>, b: Seq<char>, c: Seq<char>)
    requires
        lex_lt(a, b),
        lex_lt(b, c),
    ensures
        lex_lt(a, c),
{
    lemma_lex_lt_at_transitive(a, b, c, 0);
}

proof fn lemma_lex_lt_at_transitive(a: Seq<char>, b: Seq<char>, c: Seq<char>, i: int)
    requires
        0 <= i,
        lex_lt_at(a, b, i),
        lex_lt_at(b, c, i),
    ensures
        lex_lt_at(a, c, i),
    decreases a.len() - i,
{
    if i < a.len() && a[i] == b[i] && b[i] == c[i] {
        lemma_lex_lt_at_transitive(a, b, c, i + 1);
    }
}

/// Outcome of comparing two texts.
#[derive(Clone, Copy, Debug, PartialEq, Eq, Structural)]
pub enum TextOrder {
    Less,
    Equal,
    Greater,
}

/// Compares `a` and `b` as `str`'s `Ord` does.
pub fn text_order(a: &str, b: &str) -> (o: TextOrder)
    ensures
        (o == TextOrder::Less) == lex_lt(a@, b@),
        (o == TextOrder::Equal) == (a@ == b@),
        (o == TextOrder::Greater) == lex_lt(b@, a@),
{
    let av = chars_of(a);
    let bv = chars_of(b);
    let mut i: usize = 0;
    while i < av.len() && i < bv.len() && av[i] == bv[i]
        invariant
            av@ == a@,
            bv@ == b@,
            i <= av.len(),
            i <= bv.len(),
            av@.take(i as int) == bv@.take(i as int),
            lex_lt(a@, b@) == lex_lt_at(a@, b@, i as int),
            lex_lt(b@, a@) == lex_lt_at(b@, a@, i as int),
        decreases av.len() - i,
    {
        assert(av@.take(i + 1) =~= av@.take(i as int).push(av@[i as int]));
        assert(bv@.take(i + 1) =~= bv@.take(i as int).push(bv@[i as int]));
        i = i + 1;
    }
    if i == av.len() && i == bv.len() {
        assert(a@ =~= av@.take(i as int));
        assert(b@ =~= bv@.take(i as int));
        TextOrder::Equal
    } else if i == av.len() {
        assert(lex_lt_at(a@, b@, i as int));
        assert(!lex_lt_at(b@, a@, i as int));
        assert(a@.len() != b@.len());
        TextOrder::Less
    } else if i == bv.len() {
        assert(!lex_lt_at(a@, b@, i as int));
        assert(lex_lt_at(b@, a@, i as int));
        assert(a@.len() != b@.len());
        TextOrder::Greater
    } else {
        assert(a@[i as int] != b@[i as int]);
        assert(a@ != b@);
        if av[i] < bv[i] {
            assert(lex_lt_at(a@, b@, i as int));
            assert(!lex_lt_at(b@, a@, i as int));
            TextOrder::Less
        } else {
            assert(!lex_lt_at(a@, b@, i as int));
            assert(lex_lt_at(b@, a@, i as int));
            TextOrder::Greater
        }
    }
}

/// Position of the first `'\n'` in `s`, or `s.len()` when there is none.
pub open spec fn newline_index(s: Seq<char>) -> int
    decreases s.len(),
{
    if s.len() == 0 {
        0
    } else if s[0] == '\n' {
        0
    } else {
        1 + newline_index(s.drop_first())
    }
}

/// The first line of `s` up to (not including) its terminator: the text
/// before the first `'\n'`, without a `'\r'` that stands just before it.
pub open spec fn first_line(s: Seq<char>) -> Seq<char> {
    let k = newline_index(s);
    let line = s.take(k);
    if k < s.len() && line.len() > 0 && line.last() == '\r' {
        line.drop_last()
    } else {
        line
    }
}

/// The lines of `s` as `str::lines` yields them: split at `'\n'` (a
/// `'\r'` just before it is dropped too); a final terminator does not start
/// an empty last line.
pub open spec fn lines_of(s: Seq<char>) -> Seq<Seq<char>>
    decreases s.len(),
{
    if s.len() == 0 {
        Seq::empty()
    } else {
        let k = newline_index(s);
        proof {
            lemma_newline_index_bounds(s);
        }
        if k >= s.len() {
            seq![first_line(s)]
        } else {
            seq![first_line(s)] + lines_of(s.skip(k + 1))
        }
    }
}

pub proof fn lemma_newline_index_bounds(s: Seq<char>)
    ensures
        0 <= newline_index(s) <= s.len(),
        newline_index(s) < s.len() ==> s[newline_index(s)] == '\n',
        forall|j: int| 0 <= j < newline_index(s) ==> s[j] != '\n',
    decreases s.len(),
{
    if s.len() > 0 && s[0] != '\n' {
        lemma_newline_index_bounds(s.drop_first());
        assert forall|j: int| 0 <= j < newline_index(s) implies s[j] != '\n' by {
            if j > 0 {
                assert(s[j] == s.drop_first()[j - 1]);
            }
        }
    }
}

pub proof fn lemma_newline_index_is_first(s: Seq<char>, k: int)
    requires
        0 <= k <= s.len(),
        k < s.len() ==> s[k] == '\n',
        forall|j: int| 0 <= j < k ==> s[j] != '\n',
    ensures
        newline_index(s) == k,
    decreases s.len(),
{
    if s.len() > 0 && k > 0 {
        lemma_newline_index_is_first(s.drop_first(), k - 1);
    }
}

/// Position of the first `'\n'` in `v` at or after `from`, or `v.len()`.
fn find_newline(v: &Vec<char>, from: usize) -> (k: usize)
    requires
        from <= v.len(),
    ensures
        from <= k <= v.len(),
        k - from == newline_index(v@.skip(from as int)),
{
    let mut k = from;
    while k < v.len() && v[k] != '\n'
        invariant
            from <= k <= v.len(),
            forall|j: int| from <= j < k ==> v@[j] != '\n',
        decreases v.len() - k,
    {
        k = k + 1;
    }
    proof {
        let t = v@.skip(from as int);
        lemma_newline_index_is_first(t, k - from);
    }
    k
}

/// Text of `v[from..to]`.
pub fn text_of_range(v: &Vec<char>, from: usize, to: usize) -> (s: String)
    requires
        from <= to <= v.len(),
    ensures
        s@ == v@.subrange(from as int, to as int),
{
    let mut s = String::new();
    let mut i = from;
    while i < to
        invariant
            from <= i <= to <= v.len(),
            s@ == v@.subrange(from as int, i as int),
        decreases to - i,
    {
        push_char(&mut s, v[i]);
        i = i + 1;
        assert(s@ =~= v@.subrange(from as int, i as int));
    }
    s
}

/// `s.lines()`, collected.
pub fn lines(s: &str) -> (out: Vec<String>)
    ensures
        out@.len() == lines_of(s@).len(),
        forall|i: int| 0 <= i < out@.len() ==> #[trigger] out@[i]@ == lines_of(s@)[i],
{
    let v = chars_of(s);
    let mut out: Vec<String> = Vec::new();
    let mut pos: usize = 0;
    assert(v@.skip(0) =~= v@);
    while pos < v.len()
        invariant
            v@ == s@,
            pos <= v.len(),
            lines_of(s@) =~= out@.map_values(|t: String| t@) + lines_of(v@.skip(pos as int)),
        decreases v.len() - pos,
    {
        let ghost rest = v@.skip(pos as int);
        let ghost old_pos = pos;
        let k = find_newline(&v, pos);
        let mut end = k;
        if k < v.len() && end > pos && v[end - 1] == '\r' {
            end = end - 1;
        }
        let line = text_of_range(&v, pos, end);
        proof {
            lemma_newline_index_bounds(rest);
            assert(rest.take(k - pos) =~= v@.subrange(pos as int, k as int));
            if k < v.len() && k > pos && v@[k - 1] == '\r' {
                assert(first_line(rest) =~= line@);
            } else {
                assert(first_line(rest) =~= line@);
            }
        }
        let ghost old_out = out@.map_values(|t: String| t@);
        out.push(line);
        assert(out@.map_values(|t: String| t@) =~= old_out.push(line@));
        if k < v.len() {
            pos = k + 1;
            assert(rest.skip(newline_index(rest) + 1) =~= v@.skip(pos as int));
        } else {
            pos = v.len();
            assert(v@.skip(pos as int) =~= Seq::<char>::empty());
        }
    }
    assert(lines_of(v@.skip(pos as int)) =~= Seq::<Seq<char>>::empty()) by {
        assert(v@.skip(pos as int).len() == 0);
    }
    out
}

} // verus!

verus! {

/// Whether `c` has Unicode's White_Space property, as `char::is_whitespace`
/// reports it.
pub uninterp spec fn unicode_whitespace(c: char) -> bool;

/// `char::is_whitespace`: its documentation says only that it reports
/// Unicode's White_Space property, so the result is given that name.
#[verifier::external_body]
pub(crate) fn is_whitespace(c: char) -> (b: bool)
    ensures
        b == unicode_whitespace(c),
{
    c.is_whitespace()
}

/// Number of whitespace characters that `s` starts with.
pub open spec fn lead_ws(s: Seq<char>) -> int
    decreases s.len(),
{
    if s.len() == 0 {
        0
    } else if unicode_whitespace(s[0]) {
        1 + lead_ws(s.drop_first())
    } else {
        0
    }
}

/// Number of whitespace characters that `s` ends with.
pub open spec fn trail_ws(s: Seq<char>) -> int
    decreases s.len(),
{
    if s.len() == 0 {
        0
    } else if unicode_whitespace(s.last()) {
        1 + trail_ws(s.drop_last())
    } else {
        0
    }
}

/// `str::trim`: `s` without its leading and trailing whitespace.
pub open spec fn trim_text(s: Seq<char>) -> Seq<char> {
    let t = s.skip(lead_ws(s));
    t.take(t.len() - trail_ws(t))
}

pub proof fn lemma_lead_ws_bounds(s: Seq<char>)
    ensures
        0 <= lead_ws(s) <= s.len(),
    decreases s.len(),
{
    if s.len() > 0 {
        lemma_lead_ws_bounds(s.drop_first());
    }
}

pub proof fn lemma_trail_ws_bounds(s: Seq<char>)
    ensures
        0 <= trail_ws(s) <= s.len(),
    decreases s.len(),
{
    if s.len() > 0 {
        lemma_trail_ws_bounds(s.drop_last());
    }
}

/// `s.trim()`, as an owned string.
pub fn trim(s: &str) -> (t: String)
    ensures
        t@ == trim_text(s@),
{
    let v = chars_of(s);
    let mut lo: usize = 0;
    assert(v@.skip(0) =~= v@);
    while lo < v.len() && is_whitespace(v[lo])
        invariant
            v@ == s@,
            lo <= v.len(),
            lead_ws(s@) == lo + lead_ws(v@.skip(lo as int)),
        decreases v.len() - lo,
    {
        assert(v@.skip(lo as int).drop_first() =~= v@.skip(lo + 1));
        lo = lo + 1;
    }
    let ghost t = v@.skip(lo as int);
    assert(lead_ws(s@) == lo);
    let mut hi: usize = v.len();
    assert(t.take(t.len() as int) =~= t);
    while hi > lo && is_whitespace(v[hi - 1])
        invariant
            v@ == s@,
            t == v@.skip(lo as int),
            lo <= hi <= v.len(),
            trail_ws(t) == (v.len() - hi) + trail_ws(t.take(hi - lo)),
        decreases hi,
    {
        assert(t.take(hi - lo).drop_last() =~= t.take(hi - 1 - lo));
        assert(t.take(hi - lo).last() == v@[hi - 1]);
        hi = hi - 1;
    }
    proof {
        lemma_trail_ws_bounds(t.take(hi - lo));
    }
    assert(trail_ws(t) == v.len() - hi);
    let r = text_of_range(&v, lo, hi);
    assert(r@ =~= trim_text(s@));
    r
}

/// Byte length of `c` in UTF-8.
pub open spec fn utf8_width(c: char) -> nat {
    if (c as int) < 0x80 {
        1
    } else if (c as int) < 0x800 {
        2
    } else if (c as int) < 0x10000 {
        3
    } else {
        4
    }
}

/// Byte length of `s` in UTF-8.
pub open spec fn utf8_len(s: Seq<char>) -> nat
    decreases s.len(),
{
    if s.len() == 0 {
        0
    } else {
        utf8_len(s.drop_last()) + utf8_width(s.last())
    }
}

/// The UTF-8 length of two texts together is the sum of their lengths.
pub proof fn lemma_utf8_len_concat(a: Seq<char>, b: Seq<char>)
    ensures
        utf8_len(a + b) == utf8_len(a) + utf8_len(b),
    decreases b.len(),
{
    if b.len() > 0 {
        lemma_utf8_len_concat(a, b.drop_last());
        assert((a + b).drop_last() =~= a + b.drop_last());
        assert((a + b).last() == b.last());
    } else {
        assert(a + b =~= a);
    }
}

/// `c.len_utf8()`.
pub fn char_utf8_width(c: char) -> (w: usize)
    ensures
        w == utf8_width(c),
{
    let x: u32 = c as u32;
    assert(x as int == c as int);
    if x < 0x80 {
        1
    } else if x < 0x800 {
        2
    } else if x < 0x10000 {
        3
    } else {
        4
    }
}

/// `parts.join(sep)`.
pub open spec fn joined(parts: Seq<Seq<char>>, sep: Seq<char>) -> Seq<char>
    decreases parts.len(),
{
    if parts.len() == 0 {
        Seq::empty()
    } else if parts.len() == 1 {
        parts[0]
    } else {
        joined(parts.drop_last(), sep) + sep + parts.last()
    }
}

/// Views of a vector of strings.
pub open spec fn views(v: Seq<String>) -> Seq<Seq<char>> {
    v.map_values(|s: String| s@)
}

/// `parts.join(sep)` for a list of strings.
pub fn join(parts: &[String], sep: &str) -> (s: String)
    ensures
        s@ == joined(views(parts@), sep@),
{
    let mut s = String::new();
    let mut i: usize = 0;
    while i < parts.len()
        invariant
            i <= parts.len(),
            s@ == joined(views(parts@).take(i as int), sep@),
        decreases parts.len() - i,
    {
        let ghost pv = views(parts@);
        assert(pv.take(i + 1).drop_last() =~= pv.take(i as int));
        if i > 0 {
            s.append(sep);
        }
        s.append(parts[i].as_str());
        i = i + 1;
        assert(s@ =~= joined(pv.take(i as int), sep@));
    }
    assert(views(parts@).take(parts.len() as int) =~= views(parts@));
    s
}

/// The text that `format!("{:?}", s)` prints for a string: `s` quoted,
/// with the escapes of `str`'s `Debug`.
pub uninterp spec fn debug_text(s: Seq<char>) -> Seq<char>;

/// `format!("{:?}", s)`: the quoted, escaped form of `s`, named by
/// `debug_text` (the escaping rules are std's).
#[verifier::external_body]
pub(crate) fn debug_str(s: &str) -> (t: String)
    ensures
        t@ == debug_text(s@),
{
    format!("{:?}", s)
}

} // verus!

verus! {

/// `a == b` for string slices.
pub fn text_eq(a: &str, b: &str) -> (r: bool)
    ensures
        r == (a@ == b@),
{
    text_order(a, b) == TextOrder::Equal
}

/// A copy of the string `s`.
pub fn owned(s: &str) -> (t: String)
    ensures
        t@ == s@,
{
    let mut t = String::new();
    t.append(s);
    t
}

/// Concatenation of two texts.
pub fn concat2(a: &str, b: &str) -> (s: String)
    ensures
        s@ == a@ + b@,
{
    let mut s = String::new();
    s.append(a);
    s.append(b);
    s
}

/// Concatenation of three texts.
pub fn concat3(a: &str, b: &str, c: &str) -> (s: String)
    ensures
        s@ == a@ + b@ + c@,
{
    let mut s = String::new();
    s.append(a);
    s.append(b);
    s.append(c);
    s
}

} // verus!

verus! {

/// The least index below `n` at which `bad` holds, if there is one.
pub open spec fn first_where(n: int, bad: spec_fn(int) -> bool) -> Option<int> {
    if exists|i: int| 0 <= i < n && #[trigger] bad(i) {
        Some(choose|i: int| 0 <= i < n && #[trigger] bad(i) && forall|j: int| 0 <= j < i ==> !#[trigger] bad(j))
    } else {
        None
    }
}

/// `first_where` is `i` when `bad` fails below `i` and holds at `i`, and
/// `None` when `i` is `n`.
pub proof fn lemma_first_where(n: int, bad: spec_fn(int) -> bool, i: int)
    requires
        0 <= i <= n,
        forall|j: int| 0 <= j < i ==> !#[trigger] bad(j),
        i < n ==> bad(i),
    ensures
        first_where(n, bad) == (if i < n { Some(i) } else { None::<int> }),
{
    if i < n {
        assert(0 <= i < n && bad(i) && forall|j: int| 0 <= j < i ==> !#[trigger] bad(j));
        let k = choose|k: int| 0 <= k < n && #[trigger] bad(k) && forall|j: int| 0 <= j < k ==> !#[trigger] bad(j);
        if k < i {
            assert(!bad(k));
        }
        if k > i {
            assert(!bad(i));
        }
    }
}

proof fn lemma_least_witness(n: int, bad: spec_fn(int) -> bool, m: int)
    requires
        0 <= m < n,
        bad(m),
    ensures
        exists|i: int| 0 <= i < n && #[trigger] bad(i) && forall|j: int| 0 <= j < i ==> !#[trigger] bad(j),
    decreases m,
{
    if exists|j: int| 0 <= j < m && #[trigger] bad(j) {
        let j = choose|j: int| 0 <= j < m && #[trigger] bad(j);
        lemma_least_witness(n, bad, j);
    } else {
        assert(0 <= m < n && bad(m) && forall|j: int| 0 <= j < m ==> !#[trigger] bad(j));
    }
}

/// What `first_where` gives: the least index where `bad` holds, or `None`
/// when it holds nowhere below `n`.
pub proof fn lemma_first_where_spec(n: int, bad: spec_fn(int) -> bool)
    ensures
        first_where(n, bad) matches Some(k) ==> 0 <= k < n && bad(k) && forall|j: int|
            0 <= j < k ==> !#[trigger] bad(j),
        first_where(n, bad) is None ==> forall|j: int| 0 <= j < n ==> !#[trigger] bad(j),
{
    if exists|i: int| 0 <= i < n && #[trigger] bad(i) {
        let m = choose|i: int| 0 <= i < n && #[trigger] bad(i);
        lemma_least_witness(n, bad, m);
    }
}

/// `first_where` over one more index: the same answer if there was one,
/// else the new index if `bad` holds there.
pub proof fn lemma_first_where_step(n: int, bad: spec_fn(int) -> bool)
    requires
        0 <= n,
    ensures
        first_where(n + 1, bad) == match first_where(n, bad) {
            Some(k) => Some(k),
            None => if bad(n) {
                Some(n)
            } else {
                None::<int>
            },
        },
{
    lemma_first_where_spec(n, bad);
    match first_where(n, bad) {
        Some(k) => {
            lemma_first_where(n + 1, bad, k);
        },
        None => {
            if bad(n) {
                lemma_first_where(n + 1, bad, n);
            } else {
                assert forall|j: int| 0 <= j < n + 1 implies !#[trigger] bad(j) by {}
                lemma_first_where(n + 1, bad, n + 1);
            }
        },
    }
}

/// Decimal notation uses digits only, and at least one.
pub proof fn lemma_decimal_digits(n: nat)
    ensures
        decimal(n).len() >= 1,
        n < 10 <==> decimal(n).len() == 1,
        forall|i: int| 0 <= i < decimal(n).len() ==> '0' <= #[trigger] decimal(n)[i] <= '9',
    decreases n,
{
    if n >= 10 {
        lemma_decimal_digits(n / 10);
        let d = decimal(n / 10);
        assert forall|i: int| 0 <= i < decimal(n).len() implies '0' <= #[trigger] decimal(n)[i] <= '9' by {
            if i < d.len() {
                assert(decimal(n)[i] == d[i]);
            }
        }
    }
}

/// Different numbers have different decimal notations.
pub proof fn lemma_decimal_injective(n: nat, m: nat)
    requires
        decimal(n) == decimal(m),
    ensures
        n == m,
    decreases n,
{
    lemma_decimal_digits(n);
    lemma_decimal_digits(m);
    if n >= 10 && m >= 10 {
        assert(decimal(n).drop_last() == decimal(n / 10));
        assert(decimal(m).drop_last() == decimal(m / 10));
        lemma_decimal_injective(n / 10, m / 10);
        assert(decimal(n).last() == digit_char(n % 10));
        assert(decimal(m).last() == digit_char(m % 10));
    } else if n < 10 && m < 10 {
        assert(decimal(n)[0] == digit_char(n));
        assert(decimal(m)[0] == digit_char(m));
    }
}

/// Different integers have different signed decimal notations.
pub proof fn lemma_signed_decimal_injective(a: int, b: int)
    requires
        signed_decimal(a) == signed_decimal(b),
    ensures
        a == b,
{
    if a < 0 && b < 0 {
        assert(signed_decimal(a).drop_first() == decimal((-a) as nat));
        assert(signed_decimal(b).drop_first() == decimal((-b) as nat));
        lemma_decimal_injective((-a) as nat, (-b) as nat);
    } else if a >= 0 && b >= 0 {
        lemma_decimal_injective(a as nat, b as nat);
    } else if a < 0 {
        lemma_decimal_digits(b as nat);
        assert(signed_decimal(a)[0] == '-');
        assert(signed_decimal(b)[0] == decimal(b as nat)[0]);
    } else {
        lemma_decimal_digits(a as nat);
        assert(signed_decimal(b)[0] == '-');
        assert(signed_decimal(a)[0] == decimal(a as nat)[0]);
    }
}

} // verus!
