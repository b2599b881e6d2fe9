//! Ordering of rows that carry a repository and timestamps: repositories
//! ascending, newest first within a repository, ties in their given order.

use vstd::prelude::*;

use crate::config::SortBy;
use crate::text::{lemma_lex_lt_irreflexive, lemma_lex_lt_total, lemma_lex_lt_transitive, lex_lt, text_order, TextOrder};

verus! {

/// A row that is ordered by its repository and a timestamp (ISO 8601 texts,
/// whose lexicographic order is chronological order); `sort` says which of
/// its timestamps.
pub trait RepoTimed: View + Sized {
    /// The repository of a row's value.
    spec fn repo_of(v: Self::V) -> Seq<char>;

    /// The timestamp of a row's value that `sort` orders by.
    spec fn time_of(v: Self::V, sort: SortBy) -> Seq<char>;

    /// The repository.
    fn repo_text(&self) -> (s: &str)
        ensures
            s@ == Self::repo_of(self@),
    ;

    /// The timestamp that `sort` orders by.
    fn time_text(&self, sort: SortBy) -> (s: &str)
        ensures
            s@ == Self::time_of(self@, sort),
    ;
}

/// `a` goes strictly before `b`: its repository sorts first, or the
/// repositories are the same and `a` is newer.
pub open spec fn newer_first<T: RepoTimed>(sort: SortBy, a: T::V, b: T::V) -> bool {
    lex_lt(T::repo_of(a), T::repo_of(b)) || (T::repo_of(a) == T::repo_of(b) && lex_lt(
        T::time_of(b, sort),
        T::time_of(a, sort),
    ))
}

/// The first position from `k` on of a value in `s` that `x` goes before,
/// or the end of `s`.
pub open spec fn slot_from<T: RepoTimed>(sort: SortBy, s: Seq<T::V>, x: T::V, k: int) -> int
    decreases s.len() - k,
{
    if k < 0 || k >= s.len() {
        s.len() as int
    } else if newer_first::<T>(sort, x, s[k]) {
        k
    } else {
        slot_from::<T>(sort, s, x, k + 1)
    }
}

/// The values in order, ties keeping their relative order.
pub open spec fn by_repo_newest<T: RepoTimed>(sort: SortBy, items: Seq<T::V>) -> Seq<T::V>
    decreases items.len(),
{
    if items.len() == 0 {
        Seq::empty()
    } else {
        let s = by_repo_newest::<T>(sort, items.drop_last());
        s.insert(slot_from::<T>(sort, s, items.last(), 0), items.last())
    }
}

/// Views of a sequence of rows.
pub open spec fn row_views<T: View>(v: Seq<T>) -> Seq<T::V> {
    v.map_values(|t: T| t@)
}

proof fn lemma_slot_from<T: RepoTimed>(sort: SortBy, s: Seq<T::V>, x: T::V, k: int)
    requires
        0 <= k <= s.len(),
    ensures
        k <= slot_from::<T>(sort, s, x, k) <= s.len(),
        slot_from::<T>(sort, s, x, k) < s.len() ==> newer_first::<T>(sort, x, s[slot_from::<T>(sort, s, x, k)]),
        forall|j: int| k <= j < slot_from::<T>(sort, s, x, k) ==> !newer_first::<T>(sort, x, #[trigger] s[j]),
    decreases s.len() - k,
{
    if k < s.len() && !newer_first::<T>(sort, x, s[k]) {
        lemma_slot_from::<T>(sort, s, x, k + 1);
    }
}

/// Whether `a` goes strictly before `b`.
pub fn goes_first<T: RepoTimed>(sort: SortBy, a: &T, b: &T) -> (r: bool)
    ensures
        r == newer_first::<T>(sort, a@, b@),
{
    match text_order(a.repo_text(), b.repo_text()) {
        TextOrder::Less => true,
        TextOrder::Greater => {
            proof {
                lemma_lex_lt_irreflexive(T::repo_of(a@));
            }
            false
        },
        TextOrder::Equal => text_order(b.time_text(sort), a.time_text(sort)) == TextOrder::Less,
    }
}

fn slot<T: RepoTimed>(sort: SortBy, rows: &Vec<T>, x: &T) -> (k: usize)
    ensures
        k <= rows.len(),
        k == slot_from::<T>(sort, row_views(rows@), x@, 0),
{
    let ghost s = row_views(rows@);
    let mut k: usize = 0;
    while k < rows.len()
        invariant
            k <= rows.len(),
            s == row_views(rows@),
            slot_from::<T>(sort, s, x@, 0) == slot_from::<T>(sort, s, x@, k as int),
        decreases rows.len() - k,
    {
        if goes_first(sort, x, &rows[k]) {
            return k;
        }
        k = k + 1;
    }
    k
}

proof fn lemma_by_repo_newest_step<T: RepoTimed>(sort: SortBy, v: Seq<T::V>, i: int)
    requires
        0 <= i < v.len(),
    ensures
        by_repo_newest::<T>(sort, v.take(i + 1)) == by_repo_newest::<T>(sort, v.take(i)).insert(
            slot_from::<T>(sort, by_repo_newest::<T>(sort, v.take(i)), v[i], 0),
            v[i],
        ),
{
    let t = v.take(i + 1);
    assert(t.drop_last() =~= v.take(i));
    assert(t.last() == v[i]);
}

/// Rows in order: repositories ascending, newest first within a
/// repository; rows that tie keep their order.
pub fn sort_by_repo_newest<T: RepoTimed>(items: Vec<T>, sort: SortBy) -> (out: Vec<T>)
    ensures
        row_views(out@) == by_repo_newest::<T>(sort, row_views(items@)),
{
    let ghost all = row_views(items@);
    assert(all.len() == items.len());
    let mut rest = items;
    let mut out: Vec<T> = Vec::new();
    let mut i: usize = 0;
    while rest.len() > 0
        invariant
            i <= all.len(),
            all.len() <= usize::MAX,
            rest@.len() + i == all.len(),
            row_views(rest@) == all.skip(i as int),
            row_views(out@) == by_repo_newest::<T>(sort, all.take(i as int)),
        decreases rest.len(),
    {
        let ghost before = row_views(out@);
        let ghost old_rest = row_views(rest@);
        let ghost old_exec = rest@;
        let x = rest.remove(0);
        assert(old_rest[0] == x@);
        assert(all.skip(i as int)[0] == all[i as int]);
        let k = slot(sort, &out, &x);
        out.insert(k, x);
        proof {
            lemma_by_repo_newest_step::<T>(sort, all, i as int);
            assert(row_views(out@) =~= before.insert(k as int, all[i as int]));
            assert(rest@ == old_exec.remove(0));
            assert(row_views(rest@) =~= old_rest.skip(1));
            assert(old_rest.skip(1) =~= all.skip(i + 1));
        }
        i = i + 1;
    }
    assert(all.take(i as int) =~= all);
    out
}

proof fn lemma_newer_first_transitive<T: RepoTimed>(sort: SortBy, a: T::V, b: T::V, c: T::V)
    requires
        newer_first::<T>(sort, a, b),
        newer_first::<T>(sort, b, c),
    ensures
        newer_first::<T>(sort, a, c),
{
    lemma_lex_lt_irreflexive(T::repo_of(a));
    lemma_lex_lt_irreflexive(T::repo_of(b));
    if lex_lt(T::repo_of(a), T::repo_of(b)) && lex_lt(T::repo_of(b), T::repo_of(c)) {
        lemma_lex_lt_transitive(T::repo_of(a), T::repo_of(b), T::repo_of(c));
    }
    if T::repo_of(a) == T::repo_of(b) && T::repo_of(b) == T::repo_of(c) {
        lemma_lex_lt_transitive(T::time_of(c, sort), T::time_of(b, sort), T::time_of(a, sort));
    }
}

/// Rows come out in order: no row goes strictly before a row above it.
pub proof fn lemma_by_repo_newest_sorted<T: RepoTimed>(sort: SortBy, items: Seq<T::V>)
    ensures
        forall|i: int, j: int|
            0 <= i < j < by_repo_newest::<T>(sort, items).len() ==> !newer_first::<T>(sort, 
                #[trigger] by_repo_newest::<T>(sort, items)[j],
                #[trigger] by_repo_newest::<T>(sort, items)[i],
            ),
    decreases items.len(),
{
    if items.len() > 0 {
        let s = by_repo_newest::<T>(sort, items.drop_last());
        lemma_by_repo_newest_sorted::<T>(sort, items.drop_last());
        let x = items.last();
        let k = slot_from::<T>(sort, s, x, 0);
        lemma_slot_from::<T>(sort, s, x, 0);
        let t = s.insert(k, x);
        assert(t == by_repo_newest::<T>(sort, items));
        assert forall|i: int, j: int| 0 <= i < j < t.len() implies !newer_first::<T>(sort, 
            #[trigger] t[j],
            #[trigger] t[i],
        ) by {
            if j < k {
                assert(t[i] == s[i] && t[j] == s[j]);
            } else if j == k {
                assert(t[j] == x && t[i] == s[i]);
            } else if i == k {
                assert(t[i] == x && t[j] == s[j - 1]);
                if newer_first::<T>(sort, s[j - 1], x) {
                    lemma_newer_first_transitive::<T>(sort, s[j - 1], x, s[k]);
                    if k == j - 1 {
                        lemma_lex_lt_irreflexive(T::repo_of(s[k]));
                        lemma_lex_lt_irreflexive(T::time_of(s[k], sort));
                    }
                }
            } else if i < k {
                assert(t[i] == s[i] && t[j] == s[j - 1]);
            } else {
                assert(t[i] == s[i - 1] && t[j] == s[j - 1]);
            }
        }
    }
}

/// Ordering neither drops nor adds a row.
pub proof fn lemma_by_repo_newest_permutation<T: RepoTimed>(sort: SortBy, items: Seq<T::V>)
    ensures
        by_repo_newest::<T>(sort, items).to_multiset() == items.to_multiset(),
        by_repo_newest::<T>(sort, items).len() == items.len(),
    decreases items.len(),
{
    if items.len() > 0 {
        let s = by_repo_newest::<T>(sort, items.drop_last());
        lemma_by_repo_newest_permutation::<T>(sort, items.drop_last());
        let x = items.last();
        let k = slot_from::<T>(sort, s, x, 0);
        lemma_slot_from::<T>(sort, s, x, 0);
        vstd::seq_lib::to_multiset_insert(s, k, x);
        assert(items =~= items.drop_last().push(x));
        vstd::seq_lib::to_multiset_build(items.drop_last(), x);
        assert(by_repo_newest::<T>(sort, items) == s.insert(k, x));
        assert(by_repo_newest::<T>(sort, items).to_multiset() == s.to_multiset().insert(x));
        assert(items.to_multiset() == items.drop_last().to_multiset().insert(x));
    } else {
        assert(items =~= by_repo_newest::<T>(sort, items));
    }
}

proof fn lemma_filter_none<A>(s: Seq<A>, p: spec_fn(A) -> bool)
    requires
        forall|j: int| 0 <= j < s.len() ==> !p(#[trigger] s[j]),
    ensures
        s.filter(p) == Seq::<A>::empty(),
    decreases s.len(),
{
    if s.len() > 0 {
        let init = s.drop_last();
        lemma_filter_none(init, p);
        assert(s =~= init.push(s.last()));
        init.lemma_filter_push(s.last(), p);
    } else {
        reveal(Seq::filter);
    }
}

/// Rows that tie with `x`: neither goes before the other.
pub open spec fn ties_with<T: RepoTimed>(sort: SortBy, x: T::V) -> spec_fn(T::V) -> bool {
    |y: T::V| !newer_first::<T>(sort, x, y) && !newer_first::<T>(sort, y, x)
}

/// Not going before is transitive: if `a` does not go before `b` and `b`
/// does not go before `c`, then `a` does not go before `c`.
proof fn lemma_not_first_transitive<T: RepoTimed>(sort: SortBy, a: T::V, b: T::V, c: T::V)
    requires
        !newer_first::<T>(sort, a, b),
        !newer_first::<T>(sort, b, c),
    ensures
        !newer_first::<T>(sort, a, c),
{
    let (ra, rb, rc) = (T::repo_of(a), T::repo_of(b), T::repo_of(c));
    let (ta, tb, tc) = (T::time_of(a, sort), T::time_of(b, sort), T::time_of(c, sort));
    lemma_lex_lt_total(ra, rb);
    lemma_lex_lt_total(rb, rc);
    lemma_lex_lt_total(ta, tb);
    lemma_lex_lt_total(tb, tc);
    lemma_lex_lt_irreflexive(ra);
    lemma_lex_lt_irreflexive(rb);
    lemma_lex_lt_irreflexive(tb);
    if newer_first::<T>(sort, a, c) {
        if lex_lt(ra, rc) {
            // b's repository sorts at or after a's, c's at or after b's
            if lex_lt(rb, ra) {
                lemma_lex_lt_transitive(rb, ra, rc);
            }
            if lex_lt(rc, rb) {
                if lex_lt(rb, ra) {
                    lemma_lex_lt_transitive(rc, rb, ra);
                } else {
                    lemma_lex_lt_transitive(ra, rc, rb);
                }
            }
        } else {
            // same repository, a newer than c
            if lex_lt(rb, ra) {
                lemma_lex_lt_transitive(rb, ra, rc);
            }
            if lex_lt(ra, rb) {
                lemma_lex_lt_transitive(rc, ra, rb);
            }
            if ra == rb {
                if lex_lt(ta, tb) {
                    lemma_lex_lt_transitive(tc, ta, tb);
                }
                if lex_lt(tc, tb) {
                    lemma_lex_lt_transitive(tc, tb, ta);
                }
            }
        }
    }
}

/// Ordering keeps rows that tie in their given order: the rows tied with
/// any `x` come out as they went in.
pub proof fn lemma_by_repo_newest_stable<T: RepoTimed>(sort: SortBy, items: Seq<T::V>, x: T::V)
    ensures
        by_repo_newest::<T>(sort, items).filter(ties_with::<T>(sort, x)) == items.filter(ties_with::<T>(sort, x)),
    decreases items.len(),
{
    let tie = ties_with::<T>(sort, x);
    if items.len() == 0 {
        assert(by_repo_newest::<T>(sort, items) =~= items);
    } else {
        let init = items.drop_last();
        let v = items.last();
        let s = by_repo_newest::<T>(sort, init);
        lemma_by_repo_newest_stable::<T>(sort, init, x);
        lemma_by_repo_newest_sorted::<T>(sort, init);
        lemma_by_repo_newest_permutation::<T>(sort, init);
        let k = slot_from::<T>(sort, s, v, 0);
        lemma_slot_from::<T>(sort, s, v, 0);
        let t = s.insert(k, v);
        assert(t == by_repo_newest::<T>(sort, items));
        let pre = s.take(k);
        let post = s.skip(k);
        assert(s =~= pre + post);
        assert(t =~= pre.push(v) + post);
        Seq::filter_distributes_over_add(pre, post, tie);
        Seq::filter_distributes_over_add(pre.push(v), post, tie);
        pre.lemma_filter_push(v, tie);
        assert(items =~= init.push(v));
        init.lemma_filter_push(v, tie);
        if tie(v) {
            assert forall|j: int| 0 <= j < post.len() implies !tie(#[trigger] post[j]) by {
                let y = post[j];
                assert(y == s[k + j]);
                // v goes before s[k], and s[k] does not go before y
                if j > 0 {
                    assert(!newer_first::<T>(sort, s[k + j], s[k]));
                    if !newer_first::<T>(sort, v, y) {
                        lemma_not_first_transitive::<T>(sort, v, y, s[k]);
                    }
                }
                // x ties with v, and v goes before y
                if !newer_first::<T>(sort, x, y) {
                    lemma_not_first_transitive::<T>(sort, v, x, y);
                }
            }
            lemma_filter_none(post, tie);
        }
    }
}

} // verus!
