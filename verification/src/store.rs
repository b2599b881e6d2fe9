//! Done-state rules: which items are marked done, and the schema version
//! check of the database that keeps the marks.

use vstd::prelude::*;

use crate::error::Error;
use crate::text::{
    concat3, decimal, i64_text, lemma_lex_lt_irreflexive, lex_lt, signed_decimal, text_eq, text_order, TextOrder,
    u64_text,
};

verus! {

/// Kind of the marks of comment items (keyed by comment databaseId).
pub const KIND_MERGE_COMMENT: &'static str = "merge_comment";

/// Kind of the marks of pull-request items (keyed by `repo#number`, with the
/// pull request's updatedAt at marking time).
pub const KIND_PR: &'static str = "pr";

/// Kind of the marks of review requests (keyed by `repo#number`).
pub const KIND_REVIEW_REQUEST: &'static str = "review_request";

/// One done mark: a row of the `done_items` table.
#[derive(Clone, Debug, PartialEq)]
pub struct DoneRow {
    pub kind: String,
    pub key: String,
    /// For pull-request marks: the item's updatedAt when it was marked.
    pub updated_at: Option<String>,
}

/// The done marks, keyed by (kind, key). A later row for the same key
/// replaces an earlier one.
pub struct DoneTable {
    rows: Vec<DoneRow>,
}

/// Key of a row.
pub open spec fn row_key(r: DoneRow) -> (Seq<char>, Seq<char>) {
    (r.kind@, r.key@)
}

/// Recorded updatedAt of a row.
pub open spec fn row_value(r: DoneRow) -> Option<Seq<char>> {
    match r.updated_at {
        Some(u) => Some(u@),
        None => None,
    }
}

/// The marks held by a list of rows, later rows replacing earlier ones.
pub open spec fn rows_map(rows: Seq<DoneRow>) -> Map<(Seq<char>, Seq<char>), Option<Seq<char>>>
    decreases rows.len(),
{
    if rows.len() == 0 {
        Map::empty()
    } else {
        rows_map(rows.drop_last()).insert(row_key(rows.last()), row_value(rows.last()))
    }
}

/// A pull-request mark recorded at `recorded` covers an item last updated at
/// `updated_at` when `recorded >= updated_at` (ISO 8601 texts, compared
/// lexicographically).
pub open spec fn pr_mark_covers(recorded: Option<Seq<char>>, updated_at: Seq<char>) -> bool {
    match recorded {
        Some(u) => !lex_lt(u, updated_at),
        None => false,
    }
}

/// The marks after (kind, key) was marked done: a new mark with no
/// recorded time, unless there already is one.
pub open spec fn after_mark(
    m: Map<(Seq<char>, Seq<char>), Option<Seq<char>>>,
    kind: Seq<char>,
    key: Seq<char>,
) -> Map<(Seq<char>, Seq<char>), Option<Seq<char>>> {
    if m.contains_key((kind, key)) {
        m
    } else {
        m.insert((kind, key), None)
    }
}

/// The marks after the pull request `key` was marked done as of its
/// updatedAt `updated_at`: the mark is recorded, or replaced.
pub open spec fn after_mark_pr(
    m: Map<(Seq<char>, Seq<char>), Option<Seq<char>>>,
    key: Seq<char>,
    updated_at: Seq<char>,
) -> Map<(Seq<char>, Seq<char>), Option<Seq<char>>> {
    m.insert((KIND_PR@, key), Some(updated_at))
}

/// A mark reads back once written, marking again changes nothing, and no
/// other mark is touched.
pub proof fn lemma_mark_done_reads_back(
    m: Map<(Seq<char>, Seq<char>), Option<Seq<char>>>,
    kind: Seq<char>,
    key: Seq<char>,
)
    ensures
        after_mark(m, kind, key).contains_key((kind, key)),
        after_mark(after_mark(m, kind, key), kind, key) == after_mark(m, kind, key),
        forall|k: (Seq<char>, Seq<char>)|
            k != (kind, key) ==> (#[trigger] after_mark(m, kind, key).contains_key(k) == m.contains_key(k)
                && after_mark(m, kind, key)[k] == m[k]),
{
}

/// A pull-request mark covers the pull request as long as it is not updated
/// after the marked time: it is done at every updatedAt up to that time
/// and resurfaces after. Marking again replaces the time; other marks are
/// untouched.
pub proof fn lemma_pr_mark_covers_until_update(
    m: Map<(Seq<char>, Seq<char>), Option<Seq<char>>>,
    key: Seq<char>,
    marked_at: Seq<char>,
    updated_at: Seq<char>,
)
    ensures
        after_mark_pr(m, key, marked_at).contains_key((KIND_PR@, key)),
        pr_mark_covers(after_mark_pr(m, key, marked_at)[(KIND_PR@, key)], updated_at) <==> !lex_lt(
            marked_at,
            updated_at,
        ),
        pr_mark_covers(after_mark_pr(m, key, marked_at)[(KIND_PR@, key)], marked_at),
        forall|t: Seq<char>|
            after_mark_pr(after_mark_pr(m, key, t), key, marked_at) == after_mark_pr(m, key, marked_at),
        forall|k: (Seq<char>, Seq<char>)|
            k != (KIND_PR@, key) ==> (#[trigger] after_mark_pr(m, key, marked_at).contains_key(k)
                == m.contains_key(k) && after_mark_pr(m, key, marked_at)[k] == m[k]),
{
    lemma_lex_lt_irreflexive(marked_at);
    assert forall|t: Seq<char>|
        after_mark_pr(after_mark_pr(m, key, t), key, marked_at) == after_mark_pr(m, key, marked_at) by {
        assert(after_mark_pr(after_mark_pr(m, key, t), key, marked_at) =~= after_mark_pr(m, key, marked_at));
    }
}

proof fn lemma_rows_map_suffix(rows: Seq<DoneRow>, i: int, k: (Seq<char>, Seq<char>))
    requires
        0 <= i <= rows.len(),
        forall|j: int| i <= j < rows.len() ==> row_key(#[trigger] rows[j]) != k,
    ensures
        rows_map(rows).contains_key(k) == rows_map(rows.take(i)).contains_key(k),
        rows_map(rows)[k] == rows_map(rows.take(i))[k],
    decreases rows.len() - i,
{
    if i < rows.len() {
        let r = rows.drop_last();
        assert(r.take(i) =~= rows.take(i));
        lemma_rows_map_suffix(r, i, k);
    } else {
        assert(rows.take(i) =~= rows);
    }
}

impl DoneTable {
    /// The marks, as a map from (kind, key) to the recorded updatedAt.
    pub closed spec fn marks(&self) -> Map<(Seq<char>, Seq<char>), Option<Seq<char>>> {
        rows_map(self.rows@)
    }

    /// No marks.
    pub fn new() -> (t: DoneTable)
        ensures
            t.marks() == Map::<(Seq<char>, Seq<char>), Option<Seq<char>>>::empty(),
    {
        DoneTable { rows: Vec::new() }
    }

    /// The marks of rows read from the database (a later row for the same key
    /// replaces an earlier one; the database holds at most one per key).
    pub fn from_rows(rows: Vec<DoneRow>) -> (t: DoneTable)
        ensures
            t.marks() == rows_map(rows@),
    {
        DoneTable { rows }
    }

    /// Where the mark for (kind, key) is, if there is one.
    fn find(&self, kind: &str, key: &str) -> (r: Option<usize>)
        ensures
            r is None ==> !self.marks().contains_key((kind@, key@)),
            r matches Some(i) ==> i < self.rows@.len() && self.marks().contains_key((kind@, key@))
                && self.marks()[(kind@, key@)] == row_value(self.rows@[i as int]),
    {
        let ghost k = (kind@, key@);
        let mut i: usize = self.rows.len();
        while i > 0
            invariant
                i <= self.rows@.len(),
                k == (kind@, key@),
                forall|j: int| i <= j < self.rows@.len() ==> row_key(#[trigger] self.rows@[j]) != k,
            decreases i,
        {
            let row = &self.rows[i - 1];
            if text_eq(row.kind.as_str(), kind) && text_eq(row.key.as_str(), key) {
                proof {
                    assert(row_key(self.rows@[i - 1]) == k);
                    lemma_rows_map_suffix(self.rows@, i as int, k);
                    assert(self.rows@.take(i as int).drop_last() =~= self.rows@.take(i - 1));
                    assert(self.rows@.take(i as int).last() == self.rows@[i - 1]);
                }
                return Some(i - 1);
            }
            i = i - 1;
        }
        proof {
            lemma_rows_map_suffix(self.rows@, 0, k);
        }
        None
    }

    /// Whether a mark of this kind exists for this key.
    pub fn is_done(&self, kind: &str, key: &str) -> (b: bool)
        ensures
            b == self.marks().contains_key((kind@, key@)),
    {
        self.find(kind, key).is_some()
    }

    /// Marks (kind, key) done; an existing mark is left as it is.
    pub fn mark_done(&mut self, kind: &str, key: &str)
        ensures
            final(self).marks() == after_mark(old(self).marks(), kind@, key@),
    {
        if self.find(kind, key).is_none() {
            let row = DoneRow { kind: crate::text::owned(kind), key: crate::text::owned(key), updated_at: None };
            let ghost old_rows = self.rows@;
            self.rows.push(row);
            assert(self.rows@.drop_last() =~= old_rows);
        }
    }

    /// A pull-request item is done iff it has a mark whose recorded
    /// updatedAt is at or after the item's current updatedAt.
    pub fn is_done_pr(&self, key: &str, updated_at: &str) -> (b: bool)
        ensures
            b == (self.marks().contains_key((KIND_PR@, key@)) && pr_mark_covers(
                self.marks()[(KIND_PR@, key@)],
                updated_at@,
            )),
    {
        match self.find(KIND_PR, key) {
            None => false,
            Some(i) => match &self.rows[i].updated_at {
                None => false,
                Some(u) => text_order(u.as_str(), updated_at) != TextOrder::Less,
            },
        }
    }

    /// Marks a pull-request item done as of its own updatedAt (not the
    /// wall clock). Marking again after it resurfaced replaces the recorded
    /// updatedAt.
    pub fn mark_done_pr(&mut self, key: &str, updated_at: &str)
        ensures
            final(self).marks() == after_mark_pr(old(self).marks(), key@, updated_at@),
    {
        let row = DoneRow {
            kind: crate::text::owned(KIND_PR),
            key: crate::text::owned(key),
            updated_at: Some(crate::text::owned(updated_at)),
        };
        let ghost old_rows = self.rows@;
        self.rows.push(row);
        assert(self.rows@.drop_last() =~= old_rows);
    }
}

/// Message for a database whose schema is newer than this build knows.
pub open spec fn newer_schema_error(version: i64, known: usize) -> Seq<char> {
    "db schema version "@ + signed_decimal(version as int) + " is newer than this binary supports (max "@
        + decimal(known as nat) + "); update ghbox"@
}

/// Which schema migrations to apply to a database at `version` when this
/// build knows `known` of them: those from index `version` on. A database
/// newer than this build is refused (a negative version reads as a huge
/// one, as the cast to `usize` makes it).
pub fn pending_migrations(version: i64, known: usize) -> (r: Result<usize, Error>)
    ensures
        (version as usize) > known ==> (r matches Err(Error::Schema(m)) && m@ == newer_schema_error(
            version,
            known,
        )),
        (version as usize) <= known ==> r == Ok::<usize, Error>(version as usize),
{
    let v = version as usize;
    if v > known {
        let vt = i64_text(version);
        let kt = u64_text(known as u64);
        let mut m = concat3("db schema version ", vt.as_str(), " is newer than this binary supports (max ");
        m.append(kt.as_str());
        m.append("); update ghbox");
        Err(Error::Schema(m))
    } else {
        Ok(v)
    }
}

} // verus!
