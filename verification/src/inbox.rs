//! What a section shows: its filter applied, done items left out, rows in
//! order.

use vstd::prelude::*;

use crate::config::{
    FilterModel, Section, SectionFilter, SectionModel, SortBy, section_views,
};
use crate::error::Error;
use crate::filter::{CommentFilter, CommentFilterModel, filter_error, filter_model, is_merge_request_spec};
use crate::github::{Fetched, Parsed, PrData, PrDataModel, pr_views};
use crate::item::{CommentModel, Item, ItemModel, pr_key_text};
use crate::store::{DoneTable, KIND_MERGE_COMMENT, KIND_PR, KIND_REVIEW_REQUEST, pr_mark_covers};
use crate::text::{
    concat3, first_where, i64_text, lemma_first_where, lemma_lex_lt_irreflexive, lex_lt, signed_decimal, text_eq, views,
};
use crate::order::{by_repo_newest, newer_first, row_views, sort_by_repo_newest, RepoTimed};
use crate::types::{MergeRequest, MergeRequestModel, ReviewRequest, ReviewRequestModel};

verus! {

/// Views of a sequence of items.
pub open spec fn item_views(v: Seq<Item>) -> Seq<ItemModel> {
    row_views(v)
}

/// The row for a pull request.
pub open spec fn pr_item_model(p: PrDataModel) -> ItemModel {
    ItemModel {
        repo: p.repo,
        pr_number: p.pr_number,
        pr_title: p.pr_title,
        pr_url: p.pr_url,
        pr_author: p.pr_author,
        pr_updated_at: p.pr_updated_at,
        pr_created_at: p.pr_created_at,
        state: p.state,
        comment: None,
    }
}

/// The row for one comment on a pull request.
pub open spec fn comment_item_model(p: PrDataModel, c: CommentModel) -> ItemModel {
    ItemModel { comment: Some(c), ..pr_item_model(p) }
}

/// A comment is a request to the viewer: not the viewer's own, and a merge
/// request under the filter.
pub open spec fn comment_counts(f: CommentFilterModel, viewer: Seq<char>, c: CommentModel) -> bool {
    c.author != viewer && is_merge_request_spec(f, c.body)
}

/// The rows for the requesting comments of one pull request, in order.
pub open spec fn comment_rows(
    p: PrDataModel,
    cs: Seq<CommentModel>,
    f: CommentFilterModel,
    viewer: Seq<char>,
) -> Seq<ItemModel>
    decreases cs.len(),
{
    if cs.len() == 0 {
        Seq::empty()
    } else {
        let rest = comment_rows(p, cs.drop_last(), f, viewer);
        if comment_counts(f, viewer, cs.last()) {
            rest.push(comment_item_model(p, cs.last()))
        } else {
            rest
        }
    }
}

/// The rows for the requesting comments of a list of pull requests, in
/// order.
pub open spec fn comment_items_of(prs: Seq<PrDataModel>, f: CommentFilterModel, viewer: Seq<char>) -> Seq<
    ItemModel,
>
    decreases prs.len(),
{
    if prs.len() == 0 {
        Seq::empty()
    } else {
        comment_items_of(prs.drop_last(), f, viewer) + comment_rows(
            prs.last(),
            prs.last().comments,
            f,
            viewer,
        )
    }
}

/// Every comment row is a request to the viewer: a comment of that pull
/// request, not by the viewer, that mentions the viewer and asks to merge.
pub proof fn lemma_comment_rows_are_requests(
    prs: Seq<PrDataModel>,
    f: CommentFilterModel,
    viewer: Seq<char>,
)
    ensures
        forall|r: int|
            0 <= r < comment_items_of(prs, f, viewer).len() ==> {
                let row = #[trigger] comment_items_of(prs, f, viewer)[r];
                &&& row.comment matches Some(c)
                &&& c.author != viewer
                &&& is_merge_request_spec(f, c.body)
                &&& exists|p: int| 0 <= p < prs.len() && row == comment_item_model(prs[p], c)
            },
    decreases prs.len(),
{
    if prs.len() > 0 {
        let init = prs.drop_last();
        lemma_comment_rows_are_requests(init, f, viewer);
        let last = prs.last();
        lemma_comment_rows_of_one(last, last.comments, f, viewer);
        let head = comment_items_of(init, f, viewer);
        let tail = comment_rows(last, last.comments, f, viewer);
        assert forall|r: int| 0 <= r < comment_items_of(prs, f, viewer).len() implies {
            let row = #[trigger] comment_items_of(prs, f, viewer)[r];
            &&& row.comment matches Some(c)
            &&& c.author != viewer
            &&& is_merge_request_spec(f, c.body)
            &&& exists|p: int| 0 <= p < prs.len() && row == comment_item_model(prs[p], c)
        } by {
            if r < head.len() {
                let row = head[r];
                assert(comment_items_of(prs, f, viewer)[r] == row);
                let c = row.comment->Some_0;
                let p = choose|p: int| 0 <= p < init.len() && row == comment_item_model(init[p], c);
                assert(prs[p] == init[p]);
            } else {
                let row = tail[r - head.len()];
                assert(comment_items_of(prs, f, viewer)[r] == row);
                let c = row.comment->Some_0;
                assert(prs[prs.len() - 1] == last);
                assert(row == comment_item_model(prs[prs.len() - 1], c));
            }
        }
    }
}

proof fn lemma_comment_rows_of_one(p: PrDataModel, cs: Seq<CommentModel>, f: CommentFilterModel, viewer: Seq<char>)
    ensures
        forall|r: int|
            0 <= r < comment_rows(p, cs, f, viewer).len() ==> {
                let row = #[trigger] comment_rows(p, cs, f, viewer)[r];
                &&& row.comment matches Some(c)
                &&& c.author != viewer
                &&& is_merge_request_spec(f, c.body)
                &&& row == comment_item_model(p, c)
            },
    decreases cs.len(),
{
    if cs.len() > 0 {
        lemma_comment_rows_of_one(p, cs.drop_last(), f, viewer);
    }
}

/// The row for a pull request.
pub fn pr_item(pr: &PrData) -> (i: Item)
    ensures
        i@ == pr_item_model(pr@),
{
    Item {
        repo: pr.repo.clone(),
        pr_number: pr.pr_number,
        pr_title: pr.pr_title.clone(),
        pr_url: pr.pr_url.clone(),
        pr_author: pr.pr_author.clone(),
        pr_updated_at: pr.pr_updated_at.clone(),
        pr_created_at: pr.pr_created_at.clone(),
        state: pr.state,
        comment: None,
    }
}

/// The rows for a list of pull requests.
pub fn pr_items(prs: &Vec<PrData>) -> (out: Vec<Item>)
    ensures
        item_views(out@) == pr_views(prs@).map_values(|p: PrDataModel| pr_item_model(p)),
{
    let mut out: Vec<Item> = Vec::new();
    let mut i: usize = 0;
    while i < prs.len()
        invariant
            i <= prs.len(),
            item_views(out@) == pr_views(prs@).take(i as int).map_values(|p: PrDataModel| pr_item_model(p)),
        decreases prs.len() - i,
    {
        let ghost old_out = out@;
        let item = pr_item(&prs[i]);
        out.push(item);
        assert(item_views(out@) =~= item_views(old_out).push(pr_item_model(pr_views(prs@)[i as int])));
        assert(pr_views(prs@).take(i + 1) =~= pr_views(prs@).take(i as int).push(pr_views(prs@)[i as int]));
        i = i + 1;
        assert(item_views(out@) =~= pr_views(prs@).take(i as int).map_values(|p: PrDataModel| pr_item_model(p)));
    }
    assert(pr_views(prs@).take(prs.len() as int) =~= pr_views(prs@));
    out
}

/// One row per comment that is a request to the viewer: the viewer's own
/// comments are not requests, and the body must mention the viewer and ask
/// to merge.
pub fn comment_items(prs: &Vec<PrData>, filter: &CommentFilter, viewer: &str) -> (out: Vec<Item>)
    ensures
        item_views(out@) == comment_items_of(pr_views(prs@), filter@, viewer@),
{
    let mut out: Vec<Item> = Vec::new();
    let mut i: usize = 0;
    while i < prs.len()
        invariant
            i <= prs.len(),
            item_views(out@) == comment_items_of(pr_views(prs@).take(i as int), filter@, viewer@),
        decreases prs.len() - i,
    {
        let pr = &prs[i];
        let ghost before = item_views(out@);
        let mut j: usize = 0;
        while j < pr.comments.len()
            invariant
                j <= pr.comments.len(),
                item_views(out@) == before + comment_rows(pr@, pr@.comments.take(j as int), filter@, viewer@),
            decreases pr.comments.len() - j,
        {
            let c = &pr.comments[j];
            assert(pr@.comments.take(j + 1).drop_last() =~= pr@.comments.take(j as int));
            assert(pr@.comments[j as int] == c@);
            let ghost old_out = item_views(out@);
            if !text_eq(c.author.as_str(), viewer) && filter.is_merge_request(c.body.as_str()) {
                let mut item = pr_item(pr);
                item.comment = Some(c.duplicate());
                assert(item@ == comment_item_model(pr@, c@));
                out.push(item);
                assert(item_views(out@) =~= old_out.push(item@));
            }
            j = j + 1;
            assert(item_views(out@) =~= before + comment_rows(pr@, pr@.comments.take(j as int), filter@, viewer@));
        }
        assert(pr@.comments.take(pr.comments.len() as int) =~= pr@.comments);
        assert(pr_views(prs@).take(i + 1).drop_last() =~= pr_views(prs@).take(i as int));
        i = i + 1;
    }
    assert(pr_views(prs@).take(prs.len() as int) =~= pr_views(prs@));
    out
}

/// Whether the done marks cover an item: comment items by their comment's
/// databaseId, pull-request items by a mark recorded at or after their last
/// update.
pub open spec fn item_done(marks: Map<(Seq<char>, Seq<char>), Option<Seq<char>>>, i: ItemModel) -> bool {
    match i.comment {
        Some(c) => marks.contains_key((KIND_MERGE_COMMENT@, signed_decimal(c.id))),
        None => marks.contains_key((KIND_PR@, i.pr_key())) && pr_mark_covers(
            marks[(KIND_PR@, i.pr_key())],
            i.pr_updated_at,
        ),
    }
}

/// The items that are not done, in order.
pub open spec fn not_done(marks: Map<(Seq<char>, Seq<char>), Option<Seq<char>>>, items: Seq<ItemModel>) -> Seq<
    ItemModel,
>
    decreases items.len(),
{
    if items.len() == 0 {
        Seq::empty()
    } else {
        let rest = not_done(marks, items.drop_last());
        if item_done(marks, items.last()) {
            rest
        } else {
            rest.push(items.last())
        }
    }
}

/// Rows the marks do not cover.
pub open spec fn undone(marks: Map<(Seq<char>, Seq<char>), Option<Seq<char>>>) -> spec_fn(ItemModel) -> bool {
    |i: ItemModel| !item_done(marks, i)
}

/// A section shows exactly the rows that are not done, in their order.
pub proof fn lemma_not_done_keeps_undone(marks: Map<(Seq<char>, Seq<char>), Option<Seq<char>>>, items: Seq<ItemModel>)
    ensures
        not_done(marks, items) == items.filter(undone(marks)),
    decreases items.len(),
{
    reveal(Seq::filter);
    if items.len() > 0 {
        lemma_not_done_keeps_undone(marks, items.drop_last());
    }
}

/// Whether the done marks cover `item`.
pub fn is_item_done(item: &Item, done: &DoneTable) -> (b: bool)
    ensures
        b == item_done(done.marks(), item@),
{
    match &item.comment {
        Some(c) => {
            let id = i64_text(c.id);
            done.is_done(KIND_MERGE_COMMENT, id.as_str())
        },
        None => {
            let key = item.pr_key();
            done.is_done_pr(key.as_str(), item.pr_updated_at.as_str())
        },
    }
}

/// Leaves out the items that are done, keeping the order of the rest.
pub fn exclude_done(items: Vec<Item>, done: &DoneTable) -> (kept: Vec<Item>)
    ensures
        item_views(kept@) == not_done(done.marks(), item_views(items@)),
{
    let mut kept: Vec<Item> = Vec::new();
    let mut i: usize = 0;
    while i < items.len()
        invariant
            i <= items.len(),
            item_views(kept@) == not_done(done.marks(), item_views(items@).take(i as int)),
        decreases items.len() - i,
    {
        assert(item_views(items@).take(i + 1).drop_last() =~= item_views(items@).take(i as int));
        let ghost old_kept = item_views(kept@);
        if !is_item_done(&items[i], done) {
            kept.push(items[i].duplicate());
            assert(item_views(kept@) =~= old_kept.push(items@[i as int]@));
        }
        i = i + 1;
    }
    assert(item_views(items@).take(items.len() as int) =~= item_views(items@));
    kept
}

/// The time a section sorts its rows by: the pull request's last update, or
/// with `Created` the comment's creation for comment rows and the pull
/// request's creation otherwise.
pub open spec fn row_time(sort: SortBy, i: ItemModel) -> Seq<char> {
    match sort {
        SortBy::Updated => i.pr_updated_at,
        SortBy::Created => match i.comment {
            Some(c) => c.created_at,
            None => i.pr_created_at,
        },
    }
}

impl RepoTimed for Item {
    open spec fn repo_of(v: ItemModel) -> Seq<char> {
        v.repo
    }

    open spec fn time_of(v: ItemModel, sort: SortBy) -> Seq<char> {
        row_time(sort, v)
    }

    fn repo_text(&self) -> (s: &str) {
        self.repo.as_str()
    }

    fn time_text(&self, sort: SortBy) -> (s: &str) {
        match sort {
            SortBy::Updated => self.pr_updated_at.as_str(),
            SortBy::Created => match &self.comment {
                Some(c) => c.created_at.as_str(),
                None => self.pr_created_at.as_str(),
            },
        }
    }
}

/// The rows in section order: repositories ascending, newest first within a
/// repository, rows that tie in their given order.
pub open spec fn sort_rows(sort: SortBy, items: Seq<ItemModel>) -> Seq<ItemModel> {
    by_repo_newest::<Item>(sort, items)
}

/// A section never shows a row that is done: every row it shows is one of
/// its candidates that the marks do not cover.
pub proof fn lemma_shown_rows_not_done(
    s: SectionModel,
    rows: Seq<ItemModel>,
    marks: Map<(Seq<char>, Seq<char>), Option<Seq<char>>>,
)
    ensures
        forall|i: int|
            0 <= i < shown_rows(s, rows, marks).len() ==> !item_done(marks, #[trigger] shown_rows(s, rows, marks)[i])
                && rows.contains(shown_rows(s, rows, marks)[i]),
{
    let nd = not_done(marks, rows);
    let shown = shown_rows(s, rows, marks);
    crate::order::lemma_by_repo_newest_permutation::<Item>(s.sort, nd);
    lemma_not_done_keeps_undone(marks, rows);
    assert forall|i: int| 0 <= i < shown.len() implies !item_done(marks, #[trigger] shown[i]) && rows.contains(
        shown[i],
    ) by {
        let r = shown[i];
        assert(shown.contains(r));
        vstd::seq_lib::to_multiset_contains(shown, r);
        vstd::seq_lib::to_multiset_contains(nd, r);
        let j = choose|j: int| 0 <= j < nd.len() && nd[j] == r;
        rows.lemma_filter_pred(undone(marks), j);
        rows.lemma_filter_contains_rev(undone(marks), r);
    }
}

/// Rows in section order: repositories ascending, newest first within a
/// repository; rows that tie keep their order.
pub fn sort_items(items: Vec<Item>, sort: SortBy) -> (out: Vec<Item>)
    ensures
        item_views(out@) == sort_rows(sort, item_views(items@)),
{
    sort_by_repo_newest(items, sort)
}

/// One section's rows, ready for display.
#[derive(Clone, Debug)]
pub struct SectionData {
    pub title: String,
    pub items: Vec<Item>,
}

/// Mathematical value of a [`SectionData`].
pub struct SectionDataModel {
    pub title: Seq<char>,
    pub items: Seq<ItemModel>,
}

impl View for SectionData {
    type V = SectionDataModel;

    open spec fn view(&self) -> SectionDataModel {
        SectionDataModel { title: self.title@, items: item_views(self.items@) }
    }
}

/// Per-section result: `Err` carries a status-bar message and means the
/// view keeps showing the section's previous rows (an empty section would
/// falsely read as "all clear").
pub type SectionResult = Result<SectionData, String>;

/// Mathematical value of a [`SectionResult`].
pub open spec fn section_result_view(r: SectionResult) -> Result<SectionDataModel, Seq<char>> {
    match r {
        Ok(d) => Ok(d@),
        Err(m) => Err(m@),
    }
}

/// What a section's command filter gave: the ids it printed, or the text of
/// its failure.
pub open spec fn outcome_view(o: Option<Result<Vec<String>, String>>) -> Option<Result<Seq<Seq<char>>, Seq<char>>> {
    match o {
        Some(Ok(keep)) => Some(Ok(views(keep@))),
        Some(Err(m)) => Some(Err(m@)),
        None => None,
    }
}

/// Why the comment filter of a comment-mention section cannot be made.
pub open spec fn mention_error(s: SectionModel, viewer: Seq<char>) -> Option<Seq<char>> {
    match s.filter {
        FilterModel::CommentMention { extra_patterns } => filter_error(viewer, extra_patterns),
        _ => None,
    }
}

/// Sections whose comment filter cannot be made.
pub open spec fn mention_fails(secs: Seq<SectionModel>, viewer: Seq<char>) -> spec_fn(int) -> bool {
    |i: int| mention_error(secs[i], viewer) is Some
}

/// A section's rows before the done marks: one per pull request, or with the
/// comment-mention filter one per requesting comment.
pub open spec fn candidate_rows(f: FilterModel, prs: Seq<PrDataModel>, viewer: Seq<char>) -> Seq<ItemModel> {
    match f {
        FilterModel::CommentMention { extra_patterns } => comment_items_of(
            prs,
            filter_model(viewer, extra_patterns),
            viewer,
        ),
        _ => prs.map_values(|p: PrDataModel| pr_item_model(p)),
    }
}

/// Rows whose stable id a command filter printed.
pub open spec fn is_listed(keep: Seq<Seq<char>>) -> spec_fn(ItemModel) -> bool {
    |i: ItemModel| keep.contains(i.stable_id())
}

/// The rows a section shows of its candidates: those not done, in section
/// order.
pub open spec fn shown_rows(s: SectionModel, rows: Seq<ItemModel>, marks: Map<(Seq<char>, Seq<char>), Option<Seq<char>>>) -> Seq<ItemModel> {
    sort_rows(s.sort, not_done(marks, rows))
}

/// What one section shows: its candidates, narrowed by the command filter's
/// ids for a command section (whose failure is reported under the
/// section's title instead), without the done rows, in section order.
pub open spec fn section_result(
    s: SectionModel,
    prs: Seq<PrDataModel>,
    viewer: Seq<char>,
    marks: Map<(Seq<char>, Seq<char>), Option<Seq<char>>>,
    outcome: Option<Result<Seq<Seq<char>>, Seq<char>>>,
) -> Result<SectionDataModel, Seq<char>> {
    let rows = candidate_rows(s.filter, prs, viewer);
    match (s.filter, outcome) {
        (FilterModel::Command { .. }, Some(Err(m))) => Err(s.title + ": "@ + m),
        (FilterModel::Command { .. }, Some(Ok(keep))) => Ok(
            SectionDataModel { title: s.title, items: shown_rows(s, rows.filter(is_listed(keep)), marks) },
        ),
        _ => Ok(SectionDataModel { title: s.title, items: shown_rows(s, rows, marks) }),
    }
}

/// Whether `s` is one of the texts in `v`.
pub fn contains_text(v: &Vec<String>, s: &str) -> (b: bool)
    ensures
        b == views(v@).contains(s@),
{
    let mut i: usize = 0;
    while i < v.len()
        invariant
            i <= v.len(),
            forall|k: int| 0 <= k < i ==> v@[k]@ != s@,
        decreases v.len() - i,
    {
        if text_eq(v[i].as_str(), s) {
            assert(views(v@)[i as int] == s@);
            return true;
        }
        i = i + 1;
    }
    assert forall|k: int| 0 <= k < views(v@).len() implies views(v@)[k] != s@ by {
        assert(views(v@)[k] == v@[k]@);
    }
    false
}

/// Keeps the rows whose stable id is listed, in order.
pub fn retain_listed(items: Vec<Item>, keep: &Vec<String>) -> (out: Vec<Item>)
    ensures
        item_views(out@) == item_views(items@).filter(is_listed(views(keep@))),
{
    let ghost f = is_listed(views(keep@));
    let mut out: Vec<Item> = Vec::new();
    let mut i: usize = 0;
    while i < items.len()
        invariant
            i <= items.len(),
            f == is_listed(views(keep@)),
            item_views(out@) == item_views(items@).take(i as int).filter(f),
        decreases items.len() - i,
    {
        let ghost old_out = item_views(out@);
        let id = items[i].stable_id();
        proof {
            let t = item_views(items@).take(i + 1);
            assert(t.drop_last() =~= item_views(items@).take(i as int));
            assert(t.last() == items@[i as int]@);
        }
        if contains_text(keep, id.as_str()) {
            out.push(items[i].duplicate());
            assert(item_views(out@) =~= old_out.push(items@[i as int]@));
        }
        proof {
            reveal(Seq::filter);
        }
        i = i + 1;
    }
    assert(item_views(items@).take(items.len() as int) =~= item_views(items@));
    out
}

/// The rows of one section: filter, then done marks, then order. A
/// comment-mention section whose filter cannot be made fails with the
/// config error; a failed command filter yields the section's `Err` entry.
pub fn build_section(
    section: &Section,
    prs: &Vec<PrData>,
    viewer: &str,
    done: &DoneTable,
    outcome: &Option<Result<Vec<String>, String>>,
) -> (r: Result<SectionResult, Error>)
    requires
        section.filter is Command ==> outcome is Some,
    ensures
        match mention_error(section@, viewer@) {
            Some(m) => r matches Err(Error::Config(e)) && e@ == m,
            None => r matches Ok(x) && section_result_view(x) == section_result(
                section@,
                pr_views(prs@),
                viewer@,
                done.marks(),
                outcome_view(*outcome),
            ),
        },
{
    let rows = match &section.filter {
        SectionFilter::Unfiltered => pr_items(prs),
        SectionFilter::CommentMention { extra_patterns } => {
            let filter = match CommentFilter::new(viewer, extra_patterns.as_slice()) {
                Ok(f) => f,
                Err(e) => {
                    return Err(e);
                },
            };
            comment_items(prs, &filter, viewer)
        },
        SectionFilter::Command { command: _ } => {
            let candidates = pr_items(prs);
            match outcome {
                Some(Ok(keep)) => retain_listed(candidates, keep),
                Some(Err(m)) => {
                    let msg = concat3(section.title.as_str(), ": ", m.as_str());
                    return Ok(Err(msg));
                },
                None => candidates,
            }
        },
    };
    let kept = exclude_done(rows, done);
    let items = sort_items(kept, section.sort);
    Ok(Ok(SectionData { title: section.title.clone(), items }))
}

/// filter, then done marks, then order, for each section with the fetched
/// pull requests at the same position (as far as both go). The outcome of
/// each command section's filter is handed in at the section's position.
/// The first comment-mention section whose filter cannot be made fails the
/// whole build with its config error.
pub fn build_sections(
    sections: &[Section],
    fetched: &Fetched,
    done: &DoneTable,
    outcomes: &[Option<Result<Vec<String>, String>>],
) -> (r: Result<Vec<SectionResult>, Error>)
    requires
        forall|i: int|
            0 <= i < sections@.len() && i < fetched.sections@.len() && (#[trigger] sections@[i]).filter is Command
                ==> i < outcomes@.len() && outcomes@[i] is Some,
    ensures
        ({
            let n = if sections@.len() < fetched.sections@.len() {
                sections@.len() as int
            } else {
                fetched.sections@.len() as int
            };
            let secs = section_views(sections@);
            match first_where(n, mention_fails(secs, fetched.viewer_login@)) {
                Some(i) => r matches Err(Error::Config(e)) && Some(e@) == mention_error(secs[i], fetched.viewer_login@),
                None => r matches Ok(v) && v@.len() == n && forall|j: int|
                    0 <= j < n ==> section_result_view(#[trigger] v@[j]) == section_result(
                        secs[j],
                        pr_views(fetched.sections@[j]@),
                        fetched.viewer_login@,
                        done.marks(),
                        outcome_view(outcomes@[j]),
                    ),
            }
        }),
{
    let n: usize = if sections.len() < fetched.sections.len() {
        sections.len()
    } else {
        fetched.sections.len()
    };
    let ghost secs = section_views(sections@);
    let ghost bad = mention_fails(secs, fetched.viewer_login@);
    let mut out: Vec<SectionResult> = Vec::new();
    let mut i: usize = 0;
    while i < n
        invariant
            i <= n,
            n <= sections@.len(),
            n <= fetched.sections@.len(),
            n == sections@.len() || n == fetched.sections@.len(),
            secs == section_views(sections@),
            bad == mention_fails(secs, fetched.viewer_login@),
            forall|k: int| 0 <= k < i ==> !#[trigger] bad(k),
            out@.len() == i,
            forall|k: int|
                0 <= k < sections@.len() && k < fetched.sections@.len() && (#[trigger] sections@[k]).filter is Command
                    ==> k < outcomes@.len() && outcomes@[k] is Some,
            forall|j: int|
                0 <= j < i ==> section_result_view(#[trigger] out@[j]) == section_result(
                    secs[j],
                    pr_views(fetched.sections@[j]@),
                    fetched.viewer_login@,
                    done.marks(),
                    outcome_view(outcomes@[j]),
                ),
        decreases n - i,
    {
        let none: Option<Result<Vec<String>, String>> = None;
        let outcome = if i < outcomes.len() {
            &outcomes[i]
        } else {
            &none
        };
        assert(secs[i as int] == sections@[i as int]@);
        match build_section(&sections[i], &fetched.sections[i], fetched.viewer_login.as_str(), done, outcome) {
            Ok(x) => {
                out.push(x);
            },
            Err(e) => {
                proof {
                    assert(bad(i as int));
                    lemma_first_where(n as int, bad, i as int);
                }
                return Err(e);
            },
        }
        i = i + 1;
    }
    proof {
        lemma_first_where(n as int, bad, n as int);
    }
    Ok(out)
}

/// What the earlier view displays: merge requests and review requests,
/// each sorted by repository (ascending), then creation (newest first)
/// within a repository, so that a repository header can go wherever the
/// repository changes between neighbours.
#[derive(Debug)]
pub struct Inbox {
    pub merge_requests: Vec<MergeRequest>,
    pub review_requests: Vec<ReviewRequest>,
}

impl Default for Inbox {
    fn default() -> (i: Inbox)
        ensures
            i.merge_requests@.len() == 0,
            i.review_requests@.len() == 0,
    {
        Inbox { merge_requests: Vec::new(), review_requests: Vec::new() }
    }
}

/// A merge-request comment is shown: not the viewer's own, a merge request
/// under the filter, and not marked done.
pub open spec fn merge_request_shown(
    f: CommentFilterModel,
    viewer: Seq<char>,
    marks: Map<(Seq<char>, Seq<char>), Option<Seq<char>>>,
) -> spec_fn(MergeRequestModel) -> bool {
    |m: MergeRequestModel|
        m.author != viewer && is_merge_request_spec(f, m.body) && !marks.contains_key(
            (KIND_MERGE_COMMENT@, signed_decimal(m.comment_id)),
        )
}

/// A review request is shown unless it is marked done.
pub open spec fn review_request_shown(marks: Map<(Seq<char>, Seq<char>), Option<Seq<char>>>) -> spec_fn(
    ReviewRequestModel,
) -> bool {
    |r: ReviewRequestModel| !marks.contains_key((KIND_REVIEW_REQUEST@, pr_key_text(r.repo, r.pr_number)))
}

/// The earlier inbox: the comments that request a merge from the viewer
/// (not the viewer's own, matching the filter, not done) and the review
/// requests that are not done, each in repository order, newest first.
pub fn build_inbox(parsed: &Parsed, filter: &CommentFilter, done: &DoneTable) -> (inbox: Inbox)
    ensures
        row_views(inbox.merge_requests@) == by_repo_newest::<MergeRequest>(
            SortBy::Created,
            row_views(parsed.comments@).filter(merge_request_shown(filter@, parsed.viewer_login@, done.marks())),
        ),
        row_views(inbox.review_requests@) == by_repo_newest::<ReviewRequest>(
            SortBy::Created,
            row_views(parsed.review_requests@).filter(review_request_shown(done.marks())),
        ),
{
    let ghost fm = merge_request_shown(filter@, parsed.viewer_login@, done.marks());
    let ghost cs = row_views(parsed.comments@);
    let mut merge_requests: Vec<MergeRequest> = Vec::new();
    let mut i: usize = 0;
    while i < parsed.comments.len()
        invariant
            i <= parsed.comments.len(),
            fm == merge_request_shown(filter@, parsed.viewer_login@, done.marks()),
            cs == row_views(parsed.comments@),
            row_views(merge_requests@) == cs.take(i as int).filter(fm),
        decreases parsed.comments.len() - i,
    {
        let c = &parsed.comments[i];
        proof {
            let t = cs.take(i + 1);
            assert(t.drop_last() =~= cs.take(i as int));
            assert(t.last() == c@);
        }
        let ghost old_out = row_views(merge_requests@);
        if !text_eq(c.author.as_str(), parsed.viewer_login.as_str()) && filter.is_merge_request(c.body.as_str()) {
            let id = i64_text(c.comment_id);
            if !done.is_done(KIND_MERGE_COMMENT, id.as_str()) {
                merge_requests.push(c.duplicate());
                assert(row_views(merge_requests@) =~= old_out.push(c@));
            }
        }
        proof {
            reveal(Seq::filter);
        }
        i = i + 1;
    }
    assert(cs.take(parsed.comments.len() as int) =~= cs);
    let ghost fr = review_request_shown(done.marks());
    let ghost rs = row_views(parsed.review_requests@);
    let mut review_requests: Vec<ReviewRequest> = Vec::new();
    let mut j: usize = 0;
    while j < parsed.review_requests.len()
        invariant
            j <= parsed.review_requests.len(),
            fr == review_request_shown(done.marks()),
            rs == row_views(parsed.review_requests@),
            row_views(review_requests@) == rs.take(j as int).filter(fr),
        decreases parsed.review_requests.len() - j,
    {
        let r = &parsed.review_requests[j];
        proof {
            let t = rs.take(j + 1);
            assert(t.drop_last() =~= rs.take(j as int));
            assert(t.last() == r@);
        }
        let ghost old_out = row_views(review_requests@);
        let key = r.key();
        if !done.is_done(KIND_REVIEW_REQUEST, key.as_str()) {
            review_requests.push(r.duplicate());
            assert(row_views(review_requests@) =~= old_out.push(r@));
        }
        proof {
            reveal(Seq::filter);
        }
        j = j + 1;
    }
    assert(rs.take(parsed.review_requests.len() as int) =~= rs);
    Inbox {
        merge_requests: sort_by_repo_newest(merge_requests, SortBy::Created),
        review_requests: sort_by_repo_newest(review_requests, SortBy::Created),
    }
}

/// A comment row's done state is its comment's mark alone: marking or
/// unmarking anything else (a pull-request mark of the same pull request
/// included) leaves it as it is, and marking its comment hides it.
pub proof fn lemma_comment_row_done_by_its_comment(
    m: Map<(Seq<char>, Seq<char>), Option<Seq<char>>>,
    i: ItemModel,
    k: (Seq<char>, Seq<char>),
    v: Option<Seq<char>>,
    marked_at: Seq<char>,
)
    requires
        i.comment is Some,
        k != (KIND_MERGE_COMMENT@, signed_decimal(i.comment->Some_0.id)),
    ensures
        item_done(m.insert(k, v), i) == item_done(m, i),
        item_done(m.remove(k), i) == item_done(m, i),
        item_done(crate::store::after_mark_pr(m, i.pr_key(), marked_at), i) == item_done(m, i),
        item_done(m.insert((KIND_MERGE_COMMENT@, signed_decimal(i.comment->Some_0.id)), v), i),
        !item_done(Map::empty(), i),
{
    reveal_strlit("pr");
    reveal_strlit("merge_comment");
    assert(KIND_PR@.len() != KIND_MERGE_COMMENT@.len());
}

/// Rows sort by the time their kind is about: with `Created`, comment rows
/// of one repository come newest comment first (the time `sort_time` gives)
/// and pull-request rows by the pull request's creation; with `Updated`,
/// every row by its pull request's last update.
pub proof fn lemma_sort_times(sort: SortBy, a: ItemModel, b: ItemModel)
    ensures
        a.comment is Some ==> row_time(SortBy::Created, a) == a.sort_time(),
        a.comment is None ==> row_time(SortBy::Created, a) == a.pr_created_at,
        row_time(SortBy::Updated, a) == a.pr_updated_at,
        a.repo == b.repo && a.comment is Some && b.comment is Some ==> (newer_first::<Item>(SortBy::Created, a, b)
            <==> lex_lt(b.comment->Some_0.created_at, a.comment->Some_0.created_at)),
        a.repo == b.repo ==> (newer_first::<Item>(SortBy::Updated, a, b) <==> lex_lt(b.pr_updated_at, a.pr_updated_at)),
{
    lemma_lex_lt_irreflexive(a.repo);
}

} // verus!
