//! State of the interactive view: the sections' rows, the active section
//! and row, the status line, and what a key press does to them.

use vstd::prelude::*;

use crate::config::{KeySpec, Keybindings};
use crate::inbox::{item_done, item_views, section_result_view, SectionData, SectionDataModel, SectionResult};
use crate::store::{after_mark, after_mark_pr, lemma_pr_mark_covers_until_update, KIND_MERGE_COMMENT};
use crate::item::{Item, ItemModel};
use crate::text::{
    concat2, decimal, first_where, i64_text, joined, lemma_first_where_step, owned, push_char, signed_decimal,
    text_eq, u64_text, views,
};

verus! {

/// What pressing the done key should record for the selected item.
#[derive(Debug, Clone, PartialEq)]
pub enum DoneEntry {
    /// A comment item, by its comment's databaseId.
    Comment(i64),
    /// A pull-request item, by `repo#number` and its updatedAt.
    Pr { key: String, updated_at: String },
}

/// The view's state.
pub struct App {
    /// One slot per config section, same order. Titles are filled at startup
    /// so the tab bar renders before the first fetch completes.
    pub sections: Vec<SectionData>,
    /// Index of the active section.
    pub active: usize,
    /// Index of the selected row in the active section.
    pub selected: usize,
    pub status: String,
    pub should_quit: bool,
    /// Stable ids marked done since the last fetch result was applied. A
    /// fetch in flight at mark time was built before the mark and would
    /// briefly resurface the item; these ids suppress that one result.
    pub pending_done: PendingDone,
}

/// A set of stable ids; it changes only through its methods.
pub struct PendingDone {
    ids: Vec<String>,
}

impl PendingDone {
    /// The ids.
    pub closed spec fn ids(&self) -> Set<Seq<char>> {
        views(self.ids@).to_set()
    }

    /// No ids.
    pub fn new() -> (p: PendingDone)
        ensures
            p.ids() == Set::<Seq<char>>::empty(),
    {
        let p = PendingDone { ids: Vec::new() };
        assert(views(p.ids@).to_set() =~= Set::<Seq<char>>::empty());
        p
    }

    /// Whether `id` is one of the ids.
    pub fn contains(&self, id: &str) -> (b: bool)
        ensures
            b == self.ids().contains(id@),
    {
        let mut i: usize = 0;
        while i < self.ids.len()
            invariant
                i <= self.ids.len(),
                forall|k: int| 0 <= k < i ==> self.ids@[k]@ != id@,
            decreases self.ids.len() - i,
        {
            if text_eq(self.ids[i].as_str(), id) {
                assert(views(self.ids@)[i as int] == id@);
                return true;
            }
            i = i + 1;
        }
        assert forall|k: int| 0 <= k < views(self.ids@).len() implies views(self.ids@)[k] != id@ by {
            assert(views(self.ids@)[k] == self.ids@[k]@);
        }
        false
    }

    /// Adds `id`.
    pub fn insert(&mut self, id: String)
        ensures
            final(self).ids() == old(self).ids().insert(id@),
    {
        let ghost old_ids = views(self.ids@);
        self.ids.push(id);
        assert(views(self.ids@) =~= old_ids.push(id@));
        proof {
            old_ids.lemma_push_to_set_commute(id@);
        }
    }
}

/// The index `selected` brought inside a list of `len` rows (0 when there
/// is none).
pub open spec fn clamp_index(selected: int, len: int) -> int {
    if len <= 0 {
        0
    } else if selected >= len {
        len - 1
    } else {
        selected
    }
}

/// Rows whose stable id is not `id`.
pub open spec fn other_than(id: Seq<char>) -> spec_fn(ItemModel) -> bool {
    |i: ItemModel| i.stable_id() != id
}

/// Rows whose stable id is not among `ids`.
pub open spec fn not_pending(ids: Set<Seq<char>>) -> spec_fn(ItemModel) -> bool {
    |i: ItemModel| !ids.contains(i.stable_id())
}

/// A section's value after a fetch result: an `Ok` replaces it, without the
/// rows marked done meanwhile; an `Err` (or no result) keeps it.
pub open spec fn applied(
    old: SectionDataModel,
    result: Option<Result<SectionDataModel, Seq<char>>>,
    pending: Set<Seq<char>>,
) -> SectionDataModel {
    match result {
        Some(Ok(d)) => (SectionDataModel { title: d.title, items: d.items.filter(not_pending(pending)) }),
        _ => old,
    }
}

/// The results that failed.
pub open spec fn failed_at(rs: Seq<SectionResult>) -> spec_fn(int) -> bool {
    |i: int| rs[i] is Err
}

/// The sections after the first `i` results were applied.
pub open spec fn applied_upto(
    old: Seq<SectionDataModel>,
    rs: Seq<SectionResult>,
    pending: Set<Seq<char>>,
    i: int,
) -> Seq<SectionDataModel> {
    Seq::new(
        old.len(),
        |k: int|
            applied(
                old[k],
                if k < i {
                    Some(section_result_view(rs[k]))
                } else {
                    None
                },
                pending,
            ),
    )
}

/// What the done key records for a row: its comment's id, or its key and
/// updatedAt.
pub open spec fn entry_matches(e: DoneEntry, i: ItemModel) -> bool {
    match i.comment {
        Some(c) => e == DoneEntry::Comment(c.id as i64) && c.id == c.id as i64,
        None => e matches DoneEntry::Pr { key, updated_at } && key@ == i.pr_key() && updated_at@
            == i.pr_updated_at,
    }
}

/// The marks after the done mark of `e` was recorded.
pub open spec fn marks_after(m: Map<(Seq<char>, Seq<char>), Option<Seq<char>>>, e: DoneEntry) -> Map<
    (Seq<char>, Seq<char>),
    Option<Seq<char>>,
> {
    match e {
        DoneEntry::Comment(id) => after_mark(m, KIND_MERGE_COMMENT@, signed_decimal(id as int)),
        DoneEntry::Pr { key, updated_at } => after_mark_pr(m, key@, updated_at@),
    }
}

/// Recording what the done key gives for a row hides that row from every
/// later build: the marks then cover it (a pull-request row until it is
/// updated again).
pub proof fn lemma_done_entry_hides_row(m: Map<(Seq<char>, Seq<char>), Option<Seq<char>>>, e: DoneEntry, i: ItemModel)
    requires
        entry_matches(e, i),
    ensures
        item_done(marks_after(m, e), i),
{
    if i.comment is None {
        lemma_pr_mark_covers_until_update(m, i.pr_key(), i.pr_updated_at, i.pr_updated_at);
    }
}

/// The label a recorded done mark is reported with.
pub open spec fn entry_label(e: DoneEntry) -> Seq<char> {
    match e {
        DoneEntry::Comment(id) => signed_decimal(id as int),
        DoneEntry::Pr { key, .. } => key@,
    }
}

/// The status line after a fetch: the first section filter error leads
/// (or the update time when there is none), then the API warnings.
pub open spec fn status_text(hms: Seq<char>, filter_error: Option<Seq<char>>, api_errors: Seq<Seq<char>>) -> Seq<
    char,
> {
    let base = match filter_error {
        Some(e) => "filter error: "@ + e,
        None => hms,
    };
    if api_errors.len() == 0 {
        base
    } else {
        base + " ⚠ API: "@ + joined(api_errors, "; "@)
    }
}

/// Builds the post-fetch status line. A per-section filter error is the most
/// actionable signal so it leads; API errors (partial-failure warnings) are
/// appended so a section emptied by a blocked organization cannot read as
/// "all clear".
pub fn compose_status(hms: String, filter_error: Option<String>, api_errors: &[String]) -> (s: String)
    ensures
        s@ == status_text(
            hms@,
            match filter_error {
                Some(e) => Some(e@),
                None => None,
            },
            views(api_errors@),
        ),
{
    let base = match filter_error {
        Some(e) => concat2("filter error: ", e.as_str()),
        None => hms,
    };
    if api_errors.len() == 0 {
        base
    } else {
        let mut s = base;
        let joined_errors = crate::text::join(api_errors, "; ");
        s.append(" ⚠ API: ");
        s.append(joined_errors.as_str());
        s
    }
}

/// A number with at least two digits, zero-padded (`{:02}`).
pub open spec fn padded2(n: nat) -> Seq<char> {
    if n < 10 {
        seq!['0'] + decimal(n)
    } else {
        decimal(n)
    }
}

fn two_digits(n: u8) -> (s: String)
    ensures
        s@ == padded2(n as nat),
{
    let t = u64_text(n as u64);
    if n < 10 {
        let s = concat2("0", t.as_str());
        proof {
            reveal_strlit("0");
            assert("0"@ =~= seq!['0']);
        }
        s
    } else {
        t
    }
}

/// A clock time as `HH:MM:SS`, each field zero-padded to two digits.
pub open spec fn hms_text(hour: u8, minute: u8, second: u8) -> Seq<char> {
    padded2(hour as nat) + seq![':'] + padded2(minute as nat) + seq![':'] + padded2(second as nat)
}

/// `HH:MM:SS` of a clock time (shown next to the ✓ icon after a fetch).
pub fn hms(hour: u8, minute: u8, second: u8) -> (s: String)
    ensures
        s@ == hms_text(hour, minute, second),
{
    let h = two_digits(hour);
    let m = two_digits(minute);
    let sec = two_digits(second);
    let mut s = h;
    push_char(&mut s, ':');
    s.append(m.as_str());
    push_char(&mut s, ':');
    s.append(sec.as_str());
    assert(s@ =~= hms_text(hour, minute, second));
    s
}

/// A section with this title and no rows yet.
pub open spec fn empty_section(title: Seq<char>) -> SectionDataModel {
    SectionDataModel { title, items: Seq::empty() }
}

/// A section without the rows whose stable id is `id`.
pub open spec fn section_without(d: SectionDataModel, id: Seq<char>) -> SectionDataModel {
    SectionDataModel { title: d.title, items: d.items.filter(other_than(id)) }
}

/// The view of an optional string.
pub open spec fn opt_view(o: Option<String>) -> Option<Seq<char>> {
    match o {
        Some(s) => Some(s@),
        None => None,
    }
}

/// The message of the first failed result among those that have a section
/// to go to.
pub open spec fn first_failure(sections: nat, rs: Seq<SectionResult>) -> Option<Seq<char>> {
    let n = if sections < rs.len() {
        sections as int
    } else {
        rs.len() as int
    };
    match first_where(n, failed_at(rs)) {
        Some(i) => match rs[i] {
            Err(m) => Some(m@),
            Ok(_) => None,
        },
        None => None,
    }
}

/// `new` is `old` after a fetch's results were applied by position: each
/// section with an `Ok` result takes it, without the rows marked done since
/// the fetch started; the others keep their rows. Nothing is pending any
/// more and the selection is brought inside the active section's rows.
pub open spec fn results_applied(old: App, new: App, rs: Seq<SectionResult>) -> bool {
    &&& new.sections@.len() == old.sections@.len()
    &&& forall|i: int|
        0 <= i < old.sections@.len() ==> (#[trigger] new.section_values()[i]) == applied(
            old.section_values()[i],
            if i < rs.len() {
                Some(section_result_view(rs[i]))
            } else {
                None
            },
            old.pending(),
        )
    &&& new.active == old.active
    &&& new.selected == clamp_index(old.selected as int, new.active_rows().len() as int)
    &&& new.should_quit == old.should_quit
    &&& new.pending() == Set::<Seq<char>>::empty()
}

/// `new` is `old` after the selected row was removed: gone from every
/// section and pending, the selection brought inside the active section's
/// rows. Nothing changes when no row is selected.
pub open spec fn selection_removed(old: App, new: App) -> bool {
    if old.selected < old.active_rows().len() {
        let id = old.active_rows()[old.selected as int].stable_id();
        &&& new.section_values() == old.section_values().map_values(|d: SectionDataModel| section_without(d, id))
        &&& new.pending() == old.pending().insert(id)
        &&& new.active == old.active
        &&& new.selected == clamp_index(old.selected as int, new.active_rows().len() as int)
        &&& new.should_quit == old.should_quit
    } else {
        &&& new.sections == old.sections
        &&& new.pending() == old.pending()
        &&& new.active == old.active
        &&& new.selected == old.selected
        &&& new.should_quit == old.should_quit
    }
}

impl App {
    /// The values of the sections.
    pub open spec fn section_values(&self) -> Seq<SectionDataModel> {
        self.sections@.map_values(|d: SectionData| d@)
    }

    /// The rows of the active section.
    pub open spec fn active_rows(&self) -> Seq<ItemModel> {
        item_views(self.sections@[self.active as int].items@)
    }

    /// The stable ids whose rows the next fetch result must not show.
    pub open spec fn pending(&self) -> Set<Seq<char>> {
        self.pending_done.ids()
    }

    /// A view with one empty section per title, the first active.
    pub fn new(titles: Vec<String>) -> (app: App)
        ensures
            app.section_values() == titles@.map_values(|t: String| empty_section(t@)),
            app.active == 0,
            app.selected == 0,
            app.status@ == "loading..."@,
            !app.should_quit,
            app.pending() == Set::<Seq<char>>::empty(),
    {
        let mut sections: Vec<SectionData> = Vec::new();
        let mut i: usize = 0;
        while i < titles.len()
            invariant
                i <= titles.len(),
                sections@.len() == i,
                sections@.map_values(|e: SectionData| e@) == titles@.take(i as int).map_values(
                    |t: String| empty_section(t@),
                ),
            decreases titles.len() - i,
        {
            let ghost before = sections@;
            let d = SectionData { title: titles[i].clone(), items: Vec::new() };
            assert(item_views(d.items@) =~= Seq::<ItemModel>::empty());
            let ghost dv = d@;
            assert(dv == empty_section(titles@[i as int]@));
            sections.push(d);
            assert(sections@ == before.push(d));
            assert(sections@[i as int]@ == dv);
            assert(titles@.take(i + 1) =~= titles@.take(i as int).push(titles@[i as int]));
            assert(sections@.map_values(|e: SectionData| e@) =~= before.map_values(|e: SectionData| e@).push(dv));
            assert(sections@.map_values(|e: SectionData| e@) =~= titles@.take(i + 1).map_values(
                |t: String| empty_section(t@),
            ));
            i = i + 1;
        }
        assert(titles@.take(titles.len() as int) =~= titles@);
        let app = App {
            sections,
            active: 0,
            selected: 0,
            status: owned("loading..."),
            should_quit: false,
            pending_done: PendingDone::new(),
        };
        app
    }

    /// The active section.
    pub fn active_section(&self) -> (s: &SectionData)
        requires
            self.active < self.sections@.len(),
        ensures
            *s == self.sections@[self.active as int],
    {
        &self.sections[self.active]
    }

    /// Number of rows in the active section.
    pub fn items_len(&self) -> (n: usize)
        requires
            self.active < self.sections@.len(),
        ensures
            n == self.active_rows().len(),
    {
        self.active_section().items.len()
    }

    /// Brings the selection inside the active section's rows.
    pub fn clamp_selected(&mut self)
        requires
            old(self).active < old(self).sections@.len(),
        ensures
            final(self).sections == old(self).sections,
            final(self).active == old(self).active,
            final(self).status == old(self).status,
            final(self).should_quit == old(self).should_quit,
            final(self).pending() == old(self).pending(),
            final(self).selected == clamp_index(old(self).selected as int, old(self).active_rows().len() as int),
    {
        let len = self.items_len();
        if len == 0 {
            self.selected = 0;
        } else if self.selected >= len {
            self.selected = len - 1;
        }
    }

    /// The rows of `items` that were not marked done since the last fetch
    /// result, in order.
    fn without_pending(&self, items: Vec<Item>) -> (out: Vec<Item>)
        ensures
            item_views(out@) == item_views(items@).filter(not_pending(self.pending())),
    {
        let ghost f = not_pending(self.pending());
        let mut out: Vec<Item> = Vec::new();
        let mut i: usize = 0;
        while i < items.len()
            invariant
                i <= items.len(),
                f == not_pending(self.pending()),
                item_views(out@) == item_views(items@).take(i as int).filter(f),
            decreases items.len() - i,
        {
            let ghost old_out = item_views(out@);
            let id = items[i].stable_id();
            proof {
                let t = item_views(items@).take(i + 1);
                assert(t.drop_last() =~= item_views(items@).take(i as int));
                assert(t.last() == items@[i as int]@);
            }
            if !self.pending_done.contains(id.as_str()) {
                out.push(items[i].duplicate());
                assert(item_views(out@) =~= old_out.push(items@[i as int]@));
            }
            proof {
                reveal(Seq::filter);
            }
            i = i + 1;
        }
        assert(item_views(items@).take(items.len() as int) =~= item_views(items@));
        out
    }

    /// Puts one section's fetch result in place.
    fn apply_one(&mut self, i: usize, result: SectionResult)
        requires
            i < old(self).sections@.len(),
        ensures
            final(self).section_values() == old(self).section_values().update(
                i as int,
                applied(old(self).section_values()[i as int], Some(section_result_view(result)), old(self).pending()),
            ),
            final(self).sections@.len() == old(self).sections@.len(),
            final(self).active == old(self).active,
            final(self).selected == old(self).selected,
            final(self).status == old(self).status,
            final(self).should_quit == old(self).should_quit,
            final(self).pending() == old(self).pending(),
    {
        match result {
            Ok(data) => {
                let items = self.without_pending(data.items);
                let d = SectionData { title: data.title, items };
                let ghost before = self.section_values();
                self.sections.set(i, d);
                assert(self.section_values() =~= before.update(i as int, d@));
            },
            Err(_) => {
                assert(self.section_values() =~= self.section_values().update(
                    i as int,
                    self.section_values()[i as int],
                ));
            },
        }
    }

    /// Applies one fetch's per-section results, by position. A section that
    /// failed (`Err`) keeps its previous rows; the rows marked done since the
    /// fetch started are left out of the others. The first error message is
    /// returned for the status bar.
    pub fn apply_results(&mut self, results: Vec<SectionResult>) -> (first_error: Option<String>)
        requires
            old(self).active < old(self).sections@.len(),
        ensures
            results_applied(*old(self), *final(self), results@),
            final(self).status == old(self).status,
            opt_view(first_error) == first_failure(old(self).sections@.len(), results@),
    {
        let ghost old_values = self.section_values();
        let ghost pending = self.pending();
        let n: usize = if self.sections.len() < results.len() {
            self.sections.len()
        } else {
            results.len()
        };
        let ghost all = results@;
        let ghost bad = failed_at(all);
        let mut first_error: Option<String> = None;
        let mut rest = results;
        let mut i: usize = 0;
        while i < n
            invariant
                i <= n,
                n <= old_values.len(),
                n <= all.len(),
                n == old_values.len() || n == all.len(),
                rest@ == all.skip(i as int),
                self.sections@.len() == old_values.len(),
                self.active == old(self).active,
                self.selected == old(self).selected,
                self.status == old(self).status,
                self.should_quit == old(self).should_quit,
                self.pending() == pending,
                bad == failed_at(all),
                self.section_values() == applied_upto(old_values, all, pending, i as int),
                match first_where(i as int, bad) {
                    Some(k) => first_error matches Some(e) && all[k] matches Err(m) && e@ == m@,
                    None => first_error is None,
                },
            decreases n - i,
        {
            let result = rest.remove(0);
            proof {
                assert(all.skip(i as int)[0] == all[i as int]);
                assert(rest@ =~= all.skip(i + 1));
                lemma_first_where_step(i as int, bad);
            }
            let failed = match &result {
                Ok(_) => None,
                Err(e) => Some(e.clone()),
            };
            self.apply_one(i, result);
            assert(self.section_values() =~= applied_upto(old_values, all, pending, i + 1));
            if first_error.is_none() {
                first_error = failed;
            }
            i = i + 1;
        }
        self.pending_done = PendingDone::new();
        assert forall|k: int| 0 <= k < old_values.len() implies (#[trigger] self.section_values()[k]) == applied(
            old_values[k],
            if k < all.len() {
                Some(section_result_view(all[k]))
            } else {
                None
            },
            pending,
        ) by {
            assert(self.section_values()[k] == applied_upto(old_values, all, pending, i as int)[k]);
        }
        self.clamp_selected();
        first_error
    }

    /// Moves the selection one row down, stopping at the last row.
    pub fn next(&mut self)
        requires
            old(self).active < old(self).sections@.len(),
        ensures
            final(self).selected == (if old(self).selected + 1 < old(self).active_rows().len() {
                old(self).selected + 1
            } else {
                old(self).selected as int
            }),
            final(self).sections == old(self).sections,
            final(self).active == old(self).active,
            final(self).status == old(self).status,
            final(self).should_quit == old(self).should_quit,
            final(self).pending() == old(self).pending(),
    {
        let len = self.items_len();
        if len > 0 && self.selected < len - 1 {
            self.selected = self.selected + 1;
        }
    }

    /// Moves the selection one row up, stopping at the first row.
    pub fn prev(&mut self)
        ensures
            final(self).selected == (if old(self).selected > 0 {
                old(self).selected - 1
            } else {
                0
            }),
            final(self).sections == old(self).sections,
            final(self).active == old(self).active,
            final(self).status == old(self).status,
            final(self).should_quit == old(self).should_quit,
            final(self).pending() == old(self).pending(),
    {
        if self.selected > 0 {
            self.selected = self.selected - 1;
        }
    }

    /// Activates the next section (the first after the last) and selects
    /// its first row.
    pub fn next_section(&mut self)
        requires
            old(self).active < old(self).sections@.len(),
        ensures
            final(self).active == (old(self).active + 1) % (old(self).sections@.len() as int),
            final(self).selected == 0,
            final(self).sections == old(self).sections,
            final(self).status == old(self).status,
            final(self).should_quit == old(self).should_quit,
            final(self).pending() == old(self).pending(),
    {
        let len = self.sections.len();
        self.active = (self.active + 1) % len;
        self.selected = 0;
    }

    /// Activates the previous section (the last before the first) and
    /// selects its first row.
    pub fn prev_section(&mut self)
        requires
            old(self).active < old(self).sections@.len(),
        ensures
            final(self).active == (old(self).active + old(self).sections@.len() - 1) % (
            old(self).sections@.len() as int),
            final(self).selected == 0,
            final(self).sections == old(self).sections,
            final(self).status == old(self).status,
            final(self).should_quit == old(self).should_quit,
            final(self).pending() == old(self).pending(),
    {
        let len = self.sections.len();
        if self.active == 0 {
            self.active = len - 1;
            assert((0 + len - 1) % (len as int) == len - 1) by (nonlinear_arith)
                requires
                    len > 0,
            ;
        } else {
            let a = self.active;
            self.active = a - 1;
            assert((a + len - 1) % (len as int) == a - 1) by (nonlinear_arith)
                requires
                    0 < a < len,
            {
                assert(a + len - 1 == (a - 1) + len);
                vstd::arithmetic::div_mod::lemma_mod_add_multiples_vanish((a - 1) as int, len as int);
                vstd::arithmetic::div_mod::lemma_small_mod((a - 1) as nat, len as nat);
            }
        }
        self.selected = 0;
    }

    /// The selected row, if the active section has one there.
    pub fn selected_item(&self) -> (r: Option<&Item>)
        requires
            self.active < self.sections@.len(),
        ensures
            r is Some <==> self.selected < self.active_rows().len(),
            r matches Some(i) ==> *i == self.sections@[self.active as int].items@[self.selected as int],
    {
        let items = &self.active_section().items;
        if self.selected < items.len() {
            Some(&items[self.selected])
        } else {
            None
        }
    }

    /// The selected row's pull-request URL.
    pub fn selected_url(&self) -> (r: Option<&str>)
        requires
            self.active < self.sections@.len(),
        ensures
            r is Some <==> self.selected < self.active_rows().len(),
            r matches Some(u) ==> u@ == self.active_rows()[self.selected as int].pr_url,
    {
        match self.selected_item() {
            Some(i) => Some(i.pr_url.as_str()),
            None => None,
        }
    }

    /// What the done key records for the selected row: its comment's id, or
    /// its `repo#number` key and updatedAt.
    pub fn selected_done_entry(&self) -> (r: Option<DoneEntry>)
        requires
            self.active < self.sections@.len(),
        ensures
            r is Some <==> self.selected < self.active_rows().len(),
            r matches Some(e) ==> entry_matches(e, self.active_rows()[self.selected as int]),
    {
        match self.selected_item() {
            Some(i) => match &i.comment {
                Some(c) => Some(DoneEntry::Comment(c.id)),
                None => Some(DoneEntry::Pr { key: i.pr_key(), updated_at: i.pr_updated_at.clone() }),
            },
            None => None,
        }
    }

    /// Removes the selected (just marked done) row from every section (done
    /// is global, so a pull request matching several sections' queries must
    /// disappear everywhere) and keeps it out of the next fetch result in
    /// case one was already in flight when the mark happened.
    pub fn remove_selected(&mut self)
        requires
            old(self).active < old(self).sections@.len(),
        ensures
            selection_removed(*old(self), *final(self)),
            final(self).status == old(self).status,
    {
        let id = match self.selected_item() {
            Some(i) => i.stable_id(),
            None => {
                return;
            },
        };
        assert(id@ == old(self).active_rows()[old(self).selected as int].stable_id());
        let ghost old_values = self.section_values();
        let mut k: usize = 0;
        while k < self.sections.len()
            invariant
                k <= self.sections@.len(),
                self.sections@.len() == old_values.len(),
                self.active == old(self).active,
                self.selected == old(self).selected,
                self.status == old(self).status,
                self.should_quit == old(self).should_quit,
                self.pending() == old(self).pending(),
                self.section_values() == Seq::new(
                    old_values.len(),
                    |j: int|
                        if j < k {
                            section_without(old_values[j], id@)
                        } else {
                            old_values[j]
                        },
                ),
            decreases self.sections.len() - k,
        {
            let ghost before = self.section_values();
            assert(before[k as int] == old_values[k as int]);
            assert(self.sections@[k as int]@ == before[k as int]);
            let items = without_id(&self.sections[k].items, id.as_str());
            let title = self.sections[k].title.clone();
            let d = SectionData { title, items };
            assert(d@ == section_without(old_values[k as int], id@));
            self.sections.set(k, d);
            assert(self.section_values() =~= before.update(k as int, section_without(old_values[k as int], id@)));
            k = k + 1;
            assert(self.section_values() =~= Seq::new(
                old_values.len(),
                |j: int|
                    if j < k {
                        section_without(old_values[j], id@)
                    } else {
                        old_values[j]
                    },
            ));
        }
        assert(self.section_values() =~= old_values.map_values(|d: SectionDataModel| section_without(d, id@)));
        self.pending_done.insert(id);
        self.clamp_selected();
    }
}

/// What a key asks for.
#[derive(Clone, Copy, Debug, PartialEq, Eq, Structural)]
pub enum Action {
    Quit,
    Down,
    Up,
    NextSection,
    PrevSection,
    Open,
    Done,
    Refresh,
}

/// The action `key` is bound to. Bindings are consulted in the order quit,
/// down, up, next section, previous section, open, done, refresh; a valid
/// configuration binds no key twice, so the order only matters for others.
pub open spec fn action_of(kb: Keybindings, key: KeySpec) -> Option<Action> {
    if kb.quit.0@.contains(key) {
        Some(Action::Quit)
    } else if kb.down.0@.contains(key) {
        Some(Action::Down)
    } else if kb.up.0@.contains(key) {
        Some(Action::Up)
    } else if kb.next_section.0@.contains(key) {
        Some(Action::NextSection)
    } else if kb.prev_section.0@.contains(key) {
        Some(Action::PrevSection)
    } else if kb.open.0@.contains(key) {
        Some(Action::Open)
    } else if kb.done.0@.contains(key) {
        Some(Action::Done)
    } else if kb.refresh.0@.contains(key) {
        Some(Action::Refresh)
    } else {
        None
    }
}

/// The action `key` is bound to, if any.
pub fn action_for(kb: &Keybindings, key: KeySpec) -> (a: Option<Action>)
    ensures
        a == action_of(*kb, key),
{
    if kb.quit.contains(key) {
        Some(Action::Quit)
    } else if kb.down.contains(key) {
        Some(Action::Down)
    } else if kb.up.contains(key) {
        Some(Action::Up)
    } else if kb.next_section.contains(key) {
        Some(Action::NextSection)
    } else if kb.prev_section.contains(key) {
        Some(Action::PrevSection)
    } else if kb.open.contains(key) {
        Some(Action::Open)
    } else if kb.done.contains(key) {
        Some(Action::Done)
    } else if kb.refresh.contains(key) {
        Some(Action::Refresh)
    } else {
        None
    }
}

/// What the caller must do after a key was handled.
#[derive(Debug, PartialEq)]
pub enum Effect {
    /// Nothing more.
    Nothing,
    /// Open this URL in the browser.
    Open(String),
    /// Record this done mark.
    MarkDone(DoneEntry),
    /// Start a fetch.
    Refresh,
}

/// `new` is `old` with only the active section, the selection and the quit
/// flag possibly changed, to the values given.
pub open spec fn moved_to(old: App, new: App, active: int, selected: int, quit: bool) -> bool {
    &&& new.sections == old.sections
    &&& new.status == old.status
    &&& new.pending() == old.pending()
    &&& new.active == active
    &&& new.selected == selected
    &&& new.should_quit == quit
}

impl App {
    /// Handles a key: quits, moves the selection or the active section, or
    /// says what the caller must do (open the selected row's URL, record its
    /// done mark, or start a fetch). Unbound keys do nothing.
    pub fn handle_key(&mut self, kb: &Keybindings, key: KeySpec) -> (e: Effect)
        requires
            old(self).active < old(self).sections@.len(),
        ensures
            ({
                let o = *old(self);
                let n = *final(self);
                let len = o.active_rows().len() as int;
                let sections = o.sections@.len() as int;
                match action_of(*kb, key) {
                    Some(Action::Quit) => moved_to(o, n, o.active as int, o.selected as int, true) && e == Effect::Nothing,
                    Some(Action::Down) => moved_to(
                        o,
                        n,
                        o.active as int,
                        if o.selected + 1 < len {
                            o.selected + 1
                        } else {
                            o.selected as int
                        },
                        o.should_quit,
                    ) && e == Effect::Nothing,
                    Some(Action::Up) => moved_to(
                        o,
                        n,
                        o.active as int,
                        if o.selected > 0 {
                            o.selected - 1
                        } else {
                            0
                        },
                        o.should_quit,
                    ) && e == Effect::Nothing,
                    Some(Action::NextSection) => moved_to(
                        o,
                        n,
                        (o.active + 1) % sections,
                        0,
                        o.should_quit,
                    ) && e == Effect::Nothing,
                    Some(Action::PrevSection) => moved_to(
                        o,
                        n,
                        (o.active + sections - 1) % sections,
                        0,
                        o.should_quit,
                    ) && e == Effect::Nothing,
                    Some(Action::Open) => n == o && (if o.selected < len {
                        e matches Effect::Open(u) && u@ == o.active_rows()[o.selected as int].pr_url
                    } else {
                        e == Effect::Nothing
                    }),
                    Some(Action::Done) => n == o && (if o.selected < len {
                        e matches Effect::MarkDone(d) && entry_matches(d, o.active_rows()[o.selected as int])
                    } else {
                        e == Effect::Nothing
                    }),
                    Some(Action::Refresh) => n == o && e == Effect::Refresh,
                    None => n == o && e == Effect::Nothing,
                }
            }),
    {
        match action_for(kb, key) {
            Some(Action::Quit) => {
                self.should_quit = true;
                Effect::Nothing
            },
            Some(Action::Down) => {
                self.next();
                Effect::Nothing
            },
            Some(Action::Up) => {
                self.prev();
                Effect::Nothing
            },
            Some(Action::NextSection) => {
                self.next_section();
                Effect::Nothing
            },
            Some(Action::PrevSection) => {
                self.prev_section();
                Effect::Nothing
            },
            Some(Action::Open) => match self.selected_url() {
                Some(u) => Effect::Open(owned(u)),
                None => Effect::Nothing,
            },
            Some(Action::Done) => match self.selected_done_entry() {
                Some(d) => Effect::MarkDone(d),
                None => Effect::Nothing,
            },
            Some(Action::Refresh) => Effect::Refresh,
            None => Effect::Nothing,
        }
    }

    /// After a done mark was recorded (`Ok`) the selected row goes away
    /// everywhere and the status says what was marked; when recording failed
    /// the status shows the database error.
    pub fn done_recorded(&mut self, entry: &DoneEntry, outcome: Result<(), String>)
        requires
            old(self).active < old(self).sections@.len(),
        ensures
            match outcome {
                Ok(()) => selection_removed(*old(self), *final(self)) && final(self).status@ == "done: "@
                    + entry_label(*entry),
                Err(m) => final(self).status@ == "db error: "@ + m@ && final(self).sections == old(self).sections
                    && final(self).pending() == old(self).pending() && final(self).active == old(self).active
                    && final(self).selected == old(self).selected && final(self).should_quit
                    == old(self).should_quit,
            },
    {
        match outcome {
            Ok(()) => {
                self.remove_selected();
                let label = match entry {
                    DoneEntry::Comment(id) => i64_text(*id),
                    DoneEntry::Pr { key, .. } => key.clone(),
                };
                self.status = concat2("done: ", label.as_str());
            },
            Err(m) => {
                self.status = concat2("db error: ", m.as_str());
            },
        }
    }

    /// Opening the browser failed: the status says why.
    pub fn open_failed(&mut self, message: &str)
        ensures
            final(self).status@ == "failed to open browser: "@ + message@,
            final(self).sections == old(self).sections,
            final(self).pending() == old(self).pending(),
            final(self).active == old(self).active,
            final(self).selected == old(self).selected,
            final(self).should_quit == old(self).should_quit,
    {
        self.status = concat2("failed to open browser: ", message);
    }

    /// A refresh was asked for: the status says whether a fetch started or
    /// one was already in flight.
    pub fn refresh_requested(&mut self, spawned: bool)
        ensures
            final(self).status@ == (if spawned {
                "refreshing..."@
            } else {
                "fetch already in progress"@
            }),
            final(self).sections == old(self).sections,
            final(self).pending() == old(self).pending(),
            final(self).active == old(self).active,
            final(self).selected == old(self).selected,
            final(self).should_quit == old(self).should_quit,
    {
        self.status = if spawned {
            owned("refreshing...")
        } else {
            owned("fetch already in progress")
        };
    }

    /// A fetch failed as a whole: the status shows its error.
    pub fn fetch_failed(&mut self, message: &str)
        ensures
            final(self).status@ == "fetch error: "@ + message@,
            final(self).sections == old(self).sections,
            final(self).pending() == old(self).pending(),
            final(self).active == old(self).active,
            final(self).selected == old(self).selected,
            final(self).should_quit == old(self).should_quit,
    {
        self.status = concat2("fetch error: ", message);
    }

    /// A fetch finished: its results are applied and the status shows the
    /// update time (`hms`), or the first section's filter error, followed by
    /// the API warnings.
    pub fn fetch_finished(&mut self, results: Vec<SectionResult>, hms: String, api_errors: &[String])
        requires
            old(self).active < old(self).sections@.len(),
        ensures
            results_applied(*old(self), *final(self), results@),
            final(self).status@ == status_text(
                hms@,
                first_failure(old(self).sections@.len(), results@),
                views(api_errors@),
            ),
    {
        let filter_error = self.apply_results(results);
        let ghost mid = *self;
        self.status = compose_status(hms, filter_error, api_errors);
        assert(self.section_values() == mid.section_values());
        assert(self.active_rows() == mid.active_rows());
    }
}

/// Moving to the next section and back (or back and then on) returns to
/// the same section, and either move stays among the sections.
pub proof fn lemma_section_moves_undo(active: int, n: int)
    requires
        0 <= active < n,
    ensures
        0 <= (active + 1) % n < n,
        0 <= (active + n - 1) % n < n,
        ((active + 1) % n + n - 1) % n == active,
        ((active + n - 1) % n + 1) % n == active,
{
    if active + 1 < n {
        assert((active + 1) % n == active + 1) by (nonlinear_arith)
            requires
                0 <= active + 1 < n,
        ;
    } else {
        assert((active + 1) % n == 0) by (nonlinear_arith)
            requires
                active + 1 == n,
                n > 0,
        ;
    }
    if active > 0 {
        assert((active + n - 1) % n == active - 1) by (nonlinear_arith)
            requires
                0 < active < n,
        {
            vstd::arithmetic::div_mod::lemma_mod_add_multiples_vanish(active - 1, n);
            vstd::arithmetic::div_mod::lemma_small_mod((active - 1) as nat, n as nat);
        }
    } else {
        assert((active + n - 1) % n == n - 1) by (nonlinear_arith)
            requires
                active == 0,
                n > 0,
        ;
    }
    assert((n - 1 + 1) % n == 0) by (nonlinear_arith)
        requires
            n > 0,
    ;
    assert(n % n == 0) by (nonlinear_arith)
        requires
            n > 0,
    ;
    if active > 0 {
        assert((active - 1 + 1) % n == active) by (nonlinear_arith)
            requires
                0 < active < n,
        ;
    }
    if active + 1 < n {
        assert((active + 1 + n - 1) % n == active) by (nonlinear_arith)
            requires
                0 <= active,
                active + 1 < n,
        {
            vstd::arithmetic::div_mod::lemma_mod_add_multiples_vanish(active, n);
            vstd::arithmetic::div_mod::lemma_small_mod(active as nat, n as nat);
        }
    }
}

/// Moving the selection up or down keeps it on a row when it was on one.
pub proof fn lemma_selection_moves_stay_on_rows(selected: int, len: int)
    requires
        0 <= selected < len,
    ensures
        0 <= (if selected + 1 < len {
            selected + 1
        } else {
            selected
        }) < len,
        0 <= (if selected > 0 {
            selected - 1
        } else {
            0
        }) < len,
        0 <= clamp_index(selected, len) < len,
{
}

/// Done is global: once the selected row is removed, no section shows a row
/// with its stable id.
pub proof fn lemma_removed_row_gone_everywhere(old: App, new: App)
    requires
        old.active < old.sections@.len(),
        old.selected < old.active_rows().len(),
        selection_removed(old, new),
    ensures
        forall|k: int, j: int|
            0 <= k < new.section_values().len() && 0 <= j < new.section_values()[k].items.len()
                ==> (#[trigger] new.section_values()[k].items[j]).stable_id() != old.active_rows()[old.selected as int].stable_id(),
{
    let id = old.active_rows()[old.selected as int].stable_id();
    assert forall|k: int, j: int|
        0 <= k < new.section_values().len() && 0 <= j < new.section_values()[k].items.len() implies (
        #[trigger] new.section_values()[k].items[j]).stable_id() != id by {
        let d = old.section_values()[k];
        assert(new.section_values()[k] == section_without(d, id));
        d.items.lemma_filter_pred(other_than(id), j);
    }
}

/// A section whose fetch result failed, or that got no result, keeps its
/// previous rows (an empty section would falsely read as "all clear").
pub proof fn lemma_failed_section_keeps_rows(old: App, new: App, rs: Seq<SectionResult>, k: int)
    requires
        results_applied(old, new, rs),
        0 <= k < old.sections@.len(),
        k >= rs.len() || rs[k] is Err,
    ensures
        new.section_values()[k] == old.section_values()[k],
{
    assert(new.section_values()[k] == applied(
        old.section_values()[k],
        if k < rs.len() {
            Some(section_result_view(rs[k]))
        } else {
            None
        },
        old.pending(),
    ));
}

/// Rows marked done while a fetch was in flight do not show when its
/// result is applied.
pub proof fn lemma_pending_rows_suppressed(old: App, new: App, rs: Seq<SectionResult>)
    requires
        results_applied(old, new, rs),
    ensures
        forall|k: int, j: int|
            0 <= k < old.sections@.len() && k < rs.len() && rs[k] is Ok && 0 <= j
                < new.section_values()[k].items.len() ==> !old.pending().contains(
                (#[trigger] new.section_values()[k].items[j]).stable_id(),
            ),
{
    assert forall|k: int, j: int|
        0 <= k < old.sections@.len() && k < rs.len() && rs[k] is Ok && 0 <= j
            < new.section_values()[k].items.len() implies !old.pending().contains(
        (#[trigger] new.section_values()[k].items[j]).stable_id(),
    ) by {
        let v = new.section_values()[k];
        match section_result_view(rs[k]) {
            Ok(d) => {
                assert(v == applied(old.section_values()[k], Some(section_result_view(rs[k])), old.pending()));
                d.items.lemma_filter_pred(not_pending(old.pending()), j);
            },
            Err(_) => {},
        }
    }
}

/// The rows of `items` whose stable id is not `id`, in order.
fn without_id(items: &Vec<Item>, id: &str) -> (out: Vec<Item>)
    ensures
        item_views(out@) == item_views(items@).filter(other_than(id@)),
{
    let ghost f = other_than(id@);
    let mut out: Vec<Item> = Vec::new();
    let mut i: usize = 0;
    while i < items.len()
        invariant
            i <= items.len(),
            f == other_than(id@),
            item_views(out@) == item_views(items@).take(i as int).filter(f),
        decreases items.len() - i,
    {
        let ghost old_out = item_views(out@);
        let other = items[i].stable_id();
        proof {
            let t = item_views(items@).take(i + 1);
            assert(t.drop_last() =~= item_views(items@).take(i as int));
            assert(t.last() == items@[i as int]@);
        }
        if !text_eq(other.as_str(), id) {
            out.push(items[i].duplicate());
            assert(item_views(out@) =~= old_out.push(items@[i as int]@));
        }
        proof {
            reveal(Seq::filter);
        }
        i = i + 1;
    }
    assert(item_views(items@).take(items.len() as int) =~= item_views(items@));
    out
}

} // verus!
