//! Importing albums found on disk: the preview's counts, which candidate
//! each discovered album is matched to, the confirmations sent to the
//! server, and the server path browser of the external import.
use vstd::prelude::*;
use crate::text::{clone_opt, concat2, decimal, decimal_string, owned, push_str, text_eq};

verus! {

/// How well a discovered album matched the catalogue.
#[derive(Debug, Clone, Copy, PartialEq, Eq, Structural)]
pub enum ImportMatchStatus {
    Matched,
    Partial,
    Unmatched,
}

/// A catalogue album that a discovered album may be.
pub struct ImportAlbumCandidate {
    pub artist_id: String,
    /// The album's id, or `None` for an album not yet in the library.
    pub album_id: Option<String>,
    pub artist_name: String,
    pub album_title: String,
    pub release_date: Option<String>,
    pub cover_url: Option<String>,
    pub album_type: Option<String>,
    pub confidence: u8,
    pub explicit: bool,
    pub acquired: bool,
    pub monitored: bool,
}

/// An album found on disk.
pub struct ImportPreviewItem {
    pub id: String,
    pub discovered_artist: String,
    pub discovered_album: String,
    pub discovered_year: Option<String>,
    pub relative_path: String,
    pub audio_file_count: usize,
    pub match_status: ImportMatchStatus,
    pub candidates: Vec<ImportAlbumCandidate>,
    /// The candidate the server proposes.
    pub selected_candidate: Option<usize>,
    pub already_imported: bool,
}

/// The import of one discovered album as a catalogue album.
pub struct ImportConfirmation {
    pub preview_id: String,
    pub artist_name: String,
    pub album_title: String,
    pub year: Option<String>,
    pub artist_id: Option<String>,
    pub album_id: Option<String>,
}

/// What an import did.
pub struct ImportResultSummary {
    pub total_selected: usize,
    pub imported: usize,
    pub failed: usize,
    pub artists_added: usize,
    pub errors: Vec<String>,
}

// ── Counts ──────────────────────────────────────────────────

/// The number of items for which `p` holds.
pub open spec fn count_items(items: Seq<ImportPreviewItem>, p: spec_fn(ImportPreviewItem) -> bool) -> nat
    decreases items.len(),
{
    if items.len() == 0 {
        0
    } else {
        count_items(items.drop_last(), p) + if p(items.last()) { 1nat } else { 0nat }
    }
}

proof fn lemma_count_items_bound(items: Seq<ImportPreviewItem>, p: spec_fn(ImportPreviewItem) -> bool)
    ensures
        count_items(items, p) <= items.len(),
    decreases items.len(),
{
    if items.len() > 0 {
        lemma_count_items_bound(items.drop_last(), p);
    }
}

/// Matched and not yet imported.
pub open spec fn counts_as_matched(i: ImportPreviewItem) -> bool {
    i.match_status == ImportMatchStatus::Matched && !i.already_imported
}

/// The counts of the preview.
pub struct PreviewCounts {
    pub total: usize,
    /// Matched albums not imported yet.
    pub matched: usize,
    pub partial: usize,
    pub unmatched: usize,
    pub already: usize,
}

/// The counts of the preview: all albums, matched ones not imported yet,
/// partial matches, unmatched ones, and those already imported.
pub fn preview_counts(items: &Vec<ImportPreviewItem>) -> (c: PreviewCounts)
    ensures
        c.total == items@.len(),
        c.matched == count_items(items@, |i: ImportPreviewItem| counts_as_matched(i)),
        c.partial == count_items(items@, |i: ImportPreviewItem| i.match_status == ImportMatchStatus::Partial),
        c.unmatched == count_items(items@, |i: ImportPreviewItem| i.match_status == ImportMatchStatus::Unmatched),
        c.already == count_items(items@, |i: ImportPreviewItem| i.already_imported),
{
    let ghost pm = |i: ImportPreviewItem| counts_as_matched(i);
    let ghost pp = |i: ImportPreviewItem| i.match_status == ImportMatchStatus::Partial;
    let ghost pu = |i: ImportPreviewItem| i.match_status == ImportMatchStatus::Unmatched;
    let ghost pa = |i: ImportPreviewItem| i.already_imported;
    let mut c = PreviewCounts { total: items.len(), matched: 0, partial: 0, unmatched: 0, already: 0 };
    let mut k: usize = 0;
    while k < items.len()
        invariant
            pm == (|i: ImportPreviewItem| counts_as_matched(i)),
            pp == (|i: ImportPreviewItem| i.match_status == ImportMatchStatus::Partial),
            pu == (|i: ImportPreviewItem| i.match_status == ImportMatchStatus::Unmatched),
            pa == (|i: ImportPreviewItem| i.already_imported),
            k <= items.len(),
            c.total == items@.len(),
            c.matched == count_items(items@.take(k as int), pm),
            c.partial == count_items(items@.take(k as int), pp),
            c.unmatched == count_items(items@.take(k as int), pu),
            c.already == count_items(items@.take(k as int), pa),
        decreases items.len() - k,
    {
        proof {
            assert(items@.take(k + 1).drop_last() =~= items@.take(k as int));
            assert(items@.take(k + 1).last() == items@[k as int]);
            lemma_count_items_bound(items@.take(k as int), pm);
            lemma_count_items_bound(items@.take(k as int), pp);
            lemma_count_items_bound(items@.take(k as int), pu);
            lemma_count_items_bound(items@.take(k as int), pa);
        }
        let it = &items[k];
        if it.match_status == ImportMatchStatus::Matched && !it.already_imported {
            c.matched = c.matched + 1;
        }
        if it.match_status == ImportMatchStatus::Partial {
            c.partial = c.partial + 1;
        }
        if it.match_status == ImportMatchStatus::Unmatched {
            c.unmatched = c.unmatched + 1;
        }
        if it.already_imported {
            c.already = c.already + 1;
        }
        k = k + 1;
    }
    assert(items@.take(items@.len() as int) =~= items@);
    c
}

// ── Selections ──────────────────────────────────────────────

/// The map that a list of (id, candidate) entries stands for: a later entry
/// for an id replaces an earlier one.
pub open spec fn entries_map(e: Seq<(String, usize)>) -> Map<Seq<char>, usize>
    decreases e.len(),
{
    if e.len() == 0 {
        Map::empty()
    } else {
        entries_map(e.drop_last()).insert(e.last().0@, e.last().1)
    }
}

/// The entries other than those for `id`.
pub open spec fn entries_without(e: Seq<(String, usize)>, id: Seq<char>) -> Seq<(String, usize)>
    decreases e.len(),
{
    if e.len() == 0 {
        e
    } else if e.last().0@ == id {
        entries_without(e.drop_last(), id)
    } else {
        entries_without(e.drop_last(), id).push(e.last())
    }
}

proof fn lemma_entries_without(e: Seq<(String, usize)>, id: Seq<char>)
    ensures
        entries_map(entries_without(e, id)) == entries_map(e).remove(id),
    decreases e.len(),
{
    if e.len() == 0 {
        assert(entries_map(e).remove(id) =~= Map::empty());
    } else {
        lemma_entries_without(e.drop_last(), id);
        if e.last().0@ == id {
            assert(entries_map(e).remove(id) =~= entries_map(e.drop_last()).remove(id));
        } else {
            let w = entries_without(e.drop_last(), id).push(e.last());
            assert(entries_without(e, id) == w);
            assert(w.drop_last() =~= entries_without(e.drop_last(), id));
            assert(w.last() == e.last());
            assert(entries_map(entries_without(e, id)) =~= entries_map(e.drop_last()).remove(id).insert(
                e.last().0@,
                e.last().1,
            ));
            assert(entries_map(e).remove(id) =~= entries_map(e.drop_last()).remove(id).insert(
                e.last().0@,
                e.last().1,
            ));
        }
    }
}

/// Which candidate each discovered album is to be imported as, by album id.
pub struct Selections {
    entries: Vec<(String, usize)>,
}

impl View for Selections {
    type V = Map<Seq<char>, usize>;

    closed spec fn view(&self) -> Map<Seq<char>, usize> {
        entries_map(self.entries@)
    }
}

impl Selections {
    /// No album selected.
    pub fn new() -> (s: Selections)
        ensures
            s@ == Map::<Seq<char>, usize>::empty(),
    {
        Selections { entries: Vec::new() }
    }

    /// The candidate selected for an album.
    pub fn get(&self, id: &str) -> (r: Option<usize>)
        ensures
            r == (if self@.contains_key(id@) { Some(self@[id@]) } else { None }),
    {
        let e = &self.entries;
        let mut i: usize = e.len();
        assert(e@.take(i as int) =~= e@);
        while i > 0
            invariant
                self.entries@ == e@,
                i <= e@.len(),
                entries_map(e@).contains_key(id@) == entries_map(e@.take(i as int)).contains_key(id@),
                entries_map(e@).contains_key(id@) ==> entries_map(e@)[id@] == entries_map(
                    e@.take(i as int),
                )[id@],
            decreases i,
        {
            assert(e@.take(i as int).drop_last() =~= e@.take(i - 1));
            assert(e@.take(i as int).last() == e@[i - 1]);
            if text_eq(e[i - 1].0.as_str(), id) {
                assert(entries_map(e@.take(i as int)) == entries_map(e@.take(i - 1)).insert(
                    e@[i - 1].0@,
                    e@[i - 1].1,
                ));
                return Some(e[i - 1].1);
            }
            i = i - 1;
        }
        None
    }

    /// Whether an album is selected.
    pub fn contains(&self, id: &str) -> (r: bool)
        ensures
            r == self@.contains_key(id@),
    {
        self.get(id).is_some()
    }

    /// Selects a candidate for an album, replacing any earlier choice.
    pub fn insert(&mut self, id: &str, idx: usize)
        ensures
            final(self)@ == old(self)@.insert(id@, idx),
    {
        self.remove(id);
        let ghost before = self.entries@;
        self.entries.push((owned(id), idx));
        assert(self.entries@.drop_last() =~= before);
    }

    /// Clears the selection of an album.
    pub fn remove(&mut self, id: &str)
        ensures
            final(self)@ == old(self)@.remove(id@),
    {
        let ghost e = self.entries@;
        let mut kept: Vec<(String, usize)> = Vec::new();
        let mut i: usize = 0;
        while i < self.entries.len()
            invariant
                self.entries@ == e,
                i <= e.len(),
                kept@ == entries_without(e.take(i as int), id@),
            decreases e.len() - i,
        {
            assert(e.take(i + 1).drop_last() =~= e.take(i as int));
            assert(e.take(i + 1).last() == e[i as int]);
            if !text_eq(self.entries[i].0.as_str(), id) {
                let entry = (self.entries[i].0.clone(), self.entries[i].1);
                kept.push(entry);
            }
            i = i + 1;
        }
        assert(e.take(e.len() as int) =~= e);
        proof {
            lemma_entries_without(e, id@);
        }
        self.entries = kept;
    }
}

/// Whether the bulk buttons act on an album: not imported yet, with at
/// least one candidate.
pub open spec fn selectable(i: ImportPreviewItem) -> bool {
    !i.already_imported && i.candidates@.len() > 0
}

/// The selections the preview starts with: the server's proposal for every
/// album that has one (a later album with the same id wins).
pub open spec fn initial_map(items: Seq<ImportPreviewItem>) -> Map<Seq<char>, usize>
    decreases items.len(),
{
    if items.len() == 0 {
        Map::empty()
    } else {
        match items.last().selected_candidate {
            Some(idx) => initial_map(items.drop_last()).insert(items.last().id@, idx),
            None => initial_map(items.drop_last()),
        }
    }
}

/// `m` after "select all": the first candidate of every selectable album.
pub open spec fn select_all_map(m: Map<Seq<char>, usize>, items: Seq<ImportPreviewItem>) -> Map<
    Seq<char>,
    usize,
>
    decreases items.len(),
{
    if items.len() == 0 {
        m
    } else if selectable(items.last()) {
        select_all_map(m, items.drop_last()).insert(items.last().id@, 0)
    } else {
        select_all_map(m, items.drop_last())
    }
}

/// `m` after "deselect all": no selectable album selected.
pub open spec fn deselect_all_map(m: Map<Seq<char>, usize>, items: Seq<ImportPreviewItem>) -> Map<
    Seq<char>,
    usize,
>
    decreases items.len(),
{
    if items.len() == 0 {
        m
    } else if selectable(items.last()) {
        deselect_all_map(m, items.drop_last()).remove(items.last().id@)
    } else {
        deselect_all_map(m, items.drop_last())
    }
}

/// The selections the preview starts with.
pub fn initial_selections(items: &Vec<ImportPreviewItem>) -> (s: Selections)
    ensures
        s@ == initial_map(items@),
{
    let mut s = Selections::new();
    let mut i: usize = 0;
    while i < items.len()
        invariant
            i <= items.len(),
            s@ == initial_map(items@.take(i as int)),
        decreases items.len() - i,
    {
        assert(items@.take(i + 1).drop_last() =~= items@.take(i as int));
        assert(items@.take(i + 1).last() == items@[i as int]);
        match items[i].selected_candidate {
            Some(idx) => s.insert(items[i].id.as_str(), idx),
            None => {},
        }
        i = i + 1;
    }
    assert(items@.take(items@.len() as int) =~= items@);
    s
}

/// "Select all": selects the first candidate of every selectable album.
pub fn select_all(s: &mut Selections, items: &Vec<ImportPreviewItem>)
    ensures
        final(s)@ == select_all_map(old(s)@, items@),
{
    let ghost m = s@;
    let mut i: usize = 0;
    while i < items.len()
        invariant
            i <= items.len(),
            s@ == select_all_map(m, items@.take(i as int)),
        decreases items.len() - i,
    {
        assert(items@.take(i + 1).drop_last() =~= items@.take(i as int));
        assert(items@.take(i + 1).last() == items@[i as int]);
        if !items[i].already_imported && items[i].candidates.len() > 0 {
            s.insert(items[i].id.as_str(), 0);
        }
        i = i + 1;
    }
    assert(items@.take(items@.len() as int) =~= items@);
}

/// "Deselect all": clears the selection of every selectable album.
pub fn deselect_all(s: &mut Selections, items: &Vec<ImportPreviewItem>)
    ensures
        final(s)@ == deselect_all_map(old(s)@, items@),
{
    let ghost m = s@;
    let mut i: usize = 0;
    while i < items.len()
        invariant
            i <= items.len(),
            s@ == deselect_all_map(m, items@.take(i as int)),
        decreases items.len() - i,
    {
        assert(items@.take(i + 1).drop_last() =~= items@.take(i as int));
        assert(items@.take(i + 1).last() == items@[i as int]);
        if !items[i].already_imported && items[i].candidates.len() > 0 {
            s.remove(items[i].id.as_str());
        }
        i = i + 1;
    }
    assert(items@.take(items@.len() as int) =~= items@);
}

/// After "select all", every selectable album is selected with its first
/// candidate.
pub proof fn lemma_select_all_selects(m: Map<Seq<char>, usize>, items: Seq<ImportPreviewItem>, k: int)
    requires
        0 <= k < items.len(),
        selectable(items[k]),
    ensures
        select_all_map(m, items).contains_key(items[k].id@),
        select_all_map(m, items)[items[k].id@] == 0,
    decreases items.len(),
{
    if k < items.len() - 1 {
        lemma_select_all_selects(m, items.drop_last(), k);
    }
}

/// After "deselect all", no selectable album is selected.
pub proof fn lemma_deselect_all_clears(m: Map<Seq<char>, usize>, items: Seq<ImportPreviewItem>, k: int)
    requires
        0 <= k < items.len(),
        selectable(items[k]),
    ensures
        !deselect_all_map(m, items).contains_key(items[k].id@),
    decreases items.len(),
{
    if k < items.len() - 1 {
        lemma_deselect_all_clears(m, items.drop_last(), k);
    }
}

/// The selections after the select button of a row: a selected album is
/// cleared, an unselected one with candidates takes its first candidate.
pub open spec fn toggle_row_map(m: Map<Seq<char>, usize>, id: Seq<char>, has_candidates: bool) -> Map<
    Seq<char>,
    usize,
> {
    if m.contains_key(id) {
        m.remove(id)
    } else if has_candidates {
        m.insert(id, 0)
    } else {
        m
    }
}

/// The select button of a row.
pub fn toggle_row(s: &mut Selections, id: &str, has_candidates: bool)
    ensures
        final(s)@ == toggle_row_map(old(s)@, id@, has_candidates),
{
    if s.contains(id) {
        s.remove(id);
    } else if has_candidates {
        s.insert(id, 0);
    }
}

/// The selections after a click on candidate `idx` of an album: clicking
/// the selected candidate clears the selection, any other selects it.
pub open spec fn click_candidate_map(m: Map<Seq<char>, usize>, id: Seq<char>, idx: usize) -> Map<
    Seq<char>,
    usize,
> {
    if m.contains_key(id) && m[id] == idx {
        m.remove(id)
    } else {
        m.insert(id, idx)
    }
}

/// A click on a candidate card.
pub fn click_candidate(s: &mut Selections, id: &str, idx: usize)
    ensures
        final(s)@ == click_candidate_map(old(s)@, id@, idx),
{
    if s.get(id) == Some(idx) {
        s.remove(id);
    } else {
        s.insert(id, idx);
    }
}

/// Pressing a row's select button twice leaves an unselected album as it was.
pub proof fn lemma_toggle_row_twice(m: Map<Seq<char>, usize>, id: Seq<char>, has_candidates: bool)
    requires
        !m.contains_key(id),
    ensures
        toggle_row_map(toggle_row_map(m, id, has_candidates), id, has_candidates) == m,
{
    if has_candidates {
        assert(m.insert(id, 0).remove(id) =~= m);
    }
}

/// Clicking the same candidate twice leaves an unselected album as it was,
/// and a click always leaves the album with at most that candidate.
pub proof fn lemma_click_candidate(m: Map<Seq<char>, usize>, id: Seq<char>, idx: usize)
    ensures
        !m.contains_key(id) ==> click_candidate_map(click_candidate_map(m, id, idx), id, idx) == m,
        click_candidate_map(m, id, idx).contains_key(id) ==> click_candidate_map(m, id, idx)[id] == idx,
{
    if !m.contains_key(id) {
        assert(m.insert(id, idx).remove(id) =~= m);
    }
}

// ── Confirmations ───────────────────────────────────────────

/// The confirmation of an item for the candidate at `idx`.
pub open spec fn confirmation_of(item: ImportPreviewItem, idx: int) -> ImportConfirmation {
    let c = item.candidates@[idx];
    ImportConfirmation {
        preview_id: item.id,
        artist_name: c.artist_name,
        album_title: c.album_title,
        year: c.release_date,
        artist_id: Some(c.artist_id),
        album_id: c.album_id,
    }
}

/// Whether an item is confirmed: it is selected with an existing candidate.
pub open spec fn confirmed(item: ImportPreviewItem, m: Map<Seq<char>, usize>) -> bool {
    m.contains_key(item.id@) && m[item.id@] < item.candidates@.len()
}

/// The confirmations of the items, in their order.
pub open spec fn confirmations_of(items: Seq<ImportPreviewItem>, m: Map<Seq<char>, usize>) -> Seq<
    ImportConfirmation,
>
    decreases items.len(),
{
    if items.len() == 0 {
        Seq::empty()
    } else {
        let rest = confirmations_of(items.drop_last(), m);
        if confirmed(items.last(), m) {
            rest.push(confirmation_of(items.last(), m[items.last().id@] as int))
        } else {
            rest
        }
    }
}

/// What is sent for an item selected with candidate `idx`: the item's id
/// and the candidate's artist, album, year and ids.
pub open spec fn sent_for(c: ImportConfirmation, item: ImportPreviewItem, idx: int) -> bool {
    let cand = item.candidates@[idx];
    &&& 0 <= idx < item.candidates@.len()
    &&& c.preview_id == item.id
    &&& c.artist_name == cand.artist_name
    &&& c.album_title == cand.album_title
    &&& c.year == cand.release_date
    &&& c.artist_id == Some(cand.artist_id)
    &&& c.album_id == cand.album_id
}

/// A confirmation is one that an item selected in `m` sends.
pub open spec fn sent_by_some(c: ImportConfirmation, items: Seq<ImportPreviewItem>, m: Map<Seq<char>, usize>) -> bool {
    exists|i: int|
        0 <= i < items.len() && m.contains_key(items[i].id@) && sent_for(c, items[i], m[items[i].id@] as int)
}

/// Every confirmation sent comes from an item selected with one of its
/// candidates and carries that candidate's artist, album, year and ids, not
/// what was discovered on disk.
pub proof fn lemma_confirmations_from_candidates(items: Seq<ImportPreviewItem>, m: Map<Seq<char>, usize>)
    ensures
        forall|k: int|
            0 <= k < confirmations_of(items, m).len() ==> sent_by_some(#[trigger] confirmations_of(items, m)[k], items, m),
    decreases items.len(),
{
    if items.len() > 0 {
        let p = items.drop_last();
        lemma_confirmations_from_candidates(p, m);
        let rest = confirmations_of(p, m);
        let all = confirmations_of(items, m);
        assert forall|k: int| 0 <= k < all.len() implies sent_by_some(#[trigger] all[k], items, m) by {
            if k < rest.len() {
                assert(all[k] == rest[k]);
                assert(sent_by_some(rest[k], p, m));
                let i = choose|i: int|
                    0 <= i < p.len() && m.contains_key(p[i].id@) && sent_for(rest[k], p[i], m[p[i].id@] as int);
                assert(items[i] == p[i]);
            } else {
                let i = items.len() - 1;
                assert(items[i] == items.last());
                assert(all[k] == confirmation_of(items.last(), m[items.last().id@] as int));
            }
        }
    }
}

fn confirm_one(item: &ImportPreviewItem, idx: usize) -> (c: ImportConfirmation)
    requires
        idx < item.candidates@.len(),
    ensures
        c == confirmation_of(*item, idx as int),
        sent_for(c, *item, idx as int),
{
    let cand = &item.candidates[idx];
    ImportConfirmation {
        preview_id: item.id.clone(),
        artist_name: cand.artist_name.clone(),
        album_title: cand.album_title.clone(),
        year: clone_opt(&cand.release_date),
        artist_id: Some(cand.artist_id.clone()),
        album_id: clone_opt(&cand.album_id),
    }
}

/// What "import selected" sends: one confirmation per album selected with an
/// existing candidate, in the order of the preview.
pub fn confirmations(items: &Vec<ImportPreviewItem>, s: &Selections) -> (r: Vec<ImportConfirmation>)
    ensures
        r@ == confirmations_of(items@, s@),
        forall|k: int| 0 <= k < r@.len() ==> sent_by_some(#[trigger] r@[k], items@, s@),
{
    proof {
        lemma_confirmations_from_candidates(items@, s@);
    }
    let mut r: Vec<ImportConfirmation> = Vec::new();
    let mut i: usize = 0;
    while i < items.len()
        invariant
            i <= items.len(),
            r@ == confirmations_of(items@.take(i as int), s@),
        decreases items.len() - i,
    {
        assert(items@.take(i + 1).drop_last() =~= items@.take(i as int));
        assert(items@.take(i + 1).last() == items@[i as int]);
        match s.get(items[i].id.as_str()) {
            Some(idx) => {
                if idx < items[i].candidates.len() {
                    r.push(confirm_one(&items[i], idx));
                }
            },
            None => {},
        }
        i = i + 1;
    }
    assert(items@.take(items@.len() as int) =~= items@);
    r
}

// ── Labels of the preview ───────────────────────────────────

/// The class of a preview row: dimmed once imported, highlighted while
/// selected.
pub fn row_class(already: bool, selected: bool) -> (r: &'static str)
    ensures
        r@ == (if already {
            "flex items-center gap-3.5 px-5 py-3.5 border-b border-black/[.04] dark:border-white/[.04] transition-[background] duration-[120ms] last:border-b-0 opacity-50"@
        } else if selected {
            "flex items-center gap-3.5 px-5 py-3.5 border-b border-black/[.04] dark:border-white/[.04] transition-[background] duration-[120ms] last:border-b-0 bg-blue-500/[.04] dark:bg-blue-500/[.06]"@
        } else {
            "flex items-center gap-3.5 px-5 py-3.5 border-b border-black/[.04] dark:border-white/[.04] transition-[background] duration-[120ms] last:border-b-0 hover:bg-blue-500/[.03] dark:hover:bg-blue-500/[.05]"@
        }),
{
    if already {
        "flex items-center gap-3.5 px-5 py-3.5 border-b border-black/[.04] dark:border-white/[.04] transition-[background] duration-[120ms] last:border-b-0 opacity-50"
    } else if selected {
        "flex items-center gap-3.5 px-5 py-3.5 border-b border-black/[.04] dark:border-white/[.04] transition-[background] duration-[120ms] last:border-b-0 bg-blue-500/[.04] dark:bg-blue-500/[.06]"
    } else {
        "flex items-center gap-3.5 px-5 py-3.5 border-b border-black/[.04] dark:border-white/[.04] transition-[background] duration-[120ms] last:border-b-0 hover:bg-blue-500/[.03] dark:hover:bg-blue-500/[.05]"
    }
}

/// The class of the status dot of a preview row.
pub fn status_dot_class(status: ImportMatchStatus) -> (r: &'static str)
    ensures
        r@ == (match status {
            ImportMatchStatus::Matched => "size-2.5 rounded-full bg-green-500 shrink-0"@,
            ImportMatchStatus::Partial => "size-2.5 rounded-full bg-amber-500 shrink-0"@,
            ImportMatchStatus::Unmatched => "size-2.5 rounded-full bg-red-500 shrink-0"@,
        }),
{
    match status {
        ImportMatchStatus::Matched => "size-2.5 rounded-full bg-green-500 shrink-0",
        ImportMatchStatus::Partial => "size-2.5 rounded-full bg-amber-500 shrink-0",
        ImportMatchStatus::Unmatched => "size-2.5 rounded-full bg-red-500 shrink-0",
    }
}

/// The tooltip of a row's select button.
pub fn select_button_title(selected: bool) -> (r: &'static str)
    ensures
        r@ == (if selected { "Deselect"@ } else { "Select for import"@ }),
{
    if selected {
        "Deselect"
    } else {
        "Select for import"
    }
}

/// The heading of a row's candidate list.
pub fn candidates_heading(count: usize) -> (r: &'static str)
    ensures
        r@ == (if count == 1 { "Match:"@ } else { "Candidates:"@ }),
{
    if count == 1 {
        "Match:"
    } else {
        "Candidates:"
    }
}

/// The class of a candidate's confidence: green from 85, amber from 60,
/// red below.
pub fn candidate_confidence_class(confidence: u8) -> (r: &'static str)
    ensures
        r@ == (if confidence >= 85 {
            "text-[11px] font-bold text-green-600 dark:text-green-400"@
        } else if confidence >= 60 {
            "text-[11px] font-bold text-amber-600 dark:text-amber-400"@
        } else {
            "text-[11px] font-bold text-red-600 dark:text-red-400"@
        }),
{
    if confidence >= 85 {
        "text-[11px] font-bold text-green-600 dark:text-green-400"
    } else if confidence >= 60 {
        "text-[11px] font-bold text-amber-600 dark:text-amber-400"
    } else {
        "text-[11px] font-bold text-red-600 dark:text-red-400"
    }
}

/// The badge of a candidate.
#[derive(Debug, Clone, Copy, PartialEq, Eq, Structural)]
pub enum CandidateBadge {
    /// Not in the library yet.
    New,
    Acquired,
    Monitored,
    Nothing,
}

/// The badge of a candidate: new albums first, then acquired, then monitored.
pub fn candidate_badge(c: &ImportAlbumCandidate) -> (r: CandidateBadge)
    ensures
        r == (if c.album_id is None {
            CandidateBadge::New
        } else if c.acquired {
            CandidateBadge::Acquired
        } else if c.monitored {
            CandidateBadge::Monitored
        } else {
            CandidateBadge::Nothing
        }),
{
    if c.album_id.is_none() {
        CandidateBadge::New
    } else if c.acquired {
        CandidateBadge::Acquired
    } else if c.monitored {
        CandidateBadge::Monitored
    } else {
        CandidateBadge::Nothing
    }
}

/// The class of a candidate card and of its indicator, by whether it is the
/// selected candidate.
pub fn candidate_classes(selected: bool) -> (r: (&'static str, &'static str))
    ensures
        r.0@ == (if selected {
            "flex items-center gap-2.5 px-3 py-2 rounded-lg border cursor-pointer transition-all duration-150 bg-blue-500/[.06] border-blue-500/30 dark:bg-blue-500/[.08] dark:border-blue-500/40"@
        } else {
            "flex items-center gap-2.5 px-3 py-2 rounded-lg border cursor-pointer transition-all duration-150 bg-white/40 border-black/[.06] dark:bg-zinc-800/40 dark:border-white/[.06] hover:border-blue-500/20 dark:hover:border-blue-500/30"@
        }),
        r.1@ == (if selected {
            "size-4 rounded-full border-2 border-blue-500 bg-blue-500"@
        } else {
            "size-4 rounded-full border-2 border-zinc-300 dark:border-zinc-600"@
        }),
{
    if selected {
        (
            "flex items-center gap-2.5 px-3 py-2 rounded-lg border cursor-pointer transition-all duration-150 bg-blue-500/[.06] border-blue-500/30 dark:bg-blue-500/[.08] dark:border-blue-500/40",
            "size-4 rounded-full border-2 border-blue-500 bg-blue-500",
        )
    } else {
        (
            "flex items-center gap-2.5 px-3 py-2 rounded-lg border cursor-pointer transition-all duration-150 bg-white/40 border-black/[.06] dark:bg-zinc-800/40 dark:border-white/[.06] hover:border-blue-500/20 dark:hover:border-blue-500/30",
            "size-4 rounded-full border-2 border-zinc-300 dark:border-zinc-600",
        )
    }
}

/// The panel title of the preview.
pub fn discovered_title(total: usize) -> (r: String)
    ensures
        r@ == decimal(total as nat) + " Discovered Albums"@,
{
    let mut s = decimal_string(total as u64);
    push_str(&mut s, " Discovered Albums");
    s
}

/// The label of the import button.
pub fn import_button_label(importing: bool) -> (r: &'static str)
    ensures
        r@ == (if importing { "Importing..."@ } else { "Import Selected"@ }),
{
    if importing {
        "Importing..."
    } else {
        "Import Selected"
    }
}

/// The link that looks up a discovered artist on the artists page.
pub fn artist_search_link(name: &str) -> (r: String)
    ensures
        r@ == "/artists?q="@ + crate::text::percent_encoding(vstd::utf8::encode_utf8(name@), false),
{
    let q = crate::session::js_encode_uri_component(name);
    concat2("/artists?q=", q.as_str())
}

/// The banner after an import: its class (green when nothing failed, amber
/// otherwise) and its text.
pub fn import_banner(s: &ImportResultSummary) -> (r: (&'static str, String))
    ensures
        r.0@ == (if s.failed == 0 {
            "mb-4 px-5 py-3 rounded-xl border bg-green-500/[.06] border-green-500/20 text-green-700 dark:text-green-300 text-sm"@
        } else {
            "mb-4 px-5 py-3 rounded-xl border bg-amber-500/[.06] border-amber-500/20 text-amber-700 dark:text-amber-300 text-sm"@
        }),
        r.1@ == "Imported "@ + decimal(s.imported as nat) + " of "@ + decimal(s.total_selected as nat)
            + " albums"@ + (if s.artists_added > 0 {
            " ("@ + decimal(s.artists_added as nat) + " new artists added)"@
        } else {
            Seq::empty()
        }),
{
    let class = if s.failed == 0 {
        "mb-4 px-5 py-3 rounded-xl border bg-green-500/[.06] border-green-500/20 text-green-700 dark:text-green-300 text-sm"
    } else {
        "mb-4 px-5 py-3 rounded-xl border bg-amber-500/[.06] border-amber-500/20 text-amber-700 dark:text-amber-300 text-sm"
    };
    let mut t = concat2("Imported ", decimal_string(s.imported as u64).as_str());
    push_str(&mut t, " of ");
    push_str(&mut t, decimal_string(s.total_selected as u64).as_str());
    push_str(&mut t, " albums");
    let ghost base = t@;
    if s.artists_added > 0 {
        push_str(&mut t, " (");
        push_str(&mut t, decimal_string(s.artists_added as u64).as_str());
        push_str(&mut t, " new artists added)");
    } else {
        assert(base + Seq::<char>::empty() =~= base);
    }
    (class, t)
}

/// The toast after an import: whether it reports success, and its text.
/// `via` names how an external import placed the files.
pub fn import_toast(s: &ImportResultSummary, via: Option<&str>) -> (r: (bool, String))
    ensures
        r.0 == (s.failed == 0),
        r.1@ == if s.failed == 0 {
            match via {
                Some(m) => "Imported "@ + decimal(s.imported as nat) + " albums via "@ + m@,
                None => "Imported "@ + decimal(s.imported as nat) + " albums"@,
            }
        } else {
            "Imported "@ + decimal(s.imported as nat) + "/"@ + decimal(s.total_selected as nat) + ". "@
                + decimal(s.failed as nat) + " failed."@
        },
{
    let mut t = concat2("Imported ", decimal_string(s.imported as u64).as_str());
    if s.failed == 0 {
        match via {
            Some(m) => {
                push_str(&mut t, " albums via ");
                push_str(&mut t, m);
            },
            None => {
                push_str(&mut t, " albums");
            },
        }
        (true, t)
    } else {
        push_str(&mut t, "/");
        push_str(&mut t, decimal_string(s.total_selected as u64).as_str());
        push_str(&mut t, ". ");
        push_str(&mut t, decimal_string(s.failed as u64).as_str());
        push_str(&mut t, " failed.");
        (false, t)
    }
}

/// The class of a tab or mode button, by whether it is the active one.
pub fn tab_class(active: bool) -> (r: &'static str)
    ensures
        r@ == (if active {
            "px-4 py-2 text-sm font-medium rounded-lg bg-blue-500/10 text-blue-600 dark:text-blue-400 border border-blue-500/20 cursor-pointer transition-all duration-150"@
        } else {
            "px-4 py-2 text-sm font-medium rounded-lg text-zinc-500 dark:text-zinc-400 border border-transparent cursor-pointer transition-all duration-150 hover:text-zinc-700 dark:hover:text-zinc-300 hover:bg-zinc-100/50 dark:hover:bg-zinc-800/50"@
        }),
{
    if active {
        "px-4 py-2 text-sm font-medium rounded-lg bg-blue-500/10 text-blue-600 dark:text-blue-400 border border-blue-500/20 cursor-pointer transition-all duration-150"
    } else {
        "px-4 py-2 text-sm font-medium rounded-lg text-zinc-500 dark:text-zinc-400 border border-transparent cursor-pointer transition-all duration-150 hover:text-zinc-700 dark:hover:text-zinc-300 hover:bg-zinc-100/50 dark:hover:bg-zinc-800/50"
    }
}

// ── External import ─────────────────────────────────────────

/// How an external import places the files in the library.
#[derive(Debug, Clone, Copy, PartialEq, Eq, Structural)]
pub enum ManualImportMode {
    Copy,
    Hardlink,
}

/// What each import mode does, as the browser explains it.
pub fn import_mode_description(mode: ManualImportMode) -> (r: &'static str)
    ensures
        r@ == (match mode {
            ManualImportMode::Copy => "Creates independent copies of each file."@,
            ManualImportMode::Hardlink => "Zero extra disk space. Falls back to copy if cross-device."@,
        }),
{
    match mode {
        ManualImportMode::Copy => "Creates independent copies of each file.",
        ManualImportMode::Hardlink => "Zero extra disk space. Falls back to copy if cross-device.",
    }
}

/// The step of the external import.
pub enum ExternalStep {
    /// Browsing the server's folders.
    Browse,
    /// Previewing the albums found under a folder.
    Preview { source: String },
}

/// Scanning a folder moves to its preview.
pub fn scan_folder(path: &str) -> (r: ExternalStep)
    ensures
        r matches ExternalStep::Preview { source } && source@ == path@,
{
    ExternalStep::Preview { source: owned(path) }
}

/// Going back from a preview returns to the browser.
pub fn back_to_browser() -> (r: ExternalStep)
    ensures
        r is Browse,
{
    ExternalStep::Browse
}

/// An entry of a server folder.
pub struct BrowseEntry {
    pub name: String,
    pub path: String,
    pub is_dir: bool,
    pub is_audio: bool,
}

/// The number of entries for which `p` holds.
pub open spec fn count_entries(e: Seq<BrowseEntry>, p: spec_fn(BrowseEntry) -> bool) -> nat
    decreases e.len(),
{
    if e.len() == 0 {
        0
    } else {
        count_entries(e.drop_last(), p) + if p(e.last()) { 1nat } else { 0nat }
    }
}

proof fn lemma_count_entries_bound(e: Seq<BrowseEntry>, p: spec_fn(BrowseEntry) -> bool)
    ensures
        count_entries(e, p) <= e.len(),
    decreases e.len(),
{
    if e.len() > 0 {
        lemma_count_entries_bound(e.drop_last(), p);
    }
}

/// The summary of a folder: `D dirs, A audio files`.
pub fn folder_summary(entries: &Vec<BrowseEntry>) -> (r: String)
    ensures
        r@ == decimal(count_entries(entries@, |e: BrowseEntry| e.is_dir)) + " dirs, "@ + decimal(
            count_entries(entries@, |e: BrowseEntry| e.is_audio),
        ) + " audio files"@,
{
    let ghost pd = |e: BrowseEntry| e.is_dir;
    let ghost pa = |e: BrowseEntry| e.is_audio;
    let mut dirs: usize = 0;
    let mut audio: usize = 0;
    let mut i: usize = 0;
    while i < entries.len()
        invariant
            pd == (|e: BrowseEntry| e.is_dir),
            pa == (|e: BrowseEntry| e.is_audio),
            i <= entries.len(),
            dirs == count_entries(entries@.take(i as int), pd),
            audio == count_entries(entries@.take(i as int), pa),
        decreases entries.len() - i,
    {
        proof {
            assert(entries@.take(i + 1).drop_last() =~= entries@.take(i as int));
            assert(entries@.take(i + 1).last() == entries@[i as int]);
            lemma_count_entries_bound(entries@.take(i as int), pd);
            lemma_count_entries_bound(entries@.take(i as int), pa);
        }
        if entries[i].is_dir {
            dirs = dirs + 1;
        }
        if entries[i].is_audio {
            audio = audio + 1;
        }
        i = i + 1;
    }
    assert(entries@.take(entries@.len() as int) =~= entries@);
    let mut s = decimal_string(dirs as u64);
    push_str(&mut s, " dirs, ");
    push_str(&mut s, decimal_string(audio as u64).as_str());
    push_str(&mut s, " audio files");
    s
}

/// The class of a file's icon: green for audio files.
pub fn file_icon_class(is_audio: bool) -> (r: &'static str)
    ensures
        r@ == (if is_audio {
            "size-4 text-green-500 dark:text-green-400 shrink-0"@
        } else {
            "size-4 text-zinc-300 dark:text-zinc-600 shrink-0"@
        }),
{
    if is_audio {
        "size-4 text-green-500 dark:text-green-400 shrink-0"
    } else {
        "size-4 text-zinc-300 dark:text-zinc-600 shrink-0"
    }
}

/// The parent that `Path::parent` gives for a path, as text.
pub uninterp spec fn path_parent_text(p: Seq<char>) -> Option<Seq<char>>;

/// The parent folder of a path.
///
/// Trusted: `std::path::Path::parent`, whose result depends on the path
/// alone (named `path_parent_text`); its documentation says that a path
/// that is a root, and the empty path, have no parent. The parent of a
/// path given as UTF-8 text is UTF-8 text as well, so the conversion back
/// to a string loses nothing.
#[verifier::external_body]
fn path_parent(p: &str) -> (r: Option<String>)
    ensures
        (match r {
            Some(x) => Some(x@),
            None => None,
        }) == path_parent_text(p@),
        p@ == "/"@ ==> r is None,
        p@.len() == 0 ==> r is None,
{
    std::path::Path::new(p).parent().map(|q| q.to_string_lossy().to_string())
}

/// The folder that ".." browses to: the parent of the current folder, or
/// the root where there is none.
pub fn parent_folder(current: &str) -> (r: String)
    ensures
        r@ == (match path_parent_text(current@) {
            Some(q) => q,
            None => "/"@,
        }),
{
    up_target(path_parent(current))
}

/// The folder that ".." browses to, given the parent of the current folder.
pub fn up_target(parent: Option<String>) -> (r: String)
    ensures
        r@ == (match parent {
            Some(q) => q@,
            None => "/"@,
        }),
{
    match parent {
        Some(q) => q,
        None => owned("/"),
    }
}

/// The state of the folder browser.
pub struct BrowseState {
    pub current_path: String,
    pub path_input: String,
    pub error: Option<String>,
    pub entries: Vec<BrowseEntry>,
    pub browsing: bool,
}

/// The browser once the server answered a request for `path`: on success
/// the folder becomes current and its entries are shown; on failure the
/// error is shown, the entries are cleared and the current folder stays.
pub fn finish_browse(s: BrowseState, path: &str, result: Result<Vec<BrowseEntry>, String>) -> (r: BrowseState)
    ensures
        !r.browsing,
        match result {
            Ok(entries) => r.current_path@ == path@ && r.path_input@ == path@ && r.error is None
                && r.entries@ == entries@,
            Err(e) => r.current_path == s.current_path && r.path_input == s.path_input && r.error
                == Some(e) && r.entries@.len() == 0,
        },
{
    match result {
        Ok(entries) => BrowseState {
            current_path: owned(path),
            path_input: owned(path),
            error: None,
            entries,
            browsing: false,
        },
        Err(e) => BrowseState {
            current_path: s.current_path,
            path_input: s.path_input,
            error: Some(e),
            entries: Vec::new(),
            browsing: false,
        },
    }
}

} // verus!
