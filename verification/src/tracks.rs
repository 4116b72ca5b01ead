//! The library's track table: filtering by status and search text, sorting
//! by column, and grouping by artist or album.
use vstd::prelude::*;
use crate::order::{KeyPart, KeyVal, key_val, keys_val, sort_order, apply_order, is_sort_order};
use crate::seqs::{select, retain_flags, count_true, lemma_count_true_push, distinct_keys, lemma_select_push, lemma_distinct_keys_unique, lemma_select_none, lemma_distinct_keys_push, lemma_distinct_keys_contains};
use crate::text::{
    chars_of, contains_chars, contains_text, lowercase, lowercase_text, trim, trim_text, push_str,
    push_chars, decimal, decimal_string, concat3, owned, string_views,
};

verus! {

/// A track of an album.
pub struct TrackInfo {
    pub title: String,
    pub version: Option<String>,
    pub disc_number: u32,
    pub track_number: u32,
    pub duration_secs: u32,
    pub duration_display: String,
    pub isrc: Option<String>,
    pub monitored: bool,
    pub acquired: bool,
    pub explicit: bool,
}

/// A track of the library, with its album and artist.
pub struct LibraryTrack {
    pub track: TrackInfo,
    pub album_title: String,
    pub artist_name: String,
    pub artist_id: String,
    pub album_id: String,
    pub album_cover_url: Option<String>,
}

// ── Sort direction ──────────────────────────────────────────

/// Direction of the track sort.
#[derive(Debug, Clone, Copy, PartialEq, Eq, Structural)]
pub enum SortDir {
    Asc,
    Desc,
}

impl SortDir {
    /// The opposite direction.
    pub fn toggle(self) -> (r: SortDir)
        ensures
            r == (match self {
                SortDir::Asc => SortDir::Desc,
                SortDir::Desc => SortDir::Asc,
            }),
    {
        match self {
            SortDir::Asc => SortDir::Desc,
            SortDir::Desc => SortDir::Asc,
        }
    }
}

/// Toggling the direction twice gives back the direction.
pub proof fn lemma_toggle_twice(d: SortDir)
    ensures
        (match (match d {
            SortDir::Asc => SortDir::Desc,
            SortDir::Desc => SortDir::Asc,
        }) {
            SortDir::Asc => SortDir::Desc,
            SortDir::Desc => SortDir::Asc,
        }) == d,
{
}

// ── Sort key ────────────────────────────────────────────────

/// The column the track table is sorted by.
#[derive(Debug, Clone, Copy, PartialEq, Eq, Structural)]
pub enum SortKey {
    Title,
    Artist,
    Album,
    Duration,
}

/// The form value of a sort key.
pub open spec fn sort_key_text(k: SortKey) -> Seq<char> {
    match k {
        SortKey::Title => "az"@,
        SortKey::Artist => "artist"@,
        SortKey::Album => "album"@,
        SortKey::Duration => "duration"@,
    }
}

/// The sort key a form value selects; anything unknown selects the artist.
pub open spec fn sort_key_parse(s: Seq<char>) -> SortKey {
    if s == "az"@ {
        SortKey::Title
    } else if s == "album"@ {
        SortKey::Album
    } else if s == "duration"@ {
        SortKey::Duration
    } else {
        SortKey::Artist
    }
}

impl SortKey {
    /// The form value of the key.
    pub fn value(self) -> (r: &'static str)
        ensures
            r@ == sort_key_text(self),
    {
        match self {
            SortKey::Title => "az",
            SortKey::Artist => "artist",
            SortKey::Album => "album",
            SortKey::Duration => "duration",
        }
    }

    /// The key a form value selects.
    pub fn from_value(s: &str) -> (r: SortKey)
        ensures
            r == sort_key_parse(s@),
    {
        if crate::text::text_eq(s, "az") {
            SortKey::Title
        } else if crate::text::text_eq(s, "album") {
            SortKey::Album
        } else if crate::text::text_eq(s, "duration") {
            SortKey::Duration
        } else {
            SortKey::Artist
        }
    }
}

/// Reading back the form value of a sort key gives the key.
pub proof fn lemma_sort_key_round_trip(k: SortKey)
    ensures
        sort_key_parse(sort_key_text(k)) == k,
{
    reveal_strlit("az");
    reveal_strlit("artist");
    reveal_strlit("album");
    reveal_strlit("duration");
    match k {
        SortKey::Title => {},
        SortKey::Artist => {
            assert("artist"@ != "az"@ && "artist"@ != "album"@ && "artist"@ != "duration"@) by {
                assert("artist"@.len() != "az"@.len());
                assert("artist"@[1] != "album"@[1]);
                assert("artist"@.len() != "duration"@.len());
            }
        },
        SortKey::Album => {
            assert("album"@ != "az"@) by {
                assert("album"@.len() != "az"@.len());
            }
        },
        SortKey::Duration => {
            assert("duration"@ != "az"@ && "duration"@ != "album"@) by {
                assert("duration"@.len() != "az"@.len());
                assert("duration"@.len() != "album"@.len());
            }
        },
    }
}

// ── Filter key ──────────────────────────────────────────────

/// Which tracks the table shows.
#[derive(Debug, Clone, Copy, PartialEq, Eq, Structural)]
pub enum FilterKey {
    All,
    Wanted,
    Acquired,
    Idle,
}

/// The form value of a filter.
pub open spec fn filter_key_text(k: FilterKey) -> Seq<char> {
    match k {
        FilterKey::All => "all"@,
        FilterKey::Wanted => "wanted"@,
        FilterKey::Acquired => "acquired"@,
        FilterKey::Idle => "idle"@,
    }
}

/// The filter a form value selects; anything unknown selects all tracks.
pub open spec fn filter_key_parse(s: Seq<char>) -> FilterKey {
    if s == "wanted"@ {
        FilterKey::Wanted
    } else if s == "acquired"@ {
        FilterKey::Acquired
    } else if s == "idle"@ {
        FilterKey::Idle
    } else {
        FilterKey::All
    }
}

/// Whether a track passes a filter.
pub open spec fn filter_matches(k: FilterKey, t: TrackInfo) -> bool {
    match k {
        FilterKey::All => true,
        FilterKey::Wanted => t.monitored && !t.acquired,
        FilterKey::Acquired => t.acquired,
        FilterKey::Idle => !t.monitored && !t.acquired,
    }
}

impl FilterKey {
    /// The form value of the filter.
    pub fn value(self) -> (r: &'static str)
        ensures
            r@ == filter_key_text(self),
    {
        match self {
            FilterKey::All => "all",
            FilterKey::Wanted => "wanted",
            FilterKey::Acquired => "acquired",
            FilterKey::Idle => "idle",
        }
    }

    /// The filter a form value selects.
    pub fn from_value(s: &str) -> (r: FilterKey)
        ensures
            r == filter_key_parse(s@),
    {
        if crate::text::text_eq(s, "wanted") {
            FilterKey::Wanted
        } else if crate::text::text_eq(s, "acquired") {
            FilterKey::Acquired
        } else if crate::text::text_eq(s, "idle") {
            FilterKey::Idle
        } else {
            FilterKey::All
        }
    }

    /// Whether a track passes the filter.
    pub fn matches(self, track: &TrackInfo) -> (r: bool)
        ensures
            r == filter_matches(self, *track),
    {
        match self {
            FilterKey::All => true,
            FilterKey::Wanted => track.monitored && !track.acquired,
            FilterKey::Acquired => track.acquired,
            FilterKey::Idle => !track.monitored && !track.acquired,
        }
    }
}

/// Reading back the form value of a filter gives the filter.
pub proof fn lemma_filter_key_round_trip(k: FilterKey)
    ensures
        filter_key_parse(filter_key_text(k)) == k,
{
    reveal_strlit("all");
    reveal_strlit("wanted");
    reveal_strlit("acquired");
    reveal_strlit("idle");
    match k {
        FilterKey::All => {
            assert("all"@ != "wanted"@ && "all"@ != "acquired"@ && "all"@ != "idle"@) by {
                assert("all"@.len() != "wanted"@.len());
                assert("all"@.len() != "acquired"@.len());
                assert("all"@.len() != "idle"@.len());
            }
        },
        FilterKey::Wanted => {},
        FilterKey::Acquired => {
            assert("acquired"@ != "wanted"@) by {
                assert("acquired"@.len() != "wanted"@.len());
            }
        },
        FilterKey::Idle => {
            assert("idle"@ != "wanted"@ && "idle"@ != "acquired"@) by {
                assert("idle"@.len() != "wanted"@.len());
                assert("idle"@.len() != "acquired"@.len());
            }
        },
    }
}

/// Every track passes exactly one of the wanted, acquired and idle filters.
pub proof fn lemma_status_filters_partition(t: TrackInfo)
    ensures
        filter_matches(FilterKey::Wanted, t) || filter_matches(FilterKey::Acquired, t)
            || filter_matches(FilterKey::Idle, t),
        !(filter_matches(FilterKey::Wanted, t) && filter_matches(FilterKey::Acquired, t)),
        !(filter_matches(FilterKey::Wanted, t) && filter_matches(FilterKey::Idle, t)),
        !(filter_matches(FilterKey::Acquired, t) && filter_matches(FilterKey::Idle, t)),
{
}

/// The filter after a click on a stat card: clicking the active filter
/// goes back to all tracks, clicking another selects it.
pub open spec fn filter_after_click(current: FilterKey, clicked: FilterKey) -> FilterKey {
    if current == clicked {
        FilterKey::All
    } else {
        clicked
    }
}

/// The filter after a click on a stat card.
pub fn toggle_filter(current: FilterKey, clicked: FilterKey) -> (r: FilterKey)
    ensures
        r == filter_after_click(current, clicked),
{
    if current == clicked {
        FilterKey::All
    } else {
        clicked
    }
}

// ── Group by ────────────────────────────────────────────────

/// How the track table groups its rows.
#[derive(Debug, Clone, Copy, PartialEq, Eq, Structural)]
pub enum GroupBy {
    Ungrouped,
    Artist,
    Album,
}

/// The form value of a grouping.
pub open spec fn group_by_text(g: GroupBy) -> Seq<char> {
    match g {
        GroupBy::Ungrouped => "none"@,
        GroupBy::Artist => "artist"@,
        GroupBy::Album => "album"@,
    }
}

/// The grouping a form value selects; anything unknown selects none.
pub open spec fn group_by_parse(s: Seq<char>) -> GroupBy {
    if s == "artist"@ {
        GroupBy::Artist
    } else if s == "album"@ {
        GroupBy::Album
    } else {
        GroupBy::Ungrouped
    }
}

impl GroupBy {
    /// The form value of the grouping.
    pub fn value(self) -> (r: &'static str)
        ensures
            r@ == group_by_text(self),
    {
        match self {
            GroupBy::Ungrouped => "none",
            GroupBy::Artist => "artist",
            GroupBy::Album => "album",
        }
    }

    /// The grouping a form value selects.
    pub fn from_value(s: &str) -> (r: GroupBy)
        ensures
            r == group_by_parse(s@),
    {
        if crate::text::text_eq(s, "artist") {
            GroupBy::Artist
        } else if crate::text::text_eq(s, "album") {
            GroupBy::Album
        } else {
            GroupBy::Ungrouped
        }
    }
}

/// Reading back the form value of a grouping gives the grouping.
pub proof fn lemma_group_by_round_trip(g: GroupBy)
    ensures
        group_by_parse(group_by_text(g)) == g,
{
    reveal_strlit("none");
    reveal_strlit("artist");
    reveal_strlit("album");
    match g {
        GroupBy::Ungrouped => {
            assert("none"@ != "artist"@ && "none"@ != "album"@) by {
                assert("none"@.len() != "artist"@.len());
                assert("none"@.len() != "album"@.len());
            }
        },
        GroupBy::Artist => {},
        GroupBy::Album => {
            assert("album"@ != "artist"@) by {
                assert("album"@.len() != "artist"@.len());
            }
        },
    }
}

// ── Sorting by column ───────────────────────────────────────

/// The sort state after a click on a column header: the active column flips
/// its direction, another column becomes active in ascending order.
pub open spec fn sort_after_click(key: SortKey, dir: SortDir, col: SortKey) -> (SortKey, SortDir) {
    if key == col {
        (
            key,
            match dir {
                SortDir::Asc => SortDir::Desc,
                SortDir::Desc => SortDir::Asc,
            },
        )
    } else {
        (col, SortDir::Asc)
    }
}

/// The sort state after a click on a column header.
pub fn sort_click(key: SortKey, dir: SortDir, col: SortKey) -> (r: (SortKey, SortDir))
    ensures
        r == sort_after_click(key, dir, col),
{
    if key == col {
        (key, dir.toggle())
    } else {
        (col, SortDir::Asc)
    }
}

/// Clicking the same column header twice gives back the sort state.
pub proof fn lemma_sort_click_twice(key: SortKey, dir: SortDir)
    ensures
        sort_after_click(sort_after_click(key, dir, key).0, sort_after_click(key, dir, key).1, key)
            == (key, dir),
{
}

/// The sort key of a row: texts compared in lower case, then disc and
/// track numbers, the way the table orders its columns.
pub open spec fn track_sort_key(row: LibraryTrack, sort: SortKey) -> Seq<KeyVal> {
    match sort {
        SortKey::Title => seq![KeyVal::Text(lowercase_text(row.track.title@))],
        SortKey::Album => seq![
            KeyVal::Text(lowercase_text(row.album_title@)),
            KeyVal::Num(row.track.disc_number as int),
            KeyVal::Num(row.track.track_number as int),
        ],
        SortKey::Duration => seq![KeyVal::Num(row.track.duration_secs as int)],
        SortKey::Artist => seq![
            KeyVal::Text(lowercase_text(row.artist_name@)),
            KeyVal::Text(lowercase_text(row.album_title@)),
            KeyVal::Num(row.track.disc_number as int),
            KeyVal::Num(row.track.track_number as int),
        ],
    }
}

/// The sort keys of all rows.
pub open spec fn track_sort_keys(rows: Seq<LibraryTrack>, sort: SortKey) -> Seq<Seq<KeyVal>> {
    rows.map_values(|r: LibraryTrack| track_sort_key(r, sort))
}

fn lower_chars(s: &String) -> (v: Vec<char>)
    ensures
        v@ == lowercase_text(s@),
{
    let l = lowercase(s.as_str());
    chars_of(l.as_str())
}

fn track_key(row: &LibraryTrack, sort: SortKey) -> (k: Vec<KeyPart>)
    ensures
        key_val(k) == track_sort_key(*row, sort),
{
    let mut k: Vec<KeyPart> = Vec::new();
    match sort {
        SortKey::Title => {
            k.push(KeyPart::Text(lower_chars(&row.track.title)));
        },
        SortKey::Album => {
            k.push(KeyPart::Text(lower_chars(&row.album_title)));
            k.push(KeyPart::Num(row.track.disc_number as u64));
            k.push(KeyPart::Num(row.track.track_number as u64));
        },
        SortKey::Duration => {
            k.push(KeyPart::Num(row.track.duration_secs as u64));
        },
        SortKey::Artist => {
            k.push(KeyPart::Text(lower_chars(&row.artist_name)));
            k.push(KeyPart::Text(lower_chars(&row.album_title)));
            k.push(KeyPart::Num(row.track.disc_number as u64));
            k.push(KeyPart::Num(row.track.track_number as u64));
        },
    }
    assert(key_val(k) =~= track_sort_key(*row, sort));
    k
}

/// `r` holds the items of `items` in the stable order of `keys`.
pub open spec fn arranged<T>(r: Seq<T>, items: Seq<T>, keys: Seq<Seq<KeyVal>>, desc: bool) -> bool {
    exists|order: Seq<usize>|
        is_sort_order(order, keys, desc) && r.len() == order.len() && forall|k: int|
            0 <= k < r.len() ==> #[trigger] r[k] == items[order[k] as int]
}

/// Sorts the rows by a column, stably, in the given direction.
pub fn sort_tracks(rows: Vec<LibraryTrack>, sort: SortKey, dir: SortDir) -> (r: Vec<LibraryTrack>)
    ensures
        arranged(r@, rows@, track_sort_keys(rows@, sort), dir == SortDir::Desc),
{
    let mut keys: Vec<Vec<KeyPart>> = Vec::new();
    let mut i: usize = 0;
    while i < rows.len()
        invariant
            i <= rows.len(),
            keys@.len() == i,
            forall|j: int| 0 <= j < i ==> key_val(#[trigger] keys@[j]) == track_sort_key(rows@[j], sort),
        decreases rows.len() - i,
    {
        keys.push(track_key(&rows[i], sort));
        i = i + 1;
    }
    assert(keys_val(keys@) =~= track_sort_keys(rows@, sort));
    let order = sort_order(&keys, dir == SortDir::Desc);
    let ghost orig = rows@;
    let r = apply_order(rows, &order);
    assert(is_sort_order(order@, track_sort_keys(orig, sort), dir == SortDir::Desc));
    r
}

// ── Filtering by search text and status ─────────────────────

/// The search text as the table compares it: trimmed, in lower case.
pub open spec fn normalized_query(query: Seq<char>) -> Seq<char> {
    lowercase_text(trim_text(query))
}

/// The search text, trimmed and in lower case.
pub fn normalize_query(query: &str) -> (r: Vec<char>)
    ensures
        r@ == normalized_query(query@),
{
    let t = trim(query);
    let l = lowercase(t);
    chars_of(l.as_str())
}

/// Whether a row is shown: an empty search shows every row, otherwise the
/// title, album or artist must contain the search text; and the track must
/// pass the status filter.
pub open spec fn row_visible(row: LibraryTrack, q: Seq<char>, filter: FilterKey) -> bool {
    (q.len() == 0 || contains_text(lowercase_text(row.track.title@), q) || contains_text(
        lowercase_text(row.album_title@),
        q,
    ) || contains_text(lowercase_text(row.artist_name@), q)) && filter_matches(filter, row.track)
}

/// A row passes the status filter and its lower-cased title contains the
/// search text.
pub open spec fn title_match(row: LibraryTrack, q: Seq<char>, filter: FilterKey) -> bool {
    filter_matches(filter, row.track) && contains_text(lowercase_text(row.track.title@), q)
}

/// A row that passes the status filter is shown when the search text occurs
/// in its lower-cased title, album or artist, or when there is no search
/// text; a shown row always passes the filter.
pub proof fn lemma_search_shows(row: LibraryTrack, q: Seq<char>, filter: FilterKey)
    ensures
        title_match(row, q, filter) ==> row_visible(row, q, filter),
        filter_matches(filter, row.track) && contains_text(lowercase_text(row.album_title@), q) ==> row_visible(row, q, filter),
        filter_matches(filter, row.track) && contains_text(lowercase_text(row.artist_name@), q) ==> row_visible(row, q, filter),
        filter_matches(filter, row.track) && q.len() == 0 ==> row_visible(row, q, filter),
        row_visible(row, q, filter) ==> filter_matches(filter, row.track),
{
}

/// Whether a row is shown for a normalized search text and a filter.
pub fn row_is_visible(row: &LibraryTrack, q: &Vec<char>, filter: FilterKey) -> (r: bool)
    ensures
        r == row_visible(*row, q@, filter),
        title_match(*row, q@, filter) ==> r,
        r ==> filter_matches(filter, row.track),
{
    proof {
        lemma_search_shows(*row, q@, filter);
    }
    if q.len() > 0 {
        let in_title = contains_chars(&lower_chars(&row.track.title), q);
        let in_album = contains_chars(&lower_chars(&row.album_title), q);
        let in_artist = contains_chars(&lower_chars(&row.artist_name), q);
        if !in_title && !in_album && !in_artist {
            return false;
        }
    }
    filter.matches(&row.track)
}

/// Visibility of each row.
pub open spec fn visible_flags(rows: Seq<LibraryTrack>, q: Seq<char>, filter: FilterKey) -> Seq<bool> {
    rows.map_values(|r: LibraryTrack| row_visible(r, q, filter))
}

fn visibility(rows: &Vec<LibraryTrack>, q: &Vec<char>, filter: FilterKey) -> (flags: Vec<bool>)
    ensures
        flags@ == visible_flags(rows@, q@, filter),
{
    let mut flags: Vec<bool> = Vec::new();
    let mut i: usize = 0;
    while i < rows.len()
        invariant
            i <= rows.len(),
            flags@.len() == i,
            forall|j: int| 0 <= j < i ==> flags@[j] == row_visible(rows@[j], q@, filter),
        decreases rows.len() - i,
    {
        flags.push(row_is_visible(&rows[i], q, filter));
        i = i + 1;
    }
    assert(flags@ =~= visible_flags(rows@, q@, filter));
    flags
}

/// The rows shown for a search text and a filter, in the order they came in.
pub fn visible_tracks(rows: Vec<LibraryTrack>, query: &str, filter: FilterKey) -> (r: Vec<LibraryTrack>)
    ensures
        r@ == select(rows@, visible_flags(rows@, normalized_query(query@), filter)),
        forall|i: int|
            0 <= i < rows@.len() && title_match(#[trigger] rows@[i], normalized_query(query@), filter) ==> r@.contains(
                rows@[i],
            ),
{
    let q = normalize_query(query);
    let flags = visibility(&rows, &q, filter);
    let ghost orig = rows@;
    let r = retain_flags(rows, &flags);
    proof {
        lemma_title_matches_kept(orig, q@, filter);
    }
    r
}

/// Every row that matches by title is kept by the visibility flags.
proof fn lemma_title_matches_kept(rows: Seq<LibraryTrack>, q: Seq<char>, filter: FilterKey)
    ensures
        forall|i: int|
            0 <= i < rows.len() && title_match(#[trigger] rows[i], q, filter) ==> select(
                rows,
                visible_flags(rows, q, filter),
            ).contains(rows[i]),
{
    let flags = visible_flags(rows, q, filter);
    let idx = crate::seqs::lemma_select_positions(rows, flags);
    assert forall|i: int| 0 <= i < rows.len() && title_match(#[trigger] rows[i], q, filter) implies select(
        rows,
        flags,
    ).contains(rows[i]) by {
        lemma_search_shows(rows[i], q, filter);
        assert(flags[i]);
        let m = choose|m: int| 0 <= m < idx.len() && idx[m] == i;
        assert(select(rows, flags)[m] == rows[i]);
    }
}

/// A stable sort keeps every item: each item is in the result and each item
/// of the result is an item.
pub proof fn lemma_arranged_contains<T>(r: Seq<T>, items: Seq<T>, keys: Seq<Seq<KeyVal>>, desc: bool)
    requires
        arranged(r, items, keys, desc),
        keys.len() == items.len(),
    ensures
        forall|i: int| 0 <= i < items.len() ==> r.contains(#[trigger] items[i]),
        forall|m: int| 0 <= m < r.len() ==> items.contains(#[trigger] r[m]),
{
    let order = choose|order: Seq<usize>|
        is_sort_order(order, keys, desc) && r.len() == order.len() && forall|k: int|
            0 <= k < r.len() ==> #[trigger] r[k] == items[order[k] as int];
    crate::order::lemma_sort_order_covers(order, keys, desc);
    assert forall|i: int| 0 <= i < items.len() implies r.contains(#[trigger] items[i]) by {
        assert(crate::order::listed(order, i));
        let a = choose|a: int| 0 <= a < order.len() && order[a] == i;
        assert(r[a] == items[i]);
    }
    assert forall|m: int| 0 <= m < r.len() implies items.contains(#[trigger] r[m]) by {
        assert(r[m] == items[order[m] as int]);
    }
}

/// The number of rows shown for a search text and a filter.
pub fn visible_count(rows: &Vec<LibraryTrack>, query: &str, filter: FilterKey) -> (n: usize)
    ensures
        n == count_true(visible_flags(rows@, normalized_query(query@), filter)),
        (exists|i: int| 0 <= i < rows@.len() && title_match(#[trigger] rows@[i], normalized_query(query@), filter)) ==> n >= 1,
        (forall|i: int| 0 <= i < rows@.len() ==> title_match(#[trigger] rows@[i], normalized_query(query@), filter)) ==> n
            == rows@.len(),
{
    let q = normalize_query(query);
    let flags = visibility(rows, &q, filter);
    let n = count_flags(&flags);
    proof {
        let fl = visible_flags(rows@, q@, filter);
        crate::seqs::lemma_select_len(rows@, fl);
        lemma_title_matches_kept(rows@, q@, filter);
        if exists|i: int| 0 <= i < rows@.len() && title_match(#[trigger] rows@[i], q@, filter) {
            let i = choose|i: int| 0 <= i < rows@.len() && title_match(#[trigger] rows@[i], q@, filter);
            assert(select(rows@, fl).contains(rows@[i]));
        }
        if forall|i: int| 0 <= i < rows@.len() ==> title_match(#[trigger] rows@[i], q@, filter) {
            assert forall|k: int| 0 <= k < fl.len() implies fl[k] by {
                lemma_search_shows(rows@[k], q@, filter);
            }
            crate::seqs::lemma_select_all(rows@, fl);
        }
    }
    n
}

/// The number of set flags.
pub fn count_flags(flags: &Vec<bool>) -> (n: usize)
    ensures
        n == count_true(flags@),
{
    let mut n: usize = 0;
    let mut i: usize = 0;
    while i < flags.len()
        invariant
            i <= flags.len(),
            n == count_true(flags@.take(i as int)),
            n <= i,
        decreases flags.len() - i,
    {
        proof {
            lemma_count_true_push(flags@, i as int);
        }
        if flags[i] {
            n = n + 1;
        }
        i = i + 1;
    }
    assert(flags@.take(flags.len() as int) =~= flags@);
    n
}

/// The visible rows, sorted by a column: the content of the flat table.
pub fn table_rows(
    rows: Vec<LibraryTrack>,
    query: &str,
    filter: FilterKey,
    sort: SortKey,
    dir: SortDir,
) -> (r: Vec<LibraryTrack>)
    ensures
        arranged(
            r@,
            select(rows@, visible_flags(rows@, normalized_query(query@), filter)),
            track_sort_keys(select(rows@, visible_flags(rows@, normalized_query(query@), filter)), sort),
            dir == SortDir::Desc,
        ),
        forall|i: int|
            0 <= i < rows@.len() && title_match(#[trigger] rows@[i], normalized_query(query@), filter) ==> r@.contains(
                rows@[i],
            ),
        forall|m: int| 0 <= m < r@.len() ==> filter_matches(filter, (#[trigger] r@[m]).track),
{
    let ghost orig = rows@;
    let shown = visible_tracks(rows, query, filter);
    let ghost sv = shown@;
    let r = sort_tracks(shown, sort, dir);
    proof {
        lemma_arranged_contains(r@, sv, track_sort_keys(sv, sort), dir == SortDir::Desc);
        assert forall|m: int| 0 <= m < r@.len() implies filter_matches(filter, (#[trigger] r@[m]).track) by {
            assert(sv.contains(r@[m]));
            let j = choose|j: int| 0 <= j < sv.len() && sv[j] == r@[m];
            let idx = crate::seqs::lemma_select_positions(orig, visible_flags(orig, normalized_query(query@), filter));
            assert(visible_flags(orig, normalized_query(query@), filter)[idx[j]]);
            lemma_search_shows(orig[idx[j]], normalized_query(query@), filter);
        }
        assert forall|i: int|
            0 <= i < orig.len() && title_match(#[trigger] orig[i], normalized_query(query@), filter) implies r@.contains(
                orig[i],
            ) by {
            let j = choose|j: int| 0 <= j < sv.len() && sv[j] == orig[i];
            assert(r@.contains(sv[j]));
        }
    }
    r
}

// ── Grouping ────────────────────────────────────────────────

/// A group of rows under a header.
pub struct TrackGroup {
    pub name: String,
    pub tracks: Vec<LibraryTrack>,
}

/// The header a row is grouped under.
pub open spec fn group_key(row: LibraryTrack, g: GroupBy) -> Seq<char> {
    match g {
        GroupBy::Artist => row.artist_name@,
        GroupBy::Album => row.artist_name@ + " \u{2014} "@ + row.album_title@,
        GroupBy::Ungrouped => Seq::empty(),
    }
}

/// The headers of all rows.
pub open spec fn group_keys(rows: Seq<LibraryTrack>, g: GroupBy) -> Seq<Seq<char>> {
    rows.map_values(|r: LibraryTrack| group_key(r, g))
}

/// Which rows fall under the header `name`.
pub open spec fn in_group(keys: Seq<Seq<char>>, name: Seq<char>) -> Seq<bool> {
    keys.map_values(|k: Seq<char>| k == name)
}

/// The header of a row.
pub fn group_name(row: &LibraryTrack, g: GroupBy) -> (r: String)
    ensures
        r@ == group_key(*row, g),
{
    match g {
        GroupBy::Artist => row.artist_name.clone(),
        GroupBy::Album => concat3(row.artist_name.as_str(), " \u{2014} ", row.album_title.as_str()),
        GroupBy::Ungrouped => String::new(),
    }
}

/// Groups the rows under their headers. Groups come in the order in which
/// their header first occurs, and each group keeps its rows in their order.
pub fn group_tracks(rows: Vec<LibraryTrack>, g: GroupBy) -> (r: Vec<TrackGroup>)
    ensures
        r@.map_values(|t: TrackGroup| t.name@) == distinct_keys(group_keys(rows@, g)),
        forall|k: int|
            0 <= k < r@.len() ==> #[trigger] r@[k].tracks@ == select(
                rows@,
                in_group(group_keys(rows@, g), r@[k].name@),
            ),
{
    let ghost orig = rows@;
    let ghost keys = group_keys(orig, g);
    let mut rest = rows;
    let mut groups: Vec<TrackGroup> = Vec::new();
    let mut i: usize = 0;
    let n = rest.len();
    assert(orig.skip(0) =~= orig);
    assert(groups@.map_values(|t: TrackGroup| t.name@) =~= distinct_keys(keys.take(0)));
    while i < n
        invariant
            n == orig.len(),
            keys == group_keys(orig, g),
            i <= n,
            rest@ == orig.skip(i as int),
            groups@.map_values(|t: TrackGroup| t.name@) == distinct_keys(keys.take(i as int)),
            forall|k: int|
                0 <= k < groups@.len() ==> #[trigger] groups@[k].tracks@ == select(
                    orig.take(i as int),
                    in_group(keys.take(i as int), groups@[k].name@),
                ),
        decreases n - i,
    {
        let row = rest.remove(0);
        assert(row == orig[i as int]);
        assert(orig.skip(i as int).drop_first() =~= orig.skip(i + 1));
        let name = group_name(&row, g);
        let ghost key = name@;
        assert(key == keys[i as int]);
        let ghost pk = keys.take(i as int);
        let ghost pr = orig.take(i as int);
        assert(keys.take(i + 1) =~= pk.push(key));
        assert(orig.take(i + 1) =~= pr.push(row));
        // look for the group
        let name_chars = chars_of(name.as_str());
        let mut gi: usize = 0;
        let mut found = false;
        while gi < groups.len()
            invariant_except_break
                !found,
            invariant
                gi <= groups@.len(),
                name_chars@ == key,
                forall|k: int| 0 <= k < gi ==> groups@[k].name@ != key,
            ensures
                found ==> gi < groups@.len() && groups@[gi as int].name@ == key,
                !found ==> forall|k: int| 0 <= k < groups@.len() ==> groups@[k].name@ != key,
            decreases groups@.len() - gi,
        {
            let other = chars_of(groups[gi].name.as_str());
            if crate::text::chars_eq(&other, &name_chars) {
                found = true;
                break;
            }
            gi = gi + 1;
        }
        let ghost old_groups = groups@;
        proof {
            let names = old_groups.map_values(|t: TrackGroup| t.name@);
            lemma_distinct_keys_push(pk, key);
            lemma_distinct_keys_contains(pk, key);
            lemma_distinct_keys_unique(pk);
            assert forall|k: int| 0 <= k < old_groups.len() && k != gi && found implies #[trigger] old_groups[k].name@ != key by {
                assert(names[k] == old_groups[k].name@);
                assert(names[gi as int] == old_groups[gi as int].name@);
                if k < gi {
                    assert(names[k] != names[gi as int]);
                } else {
                    assert(names[gi as int] != names[k]);
                }
            }
            assert forall|k: int| 0 <= k < old_groups.len() implies in_group(pk.push(key), #[trigger] old_groups[k].name@)
                == in_group(pk, old_groups[k].name@).push(key == old_groups[k].name@) by {
                assert(in_group(pk.push(key), old_groups[k].name@) =~= in_group(pk, old_groups[k].name@).push(
                    key == old_groups[k].name@,
                ));
            }
            if found {
                assert(names[gi as int] == key);
                assert(distinct_keys(pk).contains(key));
            } else {
                assert(!names.contains(key)) by {
                    if names.contains(key) {
                        let m = choose|m: int| 0 <= m < names.len() && names[m] == key;
                        assert(old_groups[m].name@ == key);
                    }
                }
            }
        }
        if found {
            let mut grp = groups.remove(gi);
            grp.tracks.push(row);
            groups.insert(gi, grp);
            proof {
                assert(groups@ =~= old_groups.update(gi as int, groups@[gi as int]));
                assert(groups@[gi as int].name == old_groups[gi as int].name);
                assert(groups@.map_values(|t: TrackGroup| t.name@) =~= old_groups.map_values(
                    |t: TrackGroup| t.name@,
                ));
                assert forall|k: int| 0 <= k < groups@.len() implies #[trigger] groups@[k].tracks@ == select(
                    orig.take(i + 1),
                    in_group(keys.take(i + 1), groups@[k].name@),
                ) by {
                    let nm = old_groups[k].name@;
                    assert(groups@[k].name@ == nm);
                    assert(old_groups[k].tracks@ == select(pr, in_group(pk, nm)));
                    assert(in_group(keys.take(i + 1), nm) == in_group(pk, nm).push(key == nm));
                    lemma_select_push(pr, in_group(pk, nm), row, key == nm);
                    if k == gi {
                        assert(groups@[k].tracks@ =~= old_groups[k].tracks@.push(row));
                        assert(old_groups[k].tracks@ + seq![row] =~= old_groups[k].tracks@.push(row));
                    } else {
                        assert(groups@[k] == old_groups[k]);
                        assert(old_groups[k].tracks@ + Seq::<LibraryTrack>::empty() =~= old_groups[k].tracks@);
                    }
                }
            }
        } else {
            let mut tracks: Vec<LibraryTrack> = Vec::new();
            tracks.push(row);
            groups.push(TrackGroup { name, tracks });
            proof {
                assert(groups@.map_values(|t: TrackGroup| t.name@) =~= old_groups.map_values(
                    |t: TrackGroup| t.name@,
                ).push(key));
                assert forall|k: int| 0 <= k < groups@.len() implies #[trigger] groups@[k].tracks@ == select(
                    orig.take(i + 1),
                    in_group(keys.take(i + 1), groups@[k].name@),
                ) by {
                    if k < old_groups.len() {
                        assert(groups@[k] == old_groups[k]);
                        lemma_select_push(pr, in_group(pk, old_groups[k].name@), row, false);
                        assert(old_groups[k].tracks@ + Seq::<LibraryTrack>::empty() =~= old_groups[k].tracks@);
                    } else {
                        assert forall|m: int| 0 <= m < in_group(pk, key).len() implies !#[trigger] in_group(pk, key)[m] by {
                            if pk[m] == key {
                                assert(pk.contains(key));
                            }
                        }
                        lemma_select_none(pr, in_group(pk, key));
                        lemma_select_push(pr, in_group(pk, key), row, true);
                        assert(in_group(pk.push(key), key) =~= in_group(pk, key).push(true));
                        assert(Seq::<LibraryTrack>::empty() + seq![row] =~= seq![row]);
                        assert(groups@[k].tracks@ =~= seq![row]);
                    }
                }
            }
        }
        i = i + 1;
    }
    assert(keys.take(n as int) =~= keys);
    assert(orig.take(n as int) =~= orig);
    groups
}

/// A set of names with `n` taken out if it was in, or put in if it was not.
pub open spec fn toggled(s: Set<Seq<char>>, n: Seq<char>) -> Set<Seq<char>> {
    if s.contains(n) {
        s.remove(n)
    } else {
        s.insert(n)
    }
}

/// Toggling the same name twice gives back the set one started with.
pub proof fn lemma_toggled_twice(s: Set<Seq<char>>, n: Seq<char>)
    ensures
        toggled(toggled(s, n), n) == s,
{
    if s.contains(n) {
        assert(s.remove(n).insert(n) =~= s);
    } else {
        assert(s.insert(n).remove(n) =~= s);
    }
}

/// Adds a header to the collapsed ones, or removes it if it is there.
pub fn toggle_collapsed(collapsed: Vec<String>, name: &str) -> (r: Vec<String>)
    ensures
        string_views(r@).to_set() == toggled(string_views(collapsed@).to_set(), name@),
{
    let target = chars_of(name);
    let ghost view = string_views(collapsed@);
    let mut keep: Vec<bool> = Vec::new();
    let mut present = false;
    let mut i: usize = 0;
    while i < collapsed.len()
        invariant
            i <= collapsed.len(),
            view == string_views(collapsed@),
            target@ == name@,
            keep@.len() == i,
            forall|j: int| 0 <= j < i ==> keep@[j] == (collapsed@[j]@ != name@),
            present == exists|j: int| 0 <= j < i && collapsed@[j]@ == name@,
        decreases collapsed.len() - i,
    {
        let c = chars_of(collapsed[i].as_str());
        let same = crate::text::chars_eq(&c, &target);
        if same {
            present = true;
        }
        keep.push(!same);
        i = i + 1;
    }
    let ghost flags = keep@;
    let mut r = retain_flags(collapsed, &keep);
    proof {
        lemma_select_view_set(collapsed@, flags, name@);
        if present {
            let j = choose|j: int| 0 <= j < collapsed@.len() && collapsed@[j]@ == name@;
            assert(view[j] == name@);
        } else {
            assert(!view.contains(name@)) by {
                if view.contains(name@) {
                    let j = choose|j: int| 0 <= j < view.len() && view[j] == name@;
                    assert(collapsed@[j]@ == name@);
                }
            }
        }
    }
    if !present {
        let ghost before = r@;
        r.push(owned(name));
        proof {
            assert(string_views(r@) =~= string_views(before).push(name@));
            assert(string_views(r@).to_set() =~= string_views(before).to_set().insert(
                name@,
            )) by {
                assert forall|x: Seq<char>| #[trigger] string_views(r@).contains(x) <==> (string_views(before).contains(x) || x == name@) by {
                    let rv = string_views(r@);
                    let bv = string_views(before);
                    if rv.contains(x) {
                        let m = choose|m: int| 0 <= m < rv.len() && rv[m] == x;
                        if m < bv.len() {
                            assert(bv[m] == x);
                        }
                    }
                    if bv.contains(x) {
                        let m = choose|m: int| 0 <= m < bv.len() && bv[m] == x;
                        assert(rv[m] == x);
                    }
                    if x == name@ {
                        assert(rv[bv.len() as int] == x);
                    }
                }
            }
        }
    }
    r
}

// ── The table's state ───────────────────────────────────────

/// What the track table shows: the search text, the sort, the filter, the
/// grouping and the collapsed group headers.
pub struct TableState {
    pub query: String,
    pub sort_key: SortKey,
    pub sort_dir: SortDir,
    pub filter_key: FilterKey,
    pub group_by: GroupBy,
    pub collapsed: Vec<String>,
}

/// What the user does to the track table.
pub enum TableEvent {
    /// Typed a new search text.
    Search(String),
    /// Clicked the header of a column.
    HeaderClicked(SortKey),
    /// Picked a sort from the sort menu.
    SortPicked(SortKey),
    /// Clicked a stat card.
    StatCardClicked(FilterKey),
    /// Picked a filter from the filter menu.
    FilterPicked(FilterKey),
    /// Picked a grouping.
    GroupPicked(GroupBy),
    /// Clicked a group header.
    GroupHeaderClicked(String),
}

/// The table as it opens: no search, sorted by artist ascending, all
/// tracks, ungrouped, nothing collapsed.
pub fn table_start() -> (s: TableState)
    ensures
        s.query@ == Seq::<char>::empty(),
        s.sort_key == SortKey::Artist,
        s.sort_dir == SortDir::Asc,
        s.filter_key == FilterKey::All,
        s.group_by == GroupBy::Ungrouped,
        s.collapsed@.len() == 0,
{
    TableState {
        query: String::new(),
        sort_key: SortKey::Artist,
        sort_dir: SortDir::Asc,
        filter_key: FilterKey::All,
        group_by: GroupBy::Ungrouped,
        collapsed: Vec::new(),
    }
}

/// How an event changes the table: a header click toggles or switches the
/// sort column, picking from the sort menu starts over ascending, a stat
/// card toggles its filter, picking a grouping opens every group, and a
/// group header toggles its group; everything else stays.
pub open spec fn table_next(s: TableState, e: TableEvent, r: TableState) -> bool {
    match e {
        TableEvent::Search(q) => r.query == q && r.sort_key == s.sort_key && r.sort_dir == s.sort_dir
            && r.filter_key == s.filter_key && r.group_by == s.group_by && r.collapsed == s.collapsed,
        TableEvent::HeaderClicked(c) => (r.sort_key, r.sort_dir) == sort_after_click(s.sort_key, s.sort_dir, c)
            && r.query == s.query && r.filter_key == s.filter_key && r.group_by == s.group_by
            && r.collapsed == s.collapsed,
        TableEvent::SortPicked(k) => r.sort_key == k && r.sort_dir == SortDir::Asc && r.query == s.query
            && r.filter_key == s.filter_key && r.group_by == s.group_by && r.collapsed == s.collapsed,
        TableEvent::StatCardClicked(f) => r.filter_key == filter_after_click(s.filter_key, f)
            && r.query == s.query && r.sort_key == s.sort_key && r.sort_dir == s.sort_dir
            && r.group_by == s.group_by && r.collapsed == s.collapsed,
        TableEvent::FilterPicked(f) => r.filter_key == f && r.query == s.query && r.sort_key == s.sort_key
            && r.sort_dir == s.sort_dir && r.group_by == s.group_by && r.collapsed == s.collapsed,
        TableEvent::GroupPicked(g) => r.group_by == g && r.collapsed@.len() == 0 && r.query == s.query
            && r.sort_key == s.sort_key && r.sort_dir == s.sort_dir && r.filter_key == s.filter_key,
        TableEvent::GroupHeaderClicked(n) => string_views(r.collapsed@).to_set() == toggled(
            string_views(s.collapsed@).to_set(),
            n@,
        ) && r.query == s.query && r.sort_key == s.sort_key && r.sort_dir == s.sort_dir
            && r.filter_key == s.filter_key && r.group_by == s.group_by,
    }
}

/// The table after an event.
pub fn table_step(s: TableState, e: TableEvent) -> (r: TableState)
    ensures
        table_next(s, e, r),
{
    let TableState { query, sort_key, sort_dir, filter_key, group_by, collapsed } = s;
    match e {
        TableEvent::Search(q) => TableState { query: q, sort_key, sort_dir, filter_key, group_by, collapsed },
        TableEvent::HeaderClicked(c) => {
            let (k, d) = sort_click(sort_key, sort_dir, c);
            TableState { query, sort_key: k, sort_dir: d, filter_key, group_by, collapsed }
        },
        TableEvent::SortPicked(k) => TableState {
            query,
            sort_key: k,
            sort_dir: SortDir::Asc,
            filter_key,
            group_by,
            collapsed,
        },
        TableEvent::StatCardClicked(f) => TableState {
            query,
            sort_key,
            sort_dir,
            filter_key: toggle_filter(filter_key, f),
            group_by,
            collapsed,
        },
        TableEvent::FilterPicked(f) => TableState { query, sort_key, sort_dir, filter_key: f, group_by, collapsed },
        TableEvent::GroupPicked(g) => TableState {
            query,
            sort_key,
            sort_dir,
            filter_key,
            group_by: g,
            collapsed: Vec::new(),
        },
        TableEvent::GroupHeaderClicked(n) => {
            let c = toggle_collapsed(collapsed, n.as_str());
            TableState { query, sort_key, sort_dir, filter_key, group_by, collapsed: c }
        },
    }
}

/// The headers kept after dropping `name` are the set without `name`.
proof fn lemma_select_view_set(s: Seq<String>, flags: Seq<bool>, name: Seq<char>)
    requires
        s.len() == flags.len(),
        forall|j: int| 0 <= j < s.len() ==> flags[j] == (s[j]@ != name),
    ensures
        string_views(select(s, flags)).to_set() == string_views(s).to_set().remove(name),
    decreases s.len(),
{
    let sel = string_views(select(s, flags));
    let all = string_views(s);
    if s.len() == 0 {
        assert(sel.to_set() =~= all.to_set().remove(name));
    } else {
        lemma_select_view_set(s.drop_first(), flags.drop_first(), name);
        let rest = string_views(select(s.drop_first(), flags.drop_first()));
        let all_rest = string_views(s.drop_first());
        assert(all =~= seq![s[0]@] + all_rest);
        if flags[0] {
            assert(sel =~= seq![s[0]@] + rest);
        } else {
            assert(sel =~= rest);
        }
        assert forall|x: Seq<char>| #[trigger] sel.contains(x) <==> (all.contains(x) && x != name) by {
            if sel.contains(x) {
                let m = choose|m: int| 0 <= m < sel.len() && sel[m] == x;
                if flags[0] {
                    if m == 0 {
                        assert(all[0] == x);
                    } else {
                        assert(rest[m - 1] == x);
                        assert(rest.to_set().contains(x));
                        let q = choose|q: int| 0 <= q < all_rest.len() && all_rest[q] == x;
                        assert(all[q + 1] == x);
                    }
                } else {
                    assert(rest[m] == x);
                    assert(rest.to_set().contains(x));
                    let q = choose|q: int| 0 <= q < all_rest.len() && all_rest[q] == x;
                    assert(all[q + 1] == x);
                }
            }
            if all.contains(x) && x != name {
                let m = choose|m: int| 0 <= m < all.len() && all[m] == x;
                if m == 0 {
                    assert(sel[0] == x);
                } else {
                    assert(all_rest[m - 1] == x);
                    assert(all_rest.to_set().remove(name).contains(x));
                    assert(rest.to_set().contains(x));
                    let q = choose|q: int| 0 <= q < rest.len() && rest[q] == x;
                    if flags[0] {
                        assert(sel[q + 1] == x);
                    } else {
                        assert(sel[q] == x);
                    }
                }
            }
        }
        assert(sel.to_set() =~= all.to_set().remove(name));
    }
}

// ── Summary counts ──────────────────────────────────────────

/// The counts on the stat cards.
pub struct TrackStats {
    pub total: usize,
    pub acquired: usize,
    pub wanted: usize,
    pub idle: usize,
}

/// The rows passing a filter.
pub open spec fn filter_flags(rows: Seq<LibraryTrack>, k: FilterKey) -> Seq<bool> {
    rows.map_values(|r: LibraryTrack| filter_matches(k, r.track))
}

proof fn lemma_partition_counts(rows: Seq<LibraryTrack>)
    ensures
        count_true(filter_flags(rows, FilterKey::Acquired)) + count_true(
            filter_flags(rows, FilterKey::Wanted),
        ) + count_true(filter_flags(rows, FilterKey::Idle)) == rows.len(),
    decreases rows.len(),
{
    if rows.len() > 0 {
        lemma_partition_counts(rows.drop_first());
        assert(filter_flags(rows, FilterKey::Acquired).drop_first() =~= filter_flags(
            rows.drop_first(),
            FilterKey::Acquired,
        ));
        assert(filter_flags(rows, FilterKey::Wanted).drop_first() =~= filter_flags(
            rows.drop_first(),
            FilterKey::Wanted,
        ));
        assert(filter_flags(rows, FilterKey::Idle).drop_first() =~= filter_flags(
            rows.drop_first(),
            FilterKey::Idle,
        ));
    }
}

/// Counts the tracks by status. The idle count is the rest of the total,
/// as the stat bar computes it; the three counts always add up to it.
pub fn track_stats(rows: &Vec<LibraryTrack>) -> (s: TrackStats)
    ensures
        s.total == rows@.len(),
        s.acquired == count_true(filter_flags(rows@, FilterKey::Acquired)),
        s.wanted == count_true(filter_flags(rows@, FilterKey::Wanted)),
        s.idle == count_true(filter_flags(rows@, FilterKey::Idle)),
        s.acquired + s.wanted + s.idle == s.total,
{
    let mut acquired: usize = 0;
    let mut wanted: usize = 0;
    let mut i: usize = 0;
    let ghost fa = filter_flags(rows@, FilterKey::Acquired);
    let ghost fw = filter_flags(rows@, FilterKey::Wanted);
    while i < rows.len()
        invariant
            i <= rows.len(),
            fa == filter_flags(rows@, FilterKey::Acquired),
            fw == filter_flags(rows@, FilterKey::Wanted),
            acquired == count_true(fa.take(i as int)),
            wanted == count_true(fw.take(i as int)),
            acquired + wanted <= i,
        decreases rows.len() - i,
    {
        proof {
            lemma_count_true_push(fa, i as int);
            lemma_count_true_push(fw, i as int);
        }
        let t = &rows[i].track;
        if t.acquired {
            acquired = acquired + 1;
        } else if t.monitored {
            wanted = wanted + 1;
        }
        i = i + 1;
    }
    proof {
        assert(fa.take(rows@.len() as int) =~= fa);
        assert(fw.take(rows@.len() as int) =~= fw);
        lemma_partition_counts(rows@);
    }
    TrackStats { total: rows.len(), acquired, wanted, idle: rows.len() - acquired - wanted }
}

// ── Track rows ──────────────────────────────────────────────

/// The status of a track row.
#[derive(Debug, Clone, Copy, PartialEq, Eq, Structural)]
pub enum TrackStatus {
    Acquired,
    /// Monitored but not acquired yet.
    Wanted,
    Idle,
}

/// The status of a track: acquired first, then wanted, else idle.
pub fn track_status(t: &TrackInfo) -> (r: TrackStatus)
    ensures
        r == (if t.acquired {
            TrackStatus::Acquired
        } else if t.monitored {
            TrackStatus::Wanted
        } else {
            TrackStatus::Idle
        }),
{
    if t.acquired {
        TrackStatus::Acquired
    } else if t.monitored {
        TrackStatus::Wanted
    } else {
        TrackStatus::Idle
    }
}

/// The text of a track status.
pub fn track_status_text(s: TrackStatus) -> (r: &'static str)
    ensures
        r@ == (match s {
            TrackStatus::Acquired => "Acquired"@,
            TrackStatus::Wanted => "Wanted"@,
            TrackStatus::Idle => "Idle"@,
        }),
{
    match s {
        TrackStatus::Acquired => "Acquired",
        TrackStatus::Wanted => "Wanted",
        TrackStatus::Idle => "Idle",
    }
}

/// A row's status agrees with the status filters: each row has the status
/// of the one filter among acquired, wanted and idle that it passes.
pub proof fn lemma_status_matches_filter(t: TrackInfo)
    ensures
        filter_matches(FilterKey::Acquired, t) <==> t.acquired,
        !t.acquired && filter_matches(FilterKey::Wanted, t) <==> !t.acquired && t.monitored,
        filter_matches(FilterKey::Idle, t) <==> !t.acquired && !t.monitored,
{
}

} // verus!
