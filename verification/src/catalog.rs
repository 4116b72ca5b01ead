//! The monitored catalogue: artists and albums, the counts shown on the
//! dashboard and artist pages, and the orders and filters of the album
//! grids and of the artist collection.
use vstd::prelude::*;
use crate::order::{KeyPart, KeyVal, key_val, keys_val, sort_order, apply_order, is_sort_order};
use crate::seqs::{select, retain_flags};
use crate::text::{chars_of, contains_chars, contains_text, lowercase, lowercase_text, trim, trim_text, text_eq, clone_opt};
use crate::tracks::{arranged, normalize_query, normalized_query};

verus! {

/// An album that the library follows.
pub struct Album {
    pub id: String,
    pub artist_id: String,
    /// Further credited artists.
    pub artist_ids: Vec<String>,
    pub title: String,
    pub album_type: Option<String>,
    pub release_date: Option<String>,
    pub cover_url: Option<String>,
    /// When the album was added, as a timestamp.
    pub added_at: i64,
    pub monitored: bool,
    pub acquired: bool,
    pub wanted: bool,
    pub partially_wanted: bool,
    pub explicit: bool,
}

/// An artist that the library follows.
pub struct Artist {
    pub id: String,
    pub name: String,
    pub image_url: Option<String>,
    pub bio: Option<String>,
    /// When the artist was added, as a timestamp.
    pub added_at: i64,
    pub monitored: bool,
}

fn copy_ids(v: &Vec<String>) -> (r: Vec<String>)
    ensures
        r@ == v@,
{
    let mut r: Vec<String> = Vec::new();
    let mut i: usize = 0;
    while i < v.len()
        invariant
            i <= v.len(),
            r@ == v@.take(i as int),
        decreases v.len() - i,
    {
        r.push(v[i].clone());
        assert(r@ =~= v@.take(i + 1));
        i = i + 1;
    }
    assert(v@.take(v@.len() as int) =~= v@);
    r
}

/// `a` and `b` hold the same values, field by field.
pub open spec fn same_album(a: Album, b: Album) -> bool {
    &&& a.id == b.id
    &&& a.artist_id == b.artist_id
    &&& a.artist_ids@ == b.artist_ids@
    &&& a.title == b.title
    &&& a.album_type == b.album_type
    &&& a.release_date == b.release_date
    &&& a.cover_url == b.cover_url
    &&& a.added_at == b.added_at
    &&& a.monitored == b.monitored
    &&& a.acquired == b.acquired
    &&& a.wanted == b.wanted
    &&& a.partially_wanted == b.partially_wanted
    &&& a.explicit == b.explicit
}

impl Album {
    /// A copy of the album.
    pub fn duplicate(&self) -> (r: Album)
        ensures
            same_album(r, *self),
    {
        Album {
            id: self.id.clone(),
            artist_id: self.artist_id.clone(),
            artist_ids: copy_ids(&self.artist_ids),
            title: self.title.clone(),
            album_type: clone_opt(&self.album_type),
            release_date: clone_opt(&self.release_date),
            cover_url: clone_opt(&self.cover_url),
            added_at: self.added_at,
            monitored: self.monitored,
            acquired: self.acquired,
            wanted: self.wanted,
            partially_wanted: self.partially_wanted,
            explicit: self.explicit,
        }
    }
}

// ── Counting ────────────────────────────────────────────────

/// The number of albums of `albums` for which `p` holds.
pub open spec fn count_albums(albums: Seq<Album>, p: spec_fn(Album) -> bool) -> nat
    decreases albums.len(),
{
    if albums.len() == 0 {
        0
    } else {
        count_albums(albums.drop_last(), p) + if p(albums.last()) { 1nat } else { 0nat }
    }
}

pub proof fn lemma_count_albums_bound(albums: Seq<Album>, p: spec_fn(Album) -> bool)
    ensures
        count_albums(albums, p) <= albums.len(),
    decreases albums.len(),
{
    if albums.len() > 0 {
        lemma_count_albums_bound(albums.drop_last(), p);
    }
}

/// Which albums a count takes in.
#[derive(Debug, Clone, Copy, PartialEq, Eq, Structural)]
pub enum AlbumFlag {
    Monitored,
    Acquired,
    Wanted,
}

/// Whether an album carries a flag.
pub open spec fn has_flag(a: Album, f: AlbumFlag) -> bool {
    match f {
        AlbumFlag::Monitored => a.monitored,
        AlbumFlag::Acquired => a.acquired,
        AlbumFlag::Wanted => a.wanted,
    }
}

/// The number of albums that carry a flag.
pub fn count_flagged(albums: &Vec<Album>, f: AlbumFlag) -> (n: usize)
    ensures
        n == count_albums(albums@, |a: Album| has_flag(a, f)),
{
    let ghost p = |a: Album| has_flag(a, f);
    let mut n: usize = 0;
    let mut i: usize = 0;
    while i < albums.len()
        invariant
            i <= albums.len(),
            p == (|a: Album| has_flag(a, f)),
            n == count_albums(albums@.take(i as int), p),
        decreases albums.len() - i,
    {
        proof {
            assert(albums@.take(i + 1).drop_last() =~= albums@.take(i as int));
            assert(albums@.take(i + 1).last() == albums@[i as int]);
            lemma_count_albums_bound(albums@.take(i as int), p);
        }
        let a = &albums[i];
        let flagged = match f {
            AlbumFlag::Monitored => a.monitored,
            AlbumFlag::Acquired => a.acquired,
            AlbumFlag::Wanted => a.wanted,
        };
        assert(p(albums@[i as int]) == flagged);
        if flagged {
            n = n + 1;
        }
        i = i + 1;
    }
    assert(albums@.take(albums@.len() as int) =~= albums@);
    n
}

/// The counts in an artist's header card.
pub struct AlbumCounts {
    pub total: usize,
    pub monitored: usize,
    pub acquired: usize,
    pub wanted: usize,
}

/// How many of the albums there are, and how many are monitored, acquired
/// and wanted.
pub fn album_counts(albums: &Vec<Album>) -> (c: AlbumCounts)
    ensures
        c.total == albums@.len(),
        c.monitored == count_albums(albums@, |a: Album| has_flag(a, AlbumFlag::Monitored)),
        c.acquired == count_albums(albums@, |a: Album| has_flag(a, AlbumFlag::Acquired)),
        c.wanted == count_albums(albums@, |a: Album| has_flag(a, AlbumFlag::Wanted)),
{
    AlbumCounts {
        total: albums.len(),
        monitored: count_flagged(albums, AlbumFlag::Monitored),
        acquired: count_flagged(albums, AlbumFlag::Acquired),
        wanted: count_flagged(albums, AlbumFlag::Wanted),
    }
}

// ── Status of an album ──────────────────────────────────────

/// The wanted/acquired badge of an album.
#[derive(Debug, Clone, Copy, PartialEq, Eq, Structural)]
pub enum WantedBadge {
    Wanted,
    Acquired,
    Nothing,
}

/// The badge of an album: wanted while not yet acquired, acquired once it
/// is, nothing otherwise.
pub fn wanted_badge(wanted: bool, acquired: bool) -> (r: WantedBadge)
    ensures
        r == (if wanted && !acquired {
            WantedBadge::Wanted
        } else if acquired {
            WantedBadge::Acquired
        } else {
            WantedBadge::Nothing
        }),
{
    if wanted && !acquired {
        WantedBadge::Wanted
    } else if acquired {
        WantedBadge::Acquired
    } else {
        WantedBadge::Nothing
    }
}

/// The badge of an album in the library grid, which also counts partly
/// wanted albums as wanted: acquired first, then wanted.
pub fn library_badge(a: &Album) -> (r: WantedBadge)
    ensures
        r == (if a.acquired {
            WantedBadge::Acquired
        } else if a.wanted || a.partially_wanted {
            WantedBadge::Wanted
        } else {
            WantedBadge::Nothing
        }),
{
    if a.acquired {
        WantedBadge::Acquired
    } else if a.wanted || a.partially_wanted {
        WantedBadge::Wanted
    } else {
        WantedBadge::Nothing
    }
}

/// The request and message of the monitor button of an album.
pub fn monitor_toggle(monitored: bool) -> (r: (bool, &'static str))
    ensures
        r.0 == !monitored,
        r.1@ == (if !monitored { "Album monitored"@ } else { "Album unmonitored"@ }),
{
    let next = !monitored;
    (next, if next { "Album monitored" } else { "Album unmonitored" })
}

/// The label of the monitor button of an album.
pub fn monitor_label(monitored: bool) -> (r: &'static str)
    ensures
        r@ == (if monitored { "Unmonitor"@ } else { "Monitor"@ }),
{
    if monitored {
        "Unmonitor"
    } else {
        "Monitor"
    }
}

/// The message after removing an album's files.
pub fn remove_files_message(unmonitor: bool) -> (r: &'static str)
    ensures
        r@ == (if unmonitor { "Album files removed and unmonitored"@ } else { "Album files removed"@ }),
{
    if unmonitor {
        "Album files removed and unmonitored"
    } else {
        "Album files removed"
    }
}

/// The release date as shown, or a dash where there is none.
pub fn release_date_display(d: &Option<String>) -> (r: String)
    ensures
        r@ == (match d {
            Some(x) => x@,
            None => "\u{2014}"@,
        }),
{
    match d {
        Some(x) => x.clone(),
        None => crate::text::owned("\u{2014}"),
    }
}

// ── Order of texts and dates ────────────────────────────────

/// Key parts that order optional dates ascending, a missing date first.
pub open spec fn date_asc(d: Option<String>) -> Seq<KeyVal> {
    match d {
        None => seq![KeyVal::Num(0)],
        Some(x) => seq![KeyVal::Num(1), KeyVal::Text(x@)],
    }
}

/// Key parts that order optional dates descending, a missing date last.
pub open spec fn date_desc(d: Option<String>) -> Seq<KeyVal> {
    match d {
        None => seq![KeyVal::Num(0)],
        Some(x) => seq![KeyVal::Num(-1), KeyVal::TextDesc(x@)],
    }
}

fn push_date(k: &mut Vec<KeyPart>, d: &Option<String>, desc: bool)
    ensures
        key_val(*final(k)) == key_val(*old(k)) + if desc { date_desc(*d) } else { date_asc(*d) },
{
    let ghost start = key_val(*k);
    match d {
        None => {
            if desc {
                k.push(KeyPart::NumDesc(0));
            } else {
                k.push(KeyPart::Num(0));
            }
        },
        Some(x) => {
            if desc {
                k.push(KeyPart::NumDesc(1));
                k.push(KeyPart::TextDesc(chars_of(x.as_str())));
            } else {
                k.push(KeyPart::Num(1));
                k.push(KeyPart::Text(chars_of(x.as_str())));
            }
        },
    }
    assert(key_val(*k) =~= start + if desc { date_desc(*d) } else { date_asc(*d) });
}

/// A timestamp shifted into the unsigned range, keeping its order.
pub open spec fn stamp_offset(t: i64) -> int {
    t as int + 0x8000_0000_0000_0000
}

/// The timestamp shifted into the unsigned range.
pub fn stamp_key(t: i64) -> (r: u64)
    ensures
        r as int == stamp_offset(t),
{
    let w: i128 = (t as i128) + 0x8000_0000_0000_0000i128;
    w as u64
}

// ── Albums of an artist ─────────────────────────────────────

/// The orders of the album grid of an artist page.
#[derive(Debug, Clone, Copy, PartialEq, Eq, Structural)]
pub enum AlbumSort {
    /// By title, ignoring case.
    Az,
    /// Newest release first, then by title.
    Newest,
    /// Oldest release first, then by title.
    Oldest,
    /// By album type rank, newest first within a type, then by title.
    Type,
}

/// The order a form value selects; anything unknown sorts by type.
pub open spec fn album_sort_parse(s: Seq<char>) -> AlbumSort {
    if s == "az"@ {
        AlbumSort::Az
    } else if s == "newest"@ {
        AlbumSort::Newest
    } else if s == "oldest"@ {
        AlbumSort::Oldest
    } else {
        AlbumSort::Type
    }
}

impl AlbumSort {
    /// The order a form value selects.
    pub fn from_value(s: &str) -> (r: AlbumSort)
        ensures
            r == album_sort_parse(s@),
    {
        if text_eq(s, "az") {
            AlbumSort::Az
        } else if text_eq(s, "newest") {
            AlbumSort::Newest
        } else if text_eq(s, "oldest") {
            AlbumSort::Oldest
        } else {
            AlbumSort::Type
        }
    }
}

/// The sort key of an album on the artist page, `rank` being the rank of
/// its album type.
pub open spec fn artist_album_key(a: Album, sort: AlbumSort, rank: u64) -> Seq<KeyVal> {
    match sort {
        AlbumSort::Az => seq![KeyVal::Text(lowercase_text(a.title@))],
        AlbumSort::Newest => date_desc(a.release_date) + seq![KeyVal::Text(a.title@)],
        AlbumSort::Oldest => date_asc(a.release_date) + seq![KeyVal::Text(a.title@)],
        AlbumSort::Type => seq![KeyVal::Num(rank as int)] + date_desc(a.release_date) + seq![
            KeyVal::Text(a.title@),
        ],
    }
}

/// The sort keys of the albums on the artist page.
pub open spec fn artist_album_keys(albums: Seq<Album>, sort: AlbumSort, ranks: Seq<u64>) -> Seq<
    Seq<KeyVal>,
> {
    Seq::new(albums.len(), |i: int| artist_album_key(albums[i], sort, ranks[i]))
}

fn artist_album_key_parts(a: &Album, sort: AlbumSort, rank: u64) -> (k: Vec<KeyPart>)
    ensures
        key_val(k) == artist_album_key(*a, sort, rank),
{
    let mut k: Vec<KeyPart> = Vec::new();
    let title = KeyPart::Text(chars_of(a.title.as_str()));
    match sort {
        AlbumSort::Az => {
            let low = lowercase(a.title.as_str());
            k.push(KeyPart::Text(chars_of(low.as_str())));
            assert(key_val(k) =~= artist_album_key(*a, sort, rank));
        },
        AlbumSort::Newest => {
            push_date(&mut k, &a.release_date, true);
            let ghost mid = key_val(k);
            k.push(title);
            assert(key_val(k) =~= mid.push(KeyVal::Text(a.title@)));
            assert(key_val(k) =~= artist_album_key(*a, sort, rank));
        },
        AlbumSort::Oldest => {
            push_date(&mut k, &a.release_date, false);
            let ghost mid = key_val(k);
            k.push(title);
            assert(key_val(k) =~= mid.push(KeyVal::Text(a.title@)));
            assert(key_val(k) =~= artist_album_key(*a, sort, rank));
        },
        AlbumSort::Type => {
            k.push(KeyPart::Num(rank));
            assert(key_val(k) =~= seq![KeyVal::Num(rank as int)]);
            push_date(&mut k, &a.release_date, true);
            let ghost mid = key_val(k);
            k.push(title);
            assert(key_val(k) =~= mid.push(KeyVal::Text(a.title@)));
            assert(key_val(k) =~= artist_album_key(*a, sort, rank));
        },
    }
    k
}

/// The albums of an artist page in the chosen order; `ranks[i]` is the rank
/// of the type of album `i`. Albums with equal keys keep their order.
pub fn sort_artist_albums(albums: Vec<Album>, sort: AlbumSort, ranks: &Vec<u64>) -> (r: Vec<Album>)
    requires
        ranks@.len() == albums@.len(),
    ensures
        arranged(r@, albums@, artist_album_keys(albums@, sort, ranks@), false),
{
    let mut keys: Vec<Vec<KeyPart>> = Vec::new();
    let mut i: usize = 0;
    while i < albums.len()
        invariant
            ranks@.len() == albums@.len(),
            i <= albums.len(),
            keys@.len() == i,
            forall|m: int|
                0 <= m < i ==> key_val(#[trigger] keys@[m]) == artist_album_key(
                    albums@[m],
                    sort,
                    ranks@[m],
                ),
        decreases albums.len() - i,
    {
        keys.push(artist_album_key_parts(&albums[i], sort, ranks[i]));
        i = i + 1;
    }
    assert(keys_val(keys@) =~= artist_album_keys(albums@, sort, ranks@));
    let order = sort_order(&keys, false);
    let ghost orig = albums@;
    let r = apply_order(albums, &order);
    assert(is_sort_order(order@, artist_album_keys(orig, sort, ranks@), false));
    r
}

// ── Artist names ────────────────────────────────────────────

/// The name of the artist with the given id; where several artists share
/// the id the last one counts, and an unknown id has no name.
pub open spec fn artist_name_for(artists: Seq<Artist>, id: Seq<char>) -> Option<Seq<char>>
    decreases artists.len(),
{
    if artists.len() == 0 {
        None
    } else if artists.last().id@ == id {
        Some(artists.last().name@)
    } else {
        artist_name_for(artists.drop_last(), id)
    }
}

/// The name of the artist with the given id.
pub fn find_artist_name(artists: &Vec<Artist>, id: &str) -> (r: Option<String>)
    ensures
        (match r {
            Some(x) => Some(x@),
            None => None,
        }) == artist_name_for(artists@, id@),
{
    let mut i: usize = artists.len();
    assert(artists@.take(i as int) =~= artists@);
    while i > 0
        invariant
            i <= artists.len(),
            artist_name_for(artists@, id@) == artist_name_for(artists@.take(i as int), id@),
        decreases i,
    {
        assert(artists@.take(i as int).drop_last() =~= artists@.take(i - 1));
        assert(artists@.take(i as int).last() == artists@[i - 1]);
        if text_eq(artists[i - 1].id.as_str(), id) {
            return Some(artists[i - 1].name.clone());
        }
        i = i - 1;
    }
    None
}

/// An artist's name as the album grid shows it: the empty text for an
/// unknown artist when searching and sorting.
pub open spec fn artist_name_or_empty(artists: Seq<Artist>, id: Seq<char>) -> Seq<char> {
    match artist_name_for(artists, id) {
        Some(n) => n,
        None => Seq::empty(),
    }
}

/// The artist name shown on an album card.
pub fn album_artist_label(artists: &Vec<Artist>, artist_id: &str) -> (r: String)
    ensures
        r@ == (match artist_name_for(artists@, artist_id@) {
            Some(n) => n,
            None => "Unknown Artist"@,
        }),
{
    match find_artist_name(artists, artist_id) {
        Some(n) => n,
        None => crate::text::owned("Unknown Artist"),
    }
}

// ── The library album grid ──────────────────────────────────

/// Which albums the library grid shows.
#[derive(Debug, Clone, Copy, PartialEq, Eq, Structural)]
pub enum LibraryFilter {
    All,
    Monitored,
    /// Wanted or partly wanted.
    Wanted,
    Acquired,
}

/// The filter a form value selects; anything unknown shows all albums.
pub open spec fn library_filter_parse(s: Seq<char>) -> LibraryFilter {
    if s == "monitored"@ {
        LibraryFilter::Monitored
    } else if s == "wanted"@ {
        LibraryFilter::Wanted
    } else if s == "acquired"@ {
        LibraryFilter::Acquired
    } else {
        LibraryFilter::All
    }
}

/// Whether an album passes a filter.
pub open spec fn passes_filter(a: Album, f: LibraryFilter) -> bool {
    match f {
        LibraryFilter::All => true,
        LibraryFilter::Monitored => a.monitored,
        LibraryFilter::Wanted => a.wanted || a.partially_wanted,
        LibraryFilter::Acquired => a.acquired,
    }
}

impl LibraryFilter {
    /// The filter a form value selects.
    pub fn from_value(s: &str) -> (r: LibraryFilter)
        ensures
            r == library_filter_parse(s@),
    {
        if text_eq(s, "monitored") {
            LibraryFilter::Monitored
        } else if text_eq(s, "wanted") {
            LibraryFilter::Wanted
        } else if text_eq(s, "acquired") {
            LibraryFilter::Acquired
        } else {
            LibraryFilter::All
        }
    }
}

/// The orders of the library album grid.
#[derive(Debug, Clone, Copy, PartialEq, Eq, Structural)]
pub enum LibrarySort {
    /// By title, ignoring case.
    Az,
    /// Newest release first.
    Newest,
    /// Oldest release first.
    Oldest,
    /// By artist name, ignoring case.
    Artist,
    /// Most recently added first.
    Recent,
}

/// The order a form value selects; anything unknown shows recent additions first.
pub open spec fn library_sort_parse(s: Seq<char>) -> LibrarySort {
    if s == "az"@ {
        LibrarySort::Az
    } else if s == "newest"@ {
        LibrarySort::Newest
    } else if s == "oldest"@ {
        LibrarySort::Oldest
    } else if s == "artist"@ {
        LibrarySort::Artist
    } else {
        LibrarySort::Recent
    }
}

impl LibrarySort {
    /// The order a form value selects.
    pub fn from_value(s: &str) -> (r: LibrarySort)
        ensures
            r == library_sort_parse(s@),
    {
        if text_eq(s, "az") {
            LibrarySort::Az
        } else if text_eq(s, "newest") {
            LibrarySort::Newest
        } else if text_eq(s, "oldest") {
            LibrarySort::Oldest
        } else if text_eq(s, "artist") {
            LibrarySort::Artist
        } else {
            LibrarySort::Recent
        }
    }
}

/// Whether the library grid shows an album: the search text, if any, must
/// occur in its title or artist name (ignoring case), and the album must
/// pass the filter.
pub open spec fn library_visible(a: Album, artist: Seq<char>, q: Seq<char>, f: LibraryFilter) -> bool {
    (q.len() == 0 || contains_text(lowercase_text(a.title@), q) || contains_text(
        lowercase_text(artist),
        q,
    )) && passes_filter(a, f)
}

/// An album passes a library filter: all albums, monitored ones, wanted or
/// partly wanted ones, or acquired ones.
pub open spec fn library_filter_admits(a: Album, f: LibraryFilter) -> bool {
    &&& f == LibraryFilter::Monitored ==> a.monitored
    &&& f == LibraryFilter::Wanted ==> a.wanted || a.partially_wanted
    &&& f == LibraryFilter::Acquired ==> a.acquired
}

/// The grid shows an album exactly when it passes the filter and, if there
/// is a search text, the text occurs in its lower-cased title or artist name.
pub proof fn lemma_library_shows(a: Album, artist: Seq<char>, q: Seq<char>, f: LibraryFilter)
    ensures
        library_visible(a, artist, q, f) ==> library_filter_admits(a, f),
        library_filter_admits(a, f) && q.len() == 0 ==> library_visible(a, artist, q, f),
        library_filter_admits(a, f) && contains_text(lowercase_text(a.title@), q) ==> library_visible(a, artist, q, f),
        library_filter_admits(a, f) && contains_text(lowercase_text(artist), q) ==> library_visible(a, artist, q, f),
{
}

/// Which albums the library grid shows.
pub open spec fn library_flags(albums: Seq<Album>, artists: Seq<Artist>, q: Seq<char>, f: LibraryFilter) -> Seq<bool> {
    Seq::new(
        albums.len(),
        |i: int| library_visible(albums[i], artist_name_or_empty(artists, albums[i].artist_id@), q, f),
    )
}

/// The sort key of an album in the library grid.
pub open spec fn library_key(a: Album, artist: Seq<char>, sort: LibrarySort) -> Seq<KeyVal> {
    match sort {
        LibrarySort::Az => seq![KeyVal::Text(lowercase_text(a.title@))],
        LibrarySort::Newest => date_desc(a.release_date),
        LibrarySort::Oldest => date_asc(a.release_date),
        LibrarySort::Artist => seq![KeyVal::Text(lowercase_text(artist))],
        LibrarySort::Recent => seq![KeyVal::Num(-stamp_offset(a.added_at))],
    }
}

/// The sort keys of albums in the library grid.
pub open spec fn library_keys(albums: Seq<Album>, artists: Seq<Artist>, sort: LibrarySort) -> Seq<Seq<KeyVal>> {
    Seq::new(
        albums.len(),
        |i: int| library_key(albums[i], artist_name_or_empty(artists, albums[i].artist_id@), sort),
    )
}

fn artist_name_text(artists: &Vec<Artist>, id: &str) -> (r: String)
    ensures
        r@ == artist_name_or_empty(artists@, id@),
{
    match find_artist_name(artists, id) {
        Some(n) => n,
        None => String::new(),
    }
}

fn library_key_parts(a: &Album, artist: &str, sort: LibrarySort) -> (k: Vec<KeyPart>)
    ensures
        key_val(k) == library_key(*a, artist@, sort),
{
    let mut k: Vec<KeyPart> = Vec::new();
    match sort {
        LibrarySort::Az => {
            let low = lowercase(a.title.as_str());
            k.push(KeyPart::Text(chars_of(low.as_str())));
        },
        LibrarySort::Newest => {
            push_date(&mut k, &a.release_date, true);
        },
        LibrarySort::Oldest => {
            push_date(&mut k, &a.release_date, false);
        },
        LibrarySort::Artist => {
            let low = lowercase(artist);
            k.push(KeyPart::Text(chars_of(low.as_str())));
        },
        LibrarySort::Recent => {
            k.push(KeyPart::NumDesc(stamp_key(a.added_at)));
        },
    }
    assert(key_val(k) =~= library_key(*a, artist@, sort));
    k
}

/// The albums of the library grid: those the search text and filter let
/// through, in the chosen order (stable for equal keys).
pub fn library_album_view(
    albums: Vec<Album>,
    artists: &Vec<Artist>,
    query: &str,
    filter: LibraryFilter,
    sort: LibrarySort,
) -> (r: Vec<Album>)
    ensures
        arranged(
            r@,
            select(albums@, library_flags(albums@, artists@, normalized_query(query@), filter)),
            library_keys(
                select(albums@, library_flags(albums@, artists@, normalized_query(query@), filter)),
                artists@,
                sort,
            ),
            false,
        ),
        forall|m: int| 0 <= m < r@.len() ==> library_filter_admits(#[trigger] r@[m], filter),
        forall|i: int|
            0 <= i < albums@.len() && normalized_query(query@).len() == 0 && library_filter_admits(
                #[trigger] albums@[i],
                filter,
            ) ==> r@.contains(albums@[i]),
        forall|i: int|
            0 <= i < albums@.len() && library_filter_admits(#[trigger] albums@[i], filter) && contains_text(
                lowercase_text(albums@[i].title@),
                normalized_query(query@),
            ) ==> r@.contains(albums@[i]),
{
    let ghost orig = albums@;
    let q = normalize_query(query);
    let mut flags: Vec<bool> = Vec::new();
    let mut i: usize = 0;
    while i < albums.len()
        invariant
            q@ == normalized_query(query@),
            i <= albums.len(),
            flags@.len() == i,
            forall|m: int|
                0 <= m < i ==> #[trigger] flags@[m] == library_visible(
                    albums@[m],
                    artist_name_or_empty(artists@, albums@[m].artist_id@),
                    q@,
                    filter,
                ),
        decreases albums.len() - i,
    {
        let a = &albums[i];
        let artist = artist_name_text(artists, a.artist_id.as_str());
        let mut shown = true;
        if q.len() > 0 {
            let title = chars_of(lowercase(a.title.as_str()).as_str());
            let name = chars_of(lowercase(artist.as_str()).as_str());
            shown = contains_chars(&title, &q) || contains_chars(&name, &q);
        }
        let passes = match filter {
            LibraryFilter::All => true,
            LibraryFilter::Monitored => a.monitored,
            LibraryFilter::Wanted => a.wanted || a.partially_wanted,
            LibraryFilter::Acquired => a.acquired,
        };
        flags.push(shown && passes);
        i = i + 1;
    }
    assert(flags@ =~= library_flags(albums@, artists@, q@, filter));
    let kept = retain_flags(albums, &flags);
    let mut keys: Vec<Vec<KeyPart>> = Vec::new();
    let mut k: usize = 0;
    while k < kept.len()
        invariant
            k <= kept.len(),
            keys@.len() == k,
            forall|m: int|
                0 <= m < k ==> key_val(#[trigger] keys@[m]) == library_key(
                    kept@[m],
                    artist_name_or_empty(artists@, kept@[m].artist_id@),
                    sort,
                ),
        decreases kept.len() - k,
    {
        let artist = artist_name_text(artists, kept[k].artist_id.as_str());
        keys.push(library_key_parts(&kept[k], artist.as_str(), sort));
        k = k + 1;
    }
    assert(keys_val(keys@) =~= library_keys(kept@, artists@, sort));
    let order = sort_order(&keys, false);
    let ghost kv = kept@;
    let r = apply_order(kept, &order);
    assert(is_sort_order(order@, library_keys(kv, artists@, sort), false));
    proof {
        let fl = library_flags(orig, artists@, q@, filter);
        let ks = library_keys(kv, artists@, sort);
        assert(forall|k: int| 0 <= k < r@.len() ==> #[trigger] r@[k] == kv[order@[k] as int]);
        assert(arranged(r@, kv, ks, false));
        crate::tracks::lemma_arranged_contains(r@, kv, ks, false);
        let idx = crate::seqs::lemma_select_positions(orig, fl);
        assert forall|m: int| 0 <= m < r@.len() implies library_filter_admits(#[trigger] r@[m], filter) by {
            assert(kv.contains(r@[m]));
            let j = choose|j: int| 0 <= j < kv.len() && kv[j] == r@[m];
            assert(fl[idx[j]]);
            lemma_library_shows(orig[idx[j]], artist_name_or_empty(artists@, orig[idx[j]].artist_id@), q@, filter);
        }
        assert forall|i: int|
            0 <= i < orig.len() && library_filter_admits(#[trigger] orig[i], filter) && (q@.len() == 0
                || contains_text(lowercase_text(orig[i].title@), q@)) implies r@.contains(orig[i]) by {
            lemma_library_shows(orig[i], artist_name_or_empty(artists@, orig[i].artist_id@), q@, filter);
            assert(fl[i]);
            let m = choose|m: int| 0 <= m < idx.len() && idx[m] == i;
            assert(kv[m] == orig[i]);
        }
    }
    r
}

// ── The artist collection ───────────────────────────────────

/// The orders of the artist collection.
#[derive(Debug, Clone, Copy, PartialEq, Eq, Structural)]
pub enum CollectionSort {
    /// By name, ignoring case.
    Az,
    /// By name, ignoring case, last first.
    Za,
    /// Most recently added first.
    Recent,
    /// Most wanted albums first.
    Wanted,
}

/// The order a form value selects; anything unknown sorts by name.
pub open spec fn collection_sort_parse(s: Seq<char>) -> CollectionSort {
    if s == "za"@ {
        CollectionSort::Za
    } else if s == "recent"@ {
        CollectionSort::Recent
    } else if s == "wanted"@ {
        CollectionSort::Wanted
    } else {
        CollectionSort::Az
    }
}

impl CollectionSort {
    /// The order a form value selects.
    pub fn from_value(s: &str) -> (r: CollectionSort)
        ensures
            r == collection_sort_parse(s@),
    {
        if text_eq(s, "za") {
            CollectionSort::Za
        } else if text_eq(s, "recent") {
            CollectionSort::Recent
        } else if text_eq(s, "wanted") {
            CollectionSort::Wanted
        } else {
            CollectionSort::Az
        }
    }
}

/// Whether the collection shows an artist: the search text, if any, must
/// occur in its name, ignoring case.
pub open spec fn collection_visible(a: Artist, q: Seq<char>) -> bool {
    q.len() == 0 || contains_text(lowercase_text(a.name@), q)
}

/// The sort key of an artist, `wanted` being its number of wanted albums.
pub open spec fn collection_key(a: Artist, wanted: u64, sort: CollectionSort) -> Seq<KeyVal> {
    match sort {
        CollectionSort::Az => seq![KeyVal::Text(lowercase_text(a.name@))],
        CollectionSort::Za => seq![KeyVal::TextDesc(lowercase_text(a.name@))],
        CollectionSort::Recent => seq![KeyVal::Num(-stamp_offset(a.added_at))],
        CollectionSort::Wanted => seq![KeyVal::Num(-(wanted as int))],
    }
}

/// The positions of all artists.
pub open spec fn positions(n: nat) -> Seq<usize> {
    Seq::new(n, |i: int| i as usize)
}

/// Which artists the collection shows.
pub open spec fn collection_flags(artists: Seq<Artist>, q: Seq<char>) -> Seq<bool> {
    Seq::new(artists.len(), |i: int| collection_visible(artists[i], q))
}

/// The sort keys of the artists at the given positions.
pub open spec fn collection_keys(artists: Seq<Artist>, wanted: Seq<u64>, at: Seq<usize>, sort: CollectionSort) -> Seq<
    Seq<KeyVal>,
> {
    Seq::new(at.len(), |i: int| collection_key(artists[at[i] as int], wanted[at[i] as int], sort))
}

/// The artist collection: the positions of the artists the search text lets
/// through, in the chosen order (stable for equal keys); `wanted[i]` is the
/// number of wanted albums of artist `i`.
pub fn collection_view(artists: &Vec<Artist>, wanted: &Vec<u64>, query: &str, sort: CollectionSort) -> (r: Vec<usize>)
    requires
        wanted@.len() == artists@.len(),
    ensures
        arranged(
            r@,
            select(positions(artists@.len()), collection_flags(artists@, normalized_query(query@))),
            collection_keys(
                artists@,
                wanted@,
                select(positions(artists@.len()), collection_flags(artists@, normalized_query(query@))),
                sort,
            ),
            false,
        ),
{
    let q = normalize_query(query);
    let mut flags: Vec<bool> = Vec::new();
    let mut all: Vec<usize> = Vec::new();
    let mut i: usize = 0;
    while i < artists.len()
        invariant
            q@ == normalized_query(query@),
            i <= artists.len(),
            flags@.len() == i,
            all@ == positions(i as nat),
            forall|m: int| 0 <= m < i ==> #[trigger] flags@[m] == collection_visible(artists@[m], q@),
        decreases artists.len() - i,
    {
        let shown = if q.len() == 0 {
            true
        } else {
            let name = chars_of(lowercase(artists[i].name.as_str()).as_str());
            contains_chars(&name, &q)
        };
        flags.push(shown);
        all.push(i);
        assert(all@ =~= positions((i + 1) as nat));
        i = i + 1;
    }
    assert(flags@ =~= collection_flags(artists@, q@));
    let ghost sel = select(positions(artists@.len()), flags@);
    let kept = retain_flags(all, &flags);
    proof {
        crate::seqs::lemma_select_members(positions(artists@.len()), flags@);
    }
    let mut keys: Vec<Vec<KeyPart>> = Vec::new();
    let mut k: usize = 0;
    while k < kept.len()
        invariant
            kept@ == sel,
            wanted@.len() == artists@.len(),
            forall|m: int| 0 <= m < kept@.len() ==> kept@[m] < artists@.len(),
            k <= kept.len(),
            keys@.len() == k,
            forall|m: int|
                0 <= m < k ==> key_val(#[trigger] keys@[m]) == collection_key(
                    artists@[kept@[m] as int],
                    wanted@[kept@[m] as int],
                    sort,
                ),
        decreases kept.len() - k,
    {
        let a = &artists[kept[k]];
        let mut sk: Vec<KeyPart> = Vec::new();
        match sort {
            CollectionSort::Az => {
                sk.push(KeyPart::Text(chars_of(lowercase(a.name.as_str()).as_str())));
            },
            CollectionSort::Za => {
                sk.push(KeyPart::TextDesc(chars_of(lowercase(a.name.as_str()).as_str())));
            },
            CollectionSort::Recent => {
                sk.push(KeyPart::NumDesc(stamp_key(a.added_at)));
            },
            CollectionSort::Wanted => {
                sk.push(KeyPart::NumDesc(wanted[kept[k]]));
            },
        }
        assert(key_val(sk) =~= collection_key(artists@[kept@[k as int] as int], wanted@[kept@[k as int] as int], sort));
        keys.push(sk);
        k = k + 1;
    }
    assert(keys_val(keys@) =~= collection_keys(artists@, wanted@, kept@, sort));
    let order = sort_order(&keys, false);
    let ghost kv = kept@;
    let r = apply_order(kept, &order);
    assert(is_sort_order(order@, collection_keys(artists@, wanted@, kv, sort), false));
    r
}

// ── Albums of an artist ─────────────────────────────────────

/// Whether an album credits an artist, as its main artist or among the others.
pub open spec fn credits(a: Album, id: Seq<char>) -> bool {
    a.artist_id@ == id || exists|k: int| 0 <= k < a.artist_ids@.len() && a.artist_ids@[k]@ == id
}

/// Whether an album credits an artist.
pub fn credits_artist(a: &Album, id: &str) -> (r: bool)
    ensures
        r == credits(*a, id@),
{
    if text_eq(a.artist_id.as_str(), id) {
        return true;
    }
    let mut k: usize = 0;
    while k < a.artist_ids.len()
        invariant
            k <= a.artist_ids.len(),
            forall|m: int| 0 <= m < k ==> a.artist_ids@[m]@ != id@,
            a.artist_id@ != id@,
        decreases a.artist_ids.len() - k,
    {
        if text_eq(a.artist_ids[k].as_str(), id) {
            return true;
        }
        k = k + 1;
    }
    false
}

/// The albums an artist page shows: those that credit the artist, in order.
pub fn albums_of_artist(albums: Vec<Album>, id: &str) -> (r: Vec<Album>)
    ensures
        r@ == select(albums@, Seq::new(albums@.len(), |i: int| credits(albums@[i], id@))),
{
    let mut flags: Vec<bool> = Vec::new();
    let mut i: usize = 0;
    while i < albums.len()
        invariant
            i <= albums.len(),
            flags@.len() == i,
            forall|m: int| 0 <= m < i ==> #[trigger] flags@[m] == credits(albums@[m], id@),
        decreases albums.len() - i,
    {
        flags.push(credits_artist(&albums[i], id));
        i = i + 1;
    }
    assert(flags@ =~= Seq::new(albums@.len(), |i: int| credits(albums@[i], id@)));
    retain_flags(albums, &flags)
}

/// The albums of the wanted list: wanted as a whole or in part, in order.
pub fn wanted_albums(albums: Vec<Album>) -> (r: Vec<Album>)
    ensures
        r@ == select(albums@, Seq::new(albums@.len(), |i: int| albums@[i].wanted || albums@[i].partially_wanted)),
{
    let mut flags: Vec<bool> = Vec::new();
    let mut i: usize = 0;
    while i < albums.len()
        invariant
            i <= albums.len(),
            flags@.len() == i,
            forall|m: int| 0 <= m < i ==> #[trigger] flags@[m] == (albums@[m].wanted || albums@[m].partially_wanted),
        decreases albums.len() - i,
    {
        flags.push(albums[i].wanted || albums[i].partially_wanted);
        i = i + 1;
    }
    assert(flags@ =~= Seq::new(albums@.len(), |i: int| albums@[i].wanted || albums@[i].partially_wanted));
    retain_flags(albums, &flags)
}

/// Whether the library album grid keeps an album: monitored as a whole, or
/// with at least one monitored track (given the monitored flags of its tracks).
pub fn kept_in_library(album_monitored: bool, track_monitored: &Vec<bool>) -> (r: bool)
    ensures
        r == (album_monitored || exists|k: int| 0 <= k < track_monitored@.len() && track_monitored@[k]),
{
    if album_monitored {
        return true;
    }
    let mut k: usize = 0;
    while k < track_monitored.len()
        invariant
            k <= track_monitored.len(),
            forall|m: int| 0 <= m < k ==> !track_monitored@[m],
        decreases track_monitored.len() - k,
    {
        if track_monitored[k] {
            return true;
        }
        k = k + 1;
    }
    false
}

/// The flags of the album with an id, as a sleeve reads them: monitored,
/// wanted and acquired of the first album with that id, or all unset.
pub open spec fn flags_of(albums: Seq<Album>, id: Seq<char>) -> (bool, bool, bool)
    decreases albums.len(),
{
    if albums.len() == 0 {
        (false, false, false)
    } else if albums[0].id@ == id {
        (albums[0].monitored, albums[0].wanted, albums[0].acquired)
    } else {
        flags_of(albums.drop_first(), id)
    }
}

/// The flags of the album with an id.
pub fn album_flags(albums: &Vec<Album>, id: &str) -> (r: (bool, bool, bool))
    ensures
        r == flags_of(albums@, id@),
{
    let mut i: usize = 0;
    assert(albums@.skip(0) =~= albums@);
    while i < albums.len()
        invariant
            i <= albums.len(),
            flags_of(albums@, id@) == flags_of(albums@.skip(i as int), id@),
        decreases albums.len() - i,
    {
        assert(albums@.skip(i as int)[0] == albums@[i as int]);
        assert(albums@.skip(i as int).drop_first() =~= albums@.skip(i + 1));
        if text_eq(albums[i].id.as_str(), id) {
            return (albums[i].monitored, albums[i].wanted, albums[i].acquired);
        }
        i = i + 1;
    }
    (false, false, false)
}

/// The summary line of an artist card.
pub fn artist_card_summary(c: &AlbumCounts) -> (r: String)
    ensures
        r@ == crate::text::decimal(c.total as nat) + " albums · "@ + crate::text::decimal(c.acquired as nat)
            + " acquired · "@ + crate::text::decimal(c.wanted as nat) + " wanted"@,
{
    let mut s = crate::text::decimal_string(c.total as u64);
    crate::text::push_str(&mut s, " albums · ");
    crate::text::push_str(&mut s, crate::text::decimal_string(c.acquired as u64).as_str());
    crate::text::push_str(&mut s, " acquired · ");
    crate::text::push_str(&mut s, crate::text::decimal_string(c.wanted as u64).as_str());
    crate::text::push_str(&mut s, " wanted");
    s
}

/// The summary line of an artist page's header.
pub fn artist_header_summary(c: &AlbumCounts) -> (r: String)
    ensures
        r@ == crate::text::decimal(c.total as nat) + " albums · "@ + crate::text::decimal(c.monitored as nat)
            + " monitored · "@ + crate::text::decimal(c.acquired as nat) + " acquired · "@
            + crate::text::decimal(c.wanted as nat) + " wanted"@,
{
    let mut s = crate::text::decimal_string(c.total as u64);
    crate::text::push_str(&mut s, " albums · ");
    crate::text::push_str(&mut s, crate::text::decimal_string(c.monitored as u64).as_str());
    crate::text::push_str(&mut s, " monitored · ");
    crate::text::push_str(&mut s, crate::text::decimal_string(c.acquired as u64).as_str());
    crate::text::push_str(&mut s, " acquired · ");
    crate::text::push_str(&mut s, crate::text::decimal_string(c.wanted as u64).as_str());
    crate::text::push_str(&mut s, " wanted");
    s
}

/// The heading of an artist page's pending match suggestions.
pub fn potential_matches_title(n: usize) -> (r: String)
    ensures
        r@ == "Potential Matches ("@ + crate::text::decimal(n as nat) + ")"@,
{
    let mut s = crate::text::owned("Potential Matches (");
    crate::text::push_str(&mut s, crate::text::decimal_string(n as u64).as_str());
    crate::text::push_str(&mut s, ")");
    s
}

/// The line under a sleeve's title: the release date, or a dash, and the
/// label of the album's type.
pub fn sleeve_subline(release_date: &Option<String>, type_label: &str) -> (r: String)
    ensures
        r@ == (match release_date {
            Some(x) => x@,
            None => "\u{2014}"@,
        }) + " \u{00b7} "@ + type_label@,
{
    let mut s = release_date_display(release_date);
    crate::text::push_str(&mut s, " \u{00b7} ");
    crate::text::push_str(&mut s, type_label);
    s
}

/// The wanted pill of a sleeve.
pub fn wanted_pill(wanted: bool) -> (r: &'static str)
    ensures
        r@ == (if wanted { "Wanted"@ } else { "Not Wanted"@ }),
{
    if wanted {
        "Wanted"
    } else {
        "Not Wanted"
    }
}

/// The badge of an artist card: followed in full, or only for some albums.
pub fn artist_badge(monitored: bool) -> (r: &'static str)
    ensures
        r@ == (if monitored { "Monitored"@ } else { "Lightweight"@ }),
{
    if monitored {
        "Monitored"
    } else {
        "Lightweight"
    }
}

/// The tooltip of an album card's bookmark.
pub fn bookmark_title(monitored: bool) -> (r: &'static str)
    ensures
        r@ == (if monitored {
            "Monitored \u{2014} click to unmonitor"@
        } else {
            "Not monitored \u{2014} click to monitor"@
        }),
{
    if monitored {
        "Monitored \u{2014} click to unmonitor"
    } else {
        "Not monitored \u{2014} click to monitor"
    }
}

/// Which parts of a detail page show: the skeleton until the first answer,
/// the error after a failed answer, the not-found note when an answer had
/// no such item, and the content whenever there is an item.
pub struct DetailSections {
    pub skeleton: bool,
    pub error: bool,
    pub not_found: bool,
    pub content: bool,
}

/// Which parts of a detail page show.
pub fn detail_sections(has_loaded: bool, has_error: bool, has_item: bool) -> (r: DetailSections)
    ensures
        r.skeleton == !has_loaded,
        r.error == (has_loaded && has_error),
        r.not_found == (has_loaded && !has_item && !has_error),
        r.content == has_item,
{
    DetailSections {
        skeleton: !has_loaded,
        error: has_loaded && has_error,
        not_found: has_loaded && !has_item && !has_error,
        content: has_item,
    }
}

} // verus!
