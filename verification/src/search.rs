//! Provider search: the query that is sent, the merging of duplicate
//! results across providers, the results that the artist pages and the
//! link dialog hide, and the subtitles of a result.
use vstd::prelude::*;
use crate::merge::{choose_entries, merge_flags};
use crate::seqs::{select, retain_flags, first_flags, distinct_keys, lemma_distinct_keys_unique, lemma_distinct_keys_contains};
use crate::text::{
    chars_of, concat2, concat3, decimal, decimal_string, lowercase, lowercase_text, owned, push_str,
    text_eq, trim, trim_text,
};

verus! {

/// An artist found on a provider.
pub struct SearchArtistResult {
    pub provider: String,
    pub external_id: String,
    pub name: String,
    pub image_url: Option<String>,
    pub url: Option<String>,
    pub disambiguation: Option<String>,
    pub artist_type: Option<String>,
    pub country: Option<String>,
    pub tags: Vec<String>,
    pub popularity: Option<u32>,
}

/// An album found on a provider.
pub struct SearchAlbumResult {
    pub provider: String,
    pub external_id: String,
    pub title: String,
    pub artist_name: String,
    pub artist_external_id: String,
    pub album_type: Option<String>,
    pub release_date: Option<String>,
    pub cover_url: Option<String>,
    pub url: Option<String>,
    pub explicit: bool,
}

/// A track found on a provider.
pub struct SearchTrackResult {
    pub provider: String,
    pub external_id: String,
    pub title: String,
    pub version: Option<String>,
    pub artist_name: String,
    pub artist_external_id: String,
    pub album_title: String,
    pub album_external_id: String,
    pub album_cover_url: Option<String>,
    pub duration_secs: u32,
    pub duration_display: String,
    pub isrc: Option<String>,
    pub explicit: bool,
}

// ── The query ───────────────────────────────────────────────

/// The text sent to the providers for a query: the trimmed query, or
/// nothing at all when that is empty.
pub fn search_query(query: &str) -> (r: Option<String>)
    ensures
        trim_text(query@).len() == 0 ==> r is None,
        trim_text(query@).len() > 0 ==> r is Some && r.unwrap()@ == trim_text(query@),
{
    let t = trim(query);
    if t.is_empty() {
        None
    } else {
        Some(owned(t))
    }
}

/// The text a provider-scoped search sends: nothing while no provider is
/// chosen or the query is blank, otherwise the trimmed query.
pub fn scoped_query(provider: &str, query: &str) -> (r: Option<String>)
    ensures
        provider@.len() == 0 || trim_text(query@).len() == 0 ==> r is None,
        provider@.len() > 0 && trim_text(query@).len() > 0 ==> r is Some && r.unwrap()@ == trim_text(query@),
{
    if provider.unicode_len() == 0 {
        None
    } else {
        search_query(query)
    }
}

// ── Merging duplicates ──────────────────────────────────────

/// A text trimmed and in lower case, as results are compared.
pub open spec fn folded(s: Seq<char>) -> Seq<char> {
    lowercase_text(trim_text(s))
}

fn fold_text(s: &str) -> (r: Vec<char>)
    ensures
        r@ == folded(s@),
{
    chars_of(lowercase(trim(s)).as_str())
}

/// Two artists are the same when their folded names are.
pub open spec fn artist_key(r: SearchArtistResult) -> Seq<char> {
    folded(r.name@)
}

/// Two albums are the same when artist, title and release date are.
pub open spec fn album_key(r: SearchAlbumResult) -> Seq<char> {
    folded(r.artist_name@) + "::"@ + folded(r.title@) + "::"@ + match r.release_date {
        Some(d) => d@,
        None => Seq::empty(),
    }
}

/// Two tracks are the same when artist, album, title and duration are.
pub open spec fn track_key(r: SearchTrackResult) -> Seq<char> {
    folded(r.artist_name@) + "::"@ + folded(r.album_title@) + "::"@ + folded(r.title@) + "::"@
        + decimal(r.duration_secs as nat)
}

/// The results with the later duplicates of each key left out.
pub open spec fn first_of_each<T>(items: Seq<T>, keys: Seq<Seq<char>>) -> Seq<T> {
    select(items, first_flags(keys))
}

proof fn lemma_merge_flags_first(keys: Seq<Seq<char>>)
    ensures
        merge_flags(keys, 0) == first_flags(keys),
{
    assert(merge_flags(keys, 0) =~= first_flags(keys));
}

fn append(s: &mut Vec<char>, t: &Vec<char>)
    ensures
        final(s)@ == old(s)@ + t@,
{
    let ghost start = s@;
    let mut i: usize = 0;
    while i < t.len()
        invariant
            i <= t.len(),
            s@ == start + t@.take(i as int),
        decreases t.len() - i,
    {
        s.push(t[i]);
        assert(start + t@.take(i + 1) =~= (start + t@.take(i as int)).push(t@[i as int]));
        i = i + 1;
    }
    assert(t@.take(t@.len() as int) =~= t@);
}

/// The artist results, without later duplicates when `dedupe` is set.
pub fn dedupe_artists(items: Vec<SearchArtistResult>, dedupe: bool) -> (r: Vec<SearchArtistResult>)
    ensures
        dedupe ==> r@ == first_of_each(items@, items@.map_values(|x: SearchArtistResult| artist_key(x))),
        !dedupe ==> r@ == items@,
{
    if !dedupe {
        return items;
    }
    let mut keys: Vec<Vec<char>> = Vec::new();
    let mut i: usize = 0;
    while i < items.len()
        invariant
            i <= items.len(),
            keys@.len() == i,
            forall|m: int| 0 <= m < i ==> #[trigger] keys@[m]@ == artist_key(items@[m]),
        decreases items.len() - i,
    {
        keys.push(fold_text(items[i].name.as_str()));
        i = i + 1;
    }
    let ghost kv = keys@.map_values(|k: Vec<char>| k@);
    assert(kv =~= items@.map_values(|x: SearchArtistResult| artist_key(x)));
    let flags = choose_entries(&keys, 0);
    proof {
        lemma_merge_flags_first(kv);
    }
    retain_flags(items, &flags)
}

fn album_key_chars(r: &SearchAlbumResult) -> (k: Vec<char>)
    ensures
        k@ == album_key(*r),
{
    let mut k = fold_text(r.artist_name.as_str());
    append(&mut k, &chars_of("::"));
    append(&mut k, &fold_text(r.title.as_str()));
    append(&mut k, &chars_of("::"));
    match &r.release_date {
        Some(d) => append(&mut k, &chars_of(d.as_str())),
        None => {
            assert(k@ + Seq::<char>::empty() =~= k@);
        },
    }
    k
}

/// The album results, without later duplicates when `dedupe` is set.
pub fn dedupe_albums(items: Vec<SearchAlbumResult>, dedupe: bool) -> (r: Vec<SearchAlbumResult>)
    ensures
        dedupe ==> r@ == first_of_each(items@, items@.map_values(|x: SearchAlbumResult| album_key(x))),
        !dedupe ==> r@ == items@,
{
    if !dedupe {
        return items;
    }
    let mut keys: Vec<Vec<char>> = Vec::new();
    let mut i: usize = 0;
    while i < items.len()
        invariant
            i <= items.len(),
            keys@.len() == i,
            forall|m: int| 0 <= m < i ==> #[trigger] keys@[m]@ == album_key(items@[m]),
        decreases items.len() - i,
    {
        keys.push(album_key_chars(&items[i]));
        i = i + 1;
    }
    let ghost kv = keys@.map_values(|k: Vec<char>| k@);
    assert(kv =~= items@.map_values(|x: SearchAlbumResult| album_key(x)));
    let flags = choose_entries(&keys, 0);
    proof {
        lemma_merge_flags_first(kv);
    }
    retain_flags(items, &flags)
}

fn track_key_chars(r: &SearchTrackResult) -> (k: Vec<char>)
    ensures
        k@ == track_key(*r),
{
    let mut k = fold_text(r.artist_name.as_str());
    append(&mut k, &chars_of("::"));
    append(&mut k, &fold_text(r.album_title.as_str()));
    append(&mut k, &chars_of("::"));
    append(&mut k, &fold_text(r.title.as_str()));
    append(&mut k, &chars_of("::"));
    append(&mut k, &chars_of(decimal_string(r.duration_secs as u64).as_str()));
    k
}

/// The track results, without later duplicates when `dedupe` is set.
pub fn dedupe_tracks(items: Vec<SearchTrackResult>, dedupe: bool) -> (r: Vec<SearchTrackResult>)
    ensures
        dedupe ==> r@ == first_of_each(items@, items@.map_values(|x: SearchTrackResult| track_key(x))),
        !dedupe ==> r@ == items@,
{
    if !dedupe {
        return items;
    }
    let mut keys: Vec<Vec<char>> = Vec::new();
    let mut i: usize = 0;
    while i < items.len()
        invariant
            i <= items.len(),
            keys@.len() == i,
            forall|m: int| 0 <= m < i ==> #[trigger] keys@[m]@ == track_key(items@[m]),
        decreases items.len() - i,
    {
        keys.push(track_key_chars(&items[i]));
        i = i + 1;
    }
    let ghost kv = keys@.map_values(|k: Vec<char>| k@);
    assert(kv =~= items@.map_values(|x: SearchTrackResult| track_key(x)));
    let flags = choose_entries(&keys, 0);
    proof {
        lemma_merge_flags_first(kv);
    }
    retain_flags(items, &flags)
}

/// Selecting commutes with taking keys: the keys of the kept items are the
/// kept keys.
pub proof fn lemma_select_keys<T>(items: Seq<T>, keep: Seq<bool>, key: spec_fn(T) -> Seq<char>)
    requires
        keep.len() == items.len(),
    ensures
        select(items, keep).map_values(key) == select(items.map_values(key), keep),
    decreases items.len(),
{
    if items.len() > 0 {
        lemma_select_keys(items.drop_first(), keep.drop_first(), key);
        assert(items.map_values(key).drop_first() =~= items.drop_first().map_values(key));
        if keep[0] {
            assert(select(items, keep).map_values(key) =~= seq![key(items[0])] + select(
                items.drop_first(),
                keep.drop_first(),
            ).map_values(key));
        }
    } else {
        assert(select(items, keep).map_values(key) =~= Seq::<Seq<char>>::empty());
        assert(select(items.map_values(key), keep) =~= Seq::<Seq<char>>::empty());
    }
}

/// Merging duplicates leaves one result per key: no two kept results are
/// the same, and every key of the results is kept.
pub proof fn lemma_first_of_each<T>(items: Seq<T>, key: spec_fn(T) -> Seq<char>)
    ensures
        first_of_each(items, items.map_values(key)).map_values(key) == distinct_keys(items.map_values(key)),
        forall|a: int, b: int|
            0 <= a < b < first_of_each(items, items.map_values(key)).len() ==> key(
                first_of_each(items, items.map_values(key))[a],
            ) != key(first_of_each(items, items.map_values(key))[b]),
        forall|k: Seq<char>|
            items.map_values(key).contains(k) ==> first_of_each(items, items.map_values(key)).map_values(
                key,
            ).contains(k),
{
    let keys = items.map_values(key);
    lemma_select_keys(items, first_flags(keys), key);
    lemma_distinct_keys_unique(keys);
    let kept = first_of_each(items, keys);
    assert(kept.map_values(key) == distinct_keys(keys));
    assert forall|a: int, b: int| 0 <= a < b < kept.len() implies key(kept[a]) != key(kept[b]) by {
        assert(kept.map_values(key)[a] == key(kept[a]));
        assert(kept.map_values(key)[b] == key(kept[b]));
        assert(distinct_keys(keys)[a] != distinct_keys(keys)[b]);
    }
    assert forall|k: Seq<char>| keys.contains(k) implies kept.map_values(key).contains(k) by {
        lemma_distinct_keys_contains(keys, k);
    }
}

/// The title of a result section: its name and number of results.
pub fn section_title(name: &str, count: usize) -> (r: String)
    ensures
        r@ == name@ + " ("@ + decimal(count as nat) + ")"@,
{
    let mut s = concat2(name, " (");
    push_str(&mut s, decimal_string(count as u64).as_str());
    push_str(&mut s, ")");
    s
}

// ── Subtitles ───────────────────────────────────────────────

/// An optional text, present and non-empty.
pub open spec fn filled(s: Option<String>) -> bool {
    s matches Some(x) && x@.len() > 0
}

/// The type and country line of a search row: both joined by ` · `, or the
/// one that is given, empty texts counting as missing.
pub open spec fn type_country_line(t: Option<String>, c: Option<String>) -> Seq<char> {
    if filled(t) && filled(c) {
        t.unwrap()@ + " · "@ + c.unwrap()@
    } else if filled(t) {
        t.unwrap()@
    } else if filled(c) {
        c.unwrap()@
    } else {
        Seq::empty()
    }
}

/// The type and country line of a search row.
pub fn search_type_country(t: &Option<String>, c: &Option<String>) -> (r: String)
    ensures
        r@ == type_country_line(*t, *c),
{
    let tf = match t {
        Some(x) => !x.as_str().is_empty(),
        None => false,
    };
    let cf = match c {
        Some(x) => !x.as_str().is_empty(),
        None => false,
    };
    if tf && cf {
        concat3(t.as_ref().unwrap().as_str(), " · ", c.as_ref().unwrap().as_str())
    } else if tf {
        t.as_ref().unwrap().clone()
    } else if cf {
        c.as_ref().unwrap().clone()
    } else {
        String::new()
    }
}

/// The provider line of an artist search row: the provider, then the type
/// and country line if there is one.
pub fn provider_line(provider: &str, type_country: &str) -> (r: String)
    ensures
        r@ == if type_country@.len() == 0 {
            provider@
        } else {
            provider@ + " · "@ + type_country@
        },
{
    if type_country.is_empty() {
        owned(provider)
    } else {
        concat3(provider, " · ", type_country)
    }
}

/// The popularity badge of a search row.
pub fn popularity_badge(p: u32) -> (r: String)
    ensures
        r@ == "pop "@ + decimal(p as nat),
{
    concat2("pop ", decimal_string(p as u64).as_str())
}

/// The type and origin of an artist: `T from C`, `T`, `from C`, or nothing.
pub open spec fn type_origin(t: Option<String>, c: Option<String>) -> Option<Seq<char>> {
    match (t, c) {
        (Some(t), Some(c)) => Some(t@ + " from "@ + c@),
        (Some(t), None) => Some(t@),
        (None, Some(c)) => Some("from "@ + c@),
        (None, None) => None,
    }
}

/// The type and origin of an artist.
pub fn type_origin_text(t: &Option<String>, c: &Option<String>) -> (r: Option<String>)
    ensures
        crate::text::opt_view(r) == type_origin(*t, *c),
{
    match (t, c) {
        (Some(t), Some(c)) => Some(concat3(t.as_str(), " from ", c.as_str())),
        (Some(t), None) => Some(t.clone()),
        (None, Some(c)) => Some(concat2("from ", c.as_str())),
        (None, None) => None,
    }
}

/// The subtitle of a suggested or linkable artist: the disambiguation, else
/// the type and origin, followed by the popularity where there is one.
pub open spec fn suggestion_subtitle_text(r: SearchArtistResult) -> Option<Seq<char>> {
    let base = match r.disambiguation {
        Some(d) => Some(d@),
        None => type_origin(r.artist_type, r.country),
    };
    match (base, r.popularity) {
        (Some(b), Some(p)) => Some(b + " · "@ + decimal(p as nat) + "% popularity"@),
        (Some(b), None) => Some(b),
        (None, Some(p)) => Some(decimal(p as nat) + "% popularity"@),
        (None, None) => None,
    }
}

/// The subtitle of a suggested or linkable artist.
pub fn suggestion_subtitle(r: &SearchArtistResult) -> (s: Option<String>)
    ensures
        crate::text::opt_view(s) == suggestion_subtitle_text(*r),
{
    let base = match &r.disambiguation {
        Some(d) => Some(d.clone()),
        None => type_origin_text(&r.artist_type, &r.country),
    };
    match (base, r.popularity) {
        (Some(b), Some(p)) => {
            let mut s = concat2(b.as_str(), " · ");
            push_str(&mut s, decimal_string(p as u64).as_str());
            push_str(&mut s, "% popularity");
            Some(s)
        },
        (Some(b), None) => Some(b),
        (None, Some(p)) => {
            let mut s = decimal_string(p as u64);
            push_str(&mut s, "% popularity");
            Some(s)
        },
        (None, None) => None,
    }
}

/// The subtitle of a provider result in the credit resolver: the
/// disambiguation, else the type and origin.
pub fn resolver_subtitle(r: &SearchArtistResult) -> (s: Option<String>)
    ensures
        crate::text::opt_view(s) == match r.disambiguation {
            Some(d) => Some(d@),
            None => type_origin(r.artist_type, r.country),
        },
{
    match &r.disambiguation {
        Some(d) => Some(d.clone()),
        None => type_origin_text(&r.artist_type, &r.country),
    }
}

// ── Hidden results ──────────────────────────────────────────

/// Whether a (provider, external id) pair is in a list of pairs.
pub open spec fn pair_listed(pairs: Seq<(String, String)>, provider: Seq<char>, id: Seq<char>) -> bool {
    exists|k: int| 0 <= k < pairs.len() && pairs[k].0@ == provider && pairs[k].1@ == id
}

/// Whether a (provider, external id) pair is in a list of pairs.
pub fn pair_in(pairs: &Vec<(String, String)>, provider: &str, id: &str) -> (r: bool)
    ensures
        r == pair_listed(pairs@, provider@, id@),
{
    let mut k: usize = 0;
    while k < pairs.len()
        invariant
            k <= pairs.len(),
            forall|m: int| 0 <= m < k ==> !(pairs@[m].0@ == provider@ && pairs@[m].1@ == id@),
        decreases pairs.len() - k,
    {
        if text_eq(pairs[k].0.as_str(), provider) && text_eq(pairs[k].1.as_str(), id) {
            return true;
        }
        k = k + 1;
    }
    false
}

/// Whether the link dialog shows a result: it is linked neither already nor
/// during this session.
pub open spec fn link_result_shown(r: SearchArtistResult, linked: Seq<(String, String)>, session: Seq<(String, String)>) -> bool {
    !pair_listed(linked, r.provider@, r.external_id@) && !pair_listed(session, r.provider@, r.external_id@)
}

/// The results of the link dialog, without those already linked.
pub fn linkable_results(
    results: Vec<SearchArtistResult>,
    linked: &Vec<(String, String)>,
    session: &Vec<(String, String)>,
) -> (r: Vec<SearchArtistResult>)
    ensures
        r@ == select(
            results@,
            Seq::new(results@.len(), |i: int| link_result_shown(results@[i], linked@, session@)),
        ),
{
    let mut flags: Vec<bool> = Vec::new();
    let mut i: usize = 0;
    while i < results.len()
        invariant
            i <= results.len(),
            flags@.len() == i,
            forall|m: int| 0 <= m < i ==> #[trigger] flags@[m] == link_result_shown(results@[m], linked@, session@),
        decreases results.len() - i,
    {
        let shown = !pair_in(linked, results[i].provider.as_str(), results[i].external_id.as_str())
            && !pair_in(session, results[i].provider.as_str(), results[i].external_id.as_str());
        flags.push(shown);
        i = i + 1;
    }
    assert(flags@ =~= Seq::new(results@.len(), |i: int| link_result_shown(results@[i], linked@, session@)));
    retain_flags(results, &flags)
}

/// A result that was linked during the session is no longer shown.
pub proof fn lemma_linked_hidden(r: SearchArtistResult, linked: Seq<(String, String)>, session: Seq<(String, String)>, p: String, e: String)
    requires
        p@ == r.provider@,
        e@ == r.external_id@,
    ensures
        !link_result_shown(r, linked, session.push((p, e))),
{
    assert(session.push((p, e))[session.len() as int] == (p, e));
}

/// Whether an artist search result is new to the collection: no followed
/// artist has its name, ignoring case.
pub open spec fn new_to_collection(r: SearchArtistResult, followed: Seq<Seq<char>>) -> bool {
    !followed.contains(lowercase_text(r.name@))
}

/// The search results of the artist page: those new to the collection,
/// given the lower-case names of the followed artists.
pub fn new_artist_results(results: Vec<SearchArtistResult>, followed: &Vec<String>) -> (r: Vec<SearchArtistResult>)
    ensures
        r@ == select(
            results@,
            Seq::new(
                results@.len(),
                |i: int| new_to_collection(results@[i], crate::text::string_views(followed@)),
            ),
        ),
{
    let ghost fv = crate::text::string_views(followed@);
    let mut flags: Vec<bool> = Vec::new();
    let mut i: usize = 0;
    while i < results.len()
        invariant
            fv == crate::text::string_views(followed@),
            i <= results.len(),
            flags@.len() == i,
            forall|m: int| 0 <= m < i ==> #[trigger] flags@[m] == new_to_collection(results@[m], fv),
        decreases results.len() - i,
    {
        let name = lowercase(results[i].name.as_str());
        let mut found = false;
        let mut k: usize = 0;
        while k < followed.len()
            invariant
                fv == crate::text::string_views(followed@),
                k <= followed.len(),
                found == exists|m: int| 0 <= m < k && fv[m] == name@,
            decreases followed.len() - k,
        {
            assert(fv[k as int] == followed@[k as int]@);
            if text_eq(followed[k].as_str(), name.as_str()) {
                found = true;
            }
            k = k + 1;
        }
        flags.push(!found);
        i = i + 1;
    }
    assert(flags@ =~= Seq::new(results@.len(), |i: int| new_to_collection(results@[i], fv)));
    retain_flags(results, &flags)
}

/// The lower-case names of the followed artists.
pub fn followed_names(names: &Vec<String>) -> (r: Vec<String>)
    ensures
        crate::text::string_views(r@) == crate::text::string_views(names@).map_values(
            |n: Seq<char>| lowercase_text(n),
        ),
{
    let mut r: Vec<String> = Vec::new();
    let mut i: usize = 0;
    while i < names.len()
        invariant
            i <= names.len(),
            r@.len() == i,
            forall|m: int| 0 <= m < i ==> #[trigger] r@[m]@ == lowercase_text(names@[m]@),
        decreases names.len() - i,
    {
        r.push(lowercase(names[i].as_str()));
        i = i + 1;
    }
    assert(crate::text::string_views(r@) =~= crate::text::string_views(names@).map_values(
        |n: Seq<char>| lowercase_text(n),
    ));
    r
}

/// The note shown when a search found no new artist.
pub fn no_new_artists_message(query: &str) -> (r: String)
    ensures
        r@ == "No new artists found for \u{201c}"@ + query@ + "\u{201d}"@,
{
    concat3("No new artists found for \u{201c}", query, "\u{201d}")
}

} // verus!
