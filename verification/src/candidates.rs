//! The merge candidates of an artist: pending album match suggestions that
//! point at another album of the same artist, one candidate per pair of
//! albums, most confident first.
use vstd::prelude::*;
use crate::catalog::{Album, same_album};
use crate::merge::{ProviderLink, is_pending, pending};
use crate::seqs::{distinct_keys, lemma_distinct_keys_push, lemma_distinct_keys_contains};
use crate::text::{chars_of, compare_chars, text_eq, text_lt, clone_opt, string_views, opt_view};
use crate::order::{KeyPart, KeyVal, key_val, keys_val, sort_order, apply_order, is_sort_order};
use crate::tracks::{TrackInfo, arranged};
use crate::merge::{build_merged_track_preview, build_merged_links_preview, kept_tracks, kept_links, merged_track_sort_key, link_sort_key, track_from_sides, link_from_sides, lemma_merged_tracks_sides, lemma_merged_links_sides};

verus! {

/// A suggestion that an album matches a provider entry.
pub struct AlbumMatchSuggestion {
    pub id: String,
    pub status: String,
    pub right_provider: String,
    pub right_external_id: String,
    pub match_kind: String,
    pub confidence: u8,
    pub explanation: Option<String>,
}

// ── Who holds a provider entry ──────────────────────────────

/// Whether a list of links holds a provider entry.
pub open spec fn has_link(ls: Seq<ProviderLink>, p: Seq<char>, e: Seq<char>) -> bool {
    exists|k: int| 0 <= k < ls.len() && ls[k].provider@ == p && ls[k].external_id@ == e
}

/// The album that holds a provider entry, by position; where several do,
/// the last one.
pub open spec fn link_owner(links: Seq<Vec<ProviderLink>>, p: Seq<char>, e: Seq<char>) -> Option<int>
    decreases links.len(),
{
    if links.len() == 0 {
        None
    } else if has_link(links.last()@, p, e) {
        Some(links.len() - 1)
    } else {
        link_owner(links.drop_last(), p, e)
    }
}

fn holds_link(ls: &Vec<ProviderLink>, p: &str, e: &str) -> (r: bool)
    ensures
        r == has_link(ls@, p@, e@),
{
    let mut k: usize = 0;
    while k < ls.len()
        invariant
            k <= ls.len(),
            forall|m: int| 0 <= m < k ==> !(ls@[m].provider@ == p@ && ls@[m].external_id@ == e@),
        decreases ls.len() - k,
    {
        if text_eq(ls[k].provider.as_str(), p) && text_eq(ls[k].external_id.as_str(), e) {
            return true;
        }
        k = k + 1;
    }
    false
}

fn find_owner(links: &Vec<Vec<ProviderLink>>, p: &str, e: &str) -> (r: Option<usize>)
    ensures
        match r {
            Some(j) => link_owner(links@, p@, e@) == Some(j as int),
            None => link_owner(links@, p@, e@) is None,
        },
{
    let mut i: usize = links.len();
    assert(links@.take(i as int) =~= links@);
    while i > 0
        invariant
            i <= links.len(),
            link_owner(links@, p@, e@) == link_owner(links@.take(i as int), p@, e@),
        decreases i,
    {
        assert(links@.take(i as int).drop_last() =~= links@.take(i - 1));
        assert(links@.take(i as int).last() == links@[i - 1]);
        if holds_link(&links[i - 1], p, e) {
            return Some(i - 1);
        }
        i = i - 1;
    }
    None
}

/// The album with an id, by position; where several share it, the last one.
pub open spec fn album_at(albums: Seq<Album>, id: Seq<char>) -> Option<int>
    decreases albums.len(),
{
    if albums.len() == 0 {
        None
    } else if albums.last().id@ == id {
        Some(albums.len() - 1)
    } else {
        album_at(albums.drop_last(), id)
    }
}

fn find_album(albums: &Vec<Album>, id: &str) -> (r: Option<usize>)
    ensures
        match r {
            Some(j) => album_at(albums@, id@) == Some(j as int),
            None => album_at(albums@, id@) is None,
        },
{
    let mut i: usize = albums.len();
    assert(albums@.take(i as int) =~= albums@);
    while i > 0
        invariant
            i <= albums.len(),
            album_at(albums@, id@) == album_at(albums@.take(i as int), id@),
        decreases i,
    {
        assert(albums@.take(i as int).drop_last() =~= albums@.take(i - 1));
        assert(albums@.take(i as int).last() == albums@[i - 1]);
        if text_eq(albums[i - 1].id.as_str(), id) {
            return Some(i - 1);
        }
        i = i - 1;
    }
    None
}

proof fn lemma_album_at_bound(albums: Seq<Album>, id: Seq<char>)
    ensures
        album_at(albums, id) matches Some(j) ==> 0 <= j < albums.len() && albums[j].id@ == id,
    decreases albums.len(),
{
    if albums.len() > 0 && albums.last().id@ != id {
        lemma_album_at_bound(albums.drop_last(), id);
    }
}

proof fn lemma_link_owner_bound(links: Seq<Vec<ProviderLink>>, p: Seq<char>, e: Seq<char>)
    ensures
        link_owner(links, p, e) matches Some(j) ==> 0 <= j < links.len(),
    decreases links.len(),
{
    if links.len() > 0 && !has_link(links.last()@, p, e) {
        lemma_link_owner_bound(links.drop_last(), p, e);
    }
}

// ── The votes ───────────────────────────────────────────────

/// The pair of album ids that a suggestion of album `i` proposes, the
/// smaller id first: only a pending suggestion whose provider entry is held
/// by another album proposes one.
pub open spec fn proposed_pair(
    albums: Seq<Album>,
    links: Seq<Vec<ProviderLink>>,
    i: int,
    s: AlbumMatchSuggestion,
) -> Option<(Seq<char>, Seq<char>)> {
    if !is_pending(s.status@) {
        None
    } else {
        match link_owner(links, s.right_provider@, s.right_external_id@) {
            None => None,
            Some(j) => {
                let mine = albums[i].id@;
                let other = albums[j].id@;
                if other == mine {
                    None
                } else if text_lt(mine, other) {
                    Some((mine, other))
                } else {
                    Some((other, mine))
                }
            },
        }
    }
}

/// The proposals of the first `k` suggestions of album `i`, with the
/// suggestion that made each.
pub open spec fn album_votes(
    albums: Seq<Album>,
    links: Seq<Vec<ProviderLink>>,
    i: int,
    ss: Seq<AlbumMatchSuggestion>,
) -> Seq<((Seq<char>, Seq<char>), AlbumMatchSuggestion)>
    decreases ss.len(),
{
    if ss.len() == 0 {
        Seq::empty()
    } else {
        let rest = album_votes(albums, links, i, ss.drop_last());
        match proposed_pair(albums, links, i, ss.last()) {
            Some(k) => rest.push((k, ss.last())),
            None => rest,
        }
    }
}

/// The proposals of the suggestions of the first `n` albums, in order.
pub open spec fn votes(
    albums: Seq<Album>,
    links: Seq<Vec<ProviderLink>>,
    sugg: Seq<Vec<AlbumMatchSuggestion>>,
    n: int,
) -> Seq<((Seq<char>, Seq<char>), AlbumMatchSuggestion)>
    decreases n,
{
    if n <= 0 {
        Seq::empty()
    } else {
        votes(albums, links, sugg, n - 1) + album_votes(albums, links, n - 1, sugg[n - 1]@)
    }
}

/// A proposal as the computation holds it: the pair and where the
/// suggestion is.
pub struct Vote {
    pub lo: String,
    pub hi: String,
    pub album: usize,
    pub index: usize,
}

/// Whether computed votes stand for the proposals `v`.
pub open spec fn votes_match(
    out: Seq<Vote>,
    v: Seq<((Seq<char>, Seq<char>), AlbumMatchSuggestion)>,
    sugg: Seq<Vec<AlbumMatchSuggestion>>,
) -> bool {
    &&& out.len() == v.len()
    &&& forall|k: int|
        0 <= k < out.len() ==> {
            &&& (#[trigger] out[k]).lo@ == v[k].0.0
            &&& out[k].hi@ == v[k].0.1
            &&& out[k].album < sugg.len()
            &&& out[k].index < sugg[out[k].album as int]@.len()
            &&& sugg[out[k].album as int]@[out[k].index as int] == v[k].1
        }
}

fn collect_votes(
    albums: &Vec<Album>,
    links: &Vec<Vec<ProviderLink>>,
    sugg: &Vec<Vec<AlbumMatchSuggestion>>,
) -> (out: Vec<Vote>)
    requires
        links@.len() == albums@.len(),
        sugg@.len() == albums@.len(),
    ensures
        votes_match(out@, votes(albums@, links@, sugg@, albums@.len() as int), sugg@),
{
    let mut out: Vec<Vote> = Vec::new();
    let mut i: usize = 0;
    while i < albums.len()
        invariant
            links@.len() == albums@.len(),
            sugg@.len() == albums@.len(),
            i <= albums.len(),
            votes_match(out@, votes(albums@, links@, sugg@, i as int), sugg@),
        decreases albums.len() - i,
    {
        let ghost base = votes(albums@, links@, sugg@, i as int);
        let ss = &sugg[i];
        let mut k: usize = 0;
        while k < ss.len()
            invariant
                links@.len() == albums@.len(),
                sugg@.len() == albums@.len(),
                i < albums.len(),
                ss@ == sugg@[i as int]@,
                k <= ss@.len(),
                base == votes(albums@, links@, sugg@, i as int),
                votes_match(out@, base + album_votes(albums@, links@, i as int, ss@.take(k as int)), sugg@),
            decreases ss@.len() - k,
        {
            let ghost before = out@;
            let ghost prev = album_votes(albums@, links@, i as int, ss@.take(k as int));
            proof {
                assert(ss@.take(k + 1).drop_last() =~= ss@.take(k as int));
                assert(ss@.take(k + 1).last() == ss@[k as int]);
            }
            let s = &ss[k];
            if pending(s.status.as_str()) {
                match find_owner(links, s.right_provider.as_str(), s.right_external_id.as_str()) {
                    Some(j) => {
                        proof {
                            lemma_link_owner_bound(links@, s.right_provider@, s.right_external_id@);
                        }
                        let mine = &albums[i].id;
                        let other = &albums[j].id;
                        let cm = chars_of(mine.as_str());
                        let co = chars_of(other.as_str());
                        let c = compare_chars(&cm, &co);
                        if c != 0 {
                            let (lo, hi) = if c < 0 {
                                (mine.clone(), other.clone())
                            } else {
                                (other.clone(), mine.clone())
                            };
                            out.push(Vote { lo, hi, album: i, index: k });
                            proof {
                                let v2 = base + album_votes(albums@, links@, i as int, ss@.take(k + 1));
                                assert(v2 =~= (base + prev).push(
                                    (
                                        proposed_pair(albums@, links@, i as int, ss@[k as int]).unwrap(),
                                        ss@[k as int],
                                    ),
                                ));
                                assert forall|m: int| 0 <= m < out@.len() implies {
                                    &&& (#[trigger] out@[m]).lo@ == v2[m].0.0
                                    &&& out@[m].hi@ == v2[m].0.1
                                    &&& out@[m].album < sugg@.len()
                                    &&& out@[m].index < sugg@[out@[m].album as int]@.len()
                                    &&& sugg@[out@[m].album as int]@[out@[m].index as int] == v2[m].1
                                } by {
                                    if m < before.len() {
                                        assert(out@[m] == before[m]);
                                    }
                                }
                            }
                        } else {
                            proof {
                                assert(base + album_votes(albums@, links@, i as int, ss@.take(k + 1)) == base + prev);
                            }
                        }
                    },
                    None => {
                        proof {
                            assert(base + album_votes(albums@, links@, i as int, ss@.take(k + 1)) == base + prev);
                        }
                    },
                }
            } else {
                proof {
                    assert(base + album_votes(albums@, links@, i as int, ss@.take(k + 1)) == base + prev);
                }
            }
            k = k + 1;
        }
        proof {
            assert(ss@.take(ss@.len() as int) =~= ss@);
            assert(votes(albums@, links@, sugg@, i + 1) == base + album_votes(albums@, links@, i as int, sugg@[i as int]@));
        }
        i = i + 1;
    }
    out
}

// ── One candidate per pair ──────────────────────────────────

/// The pair proposed by each vote.
pub open spec fn vote_keys(v: Seq<((Seq<char>, Seq<char>), AlbumMatchSuggestion)>) -> Seq<(Seq<char>, Seq<char>)> {
    v.map_values(|x: ((Seq<char>, Seq<char>), AlbumMatchSuggestion)| x.0)
}

/// The ids of the suggestions that proposed a pair, in order.
pub open spec fn ids_for(v: Seq<((Seq<char>, Seq<char>), AlbumMatchSuggestion)>, key: (Seq<char>, Seq<char>)) -> Seq<
    Seq<char>,
>
    decreases v.len(),
{
    if v.len() == 0 {
        Seq::empty()
    } else {
        let rest = ids_for(v.drop_last(), key);
        if v.last().0 == key {
            rest.push(v.last().1.id@)
        } else {
            rest
        }
    }
}

/// The first suggestion that proposed a pair.
pub open spec fn first_vote(v: Seq<((Seq<char>, Seq<char>), AlbumMatchSuggestion)>, key: (Seq<char>, Seq<char>)) -> Option<
    AlbumMatchSuggestion,
>
    decreases v.len(),
{
    if v.len() == 0 {
        None
    } else {
        match first_vote(v.drop_last(), key) {
            Some(s) => Some(s),
            None => if v.last().0 == key {
                Some(v.last().1)
            } else {
                None
            },
        }
    }
}

/// A candidate pair: the positions of the two albums, the first suggestion
/// that proposed them, and the ids of all suggestions that did.
pub type PairView = (int, int, AlbumMatchSuggestion, Seq<Seq<char>>);

/// Whether both albums of a pair are known.
pub open spec fn pair_resolved(albums: Seq<Album>, key: (Seq<char>, Seq<char>)) -> bool {
    album_at(albums, key.0) is Some && album_at(albums, key.1) is Some
}

/// The candidates for the given pairs, skipping pairs with an unknown album.
pub open spec fn pairs_of(
    albums: Seq<Album>,
    v: Seq<((Seq<char>, Seq<char>), AlbumMatchSuggestion)>,
    ks: Seq<(Seq<char>, Seq<char>)>,
) -> Seq<PairView>
    decreases ks.len(),
{
    if ks.len() == 0 {
        Seq::empty()
    } else {
        let rest = pairs_of(albums, v, ks.drop_last());
        let k = ks.last();
        if pair_resolved(albums, k) {
            rest.push(
                (
                    album_at(albums, k.0).unwrap(),
                    album_at(albums, k.1).unwrap(),
                    first_vote(v, k).unwrap(),
                    ids_for(v, k),
                ),
            )
        } else {
            rest
        }
    }
}

/// The candidate pairs of an artist's albums, in the order their pairs
/// were first proposed.
pub open spec fn candidate_pairs(
    albums: Seq<Album>,
    links: Seq<Vec<ProviderLink>>,
    sugg: Seq<Vec<AlbumMatchSuggestion>>,
) -> Seq<PairView> {
    let v = votes(albums, links, sugg, albums.len() as int);
    pairs_of(albums, v, distinct_keys(vote_keys(v)))
}

/// A candidate pair as the computation holds it.
pub struct MergePair {
    /// Position of the album merged into.
    pub a: usize,
    /// Position of the album merged from.
    pub b: usize,
    pub match_kind: String,
    pub confidence: u8,
    pub explanation: Option<String>,
    /// All suggestions behind the pair, for dismissing them together.
    pub suggestion_ids: Vec<String>,
}

/// Whether a computed pair stands for a candidate.
pub open spec fn pair_is(u: MergePair, p: PairView) -> bool {
    &&& u.a == p.0
    &&& u.b == p.1
    &&& u.match_kind@ == p.2.match_kind@
    &&& u.confidence == p.2.confidence
    &&& opt_view(u.explanation) == opt_view(p.2.explanation)
    &&& string_views(u.suggestion_ids@) == p.3
}

/// Whether computed pairs stand for candidates, one for one.
pub open spec fn pairs_are(u: Seq<MergePair>, p: Seq<PairView>) -> bool {
    u.len() == p.len() && forall|k: int| 0 <= k < u.len() ==> pair_is(#[trigger] u[k], p[k])
}

proof fn lemma_first_vote_none(v: Seq<((Seq<char>, Seq<char>), AlbumMatchSuggestion)>, key: (Seq<char>, Seq<char>))
    requires
        !vote_keys(v).contains(key),
    ensures
        first_vote(v, key) is None,
    decreases v.len(),
{
    if v.len() > 0 {
        assert(vote_keys(v.drop_last()) =~= vote_keys(v).drop_last());
        if vote_keys(v.drop_last()).contains(key) {
            let m = choose|m: int| 0 <= m < vote_keys(v.drop_last()).len() && vote_keys(v.drop_last())[m] == key;
            assert(vote_keys(v)[m] == key);
        }
        lemma_first_vote_none(v.drop_last(), key);
        assert(vote_keys(v)[v.len() - 1] == v.last().0);
    }
}

proof fn lemma_first_vote_at(v: Seq<((Seq<char>, Seq<char>), AlbumMatchSuggestion)>, k: int)
    requires
        0 <= k < v.len(),
        !vote_keys(v).take(k).contains(v[k].0),
    ensures
        first_vote(v, v[k].0) == Some(v[k].1),
    decreases v.len(),
{
    if k == v.len() - 1 {
        assert(vote_keys(v.drop_last()) =~= vote_keys(v).take(k));
        lemma_first_vote_none(v.drop_last(), v[k].0);
    } else {
        assert(vote_keys(v.drop_last()).take(k) =~= vote_keys(v).take(k));
        lemma_first_vote_at(v.drop_last(), k);
    }
}

fn suggestion_ids_for(
    out: &Vec<Vote>,
    sugg: &Vec<Vec<AlbumMatchSuggestion>>,
    lo: &String,
    hi: &String,
    Ghost(v): Ghost<Seq<((Seq<char>, Seq<char>), AlbumMatchSuggestion)>>,
) -> (ids: Vec<String>)
    requires
        votes_match(out@, v, sugg@),
    ensures
        string_views(ids@) == ids_for(v, (lo@, hi@)),
{
    let mut ids: Vec<String> = Vec::new();
    let mut m: usize = 0;
    while m < out.len()
        invariant
            votes_match(out@, v, sugg@),
            m <= out.len(),
            string_views(ids@) == ids_for(v.take(m as int), (lo@, hi@)),
        decreases out.len() - m,
    {
        proof {
            assert(v.take(m + 1).drop_last() =~= v.take(m as int));
            assert(v.take(m + 1).last() == v[m as int]);
            assert(out@[m as int].lo@ == v[m as int].0.0);
        }
        if text_eq(out[m].lo.as_str(), lo.as_str()) && text_eq(out[m].hi.as_str(), hi.as_str()) {
            let id = sugg[out[m].album][out[m].index].id.clone();
            ids.push(id);
            assert(string_views(ids@) =~= ids_for(v.take(m + 1), (lo@, hi@)));
        } else {
            assert(string_views(ids@) =~= ids_for(v.take(m + 1), (lo@, hi@)));
        }
        m = m + 1;
    }
    assert(v.take(v.len() as int) =~= v);
    ids
}

fn group_votes(
    albums: &Vec<Album>,
    sugg: &Vec<Vec<AlbumMatchSuggestion>>,
    out: &Vec<Vote>,
    Ghost(v): Ghost<Seq<((Seq<char>, Seq<char>), AlbumMatchSuggestion)>>,
) -> (r: Vec<MergePair>)
    requires
        votes_match(out@, v, sugg@),
    ensures
        pairs_are(r@, pairs_of(albums@, v, distinct_keys(vote_keys(v)))),
        forall|j: int| 0 <= j < r@.len() ==> (#[trigger] r@[j]).a < albums@.len() && r@[j].b < albums@.len(),
{
    let ghost keys = vote_keys(v);
    let mut r: Vec<MergePair> = Vec::new();
    let mut k: usize = 0;
    assert(keys.take(0) =~= Seq::<(Seq<char>, Seq<char>)>::empty());
    assert(distinct_keys(keys.take(0)) =~= Seq::<(Seq<char>, Seq<char>)>::empty());
    while k < out.len()
        invariant
            votes_match(out@, v, sugg@),
            keys == vote_keys(v),
            k <= out.len(),
            pairs_are(r@, pairs_of(albums@, v, distinct_keys(keys.take(k as int)))),
            forall|j: int| 0 <= j < r@.len() ==> (#[trigger] r@[j]).a < albums@.len() && r@[j].b < albums@.len(),
        decreases out.len() - k,
    {
        let ghost before = r@;
        let ghost dk = distinct_keys(keys.take(k as int));
        // is vote k the first of its pair?
        let mut first = true;
        let mut m: usize = 0;
        while m < k
            invariant
                votes_match(out@, v, sugg@),
                keys == vote_keys(v),
                k < out.len(),
                m <= k,
                first <==> !(exists|j: int| 0 <= j < m && keys[j] == keys[k as int]),
            decreases k - m,
        {
            proof {
                assert(keys[m as int] == v[m as int].0);
                assert(keys[k as int] == v[k as int].0);
                assert(out@[m as int].lo@ == v[m as int].0.0);
                assert(out@[k as int].lo@ == v[k as int].0.0);
            }
            if text_eq(out[m].lo.as_str(), out[k].lo.as_str()) && text_eq(
                out[m].hi.as_str(),
                out[k].hi.as_str(),
            ) {
                first = false;
            }
            m = m + 1;
        }
        proof {
            assert(keys.take(k + 1) =~= keys.take(k as int).push(keys[k as int]));
            lemma_distinct_keys_push(keys.take(k as int), keys[k as int]);
            if keys.take(k as int).contains(keys[k as int]) {
                let j = choose|j: int| 0 <= j < k && keys.take(k as int)[j] == keys[k as int];
                assert(keys[j] == keys[k as int]);
            }
            if !first {
                let j = choose|j: int| 0 <= j < k && keys[j] == keys[k as int];
                assert(keys.take(k as int)[j] == keys[k as int]);
            }
        }
        if first {
            let ghost key = keys[k as int];
            proof {
                assert(key == v[k as int].0);
                assert(out@[k as int].lo@ == key.0 && out@[k as int].hi@ == key.1);
                assert(distinct_keys(keys.take(k + 1)) == dk.push(key));
                assert(dk.push(key).drop_last() =~= dk);
            }
            let lo = &out[k].lo;
            let hi = &out[k].hi;
            let fa = find_album(albums, lo.as_str());
            let fb = find_album(albums, hi.as_str());
            match (fa, fb) {
                (Some(a), Some(b)) => {
                    let s = &sugg[out[k].album][out[k].index];
                    proof {
                        lemma_album_at_bound(albums@, lo@);
                        lemma_album_at_bound(albums@, hi@);
                        assert(vote_keys(v).take(k as int) =~= keys.take(k as int));
                        lemma_first_vote_at(v, k as int);
                        assert(*s == v[k as int].1);
                    }
                    let ids = suggestion_ids_for(out, sugg, lo, hi, Ghost(v));
                    let pair = MergePair {
                        a,
                        b,
                        match_kind: s.match_kind.clone(),
                        confidence: s.confidence,
                        explanation: clone_opt(&s.explanation),
                        suggestion_ids: ids,
                    };
                    r.push(pair);
                    proof {
                        let target = pairs_of(albums@, v, dk.push(key));
                        assert(target == pairs_of(albums@, v, dk).push(
                            (
                                album_at(albums@, key.0).unwrap(),
                                album_at(albums@, key.1).unwrap(),
                                first_vote(v, key).unwrap(),
                                ids_for(v, key),
                            ),
                        ));
                        assert forall|j: int| 0 <= j < r@.len() implies pair_is(#[trigger] r@[j], target[j]) by {
                            if j < before.len() {
                                assert(r@[j] == before[j]);
                            }
                        }
                        assert forall|j: int| 0 <= j < r@.len() implies (#[trigger] r@[j]).a < albums@.len()
                            && r@[j].b < albums@.len() by {
                            if j < before.len() {
                                assert(r@[j] == before[j]);
                            }
                        }
                    }
                },
                _ => {
                    proof {
                        assert(!pair_resolved(albums@, key));
                        assert(pairs_of(albums@, v, dk.push(key)) == pairs_of(albums@, v, dk));
                    }
                },
            }
        }
        k = k + 1;
    }
    assert(keys.take(out@.len() as int) =~= keys);
    r
}

// ── Order of the candidates ─────────────────────────────────

/// The sort key of a candidate: most confident first, then by the title of
/// the album merged into.
pub open spec fn pair_key(u: MergePair, albums: Seq<Album>) -> Seq<KeyVal> {
    seq![KeyVal::Num(-(u.confidence as int)), KeyVal::Text(albums[u.a as int].title@)]
}

/// The keys of candidates.
pub open spec fn pair_keys(u: Seq<MergePair>, albums: Seq<Album>) -> Seq<Seq<KeyVal>> {
    u.map_values(|x: MergePair| pair_key(x, albums))
}

/// The candidate pairs of an artist's albums, most confident first (then by
/// title, then in the order their pairs were first proposed);
/// `links[i]` and `sugg[i]` are the provider links and the match
/// suggestions of album `i`.
pub fn merge_pairs(
    albums: &Vec<Album>,
    links: &Vec<Vec<ProviderLink>>,
    sugg: &Vec<Vec<AlbumMatchSuggestion>>,
) -> (r: Vec<MergePair>)
    requires
        links@.len() == albums@.len(),
        sugg@.len() == albums@.len(),
    ensures
        forall|j: int| 0 <= j < r@.len() ==> (#[trigger] r@[j]).a < albums@.len() && r@[j].b < albums@.len(),
        exists|u: Seq<MergePair>|
            pairs_are(u, candidate_pairs(albums@, links@, sugg@)) && arranged(
                r@,
                u,
                pair_keys(u, albums@),
                false,
            ),
{
    let out = collect_votes(albums, links, sugg);
    let ghost v = votes(albums@, links@, sugg@, albums@.len() as int);
    let pairs = group_votes(albums, sugg, &out, Ghost(v));
    let mut keys: Vec<Vec<KeyPart>> = Vec::new();
    let mut i: usize = 0;
    while i < pairs.len()
        invariant
            i <= pairs.len(),
            forall|j: int| 0 <= j < pairs@.len() ==> (#[trigger] pairs@[j]).a < albums@.len() && pairs@[j].b < albums@.len(),
            keys@.len() == i,
            forall|m: int| 0 <= m < i ==> key_val(#[trigger] keys@[m]) == pair_key(pairs@[m], albums@),
        decreases pairs.len() - i,
    {
        let mut k: Vec<KeyPart> = Vec::new();
        k.push(KeyPart::NumDesc(pairs[i].confidence as u64));
        k.push(KeyPart::Text(chars_of(albums[pairs[i].a].title.as_str())));
        assert(key_val(k) =~= pair_key(pairs@[i as int], albums@));
        keys.push(k);
        i = i + 1;
    }
    assert(keys_val(keys@) =~= pair_keys(pairs@, albums@));
    let order = sort_order(&keys, false);
    let ghost u = pairs@;
    let r = apply_order(pairs, &order);
    assert(is_sort_order(order@, pair_keys(u, albums@), false));
    assert forall|j: int| 0 <= j < r@.len() implies (#[trigger] r@[j]).a < albums@.len() && r@[j].b < albums@.len() by {
        assert(r@[j] == u[order@[j] as int]);
    }
    assert(pairs_are(u, candidate_pairs(albums@, links@, sugg@)));
    assert(arranged(r@, u, pair_keys(u, albums@), false));
    r
}

// ── Assembling a candidate ──────────────────────────────────

/// A merge candidate as the merge page shows it.
pub struct MergeCandidate {
    pub album_a: Album,
    pub album_b: Album,
    pub links_a: Vec<ProviderLink>,
    pub links_b: Vec<ProviderLink>,
    pub tracks_a: Vec<TrackInfo>,
    pub tracks_b: Vec<TrackInfo>,
    pub merged_tracks: Vec<TrackInfo>,
    pub merged_links: Vec<ProviderLink>,
    pub match_kind: String,
    pub confidence: u8,
    pub explanation: Option<String>,
    pub suggestion_ids: Vec<String>,
}

/// Whether a candidate shows a pair: the two albums with their links and
/// tracks, the previews of their merge, and the pair's suggestion data.
pub open spec fn candidate_is(
    c: MergeCandidate,
    u: MergePair,
    albums: Seq<Album>,
    links: Seq<Vec<ProviderLink>>,
    tracks: Seq<Vec<TrackInfo>>,
) -> bool {
    let ta = tracks[u.a as int]@;
    let tb = tracks[u.b as int]@;
    let la = links[u.a as int]@;
    let lb = links[u.b as int]@;
    &&& same_album(c.album_a, albums[u.a as int])
    &&& same_album(c.album_b, albums[u.b as int])
    &&& c.links_a@ == la
    &&& c.links_b@ == lb
    &&& c.tracks_a@ == ta
    &&& c.tracks_b@ == tb
    &&& arranged(
        c.merged_tracks@,
        kept_tracks(ta, tb),
        kept_tracks(ta, tb).map_values(|t: TrackInfo| merged_track_sort_key(t)),
        false,
    )
    &&& arranged(
        c.merged_links@,
        kept_links(la, lb),
        kept_links(la, lb).map_values(|l: ProviderLink| link_sort_key(l)),
        false,
    )
    &&& c.match_kind@ == u.match_kind@
    &&& c.confidence == u.confidence
    &&& opt_view(c.explanation) == opt_view(u.explanation)
    &&& string_views(c.suggestion_ids@) == string_views(u.suggestion_ids@)
}

/// In every candidate, the merged preview keeps album a's track for each
/// merge key album a has (its last track with the key), and album b's first
/// track with the key otherwise; likewise for the provider links.
pub proof fn lemma_candidate_target_wins(
    c: MergeCandidate,
    u: MergePair,
    albums: Seq<Album>,
    links: Seq<Vec<ProviderLink>>,
    tracks: Seq<Vec<TrackInfo>>,
)
    requires
        candidate_is(c, u, albums, links, tracks),
    ensures
        forall|m: int|
            0 <= m < c.merged_tracks@.len() ==> track_from_sides(
                c.tracks_a@,
                c.tracks_b@,
                #[trigger] c.merged_tracks@[m],
            ),
        forall|m: int|
            0 <= m < c.merged_links@.len() ==> link_from_sides(c.links_a@, c.links_b@, #[trigger] c.merged_links@[m]),
{
    lemma_merged_tracks_sides(tracks[u.a as int]@, tracks[u.b as int]@, c.merged_tracks@);
    lemma_merged_links_sides(links[u.a as int]@, links[u.b as int]@, c.merged_links@);
}

fn copy_links(v: &Vec<ProviderLink>) -> (r: Vec<ProviderLink>)
    ensures
        r@ == v@,
{
    let mut r: Vec<ProviderLink> = Vec::new();
    let mut i: usize = 0;
    while i < v.len()
        invariant
            i <= v.len(),
            r@ == v@.take(i as int),
        decreases v.len() - i,
    {
        r.push(v[i].duplicate());
        assert(r@ =~= v@.take(i + 1));
        i = i + 1;
    }
    assert(v@.take(v@.len() as int) =~= v@);
    r
}

fn copy_tracks(v: &Vec<TrackInfo>) -> (r: Vec<TrackInfo>)
    ensures
        r@ == v@,
{
    let mut r: Vec<TrackInfo> = Vec::new();
    let mut i: usize = 0;
    while i < v.len()
        invariant
            i <= v.len(),
            r@ == v@.take(i as int),
        decreases v.len() - i,
    {
        r.push(v[i].duplicate());
        assert(r@ =~= v@.take(i + 1));
        i = i + 1;
    }
    assert(v@.take(v@.len() as int) =~= v@);
    r
}

fn copy_strings(v: &Vec<String>) -> (r: Vec<String>)
    ensures
        string_views(r@) == string_views(v@),
{
    let mut r: Vec<String> = Vec::new();
    let mut i: usize = 0;
    while i < v.len()
        invariant
            i <= v.len(),
            r@.len() == i,
            forall|m: int| 0 <= m < i ==> #[trigger] r@[m]@ == v@[m]@,
        decreases v.len() - i,
    {
        r.push(v[i].clone());
        i = i + 1;
    }
    assert(string_views(r@) =~= string_views(v@));
    r
}

/// The merge candidate of a pair.
pub fn build_candidate(
    u: &MergePair,
    albums: &Vec<Album>,
    links: &Vec<Vec<ProviderLink>>,
    tracks: &Vec<Vec<TrackInfo>>,
) -> (c: MergeCandidate)
    requires
        u.a < albums@.len(),
        u.b < albums@.len(),
        links@.len() == albums@.len(),
        tracks@.len() == albums@.len(),
    ensures
        candidate_is(c, *u, albums@, links@, tracks@),
        forall|m: int|
            0 <= m < c.merged_tracks@.len() ==> track_from_sides(
                tracks@[u.a as int]@,
                tracks@[u.b as int]@,
                #[trigger] c.merged_tracks@[m],
            ),
{
    let merged_tracks = build_merged_track_preview(&tracks[u.a], &tracks[u.b]);
    let merged_links = build_merged_links_preview(&links[u.a], &links[u.b]);
    MergeCandidate {
        album_a: albums[u.a].duplicate(),
        album_b: albums[u.b].duplicate(),
        links_a: copy_links(&links[u.a]),
        links_b: copy_links(&links[u.b]),
        tracks_a: copy_tracks(&tracks[u.a]),
        tracks_b: copy_tracks(&tracks[u.b]),
        merged_tracks,
        merged_links,
        match_kind: u.match_kind.clone(),
        confidence: u.confidence,
        explanation: clone_opt(&u.explanation),
        suggestion_ids: copy_strings(&u.suggestion_ids),
    }
}

/// The merge candidates of an artist's albums, most confident first; album
/// `i` has the provider links `links[i]`, the tracks `tracks[i]` and the
/// match suggestions `sugg[i]`.
pub fn merge_candidates(
    albums: &Vec<Album>,
    links: &Vec<Vec<ProviderLink>>,
    tracks: &Vec<Vec<TrackInfo>>,
    sugg: &Vec<Vec<AlbumMatchSuggestion>>,
) -> (r: Vec<MergeCandidate>)
    requires
        links@.len() == albums@.len(),
        tracks@.len() == albums@.len(),
        sugg@.len() == albums@.len(),
    ensures
        exists|u: Seq<MergePair>, w: Seq<MergePair>|
            pairs_are(u, candidate_pairs(albums@, links@, sugg@)) && arranged(w, u, pair_keys(u, albums@), false)
                && r@.len() == w.len() && forall|k: int|
                0 <= k < r@.len() ==> candidate_is(#[trigger] r@[k], w[k], albums@, links@, tracks@),
        forall|k: int, m: int|
            0 <= k < r@.len() && 0 <= m < r@[k].merged_tracks@.len() ==> track_from_sides(
                r@[k].tracks_a@,
                r@[k].tracks_b@,
                #[trigger] r@[k].merged_tracks@[m],
            ),
{
    let pairs = merge_pairs(albums, links, sugg);
    let mut r: Vec<MergeCandidate> = Vec::new();
    let mut i: usize = 0;
    while i < pairs.len()
        invariant
            links@.len() == albums@.len(),
            tracks@.len() == albums@.len(),
            forall|j: int| 0 <= j < pairs@.len() ==> (#[trigger] pairs@[j]).a < albums@.len() && pairs@[j].b < albums@.len(),
            i <= pairs.len(),
            r@.len() == i,
            forall|k: int| 0 <= k < i ==> candidate_is(#[trigger] r@[k], pairs@[k], albums@, links@, tracks@),
        decreases pairs.len() - i,
    {
        r.push(build_candidate(&pairs[i], albums, links, tracks));
        i = i + 1;
    }
    proof {
        assert forall|k: int, m: int|
            0 <= k < r@.len() && 0 <= m < r@[k].merged_tracks@.len() implies track_from_sides(
                r@[k].tracks_a@,
                r@[k].tracks_b@,
                #[trigger] r@[k].merged_tracks@[m],
            ) by {
            lemma_candidate_target_wins(r@[k], pairs@[k], albums@, links@, tracks@);
        }
    }
    r
}

} // verus!
