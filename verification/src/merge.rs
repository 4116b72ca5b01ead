//! Album merge suggestions: the preview of the merged track list and of the
//! merged provider links, and the labels of a suggestion.
use vstd::prelude::*;
use crate::order::{KeyPart, KeyVal, key_val, keys_val, sort_order, apply_order, is_sort_order};
use crate::seqs::select;
use crate::text::{
    chars_of, chars_eq, push_chars, push_char, push_str, decimal, decimal_string, trim, trim_text,
    to_ascii_lowercase, to_ascii_uppercase, ascii_lower_of, ascii_upper_of, clone_opt, string_of, text_eq,
};
use crate::tracks::{TrackInfo, arranged};

verus! {

/// A link between a local item and an entry of a metadata provider.
pub struct ProviderLink {
    pub provider: String,
    pub external_id: String,
    pub external_url: Option<String>,
}

impl ProviderLink {
    /// A copy of the link.
    pub fn duplicate(&self) -> (r: ProviderLink)
        ensures
            r == *self,
    {
        ProviderLink {
            provider: self.provider.clone(),
            external_id: self.external_id.clone(),
            external_url: clone_opt(&self.external_url),
        }
    }
}

impl TrackInfo {
    /// A copy of the track.
    pub fn duplicate(&self) -> (r: TrackInfo)
        ensures
            r == *self,
    {
        TrackInfo {
            title: self.title.clone(),
            version: clone_opt(&self.version),
            disc_number: self.disc_number,
            track_number: self.track_number,
            duration_secs: self.duration_secs,
            duration_display: self.duration_display.clone(),
            isrc: clone_opt(&self.isrc),
            monitored: self.monitored,
            acquired: self.acquired,
            explicit: self.explicit,
        }
    }
}

// ── Which entry represents a key ────────────────────────────

/// Whether entry `i` of the target entries (the first `nt`) followed by the
/// source entries represents its key in the merge: a target entry unless a
/// later target entry has the same key; a source entry only if no target
/// entry and no earlier source entry has its key.
pub open spec fn merge_chosen<K>(keys: Seq<K>, nt: int, i: int) -> bool {
    if i < nt {
        forall|j: int| i < j < nt ==> keys[j] != keys[i]
    } else {
        forall|j: int| 0 <= j < i ==> keys[j] != keys[i]
    }
}

/// The representative flag of every entry.
pub open spec fn merge_flags<K>(keys: Seq<K>, nt: int) -> Seq<bool> {
    Seq::new(keys.len(), |i: int| merge_chosen(keys, nt, i))
}

/// The representative flag of every key, the first `nt` keys being those of
/// the target.
pub fn choose_entries(keys: &Vec<Vec<char>>, nt: usize) -> (flags: Vec<bool>)
    requires
        nt <= keys@.len(),
    ensures
        flags@ == merge_flags(keys@.map_values(|k: Vec<char>| k@), nt as int),
{
    let ghost kv = keys@.map_values(|k: Vec<char>| k@);
    let mut flags: Vec<bool> = Vec::new();
    let mut i: usize = 0;
    while i < keys.len()
        invariant
            kv == keys@.map_values(|k: Vec<char>| k@),
            nt <= keys@.len(),
            i <= keys.len(),
            flags@.len() == i,
            forall|m: int| 0 <= m < i ==> flags@[m] == merge_chosen(kv, nt as int, m),
        decreases keys.len() - i,
    {
        let (lo, hi) = if i < nt { (i + 1, nt) } else { (0, i) };
        let mut j = lo;
        let mut chosen = true;
        while j < hi
            invariant
                kv == keys@.map_values(|k: Vec<char>| k@),
                lo <= j <= hi,
                hi <= keys@.len(),
                i < keys@.len(),
                chosen ==> forall|m: int| lo <= m < j ==> kv[m] != kv[i as int],
                !chosen ==> exists|m: int| lo <= m < hi && kv[m] == kv[i as int],
            decreases hi - j,
        {
            if chars_eq(&keys[j], &keys[i]) {
                assert(kv[j as int] == kv[i as int]);
                chosen = false;
            }
            j = j + 1;
        }
        proof {
            if i < nt {
                assert(lo == i + 1 && hi == nt);
            } else {
                assert(lo == 0 && hi == i);
            }
        }
        flags.push(chosen);
        i = i + 1;
    }
    assert(flags@ =~= merge_flags(kv, nt as int));
    flags
}

/// The entries kept by a merge of `items`, the first `nt` of them being
/// the target's, before sorting.
pub open spec fn kept_entries<T, K>(items: Seq<T>, key: spec_fn(T) -> K, nt: int) -> Seq<T> {
    select(items, merge_flags(items.map_values(key), nt))
}

/// Whether some entry of `s` has key `k`.
pub open spec fn has_key_in<T, K>(s: Seq<T>, key: spec_fn(T) -> K, k: K) -> bool {
    exists|m: int| 0 <= m < s.len() && key(s[m]) == k
}

proof fn lemma_chosen_distinct<K>(keys: Seq<K>, nt: int, i: int, j: int)
    requires
        0 <= nt <= keys.len(),
        0 <= i < j < keys.len(),
        merge_chosen(keys, nt, i),
        merge_chosen(keys, nt, j),
    ensures
        keys[i] != keys[j],
{
    if j < nt {
        assert(keys[j] != keys[i]);
    } else {
        assert(keys[i] != keys[j]);
    }
}

proof fn lemma_target_rep<K>(keys: Seq<K>, nt: int, j: int) -> (i: int)
    requires
        0 <= j < nt <= keys.len(),
    ensures
        0 <= i < keys.len(),
        merge_chosen(keys, nt, i),
        keys[i] == keys[j],
    decreases nt - j,
{
    if merge_chosen(keys, nt, j) {
        j
    } else {
        let j2 = choose|j2: int| j < j2 < nt && keys[j2] == keys[j];
        lemma_target_rep(keys, nt, j2)
    }
}

proof fn lemma_source_rep<K>(keys: Seq<K>, nt: int, j: int) -> (i: int)
    requires
        0 <= nt <= j < keys.len(),
        forall|t: int| 0 <= t < nt ==> keys[t] != keys[j],
    ensures
        0 <= i < keys.len(),
        merge_chosen(keys, nt, i),
        keys[i] == keys[j],
    decreases j,
{
    if merge_chosen(keys, nt, j) {
        j
    } else {
        let j2 = choose|j2: int| 0 <= j2 < j && keys[j2] == keys[j];
        assert(j2 >= nt);
        lemma_source_rep(keys, nt, j2)
    }
}

/// Every key of the entries has an entry that represents it.
proof fn lemma_rep<K>(keys: Seq<K>, nt: int, j: int) -> (i: int)
    requires
        0 <= nt <= keys.len(),
        0 <= j < keys.len(),
    ensures
        0 <= i < keys.len(),
        merge_chosen(keys, nt, i),
        keys[i] == keys[j],
{
    if j < nt {
        lemma_target_rep(keys, nt, j)
    } else if exists|t: int| 0 <= t < nt && keys[t] == keys[j] {
        let t = choose|t: int| 0 <= t < nt && keys[t] == keys[j];
        lemma_target_rep(keys, nt, t)
    } else {
        lemma_source_rep(keys, nt, j)
    }
}

/// A merge keeps one entry per key: no two kept entries share a key, each
/// kept entry is one of the entries, and every key of the entries is kept.
pub proof fn lemma_merge_one_per_key<T, K>(items: Seq<T>, key: spec_fn(T) -> K, nt: int)
    requires
        0 <= nt <= items.len(),
    ensures
        forall|a: int, b: int|
            0 <= a < b < kept_entries(items, key, nt).len() ==> key(#[trigger] kept_entries(items, key, nt)[a])
                != key(#[trigger] kept_entries(items, key, nt)[b]),
        forall|m: int|
            0 <= m < kept_entries(items, key, nt).len() ==> items.contains(
                #[trigger] kept_entries(items, key, nt)[m],
            ),
        forall|j: int| 0 <= j < items.len() ==> has_key_in(kept_entries(items, key, nt), key, key(#[trigger] items[j])),
{
    let keys = items.map_values(key);
    let flags = merge_flags(keys, nt);
    let kept = kept_entries(items, key, nt);
    let idx = crate::seqs::lemma_select_positions(items, flags);
    assert forall|a: int, b: int| 0 <= a < b < kept.len() implies key(#[trigger] kept[a]) != key(
        #[trigger] kept[b],
    ) by {
        lemma_chosen_distinct(keys, nt, idx[a], idx[b]);
        assert(keys[idx[a]] == key(items[idx[a]]));
        assert(keys[idx[b]] == key(items[idx[b]]));
    }
    assert forall|m: int| 0 <= m < kept.len() implies items.contains(#[trigger] kept[m]) by {
        assert(kept[m] == items[idx[m]]);
    }
    assert forall|j: int| 0 <= j < items.len() implies has_key_in(kept, key, key(#[trigger] items[j])) by {
        let i = lemma_rep(keys, nt, j);
        assert(flags[i]);
        let m = choose|m: int| 0 <= m < idx.len() && idx[m] == i;
        assert(kept[m] == items[i]);
        assert(keys[i] == key(items[i]));
        assert(keys[j] == key(items[j]));
    }
}

/// What a stable sort of the kept entries keeps of them: the same keys,
/// each once, in increasing order of the sort key.
pub proof fn lemma_arranged_keys<T, K>(
    r: Seq<T>,
    kept: Seq<T>,
    key: spec_fn(T) -> K,
    sk: spec_fn(T) -> Seq<KeyVal>,
)
    requires
        arranged(r, kept, kept.map_values(sk), false),
        forall|a: int, b: int| 0 <= a < b < kept.len() ==> key(#[trigger] kept[a]) != key(#[trigger] kept[b]),
    ensures
        r.len() == kept.len(),
        forall|a: int, b: int| 0 <= a < b < r.len() ==> key(#[trigger] r[a]) != key(#[trigger] r[b]),
        forall|m: int| 0 <= m < r.len() ==> kept.contains(#[trigger] r[m]),
        forall|i: int| 0 <= i < kept.len() ==> has_key_in(r, key, key(#[trigger] kept[i])),
        forall|a: int, b: int|
            0 <= a < b < r.len() ==> sk(#[trigger] r[a]) == sk(#[trigger] r[b]) || crate::order::key_lt(
                sk(r[a]),
                sk(r[b]),
            ),
{
    let ks = kept.map_values(sk);
    let order = choose|order: Seq<usize>|
        is_sort_order(order, ks, false) && r.len() == order.len() && forall|k: int|
            0 <= k < r.len() ==> #[trigger] r[k] == kept[order[k] as int];
    crate::order::lemma_sort_order_covers(order, ks, false);
    assert forall|a: int, b: int| 0 <= a < b < r.len() implies key(#[trigger] r[a]) != key(#[trigger] r[b]) by {
        assert(r[a] == kept[order[a] as int]);
        assert(r[b] == kept[order[b] as int]);
        assert(order[a] != order[b]);
        if order[a] < order[b] {
            assert(key(kept[order[a] as int]) != key(kept[order[b] as int]));
        } else {
            assert(key(kept[order[b] as int]) != key(kept[order[a] as int]));
        }
    }
    assert forall|m: int| 0 <= m < r.len() implies kept.contains(#[trigger] r[m]) by {
        assert(r[m] == kept[order[m] as int]);
    }
    assert forall|i: int| 0 <= i < kept.len() implies has_key_in(r, key, key(#[trigger] kept[i])) by {
        assert(crate::order::listed(order, i));
        let a = choose|a: int| 0 <= a < order.len() && order[a] == i;
        assert(r[a] == kept[i]);
    }
    assert forall|a: int, b: int| 0 <= a < b < r.len() implies sk(#[trigger] r[a]) == sk(#[trigger] r[b])
        || crate::order::key_lt(sk(r[a]), sk(r[b])) by {
        assert(r[a] == kept[order[a] as int]);
        assert(r[b] == kept[order[b] as int]);
        assert(crate::order::before(ks, false, order[a] as int, order[b] as int));
        assert(ks[order[a] as int] == sk(r[a]));
        assert(ks[order[b] as int] == sk(r[b]));
    }
}

// ── Provider links ──────────────────────────────────────────

/// The key of a link: its provider and its external id.
pub open spec fn link_key(l: ProviderLink) -> (Seq<char>, Seq<char>) {
    (l.provider@, l.external_id@)
}

/// The sort key of a link: provider, then external id.
pub open spec fn link_sort_key(l: ProviderLink) -> Seq<KeyVal> {
    seq![KeyVal::Text(l.provider@), KeyVal::Text(l.external_id@)]
}

/// Target links followed by source links.
pub open spec fn all_links(target: Seq<ProviderLink>, source: Seq<ProviderLink>) -> Seq<ProviderLink> {
    target + source
}

/// The links kept by the merge, before sorting.
pub open spec fn kept_links(target: Seq<ProviderLink>, source: Seq<ProviderLink>) -> Seq<ProviderLink> {
    select(
        all_links(target, source),
        merge_flags(all_links(target, source).map_values(|l: ProviderLink| link_key(l)), target.len() as int),
    )
}

/// The representative flag of every link, the first `nt` links being
/// those of the target; two links have the same key when both their
/// provider and their external id are the same.
fn choose_link_entries(links: &Vec<ProviderLink>, nt: usize) -> (flags: Vec<bool>)
    requires
        nt <= links@.len(),
    ensures
        flags@ == merge_flags(links@.map_values(|l: ProviderLink| link_key(l)), nt as int),
{
    let ghost kv = links@.map_values(|l: ProviderLink| link_key(l));
    let mut flags: Vec<bool> = Vec::new();
    let mut i: usize = 0;
    while i < links.len()
        invariant
            kv == links@.map_values(|l: ProviderLink| link_key(l)),
            nt <= links@.len(),
            i <= links.len(),
            flags@.len() == i,
            forall|m: int| 0 <= m < i ==> flags@[m] == merge_chosen(kv, nt as int, m),
        decreases links.len() - i,
    {
        let (lo, hi) = if i < nt { (i + 1, nt) } else { (0, i) };
        let mut j = lo;
        let mut chosen = true;
        while j < hi
            invariant
                kv == links@.map_values(|l: ProviderLink| link_key(l)),
                lo <= j <= hi,
                hi <= links@.len(),
                i < links@.len(),
                chosen ==> forall|m: int| lo <= m < j ==> kv[m] != kv[i as int],
                !chosen ==> exists|m: int| lo <= m < hi && kv[m] == kv[i as int],
            decreases hi - j,
        {
            let same = text_eq(links[j].provider.as_str(), links[i].provider.as_str())
                && text_eq(links[j].external_id.as_str(), links[i].external_id.as_str());
            if same {
                assert(kv[j as int] == kv[i as int]);
                chosen = false;
            } else {
                assert(kv[j as int] != kv[i as int]);
            }
            j = j + 1;
        }
        proof {
            if i < nt {
                assert(lo == i + 1 && hi == nt);
            } else {
                assert(lo == 0 && hi == i);
            }
        }
        flags.push(chosen);
        i = i + 1;
    }
    assert(flags@ =~= merge_flags(kv, nt as int));
    flags
}

/// `x` is an entry of `s` after which no entry of `s` has its key: the last
/// entry with that key.
pub open spec fn last_with_key<T, K>(s: Seq<T>, key: spec_fn(T) -> K, x: T) -> bool {
    exists|j: int| 0 <= j < s.len() && s[j] == x && forall|j2: int| j < j2 < s.len() ==> key(#[trigger] s[j2]) != key(x)
}

/// `x` is an entry of `s` before which no entry of `s` has its key: the
/// first entry with that key.
pub open spec fn first_with_key<T, K>(s: Seq<T>, key: spec_fn(T) -> K, x: T) -> bool {
    exists|j: int| 0 <= j < s.len() && s[j] == x && forall|j2: int| 0 <= j2 < j ==> key(#[trigger] s[j2]) != key(x)
}

/// Which side an entry of a merge comes from: where the target has an
/// entry with its key, it is the target's last entry with that key;
/// otherwise it is the source's first entry with that key.
pub proof fn lemma_merge_target_wins<T, K>(target: Seq<T>, source: Seq<T>, key: spec_fn(T) -> K)
    ensures
        forall|m: int|
            0 <= m < kept_entries(target + source, key, target.len() as int).len() ==> {
                let x = #[trigger] kept_entries(target + source, key, target.len() as int)[m];
                &&& has_key_in(target, key, key(x)) ==> last_with_key(target, key, x)
                &&& !has_key_in(target, key, key(x)) ==> first_with_key(source, key, x)
            },
{
    let all = target + source;
    let nt = target.len() as int;
    let keys = all.map_values(key);
    let flags = merge_flags(keys, nt);
    let kept = kept_entries(all, key, nt);
    let idx = crate::seqs::lemma_select_positions(all, flags);
    assert forall|m: int| 0 <= m < kept.len() implies {
        let x = #[trigger] kept[m];
        &&& has_key_in(target, key, key(x)) ==> last_with_key(target, key, x)
        &&& !has_key_in(target, key, key(x)) ==> first_with_key(source, key, x)
    } by {
        let i = idx[m];
        let x = kept[m];
        assert(x == all[i]);
        assert(flags[i]);
        if i < nt {
            assert(all[i] == target[i]);
            assert(has_key_in(target, key, key(x)));
            assert forall|j2: int| i < j2 < target.len() implies key(#[trigger] target[j2]) != key(x) by {
                assert(all[j2] == target[j2]);
                assert(keys[j2] == key(target[j2]));
                assert(keys[i] == key(x));
            }
        } else {
            assert(all[i] == source[i - nt]);
            assert(!has_key_in(target, key, key(x))) by {
                if has_key_in(target, key, key(x)) {
                    let t = choose|t: int| 0 <= t < target.len() && key(target[t]) == key(x);
                    assert(all[t] == target[t]);
                    assert(keys[t] == keys[i]);
                }
            }
            assert forall|j2: int| 0 <= j2 < i - nt implies key(#[trigger] source[j2]) != key(x) by {
                assert(all[j2 + nt] == source[j2]);
                assert(keys[j2 + nt] == key(source[j2]));
                assert(keys[i] == key(x));
            }
        }
    }
}

/// The merged tracks take the target's track for every merge key the
/// target has (its last track with that key), and the source's first track
/// with the key otherwise.
/// A merged track `x` is the target's last track with its merge key where
/// the target has one, and the source's first track with it otherwise.
pub open spec fn track_from_sides(target: Seq<TrackInfo>, source: Seq<TrackInfo>, x: TrackInfo) -> bool {
    &&& has_key_in(target, |t: TrackInfo| track_merge_key(t), track_merge_key(x)) ==> last_with_key(
        target,
        |t: TrackInfo| track_merge_key(t),
        x,
    )
    &&& !has_key_in(target, |t: TrackInfo| track_merge_key(t), track_merge_key(x)) ==> first_with_key(
        source,
        |t: TrackInfo| track_merge_key(t),
        x,
    )
}

pub proof fn lemma_merged_tracks_sides(target: Seq<TrackInfo>, source: Seq<TrackInfo>, r: Seq<TrackInfo>)
    requires
        arranged(r, kept_tracks(target, source), kept_tracks(target, source).map_values(|t: TrackInfo| merged_track_sort_key(t)), false),
    ensures
        forall|m: int| 0 <= m < r.len() ==> track_from_sides(target, source, #[trigger] r[m]),
{
    let key = |t: TrackInfo| track_merge_key(t);
    let sk = |t: TrackInfo| merged_track_sort_key(t);
    let kept = kept_tracks(target, source);
    let nt = target.len() as int;
    assert(kept == kept_entries(target + source, key, nt));
    lemma_merge_one_per_key(target + source, key, nt);
    lemma_arranged_keys(r, kept, key, sk);
    lemma_merge_target_wins(target, source, key);
    assert forall|m: int| 0 <= m < r.len() implies {
        let x = #[trigger] r[m];
        &&& has_key_in(target, key, key(x)) ==> last_with_key(target, key, x)
        &&& !has_key_in(target, key, key(x)) ==> first_with_key(source, key, x)
    } by {
        assert(kept.contains(r[m]));
        let i = choose|i: int| 0 <= i < kept.len() && kept[i] == r[m];
        assert(kept[i] == r[m]);
    }
}

/// Like [`lemma_merged_tracks_sides`], for links: the target's last link
/// with a provider entry the target has, otherwise the source's first.
/// A merged link `x` is the target's last link with its provider entry
/// where the target has one, and the source's first link with it otherwise.
pub open spec fn link_from_sides(target: Seq<ProviderLink>, source: Seq<ProviderLink>, x: ProviderLink) -> bool {
    &&& has_key_in(target, |l: ProviderLink| link_key(l), link_key(x)) ==> last_with_key(
        target,
        |l: ProviderLink| link_key(l),
        x,
    )
    &&& !has_key_in(target, |l: ProviderLink| link_key(l), link_key(x)) ==> first_with_key(
        source,
        |l: ProviderLink| link_key(l),
        x,
    )
}

pub proof fn lemma_merged_links_sides(target: Seq<ProviderLink>, source: Seq<ProviderLink>, r: Seq<ProviderLink>)
    requires
        arranged(r, kept_links(target, source), kept_links(target, source).map_values(|l: ProviderLink| link_sort_key(l)), false),
    ensures
        forall|m: int| 0 <= m < r.len() ==> link_from_sides(target, source, #[trigger] r[m]),
{
    let key = |l: ProviderLink| link_key(l);
    let sk = |l: ProviderLink| link_sort_key(l);
    let kept = kept_links(target, source);
    let nt = target.len() as int;
    assert(kept == kept_entries(all_links(target, source), key, nt));
    lemma_merge_one_per_key(all_links(target, source), key, nt);
    lemma_arranged_keys(r, kept, key, sk);
    lemma_merge_target_wins(target, source, key);
    assert forall|m: int| 0 <= m < r.len() implies {
        let x = #[trigger] r[m];
        &&& has_key_in(target, key, key(x)) ==> last_with_key(target, key, x)
        &&& !has_key_in(target, key, key(x)) ==> first_with_key(source, key, x)
    } by {
        assert(kept.contains(r[m]));
        let i = choose|i: int| 0 <= i < kept.len() && kept[i] == r[m];
        assert(kept[i] == r[m]);
    }
}

/// The provider entries of some links: their (provider, external id) pairs.
pub open spec fn link_entries(s: Seq<ProviderLink>) -> Set<(Seq<char>, Seq<char>)> {
    s.map_values(|l: ProviderLink| link_key(l)).to_set()
}

proof fn lemma_key_set<T, K>(s: Seq<T>, key: spec_fn(T) -> K, x: K)
    ensures
        s.map_values(key).to_set().contains(x) <==> has_key_in(s, key, x),
{
    if has_key_in(s, key, x) {
        let m = choose|m: int| 0 <= m < s.len() && key(s[m]) == x;
        assert(s.map_values(key)[m] == x);
    }
    if s.map_values(key).to_set().contains(x) {
        let m = choose|m: int| 0 <= m < s.map_values(key).len() && s.map_values(key)[m] == x;
        assert(key(s[m]) == x);
    }
}

/// The merged links hold each provider entry of either album once, in
/// increasing order of provider and external id.
proof fn lemma_merged_links(target: Seq<ProviderLink>, source: Seq<ProviderLink>, r: Seq<ProviderLink>)
    requires
        arranged(r, kept_links(target, source), kept_links(target, source).map_values(|l: ProviderLink| link_sort_key(l)), false),
    ensures
        link_entries(r) == link_entries(target).union(link_entries(source)),
        forall|a: int, b: int|
            0 <= a < b < r.len() ==> crate::order::key_lt(link_sort_key(#[trigger] r[a]), link_sort_key(#[trigger] r[b])),
{
    let key = |l: ProviderLink| link_key(l);
    let sk = |l: ProviderLink| link_sort_key(l);
    let all = all_links(target, source);
    let nt = target.len() as int;
    let kept = kept_links(target, source);
    assert(kept == kept_entries(all, key, nt));
    lemma_merge_one_per_key(all, key, nt);
    lemma_arranged_keys(r, kept, key, sk);
    assert forall|x: (Seq<char>, Seq<char>)| #[trigger] link_entries(r).contains(x) <==> link_entries(target).union(
        link_entries(source),
    ).contains(x) by {
        lemma_key_set(r, key, x);
        lemma_key_set(target, key, x);
        lemma_key_set(source, key, x);
        if has_key_in(r, key, x) {
            let m = choose|m: int| 0 <= m < r.len() && key(r[m]) == x;
            assert(kept.contains(r[m]));
            let i = choose|i: int| 0 <= i < kept.len() && kept[i] == r[m];
            assert(all.contains(kept[i]));
            let j = choose|j: int| 0 <= j < all.len() && all[j] == kept[i];
            if j < nt {
                assert(target[j] == all[j]);
            } else {
                assert(source[j - nt] == all[j]);
            }
        }
        if has_key_in(target, key, x) {
            let j = choose|j: int| 0 <= j < target.len() && key(target[j]) == x;
            assert(all[j] == target[j]);
            assert(has_key_in(kept, key, key(all[j])));
            let i = choose|i: int| 0 <= i < kept.len() && key(kept[i]) == key(all[j]);
            assert(has_key_in(r, key, key(kept[i])));
        }
        if has_key_in(source, key, x) {
            let j = choose|j: int| 0 <= j < source.len() && key(source[j]) == x;
            assert(all[j + nt] == source[j]);
            assert(has_key_in(kept, key, key(all[j + nt])));
            let i = choose|i: int| 0 <= i < kept.len() && key(kept[i]) == key(all[j + nt]);
            assert(has_key_in(r, key, key(kept[i])));
        }
    }
    assert(link_entries(r) =~= link_entries(target).union(link_entries(source)));
    assert forall|a: int, b: int| 0 <= a < b < r.len() implies crate::order::key_lt(
        link_sort_key(#[trigger] r[a]),
        link_sort_key(#[trigger] r[b]),
    ) by {
        assert(key(r[a]) != key(r[b]));
        if sk(r[a]) == sk(r[b]) {
            assert(sk(r[a])[0] == sk(r[b])[0]);
            assert(sk(r[a])[1] == sk(r[b])[1]);
        }
    }
}

/// The links of two albums merged: one link per provider entry (provider
/// and external id), the target's link where both have one, sorted by
/// provider and external id.
pub fn build_merged_links_preview(target: &Vec<ProviderLink>, source: &Vec<ProviderLink>) -> (r: Vec<
    ProviderLink,
>)
    ensures
        arranged(
            r@,
            kept_links(target@, source@),
            kept_links(target@, source@).map_values(|l: ProviderLink| link_sort_key(l)),
            false,
        ),
        link_entries(r@) == link_entries(target@).union(link_entries(source@)),
        forall|m: int| 0 <= m < r@.len() ==> link_from_sides(target@, source@, #[trigger] r@[m]),
        forall|a: int, b: int|
            0 <= a < b < r@.len() ==> crate::order::key_lt(link_sort_key(#[trigger] r@[a]), link_sort_key(#[trigger] r@[b])),
{
    let ghost all = all_links(target@, source@);
    let mut entries: Vec<ProviderLink> = Vec::new();
    let mut i: usize = 0;
    while i < target.len()
        invariant
            i <= target.len(),
            entries@ == target@.take(i as int),
        decreases target.len() - i,
    {
        entries.push(target[i].duplicate());
        assert(entries@ =~= target@.take(i + 1));
        i = i + 1;
    }
    let mut j: usize = 0;
    while j < source.len()
        invariant
            i == target.len(),
            j <= source.len(),
            entries@ == target@ + source@.take(j as int),
        decreases source.len() - j,
    {
        entries.push(source[j].duplicate());
        assert(entries@ =~= target@ + source@.take(j + 1));
        j = j + 1;
    }
    assert(entries@ =~= all) by {
        assert(source@.take(source@.len() as int) =~= source@);
    }
    let flags = choose_link_entries(&entries, target.len());
    let kept = crate::seqs::retain_flags(entries, &flags);
    let mut sort_keys: Vec<Vec<KeyPart>> = Vec::new();
    let mut k: usize = 0;
    while k < kept.len()
        invariant
            k <= kept.len(),
            sort_keys@.len() == k,
            forall|m: int| 0 <= m < k ==> key_val(#[trigger] sort_keys@[m]) == link_sort_key(kept@[m]),
        decreases kept.len() - k,
    {
        let mut sk: Vec<KeyPart> = Vec::new();
        sk.push(KeyPart::Text(chars_of(kept[k].provider.as_str())));
        sk.push(KeyPart::Text(chars_of(kept[k].external_id.as_str())));
        assert(key_val(sk) =~= link_sort_key(kept@[k as int]));
        sort_keys.push(sk);
        k = k + 1;
    }
    assert(keys_val(sort_keys@) =~= kept@.map_values(|l: ProviderLink| link_sort_key(l)));
    let order = sort_order(&sort_keys, false);
    let ghost kv = kept@;
    let r = apply_order(kept, &order);
    assert(is_sort_order(order@, kv.map_values(|l: ProviderLink| link_sort_key(l)), false));
    proof {
        lemma_merged_links(target@, source@, r@);
        lemma_merged_links_sides(target@, source@, r@);
    }
    r
}

// ── Track lists ─────────────────────────────────────────────

/// The key under which a track is merged: its ISRC in upper case where it
/// has a non-blank one, else disc, track number and lower-case title.
pub open spec fn track_merge_key(t: TrackInfo) -> Seq<char> {
    match t.isrc {
        Some(isrc) if trim_text(isrc@).len() > 0 => "isrc:"@ + trim_text(isrc@).map_values(
            |c: char| ascii_upper_of(c),
        ),
        _ => decimal(t.disc_number as nat) + seq![':'] + decimal(t.track_number as nat) + seq![':']
            + t.title@.map_values(|c: char| ascii_lower_of(c)),
    }
}

/// The sort key of a merged track: disc, track number, then title.
pub open spec fn merged_track_sort_key(t: TrackInfo) -> Seq<KeyVal> {
    seq![
        KeyVal::Num(t.disc_number as int),
        KeyVal::Num(t.track_number as int),
        KeyVal::Text(t.title@),
    ]
}

/// The tracks kept by the merge, before sorting.
pub open spec fn kept_tracks(target: Seq<TrackInfo>, source: Seq<TrackInfo>) -> Seq<TrackInfo> {
    select(
        target + source,
        merge_flags((target + source).map_values(|t: TrackInfo| track_merge_key(t)), target.len() as int),
    )
}

fn append_chars(k: &mut Vec<char>, e: &Vec<char>)
    ensures
        final(k)@ == old(k)@ + e@,
{
    let ghost start = k@;
    let mut i: usize = 0;
    while i < e.len()
        invariant
            i <= e.len(),
            k@ == start + e@.take(i as int),
        decreases e.len() - i,
    {
        k.push(e[i]);
        assert(start + e@.take(i + 1) =~= (start + e@.take(i as int)).push(e@[i as int]));
        i = i + 1;
    }
    assert(e@.take(e.len() as int) =~= e@);
}

/// The key under which a track is merged.
pub fn track_key_chars(t: &TrackInfo) -> (k: Vec<char>)
    ensures
        k@ == track_merge_key(*t),
{
    match &t.isrc {
        Some(isrc) => {
            let trimmed = chars_of(trim(isrc.as_str()));
            if trimmed.len() > 0 {
                let mut k = chars_of("isrc:");
                append_chars(&mut k, &to_ascii_uppercase(&trimmed));
                return k;
            }
        },
        None => {},
    }
    let mut k = chars_of(decimal_string(t.disc_number as u64).as_str());
    k.push(':');
    append_chars(&mut k, &chars_of(decimal_string(t.track_number as u64).as_str()));
    k.push(':');
    append_chars(&mut k, &to_ascii_lowercase(&chars_of(t.title.as_str())));
    k
}

/// The tracks of two albums merged: one track per merge key, the target's
/// track where both have one, sorted by disc, track number and title.
pub fn build_merged_track_preview(target: &Vec<TrackInfo>, source: &Vec<TrackInfo>) -> (r: Vec<
    TrackInfo,
>)
    ensures
        arranged(
            r@,
            kept_tracks(target@, source@),
            kept_tracks(target@, source@).map_values(|t: TrackInfo| merged_track_sort_key(t)),
            false,
        ),
        forall|m: int| 0 <= m < r@.len() ==> track_from_sides(target@, source@, #[trigger] r@[m]),
{
    let ghost all = target@ + source@;
    let mut entries: Vec<TrackInfo> = Vec::new();
    let mut keys: Vec<Vec<char>> = Vec::new();
    let mut i: usize = 0;
    while i < target.len()
        invariant
            i <= target.len(),
            entries@ == target@.take(i as int),
            keys@.len() == i,
            forall|m: int| 0 <= m < i ==> #[trigger] keys@[m]@ == track_merge_key(target@[m]),
        decreases target.len() - i,
    {
        entries.push(target[i].duplicate());
        keys.push(track_key_chars(&target[i]));
        assert(entries@ =~= target@.take(i + 1));
        i = i + 1;
    }
    let mut j: usize = 0;
    while j < source.len()
        invariant
            i == target.len(),
            j <= source.len(),
            entries@ == target@ + source@.take(j as int),
            keys@.len() == i + j,
            forall|m: int| 0 <= m < i ==> #[trigger] keys@[m]@ == track_merge_key(target@[m]),
            forall|m: int| i <= m < i + j ==> #[trigger] keys@[m]@ == track_merge_key(source@[m - i]),
        decreases source.len() - j,
    {
        entries.push(source[j].duplicate());
        keys.push(track_key_chars(&source[j]));
        assert(entries@ =~= target@ + source@.take(j + 1));
        j = j + 1;
    }
    assert(entries@ =~= all) by {
        assert(source@.take(source@.len() as int) =~= source@);
    }
    assert(keys@.map_values(|k: Vec<char>| k@) =~= all.map_values(|t: TrackInfo| track_merge_key(t)));
    let flags = choose_entries(&keys, target.len());
    let kept = crate::seqs::retain_flags(entries, &flags);
    let mut sort_keys: Vec<Vec<KeyPart>> = Vec::new();
    let mut k: usize = 0;
    while k < kept.len()
        invariant
            k <= kept.len(),
            sort_keys@.len() == k,
            forall|m: int| 0 <= m < k ==> key_val(#[trigger] sort_keys@[m]) == merged_track_sort_key(kept@[m]),
        decreases kept.len() - k,
    {
        let mut sk: Vec<KeyPart> = Vec::new();
        sk.push(KeyPart::Num(kept[k].disc_number as u64));
        sk.push(KeyPart::Num(kept[k].track_number as u64));
        sk.push(KeyPart::Text(chars_of(kept[k].title.as_str())));
        assert(key_val(sk) =~= merged_track_sort_key(kept@[k as int]));
        sort_keys.push(sk);
        k = k + 1;
    }
    assert(keys_val(sort_keys@) =~= kept@.map_values(|t: TrackInfo| merged_track_sort_key(t)));
    let order = sort_order(&sort_keys, false);
    let ghost kv = kept@;
    let r = apply_order(kept, &order);
    assert(is_sort_order(order@, kv.map_values(|t: TrackInfo| merged_track_sort_key(t)), false));
    proof {
        lemma_merged_tracks_sides(target@, source@, r@);
    }
    r
}

proof fn lemma_increasing_lower(order: Seq<usize>, k: int)
    requires
        0 <= k < order.len(),
        forall|a: int, b: int| 0 <= a < b < order.len() ==> order[a] < order[b],
    ensures
        order[k] >= k,
    decreases k,
{
    if k > 0 {
        lemma_increasing_lower(order, k - 1);
    }
}

proof fn lemma_increasing_upper(order: Seq<usize>, k: int)
    requires
        0 <= k < order.len(),
        forall|a: int| 0 <= a < order.len() ==> order[a] < order.len(),
        forall|a: int, b: int| 0 <= a < b < order.len() ==> order[a] < order[b],
    ensures
        order[k] <= k,
    decreases order.len() - k,
{
    if k + 1 < order.len() {
        lemma_increasing_upper(order, k + 1);
    }
}

/// Sorting a list whose sort keys already strictly increase gives it back.
proof fn lemma_arranged_sorted<T>(out: Seq<T>, r: Seq<T>, sk: spec_fn(T) -> Seq<KeyVal>)
    requires
        arranged(out, r, r.map_values(sk), false),
        forall|i: int, j: int| 0 <= i < j < r.len() ==> crate::order::key_lt(sk(#[trigger] r[i]), sk(#[trigger] r[j])),
    ensures
        out == r,
{
    let ks = r.map_values(sk);
    let order = choose|order: Seq<usize>|
        is_sort_order(order, ks, false) && out.len() == order.len() && forall|k: int|
            0 <= k < out.len() ==> #[trigger] out[k] == r[order[k] as int];
    assert forall|a: int, b: int| 0 <= a < b < order.len() implies order[a] < order[b] by {
        let x = order[a] as int;
        let y = order[b] as int;
        assert(crate::order::before(ks, false, x, y));
        if x == y {
        } else if y < x {
            assert(crate::order::key_lt(sk(r[y]), sk(r[x])));
            assert(ks[y] == sk(r[y]) && ks[x] == sk(r[x]));
            crate::order::lemma_before_total(ks, false, x, y);
            if ks[x] == ks[y] {
                crate::order::lemma_before_total(ks, false, y, x);
            }
        }
    }
    assert forall|k: int| 0 <= k < out.len() implies out[k] == r[k] by {
        lemma_increasing_lower(order, k);
        lemma_increasing_upper(order, k);
    }
    assert(out =~= r);
}

/// Merging a merged track list with itself, or with an empty list on
/// either side, gives it back, when no two of its tracks share disc,
/// track number and title.
pub proof fn lemma_merge_preview_again(
    a: Seq<TrackInfo>,
    b: Seq<TrackInfo>,
    r: Seq<TrackInfo>,
    t: Seq<TrackInfo>,
    u: Seq<TrackInfo>,
    out: Seq<TrackInfo>,
)
    requires
        arranged(r, kept_tracks(a, b), kept_tracks(a, b).map_values(|x: TrackInfo| merged_track_sort_key(x)), false),
        forall|i: int, j: int|
            0 <= i < j < r.len() ==> merged_track_sort_key(#[trigger] r[i]) != merged_track_sort_key(#[trigger] r[j]),
        (t == r && u == r) || (t == r && u == Seq::<TrackInfo>::empty()) || (t == Seq::<TrackInfo>::empty() && u == r),
        arranged(out, kept_tracks(t, u), kept_tracks(t, u).map_values(|x: TrackInfo| merged_track_sort_key(x)), false),
    ensures
        out == r,
{
    let key = |x: TrackInfo| track_merge_key(x);
    let sk = |x: TrackInfo| merged_track_sort_key(x);
    let kab = kept_tracks(a, b);
    assert(kab == kept_entries(a + b, key, a.len() as int));
    lemma_merge_one_per_key(a + b, key, a.len() as int);
    lemma_arranged_keys(r, kab, key, sk);
    let n = r.len() as int;
    // the merge keys of `r` differ, and its sort keys strictly increase
    assert forall|i: int, j: int| 0 <= i < j < r.len() implies crate::order::key_lt(
        sk(#[trigger] r[i]),
        sk(#[trigger] r[j]),
    ) by {
        assert(sk(r[i]) != sk(r[j]));
    }
    let all = t + u;
    let keys = all.map_values(key);
    let nt = t.len() as int;
    let flags = merge_flags(keys, nt);
    assert(kept_tracks(t, u) == select(all, flags));
    if t == r && u == r {
        assert forall|i: int| 0 <= i < n implies #[trigger] flags[i] by {
            assert forall|j: int| i < j < nt implies keys[j] != keys[i] by {
                assert(keys[j] == key(r[j]) && keys[i] == key(r[i]));
            }
        }
        assert forall|i: int| n <= i < 2 * n implies !#[trigger] flags[i] by {
            assert(keys[i - n] == keys[i]);
        }
        crate::seqs::lemma_select_split(all, flags, n);
        assert(all.take(n) =~= r);
        assert(all.skip(n) =~= r);
        crate::seqs::lemma_select_all(r, flags.take(n));
        crate::seqs::lemma_select_none(r, flags.skip(n));
        assert(select(all, flags) =~= r);
    } else {
        assert(all =~= r);
        assert forall|i: int| 0 <= i < n implies #[trigger] flags[i] by {
            if nt == n {
                assert forall|j: int| i < j < nt implies keys[j] != keys[i] by {
                    assert(keys[j] == key(r[j]) && keys[i] == key(r[i]));
                }
            } else {
                assert forall|j: int| 0 <= j < i implies keys[j] != keys[i] by {
                    assert(keys[j] == key(r[j]) && keys[i] == key(r[i]));
                }
            }
        }
        crate::seqs::lemma_select_all(r, flags);
    }
    lemma_arranged_sorted(out, r, sk);
}

// ── Labels of a suggestion ──────────────────────────────────

/// The class of a suggestion's confidence: green from 80, amber from 50,
/// red below.
pub fn confidence_class(confidence: u8) -> (r: &'static str)
    ensures
        r@ == (if confidence >= 80 {
            "text-emerald-700 dark:text-emerald-300 bg-emerald-500/10 border-emerald-500/20"@
        } else if confidence >= 50 {
            "text-amber-700 dark:text-amber-300 bg-amber-500/10 border-amber-500/20"@
        } else {
            "text-red-700 dark:text-red-300 bg-red-500/10 border-red-500/20"@
        }),
{
    if confidence >= 80 {
        "text-emerald-700 dark:text-emerald-300 bg-emerald-500/10 border-emerald-500/20"
    } else if confidence >= 50 {
        "text-amber-700 dark:text-amber-300 bg-amber-500/10 border-amber-500/20"
    } else {
        "text-red-700 dark:text-red-300 bg-red-500/10 border-red-500/20"
    }
}

/// The name of a kind of match; unknown kinds show as they are.
pub open spec fn match_kind_text(kind: Seq<char>) -> Seq<char> {
    if kind == "isrc_exact"@ {
        "ISRC match"@
    } else if kind == "title_fuzzy"@ {
        "Fuzzy title"@
    } else {
        kind
    }
}

/// The name of a kind of match.
pub fn match_kind_label(kind: &str) -> (r: String)
    ensures
        r@ == match_kind_text(kind@),
{
    if crate::text::text_eq(kind, "isrc_exact") {
        crate::text::owned("ISRC match")
    } else if crate::text::text_eq(kind, "title_fuzzy") {
        crate::text::owned("Fuzzy title")
    } else {
        crate::text::owned(kind)
    }
}

/// The short name of a kind of match on the artist and album pages.
pub fn match_kind_short(kind: &str) -> (r: &'static str)
    ensures
        r@ == (if kind@ == "isrc_exact"@ { "ISRC"@ } else { "Fuzzy"@ }),
{
    if crate::text::text_eq(kind, "isrc_exact") {
        "ISRC"
    } else {
        "Fuzzy"
    }
}

/// The confidence badge of a suggestion on the album page: kind and percent.
pub fn suggestion_badge(kind: &str, confidence: u8) -> (r: String)
    ensures
        r@ == (if kind@ == "isrc_exact"@ { "ISRC"@ } else { "Fuzzy"@ }) + " "@ + decimal(confidence as nat)
            + "%"@,
{
    let mut s = crate::text::concat2(match_kind_short(kind), " ");
    push_str(&mut s, decimal_string(confidence as u64).as_str());
    push_str(&mut s, "%");
    s
}

/// Whether a suggestion still waits for a decision.
pub open spec fn is_pending(status: Seq<char>) -> bool {
    status == "pending"@
}

/// Whether a suggestion still waits for a decision.
pub fn pending(status: &str) -> (r: bool)
    ensures
        r == is_pending(status@),
{
    crate::text::text_eq(status, "pending")
}

/// The name of a suggested match, or a stand-in where the provider gave none.
pub fn suggestion_name(name: &Option<String>, stand_in: &str) -> (r: String)
    ensures
        r@ == (match name {
            Some(n) => n@,
            None => stand_in@,
        }),
{
    match name {
        Some(n) => n.clone(),
        None => crate::text::owned(stand_in),
    }
}

/// The external id line of a suggestion.
pub fn external_id_line(id: &str) -> (r: String)
    ensures
        r@ == "ID: "@ + id@,
{
    crate::text::concat2("ID: ", id)
}

// ── Labels of a merge candidate ─────────────────────────────

/// Two-digit rendering of a number below 100, as `{:02}` prints it.
pub open spec fn two_digits(n: nat) -> Seq<char> {
    if n < 10 {
        "0"@ + decimal(n)
    } else {
        decimal(n)
    }
}

/// A line of the merged track list: `disc-NN. title`, followed by the
/// version in parentheses where there is a non-empty one.
pub open spec fn merged_track_line_text(t: TrackInfo) -> Seq<char> {
    decimal(t.disc_number as nat) + "-"@ + two_digits(t.track_number as nat) + ". "@ + t.title@ + match t.version {
        Some(v) => if v@.len() > 0 {
            " ("@ + v@ + ")"@
        } else {
            Seq::empty()
        },
        None => Seq::empty(),
    }
}

/// A line of the merged track list.
pub fn merged_track_line(t: &TrackInfo) -> (r: String)
    ensures
        r@ == merged_track_line_text(*t),
{
    let mut s = decimal_string(t.disc_number as u64);
    push_str(&mut s, "-");
    if t.track_number < 10 {
        push_str(&mut s, "0");
    } else {
        assert(s@ + Seq::<char>::empty() =~= s@);
    }
    push_str(&mut s, decimal_string(t.track_number as u64).as_str());
    push_str(&mut s, ". ");
    push_str(&mut s, t.title.as_str());
    let ghost base = s@;
    match &t.version {
        Some(v) => {
            if !v.as_str().is_empty() {
                push_str(&mut s, " (");
                push_str(&mut s, v.as_str());
                push_str(&mut s, ")");
            } else {
                assert(base + Seq::<char>::empty() =~= base);
            }
        },
        None => {
            assert(base + Seq::<char>::empty() =~= base);
        },
    }
    s
}

/// The summary line of an album in a merge candidate: its number of tracks,
/// and whether it is acquired and monitored.
pub fn album_card_summary(track_count: usize, acquired: bool, monitored: bool) -> (r: String)
    ensures
        r@ == decimal(track_count as nat) + " tracks"@ + (if acquired { " · acquired"@ } else { ""@ })
            + (if monitored { " · monitored"@ } else { ""@ }),
{
    let mut s = decimal_string(track_count as u64);
    push_str(&mut s, " tracks");
    push_str(&mut s, if acquired { " · acquired" } else { "" });
    push_str(&mut s, if monitored { " · monitored" } else { "" });
    s
}

/// The number of candidates on the merge page.
pub fn candidate_count_label(count: usize) -> (r: String)
    ensures
        r@ == decimal(count as nat) + " candidate"@ + (if count == 1 { ""@ } else { "s"@ }),
{
    let mut s = decimal_string(count as u64);
    push_str(&mut s, " candidate");
    push_str(&mut s, if count == 1 { "" } else { "s" });
    s
}

/// The summary of a merge: links and tracks after it.
pub fn merge_summary(links: usize, tracks: usize) -> (r: String)
    ensures
        r@ == decimal(links as nat) + " provider links · "@ + decimal(tracks as nat) + " tracks after merge"@,
{
    let mut s = decimal_string(links as u64);
    push_str(&mut s, " provider links · ");
    push_str(&mut s, decimal_string(tracks as u64).as_str());
    push_str(&mut s, " tracks after merge");
    s
}

/// The toggle of the merged track list.
pub fn merged_list_toggle(tracks: usize) -> (r: String)
    ensures
        r@ == "Show merged track list ("@ + decimal(tracks as nat) + " tracks)"@,
{
    let mut s = crate::text::concat2("Show merged track list (", decimal_string(tracks as u64).as_str());
    push_str(&mut s, " tracks)");
    s
}

/// Whether the merge offers a choice of cover: both albums have one and
/// they differ.
pub fn offers_cover_choice(a: &Option<String>, b: &Option<String>) -> (r: bool)
    ensures
        r == (a is Some && b is Some && a.unwrap()@ != b.unwrap()@),
{
    match (a, b) {
        (Some(x), Some(y)) => !crate::text::text_eq(x.as_str(), y.as_str()),
        _ => false,
    }
}

/// The cover after a choice in the cover picker: the second album's for
/// the value `b`, else the first album's.
pub fn chosen_cover(value: &str, a: &String, b: &String) -> (r: String)
    ensures
        r@ == (if value@ == "b"@ { b@ } else { a@ }),
{
    if crate::text::text_eq(value, "b") {
        b.clone()
    } else {
        a.clone()
    }
}

/// The request that merges two albums: the second into the first, with the
/// chosen title and cover.
pub struct MergeRequest {
    pub target_album_id: String,
    pub source_album_id: String,
    pub result_title: Option<String>,
    pub result_cover_url: Option<String>,
}

/// The request of the merge button.
pub fn merge_request(id_a: &str, id_b: &str, title: &str, cover: &Option<String>) -> (r: MergeRequest)
    ensures
        r.target_album_id@ == id_a@,
        r.source_album_id@ == id_b@,
        crate::text::opt_view(r.result_title) == Some(title@),
        crate::text::opt_view(r.result_cover_url) == crate::text::opt_view(*cover),
{
    MergeRequest {
        target_album_id: crate::text::owned(id_a),
        source_album_id: crate::text::owned(id_b),
        result_title: Some(crate::text::owned(title)),
        result_cover_url: clone_opt(cover),
    }
}

} // verus!
