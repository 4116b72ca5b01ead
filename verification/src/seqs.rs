//! Selecting and de-duplicating list items without copying them.
use vstd::prelude::*;

verus! {

/// The items of `s` whose flag in `keep` is set, in the order they came in.
pub open spec fn select<T>(s: Seq<T>, keep: Seq<bool>) -> Seq<T>
    decreases s.len(),
{
    if s.len() == 0 || keep.len() == 0 {
        Seq::empty()
    } else if keep[0] {
        seq![s[0]] + select(s.drop_first(), keep.drop_first())
    } else {
        select(s.drop_first(), keep.drop_first())
    }
}

/// The positions of the kept items in the sequence: increasing, flagged,
/// and every flagged position among them.
pub proof fn lemma_select_positions<T>(s: Seq<T>, keep: Seq<bool>) -> (idx: Seq<int>)
    requires
        s.len() == keep.len(),
    ensures
        idx.len() == select(s, keep).len(),
        forall|m: int|
            0 <= m < idx.len() ==> 0 <= #[trigger] idx[m] < s.len() && keep[idx[m]] && select(s, keep)[m]
                == s[idx[m]],
        forall|a: int, b: int| 0 <= a < b < idx.len() ==> idx[a] < idx[b],
        forall|j: int| 0 <= j < s.len() && #[trigger] keep[j] ==> exists|m: int| 0 <= m < idx.len() && idx[m] == j,
    decreases s.len(),
{
    if s.len() == 0 {
        Seq::empty()
    } else {
        let rest = lemma_select_positions(s.drop_first(), keep.drop_first());
        let shifted = rest.map_values(|x: int| x + 1);
        let sel = select(s, keep);
        let tail = select(s.drop_first(), keep.drop_first());
        if keep[0] {
            let idx = seq![0int] + shifted;
            assert(sel == seq![s[0]] + tail);
            assert forall|m: int| 0 <= m < idx.len() implies 0 <= #[trigger] idx[m] < s.len() && keep[idx[m]]
                && sel[m] == s[idx[m]] by {
                if m > 0 {
                    assert(idx[m] == rest[m - 1] + 1);
                    assert(sel[m] == tail[m - 1]);
                }
            }
            assert forall|j: int| 0 <= j < s.len() && #[trigger] keep[j] implies exists|m: int|
                0 <= m < idx.len() && idx[m] == j by {
                if j == 0 {
                    assert(idx[0] == 0);
                } else {
                    assert(keep.drop_first()[j - 1]);
                    let m = choose|m: int| 0 <= m < rest.len() && rest[m] == j - 1;
                    assert(idx[m + 1] == j);
                }
            }
            idx
        } else {
            assert(sel == tail);
            assert forall|m: int| 0 <= m < shifted.len() implies 0 <= #[trigger] shifted[m] < s.len()
                && keep[shifted[m]] && sel[m] == s[shifted[m]] by {
                assert(shifted[m] == rest[m] + 1);
            }
            assert forall|j: int| 0 <= j < s.len() && #[trigger] keep[j] implies exists|m: int|
                0 <= m < shifted.len() && shifted[m] == j by {
                assert(j != 0);
                assert(keep.drop_first()[j - 1]);
                let m = choose|m: int| 0 <= m < rest.len() && rest[m] == j - 1;
                assert(shifted[m] == j);
            }
            shifted
        }
    }
}

/// Every item that a selection keeps is an item of the sequence.
pub proof fn lemma_select_members<T>(s: Seq<T>, keep: Seq<bool>)
    ensures
        forall|m: int| 0 <= m < select(s, keep).len() ==> s.contains(#[trigger] select(s, keep)[m]),
    decreases s.len(),
{
    if s.len() > 0 && keep.len() > 0 {
        lemma_select_members(s.drop_first(), keep.drop_first());
        let rest = select(s.drop_first(), keep.drop_first());
        assert forall|m: int| 0 <= m < select(s, keep).len() implies s.contains(
            #[trigger] select(s, keep)[m],
        ) by {
            if keep[0] && m == 0 {
                assert(s[0] == select(s, keep)[0]);
            } else {
                let x = if keep[0] { rest[m - 1] } else { rest[m] };
                assert(select(s, keep)[m] == x);
                assert(s.drop_first().contains(x));
                let j = choose|j: int| 0 <= j < s.drop_first().len() && s.drop_first()[j] == x;
                assert(s[j + 1] == x);
            }
        }
    }
}

/// Selecting with all flags set keeps everything.
pub proof fn lemma_select_all<T>(s: Seq<T>, keep: Seq<bool>)
    requires
        s.len() == keep.len(),
        forall|k: int| 0 <= k < keep.len() ==> keep[k],
    ensures
        select(s, keep) == s,
    decreases s.len(),
{
    if s.len() > 0 {
        lemma_select_all(s.drop_first(), keep.drop_first());
        assert(s =~= seq![s[0]] + s.drop_first());
    } else {
        assert(s =~= Seq::<T>::empty());
    }
}

/// The number of set flags.
pub open spec fn count_true(keep: Seq<bool>) -> nat
    decreases keep.len(),
{
    if keep.len() == 0 {
        0
    } else {
        (if keep[0] { 1nat } else { 0nat }) + count_true(keep.drop_first())
    }
}

/// As many items are selected as flags are set.
pub proof fn lemma_select_len<T>(s: Seq<T>, keep: Seq<bool>)
    requires
        s.len() == keep.len(),
    ensures
        select(s, keep).len() == count_true(keep),
    decreases s.len(),
{
    if s.len() > 0 {
        lemma_select_len(s.drop_first(), keep.drop_first());
    }
}

/// Selecting from a sequence is selecting from a prefix and from the rest.
pub proof fn lemma_select_split<T>(s: Seq<T>, keep: Seq<bool>, i: int)
    requires
        s.len() == keep.len(),
        0 <= i <= s.len(),
    ensures
        select(s, keep) == select(s.take(i), keep.take(i)) + select(s.skip(i), keep.skip(i)),
    decreases i,
{
    if i == 0 {
        assert(s.skip(0) =~= s);
        assert(keep.skip(0) =~= keep);
        assert(select(s.take(0), keep.take(0)) =~= Seq::<T>::empty());
    } else {
        lemma_select_split(s.drop_first(), keep.drop_first(), i - 1);
        assert(s.drop_first().take(i - 1) =~= s.take(i).drop_first());
        assert(keep.drop_first().take(i - 1) =~= keep.take(i).drop_first());
        assert(s.drop_first().skip(i - 1) =~= s.skip(i));
        assert(keep.drop_first().skip(i - 1) =~= keep.skip(i));
        assert(s.take(i)[0] == s[0]);
        assert(keep.take(i)[0] == keep[0]);
        if keep[0] {
            assert(seq![s[0]] + (select(s.take(i).drop_first(), keep.take(i).drop_first())
                + select(s.skip(i), keep.skip(i))) =~= seq![s[0]] + select(
                s.take(i).drop_first(),
                keep.take(i).drop_first(),
            ) + select(s.skip(i), keep.skip(i)));
        }
    }
}

/// Selecting from a list with one more item.
pub proof fn lemma_select_push<T>(s: Seq<T>, keep: Seq<bool>, x: T, b: bool)
    requires
        s.len() == keep.len(),
    ensures
        select(s.push(x), keep.push(b)) == select(s, keep) + (if b { seq![x] } else { Seq::empty() }),
{
    lemma_select_split(s.push(x), keep.push(b), s.len() as int);
    assert(s.push(x).take(s.len() as int) =~= s);
    assert(keep.push(b).take(s.len() as int) =~= keep);
    let t = s.push(x).skip(s.len() as int);
    let f = keep.push(b).skip(s.len() as int);
    assert(t =~= seq![x]);
    assert(f =~= seq![b]);
    assert(t.drop_first() =~= Seq::<T>::empty());
    assert(select(t.drop_first(), f.drop_first()) =~= Seq::<T>::empty());
    if b {
        assert(select(t, f) =~= seq![x]);
    } else {
        assert(select(t, f) =~= Seq::<T>::empty());
    }
}

/// Selecting with no flag set gives nothing.
pub proof fn lemma_select_none<T>(s: Seq<T>, keep: Seq<bool>)
    requires
        forall|k: int| 0 <= k < keep.len() ==> !keep[k],
    ensures
        select(s, keep) == Seq::<T>::empty(),
    decreases s.len(),
{
    if s.len() > 0 && keep.len() > 0 {
        lemma_select_none(s.drop_first(), keep.drop_first());
    }
}

/// The first occurrences after one more key.
pub proof fn lemma_distinct_keys_push<K>(s: Seq<K>, k: K)
    ensures
        distinct_keys(s.push(k)) == if s.contains(k) {
            distinct_keys(s)
        } else {
            distinct_keys(s).push(k)
        },
{
    let t = s.push(k);
    assert(first_flags(t) =~= first_flags(s).push(!s.contains(k))) by {
        assert forall|j: int| 0 <= j < s.len() implies first_flags(t)[j] == first_flags(s)[j] by {
            assert forall|m: int| 0 <= m < j implies t[m] == s[m] && t[j] == s[j] by {}
        }
        if s.contains(k) {
            let m = choose|m: int| 0 <= m < s.len() && s[m] == k;
            assert(t[m] == t[s.len() as int]);
        } else {
            assert forall|m: int| 0 <= m < s.len() implies #[trigger] t[m] != t[s.len() as int] by {
                assert(t[m] == s[m]);
                if s[m] == k {
                    assert(s.contains(k));
                }
            }
        }
    }
    lemma_select_push(s, first_flags(s), k, !s.contains(k));
    if s.contains(k) {
        assert(distinct_keys(s) + Seq::<K>::empty() =~= distinct_keys(s));
    } else {
        assert(distinct_keys(s) + seq![k] =~= distinct_keys(s).push(k));
    }
}

/// A key is among the first occurrences exactly when it occurs.
pub proof fn lemma_distinct_keys_contains<K>(s: Seq<K>, k: K)
    ensures
        distinct_keys(s).contains(k) <==> s.contains(k),
    decreases s.len(),
{
    if s.len() == 0 {
        assert(distinct_keys(s) =~= Seq::<K>::empty());
    } else {
        let p = s.drop_last();
        let x = s.last();
        assert(s =~= p.push(x));
        lemma_distinct_keys_contains(p, k);
        lemma_distinct_keys_push(p, x);
        if p.contains(k) {
            let m = choose|m: int| 0 <= m < p.len() && p[m] == k;
            assert(s[m] == k);
        }
        if s.contains(k) && !p.contains(k) {
            let m = choose|m: int| 0 <= m < s.len() && s[m] == k;
            if m < p.len() {
                assert(p[m] == k);
            }
            assert(k == x);
        }
        if !p.contains(x) {
            assert(distinct_keys(s) == distinct_keys(p).push(x));
            assert(distinct_keys(s)[distinct_keys(p).len() as int] == x);
            if distinct_keys(p).contains(k) {
                let m = choose|m: int| 0 <= m < distinct_keys(p).len() && distinct_keys(p)[m] == k;
                assert(distinct_keys(s)[m] == k);
            }
            if distinct_keys(s).contains(k) && k != x {
                let m = choose|m: int| 0 <= m < distinct_keys(s).len() && distinct_keys(s)[m] == k;
                assert(distinct_keys(p)[m] == k);
            }
        }
    }
}

/// The first occurrences hold each key once.
pub proof fn lemma_distinct_keys_unique<K>(s: Seq<K>)
    ensures
        forall|a: int, b: int|
            0 <= a < b < distinct_keys(s).len() ==> distinct_keys(s)[a] != distinct_keys(s)[b],
    decreases s.len(),
{
    if s.len() == 0 {
        assert(distinct_keys(s) =~= Seq::<K>::empty());
    } else {
        let p = s.drop_last();
        let x = s.last();
        assert(s =~= p.push(x));
        lemma_distinct_keys_unique(p);
        lemma_distinct_keys_push(p, x);
        lemma_distinct_keys_contains(p, x);
        let d = distinct_keys(s);
        let dp = distinct_keys(p);
        if !p.contains(x) {
            assert forall|a: int, b: int| 0 <= a < b < d.len() implies d[a] != d[b] by {
                if b == dp.len() {
                    assert(d[b] == x);
                    assert(d[a] == dp[a]);
                    if d[a] == x {
                        assert(dp.contains(x));
                    }
                } else {
                    assert(d[a] == dp[a] && d[b] == dp[b]);
                }
            }
        }
    }
}

/// Counting the set flags of a prefix, one flag at a time.
pub proof fn lemma_count_true_push(keep: Seq<bool>, i: int)
    requires
        0 <= i < keep.len(),
    ensures
        count_true(keep.take(i + 1)) == count_true(keep.take(i)) + (if keep[i] { 1nat } else { 0nat }),
    decreases i,
{
    if i == 0 {
        assert(keep.take(1).drop_first() =~= Seq::<bool>::empty());
        assert(keep.take(0) =~= Seq::<bool>::empty());
    } else {
        lemma_count_true_push(keep.drop_first(), i - 1);
        assert(keep.drop_first().take(i) =~= keep.take(i + 1).drop_first());
        assert(keep.drop_first().take(i - 1) =~= keep.take(i).drop_first());
    }
}

/// Keeps the items whose flag is set, moving them, in the order they came in.
pub fn retain_flags<T>(items: Vec<T>, keep: &Vec<bool>) -> (r: Vec<T>)
    requires
        items@.len() == keep@.len(),
    ensures
        r@ == select(items@, keep@),
{
    let ghost orig = items@;
    let mut rest = items;
    let mut r: Vec<T> = Vec::new();
    let mut i: usize = 0;
    assert(orig.skip(0) =~= orig);
    assert(keep@.skip(0) =~= keep@);
    assert(r@ + select(orig, keep@) =~= select(orig, keep@));
    while i < keep.len()
        invariant
            orig.len() == keep@.len(),
            i <= keep.len(),
            rest@ == orig.skip(i as int),
            r@ + select(orig.skip(i as int), keep@.skip(i as int)) == select(orig, keep@),
        decreases keep.len() - i,
    {
        proof {
            if i == 0 {
                assert(orig.skip(0) =~= orig);
            }
        }
        let x = rest.remove(0);
        proof {
            assert(orig.skip(i as int).drop_first() =~= orig.skip(i + 1));
            assert(keep@.skip(i as int).drop_first() =~= keep@.skip(i + 1));
            assert(orig.skip(i as int)[0] == x);
            assert(keep@.skip(i as int)[0] == keep@[i as int]);
        }
        if keep[i] {
            let ghost before = r@;
            r.push(x);
            assert(before + (seq![x] + select(orig.skip(i + 1), keep@.skip(i + 1))) =~= before.push(x)
                + select(orig.skip(i + 1), keep@.skip(i + 1)));
        }
        assert(rest@ =~= orig.skip(i + 1));
        i = i + 1;
    }
    proof {
        assert(orig.skip(keep@.len() as int) =~= Seq::<T>::empty());
        assert(r@ + Seq::<T>::empty() =~= r@);
    }
    r
}

/// Whether position `i` holds the first occurrence of its key.
pub open spec fn first_occurrence<K>(keys: Seq<K>, i: int) -> bool {
    forall|j: int| 0 <= j < i ==> keys[j] != keys[i]
}

/// One flag per position: set at the first occurrence of each key.
pub open spec fn first_flags<K>(keys: Seq<K>) -> Seq<bool> {
    Seq::new(keys.len(), |i: int| first_occurrence(keys, i))
}

/// The keys of `keys`, each once, in the order of their first occurrence.
pub open spec fn distinct_keys<K>(keys: Seq<K>) -> Seq<K> {
    select(keys, first_flags(keys))
}

} // verus!
