//! Stable sorting by composite keys.
//!
//! Every list in the client is sorted by a key made of numbers and texts
//! compared one part after the other, the way `Ordering::then_with` chains
//! comparisons. Items with equal keys keep the order they came in, as with the
//! stable `slice::sort_by`.
use vstd::prelude::*;
use crate::text::{compare_chars, text_lt, lemma_text_lt_irreflexive, lemma_text_lt_transitive, lemma_text_lt_total};

verus! {

/// One component of a sort key.
pub enum KeyPart {
    /// A number, ascending.
    Num(u64),
    /// A number, descending.
    NumDesc(u64),
    /// A text, ascending by code point.
    Text(Vec<char>),
    /// A text, descending by code point.
    TextDesc(Vec<char>),
}

/// The value of a key component.
pub enum KeyVal {
    Num(int),
    Text(Seq<char>),
    TextDesc(Seq<char>),
}

/// The value of a key component.
pub open spec fn part_val(p: KeyPart) -> KeyVal {
    match p {
        KeyPart::Num(x) => KeyVal::Num(x as int),
        KeyPart::NumDesc(x) => KeyVal::Num(-(x as int)),
        KeyPart::Text(t) => KeyVal::Text(t@),
        KeyPart::TextDesc(t) => KeyVal::TextDesc(t@),
    }
}

/// The value of a whole key.
pub open spec fn key_val(k: Vec<KeyPart>) -> Seq<KeyVal> {
    k@.map_values(|p: KeyPart| part_val(p))
}

/// The values of a list of keys.
pub open spec fn keys_val(ks: Seq<Vec<KeyPart>>) -> Seq<Seq<KeyVal>> {
    ks.map_values(|k: Vec<KeyPart>| key_val(k))
}

pub open spec fn val_tag(v: KeyVal) -> int {
    match v {
        KeyVal::Num(_) => 0,
        KeyVal::Text(_) => 1,
        KeyVal::TextDesc(_) => 2,
    }
}

/// Strict order of key components.
pub open spec fn val_lt(a: KeyVal, b: KeyVal) -> bool {
    match (a, b) {
        (KeyVal::Num(x), KeyVal::Num(y)) => x < y,
        (KeyVal::Text(x), KeyVal::Text(y)) => text_lt(x, y),
        (KeyVal::TextDesc(x), KeyVal::TextDesc(y)) => text_lt(y, x),
        _ => val_tag(a) < val_tag(b),
    }
}

/// Strict lexicographic order of keys.
pub open spec fn key_lt(a: Seq<KeyVal>, b: Seq<KeyVal>) -> bool
    decreases a.len(),
{
    if a.len() == 0 {
        b.len() > 0
    } else if b.len() == 0 {
        false
    } else if a[0] != b[0] {
        val_lt(a[0], b[0])
    } else {
        key_lt(a.drop_first(), b.drop_first())
    }
}

/// Whether item `i` comes before item `j` in the stable sort of `keys`
/// (in descending key order where `desc` holds).
pub open spec fn before(keys: Seq<Seq<KeyVal>>, desc: bool, i: int, j: int) -> bool {
    if keys[i] == keys[j] {
        i < j
    } else if desc {
        key_lt(keys[j], keys[i])
    } else {
        key_lt(keys[i], keys[j])
    }
}

/// `order` lists every index of `keys` once, in stable sorted order.
pub open spec fn is_sort_order(order: Seq<usize>, keys: Seq<Seq<KeyVal>>, desc: bool) -> bool {
    &&& order.len() == keys.len()
    &&& forall|a: int| 0 <= a < order.len() ==> order[a] < keys.len()
    &&& forall|a: int, b: int|
        0 <= a < b < order.len() ==> before(keys, desc, order[a] as int, order[b] as int)
}

/// `order` lists every index below `n` exactly once.
pub open spec fn is_permutation(order: Seq<usize>, n: int) -> bool {
    &&& order.len() == n
    &&& forall|a: int| 0 <= a < order.len() ==> order[a] < n
    &&& forall|a: int, b: int| 0 <= a < b < order.len() ==> order[a] != order[b]
}

// ── Order lemmas ────────────────────────────────────────────

proof fn lemma_val_lt_irreflexive(a: KeyVal)
    ensures
        !val_lt(a, a),
{
    match a {
        KeyVal::Text(x) => lemma_text_lt_irreflexive(x),
        KeyVal::TextDesc(x) => lemma_text_lt_irreflexive(x),
        _ => {},
    }
}

proof fn lemma_val_lt_transitive(a: KeyVal, b: KeyVal, c: KeyVal)
    requires
        val_lt(a, b),
        val_lt(b, c),
    ensures
        val_lt(a, c),
{
    match (a, b, c) {
        (KeyVal::Text(x), KeyVal::Text(y), KeyVal::Text(z)) => lemma_text_lt_transitive(x, y, z),
        (KeyVal::TextDesc(x), KeyVal::TextDesc(y), KeyVal::TextDesc(z)) => lemma_text_lt_transitive(
            z,
            y,
            x,
        ),
        _ => {},
    }
}

proof fn lemma_val_lt_total(a: KeyVal, b: KeyVal)
    requires
        a != b,
    ensures
        val_lt(a, b) || val_lt(b, a),
{
    match (a, b) {
        (KeyVal::Text(x), KeyVal::Text(y)) => lemma_text_lt_total(x, y),
        (KeyVal::TextDesc(x), KeyVal::TextDesc(y)) => lemma_text_lt_total(x, y),
        _ => {},
    }
}

proof fn lemma_key_lt_irreflexive(a: Seq<KeyVal>)
    ensures
        !key_lt(a, a),
    decreases a.len(),
{
    if a.len() > 0 {
        lemma_key_lt_irreflexive(a.drop_first());
    }
}

proof fn lemma_key_lt_transitive(a: Seq<KeyVal>, b: Seq<KeyVal>, c: Seq<KeyVal>)
    requires
        key_lt(a, b),
        key_lt(b, c),
    ensures
        key_lt(a, c),
    decreases a.len(),
{
    if a.len() > 0 && b.len() > 0 && c.len() > 0 {
        if a[0] == b[0] && b[0] == c[0] {
            lemma_key_lt_transitive(a.drop_first(), b.drop_first(), c.drop_first());
        } else if a[0] != b[0] && b[0] != c[0] {
            lemma_val_lt_transitive(a[0], b[0], c[0]);
            if a[0] == c[0] {
                lemma_val_lt_irreflexive(a[0]);
            }
        } else if a[0] == b[0] {
        } else {
        }
    }
}

proof fn lemma_key_lt_total(a: Seq<KeyVal>, b: Seq<KeyVal>)
    requires
        a != b,
    ensures
        key_lt(a, b) || key_lt(b, a),
    decreases a.len(),
{
    if a.len() > 0 && b.len() > 0 {
        if a[0] == b[0] {
            if a.drop_first() == b.drop_first() {
                assert(a =~= seq![a[0]] + a.drop_first());
                assert(b =~= seq![b[0]] + b.drop_first());
            }
            lemma_key_lt_total(a.drop_first(), b.drop_first());
        } else {
            lemma_val_lt_total(a[0], b[0]);
        }
    } else if a.len() == 0 && b.len() == 0 {
        assert(a =~= b);
    }
}

proof fn lemma_key_lt_asymmetric(a: Seq<KeyVal>, b: Seq<KeyVal>)
    requires
        key_lt(a, b),
    ensures
        !key_lt(b, a),
{
    if key_lt(b, a) {
        lemma_key_lt_transitive(a, b, a);
        lemma_key_lt_irreflexive(a);
    }
}

/// `before` is transitive.
pub proof fn lemma_before_transitive(keys: Seq<Seq<KeyVal>>, desc: bool, i: int, j: int, k: int)
    requires
        before(keys, desc, i, j),
        before(keys, desc, j, k),
    ensures
        before(keys, desc, i, k),
{
    if keys[i] == keys[j] && keys[j] == keys[k] {
    } else if keys[i] == keys[j] {
    } else if keys[j] == keys[k] {
    } else {
        if desc {
            lemma_key_lt_transitive(keys[k], keys[j], keys[i]);
            if keys[i] == keys[k] {
                lemma_key_lt_irreflexive(keys[i]);
            }
        } else {
            lemma_key_lt_transitive(keys[i], keys[j], keys[k]);
            if keys[i] == keys[k] {
                lemma_key_lt_irreflexive(keys[i]);
            }
        }
    }
}

/// Two different items are ordered one way or the other, and not both.
pub proof fn lemma_before_total(keys: Seq<Seq<KeyVal>>, desc: bool, i: int, j: int)
    requires
        i != j,
    ensures
        before(keys, desc, i, j) || before(keys, desc, j, i),
        !(before(keys, desc, i, j) && before(keys, desc, j, i)),
{
    if keys[i] != keys[j] {
        lemma_key_lt_total(keys[i], keys[j]);
        if key_lt(keys[i], keys[j]) {
            lemma_key_lt_asymmetric(keys[i], keys[j]);
        } else {
            lemma_key_lt_asymmetric(keys[j], keys[i]);
        }
    }
}

/// Whether index `i` occurs in `order`.
pub open spec fn listed(order: Seq<usize>, i: int) -> bool {
    exists|a: int| 0 <= a < order.len() && order[a] == i
}

/// A stable sort order lists every index exactly once.
pub proof fn lemma_sort_order_covers(order: Seq<usize>, keys: Seq<Seq<KeyVal>>, desc: bool)
    requires
        is_sort_order(order, keys, desc),
    ensures
        is_permutation(order, keys.len() as int),
        forall|i: int| 0 <= i < keys.len() ==> #[trigger] listed(order, i),
{
    let n = keys.len() as int;
    assert forall|a: int, b: int| 0 <= a < b < order.len() implies order[a] != order[b] by {
        if order[a] == order[b] {
            assert(before(keys, desc, order[a] as int, order[b] as int));
        }
    }
    let s = order.map_values(|x: usize| x as int);
    assert(s.no_duplicates()) by {
        assert forall|a: int, b: int| 0 <= a < s.len() && 0 <= b < s.len() && a != b implies #[trigger] s[a] != #[trigger] s[b] by {
            if a < b {
                assert(order[a] != order[b]);
            } else {
                assert(order[b] != order[a]);
            }
        }
    }
    s.unique_seq_to_set();
    vstd::set_lib::lemma_int_range(0, n);
    let range = vstd::set_lib::set_int_range(0, n);
    assert(s.to_set().subset_of(range)) by {
        assert forall|x: int| s.to_set().contains(x) implies range.contains(x) by {
            let a = choose|a: int| 0 <= a < s.len() && s[a] == x;
            assert(order[a] < n);
        }
    }
    vstd::seq_lib::seq_to_set_is_finite(s);
    vstd::set_lib::lemma_subset_equality(s.to_set(), range);
    assert forall|i: int| 0 <= i < n implies #[trigger] listed(order, i) by {
        assert(range.contains(i));
        assert(s.to_set().contains(i));
        let a = choose|a: int| 0 <= a < s.len() && s[a] == i;
        assert(order[a] == i);
    }
}

// ── Executable comparison ───────────────────────────────────

fn compare_parts(a: &KeyPart, b: &KeyPart) -> (r: i8)
    ensures
        r == 0 <==> part_val(*a) == part_val(*b),
        r < 0 <==> val_lt(part_val(*a), part_val(*b)),
        r > 0 <==> val_lt(part_val(*b), part_val(*a)),
{
    proof {
        lemma_val_lt_irreflexive(part_val(*a));
        if part_val(*a) != part_val(*b) {
            lemma_val_lt_total(part_val(*a), part_val(*b));
            if val_lt(part_val(*a), part_val(*b)) && val_lt(part_val(*b), part_val(*a)) {
                lemma_val_lt_transitive(part_val(*a), part_val(*b), part_val(*a));
            }
        }
    }
    match (a, b) {
        (KeyPart::Num(x), KeyPart::Num(y)) => {
            if *x < *y { -1 } else if *x > *y { 1 } else { 0 }
        },
        (KeyPart::NumDesc(x), KeyPart::NumDesc(y)) => {
            if *x > *y { -1 } else if *x < *y { 1 } else { 0 }
        },
        (KeyPart::Num(x), KeyPart::NumDesc(y)) => {
            if (*x as i128) < -(*y as i128) { -1 } else if (*x as i128) > -(*y as i128) { 1 } else { 0 }
        },
        (KeyPart::NumDesc(x), KeyPart::Num(y)) => {
            if -(*x as i128) < (*y as i128) { -1 } else if -(*x as i128) > (*y as i128) { 1 } else { 0 }
        },
        (KeyPart::Text(x), KeyPart::Text(y)) => compare_chars(x, y),
        (KeyPart::TextDesc(x), KeyPart::TextDesc(y)) => compare_chars(y, x),
        (KeyPart::Num(_), _) => -1,
        (KeyPart::NumDesc(_), _) => -1,
        (KeyPart::Text(_), KeyPart::TextDesc(_)) => -1,
        (KeyPart::Text(_), _) => 1,
        (KeyPart::TextDesc(_), _) => 1,
    }
}

/// Compares two keys: -1, 0 or 1.
pub fn compare_keys(a: &Vec<KeyPart>, b: &Vec<KeyPart>) -> (r: i8)
    ensures
        r == 0 <==> key_val(*a) == key_val(*b),
        r < 0 <==> key_lt(key_val(*a), key_val(*b)),
        r > 0 <==> key_lt(key_val(*b), key_val(*a)),
{
    let ghost av = key_val(*a);
    let ghost bv = key_val(*b);
    let mut i: usize = 0;
    while i < a.len() && i < b.len()
        invariant
            av == key_val(*a),
            bv == key_val(*b),
            av.len() == a@.len(),
            bv.len() == b@.len(),
            i <= a.len(),
            i <= b.len(),
            av.take(i as int) == bv.take(i as int),
        decreases a.len() - i,
    {
        let c = compare_parts(&a[i], &b[i]);
        assert(av[i as int] == part_val(a@[i as int]));
        assert(bv[i as int] == part_val(b@[i as int]));
        if c != 0 {
            proof {
                lemma_key_lt_prefix(av, bv, i as int);
                assert(av.skip(i as int)[0] == av[i as int]);
                assert(bv.skip(i as int)[0] == bv[i as int]);
                if c < 0 {
                    lemma_key_lt_asymmetric(av, bv);
                } else {
                    lemma_key_lt_asymmetric(bv, av);
                }
            }
            return c;
        }
        assert(av.take(i + 1) =~= av.take(i as int).push(av[i as int]));
        assert(bv.take(i + 1) =~= bv.take(i as int).push(bv[i as int]));
        i = i + 1;
    }
    proof {
        lemma_key_lt_prefix(av, bv, i as int);
        if a.len() == b.len() {
            assert(av =~= av.take(i as int));
            assert(bv =~= bv.take(i as int));
        }
        lemma_key_lt_irreflexive(av);
    }
    if a.len() < b.len() {
        proof { lemma_key_lt_asymmetric(av, bv); }
        -1
    } else if a.len() > b.len() {
        proof { lemma_key_lt_asymmetric(bv, av); }
        1
    } else {
        0
    }
}

proof fn lemma_key_lt_prefix(a: Seq<KeyVal>, b: Seq<KeyVal>, i: int)
    requires
        0 <= i <= a.len(),
        i <= b.len(),
        a.take(i) == b.take(i),
    ensures
        key_lt(a, b) == key_lt(a.skip(i), b.skip(i)),
        key_lt(b, a) == key_lt(b.skip(i), a.skip(i)),
    decreases i,
{
    if i > 0 {
        assert(a[0] == a.take(i)[0]);
        assert(b[0] == b.take(i)[0]);
        assert(a.drop_first().take(i - 1) =~= a.take(i).drop_first());
        assert(b.drop_first().take(i - 1) =~= b.take(i).drop_first());
        lemma_key_lt_prefix(a.drop_first(), b.drop_first(), i - 1);
        assert(a.drop_first().skip(i - 1) =~= a.skip(i));
        assert(b.drop_first().skip(i - 1) =~= b.skip(i));
    } else {
        assert(a.skip(0) =~= a);
        assert(b.skip(0) =~= b);
    }
}

// ── Sorting ─────────────────────────────────────────────────

/// The stable sort order of `keys`: the positions of the items, listed in the
/// order in which the sorted list holds them.
pub fn sort_order(keys: &Vec<Vec<KeyPart>>, desc: bool) -> (order: Vec<usize>)
    ensures
        is_sort_order(order@, keys_val(keys@), desc),
        is_permutation(order@, keys@.len() as int),
{
    let ghost kv = keys_val(keys@);
    let mut order: Vec<usize> = Vec::new();
    let mut i: usize = 0;
    while i < keys.len()
        invariant
            kv == keys_val(keys@),
            kv.len() == keys@.len(),
            i <= keys.len(),
            order@.len() == i,
            forall|a: int| 0 <= a < order@.len() ==> order@[a] < i,
            forall|a: int, b: int| 0 <= a < b < order@.len() ==> order@[a] != order@[b],
            forall|a: int, b: int|
                0 <= a < b < order@.len() ==> before(kv, desc, order@[a] as int, order@[b] as int),
        decreases keys.len() - i,
    {
        // find the first position whose item must come after item i
        let mut p: usize = 0;
        while p < order.len()
            invariant
                kv == keys_val(keys@),
                kv.len() == keys@.len(),
                i < keys.len(),
                p <= order@.len(),
                forall|a: int| 0 <= a < order@.len() ==> order@[a] < i,
                forall|a: int| 0 <= a < p ==> before(kv, desc, order@[a] as int, i as int),
            ensures
                p <= order@.len(),
                forall|a: int| 0 <= a < p ==> before(kv, desc, order@[a] as int, i as int),
                p < order@.len() ==> before(kv, desc, i as int, order@[p as int] as int),
            decreases order.len() - p,
        {
            let o = order[p];
            let c = compare_keys(&keys[i], &keys[o]);
            proof {
                assert(kv[i as int] == key_val(keys@[i as int]));
                assert(kv[o as int] == key_val(keys@[o as int]));
            }
            let i_first = if desc { c > 0 } else { c < 0 };
            if i_first {
                break;
            }
            proof {
                lemma_before_total(kv, desc, i as int, o as int);
            }
            p = p + 1;
        }
        proof {
            if p < order@.len() {
                assert(before(kv, desc, i as int, order@[p as int] as int));
            }
        }
        let ghost old_order = order@;
        order.insert(p, i);
        proof {
            assert(order@ == old_order.take(p as int).push(i) + old_order.skip(p as int));
            assert forall|a: int| 0 <= a < order@.len() implies order@[a] < i + 1 by {
                if a < p {
                    assert(order@[a] == old_order[a]);
                } else if a > p {
                    assert(order@[a] == old_order[a - 1]);
                }
            }
            assert forall|a: int, b: int| 0 <= a < b < order@.len() implies order@[a] != order@[b] by {
                if a < p && b < p {
                    assert(order@[a] == old_order[a] && order@[b] == old_order[b]);
                } else if a < p && b == p {
                    assert(order@[a] == old_order[a]);
                } else if a < p {
                    assert(order@[a] == old_order[a] && order@[b] == old_order[b - 1]);
                } else if a == p {
                    assert(order@[b] == old_order[b - 1]);
                } else {
                    assert(order@[a] == old_order[a - 1] && order@[b] == old_order[b - 1]);
                }
            }
            assert forall|a: int, b: int| 0 <= a < b < order@.len() implies before(
                kv,
                desc,
                order@[a] as int,
                order@[b] as int,
            ) by {
                if a < p && b < p {
                    assert(order@[a] == old_order[a] && order@[b] == old_order[b]);
                } else if a < p && b == p {
                    assert(order@[a] == old_order[a]);
                } else if a < p {
                    assert(order@[a] == old_order[a] && order@[b] == old_order[b - 1]);
                } else if a == p {
                    assert(order@[b] == old_order[b - 1]);
                    if b - 1 > p {
                        lemma_before_transitive(kv, desc, i as int, old_order[p as int] as int, old_order[b - 1] as int);
                    }
                } else {
                    assert(order@[a] == old_order[a - 1] && order@[b] == old_order[b - 1]);
                }
            }
        }
        i = i + 1;
    }
    order
}

/// Rearranges `items` in the order that `order` lists their positions.
pub fn apply_order<T>(items: Vec<T>, order: &Vec<usize>) -> (r: Vec<T>)
    requires
        is_permutation(order@, items@.len() as int),
    ensures
        r@.len() == order@.len(),
        forall|k: int| 0 <= k < r@.len() ==> r@[k] == items@[order@[k] as int],
{
    let n = items.len();
    let ghost orig = items@;
    let mut slots: Vec<Option<T>> = Vec::new();
    let mut rest = items;
    // move the items into slots, last first, then reverse the positions
    let mut rev: Vec<Option<T>> = Vec::new();
    while rest.len() > 0
        invariant
            rest@ == orig.take(rest@.len() as int),
            rest@.len() + rev@.len() == orig.len(),
            forall|k: int| 0 <= k < rev@.len() ==> rev@[k] == Some(orig[orig.len() - 1 - k]),
        decreases rest@.len(),
    {
        let ghost before_len = rest@.len();
        let x = rest.pop().unwrap();
        assert(x == orig[before_len - 1]);
        rev.push(Some(x));
        assert(rest@ =~= orig.take(rest@.len() as int));
    }
    while rev.len() > 0
        invariant
            rev@.len() + slots@.len() == orig.len(),
            forall|k: int| 0 <= k < rev@.len() ==> rev@[k] == Some(orig[orig.len() - 1 - k]),
            forall|k: int| 0 <= k < slots@.len() ==> slots@[k] == Some(orig[k]),
        decreases rev@.len(),
    {
        let x = rev.pop().unwrap();
        slots.push(x);
    }
    let mut r: Vec<T> = Vec::new();
    let mut k: usize = 0;
    while k < order.len()
        invariant
            is_permutation(order@, orig.len() as int),
            slots@.len() == orig.len(),
            n == orig.len(),
            k <= order.len(),
            r@.len() == k,
            forall|j: int| 0 <= j < k ==> r@[j] == orig[order@[j] as int],
            forall|j: int| k <= j < order@.len() ==> slots@[order@[j] as int] == Some(orig[order@[j] as int]),
        decreases order.len() - k,
    {
        let idx = order[k];
        let ghost prev = slots@;
        let x = slots[idx].take();
        proof {
            assert(x == Some(orig[idx as int]));
            assert(slots@ == prev.update(idx as int, None));
            assert forall|j: int| k + 1 <= j < order@.len() implies slots@[order@[j] as int] == Some(
                orig[order@[j] as int],
            ) by {
                assert(order@[j] != order@[k as int]);
            }
        }
        r.push(x.unwrap());
        k = k + 1;
    }
    r
}

} // verus!
