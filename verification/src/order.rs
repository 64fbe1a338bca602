//! Putting things in order without disturbing those that rank alike.

use vstd::prelude::*;

verus! {

/// What things are ranked by: the first number, then the second, then the third.
pub type Key = (i128, i64, i64);

/// Whether `a` comes before `b`.
pub open spec fn key_before(a: Key, b: Key) -> bool {
    ||| a.0 < b.0
    ||| a.0 == b.0 && a.1 < b.1
    ||| a.0 == b.0 && a.1 == b.1 && a.2 < b.2
}

/// Whether the thing at `i` comes before the thing at `j`: by its key, or, where
/// the keys are alike, because it came first before.
pub open spec fn place_before(keys: Seq<Key>, i: int, j: int) -> bool {
    ||| key_before(keys[i], keys[j])
    ||| keys[i] == keys[j] && i < j
}

/// Whether `p` lists every place of `keys` once, in order.
pub open spec fn is_stable_order(keys: Seq<Key>, p: Seq<usize>) -> bool {
    &&& p.len() == keys.len()
    &&& forall|i: int| 0 <= i < p.len() ==> (#[trigger] p[i]) < keys.len()
    &&& forall|i: int, j: int|
        0 <= i < j < p.len() ==> place_before(keys, #[trigger] p[i] as int, #[trigger] p[j] as int)
}

/// Like [`is_stable_order`], of the first `n` places only.
spec fn is_partial_order(keys: Seq<Key>, p: Seq<usize>, n: int) -> bool {
    &&& p.len() == n
    &&& forall|i: int| 0 <= i < p.len() ==> (#[trigger] p[i]) < n
    &&& forall|i: int, j: int|
        0 <= i < j < p.len() ==> place_before(keys, #[trigger] p[i] as int, #[trigger] p[j] as int)
}

fn before(a: &Key, b: &Key) -> (r: bool)
    ensures
        r == key_before(*a, *b),
{
    a.0 < b.0 || (a.0 == b.0 && (a.1 < b.1 || (a.1 == b.1 && a.2 < b.2)))
}

/// The first place in `p` whose key comes after `key`.
fn place_for(keys: &Vec<Key>, p: &Vec<usize>, key: &Key) -> (r: usize)
    requires
        p.len() <= keys.len(),
        is_partial_order(keys@, p@, p.len() as int),
    ensures
        r <= p.len(),
        forall|i: int| 0 <= i < r ==> !key_before(*key, keys@[#[trigger] p@[i] as int]),
        forall|i: int| r <= i < p.len() ==> key_before(*key, keys@[#[trigger] p@[i] as int]),
{
    let mut low: usize = 0;
    let mut high: usize = p.len();
    while low < high
        invariant
            0 <= low <= high <= p.len(),
            p.len() <= keys.len(),
            is_partial_order(keys@, p@, p.len() as int),
            forall|i: int| 0 <= i < low ==> !key_before(*key, keys@[#[trigger] p@[i] as int]),
            forall|i: int| high <= i < p.len() ==> key_before(*key, keys@[#[trigger] p@[i] as int]),
        decreases high - low,
    {
        let mid: usize = low + (high - low) / 2;
        if before(key, &keys[p[mid]]) {
            assert forall|i: int| mid <= i < p.len() implies key_before(
                *key,
                keys@[#[trigger] p@[i] as int],
            ) by {
                if i > mid {
                    assert(place_before(keys@, p@[mid as int] as int, p@[i] as int));
                }
            }
            high = mid;
        } else {
            assert forall|i: int| 0 <= i < mid + 1 implies !key_before(
                *key,
                keys@[#[trigger] p@[i] as int],
            ) by {
                if i < mid {
                    assert(place_before(keys@, p@[i] as int, p@[mid as int] as int));
                }
            }
            low = mid + 1;
        }
    }
    low
}

/// The places of `keys` in order, those with like keys as they came.
pub fn stable_order(keys: &Vec<Key>) -> (r: Vec<usize>)
    ensures
        is_stable_order(keys@, r@),
{
    let mut p: Vec<usize> = Vec::new();
    let mut n: usize = 0;
    while n < keys.len()
        invariant
            0 <= n <= keys.len(),
            p.len() == n,
            is_partial_order(keys@, p@, n as int),
        decreases keys.len() - n,
    {
        let at: usize = place_for(keys, &p, &keys[n]);
        let ghost old_p = p@;
        p.insert(at, n);
        proof {
            assert(p@ =~= old_p.insert(at as int, n));
            assert forall|i: int, j: int| 0 <= i < j < p@.len() implies place_before(
                keys@,
                #[trigger] p@[i] as int,
                #[trigger] p@[j] as int,
            ) by {
                let oi = if i < at { i } else { i - 1 };
                let oj = if j < at { j } else { j - 1 };
                if i != at && j != at {
                    assert(p@[i] == old_p[oi] && p@[j] == old_p[oj]);
                    assert(place_before(keys@, old_p[oi] as int, old_p[oj] as int));
                } else if i == at {
                    assert(p@[j] == old_p[oj]);
                } else {
                    assert(p@[i] == old_p[oi]);
                }
            }
            assert forall|i: int| 0 <= i < p@.len() implies (#[trigger] p@[i]) < n + 1 by {
                if i != at {
                    let oi = if i < at { i } else { i - 1 };
                    assert(p@[i] == old_p[oi]);
                }
            }
        }
        n += 1;
    }
    p
}

/// There is only one such order.
pub proof fn stable_order_is_unique(keys: Seq<Key>, p: Seq<usize>, q: Seq<usize>)
    requires
        is_stable_order(keys, p),
        is_stable_order(keys, q),
    ensures
        p == q,
{
    lemma_all_places(keys, p);
    lemma_all_places(keys, q);
    assert forall|k: int| 0 <= k < p.len() implies p[k] == q[k] by {
        lemma_unique_up_to(keys, p, q, k);
    }
    assert(p =~= q);
}

proof fn lemma_unique_up_to(keys: Seq<Key>, p: Seq<usize>, q: Seq<usize>, k: int)
    requires
        is_stable_order(keys, p),
        is_stable_order(keys, q),
        0 <= k < p.len(),
        forall|x: usize| x < keys.len() ==> #[trigger] p.contains(x),
        forall|x: usize| x < keys.len() ==> #[trigger] q.contains(x),
    ensures
        p[k] == q[k],
    decreases k,
{
    assert forall|i: int| 0 <= i < k implies p[i] == q[i] by {
        lemma_unique_up_to(keys, p, q, i);
    }
    if p[k] != q[k] {
        assert(q.contains(p[k]));
        let j = choose|j: int| 0 <= j < q.len() && q[j] == p[k];
        assert(p.contains(q[k]));
        let i = choose|i: int| 0 <= i < p.len() && p[i] == q[k];
        if j < k {
            assert(p[j] == p[k]);
            assert(place_before(keys, p[j] as int, p[k] as int));
        } else if i < k {
            assert(q[i] == q[k]);
            assert(place_before(keys, q[i] as int, q[k] as int));
        } else {
            assert(place_before(keys, q[k] as int, q[j] as int));
            assert(place_before(keys, p[k] as int, p[i] as int));
        }
    }
}

/// The order leaves nothing out.
pub proof fn lemma_all_places(keys: Seq<Key>, p: Seq<usize>)
    requires
        is_stable_order(keys, p),
    ensures
        p.no_duplicates(),
        forall|x: usize| x < keys.len() ==> #[trigger] p.contains(x),
{
    assert forall|i: int, j: int| 0 <= i < p.len() && 0 <= j < p.len() && i != j implies p[i]
        != p[j] by {
        if i < j {
            assert(place_before(keys, p[i] as int, p[j] as int));
        } else {
            assert(place_before(keys, p[j] as int, p[i] as int));
        }
    }
    let places = vstd::set_lib::set_int_range(0, keys.len() as int);
    let listed = p.map_values(|x: usize| x as int);
    vstd::set_lib::lemma_int_range(0, keys.len() as int);
    assert(listed.no_duplicates());
    listed.unique_seq_to_set();
    assert(listed.to_set().subset_of(places)) by {
        assert forall|x: int| listed.to_set().contains(x) implies places.contains(x) by {
            let i = choose|i: int| 0 <= i < listed.len() && listed[i] == x;
            assert(listed[i] == p[i] as int);
        }
    }
    vstd::set_lib::lemma_subset_equality(listed.to_set(), places);
    assert forall|x: usize| x < keys.len() implies #[trigger] p.contains(x) by {
        assert(places.contains(x as int));
        assert(listed.to_set().contains(x as int));
        let i = choose|i: int| 0 <= i < listed.len() && listed[i] == x as int;
        assert(p[i] == x);
    }
}

/// Things stand in the order of their first numbers, those alike in that of their
/// second, those alike again in that of their third, and those alike in all three as
/// they came. Every place is listed once.
pub proof fn things_stand_in_order(keys: Seq<Key>, p: Seq<usize>, i: int, j: int)
    requires
        is_stable_order(keys, p),
        0 <= i < j < p.len(),
    ensures
        p.len() == keys.len(),
        p[i] < keys.len(),
        p[j] < keys.len(),
        p.no_duplicates(),
        keys[p[i] as int].0 <= keys[p[j] as int].0,
        keys[p[i] as int].0 == keys[p[j] as int].0 ==> keys[p[i] as int].1 <= keys[p[j] as int].1,
        keys[p[i] as int].0 == keys[p[j] as int].0 && keys[p[i] as int].1 == keys[p[j] as int].1
            ==> keys[p[i] as int].2 <= keys[p[j] as int].2,
        keys[p[i] as int] == keys[p[j] as int] ==> p[i] < p[j],
{
    lemma_all_places(keys, p);
    assert(place_before(keys, p[i] as int, p[j] as int));
}

} // verus!
