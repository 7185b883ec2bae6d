//! Stable sorting by a number: the order in which the entries of a list come
//! when they are sorted by a key, entries with the same key staying in the
//! order that they had.

use vstd::prelude::*;

verus! {

/// Whether position `a` comes before position `b` in the stable order by
/// `keys`: it has the lower key, or the same key and the lower position.
pub open spec fn comes_before(keys: Seq<i128>, a: int, b: int) -> bool {
    keys[a] < keys[b] || (keys[a] == keys[b] && a < b)
}

/// Whether `order` lists the first `count` positions of `keys`, each once, in
/// the stable order by key.
pub open spec fn is_stable_order_of(keys: Seq<i128>, order: Seq<usize>, count: int) -> bool {
    &&& order.len() == count
    &&& forall|a: int| 0 <= a < order.len() ==> 0 <= #[trigger] order[a] < count
    &&& forall|a: int, b: int|
        0 <= a < b < order.len() ==> comes_before(
            keys,
            #[trigger] order[a] as int,
            #[trigger] order[b] as int,
        )
}

/// Whether `order` lists all positions of `keys`, each once, in the stable
/// order by key: ascending by key, positions with the same key in ascending
/// order.
pub open spec fn is_stable_order(keys: Seq<i128>, order: Seq<usize>) -> bool {
    is_stable_order_of(keys, order, keys.len() as int)
}

/// The positions of `keys` in the stable order by key.
pub fn stable_order(keys: &Vec<i128>) -> (order: Vec<usize>)
    ensures
        is_stable_order(keys@, order@),
{
    let mut order: Vec<usize> = Vec::new();
    let mut i: usize = 0;
    while i < keys.len()
        invariant
            0 <= i <= keys.len(),
            is_stable_order_of(keys@, order@, i as int),
        decreases keys.len() - i,
    {
        let mut k: usize = order.len();
        while k > 0 && keys[order[k - 1]] > keys[i]
            invariant
                0 <= k <= order.len(),
                i < keys.len(),
                is_stable_order_of(keys@, order@, i as int),
                forall|j: int| k <= j < order.len() ==> keys[#[trigger] order[j] as int] > keys[i as int],
            decreases k,
        {
            k = k - 1;
        }
        let ghost before = order@;
        order.insert(k, i);
        proof {
            let after = order@;
            assert forall|a: int, b: int| 0 <= a < b < after.len() implies comes_before(
                keys@,
                #[trigger] after[a] as int,
                #[trigger] after[b] as int,
            ) by {
                if b < k {
                    assert(after[a] == before[a] && after[b] == before[b]);
                } else if b == k {
                    // `a` lies before the place of the new position.
                    assert(after[a] == before[a]);
                    if a < k - 1 {
                        assert(comes_before(keys@, before[a] as int, before[k - 1] as int));
                    }
                } else if a == k {
                    assert(after[b] == before[b - 1]);
                } else if a > k {
                    assert(after[a] == before[a - 1] && after[b] == before[b - 1]);
                } else {
                    assert(after[a] == before[a] && after[b] == before[b - 1]);
                }
            }
        }
        i = i + 1;
    }
    order
}

} // verus!
