use vstd::prelude::*;

verus! {

/// `(k1, i1)` comes before `(k2, i2)`: smaller key first, and among equal
/// keys the earlier position first.
pub open spec fn key_position_lt(k1: u32, i1: int, k2: u32, i2: int) -> bool {
    k1 < k2 || (k1 == k2 && i1 < i2)
}

/// `p` lists the positions of `keys` in the order of a stable sort by key:
/// each position once, keys ascending, equal keys in their original order.
pub open spec fn is_stable_order(keys: Seq<u32>, p: Seq<usize>) -> bool {
    &&& p.len() == keys.len()
    &&& forall|i: int| 0 <= i < p.len() ==> #[trigger] p[i] < keys.len()
    &&& forall|i: int, j: int|
        0 <= i < j < p.len() ==> key_position_lt(
            keys[p[i] as int],
            p[i] as int,
            keys[p[j] as int],
            p[j] as int,
        )
}

/// The positions of `keys` in the order in which a stable sort by key puts them.
pub fn stable_order_by_key(keys: &Vec<u32>) -> (r: Vec<usize>)
    ensures
        is_stable_order(keys@, r@),
{
    let n: usize = keys.len();
    let mut order: Vec<usize> = Vec::new();
    let mut q: usize = 0;
    while q < n
        invariant
            q <= n,
            n == keys@.len(),
            order@.len() == q,
            forall|i: int| 0 <= i < order@.len() ==> #[trigger] order@[i] < q,
            forall|i: int, j: int|
                0 <= i < j < order@.len() ==> key_position_lt(
                    keys@[order@[i] as int],
                    order@[i] as int,
                    keys@[order@[j] as int],
                    order@[j] as int,
                ),
        decreases n - q,
    {
        let kq = keys[q];
        let mut j: usize = order.len();
        while j > 0 && keys[order[j - 1]] > kq
            invariant
                j <= order@.len(),
                order@.len() == q,
                q < n,
                n == keys@.len(),
                kq == keys@[q as int],
                forall|i: int| 0 <= i < order@.len() ==> #[trigger] order@[i] < q,
                forall|m: int| j <= m < order@.len() ==> keys@[#[trigger] order@[m] as int] > kq,
            decreases j,
        {
            j = j - 1;
        }
        let ghost old_order = order@;
        proof {
            assert forall|m: int| 0 <= m < j implies keys@[#[trigger] old_order[m] as int] <= kq by {
                if m < j - 1 {
                    assert(key_position_lt(
                        keys@[old_order[m] as int],
                        old_order[m] as int,
                        keys@[old_order[j - 1] as int],
                        old_order[j - 1] as int,
                    ));
                }
            }
        }
        order.insert(j, q);
        proof {
            assert forall|i: int, k: int|
                0 <= i < k < order@.len() implies key_position_lt(
                keys@[order@[i] as int],
                order@[i] as int,
                keys@[order@[k] as int],
                order@[k] as int,
            ) by {
                if i < j && k < j {
                    assert(order@[i] == old_order[i] && order@[k] == old_order[k]);
                } else if i < j && k == j {
                    assert(order@[i] == old_order[i]);
                    assert(keys@[old_order[i] as int] <= kq);
                } else if i < j && k > j {
                    assert(order@[i] == old_order[i] && order@[k] == old_order[k - 1]);
                } else if i == j {
                    assert(order@[k] == old_order[k - 1]);
                    assert(keys@[old_order[k - 1] as int] > kq);
                } else {
                    assert(order@[i] == old_order[i - 1] && order@[k] == old_order[k - 1]);
                }
            }
        }
        q = q + 1;
    }
    order
}

} // verus!
