//! Stable ordering by a key: the arrangement `sort_by_key` produces.
use vstd::prelude::*;

verus! {

/// Position `x` comes before position `y`: a smaller key, or an equal key and
/// an earlier position (stability).
pub open spec fn before(keys: Seq<i128>, x: usize, y: usize) -> bool {
    keys[x as int] < keys[y as int] || (keys[x as int] == keys[y as int] && x < y)
}

/// Position `k` occurs in `order`.
pub open spec fn lists(order: Seq<usize>, k: int) -> bool {
    exists|a: int| 0 <= a < order.len() && #[trigger] order[a] == k
}

/// `order` lists every position of `keys` once, by increasing key, positions
/// with equal keys in their original order.
pub open spec fn is_stable_order(keys: Seq<i128>, order: Seq<usize>) -> bool {
    &&& order.len() == keys.len()
    &&& forall|a: int| 0 <= a < order.len() ==> #[trigger] order[a] < keys.len()
    &&& forall|k: int| 0 <= k < keys.len() ==> #[trigger] lists(order, k)
    &&& forall|a: int, b: int|
        #![trigger order[a], order[b]]
        0 <= a < b < order.len() ==> before(keys, order[a], order[b])
}

/// There is one stable order only.
pub proof fn lemma_stable_order_unique(keys: Seq<i128>, o1: Seq<usize>, o2: Seq<usize>)
    requires
        is_stable_order(keys, o1),
        is_stable_order(keys, o2),
    ensures
        o1 == o2,
{
    lemma_stable_order_agree(keys, o1, o2, o1.len() as int);
    assert(o1 =~= o2);
}

proof fn lemma_stable_order_agree(keys: Seq<i128>, o1: Seq<usize>, o2: Seq<usize>, m: int)
    requires
        is_stable_order(keys, o1),
        is_stable_order(keys, o2),
        0 <= m <= o1.len(),
    ensures
        forall|j: int| 0 <= j < m ==> o1[j] == o2[j],
    decreases m,
{
    if m > 0 {
        let j = m - 1;
        lemma_stable_order_agree(keys, o1, o2, j);
        let x = o1[j];
        let y = o2[j];
        if x != y {
            if before(keys, x, y) {
                assert(lists(o2, x as int));
                let k = choose|a: int| 0 <= a < o2.len() && #[trigger] o2[a] == x as int;
                if k < j {
                    assert(o1[k] == x);
                    assert(before(keys, o1[k], o1[j]));
                } else {
                    assert(k > j);
                    assert(before(keys, o2[j], o2[k]));
                }
            } else {
                assert(before(keys, y, x));
                assert(lists(o1, y as int));
                let k = choose|a: int| 0 <= a < o1.len() && #[trigger] o1[a] == y as int;
                if k < j {
                    assert(o2[k] == y);
                    assert(before(keys, o2[k], o2[j]));
                } else {
                    assert(k > j);
                    assert(before(keys, o1[j], o1[k]));
                }
            }
        }
    }
}

/// The positions of `keys` in stable order.
pub fn stable_order(keys: &Vec<i128>) -> (order: Vec<usize>)
    ensures
        is_stable_order(keys@, order@),
{
    let n = keys.len();
    let mut out: Vec<usize> = Vec::new();
    let mut i: usize = 0;
    while i < n
        invariant
            n == keys@.len(),
            i <= n,
            out@.len() == i,
            forall|a: int| 0 <= a < out@.len() ==> #[trigger] out@[a] < i,
            forall|k: int| 0 <= k < i ==> #[trigger] lists(out@, k),
            forall|a: int, b: int|
                #![trigger out@[a], out@[b]]
                0 <= a < b < out@.len() ==> before(keys@, out@[a], out@[b]),
        decreases n - i,
    {
        let ki = keys[i];
        let mut p: usize = 0;
        while p < out.len() && keys[out[p]] <= ki
            invariant
                n == keys@.len(),
                i < n,
                p <= out@.len(),
                forall|a: int| 0 <= a < out@.len() ==> #[trigger] out@[a] < i,
                ki == keys@[i as int],
                forall|a: int| 0 <= a < p ==> keys@[#[trigger] out@[a] as int] <= ki,
            decreases out@.len() - p,
        {
            p = p + 1;
        }
        let ghost prev = out@;
        proof {
            if p < prev.len() {
                assert forall|a: int| p <= a < prev.len() implies keys@[#[trigger] prev[a] as int] > ki by {
                    if a > p {
                        assert(before(keys@, prev[p as int], prev[a]));
                    }
                }
            }
        }
        out.insert(p, i);
        proof {
            let cur = out@;
            assert(cur =~= prev.insert(p as int, i));
            assert forall|a: int| 0 <= a < cur.len() implies #[trigger] cur[a] < i + 1 by {
                if a < p {
                    assert(cur[a] == prev[a]);
                } else if a > p {
                    assert(cur[a] == prev[a - 1]);
                }
            }
            assert forall|k: int| 0 <= k < i + 1 implies #[trigger] lists(cur, k) by {
                if k < i {
                    assert(lists(prev, k));
                    let a = choose|a: int| 0 <= a < prev.len() && #[trigger] prev[a] == k;
                    if a < p {
                        assert(cur[a] == k);
                    } else {
                        assert(cur[a + 1] == k);
                    }
                } else {
                    assert(cur[p as int] == k);
                }
            }
            assert forall|a: int, b: int|
                #![trigger cur[a], cur[b]]
                0 <= a < b < cur.len() implies before(keys@, cur[a], cur[b]) by {
                if b < p {
                    assert(cur[a] == prev[a] && cur[b] == prev[b]);
                    assert(before(keys@, prev[a], prev[b]));
                } else if b == p {
                    assert(cur[a] == prev[a]);
                    assert(keys@[prev[a] as int] <= ki);
                } else if a < p {
                    assert(cur[a] == prev[a] && cur[b] == prev[b - 1]);
                    if b - 1 < p {
                    } else {
                        assert(keys@[prev[b - 1] as int] > ki);
                    }
                    assert(keys@[prev[a] as int] <= ki);
                } else if a == p {
                    assert(cur[b] == prev[b - 1]);
                    assert(keys@[prev[b - 1] as int] > ki);
                } else {
                    assert(cur[a] == prev[a - 1] && cur[b] == prev[b - 1]);
                    assert(before(keys@, prev[a - 1], prev[b - 1]));
                }
            }
        }
        i = i + 1;
    }
    out
}

} // verus!
