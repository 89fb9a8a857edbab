use vstd::prelude::*;

verus! {

/// Index `a` comes before index `b`: a smaller key, or an equal key and a smaller index.
pub open spec fn key_lt(keys: Seq<u64>, a: int, b: int) -> bool {
    keys[a] < keys[b] || (keys[a] == keys[b] && a < b)
}

/// `p` lists every index of `keys` once, by increasing key, equal keys in their original
/// order: the order of a stable sort by key.
pub open spec fn is_stable_order(keys: Seq<u64>, p: Seq<usize>) -> bool {
    &&& p.len() == keys.len()
    &&& forall|k: int| 0 <= k < p.len() ==> #[trigger] p[k] < keys.len()
    &&& forall|i: usize| i < keys.len() ==> #[trigger] p.contains(i)
    &&& forall|a: int, b: int|
        0 <= a < b < p.len() ==> key_lt(keys, #[trigger] p[a] as int, #[trigger] p[b] as int)
}

/// The indices of `keys` in the order a stable sort by key puts them.
pub fn stable_order_by_key(keys: &[u64]) -> (p: Vec<usize>)
    ensures
        is_stable_order(keys@, p@),
{
    let n = keys.len();
    let mut p: Vec<usize> = Vec::new();
    let mut i: usize = 0;
    while i < n
        invariant
            n == keys@.len(),
            i <= n,
            p@.len() == i,
            forall|k: int| 0 <= k < p@.len() ==> #[trigger] p@[k] < i,
            forall|j: usize| j < i ==> #[trigger] p@.contains(j),
            forall|a: int, b: int|
                0 <= a < b < p@.len() ==> key_lt(keys@, #[trigger] p@[a] as int, #[trigger] p@[b] as int),
        decreases n - i,
    {
        let ki = keys[i];
        let mut pos: usize = 0;
        while pos < p.len() && keys[p[pos]] <= ki
            invariant
                n == keys@.len(),
                i < n,
                ki == keys@[i as int],
                pos <= p@.len(),
                forall|k: int| 0 <= k < p@.len() ==> #[trigger] p@[k] < i,
                forall|k: int| 0 <= k < pos ==> keys@[#[trigger] p@[k] as int] <= ki,
            decreases p@.len() - pos,
        {
            pos += 1;
        }
        let ghost old_p = p@;
        p.insert(pos, i);
        proof {
            assert(p@ =~= old_p.subrange(0, pos as int).push(i).add(old_p.subrange(pos as int, old_p.len() as int)));
            assert forall|k: int| 0 <= k < p@.len() implies #[trigger] p@[k] < i + 1 by {
                if k < pos {
                    assert(p@[k] == old_p[k]);
                } else if k > pos {
                    assert(p@[k] == old_p[k - 1]);
                }
            }
            assert forall|j: usize| j < i + 1 implies #[trigger] p@.contains(j) by {
                if j == i {
                    assert(p@[pos as int] == i);
                } else {
                    assert(old_p.contains(j));
                    let w = choose|w: int| 0 <= w < old_p.len() && old_p[w] == j;
                    if w < pos {
                        assert(p@[w] == j);
                    } else {
                        assert(p@[w + 1] == j);
                    }
                }
            }
            assert forall|a: int, b: int| 0 <= a < b < p@.len() implies key_lt(
                keys@,
                #[trigger] p@[a] as int,
                #[trigger] p@[b] as int,
            ) by {
                if b < pos {
                    assert(p@[a] == old_p[a] && p@[b] == old_p[b]);
                } else if b == pos {
                    assert(p@[a] == old_p[a]);
                    assert(keys@[old_p[a] as int] <= ki);
                } else if a > pos {
                    assert(p@[a] == old_p[a - 1] && p@[b] == old_p[b - 1]);
                } else if a == pos {
                    assert(p@[b] == old_p[b - 1]);
                    assert(keys@[old_p[pos as int] as int] > ki);
                    if b - 1 > pos {
                        assert(key_lt(keys@, old_p[pos as int] as int, old_p[b - 1] as int));
                    }
                } else {
                    assert(p@[a] == old_p[a] && p@[b] == old_p[b - 1]);
                }
            }
        }
        i += 1;
    }
    p
}

} // verus!
