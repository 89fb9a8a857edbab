use vstd::prelude::*;

use crate::text::{chars_equal, chars_of, string_from_chars};

verus! {

/// Length of the common run of `a` starting at `i` and `b` starting at `j`.
pub open spec fn match_len(a: Seq<char>, b: Seq<char>, i: int, j: int) -> nat
    decreases a.len() - i,
{
    if 0 <= i < a.len() && 0 <= j < b.len() && a[i] == b[j] {
        1 + match_len(a, b, i + 1, j + 1)
    } else {
        0
    }
}

pub open spec fn valid_pair(a: Seq<char>, b: Seq<char>, i: int, j: int) -> bool {
    0 <= i < a.len() && 0 <= j < b.len()
}

/// `(i1, j1)` comes before `(i2, j2)` in row-major order.
pub open spec fn pair_before(i1: int, j1: int, i2: int, j2: int) -> bool {
    i1 < i2 || (i1 == i2 && j1 < j2)
}

/// `(i, j)` starts a longest common run, and no earlier pair starts one as long.
pub open spec fn is_first_longest(a: Seq<char>, b: Seq<char>, i: int, j: int) -> bool {
    &&& valid_pair(a, b, i, j)
    &&& match_len(a, b, i, j) > 0
    &&& forall|x: int, y: int|
        valid_pair(a, b, x, y) ==> #[trigger] match_len(a, b, x, y) <= match_len(a, b, i, j)
    &&& forall|x: int, y: int|
        valid_pair(a, b, x, y) && pair_before(x, y, i, j) ==> #[trigger] match_len(a, b, x, y)
            < match_len(a, b, i, j)
}

/// The first longest common run `(index in a, index in b, length)`, or `(0, 0, 0)` when
/// `a` and `b` share no character.
pub open spec fn longest_match(a: Seq<char>, b: Seq<char>) -> (int, int, nat) {
    if exists|i: int, j: int| is_first_longest(a, b, i, j) {
        let p = choose|i: int, j: int| is_first_longest(a, b, i, j);
        (p.0, p.1, match_len(a, b, p.0, p.1))
    } else {
        (0, 0, 0)
    }
}

proof fn lemma_first_longest_unique(a: Seq<char>, b: Seq<char>, i1: int, j1: int, i2: int, j2: int)
    requires
        is_first_longest(a, b, i1, j1),
        is_first_longest(a, b, i2, j2),
    ensures
        i1 == i2 && j1 == j2,
{
    assert(match_len(a, b, i1, j1) <= match_len(a, b, i2, j2));
    assert(match_len(a, b, i2, j2) <= match_len(a, b, i1, j1));
    if pair_before(i1, j1, i2, j2) {
        assert(match_len(a, b, i1, j1) < match_len(a, b, i2, j2));
    } else if pair_before(i2, j2, i1, j1) {
        assert(match_len(a, b, i2, j2) < match_len(a, b, i1, j1));
    }
}

proof fn lemma_match_len_bound(a: Seq<char>, b: Seq<char>, i: int, j: int)
    requires
        0 <= i <= a.len(),
        0 <= j <= b.len(),
    ensures
        i + match_len(a, b, i, j) <= a.len(),
        j + match_len(a, b, i, j) <= b.len(),
        a.subrange(i, i + match_len(a, b, i, j)) =~= b.subrange(j, j + match_len(a, b, i, j)),
    decreases a.len() - i,
{
    if i < a.len() && j < b.len() && a[i] == b[j] {
        lemma_match_len_bound(a, b, i + 1, j + 1);
        let k = match_len(a, b, i, j) as int;
        assert forall|t: int| 0 <= t < k implies #[trigger] a.subrange(i, i + k)[t] == b.subrange(j, j + k)[t] by {
            if t > 0 {
                assert(a.subrange(i + 1, i + k)[t - 1] == b.subrange(j + 1, j + k)[t - 1]);
            }
        }
    }
}

/// `a[i..i + k]` and `b[j..j + k]` are the same run of characters.
pub open spec fn common_run(a: Seq<char>, b: Seq<char>, i: int, j: int, k: int) -> bool {
    &&& 0 <= i
    &&& 0 <= j
    &&& 0 <= k
    &&& i + k <= a.len()
    &&& j + k <= b.len()
    &&& a.subrange(i, i + k) == b.subrange(j, j + k)
}

proof fn lemma_common_run_match_len(a: Seq<char>, b: Seq<char>, i: int, j: int, k: int)
    requires
        common_run(a, b, i, j, k),
    ensures
        match_len(a, b, i, j) >= k,
    decreases k,
{
    if k > 0 {
        assert(a[i] == a.subrange(i, i + k)[0]);
        assert(b[j] == b.subrange(j, j + k)[0]);
        assert(a.subrange(i + 1, i + k) =~= a.subrange(i, i + k).subrange(1, k));
        assert(b.subrange(j + 1, j + k) =~= b.subrange(j, j + k).subrange(1, k));
        lemma_common_run_match_len(a, b, i + 1, j + 1, k - 1);
    }
}

/// The column of the first longest run starting in row `i` among columns `0..n`.
spec fn row_best(a: Seq<char>, b: Seq<char>, i: int, n: int) -> int
    decreases n,
{
    if n <= 1 {
        0
    } else {
        let j0 = row_best(a, b, i, n - 1);
        if match_len(a, b, i, n - 1) > match_len(a, b, i, j0) { n - 1 } else { j0 }
    }
}

proof fn lemma_row_best(a: Seq<char>, b: Seq<char>, i: int, n: int)
    requires
        1 <= n,
    ensures
        0 <= row_best(a, b, i, n) < n,
        forall|y: int| 0 <= y < n ==> #[trigger] match_len(a, b, i, y) <= match_len(a, b, i, row_best(a, b, i, n)),
        forall|y: int| 0 <= y < row_best(a, b, i, n) ==> #[trigger] match_len(a, b, i, y) < match_len(
            a,
            b,
            i,
            row_best(a, b, i, n),
        ),
    decreases n,
{
    if n > 1 {
        lemma_row_best(a, b, i, n - 1);
    }
}

/// The first longest run starting in rows `0..m`.
spec fn grid_best(a: Seq<char>, b: Seq<char>, m: int) -> (int, int)
    decreases m,
{
    if m <= 1 {
        (0, row_best(a, b, 0, b.len() as int))
    } else {
        let p = grid_best(a, b, m - 1);
        let rj = row_best(a, b, m - 1, b.len() as int);
        if match_len(a, b, m - 1, rj) > match_len(a, b, p.0, p.1) { (m - 1, rj) } else { p }
    }
}

proof fn lemma_grid_best(a: Seq<char>, b: Seq<char>, m: int)
    requires
        1 <= m <= a.len(),
        b.len() >= 1,
    ensures
        valid_pair(a, b, grid_best(a, b, m).0, grid_best(a, b, m).1),
        grid_best(a, b, m).0 < m,
        forall|x: int, y: int|
            0 <= x < m && 0 <= y < b.len() ==> #[trigger] match_len(a, b, x, y) <= match_len(
                a,
                b,
                grid_best(a, b, m).0,
                grid_best(a, b, m).1,
            ),
        forall|x: int, y: int|
            0 <= x < m && 0 <= y < b.len() && pair_before(x, y, grid_best(a, b, m).0, grid_best(a, b, m).1)
                ==> #[trigger] match_len(a, b, x, y) < match_len(a, b, grid_best(a, b, m).0, grid_best(a, b, m).1),
    decreases m,
{
    let n = b.len() as int;
    lemma_row_best(a, b, m - 1, n);
    if m > 1 {
        lemma_grid_best(a, b, m - 1);
    }
}

/// The longest run of `a` and `b`: there is a common run of `min_len` characters exactly
/// when the first longest run is at least that long, and then that run is common, no common
/// run is longer, and every common run as long starts at or after it in row-major order.
pub proof fn lemma_longest_match_law(a: Seq<char>, b: Seq<char>, min_len: int)
    requires
        min_len >= 1,
    ensures
        (longest_match(a, b).2 >= min_len) == (exists|i: int, j: int| #[trigger] common_run(a, b, i, j, min_len)),
        longest_match(a, b).2 >= min_len ==> {
            let m = longest_match(a, b);
            &&& common_run(a, b, m.0, m.1, m.2 as int)
            &&& forall|i: int, j: int, k: int| #[trigger] common_run(a, b, i, j, k) ==> k <= m.2
            &&& forall|i: int, j: int| #[trigger] common_run(a, b, i, j, m.2 as int) ==> !pair_before(i, j, m.0, m.1)
        },
{
    let m = longest_match(a, b);
    if a.len() >= 1 && b.len() >= 1 {
        lemma_grid_best(a, b, a.len() as int);
        let g = grid_best(a, b, a.len() as int);
        if match_len(a, b, g.0, g.1) > 0 {
            assert(is_first_longest(a, b, g.0, g.1));
            let p = choose|i: int, j: int| is_first_longest(a, b, i, j);
            lemma_first_longest_unique(a, b, p.0, p.1, g.0, g.1);
            assert(m == (g.0, g.1, match_len(a, b, g.0, g.1)));
        } else {
            assert(!(exists|i: int, j: int| is_first_longest(a, b, i, j)));
            assert(m.2 == 0);
        }
        // Every common run of positive length is no longer than the longest.
        assert forall|i: int, j: int, k: int| #[trigger] common_run(a, b, i, j, k) && k >= 1 implies k
            <= m.2 && match_len(a, b, i, j) >= k by {
            lemma_common_run_match_len(a, b, i, j, k);
            assert(valid_pair(a, b, i, j));
        }
    } else {
        assert(!(exists|i: int, j: int| is_first_longest(a, b, i, j)));
        assert forall|i: int, j: int, k: int| #[trigger] common_run(a, b, i, j, k) && k >= 1 implies false by {}
    }
    if m.2 >= min_len {
        lemma_match_len_bound(a, b, m.0, m.1);
        assert(a.subrange(m.0, m.0 + min_len) =~= a.subrange(m.0, m.0 + m.2).subrange(0, min_len));
        assert(b.subrange(m.1, m.1 + min_len) =~= b.subrange(m.1, m.1 + m.2).subrange(0, min_len));
        assert(common_run(a, b, m.0, m.1, min_len));
        assert forall|i: int, j: int| #[trigger] common_run(a, b, i, j, m.2 as int) implies !pair_before(
            i,
            j,
            m.0,
            m.1,
        ) by {
            lemma_common_run_match_len(a, b, i, j, m.2 as int);
        }
    }
}

/// Find the longest matching sub-slice between `a` and `b`: the first in row-major
/// order among the longest, as `(index_in_a, index_in_b, length)`, when its length
/// reaches `min_len`.
pub fn find_longest_match(a: &[char], b: &[char], min_len: usize) -> (r: Option<(usize, usize, usize)>)
    ensures
        ({
            let m = longest_match(a@, b@);
            match r {
                Some(t) => m.2 >= min_len && t.0 == m.0 && t.1 == m.1 && t.2 == m.2,
                None => m.2 < min_len,
            }
        }),
{
    let mut bi: usize = 0;
    let mut bj: usize = 0;
    let mut bk: usize = 0;
    let a_len = a.len();
    let b_len = b.len();
    let mut i: usize = 0;
    while i < a_len
        invariant
            a_len == a@.len(),
            b_len == b@.len(),
            i <= a@.len(),
            bk == 0 ==> bi == 0 && bj == 0,
            bk > 0 ==> valid_pair(a@, b@, bi as int, bj as int) && match_len(a@, b@, bi as int, bj as int) == bk
                && bi < i,
            forall|x: int, y: int|
                valid_pair(a@, b@, x, y) && x < i ==> #[trigger] match_len(a@, b@, x, y) <= bk,
            forall|x: int, y: int|
                valid_pair(a@, b@, x, y) && x < i && pair_before(x, y, bi as int, bj as int)
                    ==> #[trigger] match_len(a@, b@, x, y) < bk,
        decreases a@.len() - i,
    {
        let mut j: usize = 0;
        while j < b_len
            invariant
                a_len == a@.len(),
                b_len == b@.len(),
                i < a@.len(),
                j <= b@.len(),
                bk == 0 ==> bi == 0 && bj == 0,
                bk > 0 ==> valid_pair(a@, b@, bi as int, bj as int) && match_len(a@, b@, bi as int, bj as int) == bk
                    && pair_before(bi as int, bj as int, i as int, j as int),
                forall|x: int, y: int|
                    valid_pair(a@, b@, x, y) && pair_before(x, y, i as int, j as int)
                        ==> #[trigger] match_len(a@, b@, x, y) <= bk,
                forall|x: int, y: int|
                    valid_pair(a@, b@, x, y) && pair_before(x, y, i as int, j as int) && pair_before(
                        x,
                        y,
                        bi as int,
                        bj as int,
                    ) ==> #[trigger] match_len(a@, b@, x, y) < bk,
            decreases b@.len() - j,
        {
            let mut k: usize = 0;
            proof {
                lemma_match_len_bound(a@, b@, i as int, j as int);
            }
            while i + k < a_len && j + k < b_len && a[i + k] == b[j + k]
                invariant
                    i < a@.len(),
                    j < b@.len(),
                    a_len == a@.len(),
                    b_len == b@.len(),
                    i + k <= a@.len(),
                    j + k <= b@.len(),
                    k + match_len(a@, b@, i + k, j + k) == match_len(a@, b@, i as int, j as int),
                decreases a@.len() - i - k,
            {
                k += 1;
            }
            assert(k == match_len(a@, b@, i as int, j as int));
            if k > bk {
                bi = i;
                bj = j;
                bk = k;
            }
            j += 1;
        }
        i += 1;
    }
    proof {
        if bk > 0 {
            assert(is_first_longest(a@, b@, bi as int, bj as int));
            let p = choose|x: int, y: int| is_first_longest(a@, b@, x, y);
            lemma_first_longest_unique(a@, b@, p.0, p.1, bi as int, bj as int);
        } else {
            assert forall|x: int, y: int| !is_first_longest(a@, b@, x, y) by {
                if valid_pair(a@, b@, x, y) {
                    assert(match_len(a@, b@, x, y) <= bk);
                }
            }
        }
    }
    if bk >= min_len {
        Some((bi, bj, bk))
    } else {
        None
    }
}


/// Shortest run that counts as a matching block.
pub const MIN_MATCH: usize = 2;

/// The matching blocks of `old` and `new`, offset by `(oo, no)`: the first longest common
/// run (of at least `MIN_MATCH` characters), preceded by the blocks of what lies before it
/// on both sides and followed by the blocks of what lies after it.
pub open spec fn matching_blocks(old: Seq<char>, new: Seq<char>, oo: int, no: int) -> Seq<(int, int, int)>
    decreases old.len(),
{
    let m = longest_match(old, new);
    if m.2 >= MIN_MATCH {
        let oi = m.0;
        let ni = m.1;
        let k = m.2 as int;
        let left = if oi > 0 && ni > 0 {
            matching_blocks(old.take(oi), new.take(ni), oo, no)
        } else {
            Seq::empty()
        };
        let right = if oi + k < old.len() && ni + k < new.len() {
            matching_blocks(old.skip(oi + k), new.skip(ni + k), oo + oi + k, no + ni + k)
        } else {
            Seq::empty()
        };
        left.push((oo + oi, no + ni, k)) + right
    } else {
        Seq::empty()
    }
}

pub open spec fn triple_view(t: (usize, usize, usize)) -> (int, int, int) {
    (t.0 as int, t.1 as int, t.2 as int)
}

pub open spec fn triples_view(v: Seq<(usize, usize, usize)>) -> Seq<(int, int, int)> {
    v.map_values(|t: (usize, usize, usize)| triple_view(t))
}

/// Recursively find all matching blocks between old and new char slices.
/// Returns sorted `(old_idx, new_idx, length)` triples.
pub fn find_matching_blocks(
    old: &[char],
    new: &[char],
    old_offset: usize,
    new_offset: usize,
) -> (blocks: Vec<(usize, usize, usize)>)
    requires
        old_offset + old@.len() <= usize::MAX,
        new_offset + new@.len() <= usize::MAX,
    ensures
        triples_view(blocks@) == matching_blocks(old@, new@, old_offset as int, new_offset as int),
    decreases old@.len(),
{
    let ghost m = longest_match(old@, new@);
    match find_longest_match(old, new, MIN_MATCH) {
        Some((oi, ni, mlen)) => {
            proof {
                lemma_match_len_bound(old@, new@, oi as int, ni as int);
            }
            let mut blocks: Vec<(usize, usize, usize)> = Vec::new();
            if oi > 0 && ni > 0 {
                let mut left = find_matching_blocks(&old[0..oi], &new[0..ni], old_offset, new_offset);
                blocks.append(&mut left);
            }
            let ghost left_view = triples_view(blocks@);
            blocks.push((old_offset + oi, new_offset + ni, mlen));
            let ghost mid_view = triples_view(blocks@);
            assert(mid_view =~= left_view.push((old_offset + oi, new_offset + ni, mlen as int)));
            let ro = oi + mlen;
            let rn = ni + mlen;
            if ro < old.len() && rn < new.len() {
                let mut right = find_matching_blocks(
                    &old[ro..old.len()],
                    &new[rn..new.len()],
                    old_offset + ro,
                    new_offset + rn,
                );
                let ghost right_view = triples_view(right@);
                blocks.append(&mut right);
                assert(triples_view(blocks@) =~= mid_view + right_view);
            } else {
                assert(triples_view(blocks@) =~= mid_view + Seq::<(int, int, int)>::empty());
            }
            blocks
        },
        None => {
            assert(triples_view(Seq::<(usize, usize, usize)>::empty()) =~= Seq::<(int, int, int)>::empty());
            Vec::new()
        },
    }
}


/// Block `b = (old index, new index, length)` lies within `[x, xe)` of `old` and
/// `[y, ye)` of `new`, and the two runs it names are equal.
pub open spec fn block_in(
    old: Seq<char>,
    new: Seq<char>,
    b: (int, int, int),
    x: int,
    y: int,
    xe: int,
    ye: int,
) -> bool {
    &&& x <= b.0
    &&& y <= b.1
    &&& b.2 >= 1
    &&& b.0 + b.2 <= xe
    &&& b.1 + b.2 <= ye
    &&& old.subrange(b.0, b.0 + b.2) == new.subrange(b.1, b.1 + b.2)
}

/// Every block lies within the bounds and matches, and blocks come in increasing,
/// non-overlapping order on both sides.
pub open spec fn blocks_ok(
    old: Seq<char>,
    new: Seq<char>,
    bs: Seq<(int, int, int)>,
    x: int,
    y: int,
    xe: int,
    ye: int,
) -> bool {
    &&& forall|k: int| 0 <= k < bs.len() ==> block_in(old, new, #[trigger] bs[k], x, y, xe, ye)
    &&& forall|k1: int, k2: int|
        0 <= k1 < k2 < bs.len() ==> #[trigger] bs[k1].0 + bs[k1].2 <= #[trigger] bs[k2].0
            && bs[k1].1 + bs[k1].2 <= bs[k2].1
}

proof fn lemma_longest_match_props(a: Seq<char>, b: Seq<char>)
    requires
        longest_match(a, b).2 > 0,
    ensures
        is_first_longest(a, b, longest_match(a, b).0, longest_match(a, b).1),
{
}

/// The blocks of `o` and `n`, taken at `(oo, no)` in `old` and `new`, lie within those
/// ranges, match and are ordered.
proof fn lemma_matching_blocks_ok(
    old: Seq<char>,
    new: Seq<char>,
    o: Seq<char>,
    n: Seq<char>,
    oo: int,
    no: int,
)
    requires
        0 <= oo,
        0 <= no,
        oo + o.len() <= old.len(),
        no + n.len() <= new.len(),
        o == old.subrange(oo, oo + o.len()),
        n == new.subrange(no, no + n.len()),
    ensures
        blocks_ok(old, new, matching_blocks(o, n, oo, no), oo, no, oo + o.len(), no + n.len()),
    decreases o.len(),
{
    let m = longest_match(o, n);
    if m.2 >= MIN_MATCH {
        lemma_longest_match_props(o, n);
        let oi = m.0;
        let ni = m.1;
        let k = m.2 as int;
        lemma_match_len_bound(o, n, oi, ni);
        let mid = (oo + oi, no + ni, k);
        assert(old.subrange(oo + oi, oo + oi + k) =~= o.subrange(oi, oi + k));
        assert(new.subrange(no + ni, no + ni + k) =~= n.subrange(ni, ni + k));
        let left = if oi > 0 && ni > 0 {
            assert(o.take(oi) =~= old.subrange(oo, oo + oi));
            assert(n.take(ni) =~= new.subrange(no, no + ni));
            lemma_matching_blocks_ok(old, new, o.take(oi), n.take(ni), oo, no);
            matching_blocks(o.take(oi), n.take(ni), oo, no)
        } else {
            Seq::empty()
        };
        let right = if oi + k < o.len() && ni + k < n.len() {
            assert(o.skip(oi + k) =~= old.subrange(oo + oi + k, oo + o.len()));
            assert(n.skip(ni + k) =~= new.subrange(no + ni + k, no + n.len()));
            lemma_matching_blocks_ok(old, new, o.skip(oi + k), n.skip(ni + k), oo + oi + k, no + ni + k);
            matching_blocks(o.skip(oi + k), n.skip(ni + k), oo + oi + k, no + ni + k)
        } else {
            Seq::empty()
        };
        let all = left.push(mid) + right;
        assert(all == matching_blocks(o, n, oo, no));
        assert forall|q: int| 0 <= q < all.len() implies block_in(
            old,
            new,
            #[trigger] all[q],
            oo,
            no,
            oo + o.len(),
            no + n.len(),
        ) by {
            if q < left.len() {
                assert(all[q] == left[q]);
                assert(block_in(old, new, left[q], oo, no, oo + oi, no + ni));
            } else if q == left.len() {
                assert(all[q] == mid);
            } else {
                assert(all[q] == right[q - left.len() - 1]);
                assert(block_in(old, new, right[q - left.len() - 1], oo + oi + k, no + ni + k, oo + o.len(), no + n.len()));
            }
        }
        assert forall|k1: int, k2: int| 0 <= k1 < k2 < all.len() implies #[trigger] all[k1].0 + all[k1].2
            <= #[trigger] all[k2].0 && all[k1].1 + all[k1].2 <= all[k2].1 by {
            let l = left.len() as int;
            if k1 < l {
                assert(block_in(old, new, left[k1], oo, no, oo + oi, no + ni));
                if k2 < l {
                    assert(all[k2] == left[k2]);
                } else if k2 > l {
                    assert(all[k2] == right[k2 - l - 1]);
                    assert(block_in(old, new, right[k2 - l - 1], oo + oi + k, no + ni + k, oo + o.len(), no + n.len()));
                }
            } else if k1 == l {
                assert(all[k2] == right[k2 - l - 1]);
                assert(block_in(old, new, right[k2 - l - 1], oo + oi + k, no + ni + k, oo + o.len(), no + n.len()));
            } else {
                assert(all[k1] == right[k1 - l - 1]);
                assert(all[k2] == right[k2 - l - 1]);
            }
        }
    }
}

/// Every matching block of `o` and `n` is at least `MIN_MATCH` characters long.
proof fn lemma_blocks_min_len(o: Seq<char>, n: Seq<char>, oo: int, no: int)
    ensures
        forall|q: int|
            0 <= q < matching_blocks(o, n, oo, no).len() ==> #[trigger] matching_blocks(o, n, oo, no)[q].2
                >= MIN_MATCH,
    decreases o.len(),
{
    let m = longest_match(o, n);
    if m.2 >= MIN_MATCH {
        lemma_longest_match_props(o, n);
        let oi = m.0;
        let ni = m.1;
        let k = m.2 as int;
        lemma_match_len_bound(o, n, oi, ni);
        let mid = (oo + oi, no + ni, k);
        let left = if oi > 0 && ni > 0 {
            lemma_blocks_min_len(o.take(oi), n.take(ni), oo, no);
            matching_blocks(o.take(oi), n.take(ni), oo, no)
        } else {
            Seq::empty()
        };
        let right = if oi + k < o.len() && ni + k < n.len() {
            lemma_blocks_min_len(o.skip(oi + k), n.skip(ni + k), oo + oi + k, no + ni + k);
            matching_blocks(o.skip(oi + k), n.skip(ni + k), oo + oi + k, no + ni + k)
        } else {
            Seq::empty()
        };
        let all = left.push(mid) + right;
        assert(all == matching_blocks(o, n, oo, no));
        assert forall|q: int| 0 <= q < all.len() implies #[trigger] all[q].2 >= MIN_MATCH by {
            if q < left.len() {
                assert(all[q] == left[q]);
            } else if q > left.len() {
                assert(all[q] == right[q - left.len() - 1]);
            }
        }
    }
}

/// The matching blocks of two texts: each names equal runs of at least `MIN_MATCH`
/// characters in both texts, and they come in increasing, non-overlapping order on both
/// sides.
pub proof fn lemma_matching_blocks_laws(old: Seq<char>, new: Seq<char>)
    ensures
        blocks_ok(old, new, matching_blocks(old, new, 0, 0), 0, 0, old.len() as int, new.len() as int),
        forall|q: int|
            0 <= q < matching_blocks(old, new, 0, 0).len() ==> #[trigger] matching_blocks(old, new, 0, 0)[q].2
                >= MIN_MATCH,
{
    assert(old.subrange(0, old.len() as int) =~= old);
    assert(new.subrange(0, new.len() as int) =~= new);
    lemma_matching_blocks_ok(old, new, old, new, 0, 0);
    lemma_blocks_min_len(old, new, 0, 0);
}

/// The edit for the gap before a block at `(bo, bn)`, when there is one.
pub open spec fn gap_edit(oi: int, ni: int, bo: int, bn: int, new: Seq<char>) -> Seq<(int, int, Seq<char>)> {
    if oi < bo || ni < bn {
        seq![(oi, bo, new.subrange(ni, bn))]
    } else {
        Seq::empty()
    }
}

/// The edits that fill the gaps around `bs`, starting from `(oi, ni)`: each replaces the
/// old text between two blocks with the new text between them.
pub open spec fn edits_from(
    bs: Seq<(int, int, int)>,
    old_len: int,
    new: Seq<char>,
    oi: int,
    ni: int,
) -> Seq<(int, int, Seq<char>)>
    decreases bs.len(),
{
    if bs.len() == 0 {
        if oi < old_len || ni < new.len() {
            seq![(oi, old_len, new.subrange(ni, new.len() as int))]
        } else {
            Seq::empty()
        }
    } else {
        gap_edit(oi, ni, bs[0].0, bs[0].1, new) + edits_from(
            bs.drop_first(),
            old_len,
            new,
            bs[0].0 + bs[0].2,
            bs[0].1 + bs[0].2,
        )
    }
}

/// The edit regions that turn `old` into `new`: none when the texts are equal, otherwise
/// one for each gap around the matching blocks.
pub open spec fn edit_regions(old: Seq<char>, new: Seq<char>) -> Seq<(int, int, Seq<char>)> {
    if old == new {
        Seq::empty()
    } else {
        edits_from(matching_blocks(old, new, 0, 0), old.len() as int, new, 0, 0)
    }
}

/// The text that results from replacing, in `old` from `from` on, each region
/// `old[start..end]` of `edits` by its new text.
pub open spec fn apply_edits(old: Seq<char>, edits: Seq<(int, int, Seq<char>)>, from: int) -> Seq<char>
    decreases edits.len(),
{
    if edits.len() == 0 {
        old.subrange(from, old.len() as int)
    } else {
        old.subrange(from, edits[0].0) + edits[0].2 + apply_edits(old, edits.drop_first(), edits[0].1)
    }
}

/// Edits are ordered, disjoint, start at or after `from` and end within `old_len`.
pub open spec fn edits_wf(edits: Seq<(int, int, Seq<char>)>, from: int, old_len: int) -> bool {
    &&& forall|k: int| 0 <= k < edits.len() ==> from <= #[trigger] edits[k].0 <= edits[k].1 <= old_len
    &&& forall|k1: int, k2: int|
        0 <= k1 < k2 < edits.len() ==> #[trigger] edits[k1].1 <= #[trigger] edits[k2].0
}

/// No edit is empty: each removes old text or inserts new text.
pub open spec fn edits_nonempty(edits: Seq<(int, int, Seq<char>)>) -> bool {
    forall|k: int| 0 <= k < edits.len() ==> #[trigger] edits[k].0 < edits[k].1 || edits[k].2.len() > 0
}

proof fn lemma_blocks_ok_tail(
    old: Seq<char>,
    new: Seq<char>,
    bs: Seq<(int, int, int)>,
    x: int,
    y: int,
    xe: int,
    ye: int,
)
    requires
        bs.len() > 0,
        blocks_ok(old, new, bs, x, y, xe, ye),
    ensures
        blocks_ok(old, new, bs.drop_first(), bs[0].0 + bs[0].2, bs[0].1 + bs[0].2, xe, ye),
        block_in(old, new, bs[0], x, y, xe, ye),
{
    let t = bs.drop_first();
    assert forall|k: int| 0 <= k < t.len() implies block_in(
        old,
        new,
        #[trigger] t[k],
        bs[0].0 + bs[0].2,
        bs[0].1 + bs[0].2,
        xe,
        ye,
    ) by {
        assert(t[k] == bs[k + 1]);
        assert(block_in(old, new, bs[k + 1], x, y, xe, ye));
        assert(bs[0].0 + bs[0].2 <= bs[k + 1].0);
    }
    assert forall|k1: int, k2: int| 0 <= k1 < k2 < t.len() implies #[trigger] t[k1].0 + t[k1].2
        <= #[trigger] t[k2].0 && t[k1].1 + t[k1].2 <= t[k2].1 by {
        assert(t[k1] == bs[k1 + 1]);
        assert(t[k2] == bs[k2 + 1]);
        assert(bs[k1 + 1].0 + bs[k1 + 1].2 <= bs[k2 + 1].0);
    }
}

/// The edits from `(oi, ni)` are well formed, non-empty, and rebuild `new[ni..]`
/// from `old[oi..]`.
proof fn lemma_edits_from(old: Seq<char>, new: Seq<char>, bs: Seq<(int, int, int)>, oi: int, ni: int)
    requires
        0 <= oi <= old.len(),
        0 <= ni <= new.len(),
        blocks_ok(old, new, bs, oi, ni, old.len() as int, new.len() as int),
    ensures
        edits_wf(edits_from(bs, old.len() as int, new, oi, ni), oi, old.len() as int),
        edits_nonempty(edits_from(bs, old.len() as int, new, oi, ni)),
        apply_edits(old, edits_from(bs, old.len() as int, new, oi, ni), oi) == new.subrange(
            ni,
            new.len() as int,
        ),
    decreases bs.len(),
{
    let es = edits_from(bs, old.len() as int, new, oi, ni);
    if bs.len() == 0 {
        if oi < old.len() || ni < new.len() {
            assert(es.drop_first() =~= Seq::<(int, int, Seq<char>)>::empty());
            assert(apply_edits(old, es.drop_first(), old.len() as int) =~= Seq::<char>::empty());
            assert(apply_edits(old, es, oi) =~= new.subrange(ni, new.len() as int));
        } else {
            assert(apply_edits(old, es, oi) =~= new.subrange(ni, new.len() as int));
        }
    } else {
        let b = bs[0];
        lemma_blocks_ok_tail(old, new, bs, oi, ni, old.len() as int, new.len() as int);
        let eo = b.0 + b.2;
        let en = b.1 + b.2;
        lemma_edits_from(old, new, bs.drop_first(), eo, en);
        let rest = edits_from(bs.drop_first(), old.len() as int, new, eo, en);
        let g = gap_edit(oi, ni, b.0, b.1, new);
        assert(es == g + rest);
        // Shift the start of `rest` back over the block.
        lemma_apply_shift(old, rest, b.0, eo);
        assert(old.subrange(b.0, eo) == new.subrange(b.1, en));
        assert(apply_edits(old, rest, b.0) == new.subrange(b.1, en) + new.subrange(
            en,
            new.len() as int,
        ));
        assert(new.subrange(b.1, en) + new.subrange(en, new.len() as int) =~= new.subrange(
            b.1,
            new.len() as int,
        ));
        if oi < b.0 || ni < b.1 {
            assert(es[0] == (oi, b.0, new.subrange(ni, b.1)));
            assert(es.drop_first() =~= rest);
            assert(apply_edits(old, es, oi) == old.subrange(oi, oi) + new.subrange(ni, b.1)
                + apply_edits(old, rest, b.0));
            assert(apply_edits(old, es, oi) =~= new.subrange(ni, new.len() as int));
        } else {
            assert(es =~= rest);
            assert(apply_edits(old, es, oi) =~= new.subrange(ni, new.len() as int));
        }
        assert forall|k: int| 0 <= k < es.len() implies oi <= #[trigger] es[k].0 <= es[k].1
            <= old.len() by {
            if g.len() == 1 && k == 0 {
            } else {
                assert(es[k] == rest[k - g.len()]);
            }
        }
        assert forall|k1: int, k2: int| 0 <= k1 < k2 < es.len() implies #[trigger] es[k1].1
            <= #[trigger] es[k2].0 by {
            if g.len() == 1 && k1 == 0 {
                assert(es[k2] == rest[k2 - 1]);
            } else {
                assert(es[k1] == rest[k1 - g.len()]);
                assert(es[k2] == rest[k2 - g.len()]);
            }
        }
        assert forall|k: int| 0 <= k < es.len() implies #[trigger] es[k].0 < es[k].1
            || es[k].2.len() > 0 by {
            if g.len() == 1 && k == 0 {
            } else {
                assert(es[k] == rest[k - g.len()]);
            }
        }
    }
}

/// Between two of the edits from `(oi, ni)` lie at least `MIN_MATCH` characters of the old
/// text, when every block is at least that long.
proof fn lemma_edits_gap(old: Seq<char>, new: Seq<char>, bs: Seq<(int, int, int)>, oi: int, ni: int)
    requires
        0 <= oi <= old.len(),
        0 <= ni <= new.len(),
        blocks_ok(old, new, bs, oi, ni, old.len() as int, new.len() as int),
        forall|q: int| 0 <= q < bs.len() ==> #[trigger] bs[q].2 >= MIN_MATCH,
    ensures
        forall|k1: int, k2: int|
            0 <= k1 < k2 < edits_from(bs, old.len() as int, new, oi, ni).len() ==> #[trigger] edits_from(
                bs,
                old.len() as int,
                new,
                oi,
                ni,
            )[k1].1 + MIN_MATCH <= #[trigger] edits_from(bs, old.len() as int, new, oi, ni)[k2].0,
    decreases bs.len(),
{
    let es = edits_from(bs, old.len() as int, new, oi, ni);
    if bs.len() > 0 {
        let b = bs[0];
        lemma_blocks_ok_tail(old, new, bs, oi, ni, old.len() as int, new.len() as int);
        let eo = b.0 + b.2;
        let en = b.1 + b.2;
        let t = bs.drop_first();
        assert forall|q: int| 0 <= q < t.len() implies #[trigger] t[q].2 >= MIN_MATCH by {
            assert(t[q] == bs[q + 1]);
        }
        assert(b.2 >= MIN_MATCH) by {
            assert(bs[0].2 >= MIN_MATCH);
        }
        lemma_edits_from(old, new, t, eo, en);
        lemma_edits_gap(old, new, t, eo, en);
        let rest = edits_from(t, old.len() as int, new, eo, en);
        let g = gap_edit(oi, ni, b.0, b.1, new);
        assert(es == g + rest);
        assert forall|k1: int, k2: int| 0 <= k1 < k2 < es.len() implies #[trigger] es[k1].1 + MIN_MATCH
            <= #[trigger] es[k2].0 by {
            if g.len() == 1 && k1 == 0 {
                assert(es[k1].1 == b.0);
                assert(es[k2] == rest[k2 - 1]);
                assert(eo <= rest[k2 - 1].0);
            } else {
                assert(es[k1] == rest[k1 - g.len()]);
                assert(es[k2] == rest[k2 - g.len()]);
            }
        }
    }
}

/// Applying well-formed edits from an earlier position keeps the old text in between.
proof fn lemma_apply_shift(old: Seq<char>, edits: Seq<(int, int, Seq<char>)>, from: int, x: int)
    requires
        0 <= from <= x <= old.len(),
        edits_wf(edits, x, old.len() as int),
    ensures
        apply_edits(old, edits, from) == old.subrange(from, x) + apply_edits(old, edits, x),
{
    if edits.len() == 0 {
        assert(old.subrange(from, old.len() as int) =~= old.subrange(from, x) + old.subrange(
            x,
            old.len() as int,
        ));
    } else {
        assert(old.subrange(from, edits[0].0) =~= old.subrange(from, x) + old.subrange(
            x,
            edits[0].0,
        ));
    }
}

/// Applying the edit regions of `old` and `new` to `old` gives `new`; the regions are
/// ordered, disjoint and each changes something.
pub proof fn lemma_edit_regions_rebuild(old: Seq<char>, new: Seq<char>)
    ensures
        apply_edits(old, edit_regions(old, new), 0) == new,
        edits_wf(edit_regions(old, new), 0, old.len() as int),
        edits_nonempty(edit_regions(old, new)),
{
    assert(old.subrange(0, old.len() as int) =~= old);
    assert(new.subrange(0, new.len() as int) =~= new);
    if old != new {
        lemma_matching_blocks_ok(old, new, old, new, 0, 0);
        lemma_edits_from(old, new, matching_blocks(old, new, 0, 0), 0, 0);
    }
}


/// Between two edit regions of two texts lie at least `MIN_MATCH` characters of the old
/// text that are kept.
pub proof fn lemma_edit_regions_gap(old: Seq<char>, new: Seq<char>)
    ensures
        forall|k1: int, k2: int|
            0 <= k1 < k2 < edit_regions(old, new).len() ==> #[trigger] edit_regions(old, new)[k1].1 + MIN_MATCH
                <= #[trigger] edit_regions(old, new)[k2].0,
{
    if old != new {
        lemma_matching_blocks_laws(old, new);
        lemma_edits_gap(old, new, matching_blocks(old, new, 0, 0), 0, 0);
    }
}

/// A region of the old text to replace.
pub struct EditRegion {
    /// Char offset in the old text where this edit starts.
    pub old_start: usize,
    /// Char offset in the old text where this edit ends (exclusive).
    pub old_end: usize,
    /// Replacement text for the old_start..old_end range.
    pub new_text: String,
}

impl View for EditRegion {
    type V = (int, int, Seq<char>);

    open spec fn view(&self) -> (int, int, Seq<char>) {
        (self.old_start as int, self.old_end as int, self.new_text@)
    }
}

pub open spec fn regions_view(v: Seq<EditRegion>) -> Seq<(int, int, Seq<char>)> {
    v.map_values(|e: EditRegion| e@)
}

/// Compute the minimal set of edit regions needed to transform `old` into `new`.
pub fn compute_edit_regions(old: &str, new: &str) -> (edits: Vec<EditRegion>)
    ensures
        regions_view(edits@) == edit_regions(old@, new@),
        old@ == new@ ==> edits@.len() == 0,
{
    let old_c = chars_of(old);
    let new_c = chars_of(new);
    if chars_equal(old_c.as_slice(), new_c.as_slice()) {
        let none: Vec<EditRegion> = Vec::new();
        assert(regions_view(none@) =~= Seq::<(int, int, Seq<char>)>::empty());
        return none;
    }
    let old_len = old_c.len();
    let new_len = new_c.len();
    let blocks = find_matching_blocks(old_c.as_slice(), new_c.as_slice(), 0, 0);
    let ghost bs = triples_view(blocks@);
    proof {
        assert(bs.skip(0) =~= bs);
        assert(regions_view(Seq::<EditRegion>::empty()) =~= Seq::<(int, int, Seq<char>)>::empty());
        assert(old@.subrange(0, old@.len() as int) =~= old@);
        assert(new@.subrange(0, new@.len() as int) =~= new@);
        lemma_matching_blocks_ok(old@, new@, old@, new@, 0, 0);
    }
    let mut edits: Vec<EditRegion> = Vec::new();
    assert(regions_view(edits@) =~= Seq::<(int, int, Seq<char>)>::empty());
    let mut oi: usize = 0;
    let mut ni: usize = 0;
    let mut b: usize = 0;
    while b < blocks.len()
        invariant
            old_c@ == old@,
            new_c@ == new@,
            old_len == old@.len(),
            new_len == new@.len(),
            bs == triples_view(blocks@),
            b <= blocks@.len(),
            oi <= old@.len(),
            ni <= new@.len(),
            blocks_ok(old@, new@, bs.skip(b as int), oi as int, ni as int, old@.len() as int, new@.len() as int),
            regions_view(edits@) + edits_from(bs.skip(b as int), old@.len() as int, new@, oi as int, ni as int)
                == edit_regions(old@, new@),
        decreases blocks@.len() - b,
    {
        let (bo, bn, blen) = blocks[b];
        let ghost tail = bs.skip(b as int);
        proof {
            assert(tail[0] == triple_view(blocks@[b as int]));
            lemma_blocks_ok_tail(old@, new@, tail, oi as int, ni as int, old@.len() as int, new@.len() as int);
            assert(tail.drop_first() =~= bs.skip(b + 1));
        }
        let ghost before = regions_view(edits@);
        if oi < bo || ni < bn {
            let text = string_from_chars(&new_c.as_slice()[ni..bn]);
            edits.push(EditRegion { old_start: oi, old_end: bo, new_text: text });
            proof {
                assert(regions_view(edits@) =~= before + gap_edit(oi as int, ni as int, bo as int, bn as int, new@));
            }
        } else {
            proof {
                assert(regions_view(edits@) =~= before + gap_edit(oi as int, ni as int, bo as int, bn as int, new@));
            }
        }
        proof {
            assert(regions_view(edits@) + edits_from(bs.skip(b + 1), old@.len() as int, new@, (bo + blen) as int, (bn + blen) as int)
                =~= before + edits_from(tail, old@.len() as int, new@, oi as int, ni as int));
        }
        oi = bo + blen;
        ni = bn + blen;
        b += 1;
    }
    let ghost before = regions_view(edits@);
    proof {
        assert(bs.skip(b as int) =~= Seq::<(int, int, int)>::empty());
    }
    if oi < old_c.len() || ni < new_c.len() {
        let text = string_from_chars(&new_c.as_slice()[ni..new_c.len()]);
        edits.push(EditRegion { old_start: oi, old_end: old_c.len(), new_text: text });
        proof {
            assert(regions_view(edits@) =~= before + seq![(oi as int, old@.len() as int, new@.subrange(ni as int, new@.len() as int))]);
        }
    } else {
        proof {
            assert(regions_view(edits@) =~= before + Seq::<(int, int, Seq<char>)>::empty());
        }
    }
    edits
}


/// `t` with the `len` characters at `caret` replaced by `text`: what placing the caret,
/// selecting `len` characters to the right and typing `text` (or deleting the selection
/// when `text` is empty) does to a text field.
pub open spec fn replace_at(t: Seq<char>, caret: int, len: int, text: Seq<char>) -> Seq<char> {
    t.subrange(0, caret) + text + t.subrange(caret + len, t.len() as int)
}

/// The text after performing `steps = (caret, selection length, typed text)` in order.
pub open spec fn simulate_keystrokes(t: Seq<char>, steps: Seq<(int, int, Seq<char>)>) -> Seq<char>
    decreases steps.len(),
{
    if steps.len() == 0 {
        t
    } else {
        let s = steps.last();
        replace_at(simulate_keystrokes(t, steps.drop_last()), s.0, s.1, s.2)
    }
}

/// The keystroke steps for `edits`, last region first, so that earlier positions are not
/// shifted by later ones.
pub open spec fn steps_of(edits: Seq<(int, int, Seq<char>)>) -> Seq<(int, int, Seq<char>)> {
    Seq::new(
        edits.len(),
        |i: int|
            {
                let e = edits[edits.len() - 1 - i];
                (e.0, e.1 - e.0, e.2)
            },
    )
}

proof fn lemma_simulate_steps(t: Seq<char>, edits: Seq<(int, int, Seq<char>)>, from: int)
    requires
        0 <= from <= t.len(),
        edits_wf(edits, from, t.len() as int),
    ensures
        simulate_keystrokes(t, steps_of(edits)) == t.subrange(0, from) + apply_edits(t, edits, from),
    decreases edits.len(),
{
    if edits.len() == 0 {
        assert(steps_of(edits) =~= Seq::<(int, int, Seq<char>)>::empty());
        assert(t =~= t.subrange(0, from) + t.subrange(from, t.len() as int));
    } else {
        let e0 = edits[0];
        assert(from <= edits[0].0 <= edits[0].1 <= t.len());
        let rest = edits.drop_first();
        assert forall|k: int| 0 <= k < rest.len() implies e0.1 <= #[trigger] rest[k].0 <= rest[k].1
            <= t.len() by {
            assert(rest[k] == edits[k + 1]);
            assert(edits[0].1 <= edits[k + 1].0);
        }
        assert forall|k1: int, k2: int| 0 <= k1 < k2 < rest.len() implies #[trigger] rest[k1].1
            <= #[trigger] rest[k2].0 by {
            assert(rest[k1] == edits[k1 + 1]);
            assert(rest[k2] == edits[k2 + 1]);
        }
        lemma_simulate_steps(t, rest, e0.1);
        let steps = steps_of(edits);
        assert(steps.drop_last() =~= steps_of(rest));
        assert(steps.last() == (e0.0, e0.1 - e0.0, e0.2));
        let u = simulate_keystrokes(t, steps_of(rest));
        assert(u == t.subrange(0, e0.1) + apply_edits(t, rest, e0.1));
        assert(u.subrange(0, e0.0) =~= t.subrange(0, e0.0));
        assert(u.subrange(e0.1, u.len() as int) =~= apply_edits(t, rest, e0.1));
        assert(t.subrange(0, e0.0) =~= t.subrange(0, from) + t.subrange(from, e0.0));
        assert(simulate_keystrokes(t, steps) =~= t.subrange(0, from) + apply_edits(t, edits, from));
    }
}

/// One step of a keystroke-driven write: place the caret, select `select_len` characters
/// to the right, then type `text` over the selection (or delete it when `text` is empty).
pub struct KeystrokeEdit {
    pub caret: usize,
    pub select_len: usize,
    pub text: String,
}

impl View for KeystrokeEdit {
    type V = (int, int, Seq<char>);

    open spec fn view(&self) -> (int, int, Seq<char>) {
        (self.caret as int, self.select_len as int, self.text@)
    }
}

pub open spec fn keystrokes_view(v: Seq<KeystrokeEdit>) -> Seq<(int, int, Seq<char>)> {
    v.map_values(|e: KeystrokeEdit| e@)
}

/// The keystroke steps that turn the field text `current` into `desired`: none when they
/// already agree, otherwise the edit regions of the two texts, last region first.
pub fn smart_write_steps(current: &str, desired: &str) -> (steps: Vec<KeystrokeEdit>)
    ensures
        keystrokes_view(steps@) == (if current@ == desired@ {
            Seq::empty()
        } else {
            steps_of(edit_regions(current@, desired@))
        }),
        simulate_keystrokes(current@, keystrokes_view(steps@)) == desired@,
{
    let cur = chars_of(current);
    let des = chars_of(desired);
    let mut steps: Vec<KeystrokeEdit> = Vec::new();
    if chars_equal(cur.as_slice(), des.as_slice()) {
        assert(keystrokes_view(steps@) =~= Seq::<(int, int, Seq<char>)>::empty());
        return steps;
    }
    let edits = compute_edit_regions(current, desired);
    let ghost es = regions_view(edits@);
    proof {
        lemma_edit_regions_rebuild(current@, desired@);
        lemma_simulate_steps(current@, es, 0);
        assert(current@.subrange(0, 0) + apply_edits(current@, es, 0) =~= desired@);
    }
    let mut i: usize = edits.len();
    while i > 0
        invariant
            i <= edits@.len(),
            es == regions_view(edits@),
            es == edit_regions(current@, desired@),
            edits_wf(es, 0, current@.len() as int),
            keystrokes_view(steps@) =~= steps_of(es).take((edits@.len() - i) as int),
        decreases i,
    {
        i -= 1;
        let e = &edits[i];
        proof {
            assert(0 <= es[i as int].0 <= es[i as int].1);
        }
        let ghost before = keystrokes_view(steps@);
        steps.push(KeystrokeEdit { caret: e.old_start, select_len: e.old_end - e.old_start, text: e.new_text.clone() });
        proof {
            assert(keystrokes_view(steps@) =~= before.push(steps_of(es)[(edits@.len() - 1 - i) as int]));
        }
    }
    assert(steps_of(es).take(edits@.len() as int) =~= steps_of(es));
    steps
}

} // verus!
