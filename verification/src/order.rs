//! Arranging records by a timestamp, newest first.
//!
//! An arrangement is a sequence of positions: where it holds `k` at index
//! `i`, the record at position `k` of the source comes out at index `i`.
//! Records whose timestamps are equal keep the order of their positions,
//! so that every sequence of timestamps has exactly one arrangement.

use crate::time::Timestamp;
use vstd::prelude::*;

verus! {

/// `p` names every position below `n`, each exactly once.
pub open spec fn is_arrangement(p: Seq<int>, n: nat) -> bool {
    &&& p.len() == n
    &&& forall|i: int| 0 <= i < n ==> 0 <= #[trigger] p[i] < n
    &&& forall|i: int, j: int| 0 <= i < j < n ==> p[i] != p[j]
    &&& forall|k: int| 0 <= k < n ==> #[trigger] p.contains(k)
}

/// The record at position `a` is listed ahead of the one at position `b`:
/// it is newer, or as new and at the smaller position.
pub open spec fn comes_first(keys: Seq<Timestamp>, a: int, b: int) -> bool {
    keys[a].after(keys[b]) || (keys[a] == keys[b] && a < b)
}

/// `p` arranges the first `upto` positions of `keys` newest first.
pub open spec fn newest_first_upto(p: Seq<int>, keys: Seq<Timestamp>, upto: nat) -> bool {
    &&& is_arrangement(p, upto)
    &&& forall|i: int, j: int|
        0 <= i < j < upto ==> comes_first(keys, #[trigger] p[i], #[trigger] p[j])
}

/// `p` arranges all positions of `keys` newest first.
pub open spec fn newest_first(p: Seq<int>, keys: Seq<Timestamp>) -> bool {
    newest_first_upto(p, keys, keys.len())
}

/// The arrangement of `keys` newest first.
pub open spec fn newest_first_arrangement(keys: Seq<Timestamp>) -> Seq<int> {
    choose|p: Seq<int>| newest_first(p, keys)
}

/// The items of `s` in the order that `p` gives.
pub open spec fn arranged<T>(s: Seq<T>, p: Seq<int>) -> Seq<T> {
    Seq::new(p.len(), |i: int| s[p[i]])
}

/// The positions that a vector of indices holds.
pub open spec fn positions(order: Seq<usize>) -> Seq<int> {
    order.map_values(|k: usize| k as int)
}

/// Position `k` may join an arrangement of the positions below it at index
/// `pos`, where everything ahead of `pos` is at least as new as `k` and
/// what stands at `pos` is older.
proof fn lemma_insert_keeps_order(p: Seq<int>, keys: Seq<Timestamp>, k: int, pos: int)
    requires
        0 <= k < keys.len(),
        newest_first_upto(p, keys, k as nat),
        0 <= pos <= p.len(),
        forall|i: int| 0 <= i < pos ==> !keys[#[trigger] p[i]].before(keys[k]),
        pos < p.len() ==> keys[p[pos]].before(keys[k]),
    ensures
        newest_first_upto(p.insert(pos, k), keys, (k + 1) as nat),
{
    let after = p.insert(pos, k);
    assert forall|i: int| 0 <= i < k + 1 implies 0 <= #[trigger] after[i] < k + 1 by {
        if i < pos {
            assert(after[i] == p[i]);
        } else if i > pos {
            assert(after[i] == p[i - 1]);
        }
    }
    assert forall|m: int| 0 <= m < k + 1 implies #[trigger] after.contains(m) by {
        if m == k {
            assert(after[pos] == m);
        } else {
            assert(p.contains(m));
            let i: int = choose|i: int| 0 <= i < p.len() && p[i] == m;
            if i < pos {
                assert(after[i] == m);
            } else {
                assert(after[i + 1] == m);
            }
        }
    }
    assert forall|i: int, j: int| 0 <= i < j < k + 1 implies comes_first(
        keys,
        #[trigger] after[i],
        #[trigger] after[j],
    ) && after[i] != after[j] by {
        let a: int = if i < pos { i } else { i - 1 };
        let b: int = if j < pos { j } else { j - 1 };
        if i != pos {
            assert(after[i] == p[a]);
        }
        if j != pos {
            assert(after[j] == p[b]);
        }
        if i != pos && j != pos {
            assert(comes_first(keys, p[a], p[b]));
        } else if j == pos {
            assert(!keys[p[a]].before(keys[k]));
        } else if pos < p.len() {
            assert(keys[p[pos]].before(keys[k]));
            if b != pos {
                assert(comes_first(keys, p[pos], p[b]));
            }
        }
    }
}

/// The first index at or after `from` at which `p` names a position whose
/// timestamp is older than that of position `k`; the length of `p` where
/// there is none.
spec fn first_older(p: Seq<int>, keys: Seq<Timestamp>, k: int, from: int) -> int
    decreases p.len() - from,
{
    if from < 0 || from >= p.len() || keys[p[from]].before(keys[k]) {
        from
    } else {
        first_older(p, keys, k, from + 1)
    }
}

proof fn lemma_first_older(p: Seq<int>, keys: Seq<Timestamp>, k: int, from: int)
    requires
        0 <= from <= p.len(),
    ensures
        from <= first_older(p, keys, k, from) <= p.len(),
        forall|i: int|
            from <= i < first_older(p, keys, k, from) ==> !keys[#[trigger] p[i]].before(keys[k]),
        first_older(p, keys, k, from) < p.len() ==> keys[p[first_older(p, keys, k, from)]].before(
            keys[k],
        ),
    decreases p.len() - from,
{
    if from < p.len() && !keys[p[from]].before(keys[k]) {
        lemma_first_older(p, keys, k, from + 1);
    }
}

/// An arrangement of the first `upto` positions, built one position at a
/// time.
spec fn built_upto(keys: Seq<Timestamp>, upto: nat) -> Seq<int>
    decreases upto,
{
    if upto == 0 {
        Seq::<int>::empty()
    } else {
        let p = built_upto(keys, (upto - 1) as nat);
        p.insert(first_older(p, keys, upto - 1, 0), upto - 1)
    }
}

proof fn lemma_built_upto(keys: Seq<Timestamp>, upto: nat)
    requires
        upto <= keys.len(),
    ensures
        newest_first_upto(built_upto(keys, upto), keys, upto),
    decreases upto,
{
    if upto > 0 {
        let k: int = upto - 1;
        let p = built_upto(keys, k as nat);
        lemma_built_upto(keys, k as nat);
        lemma_first_older(p, keys, k, 0);
        lemma_insert_keeps_order(p, keys, k, first_older(p, keys, k, 0));
    }
}

/// Timestamps can always be arranged newest first.
pub proof fn lemma_newest_first_exists(keys: Seq<Timestamp>)
    ensures
        newest_first(newest_first_arrangement(keys), keys),
{
    lemma_built_upto(keys, keys.len());
    assert(newest_first(built_upto(keys, keys.len()), keys));
}

proof fn lemma_arrangements_agree(
    p: Seq<int>,
    q: Seq<int>,
    keys: Seq<Timestamp>,
    upto: int,
)
    requires
        newest_first(p, keys),
        newest_first(q, keys),
        0 <= upto <= keys.len(),
    ensures
        forall|i: int| 0 <= i < upto ==> p[i] == q[i],
    decreases upto,
{
    if upto > 0 {
        lemma_arrangements_agree(p, q, keys, upto - 1);
        let i: int = upto - 1;
        let a: int = p[i];
        let b: int = q[i];
        if a != b {
            assert(q.contains(a));
            let m: int = choose|m: int| 0 <= m < q.len() && q[m] == a;
            assert(m > i) by {
                if m < i {
                    assert(p[m] == q[m]);
                }
            }
            assert(comes_first(keys, q[i], q[m]));
            assert(p.contains(b));
            let n: int = choose|n: int| 0 <= n < p.len() && p[n] == b;
            assert(n > i) by {
                if n < i {
                    assert(p[n] == q[n]);
                }
            }
            assert(comes_first(keys, p[i], p[n]));
            assert(false);
        }
    }
}

/// There is one way only to arrange given timestamps newest first.
pub proof fn lemma_newest_first_is_unique(p: Seq<int>, q: Seq<int>, keys: Seq<Timestamp>)
    requires
        newest_first(p, keys),
        newest_first(q, keys),
    ensures
        p == q,
{
    lemma_arrangements_agree(p, q, keys, keys.len() as int);
    assert(p =~= q);
}

/// Arranging moves items and neither adds nor drops one.
pub proof fn lemma_arranged_holds_the_same<T>(s: Seq<T>, p: Seq<int>)
    requires
        is_arrangement(p, s.len()),
    ensures
        arranged(s, p).len() == s.len(),
        forall|x: T| arranged(s, p).contains(x) <==> s.contains(x),
{
    let out = arranged(s, p);
    assert forall|x: T| out.contains(x) <==> s.contains(x) by {
        if out.contains(x) {
            let i = choose|i: int| 0 <= i < out.len() && out[i] == x;
            assert(s[p[i]] == x);
        }
        if s.contains(x) {
            let k = choose|k: int| 0 <= k < s.len() && s[k] == x;
            assert(p.contains(k));
            let i = choose|i: int| 0 <= i < p.len() && p[i] == k;
            assert(out[i] == x);
        }
    }
}

/// Arranges the positions of `keys` newest first.
pub fn newest_first_order(keys: &Vec<Timestamp>) -> (order: Vec<usize>)
    ensures
        positions(order@) == newest_first_arrangement(keys@),
        newest_first(positions(order@), keys@),
{
    let mut order: Vec<usize> = Vec::new();
    let mut k: usize = 0;
    while k < keys.len()
        invariant
            k <= keys.len(),
            newest_first_upto(positions(order@), keys@, k as nat),
        decreases keys.len() - k,
    {
        let mut pos: usize = 0;
        assert forall|i: int| 0 <= i < order@.len() implies #[trigger] order@[i] < k by {
            assert(positions(order@)[i] == order@[i]);
        }
        while pos < order.len() && !keys[order[pos]].is_before(&keys[k])
            invariant
                k < keys.len(),
                pos <= order.len(),
                forall|i: int| 0 <= i < order@.len() ==> #[trigger] order@[i] < k,
                newest_first_upto(positions(order@), keys@, k as nat),
                forall|i: int|
                    0 <= i < pos ==> !keys@[#[trigger] positions(order@)[i]].before(
                        keys@[k as int],
                    ),
            decreases order.len() - pos,
        {
            pos += 1;
        }
        proof {
            lemma_insert_keeps_order(positions(order@), keys@, k as int, pos as int);
            assert(positions(order@.insert(pos as int, k)) =~= positions(order@).insert(
                pos as int,
                k as int,
            ));
        }
        order.insert(pos, k);
        k += 1;
    }
    proof {
        assert(newest_first(positions(order@), keys@));
        lemma_newest_first_is_unique(positions(order@), newest_first_arrangement(keys@), keys@);
    }
    order
}

} // verus!
