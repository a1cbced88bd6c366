//! Facts about a sequence without one of its items, and about the part of a
//! sequence that a predicate keeps.

use vstd::prelude::*;

verus! {

/// The position that the item at position `i` had before the item at
/// position `at` was removed.
pub open spec fn before_removal(i: int, at: int) -> int {
    if i < at {
        i
    } else {
        i + 1
    }
}

/// A sequence without the item at position `at` holds the other items, in
/// their order.
pub proof fn lemma_removal<T>(s: Seq<T>, at: int)
    requires
        0 <= at < s.len(),
    ensures
        s.remove(at).len() == s.len() - 1,
        forall|i: int|
            0 <= i < s.len() - 1 ==> #[trigger] s.remove(at)[i] == s[before_removal(i, at)],
        forall|x: T|
            #![trigger s.remove(at).contains(x)]
            s.remove(at).contains(x) <==> exists|k: int| 0 <= k < s.len() && k != at && s[k] == x,
{
    let rest = s.remove(at);
    assert forall|x: T| #![trigger rest.contains(x)] rest.contains(x) <==> exists|k: int|
        0 <= k < s.len() && k != at && s[k] == x by {
        if rest.contains(x) {
            let i = choose|i: int| 0 <= i < rest.len() && rest[i] == x;
            assert(s[before_removal(i, at)] == x);
        }
        if exists|k: int| 0 <= k < s.len() && k != at && s[k] == x {
            let k = choose|k: int| 0 <= k < s.len() && k != at && s[k] == x;
            assert(rest[if k < at { k } else { k - 1 }] == x);
        }
    }
}

/// What the item at position `i` adds to the kept part of the items before
/// it.
pub proof fn lemma_filter_next<T>(s: Seq<T>, keep: spec_fn(T) -> bool, i: int)
    requires
        0 <= i < s.len(),
    ensures
        s.take(i + 1).filter(keep) == if keep(s[i]) {
            s.take(i).filter(keep).push(s[i])
        } else {
            s.take(i).filter(keep)
        },
{
    reveal_with_fuel(Seq::filter, 2);
    assert(s.take(i + 1).drop_last() =~= s.take(i));
}

/// The kept part holds the items that the predicate keeps, and no others.
pub proof fn lemma_filter_holds<T>(s: Seq<T>, keep: spec_fn(T) -> bool)
    ensures
        forall|x: T|
            #![trigger s.filter(keep).contains(x)]
            s.filter(keep).contains(x) <==> s.contains(x) && keep(x),
    decreases s.len(),
{
    reveal_with_fuel(Seq::filter, 2);
    let kept = s.filter(keep);
    if s.len() > 0 {
        let rest = s.drop_last();
        let kept_rest = rest.filter(keep);
        lemma_filter_holds(rest, keep);
        assert forall|x: T| #![trigger kept.contains(x)] kept.contains(x) <==> s.contains(x)
            && keep(x) by {
            if kept.contains(x) {
                let i = choose|i: int| 0 <= i < kept.len() && kept[i] == x;
                if i < kept_rest.len() {
                    assert(kept_rest[i] == x);
                    assert(kept_rest.contains(x));
                    let j = choose|j: int| 0 <= j < rest.len() && rest[j] == x;
                    assert(s[j] == x);
                } else {
                    assert(s[s.len() - 1] == x);
                }
            }
            if s.contains(x) && keep(x) {
                let j = choose|j: int| 0 <= j < s.len() && s[j] == x;
                if j < rest.len() {
                    assert(rest[j] == x);
                    assert(rest.contains(x));
                    assert(kept_rest.contains(x));
                    let i = choose|i: int| 0 <= i < kept_rest.len() && kept_rest[i] == x;
                    assert(kept[i] == x);
                } else {
                    assert(kept[kept.len() - 1] == x);
                }
            }
        }
    }
}

} // verus!
