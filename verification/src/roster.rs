//! The order of registration: sequences of peer addresses without repeats,
//! and what admission and removal do to them.

use vstd::prelude::*;
use crate::addr::PeerAddr;

verus! {

/// The test that every address but `a` passes.
pub open spec fn differs_from(a: PeerAddr) -> spec_fn(PeerAddr) -> bool {
    |x: PeerAddr| x != a
}

/// The addresses of `s` other than `a`, in the order of `s`.
pub open spec fn others(s: Seq<PeerAddr>, a: PeerAddr) -> Seq<PeerAddr> {
    s.filter(differs_from(a))
}

/// `s` once `a` is registered: `a` keeps its place if it has one, and comes
/// last if it has none.
pub open spec fn with_addr(s: Seq<PeerAddr>, a: PeerAddr) -> Seq<PeerAddr> {
    if s.contains(a) {
        s
    } else {
        s.push(a)
    }
}

/// Appending `x` to `s` appends it to the others too, unless `x` is `a`.
pub proof fn lemma_others_push(s: Seq<PeerAddr>, x: PeerAddr, a: PeerAddr)
    ensures
        others(s.push(x), a) == if x != a {
            others(s, a).push(x)
        } else {
            others(s, a)
        },
{
    s.lemma_filter_push(x, differs_from(a));
}

/// Nothing is left of nothing.
pub proof fn lemma_others_empty(a: PeerAddr)
    ensures
        others(Seq::<PeerAddr>::empty(), a) == Seq::<PeerAddr>::empty(),
{
    reveal(Seq::filter);
}

/// The others of `s` are exactly the members of `s` that differ from `a`.
pub proof fn lemma_others_members(s: Seq<PeerAddr>, a: PeerAddr)
    ensures
        forall|x: PeerAddr| #[trigger] others(s, a).contains(x) <==> (s.contains(x) && x != a),
    decreases s.len(),
{
    if s.len() == 0 {
        lemma_others_empty(a);
        assert(s =~= Seq::<PeerAddr>::empty());
    } else {
        let front = s.drop_last();
        let last = s.last();
        assert(s =~= front.push(last));
        lemma_others_members(front, a);
        lemma_others_push(front, last, a);
        assert forall|x: PeerAddr| #[trigger] others(s, a).contains(x) <==> (s.contains(x) && x != a) by {
            if others(s, a).contains(x) {
                let i = choose|i: int| 0 <= i < others(s, a).len() && others(s, a)[i] == x;
                if last != a && i == others(front, a).len() {
                    assert(s[s.len() - 1] == x);
                } else {
                    assert(others(front, a)[i] == x);
                    assert(others(front, a).contains(x));
                    let j = choose|j: int| 0 <= j < front.len() && front[j] == x;
                    assert(s[j] == x);
                }
            }
            if s.contains(x) && x != a {
                let j = choose|j: int| 0 <= j < s.len() && s[j] == x;
                if j == s.len() - 1 {
                    assert(others(s, a)[others(front, a).len() as int] == x);
                } else {
                    assert(front[j] == x);
                    assert(front.contains(x));
                    assert(others(front, a).contains(x));
                    let i = choose|i: int| 0 <= i < others(front, a).len() && others(front, a)[i] == x;
                    assert(others(s, a)[i] == x);
                }
            }
        }
    }
}

/// Where `a` is not in `s`, the others of `s` are all of `s`.
pub proof fn lemma_others_absent(s: Seq<PeerAddr>, a: PeerAddr)
    requires
        !s.contains(a),
    ensures
        others(s, a) == s,
    decreases s.len(),
{
    if s.len() == 0 {
        lemma_others_empty(a);
        assert(s =~= Seq::<PeerAddr>::empty());
    } else {
        let front = s.drop_last();
        let last = s.last();
        assert(s =~= front.push(last));
        assert(s[s.len() - 1] == last);
        assert forall|i: int| 0 <= i < front.len() implies front[i] != a by {
            assert(s[i] == front[i]);
        }
        lemma_others_absent(front, a);
        lemma_others_push(front, last, a);
    }
}

/// The others of a sequence without repeats have no repeats.
pub proof fn lemma_others_no_duplicates(s: Seq<PeerAddr>, a: PeerAddr)
    requires
        s.no_duplicates(),
    ensures
        others(s, a).no_duplicates(),
    decreases s.len(),
{
    if s.len() == 0 {
        lemma_others_empty(a);
        assert(s =~= Seq::<PeerAddr>::empty());
    } else {
        let front = s.drop_last();
        let last = s.last();
        assert(s =~= front.push(last));
        lemma_others_no_duplicates(front, a);
        lemma_others_push(front, last, a);
        lemma_others_members(front, a);
        if last != a {
            assert(!front.contains(last));
            assert(!others(front, a).contains(last));
        }
    }
}

/// Where `a` is in a sequence without repeats, the others are one fewer.
pub proof fn lemma_others_len(s: Seq<PeerAddr>, a: PeerAddr)
    requires
        s.no_duplicates(),
        s.contains(a),
    ensures
        others(s, a).len() == s.len() - 1,
    decreases s.len(),
{
    let front = s.drop_last();
    let last = s.last();
    assert(s =~= front.push(last));
    lemma_others_push(front, last, a);
    if last == a {
        assert(!front.contains(a));
        lemma_others_absent(front, a);
    } else {
        let j = choose|j: int| 0 <= j < s.len() && s[j] == a;
        assert(front[j] == a);
        lemma_others_len(front, a);
    }
}

/// In a sequence without repeats, taking out the element at `i` leaves the
/// others of that element.
pub proof fn lemma_others_remove(s: Seq<PeerAddr>, i: int)
    requires
        s.no_duplicates(),
        0 <= i < s.len(),
    ensures
        s.remove(i) == others(s, s[i]),
    decreases s.len(),
{
    let a = s[i];
    let front = s.drop_last();
    let last = s.last();
    assert(s =~= front.push(last));
    lemma_others_push(front, last, a);
    if i == s.len() - 1 {
        assert(!front.contains(a));
        lemma_others_absent(front, a);
        assert(s.remove(i) =~= front);
    } else {
        lemma_others_remove(front, i);
        assert(s.remove(i) =~= front.remove(i).push(last));
    }
}

/// Removing the same address twice leaves what removing it once leaves.
pub proof fn lemma_others_twice(s: Seq<PeerAddr>, a: PeerAddr)
    ensures
        others(others(s, a), a) == others(s, a),
{
    lemma_others_members(s, a);
    lemma_others_absent(others(s, a), a);
}

} // verus!
