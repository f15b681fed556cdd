//! One side of a book: resting orders in priority order, best first.

use vstd::prelude::*;
use crate::asset::Asset;
use crate::order::{Order, OrderSide, OrderUuid};

verus! {

/// Every order stands before all that follow it: strict price-time priority.
pub open spec fn sorted(s: Seq<Order>) -> bool {
    forall|i: int, j: int| 0 <= i < j < s.len() ==> #[trigger] s[i].outranks(#[trigger] s[j])
}

/// No identifier occurs twice.
pub open spec fn distinct_ids(s: Seq<Order>) -> bool {
    forall|i: int, j: int|
        0 <= i < s.len() && 0 <= j < s.len() && i != j ==> (#[trigger] s[i]).id != (#[trigger] s[j]).id
}

/// Every order is one that may rest, on the given asset and side.
pub open spec fn all_live(s: Seq<Order>, asset: Asset, side: OrderSide) -> bool {
    forall|i: int|
        0 <= i < s.len() ==> {
            &&& (#[trigger] s[i]).live()
            &&& s[i].asset == asset
            &&& s[i].side == side
        }
}

/// The invariant of a side.
pub open spec fn side_wf(s: Seq<Order>, asset: Asset, side: OrderSide) -> bool {
    &&& all_live(s, asset, side)
    &&& sorted(s)
    &&& distinct_ids(s)
}

/// Every sequence number on the side is below `seq`.
pub open spec fn below(s: Seq<Order>, seq: u64) -> bool {
    forall|i: int| 0 <= i < s.len() ==> (#[trigger] s[i]).seq < seq
}

/// Whether an order with identifier `id` is on the side.
pub open spec fn on_side(s: Seq<Order>, id: OrderUuid) -> bool {
    exists|i: int| 0 <= i < s.len() && (#[trigger] s[i]).id == id
}

/// Index of the first order with identifier `id`; the length if there is none.
pub open spec fn position(s: Seq<Order>, id: OrderUuid) -> int
    decreases s.len(),
{
    if s.len() == 0 || s[0].id == id {
        0
    } else {
        1 + position(s.skip(1), id)
    }
}

/// The side without the order `id`, the others in their places.
pub open spec fn without(s: Seq<Order>, id: OrderUuid) -> Seq<Order> {
    if on_side(s, id) {
        s.remove(position(s, id))
    } else {
        s
    }
}

/// Index of the first order that `o` stands before; the length if there is none.
pub open spec fn rest_index(s: Seq<Order>, o: Order) -> int
    decreases s.len(),
{
    if s.len() == 0 || o.outranks(s[0]) {
        0
    } else {
        1 + rest_index(s.skip(1), o)
    }
}

/// The side with `o` resting behind every order that it does not outrank.
pub open spec fn rested(s: Seq<Order>, o: Order) -> Seq<Order> {
    s.insert(rest_index(s, o), o)
}

/// `position` is the first index that holds `id`.
pub proof fn lemma_position(s: Seq<Order>, id: OrderUuid)
    ensures
        0 <= position(s, id) <= s.len(),
        position(s, id) < s.len() ==> s[position(s, id)].id == id,
        forall|j: int| 0 <= j < position(s, id) ==> (#[trigger] s[j]).id != id,
        on_side(s, id) <==> position(s, id) < s.len(),
    decreases s.len(),
{
    if s.len() == 0 || s[0].id == id {
    } else {
        let t = s.skip(1);
        lemma_position(t, id);
        assert forall|j: int| 0 <= j < position(s, id) implies (#[trigger] s[j]).id != id by {
            if j > 0 {
                assert(t[j - 1] == s[j]);
            }
        }
        if position(s, id) < s.len() {
            assert(t[position(t, id)] == s[position(s, id)]);
        }
        if on_side(s, id) {
            let i = choose|i: int| 0 <= i < s.len() && (#[trigger] s[i]).id == id;
            assert(t[i - 1] == s[i]);
        }
    }
}

/// `rest_index` is the first index whose order `o` outranks.
pub proof fn lemma_rest_index(s: Seq<Order>, o: Order)
    ensures
        0 <= rest_index(s, o) <= s.len(),
        rest_index(s, o) < s.len() ==> o.outranks(s[rest_index(s, o)]),
        forall|j: int| 0 <= j < rest_index(s, o) ==> !o.outranks(#[trigger] s[j]),
    decreases s.len(),
{
    if s.len() == 0 || o.outranks(s[0]) {
    } else {
        let t = s.skip(1);
        lemma_rest_index(t, o);
        assert forall|j: int| 0 <= j < rest_index(s, o) implies !o.outranks(#[trigger] s[j]) by {
            if j > 0 {
                assert(t[j - 1] == s[j]);
            }
        }
        if rest_index(s, o) < s.len() {
            assert(t[rest_index(t, o)] == s[rest_index(s, o)]);
        }
    }
}

/// An index that holds `id` with none before it is `position`.
pub proof fn lemma_position_at(s: Seq<Order>, id: OrderUuid, i: int)
    requires
        0 <= i < s.len(),
        s[i].id == id,
        forall|j: int| 0 <= j < i ==> (#[trigger] s[j]).id != id,
    ensures
        position(s, id) == i,
        on_side(s, id),
{
    lemma_position(s, id);
    let p = position(s, id);
    if p < i {
        assert(s[p].id == id);
    }
}

/// A side keeps its invariant when an order leaves, and holds the others as before.
pub proof fn lemma_without(s: Seq<Order>, id: OrderUuid, asset: Asset, side: OrderSide)
    requires
        side_wf(s, asset, side),
    ensures
        side_wf(without(s, id), asset, side),
        !on_side(without(s, id), id),
        forall|other: OrderUuid| other != id ==> on_side(without(s, id), other) == on_side(s, other),
        forall|seq: u64| below(s, seq) ==> below(without(s, id), seq),
{
    lemma_position(s, id);
    let w = without(s, id);
    if on_side(s, id) {
        let p = position(s, id);
        assert forall|i: int| 0 <= i < w.len() implies #[trigger] w[i] == s[if i < p {
            i
        } else {
            i + 1
        }] by {}
        assert(sorted(w)) by {
            assert forall|i: int, j: int| 0 <= i < j < w.len() implies #[trigger] w[i].outranks(
                #[trigger] w[j],
            ) by {
                let a = if i < p { i } else { i + 1 };
                let b = if j < p { j } else { j + 1 };
                assert(s[a].outranks(s[b]));
            }
        }
        assert(distinct_ids(w)) by {
            assert forall|i: int, j: int|
                0 <= i < w.len() && 0 <= j < w.len() && i != j implies (#[trigger] w[i]).id != (
                #[trigger] w[j]).id by {
                let a = if i < p { i } else { i + 1 };
                let b = if j < p { j } else { j + 1 };
                assert(s[a].id != s[b].id);
            }
        }
        assert(all_live(w, asset, side)) by {
            assert forall|i: int| 0 <= i < w.len() implies {
                &&& (#[trigger] w[i]).live()
                &&& w[i].asset == asset
                &&& w[i].side == side
            } by {
                let a = if i < p { i } else { i + 1 };
                assert(s[a].live());
            }
        }
        if on_side(w, id) {
            let i = choose|i: int| 0 <= i < w.len() && (#[trigger] w[i]).id == id;
            let a = if i < p { i } else { i + 1 };
            assert(s[a].id != s[p].id);
        }
        assert forall|other: OrderUuid| other != id implies on_side(w, other) == on_side(s, other) by {
            if on_side(w, other) {
                let i = choose|i: int| 0 <= i < w.len() && (#[trigger] w[i]).id == other;
                let a = if i < p { i } else { i + 1 };
                assert(s[a].id == other);
            }
            if on_side(s, other) {
                let a = choose|a: int| 0 <= a < s.len() && (#[trigger] s[a]).id == other;
                let i = if a < p { a } else { a - 1 };
                assert(w[i].id == other);
            }
        }
        assert forall|seq: u64| below(s, seq) implies below(w, seq) by {
            assert forall|i: int| 0 <= i < w.len() implies (#[trigger] w[i]).seq < seq by {
                let a = if i < p { i } else { i + 1 };
                assert(s[a].seq < seq);
            }
        }
    }
}

/// A side keeps its invariant when a new order comes to rest on it, provided
/// that the order is new to the side and was sequenced after all that rest.
pub proof fn lemma_rested(s: Seq<Order>, o: Order, asset: Asset, side: OrderSide)
    requires
        side_wf(s, asset, side),
        o.live(),
        o.asset == asset,
        o.side == side,
        !on_side(s, o.id),
        below(s, o.seq),
    ensures
        side_wf(rested(s, o), asset, side),
        on_side(rested(s, o), o.id),
        rested(s, o)[rest_index(s, o)] == o,
        forall|other: OrderUuid| other != o.id ==> on_side(rested(s, o), other) == on_side(s, other),
        forall|seq: u64| below(s, seq) && o.seq < seq ==> below(rested(s, o), seq),
{
    lemma_rest_index(s, o);
    let k = rest_index(s, o);
    let w = rested(s, o);
    assert forall|i: int| 0 <= i < w.len() && i != k implies #[trigger] w[i] == s[if i < k {
        i
    } else {
        i - 1
    }] by {}
    assert(w[k] == o);
    assert forall|i: int| 0 <= i < s.len() implies (#[trigger] s[i]).id != o.id by {}
    assert(all_live(w, asset, side)) by {
        assert forall|i: int| 0 <= i < w.len() implies {
            &&& (#[trigger] w[i]).live()
            &&& w[i].asset == asset
            &&& w[i].side == side
        } by {
            if i != k {
                let a = if i < k { i } else { i - 1 };
                assert(s[a].live());
            }
        }
    }
    assert(sorted(w)) by {
        assert forall|i: int, j: int| 0 <= i < j < w.len() implies #[trigger] w[i].outranks(
            #[trigger] w[j],
        ) by {
            let a = if i < k { i } else { i - 1 };
            let b = if j < k { j } else { j - 1 };
            if i == k {
                assert(s[b].live());
                if b > k {
                    assert(s[k].outranks(s[b]));
                }
            } else if j == k {
                assert(s[a].live());
                assert(!o.outranks(s[a]));
                assert(s[a].seq < o.seq);
            } else {
                assert(s[a].outranks(s[b]));
            }
        }
    }
    assert(distinct_ids(w)) by {
        assert forall|i: int, j: int|
            0 <= i < w.len() && 0 <= j < w.len() && i != j implies (#[trigger] w[i]).id != (
            #[trigger] w[j]).id by {
            let a = if i < k { i } else { i - 1 };
            let b = if j < k { j } else { j - 1 };
            if i == k {
                assert(s[b].id != o.id);
            } else if j == k {
                assert(s[a].id != o.id);
            } else {
                assert(s[a].id != s[b].id);
            }
        }
    }
    assert(on_side(w, o.id));
    assert forall|other: OrderUuid| other != o.id implies on_side(w, other) == on_side(s, other) by {
        if on_side(w, other) {
            let i = choose|i: int| 0 <= i < w.len() && (#[trigger] w[i]).id == other;
            let a = if i < k { i } else { i - 1 };
            assert(s[a].id == other);
        }
        if on_side(s, other) {
            let a = choose|a: int| 0 <= a < s.len() && (#[trigger] s[a]).id == other;
            let i = if a < k { a } else { a + 1 };
            assert(w[i].id == other);
        }
    }
    assert forall|seq: u64| below(s, seq) && o.seq < seq implies below(w, seq) by {
        assert forall|i: int| 0 <= i < w.len() implies (#[trigger] w[i]).seq < seq by {
            if i != k {
                let a = if i < k { i } else { i - 1 };
                assert(s[a].seq < seq);
            }
        }
    }
}

/// Finds the order `id` on a side.
pub fn locate(side: &Vec<Order>, id: OrderUuid) -> (r: Option<usize>)
    ensures
        match r {
            Some(i) => on_side(side@, id) && i == position(side@, id),
            None => !on_side(side@, id),
        },
{
    let mut i: usize = 0;
    while i < side.len()
        invariant
            i <= side.len(),
            forall|j: int| 0 <= j < i ==> (#[trigger] side@[j]).id != id,
        decreases side.len() - i,
    {
        if side[i].id == id {
            proof {
                lemma_position_at(side@, id, i as int);
            }
            return Some(i);
        }
        i += 1;
    }
    None
}

/// Puts `o` to rest on a side, behind every order that it does not outrank.
pub fn rest(side: &mut Vec<Order>, o: Order)
    ensures
        final(side)@ == rested(old(side)@, o),
{
    let mut k: usize = 0;
    proof {
        assert(side@.skip(0) =~= side@);
    }
    while k < side.len() && !o.is_ahead_of(&side[k])
        invariant
            k <= side.len(),
            side@ == old(side)@,
            rest_index(side@, o) == k + rest_index(side@.skip(k as int), o),
        decreases side.len() - k,
    {
        proof {
            assert(side@.skip(k as int).skip(1) =~= side@.skip(k + 1));
        }
        k += 1;
    }
    side.insert(k, o);
}

/// Tests the invariant of a side, and that every order on it was sequenced
/// before `seq`.
pub fn check_side(v: &Vec<Order>, asset: Asset, side: OrderSide, seq: u64) -> (ok: bool)
    ensures
        ok == (side_wf(v@, asset, side) && below(v@, seq)),
{
    let mut i: usize = 0;
    while i < v.len()
        invariant
            i <= v.len(),
            all_live(v@.take(i as int), asset, side),
            below(v@.take(i as int), seq),
            sorted(v@.take(i as int)),
            distinct_ids(v@.take(i as int)),
        decreases v.len() - i,
    {
        let o = &v[i];
        if !(o.is_live() && o.asset == asset && o.side == side && o.seq < seq) {
            return false;
        }
        if i > 0 && !v[i - 1].is_ahead_of(o) {
            return false;
        }
        let mut j: usize = 0;
        while j < i
            invariant
                j <= i < v.len(),
                *o == v@[i as int],
                forall|a: int| 0 <= a < j ==> (#[trigger] v@[a]).id != v@[i as int].id,
            decreases i - j,
        {
            if v[j].id == o.id {
                return false;
            }
            j += 1;
        }
        proof {
            let before = v@.take(i as int);
            let now = v@.take(i + 1);
            assert forall|a: int| 0 <= a < now.len() implies #[trigger] now[a] == v@[a] by {}
            assert forall|a: int| 0 <= a < before.len() implies #[trigger] before[a] == v@[a] by {}
            assert(all_live(now, asset, side)) by {
                assert forall|a: int| 0 <= a < now.len() implies {
                    &&& (#[trigger] now[a]).live()
                    &&& now[a].asset == asset
                    &&& now[a].side == side
                } by {
                    if a < i {
                        assert(before[a].live());
                    }
                }
            }
            assert(below(now, seq)) by {
                assert forall|a: int| 0 <= a < now.len() implies (#[trigger] now[a]).seq < seq by {
                    if a < i {
                        assert(before[a].seq < seq);
                    }
                }
            }
            assert(sorted(now)) by {
                assert forall|a: int, b: int| 0 <= a < b < now.len() implies #[trigger] now[a].outranks(
                    #[trigger] now[b],
                ) by {
                    if b < i {
                        assert(before[a].outranks(before[b]));
                    } else if a < i - 1 {
                        assert(before[a].outranks(before[i - 1]));
                        assert(before[a].live() && before[i - 1].live());
                    }
                }
            }
            assert(distinct_ids(now)) by {
                assert forall|a: int, b: int|
                    0 <= a < now.len() && 0 <= b < now.len() && a != b implies (
                #[trigger] now[a]).id != (#[trigger] now[b]).id by {
                    if a < i && b < i {
                        assert(before[a].id != before[b].id);
                    }
                }
            }
        }
        i += 1;
    }
    proof {
        assert(v@.take(v.len() as int) =~= v@);
    }
    true
}

} // verus!
