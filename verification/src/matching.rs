//! The crossing loop: how an incoming order trades against the opposite side
//! of a book, best resting order first.

use vstd::prelude::*;
use crate::asset::Asset;
use crate::order::{Execution, Order, OrderSide, OrderStatus, OrderUuid, SelfTradeProtection};
use crate::side::{all_live, below, distinct_ids, on_side, side_wf, sorted};

verus! {

/// What one round of the crossing loop does, as a value. The last two fields
/// count what self-trade protection took away without a trade.
pub struct Step {
    pub makers: Seq<Order>,
    pub taker: Order,
    pub execution: Option<Execution>,
    pub taker_forfeit: nat,
    pub maker_forfeit: nat,
}

/// What the whole crossing loop does, as a value.
pub struct Matched {
    /// The opposite side after the loop, best first.
    pub makers: Seq<Order>,
    /// The incoming order after the loop, before its remainder is disposed of.
    pub taker: Order,
    /// The trades, in the order in which they were made.
    pub executions: Seq<Execution>,
    /// Quantity that self-trade protection took off the incoming order.
    pub taker_forfeit: nat,
    /// Quantity that self-trade protection took off resting orders.
    pub maker_forfeit: nat,
}

/// The smaller of two open quantities.
pub open spec fn lesser(a: u32, b: u32) -> u32 {
    if a <= b {
        a
    } else {
        b
    }
}

/// The loop goes on while the taker has something open, the opposite side is
/// not empty, and the taker may trade at the best resting price.
pub open spec fn can_step(makers: Seq<Order>, taker: Order) -> bool {
    &&& taker.remaining > 0
    &&& makers.len() > 0
    &&& taker.crosses(makers[0])
}

/// The trade of `q` between `taker` and `maker`, at the maker's price.
pub open spec fn trade(taker: Order, maker: Order, q: u32) -> Execution {
    Execution {
        taker: taker.id,
        maker: maker.id,
        asset: maker.asset,
        quantity: q,
        price: maker.price,
        seq: taker.seq,
    }
}

/// The opposite side once its best order has lost `q`: gone if nothing of it
/// is left, else still in front with the rest.
pub open spec fn front_after(makers: Seq<Order>, changed: Order) -> Seq<Order> {
    if changed.remaining > 0 {
        makers.update(0, changed)
    } else {
        makers.skip(1)
    }
}

/// One round against the best resting order `makers[0]`.
pub open spec fn step_spec(makers: Seq<Order>, taker: Order) -> Step
    recommends
        can_step(makers, taker),
{
    let m = makers[0];
    let q = lesser(taker.remaining, m.remaining);
    if m.owner == taker.owner {
        match taker.stp {
            SelfTradeProtection::CancelNewest => Step {
                makers,
                taker: taker.cancelled(),
                execution: None,
                taker_forfeit: taker.remaining as nat,
                maker_forfeit: 0,
            },
            SelfTradeProtection::CancelOldest => Step {
                makers: makers.skip(1),
                taker,
                execution: None,
                taker_forfeit: 0,
                maker_forfeit: m.remaining as nat,
            },
            SelfTradeProtection::CancelBoth => Step {
                makers: makers.skip(1),
                taker: taker.cancelled(),
                execution: None,
                taker_forfeit: taker.remaining as nat,
                maker_forfeit: m.remaining as nat,
            },
            SelfTradeProtection::DecrementAndCancel => Step {
                makers: front_after(makers, m.decremented_by(q)),
                taker: taker.decremented_by(q),
                execution: None,
                taker_forfeit: q as nat,
                maker_forfeit: q as nat,
            },
        }
    } else {
        Step {
            makers: front_after(makers, m.filled_by(q)),
            taker: taker.filled_by(q),
            execution: Some(trade(taker, m, q)),
            taker_forfeit: 0,
            maker_forfeit: 0,
        }
    }
}

/// The crossing loop: rounds against the best resting order until the taker
/// has nothing open, the side is empty, or the best price no longer crosses.
pub open spec fn match_spec(makers: Seq<Order>, taker: Order) -> Matched
    decreases makers.len() + taker.remaining,
{
    if !can_step(makers, taker) {
        Matched {
            makers,
            taker,
            executions: Seq::empty(),
            taker_forfeit: 0,
            maker_forfeit: 0,
        }
    } else {
        let s = step_spec(makers, taker);
        let r = match_spec(s.makers, s.taker);
        Matched {
            makers: r.makers,
            taker: r.taker,
            executions: match s.execution {
                Some(e) => seq![e] + r.executions,
                None => r.executions,
            },
            taker_forfeit: s.taker_forfeit + r.taker_forfeit,
            maker_forfeit: s.maker_forfeit + r.maker_forfeit,
        }
    }
}

/// The quantity that a list of executions traded.
pub open spec fn executed_total(ex: Seq<Execution>) -> nat
    decreases ex.len(),
{
    if ex.len() == 0 {
        0
    } else {
        ex[0].quantity as nat + executed_total(ex.skip(1))
    }
}

/// The quantity that is open on a side.
pub open spec fn open_total(side: Seq<Order>) -> nat
    decreases side.len(),
{
    if side.len() == 0 {
        0
    } else {
        side[0].remaining as nat + open_total(side.skip(1))
    }
}

/// One round of the crossing loop on the side `makers`.
pub fn match_step(makers: &mut Vec<Order>, taker: &mut Order) -> (e: Option<Execution>)
    requires
        can_step(old(makers)@, *old(taker)),
    ensures
        final(makers)@ == step_spec(old(makers)@, *old(taker)).makers,
        *final(taker) == step_spec(old(makers)@, *old(taker)).taker,
        e == step_spec(old(makers)@, *old(taker)).execution,
{
    let ghost before = makers@;
    let mut m: Order = makers[0];
    let q: u32 = if taker.remaining <= m.remaining {
        taker.remaining
    } else {
        m.remaining
    };
    proof {
        assert(before.remove(0) =~= before.skip(1));
    }
    if m.owner == taker.owner {
        match taker.stp {
            SelfTradeProtection::CancelNewest => {
                taker.cancel();
            },
            SelfTradeProtection::CancelOldest => {
                makers.remove(0);
            },
            SelfTradeProtection::CancelBoth => {
                makers.remove(0);
                taker.cancel();
            },
            SelfTradeProtection::DecrementAndCancel => {
                if q == m.remaining {
                    makers.remove(0);
                } else {
                    m.decrement(q);
                    makers.set(0, m);
                }
                taker.decrement(q);
            },
        }
        None
    } else {
        let e = Execution {
            taker: taker.id,
            maker: m.id,
            asset: m.asset,
            quantity: q,
            price: m.price,
            seq: taker.seq,
        };
        if q == m.remaining {
            makers.remove(0);
        } else {
            m.fill(q);
            makers.set(0, m);
        }
        taker.fill(q);
        Some(e)
    }
}

/// Runs the crossing loop for `taker` on the side `makers` and returns the
/// trades in the order in which they were made.
pub fn run_match(makers: &mut Vec<Order>, taker: &mut Order) -> (out: Vec<Execution>)
    ensures
        final(makers)@ == match_spec(old(makers)@, *old(taker)).makers,
        *final(taker) == match_spec(old(makers)@, *old(taker)).taker,
        out@ == match_spec(old(makers)@, *old(taker)).executions,
{
    let mut out: Vec<Execution> = Vec::new();
    while taker.remaining > 0 && makers.len() > 0 && taker.is_crossing(&makers[0])
        invariant
            match_spec(old(makers)@, *old(taker)).makers == match_spec(makers@, *taker).makers,
            match_spec(old(makers)@, *old(taker)).taker == match_spec(makers@, *taker).taker,
            match_spec(old(makers)@, *old(taker)).executions == out@ + match_spec(
                makers@,
                *taker,
            ).executions,
        decreases makers.len() + taker.remaining,
    {
        let ghost m0 = makers@;
        let ghost t0 = *taker;
        let ghost out0 = out@;
        let e = match_step(makers, taker);
        match e {
            Some(x) => {
                out.push(x);
            },
            None => {},
        }
        proof {
            let r = match_spec(makers@, *taker);
            assert(can_step(m0, t0));
            match e {
                Some(x) => {
                    assert(out0 + (seq![x] + r.executions) =~= out@ + r.executions);
                },
                None => {},
            }
        }
    }
    proof {
        assert(out@ + Seq::<Execution>::empty() =~= out@);
    }
    out
}


/// The quantity that an optional execution traded.
pub open spec fn traded(e: Option<Execution>) -> nat {
    match e {
        Some(x) => x.quantity as nat,
        None => 0,
    }
}

proof fn lemma_total_cons(e: Execution, rest: Seq<Execution>)
    ensures
        executed_total(seq![e] + rest) == e.quantity + executed_total(rest),
{
    assert((seq![e] + rest).skip(1) =~= rest);
}

proof fn lemma_open_front(makers: Seq<Order>, changed: Order)
    requires
        makers.len() > 0,
    ensures
        open_total(front_after(makers, changed)) == changed.remaining + open_total(makers.skip(1)),
{
    if changed.remaining > 0 {
        assert(makers.update(0, changed).skip(1) =~= makers.skip(1));
    }
}

/// Conservation in one round: a trade takes its quantity off the taker and the
/// same quantity off the maker, and nothing else changes what is open; a round
/// of self-trade protection takes off exactly what it forfeits. After the round
/// either the taker has nothing open or the best resting order is gone.
pub proof fn lemma_step_conserves(makers: Seq<Order>, taker: Order)
    requires
        can_step(makers, taker),
    ensures
        ({
            let s = step_spec(makers, taker);
            &&& taker.remaining == s.taker.remaining + traded(s.execution) + s.taker_forfeit
            &&& open_total(makers) == open_total(s.makers) + traded(s.execution) + s.maker_forfeit
            &&& s.execution is Some ==> s.taker_forfeit == 0 && s.maker_forfeit == 0
            &&& s.execution is Some <==> makers[0].owner != taker.owner
            &&& s.execution is Some ==> s.execution->0 == trade(
                taker,
                makers[0],
                lesser(taker.remaining, makers[0].remaining),
            )
            &&& s.taker.continues(taker)
            &&& (s.taker.remaining == 0 || s.makers == makers.skip(1))
            &&& (s.makers == makers.skip(1) || (s.makers.len() == makers.len()
                && s.makers.skip(1) == makers.skip(1) && s.makers[0].continues(makers[0]) && (
            makers[0].live() ==> s.makers[0].live())))
            &&& (taker.wf() && taker.status != OrderStatus::Rejected ==> s.taker.wf()
                && s.taker.status != OrderStatus::Rejected)
        }),
{
    let m = makers[0];
    let q = lesser(taker.remaining, m.remaining);
    lemma_open_front(makers, m.decremented_by(q));
    lemma_open_front(makers, m.filled_by(q));
    assert(makers.update(0, m.decremented_by(q)).skip(1) =~= makers.skip(1));
    assert(makers.update(0, m.filled_by(q)).skip(1) =~= makers.skip(1));
}

/// Conservation over the whole crossing loop: what leaves the taker is what
/// was traded plus what self-trade protection took off it, and what leaves the
/// opposite side is the same traded quantity plus what self-trade protection
/// took off resting orders. Where no resting order belongs to the taker's
/// user, nothing is forfeited, so both lose exactly the traded quantity.
pub proof fn lemma_conservation(makers: Seq<Order>, taker: Order)
    ensures
        ({
            let m = match_spec(makers, taker);
            &&& taker.remaining == m.taker.remaining + executed_total(m.executions)
                + m.taker_forfeit
            &&& open_total(makers) == open_total(m.makers) + executed_total(m.executions)
                + m.maker_forfeit
            &&& (forall|i: int| 0 <= i < makers.len() ==> (#[trigger] makers[i]).owner
                != taker.owner) ==> m.taker_forfeit == 0 && m.maker_forfeit == 0
        }),
    decreases makers.len() + taker.remaining,
{
    if can_step(makers, taker) {
        let s = step_spec(makers, taker);
        let r = match_spec(s.makers, s.taker);
        lemma_step_conserves(makers, taker);
        lemma_conservation(s.makers, s.taker);
        match s.execution {
            Some(e) => {
                lemma_total_cons(e, r.executions);
            },
            None => {},
        }
        if forall|i: int| 0 <= i < makers.len() ==> (#[trigger] makers[i]).owner != taker.owner {
            assert(makers[0].owner != taker.owner);
            assert forall|i: int| 0 <= i < s.makers.len() implies (#[trigger] s.makers[i]).owner
                != s.taker.owner by {
                if s.makers == makers.skip(1) {
                    assert(s.makers[i] == makers[i + 1]);
                } else if i == 0 {
                } else {
                    assert(s.makers[i] == s.makers.skip(1)[i - 1]);
                    assert(makers.skip(1)[i - 1] == makers[i]);
                }
            }
        }
    }
}

/// The crossing loop leaves a tail of the opposite side: `k` orders from the
/// front are gone, the one now in front may have less open than before, and
/// the others are untouched. The taker is still the same order.
pub proof fn lemma_match_keeps_queue(makers: Seq<Order>, taker: Order) -> (k: int)
    ensures
        ({
            let m = match_spec(makers, taker);
            &&& 0 <= k <= makers.len()
            &&& m.makers.len() == makers.len() - k
            &&& forall|i: int|
                0 <= i < m.makers.len() ==> (#[trigger] m.makers[i]).continues(makers[i + k]) && (
                makers[i + k].live() ==> m.makers[i].live())
            &&& forall|i: int| 1 <= i < m.makers.len() ==> #[trigger] m.makers[i] == makers[i + k]
            &&& m.taker.continues(taker)
            &&& (taker.wf() && taker.status != OrderStatus::Rejected ==> m.taker.wf()
                && m.taker.status != OrderStatus::Rejected)
            &&& (m.taker.remaining == 0 || !can_step(m.makers, m.taker))
        }),
    decreases makers.len() + taker.remaining,
{
    if can_step(makers, taker) {
        let s = step_spec(makers, taker);
        let m = match_spec(makers, taker);
        lemma_step_conserves(makers, taker);
        let k1 = lemma_match_keeps_queue(s.makers, s.taker);
        if s.makers == makers.skip(1) {
            assert forall|i: int| 0 <= i < m.makers.len() implies (#[trigger] m.makers[i]).continues(
                makers[i + k1 + 1],
            ) && (makers[i + k1 + 1].live() ==> m.makers[i].live()) by {
                assert(s.makers[i + k1] == makers[i + k1 + 1]);
            }
            assert forall|i: int| 1 <= i < m.makers.len() implies #[trigger] m.makers[i]
                == makers[i + k1 + 1] by {
                assert(s.makers[i + k1] == makers[i + k1 + 1]);
            }
            k1 + 1
        } else {
            assert(!can_step(s.makers, s.taker));
            assert(k1 == 0);
            assert forall|i: int| 0 <= i < m.makers.len() implies (#[trigger] m.makers[i]).continues(
                makers[i],
            ) && (makers[i].live() ==> m.makers[i].live()) by {
                if i > 0 {
                    assert(s.makers[i] == s.makers.skip(1)[i - 1]);
                    assert(makers.skip(1)[i - 1] == makers[i]);
                }
            }
            assert forall|i: int| 1 <= i < m.makers.len() implies #[trigger] m.makers[i]
                == makers[i] by {
                assert(s.makers[i] == s.makers.skip(1)[i - 1]);
                assert(makers.skip(1)[i - 1] == makers[i]);
            }
            0
        }
    } else {
        0
    }
}

/// The crossing loop keeps the invariant of the side it trades against, brings
/// no order onto it, and raises no sequence number.
pub proof fn lemma_match_side_wf(makers: Seq<Order>, taker: Order, asset: Asset, side: OrderSide)
    requires
        side_wf(makers, asset, side),
    ensures
        side_wf(match_spec(makers, taker).makers, asset, side),
        forall|id: OrderUuid|
            on_side(match_spec(makers, taker).makers, id) ==> on_side(makers, id),
        forall|seq: u64| below(makers, seq) ==> below(match_spec(makers, taker).makers, seq),
{
    let m = match_spec(makers, taker);
    let k = lemma_match_keeps_queue(makers, taker);
    let w = m.makers;
    assert(all_live(w, asset, side)) by {
        assert forall|i: int| 0 <= i < w.len() implies {
            &&& (#[trigger] w[i]).live()
            &&& w[i].asset == asset
            &&& w[i].side == side
        } by {
            assert(makers[i + k].live());
        }
    }
    assert(sorted(w)) by {
        assert forall|i: int, j: int| 0 <= i < j < w.len() implies #[trigger] w[i].outranks(
            #[trigger] w[j],
        ) by {
            assert(makers[i + k].outranks(makers[j + k]));
            assert(w[i].continues(makers[i + k]));
            assert(w[j].continues(makers[j + k]));
        }
    }
    assert(distinct_ids(w)) by {
        assert forall|i: int, j: int|
            0 <= i < w.len() && 0 <= j < w.len() && i != j implies (#[trigger] w[i]).id != (
            #[trigger] w[j]).id by {
            assert(makers[i + k].id != makers[j + k].id);
            assert(w[i].continues(makers[i + k]));
            assert(w[j].continues(makers[j + k]));
        }
    }
    assert forall|id: OrderUuid| on_side(w, id) implies on_side(makers, id) by {
        let i = choose|i: int| 0 <= i < w.len() && (#[trigger] w[i]).id == id;
        assert(w[i].continues(makers[i + k]));
        assert(makers[i + k].id == id);
    }
    assert forall|seq: u64| below(makers, seq) implies below(w, seq) by {
        assert forall|i: int| 0 <= i < w.len() implies (#[trigger] w[i]).seq < seq by {
            assert(w[i].continues(makers[i + k]));
            assert(makers[i + k].seq < seq);
        }
    }
}


/// Every execution is a trade with one resting order of another user, at that
/// order's price and for no more than it had open. Returns the place of that
/// order on the side as it stood before the loop.
pub proof fn lemma_execution_maker(makers: Seq<Order>, taker: Order, a: int) -> (i: int)
    requires
        0 <= a < match_spec(makers, taker).executions.len(),
    ensures
        0 <= i < makers.len(),
        ({
            let e = match_spec(makers, taker).executions[a];
            &&& e.maker == makers[i].id
            &&& e.price == makers[i].price
            &&& e.asset == makers[i].asset
            &&& e.taker == taker.id
            &&& e.seq == taker.seq
            &&& e.quantity <= makers[i].remaining
            &&& e.quantity <= taker.remaining
            &&& makers[i].owner != taker.owner
            &&& taker.crosses(makers[i])
        }),
    decreases makers.len() + taker.remaining,
{
    let s = step_spec(makers, taker);
    let r = match_spec(s.makers, s.taker);
    lemma_step_conserves(makers, taker);
    if s.execution is Some && a == 0 {
        0
    } else {
        let a1 = if s.execution is Some {
            a - 1
        } else {
            a
        };
        assert(r.executions[a1] == match_spec(makers, taker).executions[a]);
        let i1 = lemma_execution_maker(s.makers, s.taker, a1);
        assert(s.makers == makers.skip(1));
        assert(s.makers[i1] == makers[i1 + 1]);
        i1 + 1
    }
}

/// Price-time priority: of two executions of one incoming order, the earlier
/// one is with the resting order that stood further in front. On a sorted side
/// that order outranks the other, so at equal price it is the one with the
/// lower sequence number. Returns the places of the two resting orders.
pub proof fn lemma_price_time_priority(makers: Seq<Order>, taker: Order, a: int, b: int) -> (ij: (
    int,
    int,
))
    requires
        0 <= a < b < match_spec(makers, taker).executions.len(),
    ensures
        0 <= ij.0 < ij.1 < makers.len(),
        match_spec(makers, taker).executions[a].maker == makers[ij.0].id,
        match_spec(makers, taker).executions[b].maker == makers[ij.1].id,
        sorted(makers) ==> makers[ij.0].outranks(makers[ij.1]),
        sorted(makers) && makers[ij.0].price == makers[ij.1].price ==> makers[ij.0].seq
            < makers[ij.1].seq,
    decreases makers.len() + taker.remaining,
{
    let s = step_spec(makers, taker);
    let r = match_spec(s.makers, s.taker);
    lemma_step_conserves(makers, taker);
    assert(s.makers == makers.skip(1));
    if s.execution is Some && a == 0 {
        assert(r.executions[b - 1] == match_spec(makers, taker).executions[b]);
        let j1 = lemma_execution_maker(s.makers, s.taker, b - 1);
        assert(s.makers[j1] == makers[j1 + 1]);
        if sorted(makers) {
            assert(makers[0].outranks(makers[j1 + 1]));
        }
        (0, j1 + 1)
    } else {
        let d = if s.execution is Some {
            1int
        } else {
            0int
        };
        assert(r.executions[a - d] == match_spec(makers, taker).executions[a]);
        assert(r.executions[b - d] == match_spec(makers, taker).executions[b]);
        let (i1, j1) = lemma_price_time_priority(s.makers, s.taker, a - d, b - d);
        assert(s.makers[i1] == makers[i1 + 1]);
        assert(s.makers[j1] == makers[j1 + 1]);
        if sorted(makers) {
            assert(makers[i1 + 1].outranks(makers[j1 + 1]));
        }
        (i1 + 1, j1 + 1)
    }
}

/// Nobody is passed over: when an execution is with the resting order at
/// place `j`, every order of another user that stood in front of it, at place
/// `i`, was traded in full by an earlier execution. Returns the place of that
/// execution.
pub proof fn lemma_earlier_filled_first(
    makers: Seq<Order>,
    taker: Order,
    a: int,
    i: int,
    j: int,
) -> (a0: int)
    requires
        distinct_ids(makers),
        0 <= a < match_spec(makers, taker).executions.len(),
        0 <= i < j < makers.len(),
        match_spec(makers, taker).executions[a].maker == makers[j].id,
        makers[i].owner != taker.owner,
    ensures
        0 <= a0 < a,
        match_spec(makers, taker).executions[a0].maker == makers[i].id,
        match_spec(makers, taker).executions[a0].quantity == makers[i].remaining,
    decreases makers.len() + taker.remaining,
{
    let s = step_spec(makers, taker);
    let r = match_spec(s.makers, s.taker);
    let ex = match_spec(makers, taker).executions;
    lemma_step_conserves(makers, taker);
    if s.execution is Some && a == 0 {
        assert(ex[0].maker == makers[0].id);
        assert(makers[0].id != makers[j].id);
        0
    } else {
        let d = if s.execution is Some {
            1int
        } else {
            0int
        };
        assert(r.executions[a - d] == ex[a]);
        assert(s.makers == makers.skip(1));
        assert(s.makers[j - 1] == makers[j]);
        if i == 0 {
            0
        } else {
            assert(s.makers[i - 1] == makers[i]);
            assert(distinct_ids(s.makers)) by {
                assert forall|x: int, y: int|
                    0 <= x < s.makers.len() && 0 <= y < s.makers.len() && x != y implies (
                #[trigger] s.makers[x]).id != (#[trigger] s.makers[y]).id by {
                    assert(makers[x + 1].id != makers[y + 1].id);
                }
            }
            let a1 = lemma_earlier_filled_first(s.makers, s.taker, a - d, i - 1, j - 1);
            assert(r.executions[a1] == ex[a1 + d]);
            a1 + d
        }
    }
}

/// Whether everything that `taker` has open would trade against `makers`.
pub open spec fn fills_completely(makers: Seq<Order>, taker: Order) -> bool {
    executed_total(match_spec(makers, taker).executions) == taker.remaining
}

/// Tests, without changing anything, whether all that `taker` has open would
/// trade against the side as it stands.
pub fn can_fill(makers: &Vec<Order>, taker: &Order) -> (b: bool)
    ensures
        b == fills_completely(makers@, *taker),
{
    let mut i: usize = 0;
    let mut need: u32 = taker.remaining;
    let ghost mut t: Order = *taker;
    proof {
        assert(makers@.skip(0) =~= makers@);
    }
    while need > 0 && i < makers.len() && taker.is_crossing(&makers[i])
        invariant
            i <= makers.len(),
            t == (Order { remaining: need, status: t.status, ..*taker }),
            executed_total(match_spec(makers@, *taker).executions) + need == taker.remaining
                + executed_total(match_spec(makers@.skip(i as int), t).executions),
        decreases makers.len() - i,
    {
        let m: Order = makers[i];
        let ghost rest = makers@.skip(i as int);
        proof {
            assert(rest[0] == m);
            assert(rest.skip(1) =~= makers@.skip(i + 1));
            assert(can_step(rest, t));
            lemma_step_conserves(rest, t);
            let s = step_spec(rest, t);
            lemma_conservation(s.makers, s.taker);
            match s.execution {
                Some(e) => {
                    lemma_total_cons(e, match_spec(s.makers, s.taker).executions);
                },
                None => {},
            }
        }
        if m.owner == taker.owner {
            match taker.stp {
                SelfTradeProtection::CancelOldest => {},
                SelfTradeProtection::DecrementAndCancel => {
                    if m.remaining > 0 {
                        return false;
                    }
                },
                _ => {
                    return false;
                },
            }
        } else {
            if m.remaining >= need {
                return true;
            }
            need = need - m.remaining;
            proof {
                t = t.filled_by(m.remaining);
            }
        }
        i += 1;
    }
    need == 0
}

} // verus!
