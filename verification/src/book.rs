//! The order book of one asset: two sides in price-time priority, and what
//! placing and cancelling an order does to them.

use vstd::prelude::*;
use crate::asset::Asset;
use crate::matching::{
    can_fill, executed_total, fills_completely, lemma_conservation, lemma_match_keeps_queue,
    lemma_match_side_wf, lemma_price_time_priority, match_spec, open_total, run_match,
};
use crate::order::{Execution, Order, OrderSide, OrderStatus, OrderType, OrderUuid, TimeInForce};
use crate::side::{
    below, check_side, lemma_position, lemma_rest_index, lemma_rested, lemma_without, locate,
    on_side, position, rest, rest_index, rested, side_wf, without,
};

verus! {

/// A book as a value: the resting orders of each side, best first.
pub struct BookView {
    pub asset: Asset,
    pub bids: Seq<Order>,
    pub asks: Seq<Order>,
}

/// What placing an order does, as a value.
pub struct Placed {
    /// The book afterwards.
    pub book: BookView,
    /// The order afterwards.
    pub order: Order,
    /// The trades that it made, in the order in which they were made.
    pub executions: Seq<Execution>,
}

/// Whether what is left of an order after the crossing loop comes to rest: a
/// good-till-cancelled limit order with something open.
pub open spec fn rests(o: Order) -> bool {
    &&& o.remaining > 0
    &&& o.order_type == OrderType::Limit
    &&& o.time_in_force == TimeInForce::GoodTillCancelled
}

impl BookView {
    /// The orders resting on `side`.
    pub open spec fn side(self, side: OrderSide) -> Seq<Order> {
        match side {
            OrderSide::Buy => self.bids,
            OrderSide::Sell => self.asks,
        }
    }

    /// This book with `orders` on `side`.
    pub open spec fn with_side(self, side: OrderSide, orders: Seq<Order>) -> BookView {
        match side {
            OrderSide::Buy => BookView { bids: orders, ..self },
            OrderSide::Sell => BookView { asks: orders, ..self },
        }
    }

    /// Whether the order `id` rests in the book.
    pub open spec fn contains(self, id: OrderUuid) -> bool {
        on_side(self.bids, id) || on_side(self.asks, id)
    }

    /// The resting order `id`, if there is one.
    pub open spec fn lookup(self, id: OrderUuid) -> Option<Order> {
        if on_side(self.bids, id) {
            Some(self.bids[position(self.bids, id)])
        } else if on_side(self.asks, id) {
            Some(self.asks[position(self.asks, id)])
        } else {
            None
        }
    }

    /// The invariant of a book: each side holds live orders of the book's
    /// asset and of that side, in strict price-time priority, and no
    /// identifier occurs twice in the book.
    pub open spec fn wf(self) -> bool {
        &&& side_wf(self.bids, self.asset, OrderSide::Buy)
        &&& side_wf(self.asks, self.asset, OrderSide::Sell)
        &&& forall|id: OrderUuid| !(#[trigger] on_side(self.bids, id) && on_side(self.asks, id))
    }

    /// Every resting order was sequenced before `seq`.
    pub open spec fn below(self, seq: u64) -> bool {
        below(self.bids, seq) && below(self.asks, seq)
    }

    /// Whether `o` may be placed: a fresh order for this book's asset, whose
    /// identifier is not in the book and which was sequenced after all that
    /// rest.
    pub open spec fn accepts(self, o: Order) -> bool {
        &&& o.fresh()
        &&& o.asset == self.asset
        &&& !self.contains(o.id)
        &&& self.below(o.seq)
    }

    /// Placing `o`. A fill-or-kill order that would not trade in full against
    /// the opposite side as it stands is rejected and nothing changes.
    /// Otherwise the crossing loop runs against the opposite side; what is left
    /// of a good-till-cancelled limit order then rests on its own side, and
    /// what is left of any other order is cancelled.
    pub open spec fn place(self, o: Order) -> Placed {
        let opposite = self.side(o.side.opposite());
        if o.time_in_force == TimeInForce::FillOrKill && !fills_completely(opposite, o) {
            Placed { book: self, order: o.rejected(), executions: Seq::empty() }
        } else {
            let m = match_spec(opposite, o);
            let crossed = self.with_side(o.side.opposite(), m.makers);
            if rests(m.taker) {
                Placed {
                    book: crossed.with_side(o.side, rested(crossed.side(o.side), m.taker)),
                    order: m.taker,
                    executions: m.executions,
                }
            } else {
                Placed {
                    book: crossed,
                    order: if m.taker.remaining > 0 {
                        m.taker.cancelled()
                    } else {
                        m.taker
                    },
                    executions: m.executions,
                }
            }
        }
    }

    /// The book without the order `id`.
    pub open spec fn cancel(self, id: OrderUuid) -> BookView {
        BookView { asset: self.asset, bids: without(self.bids, id), asks: without(self.asks, id) }
    }
}

/// What `OrderBook::insert` hands back.
pub struct Placement {
    /// The trades that the order made, in the order in which they were made.
    pub executions: Vec<Execution>,
    /// The order as it stands after matching and disposition.
    pub order: Order,
}

/// The order book of one asset.
pub struct OrderBook {
    asset: Asset,
    bids: Vec<Order>,
    asks: Vec<Order>,
}

impl View for OrderBook {
    type V = BookView;

    closed spec fn view(&self) -> BookView {
        BookView { asset: self.asset, bids: self.bids@, asks: self.asks@ }
    }
}

impl OrderBook {
    /// An empty book for `asset`.
    pub fn new(asset: Asset) -> (b: OrderBook)
        ensures
            b@ == (BookView { asset, bids: Seq::empty(), asks: Seq::empty() }),
            b@.wf(),
            forall|seq: u64| b@.below(seq),
            forall|id: OrderUuid| !b@.contains(id),
    {
        OrderBook { asset, bids: Vec::new(), asks: Vec::new() }
    }

    /// The asset that this book is for.
    pub fn asset(&self) -> (a: Asset)
        ensures
            a == self@.asset,
    {
        self.asset
    }

    /// The resting buy orders, best first.
    pub fn bids(&self) -> (v: &Vec<Order>)
        ensures
            v@ == self@.bids,
    {
        &self.bids
    }

    /// The resting sell orders, best first.
    pub fn asks(&self) -> (v: &Vec<Order>)
        ensures
            v@ == self@.asks,
    {
        &self.asks
    }

    /// The resting order `id`, if there is one.
    pub fn find(&self, id: OrderUuid) -> (r: Option<Order>)
        ensures
            r == self@.lookup(id),
            r is Some <==> self@.contains(id),
            r is Some ==> r->0.id == id,
    {
        proof {
            lemma_position(self.bids@, id);
            lemma_position(self.asks@, id);
        }
        match locate(&self.bids, id) {
            Some(i) => Some(self.bids[i]),
            None => match locate(&self.asks, id) {
                Some(i) => Some(self.asks[i]),
                None => None,
            },
        }
    }

    /// Tests the invariant of the book, and that every resting order was
    /// sequenced before `seq`.
    pub fn check(&self, seq: u64) -> (ok: bool)
        ensures
            ok == (self@.wf() && self@.below(seq)),
    {
        if !check_side(&self.bids, self.asset, OrderSide::Buy, seq) {
            return false;
        }
        if !check_side(&self.asks, self.asset, OrderSide::Sell, seq) {
            return false;
        }
        let mut i: usize = 0;
        while i < self.bids.len()
            invariant
                i <= self.bids.len(),
                forall|a: int| 0 <= a < i ==> !on_side(self.asks@, (#[trigger] self.bids@[a]).id),
            decreases self.bids.len() - i,
        {
            if locate(&self.asks, self.bids[i].id).is_some() {
                assert(on_side(self.bids@, self.bids@[i as int].id));
                return false;
            }
            i += 1;
        }
        proof {
            assert forall|id: OrderUuid| !(#[trigger] on_side(self.bids@, id) && on_side(
                self.asks@,
                id,
            )) by {
                if on_side(self.bids@, id) {
                    let a = choose|a: int| 0 <= a < self.bids@.len() && (#[trigger] self.bids@[a]).id
                        == id;
                    assert(!on_side(self.asks@, self.bids@[a].id));
                }
            }
        }
        true
    }

    /// Whether none of `orders` rests in this book.
    pub fn holds_none_of(&self, orders: &Vec<Order>) -> (ok: bool)
        ensures
            ok == (forall|id: OrderUuid| !(#[trigger] on_side(orders@, id) && self@.contains(id))),
    {
        let mut i: usize = 0;
        while i < orders.len()
            invariant
                i <= orders.len(),
                forall|a: int| 0 <= a < i ==> !self@.contains((#[trigger] orders@[a]).id),
            decreases orders.len() - i,
        {
            if self.find(orders[i].id).is_some() {
                assert(on_side(orders@, orders@[i as int].id));
                return false;
            }
            i += 1;
        }
        proof {
            assert forall|id: OrderUuid| !(#[trigger] on_side(orders@, id) && self@.contains(
                id,
            )) by {
                if on_side(orders@, id) {
                    let a = choose|a: int| 0 <= a < orders@.len() && (#[trigger] orders@[a]).id == id;
                    assert(!self@.contains(orders@[a].id));
                }
            }
        }
        true
    }

    /// Places `order`: matches it against the opposite side and disposes of
    /// what is left. On a valid book that accepts the order, the book stays
    /// valid, and the order rests in it afterwards exactly if it is a
    /// good-till-cancelled limit order with something left open.
    pub fn insert(&mut self, order: Order) -> (r: Placement)
        ensures
            final(self)@ == old(self)@.place(order).book,
            r.order == old(self)@.place(order).order,
            r.executions@ == old(self)@.place(order).executions,
            old(self)@.wf() && old(self)@.accepts(order) ==> final(self)@.wf() && r.order.wf()
                && (final(self)@.contains(order.id) <==> r.order.remaining > 0
                && r.order.status != OrderStatus::Rejected),
    {
        proof {
            if self@.wf() && self@.accepts(order) {
                lemma_place_keeps_book(self@, order);
            }
        }
        let mut taker = order;
        if order.time_in_force == TimeInForce::FillOrKill {
            let fillable = match order.side {
                OrderSide::Buy => can_fill(&self.asks, &taker),
                OrderSide::Sell => can_fill(&self.bids, &taker),
            };
            if !fillable {
                taker.status = OrderStatus::Rejected;
                return Placement { executions: Vec::new(), order: taker };
            }
        }
        let executions = match order.side {
            OrderSide::Buy => run_match(&mut self.asks, &mut taker),
            OrderSide::Sell => run_match(&mut self.bids, &mut taker),
        };
        if taker.remaining > 0 {
            if taker.order_type == OrderType::Limit && taker.time_in_force
                == TimeInForce::GoodTillCancelled {
                match order.side {
                    OrderSide::Buy => rest(&mut self.bids, taker),
                    OrderSide::Sell => rest(&mut self.asks, taker),
                }
            } else {
                taker.cancel();
            }
        }
        Placement { executions, order: taker }
    }

    /// Takes the resting order `id` out of the book. Says whether it was there.
    pub fn cancel(&mut self, id: OrderUuid) -> (found: bool)
        ensures
            found == old(self)@.contains(id),
            final(self)@ == old(self)@.cancel(id),
            old(self)@.wf() ==> final(self)@.wf() && !final(self)@.contains(id),
    {
        proof {
            lemma_position(self.bids@, id);
            lemma_position(self.asks@, id);
            if self@.wf() {
                lemma_cancel_keeps_book(self@, id);
            }
        }
        let mut found = false;
        match locate(&self.bids, id) {
            Some(i) => {
                self.bids.remove(i);
                found = true;
            },
            None => {},
        }
        match locate(&self.asks, id) {
            Some(i) => {
                self.asks.remove(i);
                found = true;
            },
            None => {},
        }
        found
    }
}

/// Cancelling keeps a book valid, takes the order out, leaves every other
/// order in, and raises no sequence number.
pub proof fn lemma_cancel_keeps_book(book: BookView, id: OrderUuid)
    requires
        book.wf(),
    ensures
        book.cancel(id).wf(),
        !book.cancel(id).contains(id),
        forall|other: OrderUuid|
            other != id ==> book.cancel(id).contains(other) == book.contains(other),
        forall|seq: u64| book.below(seq) ==> book.cancel(id).below(seq),
{
    lemma_without(book.bids, id, book.asset, OrderSide::Buy);
    lemma_without(book.asks, id, book.asset, OrderSide::Sell);
    let c = book.cancel(id);
    assert forall|x: OrderUuid| !(#[trigger] on_side(c.bids, x) && on_side(c.asks, x)) by {
        if x != id {
            assert(on_side(c.bids, x) == on_side(book.bids, x));
            assert(on_side(c.asks, x) == on_side(book.asks, x));
        }
    }
}

/// No phantom resting orders: placing an order that the book accepts keeps the
/// book valid, so every order in it has something open. The placed order is in
/// the book afterwards exactly if what was left of it came to rest, and then
/// with a positive open quantity; an order with nothing open is not in the
/// book. No other order comes into the book, and every sequence number stays
/// below the one that follows the placed order's.
pub proof fn lemma_place_keeps_book(book: BookView, o: Order)
    requires
        book.wf(),
        book.accepts(o),
    ensures
        book.place(o).book.wf(),
        book.place(o).order.wf(),
        book.place(o).order.continues(o),
        book.place(o).book.contains(o.id) <==> book.place(o).order.remaining > 0
            && book.place(o).order.status != OrderStatus::Rejected,
        book.place(o).book.contains(o.id) ==> book.place(o).book.lookup(o.id) == Some(
            book.place(o).order,
        ),
        forall|other: OrderUuid|
            other != o.id && book.place(o).book.contains(other) ==> book.contains(other),
        forall|seq: u64| book.below(seq) && o.seq < seq ==> book.place(o).book.below(seq),
{
    let opp_side = o.side.opposite();
    let opposite = book.side(opp_side);
    let own = book.side(o.side);
    let p = book.place(o);
    if o.time_in_force == TimeInForce::FillOrKill && !fills_completely(opposite, o) {
    } else {
        let m = match_spec(opposite, o);
        lemma_match_side_wf(opposite, o, book.asset, opp_side);
        let _ = lemma_match_keeps_queue(opposite, o);
        assert(!on_side(m.makers, o.id)) by {
            if on_side(m.makers, o.id) {
                assert(on_side(opposite, o.id));
            }
        }
        if rests(m.taker) {
            lemma_rested(own, m.taker, book.asset, o.side);
            lemma_position(rested(own, m.taker), o.id);
            let w = rested(own, m.taker);
            assert forall|x: OrderUuid| !(#[trigger] on_side(p.book.bids, x) && on_side(
                p.book.asks,
                x,
            )) by {
                if on_side(p.book.bids, x) && on_side(p.book.asks, x) && x != o.id {
                    assert(on_side(w, x) == on_side(own, x));
                    assert(on_side(m.makers, x) ==> on_side(opposite, x));
                    assert(on_side(book.bids, x) && on_side(book.asks, x));
                }
            }
            assert(p.book.lookup(o.id) == Some(m.taker)) by {
                let q = position(w, o.id);
                assert(w[q].id == o.id);
                let r = rest_index(own, m.taker);
                lemma_rest_index(own, m.taker);
                assert(w[r] == m.taker);
                if q != r {
                    assert(w[q].id != w[r].id);
                }
            }
            assert forall|other: OrderUuid|
                other != o.id && p.book.contains(other) implies book.contains(other) by {
                assert(on_side(w, other) == on_side(own, other));
                assert(on_side(m.makers, other) ==> on_side(opposite, other));
            }
            assert forall|seq: u64| book.below(seq) && o.seq < seq implies p.book.below(seq) by {
                assert(below(own, seq));
                assert(below(opposite, seq));
                assert(below(w, seq));
                assert(below(m.makers, seq));
            }
        } else {
            assert forall|x: OrderUuid| !(#[trigger] on_side(p.book.bids, x) && on_side(
                p.book.asks,
                x,
            )) by {
                if on_side(p.book.bids, x) && on_side(p.book.asks, x) {
                    assert(on_side(m.makers, x) ==> on_side(opposite, x));
                    assert(on_side(book.bids, x) && on_side(book.asks, x));
                }
            }
            assert forall|other: OrderUuid|
                other != o.id && p.book.contains(other) implies book.contains(other) by {
                assert(on_side(m.makers, other) ==> on_side(opposite, other));
            }
            assert forall|seq: u64| book.below(seq) && o.seq < seq implies p.book.below(seq) by {
                assert(below(own, seq));
                assert(below(opposite, seq));
                assert(below(m.makers, seq));
            }
        }
    }
}

/// Fill-or-kill is all or nothing: a fresh fill-or-kill order either trades
/// its whole quantity and ends filled, or trades nothing, is rejected, and
/// leaves the book as it was. Either way it does not come to rest.
pub proof fn lemma_fill_or_kill(book: BookView, o: Order)
    requires
        o.time_in_force == TimeInForce::FillOrKill,
        o.remaining == o.quantity,
    ensures
        ({
            let p = book.place(o);
            ||| (executed_total(p.executions) == o.quantity && p.order.remaining == 0)
            ||| (p.executions.len() == 0 && p.book == book && p.order == o.rejected())
        }),
        o.quantity > 0 ==> (executed_total(book.place(o).executions) == o.quantity
            <==> fills_completely(book.side(o.side.opposite()), o)),
{
    let opposite = book.side(o.side.opposite());
    lemma_conservation(opposite, o);
    assert(executed_total(Seq::<Execution>::empty()) == 0);
}

/// Only a good-till-cancelled limit order rests: after an order that was not
/// in a valid book is placed, it is in the book exactly if it is such an
/// order and the crossing loop left some of it open. So what is left of an
/// immediate-or-cancel, fill-or-kill or market order is never in the book.
pub proof fn lemma_rests_only_good_till_cancelled(book: BookView, o: Order)
    requires
        book.wf(),
        !book.contains(o.id),
    ensures
        book.place(o).book.contains(o.id) ==> o.time_in_force == TimeInForce::GoodTillCancelled
            && o.order_type == OrderType::Limit,
        o.time_in_force == TimeInForce::ImmediateOrCancel ==> !book.place(o).book.contains(o.id),
        o.time_in_force == TimeInForce::FillOrKill ==> !book.place(o).book.contains(o.id),
        o.order_type == OrderType::Market ==> !book.place(o).book.contains(o.id),
{
    let opp_side = o.side.opposite();
    let opposite = book.side(opp_side);
    let p = book.place(o);
    if o.time_in_force == TimeInForce::FillOrKill && !fills_completely(opposite, o) {
    } else {
        let m = match_spec(opposite, o);
        lemma_match_side_wf(opposite, o, book.asset, opp_side);
        let _ = lemma_match_keeps_queue(opposite, o);
        assert(on_side(m.makers, o.id) ==> on_side(opposite, o.id));
        if o.time_in_force == TimeInForce::FillOrKill {
            lemma_conservation(opposite, o);
        }
    }
}

/// Price-time priority in the book: of two executions of one placed order,
/// the earlier one is with the resting order that stood further in front on
/// the opposite side, which outranks the other; at equal price it is the one
/// that was sequenced first. Returns the places of the two resting orders on
/// the opposite side as it stood before.
pub proof fn lemma_place_price_time_priority(book: BookView, o: Order, a: int, b: int) -> (ij: (
    int,
    int,
))
    requires
        book.wf(),
        0 <= a < b < book.place(o).executions.len(),
    ensures
        ({
            let makers = book.side(o.side.opposite());
            let ex = book.place(o).executions;
            &&& 0 <= ij.0 < ij.1 < makers.len()
            &&& ex[a].maker == makers[ij.0].id
            &&& ex[b].maker == makers[ij.1].id
            &&& makers[ij.0].outranks(makers[ij.1])
            &&& makers[ij.0].price == makers[ij.1].price ==> makers[ij.0].seq < makers[ij.1].seq
        }),
{
    lemma_price_time_priority(book.side(o.side.opposite()), o, a, b)
}

/// Conservation in the book: the opposite side loses what was traded plus
/// what self-trade protection took off it, and the placed order loses what
/// was traded plus what self-trade protection or the disposition of its
/// remainder took off it. Where no resting order on the opposite side
/// belongs to the placed order's user, the side loses exactly what was
/// traded, and an order that comes to rest has exactly the rest open.
pub proof fn lemma_place_conserves(book: BookView, o: Order)
    ensures
        ({
            let p = book.place(o);
            let before = book.side(o.side.opposite());
            let after = p.book.side(o.side.opposite());
            &&& executed_total(p.executions) <= o.remaining
            &&& open_total(after) + executed_total(p.executions) <= open_total(before)
            &&& p.order.remaining + executed_total(p.executions) <= o.remaining
            &&& (forall|i: int| 0 <= i < before.len() ==> (#[trigger] before[i]).owner != o.owner)
                ==> {
                &&& open_total(after) + executed_total(p.executions) == open_total(before)
                &&& (p.book.contains(o.id) && !book.contains(o.id) ==> p.order.remaining
                    + executed_total(p.executions) == o.remaining)
            }
        }),
{
    let before = book.side(o.side.opposite());
    lemma_conservation(before, o);
    assert(executed_total(Seq::<Execution>::empty()) == 0);
    let p = book.place(o);
    if o.time_in_force == TimeInForce::FillOrKill && !fills_completely(before, o) {
    } else {
        let m = match_spec(before, o);
        if !rests(m.taker) && p.book.contains(o.id) && !book.contains(o.id) {
            let k = lemma_match_keeps_queue(before, o);
            if on_side(m.makers, o.id) {
                let i = choose|i: int| 0 <= i < m.makers.len() && (#[trigger] m.makers[i]).id == o.id;
                assert(m.makers[i].continues(before[i + k]));
                assert(before[i + k].id == o.id);
                assert(on_side(before, o.id));
            }
        }
    }
}

} // verus!
