//! Orders, their policies, and the executions that matching produces.

use vstd::prelude::*;
use crate::asset::Asset;

verus! {

/// Identifier of an order: opaque, chosen when the order is submitted.
#[derive(Clone, Copy, Debug, PartialEq, Eq, Structural, Hash)]
pub struct OrderUuid(pub u128);

/// Identifier of an authenticated user.
#[derive(Clone, Copy, Debug, PartialEq, Eq, Structural, Hash)]
pub struct UserUuid(pub u128);

#[derive(Clone, Copy, Debug, PartialEq, Eq, Structural, Hash)]
pub enum OrderSide {
    Buy,
    Sell,
}

#[derive(Clone, Copy, Debug, PartialEq, Eq, Structural, Hash)]
pub enum OrderType {
    Limit,
    Market,
}

/// What becomes of the part of an order that does not execute at once.
#[derive(Clone, Copy, Debug, PartialEq, Eq, Structural, Hash)]
pub enum TimeInForce {
    /// The remainder rests on the book.
    GoodTillCancelled,
    /// The remainder is discarded.
    ImmediateOrCancel,
    /// The order executes in full at once or not at all.
    FillOrKill,
}

/// What happens when an incoming order meets a resting order of its own user.
#[derive(Clone, Copy, Debug, PartialEq, Eq, Structural, Hash)]
pub enum SelfTradeProtection {
    /// The incoming order's remainder is cancelled; matching stops.
    CancelNewest,
    /// The resting order is cancelled; matching goes on.
    CancelOldest,
    /// Both are cancelled; matching stops.
    CancelBoth,
    /// Both lose the smaller of the two open quantities; the smaller one is
    /// cancelled, and matching goes on if the incoming order is the larger.
    DecrementAndCancel,
}

#[derive(Clone, Copy, Debug, PartialEq, Eq, Structural, Hash)]
pub enum OrderStatus {
    /// Nothing is open, and the last change was an execution.
    Filled,
    /// Part has executed and the rest is open.
    PartiallyFilled,
    /// Nothing has executed and all that is left is open.
    Resting,
    /// Nothing is open, and the last change was a cancellation.
    Cancelled,
    /// Turned away whole, before anything executed.
    Rejected,
}

impl Default for TimeInForce {
    fn default() -> (r: TimeInForce)
        ensures
            r == TimeInForce::GoodTillCancelled,
    {
        TimeInForce::GoodTillCancelled
    }
}

impl Default for SelfTradeProtection {
    fn default() -> (r: SelfTradeProtection)
        ensures
            r == SelfTradeProtection::CancelNewest,
    {
        SelfTradeProtection::CancelNewest
    }
}

impl OrderSide {
    pub open spec fn opposite_spec(self) -> OrderSide {
        match self {
            OrderSide::Buy => OrderSide::Sell,
            OrderSide::Sell => OrderSide::Buy,
        }
    }

    /// The side that an order of this side trades against.
    #[verifier::when_used_as_spec(opposite_spec)]
    pub fn opposite(self) -> (r: OrderSide)
        ensures
            r == self.opposite_spec(),
    {
        match self {
            OrderSide::Buy => OrderSide::Sell,
            OrderSide::Sell => OrderSide::Buy,
        }
    }
}

/// One order, as the engine holds it. Everything but `remaining` and `status`
/// stays as it was at intake.
#[derive(Clone, Copy, Debug, PartialEq, Eq, Structural)]
pub struct Order {
    pub id: OrderUuid,
    pub owner: UserUuid,
    pub asset: Asset,
    pub side: OrderSide,
    pub order_type: OrderType,
    /// The quantity asked for at intake, in whole lots.
    pub quantity: u32,
    /// Limit price; a market order carries one and ignores it.
    pub price: u32,
    pub time_in_force: TimeInForce,
    pub stp: SelfTradeProtection,
    /// Intake sequence number: the tie-break within a price level.
    pub seq: u64,
    /// Quantity that is still open.
    pub remaining: u32,
    pub status: OrderStatus,
}

/// One match between an incoming (taker) and a resting (maker) order.
#[derive(Clone, Copy, Debug, PartialEq, Eq, Structural)]
pub struct Execution {
    pub taker: OrderUuid,
    pub maker: OrderUuid,
    pub asset: Asset,
    pub quantity: u32,
    /// The maker's price.
    pub price: u32,
    /// Sequence number of the command that caused the match.
    pub seq: u64,
}

impl Order {
    /// The invariant of an order: a positive quantity, a positive price on a
    /// limit order, no more open than was asked for, and nothing open exactly
    /// when the order is filled or cancelled.
    pub open spec fn wf(self) -> bool {
        &&& self.quantity > 0
        &&& self.remaining <= self.quantity
        &&& (self.order_type == OrderType::Limit ==> self.price > 0)
        &&& (self.remaining == 0 <==> (self.status == OrderStatus::Filled || self.status
            == OrderStatus::Cancelled))
        &&& (self.status == OrderStatus::Rejected ==> self.remaining == self.quantity)
    }

    /// An order as it stands at intake: all of it open, nothing executed.
    pub open spec fn fresh(self) -> bool {
        &&& self.wf()
        &&& self.remaining == self.quantity
        &&& self.status == OrderStatus::Resting
    }

    /// An order that may stand in a book: a limit order with something open.
    pub open spec fn live(self) -> bool {
        &&& self.wf()
        &&& self.remaining > 0
        &&& self.order_type == OrderType::Limit
        &&& self.status != OrderStatus::Rejected
    }

    /// Whether this order, as taker, may trade at the price of `maker`: a
    /// market order at any price, a limit buy at its limit or below, a limit
    /// sell at its limit or above.
    pub open spec fn crosses(self, maker: Order) -> bool {
        match self.order_type {
            OrderType::Market => true,
            OrderType::Limit => match self.side {
                OrderSide::Buy => maker.price <= self.price,
                OrderSide::Sell => maker.price >= self.price,
            },
        }
    }

    /// Whether this order stands before `other` in a side's queue: at a better
    /// price for the side, or at the same price with the lower sequence number.
    pub open spec fn outranks(self, other: Order) -> bool {
        match self.side {
            OrderSide::Buy => self.price > other.price || (self.price == other.price && self.seq
                < other.seq),
            OrderSide::Sell => self.price < other.price || (self.price == other.price && self.seq
                < other.seq),
        }
    }

    /// Whether this is the order `earlier` at a later time: everything that
    /// is fixed at intake is the same, and no more is open than was.
    pub open spec fn continues(self, earlier: Order) -> bool {
        &&& self.id == earlier.id
        &&& self.owner == earlier.owner
        &&& self.asset == earlier.asset
        &&& self.side == earlier.side
        &&& self.order_type == earlier.order_type
        &&& self.quantity == earlier.quantity
        &&& self.price == earlier.price
        &&& self.time_in_force == earlier.time_in_force
        &&& self.stp == earlier.stp
        &&& self.seq == earlier.seq
        &&& self.remaining <= earlier.remaining
    }

    /// This order after `q` of it has executed.
    pub open spec fn filled_by(self, q: u32) -> Order {
        let left = (self.remaining - q) as u32;
        Order {
            remaining: left,
            status: if left == 0 {
                OrderStatus::Filled
            } else {
                OrderStatus::PartiallyFilled
            },
            ..self
        }
    }

    /// This order after self-trade protection took `q` off it without a trade.
    pub open spec fn decremented_by(self, q: u32) -> Order {
        let left = (self.remaining - q) as u32;
        Order {
            remaining: left,
            status: if left == 0 {
                OrderStatus::Cancelled
            } else {
                self.status
            },
            ..self
        }
    }

    /// This order with whatever was open given up.
    pub open spec fn cancelled(self) -> Order {
        Order { remaining: 0, status: OrderStatus::Cancelled, ..self }
    }

    /// This order turned away whole.
    pub open spec fn rejected(self) -> Order {
        Order { status: OrderStatus::Rejected, ..self }
    }

    /// A new order with all of `quantity` open.
    pub fn new(
        id: OrderUuid,
        owner: UserUuid,
        asset: Asset,
        side: OrderSide,
        order_type: OrderType,
        quantity: u32,
        price: u32,
        time_in_force: TimeInForce,
        stp: SelfTradeProtection,
        seq: u64,
    ) -> (o: Order)
        ensures
            o == (Order {
                id,
                owner,
                asset,
                side,
                order_type,
                quantity,
                price,
                time_in_force,
                stp,
                seq,
                remaining: quantity,
                status: OrderStatus::Resting,
            }),
            (quantity > 0 && (order_type == OrderType::Limit ==> price > 0)) ==> o.fresh(),
    {
        Order {
            id,
            owner,
            asset,
            side,
            order_type,
            quantity,
            price,
            time_in_force,
            stp,
            seq,
            remaining: quantity,
            status: OrderStatus::Resting,
        }
    }

    /// Tests `wf`.
    pub fn is_wf(&self) -> (b: bool)
        ensures
            b == self.wf(),
    {
        let done = self.status == OrderStatus::Filled || self.status == OrderStatus::Cancelled;
        self.quantity > 0 && self.remaining <= self.quantity && (self.order_type
            != OrderType::Limit || self.price > 0) && (self.remaining == 0) == done && (self.status
            != OrderStatus::Rejected || self.remaining == self.quantity)
    }

    /// Tests `live`.
    pub fn is_live(&self) -> (b: bool)
        ensures
            b == self.live(),
    {
        self.is_wf() && self.remaining > 0 && self.order_type == OrderType::Limit && self.status
            != OrderStatus::Rejected
    }

    /// Tests `crosses`.
    pub fn is_crossing(&self, maker: &Order) -> (b: bool)
        ensures
            b == self.crosses(*maker),
    {
        match self.order_type {
            OrderType::Market => true,
            OrderType::Limit => match self.side {
                OrderSide::Buy => maker.price <= self.price,
                OrderSide::Sell => maker.price >= self.price,
            },
        }
    }

    /// Tests `outranks`.
    pub fn is_ahead_of(&self, other: &Order) -> (b: bool)
        ensures
            b == self.outranks(*other),
    {
        match self.side {
            OrderSide::Buy => self.price > other.price || (self.price == other.price && self.seq
                < other.seq),
            OrderSide::Sell => self.price < other.price || (self.price == other.price && self.seq
                < other.seq),
        }
    }

    /// Executes `q` of the open quantity.
    pub fn fill(&mut self, q: u32)
        requires
            q <= old(self).remaining,
        ensures
            *final(self) == old(self).filled_by(q),
            final(self).remaining + q == old(self).remaining,
            old(self).wf() ==> final(self).wf(),
    {
        self.remaining = self.remaining - q;
        if self.remaining == 0 {
            self.status = OrderStatus::Filled;
        } else {
            self.status = OrderStatus::PartiallyFilled;
        }
    }

    /// Takes `q` off the open quantity without a trade.
    pub fn decrement(&mut self, q: u32)
        requires
            q <= old(self).remaining,
        ensures
            *final(self) == old(self).decremented_by(q),
            final(self).remaining + q == old(self).remaining,
            old(self).wf() && old(self).status != OrderStatus::Rejected ==> final(self).wf(),
    {
        self.remaining = self.remaining - q;
        if self.remaining == 0 {
            self.status = OrderStatus::Cancelled;
        }
    }

    /// Gives up whatever is open.
    pub fn cancel(&mut self)
        ensures
            *final(self) == old(self).cancelled(),
            old(self).wf() ==> final(self).wf(),
    {
        self.remaining = 0;
        self.status = OrderStatus::Cancelled;
    }
}

} // verus!
