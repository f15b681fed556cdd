//! The matching engine core: the single owner of every order book, which
//! applies one command at a time.

use vstd::prelude::*;
use crate::asset::{Asset, AssetRegistry};
use crate::book::{lemma_cancel_keeps_book, lemma_place_keeps_book, BookView, OrderBook, Placed};
use crate::side::on_side;
use crate::order::{
    Execution, Order, OrderSide, OrderStatus, OrderType, OrderUuid, SelfTradeProtection,
    TimeInForce, UserUuid,
};

verus! {

/// The command to create an order and route it to its asset's book.
#[derive(Clone, Copy, Debug, PartialEq, Eq, Structural)]
pub struct PlaceOrder {
    pub order_uuid: OrderUuid,
    pub asset: Asset,
    pub owner: UserUuid,
    pub side: OrderSide,
    pub order_type: OrderType,
    pub quantity: u32,
    pub price: u32,
    pub time_in_force: TimeInForce,
    pub stp: SelfTradeProtection,
}

/// The command to take a resting order out of its book.
#[derive(Clone, Copy, Debug, PartialEq, Eq, Structural)]
pub struct CancelOrder {
    pub order_uuid: OrderUuid,
    /// Who asks; only the order's owner may cancel it.
    pub owner: UserUuid,
}

#[derive(Clone, Copy, Debug, PartialEq, Eq, Structural)]
pub enum Command {
    PlaceOrder(PlaceOrder),
    CancelOrder(CancelOrder),
}

impl PlaceOrder {
    /// Structural validity: a positive quantity, and a positive price on a
    /// limit order.
    pub open spec fn valid(self) -> bool {
        self.quantity > 0 && (self.order_type == OrderType::Limit ==> self.price > 0)
    }

    /// Tests `valid`.
    pub fn is_valid(&self) -> (b: bool)
        ensures
            b == self.valid(),
    {
        self.quantity > 0 && (self.order_type != OrderType::Limit || self.price > 0)
    }
}

impl Command {
    /// Structural validity: a cancel-order command is always valid.
    pub open spec fn valid(self) -> bool {
        match self {
            Command::PlaceOrder(p) => p.valid(),
            Command::CancelOrder(_) => true,
        }
    }

    /// Tests `valid`.
    pub fn is_valid(&self) -> (b: bool)
        ensures
            b == self.valid(),
    {
        match self {
            Command::PlaceOrder(p) => p.is_valid(),
            Command::CancelOrder(_) => true,
        }
    }
}

/// Why the engine turned a command away. A command that is turned away
/// changes nothing.
#[derive(Clone, Copy, Debug, PartialEq, Eq, Structural)]
pub enum TradingEngineError {
    /// The payload fails structural validation: a quantity of zero, or a
    /// limit order with a price of zero.
    UnserializableInput,
    /// The asset is not enabled.
    AssetNotEnabled,
    /// An order with this identifier already rests in a book.
    DuplicateOrder,
    /// No order with this identifier rests in a book for this user.
    OrderNotFound,
    /// The engine has no sequence number left to give.
    SequenceExhausted,
}

/// What placing an order came to.
#[derive(Debug)]
pub struct PlaceOrderResult {
    pub order_uuid: OrderUuid,
    /// The trades that the order made, in the order in which they were made.
    pub executions: Vec<Execution>,
    pub status: OrderStatus,
}

/// What cancelling an order came to.
#[derive(Clone, Copy, Debug, PartialEq, Eq, Structural)]
pub struct CancelOrderResult {
    pub order_uuid: OrderUuid,
    /// The quantity that was still open when the order left the book.
    pub released: u32,
}

#[derive(Debug)]
pub enum CommandOutcome {
    Placed(PlaceOrderResult),
    Cancelled(CancelOrderResult),
}

/// A place-order result as a value.
pub struct PlaceOrderResultView {
    pub order_uuid: OrderUuid,
    pub executions: Seq<Execution>,
    pub status: OrderStatus,
}

/// A command's outcome as a value.
pub enum CommandOutcomeView {
    Placed(PlaceOrderResultView),
    Cancelled(CancelOrderResult),
}

impl View for PlaceOrderResult {
    type V = PlaceOrderResultView;

    open spec fn view(&self) -> PlaceOrderResultView {
        PlaceOrderResultView {
            order_uuid: self.order_uuid,
            executions: self.executions@,
            status: self.status,
        }
    }
}

impl View for CommandOutcome {
    type V = CommandOutcomeView;

    open spec fn view(&self) -> CommandOutcomeView {
        match *self {
            CommandOutcome::Placed(r) => CommandOutcomeView::Placed(r@),
            CommandOutcome::Cancelled(c) => CommandOutcomeView::Cancelled(c),
        }
    }
}

/// The answer to a place-order command as a value.
pub open spec fn place_answer_view(r: Result<PlaceOrderResult, TradingEngineError>) -> Result<
    PlaceOrderResultView,
    TradingEngineError,
> {
    match r {
        Ok(res) => Ok(res@),
        Err(e) => Err(e),
    }
}

/// The answer to a command as a value.
pub open spec fn answer_view(r: Result<CommandOutcome, TradingEngineError>) -> Result<
    CommandOutcomeView,
    TradingEngineError,
> {
    match r {
        Ok(out) => Ok(out@),
        Err(e) => Err(e),
    }
}

/// The engine as a value.
pub struct EngineView {
    pub registry: AssetRegistry,
    pub bitcoin: BookView,
    pub ether: BookView,
    /// The sequence number that the next order gets.
    pub next_seq: u64,
}

impl EngineView {
    /// The book of `asset`.
    pub open spec fn book(self, asset: Asset) -> BookView {
        match asset {
            Asset::Bitcoin => self.bitcoin,
            Asset::Ether => self.ether,
        }
    }

    /// This engine with `book` in the place of the book of `asset`.
    pub open spec fn with_book(self, asset: Asset, book: BookView) -> EngineView {
        match asset {
            Asset::Bitcoin => EngineView { bitcoin: book, ..self },
            Asset::Ether => EngineView { ether: book, ..self },
        }
    }

    /// Whether the order `id` rests in any book.
    pub open spec fn contains(self, id: OrderUuid) -> bool {
        self.bitcoin.contains(id) || self.ether.contains(id)
    }

    /// The invariant of the engine: each book is valid and is the book of its
    /// asset, every resting order was sequenced before `next_seq`, and no
    /// identifier rests in two books.
    pub open spec fn wf(self) -> bool {
        &&& self.bitcoin.wf()
        &&& self.ether.wf()
        &&& self.bitcoin.asset == Asset::Bitcoin
        &&& self.ether.asset == Asset::Ether
        &&& self.bitcoin.below(self.next_seq)
        &&& self.ether.below(self.next_seq)
        &&& forall|id: OrderUuid| !(#[trigger] self.bitcoin.contains(id) && self.ether.contains(id))
    }

    /// Why a place-order command is turned away, if it is. The checks come in
    /// this order: the payload, the asset, the identifier, the sequence.
    pub open spec fn refusal(self, p: PlaceOrder) -> Option<TradingEngineError> {
        if !p.valid() {
            Some(TradingEngineError::UnserializableInput)
        } else if !self.registry.enabled(p.asset) {
            Some(TradingEngineError::AssetNotEnabled)
        } else if self.contains(p.order_uuid) {
            Some(TradingEngineError::DuplicateOrder)
        } else if self.next_seq == u64::MAX {
            Some(TradingEngineError::SequenceExhausted)
        } else {
            None
        }
    }

    /// The order that the engine makes of a command at intake: all of it open,
    /// with the next sequence number.
    pub open spec fn intake(self, p: PlaceOrder) -> Order {
        Order {
            id: p.order_uuid,
            owner: p.owner,
            asset: p.asset,
            side: p.side,
            order_type: p.order_type,
            quantity: p.quantity,
            price: p.price,
            time_in_force: p.time_in_force,
            stp: p.stp,
            seq: self.next_seq,
            remaining: p.quantity,
            status: OrderStatus::Resting,
        }
    }

    /// What placing the order of `p` does to its asset's book.
    pub open spec fn placed(self, p: PlaceOrder) -> Placed {
        self.book(p.asset).place(self.intake(p))
    }

    /// The answer to a place-order command: why it is turned away, or the
    /// order's identifier, its trades, and the status it ends with.
    pub open spec fn place_answer(self, p: PlaceOrder) -> Result<
        PlaceOrderResultView,
        TradingEngineError,
    > {
        match self.refusal(p) {
            Some(e) => Err(e),
            None => Ok(
                PlaceOrderResultView {
                    order_uuid: p.order_uuid,
                    executions: self.placed(p).executions,
                    status: self.placed(p).order.status,
                },
            ),
        }
    }

    /// The engine after a place-order command: unchanged if the command is
    /// turned away; else only the asset's book changes, and the sequence
    /// number goes up by one.
    pub open spec fn after_place(self, p: PlaceOrder) -> EngineView {
        if self.refusal(p) is Some {
            self
        } else {
            EngineView { next_seq: (self.next_seq + 1) as u64, ..self }.with_book(
                p.asset,
                self.placed(p).book,
            )
        }
    }

    /// The resting order that `c` may cancel: the one with its identifier, if
    /// it belongs to the user who asks.
    pub open spec fn target(self, c: CancelOrder) -> Option<Order> {
        let found = match self.bitcoin.lookup(c.order_uuid) {
            Some(o) => Some(o),
            None => self.ether.lookup(c.order_uuid),
        };
        match found {
            Some(o) => if o.owner == c.owner {
                Some(o)
            } else {
                None
            },
            None => None,
        }
    }

    /// The answer to a cancel-order command: the open quantity that the
    /// order gave up, or that no such order was found.
    pub open spec fn cancel_answer(self, c: CancelOrder) -> Result<
        CancelOrderResult,
        TradingEngineError,
    > {
        match self.target(c) {
            Some(o) => Ok(CancelOrderResult { order_uuid: c.order_uuid, released: o.remaining }),
            None => Err(TradingEngineError::OrderNotFound),
        }
    }

    /// The engine after a cancel-order command: without the order if the
    /// command names a resting order of the user who asks, else unchanged.
    pub open spec fn after_cancel(self, c: CancelOrder) -> EngineView {
        match self.target(c) {
            Some(o) => EngineView {
                bitcoin: self.bitcoin.cancel(c.order_uuid),
                ether: self.ether.cancel(c.order_uuid),
                ..self
            },
            None => self,
        }
    }

    /// The engine after any command.
    pub open spec fn after(self, command: Command) -> EngineView {
        match command {
            Command::PlaceOrder(p) => self.after_place(p),
            Command::CancelOrder(c) => self.after_cancel(c),
        }
    }

    /// The answer to any command.
    pub open spec fn answer(self, command: Command) -> Result<
        CommandOutcomeView,
        TradingEngineError,
    > {
        match command {
            Command::PlaceOrder(p) => match self.place_answer(p) {
                Ok(r) => Ok(CommandOutcomeView::Placed(r)),
                Err(e) => Err(e),
            },
            Command::CancelOrder(c) => match self.cancel_answer(c) {
                Ok(r) => Ok(CommandOutcomeView::Cancelled(r)),
                Err(e) => Err(e),
            },
        }
    }
}

/// The matching engine: every order book, the registry of enabled assets, and
/// the sequence counter.
pub struct Engine {
    registry: AssetRegistry,
    bitcoin: OrderBook,
    ether: OrderBook,
    next_seq: u64,
}

impl View for Engine {
    type V = EngineView;

    closed spec fn view(&self) -> EngineView {
        EngineView {
            registry: self.registry,
            bitcoin: self.bitcoin@,
            ether: self.ether@,
            next_seq: self.next_seq,
        }
    }
}

impl Engine {
    /// An engine with empty books, which gives the sequence number 0 first.
    pub fn new(registry: AssetRegistry) -> (e: Engine)
        ensures
            e@.wf(),
            e@.registry == registry,
            e@.next_seq == 0,
            e@.bitcoin.bids.len() == 0 && e@.bitcoin.asks.len() == 0,
            e@.ether.bids.len() == 0 && e@.ether.asks.len() == 0,
    {
        Engine {
            registry,
            bitcoin: OrderBook::new(Asset::Bitcoin),
            ether: OrderBook::new(Asset::Ether),
            next_seq: 0,
        }
    }

    /// An engine with empty books, which gives the sequence number
    /// `next_seq` first: an engine that goes on where an earlier one stopped.
    pub fn starting_at(registry: AssetRegistry, next_seq: u64) -> (e: Engine)
        ensures
            e@.wf(),
            e@.registry == registry,
            e@.next_seq == next_seq,
            e@.bitcoin.bids.len() == 0 && e@.bitcoin.asks.len() == 0,
            e@.ether.bids.len() == 0 && e@.ether.asks.len() == 0,
    {
        Engine {
            registry,
            bitcoin: OrderBook::new(Asset::Bitcoin),
            ether: OrderBook::new(Asset::Ether),
            next_seq,
        }
    }

    /// The registry of enabled assets.
    pub fn registry(&self) -> (r: AssetRegistry)
        ensures
            r == self@.registry,
    {
        self.registry
    }

    /// The sequence number that the next order gets.
    pub fn next_seq(&self) -> (n: u64)
        ensures
            n == self@.next_seq,
    {
        self.next_seq
    }

    /// The book of `asset`, to look at.
    pub fn book(&self, asset: Asset) -> (b: &OrderBook)
        ensures
            b@ == self@.book(asset),
    {
        match asset {
            Asset::Bitcoin => &self.bitcoin,
            Asset::Ether => &self.ether,
        }
    }

    /// Whether the order `id` rests in any book.
    pub fn is_resting(&self, id: OrderUuid) -> (b: bool)
        ensures
            b == self@.contains(id),
    {
        self.bitcoin.find(id).is_some() || self.ether.find(id).is_some()
    }

    /// Tests the invariant of the engine. An engine made by `new` or
    /// `starting_at` and changed only through its commands passes; one that
    /// does not is corrupt, and nothing that it answers can be trusted.
    pub fn is_consistent(&self) -> (ok: bool)
        ensures
            ok == self@.wf(),
    {
        let ok = self.bitcoin.check(self.next_seq) && self.ether.check(self.next_seq)
            && self.bitcoin.asset() == Asset::Bitcoin && self.ether.asset() == Asset::Ether
            && self.ether.holds_none_of(self.bitcoin.bids()) && self.ether.holds_none_of(
            self.bitcoin.asks(),
        );
        proof {
            if ok {
                assert forall|id: OrderUuid| !(#[trigger] self@.bitcoin.contains(id)
                    && self@.ether.contains(id)) by {
                    assert(!(on_side(self@.bitcoin.bids, id) && self@.ether.contains(id)));
                    assert(!(on_side(self@.bitcoin.asks, id) && self@.ether.contains(id)));
                }
            } else if self@.wf() {
                assert forall|id: OrderUuid| !(#[trigger] on_side(self@.bitcoin.bids, id)
                    && self@.ether.contains(id)) by {
                    assert(!(self@.bitcoin.contains(id) && self@.ether.contains(id)));
                }
                assert forall|id: OrderUuid| !(#[trigger] on_side(self@.bitcoin.asks, id)
                    && self@.ether.contains(id)) by {
                    assert(!(self@.bitcoin.contains(id) && self@.ether.contains(id)));
                }
            }
        }
        ok
    }

    /// Checks a place-order command as intake does, without changing anything.
    pub fn check(&self, p: &PlaceOrder) -> (r: Option<TradingEngineError>)
        ensures
            r == self@.refusal(*p),
    {
        if !p.is_valid() {
            Some(TradingEngineError::UnserializableInput)
        } else if !self.registry.is_enabled(p.asset) {
            Some(TradingEngineError::AssetNotEnabled)
        } else if self.is_resting(p.order_uuid) {
            Some(TradingEngineError::DuplicateOrder)
        } else if self.next_seq == u64::MAX {
            Some(TradingEngineError::SequenceExhausted)
        } else {
            None
        }
    }

    /// Creates the order of `p`, routes it to its asset's book and matches it
    /// there. A command that is turned away changes nothing.
    pub fn place_order(&mut self, p: PlaceOrder) -> (r: Result<PlaceOrderResult, TradingEngineError>)
        ensures
            final(self)@ == old(self)@.after_place(p),
            place_answer_view(r) == old(self)@.place_answer(p),
            old(self)@.wf() ==> final(self)@.wf(),
    {
        match self.check(&p) {
            Some(e) => {
                return Err(e);
            },
            None => {},
        }
        let order = Order::new(
            p.order_uuid,
            p.owner,
            p.asset,
            p.side,
            p.order_type,
            p.quantity,
            p.price,
            p.time_in_force,
            p.stp,
            self.next_seq,
        );
        proof {
            if self@.wf() {
                lemma_place_keeps_engine(self@, p);
            }
        }
        let placement = match p.asset {
            Asset::Bitcoin => self.bitcoin.insert(order),
            Asset::Ether => self.ether.insert(order),
        };
        self.next_seq = self.next_seq + 1;
        Ok(
            PlaceOrderResult {
                order_uuid: p.order_uuid,
                executions: placement.executions,
                status: placement.order.status,
            },
        )
    }

    /// Takes the resting order that `c` names out of its book, if it belongs
    /// to the user who asks. Anything else changes nothing.
    pub fn cancel_order(&mut self, c: CancelOrder) -> (r: Result<
        CancelOrderResult,
        TradingEngineError,
    >)
        ensures
            final(self)@ == old(self)@.after_cancel(c),
            r == old(self)@.cancel_answer(c),
            old(self)@.wf() ==> final(self)@.wf(),
            old(self)@.wf() && r is Ok ==> !final(self)@.contains(c.order_uuid),
    {
        let found = match self.bitcoin.find(c.order_uuid) {
            Some(o) => Some(o),
            None => self.ether.find(c.order_uuid),
        };
        match found {
            Some(o) => {
                if o.owner == c.owner {
                    proof {
                        if self@.wf() {
                            lemma_cancel_keeps_engine(self@, c);
                        }
                    }
                    self.bitcoin.cancel(c.order_uuid);
                    self.ether.cancel(c.order_uuid);
                    Ok(CancelOrderResult { order_uuid: c.order_uuid, released: o.remaining })
                } else {
                    Err(TradingEngineError::OrderNotFound)
                }
            },
            None => Err(TradingEngineError::OrderNotFound),
        }
    }

    /// Applies one command to completion.
    pub fn handle(&mut self, command: Command) -> (r: Result<CommandOutcome, TradingEngineError>)
        ensures
            final(self)@ == old(self)@.after(command),
            answer_view(r) == old(self)@.answer(command),
            old(self)@.wf() ==> final(self)@.wf(),
    {
        match command {
            Command::PlaceOrder(p) => match self.place_order(p) {
                Ok(res) => Ok(CommandOutcome::Placed(res)),
                Err(e) => Err(e),
            },
            Command::CancelOrder(c) => match self.cancel_order(c) {
                Ok(res) => Ok(CommandOutcome::Cancelled(res)),
                Err(e) => Err(e),
            },
        }
    }
}

/// A place-order command keeps the engine valid: every book stays valid, so
/// every resting order has something open; the other asset's book is not
/// touched; and the order rests afterwards exactly if it is reported as
/// resting or partially filled.
pub proof fn lemma_place_keeps_engine(engine: EngineView, p: PlaceOrder)
    requires
        engine.wf(),
    ensures
        engine.after_place(p).wf(),
        forall|a: Asset| a != p.asset ==> engine.after_place(p).book(a) == engine.book(a),
        engine.refusal(p) is Some ==> engine.after_place(p) == engine,
        engine.refusal(p) is None ==> (engine.after_place(p).contains(p.order_uuid) <==> (
        engine.placed(p).order.status == OrderStatus::Resting || engine.placed(p).order.status
            == OrderStatus::PartiallyFilled)),
        engine.refusal(p) is None ==> forall|other: OrderUuid|
            other != p.order_uuid && engine.after_place(p).contains(other) ==> engine.contains(
                other,
            ),
{
    if engine.refusal(p) is None {
        let o = engine.intake(p);
        let book = engine.book(p.asset);
        assert(book.accepts(o));
        lemma_place_keeps_book(book, o);
        let after = engine.after_place(p);
        assert(after.next_seq == engine.next_seq + 1);
        assert(engine.bitcoin.below(after.next_seq));
        assert(engine.ether.below(after.next_seq));
        assert(book.below(after.next_seq) && o.seq < after.next_seq);
        assert(book.place(o).book.below(after.next_seq));
        assert(after.bitcoin.below(after.next_seq));
        assert(after.ether.below(after.next_seq));
        assert forall|id: OrderUuid| !(#[trigger] after.bitcoin.contains(id) && after.ether.contains(
            id,
        )) by {
            if after.bitcoin.contains(id) && after.ether.contains(id) {
                if id != p.order_uuid {
                    assert(engine.bitcoin.contains(id) && engine.ether.contains(id));
                }
            }
        }
    }
}

/// A cancel-order command keeps the engine valid, and the order that it names
/// rests nowhere afterwards if the command took effect.
pub proof fn lemma_cancel_keeps_engine(engine: EngineView, c: CancelOrder)
    requires
        engine.wf(),
    ensures
        engine.after_cancel(c).wf(),
        engine.target(c) is Some ==> !engine.after_cancel(c).contains(c.order_uuid),
        engine.target(c) is None ==> engine.after_cancel(c) == engine,
        forall|other: OrderUuid|
            other != c.order_uuid ==> engine.after_cancel(c).contains(other) == engine.contains(
                other,
            ),
{
    lemma_cancel_keeps_book(engine.bitcoin, c.order_uuid);
    lemma_cancel_keeps_book(engine.ether, c.order_uuid);
    let after = engine.after_cancel(c);
    assert forall|id: OrderUuid| !(#[trigger] after.bitcoin.contains(id) && after.ether.contains(
        id,
    )) by {
        if id != c.order_uuid {
            assert(engine.bitcoin.contains(id) == after.bitcoin.contains(id));
        }
    }
}

} // verus!
