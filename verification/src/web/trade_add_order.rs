//! Placing an order for an asset on behalf of an authenticated user.

use vstd::prelude::*;
use crate::asset::{Asset, AssetRegistry};
use crate::engine::{PlaceOrder, PlaceOrderResult, TradingEngineError};
use crate::order::{
    OrderSide, OrderType, OrderUuid, SelfTradeProtection, TimeInForce, UserUuid,
};

verus! {

/// The body of a request to place an order.
#[derive(Clone, Copy, Debug, PartialEq, Eq, Structural)]
pub struct TradeAddOrder {
    pub side: OrderSide,
    pub order_type: OrderType,
    pub quantity: u32,
    pub price: u32,
    pub time_in_force: TimeInForce,
    pub stp: SelfTradeProtection,
}

/// What a caller is told of an order that the engine took.
#[derive(Clone, Copy, Debug, PartialEq, Eq, Structural)]
pub struct TradeAddOrderResponse {
    pub order_uuid: OrderUuid,
}

/// Why a request is turned away before anything is reserved or submitted.
#[derive(Clone, Copy, Debug, PartialEq, Eq, Structural)]
pub enum AddOrderRefusal {
    /// The path names no asset that the exchange knows.
    InvalidAsset,
    /// The asset is known but not enabled.
    AssetNotEnabled,
}

/// What the caller of the order-entry API is told in the end.
#[derive(Clone, Copy, Debug, PartialEq, Eq, Structural)]
pub enum AddOrderReply {
    /// The engine took the order.
    Placed(TradeAddOrderResponse),
    /// The engine found the input problematic.
    Problematic,
    /// The engine turned the order away for another reason.
    Failed,
    /// The engine did not answer in time.
    Unresponsive,
}

/// What the wait on a response slot yields: nothing if the bound elapsed,
/// else the engine's answer.
pub type Answer = Option<Result<PlaceOrderResult, TradingEngineError>>;

/// The asset that a path segment names: `btc` or `BTC`, `eth` or `ETH`.
pub open spec fn asset_named(name: Seq<char>) -> Option<Asset> {
    if name == "btc"@ || name == "BTC"@ {
        Some(Asset::Bitcoin)
    } else if name == "eth"@ || name == "ETH"@ {
        Some(Asset::Ether)
    } else {
        None
    }
}

/// Where a request for the asset called `name` goes.
pub open spec fn routed(registry: AssetRegistry, name: Seq<char>) -> Result<
    Asset,
    AddOrderRefusal,
> {
    match asset_named(name) {
        None => Err(AddOrderRefusal::InvalidAsset),
        Some(a) => if registry.enabled(a) {
            Ok(a)
        } else {
            Err(AddOrderRefusal::AssetNotEnabled)
        },
    }
}

/// The command that a request becomes, for the order identifier `id`.
pub open spec fn command_of(id: OrderUuid, asset: Asset, user: UserUuid, body: TradeAddOrder)
    -> PlaceOrder {
    PlaceOrder {
        order_uuid: id,
        asset,
        owner: user,
        side: body.side,
        order_type: body.order_type,
        quantity: body.quantity,
        price: body.price,
        time_in_force: body.time_in_force,
        stp: body.stp,
    }
}

/// What is held for a request while its order is with the engine: for a
/// buy the most that it can cost, quantity times price; for a sell the
/// quantity that it offers.
pub open spec fn held_for(body: TradeAddOrder) -> int {
    match body.side {
        OrderSide::Buy => body.quantity * body.price,
        OrderSide::Sell => body.quantity as int,
    }
}

/// Whether an identifier has the shape of a random (version 4) UUID of the
/// RFC 4122 variant.
pub open spec fn is_random_uuid(id: u128) -> bool {
    (id >> 76) & 0xf == 4 && (id >> 62) & 0x3 == 2
}

fn same_text(a: &str, b: &str) -> (r: bool)
    ensures
        r == (a@ == b@),
{
    a.to_owned() == b.to_owned()
}

/// Reads the asset that a path segment names.
pub fn parse_asset(name: &str) -> (r: Option<Asset>)
    ensures
        r == asset_named(name@),
{
    if same_text(name, "btc") || same_text(name, "BTC") {
        Some(Asset::Bitcoin)
    } else if same_text(name, "eth") || same_text(name, "ETH") {
        Some(Asset::Ether)
    } else {
        None
    }
}

/// Decides where a request for the asset called `name` goes: to that asset
/// if it is known and enabled.
pub fn route(registry: &AssetRegistry, name: &str) -> (r: Result<Asset, AddOrderRefusal>)
    ensures
        r == routed(*registry, name@),
{
    match parse_asset(name) {
        None => Err(AddOrderRefusal::InvalidAsset),
        Some(a) => if registry.is_enabled(a) {
            Ok(a)
        } else {
            Err(AddOrderRefusal::AssetNotEnabled)
        },
    }
}

/// `uuid::Uuid::new_v4`, as a 128-bit number. The identifier is random; all
/// that is claimed is what the function sets after drawing it: the version
/// bits say 4 and the variant bits say RFC 4122.
#[verifier::external_body]
fn new_v4() -> (id: u128)
    ensures
        is_random_uuid(id),
{
    uuid::Uuid::new_v4().as_u128()
}

impl TradeAddOrder {
    /// The command that this request becomes, for the order identifier `id`.
    pub fn into_command(self, id: OrderUuid, asset: Asset, user: UserUuid) -> (p: PlaceOrder)
        ensures
            p == command_of(id, asset, user, self),
    {
        PlaceOrder {
            order_uuid: id,
            asset,
            owner: user,
            side: self.side,
            order_type: self.order_type,
            quantity: self.quantity,
            price: self.price,
            time_in_force: self.time_in_force,
            stp: self.stp,
        }
    }

    /// The amount to reserve for this request before it is submitted.
    pub fn reservation_amount(&self) -> (amount: u64)
        ensures
            amount == held_for(*self),
    {
        match self.side {
            OrderSide::Buy => {
                assert(self.quantity * self.price <= u64::MAX) by (nonlinear_arith)
                    requires
                        self.quantity <= u32::MAX,
                        self.price <= u32::MAX,
                ;
                self.quantity as u64 * self.price as u64
            },
            OrderSide::Sell => self.quantity as u64,
        }
    }

    /// The command that this request becomes, under a new random identifier.
    pub fn submit_as(self, asset: Asset, user: UserUuid) -> (p: PlaceOrder)
        ensures
            p == command_of(p.order_uuid, asset, user, self),
            is_random_uuid(p.order_uuid.0),
    {
        let id = OrderUuid(new_v4());
        self.into_command(id, asset, user)
    }
}

/// Whether the reservation made for an order is kept: only if the engine
/// answered in time and took the order. Otherwise the deferred revert runs.
pub fn keeps_reservation(answer: &Answer) -> (keep: bool)
    ensures
        keep == (*answer matches Some(Ok(_))),
{
    match answer {
        Some(Ok(_)) => true,
        _ => false,
    }
}

/// What the caller is told for an answer.
pub fn reply_to(answer: &Answer) -> (r: AddOrderReply)
    ensures
        r == match *answer {
            Some(Ok(res)) => AddOrderReply::Placed(
                TradeAddOrderResponse { order_uuid: res.order_uuid },
            ),
            Some(Err(TradingEngineError::UnserializableInput)) => AddOrderReply::Problematic,
            Some(Err(_)) => AddOrderReply::Failed,
            None => AddOrderReply::Unresponsive,
        },
{
    match answer {
        Some(Ok(res)) => AddOrderReply::Placed(TradeAddOrderResponse { order_uuid: res.order_uuid }),
        Some(Err(TradingEngineError::UnserializableInput)) => AddOrderReply::Problematic,
        Some(Err(_)) => AddOrderReply::Failed,
        None => AddOrderReply::Unresponsive,
    }
}

impl AddOrderRefusal {
    /// The HTTP status of the refusal: 404 either way.
    pub fn status_code(&self) -> (code: u16)
        ensures
            code == 404,
    {
        404
    }

    /// The text that goes with the refusal.
    pub fn message(&self) -> (m: &'static str)
        ensures
            m@ == match *self {
                AddOrderRefusal::InvalidAsset => "invalid asset"@,
                AddOrderRefusal::AssetNotEnabled => "asset not enabled"@,
            },
    {
        match self {
            AddOrderRefusal::InvalidAsset => "invalid asset",
            AddOrderRefusal::AssetNotEnabled => "asset not enabled",
        }
    }
}

impl AddOrderReply {
    /// The HTTP status of the reply: 200 for an order that was taken, else 500.
    pub fn status_code(&self) -> (code: u16)
        ensures
            code == (if *self is Placed {
                200u16
            } else {
                500u16
            }),
    {
        match self {
            AddOrderReply::Placed(_) => 200,
            _ => 500,
        }
    }

    /// The text that goes with a reply that is not an order; empty otherwise.
    pub fn message(&self) -> (m: &'static str)
        ensures
            m@ == match *self {
                AddOrderReply::Placed(_) => ""@,
                AddOrderReply::Problematic =>
                    "this input was considered problematic and could not be processed"@,
                AddOrderReply::Failed => "failed to place order"@,
                AddOrderReply::Unresponsive => "trading engine unresponsive"@,
            },
    {
        match self {
            AddOrderReply::Placed(_) => "",
            AddOrderReply::Problematic =>
                "this input was considered problematic and could not be processed",
            AddOrderReply::Failed => "failed to place order",
            AddOrderReply::Unresponsive => "trading engine unresponsive",
        }
    }
}

} // verus!
