use exchange::asset::{Asset, AssetRegistry};
use exchange::engine::{
    CancelOrder, Command, CommandOutcome, Engine, PlaceOrder, PlaceOrderResult, TradingEngineError,
};
use exchange::order::{
    OrderSide, OrderStatus, OrderType, OrderUuid, SelfTradeProtection, TimeInForce, UserUuid,
};

fn limit(id: u128, owner: u128, side: OrderSide, quantity: u32, price: u32) -> PlaceOrder {
    PlaceOrder {
        order_uuid: OrderUuid(id),
        asset: Asset::Bitcoin,
        owner: UserUuid(owner),
        side,
        order_type: OrderType::Limit,
        quantity,
        price,
        time_in_force: TimeInForce::GoodTillCancelled,
        stp: SelfTradeProtection::CancelNewest,
    }
}

fn place(engine: &mut Engine, p: PlaceOrder) -> PlaceOrderResult {
    engine.place_order(p).expect("order accepted")
}

#[test]
fn full_cross_leaves_book_empty() {
    let mut engine = Engine::new(AssetRegistry::all());
    let buy = place(&mut engine, limit(1, 100, OrderSide::Buy, 5, 10));
    assert_eq!(buy.status, OrderStatus::Resting);
    assert!(buy.executions.is_empty());
    let sell = place(&mut engine, limit(2, 200, OrderSide::Sell, 5, 10));
    assert_eq!(sell.status, OrderStatus::Filled);
    assert_eq!(sell.executions.len(), 1);
    let e = sell.executions[0];
    assert_eq!(e.quantity, 5);
    assert_eq!(e.price, 10);
    assert_eq!(e.taker, OrderUuid(2));
    assert_eq!(e.maker, OrderUuid(1));
    assert_eq!(e.seq, 1);
    assert!(!engine.is_resting(OrderUuid(1)));
    assert!(!engine.is_resting(OrderUuid(2)));
    assert!(engine.book(Asset::Bitcoin).bids().is_empty());
    assert!(engine.book(Asset::Bitcoin).asks().is_empty());
}

#[test]
fn partial_cross_leaves_remainder_resting() {
    let mut engine = Engine::new(AssetRegistry::all());
    place(&mut engine, limit(1, 100, OrderSide::Buy, 10, 10));
    let sell = place(&mut engine, limit(2, 200, OrderSide::Sell, 4, 10));
    assert_eq!(sell.executions.len(), 1);
    assert_eq!(sell.executions[0].quantity, 4);
    assert_eq!(sell.executions[0].price, 10);
    assert_eq!(sell.status, OrderStatus::Filled);
    let resting = engine.book(Asset::Bitcoin).find(OrderUuid(1)).expect("buy rests");
    assert_eq!(resting.remaining, 6);
    assert_eq!(resting.quantity, 10);
    assert_eq!(resting.status, OrderStatus::PartiallyFilled);
    assert!(!engine.is_resting(OrderUuid(2)));
}

#[test]
fn cancel_both_removes_both_without_trade() {
    let mut engine = Engine::new(AssetRegistry::all());
    place(&mut engine, limit(1, 100, OrderSide::Buy, 10, 100));
    let mut own = limit(2, 100, OrderSide::Sell, 10, 100);
    own.stp = SelfTradeProtection::CancelBoth;
    let res = place(&mut engine, own);
    assert!(res.executions.is_empty());
    assert_eq!(res.status, OrderStatus::Cancelled);
    assert!(!engine.is_resting(OrderUuid(1)));
    assert!(!engine.is_resting(OrderUuid(2)));
    assert!(engine.book(Asset::Bitcoin).bids().is_empty());
    assert!(engine.book(Asset::Bitcoin).asks().is_empty());
}

#[test]
fn handle_routes_both_commands() {
    let mut engine = Engine::new(AssetRegistry::all());
    let r = engine.handle(Command::PlaceOrder(limit(7, 1, OrderSide::Sell, 3, 50)));
    assert!(matches!(r, Ok(CommandOutcome::Placed(_))));
    let stranger = engine.handle(Command::CancelOrder(CancelOrder {
        order_uuid: OrderUuid(7),
        owner: UserUuid(2),
    }));
    assert!(matches!(stranger, Err(TradingEngineError::OrderNotFound)));
    assert!(engine.is_resting(OrderUuid(7)));
    let owner = engine.handle(Command::CancelOrder(CancelOrder {
        order_uuid: OrderUuid(7),
        owner: UserUuid(1),
    }));
    match owner {
        Ok(CommandOutcome::Cancelled(c)) => {
            assert_eq!(c.order_uuid, OrderUuid(7));
            assert_eq!(c.released, 3);
        }
        _ => panic!("cancel should succeed"),
    }
    assert!(!engine.is_resting(OrderUuid(7)));
}
