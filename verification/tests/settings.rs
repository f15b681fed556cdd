use exchange::asset::{Asset, AssetRegistry};
use exchange::config::{
    redis_host_or_default, redis_port_or_default, webserver_address_or_default, Config,
    REDIS_PORT_DEFAULT, WEBSERVER_ADDRESS_DEFAULT_PORT,
};
use exchange::engine::{PlaceOrderResult, TradingEngineError};
use exchange::lifecycle::{run_result, StartFullstackError, StopEvent};
use exchange::order::{
    OrderSide, OrderStatus, OrderType, OrderUuid, SelfTradeProtection, TimeInForce, UserUuid,
};
use exchange::text::{parse_decimal, push_decimal};
use exchange::web::trade_add_order::{
    keeps_reservation, parse_asset, reply_to, route, AddOrderRefusal, AddOrderReply,
    TradeAddOrder, TradeAddOrderResponse,
};
use exchange::web::user_get::{found_user, user_info, UserGet, UserGetError, UserRecord};

fn config(address: &str, host: &str, port: u16, db: &str) -> Config {
    Config::new(address.to_owned(), host.to_owned(), port, db.to_owned(), None)
}

#[test]
fn redis_url_joins_host_and_port() {
    assert_eq!(config("0.0.0.0:3000", "127.0.0.1", 6379, "db").redis_url(), "redis://127.0.0.1:6379");
    assert_eq!(config("0.0.0.0:3000", "cache", 0, "db").redis_url(), "redis://cache:0");
    assert_eq!(config("0.0.0.0:3000", "h", 65535, "db").redis_url(), "redis://h:65535");
    assert_eq!(config("0.0.0.0:3000", "", 80, "db").redis_url(), "redis://:80");
}

#[test]
fn getters_give_back_the_settings() {
    let c = Config::new(
        "10.0.0.1:8080".to_owned(),
        "redis".to_owned(),
        1,
        "postgres://u@h/db".to_owned(),
        Some("/etc/exchange.toml".to_owned()),
    );
    assert_eq!(c.webserver_address(), "10.0.0.1:8080");
    assert_eq!(c.redis_host(), "redis");
    assert_eq!(c.redis_port(), 1);
    assert_eq!(c.database_url(), "postgres://u@h/db");
    assert_eq!(c.config_file_path(), Some("/etc/exchange.toml"));
    assert_eq!(config("a", "b", 1, "c").config_file_path(), None);
}

#[test]
fn diff_holds_exactly_the_settings_that_differ() {
    let a = config("0.0.0.0:3000", "127.0.0.1", 6379, "postgres://a");
    let same = a.diff(&config("0.0.0.0:3000", "127.0.0.1", 6379, "postgres://a"));
    assert!(same.is_empty());
    let b = config("0.0.0.0:3000", "10.1.1.1", 6380, "postgres://a");
    let d = a.diff(&b);
    assert_eq!(d.len(), 2);
    assert_eq!(d.get("redis_host"), Some(&toml::Value::String("127.0.0.1".to_owned())));
    assert_eq!(d.get("redis_port"), Some(&toml::Value::Integer(6379)));
    let back = b.diff(&a);
    assert_eq!(back.get("redis_host"), Some(&toml::Value::String("10.1.1.1".to_owned())));
    assert_eq!(back.get("redis_port"), Some(&toml::Value::Integer(6380)));
    let c = Config::new(
        "[::1]:3000".to_owned(),
        "127.0.0.1".to_owned(),
        6379,
        "postgres://c".to_owned(),
        Some("elsewhere.toml".to_owned()),
    );
    let all = c.diff(&a);
    assert_eq!(all.len(), 2);
    assert_eq!(all.get("webserver_address"), Some(&toml::Value::String("[::1]:3000".to_owned())));
    assert_eq!(all.get("database_url"), Some(&toml::Value::String("postgres://c".to_owned())));
    assert!(!all.contains_key("config_file_path"));
}

#[test]
fn defaults_apply_where_nothing_usable_is_set() {
    assert_eq!(WEBSERVER_ADDRESS_DEFAULT_PORT, 3000);
    assert_eq!(REDIS_PORT_DEFAULT, 6379);
    assert_eq!(webserver_address_or_default(None), "0.0.0.0:3000");
    assert_eq!(webserver_address_or_default(Some("1.2.3.4:5".to_owned())), "1.2.3.4:5");
    assert_eq!(redis_host_or_default(None), "127.0.0.1");
    assert_eq!(redis_host_or_default(Some("cache".to_owned())), "cache");
    assert_eq!(redis_port_or_default(None), 6379);
    assert_eq!(redis_port_or_default(Some("6380")), 6380);
    assert_eq!(redis_port_or_default(Some("+6380")), 6380);
    assert_eq!(redis_port_or_default(Some("65535")), 65535);
    assert_eq!(redis_port_or_default(Some("65536")), 6379);
    assert_eq!(redis_port_or_default(Some(" 6380")), 6379);
    assert_eq!(redis_port_or_default(Some("63_80")), 6379);
    assert_eq!(redis_port_or_default(Some("")), 6379);
}

#[test]
fn decimal_text_is_read_as_the_standard_library_reads_it() {
    let cases = [
        "0", "7", "007", "+7", "+", "", "-7", "7 ", " 7", "1_0", "65535", "65536", "99999",
        "000000000065535", "18446744073709551615", "18446744073709551616", "12a", "٣", "++1",
    ];
    for text in cases {
        assert_eq!(parse_decimal(text, 65535), text.parse::<u16>().ok().map(u64::from), "{text:?}");
        assert_eq!(parse_decimal(text, u64::MAX), text.parse::<u64>().ok(), "{text:?}");
    }
    assert_eq!(parse_decimal("10", 9), None);
    assert_eq!(parse_decimal("9", 9), Some(9));
    assert_eq!(parse_decimal("0", 0), Some(0));
}

#[test]
fn decimal_text_is_written_without_padding() {
    for n in [0u64, 9, 10, 99, 100, 6379, 65535, u64::MAX] {
        let mut out = String::from("x");
        push_decimal(&mut out, n);
        assert_eq!(out, format!("x{n}"));
    }
}

#[test]
fn path_segment_names_an_asset() {
    assert_eq!(parse_asset("btc"), Some(Asset::Bitcoin));
    assert_eq!(parse_asset("BTC"), Some(Asset::Bitcoin));
    assert_eq!(parse_asset("eth"), Some(Asset::Ether));
    assert_eq!(parse_asset("ETH"), Some(Asset::Ether));
    assert_eq!(parse_asset("Btc"), None);
    assert_eq!(parse_asset(""), None);
    assert_eq!(parse_asset("doge"), None);
}

#[test]
fn request_is_routed_to_an_enabled_asset() {
    let mut registry = AssetRegistry::none();
    assert!(!registry.is_enabled(Asset::Bitcoin));
    registry.set(Asset::Bitcoin, true);
    assert_eq!(route(&registry, "btc"), Ok(Asset::Bitcoin));
    assert_eq!(route(&registry, "eth"), Err(AddOrderRefusal::AssetNotEnabled));
    assert_eq!(route(&registry, "xrp"), Err(AddOrderRefusal::InvalidAsset));
    assert_eq!(AddOrderRefusal::InvalidAsset.status_code(), 404);
    assert_eq!(AddOrderRefusal::InvalidAsset.message(), "invalid asset");
    assert_eq!(AddOrderRefusal::AssetNotEnabled.status_code(), 404);
    assert_eq!(AddOrderRefusal::AssetNotEnabled.message(), "asset not enabled");
}

fn body() -> TradeAddOrder {
    TradeAddOrder {
        side: OrderSide::Sell,
        order_type: OrderType::Limit,
        quantity: 3,
        price: 9,
        time_in_force: TimeInForce::ImmediateOrCancel,
        stp: SelfTradeProtection::CancelBoth,
    }
}

#[test]
fn request_becomes_a_command_with_its_fields() {
    let p = body().into_command(OrderUuid(5), Asset::Ether, UserUuid(6));
    assert_eq!(p.order_uuid, OrderUuid(5));
    assert_eq!(p.asset, Asset::Ether);
    assert_eq!(p.owner, UserUuid(6));
    assert_eq!(p.side, OrderSide::Sell);
    assert_eq!(p.order_type, OrderType::Limit);
    assert_eq!((p.quantity, p.price), (3, 9));
    assert_eq!(p.time_in_force, TimeInForce::ImmediateOrCancel);
    assert_eq!(p.stp, SelfTradeProtection::CancelBoth);
}

#[test]
fn submitted_request_gets_a_random_uuid() {
    let a = body().submit_as(Asset::Bitcoin, UserUuid(6));
    let b = body().submit_as(Asset::Bitcoin, UserUuid(6));
    assert_eq!(a.owner, UserUuid(6));
    assert_eq!((a.quantity, a.price), (3, 9));
    for p in [a, b] {
        assert_eq!((p.order_uuid.0 >> 76) & 0xf, 4);
        assert_eq!((p.order_uuid.0 >> 62) & 0x3, 2);
        assert_eq!(uuid::Uuid::from_u128(p.order_uuid.0).get_version_num(), 4);
    }
    assert_ne!(a.order_uuid, b.order_uuid);
}

fn taken(id: u128) -> PlaceOrderResult {
    PlaceOrderResult { order_uuid: OrderUuid(id), executions: Vec::new(), status: OrderStatus::Resting }
}

#[test]
fn reservation_is_kept_only_for_an_order_that_was_taken() {
    assert!(keeps_reservation(&Some(Ok(taken(1)))));
    assert!(!keeps_reservation(&Some(Err(TradingEngineError::UnserializableInput))));
    assert!(!keeps_reservation(&Some(Err(TradingEngineError::AssetNotEnabled))));
    assert!(!keeps_reservation(&None));
}

#[test]
fn caller_is_told_what_became_of_the_order() {
    let placed = reply_to(&Some(Ok(taken(42))));
    assert_eq!(placed, AddOrderReply::Placed(TradeAddOrderResponse { order_uuid: OrderUuid(42) }));
    assert_eq!(placed.status_code(), 200);
    assert_eq!(placed.message(), "");
    let problematic = reply_to(&Some(Err(TradingEngineError::UnserializableInput)));
    assert_eq!(problematic, AddOrderReply::Problematic);
    assert_eq!(problematic.status_code(), 500);
    assert_eq!(
        problematic.message(),
        "this input was considered problematic and could not be processed"
    );
    for e in [
        TradingEngineError::AssetNotEnabled,
        TradingEngineError::DuplicateOrder,
        TradingEngineError::OrderNotFound,
        TradingEngineError::SequenceExhausted,
    ] {
        let failed = reply_to(&Some(Err(e)));
        assert_eq!(failed, AddOrderReply::Failed);
        assert_eq!(failed.status_code(), 500);
        assert_eq!(failed.message(), "failed to place order");
    }
    let silent = reply_to(&None);
    assert_eq!(silent, AddOrderReply::Unresponsive);
    assert_eq!(silent.status_code(), 500);
    assert_eq!(silent.message(), "trading engine unresponsive");
}

#[test]
fn found_user_is_told_with_identifier_written_out() {
    let request = UserGet { id: UserUuid(0xa1a2a3a4b1b2c1c2d1d2d3d4d5d6d7d8) };
    let record = UserRecord { id: request.id, name: "Ada".to_owned(), email: "ada@example.org".to_owned() };
    let info = found_user(Some(record)).expect("found");
    assert_eq!(info.id, "a1a2a3a4-b1b2-c1c2-d1d2-d3d4d5d6d7d8");
    assert_eq!(info.name, "Ada");
    assert_eq!(info.email, "ada@example.org");
    let low = user_info(UserRecord { id: UserUuid(0x0f), name: String::new(), email: String::new() });
    assert_eq!(low.id, "00000000-0000-0000-0000-00000000000f");
}

#[test]
fn missing_user_is_an_error() {
    assert_eq!(found_user(None).unwrap_err(), UserGetError::UserNotFound);
    assert_eq!(UserGetError::UserNotFound.status_code(), 404);
    assert_eq!(UserGetError::UserNotFound.message(), "user not found");
    assert_eq!(UserGetError::Sqlx.status_code(), 500);
    assert_eq!(UserGetError::Sqlx.message(), "");
}

#[test]
fn run_ends_as_its_stop_event_says() {
    assert_eq!(run_result(StopEvent::AutomaticShutdown), Ok(()));
    assert_eq!(run_result(StopEvent::ServerReturned { failed: false }), Ok(()));
    assert_eq!(
        run_result(StopEvent::ServerReturned { failed: true }),
        Err(StartFullstackError::Webserver)
    );
    assert_eq!(run_result(StopEvent::Interrupt), Err(StartFullstackError::Interrupted));
    assert_eq!(StartFullstackError::Webserver.message(), "webserver error");
    assert_eq!(StartFullstackError::Database.message(), "database error");
    assert_eq!(StartFullstackError::Interrupted.message(), "interrupted");
}

#[test]
fn reservation_holds_what_the_order_can_cost() {
    let mut request = body();
    assert_eq!(request.reservation_amount(), 3);
    request.side = OrderSide::Buy;
    assert_eq!(request.reservation_amount(), 27);
    request.order_type = OrderType::Market;
    assert_eq!(request.reservation_amount(), 27);
    request.quantity = u32::MAX;
    request.price = u32::MAX;
    assert_eq!(request.reservation_amount(), 18_446_744_065_119_617_025);
    request.side = OrderSide::Sell;
    assert_eq!(request.reservation_amount(), 4_294_967_295);
}
