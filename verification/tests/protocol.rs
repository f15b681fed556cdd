use exchange::asset::{Asset, AssetRegistry};
use exchange::channel::{
    capacity_or_default, CommandChannel, SubmitError, DEFAULT_CAPACITY,
};
use exchange::driver::{drain, pump, Pumped};
use exchange::engine::{
    CancelOrder, Command, CommandOutcome, Engine, PlaceOrder, PlaceOrderResult, TradingEngineError,
};
use exchange::order::{
    OrderSide, OrderStatus, OrderType, OrderUuid, SelfTradeProtection, TimeInForce, UserUuid,
};
use exchange::reservation::{
    conclude, DeferredRevert, Funds, ReservationRecord, ReservationState,
};
use exchange::slot::{Resolution, ResponseSlot};

type Answer = Result<PlaceOrderResult, TradingEngineError>;

fn buy(id: u128, quantity: u32, price: u32) -> Command {
    Command::PlaceOrder(PlaceOrder {
        order_uuid: OrderUuid(id),
        asset: Asset::Bitcoin,
        owner: UserUuid(id),
        side: OrderSide::Buy,
        order_type: OrderType::Limit,
        quantity,
        price,
        time_in_force: TimeInForce::GoodTillCancelled,
        stp: SelfTradeProtection::CancelNewest,
    })
}

fn sell(id: u128, quantity: u32, price: u32) -> Command {
    match buy(id, quantity, price) {
        Command::PlaceOrder(mut p) => {
            p.side = OrderSide::Sell;
            Command::PlaceOrder(p)
        }
        other => other,
    }
}

fn reserve(funds: &mut Funds, amount: u64) -> ReservationRecord {
    funds
        .reserve(UserUuid(1), Asset::Bitcoin, OrderSide::Buy, amount, 1_700_000_000)
        .expect("enough available")
}

#[test]
fn commit_racing_revert_has_one_winner() {
    let mut funds = Funds::new(100);
    let mut record = reserve(&mut funds, 40);
    assert_eq!(record.state, ReservationState::Active);
    assert_eq!(funds, Funds { available: 60, reserved: 40 });
    assert!(funds.settle(&mut record, ReservationState::Committed));
    assert!(!funds.settle(&mut record, ReservationState::Reverted));
    assert_eq!(record.state, ReservationState::Committed);
    assert_eq!(funds, Funds { available: 60, reserved: 0 });

    let mut funds = Funds::new(100);
    let mut record = reserve(&mut funds, 40);
    assert!(funds.settle(&mut record, ReservationState::Reverted));
    assert!(!funds.settle(&mut record, ReservationState::Committed));
    assert_eq!(record.state, ReservationState::Reverted);
    assert_eq!(funds, Funds { available: 100, reserved: 0 });
}

#[test]
fn transition_only_leaves_active_for_a_terminal_state() {
    let mut record =
        ReservationRecord::new(UserUuid(9), Asset::Ether, OrderSide::Sell, 5, 77);
    assert_eq!(record.amount, 5);
    assert_eq!(record.created_at, 77);
    assert!(!record.state.is_terminal());
    assert!(!record.transition(ReservationState::Active));
    assert_eq!(record.state, ReservationState::Active);
    assert!(record.revert());
    assert!(record.state.is_terminal());
    assert!(!record.revert());
    assert!(!record.commit());
    assert_eq!(record.state, ReservationState::Reverted);
    let mut other = ReservationRecord::new(UserUuid(9), Asset::Ether, OrderSide::Sell, 5, 77);
    assert!(other.commit());
    assert!(!other.revert());
    assert_eq!(other.state, ReservationState::Committed);
}

#[test]
fn reserve_fails_only_beyond_what_is_available() {
    let mut funds = Funds::new(10);
    assert!(funds
        .reserve(UserUuid(1), Asset::Bitcoin, OrderSide::Buy, 11, 0)
        .is_none());
    assert_eq!(funds, Funds { available: 10, reserved: 0 });
    let all = funds.reserve(UserUuid(1), Asset::Bitcoin, OrderSide::Buy, 10, 0);
    assert!(all.is_some());
    assert_eq!(funds, Funds { available: 0, reserved: 10 });
}

#[test]
fn guard_reverts_unless_cancelled() {
    let mut funds = Funds::new(50);
    let mut record = reserve(&mut funds, 20);
    let guard = DeferredRevert::new();
    assert!(guard.is_armed());
    assert!(guard.release(&mut funds, &mut record));
    assert_eq!(record.state, ReservationState::Reverted);
    assert_eq!(funds, Funds { available: 50, reserved: 0 });

    let mut funds = Funds::new(50);
    let mut record = reserve(&mut funds, 20);
    let mut guard = DeferredRevert::new();
    assert!(guard.cancel(&mut funds, &mut record));
    assert!(!guard.is_armed());
    assert!(!guard.release(&mut funds, &mut record));
    assert_eq!(record.state, ReservationState::Committed);
    assert_eq!(funds, Funds { available: 30, reserved: 0 });
}

#[test]
fn conclude_commits_on_confirmation_and_reverts_otherwise() {
    let mut funds = Funds::new(50);
    let mut record = reserve(&mut funds, 20);
    let state = conclude(DeferredRevert::new(), &mut funds, &mut record, true);
    assert_eq!(state, ReservationState::Committed);
    assert_eq!(funds, Funds { available: 30, reserved: 0 });
    let mut record = reserve(&mut funds, 30);
    let state = conclude(DeferredRevert::new(), &mut funds, &mut record, false);
    assert_eq!(state, ReservationState::Reverted);
    assert_eq!(funds, Funds { available: 30, reserved: 0 });
}

#[test]
fn late_success_after_timeout_changes_no_funds() {
    let mut engine = Engine::new(AssetRegistry::all());
    let mut channel: CommandChannel<usize> = CommandChannel::new(4);
    let mut slots: Vec<ResponseSlot<Answer>> = vec![ResponseSlot::new()];
    let mut funds = Funds::new(100);
    let mut record = reserve(&mut funds, 50);
    let guard = DeferredRevert::new();
    assert!(channel.submit(buy(1, 5, 10), 0).is_ok());

    let waited = slots[0].wait_over();
    assert!(waited.is_none());
    let confirmed = matches!(waited, Some(Ok(_)));
    let state = conclude(guard, &mut funds, &mut record, confirmed);
    assert_eq!(state, ReservationState::Reverted);
    assert_eq!(funds, Funds { available: 100, reserved: 0 });

    match pump(&mut engine, &mut channel) {
        Pumped::Handled(done) => {
            let answer = match done.answer {
                Ok(CommandOutcome::Placed(r)) => Ok(r),
                Ok(CommandOutcome::Cancelled(_)) => panic!("a place-order command was handled"),
                Err(e) => Err(e),
            };
            assert!(answer.is_ok());
            assert_eq!(slots[done.handle].resolve(answer), Resolution::Late);
        }
        _ => panic!("the command was pending"),
    }
    assert!(engine.is_resting(OrderUuid(1)));
    assert!(slots[0].poll().is_none());
    assert!(slots[0].wait_over().is_none());
    assert!(!funds.settle(&mut record, ReservationState::Committed));
    assert!(!funds.settle(&mut record, ReservationState::Reverted));
    assert_eq!(record.state, ReservationState::Reverted);
    assert_eq!(funds, Funds { available: 100, reserved: 0 });
}

#[test]
fn slot_is_observed_at_most_once() {
    let mut slot: ResponseSlot<u32> = ResponseSlot::new();
    assert!(!slot.is_resolved());
    assert!(!slot.is_closed());
    assert_eq!(slot.poll(), None);
    assert!(!slot.is_closed());
    assert_eq!(slot.resolve(7), Resolution::Delivered);
    assert_eq!(slot.resolve(8), Resolution::Repeated);
    assert!(slot.is_resolved());
    assert_eq!(slot.poll(), Some(7));
    assert!(slot.is_closed());
    assert_eq!(slot.poll(), None);
    assert_eq!(slot.wait_over(), None);
    assert_eq!(slot.resolve(9), Resolution::Repeated);
    assert_eq!(slot.poll(), None);
}

#[test]
fn slot_resolved_within_the_bound_is_read_at_its_end() {
    let mut slot: ResponseSlot<u32> = ResponseSlot::new();
    assert_eq!(slot.resolve(3), Resolution::Delivered);
    assert_eq!(slot.wait_over(), Some(3));
    assert_eq!(slot.wait_over(), None);
    let mut late: ResponseSlot<u32> = ResponseSlot::new();
    assert_eq!(late.wait_over(), None);
    assert_eq!(late.resolve(3), Resolution::Late);
    assert_eq!(late.resolve(4), Resolution::Repeated);
    assert_eq!(late.poll(), None);
}

#[test]
fn channel_is_bounded_and_first_in_first_out() {
    let mut channel: CommandChannel<u8> = CommandChannel::new(2);
    assert_eq!(channel.capacity(), 2);
    assert!(channel.submit(buy(1, 1, 1), 10).is_ok());
    assert!(channel.submit(buy(2, 1, 1), 20).is_ok());
    let full = channel.submit(buy(3, 1, 1), 30).unwrap_err();
    assert_eq!(full.reason, SubmitError::Full);
    assert_eq!(full.handle, 30);
    assert_eq!(channel.len(), 2);
    let first = channel.take().expect("pending");
    assert_eq!(first.handle, 10);
    assert_eq!(first.command, buy(1, 1, 1));
    assert!(channel.submit(buy(3, 1, 1), 30).is_ok());
    assert_eq!(channel.take().map(|s| s.handle), Some(20));
    assert_eq!(channel.take().map(|s| s.handle), Some(30));
    assert!(channel.take().is_none());
}

#[test]
fn channel_turns_away_invalid_and_late_submissions() {
    let mut channel: CommandChannel<u8> = CommandChannel::new(1);
    let invalid = channel.submit(buy(1, 0, 1), 1).unwrap_err();
    assert_eq!(invalid.reason, SubmitError::UnserializableInput);
    assert_eq!(invalid.handle, 1);
    let no_price = channel.submit(sell(1, 1, 0), 2).unwrap_err();
    assert_eq!(no_price.reason, SubmitError::UnserializableInput);
    assert_eq!(channel.len(), 0);
    assert!(channel.submit(buy(1, 1, 1), 3).is_ok());
    channel.close();
    assert!(channel.is_closed());
    let closed = channel.submit(buy(2, 1, 1), 4).unwrap_err();
    assert_eq!(closed.reason, SubmitError::Closed);
    assert_eq!(channel.len(), 1);
    let cancel = Command::CancelOrder(CancelOrder { order_uuid: OrderUuid(1), owner: UserUuid(1) });
    let mut open: CommandChannel<u8> = CommandChannel::new(1);
    assert!(open.submit(cancel, 5).is_ok());
}

#[test]
fn driver_waits_handles_and_stops() {
    let mut engine = Engine::new(AssetRegistry::all());
    let mut channel: CommandChannel<u8> = CommandChannel::new(DEFAULT_CAPACITY);
    assert!(matches!(pump(&mut engine, &mut channel), Pumped::Idle));
    assert!(channel.submit(buy(1, 5, 10), 1).is_ok());
    channel.close();
    match pump(&mut engine, &mut channel) {
        Pumped::Handled(done) => {
            assert_eq!(done.handle, 1);
            match done.answer {
                Ok(CommandOutcome::Placed(r)) => assert_eq!(r.status, OrderStatus::Resting),
                _ => panic!("the order should rest"),
            }
        }
        _ => panic!("a command was pending"),
    }
    assert!(matches!(pump(&mut engine, &mut channel), Pumped::Stopped));
    assert!(engine.is_resting(OrderUuid(1)));
}

#[test]
fn drain_handles_everything_in_arrival_order() {
    let mut engine = Engine::new(AssetRegistry::all());
    let mut channel: CommandChannel<u8> = CommandChannel::new(8);
    assert!(channel.submit(buy(1, 10, 10), 1).is_ok());
    assert!(channel.submit(sell(2, 4, 10), 2).is_ok());
    let cancel = Command::CancelOrder(CancelOrder { order_uuid: OrderUuid(1), owner: UserUuid(1) });
    assert!(channel.submit(cancel, 3).is_ok());
    assert!(channel.submit(cancel, 4).is_ok());
    let answers = drain(&mut engine, &mut channel);
    assert_eq!(channel.len(), 0);
    let handles: Vec<u8> = answers.iter().map(|a| a.handle).collect();
    assert_eq!(handles, vec![1, 2, 3, 4]);
    match &answers[1].answer {
        Ok(CommandOutcome::Placed(r)) => {
            assert_eq!(r.executions.len(), 1);
            assert_eq!(r.executions[0].quantity, 4);
            assert_eq!(r.executions[0].seq, 1);
        }
        _ => panic!("the sell should trade"),
    }
    match &answers[2].answer {
        Ok(CommandOutcome::Cancelled(c)) => assert_eq!(c.released, 6),
        _ => panic!("the buy should be cancelled"),
    }
    assert!(matches!(answers[3].answer, Err(TradingEngineError::OrderNotFound)));
    assert!(!engine.is_resting(OrderUuid(1)));
    assert_eq!(engine.next_seq(), 2);
}

#[test]
fn capacity_comes_from_the_setting_or_the_default() {
    assert_eq!(DEFAULT_CAPACITY, 1024);
    assert_eq!(capacity_or_default(None), 1024);
    assert_eq!(capacity_or_default(Some("16")), 16);
    assert_eq!(capacity_or_default(Some("0")), 0);
    assert_eq!(capacity_or_default(Some("sixteen")), 1024);
    assert_eq!(capacity_or_default(Some("")), 1024);
    assert_eq!(capacity_or_default(Some("-1")), 1024);
    assert_eq!(capacity_or_default(Some("99999999999999999999999999")), 1024);
}

#[test]
fn wait_yields_the_answer_once_or_nothing_at_the_bound() {
    let mut slot: ResponseSlot<u32> = ResponseSlot::new();
    assert_eq!(slot.wait(false), None);
    assert!(!slot.is_closed());
    assert_eq!(slot.resolve(5), Resolution::Delivered);
    assert_eq!(slot.wait(false), Some(5));
    assert!(slot.is_closed());
    assert_eq!(slot.wait(false), None);
    assert_eq!(slot.wait(true), None);
    let mut silent: ResponseSlot<u32> = ResponseSlot::new();
    assert_eq!(silent.wait(true), None);
    assert!(silent.is_closed());
    assert_eq!(silent.resolve(5), Resolution::Late);
    assert_eq!(silent.wait(false), None);
}
