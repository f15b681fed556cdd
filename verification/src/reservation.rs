//! Reservations of funds around a submission, and the deferred revert that
//! undoes one unless it is cancelled in time.

use vstd::prelude::*;
use crate::asset::Asset;
use crate::order::{OrderSide, UserUuid};

verus! {

/// Where a reservation stands. `Active` is the only state that it can leave.
#[derive(Clone, Copy, Debug, PartialEq, Eq, Structural, Hash)]
pub enum ReservationState {
    Active,
    Committed,
    Reverted,
}

/// A provisional hold on a user's funds, made before an order is submitted.
#[derive(Clone, Copy, Debug, PartialEq, Eq, Structural)]
pub struct ReservationRecord {
    pub owner: UserUuid,
    pub asset: Asset,
    pub side: OrderSide,
    /// The amount held.
    pub amount: u64,
    /// When the reservation was made.
    pub created_at: u64,
    pub state: ReservationState,
}

/// What a user has: funds free to use, and funds held by active reservations.
#[derive(Clone, Copy, Debug, PartialEq, Eq, Structural)]
pub struct Funds {
    pub available: u64,
    pub reserved: u64,
}

/// Whether an attempt to move a reservation in `state` to `to` wins: only an
/// active reservation moves, and only to a terminal state.
pub open spec fn wins(state: ReservationState, to: ReservationState) -> bool {
    state == ReservationState::Active && to != ReservationState::Active
}

/// The state after an attempt to move to `to`: `to` if the attempt wins, else
/// the state as it was.
pub open spec fn moved(state: ReservationState, to: ReservationState) -> ReservationState {
    if wins(state, to) {
        to
    } else {
        state
    }
}

/// The state after a run of attempts, one after the other.
pub open spec fn after_all(state: ReservationState, attempts: Seq<ReservationState>)
    -> ReservationState
    decreases attempts.len(),
{
    if attempts.len() == 0 {
        state
    } else {
        after_all(moved(state, attempts[0]), attempts.skip(1))
    }
}

/// How many attempts of a run win.
pub open spec fn winners(state: ReservationState, attempts: Seq<ReservationState>) -> nat
    decreases attempts.len(),
{
    if attempts.len() == 0 {
        0
    } else {
        (if wins(state, attempts[0]) {
            1nat
        } else {
            0nat
        }) + winners(moved(state, attempts[0]), attempts.skip(1))
    }
}

/// The funds after an attempt to move `record` to `to`: on a win the held
/// amount leaves `reserved`, and a revert gives it back to `available`; a
/// lost attempt changes nothing.
pub open spec fn settled(funds: Funds, record: ReservationRecord, to: ReservationState) -> Funds {
    if !wins(record.state, to) {
        funds
    } else if to == ReservationState::Reverted {
        Funds {
            available: (funds.available + record.amount) as u64,
            reserved: (funds.reserved - record.amount) as u64,
        }
    } else {
        Funds { available: funds.available, reserved: (funds.reserved - record.amount) as u64 }
    }
}

impl Funds {
    /// The two parts together fit the machine's range.
    pub open spec fn wf(self) -> bool {
        self.available + self.reserved <= u64::MAX
    }

    /// Whether `record`, if it is active, is covered by what is held.
    pub open spec fn holds(self, record: ReservationRecord) -> bool {
        record.state == ReservationState::Active ==> record.amount <= self.reserved
    }

    /// Funds with `available` free and nothing held.
    pub fn new(available: u64) -> (f: Funds)
        ensures
            f == (Funds { available, reserved: 0 }),
            f.wf(),
    {
        Funds { available, reserved: 0 }
    }

    /// Holds `amount` for an order of `owner`: it moves from `available` to
    /// `reserved`, and an active record of it is returned. Fails, changing
    /// nothing, exactly if `amount` is more than is available.
    pub fn reserve(
        &mut self,
        owner: UserUuid,
        asset: Asset,
        side: OrderSide,
        amount: u64,
        now: u64,
    ) -> (r: Option<ReservationRecord>)
        requires
            old(self).wf(),
        ensures
            final(self).wf(),
            r is Some <==> amount <= old(self).available,
            r is Some ==> r->0 == (ReservationRecord {
                owner,
                asset,
                side,
                amount,
                created_at: now,
                state: ReservationState::Active,
            }) && final(self).available == old(self).available - amount && final(self).reserved
                == old(self).reserved + amount && final(self).holds(r->0),
            r is None ==> *final(self) == *old(self),
    {
        if amount > self.available {
            return None;
        }
        self.available = self.available - amount;
        self.reserved = self.reserved + amount;
        Some(
            ReservationRecord {
                owner,
                asset,
                side,
                amount,
                created_at: now,
                state: ReservationState::Active,
            },
        )
    }

    /// Tries to move `record` to `to` and, if that wins, releases what the
    /// record held: spent on a commit, given back on a revert. A lost attempt
    /// changes neither the record nor the funds.
    pub fn settle(&mut self, record: &mut ReservationRecord, to: ReservationState) -> (won: bool)
        requires
            old(self).wf(),
            old(self).holds(*old(record)),
        ensures
            won == wins(old(record).state, to),
            *final(record) == (ReservationRecord {
                state: moved(old(record).state, to),
                ..*old(record)
            }),
            *final(self) == settled(*old(self), *old(record), to),
            final(self).wf(),
            final(self).holds(*final(record)),
            final(self).available + final(self).reserved <= old(self).available + old(
                self,
            ).reserved,
    {
        let won = record.transition(to);
        if won {
            self.reserved = self.reserved - record.amount;
            if to == ReservationState::Reverted {
                self.available = self.available + record.amount;
            }
        }
        won
    }
}

impl ReservationState {
    /// Whether the state is one that a reservation never leaves.
    pub fn is_terminal(&self) -> (b: bool)
        ensures
            b == (*self != ReservationState::Active),
    {
        match self {
            ReservationState::Active => false,
            _ => true,
        }
    }
}

impl ReservationRecord {
    /// An active reservation.
    pub fn new(owner: UserUuid, asset: Asset, side: OrderSide, amount: u64, created_at: u64) -> (r:
        ReservationRecord)
        ensures
            r == (ReservationRecord {
                owner,
                asset,
                side,
                amount,
                created_at,
                state: ReservationState::Active,
            }),
    {
        ReservationRecord {
            owner,
            asset,
            side,
            amount,
            created_at,
            state: ReservationState::Active,
        }
    }

    /// The single-winner transition: compares the state with `Active` and,
    /// if it is and `to` is terminal, sets it to `to`. Says whether it did.
    pub fn transition(&mut self, to: ReservationState) -> (won: bool)
        ensures
            won == wins(old(self).state, to),
            *final(self) == (ReservationRecord {
                state: moved(old(self).state, to),
                ..*old(self)
            }),
    {
        if self.state == ReservationState::Active && to != ReservationState::Active {
            self.state = to;
            true
        } else {
            false
        }
    }

    /// Tries to commit; wins exactly on an active reservation.
    pub fn commit(&mut self) -> (won: bool)
        ensures
            won == (old(self).state == ReservationState::Active),
            *final(self) == (ReservationRecord {
                state: moved(old(self).state, ReservationState::Committed),
                ..*old(self)
            }),
    {
        self.transition(ReservationState::Committed)
    }

    /// Tries to revert; wins exactly on an active reservation.
    pub fn revert(&mut self) -> (won: bool)
        ensures
            won == (old(self).state == ReservationState::Active),
            *final(self) == (ReservationRecord {
                state: moved(old(self).state, ReservationState::Reverted),
                ..*old(self)
            }),
    {
        self.transition(ReservationState::Reverted)
    }
}

/// The guard that reverts a reservation when its scope ends, unless it was
/// cancelled before.
#[derive(Debug)]
pub struct DeferredRevert {
    armed: bool,
}

impl DeferredRevert {
    /// Whether the guard will still revert at the end of its scope.
    pub closed spec fn armed(&self) -> bool {
        self.armed
    }

    /// A guard that will revert at the end of its scope.
    pub fn new() -> (g: DeferredRevert)
        ensures
            g.armed(),
    {
        DeferredRevert { armed: true }
    }

    /// Tests `armed`.
    pub fn is_armed(&self) -> (b: bool)
        ensures
            b == self.armed(),
    {
        self.armed
    }

    /// Cancels the guard: it will not revert at the end of its scope.
    pub fn disarm(&mut self)
        ensures
            !final(self).armed(),
    {
        self.armed = false;
    }

    /// Cancels the guard and tries to commit the reservation. The commit wins
    /// exactly if the reservation is still active.
    pub fn cancel(&mut self, funds: &mut Funds, record: &mut ReservationRecord) -> (committed: bool)
        requires
            old(funds).wf(),
            old(funds).holds(*old(record)),
        ensures
            !final(self).armed(),
            committed == wins(old(record).state, ReservationState::Committed),
            *final(record) == (ReservationRecord {
                state: moved(old(record).state, ReservationState::Committed),
                ..*old(record)
            }),
            *final(funds) == settled(*old(funds), *old(record), ReservationState::Committed),
            final(funds).wf(),
            final(funds).holds(*final(record)),
    {
        self.disarm();
        funds.settle(record, ReservationState::Committed)
    }

    /// The end of the guard's scope: a guard that is still armed tries to
    /// revert the reservation; a cancelled one does nothing.
    pub fn release(self, funds: &mut Funds, record: &mut ReservationRecord) -> (reverted: bool)
        requires
            old(funds).wf(),
            old(funds).holds(*old(record)),
        ensures
            reverted == (self.armed() && wins(old(record).state, ReservationState::Reverted)),
            self.armed() ==> *final(record) == (ReservationRecord {
                state: moved(old(record).state, ReservationState::Reverted),
                ..*old(record)
            }) && *final(funds) == settled(*old(funds), *old(record), ReservationState::Reverted),
            !self.armed() ==> *final(record) == *old(record) && *final(funds) == *old(funds),
            final(funds).wf(),
            final(funds).holds(*final(record)),
    {
        if self.armed {
            funds.settle(record, ReservationState::Reverted)
        } else {
            false
        }
    }
}

/// What the caller does once its wait is over: if the engine took the order
/// (`confirmed`), the guard is cancelled and the reservation committed; then
/// the guard's scope ends, which reverts a reservation that is still active.
/// An active reservation ends committed exactly if the order was confirmed,
/// and reverted otherwise, with the held amount given back.
pub fn conclude(
    guard: DeferredRevert,
    funds: &mut Funds,
    record: &mut ReservationRecord,
    confirmed: bool,
) -> (state: ReservationState)
    requires
        guard.armed(),
        old(funds).wf(),
        old(funds).holds(*old(record)),
    ensures
        state == final(record).state,
        *final(record) == (ReservationRecord {
            state: moved(
                old(record).state,
                if confirmed {
                    ReservationState::Committed
                } else {
                    ReservationState::Reverted
                },
            ),
            ..*old(record)
        }),
        *final(funds) == settled(
            *old(funds),
            *old(record),
            if confirmed {
                ReservationState::Committed
            } else {
                ReservationState::Reverted
            },
        ),
        final(funds).wf(),
        final(funds).holds(*final(record)),
{
    let mut guard = guard;
    if confirmed {
        guard.cancel(funds, record);
    }
    guard.release(funds, record);
    record.state
}

/// Single winner: of any run of attempts to commit or revert an active
/// reservation, in any order, exactly one wins, namely the first, and the
/// reservation ends in the state that it asked for. So a commit that races
/// a revert leaves the reservation in exactly one terminal state.
pub proof fn lemma_single_winner(attempts: Seq<ReservationState>)
    requires
        attempts.len() > 0,
        forall|i: int| 0 <= i < attempts.len() ==> attempts[i] != ReservationState::Active,
    ensures
        after_all(ReservationState::Active, attempts) == attempts[0],
        after_all(ReservationState::Active, attempts) != ReservationState::Active,
        winners(ReservationState::Active, attempts) == 1,
{
    lemma_terminal_stays(attempts[0], attempts.skip(1));
}

/// A terminal state is final: no attempt wins on a reservation that is
/// committed or reverted, and none changes its state. So a reservation is
/// never reverted twice, and a late commit after a revert is a no-op.
pub proof fn lemma_terminal_stays(state: ReservationState, attempts: Seq<ReservationState>)
    requires
        state != ReservationState::Active,
    ensures
        after_all(state, attempts) == state,
        winners(state, attempts) == 0,
    decreases attempts.len(),
{
    if attempts.len() > 0 {
        lemma_terminal_stays(state, attempts.skip(1));
    }
}

/// The held amount is released once: after one attempt to commit or revert,
/// a second attempt, whatever it asks for, changes nothing of the funds.
pub proof fn lemma_settles_once(
    funds: Funds,
    record: ReservationRecord,
    first: ReservationState,
    second: ReservationState,
)
    requires
        first != ReservationState::Active,
    ensures
        ({
            let once = settled(funds, record, first);
            let then = ReservationRecord { state: moved(record.state, first), ..record };
            settled(once, then, second) == once
        }),
{
}

} // verus!
