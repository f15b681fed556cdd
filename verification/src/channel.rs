//! The command channel: the bounded first-in-first-out queue that carries
//! commands, each with its response handle, from the callers to the engine.

use vstd::prelude::*;
use crate::engine::Command;
use crate::text::{decimal_up_to, parse_decimal};

verus! {

/// The capacity of a channel where none is configured.
pub const DEFAULT_CAPACITY: usize = 1024;

/// The capacity that a setting names, or the default where there is no
/// setting or it does not write a capacity in decimal.
pub open spec fn capacity_or(configured: Option<Seq<char>>) -> usize {
    match configured {
        Some(s) => match decimal_up_to(s, usize::MAX as u64) {
            Some(n) => n as usize,
            None => DEFAULT_CAPACITY,
        },
        None => DEFAULT_CAPACITY,
    }
}

/// The capacity of the channel: the configured one if it is a number that
/// the machine can hold, else the default.
pub fn capacity_or_default(configured: Option<&str>) -> (n: usize)
    ensures
        n == capacity_or(
            match configured {
                Some(s) => Some(s@),
                None => None,
            },
        ),
{
    match configured {
        Some(s) => match parse_decimal(s, usize::MAX as u64) {
            Some(n) => n as usize,
            None => DEFAULT_CAPACITY,
        },
        None => DEFAULT_CAPACITY,
    }
}

/// A command on its way to the engine, with the handle through which its
/// answer goes back.
pub struct Submission<H> {
    pub command: Command,
    pub handle: H,
}

/// Why a submission was not accepted.
#[derive(Clone, Copy, Debug, PartialEq, Eq, Structural)]
pub enum SubmitError {
    /// The command fails structural validation.
    UnserializableInput,
    /// The channel is closed: intake has ended.
    Closed,
    /// The channel is full: the caller waits and submits again.
    Full,
}

/// A submission that was not accepted: the reason, and the handle, which
/// goes back to the caller.
pub struct Refused<H> {
    pub reason: SubmitError,
    pub handle: H,
}

/// A channel as a value.
pub struct ChannelView<H> {
    pub capacity: nat,
    /// The accepted submissions that the engine has not taken, oldest first.
    pub pending: Seq<Submission<H>>,
    pub closed: bool,
}

impl<H> ChannelView<H> {
    /// The invariant of a channel: it never holds more than its capacity.
    pub open spec fn wf(self) -> bool {
        self.pending.len() <= self.capacity
    }

    /// Why `command` is not accepted, if it is not. The checks come in this
    /// order: the command, the intake, the room.
    pub open spec fn refusal(self, command: Command) -> Option<SubmitError> {
        if !command.valid() {
            Some(SubmitError::UnserializableInput)
        } else if self.closed {
            Some(SubmitError::Closed)
        } else if self.pending.len() >= self.capacity {
            Some(SubmitError::Full)
        } else {
            None
        }
    }

    /// The pending commands, oldest first.
    pub open spec fn commands(self) -> Seq<Command> {
        Seq::new(self.pending.len(), |i: int| self.pending[i].command)
    }
}

/// The bounded channel between the callers and the engine.
pub struct CommandChannel<H> {
    capacity: usize,
    pending: Vec<Submission<H>>,
    closed: bool,
}

impl<H> View for CommandChannel<H> {
    type V = ChannelView<H>;

    closed spec fn view(&self) -> ChannelView<H> {
        ChannelView { capacity: self.capacity as nat, pending: self.pending@, closed: self.closed }
    }
}

impl<H> CommandChannel<H> {
    /// An open, empty channel that holds up to `capacity` submissions.
    pub fn new(capacity: usize) -> (c: CommandChannel<H>)
        ensures
            c@ == (ChannelView::<H> {
                capacity: capacity as nat,
                pending: Seq::empty(),
                closed: false,
            }),
            c@.wf(),
    {
        CommandChannel { capacity, pending: Vec::new(), closed: false }
    }

    /// How many submissions the channel holds at most.
    pub fn capacity(&self) -> (n: usize)
        ensures
            n == self@.capacity,
    {
        self.capacity
    }

    /// How many submissions wait for the engine.
    pub fn len(&self) -> (n: usize)
        ensures
            n == self@.pending.len(),
    {
        self.pending.len()
    }

    /// Whether intake has ended.
    pub fn is_closed(&self) -> (b: bool)
        ensures
            b == self@.closed,
    {
        self.closed
    }

    /// Submits `command` with its response handle. An accepted submission
    /// goes to the back of the queue; one that is not accepted changes
    /// nothing, and its handle goes back to the caller with the reason.
    pub fn submit(&mut self, command: Command, handle: H) -> (r: Result<(), Refused<H>>)
        ensures
            match r {
                Ok(_) => old(self)@.refusal(command) is None && final(self)@ == (ChannelView {
                    pending: old(self)@.pending.push(Submission { command, handle }),
                    ..old(self)@
                }),
                Err(refused) => old(self)@.refusal(command) == Some(refused.reason)
                    && refused.handle == handle && final(self)@ == old(self)@,
            },
            old(self)@.wf() ==> final(self)@.wf(),
    {
        if !command.is_valid() {
            Err(Refused { reason: SubmitError::UnserializableInput, handle })
        } else if self.closed {
            Err(Refused { reason: SubmitError::Closed, handle })
        } else if self.pending.len() >= self.capacity {
            Err(Refused { reason: SubmitError::Full, handle })
        } else {
            self.pending.push(Submission { command, handle });
            Ok(())
        }
    }

    /// Takes the oldest pending submission, if there is one.
    pub fn take(&mut self) -> (r: Option<Submission<H>>)
        ensures
            match r {
                Some(s) => old(self)@.pending.len() > 0 && s == old(self)@.pending[0]
                    && final(self)@ == (ChannelView {
                    pending: old(self)@.pending.skip(1),
                    ..old(self)@
                }),
                None => old(self)@.pending.len() == 0 && final(self)@ == old(self)@,
            },
            old(self)@.wf() ==> final(self)@.wf(),
    {
        if self.pending.len() == 0 {
            None
        } else {
            proof {
                assert(self.pending@.remove(0) =~= self.pending@.skip(1));
            }
            Some(self.pending.remove(0))
        }
    }

    /// Ends intake. What is pending stays, for the engine to take.
    pub fn close(&mut self)
        ensures
            final(self)@ == (ChannelView { closed: true, ..old(self)@ }),
    {
        self.closed = true;
    }
}

/// No silent loss, and arrival order: a submission that is accepted when
/// `n` others are pending is the one that the engine takes after exactly
/// those `n`, whatever is submitted behind it in the meantime.
pub proof fn lemma_accepted_is_delivered<H>(
    channel: ChannelView<H>,
    s: Submission<H>,
    later: Seq<Submission<H>>,
)
    ensures
        ({
            let n = channel.pending.len() as int;
            let queue = channel.pending.push(s) + later;
            &&& queue[n] == s
            &&& queue.take(n) == channel.pending
            &&& queue.skip(n)[0] == s
        }),
{
    let n = channel.pending.len() as int;
    let queue = channel.pending.push(s) + later;
    assert(queue.take(n) =~= channel.pending);
}

} // verus!
