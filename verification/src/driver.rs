//! The engine driver: what the engine's one execution context does with the
//! channel, one command at a time.

use vstd::prelude::*;
use crate::channel::{ChannelView, CommandChannel, Submission};
use crate::engine::{
    answer_view, lemma_cancel_keeps_engine, lemma_place_keeps_engine, Command, CommandOutcome,
    CommandOutcomeView, Engine, EngineView, TradingEngineError,
};

verus! {

/// A command that the engine has handled: its handle, and the answer that
/// the handle is to be resolved with.
pub struct Answered<H> {
    pub handle: H,
    pub answer: Result<CommandOutcome, TradingEngineError>,
}

/// What one turn of the driver came to.
pub enum Pumped<H> {
    /// The oldest pending command was handled.
    Handled(Answered<H>),
    /// Nothing is pending and intake is open: the driver waits.
    Idle,
    /// Nothing is pending and intake has ended: the driver stops.
    Stopped,
}

/// The engine after a run of commands, each handled to completion before
/// the next.
pub open spec fn replay(engine: EngineView, commands: Seq<Command>) -> EngineView
    decreases commands.len(),
{
    if commands.len() == 0 {
        engine
    } else {
        replay(engine.after(commands[0]), commands.skip(1))
    }
}

/// The answer to the command at place `i` of a run: the answer of the
/// engine as it stands after the commands before it.
pub open spec fn answer_at(engine: EngineView, commands: Seq<Command>, i: int) -> Result<
    CommandOutcomeView,
    TradingEngineError,
> {
    replay(engine, commands.take(i)).answer(commands[i])
}

/// A run with one more command at its end is the run, then that command.
pub proof fn lemma_replay_extends(engine: EngineView, commands: Seq<Command>, next: Command)
    ensures
        replay(engine, commands.push(next)) == replay(engine, commands).after(next),
    decreases commands.len(),
{
    let longer = commands.push(next);
    if commands.len() == 0 {
        assert(longer.skip(1) =~= commands);
        assert(longer[0] == next);
        assert(replay(engine.after(next), commands) == engine.after(next));
    } else {
        assert(longer.skip(1) =~= commands.skip(1).push(next));
        assert(longer[0] == commands[0]);
        lemma_replay_extends(engine.after(commands[0]), commands.skip(1), next);
    }
}

/// Every command keeps the engine valid, so a run does: after any run of
/// commands every resting order has something open.
pub proof fn lemma_replay_keeps_engine(engine: EngineView, commands: Seq<Command>)
    requires
        engine.wf(),
    ensures
        replay(engine, commands).wf(),
    decreases commands.len(),
{
    if commands.len() > 0 {
        match commands[0] {
            Command::PlaceOrder(p) => {
                lemma_place_keeps_engine(engine, p);
            },
            Command::CancelOrder(c) => {
                lemma_cancel_keeps_engine(engine, c);
            },
        }
        lemma_replay_keeps_engine(engine.after(commands[0]), commands.skip(1));
    }
}

/// One turn of the driver: takes the oldest pending command, if there is
/// one, and handles it to completion. With nothing pending the driver waits
/// while intake is open, and stops once it has ended.
pub fn pump<H>(engine: &mut Engine, channel: &mut CommandChannel<H>) -> (r: Pumped<H>)
    ensures
        match r {
            Pumped::Handled(a) => {
                &&& old(channel)@.pending.len() > 0
                &&& a.handle == old(channel)@.pending[0].handle
                &&& answer_view(a.answer) == old(engine)@.answer(old(channel)@.pending[0].command)
                &&& final(engine)@ == old(engine)@.after(old(channel)@.pending[0].command)
                &&& final(channel)@ == (ChannelView {
                    pending: old(channel)@.pending.skip(1),
                    ..old(channel)@
                })
            },
            Pumped::Idle => {
                &&& old(channel)@.pending.len() == 0
                &&& !old(channel)@.closed
                &&& final(engine)@ == old(engine)@
                &&& final(channel)@ == old(channel)@
            },
            Pumped::Stopped => {
                &&& old(channel)@.pending.len() == 0
                &&& old(channel)@.closed
                &&& final(engine)@ == old(engine)@
                &&& final(channel)@ == old(channel)@
            },
        },
        old(engine)@.wf() ==> final(engine)@.wf(),
{
    match channel.take() {
        Some(s) => {
            let answer = engine.handle(s.command);
            Pumped::Handled(Answered { handle: s.handle, answer })
        },
        None => if channel.is_closed() {
            Pumped::Stopped
        } else {
            Pumped::Idle
        },
    }
}

/// Handles everything that is pending, in arrival order: each command is
/// handled exactly once, to completion, before the next is taken. The
/// answers come back in the same order, each with its own handle.
pub fn drain<H>(engine: &mut Engine, channel: &mut CommandChannel<H>) -> (out: Vec<Answered<H>>)
    ensures
        final(engine)@ == replay(old(engine)@, old(channel)@.commands()),
        final(channel)@ == (ChannelView { pending: Seq::empty(), ..old(channel)@ }),
        out.len() == old(channel)@.pending.len(),
        forall|i: int|
            0 <= i < out.len() ==> (#[trigger] out[i]).handle == old(channel)@.pending[i].handle
                && answer_view(out[i].answer) == answer_at(
                old(engine)@,
                old(channel)@.commands(),
                i,
            ),
        old(engine)@.wf() ==> final(engine)@.wf(),
{
    let mut out: Vec<Answered<H>> = Vec::new();
    let ghost commands = channel@.commands();
    proof {
        assert(commands.take(0) =~= Seq::<Command>::empty());
        assert(channel@.pending.skip(0) =~= channel@.pending);
    }
    while channel.len() > 0
        invariant
            out.len() + channel@.pending.len() == old(channel)@.pending.len(),
            commands == old(channel)@.commands(),
            channel@ == (ChannelView {
                pending: old(channel)@.pending.skip(out.len() as int),
                ..old(channel)@
            }),
            engine@ == replay(old(engine)@, commands.take(out.len() as int)),
            forall|i: int|
                0 <= i < out.len() ==> (#[trigger] out[i]).handle == old(channel)@.pending[i].handle
                    && answer_view(out[i].answer) == answer_at(old(engine)@, commands, i),
            old(engine)@.wf() ==> engine@.wf(),
        decreases channel@.pending.len(),
    {
        let ghost k = out.len() as int;
        let ghost before = engine@;
        match pump(engine, channel) {
            Pumped::Handled(a) => {
                proof {
                    let all = old(channel)@.pending;
                    assert(all.skip(k)[0] == all[k]);
                    assert(all.skip(k).skip(1) =~= all.skip(k + 1));
                    assert(commands[k] == all[k].command);
                    assert(commands.take(k + 1) =~= commands.take(k).push(commands[k]));
                    lemma_replay_extends(old(engine)@, commands.take(k), commands[k]);
                }
                out.push(a);
            },
            _ => {},
        }
    }
    proof {
        assert(commands.take(commands.len() as int) =~= commands);
        assert(old(channel)@.pending.skip(out.len() as int) =~= Seq::<Submission<H>>::empty());
    }
    out
}

} // verus!
