//! The response slot: the one-shot handle through which the engine's answer
//! to one command reaches the caller who submitted it.

use vstd::prelude::*;

verus! {

/// A slot as a value.
pub struct SlotView<T> {
    /// The answer, while it waits to be read.
    pub value: Option<T>,
    /// Whether the engine has answered.
    pub resolved: bool,
    /// Whether the caller is done: it has read the answer or given up.
    pub closed: bool,
}

/// What became of an answer that the engine handed to a slot.
#[derive(Clone, Copy, Debug, PartialEq, Eq, Structural)]
pub enum Resolution {
    /// The answer waits in the slot for the caller.
    Delivered,
    /// The caller had given up; the answer is dropped and never read.
    Late,
    /// The slot had been resolved before; the answer is dropped.
    Repeated,
}

/// The completion handle of one command.
pub struct ResponseSlot<T> {
    value: Option<T>,
    resolved: bool,
    closed: bool,
}

impl<T> View for ResponseSlot<T> {
    type V = SlotView<T>;

    closed spec fn view(&self) -> SlotView<T> {
        SlotView { value: self.value, resolved: self.resolved, closed: self.closed }
    }
}

impl<T> SlotView<T> {
    /// The invariant of a slot: an answer waits only in a slot that is
    /// resolved and whose caller is not done.
    pub open spec fn wf(self) -> bool {
        self.value is Some ==> self.resolved && !self.closed
    }

    /// What the caller reads now: the answer if one waits, else nothing.
    pub open spec fn readable(self) -> Option<T> {
        if self.closed {
            None
        } else {
            self.value
        }
    }

    /// The slot after the engine hands it `v`.
    pub open spec fn resolved_with(self, v: T) -> SlotView<T> {
        if self.resolved {
            self
        } else if self.closed {
            SlotView { resolved: true, ..self }
        } else {
            SlotView { value: Some(v), resolved: true, closed: false }
        }
    }

    /// The slot after the caller has looked, at the end of its wait or
    /// before: closed if it read an answer or if the wait is over.
    pub open spec fn looked(self, last: bool) -> SlotView<T> {
        if self.readable() is Some || last {
            SlotView { value: None, closed: true, ..self }
        } else {
            self
        }
    }
}

impl<T> ResponseSlot<T> {
    /// A slot that is neither resolved nor closed.
    pub fn new() -> (s: ResponseSlot<T>)
        ensures
            s@ == (SlotView::<T> { value: None, resolved: false, closed: false }),
            s@.wf(),
    {
        ResponseSlot { value: None, resolved: false, closed: false }
    }

    /// Whether the engine has answered.
    pub fn is_resolved(&self) -> (b: bool)
        ensures
            b == self@.resolved,
    {
        self.resolved
    }

    /// Whether the caller is done with the slot.
    pub fn is_closed(&self) -> (b: bool)
        ensures
            b == self@.closed,
    {
        self.closed
    }

    /// The engine's side: hands the answer `v` to the slot. Only the first
    /// answer counts, and it is kept only if the caller still waits.
    pub fn resolve(&mut self, v: T) -> (r: Resolution)
        ensures
            final(self)@ == old(self)@.resolved_with(v),
            r == (if old(self)@.resolved {
                Resolution::Repeated
            } else if old(self)@.closed {
                Resolution::Late
            } else {
                Resolution::Delivered
            }),
            final(self)@.resolved,
            old(self)@.wf() ==> final(self)@.wf(),
    {
        if self.resolved {
            Resolution::Repeated
        } else if self.closed {
            self.resolved = true;
            Resolution::Late
        } else {
            self.value = Some(v);
            self.resolved = true;
            Resolution::Delivered
        }
    }

    /// The caller's side: one look at the slot, either when the caller is
    /// woken while its wait goes on, or, with `bound_elapsed`, when the bound
    /// of its wait has elapsed. Yields the answer if one waits. The slot is
    /// closed once it gave its answer or the bound has elapsed; the command
    /// itself is not cancelled by that, and a later answer is never read.
    pub fn wait(&mut self, bound_elapsed: bool) -> (r: Option<T>)
        ensures
            r == old(self)@.readable(),
            final(self)@ == old(self)@.looked(bound_elapsed),
            bound_elapsed || r is Some ==> final(self)@.closed,
            final(self)@.closed ==> final(self)@.readable() is None,
            old(self)@.wf() ==> final(self)@.wf(),
    {
        if bound_elapsed {
            self.wait_over()
        } else {
            self.poll()
        }
    }

    /// The caller's side, while its wait goes on: takes the answer if one
    /// waits. A slot that gave its answer is closed; one that had none is
    /// left as it was.
    pub fn poll(&mut self) -> (r: Option<T>)
        ensures
            r == old(self)@.readable(),
            final(self)@ == old(self)@.looked(false),
            old(self)@.wf() ==> final(self)@.wf(),
    {
        if self.closed {
            None
        } else {
            let r = self.value.take();
            if r.is_some() {
                self.closed = true;
            }
            r
        }
    }

    /// The caller's side, when its wait is over: takes the answer if one
    /// arrived within the bound, and closes the slot either way. A later
    /// answer is never read.
    pub fn wait_over(&mut self) -> (r: Option<T>)
        ensures
            r == old(self)@.readable(),
            final(self)@ == old(self)@.looked(true),
            final(self)@.closed,
            final(self)@.readable() is None,
            old(self)@.wf() ==> final(self)@.wf(),
    {
        if self.closed {
            self.value = None;
            None
        } else {
            self.closed = true;
            self.value.take()
        }
    }
}

/// At most one observation: once the caller has read an answer or its wait
/// is over, the slot is closed, and a closed slot stays closed and yields
/// nothing, whatever the engine or the caller do next.
pub proof fn lemma_closed_yields_nothing<T>(slot: SlotView<T>, v: T, last: bool)
    requires
        slot.closed,
    ensures
        slot.readable() is None,
        slot.resolved_with(v).closed,
        slot.resolved_with(v).readable() is None,
        slot.looked(last).closed,
        slot.looked(last).readable() is None,
{
}

/// Reading closes: a look that yields an answer leaves a closed slot, and so
/// does the look at the end of the wait.
pub proof fn lemma_look_closes<T>(slot: SlotView<T>, last: bool)
    ensures
        slot.readable() is Some || last ==> slot.looked(last).closed,
        slot.readable() is None && !last ==> slot.looked(last) == slot,
{
}

/// At most one resolution: only the first answer can reach the caller. Once
/// a slot is resolved, a further answer changes nothing.
pub proof fn lemma_first_answer_counts<T>(slot: SlotView<T>, first: T, second: T)
    ensures
        slot.resolved_with(first).resolved,
        slot.resolved_with(first).resolved_with(second) == slot.resolved_with(first),
        !slot.resolved && !slot.closed ==> slot.resolved_with(first).readable() == Some(first),
{
}

} // verus!
