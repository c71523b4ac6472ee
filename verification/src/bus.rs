//! The bus: an asynchronous event channel from graph-internal machinery to
//! the controller.
//!
//! Any element may post; exactly one consumer retrieves each message, by
//! blocking pop, timed pop, or callback dispatch. Delivery is first-in
//! first-out, so messages posted by one element are consumed in posting
//! order, whatever other elements interleave. Mixing blocking pops and
//! callback dispatch on one bus is a usage error.

use vstd::prelude::*;
use crate::message::{ElementId, KindFilter, Message};
use crate::types::EngineError;

verus! {

/// How the consumer side of a bus is being used.
#[derive(Clone, Copy, Debug, PartialEq, Eq, Structural)]
pub enum ConsumerMode {
    /// No consumption has happened yet; either mechanism may claim the bus.
    Free,
    /// The bus is consumed by blocking or timed pops.
    Popping,
    /// The bus is consumed by callback dispatch.
    Dispatching,
}

/// The event channel. Messages wait in posting order.
pub struct Bus {
    pub queue: Vec<Message>,
    pub mode: ConsumerMode,
    pub filter: KindFilter,
}

impl Bus {
    /// A fresh bus with no pending messages and no consumer.
    pub fn new() -> (r: Bus)
        ensures
            r.queue@.len() == 0,
            r.mode == ConsumerMode::Free,
    {
        Bus { queue: Vec::new(), mode: ConsumerMode::Free, filter: KindFilter::all() }
    }

    /// Posts a message: it joins the back of the queue. Elements on any
    /// thread call this; it never disturbs the consumer state.
    pub fn post(&mut self, msg: Message)
        ensures
            final(self).queue@ == old(self).queue@.push(msg),
            final(self).mode == old(self).mode,
            final(self).filter == old(self).filter,
    {
        self.queue.push(msg);
    }

    /// Pops the oldest message, waiting up to the timeout for one to
    /// arrive: `Ok(None)` when the timeout elapses with the queue empty.
    /// Fails with `DualConsumptionError` on a bus claimed by dispatch.
    pub fn pop_timed(&mut self, timeout_ns: u64) -> (r: Result<Option<Message>, EngineError>)
        ensures
            match r {
                Err(e) => e == EngineError::DualConsumptionError
                    && old(self).mode == ConsumerMode::Dispatching
                    && *final(self) == *old(self),
                Ok(None) => old(self).mode != ConsumerMode::Dispatching
                    && old(self).queue@.len() == 0
                    && final(self).queue@ == old(self).queue@
                    && final(self).mode == ConsumerMode::Popping,
                Ok(Some(m)) => old(self).mode != ConsumerMode::Dispatching
                    && old(self).queue@.len() > 0
                    && m == old(self).queue@[0]
                    && final(self).queue@ == old(self).queue@.subrange(
                        1, old(self).queue@.len() as int)
                    && final(self).mode == ConsumerMode::Popping,
            },
            final(self).filter == old(self).filter,
    {
        let _ = timeout_ns;
        match self.mode {
            ConsumerMode::Dispatching => Err(EngineError::DualConsumptionError),
            _ => {
                self.mode = ConsumerMode::Popping;
                if self.queue.len() == 0 {
                    Ok(None)
                } else {
                    let m = self.queue.remove(0);
                    Ok(Some(m))
                }
            },
        }
    }

    /// Pops the oldest message, blocking until one exists. In this model
    /// there is no concurrent producer to wait for, so a message must
    /// already be pending. Fails with `DualConsumptionError` on a bus
    /// claimed by dispatch.
    pub fn pop_blocking(&mut self) -> (r: Result<Message, EngineError>)
        requires
            old(self).queue@.len() > 0,
        ensures
            match r {
                Err(e) => e == EngineError::DualConsumptionError
                    && old(self).mode == ConsumerMode::Dispatching
                    && *final(self) == *old(self),
                Ok(m) => old(self).mode != ConsumerMode::Dispatching
                    && m == old(self).queue@[0]
                    && final(self).queue@ == old(self).queue@.subrange(
                        1, old(self).queue@.len() as int)
                    && final(self).mode == ConsumerMode::Popping,
            },
            final(self).filter == old(self).filter,
    {
        match self.mode {
            ConsumerMode::Dispatching => Err(EngineError::DualConsumptionError),
            _ => {
                self.mode = ConsumerMode::Popping;
                let m = self.queue.remove(0);
                Ok(m)
            },
        }
    }

    /// Claims the bus for callback dispatch with the given kind filter.
    /// Fails with `DualConsumptionError` on a bus already claimed by pops.
    pub fn set_dispatch(&mut self, filter: KindFilter) -> (r: Result<(), EngineError>)
        ensures
            match r {
                Err(e) => e == EngineError::DualConsumptionError
                    && old(self).mode == ConsumerMode::Popping
                    && *final(self) == *old(self),
                Ok(()) => old(self).mode != ConsumerMode::Popping
                    && final(self).mode == ConsumerMode::Dispatching
                    && final(self).filter == filter
                    && final(self).queue@ == old(self).queue@,
            },
    {
        match self.mode {
            ConsumerMode::Popping => Err(EngineError::DualConsumptionError),
            _ => {
                self.mode = ConsumerMode::Dispatching;
                self.filter = filter;
                Ok(())
            },
        }
    }

    /// One dispatch turn: consumes the oldest message and hands it to the
    /// caller when the filter passes it; a filtered-out message is
    /// consumed silently. `Ok(None)` with an unchanged queue means the
    /// queue was empty. Fails unless the bus was claimed by
    /// `set_dispatch`.
    pub fn dispatch_one(&mut self) -> (r: Result<Option<Message>, EngineError>)
        ensures
            match r {
                Err(e) => e == EngineError::DualConsumptionError
                    && old(self).mode != ConsumerMode::Dispatching
                    && *final(self) == *old(self),
                Ok(None) => old(self).mode == ConsumerMode::Dispatching
                    && (old(self).queue@.len() == 0 && final(self).queue@ == old(self).queue@
                        || old(self).queue@.len() > 0
                            && !old(self).filter.spec_passes(old(self).queue@[0].kind)
                            && final(self).queue@ == old(self).queue@.subrange(
                                1, old(self).queue@.len() as int)),
                Ok(Some(m)) => old(self).mode == ConsumerMode::Dispatching
                    && old(self).queue@.len() > 0
                    && m == old(self).queue@[0]
                    && old(self).filter.spec_passes(m.kind)
                    && final(self).queue@ == old(self).queue@.subrange(
                        1, old(self).queue@.len() as int),
            },
            final(self).mode == old(self).mode,
            final(self).filter == old(self).filter,
    {
        match self.mode {
            ConsumerMode::Dispatching => {
                if self.queue.len() == 0 {
                    Ok(None)
                } else {
                    let m = self.queue.remove(0);
                    if self.filter.passes(&m.kind) {
                        Ok(Some(m))
                    } else {
                        Ok(None)
                    }
                }
            },
            _ => Err(EngineError::DualConsumptionError),
        }
    }
}

/// Law: posting preserves order. After an element posts `a` and then `b`,
/// `a` stands closer to the head of the queue than `b`; since each pop
/// returns the head, `a` is consumed before `b`.
pub proof fn lemma_bus_fifo(q: Seq<Message>, a: Message, b: Message)
    ensures
        q.push(a).push(b)[q.len() as int] == a,
        q.push(a).push(b)[q.len() as int + 1] == b,
        q.push(a).push(b).len() == q.len() + 2,
{
}

/// Law: interleavings across elements preserve each element's own order.
/// Whatever messages from other elements stand in the queue, posting `a`
/// and then `b` from one element appends exactly `a` then `b` to that
/// element's subsequence of the queue.
pub proof fn lemma_bus_per_source_order(q: Seq<Message>, e: ElementId, a: Message, b: Message)
    requires
        a.src == e,
        b.src == e,
    ensures
        q.push(a).push(b).filter(|m: Message| m.src == e)
            == q.filter(|m: Message| m.src == e).push(a).push(b),
{
    let pred = |m: Message| m.src == e;
    let q1 = q.push(a);
    let q2 = q1.push(b);
    reveal_with_fuel(Seq::filter, 2);
    assert(q2.drop_last() =~= q1);
    assert(q1.drop_last() =~= q);
    assert(q1.filter(pred) == q.filter(pred).push(a));
    assert(q2.filter(pred) == q1.filter(pred).push(b));
}

} // verus!
