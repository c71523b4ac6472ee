//! Shared base types: lifecycle states, error taxonomy, seek flags, buffers.

use vstd::prelude::*;

verus! {

/// Lifecycle state of a graph or of one of its elements.
///
/// The states are strictly ordered `Null < Ready < Paused < Playing`;
/// transitions move one step at a time in either direction.
#[derive(Clone, Copy, Debug, PartialEq, Eq, Structural)]
pub enum State {
    Null,
    Ready,
    Paused,
    Playing,
}

impl State {
    /// Position of the state in the lifecycle order.
    pub open spec fn spec_rank(self) -> int {
        match self {
            State::Null => 0,
            State::Ready => 1,
            State::Paused => 2,
            State::Playing => 3,
        }
    }

    /// Position of the state in the lifecycle order.
    pub fn rank(self) -> (r: u32)
        ensures
            r as int == self.spec_rank(),
    {
        match self {
            State::Null => 0,
            State::Ready => 1,
            State::Paused => 2,
            State::Playing => 3,
        }
    }

    /// The next state on the way from `self` toward `target`, one step
    /// along the order, or `self` itself when already there.
    pub open spec fn spec_step_toward(self, target: State) -> State {
        if self.spec_rank() < target.spec_rank() {
            self.spec_up()
        } else if self.spec_rank() > target.spec_rank() {
            self.spec_down()
        } else {
            self
        }
    }

    /// One step up the lifecycle order (`Playing` stays `Playing`).
    pub open spec fn spec_up(self) -> State {
        match self {
            State::Null => State::Ready,
            State::Ready => State::Paused,
            State::Paused => State::Playing,
            State::Playing => State::Playing,
        }
    }

    /// One step down the lifecycle order (`Null` stays `Null`).
    pub open spec fn spec_down(self) -> State {
        match self {
            State::Null => State::Null,
            State::Ready => State::Null,
            State::Paused => State::Ready,
            State::Playing => State::Paused,
        }
    }

    /// One step toward `target`.
    pub fn step_toward(self, target: State) -> (r: State)
        ensures
            r == self.spec_step_toward(target),
    {
        let my = self.rank();
        let want = target.rank();
        if my < want {
            match self {
                State::Null => State::Ready,
                State::Ready => State::Paused,
                State::Paused => State::Playing,
                State::Playing => State::Playing,
            }
        } else if my > want {
            match self {
                State::Null => State::Null,
                State::Ready => State::Null,
                State::Paused => State::Ready,
                State::Playing => State::Paused,
            }
        } else {
            self
        }
    }

    /// True when data may flow: `Paused` or `Playing`.
    pub open spec fn spec_is_active(self) -> bool {
        self.spec_rank() >= 2
    }

    /// True when data may flow: `Paused` or `Playing`.
    pub fn is_active(self) -> (r: bool)
        ensures
            r == self.spec_is_active(),
    {
        self.rank() >= 2
    }
}

/// The error taxonomy of the engine.
///
/// Construction and linking errors are returned synchronously; errors
/// discovered while data flows are surfaced as bus messages.
#[derive(Clone, Copy, Debug, PartialEq, Eq, Structural)]
pub enum EngineError {
    /// The template capabilities of two pads have an empty intersection.
    LinkIncompatible,
    /// Fixation was impossible after data began flowing.
    NegotiationFailed,
    /// An element kind is unknown or unavailable.
    ElementCreationFailed,
    /// An element rejected a requested state.
    StateChangeFailed,
    /// A seek was attempted in a state or stream that does not support it.
    SeekUnsupported,
    /// A position or duration query is not supported in the current state.
    QueryUnsupported,
    /// Blocking pops and callback dispatch were mixed on one bus.
    DualConsumptionError,
    /// A request pad was added or released during active flow without
    /// pad blocking.
    ConcurrentPadMutation,
    /// A pull was attempted without a pending "new data" notification.
    NoSampleAvailable,
}

/// Seek behaviour flags; the three bits are independent and any
/// combination is legal.
#[derive(Clone, Copy, Debug, PartialEq, Eq, Structural)]
pub struct SeekFlags {
    /// Discard all in-flight buffers for faster responsiveness.
    pub flush: bool,
    /// Round the target to the nearest efficiently reachable unit.
    pub key_unit: bool,
    /// Force exact positioning at a higher seek cost.
    pub accurate: bool,
}

/// A data buffer with its presentation timestamp and duration, both in
/// nanoseconds.
#[derive(Debug)]
pub struct Buffer {
    pub pts: u64,
    pub duration: u64,
    pub data: Vec<u8>,
}

impl Buffer {
    /// An exact copy of the buffer; fan-out hands one to each branch.
    pub fn duplicate(&self) -> (r: Buffer)
        ensures
            r.pts == self.pts,
            r.duration == self.duration,
            r.data@ == self.data@,
    {
        let mut data: Vec<u8> = Vec::new();
        let mut i: usize = 0;
        while i < self.data.len()
            invariant
                i <= self.data@.len(),
                data@ == self.data@.subrange(0, i as int),
            decreases self.data@.len() - i,
        {
            data.push(self.data[i]);
            i = i + 1;
        }
        proof {
            assert(data@ =~= self.data@);
        }
        Buffer { pts: self.pts, duration: self.duration, data }
    }
}

} // verus!
