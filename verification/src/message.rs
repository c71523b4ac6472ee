//! Bus messages: immutable records carrying a kind, the identity of the
//! originating element, and kind-specific payload.

use vstd::prelude::*;
use crate::types::{EngineError, State};

verus! {

/// Identity of an element within its graph.
#[derive(Clone, Copy, Debug, PartialEq, Eq, Structural)]
pub struct ElementId(pub usize);

/// The kind of a bus message together with its payload.
#[derive(Debug, PartialEq)]
pub enum MessageKind {
    /// An element or the graph moved from one lifecycle state to another.
    StateChanged { old_state: State, new_state: State },
    /// A runtime error; terminal for the whole graph by convention.
    ErrorReport { code: EngineError, text: String, debug: String },
    /// End of stream.
    Eos,
    /// The media duration changed; cached values are stale.
    DurationChanged,
    /// An asynchronous state change completed.
    AsyncDone,
    /// A non-fatal problem.
    Warning { code: EngineError, text: String },
}

/// One bus message.
#[derive(Debug, PartialEq)]
pub struct Message {
    pub src: ElementId,
    pub kind: MessageKind,
}

/// Which message kinds a dispatch consumer wants to see.
#[derive(Clone, Copy, Debug, PartialEq, Eq, Structural)]
pub struct KindFilter {
    pub state_changed: bool,
    pub error: bool,
    pub eos: bool,
    pub duration_changed: bool,
    pub async_done: bool,
    pub warning: bool,
}

impl KindFilter {
    /// A filter passing every message.
    pub fn all() -> (r: KindFilter)
        ensures
            forall|m: Message| r.spec_passes(#[trigger] m.kind),
    {
        KindFilter {
            state_changed: true,
            error: true,
            eos: true,
            duration_changed: true,
            async_done: true,
            warning: true,
        }
    }

    /// Whether the filter passes a message of the given kind.
    pub open spec fn spec_passes(self, kind: MessageKind) -> bool {
        match kind {
            MessageKind::StateChanged { .. } => self.state_changed,
            MessageKind::ErrorReport { .. } => self.error,
            MessageKind::Eos => self.eos,
            MessageKind::DurationChanged => self.duration_changed,
            MessageKind::AsyncDone => self.async_done,
            MessageKind::Warning { .. } => self.warning,
        }
    }

    /// Whether the filter passes a message of the given kind.
    pub fn passes(self, kind: &MessageKind) -> (r: bool)
        ensures
            r == self.spec_passes(*kind),
    {
        match kind {
            MessageKind::StateChanged { .. } => self.state_changed,
            MessageKind::ErrorReport { .. } => self.error,
            MessageKind::Eos => self.eos,
            MessageKind::DurationChanged => self.duration_changed,
            MessageKind::AsyncDone => self.async_done,
            MessageKind::Warning { .. } => self.warning,
        }
    }
}

} // verus!
