//! Controller-side session logic: the decisions a controller takes while
//! servicing the bus of a playing graph.
//!
//! The session tracks whether the graph is playing, whether it should
//! terminate, whether seeking is enabled and already performed, and the
//! cached duration; bus messages drive those transitions. The surrounding
//! loop — popping with a timeout, issuing the queries, printing — is plain
//! input/output and lives with the driver.

use vstd::prelude::*;
use crate::caps::{Capability, FormatName};
use crate::message::{ElementId, Message, MessageKind};
use crate::types::SeekFlags;

verus! {

/// Position past which the session performs its one seek, in nanoseconds.
pub const SEEK_TRIGGER_NS: u64 = 10_000_000_000;

/// Where that seek goes, in nanoseconds.
pub const SEEK_TARGET_NS: u64 = 30_000_000_000;

/// What the controller should do after handling a message.
#[derive(Clone, Copy, Debug, PartialEq, Eq, Structural)]
pub enum ControllerAction {
    /// Keep servicing the bus.
    Idle,
    /// The graph just reached `Playing`: ask it whether seeking is
    /// possible and record the answer with `set_seekable`.
    ProbeSeekable,
}

/// What a dynamic-pad handler should do with a newly appeared pad.
#[derive(Clone, Copy, Debug, PartialEq, Eq, Structural)]
pub enum LinkDecision {
    /// The downstream sink pad is already linked: ignore the new pad.
    AlreadyLinked,
    /// The new pad does not carry the wanted format family: ignore it.
    WrongType,
    /// Attempt the link.
    Attempt,
}

/// Controller session state.
pub struct SessionState {
    /// The graph is in the `Playing` state.
    pub playing: bool,
    /// A terminal message (end of stream, error) arrived.
    pub terminate: bool,
    /// Seeking is enabled for this media.
    pub seek_enabled: bool,
    /// The one scripted seek was already performed.
    pub seek_done: bool,
    /// Cached media duration, nanoseconds; invalidated by
    /// duration-changed messages.
    pub duration: Option<u64>,
}

impl SessionState {
    /// A fresh session: not playing, not terminating, nothing known.
    pub fn new() -> (r: SessionState)
        ensures
            !r.playing,
            !r.terminate,
            !r.seek_enabled,
            !r.seek_done,
            r.duration is None,
    {
        SessionState {
            playing: false,
            terminate: false,
            seek_enabled: false,
            seek_done: false,
            duration: None,
        }
    }

    /// Digests one bus message. Errors and end-of-stream terminate the
    /// session; a duration change invalidates the cached duration; a
    /// state change of the watched element updates the playing flag and,
    /// on entering `Playing`, asks the caller to probe seekability.
    /// Nothing else changes.
    pub fn handle_message(&mut self, msg: &Message, watched: ElementId) -> (act:
        ControllerAction)
        ensures
            match msg.kind {
                MessageKind::ErrorReport { .. } => *final(self) == (SessionState {
                    terminate: true,
                    ..*old(self)
                }) && act == ControllerAction::Idle,
                MessageKind::Eos => *final(self) == (SessionState {
                    terminate: true,
                    ..*old(self)
                }) && act == ControllerAction::Idle,
                MessageKind::DurationChanged => *final(self) == (SessionState {
                    duration: None,
                    ..*old(self)
                }) && act == ControllerAction::Idle,
                MessageKind::StateChanged { new_state, .. } => {
                    if msg.src == watched {
                        &&& *final(self) == (SessionState {
                            playing: new_state == crate::types::State::Playing,
                            ..*old(self)
                        })
                        &&& act == (if new_state == crate::types::State::Playing {
                            ControllerAction::ProbeSeekable
                        } else {
                            ControllerAction::Idle
                        })
                    } else {
                        *final(self) == *old(self) && act == ControllerAction::Idle
                    }
                },
                _ => *final(self) == *old(self) && act == ControllerAction::Idle,
            },
    {
        match &msg.kind {
            MessageKind::ErrorReport { .. } => {
                self.terminate = true;
                ControllerAction::Idle
            },
            MessageKind::Eos => {
                self.terminate = true;
                ControllerAction::Idle
            },
            MessageKind::DurationChanged => {
                self.duration = None;
                ControllerAction::Idle
            },
            MessageKind::StateChanged { new_state, .. } => {
                if msg.src == watched {
                    let now_playing = match new_state {
                        crate::types::State::Playing => true,
                        _ => false,
                    };
                    self.playing = now_playing;
                    if now_playing {
                        ControllerAction::ProbeSeekable
                    } else {
                        ControllerAction::Idle
                    }
                } else {
                    ControllerAction::Idle
                }
            },
            _ => ControllerAction::Idle,
        }
    }

    /// Records whether the media supports seeking.
    pub fn set_seekable(&mut self, enabled: bool)
        ensures
            *final(self) == (SessionState { seek_enabled: enabled, ..*old(self) }),
    {
        self.seek_enabled = enabled;
    }

    /// Records the duration the graph reported.
    pub fn set_duration(&mut self, d: Option<u64>)
        ensures
            *final(self) == (SessionState { duration: d, ..*old(self) }),
    {
        self.duration = d;
    }

    /// The one scripted seek: once the stream is playing, seekable, not
    /// yet sought, and past the trigger position, seek to the target with
    /// flushing and key-unit snapping. Returns the target and flags when
    /// the seek is due, exactly once.
    pub fn should_seek(&mut self, position_ns: u64) -> (r: Option<(u64, SeekFlags)>)
        ensures
            match r {
                Some((target, flags)) => {
                    &&& old(self).playing && old(self).seek_enabled && !old(self).seek_done
                    &&& position_ns > SEEK_TRIGGER_NS
                    &&& target == SEEK_TARGET_NS
                    &&& flags == (SeekFlags { flush: true, key_unit: true, accurate: false })
                    &&& *final(self) == (SessionState { seek_done: true, ..*old(self) })
                },
                None => {
                    &&& !(old(self).playing && old(self).seek_enabled && !old(self).seek_done
                        && position_ns > SEEK_TRIGGER_NS)
                    &&& *final(self) == *old(self)
                },
            },
    {
        if self.playing && self.seek_enabled && !self.seek_done
            && position_ns > SEEK_TRIGGER_NS {
            self.seek_done = true;
            Some((SEEK_TARGET_NS, SeekFlags { flush: true, key_unit: true, accurate: false }))
        } else {
            None
        }
    }
}

/// Whether a bus-servicing loop should stop on this message: on end of
/// stream or on an error, which is terminal for the whole graph by
/// convention.
pub fn should_stop(msg: &Message) -> (r: bool)
    ensures
        r == (msg.kind matches MessageKind::Eos || msg.kind matches MessageKind::ErrorReport {
            .. }),
{
    match &msg.kind {
        MessageKind::Eos => true,
        MessageKind::ErrorReport { .. } => true,
        _ => false,
    }
}

/// What to do when a Sometimes pad appears: ignore it when the downstream
/// chain is already linked, ignore it when its capability does not offer
/// the wanted format family as its first alternative, and attempt the
/// link otherwise.
pub fn on_pad_added(sink_linked: bool, caps: &Capability, wanted: FormatName) -> (r:
    LinkDecision)
    ensures
        sink_linked ==> r == LinkDecision::AlreadyLinked,
        !sink_linked ==> match caps@ {
            crate::caps::CapView::Any => r == LinkDecision::WrongType,
            crate::caps::CapView::Caps(l) => {
                if l.len() > 0 && l[0].name == wanted {
                    r == LinkDecision::Attempt
                } else {
                    r == LinkDecision::WrongType
                }
            },
        },
{
    if sink_linked {
        return LinkDecision::AlreadyLinked;
    }
    match caps {
        Capability::Any => LinkDecision::WrongType,
        Capability::Caps(l) => {
            if l.len() == 0 {
                LinkDecision::WrongType
            } else {
                proof {
                    assert(caps@.arrow_Caps_0()[0] == l@[0]@);
                }
                if crate::caps::format_eq(l[0].name, wanted) {
                    LinkDecision::Attempt
                } else {
                    LinkDecision::WrongType
                }
            }
        },
    }
}

} // verus!
