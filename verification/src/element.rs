//! Elements and pads: named processing units and their typed connection
//! endpoints.
//!
//! A pad has a direction, a creation-timing class (always there, appearing
//! once the element has inspected data, or created on request), a template
//! capability bounding what it could ever carry, and — once linked and
//! negotiated — a fixed capability agreed with its peer.

use vstd::prelude::*;
use crate::caps::Capability;
use crate::types::{Buffer, EngineError, State};

verus! {

/// Data direction of a pad.
#[derive(Clone, Copy, Debug, PartialEq, Eq, Structural)]
pub enum PadDirection {
    /// Produces data.
    Source,
    /// Consumes data.
    Sink,
}

/// Creation-timing class of a pad.
#[derive(Clone, Copy, Debug, PartialEq, Eq, Structural)]
pub enum PadPresence {
    /// Created with the element.
    Always,
    /// Appears once the element has inspected live data.
    Sometimes,
    /// Created by an explicit request, destroyed by an explicit release.
    Request,
}

/// Identity of a pad: the element's position in its graph and the pad's
/// position within the element.
#[derive(Clone, Copy, Debug, PartialEq, Eq, Structural)]
pub struct PadRef {
    pub element: usize,
    pub pad: usize,
}

/// A connection endpoint owned by an element.
#[derive(Debug)]
pub struct Pad {
    pub direction: PadDirection,
    pub presence: PadPresence,
    /// The superset of what the pad could ever carry.
    pub template: Capability,
    /// The peer this pad is linked to, at most one, of opposite direction.
    pub peer: Option<PadRef>,
    /// The fixed capability agreed with the peer, once negotiated.
    pub negotiated: Option<Capability>,
    /// Buffers that crossed this pad and are in flight downstream.
    pub delivered: Vec<Buffer>,
    /// A released request pad stays as an inert placeholder so that other
    /// pads' identities remain stable.
    pub released: bool,
}

impl Pad {
    /// A fresh, unlinked pad.
    pub fn new(direction: PadDirection, presence: PadPresence, template: Capability) -> (r: Pad)
        ensures
            r.direction == direction,
            r.presence == presence,
            r.template == template,
            r.peer is None,
            r.negotiated is None,
            r.delivered@.len() == 0,
            !r.released,
    {
        Pad {
            direction,
            presence,
            template,
            peer: None,
            negotiated: None,
            delivered: Vec::new(),
            released: false,
        }
    }
}

/// The processing role of an element: the closed set of kinds this engine
/// assembles, rather than an open plugin registry.
#[derive(Clone, Copy, Debug, PartialEq, Eq, Structural)]
pub enum ElementKind {
    /// Push-model data producer with backpressure.
    PushSource,
    /// Pull-model consumer of completed buffers.
    PullSink,
    /// Fan-out of one input stream across requested branches.
    Tee,
    /// Decoupling queue.
    Queue,
    /// Sample-format converter.
    FormatConverter,
    /// Sample-rate converter.
    Resampler,
    /// Generic pass-through.
    Passthrough,
}

/// The factory name of each element kind.
pub open spec fn spec_kind_name(kind: ElementKind) -> Seq<char> {
    match kind {
        ElementKind::PushSource => "push-source"@,
        ElementKind::PullSink => "pull-sink"@,
        ElementKind::Tee => "tee"@,
        ElementKind::Queue => "queue"@,
        ElementKind::FormatConverter => "format-converter"@,
        ElementKind::Resampler => "resampler"@,
        ElementKind::Passthrough => "passthrough"@,
    }
}

/// Character-wise string equality.
pub(crate) fn str_eq(a: &str, b: &str) -> (r: bool)
    ensures
        r == (a@ == b@),
{
    let alen = a.unicode_len();
    let blen = b.unicode_len();
    if alen != blen {
        proof {
            assert(a@.len() != b@.len());
        }
        return false;
    }
    let mut i: usize = 0;
    while i < alen
        invariant
            i <= alen,
            alen == a@.len(),
            alen == b@.len(),
            forall|p: int| 0 <= p < i ==> a@[p] == b@[p],
        decreases alen - i,
    {
        if a.get_char(i) != b.get_char(i) {
            proof {
                assert(a@[i as int] != b@[i as int]);
            }
            return false;
        }
        i = i + 1;
    }
    proof {
        assert(a@ =~= b@);
    }
    true
}

/// Resolves a factory name to an element kind; an unknown name is fatal
/// to the construction step.
pub fn element_kind_named(name: &str) -> (r: Result<ElementKind, EngineError>)
    ensures
        match r {
            Ok(kind) => name@ == spec_kind_name(kind),
            Err(e) => e == EngineError::ElementCreationFailed
                && forall|kind: ElementKind| name@ != spec_kind_name(kind),
        },
{
    if str_eq(name, "push-source") {
        Ok(ElementKind::PushSource)
    } else if str_eq(name, "pull-sink") {
        Ok(ElementKind::PullSink)
    } else if str_eq(name, "tee") {
        Ok(ElementKind::Tee)
    } else if str_eq(name, "queue") {
        Ok(ElementKind::Queue)
    } else if str_eq(name, "format-converter") {
        Ok(ElementKind::FormatConverter)
    } else if str_eq(name, "resampler") {
        Ok(ElementKind::Resampler)
    } else if str_eq(name, "passthrough") {
        Ok(ElementKind::Passthrough)
    } else {
        proof {
            assert forall|kind: ElementKind| name@ != spec_kind_name(kind) by {
                match kind {
                    ElementKind::PushSource => assert(name@ != "push-source"@),
                    ElementKind::PullSink => assert(name@ != "pull-sink"@),
                    ElementKind::Tee => assert(name@ != "tee"@),
                    ElementKind::Queue => assert(name@ != "queue"@),
                    ElementKind::FormatConverter => assert(name@ != "format-converter"@),
                    ElementKind::Resampler => assert(name@ != "resampler"@),
                    ElementKind::Passthrough => assert(name@ != "passthrough"@),
                }
            }
        }
        Err(EngineError::ElementCreationFailed)
    }
}

/// Key of a configurable element property.
#[derive(Clone, Copy, Debug, PartialEq, Eq, Structural)]
pub enum PropKey {
    /// Generation frequency of a producer, hertz.
    Frequency,
    /// Output level of a producer, per mille.
    Volume,
    /// Queue depth, buffers.
    MaxBuffers,
    /// Location of the media a pass-through element reads.
    Uri,
    /// Rendering shader of a visualisation element.
    Shader,
    /// Rendering style of a visualisation element.
    Style,
}

/// Value of a configurable element property.
#[derive(Debug, PartialEq)]
pub enum PropValue {
    Int(i64),
    Text(String),
}

/// One property setting.
#[derive(Debug, PartialEq)]
pub struct Property {
    pub key: PropKey,
    pub value: PropValue,
}

/// The property schema of each element kind: which keys it accepts, with
/// which value shape.
pub open spec fn kind_accepts(kind: ElementKind, key: PropKey, value: PropValue) -> bool {
    match (kind, key) {
        (ElementKind::PushSource, PropKey::Frequency) => value is Int,
        (ElementKind::PushSource, PropKey::Volume) => value is Int,
        (ElementKind::PullSink, PropKey::MaxBuffers) => value is Int,
        (ElementKind::Queue, PropKey::MaxBuffers) => value is Int,
        (ElementKind::Passthrough, PropKey::Uri) => value is Text,
        (ElementKind::Passthrough, PropKey::Shader) => value is Text,
        (ElementKind::Passthrough, PropKey::Style) => value is Text,
        _ => false,
    }
}

/// Whether the kind's schema declares the key with this value shape.
pub fn accepts(kind: ElementKind, key: PropKey, value: &PropValue) -> (r: bool)
    ensures
        r == kind_accepts(kind, key, *value),
{
    match (kind, key) {
        (ElementKind::PushSource, PropKey::Frequency) => matches!(value, PropValue::Int(_)),
        (ElementKind::PushSource, PropKey::Volume) => matches!(value, PropValue::Int(_)),
        (ElementKind::PullSink, PropKey::MaxBuffers) => matches!(value, PropValue::Int(_)),
        (ElementKind::Queue, PropKey::MaxBuffers) => matches!(value, PropValue::Int(_)),
        (ElementKind::Passthrough, PropKey::Uri) => matches!(value, PropValue::Text(_)),
        (ElementKind::Passthrough, PropKey::Shader) => matches!(value, PropValue::Text(_)),
        (ElementKind::Passthrough, PropKey::Style) => matches!(value, PropValue::Text(_)),
        _ => false,
    }
}

/// The effective value of `key` in a property list: the latest setting
/// wins.
pub open spec fn prop_of(props: Seq<Property>, key: PropKey) -> Option<PropValue>
    decreases props.len(),
{
    if props.len() == 0 {
        None
    } else if props.last().key == key {
        Some(props.last().value)
    } else {
        prop_of(props.drop_last(), key)
    }
}

/// A named processing unit exposing pads.
#[derive(Debug)]
pub struct Element {
    pub name: String,
    pub kind: ElementKind,
    /// Local state mirroring the graph's lifecycle state.
    pub state: State,
    pub pads: Vec<Pad>,
    /// Configured properties, oldest first; the latest setting of a key
    /// is the one in force.
    pub props: Vec<Property>,
}

impl Element {
    /// Configures a property, constrained to the kind's schema: a key the
    /// kind does not declare, or a value of the wrong shape, is refused
    /// and changes nothing.
    pub fn set_property(&mut self, key: PropKey, value: PropValue) -> (ok: bool)
        ensures
            ok == kind_accepts(old(self).kind, key, value),
            ok ==> final(self).props@ == old(self).props@.push(Property { key, value })
                && prop_of(final(self).props@, key) == Some(value),
            final(self).name == old(self).name,
            final(self).kind == old(self).kind,
            final(self).state == old(self).state,
            final(self).pads == old(self).pads,
            !ok ==> *final(self) == *old(self),
    {
        let shape_ok = accepts(self.kind, key, &value);
        if shape_ok {
            self.props.push(Property { key, value });
            proof {
                assert(self.props@.drop_last() =~= old(self).props@);
            }
            true
        } else {
            false
        }
    }

    /// The value in force for a property key, if any was set.
    pub fn get_property(&self, key: PropKey) -> (r: Option<&PropValue>)
        ensures
            match r {
                Some(v) => prop_of(self.props@, key) == Some(*v),
                None => prop_of(self.props@, key) is None,
            },
    {
        let mut i: usize = self.props.len();
        proof {
            assert(self.props@.take(i as int) =~= self.props@);
        }
        while i > 0
            invariant
                i <= self.props@.len(),
                prop_of(self.props@, key) == prop_of(self.props@.take(i as int), key),
            decreases i,
        {
            proof {
                assert(self.props@.take(i as int).last() == self.props@[i - 1]);
                assert(self.props@.take(i as int).drop_last()
                    =~= self.props@.take(i - 1));
            }
            if self.props[i - 1].key == key {
                return Some(&self.props[i - 1].value);
            }
            i = i - 1;
        }
        proof {
            assert(self.props@.take(0) =~= Seq::<Property>::empty());
        }
        None
    }
}

/// How many pads an element of the given kind starts with.
pub open spec fn spec_initial_pads(kind: ElementKind) -> int {
    match kind {
        ElementKind::PushSource => 1,
        ElementKind::PullSink => 1,
        ElementKind::Tee => 1,
        _ => 2,
    }
}

impl Element {
    /// A fresh element in the `Null` state with its kind's always-pads:
    /// a source pad for a producer, a sink pad for a consumer or a tee,
    /// and a sink plus a source pad for the two-sided kinds. Every
    /// template starts as ANY; `set_pad_template` narrows it.
    pub fn new(kind: ElementKind, name: String) -> (r: Element)
        ensures
            r.kind == kind,
            r.name == name,
            r.state == State::Null,
            r.pads@.len() == spec_initial_pads(kind),
            forall|p: int| 0 <= p < r.pads@.len() ==> {
                let pad = #[trigger] r.pads@[p];
                &&& pad.peer is None
                &&& pad.negotiated is None
                &&& !pad.released
                &&& pad.presence == PadPresence::Always
                &&& pad.template@ is Any
                &&& pad.delivered@.len() == 0
            },
            forall|p: int| 0 <= p < r.pads@.len()
                ==> (#[trigger] r.pads@[p]).direction == spec_initial_direction(kind, p),
            r.props@.len() == 0,
    {
        let mut pads: Vec<Pad> = Vec::new();
        match kind {
            ElementKind::PushSource => {
                pads.push(Pad::new(PadDirection::Source, PadPresence::Always,
                    Capability::any()));
            },
            ElementKind::PullSink => {
                pads.push(Pad::new(PadDirection::Sink, PadPresence::Always,
                    Capability::any()));
            },
            ElementKind::Tee => {
                pads.push(Pad::new(PadDirection::Sink, PadPresence::Always,
                    Capability::any()));
            },
            _ => {
                pads.push(Pad::new(PadDirection::Sink, PadPresence::Always,
                    Capability::any()));
                pads.push(Pad::new(PadDirection::Source, PadPresence::Always,
                    Capability::any()));
            },
        }
        Element { name, kind, state: State::Null, pads, props: Vec::new() }
    }
}

/// The direction of pad `p` of a fresh element of the given kind.
pub open spec fn spec_initial_direction(kind: ElementKind, p: int) -> PadDirection {
    match kind {
        ElementKind::PushSource => PadDirection::Source,
        ElementKind::PullSink => PadDirection::Sink,
        ElementKind::Tee => PadDirection::Sink,
        _ => if p == 0 {
            PadDirection::Sink
        } else {
            PadDirection::Source
        },
    }
}

} // verus!
