//! The graph: owner of elements and links, driver of the lifecycle state
//! machine, and holder of the bus.
//!
//! Links are not separate objects: a link is a reciprocal pair of peer
//! references between a source pad and a sink pad, guarded by the graph's
//! well-formedness invariant. Linking fails exactly when the two pads'
//! template capabilities admit no common concrete format, and leaves both
//! pads untouched in that case.

use vstd::prelude::*;
use crate::bus::Bus;
use crate::caps::{Capability, CapView, FieldKey, FormatName, lemma_empty_iff_admits_nothing};
use crate::element::{kind_accepts, prop_of, Element, ElementKind, Pad, PadDirection, PadPresence, PadRef, PropKey, PropValue, Property};
use crate::message::{ElementId, Message, MessageKind};
use crate::types::{Buffer, EngineError, SeekFlags, State};

verus! {

/// How a state-change request completed.
#[derive(Clone, Copy, Debug, PartialEq, Eq, Structural)]
pub enum StateChangeOutcome {
    /// Every element confirmed synchronously.
    Success,
    /// Some element completes asynchronously; completion arrives as an
    /// async-done bus message.
    Async,
}

/// The message source identity used for the graph itself.
pub open spec fn spec_graph_src() -> ElementId {
    ElementId(usize::MAX)
}

/// The message source identity used for the graph itself.
pub fn graph_src() -> (r: ElementId)
    ensures
        r == spec_graph_src(),
{
    ElementId(usize::MAX)
}

/// An empty text payload.
fn new_string() -> String {
    String::from_str("")
}

/// Whether an element lacks a link required for data flow: an always-pad
/// that is not linked.
pub open spec fn lacks_link(elem: Element) -> bool {
    exists|p: int| 0 <= p < elem.pads@.len()
        && (#[trigger] elem.pads@[p]).presence == PadPresence::Always
        && elem.pads@[p].peer is None
}

/// How many of the first `n` elements lack a required link.
pub open spec fn count_unready(elems: Seq<Element>, n: int) -> nat
    decreases n,
{
    if n <= 0 {
        0
    } else {
        count_unready(elems, n - 1) + if lacks_link(elems[n - 1]) {
            1nat
        } else {
            0nat
        }
    }
}

/// The state an element ends in when the graph is asked for `target`:
/// an element lacking a required link cannot enter the active states and
/// is held at `Ready`.
pub open spec fn local_target(elem: Element, target: State) -> State {
    if target.spec_is_active() && lacks_link(elem) {
        State::Ready
    } else {
        target
    }
}

/// The distance between two states along the lifecycle order.
pub open spec fn state_dist(a: State, b: State) -> int {
    if a.spec_rank() < b.spec_rank() {
        b.spec_rank() - a.spec_rank()
    } else {
        a.spec_rank() - b.spec_rank()
    }
}

/// The state-changed messages emitted while moving from `from` to `to`:
/// one per step, each naming the states before and after the step, posted
/// under the given source identity.
pub open spec fn climb_msgs(from: State, to: State, src: ElementId) -> Seq<Message>
    decreases state_dist(from, to),
{
    if from.spec_rank() == to.spec_rank() {
        Seq::empty()
    } else {
        let n = from.spec_step_toward(to);
        seq![Message {
            src,
            kind: MessageKind::StateChanged { old_state: from, new_state: n },
        }] + climb_msgs(n, to, src)
    }
}

/// Law: starting the graph is observable step by step. Requesting
/// `Playing` from `Null` emits exactly three state-changed messages, one
/// for each intermediate transition, in order: through `Ready`, then
/// `Paused`, then `Playing`.
pub proof fn lemma_null_to_playing_observable(src: ElementId)
    ensures
        climb_msgs(State::Null, State::Playing, src) == seq![
            Message {
                src,
                kind: MessageKind::StateChanged {
                    old_state: State::Null, new_state: State::Ready },
            },
            Message {
                src,
                kind: MessageKind::StateChanged {
                    old_state: State::Ready, new_state: State::Paused },
            },
            Message {
                src,
                kind: MessageKind::StateChanged {
                    old_state: State::Paused, new_state: State::Playing },
            },
        ],
{
    assert(climb_msgs(State::Playing, State::Playing, src) =~= Seq::<Message>::empty());
    assert(climb_msgs(State::Paused, State::Playing, src) =~= seq![
        Message {
            src,
            kind: MessageKind::StateChanged {
                old_state: State::Paused, new_state: State::Playing },
        },
    ]);
    assert(climb_msgs(State::Ready, State::Playing, src) =~= seq![
        Message {
            src,
            kind: MessageKind::StateChanged {
                old_state: State::Ready, new_state: State::Paused },
        },
        Message {
            src,
            kind: MessageKind::StateChanged {
                old_state: State::Paused, new_state: State::Playing },
        },
    ]);
    assert(climb_msgs(State::Null, State::Playing, src) =~= seq![
        Message {
            src,
            kind: MessageKind::StateChanged {
                old_state: State::Null, new_state: State::Ready },
        },
        Message {
            src,
            kind: MessageKind::StateChanged {
                old_state: State::Ready, new_state: State::Paused },
        },
        Message {
            src,
            kind: MessageKind::StateChanged {
                old_state: State::Paused, new_state: State::Playing },
        },
    ]);
}

/// Posts the state-changed message of every step from `from` to `to`,
/// under the given source identity.
fn post_climb(bus: &mut Bus, from: State, to: State, src: ElementId)
    ensures
        final(bus).queue@ == old(bus).queue@ + climb_msgs(from, to, src),
        final(bus).mode == old(bus).mode,
        final(bus).filter == old(bus).filter,
    decreases state_dist(from, to),
{
    if from.rank() != to.rank() {
        let n = from.step_toward(to);
        bus.post(Message {
            src,
            kind: MessageKind::StateChanged { old_state: from, new_state: n },
        });
        post_climb(bus, n, to, src);
        proof {
            assert(final(bus).queue@ =~= old(bus).queue@ + climb_msgs(from, to, src));
        }
    } else {
        proof {
            assert(final(bus).queue@ =~= old(bus).queue@ + climb_msgs(from, to, src));
        }
    }
}

/// Whether an element lacks a link required for data flow.
fn element_lacks_link(elem: &Element) -> (r: bool)
    ensures
        r == lacks_link(*elem),
{
    let mut p: usize = 0;
    while p < elem.pads.len()
        invariant
            p <= elem.pads@.len(),
            forall|q: int| 0 <= q < p ==> !((#[trigger] elem.pads@[q]).presence
                == PadPresence::Always && elem.pads@[q].peer is None),
        decreases elem.pads@.len() - p,
    {
        let pad = &elem.pads[p];
        let always = match pad.presence {
            PadPresence::Always => true,
            _ => false,
        };
        if always && pad.peer.is_none() {
            return true;
        }
        p = p + 1;
    }
    false
}

/// Whether two templates can be negotiated down to one concrete
/// structure: fixation needs at least one structure, so the intersection
/// must not be ANY (nothing to pick from) and must admit some concrete
/// format (otherwise it is EMPTY).
pub open spec fn negotiable(ta: CapView, tb: CapView) -> bool {
    &&& !(ta is Any && tb is Any)
    &&& exists|name: FormatName, vals: Map<FieldKey, i64>|
        (#[trigger] ta.admits(name, vals)) && tb.admits(name, vals)
}

/// A "pad appeared" notification: a Sometimes pad became available.
/// Subscribers read the pad's template through the graph.
#[derive(Clone, Copy, Debug, PartialEq, Eq, Structural)]
pub struct PadEvent {
    pub pad: PadRef,
}

/// The graph.
pub struct Graph {
    pub name: String,
    pub elements: Vec<Element>,
    /// The aggregate lifecycle state.
    pub state: State,
    /// The event channel toward the controller.
    pub bus: Bus,
    /// An asynchronous state change is outstanding.
    pub pending_async: bool,
    /// Pending "pad appeared" notifications, oldest first.
    pub pad_events: Vec<PadEvent>,
    /// The play cursor, nanoseconds.
    pub position_ns: u64,
    /// A position query has succeeded; seeking is enabled.
    pub position_known: bool,
    /// The media duration, once known.
    pub media_duration_ns: Option<u64>,
    /// Cached duration from the first successful query.
    pub duration_cache: Option<u64>,
    /// Rounding unit for key-unit seeks, nanoseconds; zero disables
    /// rounding.
    pub buffer_duration_ns: u64,
    /// Request pads may be mutated during active flow only while blocked.
    pub pads_blocked: bool,
}

impl Graph {
    /// The pad at position `p` of element `e`.
    pub open spec fn pad_at(self, e: int, p: int) -> Pad {
        self.elements@[e].pads@[p]
    }

    /// Whether `(e, p)` names a pad.
    pub open spec fn pad_in_range(self, e: int, p: int) -> bool {
        0 <= e < self.elements@.len() && 0 <= p < self.elements@[e].pads@.len()
    }

    /// Well-formedness of one pad: a valid template, and a peer reference
    /// that is reciprocal, of opposite direction, and absent on released
    /// pads.
    pub open spec fn pad_ok(self, e: int, p: int) -> bool {
        let pad = self.pad_at(e, p);
        &&& pad.template@.wf()
        &&& (pad.negotiated matches Some(c) ==> c@.wf())
        &&& (pad.released ==> pad.peer is None)
        &&& (pad.peer is None ==> pad.negotiated is None)
        &&& match pad.peer {
            Some(r) => {
                &&& self.pad_in_range(r.element as int, r.pad as int)
                &&& self.pad_at(r.element as int, r.pad as int).peer
                    == Some(PadRef { element: e as usize, pad: p as usize })
                &&& self.pad_at(r.element as int, r.pad as int).direction != pad.direction
            },
            None => true,
        }
    }

    /// Well-formedness of the graph: every pad is well-formed.
    pub open spec fn wf(self) -> bool {
        forall|e: int, p: int| self.pad_in_range(e, p) ==> #[trigger] self.pad_ok(e, p)
    }

    /// The data-model invariant on names: no two elements of the graph
    /// share one. `add` preserves it whenever the new element's name is
    /// fresh, which `find_element_named` lets a controller check.
    pub open spec fn names_unique(self) -> bool {
        forall|i: int, j: int| 0 <= i < j < self.elements@.len()
            ==> (#[trigger] self.elements@[i].name)@
                != (#[trigger] self.elements@[j].name)@
    }

    /// The element carrying the given name, if any.
    pub fn find_element_named(&self, name: &str) -> (r: Option<ElementId>)
        ensures
            match r {
                Some(id) => id.0 < self.elements@.len()
                    && self.elements@[id.0 as int].name@ == name@,
                None => forall|j: int| 0 <= j < self.elements@.len()
                    ==> (#[trigger] self.elements@[j].name)@ != name@,
            },
    {
        let mut i: usize = 0;
        while i < self.elements.len()
            invariant
                i <= self.elements@.len(),
                forall|j: int| 0 <= j < i
                    ==> (#[trigger] self.elements@[j].name)@ != name@,
            decreases self.elements@.len() - i,
        {
            if crate::element::str_eq(self.elements[i].name.as_str(), name) {
                return Some(ElementId(i));
            }
            i = i + 1;
        }
        None
    }

    /// A fresh, empty graph in the `Null` state.
    pub fn new(name: String) -> (r: Graph)
        ensures
            r.wf(),
            r.elements@.len() == 0,
            r.state == State::Null,
            r.bus.queue@.len() == 0,
            !r.pending_async,
            r.pad_events@.len() == 0,
            r.position_ns == 0,
            !r.position_known,
            r.media_duration_ns is None,
            r.duration_cache is None,
            r.buffer_duration_ns == 0,
            !r.pads_blocked,
    {
        Graph {
            name,
            elements: Vec::new(),
            state: State::Null,
            bus: Bus::new(),
            pending_async: false,
            pad_events: Vec::new(),
            position_ns: 0,
            position_known: false,
            media_duration_ns: None,
            duration_cache: None,
            buffer_duration_ns: 0,
            pads_blocked: false,
        }
    }

    /// Adds an element; the graph becomes its exclusive owner. The
    /// element must be fresh: unlinked pads, `Null` state.
    pub fn add(&mut self, elem: Element) -> (r: ElementId)
        requires
            old(self).wf(),
            elem.state == State::Null,
            forall|p: int| 0 <= p < elem.pads@.len() ==> {
                &&& (#[trigger] elem.pads@[p]).peer is None
                &&& elem.pads@[p].template@.wf()
                &&& elem.pads@[p].negotiated is None
                &&& !elem.pads@[p].released
            },
        ensures
            final(self).wf(),
            r == ElementId(old(self).elements@.len() as usize),
            final(self).elements@ == old(self).elements@.push(elem),
            final(self).state == old(self).state,
            final(self).bus == old(self).bus,
            final(self).pad_events@ == old(self).pad_events@,
            (old(self).names_unique() && forall|j: int| 0 <= j < old(self).elements@.len()
                ==> (#[trigger] old(self).elements@[j].name)@ != elem.name@)
                ==> final(self).names_unique(),
    {
        let id = ElementId(self.elements.len());
        self.elements.push(elem);
        proof {
            assert forall|e: int, p: int| self.pad_in_range(e, p) implies
                #[trigger] self.pad_ok(e, p) by {
                if e < old(self).elements@.len() {
                    assert(old(self).pad_ok(e, p));
                    assert(self.pad_at(e, p) == old(self).pad_at(e, p));
                    match self.pad_at(e, p).peer {
                        Some(r) => {
                            assert(old(self).pad_in_range(r.element as int, r.pad as int));
                            assert(self.pad_at(r.element as int, r.pad as int)
                                == old(self).pad_at(r.element as int, r.pad as int));
                        },
                        None => {},
                    }
                }
            }
        }
        id
    }

    /// The number of elements.
    pub fn element_count(&self) -> (r: usize)
        ensures
            r == self.elements@.len(),
    {
        self.elements.len()
    }

    /// The number of pads of an element.
    pub fn pad_count(&self, e: ElementId) -> (r: usize)
        requires
            e.0 < self.elements@.len(),
        ensures
            r == self.elements@[e.0 as int].pads@.len(),
    {
        self.elements[e.0].pads.len()
    }

    /// The template capability of a pad.
    pub fn pad_template(&self, r: PadRef) -> (c: &Capability)
        requires
            self.pad_in_range(r.element as int, r.pad as int),
        ensures
            *c == self.pad_at(r.element as int, r.pad as int).template,
    {
        &self.elements[r.element].pads[r.pad].template
    }

    /// The negotiated (fixed) capability of a pad, or its unresolved
    /// template while negotiation has not completed.
    pub fn current_capability(&self, r: PadRef) -> (c: &Capability)
        requires
            self.pad_in_range(r.element as int, r.pad as int),
        ensures
            match self.pad_at(r.element as int, r.pad as int).negotiated {
                Some(n) => *c == n,
                None => *c == self.pad_at(r.element as int, r.pad as int).template,
            },
    {
        let pad = &self.elements[r.element].pads[r.pad];
        match &pad.negotiated {
            Some(n) => n,
            None => &pad.template,
        }
    }

    /// Whether a pad is linked.
    pub fn is_linked(&self, r: PadRef) -> (b: bool)
        requires
            self.pad_in_range(r.element as int, r.pad as int),
        ensures
            b == (self.pad_at(r.element as int, r.pad as int).peer is Some),
    {
        self.elements[r.element].pads[r.pad].peer.is_some()
    }

    /// Narrows a pad's template; allowed only while the pad is unlinked.
    pub fn set_pad_template(&mut self, r: PadRef, template: Capability)
        requires
            old(self).wf(),
            old(self).pad_in_range(r.element as int, r.pad as int),
            old(self).pad_at(r.element as int, r.pad as int).peer is None,
            template@.wf(),
        ensures
            final(self).wf(),
            final(self).pad_at(r.element as int, r.pad as int).template == template,
            forall|e: int, p: int| final(self).pad_in_range(e, p)
                && !(e == r.element as int && p == r.pad as int)
                ==> #[trigger] final(self).pad_at(e, p) == old(self).pad_at(e, p),
            final(self).elements@.len() == old(self).elements@.len(),
            forall|e: int| 0 <= e < final(self).elements@.len()
                ==> (#[trigger] final(self).elements@[e]).pads@.len()
                    == old(self).elements@[e].pads@.len(),
            final(self).pad_at(r.element as int, r.pad as int).peer is None,
            final(self).pad_at(r.element as int, r.pad as int).direction
                == old(self).pad_at(r.element as int, r.pad as int).direction,
            final(self).state == old(self).state,
            final(self).bus == old(self).bus,
    {
        self.elements[r.element].pads[r.pad].template = template;
        proof {
            self.lemma_pads_untouched_wf(*old(self), r.element as int, r.pad as int);
        }
    }

    /// Helper: when one unlinked pad changed in fields that no other pad's
    /// well-formedness reads (template, negotiated, delivered), the graph
    /// stays well-formed.
    proof fn lemma_pads_untouched_wf(self, prev: Graph, ce: int, cp: int)
        requires
            prev.wf(),
            prev.pad_in_range(ce, cp),
            self.elements@.len() == prev.elements@.len(),
            forall|e: int| 0 <= e < self.elements@.len()
                ==> (#[trigger] self.elements@[e]).pads@.len()
                    == prev.elements@[e].pads@.len(),
            forall|e: int, p: int| self.pad_in_range(e, p) && !(e == ce && p == cp)
                ==> #[trigger] self.pad_at(e, p) == prev.pad_at(e, p),
            self.pad_at(ce, cp).peer == prev.pad_at(ce, cp).peer,
            self.pad_at(ce, cp).direction == prev.pad_at(ce, cp).direction,
            prev.pad_at(ce, cp).peer is None,
            self.pad_at(ce, cp).template@.wf(),
            self.pad_at(ce, cp).negotiated == prev.pad_at(ce, cp).negotiated,
        ensures
            self.wf(),
    {
        assert forall|e: int, p: int| self.pad_in_range(e, p) implies
            #[trigger] self.pad_ok(e, p) by {
            assert(prev.pad_ok(e, p));
            match self.pad_at(e, p).peer {
                Some(r) => {
                    // nothing links to the changed pad: it is unlinked, and
                    // links are reciprocal
                    assert(prev.pad_at(e, p).peer == Some(r));
                    assert(prev.pad_ok(r.element as int, r.pad as int));
                    if r.element as int == ce && r.pad as int == cp {
                        assert(prev.pad_at(ce, cp).peer
                            == Some(PadRef { element: e as usize, pad: p as usize }));
                        assert(false);
                    }
                    assert(self.pad_at(r.element as int, r.pad as int)
                        == prev.pad_at(r.element as int, r.pad as int));
                },
                None => {},
            }
        }
    }

    /// Links a source pad to a sink pad. The pads must have the right
    /// directions and be unlinked. Fails with `LinkIncompatible` — and
    /// leaves both pads exactly as they were — precisely when the two
    /// template capabilities admit no common concrete format; otherwise
    /// the reciprocal link is recorded. Negotiation to a fixed capability
    /// happens when flow starts, via `negotiate`.
    pub fn link(&mut self, src: PadRef, snk: PadRef) -> (r: Result<(), EngineError>)
        requires
            old(self).wf(),
            old(self).pad_in_range(src.element as int, src.pad as int),
            old(self).pad_in_range(snk.element as int, snk.pad as int),
            old(self).pad_at(src.element as int, src.pad as int).direction
                == PadDirection::Source,
            old(self).pad_at(snk.element as int, snk.pad as int).direction
                == PadDirection::Sink,
            old(self).pad_at(src.element as int, src.pad as int).peer is None,
            old(self).pad_at(snk.element as int, snk.pad as int).peer is None,
            !old(self).pad_at(src.element as int, src.pad as int).released,
            !old(self).pad_at(snk.element as int, snk.pad as int).released,
        ensures
            final(self).wf(),
            match r {
                Err(e) => {
                    &&& e == EngineError::LinkIncompatible
                    &&& *final(self) == *old(self)
                    &&& forall|name: FormatName, vals: Map<FieldKey, i64>|
                        !((#[trigger] old(self).pad_at(src.element as int, src.pad as int)
                            .template@.admits(name, vals))
                        && old(self).pad_at(snk.element as int, snk.pad as int)
                            .template@.admits(name, vals))
                },
                Ok(()) => {
                    &&& final(self).pad_at(src.element as int, src.pad as int).peer
                        == Some(snk)
                    &&& final(self).pad_at(snk.element as int, snk.pad as int).peer
                        == Some(src)
                    &&& final(self).pad_at(src.element as int, src.pad as int).direction
                        == old(self).pad_at(src.element as int, src.pad as int).direction
                    &&& final(self).pad_at(snk.element as int, snk.pad as int).direction
                        == old(self).pad_at(snk.element as int, snk.pad as int).direction
                    &&& final(self).pad_at(src.element as int, src.pad as int).presence
                        == old(self).pad_at(src.element as int, src.pad as int).presence
                    &&& final(self).pad_at(snk.element as int, snk.pad as int).presence
                        == old(self).pad_at(snk.element as int, snk.pad as int).presence
                    &&& forall|e: int, p: int| final(self).pad_in_range(e, p)
                        && !(e == src.element as int && p == src.pad as int)
                        && !(e == snk.element as int && p == snk.pad as int)
                        ==> #[trigger] final(self).pad_at(e, p) == old(self).pad_at(e, p)
                    &&& final(self).pad_at(src.element as int, src.pad as int).template
                        == old(self).pad_at(src.element as int, src.pad as int).template
                    &&& final(self).pad_at(snk.element as int, snk.pad as int).template
                        == old(self).pad_at(snk.element as int, snk.pad as int).template
                    &&& exists|name: FormatName, vals: Map<FieldKey, i64>|
                        (#[trigger] old(self).pad_at(src.element as int, src.pad as int)
                            .template@.admits(name, vals))
                        && old(self).pad_at(snk.element as int, snk.pad as int)
                            .template@.admits(name, vals)
                    &&& final(self).elements@.len() == old(self).elements@.len()
                    &&& forall|e: int| 0 <= e < old(self).elements@.len()
                        ==> (#[trigger] final(self).elements@[e]).pads@.len()
                            == old(self).elements@[e].pads@.len()
                    &&& final(self).state == old(self).state
                    &&& final(self).bus == old(self).bus
                },
            },
    {
        proof {
            assert(old(self).pad_ok(src.element as int, src.pad as int));
            assert(old(self).pad_ok(snk.element as int, snk.pad as int));
        }
        let src_template = self.elements[src.element].pads[src.pad].template.duplicate();
        let snk_template = self.elements[snk.element].pads[snk.pad].template.duplicate();
        let inter = src_template.intersect(snk_template);
        if inter.is_empty() {
            proof {
                let st = old(self).pad_at(src.element as int, src.pad as int).template@;
                let kt = old(self).pad_at(snk.element as int, snk.pad as int).template@;
                lemma_empty_iff_admits_nothing(inter@);
                assert forall|name: FormatName, vals: Map<FieldKey, i64>|
                    !((#[trigger] st.admits(name, vals)) && kt.admits(name, vals)) by {
                    if st.admits(name, vals) && kt.admits(name, vals) {
                        assert(inter@.admits(name, vals));
                    }
                }
            }
            return Err(EngineError::LinkIncompatible);
        }
        proof {
            let st = old(self).pad_at(src.element as int, src.pad as int).template@;
            let kt = old(self).pad_at(snk.element as int, snk.pad as int).template@;
            lemma_empty_iff_admits_nothing(inter@);
            if inter@ is Any {
                assert(inter@.admits(FormatName::AudioRaw, Map::empty()));
            }
            let name = choose|name: FormatName, vals: Map<FieldKey, i64>|
                (#[trigger] inter@.admits(name, vals));
        }
        let ghost prev = *self;
        self.elements[src.element].pads[src.pad].peer = Some(snk);
        self.elements[snk.element].pads[snk.pad].peer = Some(src);
        proof {
            assert forall|e: int, p: int| self.pad_in_range(e, p) implies
                #[trigger] self.pad_ok(e, p) by {
                assert(old(self).pad_ok(e, p));
                if e == src.element as int && p == src.pad as int {
                    assert(self.pad_at(e, p).peer == Some(snk));
                } else if e == snk.element as int && p == snk.pad as int {
                    assert(self.pad_at(e, p).peer == Some(src));
                } else {
                    assert(self.pad_at(e, p) == old(self).pad_at(e, p));
                    match self.pad_at(e, p).peer {
                        Some(q) => {
                            assert(old(self).pad_ok(q.element as int, q.pad as int));
                            if q.element as int == src.element as int
                                && q.pad as int == src.pad as int {
                                assert(false);
                            }
                            if q.element as int == snk.element as int
                                && q.pad as int == snk.pad as int {
                                assert(false);
                            }
                        },
                        None => {},
                    }
                }
            }
        }
        Ok(())
    }

    /// Negotiates the capability flowing across a link, fixating the
    /// intersection of the two templates. Must succeed before the first
    /// buffer crosses the link; when the intersection cannot be reduced
    /// to a single concrete structure the condition is
    /// `NegotiationFailed`, surfaced both to the caller and as an
    /// error-kind bus message.
    pub fn negotiate(&mut self, src: PadRef) -> (r: Result<(), EngineError>)
        requires
            old(self).wf(),
            old(self).pad_in_range(src.element as int, src.pad as int),
            old(self).pad_at(src.element as int, src.pad as int).peer is Some,
        ensures
            final(self).wf(),
            ({
                let snk = old(self).pad_at(src.element as int, src.pad as int).peer.unwrap();
                let ta = old(self).pad_at(src.element as int, src.pad as int).template@;
                let tb = old(self).pad_at(snk.element as int, snk.pad as int).template@;
                match r {
                    Ok(()) => {
                        &&& negotiable(ta, tb)
                        &&& (final(self).pad_at(src.element as int, src.pad as int)
                            .negotiated matches Some(c) && c@.is_fixed()
                            && forall|name: FormatName, vals: Map<FieldKey, i64>|
                                #[trigger] c@.admits(name, vals)
                                    ==> ta.admits(name, vals) && tb.admits(name, vals))
                        &&& (final(self).pad_at(snk.element as int, snk.pad as int)
                            .negotiated matches Some(c) && c@.is_fixed()
                            && forall|name: FormatName, vals: Map<FieldKey, i64>|
                                #[trigger] c@.admits(name, vals)
                                    ==> ta.admits(name, vals) && tb.admits(name, vals))
                        &&& final(self).pad_at(src.element as int, src.pad as int).negotiated
                            .unwrap()@ == final(self).pad_at(snk.element as int,
                                snk.pad as int).negotiated.unwrap()@
                        &&& final(self).pad_at(src.element as int, src.pad as int).peer
                            == old(self).pad_at(src.element as int, src.pad as int).peer
                        &&& final(self).pad_at(snk.element as int, snk.pad as int).peer
                            == old(self).pad_at(snk.element as int, snk.pad as int).peer
                        &&& final(self).pad_at(src.element as int, src.pad as int).template
                            == old(self).pad_at(src.element as int, src.pad as int).template
                        &&& final(self).pad_at(snk.element as int, snk.pad as int).template
                            == old(self).pad_at(snk.element as int, snk.pad as int).template
                        &&& forall|e: int, p: int| final(self).pad_in_range(e, p)
                            && !(e == src.element as int && p == src.pad as int)
                            && !(e == snk.element as int && p == snk.pad as int)
                            ==> #[trigger] final(self).pad_at(e, p)
                                == old(self).pad_at(e, p)
                        &&& final(self).bus == old(self).bus
                    },
                    Err(e) => {
                        &&& e == EngineError::NegotiationFailed
                        &&& !negotiable(ta, tb)
                        &&& final(self).elements == old(self).elements
                        &&& final(self).bus.queue@.len() == old(self).bus.queue@.len() + 1
                        &&& final(self).bus.queue@[old(self).bus.queue@.len() as int].kind
                            matches MessageKind::ErrorReport {
                                code: EngineError::NegotiationFailed, .. }
                    },
                }
            }),
            final(self).state == old(self).state,
            final(self).elements@.len() == old(self).elements@.len(),
    {
        proof {
            assert(old(self).pad_ok(src.element as int, src.pad as int));
        }
        let snk = match self.elements[src.element].pads[src.pad].peer {
            Some(q) => q,
            None => {
                proof {
                    assert(false);
                }
                return Err(EngineError::NegotiationFailed);
            },
        };
        proof {
            assert(old(self).pad_ok(snk.element as int, snk.pad as int));
        }
        let a = self.elements[src.element].pads[src.pad].template.duplicate();
        let b = self.elements[snk.element].pads[snk.pad].template.duplicate();
        let ghost ta = a@;
        let ghost tb = b@;
        let inter = a.intersect(b);
        let ghost interv = inter@;
        let fixed = inter.fixate();
        if fixed.is_fixed() {
            proof {
                // a fixed result has one structure: the intersection was
                // neither ANY nor EMPTY, so a common format exists
                lemma_empty_iff_admits_nothing(fixed@);
                assert(!(ta is Any && tb is Any));
                let (name, vals) = choose|name: FormatName, vals: Map<FieldKey, i64>|
                    #[trigger] fixed@.admits(name, vals);
                assert(interv.admits(name, vals));
                assert(ta.admits(name, vals) && tb.admits(name, vals));
                assert(negotiable(ta, tb));
            }
            let copy = fixed.duplicate();
            let ghost prev = *self;
            self.elements[src.element].pads[src.pad].negotiated = Some(fixed);
            self.elements[snk.element].pads[snk.pad].negotiated = Some(copy);
            proof {
                assert forall|e: int, p: int| self.pad_in_range(e, p)
                    && !(e == src.element as int && p == src.pad as int)
                    && !(e == snk.element as int && p == snk.pad as int)
                    implies #[trigger] self.pad_at(e, p) == old(self).pad_at(e, p) by {
                    if e != src.element as int && e != snk.element as int {
                        assert(self.elements@[e] == old(self).elements@[e]);
                    }
                }
                assert forall|e: int, p: int| self.pad_in_range(e, p) implies
                    #[trigger] self.pad_ok(e, p) by {
                    assert(prev.pad_ok(e, p));
                    if (e == src.element as int && p == src.pad as int)
                        || (e == snk.element as int && p == snk.pad as int) {
                    } else {
                        assert(self.pad_at(e, p) == prev.pad_at(e, p));
                        match self.pad_at(e, p).peer {
                            Some(w) => {
                                assert(prev.pad_ok(w.element as int, w.pad as int));
                                assert(self.pad_at(w.element as int, w.pad as int).peer
                                    == prev.pad_at(w.element as int, w.pad as int).peer);
                                assert(self.pad_at(w.element as int, w.pad as int).direction
                                    == prev.pad_at(w.element as int, w.pad as int)
                                        .direction);
                            },
                            None => {},
                        }
                    }
                }
            }
            Ok(())
        } else {
            proof {
                // fixation failed: the intersection was ANY (both
                // templates ANY) or EMPTY (no common format)
                if !(interv is Any) {
                    lemma_empty_iff_admits_nothing(interv);
                    assert(interv.is_empty());
                    assert forall|name: FormatName, vals: Map<FieldKey, i64>|
                        !((#[trigger] ta.admits(name, vals)) && tb.admits(name, vals)) by {
                        if ta.admits(name, vals) && tb.admits(name, vals) {
                            assert(interv.admits(name, vals));
                        }
                    }
                }
                assert(!negotiable(ta, tb));
            }
            self.bus.post(Message {
                src: ElementId(src.element),
                kind: MessageKind::ErrorReport {
                    code: EngineError::NegotiationFailed,
                    text: new_string(),
                    debug: new_string(),
                },
            });
            proof {
                assert forall|e: int, p: int| self.pad_in_range(e, p) implies
                    #[trigger] self.pad_ok(e, p) by {
                    assert(old(self).pad_ok(e, p));
                    assert(self.pad_at(e, p) == old(self).pad_at(e, p));
                    match self.pad_at(e, p).peer {
                        Some(w) => {
                            assert(self.pad_at(w.element as int, w.pad as int)
                                == old(self).pad_at(w.element as int, w.pad as int));
                        },
                        None => {},
                    }
                }
            }
            Err(EngineError::NegotiationFailed)
        }
    }

    /// Whether pad `p` of element `e` is free for a chain link: an
    /// always-pad of the given direction, unlinked and not released.
    pub open spec fn free_pad(self, e: int, p: int, dir: PadDirection) -> bool {
        &&& self.pad_in_range(e, p)
        &&& self.pad_at(e, p).direction == dir
        &&& self.pad_at(e, p).presence == PadPresence::Always
        &&& self.pad_at(e, p).peer is None
        &&& !self.pad_at(e, p).released
    }

    /// Whether element `e` has any free always-pad of the given direction.
    pub open spec fn has_free_pad(self, e: int, dir: PadDirection) -> bool {
        exists|p: int| self.free_pad(e, p, dir)
    }

    /// Whether some source pad of element `a` is linked to some sink pad
    /// of element `b`.
    pub open spec fn linked_between(self, a: int, b: int) -> bool {
        exists|p: int| self.pad_in_range(a, p)
            && (#[trigger] self.pad_at(a, p)).direction == PadDirection::Source
            && match self.pad_at(a, p).peer {
                Some(w) => w.element == b as usize,
                None => false,
            }
    }

    /// The first free always-pad of the element with the given
    /// direction: unlinked, not released. `None` means the element has no
    /// such pad at all.
    #[verifier::loop_isolation(false)]
    fn find_free_pad(&self, e: ElementId, direction: PadDirection) -> (r: Option<usize>)
        requires
            e.0 < self.elements@.len(),
        ensures
            match r {
                Some(p) => self.free_pad(e.0 as int, p as int, direction)
                    && forall|q: int| 0 <= q < p
                        ==> !self.free_pad(e.0 as int, q, direction),
                None => !self.has_free_pad(e.0 as int, direction),
            },
    {
        let pads = &self.elements[e.0].pads;
        let mut p: usize = 0;
        while p < pads.len()
            invariant
                p <= pads@.len(),
                pads@ == self.elements@[e.0 as int].pads@,
                forall|q: int| 0 <= q < p ==> !self.free_pad(e.0 as int, q, direction),
            decreases pads@.len() - p,
        {
            let pad = &pads[p];
            let dir_ok = match (pad.direction, direction) {
                (PadDirection::Source, PadDirection::Source) => true,
                (PadDirection::Sink, PadDirection::Sink) => true,
                _ => false,
            };
            let always = match pad.presence {
                PadPresence::Always => true,
                _ => false,
            };
            if dir_ok && always && pad.peer.is_none() && !pad.released {
                return Some(p);
            }
            p = p + 1;
        }
        None
    }

    /// Links a chain of elements pairwise: the first free always source
    /// pad of each element to the first free always sink pad of the
    /// next. Fails with `LinkIncompatible` when a pair has no such free
    /// pads or their templates admit no common format; pairs already
    /// linked by then stay linked.
    #[verifier::loop_isolation(false)]
    pub fn link_many(&mut self, chain: &Vec<ElementId>) -> (r: Result<(), EngineError>)
        requires
            old(self).wf(),
            forall|k: int| 0 <= k < chain@.len()
                ==> (#[trigger] chain@[k]).0 < old(self).elements@.len(),
        ensures
            final(self).wf(),
            final(self).elements@.len() == old(self).elements@.len(),
            match r {
                Ok(()) => forall|k: int| 0 <= k < chain@.len() - 1
                    ==> final(self).linked_between((#[trigger] chain@[k]).0 as int,
                        chain@[k + 1].0 as int),
                Err(e) => e == EngineError::LinkIncompatible
                    && exists|k: int| #![trigger chain@[k]] {
                        &&& 0 <= k < chain@.len() - 1
                        &&& forall|j: int| 0 <= j < k
                            ==> final(self).linked_between((#[trigger] chain@[j]).0 as int,
                                chain@[j + 1].0 as int)
                        &&& {
                            ||| !final(self).has_free_pad(chain@[k].0 as int,
                                PadDirection::Source)
                            ||| !final(self).has_free_pad(chain@[k + 1].0 as int,
                                PadDirection::Sink)
                            ||| exists|p: int, q: int|
                                (#[trigger] final(self).free_pad(chain@[k].0 as int, p,
                                    PadDirection::Source))
                                && (#[trigger] final(self).free_pad(chain@[k + 1].0 as int,
                                    q, PadDirection::Sink))
                                && forall|name: FormatName, vals: Map<FieldKey, i64>|
                                    !((#[trigger] final(self).pad_at(chain@[k].0 as int, p)
                                        .template@.admits(name, vals))
                                    && final(self).pad_at(chain@[k + 1].0 as int, q)
                                        .template@.admits(name, vals))
                        }
                    },
            },
    {
        if chain.len() == 0 {
            return Ok(());
        }
        let mut k: usize = 0;
        while k < chain.len() - 1
            invariant
                k <= chain@.len() - 1,
                self.wf(),
                self.elements@.len() == old(self).elements@.len(),
                forall|j: int| 0 <= j < k
                    ==> self.linked_between((#[trigger] chain@[j]).0 as int,
                        chain@[j + 1].0 as int),
            decreases chain@.len() - k,
        {
            let a = chain[k];
            let b = chain[k + 1];
            let sp = match self.find_free_pad(a, PadDirection::Source) {
                Some(p) => p,
                None => {
                    proof {
                        assert(chain@[k as int] == a);
                        assert(!self.has_free_pad(chain@[k as int].0 as int,
                            PadDirection::Source));
                    }
                    return Err(EngineError::LinkIncompatible);
                },
            };
            let qp = match self.find_free_pad(b, PadDirection::Sink) {
                Some(p) => p,
                None => {
                    proof {
                        assert(chain@[k as int] == a && chain@[k as int + 1] == b);
                        assert(!self.has_free_pad(chain@[k as int + 1].0 as int,
                            PadDirection::Sink));
                    }
                    return Err(EngineError::LinkIncompatible);
                },
            };
            let src = PadRef { element: a.0, pad: sp };
            let snk = PadRef { element: b.0, pad: qp };
            let ghost mid = *self;
            match self.link(src, snk) {
                Ok(()) => {
                    proof {
                        assert(self.pad_at(a.0 as int, sp as int).peer == Some(snk));
                        assert(self.pad_at(a.0 as int, sp as int).direction
                            == PadDirection::Source);
                        assert(self.linked_between(a.0 as int, b.0 as int));
                        // links made by earlier iterations are untouched:
                        // their source pads were linked, ours were free
                        assert forall|j: int| 0 <= j < k implies
                            self.linked_between((#[trigger] chain@[j]).0 as int,
                                chain@[j + 1].0 as int) by {
                            let p = choose|p: int| mid.pad_in_range(chain@[j].0 as int, p)
                                && (#[trigger] mid.pad_at(chain@[j].0 as int, p)).direction
                                    == PadDirection::Source
                                && match mid.pad_at(chain@[j].0 as int, p).peer {
                                    Some(w) => w.element == chain@[j + 1].0 as usize,
                                    None => false,
                                };
                            if chain@[j].0 as int == a.0 as int && p == sp as int {
                                assert(false);
                            }
                            if chain@[j].0 as int == b.0 as int && p == qp as int {
                                assert(false);
                            }
                            assert(self.pad_at(chain@[j].0 as int, p)
                                == mid.pad_at(chain@[j].0 as int, p));
                        }
                    }
                },
                Err(e) => {
                    proof {
                        assert(chain@[k as int] == a && chain@[k as int + 1] == b);
                        assert(*self == mid);
                        assert(self.free_pad(chain@[k as int].0 as int, sp as int,
                            PadDirection::Source));
                        assert(self.free_pad(chain@[k as int + 1].0 as int, qp as int,
                            PadDirection::Sink));
                    }
                    return Err(e);
                },
            }
            k = k + 1;
        }
        Ok(())
    }

    /// Configures a property of an element, constrained to its kind's
    /// declared schema: an undeclared key or a value of the wrong shape
    /// is refused and changes nothing.
    pub fn set_property(&mut self, e: ElementId, key: PropKey, value: PropValue) -> (ok: bool)
        requires
            old(self).wf(),
            e.0 < old(self).elements@.len(),
        ensures
            final(self).wf(),
            ok == kind_accepts(old(self).elements@[e.0 as int].kind, key, value),
            ok ==> final(self).elements@[e.0 as int].props@
                == old(self).elements@[e.0 as int].props@.push(Property { key, value })
                && prop_of(final(self).elements@[e.0 as int].props@, key)
                    == Some(value),
            !ok ==> *final(self) == *old(self),
            final(self).elements@.len() == old(self).elements@.len(),
            forall|j: int| 0 <= j < old(self).elements@.len() && j != e.0 as int
                ==> #[trigger] final(self).elements@[j] == old(self).elements@[j],
            final(self).elements@[e.0 as int].pads
                == old(self).elements@[e.0 as int].pads,
            final(self).elements@[e.0 as int].kind == old(self).elements@[e.0 as int].kind,
            final(self).state == old(self).state,
            final(self).bus == old(self).bus,
    {
        if !crate::element::accepts(self.elements[e.0].kind, key, &value) {
            return false;
        }
        let ok = self.elements[e.0].set_property(key, value);
        proof {
            assert forall|e2: int, p2: int| self.pad_in_range(e2, p2) implies
                #[trigger] self.pad_ok(e2, p2) by {
                assert(old(self).pad_ok(e2, p2));
                assert(self.pad_at(e2, p2) == old(self).pad_at(e2, p2));
                match self.pad_at(e2, p2).peer {
                    Some(w) => {
                        assert(self.pad_at(w.element as int, w.pad as int)
                            == old(self).pad_at(w.element as int, w.pad as int));
                    },
                    None => {},
                }
            }
        }
        ok
    }

    /// Unlinks a pad from its peer; a no-op on an unlinked pad.
    pub fn unlink(&mut self, r: PadRef)
        requires
            old(self).wf(),
            old(self).pad_in_range(r.element as int, r.pad as int),
        ensures
            final(self).wf(),
            final(self).pad_at(r.element as int, r.pad as int).peer is None,
            final(self).pad_at(r.element as int, r.pad as int).negotiated is None,
            match old(self).pad_at(r.element as int, r.pad as int).peer {
                None => *final(self) == *old(self),
                Some(q) => {
                    &&& final(self).pad_at(q.element as int, q.pad as int).peer is None
                    &&& final(self).pad_at(q.element as int, q.pad as int).negotiated is None
                    &&& forall|e: int, p: int| final(self).pad_in_range(e, p)
                        && !(e == r.element as int && p == r.pad as int)
                        && !(e == q.element as int && p == q.pad as int)
                        ==> #[trigger] final(self).pad_at(e, p) == old(self).pad_at(e, p)
                    &&& final(self).elements@.len() == old(self).elements@.len()
                    &&& final(self).state == old(self).state
                    &&& final(self).bus == old(self).bus
                },
            },
            // the two touched pads keep everything but their link state
            forall|e: int, p: int| final(self).pad_in_range(e, p) ==> {
                let fp = #[trigger] final(self).pad_at(e, p);
                let op = old(self).pad_at(e, p);
                &&& fp.direction == op.direction
                &&& fp.presence == op.presence
                &&& fp.template == op.template
                &&& fp.delivered == op.delivered
                &&& fp.released == op.released
            },
            final(self).elements@.len() == old(self).elements@.len(),
            forall|e: int| 0 <= e < old(self).elements@.len() ==> {
                let fe = #[trigger] final(self).elements@[e];
                let oe = old(self).elements@[e];
                &&& fe.pads@.len() == oe.pads@.len()
                &&& fe.name == oe.name
                &&& fe.kind == oe.kind
                &&& fe.state == oe.state
                &&& fe.props == oe.props
            },
            final(self).state == old(self).state,
            final(self).bus == old(self).bus,
            final(self).pad_events == old(self).pad_events,
            final(self).position_ns == old(self).position_ns,
            final(self).position_known == old(self).position_known,
            final(self).media_duration_ns == old(self).media_duration_ns,
            final(self).duration_cache == old(self).duration_cache,
            final(self).buffer_duration_ns == old(self).buffer_duration_ns,
            final(self).pads_blocked == old(self).pads_blocked,
            final(self).pending_async == old(self).pending_async,
            final(self).name == old(self).name,
    {
        let peer = self.elements[r.element].pads[r.pad].peer;
        match peer {
            None => {
                proof {
                    assert(old(self).pad_ok(r.element as int, r.pad as int));
                }
            },
            Some(q) => {
                proof {
                    assert(old(self).pad_ok(r.element as int, r.pad as int));
                }
                self.elements[r.element].pads[r.pad].peer = None;
                self.elements[r.element].pads[r.pad].negotiated = None;
                self.elements[q.element].pads[q.pad].peer = None;
                self.elements[q.element].pads[q.pad].negotiated = None;
                proof {
                    assert forall|e: int, p: int| self.pad_in_range(e, p) implies
                        #[trigger] self.pad_ok(e, p) by {
                        assert(old(self).pad_ok(e, p));
                        if (e == r.element as int && p == r.pad as int)
                            || (e == q.element as int && p == q.pad as int) {
                        } else {
                            assert(self.pad_at(e, p) == old(self).pad_at(e, p));
                            match self.pad_at(e, p).peer {
                                Some(w) => {
                                    vstd::std_specs::vec::axiom_spec_len(
                                        &old(self).elements);
                                    let pv = old(self).elements@[e].pads;
                                    vstd::std_specs::vec::axiom_spec_len(&pv);
                                    let back = PadRef {
                                        element: e as usize,
                                        pad: p as usize,
                                    };
                                    assert(old(self).pad_at(w.element as int,
                                        w.pad as int).peer == Some(back));
                                    if w.element as int == r.element as int
                                        && w.pad as int == r.pad as int {
                                        assert(Some(back) == Some(q));
                                        assert(q.element == e as usize
                                            && q.pad == p as usize);
                                        assert(q.element as int == e
                                            && q.pad as int == p);
                                        assert(false);
                                    }
                                    if w.element as int == q.element as int
                                        && w.pad as int == q.pad as int {
                                        assert(old(self).pad_at(q.element as int,
                                            q.pad as int).peer == Some(PadRef {
                                                element: r.element, pad: r.pad }));
                                        assert(Some(back) == Some(PadRef {
                                            element: r.element, pad: r.pad }));
                                        assert(r.element as int == e
                                            && r.pad as int == p);
                                        assert(false);
                                    }
                                },
                                None => {},
                            }
                        }
                    }
                }
            },
        }
    }

    /// Whether some element is a pull sink, which confirms state changes
    /// asynchronously.
    fn has_sink(&self) -> (r: bool)
        ensures
            r == exists|e: int| 0 <= e < self.elements@.len()
                && (#[trigger] self.elements@[e]).kind == ElementKind::PullSink,
    {
        let mut e: usize = 0;
        while e < self.elements.len()
            invariant
                e <= self.elements@.len(),
                forall|j: int| 0 <= j < e ==> (#[trigger] self.elements@[j]).kind
                    != ElementKind::PullSink,
            decreases self.elements@.len() - e,
        {
            let is_sink = match self.elements[e].kind {
                ElementKind::PullSink => true,
                _ => false,
            };
            if is_sink {
                return true;
            }
            e = e + 1;
        }
        false
    }

    /// The teardown form of one pad after the graph returns to `Null`:
    /// the negotiated capability is released, request pads are released,
    /// links are cleared, and everything else is untouched.
    pub open spec fn pad_torn_down(fp: Pad, op: Pad) -> bool {
        &&& fp.direction == op.direction
        &&& fp.presence == op.presence
        &&& fp.template == op.template
        &&& fp.delivered == op.delivered
        &&& fp.peer is None
        &&& fp.negotiated is None
        &&& fp.released == (op.released || op.presence == PadPresence::Request)
    }

    /// Terminal teardown: releases every negotiated capability and every
    /// request pad, clearing all links.
    #[verifier::loop_isolation(false)]
    fn clear_links(&mut self)
        requires
            old(self).wf(),
        ensures
            final(self).wf(),
            final(self).elements@.len() == old(self).elements@.len(),
            forall|e: int| 0 <= e < old(self).elements@.len() ==> {
                let fe = #[trigger] final(self).elements@[e];
                let oe = old(self).elements@[e];
                &&& fe.pads@.len() == oe.pads@.len()
                &&& fe.name == oe.name
                &&& fe.kind == oe.kind
                &&& fe.state == oe.state
                &&& fe.props == oe.props
            },
            forall|e: int, p: int| final(self).pad_in_range(e, p)
                ==> Graph::pad_torn_down(#[trigger] final(self).pad_at(e, p),
                    old(self).pad_at(e, p)),
            final(self).state == old(self).state,
            final(self).bus == old(self).bus,
            final(self).pad_events == old(self).pad_events,
            final(self).position_ns == old(self).position_ns,
            final(self).position_known == old(self).position_known,
            final(self).pending_async == old(self).pending_async,
    {
        let mut e: usize = 0;
        while e < self.elements.len()
            invariant
                e <= old(self).elements@.len(),
                self.wf(),
                self.elements@.len() == old(self).elements@.len(),
                forall|j: int| 0 <= j < old(self).elements@.len() ==> {
                    let fe = #[trigger] self.elements@[j];
                    let oe = old(self).elements@[j];
                    &&& fe.pads@.len() == oe.pads@.len()
                    &&& fe.name == oe.name
                    &&& fe.kind == oe.kind
                    &&& fe.state == oe.state
                    &&& fe.props == oe.props
                },
                forall|j: int, q: int| self.pad_in_range(j, q) ==> {
                    let fp = #[trigger] self.pad_at(j, q);
                    let op = old(self).pad_at(j, q);
                    &&& fp.direction == op.direction
                    &&& fp.presence == op.presence
                    &&& fp.template == op.template
                    &&& fp.delivered == op.delivered
                    &&& (fp.peer is None || fp.peer == op.peer)
                    &&& (fp.negotiated is None || fp.negotiated == op.negotiated)
                    &&& fp.released == (op.released
                        || (op.presence == PadPresence::Request && j < e))
                },
                forall|j: int, q: int| self.pad_in_range(j, q) && j < e ==> {
                    let fp = #[trigger] self.pad_at(j, q);
                    &&& fp.peer is None
                    &&& fp.negotiated is None
                },
                self.state == old(self).state,
                self.bus == old(self).bus,
                self.pad_events == old(self).pad_events,
                self.position_ns == old(self).position_ns,
                self.position_known == old(self).position_known,
                self.pending_async == old(self).pending_async,
            decreases old(self).elements@.len() - e,
        {
            let mut p: usize = 0;
            while p < self.elements[e].pads.len()
                invariant
                    e < old(self).elements@.len(),
                    p <= old(self).elements@[e as int].pads@.len(),
                    self.wf(),
                    self.elements@.len() == old(self).elements@.len(),
                    forall|j: int| 0 <= j < old(self).elements@.len() ==> {
                        let fe = #[trigger] self.elements@[j];
                        let oe = old(self).elements@[j];
                        &&& fe.pads@.len() == oe.pads@.len()
                        &&& fe.name == oe.name
                        &&& fe.kind == oe.kind
                        &&& fe.state == oe.state
                        &&& fe.props == oe.props
                    },
                    forall|j: int, q: int| self.pad_in_range(j, q) ==> {
                        let fp = #[trigger] self.pad_at(j, q);
                        let op = old(self).pad_at(j, q);
                        &&& fp.direction == op.direction
                        &&& fp.presence == op.presence
                        &&& fp.template == op.template
                        &&& fp.delivered == op.delivered
                        &&& (fp.peer is None || fp.peer == op.peer)
                        &&& (fp.negotiated is None || fp.negotiated == op.negotiated)
                        &&& fp.released == (op.released
                            || (op.presence == PadPresence::Request
                                && (j < e || (j == e && q < p))))
                    },
                    forall|j: int, q: int| self.pad_in_range(j, q)
                        && (j < e || (j == e && q < p)) ==> {
                        let fp = #[trigger] self.pad_at(j, q);
                        &&& fp.peer is None
                        &&& fp.negotiated is None
                    },
                    self.state == old(self).state,
                    self.bus == old(self).bus,
                    self.pad_events == old(self).pad_events,
                    self.position_ns == old(self).position_ns,
                    self.position_known == old(self).position_known,
                    self.pending_async == old(self).pending_async,
                decreases old(self).elements@[e as int].pads@.len() - p,
            {
                let pr = PadRef { element: e, pad: p };
                self.unlink(pr);
                let is_request = match self.elements[e].pads[p].presence {
                    PadPresence::Request => true,
                    _ => false,
                };
                if is_request && !self.elements[e].pads[p].released {
                    let ghost mid = *self;
                    proof {
                        assert(mid.pad_ok(e as int, p as int));
                    }
                    self.elements[e].pads[p].released = true;
                    proof {
                        self.lemma_pads_untouched_wf(mid, e as int, p as int);
                        assert forall|j: int, q: int| self.pad_in_range(j, q)
                            && !(j == e as int && q == p as int)
                            implies #[trigger] self.pad_at(j, q) == mid.pad_at(j, q) by {
                            if j != e as int {
                                assert(self.elements@[j] == mid.elements@[j]);
                            }
                        }
                    }
                }
                p = p + 1;
            }
            e = e + 1;
        }
    }

    /// Requests a lifecycle state. The target propagates to every
    /// element, one observable step at a time: the bus receives a
    /// state-changed message for each intermediate transition. An element
    /// lacking a required link cannot enter the active states; it is held
    /// at `Ready` and the failure is surfaced as an error-kind bus
    /// message rather than by failing this call. When a pull sink is
    /// present, an upward change into the active states completes
    /// asynchronously: the graph reports `Async` and posts async-done
    /// when the change completes.
    #[verifier::loop_isolation(false)]
    #[verifier::rlimit(60)]
    pub fn set_state(&mut self, target: State) -> (r: StateChangeOutcome)
        requires
            old(self).wf(),
        ensures
            final(self).wf(),
            final(self).state == target,
            final(self).elements@.len() == old(self).elements@.len(),
            forall|e: int| 0 <= e < old(self).elements@.len() ==> {
                let oe = old(self).elements@[e];
                let fe = #[trigger] final(self).elements@[e];
                &&& (target != State::Null ==> fe.pads == oe.pads)
                &&& fe.pads@.len() == oe.pads@.len()
                &&& fe.name == oe.name
                &&& fe.kind == oe.kind
                &&& fe.props == oe.props
                &&& fe.state == local_target(oe, target)
            },
            target == State::Null ==> forall|e: int, p: int| final(self).pad_in_range(e, p)
                ==> Graph::pad_torn_down(#[trigger] final(self).pad_at(e, p),
                    old(self).pad_at(e, p)),
            ({
                let base = old(self).bus.queue@.len() as int;
                let crossing = target.spec_is_active() && !old(self).state.spec_is_active();
                let n_err = if crossing {
                    count_unready(old(self).elements@, old(self).elements@.len() as int)
                } else {
                    0
                };
                let climb = climb_msgs(old(self).state, target, spec_graph_src());
                &&& final(self).bus.queue@.len() == base + n_err + climb.len()
                &&& final(self).bus.queue@.subrange(0, base) == old(self).bus.queue@
                &&& forall|i: int| base <= i < base + n_err ==> {
                    let m = #[trigger] final(self).bus.queue@[i];
                    &&& m.kind matches MessageKind::ErrorReport {
                        code: EngineError::StateChangeFailed, .. }
                    &&& m.src.0 < old(self).elements@.len()
                    &&& lacks_link(old(self).elements@[m.src.0 as int])
                }
                &&& final(self).bus.queue@.subrange(base + n_err,
                    final(self).bus.queue@.len() as int) == climb
            }),
            final(self).bus.mode == old(self).bus.mode,
            final(self).bus.filter == old(self).bus.filter,
            (r is Async) == (target.spec_rank() > old(self).state.spec_rank()
                && target.spec_is_active()
                && exists|e: int| 0 <= e < old(self).elements@.len()
                    && (#[trigger] old(self).elements@[e]).kind == ElementKind::PullSink),
            final(self).pending_async == (old(self).pending_async || r is Async),
            final(self).position_ns == old(self).position_ns,
            final(self).position_known == old(self).position_known,
            final(self).pad_events@ == old(self).pad_events@,
    {
        let from = self.state;
        let sink_present = self.has_sink();
        let crossing = target.is_active() && !from.is_active();
        let ghost base = self.bus.queue@.len() as int;
        if crossing {
            let mut e: usize = 0;
            while e < self.elements.len()
                invariant
                    e <= old(self).elements@.len(),
                    self.elements@ == old(self).elements@,
                    self.state == old(self).state,
                    self.pending_async == old(self).pending_async,
                    self.position_ns == old(self).position_ns,
                    self.position_known == old(self).position_known,
                    self.pad_events@ == old(self).pad_events@,
                    self.bus.mode == old(self).bus.mode,
                    self.bus.filter == old(self).bus.filter,
                    self.bus.queue@.len() == base + count_unready(old(self).elements@, e as int),
                    forall|i: int| 0 <= i < base
                        ==> #[trigger] self.bus.queue@[i] == old(self).bus.queue@[i],
                    forall|i: int| base <= i < self.bus.queue@.len() ==> {
                        let m = #[trigger] self.bus.queue@[i];
                        &&& m.kind matches MessageKind::ErrorReport {
                            code: EngineError::StateChangeFailed, .. }
                        &&& m.src.0 < old(self).elements@.len()
                        &&& lacks_link(old(self).elements@[m.src.0 as int])
                    },
                decreases self.elements@.len() - e,
            {
                if element_lacks_link(&self.elements[e]) {
                    let ghost q0 = self.bus.queue@;
                    self.bus.post(Message {
                        src: ElementId(e),
                        kind: MessageKind::ErrorReport {
                            code: EngineError::StateChangeFailed,
                            text: new_string(),
                            debug: new_string(),
                        },
                    });
                    proof {
                        assert forall|i: int| 0 <= i < base implies
                            #[trigger] self.bus.queue@[i] == old(self).bus.queue@[i] by {
                            assert(self.bus.queue@[i] == q0[i]);
                        }
                        assert forall|i: int| base <= i < self.bus.queue@.len() implies {
                            let m = #[trigger] self.bus.queue@[i];
                            &&& m.kind matches MessageKind::ErrorReport {
                                code: EngineError::StateChangeFailed, .. }
                            &&& m.src.0 < old(self).elements@.len()
                            &&& lacks_link(old(self).elements@[m.src.0 as int])
                        } by {
                            if i < q0.len() {
                                assert(self.bus.queue@[i] == q0[i]);
                            } else {
                                assert(self.bus.queue@[i] == self.bus.queue@[
                                    self.bus.queue@.len() - 1]);
                            }
                        }
                    }
                }
                e = e + 1;
            }
        }
        let ghost bus1 = self.bus;
        let mut e: usize = 0;
        while e < self.elements.len()
            invariant
                e <= old(self).elements@.len(),
                self.elements@.len() == old(self).elements@.len(),
                forall|j: int| e <= j < old(self).elements@.len()
                    ==> #[trigger] self.elements@[j] == old(self).elements@[j],
                forall|j: int| 0 <= j < e ==> {
                    let oe = old(self).elements@[j];
                    let fe = #[trigger] self.elements@[j];
                    &&& fe.pads == oe.pads
                    &&& fe.name == oe.name
                    &&& fe.kind == oe.kind
                    &&& fe.props == oe.props
                    &&& fe.state == local_target(oe, target)
                },
                self.bus == bus1,
                self.state == old(self).state,
                self.pending_async == old(self).pending_async,
                self.position_ns == old(self).position_ns,
                self.position_known == old(self).position_known,
                self.pad_events@ == old(self).pad_events@,
            decreases self.elements@.len() - e,
        {
            let lacks = element_lacks_link(&self.elements[e]);
            let ns = if target.is_active() && lacks {
                State::Ready
            } else {
                target
            };
            self.elements[e].state = ns;
            e = e + 1;
        }
        proof {
            assert forall|e2: int, p2: int| self.pad_in_range(e2, p2) implies
                #[trigger] self.pad_ok(e2, p2) by {
                assert(old(self).pad_ok(e2, p2));
                assert(self.pad_at(e2, p2) == old(self).pad_at(e2, p2));
                match self.pad_at(e2, p2).peer {
                    Some(w) => {
                        assert(self.pad_at(w.element as int, w.pad as int)
                            == old(self).pad_at(w.element as int, w.pad as int));
                    },
                    None => {},
                }
            }
        }
        let ghost mid = *self;
        if target.rank() == 0 {
            self.clear_links();
        }
        let ghost settled = *self;
        post_climb(&mut self.bus, from, target, graph_src());
        self.state = target;
        let going_up = target.rank() > from.rank();
        let r = if going_up && target.is_active() && sink_present {
            self.pending_async = true;
            StateChangeOutcome::Async
        } else {
            StateChangeOutcome::Success
        };
        proof {
            assert forall|e2: int, p2: int| self.pad_in_range(e2, p2) implies
                #[trigger] self.pad_ok(e2, p2) by {
                assert(settled.pad_ok(e2, p2));
                assert(self.pad_at(e2, p2) == settled.pad_at(e2, p2));
                match self.pad_at(e2, p2).peer {
                    Some(w) => {
                        assert(self.pad_at(w.element as int, w.pad as int)
                            == settled.pad_at(w.element as int, w.pad as int));
                    },
                    None => {},
                }
            }
            if target == State::Null {
                assert forall|e2: int, p2: int| self.pad_in_range(e2, p2) implies
                    Graph::pad_torn_down(#[trigger] self.pad_at(e2, p2),
                        old(self).pad_at(e2, p2)) by {
                    assert(self.pad_at(e2, p2) == settled.pad_at(e2, p2));
                    assert(Graph::pad_torn_down(settled.pad_at(e2, p2),
                        mid.pad_at(e2, p2)));
                    assert(mid.pad_at(e2, p2) == old(self).pad_at(e2, p2));
                }
            }
            let qf = self.bus.queue@;
            let mid = bus1.queue@.len() as int;
            assert(qf == bus1.queue@ + climb_msgs(from, target, spec_graph_src()));
            assert(qf.subrange(0, base) =~= old(self).bus.queue@);
            assert(qf.subrange(mid, qf.len() as int) =~= climb_msgs(from, target, spec_graph_src()));
        }
        r
    }

    /// Requests a lifecycle state for one element, without moving the
    /// graph's aggregate state. The element walks toward the target one
    /// observable step at a time, posting a state-changed message for
    /// each step under its own identity. An element lacking a required
    /// link cannot enter the active states: it is held at `Ready` and the
    /// failure is surfaced as an error-kind bus message. A pull sink
    /// entering the active states completes asynchronously.
    #[verifier::loop_isolation(false)]
    pub fn set_element_state(&mut self, e: ElementId, target: State) -> (r: StateChangeOutcome)
        requires
            old(self).wf(),
            e.0 < old(self).elements@.len(),
        ensures
            final(self).wf(),
            final(self).elements@.len() == old(self).elements@.len(),
            forall|j: int| 0 <= j < old(self).elements@.len() && j != e.0 as int
                ==> #[trigger] final(self).elements@[j] == old(self).elements@[j],
            ({
                let oe = old(self).elements@[e.0 as int];
                let fe = final(self).elements@[e.0 as int];
                let local = local_target(oe, target);
                let base = old(self).bus.queue@.len() as int;
                let n_err: int = if target.spec_is_active() && !oe.state.spec_is_active()
                    && lacks_link(oe) {
                    1
                } else {
                    0
                };
                let climb = climb_msgs(oe.state, local, e);
                &&& fe.state == local
                &&& fe.pads == oe.pads
                &&& fe.name == oe.name
                &&& fe.kind == oe.kind
                &&& fe.props == oe.props
                &&& final(self).bus.queue@.len() == base + n_err + climb.len()
                &&& final(self).bus.queue@.subrange(0, base) == old(self).bus.queue@
                &&& (n_err == 1 ==> final(self).bus.queue@[base].src == e
                    && final(self).bus.queue@[base].kind matches MessageKind::ErrorReport {
                        code: EngineError::StateChangeFailed, .. })
                &&& final(self).bus.queue@.subrange(base + n_err,
                    final(self).bus.queue@.len() as int) == climb
            }),
            final(self).bus.mode == old(self).bus.mode,
            final(self).bus.filter == old(self).bus.filter,
            (r is Async) == (target.spec_rank()
                > old(self).elements@[e.0 as int].state.spec_rank()
                && target.spec_is_active()
                && old(self).elements@[e.0 as int].kind == ElementKind::PullSink),
            final(self).pending_async == (old(self).pending_async || r is Async),
            final(self).state == old(self).state,
            final(self).position_ns == old(self).position_ns,
            final(self).position_known == old(self).position_known,
            final(self).pad_events@ == old(self).pad_events@,
    {
        let lacks = element_lacks_link(&self.elements[e.0]);
        let from = self.elements[e.0].state;
        let crossing = target.is_active() && !from.is_active();
        if crossing && lacks {
            self.bus.post(Message {
                src: e,
                kind: MessageKind::ErrorReport {
                    code: EngineError::StateChangeFailed,
                    text: new_string(),
                    debug: new_string(),
                },
            });
        }
        let local = if target.is_active() && lacks {
            State::Ready
        } else {
            target
        };
        self.elements[e.0].state = local;
        let ghost mid = *self;
        post_climb(&mut self.bus, from, local, e);
        let is_sink = match self.elements[e.0].kind {
            ElementKind::PullSink => true,
            _ => false,
        };
        let going_up = target.rank() > from.rank();
        let r = if going_up && target.is_active() && is_sink {
            self.pending_async = true;
            StateChangeOutcome::Async
        } else {
            StateChangeOutcome::Success
        };
        proof {
            assert forall|e2: int, p2: int| self.pad_in_range(e2, p2) implies
                #[trigger] self.pad_ok(e2, p2) by {
                assert(old(self).pad_ok(e2, p2));
                assert(self.pad_at(e2, p2) == old(self).pad_at(e2, p2));
                match self.pad_at(e2, p2).peer {
                    Some(w) => {
                        assert(self.pad_at(w.element as int, w.pad as int)
                            == old(self).pad_at(w.element as int, w.pad as int));
                    },
                    None => {},
                }
            }
            let qf = self.bus.queue@;
            let base = old(self).bus.queue@.len() as int;
            assert(qf == mid.bus.queue@ + climb_msgs(from, local, e));
            assert(qf.subrange(0, base) =~= old(self).bus.queue@);
            assert(qf.subrange(mid.bus.queue@.len() as int, qf.len() as int)
                =~= climb_msgs(from, local, e));
        }
        r
    }

    /// Completes an outstanding asynchronous state change: the graph
    /// posts async-done on the bus.
    pub fn async_done(&mut self)
        requires
            old(self).pending_async,
        ensures
            !final(self).pending_async,
            final(self).bus.queue@ == old(self).bus.queue@.push(Message {
                src: spec_graph_src(),
                kind: MessageKind::AsyncDone,
            }),
            final(self).elements == old(self).elements,
            final(self).state == old(self).state,
    {
        self.pending_async = false;
        self.bus.post(Message { src: graph_src(), kind: MessageKind::AsyncDone });
    }

    /// The current play-cursor time. Valid only while `Playing`; a
    /// success enables seeking.
    pub fn query_position(&mut self) -> (r: Result<u64, EngineError>)
        ensures
            match r {
                Ok(t) => old(self).state == State::Playing
                    && t == old(self).position_ns
                    && *final(self) == (Graph { position_known: true, ..*old(self) }),
                Err(e) => e == EngineError::QueryUnsupported
                    && old(self).state != State::Playing
                    && *final(self) == *old(self),
            },
    {
        match self.state {
            State::Playing => {
                self.position_known = true;
                Ok(self.position_ns)
            },
            _ => Err(EngineError::QueryUnsupported),
        }
    }

    /// The media duration, if known. Valid only while `Playing`; the
    /// first success is cached until a duration-changed message
    /// invalidates it.
    pub fn query_duration(&mut self) -> (r: Result<Option<u64>, EngineError>)
        ensures
            match r {
                Ok(d) => old(self).state == State::Playing
                    && match old(self).duration_cache {
                        Some(c) => d == Some(c) && *final(self) == *old(self),
                        None => d == old(self).media_duration_ns
                            && *final(self) == (Graph {
                                duration_cache: old(self).media_duration_ns,
                                ..*old(self)
                            }),
                    },
                Err(e) => e == EngineError::QueryUnsupported
                    && old(self).state != State::Playing
                    && *final(self) == *old(self),
            },
    {
        match self.state {
            State::Playing => {
                match self.duration_cache {
                    Some(c) => Ok(Some(c)),
                    None => {
                        self.duration_cache = self.media_duration_ns;
                        Ok(self.media_duration_ns)
                    },
                }
            },
            _ => Err(EngineError::QueryUnsupported),
        }
    }

    /// Records the media duration an element discovered.
    pub fn set_media_duration(&mut self, d: u64)
        ensures
            *final(self) == (Graph { media_duration_ns: Some(d), ..*old(self) }),
    {
        self.media_duration_ns = Some(d);
    }

    /// The duration changed: the cache is invalidated and the controller
    /// is told via a duration-changed bus message.
    pub fn duration_changed(&mut self, src: ElementId)
        ensures
            final(self).duration_cache is None,
            final(self).bus.queue@ == old(self).bus.queue@.push(Message {
                src,
                kind: MessageKind::DurationChanged,
            }),
            final(self).elements == old(self).elements,
            final(self).media_duration_ns is None,
            final(self).state == old(self).state,
    {
        self.duration_cache = None;
        self.media_duration_ns = None;
        self.bus.post(Message { src, kind: MessageKind::DurationChanged });
    }

    /// Moves the play cursor; the engine calls this as buffers reach a
    /// sink.
    pub fn advance_position(&mut self, position_ns: u64)
        ensures
            *final(self) == (Graph { position_ns, ..*old(self) }),
    {
        self.position_ns = position_ns;
    }

    /// Sets the rounding unit for key-unit seeks.
    pub fn set_buffer_duration(&mut self, d: u64)
        ensures
            *final(self) == (Graph { buffer_duration_ns: d, ..*old(self) }),
    {
        self.buffer_duration_ns = d;
    }

    /// Seeks to a target time. Unsupported — and a no-op — outside
    /// `Paused`/`Playing` or before any successful position query. With
    /// `key_unit` the target rounds down to the nearest unit boundary,
    /// within one buffer duration of the request; `accurate` asks for
    /// exact positioning at a higher cost, which this engine gives
    /// anyway; `flush` drops every in-flight buffer.
    #[verifier::loop_isolation(false)]
    pub fn seek(&mut self, target_ns: u64, flags: SeekFlags) -> (r: Result<(), EngineError>)
        requires
            old(self).wf(),
        ensures
            final(self).wf(),
            match r {
                Err(e) => e == EngineError::SeekUnsupported
                    && (!old(self).state.spec_is_active() || !old(self).position_known)
                    && *final(self) == *old(self),
                Ok(()) => {
                    &&& old(self).state.spec_is_active()
                    &&& old(self).position_known
                    &&& (if flags.key_unit && old(self).buffer_duration_ns > 0 {
                        final(self).position_ns
                            == target_ns - target_ns % old(self).buffer_duration_ns
                    } else {
                        final(self).position_ns == target_ns
                    })
                    &&& target_ns - final(self).position_ns
                        <= old(self).buffer_duration_ns
                    &&& final(self).position_ns <= target_ns
                    &&& final(self).position_known
                    &&& final(self).state == old(self).state
                    &&& final(self).elements@.len() == old(self).elements@.len()
                    &&& forall|e: int| 0 <= e < old(self).elements@.len() ==> {
                        let fe = #[trigger] final(self).elements@[e];
                        let oe = old(self).elements@[e];
                        &&& fe.pads@.len() == oe.pads@.len()
                        &&& fe.name == oe.name
                        &&& fe.kind == oe.kind
                        &&& fe.state == oe.state
                        &&& fe.props == oe.props
                    }
                    &&& forall|e: int, p: int| final(self).pad_in_range(e, p) ==> {
                        let fp = #[trigger] final(self).pad_at(e, p);
                        let op = old(self).pad_at(e, p);
                        &&& fp.direction == op.direction
                        &&& fp.presence == op.presence
                        &&& fp.peer == op.peer
                        &&& fp.template == op.template
                        &&& fp.negotiated == op.negotiated
                        &&& fp.released == op.released
                        &&& (if flags.flush {
                            fp.delivered@.len() == 0
                        } else {
                            fp.delivered == op.delivered
                        })
                    }
                    &&& final(self).bus == old(self).bus
                    &&& final(self).name == old(self).name
                    &&& final(self).pad_events == old(self).pad_events
                    &&& final(self).media_duration_ns == old(self).media_duration_ns
                    &&& final(self).duration_cache == old(self).duration_cache
                    &&& final(self).buffer_duration_ns == old(self).buffer_duration_ns
                    &&& final(self).pads_blocked == old(self).pads_blocked
                    &&& final(self).pending_async == old(self).pending_async
                },
            },
    {
        if !self.state.is_active() || !self.position_known {
            return Err(EngineError::SeekUnsupported);
        }
        let pos = if flags.key_unit && self.buffer_duration_ns > 0 {
            proof {
                assert(target_ns % self.buffer_duration_ns <= target_ns) by (nonlinear_arith)
                    requires self.buffer_duration_ns > 0;
            }
            target_ns - target_ns % self.buffer_duration_ns
        } else {
            target_ns
        };
        self.position_ns = pos;
        if flags.flush {
            let mut e: usize = 0;
            while e < self.elements.len()
                invariant
                    e <= self.elements@.len(),
                    self.elements@.len() == old(self).elements@.len(),
                    forall|j: int| 0 <= j < self.elements@.len() ==> {
                        let fe = #[trigger] self.elements@[j];
                        let oe = old(self).elements@[j];
                        &&& fe.pads@.len() == oe.pads@.len()
                        &&& fe.name == oe.name
                        &&& fe.kind == oe.kind
                        &&& fe.state == oe.state
                        &&& fe.props == oe.props
                    },
                    forall|j: int, p: int| self.pad_in_range(j, p) ==> {
                        let fp = #[trigger] self.pad_at(j, p);
                        let op = old(self).pad_at(j, p);
                        &&& fp.direction == op.direction
                        &&& fp.presence == op.presence
                        &&& fp.peer == op.peer
                        &&& fp.template == op.template
                        &&& fp.negotiated == op.negotiated
                        &&& fp.released == op.released
                        &&& (if j < e {
                            fp.delivered@.len() == 0
                        } else {
                            fp.delivered == op.delivered
                        })
                    },
                    self.state == old(self).state,
                    self.bus == old(self).bus,
                    self.position_ns == pos,
                    self.position_known,
                    self.name == old(self).name,
                    self.pad_events == old(self).pad_events,
                    self.media_duration_ns == old(self).media_duration_ns,
                    self.duration_cache == old(self).duration_cache,
                    self.buffer_duration_ns == old(self).buffer_duration_ns,
                    self.pads_blocked == old(self).pads_blocked,
                    self.pending_async == old(self).pending_async,
                decreases self.elements@.len() - e,
            {
                let mut p: usize = 0;
                while p < self.elements[e].pads.len()
                    invariant
                        e < self.elements@.len(),
                        p <= self.elements@[e as int].pads@.len(),
                        self.elements@.len() == old(self).elements@.len(),
                        forall|j: int| 0 <= j < self.elements@.len() ==> {
                            let fe = #[trigger] self.elements@[j];
                            let oe = old(self).elements@[j];
                            &&& fe.pads@.len() == oe.pads@.len()
                            &&& fe.name == oe.name
                            &&& fe.kind == oe.kind
                            &&& fe.state == oe.state
                            &&& fe.props == oe.props
                        },
                        forall|j: int, q: int| self.pad_in_range(j, q) ==> {
                            let fp = #[trigger] self.pad_at(j, q);
                            let op = old(self).pad_at(j, q);
                            &&& fp.direction == op.direction
                            &&& fp.presence == op.presence
                            &&& fp.peer == op.peer
                            &&& fp.template == op.template
                            &&& fp.negotiated == op.negotiated
                            &&& fp.released == op.released
                            &&& (if j < e || (j == e && q < p) {
                                fp.delivered@.len() == 0
                            } else {
                                fp.delivered == op.delivered
                            })
                        },
                        self.state == old(self).state,
                        self.bus == old(self).bus,
                        self.position_ns == pos,
                        self.position_known,
                        self.name == old(self).name,
                        self.pad_events == old(self).pad_events,
                        self.media_duration_ns == old(self).media_duration_ns,
                        self.duration_cache == old(self).duration_cache,
                        self.buffer_duration_ns == old(self).buffer_duration_ns,
                        self.pads_blocked == old(self).pads_blocked,
                        self.pending_async == old(self).pending_async,
                    decreases self.elements@[e as int].pads@.len() - p,
                {
                    let ghost prev = *self;
                    self.elements[e].pads[p].delivered.clear();
                    proof {
                        assert forall|j: int, q: int| self.pad_in_range(j, q)
                            && !(j == e as int && q == p as int)
                            implies #[trigger] self.pad_at(j, q) == prev.pad_at(j, q) by {
                            if j != e as int {
                                assert(self.elements@[j] == prev.elements@[j]);
                            }
                        }
                        assert(self.pad_at(e as int, p as int).delivered@.len() == 0);
                        let fp = self.pad_at(e as int, p as int);
                        let pp = prev.pad_at(e as int, p as int);
                        assert(fp.direction == pp.direction && fp.presence == pp.presence
                            && fp.peer == pp.peer && fp.template == pp.template
                            && fp.negotiated == pp.negotiated && fp.released == pp.released);
                    }
                    p = p + 1;
                }
                e = e + 1;
            }
        }
        proof {
            assert forall|e: int, p: int| self.pad_in_range(e, p) implies
                #[trigger] self.pad_ok(e, p) by {
                assert(old(self).pad_ok(e, p));
            }
        }
        Ok(())
    }

    /// Blocks pad mutation guards, allowing request pads to be added or
    /// released during active flow.
    pub fn block_pads(&mut self)
        ensures
            *final(self) == (Graph { pads_blocked: true, ..*old(self) }),
    {
        self.pads_blocked = true;
    }

    /// Releases the pad block.
    pub fn unblock_pads(&mut self)
        ensures
            *final(self) == (Graph { pads_blocked: false, ..*old(self) }),
    {
        self.pads_blocked = false;
    }

    /// Requests a fan-out branch from a tee: a fresh source pad created
    /// on demand. Adding a branch during active flow without pad
    /// blocking is flagged `ConcurrentPadMutation` and changes nothing.
    pub fn request_branch(&mut self, tee: ElementId) -> (r: Result<PadRef, EngineError>)
        requires
            old(self).wf(),
            tee.0 < old(self).elements@.len(),
            old(self).elements@[tee.0 as int].kind == ElementKind::Tee,
        ensures
            final(self).wf(),
            match r {
                Err(e) => e == EngineError::ConcurrentPadMutation
                    && old(self).state.spec_is_active() && !old(self).pads_blocked
                    && *final(self) == *old(self),
                Ok(p) => {
                    &&& !(old(self).state.spec_is_active() && !old(self).pads_blocked)
                    &&& p == (PadRef {
                        element: tee.0,
                        pad: old(self).elements@[tee.0 as int].pads@.len() as usize,
                    })
                    &&& final(self).elements@.len() == old(self).elements@.len()
                    &&& final(self).elements@[tee.0 as int].pads@
                        == old(self).elements@[tee.0 as int].pads@.push(
                            final(self).pad_at(p.element as int, p.pad as int))
                    &&& final(self).pad_at(p.element as int, p.pad as int).direction
                        == PadDirection::Source
                    &&& final(self).pad_at(p.element as int, p.pad as int).presence
                        == PadPresence::Request
                    &&& final(self).pad_at(p.element as int, p.pad as int).peer is None
                    &&& final(self).pad_at(p.element as int, p.pad as int).delivered@.len()
                        == 0
                    &&& !final(self).pad_at(p.element as int, p.pad as int).released
                    &&& forall|e: int| 0 <= e < old(self).elements@.len()
                        && e != tee.0 as int
                        ==> #[trigger] final(self).elements@[e] == old(self).elements@[e]
                    &&& forall|q: int| 0 <= q < old(self).elements@[tee.0 as int].pads@.len()
                        ==> #[trigger] final(self).pad_at(tee.0 as int, q)
                            == old(self).pad_at(tee.0 as int, q)
                    &&& final(self).state == old(self).state
                    &&& final(self).bus == old(self).bus
                },
            },
    {
        if self.state.is_active() && !self.pads_blocked {
            return Err(EngineError::ConcurrentPadMutation);
        }
        let idx = self.elements[tee.0].pads.len();
        self.elements[tee.0].pads.push(Pad::new(PadDirection::Source, PadPresence::Request,
            Capability::any()));
        proof {
            assert forall|e: int, p: int| self.pad_in_range(e, p) implies
                #[trigger] self.pad_ok(e, p) by {
                if e == tee.0 as int && p == idx as int {
                } else {
                    assert(old(self).pad_ok(e, p));
                    assert(self.pad_at(e, p) == old(self).pad_at(e, p));
                    match self.pad_at(e, p).peer {
                        Some(w) => {
                            assert(old(self).pad_in_range(w.element as int, w.pad as int));
                            assert(self.pad_at(w.element as int, w.pad as int)
                                == old(self).pad_at(w.element as int, w.pad as int));
                        },
                        None => {},
                    }
                }
            }
        }
        Ok(PadRef { element: tee.0, pad: idx })
    }

    /// Releases a requested branch, unlinking it from any peer first; the
    /// pad stays as an inert placeholder so other pads keep their
    /// identities. Removal during active flow without pad blocking is
    /// flagged `ConcurrentPadMutation` and changes nothing.
    pub fn release_branch(&mut self, pad: PadRef) -> (r: Result<(), EngineError>)
        requires
            old(self).wf(),
            old(self).pad_in_range(pad.element as int, pad.pad as int),
            old(self).pad_at(pad.element as int, pad.pad as int).presence
                == PadPresence::Request,
        ensures
            final(self).wf(),
            match r {
                Err(e) => e == EngineError::ConcurrentPadMutation
                    && old(self).state.spec_is_active() && !old(self).pads_blocked
                    && *final(self) == *old(self),
                Ok(()) => {
                    &&& !(old(self).state.spec_is_active() && !old(self).pads_blocked)
                    &&& final(self).pad_at(pad.element as int, pad.pad as int).released
                    &&& final(self).pad_at(pad.element as int, pad.pad as int).peer is None
                    &&& final(self).pad_at(pad.element as int, pad.pad as int).negotiated
                        is None
                    &&& match old(self).pad_at(pad.element as int, pad.pad as int).peer {
                        None => forall|e: int, p: int| final(self).pad_in_range(e, p)
                            && !(e == pad.element as int && p == pad.pad as int)
                            ==> #[trigger] final(self).pad_at(e, p)
                                == old(self).pad_at(e, p),
                        Some(q) => {
                            &&& final(self).pad_at(q.element as int, q.pad as int).peer
                                is None
                            &&& final(self).pad_at(q.element as int, q.pad as int)
                                .negotiated is None
                            &&& forall|e: int, p: int| final(self).pad_in_range(e, p)
                                && !(e == pad.element as int && p == pad.pad as int)
                                && !(e == q.element as int && p == q.pad as int)
                                ==> #[trigger] final(self).pad_at(e, p)
                                    == old(self).pad_at(e, p)
                        },
                    }
                    &&& final(self).elements@.len() == old(self).elements@.len()
                    &&& final(self).state == old(self).state
                    &&& final(self).bus == old(self).bus
                },
            },
    {
        if self.state.is_active() && !self.pads_blocked {
            return Err(EngineError::ConcurrentPadMutation);
        }
        self.unlink(pad);
        let ghost mid = *self;
        proof {
            assert(mid.pad_ok(pad.element as int, pad.pad as int));
        }
        self.elements[pad.element].pads[pad.pad].released = true;
        proof {
            self.lemma_pads_untouched_wf(mid, pad.element as int, pad.pad as int);
            assert forall|e: int, p: int| self.pad_in_range(e, p)
                && !(e == pad.element as int && p == pad.pad as int)
                implies #[trigger] self.pad_at(e, p) == mid.pad_at(e, p) by {
                if e != pad.element as int {
                    assert(self.elements@[e] == mid.elements@[e]);
                }
            }
            match old(self).pad_at(pad.element as int, pad.pad as int).peer {
                Some(q) => {
                    // a pad never peers itself: the directions differ
                    assert(old(self).pad_ok(pad.element as int, pad.pad as int));
                    if q.element as int == pad.element as int
                        && q.pad as int == pad.pad as int {
                        assert(false);
                    }
                    assert(self.pad_at(q.element as int, q.pad as int)
                        == mid.pad_at(q.element as int, q.pad as int));
                },
                None => {},
            }
        }
        Ok(())
    }

    /// Whether pad `p` of element `e` is a live fan-out branch: a linked,
    /// unreleased source pad.
    pub open spec fn live_branch(self, e: int, p: int) -> bool {
        &&& self.pad_at(e, p).direction == PadDirection::Source
        &&& self.pad_at(e, p).peer is Some
        &&& !self.pad_at(e, p).released
    }

    /// How many of the first `n` pads of element `e` are live branches.
    pub open spec fn count_live_branches(self, e: int, n: int) -> nat
        decreases n,
    {
        if n <= 0 {
            0
        } else {
            self.count_live_branches(e, n - 1) + if self.live_branch(e, n - 1) {
                1nat
            } else {
                0nat
            }
        }
    }

    /// Fan-out: hands one copy of the buffer to every live branch of the
    /// tee — every linked source pad gets the buffer appended to its
    /// in-flight queue exactly once; no other pad changes. Returns the
    /// number of branches that received it: exactly the live ones.
    #[verifier::loop_isolation(false)]
    pub fn tee_deliver(&mut self, tee: ElementId, buf: &Buffer) -> (n: usize)
        requires
            old(self).wf(),
            tee.0 < old(self).elements@.len(),
            old(self).elements@[tee.0 as int].kind == ElementKind::Tee,
        ensures
            final(self).wf(),
            final(self).elements@.len() == old(self).elements@.len(),
            forall|e: int| 0 <= e < old(self).elements@.len() && e != tee.0 as int
                ==> #[trigger] final(self).elements@[e] == old(self).elements@[e],
            final(self).elements@[tee.0 as int].pads@.len()
                == old(self).elements@[tee.0 as int].pads@.len(),
            forall|p: int| 0 <= p < old(self).elements@[tee.0 as int].pads@.len()
                && !old(self).live_branch(tee.0 as int, p)
                ==> #[trigger] final(self).pad_at(tee.0 as int, p)
                    == old(self).pad_at(tee.0 as int, p),
            forall|p: int| 0 <= p < old(self).elements@[tee.0 as int].pads@.len()
                && old(self).live_branch(tee.0 as int, p) ==> {
                let fp = #[trigger] final(self).pad_at(tee.0 as int, p);
                let op = old(self).pad_at(tee.0 as int, p);
                &&& fp.delivered@.len() == op.delivered@.len() + 1
                &&& forall|i: int| 0 <= i < op.delivered@.len()
                    ==> #[trigger] fp.delivered@[i] == op.delivered@[i]
                &&& fp.delivered@.last().pts == buf.pts
                &&& fp.delivered@.last().duration == buf.duration
                &&& fp.delivered@.last().data@ == buf.data@
                &&& fp.direction == op.direction
                &&& fp.presence == op.presence
                &&& fp.peer == op.peer
                &&& fp.template == op.template
                &&& fp.negotiated == op.negotiated
                &&& fp.released == op.released
            },
            n == old(self).count_live_branches(tee.0 as int,
                old(self).elements@[tee.0 as int].pads@.len() as int),
            final(self).state == old(self).state,
            final(self).bus == old(self).bus,
    {
        let mut n: usize = 0;
        let mut p: usize = 0;
        let ghost tlen = old(self).elements@[tee.0 as int].pads@.len();
        while p < self.elements[tee.0].pads.len()
            invariant
                p <= tlen,
                self.elements@.len() == old(self).elements@.len(),
                self.elements@[tee.0 as int].pads@.len() == tlen,
                forall|e: int| 0 <= e < old(self).elements@.len() && e != tee.0 as int
                    ==> #[trigger] self.elements@[e] == old(self).elements@[e],
                self.elements@[tee.0 as int].name == old(self).elements@[tee.0 as int].name,
                self.elements@[tee.0 as int].kind == old(self).elements@[tee.0 as int].kind,
                self.elements@[tee.0 as int].state
                    == old(self).elements@[tee.0 as int].state,
                n == old(self).count_live_branches(tee.0 as int, p as int),
                n <= p,
                forall|q: int| p <= q < tlen
                    ==> #[trigger] self.pad_at(tee.0 as int, q)
                        == old(self).pad_at(tee.0 as int, q),
                forall|q: int| 0 <= q < p && !old(self).live_branch(tee.0 as int, q)
                    ==> #[trigger] self.pad_at(tee.0 as int, q)
                        == old(self).pad_at(tee.0 as int, q),
                forall|q: int| 0 <= q < p && old(self).live_branch(tee.0 as int, q) ==> {
                    let fp = #[trigger] self.pad_at(tee.0 as int, q);
                    let op = old(self).pad_at(tee.0 as int, q);
                    &&& fp.delivered@.len() == op.delivered@.len() + 1
                    &&& forall|i: int| 0 <= i < op.delivered@.len()
                        ==> #[trigger] fp.delivered@[i] == op.delivered@[i]
                    &&& fp.delivered@.last().pts == buf.pts
                    &&& fp.delivered@.last().duration == buf.duration
                    &&& fp.delivered@.last().data@ == buf.data@
                    &&& fp.direction == op.direction
                    &&& fp.presence == op.presence
                    &&& fp.peer == op.peer
                    &&& fp.template == op.template
                    &&& fp.negotiated == op.negotiated
                    &&& fp.released == op.released
                },
                self.state == old(self).state,
                self.bus == old(self).bus,
                self.position_ns == old(self).position_ns,
                self.position_known == old(self).position_known,
                self.pad_events@ == old(self).pad_events@,
                self.pending_async == old(self).pending_async,
                self.pads_blocked == old(self).pads_blocked,
            decreases tlen - p,
        {
            proof {
                assert(self.pad_at(tee.0 as int, p as int)
                    == old(self).pad_at(tee.0 as int, p as int));
            }
            let pad = &self.elements[tee.0].pads[p];
            let is_src = match pad.direction {
                PadDirection::Source => true,
                _ => false,
            };
            let ghost was_live = old(self).live_branch(tee.0 as int, p as int);
            if is_src && pad.peer.is_some() && !pad.released {
                let copy = buf.duplicate();
                let ghost prev = *self;
                self.elements[tee.0].pads[p].delivered.push(copy);
                proof {
                    assert forall|j: int, q: int| self.pad_in_range(j, q)
                        && !(j == tee.0 as int && q == p as int)
                        implies #[trigger] self.pad_at(j, q) == prev.pad_at(j, q) by {
                        if j != tee.0 as int {
                            assert(self.elements@[j] == prev.elements@[j]);
                        }
                    }
                }
                n = n + 1;
                proof {
                    assert(was_live);
                }
            } else {
                proof {
                    assert(!was_live);
                }
            }
            proof {
                assert(old(self).count_live_branches(tee.0 as int, p + 1)
                    == old(self).count_live_branches(tee.0 as int, p as int)
                        + if was_live { 1nat } else { 0nat });
            }
            p = p + 1;
        }
        proof {
            assert forall|e: int, p2: int| self.pad_in_range(e, p2) implies
                #[trigger] self.pad_ok(e, p2) by {
                assert(old(self).pad_ok(e, p2));
                let fp = self.pad_at(e, p2);
                let op = old(self).pad_at(e, p2);
                assert(fp.direction == op.direction && fp.peer == op.peer
                    && fp.template == op.template && fp.negotiated == op.negotiated
                    && fp.released == op.released);
                match fp.peer {
                    Some(w) => {
                        assert(self.pad_at(w.element as int, w.pad as int).peer
                            == old(self).pad_at(w.element as int, w.pad as int).peer);
                        assert(self.pad_at(w.element as int, w.pad as int).direction
                            == old(self).pad_at(w.element as int, w.pad as int).direction);
                    },
                    None => {},
                }
            }
        }
        n
    }

    /// A Sometimes pad appears: the element has inspected enough data to
    /// reveal a new endpoint. The pad joins the element and a
    /// "pad appeared" notification joins the subscription channel.
    pub fn reveal_sometimes_pad(&mut self, elem: ElementId, direction: PadDirection,
        template: Capability) -> (r: PadRef)
        requires
            old(self).wf(),
            elem.0 < old(self).elements@.len(),
            template@.wf(),
        ensures
            final(self).wf(),
            r == (PadRef {
                element: elem.0,
                pad: old(self).elements@[elem.0 as int].pads@.len() as usize,
            }),
            final(self).elements@.len() == old(self).elements@.len(),
            final(self).pad_at(r.element as int, r.pad as int).direction == direction,
            final(self).pad_at(r.element as int, r.pad as int).presence
                == PadPresence::Sometimes,
            final(self).pad_at(r.element as int, r.pad as int).template == template,
            final(self).pad_at(r.element as int, r.pad as int).peer is None,
            forall|e: int| 0 <= e < old(self).elements@.len() && e != elem.0 as int
                ==> #[trigger] final(self).elements@[e] == old(self).elements@[e],
            forall|q: int| 0 <= q < old(self).elements@[elem.0 as int].pads@.len()
                ==> #[trigger] final(self).pad_at(elem.0 as int, q)
                    == old(self).pad_at(elem.0 as int, q),
            final(self).pad_events@ == old(self).pad_events@.push(PadEvent { pad: r }),
            final(self).state == old(self).state,
            final(self).bus == old(self).bus,
    {
        let idx = self.elements[elem.0].pads.len();
        self.elements[elem.0].pads.push(Pad::new(direction, PadPresence::Sometimes,
            template));
        let r = PadRef { element: elem.0, pad: idx };
        self.pad_events.push(PadEvent { pad: r });
        proof {
            assert forall|e: int, p: int| self.pad_in_range(e, p) implies
                #[trigger] self.pad_ok(e, p) by {
                if e == elem.0 as int && p == idx as int {
                } else {
                    assert(old(self).pad_ok(e, p));
                    assert(self.pad_at(e, p) == old(self).pad_at(e, p));
                    match self.pad_at(e, p).peer {
                        Some(w) => {
                            assert(old(self).pad_in_range(w.element as int, w.pad as int));
                            assert(self.pad_at(w.element as int, w.pad as int)
                                == old(self).pad_at(w.element as int, w.pad as int));
                        },
                        None => {},
                    }
                }
            }
        }
        r
    }

    /// The oldest pending "pad appeared" notification, if any.
    pub fn next_pad_event(&mut self) -> (r: Option<PadEvent>)
        ensures
            match r {
                None => old(self).pad_events@.len() == 0 && *final(self) == *old(self),
                Some(ev) => old(self).pad_events@.len() > 0
                    && ev == old(self).pad_events@[0]
                    && final(self).pad_events@ == old(self).pad_events@.subrange(
                        1, old(self).pad_events@.len() as int)
                    && final(self).elements == old(self).elements
                    && final(self).bus == old(self).bus
                    && final(self).state == old(self).state,
            },
    {
        if self.pad_events.len() == 0 {
            None
        } else {
            Some(self.pad_events.remove(0))
        }
    }
}

} // verus!
