use mediagraph::caps::{CapStructure, Capability, FieldKey, FieldValue, FormatName};
use mediagraph::controller::{
    on_pad_added, should_stop, ControllerAction, LinkDecision, SessionState, SEEK_TARGET_NS,
};
use mediagraph::element::{
    element_kind_named, Element, ElementKind, PadDirection, PadRef, PropKey, PropValue,
};
use mediagraph::graph::{graph_src, Graph, StateChangeOutcome};
use mediagraph::message::{ElementId, Message, MessageKind};
use mediagraph::types::{EngineError, SeekFlags, State};

fn fixed_audio_cap() -> Capability {
    let mut st = CapStructure::new(FormatName::AudioRaw);
    assert!(st.add_field(FieldKey::Rate, FieldValue::Fixed(44100)));
    Capability::single(st)
}

fn fixed_video_cap() -> Capability {
    Capability::single(CapStructure::new(FormatName::VideoRaw))
}

fn pad(e: ElementId, p: usize) -> PadRef {
    PadRef { element: e.0, pad: p }
}

#[test]
fn link_incompatible_leaves_pads_unlinked() {
    let mut g = Graph::new(String::from("p"));
    let src = g.add(Element::new(ElementKind::PushSource, String::from("src")));
    let snk = g.add(Element::new(ElementKind::PullSink, String::from("snk")));
    g.set_pad_template(pad(src, 0), fixed_audio_cap());
    g.set_pad_template(pad(snk, 0), fixed_video_cap());
    let r = g.link(pad(src, 0), pad(snk, 0));
    assert_eq!(r, Err(EngineError::LinkIncompatible));
    assert!(!g.is_linked(pad(src, 0)));
    assert!(!g.is_linked(pad(snk, 0)));
}

#[test]
fn link_records_reciprocal_peers_and_unlink_is_idempotent() {
    let mut g = Graph::new(String::from("p"));
    let src = g.add(Element::new(ElementKind::PushSource, String::from("src")));
    let snk = g.add(Element::new(ElementKind::PullSink, String::from("snk")));
    assert_eq!(g.link(pad(src, 0), pad(snk, 0)), Ok(()));
    assert!(g.is_linked(pad(src, 0)));
    assert!(g.is_linked(pad(snk, 0)));
    g.unlink(pad(snk, 0));
    assert!(!g.is_linked(pad(src, 0)));
    assert!(!g.is_linked(pad(snk, 0)));
    g.unlink(pad(snk, 0));
    assert!(!g.is_linked(pad(snk, 0)));
}

#[test]
fn negotiate_fixes_the_flowing_capability() {
    let mut g = Graph::new(String::from("p"));
    let src = g.add(Element::new(ElementKind::PushSource, String::from("src")));
    let snk = g.add(Element::new(ElementKind::PullSink, String::from("snk")));
    let mut st = CapStructure::new(FormatName::AudioRaw);
    assert!(st.add_field(FieldKey::Rate, FieldValue::range_of(8000, 48000).unwrap()));
    g.set_pad_template(pad(src, 0), Capability::single(st));
    g.set_pad_template(pad(snk, 0), fixed_audio_cap());
    assert_eq!(g.link(pad(src, 0), pad(snk, 0)), Ok(()));
    assert!(!g.current_capability(pad(src, 0)).is_fixed());
    assert_eq!(g.negotiate(pad(src, 0)), Ok(()));
    assert!(g.current_capability(pad(src, 0)).is_fixed());
    assert!(g.current_capability(pad(snk, 0)).is_fixed());
}

#[test]
fn negotiation_failure_is_posted_on_the_bus() {
    let mut g = Graph::new(String::from("p"));
    let src = g.add(Element::new(ElementKind::PushSource, String::from("src")));
    let snk = g.add(Element::new(ElementKind::PullSink, String::from("snk")));
    // both templates stay ANY: the intersection cannot fixate
    assert_eq!(g.link(pad(src, 0), pad(snk, 0)), Ok(()));
    assert_eq!(g.negotiate(pad(src, 0)), Err(EngineError::NegotiationFailed));
    let msg = g.bus.pop_blocking().unwrap();
    assert!(matches!(
        msg.kind,
        MessageKind::ErrorReport { code: EngineError::NegotiationFailed, .. }
    ));
}

#[test]
fn tee_delivers_every_buffer_to_every_branch_exactly_once() {
    for n in [0usize, 1, 2, 8] {
        let mut g = Graph::new(String::from("p"));
        let tee = g.add(Element::new(ElementKind::Tee, String::from("tee")));
        let mut branches = Vec::new();
        for i in 0..n {
            let q = g.add(Element::new(ElementKind::Queue, format!("queue-{}", i)));
            let b = g.request_branch(tee).unwrap();
            assert_eq!(g.link(b, pad(q, 0)), Ok(()));
            branches.push(b);
        }
        let bufs = 3usize;
        for k in 0..bufs {
            let buf = mediagraph::types::Buffer {
                pts: k as u64,
                duration: 1,
                data: vec![k as u8],
            };
            let delivered_to = g.tee_deliver(tee, &buf);
            assert_eq!(delivered_to, n);
        }
        for b in &branches {
            let log = &g.elements[b.element].pads[b.pad].delivered;
            assert_eq!(log.len(), bufs);
            for k in 0..bufs {
                assert_eq!(log[k].pts, k as u64);
                assert_eq!(log[k].data, vec![k as u8]);
            }
        }
    }
}

#[test]
fn pad_mutation_during_flow_needs_blocking() {
    let mut g = Graph::new(String::from("p"));
    let tee = g.add(Element::new(ElementKind::Tee, String::from("tee")));
    let q = g.add(Element::new(ElementKind::Queue, String::from("q")));
    let b = g.request_branch(tee).unwrap();
    assert_eq!(g.link(b, pad(q, 0)), Ok(()));
    g.set_state(State::Playing);
    assert_eq!(g.request_branch(tee), Err(EngineError::ConcurrentPadMutation));
    g.block_pads();
    let b2 = g.request_branch(tee).unwrap();
    g.unlink(b2);
    assert_eq!(g.release_branch(b2), Ok(()));
    g.unblock_pads();
    assert_eq!(g.release_branch(b2), Err(EngineError::ConcurrentPadMutation));
}

#[test]
fn starting_passes_through_ready_and_paused_observably() {
    let mut g = Graph::new(String::from("p"));
    let src = g.add(Element::new(ElementKind::PushSource, String::from("src")));
    let snk = g.add(Element::new(ElementKind::PullSink, String::from("snk")));
    assert_eq!(g.link(pad(src, 0), pad(snk, 0)), Ok(()));
    let outcome = g.set_state(State::Playing);
    // a pull sink confirms asynchronously
    assert_eq!(outcome, StateChangeOutcome::Async);
    let expected = [
        (State::Null, State::Ready),
        (State::Ready, State::Paused),
        (State::Paused, State::Playing),
    ];
    for (o, n) in expected {
        let msg = g.bus.pop_blocking().unwrap();
        assert_eq!(msg.src, graph_src());
        match msg.kind {
            MessageKind::StateChanged { old_state, new_state } => {
                assert_eq!(old_state, o);
                assert_eq!(new_state, n);
            },
            other => panic!("unexpected message {:?}", other),
        }
    }
    g.async_done();
    let msg = g.bus.pop_blocking().unwrap();
    assert!(matches!(msg.kind, MessageKind::AsyncDone));
}

#[test]
fn unlinked_element_fails_locally_via_bus_error() {
    let mut g = Graph::new(String::from("p"));
    let lone = g.add(Element::new(ElementKind::Queue, String::from("lone")));
    g.set_state(State::Playing);
    let msg = g.bus.pop_blocking().unwrap();
    assert_eq!(msg.src, ElementId(lone.0));
    assert!(matches!(
        msg.kind,
        MessageKind::ErrorReport { code: EngineError::StateChangeFailed, .. }
    ));
    // the element is held at Ready while the graph reports Playing
    assert_eq!(g.elements[lone.0].state, State::Ready);
    assert_eq!(g.state, State::Playing);
}

#[test]
fn returning_to_null_releases_negotiation_and_request_pads() {
    let mut g = Graph::new(String::from("p"));
    let src = g.add(Element::new(ElementKind::PushSource, String::from("src")));
    let tee = g.add(Element::new(ElementKind::Tee, String::from("tee")));
    let q = g.add(Element::new(ElementKind::Queue, String::from("q")));
    g.set_pad_template(pad(src, 0), fixed_audio_cap());
    assert_eq!(g.link(pad(src, 0), pad(tee, 0)), Ok(()));
    let branch = g.request_branch(tee).unwrap();
    assert_eq!(g.link(branch, pad(q, 0)), Ok(()));
    assert_eq!(g.negotiate(pad(src, 0)), Ok(()));
    g.set_state(State::Playing);
    g.set_state(State::Null);
    // every negotiated capability is released, the request pad too
    assert!(!g.is_linked(pad(src, 0)));
    assert!(!g.is_linked(branch));
    assert!(g.elements[src.0].pads[0].negotiated.is_none());
    assert!(g.elements[branch.element].pads[branch.pad].released);
    assert_eq!(g.state, State::Null);
}

#[test]
fn seek_before_position_query_is_unsupported() {
    let mut g = Graph::new(String::from("p"));
    g.set_state(State::Playing);
    while g.bus.pop_timed(0).unwrap().is_some() {}
    let flags = SeekFlags { flush: false, key_unit: false, accurate: true };
    assert_eq!(g.seek(5_000_000_000, flags), Err(EngineError::SeekUnsupported));
}

#[test]
fn seek_outside_active_states_is_unsupported() {
    let mut g = Graph::new(String::from("p"));
    let flags = SeekFlags { flush: false, key_unit: false, accurate: false };
    assert_eq!(g.seek(1, flags), Err(EngineError::SeekUnsupported));
}

#[test]
fn seek_after_position_query_lands_within_one_buffer_duration() {
    let mut g = Graph::new(String::from("p"));
    g.set_buffer_duration(11_609_977);
    g.set_state(State::Playing);
    g.advance_position(12_000_000_000);
    assert_eq!(g.query_position(), Ok(12_000_000_000));
    let flags = SeekFlags { flush: true, key_unit: true, accurate: false };
    assert_eq!(g.seek(SEEK_TARGET_NS, flags), Ok(()));
    let p = g.query_position().unwrap();
    assert!(p <= SEEK_TARGET_NS);
    assert!(SEEK_TARGET_NS - p <= 11_609_977);
}

#[test]
fn queries_are_unsupported_outside_playing() {
    let mut g = Graph::new(String::from("p"));
    assert_eq!(g.query_position(), Err(EngineError::QueryUnsupported));
    assert_eq!(g.query_duration(), Err(EngineError::QueryUnsupported));
}

#[test]
fn duration_is_cached_until_invalidated() {
    let mut g = Graph::new(String::from("p"));
    g.set_state(State::Playing);
    g.set_media_duration(52_000_000_000);
    assert_eq!(g.query_duration(), Ok(Some(52_000_000_000)));
    g.set_media_duration(99_000_000_000);
    // the first success is cached
    assert_eq!(g.query_duration(), Ok(Some(52_000_000_000)));
    g.duration_changed(ElementId(0));
    assert_eq!(g.query_duration(), Ok(None));
}

#[test]
fn sometimes_pad_raises_a_notification() {
    let mut g = Graph::new(String::from("p"));
    let demux = g.add(Element::new(ElementKind::Passthrough, String::from("demux")));
    assert!(g.next_pad_event().is_none());
    let newpad = g.reveal_sometimes_pad(demux, PadDirection::Source, fixed_audio_cap());
    let ev = g.next_pad_event().unwrap();
    assert_eq!(ev.pad, newpad);
    assert!(g.next_pad_event().is_none());
    assert!(!g.pad_template(newpad).is_any());
}

#[test]
fn pad_added_decisions() {
    let audio = fixed_audio_cap();
    assert_eq!(on_pad_added(true, &audio, FormatName::AudioRaw), LinkDecision::AlreadyLinked);
    assert_eq!(on_pad_added(false, &audio, FormatName::AudioRaw), LinkDecision::Attempt);
    assert_eq!(on_pad_added(false, &audio, FormatName::VideoRaw), LinkDecision::WrongType);
    assert_eq!(
        on_pad_added(false, &Capability::none(), FormatName::AudioRaw),
        LinkDecision::WrongType
    );
}

#[test]
fn release_branch_unlinks_its_peer_first() {
    let mut g = Graph::new(String::from("p"));
    let tee = g.add(Element::new(ElementKind::Tee, String::from("tee")));
    let q = g.add(Element::new(ElementKind::Queue, String::from("q")));
    let b = g.request_branch(tee).unwrap();
    assert_eq!(g.link(b, pad(q, 0)), Ok(()));
    // releasing a still-linked branch unlinks both ends
    assert_eq!(g.release_branch(b), Ok(()));
    assert!(!g.is_linked(b));
    assert!(!g.is_linked(pad(q, 0)));
    assert!(g.elements[b.element].pads[b.pad].released);
}

#[test]
fn element_state_requests_are_observable_per_element() {
    let mut g = Graph::new(String::from("p"));
    let src = g.add(Element::new(ElementKind::PushSource, String::from("src")));
    let snk = g.add(Element::new(ElementKind::PullSink, String::from("snk")));
    assert_eq!(g.link(pad(src, 0), pad(snk, 0)), Ok(()));
    // the sink confirms asynchronously; the source synchronously
    assert_eq!(g.set_element_state(snk, State::Playing), StateChangeOutcome::Async);
    assert_eq!(g.set_element_state(src, State::Ready), StateChangeOutcome::Success);
    assert_eq!(g.elements[snk.0].state, State::Playing);
    assert_eq!(g.elements[src.0].state, State::Ready);
    // the graph's own state is untouched
    assert_eq!(g.state, State::Null);
    let expected = [
        (snk, State::Null, State::Ready),
        (snk, State::Ready, State::Paused),
        (snk, State::Paused, State::Playing),
        (src, State::Null, State::Ready),
    ];
    for (who, o, n) in expected {
        let msg = g.bus.pop_blocking().unwrap();
        assert_eq!(msg.src, who);
        match msg.kind {
            MessageKind::StateChanged { old_state, new_state } => {
                assert_eq!(old_state, o);
                assert_eq!(new_state, n);
            },
            other => panic!("unexpected message {:?}", other),
        }
    }
}

#[test]
fn element_without_required_link_is_held_at_ready() {
    let mut g = Graph::new(String::from("p"));
    let lone = g.add(Element::new(ElementKind::Queue, String::from("lone")));
    assert_eq!(g.set_element_state(lone, State::Playing), StateChangeOutcome::Success);
    let msg = g.bus.pop_blocking().unwrap();
    assert_eq!(msg.src, ElementId(lone.0));
    assert!(matches!(
        msg.kind,
        MessageKind::ErrorReport { code: EngineError::StateChangeFailed, .. }
    ));
    assert_eq!(g.elements[lone.0].state, State::Ready);
}

#[test]
fn element_names_can_be_looked_up() {
    let mut g = Graph::new(String::from("p"));
    let tee = g.add(Element::new(ElementKind::Tee, String::from("tee")));
    let q = g.add(Element::new(ElementKind::Queue, String::from("audio-queue")));
    assert_eq!(g.find_element_named("tee"), Some(tee));
    assert_eq!(g.find_element_named("audio-queue"), Some(q));
    assert_eq!(g.find_element_named("video-queue"), None);
}

#[test]
fn link_many_links_adjacent_pairs() {
    let mut g = Graph::new(String::from("p"));
    let src = g.add(Element::new(ElementKind::PushSource, String::from("src")));
    let conv = g.add(Element::new(ElementKind::FormatConverter, String::from("conv")));
    let rs = g.add(Element::new(ElementKind::Resampler, String::from("rs")));
    let snk = g.add(Element::new(ElementKind::PullSink, String::from("snk")));
    let chain = vec![src, conv, rs, snk];
    assert_eq!(g.link_many(&chain), Ok(()));
    assert!(g.is_linked(pad(src, 0)));
    assert!(g.is_linked(pad(conv, 0)));
    assert!(g.is_linked(pad(conv, 1)));
    assert!(g.is_linked(pad(rs, 0)));
    assert!(g.is_linked(pad(rs, 1)));
    assert!(g.is_linked(pad(snk, 0)));
    // a sink has no source pad to continue the chain from
    let too_long = vec![snk, src];
    assert_eq!(g.link_many(&too_long), Err(EngineError::LinkIncompatible));
}

#[test]
fn properties_follow_each_kinds_schema() {
    let mut g = Graph::new(String::from("p"));
    let src = g.add(Element::new(ElementKind::PushSource, String::from("src")));
    let tee = g.add(Element::new(ElementKind::Tee, String::from("tee")));
    assert!(g.set_property(src, PropKey::Frequency, PropValue::Int(215)));
    assert!(!g.set_property(src, PropKey::Frequency, PropValue::Text(String::from("x"))));
    assert!(!g.set_property(src, PropKey::Uri, PropValue::Text(String::from("x"))));
    assert!(!g.set_property(tee, PropKey::Frequency, PropValue::Int(1)));
    // the latest setting wins
    assert!(g.set_property(src, PropKey::Frequency, PropValue::Int(440)));
    assert_eq!(
        g.elements[src.0].get_property(PropKey::Frequency),
        Some(&PropValue::Int(440))
    );
    assert_eq!(g.elements[src.0].get_property(PropKey::Volume), None);
}

#[test]
fn element_kinds_resolve_by_name() {
    assert_eq!(element_kind_named("tee"), Ok(ElementKind::Tee));
    assert_eq!(element_kind_named("push-source"), Ok(ElementKind::PushSource));
    assert_eq!(element_kind_named("pull-sink"), Ok(ElementKind::PullSink));
    assert_eq!(element_kind_named("queue"), Ok(ElementKind::Queue));
    assert_eq!(element_kind_named("format-converter"), Ok(ElementKind::FormatConverter));
    assert_eq!(element_kind_named("resampler"), Ok(ElementKind::Resampler));
    assert_eq!(element_kind_named("passthrough"), Ok(ElementKind::Passthrough));
    assert_eq!(
        element_kind_named("uridecodebin"),
        Err(EngineError::ElementCreationFailed)
    );
}

#[test]
fn session_reacts_to_messages() {
    let mut s = SessionState::new();
    let watched = ElementId(7);
    let act = s.handle_message(
        &Message {
            src: watched,
            kind: MessageKind::StateChanged {
                old_state: State::Paused,
                new_state: State::Playing,
            },
        },
        watched,
    );
    assert_eq!(act, ControllerAction::ProbeSeekable);
    assert!(s.playing);
    s.set_seekable(true);
    s.set_duration(Some(1));
    s.handle_message(&Message { src: watched, kind: MessageKind::DurationChanged }, watched);
    assert_eq!(s.duration, None);
    s.handle_message(&Message { src: watched, kind: MessageKind::Eos }, watched);
    assert!(s.terminate);
}

#[test]
fn scripted_seek_fires_exactly_once_past_the_trigger() {
    let mut s = SessionState::new();
    s.playing = true;
    s.set_seekable(true);
    assert!(s.should_seek(9_000_000_000).is_none());
    let (target, flags) = s.should_seek(10_000_000_001).unwrap();
    assert_eq!(target, SEEK_TARGET_NS);
    assert!(flags.flush && flags.key_unit && !flags.accurate);
    assert!(s.should_seek(20_000_000_000).is_none());
}

#[test]
fn stop_on_eos_or_error() {
    assert!(should_stop(&Message { src: ElementId(0), kind: MessageKind::Eos }));
    assert!(should_stop(&Message {
        src: ElementId(0),
        kind: MessageKind::ErrorReport {
            code: EngineError::NegotiationFailed,
            text: String::new(),
            debug: String::new(),
        },
    }));
    assert!(!should_stop(&Message { src: ElementId(0), kind: MessageKind::AsyncDone }));
}
