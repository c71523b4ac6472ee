use mediagraph::bus::Bus;
use mediagraph::message::{ElementId, KindFilter, Message, MessageKind};
use mediagraph::types::{EngineError, State};

fn state_msg(src: usize, new_state: State) -> Message {
    Message {
        src: ElementId(src),
        kind: MessageKind::StateChanged { old_state: State::Null, new_state },
    }
}

#[test]
fn messages_pop_in_posting_order() {
    let mut bus = Bus::new();
    bus.post(state_msg(1, State::Ready));
    bus.post(state_msg(1, State::Paused));
    let a = bus.pop_blocking().unwrap();
    let b = bus.pop_blocking().unwrap();
    assert!(matches!(a.kind, MessageKind::StateChanged { new_state: State::Ready, .. }));
    assert!(matches!(b.kind, MessageKind::StateChanged { new_state: State::Paused, .. }));
}

#[test]
fn interleavings_preserve_each_elements_order() {
    let mut bus = Bus::new();
    bus.post(state_msg(1, State::Ready));
    bus.post(state_msg(2, State::Ready));
    bus.post(state_msg(1, State::Paused));
    bus.post(state_msg(2, State::Paused));
    let mut order_1 = Vec::new();
    let mut order_2 = Vec::new();
    while let Ok(Some(m)) = bus.pop_timed(100) {
        match m.kind {
            MessageKind::StateChanged { new_state, .. } => {
                if m.src == ElementId(1) {
                    order_1.push(new_state);
                } else {
                    order_2.push(new_state);
                }
            },
            _ => panic!("unexpected kind"),
        }
    }
    assert_eq!(order_1, vec![State::Ready, State::Paused]);
    assert_eq!(order_2, vec![State::Ready, State::Paused]);
}

#[test]
fn timed_pop_returns_none_when_nothing_arrives() {
    let mut bus = Bus::new();
    assert_eq!(bus.pop_timed(100_000_000), Ok(None));
}

#[test]
fn mixing_pops_and_dispatch_is_a_usage_error() {
    let mut bus = Bus::new();
    bus.post(Message { src: ElementId(0), kind: MessageKind::Eos });
    assert!(bus.pop_timed(0).is_ok());
    assert_eq!(bus.set_dispatch(KindFilter::all()), Err(EngineError::DualConsumptionError));

    let mut bus2 = Bus::new();
    bus2.post(Message { src: ElementId(0), kind: MessageKind::Eos });
    assert_eq!(bus2.set_dispatch(KindFilter::all()), Ok(()));
    assert_eq!(bus2.pop_timed(0), Err(EngineError::DualConsumptionError));
    assert_eq!(bus2.pop_blocking(), Err(EngineError::DualConsumptionError));
}

#[test]
fn dispatch_without_a_watch_is_a_usage_error() {
    let mut bus = Bus::new();
    assert_eq!(bus.dispatch_one(), Err(EngineError::DualConsumptionError));
}

#[test]
fn dispatch_filters_by_kind() {
    let mut bus = Bus::new();
    let mut errors_only = KindFilter::all();
    errors_only.state_changed = false;
    errors_only.eos = false;
    errors_only.duration_changed = false;
    errors_only.async_done = false;
    errors_only.warning = false;
    assert_eq!(bus.set_dispatch(errors_only), Ok(()));
    bus.post(Message { src: ElementId(0), kind: MessageKind::Eos });
    bus.post(Message {
        src: ElementId(0),
        kind: MessageKind::ErrorReport {
            code: EngineError::StateChangeFailed,
            text: String::from("boom"),
            debug: String::new(),
        },
    });
    // the end-of-stream message is consumed but not handed out
    assert_eq!(bus.dispatch_one(), Ok(None));
    let handed = bus.dispatch_one().unwrap().unwrap();
    assert!(matches!(handed.kind, MessageKind::ErrorReport { .. }));
    // nothing left
    assert_eq!(bus.dispatch_one(), Ok(None));
}
