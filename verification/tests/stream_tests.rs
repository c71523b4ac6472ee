use mediagraph::caps::{CapStructure, Capability, FieldKey, FieldValue, FormatName};
use mediagraph::sink::PullSink;
use mediagraph::source::PushSource;
use mediagraph::types::{Buffer, EngineError};

fn s16_mono_44100() -> Capability {
    let mut st = CapStructure::new(FormatName::AudioRaw);
    assert!(st.add_field(FieldKey::Rate, FieldValue::Fixed(44100)));
    assert!(st.add_field(FieldKey::Channels, FieldValue::Fixed(1)));
    assert!(st.add_field(FieldKey::Depth, FieldValue::Fixed(16)));
    Capability::single(st)
}

#[test]
fn backpressure_counts_three_production_rounds() {
    let mut src = PushSource::new(44100, 1024, 3).unwrap();
    src.set_caps(s16_mono_44100()).unwrap();
    let mut produced = 0usize;
    // queue occupancy sequence: need, need, enough, need
    src.need_data(4096);
    if src.produce_chunk().is_some() {
        produced += 1;
    }
    src.need_data(4096); // no-op: a task is already scheduled
    if src.produce_chunk().is_some() {
        produced += 1;
    }
    src.enough_data();
    if src.produce_chunk().is_some() {
        produced += 1;
    }
    src.need_data(4096);
    if src.produce_chunk().is_some() {
        produced += 1;
    }
    assert_eq!(produced, 3);
}

#[test]
fn no_buffer_after_enough_until_need() {
    let mut src = PushSource::new(44100, 1024, 3).unwrap();
    src.set_caps(s16_mono_44100()).unwrap();
    src.need_data(1024);
    assert!(src.produce_chunk().is_some());
    src.enough_data();
    assert!(src.produce_chunk().is_none());
    assert!(src.produce_chunk().is_none());
    src.need_data(1024);
    assert!(src.produce_chunk().is_some());
}

#[test]
fn timestamps_are_exact_and_never_drift() {
    let mut src = PushSource::new(44100, 1024, 7).unwrap();
    src.set_caps(s16_mono_44100()).unwrap();
    src.need_data(0);
    let expected_duration = 512u64 * 1_000_000_000 / 44100;
    assert_eq!(expected_duration, 11_609_977);
    let mut last_pts = 0u64;
    for n in 0..1000u64 {
        let buf = src.produce_chunk().unwrap();
        // the exact integer formula, from the cumulative sample counter
        assert_eq!(buf.pts, n * 512 * 1_000_000_000 / 44100);
        assert_eq!(buf.duration, expected_duration);
        assert_eq!(buf.data.len(), 1024);
        assert!(buf.pts >= last_pts);
        last_pts = buf.pts;
    }
    // zero cumulative drift after 1000 buffers
    let buf = src.produce_chunk().unwrap();
    assert_eq!(buf.pts, 1000 * 512 * 1_000_000_000 / 44100);
}

#[test]
fn waveform_bytes_are_little_endian_phase_steps() {
    let mut src = PushSource::new(44100, 8, 3).unwrap();
    src.set_caps(s16_mono_44100()).unwrap();
    src.need_data(0);
    let buf = src.produce_chunk().unwrap();
    // phase starts at 0 and advances by 3 per sample
    assert_eq!(buf.data, vec![3, 0, 6, 0, 9, 0, 12, 0]);
}

#[test]
fn caps_must_be_set_before_first_data() {
    let mut src = PushSource::new(44100, 1024, 3).unwrap();
    src.need_data(0);
    assert!(src.produce_chunk().is_none());
    src.set_caps(s16_mono_44100()).unwrap();
    assert!(src.produce_chunk().is_some());
    assert_eq!(
        src.set_caps(Capability::any()),
        Err(EngineError::NegotiationFailed)
    );
}

#[test]
fn source_parameters_are_validated() {
    assert!(PushSource::new(0, 1024, 1).is_none());
    assert!(PushSource::new(44100, 0, 1).is_none());
    assert!(PushSource::new(44100, 1023, 1).is_none());
    assert!(PushSource::new(44100, 1024, 1).is_some());
}

#[test]
fn pull_without_notification_fails() {
    let mut sink = PullSink::new();
    assert_eq!(sink.notifications(), 0);
    match sink.pull_sample() {
        Err(e) => assert_eq!(e, EngineError::NoSampleAvailable),
        Ok(_) => panic!("pull without a pending notification must fail"),
    }
}

#[test]
fn each_notification_yields_exactly_one_sample() {
    let mut sink = PullSink::new();
    sink.deliver(Buffer { pts: 1, duration: 10, data: vec![1] });
    sink.deliver(Buffer { pts: 11, duration: 10, data: vec![2] });
    assert_eq!(sink.notifications(), 2);
    let first = sink.pull_sample().unwrap();
    assert_eq!(first.pts, 1);
    let second = sink.pull_sample().unwrap();
    assert_eq!(second.pts, 11);
    assert!(sink.pull_sample().is_err());
}
