use mediagraph::caps::{CapStructure, Capability, FieldKey, FieldValue, FormatName};

fn audio_structure(rate: FieldValue, channels: FieldValue) -> CapStructure {
    let mut st = CapStructure::new(FormatName::AudioRaw);
    assert!(st.add_field(FieldKey::Rate, rate));
    assert!(st.add_field(FieldKey::Channels, channels));
    st
}

#[test]
fn intersect_commutes_on_fixed_structures() {
    let a = Capability::single(audio_structure(
        FieldValue::range_of(8000, 48000).unwrap(),
        FieldValue::Fixed(2),
    ));
    let b = Capability::single(audio_structure(
        FieldValue::Fixed(44100),
        FieldValue::range_of(1, 8).unwrap(),
    ));
    let ab = a.duplicate().intersect(b.duplicate());
    let ba = b.intersect(a);
    assert_eq!(ab, ba);
    assert!(!ab.is_empty());
    assert!(ab.is_fixed());
}

#[test]
fn intersect_commutes_on_sets() {
    let a = Capability::single(audio_structure(
        FieldValue::set_of(vec![8000, 16000, 44100, 48000]).unwrap(),
        FieldValue::Fixed(2),
    ));
    let b = Capability::single(audio_structure(
        FieldValue::set_of(vec![16000, 44100, 96000]).unwrap(),
        FieldValue::Fixed(2),
    ));
    let ab = a.duplicate().intersect(b.duplicate());
    let ba = b.intersect(a);
    assert_eq!(ab, ba);
    let st = ab.structure_at(0);
    assert_eq!(st.fields[0].value, FieldValue::List(vec![16000, 44100]));
}

#[test]
fn intersect_any_is_identity() {
    let a = Capability::single(audio_structure(
        FieldValue::Fixed(44100),
        FieldValue::Fixed(2),
    ));
    let with_any = a.duplicate().intersect(Capability::any());
    assert_eq!(with_any, a);
    let any_with = Capability::any().intersect(a.duplicate());
    assert_eq!(any_with, a);
}

#[test]
fn intersect_empty_is_empty() {
    let a = Capability::single(audio_structure(
        FieldValue::Fixed(44100),
        FieldValue::Fixed(2),
    ));
    let r = a.duplicate().intersect(Capability::none());
    assert!(r.is_empty());
    let r2 = Capability::none().intersect(a);
    assert!(r2.is_empty());
}

#[test]
fn intersect_name_mismatch_is_empty() {
    let a = Capability::single(CapStructure::new(FormatName::AudioRaw));
    let v = Capability::single(CapStructure::new(FormatName::VideoRaw));
    let r = a.intersect(v);
    assert!(r.is_empty());
}

#[test]
fn intersect_incompatible_values_is_empty() {
    let a = Capability::single(audio_structure(
        FieldValue::Fixed(8000),
        FieldValue::Fixed(2),
    ));
    let b = Capability::single(audio_structure(
        FieldValue::range_of(16000, 48000).unwrap(),
        FieldValue::Fixed(2),
    ));
    let r = a.intersect(b);
    assert!(r.is_empty());
}

#[test]
fn intersect_ranges_clip_to_overlap() {
    let a = Capability::single(audio_structure(
        FieldValue::range_of(8000, 44100).unwrap(),
        FieldValue::Fixed(2),
    ));
    let b = Capability::single(audio_structure(
        FieldValue::range_of(16000, 96000).unwrap(),
        FieldValue::Fixed(2),
    ));
    let r = a.intersect(b);
    let st = r.structure_at(0);
    assert_eq!(st.fields[0].value, FieldValue::Range(16000, 44100));
}

#[test]
fn unmatched_fields_carry_over() {
    let mut left = CapStructure::new(FormatName::AudioRaw);
    assert!(left.add_field(FieldKey::Rate, FieldValue::Fixed(44100)));
    let mut right = CapStructure::new(FormatName::AudioRaw);
    assert!(right.add_field(FieldKey::Channels, FieldValue::Fixed(2)));
    let r = Capability::single(left).intersect(Capability::single(right));
    let st = r.structure_at(0);
    assert_eq!(st.fields.len(), 2);
    assert_eq!(st.fields[0].key, FieldKey::Rate);
    assert_eq!(st.fields[1].key, FieldKey::Channels);
}

#[test]
fn fixate_prefers_first_structure_lower_bound_first_element() {
    let mut cap = Capability::single(audio_structure(
        FieldValue::range_of(8000, 48000).unwrap(),
        FieldValue::set_of(vec![1, 2, 6]).unwrap(),
    ));
    cap.push_structure(CapStructure::new(FormatName::VideoRaw));
    let fixed = cap.fixate();
    assert!(fixed.is_fixed());
    assert_eq!(fixed.structure_count(), 1);
    let st = fixed.structure_at(0);
    assert_eq!(st.name, FormatName::AudioRaw);
    assert_eq!(st.fields[0].value, FieldValue::Fixed(8000));
    assert_eq!(st.fields[1].value, FieldValue::Fixed(1));
}

#[test]
fn fixate_any_and_empty_stay_unfixed() {
    let any = Capability::any().fixate();
    assert!(any.is_any());
    assert!(!any.is_fixed());
    let none = Capability::none().fixate();
    assert!(none.is_empty());
    assert!(!none.is_fixed());
}

#[test]
fn set_of_requires_ascending_nonempty() {
    assert!(FieldValue::set_of(vec![]).is_none());
    assert!(FieldValue::set_of(vec![3, 3]).is_none());
    assert!(FieldValue::set_of(vec![5, 2]).is_none());
    assert!(FieldValue::set_of(vec![2, 5]).is_some());
}

#[test]
fn range_of_requires_ordered_bounds() {
    assert!(FieldValue::range_of(10, 5).is_none());
    assert!(FieldValue::range_of(5, 5).is_some());
}

#[test]
fn duplicate_key_rejected() {
    let mut st = CapStructure::new(FormatName::AudioRaw);
    assert!(st.add_field(FieldKey::Rate, FieldValue::Fixed(44100)));
    assert!(!st.add_field(FieldKey::Rate, FieldValue::Fixed(48000)));
    assert_eq!(st.fields.len(), 1);
}
