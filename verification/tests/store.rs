use interpoli::AnimationEngineStatus;
use interpoli::ErasedValue;
use interpoli::FrameLeaf;
use interpoli::Framerate;
use interpoli::Keyframe;
use interpoli::SecondLeaf;
use interpoli::Sequence;
use interpoli::Timecode;

fn tc(fr: Framerate, h: i64, m: i64, s: i64, f: i64) -> Timecode {
    Timecode::new_with_framerate(h, m, s, f, 0, fr)
}

fn scalar(v: i64) -> Keyframe<ErasedValue> {
    Keyframe::new(ErasedValue::Scalar(v))
}

#[test]
fn range_scan_returns_both_samples_in_order() {
    let fr = Framerate::Fixed(24);
    let mut seq: Sequence<ErasedValue> = Sequence::new();
    seq.add_keyframe_at_timestamp(scalar(1), &tc(fr, 0, 0, 5, 0));
    seq.add_keyframe_at_timestamp(scalar(2), &tc(fr, 0, 2, 0, 0));
    let out = seq.get_keyframes_between(&tc(fr, 0, 0, 0, 0), &tc(fr, 0, 5, 0, 0), &fr);
    assert_eq!(out.len(), 2);
    assert_eq!(out[0].0.minutes(), 0);
    assert_eq!(out[0].0.seconds(), 5);
    assert_eq!(out[1].0.minutes(), 2);
    assert_eq!(out[1].0.seconds(), 0);
    assert_eq!(out[0].1.value, ErasedValue::Scalar(1));
    assert_eq!(out[1].1.value, ErasedValue::Scalar(2));
}

#[test]
fn range_scan_respects_frame_bounds_of_first_and_last_second() {
    let fr = Framerate::Fixed(24);
    let mut seq: Sequence<ErasedValue> = Sequence::new();
    seq.add_keyframe_at_timestamp(scalar(1), &tc(fr, 0, 0, 1, 2));
    seq.add_keyframe_at_timestamp(scalar(2), &tc(fr, 0, 0, 1, 10));
    seq.add_keyframe_at_timestamp(scalar(3), &tc(fr, 0, 0, 2, 5));
    let out = seq.get_keyframes_between(&tc(fr, 0, 0, 1, 5), &tc(fr, 0, 0, 2, 4), &fr);
    assert_eq!(out.len(), 1);
    assert_eq!(out[0].1.value, ErasedValue::Scalar(2));
}

#[test]
fn point_lookup_hits_and_misses() {
    let fr = Framerate::Fixed(24);
    let mut seq: Sequence<ErasedValue> = Sequence::new();
    let at = tc(fr, 0, 0, 5, 3);
    seq.add_keyframe_at_timestamp(scalar(42), &at);
    let hit = seq.get_keyframe_at_timestamp(&at);
    assert!(hit.is_some());
    assert_eq!(hit.unwrap().value, ErasedValue::Scalar(42));
    assert!(seq.get_keyframe_at_timestamp(&tc(fr, 0, 0, 5, 4)).is_none());
    assert!(seq.get_keyframe_at_timestamp(&tc(fr, 0, 0, 6, 3)).is_none());
}

#[test]
fn reinsertion_at_the_same_instant_overwrites() {
    let fr = Framerate::Fixed(24);
    let mut seq: Sequence<ErasedValue> = Sequence::new();
    let at = tc(fr, 0, 0, 1, 1);
    seq.add_keyframe_at_timestamp(scalar(1), &at);
    seq.add_keyframe_at_timestamp(scalar(2), &at);
    assert_eq!(seq.get_keyframe_at_timestamp(&at).unwrap().value, ErasedValue::Scalar(2));
}

#[test]
fn batched_insertion_matches_single_insertion() {
    let fr = Framerate::Fixed(24);
    let mut seq: Sequence<ErasedValue> = Sequence::new();
    let batch = vec![
        (scalar(1), tc(fr, 0, 0, 1, 0)),
        (scalar(2), tc(fr, 0, 0, 2, 0)),
        (scalar(3), tc(fr, 0, 0, 1, 0)),
    ];
    seq.add_keyframes_at_timestamp(batch);
    assert_eq!(
        seq.get_keyframe_at_timestamp(&tc(fr, 0, 0, 1, 0)).unwrap().value,
        ErasedValue::Scalar(3),
    );
    assert_eq!(
        seq.get_keyframe_at_timestamp(&tc(fr, 0, 0, 2, 0)).unwrap().value,
        ErasedValue::Scalar(2),
    );
}

#[test]
fn find_first_skips_the_whole_frame_of_the_timestamp() {
    let fr = Framerate::Fixed(24);
    let mut seq: Sequence<ErasedValue> = Sequence::new();
    seq.add_keyframe_at_timestamp(scalar(1), &tc(fr, 0, 0, 5, 0));
    seq.add_keyframe_at_timestamp(scalar(2), &tc(fr, 0, 2, 0, 0));
    let after_start = seq.find_first_keyframe_after_timestamp(&tc(fr, 0, 0, 0, 0), &fr);
    assert_eq!(after_start.unwrap().1.value, ErasedValue::Scalar(1));
    let after_first = seq.find_first_keyframe_after_timestamp(&tc(fr, 0, 0, 5, 0), &fr);
    let (t2, k2) = after_first.unwrap();
    assert_eq!(t2.minutes(), 2);
    assert_eq!(k2.value, ErasedValue::Scalar(2));
    assert!(seq.find_first_keyframe_after_timestamp(&tc(fr, 0, 2, 0, 0), &fr).is_none());
}

#[test]
fn empty_store_answers_nothing() {
    let fr = Framerate::Fixed(24);
    let seq: Sequence<ErasedValue> = Sequence::new();
    assert!(seq.get_keyframes_between(&tc(fr, 0, 0, 0, 0), &tc(fr, 0, 5, 0, 0), &fr).is_empty());
    assert!(seq.find_first_keyframe_after_timestamp(&tc(fr, 0, 0, 0, 0), &fr).is_none());
}

#[test]
fn tween_interpolates_between_the_bracketing_pair() {
    let fr = Framerate::Fixed(24);
    let mut seq: Sequence<ErasedValue> = Sequence::new();
    seq.add_keyframe_at_timestamp(scalar(0), &tc(fr, 0, 0, 0, 0));
    seq.add_keyframe_at_timestamp(scalar(24), &tc(fr, 0, 0, 1, 0));
    let r = seq.tween(&tc(fr, 0, 0, 0, 12));
    assert_eq!(r, Some(ErasedValue::Scalar(12)));
    assert!(seq.engine.is_running());
}

#[test]
fn tween_with_no_sample_in_window_yields_nothing() {
    let fr = Framerate::Fixed(24);
    let mut seq: Sequence<ErasedValue> = Sequence::new();
    assert_eq!(seq.tween(&tc(fr, 0, 0, 1, 0)), None);
    assert!(seq.engine.is_empty());
}

#[test]
fn sequence_end_is_sticky() {
    let fr = Framerate::Fixed(24);
    let mut seq: Sequence<ErasedValue> = Sequence::new();
    seq.add_keyframe_at_timestamp(scalar(9), &tc(fr, 0, 0, 1, 0));
    let first = seq.tween(&tc(fr, 0, 0, 2, 0));
    assert_eq!(first, Some(ErasedValue::Scalar(9)));
    assert!(seq.engine.is_sequence_ended());
    assert_eq!(seq.tween(&tc(fr, 0, 0, 3, 0)), Some(ErasedValue::Scalar(9)));
    assert_eq!(seq.tween(&tc(fr, 0, 10, 0, 0)), Some(ErasedValue::Scalar(9)));
    assert!(seq.engine.is_sequence_ended());
}

#[test]
fn reaching_the_interval_end_ends_the_engine_then_rescans() {
    let fr = Framerate::Fixed(24);
    let mut seq: Sequence<ErasedValue> = Sequence::new();
    seq.add_keyframe_at_timestamp(scalar(0), &tc(fr, 0, 0, 0, 0));
    seq.add_keyframe_at_timestamp(scalar(24), &tc(fr, 0, 0, 1, 0));
    assert_eq!(seq.tween(&tc(fr, 0, 0, 0, 12)), Some(ErasedValue::Scalar(12)));
    assert_eq!(seq.tween(&tc(fr, 0, 0, 1, 0)), Some(ErasedValue::Scalar(24)));
    assert!(seq.engine.has_ended());
    assert_eq!(seq.tween(&tc(fr, 0, 0, 1, 12)), Some(ErasedValue::Scalar(24)));
    assert!(seq.engine.is_sequence_ended());
}

#[test]
fn pair_values_interpolate_componentwise() {
    let fr = Framerate::Fixed(24);
    let mut seq: Sequence<ErasedValue> = Sequence::new();
    seq.add_keyframe_at_timestamp(Keyframe::new(ErasedValue::Pair(0, 100)), &tc(fr, 0, 0, 0, 0));
    seq.add_keyframe_at_timestamp(Keyframe::new(ErasedValue::Pair(24, 0)), &tc(fr, 0, 0, 1, 0));
    let r = seq.tween(&tc(fr, 0, 0, 0, 12));
    assert_eq!(r, Some(ErasedValue::Pair(12, 50)));
}

#[test]
fn mismatched_value_shapes_hold_the_begin_sample() {
    let fr = Framerate::Fixed(24);
    let mut seq: Sequence<ErasedValue> = Sequence::new();
    seq.add_keyframe_at_timestamp(scalar(7), &tc(fr, 0, 0, 0, 0));
    seq.add_keyframe_at_timestamp(Keyframe::new(ErasedValue::Pair(1, 2)), &tc(fr, 0, 0, 1, 0));
    let r = seq.tween(&tc(fr, 0, 0, 0, 12));
    assert_eq!(r, Some(ErasedValue::Scalar(7)));
}

#[test]
fn rewinding_lets_a_seek_backwards_rescan() {
    let fr = Framerate::Fixed(24);
    let mut seq: Sequence<ErasedValue> = Sequence::new();
    seq.add_keyframe_at_timestamp(scalar(0), &tc(fr, 0, 0, 0, 0));
    seq.add_keyframe_at_timestamp(scalar(24), &tc(fr, 0, 0, 1, 0));
    assert_eq!(seq.tween(&tc(fr, 0, 0, 5, 0)), Some(ErasedValue::Scalar(24)));
    assert!(seq.engine.is_sequence_ended());
    seq.rewind();
    assert!(seq.engine.is_empty());
    assert_eq!(seq.tween(&tc(fr, 0, 0, 0, 12)), Some(ErasedValue::Scalar(12)));
}

#[test]
fn frame_leaf_stores_and_replaces_samples() {
    let mut fl: FrameLeaf<ErasedValue> = FrameLeaf::new();
    fl.add_keyframe_at_isize(5, scalar(7));
    assert_eq!(fl.get_keyframe_at_isize(5).unwrap().value, ErasedValue::Scalar(7));
    assert!(fl.get_keyframe_at_isize(6).is_none());
    fl.add_keyframe_at_isize(5, scalar(8));
    assert_eq!(fl.get_keyframe_at_isize(5).unwrap().value, ErasedValue::Scalar(8));
}

#[test]
fn second_leaf_creates_and_finds_frames() {
    let mut sl: SecondLeaf<ErasedValue> = SecondLeaf::new();
    assert!(sl.get_frame_with_isize(3).is_none());
    sl.create_frame_with_isize(3);
    assert!(sl.get_frame_with_isize(3).is_some());
    sl.get_or_create_frame_with_isize(3);
    sl.get_or_create_frame_with_isize(4);
    assert!(sl.get_frame_with_isize(4).is_some());
    assert!(sl.get_frame_with_isize(5).is_none());
}

#[test]
fn sequence_second_builders_mirror_the_leaf_builders() {
    let fr = Framerate::Fixed(24);
    let mut seq: Sequence<ErasedValue> = Sequence::new();
    assert!(seq.get_second_with_isize(7).is_none());
    seq.create_second_with_isize(7);
    assert!(seq.get_second_with_isize(7).is_some());
    let at = tc(fr, 0, 0, 9, 0);
    seq.get_or_create_second_with_timestamp(&at);
    assert!(seq.get_second_with_timestamp(&at).is_some());
    assert!(seq.get_second_with_isize(8).is_none());
}

#[test]
fn million_samples_stay_searchable() {
    let fr = Framerate::Fixed(24);
    let mut seq: Sequence<ErasedValue> = Sequence::new();
    let mut i: i64 = 0;
    while i < 1_000_000 {
        let t = Timecode::new_with_framerate(0, 0, i, 0, 0, fr);
        seq.add_keyframe_at_timestamp(scalar(i), &t);
        i += 1;
    }
    let probe = Timecode::new_with_framerate(0, 0, 987_654, 0, 0, fr);
    let hit = seq.get_keyframe_at_timestamp(&probe);
    assert_eq!(hit.unwrap().value, ErasedValue::Scalar(987_654));
    let late = seq.find_first_keyframe_after_timestamp(&probe, &fr);
    assert_eq!(late.unwrap().1.value, ErasedValue::Scalar(987_655));
}

#[test]
fn engine_statuses_report_each_phase() {
    let mut e: interpoli::AnimationEngine<ErasedValue> = interpoli::AnimationEngine::new();
    assert!(e.is_empty());
    assert!(!e.is_running());
    assert!(!e.has_ended());
    assert!(!e.is_sequence_ended());
    e.set_new_end(scalar(1));
    assert!(e.is_sequence_ended());
    let _ = AnimationEngineStatus::Ended;
}
