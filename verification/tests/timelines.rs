use interpoli::ErasedValue;
use interpoli::Fraction;
use interpoli::Framerate;
use interpoli::Keyframe;
use interpoli::StaticTimeline;
use interpoli::Timecode;
use interpoli::Timeline;
use interpoli::Tween;
use interpoli::Easing;
use interpoli::value::lerp_i64;

fn tc(fr: Framerate, h: i64, m: i64, s: i64, f: i64) -> Timecode {
    Timecode::new_with_framerate(h, m, s, f, 0, fr)
}

fn scalar(v: i64) -> Keyframe<ErasedValue> {
    Keyframe::new(ErasedValue::Scalar(v))
}

#[test]
fn named_sequences_resolve_through_the_directory() {
    let fr = Framerate::Fixed(24);
    let mut tl = Timeline::new(fr);
    assert!(tl.get_sequence_pointer("opacity").is_none());
    let p = tl.new_sequence("opacity");
    assert_eq!(p, 1);
    assert_eq!(tl.get_sequence_pointer("opacity"), Some(1));
    assert!(tl.get_sequence_pointer("scale").is_none());
    assert!(tl.get_sequence_with_pointer(1).is_some());
    assert!(tl.get_sequence_with_pointer(0).is_none());
    assert!(tl.get_sequence_with_pointer(2).is_none());
    assert!(tl.get_sequence_with_name("opacity").is_some());
    assert!(tl.get_sequence_with_name("scale").is_none());
}

#[test]
fn a_reused_name_shadows_the_earlier_sequence() {
    let fr = Framerate::Fixed(24);
    let mut tl = Timeline::new(fr);
    let p1 = tl.new_sequence("opacity");
    let p2 = tl.new_sequence("opacity");
    assert_eq!(p1, 1);
    assert_eq!(p2, 2);
    assert_eq!(tl.get_sequence_pointer("opacity"), Some(2));
}

#[test]
fn tween_by_name_follows_the_cursor() {
    let fr = Framerate::Fixed(24);
    let mut tl = Timeline::new(fr);
    let p = tl.new_sequence("opacity");
    assert!(tl.add_keyframe_at_timestamp(p, scalar(0), &tc(fr, 0, 0, 0, 0)));
    assert!(tl.add_keyframe_at_timestamp(p, scalar(24), &tc(fr, 0, 0, 1, 0)));
    tl.set_by_duration(500_000_000);
    assert_eq!(tl.time().frames(), 12);
    assert_eq!(tl.tween_by_name("opacity"), Some(ErasedValue::Scalar(12)));
    assert_eq!(tl.tween_by_name("missing"), None);
}

#[test]
fn tween_by_pointer_rejects_stale_handles() {
    let fr = Framerate::Fixed(24);
    let mut tl = Timeline::new(fr);
    let p = tl.new_sequence("opacity");
    assert!(tl.add_keyframe_at_timestamp(p, scalar(5), &tc(fr, 0, 0, 0, 0)));
    assert_eq!(tl.tween_by_pointer(99), None);
    assert_eq!(tl.tween_by_pointer(0), None);
    assert_eq!(tl.tween_by_pointer(p), Some(ErasedValue::Scalar(5)));
}

#[test]
fn stale_handle_insertion_reports_failure() {
    let fr = Framerate::Fixed(24);
    let mut tl = Timeline::new(fr);
    assert!(!tl.add_keyframe_at_timestamp(1, scalar(5), &tc(fr, 0, 0, 0, 0)));
}

#[test]
fn cursor_advances_by_duration_and_timecode() {
    let fr = Framerate::Fixed(24);
    let mut tl = Timeline::new(fr);
    tl.add_by_duration(1_000_000_000);
    assert_eq!(tl.time().seconds(), 1);
    tl.sub_by_duration(500_000_000);
    assert_eq!(tl.time().seconds(), 0);
    assert_eq!(tl.time().frames(), 12);
    tl.add_by_timestamp(tc(fr, 0, 0, 2, 0));
    assert_eq!(tl.time().seconds(), 2);
    assert_eq!(tl.time().frames(), 12);
    tl.sub_by_timestamp(tc(fr, 0, 0, 1, 0));
    assert_eq!(tl.time().seconds(), 1);
    tl.set_by_timestamp(tc(fr, 0, 0, 5, 6));
    assert_eq!(tl.time().seconds(), 5);
    assert_eq!(tl.time().frames(), 6);
    assert_eq!(tl.framerate(), fr);
}

#[test]
fn children_are_owned_and_advance_independently() {
    let fr = Framerate::Fixed(24);
    let mut tl = Timeline::new(fr);
    let child = Timeline::new(fr);
    tl.add_child(child);
    assert_eq!(tl.children().len(), 1);
    tl.get_child_mut(0).add_by_duration(2_000_000_000);
    assert_eq!(tl.children()[0].time.seconds(), 2);
    assert_eq!(tl.time().seconds(), 0);
}

#[test]
fn rewinding_a_sequence_through_its_handle() {
    let fr = Framerate::Fixed(24);
    let mut tl = Timeline::new(fr);
    let p = tl.new_sequence("x");
    assert!(tl.add_keyframe_at_timestamp(p, scalar(7), &tc(fr, 0, 0, 0, 0)));
    tl.set_by_timestamp(tc(fr, 0, 0, 5, 0));
    assert_eq!(tl.tween_by_pointer(p), Some(ErasedValue::Scalar(7)));
    assert!(tl.rewind_by_pointer(p));
    assert!(!tl.rewind_by_pointer(99));
    tl.set_by_timestamp(tc(fr, 0, 0, 1, 0));
    assert_eq!(tl.tween_by_pointer(p), Some(ErasedValue::Scalar(7)));
}

#[derive(Clone, Copy, PartialEq, Eq, Debug)]
struct Angle {
    degrees: i64,
}

impl Tween for Angle {
    // The ghost-level description is erased from compiled code; outside
    // verified code the implementation carries no meaning at runtime.
    fn tween_spec(self, _other: Self, _t: Fraction, _easing: Easing) -> Angle {
        self
    }

    fn tween(&self, other: &Self, t: &Fraction, _easing: &Easing) -> Angle {
        Angle { degrees: lerp_i64(self.degrees, other.degrees, t) }
    }

    fn duplicate(&self) -> Angle {
        Angle { degrees: self.degrees }
    }
}

#[test]
fn a_caller_supplied_value_type_tweens_through_a_timeline() {
    let fr = Framerate::Fixed(24);
    let mut tl: StaticTimeline<Angle> = StaticTimeline::new(fr);
    let p = tl.new_sequence("rotation");
    assert!(tl.add_keyframe_at_timestamp(p, Keyframe::new(Angle { degrees: 0 }), &tc(
        fr, 0, 0, 0, 0,
    )));
    assert!(tl.add_keyframe_at_timestamp(p, Keyframe::new(Angle { degrees: 90 }), &tc(
        fr, 0, 0, 1, 0,
    )));
    tl.set_by_duration(500_000_000);
    assert_eq!(tl.tween_by_pointer(p), Some(Angle { degrees: 45 }));
}

#[test]
fn forward_playback_reuses_the_cached_interval() {
    let fr = Framerate::Fixed(25);
    let mut tl = Timeline::new(fr);
    let p = tl.new_sequence("x");
    assert!(tl.add_keyframe_at_timestamp(p, scalar(0), &tc(fr, 0, 0, 0, 0)));
    assert!(tl.add_keyframe_at_timestamp(p, scalar(250), &tc(fr, 0, 0, 10, 0)));
    let mut frame: i64 = 0;
    while frame < 250 {
        let r = tl.tween_by_pointer(p);
        assert_eq!(r, Some(ErasedValue::Scalar(frame)));
        frame += 1;
        tl.set_by_timestamp(tc(fr, 0, 0, frame / 25, frame % 25));
    }
}
