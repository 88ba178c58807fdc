use interpoli::Fraction;
use interpoli::Framerate;
use interpoli::Timecode;
use interpoli::value::lerp_i64;

#[test]
fn dummy_test_until_we_have_a_real_test() {}

#[test]
fn construction_normalizes_every_field() {
    let t = Timecode::new_with_framerate(0, 0, 90, 30, 1_500_000_000, Framerate::Fixed(24));
    assert!(0 <= t.minutes() && t.minutes() <= 59);
    assert!(0 <= t.seconds() && t.seconds() <= 59);
    assert!(0 <= t.frames() && t.frames() < 24);
    assert!(0 <= t.nanoframes() && t.nanoframes() < 1_000_000_000);
    assert_eq!(t.hours(), 0);
    assert_eq!(t.minutes(), 1);
    assert_eq!(t.seconds(), 31);
    assert_eq!(t.frames(), 7);
    assert_eq!(t.nanoframes(), 500_000_000);
}

#[test]
fn construction_is_identity_on_normalized_fields() {
    let t = Timecode::new_with_framerate(3, 4, 5, 6, 7, Framerate::Fixed(24));
    assert_eq!(t.hours(), 3);
    assert_eq!(t.minutes(), 4);
    assert_eq!(t.seconds(), 5);
    assert_eq!(t.frames(), 6);
    assert_eq!(t.nanoframes(), 7);
}

#[test]
fn timestamp_mode_keeps_frames_raw() {
    let t = Timecode::new(0, 0, 61, 500);
    assert_eq!(t.minutes(), 1);
    assert_eq!(t.seconds(), 1);
    assert_eq!(t.frames(), 500);
    assert!(t.framerate().is_timestamp());
}

#[test]
fn add_then_sub_duration_roundtrips() {
    let fr = Framerate::Fixed(24);
    let mut t = Timecode::new_with_framerate(0, 1, 2, 3, 4, fr);
    let orig = t;
    t.add_by_duration(1_234_567_890);
    assert!(t != orig);
    t.sub_by_duration(1_234_567_890);
    assert_eq!(t.hours(), orig.hours());
    assert_eq!(t.minutes(), orig.minutes());
    assert_eq!(t.seconds(), orig.seconds());
    assert_eq!(t.frames(), orig.frames());
    assert_eq!(t.nanoframes(), orig.nanoframes());
}

#[test]
fn add_then_sub_timestamp_roundtrips() {
    let fr = Framerate::Fixed(25);
    let mut t = Timecode::new_with_framerate(0, 0, 10, 5, 0, fr);
    let orig = t;
    let delta = Timecode::new_with_framerate(0, 0, 3, 7, 0, fr);
    t.add_by_timestamp(delta);
    t.sub_by_timestamp(delta);
    assert_eq!(t, orig);
}

#[test]
fn twenty_four_frames_make_one_second() {
    let fr = Framerate::Fixed(24);
    let mut t = Timecode::new_with_framerate(0, 0, 0, 0, 0, fr);
    let mut i: usize = 0;
    while i < 24 {
        t.next_frame();
        i += 1;
    }
    assert_eq!(t.hours(), 0);
    assert_eq!(t.minutes(), 0);
    assert_eq!(t.seconds(), 1);
    assert_eq!(t.frames(), 0);
}

#[test]
fn sixty_seconds_make_one_minute() {
    let fr = Framerate::Fixed(24);
    let mut t = Timecode::new_with_framerate(0, 0, 0, 0, 0, fr);
    let mut i: usize = 0;
    while i < 60 {
        t.next_second();
        i += 1;
    }
    assert_eq!(t.minutes(), 1);
    assert_eq!(t.seconds(), 0);
}

#[test]
fn sixty_minutes_make_one_hour() {
    let fr = Framerate::Fixed(24);
    let mut t = Timecode::new_with_framerate(0, 0, 0, 0, 0, fr);
    let mut i: usize = 0;
    while i < 60 {
        t.next_minute();
        i += 1;
    }
    assert_eq!(t.hours(), 1);
    assert_eq!(t.minutes(), 0);
}

#[test]
fn next_and_back_hour_step_without_wrapping() {
    let fr = Framerate::Fixed(24);
    let mut t = Timecode::new_with_framerate(0, 0, 0, 0, 0, fr);
    t.next_hour();
    assert_eq!(t.hours(), 1);
    t.back_hour();
    assert_eq!(t.hours(), 0);
}

#[test]
fn back_frame_borrows_through_every_field() {
    let fr = Framerate::Fixed(24);
    let mut t = Timecode::new_with_framerate(0, 0, 0, 0, 0, fr);
    t.back_frame();
    assert_eq!(t.hours(), -1);
    assert_eq!(t.minutes(), 59);
    assert_eq!(t.seconds(), 59);
    assert_eq!(t.frames(), 23);
}

#[test]
fn nanosecond_conversion_is_exact() {
    let fr = Framerate::Fixed(24);
    let t = Timecode::new_with_framerate(1, 2, 3, 12, 500_000_000, fr);
    let expected = 3_600_000_000_000i64 + 120_000_000_000 + 3_000_000_000 + 500_000_000
        + 20_833_333;
    assert_eq!(t.as_nanoseconds(), expected);
}

#[test]
fn midpoint_frame_has_lerp_fraction_one_half() {
    let fr = Framerate::Fixed(24);
    let begin = Timecode::new_with_framerate(0, 0, 0, 0, 0, fr);
    let end = Timecode::new_with_framerate(0, 0, 0, 24, 0, fr);
    let t = Timecode::new_with_framerate(0, 0, 0, 12, 0, fr);
    let f = t.get_lerp_time_between(&begin, &end);
    assert!(f.num > 0);
    assert_eq!(2 * f.num, f.den);
    assert_eq!(f.num as f64 / f.den as f64, 0.5);
}

#[test]
fn fixed_rate_suppresses_subframe_position_in_lerp() {
    let fr = Framerate::Fixed(1);
    let begin = Timecode::new_with_framerate(0, 0, 0, 0, 0, fr);
    let end = Timecode::new_with_framerate(0, 0, 0, 1, 0, fr);
    let t = Timecode::new_with_framerate(0, 0, 0, 0, 500_000_000, fr);
    let f = t.get_lerp_time_between(&begin, &end);
    assert_eq!(f.num, 0);
    assert_eq!(f.num as f64 / f.den as f64, 0.0);
}

#[test]
fn interpolated_rate_keeps_subframe_position_in_lerp() {
    let fr = Framerate::Interpolated(1);
    let begin = Timecode::new_with_framerate(0, 0, 0, 0, 0, fr);
    let end = Timecode::new_with_framerate(0, 0, 0, 1, 0, fr);
    let t = Timecode::new_with_framerate(0, 0, 0, 0, 500_000_000, fr);
    let f = t.get_lerp_time_between(&begin, &end);
    assert_eq!(2 * f.num, f.den);
    assert_eq!(f.num as f64 / f.den as f64, 0.5);
}

#[test]
fn degenerate_interval_yields_fraction_one() {
    let fr = Framerate::Fixed(24);
    let begin = Timecode::new_with_framerate(0, 0, 1, 0, 0, fr);
    let t = Timecode::new_with_framerate(0, 0, 2, 0, 0, fr);
    let f = t.get_lerp_time_between(&begin, &begin);
    assert_eq!(f.num, 1);
    assert_eq!(f.den, 1);
}

#[test]
fn coarse_equality_ignores_subframe_units() {
    let fr = Framerate::Fixed(24);
    let a = Timecode::new_with_framerate(0, 0, 1, 3, 7, fr);
    let b = Timecode::new_with_framerate(0, 0, 1, 3, 900, fr);
    let c = Timecode::new_with_framerate(0, 0, 1, 4, 7, fr);
    assert!(a.is_equals_to_hmsf(&b));
    assert!(!a.is_equals_to_hmsf(&c));
}

#[test]
fn correct_with_framerate_requantizes_frames() {
    let mut t = Timecode::new_with_framerate(0, 0, 0, 30, 0, Framerate::Fixed(60));
    assert_eq!(t.frames(), 30);
    t.correct_with_framerate(Framerate::Fixed(24));
    assert_eq!(t.seconds(), 1);
    assert_eq!(t.frames(), 6);
}

#[test]
fn reset_zeroes_fields_and_keeps_rate() {
    let fr = Framerate::Fixed(24);
    let mut t = Timecode::new_with_framerate(1, 2, 3, 4, 5, fr);
    t.reset();
    assert_eq!(t.hours(), 0);
    assert_eq!(t.minutes(), 0);
    assert_eq!(t.seconds(), 0);
    assert_eq!(t.frames(), 0);
    assert_eq!(t.nanoframes(), 0);
    assert_eq!(t.framerate(), fr);
}

#[test]
fn set_by_duration_measures_from_zero() {
    let fr = Framerate::Fixed(24);
    let mut t = Timecode::new_with_framerate(0, 0, 30, 0, 0, fr);
    t.set_by_duration(2_000_000_000);
    assert_eq!(t.seconds(), 2);
    assert_eq!(t.frames(), 0);
}

#[test]
fn fraction_comparisons() {
    assert!(Fraction::one().is_at_least_one());
    assert!(Fraction::new(3, 2).is_at_least_one());
    assert!(!Fraction::new(1, 2).is_at_least_one());
}

#[test]
fn integer_lerp_is_exact_and_saturating() {
    assert_eq!(lerp_i64(0, 10, &Fraction::new(1, 2)), 5);
    assert_eq!(lerp_i64(10, 0, &Fraction::new(1, 2)), 5);
    assert_eq!(lerp_i64(0, 10, &Fraction::new(2, 1)), 20);
    assert_eq!(lerp_i64(-6, 6, &Fraction::new(1, 3)), -2);
    assert_eq!(lerp_i64(0, i64::MAX, &Fraction::new(3, 1)), i64::MAX);
}

#[test]
fn rendering_matches_field_layout() {
    let fr = Framerate::Fixed(24);
    let t = Timecode::new_with_framerate(0, 1, 31, 7, 500_000_000, fr);
    assert_eq!(t.as_string(), "00:01:31:07 (24)");
    assert_eq!(t.full_as_string(), "00:01:31:07:500000000 (24)");
    assert_eq!(t.hms_as_string(), "00:01:31");
    assert_eq!(fr.as_string(), "24");
    assert_eq!(Framerate::Timestamp.as_string(), "0");
}
