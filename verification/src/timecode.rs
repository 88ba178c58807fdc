//! Timecodes: instants expressed as hours, minutes, seconds, frames and
//! nanoframes (billionths of a frame), bound to a framerate policy, with
//! carry/borrow normalization and arithmetic.

use vstd::prelude::*;
use vstd::arithmetic::div_mod::lemma_fundamental_div_mod;
use vstd::arithmetic::div_mod::lemma_fundamental_div_mod_converse;
use vstd::arithmetic::div_mod::lemma_mod_division_less_than_divisor;
use vstd::arithmetic::div_mod::lemma_div_pos_is_pos;

verus! {

/// A quotient of a nonnegative value by a divisor of at least one stays
/// between zero and the dividend.
pub proof fn lemma_div_bounds(x: int, d: int)
    requires
        0 <= x,
        1 <= d,
    ensures
        0 <= x / d <= x,
{
    lemma_div_pos_is_pos(x, d);
    lemma_fundamental_div_mod(x, d);
    assert(x / d <= x) by (nonlinear_arith)
        requires
            x == d * (x / d) + x % d,
            0 <= x % d,
            0 <= x / d,
            1 <= d,
    ;
}

/// Nanoframes per frame: one frame is split into this many sub-frame units.
pub const NANOFRAMES_PER_FRAME: i64 = 1_000_000_000;

/// Nanoseconds per second.
pub const NANOS_PER_SECOND: i64 = 1_000_000_000;

/// Nanoseconds per minute.
pub const NANOS_PER_MINUTE: i64 = 60_000_000_000;

/// Nanoseconds per hour.
pub const NANOS_PER_HOUR: i64 = 3_600_000_000_000;

/// Largest magnitude the hours field may reach in a well-formed timecode;
/// keeps every nanosecond conversion inside `i64`.
pub const MAX_HOURS: i64 = 2_100_000;

/// Largest magnitude of the raw frame count in timestamp mode, where frames
/// never carry into seconds.
pub const MAX_RAW_FRAMES: i64 = 1_000_000_000;

/// Largest supported frames-per-second value.
pub const MAX_FPS: u32 = 100_000;

/// Bound on the non-nanoframe fields accepted by renormalization; generous
/// enough for every public operation while keeping the carries inside `i64`.
pub const FIELD_LIMIT: i64 = 4_000_000_000_000_000;

/// Temporal quantization policy for a timecode.
#[derive(Copy, Clone, Debug, PartialEq, Eq, Structural)]
pub enum Framerate {
    /// No scaling: the frame field is a raw delta count that never carries
    /// into seconds.
    Timestamp,
    /// Frames are quantized to whole units of the given frames-per-second
    /// rate; sub-frame positions are ignored while tweening.
    Fixed(u32),
    /// Same rate as `Fixed`, but sub-frame positions stay meaningful during
    /// interpolation.
    Interpolated(u32),
}

impl Framerate {
    /// Frames per second of this policy; zero in timestamp mode.
    pub open spec fn spec_fps(self) -> int {
        match self {
            Framerate::Timestamp => 0,
            Framerate::Fixed(f) => f as int,
            Framerate::Interpolated(f) => f as int,
        }
    }

    /// A usable policy: a quantized rate is at least one and at most
    /// `MAX_FPS` frames per second.
    pub open spec fn wf(self) -> bool {
        match self {
            Framerate::Timestamp => true,
            Framerate::Fixed(f) => 1 <= f <= MAX_FPS,
            Framerate::Interpolated(f) => 1 <= f <= MAX_FPS,
        }
    }

    /// Frames per second; zero in timestamp mode.
    pub fn fps(&self) -> (r: u32)
        ensures
            r as int == self.spec_fps(),
    {
        match self {
            Framerate::Timestamp => 0,
            Framerate::Fixed(f) => *f,
            Framerate::Interpolated(f) => *f,
        }
    }

    /// The frames-per-second rate rendered in decimal; zero in timestamp
    /// mode.
    pub fn as_string(&self) -> String {
        fmt_fps(self.fps())
    }

    pub fn is_timestamp(&self) -> (r: bool)
        ensures
            r == (self is Timestamp),
    {
        matches!(self, Framerate::Timestamp)
    }

    pub fn is_interpolated(&self) -> (r: bool)
        ensures
            r == (self is Interpolated),
    {
        matches!(self, Framerate::Interpolated(_))
    }
}

/// One instant: hours, minutes, seconds, frames and nanoframes, bound to a
/// framerate policy. Construction and every mutation renormalize the fields.
#[derive(Copy, Clone, Debug, PartialEq, Eq, Structural)]
pub struct Timecode {
    pub hours: i64,
    pub minutes: i64,
    pub seconds: i64,
    pub frames: i64,
    pub nanoframes: i64,
    pub framerate: Framerate,
}

impl Timecode {
    /// The seconds expressed by the hours, minutes and seconds fields alone.
    pub open spec fn spec_total_seconds(self) -> int {
        3600 * self.hours + 60 * self.minutes + self.seconds
    }

    /// Frames and nanoframes folded into one nanoframe count.
    pub open spec fn spec_frame_nanos(self) -> int {
        self.frames * NANOFRAMES_PER_FRAME + self.nanoframes
    }

    /// The whole instant folded into one nanoframe count; meaningful only
    /// for a quantized (nonzero) framerate, which fixes how many frames one
    /// second holds.
    pub open spec fn spec_total_nanoframes(self) -> int {
        self.nanoframes + NANOFRAMES_PER_FRAME * (self.frames + self.framerate.spec_fps()
            * self.spec_total_seconds())
    }

    /// Fields are in their normalized ranges and small enough for every
    /// conversion to stay inside `i64`.
    pub open spec fn wf(self) -> bool {
        &&& self.framerate.wf()
        &&& 0 <= self.nanoframes < NANOFRAMES_PER_FRAME
        &&& 0 <= self.seconds <= 59
        &&& 0 <= self.minutes <= 59
        &&& (-MAX_HOURS) <= self.hours <= MAX_HOURS
        &&& if self.framerate.spec_fps() == 0 {
            (-MAX_RAW_FRAMES) <= self.frames <= MAX_RAW_FRAMES
        } else {
            0 <= self.frames < self.framerate.spec_fps()
        }
    }

    #[inline]
    pub fn hours(&self) -> (r: i64)
        ensures
            r == self.hours,
    {
        self.hours
    }

    #[inline]
    pub fn minutes(&self) -> (r: i64)
        ensures
            r == self.minutes,
    {
        self.minutes
    }

    #[inline]
    pub fn seconds(&self) -> (r: i64)
        ensures
            r == self.seconds,
    {
        self.seconds
    }

    #[inline]
    pub fn frames(&self) -> (r: i64)
        ensures
            r == self.frames,
    {
        self.frames
    }

    #[inline]
    pub fn nanoframes(&self) -> (r: i64)
        ensures
            r == self.nanoframes,
    {
        self.nanoframes
    }

    #[inline]
    pub fn framerate(&self) -> (r: Framerate)
        ensures
            r == self.framerate,
    {
        self.framerate
    }

    #[inline]
    pub fn set_framerate(&mut self, fr: Framerate)
        ensures
            *final(self) == (Timecode { framerate: fr, ..*old(self) }),
    {
        self.framerate = fr;
    }
}

impl Default for Timecode {
    /// The zero instant in raw timestamp mode.
    fn default() -> (r: Timecode)
        ensures
            r == (Timecode {
                hours: 0,
                minutes: 0,
                seconds: 0,
                frames: 0,
                nanoframes: 0,
                framerate: Framerate::Timestamp,
            }),
            r.wf(),
    {
        Timecode {
            hours: 0,
            minutes: 0,
            seconds: 0,
            frames: 0,
            nanoframes: 0,
            framerate: Framerate::Timestamp,
        }
    }
}

/// Floored quotient and Euclidean remainder of `x` by `d`.
fn floor_div_rem(x: i64, d: i64) -> (qr: (i64, i64))
    requires
        1 <= d <= 1_000_000_000,
        (-9_000_000_000_000_000_000) <= x,
    ensures
        qr.0 as int == x as int / d as int,
        qr.1 as int == x as int % d as int,
{
    if x >= 0 {
        let q = x / d;
        let r = x % d;
        (q, r)
    } else {
        let a = -x - 1;
        let q0 = a / d;
        let r0 = a % d;
        let q = -q0 - 1;
        proof {
            lemma_fundamental_div_mod(a as int, d as int);
        }
        let r = d - 1 - r0;
        proof {
            assert(x as int == q as int * d as int + r as int) by (nonlinear_arith)
                requires
                    a as int == d as int * q0 as int + r0 as int,
                    a as int == -(x as int) - 1,
                    q as int == -(q0 as int) - 1,
                    r as int == d as int - 1 - r0 as int,
            ;
            lemma_fundamental_div_mod_converse(x as int, d as int, q as int, r as int);
        }
        (q, r)
    }
}

/// The staged normal form of raw timecode fields: carry nanoframes into
/// frames, frames into seconds when the rate is quantized, seconds into
/// minutes, and minutes into hours, each by one floored division. Carries
/// run in both directions at once, since a floored quotient of a negative
/// excess is exactly the borrow.
pub open spec fn norm_parts(fps: int, h: int, m: int, s: int, f: int, nf: int) -> (
    int,
    int,
    int,
    int,
    int,
) {
    let g = NANOFRAMES_PER_FRAME as int;
    let f1 = f + nf / g;
    let nf1 = nf % g;
    let s1 = if fps == 0 {
        s
    } else {
        s + f1 / fps
    };
    let f2 = if fps == 0 {
        f1
    } else {
        f1 % fps
    };
    let m1 = m + s1 / 60;
    let s2 = s1 % 60;
    let h1 = h + m1 / 60;
    let m2 = m1 % 60;
    (h1, m2, s2, f2, nf1)
}

/// The whole instant as one nanoframe count, at a quantized rate `fps`.
pub open spec fn folded_nanoframes(fps: int, h: int, m: int, s: int, f: int, nf: int) -> int {
    nf + (NANOFRAMES_PER_FRAME as int) * (f + fps * (s + 60 * m + 3600 * h))
}

/// The normal form keeps every field in range: nanoframes below one frame,
/// frames below the rate when quantized, seconds and minutes below sixty.
pub proof fn lemma_norm_parts_ranges(fps: int, h: int, m: int, s: int, f: int, nf: int)
    requires
        fps >= 0,
    ensures
        ({
            let (h1, m1, s1, f1, nf1) = norm_parts(fps, h, m, s, f, nf);
            &&& 0 <= nf1 < NANOFRAMES_PER_FRAME
            &&& 0 <= s1 < 60
            &&& 0 <= m1 < 60
            &&& fps >= 1 ==> 0 <= f1 < fps
        }),
{
    let g = NANOFRAMES_PER_FRAME as int;
    lemma_mod_division_less_than_divisor(nf, g);
    if fps >= 1 {
        lemma_mod_division_less_than_divisor(f + nf / g, fps);
    }
    let s1 = if fps == 0 {
        s
    } else {
        s + (f + nf / g) / fps
    };
    lemma_mod_division_less_than_divisor(s1, 60);
    lemma_mod_division_less_than_divisor(m + s1 / 60, 60);
}

/// Normalization preserves the folded nanoframe count at a quantized rate.
pub proof fn lemma_norm_parts_conserves_fixed(fps: int, h: int, m: int, s: int, f: int, nf: int)
    requires
        fps >= 1,
    ensures
        ({
            let (h1, m1, s1, f1, nf1) = norm_parts(fps, h, m, s, f, nf);
            folded_nanoframes(fps, h1, m1, s1, f1, nf1) == folded_nanoframes(fps, h, m, s, f, nf)
        }),
{
    let g = NANOFRAMES_PER_FRAME as int;
    let qn = nf / g;
    let nf1 = nf % g;
    let fx1 = f + qn;
    let qf = fx1 / fps;
    let f2 = fx1 % fps;
    let s1 = s + qf;
    let qs = s1 / 60;
    let s2 = s1 % 60;
    let m1 = m + qs;
    let qm = m1 / 60;
    let m2 = m1 % 60;
    let h1 = h + qm;
    lemma_fundamental_div_mod(nf, g);
    lemma_fundamental_div_mod(fx1, fps);
    lemma_fundamental_div_mod(s1, 60);
    lemma_fundamental_div_mod(m1, 60);
    assert(nf1 + g * (f2 + fps * (s2 + 60 * m2 + 3600 * h1)) == nf + g * (f + fps * (s + 60 * m
        + 3600 * h))) by (nonlinear_arith)
        requires
            nf == g * qn + nf1,
            fx1 == f + qn,
            fx1 == fps * qf + f2,
            s1 == s + qf,
            s1 == 60 * qs + s2,
            m1 == m + qs,
            m1 == 60 * qm + m2,
            h1 == h + qm,
    ;
}

/// Normalization at a raw timestamp rate preserves the folded frame count
/// and the folded second count separately.
pub proof fn lemma_norm_parts_conserves_timestamp(h: int, m: int, s: int, f: int, nf: int)
    ensures
        ({
            let (h1, m1, s1, f1, nf1) = norm_parts(0, h, m, s, f, nf);
            &&& f1 * (NANOFRAMES_PER_FRAME as int) + nf1 == f * (NANOFRAMES_PER_FRAME as int) + nf
            &&& 3600 * h1 + 60 * m1 + s1 == 3600 * h + 60 * m + s
        }),
{
    let g = NANOFRAMES_PER_FRAME as int;
    lemma_fundamental_div_mod(nf, g);
    lemma_fundamental_div_mod(s, 60);
    lemma_fundamental_div_mod(m + s / 60, 60);
}

/// Exclusive upper bound on the folded nanoframe count of a well-formed
/// timecode at a quantized rate `fps`.
pub open spec fn spec_fold_cap(fps: int) -> int {
    (MAX_HOURS as int + 1) * 3600 * fps * (NANOFRAMES_PER_FRAME as int)
}

/// Inclusive lower bound on the folded nanoframe count of a well-formed
/// timecode at a quantized rate `fps`.
pub open spec fn spec_fold_floor(fps: int) -> int {
    -(MAX_HOURS as int) * 3600 * fps * (NANOFRAMES_PER_FRAME as int)
}

/// Raw fields from which renormalization yields a well-formed timecode
/// without any carry leaving `i64`.
pub open spec fn renormable(fr: Framerate, h: int, m: int, s: int, f: int, nf: int) -> bool {
    let g = NANOFRAMES_PER_FRAME as int;
    let fps = fr.spec_fps();
    &&& fr.wf()
    &&& (-FIELD_LIMIT as int) <= h <= FIELD_LIMIT as int
    &&& (-FIELD_LIMIT as int) <= m <= FIELD_LIMIT as int
    &&& (-FIELD_LIMIT as int) <= s <= FIELD_LIMIT as int
    &&& (-FIELD_LIMIT as int) <= f <= FIELD_LIMIT as int
    &&& (-9_000_000_000_000_000_000) <= nf <= i64::MAX as int
    &&& if fps == 0 {
        &&& (-(MAX_RAW_FRAMES as int)) * g <= f * g + nf <= (MAX_RAW_FRAMES as int) * g + (g - 1)
        &&& (-(MAX_HOURS as int)) * 3600 <= 3600 * h + 60 * m + s <= (MAX_HOURS as int) * 3600
            + 3599
    } else {
        spec_fold_floor(fps) <= folded_nanoframes(fps, h, m, s, f, nf) < spec_fold_cap(fps)
    }
}

/// `new` is the normal form of the given raw fields at the given rate.
pub open spec fn is_norm_of(
    new: Timecode,
    fr: Framerate,
    h: int,
    m: int,
    s: int,
    f: int,
    nf: int,
) -> bool {
    &&& new.framerate == fr
    &&& (
        new.hours as int,
        new.minutes as int,
        new.seconds as int,
        new.frames as int,
        new.nanoframes as int,
    ) == norm_parts(fr.spec_fps(), h, m, s, f, nf)
}

/// The normal form of renormable fields is well-formed: the hour bound
/// follows from the folded caps, the rest from the carry ranges.
pub proof fn lemma_norm_parts_wf(fr: Framerate, h: int, m: int, s: int, f: int, nf: int)
    requires
        renormable(fr, h, m, s, f, nf),
    ensures
        ({
            let fps = fr.spec_fps();
            let (h1, m1, s1, f1, nf1) = norm_parts(fps, h, m, s, f, nf);
            &&& 0 <= nf1 < NANOFRAMES_PER_FRAME
            &&& 0 <= s1 < 60
            &&& 0 <= m1 < 60
            &&& (-MAX_HOURS as int) <= h1 <= MAX_HOURS as int
            &&& fps >= 1 ==> 0 <= f1 < fps
            &&& fps == 0 ==> (-MAX_RAW_FRAMES as int) <= f1 <= MAX_RAW_FRAMES as int
            &&& (0 <= m && 0 <= s && 0 <= f && 0 <= nf) ==> h1 >= h
        }),
{
    let g = NANOFRAMES_PER_FRAME as int;
    let fps = fr.spec_fps();
    let (h1, m1, s1, f1, nf1) = norm_parts(fps, h, m, s, f, nf);
    lemma_norm_parts_ranges(fps, h, m, s, f, nf);
    let fx1 = f + nf / g;
    let sx1 = if fps == 0 {
        s
    } else {
        s + fx1 / fps
    };
    let mx1 = m + sx1 / 60;
    if 0 <= m && 0 <= s && 0 <= f && 0 <= nf {
        lemma_div_pos_is_pos(nf, g);
        if fps >= 1 {
            lemma_div_pos_is_pos(fx1, fps);
        }
        lemma_div_pos_is_pos(sx1, 60);
        lemma_div_pos_is_pos(mx1, 60);
    }
    if fps == 0 {
        lemma_norm_parts_conserves_timestamp(h, m, s, f, nf);
        assert((-MAX_RAW_FRAMES as int) <= f1 <= MAX_RAW_FRAMES as int) by (nonlinear_arith)
            requires
                f1 * g + nf1 == f * g + nf,
                0 <= nf1 < g,
                g == 1_000_000_000,
                (-(MAX_RAW_FRAMES as int)) * g <= f * g + nf <= (MAX_RAW_FRAMES as int) * g + (g
                    - 1),
        ;
        assert((-MAX_HOURS as int) <= h1 <= MAX_HOURS as int) by (nonlinear_arith)
            requires
                3600 * h1 + 60 * m1 + s1 == 3600 * h + 60 * m + s,
                0 <= s1 < 60,
                0 <= m1 < 60,
                (-(MAX_HOURS as int)) * 3600 <= 3600 * h + 60 * m + s <= (MAX_HOURS as int) * 3600
                    + 3599,
        ;
    } else {
        lemma_norm_parts_conserves_fixed(fps, h, m, s, f, nf);
        assert((-MAX_HOURS as int) <= h1 <= MAX_HOURS as int) by (nonlinear_arith)
            requires
                folded_nanoframes(fps, h1, m1, s1, f1, nf1) == folded_nanoframes(
                    fps,
                    h,
                    m,
                    s,
                    f,
                    nf,
                ),
                folded_nanoframes(fps, h1, m1, s1, f1, nf1) == nf1 + g * (f1 + fps * (s1 + 60 * m1
                    + 3600 * h1)),
                spec_fold_floor(fps) <= folded_nanoframes(fps, h, m, s, f, nf) < spec_fold_cap(
                    fps,
                ),
                spec_fold_cap(fps) == (MAX_HOURS as int + 1) * 3600 * fps * g,
                spec_fold_floor(fps) == -(MAX_HOURS as int) * 3600 * fps * g,
                0 <= nf1 < g,
                0 <= f1 < fps,
                0 <= s1 < 60,
                0 <= m1 < 60,
                1 <= fps,
                g == 1_000_000_000,
        ;
    }
}

impl Timecode {
    /// Carry every field into range, in both directions; the one asymmetry
    /// is a raw timestamp rate, where frames never carry into seconds.
    fn normalize(&mut self)
        requires
            old(self).framerate.wf(),
            (-FIELD_LIMIT) <= old(self).hours <= FIELD_LIMIT,
            (-FIELD_LIMIT) <= old(self).minutes <= FIELD_LIMIT,
            (-FIELD_LIMIT) <= old(self).seconds <= FIELD_LIMIT,
            (-FIELD_LIMIT) <= old(self).frames <= FIELD_LIMIT,
            (-9_000_000_000_000_000_000) <= old(self).nanoframes,
        ensures
            final(self).framerate == old(self).framerate,
            (
                final(self).hours as int,
                final(self).minutes as int,
                final(self).seconds as int,
                final(self).frames as int,
                final(self).nanoframes as int,
            ) == norm_parts(
                old(self).framerate.spec_fps(),
                old(self).hours as int,
                old(self).minutes as int,
                old(self).seconds as int,
                old(self).frames as int,
                old(self).nanoframes as int,
            ),
    {
        let ghost nf0: int = old(self).nanoframes as int;
        let fps_u32 = self.framerate.fps();
        let fps = fps_u32 as i64;
        let (qn, rn) = floor_div_rem(self.nanoframes, NANOFRAMES_PER_FRAME);
        proof {
            lemma_fundamental_div_mod(nf0, NANOFRAMES_PER_FRAME as int);
            assert(-9_300_000_000 <= qn as int <= 9_300_000_000) by (nonlinear_arith)
                requires
                    nf0 == 1_000_000_000 * (qn as int) + (rn as int),
                    0 <= (rn as int) < 1_000_000_000,
                    (-9_300_000_000_000_000_000) <= nf0 <= 9_300_000_000_000_000_000,
            ;
        }
        self.frames = self.frames + qn;
        self.nanoframes = rn;
        if fps != 0 {
            let (qf, rf) = floor_div_rem(self.frames, fps);
            proof {
                lemma_fundamental_div_mod(self.frames as int, fps as int);
                assert(-5_000_000_000_000_000 <= qf as int <= 5_000_000_000_000_000)
                    by (nonlinear_arith)
                    requires
                        self.frames as int == fps as int * (qf as int) + (rf as int),
                        0 <= (rf as int) < (fps as int),
                        1 <= fps as int,
                        (-4_100_000_000_000_000) <= self.frames as int <= 4_100_000_000_000_000,
                ;
            }
            self.seconds = self.seconds + qf;
            self.frames = rf;
        }
        let (qs, rs) = floor_div_rem(self.seconds, 60);
        proof {
            lemma_fundamental_div_mod(self.seconds as int, 60);
            assert(-1_000_000_000_000_000 <= qs as int <= 1_000_000_000_000_000)
                by (nonlinear_arith)
                requires
                    self.seconds as int == 60 * (qs as int) + (rs as int),
                    0 <= (rs as int) < 60,
                    (-9_100_000_000_000_000) <= self.seconds as int <= 9_100_000_000_000_000,
            ;
        }
        self.minutes = self.minutes + qs;
        self.seconds = rs;
        let (qm, rm) = floor_div_rem(self.minutes, 60);
        proof {
            lemma_fundamental_div_mod(self.minutes as int, 60);
            assert(-1_000_000_000_000_000 <= qm as int <= 1_000_000_000_000_000)
                by (nonlinear_arith)
                requires
                    self.minutes as int == 60 * (qm as int) + (rm as int),
                    0 <= (rm as int) < 60,
                    (-9_100_000_000_000_000) <= self.minutes as int <= 9_100_000_000_000_000,
            ;
        }
        self.hours = self.hours + qm;
        self.minutes = rm;
    }

    /// Renormalize and re-establish well-formedness and conservation.
    fn renorm(&mut self)
        requires
            renormable(
                old(self).framerate,
                old(self).hours as int,
                old(self).minutes as int,
                old(self).seconds as int,
                old(self).frames as int,
                old(self).nanoframes as int,
            ),
        ensures
            is_norm_of(
                *final(self),
                old(self).framerate,
                old(self).hours as int,
                old(self).minutes as int,
                old(self).seconds as int,
                old(self).frames as int,
                old(self).nanoframes as int,
            ),
            final(self).wf(),
            old(self).framerate.spec_fps() >= 1 ==> final(self).spec_total_nanoframes()
                == folded_nanoframes(
                old(self).framerate.spec_fps(),
                old(self).hours as int,
                old(self).minutes as int,
                old(self).seconds as int,
                old(self).frames as int,
                old(self).nanoframes as int,
            ),
            old(self).framerate.spec_fps() == 0 ==> {
                &&& final(self).spec_frame_nanos() == old(self).spec_frame_nanos()
                &&& final(self).spec_total_seconds() == old(self).spec_total_seconds()
            },
            (0 <= old(self).minutes && 0 <= old(self).seconds && 0 <= old(self).frames && 0 <= old(
                self,
            ).nanoframes) ==> final(self).hours >= old(self).hours,
    {
        proof {
            lemma_norm_parts_wf(
                self.framerate,
                self.hours as int,
                self.minutes as int,
                self.seconds as int,
                self.frames as int,
                self.nanoframes as int,
            );
            if self.framerate.spec_fps() >= 1 {
                lemma_norm_parts_conserves_fixed(
                    self.framerate.spec_fps(),
                    self.hours as int,
                    self.minutes as int,
                    self.seconds as int,
                    self.frames as int,
                    self.nanoframes as int,
                );
            } else {
                lemma_norm_parts_conserves_timestamp(
                    self.hours as int,
                    self.minutes as int,
                    self.seconds as int,
                    self.frames as int,
                    self.nanoframes as int,
                );
            }
        }
        self.normalize();
    }

    /// The general constructor: normalizes immediately.
    pub fn new_with_framerate(h: i64, m: i64, s: i64, f: i64, nf: i64, fr: Framerate) -> (r:
        Timecode)
        requires
            renormable(fr, h as int, m as int, s as int, f as int, nf as int),
            0 <= h,
            0 <= m,
            0 <= s,
            0 <= f,
            0 <= nf,
        ensures
            is_norm_of(r, fr, h as int, m as int, s as int, f as int, nf as int),
            r.wf(),
            r.hours >= 0,
            fr.spec_fps() >= 1 ==> r.spec_total_nanoframes() == folded_nanoframes(
                fr.spec_fps(),
                h as int,
                m as int,
                s as int,
                f as int,
                nf as int,
            ),
            fr.spec_fps() == 0 ==> {
                &&& r.spec_frame_nanos() == f as int * NANOFRAMES_PER_FRAME + nf as int
                &&& r.spec_total_seconds() == 3600 * h as int + 60 * m as int + s as int
            },
    {
        let mut t = Timecode {
            hours: h,
            minutes: m,
            seconds: s,
            frames: f,
            nanoframes: nf,
            framerate: fr,
        };
        t.renorm();
        t
    }

    /// A raw timestamp-mode timecode from hours, minutes, seconds and frames.
    pub fn new(h: i64, m: i64, s: i64, f: i64) -> (r: Timecode)
        requires
            renormable(Framerate::Timestamp, h as int, m as int, s as int, f as int, 0),
            0 <= h,
            0 <= m,
            0 <= s,
            0 <= f,
        ensures
            is_norm_of(r, Framerate::Timestamp, h as int, m as int, s as int, f as int, 0),
            r.wf(),
            r.hours >= 0,
            r.spec_frame_nanos() == f as int * NANOFRAMES_PER_FRAME,
            r.spec_total_seconds() == 3600 * h as int + 60 * m as int + s as int,
    {
        Timecode::new_with_framerate(h, m, s, f, 0, Framerate::Timestamp)
    }

    /// Rebind to a framerate and renormalize under it.
    pub fn correct_with_framerate(&mut self, fr: Framerate)
        requires
            renormable(
                fr,
                old(self).hours as int,
                old(self).minutes as int,
                old(self).seconds as int,
                old(self).frames as int,
                old(self).nanoframes as int,
            ),
        ensures
            is_norm_of(
                *final(self),
                fr,
                old(self).hours as int,
                old(self).minutes as int,
                old(self).seconds as int,
                old(self).frames as int,
                old(self).nanoframes as int,
            ),
            final(self).wf(),
    {
        self.framerate = fr;
        self.renorm();
    }
}

/// A well-formed timecode's folded count sits inside the caps that
/// renormalization demands, with room for small steps.
pub proof fn lemma_wf_fold_bounds(tc: Timecode)
    requires
        tc.wf(),
        tc.framerate.spec_fps() >= 1,
    ensures
        spec_fold_floor(tc.framerate.spec_fps()) <= tc.spec_total_nanoframes(),
        tc.spec_total_nanoframes() < spec_fold_cap(tc.framerate.spec_fps()),
        tc.hours < MAX_HOURS ==> tc.spec_total_nanoframes() + 3600 * tc.framerate.spec_fps() * (
        NANOFRAMES_PER_FRAME as int) < spec_fold_cap(tc.framerate.spec_fps()),
        tc.hours > -MAX_HOURS ==> spec_fold_floor(tc.framerate.spec_fps()) + 3600
            * tc.framerate.spec_fps() * (NANOFRAMES_PER_FRAME as int) <= tc.spec_total_nanoframes(),
{
    let g = NANOFRAMES_PER_FRAME as int;
    let fps = tc.framerate.spec_fps();
    assert((spec_fold_floor(fps) <= tc.spec_total_nanoframes() && tc.spec_total_nanoframes()
        < spec_fold_cap(fps)) && (tc.hours < MAX_HOURS ==> tc.spec_total_nanoframes() + 3600 * fps
        * g < spec_fold_cap(fps)) && (tc.hours > -MAX_HOURS ==> spec_fold_floor(fps) + 3600 * fps
        * g <= tc.spec_total_nanoframes())) by (nonlinear_arith)
        requires
            tc.spec_total_nanoframes() == tc.nanoframes + g * (tc.frames + fps * (tc.seconds + 60
                * tc.minutes + 3600 * tc.hours)),
            spec_fold_cap(fps) == (MAX_HOURS as int + 1) * 3600 * fps * g,
            spec_fold_floor(fps) == -(MAX_HOURS as int) * 3600 * fps * g,
            0 <= tc.nanoframes < g,
            0 <= tc.frames < fps,
            0 <= tc.seconds <= 59,
            0 <= tc.minutes <= 59,
            (-MAX_HOURS as int) <= tc.hours <= MAX_HOURS as int,
            1 <= fps,
            g == 1_000_000_000,
    ;
}

/// Changing raw fields by deltas moves the folded count by the matching
/// weights: one nanoframe, one frame, one second, one minute, one hour.
pub proof fn lemma_folded_step(
    fps: int,
    h: int,
    m: int,
    s: int,
    f: int,
    nf: int,
    dh: int,
    dm: int,
    ds: int,
    df: int,
    dnf: int,
)
    ensures
        folded_nanoframes(fps, h + dh, m + dm, s + ds, f + df, nf + dnf) == folded_nanoframes(
            fps,
            h,
            m,
            s,
            f,
            nf,
        ) + dnf + (NANOFRAMES_PER_FRAME as int) * (df + fps * (ds + 60 * dm + 3600 * dh)),
{
    let g = NANOFRAMES_PER_FRAME as int;
    let t1 = folded_nanoframes(fps, h + dh, m + dm, s + ds, f + df, nf + dnf);
    let t0 = folded_nanoframes(fps, h, m, s, f, nf);
    assert(t1 == t0 + dnf + g * (df + fps * (ds + 60 * dm + 3600 * dh))) by (nonlinear_arith)
        requires
            t1 == (nf + dnf) + g * ((f + df) + fps * ((s + ds) + 60 * (m + dm) + 3600 * (h + dh))),
            t0 == nf + g * (f + fps * (s + 60 * m + 3600 * h)),
    ;
}

impl Timecode {
    /// Step one field up by one unit and renormalize; shared body of the
    /// `next_*` steps and, with negative deltas, the `back_*` steps.
    fn step(&mut self, dm: i64, ds: i64, df: i64)
        requires
            old(self).wf(),
            -1 <= dm <= 1,
            -1 <= ds <= 1,
            -1 <= df <= 1,
            dm + ds + df == 1 || dm + ds + df == -1,
            dm * ds == 0 && ds * df == 0 && dm * df == 0,
            dm + ds + df == 1 ==> old(self).hours < MAX_HOURS,
            dm + ds + df == -1 ==> old(self).hours > -MAX_HOURS,
            old(self).framerate.spec_fps() == 0 && df == 1 ==> old(self).frames < MAX_RAW_FRAMES,
            old(self).framerate.spec_fps() == 0 && df == -1 ==> old(self).frames > -MAX_RAW_FRAMES,
        ensures
            is_norm_of(
                *final(self),
                old(self).framerate,
                old(self).hours as int,
                old(self).minutes as int + dm as int,
                old(self).seconds as int + ds as int,
                old(self).frames as int + df as int,
                old(self).nanoframes as int,
            ),
            final(self).wf(),
            old(self).framerate.spec_fps() >= 1 ==> final(self).spec_total_nanoframes() == old(
                self,
            ).spec_total_nanoframes() + (NANOFRAMES_PER_FRAME as int) * (df as int
                + old(self).framerate.spec_fps() * (ds as int + 60 * dm as int)),
            old(self).framerate.spec_fps() >= 1 && df == 1 ==> final(self).spec_total_nanoframes()
                == old(self).spec_total_nanoframes() + NANOFRAMES_PER_FRAME,
            old(self).framerate.spec_fps() >= 1 && df == -1 ==> final(self).spec_total_nanoframes()
                == old(self).spec_total_nanoframes() - NANOFRAMES_PER_FRAME,
            old(self).framerate.spec_fps() >= 1 && ds == 1 ==> final(self).spec_total_nanoframes()
                == old(self).spec_total_nanoframes() + (NANOFRAMES_PER_FRAME as int) * old(
                self,
            ).framerate.spec_fps(),
            old(self).framerate.spec_fps() >= 1 && ds == -1 ==> final(self).spec_total_nanoframes()
                == old(self).spec_total_nanoframes() - (NANOFRAMES_PER_FRAME as int) * old(
                self,
            ).framerate.spec_fps(),
            old(self).framerate.spec_fps() >= 1 && dm == 1 ==> final(self).spec_total_nanoframes()
                == old(self).spec_total_nanoframes() + 60 * ((NANOFRAMES_PER_FRAME as int) * old(
                self,
            ).framerate.spec_fps()),
            old(self).framerate.spec_fps() >= 1 && dm == -1 ==> final(self).spec_total_nanoframes()
                == old(self).spec_total_nanoframes() - 60 * ((NANOFRAMES_PER_FRAME as int) * old(
                self,
            ).framerate.spec_fps()),
            old(self).framerate.spec_fps() == 0 ==> {
                &&& final(self).spec_frame_nanos() == old(self).spec_frame_nanos() + df as int
                    * NANOFRAMES_PER_FRAME
                &&& final(self).spec_total_seconds() == old(self).spec_total_seconds() + 60
                    * dm as int + ds as int
            },
    {
        proof {
            if self.framerate.spec_fps() >= 1 {
                lemma_wf_fold_bounds(*self);
                lemma_folded_step(
                    self.framerate.spec_fps(),
                    self.hours as int,
                    self.minutes as int,
                    self.seconds as int,
                    self.frames as int,
                    self.nanoframes as int,
                    0,
                    dm as int,
                    ds as int,
                    df as int,
                    0,
                );
                let fps = self.framerate.spec_fps();
                let dd = (NANOFRAMES_PER_FRAME as int) * (df as int + fps * (ds as int + 60
                    * dm as int));
                assert((dm as int + ds as int + df as int == 1 ==> 0 <= dd && dd <= 3600 * fps * (
                NANOFRAMES_PER_FRAME as int)) && (dm as int + ds as int + df as int == -1
                    ==> dd <= 0 && -3600 * fps * (NANOFRAMES_PER_FRAME as int) <= dd))
                    by (nonlinear_arith)
                    requires
                        dd == (NANOFRAMES_PER_FRAME as int) * (df as int + fps * (ds as int + 60
                            * dm as int)),
                        -1 <= dm as int <= 1,
                        -1 <= ds as int <= 1,
                        -1 <= df as int <= 1,
                        dm as int * ds as int == 0,
                        ds as int * df as int == 0,
                        dm as int * df as int == 0,
                        1 <= fps,
                ;
                assert((df as int == 1 && ds as int == 0 && dm as int == 0 ==> dd
                    == NANOFRAMES_PER_FRAME) && (df as int == -1 && ds as int == 0 && dm as int
                    == 0 ==> dd == -NANOFRAMES_PER_FRAME) && (ds as int == 1 && df as int == 0
                    && dm as int == 0 ==> dd == (NANOFRAMES_PER_FRAME as int) * fps) && (ds as int
                    == -1 && df as int == 0 && dm as int == 0 ==> dd == -((
                NANOFRAMES_PER_FRAME as int) * fps)) && (dm as int == 1 && df as int == 0
                    && ds as int == 0 ==> dd == 60 * ((NANOFRAMES_PER_FRAME as int) * fps)) && (
                dm as int == -1 && df as int == 0 && ds as int == 0 ==> dd == -(60 * ((
                NANOFRAMES_PER_FRAME as int) * fps)))) by (nonlinear_arith)
                    requires
                        dd == (NANOFRAMES_PER_FRAME as int) * (df as int + fps * (ds as int + 60
                            * dm as int)),
                ;
            }
        }
        self.minutes = self.minutes + dm;
        self.seconds = self.seconds + ds;
        self.frames = self.frames + df;
        self.renorm();
    }

    /// Advance by one frame and renormalize.
    #[inline]
    pub fn next_frame(&mut self)
        requires
            old(self).wf(),
            old(self).hours < MAX_HOURS,
            old(self).framerate.spec_fps() == 0 ==> old(self).frames < MAX_RAW_FRAMES,
        ensures
            is_norm_of(
                *final(self),
                old(self).framerate,
                old(self).hours as int,
                old(self).minutes as int,
                old(self).seconds as int,
                old(self).frames as int + 1,
                old(self).nanoframes as int,
            ),
            final(self).wf(),
            old(self).framerate.spec_fps() >= 1 ==> final(self).spec_total_nanoframes() == old(
                self,
            ).spec_total_nanoframes() + NANOFRAMES_PER_FRAME,
            old(self).framerate.spec_fps() == 0 ==> {
                &&& final(self).spec_frame_nanos() == old(self).spec_frame_nanos()
                    + NANOFRAMES_PER_FRAME
                &&& final(self).spec_total_seconds() == old(self).spec_total_seconds()
            },
    {
        self.step(0, 0, 1)
    }

    /// Advance by one second and renormalize.
    #[inline]
    pub fn next_second(&mut self)
        requires
            old(self).wf(),
            old(self).hours < MAX_HOURS,
        ensures
            is_norm_of(
                *final(self),
                old(self).framerate,
                old(self).hours as int,
                old(self).minutes as int,
                old(self).seconds as int + 1,
                old(self).frames as int,
                old(self).nanoframes as int,
            ),
            final(self).wf(),
            old(self).framerate.spec_fps() >= 1 ==> final(self).spec_total_nanoframes() == old(
                self,
            ).spec_total_nanoframes() + (NANOFRAMES_PER_FRAME as int)
                * old(self).framerate.spec_fps(),
            old(self).framerate.spec_fps() == 0 ==> {
                &&& final(self).spec_frame_nanos() == old(self).spec_frame_nanos()
                &&& final(self).spec_total_seconds() == old(self).spec_total_seconds() + 1
            },
    {
        self.step(0, 1, 0)
    }

    /// Advance by one minute and renormalize.
    #[inline]
    pub fn next_minute(&mut self)
        requires
            old(self).wf(),
            old(self).hours < MAX_HOURS,
        ensures
            is_norm_of(
                *final(self),
                old(self).framerate,
                old(self).hours as int,
                old(self).minutes as int + 1,
                old(self).seconds as int,
                old(self).frames as int,
                old(self).nanoframes as int,
            ),
            final(self).wf(),
            old(self).framerate.spec_fps() >= 1 ==> final(self).spec_total_nanoframes() == old(
                self,
            ).spec_total_nanoframes() + 60 * ((NANOFRAMES_PER_FRAME as int)
                * old(self).framerate.spec_fps()),
            old(self).framerate.spec_fps() == 0 ==> {
                &&& final(self).spec_frame_nanos() == old(self).spec_frame_nanos()
                &&& final(self).spec_total_seconds() == old(self).spec_total_seconds() + 60
            },
    {
        self.step(1, 0, 0)
    }

    /// Advance by one hour; hours have no modulus, so nothing renormalizes.
    #[inline]
    pub fn next_hour(&mut self)
        requires
            old(self).wf(),
            old(self).hours < MAX_HOURS,
        ensures
            *final(self) == (Timecode { hours: (old(self).hours + 1) as i64, ..*old(self) }),
            final(self).wf(),
    {
        self.hours = self.hours + 1;
    }

    /// Go back one frame and renormalize.
    #[inline]
    pub fn back_frame(&mut self)
        requires
            old(self).wf(),
            old(self).hours > -MAX_HOURS,
            old(self).framerate.spec_fps() == 0 ==> old(self).frames > -MAX_RAW_FRAMES,
        ensures
            is_norm_of(
                *final(self),
                old(self).framerate,
                old(self).hours as int,
                old(self).minutes as int,
                old(self).seconds as int,
                old(self).frames as int - 1,
                old(self).nanoframes as int,
            ),
            final(self).wf(),
            old(self).framerate.spec_fps() >= 1 ==> final(self).spec_total_nanoframes() == old(
                self,
            ).spec_total_nanoframes() - NANOFRAMES_PER_FRAME,
            old(self).framerate.spec_fps() == 0 ==> {
                &&& final(self).spec_frame_nanos() == old(self).spec_frame_nanos()
                    - NANOFRAMES_PER_FRAME
                &&& final(self).spec_total_seconds() == old(self).spec_total_seconds()
            },
    {
        self.step(0, 0, -1)
    }

    /// Go back one second and renormalize.
    #[inline]
    pub fn back_second(&mut self)
        requires
            old(self).wf(),
            old(self).hours > -MAX_HOURS,
        ensures
            is_norm_of(
                *final(self),
                old(self).framerate,
                old(self).hours as int,
                old(self).minutes as int,
                old(self).seconds as int - 1,
                old(self).frames as int,
                old(self).nanoframes as int,
            ),
            final(self).wf(),
            old(self).framerate.spec_fps() >= 1 ==> final(self).spec_total_nanoframes() == old(
                self,
            ).spec_total_nanoframes() - (NANOFRAMES_PER_FRAME as int)
                * old(self).framerate.spec_fps(),
            old(self).framerate.spec_fps() == 0 ==> {
                &&& final(self).spec_frame_nanos() == old(self).spec_frame_nanos()
                &&& final(self).spec_total_seconds() == old(self).spec_total_seconds() - 1
            },
    {
        self.step(0, -1, 0)
    }

    /// Go back one minute and renormalize.
    #[inline]
    pub fn back_minute(&mut self)
        requires
            old(self).wf(),
            old(self).hours > -MAX_HOURS,
        ensures
            is_norm_of(
                *final(self),
                old(self).framerate,
                old(self).hours as int,
                old(self).minutes as int - 1,
                old(self).seconds as int,
                old(self).frames as int,
                old(self).nanoframes as int,
            ),
            final(self).wf(),
            old(self).framerate.spec_fps() >= 1 ==> final(self).spec_total_nanoframes() == old(
                self,
            ).spec_total_nanoframes() - 60 * ((NANOFRAMES_PER_FRAME as int)
                * old(self).framerate.spec_fps()),
            old(self).framerate.spec_fps() == 0 ==> {
                &&& final(self).spec_frame_nanos() == old(self).spec_frame_nanos()
                &&& final(self).spec_total_seconds() == old(self).spec_total_seconds() - 60
            },
    {
        self.step(-1, 0, 0)
    }

    /// Go back one hour; hours have no modulus, so nothing renormalizes.
    #[inline]
    pub fn back_hour(&mut self)
        requires
            old(self).wf(),
            old(self).hours > -MAX_HOURS,
        ensures
            *final(self) == (Timecode { hours: (old(self).hours - 1) as i64, ..*old(self) }),
            final(self).wf(),
    {
        self.hours = self.hours - 1;
    }

    /// Real elapsed time in nanoseconds, measured at the reference rate
    /// `fr`. The sub-frame contribution counts only when `fr` is
    /// interpolated or the value is not being used for tweening: at a fixed
    /// rate, frames are the smallest unit that tweening may see.
    pub open spec fn spec_as_nanoseconds(self, fr: Framerate, for_tweening: bool) -> int {
        let den = if fr.spec_fps() == 0 {
            1int
        } else {
            fr.spec_fps()
        };
        let sub = if fr is Interpolated || !for_tweening {
            self.nanoframes as int / den
        } else {
            0int
        };
        sub + (self.frames as int * NANOFRAMES_PER_FRAME) / den + self.seconds * NANOS_PER_SECOND
            + self.minutes * NANOS_PER_MINUTE + self.hours * NANOS_PER_HOUR
    }

    /// Real elapsed time in nanoseconds at the reference rate `fr`.
    pub fn as_nanoseconds_with_framerate(&self, fr: &Framerate, for_tweening: bool) -> (r: i64)
        requires
            self.wf(),
            fr.wf(),
            fr.spec_fps() >= 1 ==> self.frames >= 0,
        ensures
            r as int == self.spec_as_nanoseconds(*fr, for_tweening),
    {
        let fps = fr.fps();
        let den: i64 = if fps == 0 {
            1
        } else {
            fps as i64
        };
        proof {
            lemma_div_bounds(self.nanoframes as int, den as int);
        }
        let mut nanos: i64 = 0;
        if fr.is_interpolated() || !for_tweening {
            nanos = nanos + self.nanoframes / den;
        }
        let ft: i64 = self.frames * NANOFRAMES_PER_FRAME;
        let fterm: i64;
        if den == 1 {
            proof {
                lemma_fundamental_div_mod_converse(ft as int, 1, ft as int, 0);
            }
            fterm = ft;
        } else {
            proof {
                lemma_div_bounds(ft as int, den as int);
            }
            fterm = ft / den;
        }
        nanos = nanos + fterm;
        nanos = nanos + self.seconds * NANOS_PER_SECOND;
        nanos = nanos + self.minutes * NANOS_PER_MINUTE;
        nanos = nanos + self.hours * NANOS_PER_HOUR;
        nanos
    }

    /// Real elapsed time in nanoseconds at this timecode's own rate.
    pub fn as_nanoseconds(&self) -> (r: i64)
        requires
            self.wf(),
        ensures
            r as int == self.spec_as_nanoseconds(self.framerate, false),
    {
        let fr = self.framerate;
        self.as_nanoseconds_with_framerate(&fr, false)
    }

    /// The instant as `HH:MM:SS:FF (fps)`.
    pub fn as_string(&self) -> String {
        fmt_timecode(self.hours, self.minutes, self.seconds, self.frames, self.framerate.fps())
    }

    /// The instant as `HH:MM:SS:FF:NNNNNNNNN (fps)`, sub-frame units
    /// included.
    pub fn full_as_string(&self) -> String {
        fmt_timecode_full(
            self.hours,
            self.minutes,
            self.seconds,
            self.frames,
            self.nanoframes,
            self.framerate.fps(),
        )
    }

    /// The instant as `HH:MM:SS`.
    pub fn hms_as_string(&self) -> String {
        fmt_hms(self.hours, self.minutes, self.seconds)
    }

    /// The seconds expressed by the hours, minutes and seconds fields.
    pub fn total_seconds(&self) -> (r: i64)
        requires
            self.wf(),
        ensures
            r as int == self.spec_total_seconds(),
    {
        self.hours * 3600 + self.minutes * 60 + self.seconds
    }

    /// Coarse equality at whole-frame granularity: sub-frame units ignored.
    pub open spec fn spec_equals_hmsf(self, t: Timecode) -> bool {
        &&& self.frames == t.frames
        &&& self.seconds == t.seconds
        &&& self.minutes == t.minutes
        &&& self.hours == t.hours
    }

    /// Coarse equality at whole-frame granularity: sub-frame units ignored.
    pub fn is_equals_to_hmsf(&self, t: &Timecode) -> (r: bool)
        ensures
            r == self.spec_equals_hmsf(*t),
    {
        self.frames == t.frames && self.seconds == t.seconds && self.minutes == t.minutes
            && self.hours == t.hours
    }

    /// The position of this instant inside `[begin, end]` as an exact
    /// fraction, measured in nanoseconds at this timecode's own rate with
    /// the tweening rule for sub-frame units. Anchored at `begin`: the
    /// result is `(self - begin) / (end - begin)`. A degenerate interval
    /// (`begin` and `end` at the same nanosecond) yields one, so that a
    /// tween over it completes immediately.
    pub open spec fn spec_lerp_fraction(self, begin: Timecode, end: Timecode) -> (int, int) {
        let t = self.spec_as_nanoseconds(self.framerate, true);
        let a = begin.spec_as_nanoseconds(self.framerate, true);
        let b = end.spec_as_nanoseconds(self.framerate, true);
        if b == a {
            (1int, 1int)
        } else if b > a {
            (t - a, b - a)
        } else {
            (a - t, a - b)
        }
    }

    /// The lerp fraction as a `Fraction` value.
    pub open spec fn spec_lerp_value(self, begin: Timecode, end: Timecode) -> Fraction {
        let (n, d) = self.spec_lerp_fraction(begin, end);
        Fraction { num: n as i64, den: d as i64 }
    }

    /// The fractional position of this instant between `begin` and `end`.
    pub fn get_lerp_time_between(&self, begin: &Timecode, end: &Timecode) -> (r: Fraction)
        requires
            self.wf(),
            begin.wf(),
            end.wf(),
            self.hours >= 0,
            begin.hours >= 0,
            end.hours >= 0,
            self.frames >= 0,
            begin.frames >= 0,
            end.frames >= 0,
        ensures
            r.num as int == self.spec_lerp_fraction(*begin, *end).0,
            r.den as int == self.spec_lerp_fraction(*begin, *end).1,
            r == self.spec_lerp_value(*begin, *end),
            r.wf(),
    {
        proof {
            lemma_nanoseconds_range(*self, self.framerate, true);
            lemma_nanoseconds_range(*begin, self.framerate, true);
            lemma_nanoseconds_range(*end, self.framerate, true);
        }
        let fr = self.framerate;
        let t = self.as_nanoseconds_with_framerate(&fr, true);
        let a = begin.as_nanoseconds_with_framerate(&fr, true);
        let b = end.as_nanoseconds_with_framerate(&fr, true);
        if b == a {
            Fraction { num: 1, den: 1 }
        } else if b > a {
            Fraction { num: t - a, den: b - a }
        } else {
            Fraction { num: a - t, den: a - b }
        }
    }

    /// Zero every field, keeping the framerate.
    pub fn reset(&mut self)
        ensures
            *final(self) == (Timecode {
                hours: 0,
                minutes: 0,
                seconds: 0,
                frames: 0,
                nanoframes: 0,
                framerate: old(self).framerate,
            }),
            old(self).framerate.wf() ==> final(self).wf(),
    {
        self.nanoframes = 0;
        self.frames = 0;
        self.seconds = 0;
        self.minutes = 0;
        self.hours = 0;
    }
}

impl Timecode {
    /// Fold a signed nanoframe delta into the timecode and renormalize.
    fn shift_nanoframes(&mut self, delta: i64)
        requires
            old(self).wf(),
            (-4_000_000_000_000_000_000) <= delta <= 4_000_000_000_000_000_000,
            old(self).framerate.spec_fps() >= 1 ==> old(self).spec_total_nanoframes()
                + (delta as int) < spec_fold_cap(old(self).framerate.spec_fps()),
            old(self).framerate.spec_fps() >= 1 ==> spec_fold_floor(old(self).framerate.spec_fps())
                <= old(self).spec_total_nanoframes() + delta as int,
            old(self).framerate.spec_fps() == 0 ==> (-(MAX_RAW_FRAMES as int)) * (
            NANOFRAMES_PER_FRAME as int) <= old(self).spec_frame_nanos() + delta as int <= (
            MAX_RAW_FRAMES as int) * (NANOFRAMES_PER_FRAME as int) + (NANOFRAMES_PER_FRAME - 1),
        ensures
            final(self).framerate == old(self).framerate,
            final(self).wf(),
            is_norm_of(
                *final(self),
                old(self).framerate,
                old(self).hours as int,
                old(self).minutes as int,
                old(self).seconds as int,
                old(self).frames as int,
                old(self).nanoframes as int + delta as int,
            ),
            old(self).framerate.spec_fps() >= 1 ==> final(self).spec_total_nanoframes() == old(
                self,
            ).spec_total_nanoframes() + delta as int,
            old(self).framerate.spec_fps() == 0 ==> {
                &&& final(self).spec_frame_nanos() == old(self).spec_frame_nanos() + delta as int
                &&& final(self).spec_total_seconds() == old(self).spec_total_seconds()
            },
    {
        proof {
            lemma_folded_add_nanoframes(
                self.framerate.spec_fps(),
                self.hours as int,
                self.minutes as int,
                self.seconds as int,
                self.frames as int,
                self.nanoframes as int,
                delta as int,
            );
        }
        self.nanoframes = self.nanoframes + delta;
        self.renorm();
    }

    /// Advance by a real-time duration given in nanoseconds: the duration
    /// is scaled by the framerate into nanoframes and folded in. At a raw
    /// timestamp rate the scale is zero and nothing moves.
    pub fn add_by_duration(&mut self, nanos: u64)
        requires
            old(self).wf(),
            nanos <= 4_000_000_000_000_000_000u64,
            nanos as int * old(self).framerate.spec_fps() <= 4_000_000_000_000_000_000,
            old(self).framerate.spec_fps() >= 1 ==> old(self).spec_total_nanoframes()
                + nanos as int * old(self).framerate.spec_fps() < spec_fold_cap(
                old(self).framerate.spec_fps(),
            ),
        ensures
            final(self).framerate == old(self).framerate,
            final(self).wf(),
            old(self).framerate.spec_fps() >= 1 ==> final(self).spec_total_nanoframes() == old(
                self,
            ).spec_total_nanoframes() + nanos as int * old(self).framerate.spec_fps(),
            old(self).framerate.spec_fps() == 0 ==> {
                &&& final(self).spec_frame_nanos() == old(self).spec_frame_nanos()
                &&& final(self).spec_total_seconds() == old(self).spec_total_seconds()
            },
    {
        let fps_i: i64 = self.framerate.fps() as i64;
        proof {
            assert(0 <= nanos as int * (fps_i as int)) by (nonlinear_arith)
                requires
                    0 <= nanos as int,
                    0 <= fps_i as int,
            ;
            if self.framerate.spec_fps() >= 1 {
                lemma_wf_fold_bounds(*self);
            } else {
                assert(nanos as int * (fps_i as int) == 0) by (nonlinear_arith)
                    requires
                        fps_i as int == 0,
                ;
            }
        }
        let delta: i64 = (nanos as i64) * fps_i;
        self.shift_nanoframes(delta);
    }

    /// Go back by a real-time duration given in nanoseconds.
    pub fn sub_by_duration(&mut self, nanos: u64)
        requires
            old(self).wf(),
            nanos <= 4_000_000_000_000_000_000u64,
            nanos as int * old(self).framerate.spec_fps() <= 4_000_000_000_000_000_000,
            old(self).framerate.spec_fps() >= 1 ==> spec_fold_floor(old(self).framerate.spec_fps())
                <= old(self).spec_total_nanoframes() - nanos as int * old(
                self,
            ).framerate.spec_fps(),
        ensures
            final(self).framerate == old(self).framerate,
            final(self).wf(),
            old(self).framerate.spec_fps() >= 1 ==> final(self).spec_total_nanoframes() == old(
                self,
            ).spec_total_nanoframes() - nanos as int * old(self).framerate.spec_fps(),
            old(self).framerate.spec_fps() == 0 ==> {
                &&& final(self).spec_frame_nanos() == old(self).spec_frame_nanos()
                &&& final(self).spec_total_seconds() == old(self).spec_total_seconds()
            },
    {
        let fps_i: i64 = self.framerate.fps() as i64;
        proof {
            assert(0 <= nanos as int * (fps_i as int)) by (nonlinear_arith)
                requires
                    0 <= nanos as int,
                    0 <= fps_i as int,
            ;
            if self.framerate.spec_fps() >= 1 {
                lemma_wf_fold_bounds(*self);
            } else {
                assert(nanos as int * (fps_i as int) == 0) by (nonlinear_arith)
                    requires
                        fps_i as int == 0,
                ;
            }
        }
        let delta: i64 = -((nanos as i64) * fps_i);
        self.shift_nanoframes(delta);
    }

    /// Advance by another timecode: that instant's elapsed nanoseconds,
    /// measured at this timecode's rate, scaled into nanoframes.
    pub fn add_by_timestamp(&mut self, t: Timecode)
        requires
            old(self).wf(),
            t.wf(),
            old(self).framerate.spec_fps() >= 1 ==> t.frames >= 0,
            (-4_000_000_000_000_000_000) <= t.spec_as_nanoseconds(old(self).framerate, false)
                * old(self).framerate.spec_fps() <= 4_000_000_000_000_000_000,
            old(self).framerate.spec_fps() >= 1 ==> old(self).spec_total_nanoframes()
                + t.spec_as_nanoseconds(old(self).framerate, false) * old(
                self,
            ).framerate.spec_fps() < spec_fold_cap(old(self).framerate.spec_fps()),
            old(self).framerate.spec_fps() >= 1 ==> spec_fold_floor(old(self).framerate.spec_fps())
                <= old(self).spec_total_nanoframes() + t.spec_as_nanoseconds(
                old(self).framerate,
                false,
            ) * old(self).framerate.spec_fps(),
        ensures
            final(self).framerate == old(self).framerate,
            final(self).wf(),
            old(self).framerate.spec_fps() >= 1 ==> final(self).spec_total_nanoframes() == old(
                self,
            ).spec_total_nanoframes() + t.spec_as_nanoseconds(old(self).framerate, false) * old(
                self,
            ).framerate.spec_fps(),
            old(self).framerate.spec_fps() == 0 ==> {
                &&& final(self).spec_frame_nanos() == old(self).spec_frame_nanos()
                &&& final(self).spec_total_seconds() == old(self).spec_total_seconds()
            },
    {
        let fr = self.framerate;
        let nanos = t.as_nanoseconds_with_framerate(&fr, false);
        let fps_i: i64 = fr.fps() as i64;
        proof {
            if self.framerate.spec_fps() == 0 {
                assert(nanos as int * (fps_i as int) == 0) by (nonlinear_arith)
                    requires
                        fps_i as int == 0,
                ;
            }
        }
        let delta: i64 = nanos * fps_i;
        self.shift_nanoframes(delta);
    }

    /// Go back by another timecode, measured the same way.
    pub fn sub_by_timestamp(&mut self, t: Timecode)
        requires
            old(self).wf(),
            t.wf(),
            old(self).framerate.spec_fps() >= 1 ==> t.frames >= 0,
            (-4_000_000_000_000_000_000) <= t.spec_as_nanoseconds(old(self).framerate, false)
                * old(self).framerate.spec_fps() <= 4_000_000_000_000_000_000,
            old(self).framerate.spec_fps() >= 1 ==> old(self).spec_total_nanoframes()
                - t.spec_as_nanoseconds(old(self).framerate, false) * old(
                self,
            ).framerate.spec_fps() < spec_fold_cap(old(self).framerate.spec_fps()),
            old(self).framerate.spec_fps() >= 1 ==> spec_fold_floor(old(self).framerate.spec_fps())
                <= old(self).spec_total_nanoframes() - t.spec_as_nanoseconds(
                old(self).framerate,
                false,
            ) * old(self).framerate.spec_fps(),
        ensures
            final(self).framerate == old(self).framerate,
            final(self).wf(),
            old(self).framerate.spec_fps() >= 1 ==> final(self).spec_total_nanoframes() == old(
                self,
            ).spec_total_nanoframes() - t.spec_as_nanoseconds(old(self).framerate, false) * old(
                self,
            ).framerate.spec_fps(),
            old(self).framerate.spec_fps() == 0 ==> {
                &&& final(self).spec_frame_nanos() == old(self).spec_frame_nanos()
                &&& final(self).spec_total_seconds() == old(self).spec_total_seconds()
            },
    {
        let fr = self.framerate;
        let nanos = t.as_nanoseconds_with_framerate(&fr, false);
        let fps_i: i64 = fr.fps() as i64;
        proof {
            if self.framerate.spec_fps() == 0 {
                assert(nanos as int * (fps_i as int) == 0) by (nonlinear_arith)
                    requires
                        fps_i as int == 0,
                ;
            }
        }
        let delta: i64 = -(nanos * fps_i);
        self.shift_nanoframes(delta);
    }

    /// Zero the cursor, then advance by the duration.
    pub fn set_by_duration(&mut self, nanos: u64)
        requires
            old(self).wf(),
            nanos <= 4_000_000_000_000_000_000u64,
            nanos as int * old(self).framerate.spec_fps() <= 4_000_000_000_000_000_000,
            old(self).framerate.spec_fps() >= 1 ==> nanos as int * old(self).framerate.spec_fps()
                < spec_fold_cap(old(self).framerate.spec_fps()),
        ensures
            final(self).framerate == old(self).framerate,
            final(self).wf(),
            old(self).framerate.spec_fps() >= 1 ==> final(self).spec_total_nanoframes()
                == nanos as int * old(self).framerate.spec_fps(),
            old(self).framerate.spec_fps() == 0 ==> {
                &&& final(self).spec_frame_nanos() == 0
                &&& final(self).spec_total_seconds() == 0
            },
    {
        self.reset();
        proof {
            let fps = self.framerate.spec_fps();
            assert(folded_nanoframes(fps, 0, 0, 0, 0, 0) == 0 && (fps >= 1 ==> spec_fold_floor(fps)
                <= 0)) by (nonlinear_arith)
                requires
                    spec_fold_floor(fps) == -(MAX_HOURS as int) * 3600 * fps * (
                    NANOFRAMES_PER_FRAME as int),
                    folded_nanoframes(fps, 0, 0, 0, 0, 0) == 0 + (NANOFRAMES_PER_FRAME as int) * (0
                        + fps * (0 + 60 * 0 + 3600 * 0)),
            ;
        }
        self.add_by_duration(nanos);
    }

    /// Zero the cursor, then advance by the timecode.
    pub fn set_by_timestamp(&mut self, t: Timecode)
        requires
            old(self).wf(),
            t.wf(),
            old(self).framerate.spec_fps() >= 1 ==> t.frames >= 0,
            (-4_000_000_000_000_000_000) <= t.spec_as_nanoseconds(old(self).framerate, false)
                * old(self).framerate.spec_fps() <= 4_000_000_000_000_000_000,
            old(self).framerate.spec_fps() >= 1 ==> t.spec_as_nanoseconds(
                old(self).framerate,
                false,
            ) * old(self).framerate.spec_fps() < spec_fold_cap(old(self).framerate.spec_fps()),
            old(self).framerate.spec_fps() >= 1 ==> spec_fold_floor(old(self).framerate.spec_fps())
                <= t.spec_as_nanoseconds(old(self).framerate, false) * old(
                self,
            ).framerate.spec_fps(),
        ensures
            final(self).framerate == old(self).framerate,
            final(self).wf(),
            old(self).framerate.spec_fps() >= 1 ==> final(self).spec_total_nanoframes()
                == t.spec_as_nanoseconds(old(self).framerate, false) * old(
                self,
            ).framerate.spec_fps(),
            old(self).framerate.spec_fps() == 0 ==> {
                &&& final(self).spec_frame_nanos() == 0
                &&& final(self).spec_total_seconds() == 0
            },
    {
        self.reset();
        proof {
            let fps = self.framerate.spec_fps();
            assert(folded_nanoframes(fps, 0, 0, 0, 0, 0) == 0) by (nonlinear_arith)
                requires
                    folded_nanoframes(fps, 0, 0, 0, 0, 0) == 0 + (NANOFRAMES_PER_FRAME as int) * (0
                        + fps * (0 + 60 * 0 + 3600 * 0)),
            ;
        }
        self.add_by_timestamp(t);
    }
}

/// A well-formed timecode at a quantized rate is the mixed-radix digit
/// string of its folded nanoframe count: every field is a remainder or
/// quotient of that count.
pub proof fn lemma_canonical_fields_from_total(tc: Timecode)
    requires
        tc.wf(),
        tc.framerate.spec_fps() >= 1,
    ensures
        ({
            let g = NANOFRAMES_PER_FRAME as int;
            let fps = tc.framerate.spec_fps();
            let total = tc.spec_total_nanoframes();
            &&& tc.nanoframes as int == total % g
            &&& tc.frames as int == (total / g) % fps
            &&& tc.seconds as int == (total / g / fps) % 60
            &&& tc.minutes as int == (total / g / fps / 60) % 60
            &&& tc.hours as int == total / g / fps / 60 / 60
        }),
{
    let g = NANOFRAMES_PER_FRAME as int;
    let fps = tc.framerate.spec_fps();
    let total = tc.spec_total_nanoframes();
    let b = tc.seconds + 60 * tc.minutes + 3600 * tc.hours;
    let a = tc.frames + fps * b;
    assert(total == a * g + tc.nanoframes && a == b * fps + tc.frames) by (nonlinear_arith)
        requires
            total == tc.nanoframes + g * (tc.frames + fps * b),
            a == tc.frames + fps * b,
            b == tc.seconds + 60 * tc.minutes + 3600 * tc.hours,
    ;
    lemma_fundamental_div_mod_converse(total, g, a, tc.nanoframes as int);
    lemma_fundamental_div_mod_converse(a, fps, b, tc.frames as int);
    let c = tc.minutes + 60 * tc.hours;
    lemma_fundamental_div_mod_converse(b, 60, c, tc.seconds as int);
    lemma_fundamental_div_mod_converse(c, 60, tc.hours as int, tc.minutes as int);
}

/// Two well-formed timecodes at the same quantized rate with the same
/// folded nanoframe count are the same timecode.
pub proof fn lemma_wf_total_unique(a: Timecode, b: Timecode)
    requires
        a.wf(),
        b.wf(),
        a.framerate == b.framerate,
        a.framerate.spec_fps() >= 1,
        a.spec_total_nanoframes() == b.spec_total_nanoframes(),
    ensures
        a == b,
{
    lemma_canonical_fields_from_total(a);
    lemma_canonical_fields_from_total(b);
}

/// Law: advancing by a real-time duration and then going back by the same
/// duration returns the original normalized timecode, at any quantized
/// rate. The premises are exactly what `add_by_duration` and then
/// `sub_by_duration` ensure about the folded nanoframe count, and a
/// well-formed timecode is determined by that count.
pub proof fn lemma_add_sub_duration_roundtrip(a: Timecode, b: Timecode, c: Timecode, nanos: u64)
    requires
        a.wf(),
        b.wf(),
        c.wf(),
        b.framerate == a.framerate,
        c.framerate == a.framerate,
        a.framerate.spec_fps() >= 1,
        b.spec_total_nanoframes() == a.spec_total_nanoframes() + nanos as int
            * a.framerate.spec_fps(),
        c.spec_total_nanoframes() == b.spec_total_nanoframes() - nanos as int
            * a.framerate.spec_fps(),
    ensures
        c == a,
{
    lemma_wf_total_unique(a, c);
}

/// Relies on the std `format` macro: renders the two-digit fields, the
/// frame count and the rate.
#[verifier::external_body]
fn fmt_timecode(h: i64, m: i64, s: i64, f: i64, fps: u32) -> String {
    format!("{:02}:{:02}:{:02}:{:02} ({})", h, m, s, f, fps)
}

/// Relies on the std `format` macro: as `fmt_timecode`, with the
/// nine-digit sub-frame units included.
#[verifier::external_body]
fn fmt_timecode_full(h: i64, m: i64, s: i64, f: i64, nf: i64, fps: u32) -> String {
    format!("{:02}:{:02}:{:02}:{:02}:{:09} ({})", h, m, s, f, nf, fps)
}

/// Relies on the std `format` macro: renders two-digit hour, minute and
/// second fields.
#[verifier::external_body]
fn fmt_hms(h: i64, m: i64, s: i64) -> String {
    format!("{:02}:{:02}:{:02}", h, m, s)
}

/// Relies on `u32::to_string`: the decimal rendering of the rate.
#[verifier::external_body]
fn fmt_fps(fps: u32) -> String {
    fps.to_string()
}

/// An exact interpolation fraction `num / den`, with a positive
/// denominator. Values below zero or above one describe positions outside
/// the interval that produced it.
#[derive(Copy, Clone, Debug, PartialEq, Eq, Structural)]
pub struct Fraction {
    pub num: i64,
    pub den: i64,
}

impl Fraction {
    /// A usable fraction has a positive denominator.
    pub open spec fn wf(self) -> bool {
        1 <= self.den
    }

    pub fn new(num: i64, den: i64) -> (r: Fraction)
        requires
            1 <= den,
        ensures
            r == (Fraction { num, den }),
    {
        Fraction { num, den }
    }

    /// The fraction one, as one over one.
    pub fn one() -> (r: Fraction)
        ensures
            r == (Fraction { num: 1, den: 1 }),
    {
        Fraction { num: 1, den: 1 }
    }

    /// Whether the fraction is at least one.
    pub open spec fn spec_at_least_one(self) -> bool {
        self.num >= self.den
    }

    /// Whether the fraction is at least one.
    pub fn is_at_least_one(&self) -> (r: bool)
        ensures
            r == self.spec_at_least_one(),
    {
        self.num >= self.den
    }
}

/// Adding to the nanoframes field alone moves the folded count by the same
/// amount.
pub proof fn lemma_folded_add_nanoframes(
    fps: int,
    h: int,
    m: int,
    s: int,
    f: int,
    nf: int,
    dnf: int,
)
    ensures
        folded_nanoframes(fps, h, m, s, f, nf + dnf) == folded_nanoframes(fps, h, m, s, f, nf)
            + dnf,
{
}

/// At a well-formed timecode with nonnegative hours and frames, the
/// nanosecond view stays inside a comfortable `i64` range.
pub proof fn lemma_nanoseconds_range(tc: Timecode, fr: Framerate, for_tweening: bool)
    requires
        tc.wf(),
        fr.wf(),
        fr.spec_fps() >= 1 ==> tc.frames >= 0,
    ensures
        (-8_600_000_000_000_000_000) <= tc.spec_as_nanoseconds(fr, for_tweening)
            <= 8_600_000_000_000_000_000,
        tc.hours >= 0 && tc.frames >= 0 ==> 0 <= tc.spec_as_nanoseconds(fr, for_tweening),
{
    let den = if fr.spec_fps() == 0 {
        1int
    } else {
        fr.spec_fps()
    };
    lemma_div_bounds(tc.nanoframes as int, den);
    let ft = tc.frames as int * NANOFRAMES_PER_FRAME;
    if tc.frames >= 0 {
        lemma_div_bounds(ft, den);
    } else {
        lemma_fundamental_div_mod_converse(ft, 1, ft, 0);
    }
}

} // verus!
