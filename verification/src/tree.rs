//! The sorted index underlying the keyframe store: association vectors
//! with strictly increasing keys, the two lower levels of the three-level
//! tree (frames within a second, nanoframes within a frame), and the
//! reconstruction of a timecode from its place in the tree.

use vstd::prelude::*;
use crate::timecode::Framerate;
use crate::timecode::Timecode;
use crate::timecode::MAX_HOURS;
use crate::timecode::MAX_RAW_FRAMES;
use crate::timecode::NANOFRAMES_PER_FRAME;
use crate::timecode::norm_parts;
use crate::value::Keyframe;
use crate::value::Tween;
use vstd::arithmetic::div_mod::lemma_fundamental_div_mod;
use vstd::arithmetic::div_mod::lemma_fundamental_div_mod_converse;
use vstd::arithmetic::div_mod::lemma_mod_division_less_than_divisor;
use vstd::arithmetic::div_mod::lemma_div_pos_is_pos;

verus! {

/// Keys of an association sequence are strictly increasing.
pub open spec fn keys_sorted<V>(s: Seq<(i64, V)>) -> bool {
    forall|i: int, j: int| 0 <= i < j < s.len() ==> s[i].0 < s[j].0
}

/// Some entry carries the key `k`.
pub open spec fn has_key<V>(s: Seq<(i64, V)>, k: i64) -> bool {
    exists|i: int| 0 <= i < s.len() && s[i].0 == k
}

/// The index of the entry carrying `k`; meaningful only when `has_key`.
pub open spec fn key_index<V>(s: Seq<(i64, V)>, k: i64) -> int {
    choose|i: int| 0 <= i < s.len() && s[i].0 == k
}

/// The value stored under `k`; meaningful only when `has_key`.
pub open spec fn value_of<V>(s: Seq<(i64, V)>, k: i64) -> V {
    s[key_index(s, k)].1
}

/// In a sorted association sequence a key sits at exactly one index, and
/// `key_index` names it.
pub proof fn lemma_key_index<V>(s: Seq<(i64, V)>, k: i64)
    requires
        keys_sorted(s),
        has_key(s, k),
    ensures
        0 <= key_index(s, k) < s.len(),
        s[key_index(s, k)].0 == k,
        forall|i: int| 0 <= i < s.len() && s[i].0 == k ==> i == key_index(s, k),
{
    let j = key_index(s, k);
    assert forall|i: int| 0 <= i < s.len() && s[i].0 == k implies i == j by {
        if i < j {
            assert(s[i].0 < s[j].0);
        }
        if j < i {
            assert(s[j].0 < s[i].0);
        }
    }
}

/// Replacing the value under an existing key keeps the keys and the other
/// values as they were.
pub proof fn lemma_update_entry<V>(s: Seq<(i64, V)>, idx: int, e: (i64, V))
    requires
        keys_sorted(s),
        0 <= idx < s.len(),
        s[idx].0 == e.0,
    ensures
        keys_sorted(s.update(idx, e)),
        forall|k: i64| has_key(s.update(idx, e), k) == has_key(s, k),
        value_of(s.update(idx, e), e.0) == e.1,
        forall|k: i64|
            k != e.0 && has_key(s, k) ==> value_of(s.update(idx, e), k) == value_of(s, k),
{
    let s2 = s.update(idx, e);
    assert forall|k: i64| has_key(s2, k) == has_key(s, k) by {
        if has_key(s2, k) {
            let i = choose|i: int| 0 <= i < s2.len() && s2[i].0 == k;
            assert(s[i].0 == k);
        }
        if has_key(s, k) {
            let i = choose|i: int| 0 <= i < s.len() && s[i].0 == k;
            assert(s2[i].0 == k);
        }
    }
    assert(has_key(s2, e.0)) by {
        assert(s2[idx].0 == e.0);
    }
    lemma_key_index(s2, e.0);
    lemma_key_index(s, e.0);
    assert(value_of(s2, e.0) == e.1);
    assert forall|k: i64| k != e.0 && has_key(s, k) implies value_of(s2, k) == value_of(s, k) by {
        lemma_key_index(s, k);
        lemma_key_index(s2, k);
        let i = key_index(s, k);
        assert(s2[i].0 == k);
    }
}

/// Inserting a fresh key at its sorted position keeps the order, adds that
/// one binding and leaves every other binding as it was.
pub proof fn lemma_insert_entry<V>(s: Seq<(i64, V)>, idx: int, e: (i64, V))
    requires
        keys_sorted(s),
        0 <= idx <= s.len(),
        forall|i: int| 0 <= i < idx ==> s[i].0 < e.0,
        forall|i: int| idx <= i < s.len() ==> s[i].0 > e.0,
    ensures
        keys_sorted(s.insert(idx, e)),
        has_key(s.insert(idx, e), e.0),
        value_of(s.insert(idx, e), e.0) == e.1,
        forall|k: i64| k != e.0 ==> has_key(s.insert(idx, e), k) == has_key(s, k),
        forall|k: i64|
            k != e.0 && has_key(s, k) ==> value_of(s.insert(idx, e), k) == value_of(s, k),
{
    let s2 = s.insert(idx, e);
    assert(s2.len() == s.len() + 1);
    assert forall|i: int| 0 <= i < s2.len() implies s2[i] == (if i < idx {
        s[i]
    } else if i == idx {
        e
    } else {
        s[i - 1]
    }) by {}
    assert(keys_sorted(s2)) by {
        assert forall|i: int, j: int| 0 <= i < j < s2.len() implies s2[i].0 < s2[j].0 by {}
    }
    assert(s2[idx] == e);
    lemma_key_index(s2, e.0);
    assert(value_of(s2, e.0) == e.1);
    assert forall|k: i64| k != e.0 implies has_key(s2, k) == has_key(s, k) by {
        if has_key(s2, k) {
            let i = choose|i: int| 0 <= i < s2.len() && s2[i].0 == k;
            if i < idx {
                assert(s[i].0 == k);
            } else {
                assert(i != idx);
                assert(s[i - 1].0 == k);
            }
        }
        if has_key(s, k) {
            let i = choose|i: int| 0 <= i < s.len() && s[i].0 == k;
            if i < idx {
                assert(s2[i].0 == k);
            } else {
                assert(s2[i + 1].0 == k);
            }
        }
    }
    assert forall|k: i64| k != e.0 && has_key(s, k) implies value_of(s2, k) == value_of(s, k) by {
        lemma_key_index(s, k);
        lemma_key_index(s2, k);
        let i = key_index(s, k);
        if i < idx {
            assert(s2[i].0 == k);
        } else {
            assert(s2[i + 1].0 == k);
        }
    }
}

/// Binary search for the position of the first key not below `k`.
pub fn lower_bound<V>(v: &Vec<(i64, V)>, k: i64) -> (r: usize)
    requires
        keys_sorted(v@),
    ensures
        r <= v@.len(),
        forall|i: int| 0 <= i < r ==> v@[i].0 < k,
        forall|i: int| r <= i < v@.len() ==> v@[i].0 >= k,
{
    let mut lo: usize = 0;
    let mut hi: usize = v.len();
    while lo < hi
        invariant
            lo <= hi <= v@.len(),
            keys_sorted(v@),
            forall|i: int| 0 <= i < lo ==> v@[i].0 < k,
            forall|i: int| hi <= i < v@.len() ==> v@[i].0 >= k,
        decreases hi - lo,
    {
        let mid = lo + (hi - lo) / 2;
        if v[mid].0 < k {
            proof {
                assert forall|i: int| 0 <= i < mid + 1 implies v@[i].0 < k by {
                    if i < mid {
                        assert(v@[i].0 < v@[mid as int].0);
                    }
                }
            }
            lo = mid + 1;
        } else {
            proof {
                assert forall|i: int| mid <= i < v@.len() implies v@[i].0 >= k by {
                    if mid < i {
                        assert(v@[mid as int].0 < v@[i].0);
                    }
                }
            }
            hi = mid;
        }
    }
    lo
}

/// Binary search for the entry carrying exactly `k`.
pub fn find_key<V>(v: &Vec<(i64, V)>, k: i64) -> (r: Option<usize>)
    requires
        keys_sorted(v@),
    ensures
        match r {
            Some(i) => i < v@.len() && v@[i as int].0 == k && i as int == key_index(v@, k),
            None => !has_key(v@, k),
        },
{
    let i = lower_bound(v, k);
    if i < v.len() && v[i].0 == k {
        proof {
            lemma_key_index(v@, k);
        }
        Some(i)
    } else {
        proof {
            if has_key(v@, k) {
                let w = choose|j: int| 0 <= j < v@.len() && v@[j].0 == k;
                assert(v@[w].0 >= k);
            }
        }
        None
    }
}

/// The bounds under which a stored tree position can be turned back into a
/// well-formed timecode at the rate `fr`.
pub open spec fn reconstruct_ok(fr: Framerate, sec: i64, frame: i64, nano: i64) -> bool {
    &&& fr.wf()
    &&& 0 <= sec as int <= (MAX_HOURS as int) * 3600 + 3599
    &&& 0 <= nano < NANOFRAMES_PER_FRAME
    &&& 0 <= frame
    &&& fr.spec_fps() >= 1 ==> (frame as int) < fr.spec_fps()
    &&& fr.spec_fps() == 0 ==> frame <= MAX_RAW_FRAMES
}

/// The timecode standing for a tree position: the normal form of zero
/// hours and minutes, `sec` seconds, `frame` frames and `nano` nanoframes.
pub open spec fn spec_reconstruct(fr: Framerate, sec: i64, frame: i64, nano: i64) -> Timecode {
    let (h, m, s, f, nf) = norm_parts(fr.spec_fps(), 0, 0, sec as int, frame as int, nano as int);
    Timecode {
        hours: h as i64,
        minutes: m as i64,
        seconds: s as i64,
        frames: f as i64,
        nanoframes: nf as i64,
        framerate: fr,
    }
}

/// Reconstruction is faithful: the timecode standing for a tree position
/// is well-formed and carries the position back in its fields.
pub proof fn lemma_reconstruct(fr: Framerate, sec: i64, frame: i64, nano: i64)
    requires
        reconstruct_ok(fr, sec, frame, nano),
    ensures
        ({
            let tc = spec_reconstruct(fr, sec, frame, nano);
            &&& tc.wf()
            &&& tc.framerate == fr
            &&& tc.hours >= 0
            &&& tc.frames >= 0
            &&& tc.spec_total_seconds() == sec as int
            &&& tc.frames == frame
            &&& tc.nanoframes == nano
        }),
{
    let g = NANOFRAMES_PER_FRAME as int;
    let fps = fr.spec_fps();
    lemma_fundamental_div_mod_converse(nano as int, g, 0, nano as int);
    if fps >= 1 {
        lemma_fundamental_div_mod_converse(frame as int, fps, 0, frame as int);
    }
    let s1 = sec as int;
    lemma_fundamental_div_mod(s1, 60);
    lemma_mod_division_less_than_divisor(s1, 60);
    lemma_div_pos_is_pos(s1, 60);
    let m1 = s1 / 60;
    lemma_fundamental_div_mod(m1, 60);
    lemma_mod_division_less_than_divisor(m1, 60);
    lemma_div_pos_is_pos(m1, 60);
    assert(m1 <= (MAX_HOURS as int) * 60 + 59) by (nonlinear_arith)
        requires
            s1 == 60 * m1 + s1 % 60,
            0 <= s1 % 60,
            s1 <= (MAX_HOURS as int) * 3600 + 3599,
    ;
    assert(m1 / 60 <= MAX_HOURS as int) by (nonlinear_arith)
        requires
            m1 == 60 * (m1 / 60) + m1 % 60,
            0 <= m1 % 60,
            m1 <= (MAX_HOURS as int) * 60 + 59,
    ;
}

/// Build the timecode standing for a tree position.
pub fn reconstruct(fr: &Framerate, sec: i64, frame: i64, nano: i64) -> (r: Timecode)
    requires
        reconstruct_ok(*fr, sec, frame, nano),
    ensures
        r == spec_reconstruct(*fr, sec, frame, nano),
        r.wf(),
        r.hours >= 0,
        r.frames >= 0,
        r.spec_total_seconds() == sec as int,
        r.frames == frame,
        r.nanoframes == nano,
{
    proof {
        lemma_reconstruct(*fr, sec, frame, nano);
        let g = NANOFRAMES_PER_FRAME as int;
        let fps = fr.spec_fps();
        if fps >= 1 {
            assert(nano as int + g * (frame as int + fps * (sec as int + 60 * 0 + 3600 * 0)) < (
            MAX_HOURS as int + 1) * 3600 * fps * g) by (nonlinear_arith)
                requires
                    0 <= (nano as int) < g,
                    0 <= (frame as int) < fps,
                    0 <= sec as int <= (MAX_HOURS as int) * 3600 + 3599,
                    1 <= fps,
                    g == 1_000_000_000,
            ;
            assert(0 <= nano as int + g * (frame as int + fps * (sec as int + 60 * 0 + 3600 * 0)))
                by (nonlinear_arith)
                requires
                    0 <= nano as int,
                    0 <= frame as int,
                    0 <= sec as int,
                    1 <= fps,
                    g == 1_000_000_000,
            ;
            assert(-(MAX_HOURS as int) * 3600 * fps * g <= 0) by (nonlinear_arith)
                requires
                    1 <= fps,
                    g == 1_000_000_000,
            ;
        }
    }
    Timecode::new_with_framerate(0, 0, sec, frame, nano, *fr)
}

/// The nanoframe lower bound of a range scan inside one frame: the scan
/// starts at `begin`'s sub-frame position exactly when this is the frame
/// the range begins in.
pub open spec fn nano_lo(begin: Timecode, csec: i64, cframe: i64) -> int {
    if csec as int == begin.spec_total_seconds() && cframe == begin.frames {
        begin.nanoframes as int
    } else {
        0
    }
}

/// The nanoframe upper bound of a range scan inside one frame: the scan
/// stops at `end`'s sub-frame position exactly when this is the frame the
/// range ends in, and otherwise takes the frame whole.
pub open spec fn nano_hi(end: Timecode, csec: i64, cframe: i64) -> int {
    if csec as int == end.spec_total_seconds() && cframe == end.frames {
        end.nanoframes as int
    } else {
        NANOFRAMES_PER_FRAME as int
    }
}

/// The position bounds under which every nanoframe key of one frame can be
/// reconstructed.
pub open spec fn position_ok(fr: Framerate, sec: i64, frame: i64) -> bool {
    &&& fr.wf()
    &&& 0 <= sec as int <= (MAX_HOURS as int) * 3600 + 3599
    &&& 0 <= frame
    &&& fr.spec_fps() >= 1 ==> (frame as int) < fr.spec_fps()
    &&& fr.spec_fps() == 0 ==> frame <= MAX_RAW_FRAMES
}

/// Coarse equality against `b` holds exactly when the two instants agree
/// on their whole-second count and their frame field, as long as minutes
/// and seconds are in their normalized ranges on both sides.
pub proof fn lemma_hmsf_matches_totals(a: Timecode, b: Timecode)
    requires
        0 <= a.minutes <= 59,
        0 <= a.seconds <= 59,
        0 <= b.minutes <= 59,
        0 <= b.seconds <= 59,
    ensures
        a.spec_equals_hmsf(b) <==> (a.spec_total_seconds() == b.spec_total_seconds() && a.frames
            == b.frames),
{
    let ta = a.spec_total_seconds();
    let tb = b.spec_total_seconds();
    lemma_fundamental_div_mod_converse(ta, 60, 60 * a.hours + a.minutes, a.seconds as int);
    lemma_fundamental_div_mod_converse(tb, 60, 60 * b.hours + b.minutes, b.seconds as int);
    lemma_fundamental_div_mod_converse(
        60 * a.hours + a.minutes,
        60,
        a.hours as int,
        a.minutes as int,
    );
    lemma_fundamental_div_mod_converse(
        60 * b.hours + b.minutes,
        60,
        b.hours as int,
        b.minutes as int,
    );
}

/// One appended element of a frame-level range scan: a stored sample of
/// this frame, inside the scan bounds, paired with its reconstructed
/// timecode.
pub open spec fn frame_scan_elem<T: Tween>(
    leaf: FrameLeaf<T>,
    begin: Timecode,
    end: Timecode,
    fr: Framerate,
    csec: i64,
    cframe: i64,
    e: (Timecode, Keyframe<T>),
) -> bool {
    let n = e.0.nanoframes;
    &&& e.0 == spec_reconstruct(fr, csec, cframe, n)
    &&& leaf.spec_has(n)
    &&& e.1 == leaf.spec_at(n)
    &&& nano_lo(begin, csec, cframe) <= n as int <= nano_hi(end, csec, cframe)
}

/// The lowest level of the keyframe tree: the samples authored inside one
/// frame, indexed by their nanoframe offset.
#[derive(Clone, Debug)]
pub struct FrameLeaf<T: Tween> {
    /// Sorted index from nanoframe offset to the sample stored there.
    pub nanos: Vec<(i64, Keyframe<T>)>,
}

impl<T: Tween> FrameLeaf<T> {
    /// Keys are strictly increasing nanoframe offsets inside one frame.
    pub open spec fn wf(self) -> bool {
        &&& keys_sorted(self.nanos@)
        &&& forall|i: int|
            0 <= i < self.nanos@.len() ==> 0 <= (#[trigger] self.nanos@[i]).0
                < NANOFRAMES_PER_FRAME
    }

    /// A sample is stored at this nanoframe offset.
    pub open spec fn spec_has(self, n: i64) -> bool {
        has_key(self.nanos@, n)
    }

    /// The sample stored at this nanoframe offset.
    pub open spec fn spec_at(self, n: i64) -> Keyframe<T> {
        value_of(self.nanos@, n)
    }

    pub fn new() -> (r: Self)
        ensures
            r.wf(),
            r.nanos@.len() == 0,
    {
        FrameLeaf { nanos: Vec::new() }
    }

    /// Insert a sample at a nanoframe offset, replacing any sample already
    /// stored at exactly that offset.
    pub fn add_keyframe_at_isize(&mut self, nanos: i64, key: Keyframe<T>)
        requires
            old(self).wf(),
            0 <= nanos < NANOFRAMES_PER_FRAME,
        ensures
            final(self).wf(),
            final(self).spec_has(nanos),
            final(self).spec_at(nanos) == key,
            forall|n: i64| n != nanos ==> final(self).spec_has(n) == old(self).spec_has(n),
            forall|n: i64|
                n != nanos && old(self).spec_has(n) ==> final(self).spec_at(n) == old(
                    self,
                ).spec_at(n),
            final(self).nanos@.len() == old(self).nanos@.len() + (if old(self).spec_has(nanos) {
                0int
            } else {
                1int
            }),
    {
        let ghost s0 = self.nanos@;
        match find_key(&self.nanos, nanos) {
            Some(i) => {
                self.nanos[i] = (nanos, key);
                proof {
                    lemma_key_index(s0, nanos);
                    lemma_update_entry(s0, i as int, self.nanos@[i as int]);
                }
            },
            None => {
                let idx = lower_bound(&self.nanos, nanos);
                proof {
                    assert forall|i: int| idx <= i < s0.len() implies s0[i].0 > nanos by {
                        if s0[i].0 == nanos {
                            assert(has_key(s0, nanos));
                        }
                    }
                }
                self.nanos.insert(idx, (nanos, key));
                proof {
                    lemma_insert_entry(s0, idx as int, self.nanos@[idx as int]);
                }
            },
        }
    }

    /// Insert a sample at the sub-frame position of `time`.
    pub fn add_keyframe_at_timestamp(&mut self, time: &Timecode, key: Keyframe<T>)
        requires
            old(self).wf(),
            time.wf(),
        ensures
            final(self).wf(),
            final(self).spec_has(time.nanoframes),
            final(self).spec_at(time.nanoframes) == key,
            forall|n: i64|
                n != time.nanoframes ==> final(self).spec_has(n) == old(self).spec_has(n),
            forall|n: i64|
                n != time.nanoframes && old(self).spec_has(n) ==> final(self).spec_at(n) == old(
                    self,
                ).spec_at(n),
    {
        self.add_keyframe_at_isize(time.nanoframes, key)
    }

    /// Look up the sample at a nanoframe offset.
    pub fn get_keyframe_at_isize(&self, nanos: i64) -> (r: Option<&Keyframe<T>>)
        requires
            self.wf(),
        ensures
            match r {
                Some(k) => self.spec_has(nanos) && *k == self.spec_at(nanos),
                None => !self.spec_has(nanos),
            },
    {
        match find_key(&self.nanos, nanos) {
            Some(i) => Some(&self.nanos[i].1),
            None => None,
        }
    }

    /// Append to `final_vec` every sample of this frame whose nanoframe
    /// offset lies in the range that `begin` and `end` cut out of it, in
    /// ascending order, each paired with its reconstructed timecode.
    pub fn get_keyframes_between(
        &self,
        begin: &Timecode,
        end: &Timecode,
        current_second: i64,
        current_frame: i64,
        fr: &Framerate,
        final_vec: &mut Vec<(Timecode, Keyframe<T>)>,
    )
        requires
            self.wf(),
            begin.wf(),
            end.wf(),
            position_ok(*fr, current_second, current_frame),
        ensures
            final(final_vec)@.len() >= old(final_vec)@.len(),
            forall|i: int|
                0 <= i < old(final_vec)@.len() ==> final(final_vec)@[i] == old(final_vec)@[i],
            forall|i: int|
                old(final_vec)@.len() <= i < final(final_vec)@.len() ==> frame_scan_elem(
                    *self,
                    *begin,
                    *end,
                    *fr,
                    current_second,
                    current_frame,
                    #[trigger] final(final_vec)@[i],
                ),
            forall|i: int, j: int|
                old(final_vec)@.len() <= i < j < final(final_vec)@.len()
                    ==> final(final_vec)@[i].0.nanoframes < final(final_vec)@[j].0.nanoframes,
            forall|n: i64|
                self.spec_has(n) && nano_lo(*begin, current_second, current_frame) <= n as int
                    && n as int <= nano_hi(*end, current_second, current_frame) ==> exists|i: int|
                    old(final_vec)@.len() <= i < final(final_vec)@.len()
                        && (#[trigger] final(final_vec)@[i]).0.nanoframes == n,
    {
        let ghost v0 = final_vec@;
        let bsec = begin.total_seconds();
        let esec = end.total_seconds();
        let lo: i64 = if current_second == bsec && current_frame == begin.frames {
            begin.nanoframes
        } else {
            0
        };
        let hi: i64 = if current_second == esec && current_frame == end.frames {
            end.nanoframes
        } else {
            NANOFRAMES_PER_FRAME
        };
        proof {
            assert(lo as int == nano_lo(*begin, current_second, current_frame));
            assert(hi as int == nano_hi(*end, current_second, current_frame));
        }
        let mut idx: usize = 0;
        let mut stop = false;
        while idx < self.nanos.len() && !stop
            invariant
                self.wf(),
                begin.wf(),
                end.wf(),
                position_ok(*fr, current_second, current_frame),
                lo as int == nano_lo(*begin, current_second, current_frame),
                hi as int == nano_hi(*end, current_second, current_frame),
                idx <= self.nanos@.len(),
                final_vec@.len() >= v0.len(),
                forall|i: int| 0 <= i < v0.len() ==> final_vec@[i] == v0[i],
                forall|i: int|
                    v0.len() <= i < final_vec@.len() ==> frame_scan_elem(
                        *self,
                        *begin,
                        *end,
                        *fr,
                        current_second,
                        current_frame,
                        #[trigger] final_vec@[i],
                    ),
                forall|i: int, j: int|
                    v0.len() <= i < j < final_vec@.len() ==> final_vec@[i].0.nanoframes
                        < final_vec@[j].0.nanoframes,
                forall|i: int|
                    v0.len() <= i < final_vec@.len() ==> forall|j: int|
                        idx <= j < self.nanos@.len() ==> (#[trigger] final_vec@[i]).0.nanoframes < (
                        #[trigger] self.nanos@[j]).0,
                forall|j: int|
                    0 <= j < idx && lo as int <= (#[trigger] self.nanos@[j]).0 as int
                        && self.nanos@[j].0 as int <= hi as int ==> exists|i: int|
                        v0.len() <= i < final_vec@.len() && (#[trigger] final_vec@[i]).0.nanoframes
                            == self.nanos@[j].0,
                stop ==> forall|j: int|
                    idx <= j < self.nanos@.len() ==> (#[trigger] self.nanos@[j]).0 as int
                        > hi as int,
            decreases self.nanos@.len() - idx + (if stop {
                0int
            } else {
                1int
            }),
        {
            let nkey = self.nanos[idx].0;
            if nkey > hi {
                proof {
                    assert forall|j: int| idx <= j < self.nanos@.len() implies (
                    #[trigger] self.nanos@[j]).0 as int > hi as int by {
                        if idx < j {
                            assert(self.nanos@[idx as int].0 < self.nanos@[j].0);
                        }
                    }
                }
                stop = true;
            } else {
                if nkey >= lo {
                    let tc = reconstruct(fr, current_second, current_frame, nkey);
                    let kf = self.nanos[idx].1.duplicate();
                    proof {
                        assert(has_key(self.nanos@, nkey)) by {
                            assert(self.nanos@[idx as int].0 == nkey);
                        }
                        lemma_key_index(self.nanos@, nkey);
                    }
                    let ghost vpre = final_vec@;
                    final_vec.push((tc, kf));
                    proof {
                        assert forall|j: int|
                            0 <= j < idx + 1 && lo as int <= (#[trigger] self.nanos@[j]).0 as int
                                && self.nanos@[j].0 as int <= hi as int implies exists|i: int|
                            v0.len() <= i < final_vec@.len() && (#[trigger] final_vec@[i]
                            ).0.nanoframes == self.nanos@[j].0 by {
                            if j == idx as int {
                                assert(final_vec@[final_vec@.len() - 1].0.nanoframes
                                    == self.nanos@[j].0);
                            } else {
                                let i0 = choose|i: int|
                                    v0.len() <= i < vpre.len() && (#[trigger] vpre[i]).0.nanoframes
                                        == self.nanos@[j].0;
                                assert(final_vec@[i0].0.nanoframes == self.nanos@[j].0);
                            }
                        }
                    }
                }
                idx = idx + 1;
            }
        }
        proof {
            assert forall|n: i64|
                self.spec_has(n) && nano_lo(*begin, current_second, current_frame) <= n as int
                    && n as int <= nano_hi(*end, current_second, current_frame) implies exists|
                i: int,
            |
                v0.len() <= i < final_vec@.len() && (#[trigger] final_vec@[i]).0.nanoframes
                    == n by {
                let j = choose|j: int| 0 <= j < self.nanos@.len() && self.nanos@[j].0 == n;
                if stop {
                    if j >= idx {
                        assert(self.nanos@[j].0 as int > hi as int);
                    }
                } else {
                    assert(idx == self.nanos@.len());
                }
                assert(0 <= j < idx);
            }
        }
    }

    /// The first sample of this frame, as the strictly-later candidate at
    /// this tree position: none when the frame is empty or when this
    /// position is `timestamp`'s own whole frame.
    pub fn find_first_keyframe_after_timestamp(
        &self,
        timestamp: &Timecode,
        current_second: i64,
        current_frame: i64,
        fr: &Framerate,
    ) -> (r: Option<(Timecode, Keyframe<T>)>)
        requires
            self.wf(),
            timestamp.wf(),
            position_ok(*fr, current_second, current_frame),
        ensures
            match r {
                Some(e) => {
                    &&& self.nanos@.len() > 0
                    &&& !(current_second as int == timestamp.spec_total_seconds() && current_frame
                        == timestamp.frames)
                    &&& e.0 == spec_reconstruct(*fr, current_second, current_frame, e.0.nanoframes)
                    &&& e.0.nanoframes == self.nanos@[0].0
                    &&& e.1 == self.nanos@[0].1
                },
                None => self.nanos@.len() == 0 || (current_second as int
                    == timestamp.spec_total_seconds() && current_frame == timestamp.frames),
            },
    {
        if self.nanos.len() == 0 {
            return None;
        }
        let nkey = self.nanos[0].0;
        let tc = reconstruct(fr, current_second, current_frame, nkey);
        proof {
            lemma_hmsf_matches_totals(tc, *timestamp);
        }
        if tc.is_equals_to_hmsf(timestamp) {
            None
        } else {
            Some((tc, self.nanos[0].1.duplicate()))
        }
    }

    /// Look up the sample at the sub-frame position of `time`.
    pub fn get_keyframe_at_timestamp(&self, time: &Timecode) -> (r: Option<&Keyframe<T>>)
        requires
            self.wf(),
        ensures
            match r {
                Some(k) => self.spec_has(time.nanoframes) && *k == self.spec_at(time.nanoframes),
                None => !self.spec_has(time.nanoframes),
            },
    {
        self.get_keyframe_at_isize(time.nanoframes)
    }
}

impl<T: Tween> Default for FrameLeaf<T> {
    /// An empty frame leaf.
    fn default() -> (r: FrameLeaf<T>)
        ensures
            r.wf(),
            r.nanos@.len() == 0,
    {
        FrameLeaf::new()
    }
}

/// The frame lower bound of a range scan inside one second.
pub open spec fn frame_lo(begin: Timecode, csec: i64) -> int {
    if csec as int == begin.spec_total_seconds() {
        begin.frames as int
    } else {
        0
    }
}

/// The frame upper bound of a range scan inside one second: the rate's
/// whole second when this is not the second the range ends in.
pub open spec fn frame_hi(end: Timecode, fr: Framerate, csec: i64) -> int {
    if csec as int == end.spec_total_seconds() {
        end.frames as int
    } else {
        fr.spec_fps()
    }
}

/// Ordering of two positions inside one second: by frame, then by
/// nanoframe offset.
pub open spec fn pos_lt(a: Timecode, b: Timecode) -> bool {
    a.frames < b.frames || (a.frames == b.frames && a.nanoframes < b.nanoframes)
}

/// One appended element of a second-level range scan: a stored sample of
/// this second, inside the scan bounds at both remaining levels, paired
/// with its reconstructed timecode.
pub open spec fn second_scan_elem<T: Tween>(
    leaf: SecondLeaf<T>,
    begin: Timecode,
    end: Timecode,
    fr: Framerate,
    csec: i64,
    e: (Timecode, Keyframe<T>),
) -> bool {
    let f = e.0.frames;
    let n = e.0.nanoframes;
    &&& e.0 == spec_reconstruct(fr, csec, f, n)
    &&& leaf.spec_has(f, n)
    &&& e.1 == leaf.spec_at(f, n)
    &&& frame_lo(begin, csec) <= f as int <= frame_hi(end, fr, csec)
    &&& nano_lo(begin, csec, f) <= n as int <= nano_hi(end, csec, f)
}

/// The middle level of the keyframe tree: the frames of one second that
/// hold samples, indexed by frame number.
#[derive(Clone, Debug)]
pub struct SecondLeaf<T: Tween> {
    /// Sorted index from frame number to that frame's samples.
    pub frames: Vec<(i64, FrameLeaf<T>)>,
}

impl<T: Tween> SecondLeaf<T> {
    /// Keys are strictly increasing nonnegative frame numbers, and every
    /// frame's own index is well-formed.
    pub open spec fn wf(self) -> bool {
        &&& keys_sorted(self.frames@)
        &&& forall|i: int|
            0 <= i < self.frames@.len() ==> 0 <= (#[trigger] self.frames@[i]).0 <= MAX_RAW_FRAMES
        &&& forall|i: int| 0 <= i < self.frames@.len() ==> (#[trigger] self.frames@[i]).1.wf()
    }

    /// Every stored frame number is below the quantized rate of `fr`; a
    /// raw timestamp rate constrains nothing.
    pub open spec fn frames_below(self, fr: Framerate) -> bool {
        fr.spec_fps() >= 1 ==> forall|i: int|
            0 <= i < self.frames@.len() ==> ((#[trigger] self.frames@[i]).0 as int)
                < fr.spec_fps()
    }

    /// A frame leaf is stored under this frame number.
    pub open spec fn spec_has_frame(self, f: i64) -> bool {
        has_key(self.frames@, f)
    }

    /// The frame leaf stored under this frame number.
    pub open spec fn frame_at(self, f: i64) -> FrameLeaf<T> {
        value_of(self.frames@, f)
    }

    /// A sample is stored at this frame and nanoframe position.
    pub open spec fn spec_has(self, f: i64, n: i64) -> bool {
        self.spec_has_frame(f) && self.frame_at(f).spec_has(n)
    }

    /// The sample stored at this frame and nanoframe position.
    pub open spec fn spec_at(self, f: i64, n: i64) -> Keyframe<T> {
        self.frame_at(f).spec_at(n)
    }

    pub fn new() -> (r: Self)
        ensures
            r.wf(),
            r.frames@.len() == 0,
    {
        SecondLeaf { frames: Vec::new() }
    }

    /// Store an empty frame leaf under this frame number, discarding any
    /// samples already stored there — the caller's hazard, as with every
    /// `create` on an already populated key.
    pub fn create_frame_with_isize(&mut self, frame: i64)
        requires
            old(self).wf(),
            0 <= frame <= MAX_RAW_FRAMES,
        ensures
            final(self).wf(),
            final(self).spec_has_frame(frame),
            final(self).frame_at(frame).nanos@.len() == 0,
            forall|f: i64| f != frame ==> final(self).spec_has_frame(f) == old(self).spec_has_frame(f),
            forall|f: i64|
                f != frame && old(self).spec_has_frame(f) ==> final(self).frame_at(f) == old(
                    self,
                ).frame_at(f),
    {
        let ghost s0 = self.frames@;
        match find_key(&self.frames, frame) {
            Some(i) => {
                self.frames[i] = (frame, FrameLeaf::new());
                proof {
                    lemma_update_entry(s0, i as int, self.frames@[i as int]);
                }
            },
            None => {
                let idx = lower_bound(&self.frames, frame);
                proof {
                    assert forall|i: int| idx <= i < s0.len() implies s0[i].0 > frame by {
                        if s0[i].0 == frame {
                            assert(has_key(s0, frame));
                        }
                    }
                }
                self.frames.insert(idx, (frame, FrameLeaf::new()));
                proof {
                    lemma_insert_entry(s0, idx as int, self.frames@[idx as int]);
                }
            },
        }
    }

    /// Store an empty frame leaf under `time`'s frame number.
    pub fn create_frame_with_timestamp(&mut self, time: &Timecode)
        requires
            old(self).wf(),
            0 <= time.frames <= MAX_RAW_FRAMES,
        ensures
            final(self).wf(),
            final(self).spec_has_frame(time.frames),
            final(self).frame_at(time.frames).nanos@.len() == 0,
            forall|f: i64|
                f != time.frames ==> final(self).spec_has_frame(f) == old(self).spec_has_frame(f),
            forall|f: i64|
                f != time.frames && old(self).spec_has_frame(f) ==> final(self).frame_at(f) == old(
                    self,
                ).frame_at(f),
    {
        self.create_frame_with_isize(time.frames)
    }

    /// Look up the frame leaf under this frame number.
    pub fn get_frame_with_isize(&self, frame: i64) -> (r: Option<&FrameLeaf<T>>)
        requires
            self.wf(),
        ensures
            match r {
                Some(l) => self.spec_has_frame(frame) && *l == self.frame_at(frame),
                None => !self.spec_has_frame(frame),
            },
    {
        match find_key(&self.frames, frame) {
            Some(i) => Some(&self.frames[i].1),
            None => None,
        }
    }

    /// Look up the frame leaf under `time`'s frame number.
    pub fn get_frame_with_timestamp(&self, time: &Timecode) -> (r: Option<&FrameLeaf<T>>)
        requires
            self.wf(),
        ensures
            match r {
                Some(l) => self.spec_has_frame(time.frames) && *l == self.frame_at(time.frames),
                None => !self.spec_has_frame(time.frames),
            },
    {
        self.get_frame_with_isize(time.frames)
    }

    /// Ensure a frame leaf exists under this frame number, creating an
    /// empty one only when the key is absent.
    pub fn get_or_create_frame_with_isize(&mut self, frame: i64)
        requires
            old(self).wf(),
            0 <= frame <= MAX_RAW_FRAMES,
        ensures
            final(self).wf(),
            final(self).spec_has_frame(frame),
            final(self).frame_at(frame) == (if old(self).spec_has_frame(frame) {
                old(self).frame_at(frame)
            } else {
                final(self).frame_at(frame)
            }),
            !old(self).spec_has_frame(frame) ==> final(self).frame_at(frame).nanos@.len() == 0,
            forall|f: i64| f != frame ==> final(self).spec_has_frame(f) == old(self).spec_has_frame(f),
            forall|f: i64|
                f != frame && old(self).spec_has_frame(f) ==> final(self).frame_at(f) == old(
                    self,
                ).frame_at(f),
    {
        let present = match find_key(&self.frames, frame) {
            Some(_) => true,
            None => false,
        };
        if !present {
            self.create_frame_with_isize(frame);
        }
    }

    /// Append to `final_vec` every sample of this second that the range
    /// from `begin` to `end` covers, in ascending frame-then-nanoframe
    /// order, each paired with its reconstructed timecode.
    pub fn get_keyframes_between(
        &self,
        begin: &Timecode,
        end: &Timecode,
        current_second: i64,
        fr: &Framerate,
        final_vec: &mut Vec<(Timecode, Keyframe<T>)>,
    )
        requires
            self.wf(),
            begin.wf(),
            end.wf(),
            fr.wf(),
            0 <= current_second as int <= (MAX_HOURS as int) * 3600 + 3599,
            self.frames_below(*fr),
        ensures
            final(final_vec)@.len() >= old(final_vec)@.len(),
            forall|i: int|
                0 <= i < old(final_vec)@.len() ==> final(final_vec)@[i] == old(final_vec)@[i],
            forall|i: int|
                old(final_vec)@.len() <= i < final(final_vec)@.len() ==> second_scan_elem(
                    *self,
                    *begin,
                    *end,
                    *fr,
                    current_second,
                    #[trigger] final(final_vec)@[i],
                ),
            forall|i: int, j: int|
                old(final_vec)@.len() <= i < j < final(final_vec)@.len() ==> pos_lt(
                    final(final_vec)@[i].0,
                    final(final_vec)@[j].0,
                ),
            forall|f: i64, n: i64|
                self.spec_has(f, n) && frame_lo(*begin, current_second) <= f as int && f as int
                    <= frame_hi(*end, *fr, current_second) && nano_lo(*begin, current_second, f)
                    <= n as int && n as int <= nano_hi(*end, current_second, f) ==> exists|i: int|
                    old(final_vec)@.len() <= i < final(final_vec)@.len()
                        && (#[trigger] final(final_vec)@[i]).0.frames == f
                        && final(final_vec)@[i].0.nanoframes == n,
    {
        let ghost v0 = final_vec@;
        let bsec = begin.total_seconds();
        let esec = end.total_seconds();
        let flo: i64 = if current_second == bsec {
            begin.frames
        } else {
            0
        };
        let fps = fr.fps();
        let fhi: i64 = if current_second == esec {
            end.frames
        } else {
            fps as i64
        };
        let mut idx: usize = 0;
        let mut stop = false;
        while idx < self.frames.len() && !stop
            invariant
                self.wf(),
                begin.wf(),
                end.wf(),
                fr.wf(),
                0 <= current_second as int <= (MAX_HOURS as int) * 3600 + 3599,
                self.frames_below(*fr),
                flo as int == frame_lo(*begin, current_second),
                fhi as int == frame_hi(*end, *fr, current_second),
                idx <= self.frames@.len(),
                final_vec@.len() >= v0.len(),
                forall|i: int| 0 <= i < v0.len() ==> final_vec@[i] == v0[i],
                forall|i: int|
                    v0.len() <= i < final_vec@.len() ==> second_scan_elem(
                        *self,
                        *begin,
                        *end,
                        *fr,
                        current_second,
                        #[trigger] final_vec@[i],
                    ),
                forall|i: int, j: int|
                    v0.len() <= i < j < final_vec@.len() ==> pos_lt(
                        final_vec@[i].0,
                        final_vec@[j].0,
                    ),
                forall|i: int|
                    v0.len() <= i < final_vec@.len() ==> forall|j: int|
                        idx <= j < self.frames@.len() ==> (#[trigger] final_vec@[i]).0.frames < (
                        #[trigger] self.frames@[j]).0,
                forall|j: int, n: i64|
                    0 <= j < idx && flo as int <= self.frames@[j].0 as int
                        && self.frames@[j].0 as int <= fhi as int
                        && #[trigger] self.frames@[j].1.spec_has(n) && nano_lo(*begin, current_second, self.frames@[j].0)
                        <= n as int && n as int <= nano_hi(*end, current_second, self.frames@[j].0)
                        ==> exists|i: int|
                        v0.len() <= i < final_vec@.len() && (#[trigger] final_vec@[i]).0.frames
                            == self.frames@[j].0 && final_vec@[i].0.nanoframes == n,
                stop ==> forall|j: int|
                    idx <= j < self.frames@.len() ==> (#[trigger] self.frames@[j]).0 as int
                        > fhi as int,
            decreases self.frames@.len() - idx + (if stop {
                0int
            } else {
                1int
            }),
        {
            let fkey = self.frames[idx].0;
            if fkey > fhi {
                proof {
                    assert forall|j: int| idx <= j < self.frames@.len() implies (
                    #[trigger] self.frames@[j]).0 as int > fhi as int by {
                        if idx < j {
                            assert(self.frames@[idx as int].0 < self.frames@[j].0);
                        }
                    }
                }
                stop = true;
            } else {
                if fkey >= flo {
                    let ghost vpre = final_vec@;
                    proof {
                        assert(has_key(self.frames@, fkey)) by {
                            assert(self.frames@[idx as int].0 == fkey);
                        }
                        lemma_key_index(self.frames@, fkey);
                    }
                    self.frames[idx].1.get_keyframes_between(
                        begin,
                        end,
                        current_second,
                        fkey,
                        fr,
                        final_vec,
                    );
                    proof {
                        let leaf = self.frames@[idx as int].1;
                        assert forall|i: int|
                            v0.len() <= i < final_vec@.len() implies second_scan_elem(
                            *self,
                            *begin,
                            *end,
                            *fr,
                            current_second,
                            #[trigger] final_vec@[i],
                        ) by {
                            if i < vpre.len() {
                            } else {
                                let e = final_vec@[i];
                                let n = e.0.nanoframes;
                                assert(frame_scan_elem(
                                    leaf,
                                    *begin,
                                    *end,
                                    *fr,
                                    current_second,
                                    fkey,
                                    e,
                                ));
                                assert(leaf.spec_has(n));
                                lemma_key_index(leaf.nanos@, n);
                                assert(0 <= n < NANOFRAMES_PER_FRAME);
                                lemma_reconstruct(*fr, current_second, fkey, n);
                                assert(e.0.frames == fkey);
                            }
                        }
                        assert forall|i: int, j: int|
                            v0.len() <= i < j < final_vec@.len() implies pos_lt(
                            final_vec@[i].0,
                            final_vec@[j].0,
                        ) by {
                            if j < vpre.len() {
                            } else if i >= vpre.len() {
                                let ni = final_vec@[i].0.nanoframes;
                                let nj = final_vec@[j].0.nanoframes;
                                assert(frame_scan_elem(
                                    leaf,
                                    *begin,
                                    *end,
                                    *fr,
                                    current_second,
                                    fkey,
                                    final_vec@[i],
                                ));
                                lemma_key_index(leaf.nanos@, ni);
                                lemma_reconstruct(*fr, current_second, fkey, ni);
                                lemma_key_index(leaf.nanos@, nj);
                                lemma_reconstruct(*fr, current_second, fkey, nj);
                            } else {
                                lemma_key_index(leaf.nanos@, final_vec@[j].0.nanoframes);
                                lemma_reconstruct(
                                    *fr,
                                    current_second,
                                    fkey,
                                    final_vec@[j].0.nanoframes,
                                );
                            }
                        }
                        assert forall|j: int, n: i64|
                            0 <= j < idx + 1 && flo as int <= self.frames@[j].0 as int
                                && self.frames@[j].0 as int <= fhi as int
                                && #[trigger] self.frames@[j].1.spec_has(n) && nano_lo(
                                *begin,
                                current_second,
                                self.frames@[j].0,
                            ) <= n as int && n as int <= nano_hi(
                                *end,
                                current_second,
                                self.frames@[j].0,
                            ) implies exists|i: int|
                            v0.len() <= i < final_vec@.len() && (#[trigger] final_vec@[i]).0.frames
                                == self.frames@[j].0 && final_vec@[i].0.nanoframes == n by {
                            if j == idx as int {
                                let i0 = choose|i: int|
                                    vpre.len() <= i < final_vec@.len() && (
                                    #[trigger] final_vec@[i]).0.nanoframes == n;
                                assert(frame_scan_elem(
                                    leaf,
                                    *begin,
                                    *end,
                                    *fr,
                                    current_second,
                                    fkey,
                                    final_vec@[i0],
                                ));
                                lemma_key_index(leaf.nanos@, n);
                                lemma_reconstruct(*fr, current_second, fkey, n);
                                assert(final_vec@[i0].0.frames == fkey);
                            } else {
                                let i0 = choose|i: int|
                                    v0.len() <= i < vpre.len() && (#[trigger] vpre[i]).0.frames
                                        == self.frames@[j].0 && vpre[i].0.nanoframes == n;
                                assert(final_vec@[i0].0.frames == self.frames@[j].0);
                            }
                        }
                    }
                }
                idx = idx + 1;
            }
        }
        proof {
            assert forall|f: i64, n: i64|
                self.spec_has(f, n) && frame_lo(*begin, current_second) <= f as int && f as int
                    <= frame_hi(*end, *fr, current_second) && nano_lo(*begin, current_second, f)
                    <= n as int && n as int <= nano_hi(*end, current_second, f) implies exists|
                i: int,
            |
                v0.len() <= i < final_vec@.len() && (#[trigger] final_vec@[i]).0.frames == f
                    && final_vec@[i].0.nanoframes == n by {
                let j = choose|j: int| 0 <= j < self.frames@.len() && self.frames@[j].0 == f;
                lemma_key_index(self.frames@, f);
                if stop {
                    if j >= idx {
                        assert(self.frames@[j].0 as int > fhi as int);
                    }
                } else {
                    assert(idx == self.frames@.len());
                }
                assert(0 <= j < idx);
                assert(self.frames@[j].1.spec_has(n));
            }
        }
    }

    /// Insert a sample at `time`'s frame and sub-frame position, replacing
    /// any sample stored at exactly that position.
    pub fn add_keyframe_at_timestamp(&mut self, time: &Timecode, key: Keyframe<T>)
        requires
            old(self).wf(),
            time.wf(),
            time.frames >= 0,
        ensures
            final(self).wf(),
            final(self).spec_has(time.frames, time.nanoframes),
            final(self).spec_at(time.frames, time.nanoframes) == key,
            final(self).spec_has_frame(time.frames),
            forall|f: i64|
                f != time.frames ==> final(self).spec_has_frame(f) == old(self).spec_has_frame(f),
            forall|f: i64, n: i64|
                !(f == time.frames && n == time.nanoframes) ==> final(self).spec_has(f, n)
                    == old(self).spec_has(f, n),
            forall|f: i64, n: i64|
                !(f == time.frames && n == time.nanoframes) && old(self).spec_has(f, n)
                    ==> final(self).spec_at(f, n) == old(self).spec_at(f, n),
            forall|fr2: Framerate|
                old(self).frames_below(fr2) && (fr2.spec_fps() >= 1 ==> (time.frames as int)
                    < fr2.spec_fps()) ==> #[trigger] final(self).frames_below(fr2),
    {
        let ghost s0 = self.frames@;
        let fkey = time.frames;
        let found = find_key(&self.frames, fkey);
        match found {
            Some(i) => {
                let entry = self.frames.remove(i);
                let mut fl = entry.1;
                fl.add_keyframe_at_isize(time.nanoframes, key);
                self.frames.insert(i, (fkey, fl));
                proof {
                    let e = self.frames@[i as int];
                    assert(self.frames@ =~= s0.update(i as int, e));
                    lemma_update_entry(s0, i as int, e);
                    lemma_key_index(s0, fkey);
                }
            },
            None => {
                let j = lower_bound(&self.frames, fkey);
                proof {
                    assert forall|i: int| j <= i < s0.len() implies s0[i].0 > fkey by {
                        if s0[i].0 == fkey {
                            assert(has_key(s0, fkey));
                        }
                    }
                }
                let mut fl = FrameLeaf::new();
                fl.add_keyframe_at_isize(time.nanoframes, key);
                self.frames.insert(j, (fkey, fl));
                proof {
                    lemma_insert_entry(s0, j as int, self.frames@[j as int]);
                }
            },
        }
    }

    /// The first sample of this second that lies at or after `timestamp`'s
    /// frame and is not coarse-equal to it: the earliest strictly-later
    /// whole-frame sample within this second.
    pub fn find_first_keyframe_after_timestamp(
        &self,
        timestamp: &Timecode,
        current_second: i64,
        fr: &Framerate,
    ) -> (r: Option<(Timecode, Keyframe<T>)>)
        requires
            self.wf(),
            timestamp.wf(),
            fr.wf(),
            0 <= current_second as int <= (MAX_HOURS as int) * 3600 + 3599,
            self.frames_below(*fr),
        ensures
            match r {
                Some(e) => {
                    let f = e.0.frames;
                    let n = e.0.nanoframes;
                    &&& e.0 == spec_reconstruct(*fr, current_second, f, n)
                    &&& self.spec_has(f, n)
                    &&& e.1 == self.spec_at(f, n)
                    &&& frame_lo(*timestamp, current_second) <= f as int
                    &&& !(current_second as int == timestamp.spec_total_seconds() && f
                        == timestamp.frames)
                    &&& forall|f2: i64, n2: i64|
                        #[trigger] self.spec_has(f2, n2) && frame_lo(*timestamp, current_second)
                            <= f2 as int && !(current_second as int
                            == timestamp.spec_total_seconds() && f2 == timestamp.frames) ==> (f
                            == f2 && n == n2) || f < f2 || (f == f2 && n < n2)
                },
                None => forall|f2: i64, n2: i64|
                    #[trigger] self.spec_has(f2, n2) && frame_lo(*timestamp, current_second)
                        <= f2 as int ==> (current_second as int == timestamp.spec_total_seconds()
                        && f2 == timestamp.frames),
            },
    {
        let tsec = timestamp.total_seconds();
        let flo: i64 = if current_second == tsec {
            timestamp.frames
        } else {
            0
        };
        let mut idx: usize = 0;
        while idx < self.frames.len()
            invariant
                self.wf(),
                timestamp.wf(),
                fr.wf(),
                0 <= current_second as int <= (MAX_HOURS as int) * 3600 + 3599,
                self.frames_below(*fr),
                flo as int == frame_lo(*timestamp, current_second),
                idx <= self.frames@.len(),
                forall|j: int|
                    0 <= j < idx ==> (#[trigger] self.frames@[j]).0 < flo || self.frames@[
                    j].1.nanos@.len() == 0 || (current_second as int
                        == timestamp.spec_total_seconds() && self.frames@[j].0
                        == timestamp.frames),
            decreases self.frames@.len() - idx,
        {
            let fkey = self.frames[idx].0;
            if fkey >= flo {
                proof {
                    assert(has_key(self.frames@, fkey)) by {
                        assert(self.frames@[idx as int].0 == fkey);
                    }
                    lemma_key_index(self.frames@, fkey);
                }
                let found = self.frames[idx].1.find_first_keyframe_after_timestamp(
                    timestamp,
                    current_second,
                    fkey,
                    fr,
                );
                match found {
                    Some(e) => {
                        proof {
                            let leaf = self.frames@[idx as int].1;
                            assert(e.0.nanoframes == leaf.nanos@[0].0);
                            assert(has_key(leaf.nanos@, e.0.nanoframes)) by {
                                assert(leaf.nanos@[0].0 == e.0.nanoframes);
                            }
                            lemma_key_index(leaf.nanos@, e.0.nanoframes);
                            lemma_reconstruct(*fr, current_second, fkey, e.0.nanoframes);
                            assert(e.0.frames == fkey);
                            assert(e.1 == self.spec_at(fkey, e.0.nanoframes));
                            assert forall|f2: i64, n2: i64|
                                #[trigger] self.spec_has(f2, n2) && frame_lo(
                                    *timestamp,
                                    current_second,
                                ) <= f2 as int && !(current_second as int
                                    == timestamp.spec_total_seconds() && f2 == timestamp.frames)
                                    implies (fkey == f2 && e.0.nanoframes == n2) || fkey < f2 || (
                                fkey == f2 && e.0.nanoframes < n2) by {
                                lemma_key_index(self.frames@, f2);
                                let j2 = key_index(self.frames@, f2);
                                if f2 < fkey {
                                    if j2 < idx {
                                        let leaf2 = self.frames@[j2].1;
                                        lemma_key_index(leaf2.nanos@, n2);
                                    } else if j2 > idx {
                                        assert(self.frames@[idx as int].0 < self.frames@[j2].0);
                                    }
                                } else if f2 == fkey {
                                    let leaf2 = self.frames@[j2].1;
                                    assert(leaf2 == leaf);
                                    lemma_key_index(leaf.nanos@, n2);
                                    let w = key_index(leaf.nanos@, n2);
                                    if w > 0 {
                                        assert(leaf.nanos@[0].0 < leaf.nanos@[w].0);
                                    }
                                }
                            }
                        }
                        return Some(e);
                    },
                    None => {
                    },
                }
            }
            idx = idx + 1;
        }
        proof {
            assert forall|f2: i64, n2: i64|
                #[trigger] self.spec_has(f2, n2) && frame_lo(*timestamp, current_second)
                    <= f2 as int implies (current_second as int == timestamp.spec_total_seconds()
                    && f2 == timestamp.frames) by {
                lemma_key_index(self.frames@, f2);
                let j2 = key_index(self.frames@, f2);
                let leaf2 = self.frames@[j2].1;
                lemma_key_index(leaf2.nanos@, n2);
            }
        }
        None
    }

    /// Ensure a frame leaf exists under `time`'s frame number.
    pub fn get_or_create_frame_with_timestamp(&mut self, time: &Timecode)
        requires
            old(self).wf(),
            0 <= time.frames <= MAX_RAW_FRAMES,
        ensures
            final(self).wf(),
            final(self).spec_has_frame(time.frames),
            !old(self).spec_has_frame(time.frames) ==> final(self).frame_at(
                time.frames,
            ).nanos@.len() == 0,
            old(self).spec_has_frame(time.frames) ==> final(self).frame_at(time.frames) == old(
                self,
            ).frame_at(time.frames),
            forall|f: i64|
                f != time.frames ==> final(self).spec_has_frame(f) == old(self).spec_has_frame(f),
            forall|f: i64|
                f != time.frames && old(self).spec_has_frame(f) ==> final(self).frame_at(f) == old(
                    self,
                ).frame_at(f),
    {
        self.get_or_create_frame_with_isize(time.frames)
    }
}

impl<T: Tween> Default for SecondLeaf<T> {
    /// An empty second leaf.
    fn default() -> (r: SecondLeaf<T>)
        ensures
            r.wf(),
            r.frames@.len() == 0,
    {
        SecondLeaf::new()
    }
}

} // verus!
