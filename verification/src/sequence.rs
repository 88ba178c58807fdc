//! One property's keyframe store: the three-level tree rooted at absolute
//! seconds, and the engine that caches the active interpolation interval
//! so that forward playback does not rescan the tree on every query.

use vstd::prelude::*;
use crate::timecode::Framerate;
use crate::timecode::Timecode;
use crate::timecode::MAX_HOURS;
use crate::timecode::NANOFRAMES_PER_FRAME;
use crate::timecode::lemma_canonical_fields_from_total;
use crate::timecode::lemma_nanoseconds_range;
use vstd::arithmetic::div_mod::lemma_div_pos_is_pos;
use crate::tree::SecondLeaf;
use crate::tree::find_key;
use crate::tree::frame_hi;
use crate::tree::frame_lo;
use crate::tree::has_key;
use crate::tree::key_index;
use crate::tree::keys_sorted;
use crate::tree::lemma_insert_entry;
use crate::tree::lemma_key_index;
use crate::tree::lemma_reconstruct;
use crate::tree::lemma_update_entry;
use crate::tree::lower_bound;
use crate::tree::nano_hi;
use crate::tree::nano_lo;
use crate::tree::pos_lt;
use crate::tree::reconstruct_ok;
use crate::tree::second_scan_elem;
use crate::tree::spec_reconstruct;
use crate::tree::value_of;
use crate::value::Easing;
use crate::value::Keyframe;
use crate::value::Tween;

verus! {

/// The phase of an animation engine: freshly created, interpolating a
/// cached interval, past the cached interval's end, or past the last
/// authored keyframe of the whole sequence.
#[derive(Copy, Clone, Debug, PartialEq, Eq, Structural)]
pub enum AnimationEngineStatus {
    /// No interval has been cached yet.
    Empty,
    /// A bracketing keyframe pair is cached and trusted.
    Running,
    /// The cursor reached the cached interval's end; the next sequence
    /// query rescans.
    Ended,
    /// No keyframe exists after the cached one: its value is held forever.
    SequenceEnded,
}

/// Caches the currently bracketing keyframe pair of a sequence, so that
/// repeated queries under forward playback cost no tree search.
#[derive(Clone, Debug)]
pub struct AnimationEngine<T: Tween> {
    /// Start of the cached interval.
    pub t_begin: Timecode,
    /// End of the cached interval.
    pub t_end: Timecode,
    /// Sample at the start of the cached interval; present whenever the
    /// engine is running or ended.
    pub k_begin: Option<Keyframe<T>>,
    /// Sample at the end of the cached interval, or the held sample once
    /// the sequence has ended.
    pub k_end: Option<Keyframe<T>>,
    /// The engine's phase.
    pub status: AnimationEngineStatus,
}

impl<T: Tween> AnimationEngine<T> {
    /// The cached fields match the phase.
    pub open spec fn wf(self) -> bool {
        &&& (self.status == AnimationEngineStatus::Running || self.status
            == AnimationEngineStatus::Ended) ==> {
            &&& self.k_begin is Some
            &&& self.k_end is Some
            &&& self.t_begin.wf()
            &&& self.t_end.wf()
            &&& self.t_begin.hours >= 0
            &&& self.t_end.hours >= 0
            &&& self.t_begin.frames >= 0
            &&& self.t_end.frames >= 0
        }
        &&& self.status == AnimationEngineStatus::SequenceEnded ==> self.k_end is Some
    }

    /// A fresh, empty engine.
    pub fn new() -> (r: Self)
        ensures
            r.wf(),
            r.status == AnimationEngineStatus::Empty,
            r.k_begin is None,
            r.k_end is None,
    {
        AnimationEngine {
            t_begin: Timecode {
                hours: 0,
                minutes: 0,
                seconds: 0,
                frames: 0,
                nanoframes: 0,
                framerate: Framerate::Timestamp,
            },
            t_end: Timecode {
                hours: 0,
                minutes: 0,
                seconds: 0,
                frames: 0,
                nanoframes: 0,
                framerate: Framerate::Timestamp,
            },
            k_begin: None,
            k_end: None,
            status: AnimationEngineStatus::Empty,
        }
    }

    /// Cache a new bracketing interval and start running.
    pub fn set_new_animation(
        &mut self,
        begin: Timecode,
        end: Timecode,
        k_begin: Keyframe<T>,
        k_end: Keyframe<T>,
    )
        requires
            begin.wf(),
            end.wf(),
            begin.hours >= 0,
            end.hours >= 0,
            begin.frames >= 0,
            end.frames >= 0,
        ensures
            final(self).wf(),
            *final(self) == (AnimationEngine {
                t_begin: begin,
                t_end: end,
                k_begin: Some(k_begin),
                k_end: Some(k_end),
                status: AnimationEngineStatus::Running,
            }),
    {
        self.t_begin = begin;
        self.t_end = end;
        self.k_begin = Some(k_begin);
        self.k_end = Some(k_end);
        self.status = AnimationEngineStatus::Running;
    }

    /// Hold this sample forever: the sequence has no later keyframe.
    pub fn set_new_end(&mut self, k: Keyframe<T>)
        ensures
            final(self).wf(),
            *final(self) == (AnimationEngine {
                k_end: Some(k),
                status: AnimationEngineStatus::SequenceEnded,
                ..*old(self)
            }),
    {
        self.k_end = Some(k);
        self.status = AnimationEngineStatus::SequenceEnded;
    }

    pub fn is_empty(&self) -> (r: bool)
        ensures
            r == (self.status == AnimationEngineStatus::Empty),
    {
        matches!(self.status, AnimationEngineStatus::Empty)
    }

    pub fn is_running(&self) -> (r: bool)
        ensures
            r == (self.status == AnimationEngineStatus::Running),
    {
        matches!(self.status, AnimationEngineStatus::Running)
    }

    pub fn has_ended(&self) -> (r: bool)
        ensures
            r == (self.status == AnimationEngineStatus::Ended),
    {
        matches!(self.status, AnimationEngineStatus::Ended)
    }

    pub fn is_sequence_ended(&self) -> (r: bool)
        ensures
            r == (self.status == AnimationEngineStatus::SequenceEnded),
    {
        matches!(self.status, AnimationEngineStatus::SequenceEnded)
    }

    /// Interpolate at `current_time` inside the cached interval. Once the
    /// sequence has ended, the held sample comes back unchanged, forever.
    /// Otherwise the result is the begin sample tweened towards the end
    /// sample at the exact fraction of the interval, and reaching the end
    /// of the interval advances the phase to `Ended`.
    pub fn tween(&mut self, current_time: &Timecode) -> (r: T)
        requires
            old(self).wf(),
            old(self).status != AnimationEngineStatus::Empty,
            current_time.wf(),
            current_time.hours >= 0,
            current_time.frames >= 0,
        ensures
            final(self).wf(),
            old(self).status == AnimationEngineStatus::SequenceEnded ==> {
                &&& *final(self) == *old(self)
                &&& r == old(self).k_end->0.value
            },
            old(self).status != AnimationEngineStatus::SequenceEnded ==> {
                let fv = current_time.spec_lerp_value(old(self).t_begin, old(self).t_end);
                &&& r == old(self).k_begin->0.value.tween_spec(
                    old(self).k_end->0.value,
                    fv,
                    Easing::Linear,
                )
                &&& *final(self) == (AnimationEngine {
                    status: if fv.spec_at_least_one() {
                        AnimationEngineStatus::Ended
                    } else {
                        old(self).status
                    },
                    ..*old(self)
                })
            },
    {
        if self.is_sequence_ended() {
            return match &self.k_end {
                Some(k) => k.value.duplicate(),
                None => vstd::pervasive::unreached(),
            };
        }
        let time = current_time.get_lerp_time_between(&self.t_begin, &self.t_end);
        if time.is_at_least_one() {
            self.status = AnimationEngineStatus::Ended;
        }
        match (&self.k_begin, &self.k_end) {
            (Some(kb), Some(ke)) => kb.value.tween(&ke.value, &time, &Easing::Linear),
            _ => vstd::pervasive::unreached(),
        }
    }
}

impl<T: Tween> Default for Sequence<T> {
    /// A fresh, empty sequence.
    fn default() -> (r: Sequence<T>)
        ensures
            r.wf(),
            r.tree@.len() == 0,
            r.engine.status == AnimationEngineStatus::Empty,
    {
        Sequence::new()
    }
}

/// The absolute-second key under which an instant is stored.
pub open spec fn sec_key(t: Timecode) -> i64 {
    t.spec_total_seconds() as i64
}

/// A tree position lies inside the inclusive scan window from `begin` to
/// `end`, with the per-level bound refinement of the first and last
/// touched second and frame.
pub open spec fn in_window(
    begin: Timecode,
    end: Timecode,
    fr: Framerate,
    s: i64,
    f: i64,
    n: i64,
) -> bool {
    &&& begin.spec_total_seconds() <= s as int <= end.spec_total_seconds()
    &&& frame_lo(begin, s) <= f as int <= frame_hi(end, fr, s)
    &&& nano_lo(begin, s, f) <= n as int <= nano_hi(end, s, f)
}

/// Ordering of whole-tree samples: by absolute second, then frame, then
/// nanoframe offset.
pub open spec fn sample_lt(a: Timecode, b: Timecode) -> bool {
    a.spec_total_seconds() < b.spec_total_seconds() || (a.spec_total_seconds()
        == b.spec_total_seconds() && pos_lt(a, b))
}

/// A stored sample strictly later than the position `(bs, bf)` at
/// whole-frame granularity.
pub open spec fn after_candidate<T: Tween>(
    sq: Sequence<T>,
    bs: i64,
    bf: i64,
    s: i64,
    f: i64,
    n: i64,
) -> bool {
    sq.spec_has(s, f, n) && (s > bs || (s == bs && f > bf))
}

/// A stored sample's tree position can be reconstructed at any compatible
/// rate: its bounds come from the store's own well-formedness.
proof fn lemma_sample_position_ok<T: Tween>(
    sq: Sequence<T>,
    fr: Framerate,
    s: i64,
    f: i64,
    n: i64,
)
    requires
        sq.tree_wf(),
        sq.frames_below(fr),
        fr.wf(),
        sq.spec_has(s, f, n),
    ensures
        reconstruct_ok(fr, s, f, n),
{
    lemma_key_index(sq.tree@, s);
    let j = key_index(sq.tree@, s);
    let leaf = sq.tree@[j].1;
    lemma_key_index(leaf.frames@, f);
    let fj = key_index(leaf.frames@, f);
    let fl = leaf.frames@[fj].1;
    lemma_key_index(fl.nanos@, n);
}

/// Some stored sample lies inside the scan window.
pub open spec fn window_hit_exists<T: Tween>(
    sq: Sequence<T>,
    begin: Timecode,
    end: Timecode,
    fr: Framerate,
) -> bool {
    exists|s: i64, f: i64, n: i64|
        #[trigger] sq.spec_has(s, f, n) && in_window(begin, end, fr, s, f, n)
}

/// The latest stored sample inside the scan window: the one a rescan takes
/// as the new lower bound of the bracketing pair.
pub open spec fn is_last_window_hit<T: Tween>(
    sq: Sequence<T>,
    begin: Timecode,
    end: Timecode,
    fr: Framerate,
    s: i64,
    f: i64,
    n: i64,
) -> bool {
    &&& sq.spec_has(s, f, n)
    &&& in_window(begin, end, fr, s, f, n)
    &&& forall|s2: i64, f2: i64, n2: i64|
        #[trigger] sq.spec_has(s2, f2, n2) && in_window(begin, end, fr, s2, f2, n2) ==> s2 < s || (
        s2 == s && (f2 < f || (f2 == f && n2 <= n)))
}

/// The earliest stored sample strictly after the position `(bs, bf)` at
/// whole-frame granularity: the upper bound a rescan pairs with the lower.
pub open spec fn is_first_after<T: Tween>(
    sq: Sequence<T>,
    bs: i64,
    bf: i64,
    s: i64,
    f: i64,
    n: i64,
) -> bool {
    &&& after_candidate(sq, bs, bf, s, f, n)
    &&& forall|s2: i64, f2: i64, n2: i64|
        #[trigger] after_candidate(sq, bs, bf, s2, f2, n2) ==> s < s2 || (s == s2 && (f < f2 || (f
            == f2 && n <= n2)))
}

/// Everything `Sequence::tween` promises about how one query evolves the
/// store `pre` into `post` and what it returns: the sticky held value once
/// the sequence has ended, the trusted cached interval while running, and
/// the rescan over the window from the last query time otherwise.
pub open spec fn tween_post<T: Tween>(
    pre: Sequence<T>,
    time: Timecode,
    post: Sequence<T>,
    r: Option<T>,
) -> bool {
    &&& post.tree == pre.tree
    &&& pre.engine.status == AnimationEngineStatus::SequenceEnded ==> {
        &&& post == pre
        &&& r == Some(pre.engine.k_end->0.value)
    }
    &&& pre.engine.status == AnimationEngineStatus::Running ==> {
        let fv = time.spec_lerp_value(pre.engine.t_begin, pre.engine.t_end);
        &&& post.last_time == pre.last_time
        &&& r == Some(
            pre.engine.k_begin->0.value.tween_spec(
                pre.engine.k_end->0.value,
                fv,
                Easing::Linear,
            ),
        )
        &&& post.engine == (AnimationEngine {
            status: if fv.spec_at_least_one() {
                AnimationEngineStatus::Ended
            } else {
                AnimationEngineStatus::Running
            },
            ..pre.engine
        })
    }
    &&& (pre.engine.status == AnimationEngineStatus::Empty || pre.engine.status
        == AnimationEngineStatus::Ended) ==> {
        &&& !window_hit_exists(pre, pre.last_time, time, time.framerate) ==> r is None && post
            == pre
        &&& window_hit_exists(pre, pre.last_time, time, time.framerate) ==> (r is Some
            && post.last_time.framerate == time.framerate)
        &&& forall|bs: i64, bf: i64, bn: i64|
            #[trigger] is_last_window_hit(
                pre,
                pre.last_time,
                time,
                time.framerate,
                bs,
                bf,
                bn,
            ) ==> {
                let tb = spec_reconstruct(time.framerate, bs, bf, bn);
                let kb = pre.spec_at(bs, bf, bn);
                &&& ((forall|es: i64, ef: i64, en: i64|
                    !after_candidate(pre, bs, bf, es, ef, en)) ==> {
                    &&& post.engine == (AnimationEngine {
                        k_end: Some(kb),
                        status: AnimationEngineStatus::SequenceEnded,
                        ..pre.engine
                    })
                    &&& r == Some(kb.value)
                })
                &&& forall|es: i64, ef: i64, en: i64|
                    #[trigger] is_first_after(pre, bs, bf, es, ef, en) ==> {
                        let te = spec_reconstruct(time.framerate, es, ef, en);
                        let ke = pre.spec_at(es, ef, en);
                        let fv = time.spec_lerp_value(tb, te);
                        &&& r == Some(kb.value.tween_spec(ke.value, fv, Easing::Linear))
                        &&& post.engine == (AnimationEngine {
                            t_begin: tb,
                            t_end: te,
                            k_begin: Some(kb),
                            k_end: Some(ke),
                            status: if fv.spec_at_least_one() {
                                AnimationEngineStatus::Ended
                            } else {
                                AnimationEngineStatus::Running
                            },
                        })
                    }
            }
    }
}

/// One element of a whole-tree range scan: a stored sample inside the
/// window, carried by its reconstructed timecode.
pub open spec fn tree_scan_elem<T: Tween>(
    sq: Sequence<T>,
    begin: Timecode,
    end: Timecode,
    fr: Framerate,
    e: (Timecode, Keyframe<T>),
) -> bool {
    let s = e.0.spec_total_seconds() as i64;
    let f = e.0.frames;
    let n = e.0.nanoframes;
    &&& e.0 == spec_reconstruct(fr, s, f, n)
    &&& sq.spec_has(s, f, n)
    &&& e.1 == sq.spec_at(s, f, n)
    &&& in_window(begin, end, fr, s, f, n)
}

/// One property's keyframe store: a three-level sorted index (absolute
/// second, then frame, then nanoframe) plus the engine that caches the
/// active interpolation interval and the time of the last query.
#[derive(Clone, Debug)]
pub struct Sequence<T: Tween> {
    /// The cached-interval engine.
    pub engine: AnimationEngine<T>,
    /// Sorted index from absolute second to that second's frames.
    pub tree: Vec<(i64, SecondLeaf<T>)>,
    /// The time of the last rescan, the lower edge of the next scan window.
    pub last_time: Timecode,
}

impl<T: Tween> Sequence<T> {
    /// The tree part alone is well-formed.
    pub open spec fn tree_wf(self) -> bool {
        &&& keys_sorted(self.tree@)
        &&& forall|i: int|
            0 <= i < self.tree@.len() ==> 0 <= (#[trigger] self.tree@[i]).0 as int <= (
            MAX_HOURS as int) * 3600 + 3599
        &&& forall|i: int| 0 <= i < self.tree@.len() ==> (#[trigger] self.tree@[i]).1.wf()
    }

    /// The whole store is well-formed.
    pub open spec fn wf(self) -> bool {
        &&& self.tree_wf()
        &&& self.engine.wf()
        &&& self.last_time.wf()
        &&& self.last_time.hours >= 0
        &&& self.last_time.frames >= 0
    }

    /// Every stored frame number fits under the quantized rate of `fr`.
    pub open spec fn frames_below(self, fr: Framerate) -> bool {
        forall|i: int| 0 <= i < self.tree@.len() ==> (#[trigger] self.tree@[i]).1.frames_below(fr)
    }

    /// A second leaf is stored under this absolute second.
    pub open spec fn spec_has_second(self, s: i64) -> bool {
        has_key(self.tree@, s)
    }

    /// The second leaf stored under this absolute second.
    pub open spec fn second_at(self, s: i64) -> SecondLeaf<T> {
        value_of(self.tree@, s)
    }

    /// A sample is stored at this tree position.
    pub open spec fn spec_has(self, s: i64, f: i64, n: i64) -> bool {
        self.spec_has_second(s) && self.second_at(s).spec_has(f, n)
    }

    /// The sample stored at this tree position.
    pub open spec fn spec_at(self, s: i64, f: i64, n: i64) -> Keyframe<T> {
        self.second_at(s).spec_at(f, n)
    }

    /// A fresh, empty sequence: no samples, an empty engine, and the last
    /// query time at zero in raw timestamp mode.
    pub fn new() -> (r: Self)
        ensures
            r.wf(),
            r.tree@.len() == 0,
            r.engine.status == AnimationEngineStatus::Empty,
            r.last_time == (Timecode {
                hours: 0,
                minutes: 0,
                seconds: 0,
                frames: 0,
                nanoframes: 0,
                framerate: Framerate::Timestamp,
            }),
            forall|fr2: Framerate| #[trigger] r.frames_below(fr2),
    {
        Sequence {
            engine: AnimationEngine::new(),
            tree: Vec::new(),
            last_time: Timecode {
                hours: 0,
                minutes: 0,
                seconds: 0,
                frames: 0,
                nanoframes: 0,
                framerate: Framerate::Timestamp,
            },
        }
    }

    /// Store an empty second leaf under this absolute second, discarding
    /// any samples already stored in it — the caller's hazard, as with
    /// every `create` on an already populated key.
    pub fn create_second_with_isize(&mut self, second: i64)
        requires
            old(self).wf(),
            0 <= second as int <= (MAX_HOURS as int) * 3600 + 3599,
        ensures
            final(self).wf(),
            final(self).engine == old(self).engine,
            final(self).last_time == old(self).last_time,
            final(self).spec_has_second(second),
            final(self).second_at(second).frames@.len() == 0,
            forall|s: i64|
                s != second ==> final(self).spec_has_second(s) == old(self).spec_has_second(s),
            forall|s: i64|
                s != second && old(self).spec_has_second(s) ==> final(self).second_at(s) == old(
                    self,
                ).second_at(s),
    {
        let ghost t0 = self.tree@;
        match find_key(&self.tree, second) {
            Some(i) => {
                self.tree[i] = (second, SecondLeaf::new());
                proof {
                    lemma_update_entry(t0, i as int, self.tree@[i as int]);
                }
            },
            None => {
                let j = lower_bound(&self.tree, second);
                proof {
                    assert forall|i: int| j <= i < t0.len() implies t0[i].0 > second by {
                        if t0[i].0 == second {
                            assert(has_key(t0, second));
                        }
                    }
                }
                self.tree.insert(j, (second, SecondLeaf::new()));
                proof {
                    lemma_insert_entry(t0, j as int, self.tree@[j as int]);
                }
            },
        }
    }

    /// Store an empty second leaf under `time`'s absolute second.
    pub fn create_second_with_timestamp(&mut self, time: &Timecode)
        requires
            old(self).wf(),
            time.wf(),
            time.hours >= 0,
        ensures
            final(self).wf(),
            final(self).engine == old(self).engine,
            final(self).last_time == old(self).last_time,
            final(self).spec_has_second(sec_key(*time)),
            final(self).second_at(sec_key(*time)).frames@.len() == 0,
            forall|s: i64|
                s != sec_key(*time) ==> final(self).spec_has_second(s) == old(
                    self,
                ).spec_has_second(s),
            forall|s: i64|
                s != sec_key(*time) && old(self).spec_has_second(s) ==> final(self).second_at(s)
                    == old(self).second_at(s),
    {
        let sec = time.total_seconds();
        self.create_second_with_isize(sec)
    }

    /// Look up the second leaf under this absolute second.
    pub fn get_second_with_isize(&self, second: i64) -> (r: Option<&SecondLeaf<T>>)
        requires
            self.wf(),
        ensures
            match r {
                Some(l) => self.spec_has_second(second) && *l == self.second_at(second),
                None => !self.spec_has_second(second),
            },
    {
        match find_key(&self.tree, second) {
            Some(i) => Some(&self.tree[i].1),
            None => None,
        }
    }

    /// Look up the second leaf under `time`'s absolute second.
    pub fn get_second_with_timestamp(&self, time: &Timecode) -> (r: Option<&SecondLeaf<T>>)
        requires
            self.wf(),
            time.wf(),
        ensures
            match r {
                Some(l) => self.spec_has_second(sec_key(*time)) && *l == self.second_at(
                    sec_key(*time),
                ),
                None => !self.spec_has_second(sec_key(*time)),
            },
    {
        let sec = time.total_seconds();
        self.get_second_with_isize(sec)
    }

    /// Ensure a second leaf exists under this absolute second, creating an
    /// empty one only when the key is absent.
    pub fn get_or_create_second_with_isize(&mut self, second: i64)
        requires
            old(self).wf(),
            0 <= second as int <= (MAX_HOURS as int) * 3600 + 3599,
        ensures
            final(self).wf(),
            final(self).engine == old(self).engine,
            final(self).last_time == old(self).last_time,
            final(self).spec_has_second(second),
            !old(self).spec_has_second(second) ==> final(self).second_at(second).frames@.len()
                == 0,
            old(self).spec_has_second(second) ==> final(self).second_at(second) == old(
                self,
            ).second_at(second),
            forall|s: i64|
                s != second ==> final(self).spec_has_second(s) == old(self).spec_has_second(s),
            forall|s: i64|
                s != second && old(self).spec_has_second(s) ==> final(self).second_at(s) == old(
                    self,
                ).second_at(s),
    {
        let present = match find_key(&self.tree, second) {
            Some(_) => true,
            None => false,
        };
        if !present {
            self.create_second_with_isize(second);
        }
    }

    /// Ensure a second leaf exists under `time`'s absolute second.
    pub fn get_or_create_second_with_timestamp(&mut self, time: &Timecode)
        requires
            old(self).wf(),
            time.wf(),
            time.hours >= 0,
        ensures
            final(self).wf(),
            final(self).engine == old(self).engine,
            final(self).last_time == old(self).last_time,
            final(self).spec_has_second(sec_key(*time)),
            !old(self).spec_has_second(sec_key(*time)) ==> final(self).second_at(
                sec_key(*time),
            ).frames@.len() == 0,
            old(self).spec_has_second(sec_key(*time)) ==> final(self).second_at(sec_key(*time))
                == old(self).second_at(sec_key(*time)),
            forall|s: i64|
                s != sec_key(*time) ==> final(self).spec_has_second(s) == old(
                    self,
                ).spec_has_second(s),
            forall|s: i64|
                s != sec_key(*time) && old(self).spec_has_second(s) ==> final(self).second_at(s)
                    == old(self).second_at(s),
    {
        let sec = time.total_seconds();
        self.get_or_create_second_with_isize(sec)
    }

    /// Insert a sample at `time`'s tree position, replacing any sample
    /// stored at exactly that instant.
    pub fn add_keyframe_at_timestamp(&mut self, key: Keyframe<T>, time: &Timecode)
        requires
            old(self).wf(),
            time.wf(),
            time.hours >= 0,
            time.frames >= 0,
        ensures
            final(self).wf(),
            final(self).engine == old(self).engine,
            final(self).last_time == old(self).last_time,
            final(self).spec_has(sec_key(*time), time.frames, time.nanoframes),
            final(self).spec_at(sec_key(*time), time.frames, time.nanoframes) == key,
            forall|s: i64, f: i64, n: i64|
                !(s == sec_key(*time) && f == time.frames && n == time.nanoframes)
                    ==> final(self).spec_has(s, f, n) == old(self).spec_has(s, f, n),
            forall|s: i64, f: i64, n: i64|
                !(s == sec_key(*time) && f == time.frames && n == time.nanoframes) && old(
                    self,
                ).spec_has(s, f, n) ==> final(self).spec_at(s, f, n) == old(self).spec_at(s, f, n),
            forall|fr2: Framerate|
                old(self).frames_below(fr2) && (fr2.spec_fps() >= 1 ==> (time.frames as int)
                    < fr2.spec_fps()) ==> #[trigger] final(self).frames_below(fr2),
    {
        let ghost t0 = self.tree@;
        let sec = time.total_seconds();
        let found = find_key(&self.tree, sec);
        match found {
            Some(i) => {
                let entry = self.tree.remove(i);
                let mut sl = entry.1;
                sl.add_keyframe_at_timestamp(time, key);
                self.tree.insert(i, (sec, sl));
                proof {
                    let e = self.tree@[i as int];
                    assert(self.tree@ =~= t0.update(i as int, e));
                    lemma_update_entry(t0, i as int, e);
                    lemma_key_index(t0, sec);
                }
            },
            None => {
                let j = lower_bound(&self.tree, sec);
                proof {
                    assert forall|i: int| j <= i < t0.len() implies t0[i].0 > sec by {
                        if t0[i].0 == sec {
                            assert(has_key(t0, sec));
                        }
                    }
                }
                let mut sl = SecondLeaf::new();
                sl.add_keyframe_at_timestamp(time, key);
                self.tree.insert(j, (sec, sl));
                proof {
                    lemma_insert_entry(t0, j as int, self.tree@[j as int]);
                }
            },
        }
    }

    /// Insert a batch of samples, one by one in order; a later entry at the
    /// same instant wins.
    pub fn add_keyframes_at_timestamp(&mut self, keyframes: Vec<(Keyframe<T>, Timecode)>)
        requires
            old(self).wf(),
            forall|j: int|
                0 <= j < keyframes@.len() ==> {
                    &&& (#[trigger] keyframes@[j]).1.wf()
                    &&& keyframes@[j].1.hours >= 0
                    &&& keyframes@[j].1.frames >= 0
                },
        ensures
            final(self).wf(),
            final(self).engine == old(self).engine,
            final(self).last_time == old(self).last_time,
            forall|s: i64, f: i64, n: i64|
                (forall|j: int|
                    0 <= j < keyframes@.len() ==> !(s == sec_key(#[trigger] keyframes@[j].1) && f
                        == keyframes@[j].1.frames && n == keyframes@[j].1.nanoframes))
                    ==> #[trigger] final(self).spec_has(s, f, n) == old(self).spec_has(s, f, n)
                    && (old(self).spec_has(s, f, n) ==> final(self).spec_at(s, f, n) == old(
                    self,
                ).spec_at(s, f, n)),
            forall|j: int|
                0 <= j < keyframes@.len() && (forall|j2: int|
                    j < j2 < keyframes@.len() ==> !(sec_key(#[trigger] keyframes@[j2].1) == sec_key(
                        keyframes@[j].1,
                    ) && keyframes@[j2].1.frames == keyframes@[j].1.frames
                        && keyframes@[j2].1.nanoframes == keyframes@[j].1.nanoframes)) ==> {
                    &&& final(self).spec_has(
                        sec_key(#[trigger] keyframes@[j].1),
                        keyframes@[j].1.frames,
                        keyframes@[j].1.nanoframes,
                    )
                    &&& final(self).spec_at(
                        sec_key(keyframes@[j].1),
                        keyframes@[j].1.frames,
                        keyframes@[j].1.nanoframes,
                    ) == keyframes@[j].0
                },
    {
        let ghost kfs0 = keyframes@;
        let mut kfs = keyframes;
        let mut idx: usize = 0;
        while idx < kfs.len()
            invariant
                idx <= kfs@.len(),
                kfs@ == kfs0,
                forall|j: int|
                    0 <= j < kfs@.len() ==> {
                        &&& (#[trigger] kfs@[j]).1.wf()
                        &&& kfs@[j].1.hours >= 0
                        &&& kfs@[j].1.frames >= 0
                    },
                self.wf(),
                self.engine == old(self).engine,
                self.last_time == old(self).last_time,
                forall|s: i64, f: i64, n: i64|
                    (forall|j: int|
                        0 <= j < idx ==> !(s == sec_key(#[trigger] kfs@[j].1) && f
                            == kfs@[j].1.frames && n == kfs@[j].1.nanoframes))
                        ==> #[trigger] self.spec_has(s, f, n) == old(self).spec_has(s, f, n) && (
                    old(self).spec_has(s, f, n) ==> self.spec_at(s, f, n) == old(self).spec_at(
                        s,
                        f,
                        n,
                    )),
                forall|j: int|
                    0 <= j < idx && (forall|j2: int|
                        j < j2 < idx ==> !(sec_key(#[trigger] kfs@[j2].1) == sec_key(kfs@[j].1)
                            && kfs@[j2].1.frames == kfs@[j].1.frames && kfs@[j2].1.nanoframes
                            == kfs@[j].1.nanoframes)) ==> {
                        &&& self.spec_has(
                            sec_key(#[trigger] kfs@[j].1),
                            kfs@[j].1.frames,
                            kfs@[j].1.nanoframes,
                        )
                        &&& self.spec_at(
                            sec_key(kfs@[j].1),
                            kfs@[j].1.frames,
                            kfs@[j].1.nanoframes,
                        ) == kfs@[j].0
                    },
            decreases kfs@.len() - idx,
        {
            let k = kfs[idx].0.duplicate();
            let t = kfs[idx].1;
            self.add_keyframe_at_timestamp(k, &t);
            idx = idx + 1;
        }
    }

    /// Inclusive range scan: every stored sample that the window from
    /// `begin` to `end` covers, in ascending time order, each paired with
    /// its reconstructed timecode at the rate `fr`.
    pub fn get_keyframes_between(
        &self,
        begin: &Timecode,
        end: &Timecode,
        fr: &Framerate,
    ) -> (r: Vec<(Timecode, Keyframe<T>)>)
        requires
            self.wf(),
            begin.wf(),
            end.wf(),
            fr.wf(),
            self.frames_below(*fr),
        ensures
            forall|i: int|
                0 <= i < r@.len() ==> tree_scan_elem(*self, *begin, *end, *fr, #[trigger] r@[i]),
            forall|i: int, j: int| 0 <= i < j < r@.len() ==> sample_lt(r@[i].0, r@[j].0),
            forall|s: i64, f: i64, n: i64|
                #[trigger] self.spec_has(s, f, n) && in_window(*begin, *end, *fr, s, f, n)
                    ==> exists|i: int|
                    0 <= i < r@.len() && (#[trigger] r@[i]).0.spec_total_seconds() == s as int
                        && r@[i].0.frames == f && r@[i].0.nanoframes == n,
    {
        let mut out: Vec<(Timecode, Keyframe<T>)> = Vec::new();
        let bsec = begin.total_seconds();
        let esec = end.total_seconds();
        let start = lower_bound(&self.tree, bsec);
        let ghost startg = start as int;
        let mut idx: usize = start;
        let mut stop = false;
        while idx < self.tree.len() && !stop
            invariant
                self.wf(),
                begin.wf(),
                end.wf(),
                fr.wf(),
                self.frames_below(*fr),
                bsec as int == begin.spec_total_seconds(),
                esec as int == end.spec_total_seconds(),
                startg <= idx as int <= self.tree@.len(),
                forall|i: int| 0 <= i < startg ==> (#[trigger] self.tree@[i]).0 < bsec,
                forall|i: int|
                    startg <= i < self.tree@.len() ==> (#[trigger] self.tree@[i]).0 >= bsec,
                forall|i: int|
                    0 <= i < out@.len() ==> tree_scan_elem(
                        *self,
                        *begin,
                        *end,
                        *fr,
                        #[trigger] out@[i],
                    ),
                forall|i: int, j: int| 0 <= i < j < out@.len() ==> sample_lt(out@[i].0, out@[j].0),
                forall|i: int|
                    0 <= i < out@.len() ==> forall|j: int|
                        idx as int <= j < self.tree@.len() ==> (
                        #[trigger] out@[i]).0.spec_total_seconds() < (#[trigger] self.tree@[
                        j]).0 as int,
                forall|j: int, f: i64, n: i64|
                    0 <= j < idx as int && #[trigger] self.tree@[j].1.spec_has(f, n) && in_window(
                        *begin,
                        *end,
                        *fr,
                        self.tree@[j].0,
                        f,
                        n,
                    ) ==> exists|i: int|
                        0 <= i < out@.len() && (#[trigger] out@[i]).0.spec_total_seconds()
                            == self.tree@[j].0 as int && out@[i].0.frames == f
                            && out@[i].0.nanoframes == n,
                stop ==> forall|j: int|
                    idx as int <= j < self.tree@.len() ==> (#[trigger] self.tree@[j]).0 as int
                        > esec as int,
            decreases self.tree@.len() - idx + (if stop {
                0int
            } else {
                1int
            }),
        {
            let skey = self.tree[idx].0;
            if skey > esec {
                proof {
                    assert forall|j: int| idx as int <= j < self.tree@.len() implies (
                    #[trigger] self.tree@[j]).0 as int > esec as int by {
                        if (idx as int) < j {
                            assert(self.tree@[idx as int].0 < self.tree@[j].0);
                        }
                    }
                }
                stop = true;
            } else {
                let ghost vpre = out@;
                proof {
                    assert(has_key(self.tree@, skey)) by {
                        assert(self.tree@[idx as int].0 == skey);
                    }
                    lemma_key_index(self.tree@, skey);
                }
                self.tree[idx].1.get_keyframes_between(begin, end, skey, fr, &mut out);
                proof {
                    let leaf = self.tree@[idx as int].1;
                    assert forall|i: int|
                        0 <= i < out@.len() implies tree_scan_elem(
                        *self,
                        *begin,
                        *end,
                        *fr,
                        #[trigger] out@[i],
                    ) by {
                        if i >= vpre.len() {
                            let e = out@[i];
                            assert(second_scan_elem(leaf, *begin, *end, *fr, skey, e));
                            let f = e.0.frames;
                            let n = e.0.nanoframes;
                            assert(leaf.spec_has(f, n));
                            lemma_key_index(leaf.frames@, f);
                            let fl = leaf.frame_at(f);
                            lemma_key_index(fl.nanos@, n);
                            lemma_reconstruct(*fr, skey, f, n);
                            assert(e.0.spec_total_seconds() == skey as int);
                            assert(e.0.spec_total_seconds() as i64 == skey);
                        }
                    }
                    assert forall|i: int, j: int|
                        0 <= i < j < out@.len() implies sample_lt(out@[i].0, out@[j].0) by {
                        if j >= vpre.len() {
                            let ej = out@[j];
                            assert(second_scan_elem(leaf, *begin, *end, *fr, skey, ej));
                            lemma_key_index(leaf.frames@, ej.0.frames);
                            lemma_key_index(leaf.frame_at(ej.0.frames).nanos@, ej.0.nanoframes);
                            lemma_reconstruct(*fr, skey, ej.0.frames, ej.0.nanoframes);
                            if i >= vpre.len() {
                                let ei = out@[i];
                                assert(second_scan_elem(leaf, *begin, *end, *fr, skey, ei));
                                lemma_key_index(leaf.frames@, ei.0.frames);
                                lemma_key_index(
                                    leaf.frame_at(ei.0.frames).nanos@,
                                    ei.0.nanoframes,
                                );
                                lemma_reconstruct(*fr, skey, ei.0.frames, ei.0.nanoframes);
                            }
                        }
                    }
                    assert forall|j: int, f: i64, n: i64|
                        0 <= j < idx as int + 1 && #[trigger] self.tree@[j].1.spec_has(f, n)
                            && in_window(*begin, *end, *fr, self.tree@[j].0, f, n) implies exists|
                        i: int,
                    |
                        0 <= i < out@.len() && (#[trigger] out@[i]).0.spec_total_seconds()
                            == self.tree@[j].0 as int && out@[i].0.frames == f
                            && out@[i].0.nanoframes == n by {
                        if j == idx as int {
                            let i0 = choose|i: int|
                                vpre.len() <= i < out@.len() && (#[trigger] out@[i]).0.frames == f
                                    && out@[i].0.nanoframes == n;
                            assert(second_scan_elem(leaf, *begin, *end, *fr, skey, out@[i0]));
                            lemma_key_index(leaf.frames@, f);
                            lemma_key_index(leaf.frame_at(f).nanos@, n);
                            lemma_reconstruct(*fr, skey, f, n);
                            assert(out@[i0].0.spec_total_seconds() == skey as int);
                        } else {
                            let i0 = choose|i: int|
                                0 <= i < vpre.len() && (#[trigger] vpre[i]).0.spec_total_seconds()
                                    == self.tree@[j].0 as int && vpre[i].0.frames == f
                                    && vpre[i].0.nanoframes == n;
                            assert(out@[i0].0.spec_total_seconds() == self.tree@[j].0 as int);
                        }
                    }
                }
                idx = idx + 1;
            }
        }
        proof {
            assert forall|s: i64, f: i64, n: i64|
                #[trigger] self.spec_has(s, f, n) && in_window(*begin, *end, *fr, s, f, n) implies
                exists|i: int|
                    0 <= i < out@.len() && (#[trigger] out@[i]).0.spec_total_seconds() == s as int
                        && out@[i].0.frames == f && out@[i].0.nanoframes == n by {
                lemma_key_index(self.tree@, s);
                let j = key_index(self.tree@, s);
                if stop {
                    if j >= idx as int {
                        assert(self.tree@[j].0 as int > esec as int);
                    }
                } else {
                    assert(idx == self.tree@.len());
                }
                assert(0 <= j < idx as int);
                assert(self.tree@[j].1.spec_has(f, n));
            }
        }
        out
    }

    /// The first stored sample strictly later than `timestamp` at
    /// whole-frame granularity: the least stored position whose (second,
    /// frame) pair exceeds `timestamp`'s, scanning forward from
    /// `timestamp`'s second. Nothing when no such sample exists.
    pub fn find_first_keyframe_after_timestamp(
        &self,
        timestamp: &Timecode,
        fr: &Framerate,
    ) -> (r: Option<(Timecode, Keyframe<T>)>)
        requires
            self.wf(),
            timestamp.wf(),
            fr.wf(),
            self.frames_below(*fr),
        ensures
            match r {
                Some(e) => {
                    let s = e.0.spec_total_seconds() as i64;
                    let f = e.0.frames;
                    let n = e.0.nanoframes;
                    &&& e.0 == spec_reconstruct(*fr, s, f, n)
                    &&& self.spec_has(s, f, n)
                    &&& e.1 == self.spec_at(s, f, n)
                    &&& after_candidate(*self, sec_key(*timestamp), timestamp.frames, s, f, n)
                    &&& forall|s2: i64, f2: i64, n2: i64|
                        #[trigger] after_candidate(
                            *self,
                            sec_key(*timestamp),
                            timestamp.frames,
                            s2,
                            f2,
                            n2,
                        ) ==> s < s2 || (s == s2 && (f < f2 || (f == f2 && n <= n2)))
                },
                None => forall|s2: i64, f2: i64, n2: i64|
                    !after_candidate(*self, sec_key(*timestamp), timestamp.frames, s2, f2, n2),
            },
    {
        let tsec = timestamp.total_seconds();
        let start = lower_bound(&self.tree, tsec);
        let mut idx: usize = start;
        let ghost startg = start as int;
        while idx < self.tree.len()
            invariant
                self.wf(),
                timestamp.wf(),
                fr.wf(),
                self.frames_below(*fr),
                tsec as int == timestamp.spec_total_seconds(),
                startg <= idx as int <= self.tree@.len(),
                forall|i: int| 0 <= i < startg ==> (#[trigger] self.tree@[i]).0 < tsec,
                forall|i: int|
                    startg <= i < self.tree@.len() ==> (#[trigger] self.tree@[i]).0 >= tsec,
                forall|j: int, f2: i64, n2: i64|
                    0 <= j < idx as int && #[trigger] self.tree@[j].1.spec_has(f2, n2)
                        ==> !after_candidate(
                        *self,
                        sec_key(*timestamp),
                        timestamp.frames,
                        self.tree@[j].0,
                        f2,
                        n2,
                    ),
            decreases self.tree@.len() - idx,
        {
            let skey = self.tree[idx].0;
            proof {
                assert(has_key(self.tree@, skey)) by {
                    assert(self.tree@[idx as int].0 == skey);
                }
                lemma_key_index(self.tree@, skey);
            }
            let found = self.tree[idx].1.find_first_keyframe_after_timestamp(timestamp, skey, fr);
            match found {
                Some(e) => {
                    proof {
                        let leaf = self.tree@[idx as int].1;
                        let f = e.0.frames;
                        let n = e.0.nanoframes;
                        assert(leaf.spec_has(f, n));
                        lemma_key_index(leaf.frames@, f);
                        lemma_key_index(leaf.frame_at(f).nanos@, n);
                        lemma_reconstruct(*fr, skey, f, n);
                        assert(e.0.spec_total_seconds() == skey as int);
                        assert(after_candidate(
                            *self,
                            sec_key(*timestamp),
                            timestamp.frames,
                            skey,
                            f,
                            n,
                        ));
                        assert forall|s2: i64, f2: i64, n2: i64|
                            #[trigger] after_candidate(
                                *self,
                                sec_key(*timestamp),
                                timestamp.frames,
                                s2,
                                f2,
                                n2,
                            ) implies skey < s2 || (skey == s2 && (f < f2 || (f == f2 && n
                            <= n2))) by {
                            lemma_key_index(self.tree@, s2);
                            let j2 = key_index(self.tree@, s2);
                            if j2 < idx as int {
                                assert(self.tree@[j2].1.spec_has(f2, n2));
                            } else if j2 > idx as int {
                                assert(self.tree@[idx as int].0 < self.tree@[j2].0);
                            } else {
                                assert(s2 == skey);
                            }
                        }
                    }
                    return Some(e);
                },
                None => {
                    proof {
                        let leaf = self.tree@[idx as int].1;
                        assert forall|f2: i64, n2: i64|
                            #[trigger] leaf.spec_has(f2, n2) implies !after_candidate(
                            *self,
                            sec_key(*timestamp),
                            timestamp.frames,
                            skey,
                            f2,
                            n2,
                        ) by {
                            if frame_lo(*timestamp, skey) <= f2 as int {
                                assert(skey as int == timestamp.spec_total_seconds() && f2
                                    == timestamp.frames);
                            } else {
                                assert(skey as int == timestamp.spec_total_seconds());
                                assert(f2 < timestamp.frames);
                            }
                        }
                    }
                },
            }
            idx = idx + 1;
        }
        proof {
            assert forall|s2: i64, f2: i64, n2: i64|
                !after_candidate(*self, sec_key(*timestamp), timestamp.frames, s2, f2, n2) by {
                if after_candidate(*self, sec_key(*timestamp), timestamp.frames, s2, f2, n2) {
                    lemma_key_index(self.tree@, s2);
                    let j2 = key_index(self.tree@, s2);
                    assert(self.tree@[j2].1.spec_has(f2, n2));
                    if j2 < startg {
                        assert(self.tree@[j2].0 < tsec);
                    }
                }
            }
        }
        None
    }

    /// Interpolated value of this property at `time`.
    ///
    /// While the engine is running or the sequence has ended, the cached
    /// interval is trusted without re-validating that `time` still lies
    /// inside it: the cache is tuned for forward playback. Otherwise the
    /// store is rescanned over the window from the last query time to
    /// `time`: the latest sample in the window becomes the new lower bound,
    /// the first strictly-later sample the new upper bound; with no later
    /// sample the sequence ends and holds its last value. A window with no
    /// sample at all yields nothing and changes nothing.
    #[verifier::rlimit(100)]
    pub fn tween(&mut self, time: &Timecode) -> (r: Option<T>)
        requires
            old(self).wf(),
            time.wf(),
            time.hours >= 0,
            time.frames >= 0,
            old(self).frames_below(time.framerate),
            time.framerate.spec_fps() == old(self).last_time.framerate.spec_fps() || old(
                self,
            ).last_time.framerate.spec_fps() == 0,
            ({
                let tn = time.spec_as_nanoseconds(old(self).last_time.framerate, false);
                let fps = old(self).last_time.framerate.spec_fps();
                &&& (-4_000_000_000_000_000_000) <= tn * fps <= 4_000_000_000_000_000_000
                &&& fps >= 1 ==> tn * fps < crate::timecode::spec_fold_cap(fps)
                &&& fps >= 1 ==> crate::timecode::spec_fold_floor(fps) <= tn * fps
            }),
        ensures
            final(self).wf(),
            final(self).tree == old(self).tree,
            tween_post(*old(self), *time, *final(self), r),
            old(self).engine.status == AnimationEngineStatus::SequenceEnded ==> {
                &&& *final(self) == *old(self)
                &&& r == Some(old(self).engine.k_end->0.value)
            },
            old(self).engine.status == AnimationEngineStatus::Running ==> {
                let fv = time.spec_lerp_value(old(self).engine.t_begin, old(self).engine.t_end);
                &&& final(self).last_time == old(self).last_time
                &&& r == Some(
                    old(self).engine.k_begin->0.value.tween_spec(
                        old(self).engine.k_end->0.value,
                        fv,
                        Easing::Linear,
                    ),
                )
                &&& final(self).engine == (AnimationEngine {
                    status: if fv.spec_at_least_one() {
                        AnimationEngineStatus::Ended
                    } else {
                        AnimationEngineStatus::Running
                    },
                    ..old(self).engine
                })
            },
    {
        let running = self.engine.is_running();
        let seq_ended = self.engine.is_sequence_ended();
        if !running && !seq_ended {
            let hit = self.rescan(time);
            if !hit {
                return None;
            }
        }
        let out = self.engine.tween(time);
        Some(out)
    }

    /// The latest stored sample inside the scan window from `begin` to
    /// `end`, with its reconstructed timecode; nothing when the window
    /// holds no sample.
    fn latest_in_window(&self, begin: &Timecode, end: &Timecode, fr: &Framerate) -> (r: Option<
        (Timecode, Keyframe<T>),
    >)
        requires
            self.wf(),
            begin.wf(),
            end.wf(),
            fr.wf(),
            self.frames_below(*fr),
        ensures
            match r {
                Some(e) => {
                    let bs = e.0.spec_total_seconds() as i64;
                    let bf = e.0.frames;
                    let bn = e.0.nanoframes;
                    &&& is_last_window_hit(*self, *begin, *end, *fr, bs, bf, bn)
                    &&& window_hit_exists(*self, *begin, *end, *fr)
                    &&& e.0 == spec_reconstruct(*fr, bs, bf, bn)
                    &&& e.1 == self.spec_at(bs, bf, bn)
                    &&& e.0.wf()
                    &&& e.0.hours >= 0
                    &&& e.0.frames >= 0
                },
                None => !window_hit_exists(*self, *begin, *end, *fr),
            },
    {
        let found = self.get_keyframes_between(begin, end, fr);
        if found.len() == 0 {
            proof {
                if window_hit_exists(*self, *begin, *end, *fr) {
                    let (s, f, n) = choose|s: i64, f: i64, n: i64|
                        #[trigger] self.spec_has(s, f, n) && in_window(*begin, *end, *fr, s, f, n);
                    assert(false);
                }
            }
            return None;
        }
        let lasti = found.len() - 1;
        let tb = found[lasti].0;
        let kb = found[lasti].1.duplicate();
        let ghost bs: i64 = tb.spec_total_seconds() as i64;
        let ghost bf: i64 = tb.frames;
        let ghost bn: i64 = tb.nanoframes;
        proof {
            assert(tree_scan_elem(*self, *begin, *end, *fr, found@[lasti as int]));
            lemma_sample_position_ok(*self, *fr, bs, bf, bn);
            lemma_reconstruct(*fr, bs, bf, bn);
            assert(is_last_window_hit(*self, *begin, *end, *fr, bs, bf, bn)) by {
                assert forall|s2: i64, f2: i64, n2: i64|
                    #[trigger] self.spec_has(s2, f2, n2) && in_window(
                        *begin,
                        *end,
                        *fr,
                        s2,
                        f2,
                        n2,
                    ) implies s2 < bs || (s2 == bs && (f2 < bf || (f2 == bf && n2 <= bn))) by {
                    let i2 = choose|i: int|
                        0 <= i < found@.len() && (#[trigger] found@[i]).0.spec_total_seconds()
                            == s2 as int && found@[i].0.frames == f2 && found@[i].0.nanoframes
                            == n2;
                    if i2 < lasti as int {
                        assert(sample_lt(found@[i2].0, found@[lasti as int].0));
                    }
                }
            }
            assert(window_hit_exists(*self, *begin, *end, *fr));
        }
        Some((tb, kb))
    }

    /// Rescan the window from the last query time to `time`, cache the new
    /// bracketing pair (or the held end sample when no later sample
    /// exists), and advance the last query time; yields whether any sample
    /// sat in the window at all, leaving everything unchanged when none
    /// did.
    #[verifier::rlimit(100)]
    fn rescan(&mut self, time: &Timecode) -> (found: bool)
        requires
            old(self).wf(),
            time.wf(),
            time.hours >= 0,
            time.frames >= 0,
            old(self).frames_below(time.framerate),
            time.framerate.spec_fps() == old(self).last_time.framerate.spec_fps() || old(
                self,
            ).last_time.framerate.spec_fps() == 0,
            ({
                let tn = time.spec_as_nanoseconds(old(self).last_time.framerate, false);
                let fps = old(self).last_time.framerate.spec_fps();
                &&& (-4_000_000_000_000_000_000) <= tn * fps <= 4_000_000_000_000_000_000
                &&& fps >= 1 ==> tn * fps < crate::timecode::spec_fold_cap(fps)
                &&& fps >= 1 ==> crate::timecode::spec_fold_floor(fps) <= tn * fps
            }),
        ensures
            final(self).wf(),
            final(self).tree == old(self).tree,
            found == window_hit_exists(*old(self), old(self).last_time, *time, time.framerate),
            !found ==> *final(self) == *old(self),
            found ==> final(self).last_time.framerate == time.framerate,
            found ==> (final(self).engine.status == AnimationEngineStatus::Running
                || final(self).engine.status == AnimationEngineStatus::SequenceEnded),
            forall|bs: i64, bf: i64, bn: i64|
                #[trigger] is_last_window_hit(
                    *old(self),
                    old(self).last_time,
                    *time,
                    time.framerate,
                    bs,
                    bf,
                    bn,
                ) ==> {
                    let tb = spec_reconstruct(time.framerate, bs, bf, bn);
                    let kb = old(self).spec_at(bs, bf, bn);
                    &&& ((forall|es: i64, ef: i64, en: i64|
                        !after_candidate(*old(self), bs, bf, es, ef, en)) ==> final(self).engine
                        == (AnimationEngine {
                        k_end: Some(kb),
                        status: AnimationEngineStatus::SequenceEnded,
                        ..old(self).engine
                    }))
                    &&& forall|es: i64, ef: i64, en: i64|
                        #[trigger] is_first_after(*old(self), bs, bf, es, ef, en)
                            ==> final(self).engine == (AnimationEngine {
                            t_begin: tb,
                            t_end: spec_reconstruct(time.framerate, es, ef, en),
                            k_begin: Some(kb),
                            k_end: Some(old(self).spec_at(es, ef, en)),
                            status: AnimationEngineStatus::Running,
                        })
                },
    {
        let lt = self.last_time;
        let fr = time.framerate;
        let picked = self.latest_in_window(&lt, time, &fr);
        let (tb, kb) = match picked {
            Some(e) => e,
            None => {
                return false;
            },
        };
        let ghost bs: i64 = tb.spec_total_seconds() as i64;
        let ghost bf: i64 = tb.frames;
        let ghost bn: i64 = tb.nanoframes;
        let after = self.find_first_keyframe_after_timestamp(&tb, &fr);
        let ghost sq0 = *old(self);
        let ghost mut chose_after: bool = false;
        let ghost mut at: (i64, i64, i64) = (0, 0, 0);
        proof {
            assert(*self == sq0);
        }
        match after {
            Some(e) => {
                let ghost es: i64 = e.0.spec_total_seconds() as i64;
                let ghost ef: i64 = e.0.frames;
                let ghost en: i64 = e.0.nanoframes;
                proof {
                    lemma_sample_position_ok(sq0, fr, es, ef, en);
                    lemma_reconstruct(fr, es, ef, en);
                    assert(is_first_after(sq0, bs, bf, es, ef, en));
                    assert forall|es2: i64, ef2: i64, en2: i64|
                        #[trigger] is_first_after(sq0, bs, bf, es2, ef2, en2) implies es2 == es
                        && ef2 == ef && en2 == en by {
                        assert(after_candidate(sq0, bs, bf, es, ef, en));
                        assert(after_candidate(sq0, bs, bf, es2, ef2, en2));
                    }
                }
                proof {
                    chose_after = true;
                    at = (es, ef, en);
                }
                let te = e.0;
                let ke = e.1;
                self.engine.set_new_animation(tb, te, kb, ke);
            },
            None => {
                proof {
                    assert forall|es2: i64, ef2: i64, en2: i64|
                        !after_candidate(sq0, bs, bf, es2, ef2, en2) by {
                        if after_candidate(sq0, bs, bf, es2, ef2, en2) {
                            assert(after_candidate(
                                *self,
                                sec_key(tb),
                                tb.frames,
                                es2,
                                ef2,
                                en2,
                            ));
                        }
                    }
                }
                self.engine.set_new_end(kb);
            },
        }
        let t2 = *time;
        self.last_time.set_by_timestamp(t2);
        self.last_time.set_framerate(fr);
        proof {
            let fps0 = lt.framerate.spec_fps();
            if fps0 >= 1 {
                let tn = t2.spec_as_nanoseconds(lt.framerate, false);
                lemma_nanoseconds_range(t2, lt.framerate, false);
                assert(tn * fps0 >= 0) by (nonlinear_arith)
                    requires
                        tn >= 0,
                        fps0 >= 1,
                ;
                lemma_canonical_fields_from_total(
                    Timecode { framerate: lt.framerate, ..self.last_time },
                );
                lemma_div_pos_is_pos(tn * fps0, NANOFRAMES_PER_FRAME as int);
                lemma_div_pos_is_pos(
                    tn * fps0 / (NANOFRAMES_PER_FRAME as int),
                    fps0,
                );
                lemma_div_pos_is_pos(
                    tn * fps0 / (NANOFRAMES_PER_FRAME as int) / fps0,
                    60,
                );
                lemma_div_pos_is_pos(
                    tn * fps0 / (NANOFRAMES_PER_FRAME as int) / fps0 / 60,
                    60,
                );
            }
            assert forall|bs2: i64, bf2: i64, bn2: i64|
                #[trigger] is_last_window_hit(
                    *old(self),
                    old(self).last_time,
                    *time,
                    time.framerate,
                    bs2,
                    bf2,
                    bn2,
                ) implies {
                let tb2 = spec_reconstruct(time.framerate, bs2, bf2, bn2);
                let kb2 = old(self).spec_at(bs2, bf2, bn2);
                &&& ((forall|es2: i64, ef2: i64, en2: i64|
                    !after_candidate(*old(self), bs2, bf2, es2, ef2, en2)) ==> self.engine
                    == (AnimationEngine {
                    k_end: Some(kb2),
                    status: AnimationEngineStatus::SequenceEnded,
                    ..old(self).engine
                }))
                &&& forall|es2: i64, ef2: i64, en2: i64|
                    #[trigger] is_first_after(*old(self), bs2, bf2, es2, ef2, en2)
                        ==> self.engine == (AnimationEngine {
                        t_begin: tb2,
                        t_end: spec_reconstruct(time.framerate, es2, ef2, en2),
                        k_begin: Some(kb2),
                        k_end: Some(old(self).spec_at(es2, ef2, en2)),
                        status: AnimationEngineStatus::Running,
                    })
            } by {
                assert(sq0.spec_has(bs, bf, bn) && in_window(lt, *time, fr, bs, bf, bn));
                assert(sq0.spec_has(bs2, bf2, bn2) && in_window(lt, *time, fr, bs2, bf2, bn2));
                assert(bs2 == bs && bf2 == bf && bn2 == bn);
                if chose_after {
                    assert(is_first_after(sq0, bs, bf, at.0, at.1, at.2));
                    assert(after_candidate(sq0, bs, bf, at.0, at.1, at.2));
                    assert forall|es2: i64, ef2: i64, en2: i64|
                        #[trigger] is_first_after(*old(self), bs2, bf2, es2, ef2, en2)
                            implies self.engine == (AnimationEngine {
                            t_begin: spec_reconstruct(time.framerate, bs2, bf2, bn2),
                            t_end: spec_reconstruct(time.framerate, es2, ef2, en2),
                            k_begin: Some(old(self).spec_at(bs2, bf2, bn2)),
                            k_end: Some(old(self).spec_at(es2, ef2, en2)),
                            status: AnimationEngineStatus::Running,
                        }) by {
                        assert(is_first_after(sq0, bs, bf, es2, ef2, en2));
                        assert(es2 == at.0 && ef2 == at.1 && en2 == at.2);
                    }
                } else {
                    assert forall|es2: i64, ef2: i64, en2: i64|
                        #[trigger] is_first_after(*old(self), bs2, bf2, es2, ef2, en2)
                            implies self.engine == (AnimationEngine {
                            t_begin: spec_reconstruct(time.framerate, bs2, bf2, bn2),
                            t_end: spec_reconstruct(time.framerate, es2, ef2, en2),
                            k_begin: Some(old(self).spec_at(bs2, bf2, bn2)),
                            k_end: Some(old(self).spec_at(es2, ef2, en2)),
                            status: AnimationEngineStatus::Running,
                        }) by {
                        assert(after_candidate(sq0, bs, bf, es2, ef2, en2));
                        assert(false);
                    }
                }
            }
        }
        true
    }

    /// Forget the cached interval and the last query time, so that the
    /// next query rescans the store from zero. The cache trusts its
    /// interval without re-validation, which is sound only under forward
    /// playback; this is the opt-in escape hatch before non-monotonic
    /// (seeking) access.
    pub fn rewind(&mut self)
        requires
            old(self).wf(),
        ensures
            final(self).wf(),
            final(self).tree == old(self).tree,
            final(self).engine.status == AnimationEngineStatus::Empty,
            final(self).last_time == (Timecode {
                hours: 0,
                minutes: 0,
                seconds: 0,
                frames: 0,
                nanoframes: 0,
                framerate: Framerate::Timestamp,
            }),
            forall|fr2: Framerate|
                old(self).frames_below(fr2) ==> #[trigger] final(self).frames_below(fr2),
    {
        self.engine = AnimationEngine::new();
        self.last_time = Timecode {
            hours: 0,
            minutes: 0,
            seconds: 0,
            frames: 0,
            nanoframes: 0,
            framerate: Framerate::Timestamp,
        };
    }

    /// Exact point lookup: the sample stored at `time`'s tree position,
    /// or nothing when no sample sits at exactly that instant.
    pub fn get_keyframe_at_timestamp(&self, time: &Timecode) -> (r: Option<&Keyframe<T>>)
        requires
            self.wf(),
            time.wf(),
        ensures
            match r {
                Some(k) => self.spec_has(sec_key(*time), time.frames, time.nanoframes) && *k
                    == self.spec_at(sec_key(*time), time.frames, time.nanoframes),
                None => !self.spec_has(sec_key(*time), time.frames, time.nanoframes),
            },
    {
        let sec = time.total_seconds();
        match find_key(&self.tree, sec) {
            Some(i) => {
                match find_key(&self.tree[i].1.frames, time.frames) {
                    Some(j) => self.tree[i].1.frames[j].1.get_keyframe_at_isize(time.nanoframes),
                    None => None,
                }
            },
            None => None,
        }
    }
}

} // verus!
