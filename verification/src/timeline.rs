//! Timelines: a time cursor that the caller advances, a directory of named
//! sequences, and an owned forest of child timelines. The directory from
//! names to sequence handles is kept in a hash map from the `hashbrown`
//! crate, behind trusted contracts.

use vstd::prelude::*;
use crate::sequence::AnimationEngineStatus;
use crate::sequence::Sequence;
use crate::sequence::sec_key;
use crate::sequence::tween_post;
use crate::timecode::Framerate;
use crate::timecode::Timecode;
use crate::value::ErasedValue;
use crate::value::Keyframe;
use crate::value::Tween;

verus! {

/// What the name directory holds: its bindings from sequence names to
/// sequence handles.
pub uninterp spec fn name_directory_view(d: NameDirectory) -> Map<Seq<char>, usize>;

/// A directory from sequence names to sequence handles, backed by
/// `hashbrown::HashMap`; the library trusts the stated contracts of the
/// three calls it makes into that crate.
#[verifier::external_body]
pub struct NameDirectory {
    map: hashbrown::HashMap<String, usize>,
}

impl View for NameDirectory {
    type V = Map<Seq<char>, usize>;

    open spec fn view(&self) -> Map<Seq<char>, usize> {
        name_directory_view(*self)
    }
}

impl NameDirectory {
    /// Relies on `hashbrown::HashMap::new`: a fresh map holds no bindings.
    #[verifier::external_body]
    fn new() -> (r: NameDirectory)
        ensures
            forall|k: Seq<char>| !(#[trigger] r@.contains_key(k)),
    {
        NameDirectory { map: hashbrown::HashMap::new() }
    }

    /// Relies on `hashbrown::HashMap::insert`: binds the key to the value,
    /// replacing any earlier binding of the same key.
    #[verifier::external_body]
    fn insert(&mut self, name: &str, ptr: usize)
        ensures
            name_directory_view(*final(self)) == name_directory_view(*old(self)).insert(
                name@,
                ptr,
            ),
    {
        self.map.insert(name.to_string(), ptr);
    }

    /// Relies on `hashbrown::HashMap::get`: yields the value bound to
    /// exactly this key, or nothing.
    #[verifier::external_body]
    fn get(&self, name: &str) -> (r: Option<usize>)
        ensures
            r == (if name_directory_view(*self).contains_key(name@) {
                Some(name_directory_view(*self)[name@])
            } else {
                None::<usize>
            }),
    {
        self.map.get(name).copied()
    }
}

/// A scope of animated properties: one time cursor, a directory of named
/// sequences over one value type, and an owned forest of child timelines.
/// A parent never propagates cursor advances to its children; each scope
/// is advanced independently by the caller.
pub struct StaticTimeline<T: Tween> {
    /// The time cursor, advanced only by caller-supplied deltas.
    pub time: Timecode,
    /// The sequence store; the handle `p` names `sequences[p - 1]`.
    pub sequences: Vec<Sequence<T>>,
    /// Owned child timelines: a forest, no back references, no cycles.
    pub children: Vec<StaticTimeline<T>>,
    /// The monotonic handle counter; equals the number of sequences.
    pub max_sequences: usize,
    /// The directory from sequence names to handles; a reused name
    /// shadows the earlier binding.
    pub sequence_name_map: NameDirectory,
}

/// A timeline over the closed set of erased values, so that sequences of
/// different value shapes can live in one directory.
pub type Timeline = StaticTimeline<ErasedValue>;

impl<T: Tween> StaticTimeline<T> {
    /// The directory's bindings.
    pub open spec fn names(self) -> Map<Seq<char>, usize> {
        self.sequence_name_map@
    }

    /// The cursor, every sequence and every child are well-formed, and
    /// every sequence fits the cursor's framerate.
    pub open spec fn wf(self) -> bool
        decreases self,
    {
        &&& self.time.wf()
        &&& self.max_sequences == self.sequences@.len()
        &&& forall|i: int| 0 <= i < self.sequences@.len() ==> (#[trigger] self.sequences@[i]).wf()
        &&& forall|i: int|
            0 <= i < self.sequences@.len() ==> (#[trigger] self.sequences@[i]).frames_below(
                self.time.framerate,
            )
        &&& forall|i: int|
            0 <= i < self.sequences@.len() ==> ((#[trigger] self.sequences@[
            i]).last_time.framerate.spec_fps() == 0 || self.sequences@[
            i].last_time.framerate.spec_fps() == self.time.framerate.spec_fps())
        &&& forall|i: int| 0 <= i < self.children@.len() ==> (#[trigger] self.children@[i]).wf()
    }

    /// A fresh timeline with its cursor at zero, bound to `fr`.
    pub fn new(fr: Framerate) -> (r: Self)
        requires
            fr.wf(),
        ensures
            r.wf(),
            r.time == (Timecode {
                hours: 0,
                minutes: 0,
                seconds: 0,
                frames: 0,
                nanoframes: 0,
                framerate: fr,
            }),
            r.sequences@.len() == 0,
            r.children@.len() == 0,
            forall|k: Seq<char>| !(#[trigger] r.names().contains_key(k)),
    {
        StaticTimeline {
            time: Timecode {
                hours: 0,
                minutes: 0,
                seconds: 0,
                frames: 0,
                nanoframes: 0,
                framerate: fr,
            },
            sequences: Vec::new(),
            children: Vec::new(),
            max_sequences: 0,
            sequence_name_map: NameDirectory::new(),
        }
    }

    /// The cursor's framerate policy.
    pub fn framerate(&self) -> (r: Framerate)
        ensures
            r == self.time.framerate,
    {
        self.time.framerate
    }

    /// The cursor.
    pub fn time(&self) -> (r: &Timecode)
        ensures
            *r == self.time,
    {
        &self.time
    }

    /// Allocate a fresh empty sequence, record it in the directory under
    /// `name` (shadowing any earlier binding of that name), and yield its
    /// handle.
    pub fn new_sequence(&mut self, name: &str) -> (ptr: usize)
        requires
            old(self).wf(),
            old(self).sequences@.len() < usize::MAX,
        ensures
            final(self).wf(),
            ptr == old(self).sequences@.len() + 1,
            final(self).max_sequences == ptr,
            final(self).sequences@.len() == ptr,
            forall|i: int|
                0 <= i < old(self).sequences@.len()
                    ==> final(self).sequences@[i] == old(self).sequences@[i],
            final(self).sequences@[ptr - 1].tree@.len() == 0,
            final(self).sequences@[ptr - 1].engine.status == AnimationEngineStatus::Empty,
            final(self).names() == old(self).names().insert(name@, ptr),
            final(self).time == old(self).time,
            final(self).children == old(self).children,
    {
        self.max_sequences = self.max_sequences + 1;
        self.sequences.push(Sequence::new());
        self.sequence_name_map.insert(name, self.max_sequences);
        self.max_sequences
    }

    /// The handle bound to `name`, or nothing when the name is unknown.
    pub fn get_sequence_pointer(&self, name: &str) -> (r: Option<usize>)
        ensures
            r == (if self.names().contains_key(name@) {
                Some(self.names()[name@])
            } else {
                None::<usize>
            }),
    {
        self.sequence_name_map.get(name)
    }

    /// The sequence behind a handle, or nothing for a stale or zero
    /// handle.
    pub fn get_sequence_with_pointer(&self, pointer: usize) -> (r: Option<&Sequence<T>>)
        ensures
            match r {
                Some(s) => 1 <= pointer <= self.sequences@.len() && *s == self.sequences@[pointer
                    - 1],
                None => !(1 <= pointer <= self.sequences@.len()),
            },
    {
        if pointer >= 1 && pointer <= self.sequences.len() {
            Some(&self.sequences[pointer - 1])
        } else {
            None
        }
    }

    /// The sequence bound to `name`, or nothing when the name is unknown
    /// or its handle stale.
    pub fn get_sequence_with_name(&self, name: &str) -> (r: Option<&Sequence<T>>)
        ensures
            match r {
                Some(s) => {
                    &&& self.names().contains_key(name@)
                    &&& 1 <= self.names()[name@] <= self.sequences@.len()
                    &&& *s == self.sequences@[self.names()[name@] - 1]
                },
                None => !self.names().contains_key(name@) || !(1 <= self.names()[name@]
                    <= self.sequences@.len()),
            },
    {
        match self.get_sequence_pointer(name) {
            Some(ptr) => self.get_sequence_with_pointer(ptr),
            None => None,
        }
    }

    /// Insert a sample into the sequence behind a handle; yields whether
    /// the handle named a sequence at all.
    pub fn add_keyframe_at_timestamp(
        &mut self,
        pointer: usize,
        key: Keyframe<T>,
        time: &Timecode,
    ) -> (r: bool)
        requires
            old(self).wf(),
            time.wf(),
            time.hours >= 0,
            time.frames >= 0,
            old(self).time.framerate.spec_fps() >= 1 ==> (time.frames as int)
                < old(self).time.framerate.spec_fps(),
        ensures
            final(self).wf(),
            r == (1 <= pointer <= old(self).sequences@.len()),
            !r ==> *final(self) == *old(self),
            final(self).time == old(self).time,
            final(self).children == old(self).children,
            final(self).names() == old(self).names(),
            final(self).sequences@.len() == old(self).sequences@.len(),
            forall|i: int|
                0 <= i < old(self).sequences@.len() && i != pointer - 1
                    ==> final(self).sequences@[i] == old(self).sequences@[i],
            r ==> {
                let sq = final(self).sequences@[pointer - 1];
                let pre = old(self).sequences@[pointer - 1];
                &&& sq.spec_has(sec_key(*time), time.frames, time.nanoframes)
                &&& sq.spec_at(sec_key(*time), time.frames, time.nanoframes) == key
                &&& sq.engine == pre.engine
                &&& sq.last_time == pre.last_time
                &&& forall|s: i64, f: i64, n: i64|
                    !(s == sec_key(*time) && f == time.frames && n == time.nanoframes)
                        ==> sq.spec_has(s, f, n) == pre.spec_has(s, f, n)
                &&& forall|s: i64, f: i64, n: i64|
                    !(s == sec_key(*time) && f == time.frames && n == time.nanoframes)
                        && pre.spec_has(s, f, n) ==> sq.spec_at(s, f, n) == pre.spec_at(s, f, n)
            },
    {
        if pointer >= 1 && pointer <= self.sequences.len() {
            self.sequences[pointer - 1].add_keyframe_at_timestamp(key, time);
            true
        } else {
            false
        }
    }

    /// Advance the cursor by a real-time duration in nanoseconds.
    pub fn add_by_duration(&mut self, nanos: u64)
        requires
            old(self).wf(),
            nanos <= 4_000_000_000_000_000_000u64,
            nanos as int * old(self).time.framerate.spec_fps() <= 4_000_000_000_000_000_000,
            old(self).time.framerate.spec_fps() >= 1 ==> old(self).time.spec_total_nanoframes()
                + nanos as int * old(self).time.framerate.spec_fps()
                < crate::timecode::spec_fold_cap(old(self).time.framerate.spec_fps()),
        ensures
            final(self).wf(),
            *final(self) == (StaticTimeline { time: final(self).time, ..*old(self) }),
            final(self).time.framerate == old(self).time.framerate,
            old(self).time.framerate.spec_fps() >= 1 ==> final(self).time.spec_total_nanoframes()
                == old(self).time.spec_total_nanoframes() + nanos as int * old(
                self,
            ).time.framerate.spec_fps(),
            old(self).time.framerate.spec_fps() == 0 ==> {
                &&& final(self).time.spec_frame_nanos() == old(self).time.spec_frame_nanos()
                &&& final(self).time.spec_total_seconds() == old(self).time.spec_total_seconds()
            },
    {
        self.time.add_by_duration(nanos);
    }

    /// Go back by a real-time duration in nanoseconds.
    pub fn sub_by_duration(&mut self, nanos: u64)
        requires
            old(self).wf(),
            nanos <= 4_000_000_000_000_000_000u64,
            nanos as int * old(self).time.framerate.spec_fps() <= 4_000_000_000_000_000_000,
            old(self).time.framerate.spec_fps() >= 1 ==> crate::timecode::spec_fold_floor(
                old(self).time.framerate.spec_fps(),
            ) <= old(self).time.spec_total_nanoframes() - nanos as int * old(
                self,
            ).time.framerate.spec_fps(),
        ensures
            final(self).wf(),
            *final(self) == (StaticTimeline { time: final(self).time, ..*old(self) }),
            final(self).time.framerate == old(self).time.framerate,
            old(self).time.framerate.spec_fps() >= 1 ==> final(self).time.spec_total_nanoframes()
                == old(self).time.spec_total_nanoframes() - nanos as int * old(
                self,
            ).time.framerate.spec_fps(),
    {
        self.time.sub_by_duration(nanos);
    }

    /// Zero the cursor, then advance it by the duration.
    pub fn set_by_duration(&mut self, nanos: u64)
        requires
            old(self).wf(),
            nanos <= 4_000_000_000_000_000_000u64,
            nanos as int * old(self).time.framerate.spec_fps() <= 4_000_000_000_000_000_000,
            old(self).time.framerate.spec_fps() >= 1 ==> nanos as int * old(
                self,
            ).time.framerate.spec_fps() < crate::timecode::spec_fold_cap(
                old(self).time.framerate.spec_fps(),
            ),
        ensures
            final(self).wf(),
            *final(self) == (StaticTimeline { time: final(self).time, ..*old(self) }),
            final(self).time.framerate == old(self).time.framerate,
            old(self).time.framerate.spec_fps() >= 1 ==> final(self).time.spec_total_nanoframes()
                == nanos as int * old(self).time.framerate.spec_fps(),
    {
        self.time.set_by_duration(nanos);
    }

    /// Advance the cursor by another timecode.
    pub fn add_by_timestamp(&mut self, t: Timecode)
        requires
            old(self).wf(),
            t.wf(),
            old(self).time.framerate.spec_fps() >= 1 ==> t.frames >= 0,
            (-4_000_000_000_000_000_000) <= t.spec_as_nanoseconds(old(self).time.framerate, false)
                * old(self).time.framerate.spec_fps() <= 4_000_000_000_000_000_000,
            old(self).time.framerate.spec_fps() >= 1 ==> old(self).time.spec_total_nanoframes()
                + t.spec_as_nanoseconds(old(self).time.framerate, false) * old(
                self,
            ).time.framerate.spec_fps() < crate::timecode::spec_fold_cap(
                old(self).time.framerate.spec_fps(),
            ),
            old(self).time.framerate.spec_fps() >= 1 ==> crate::timecode::spec_fold_floor(
                old(self).time.framerate.spec_fps(),
            ) <= old(self).time.spec_total_nanoframes() + t.spec_as_nanoseconds(
                old(self).time.framerate,
                false,
            ) * old(self).time.framerate.spec_fps(),
        ensures
            final(self).wf(),
            *final(self) == (StaticTimeline { time: final(self).time, ..*old(self) }),
            final(self).time.framerate == old(self).time.framerate,
            old(self).time.framerate.spec_fps() >= 1 ==> final(self).time.spec_total_nanoframes()
                == old(self).time.spec_total_nanoframes() + t.spec_as_nanoseconds(
                old(self).time.framerate,
                false,
            ) * old(self).time.framerate.spec_fps(),
    {
        self.time.add_by_timestamp(t);
    }

    /// Go back by another timecode.
    pub fn sub_by_timestamp(&mut self, t: Timecode)
        requires
            old(self).wf(),
            t.wf(),
            old(self).time.framerate.spec_fps() >= 1 ==> t.frames >= 0,
            (-4_000_000_000_000_000_000) <= t.spec_as_nanoseconds(old(self).time.framerate, false)
                * old(self).time.framerate.spec_fps() <= 4_000_000_000_000_000_000,
            old(self).time.framerate.spec_fps() >= 1 ==> old(self).time.spec_total_nanoframes()
                - t.spec_as_nanoseconds(old(self).time.framerate, false) * old(
                self,
            ).time.framerate.spec_fps() < crate::timecode::spec_fold_cap(
                old(self).time.framerate.spec_fps(),
            ),
            old(self).time.framerate.spec_fps() >= 1 ==> crate::timecode::spec_fold_floor(
                old(self).time.framerate.spec_fps(),
            ) <= old(self).time.spec_total_nanoframes() - t.spec_as_nanoseconds(
                old(self).time.framerate,
                false,
            ) * old(self).time.framerate.spec_fps(),
        ensures
            final(self).wf(),
            *final(self) == (StaticTimeline { time: final(self).time, ..*old(self) }),
            final(self).time.framerate == old(self).time.framerate,
            old(self).time.framerate.spec_fps() >= 1 ==> final(self).time.spec_total_nanoframes()
                == old(self).time.spec_total_nanoframes() - t.spec_as_nanoseconds(
                old(self).time.framerate,
                false,
            ) * old(self).time.framerate.spec_fps(),
    {
        self.time.sub_by_timestamp(t);
    }

    /// Zero the cursor, then advance it by the timecode.
    pub fn set_by_timestamp(&mut self, t: Timecode)
        requires
            old(self).wf(),
            t.wf(),
            old(self).time.framerate.spec_fps() >= 1 ==> t.frames >= 0,
            (-4_000_000_000_000_000_000) <= t.spec_as_nanoseconds(old(self).time.framerate, false)
                * old(self).time.framerate.spec_fps() <= 4_000_000_000_000_000_000,
            old(self).time.framerate.spec_fps() >= 1 ==> t.spec_as_nanoseconds(
                old(self).time.framerate,
                false,
            ) * old(self).time.framerate.spec_fps() < crate::timecode::spec_fold_cap(
                old(self).time.framerate.spec_fps(),
            ),
            old(self).time.framerate.spec_fps() >= 1 ==> crate::timecode::spec_fold_floor(
                old(self).time.framerate.spec_fps(),
            ) <= t.spec_as_nanoseconds(old(self).time.framerate, false) * old(
                self,
            ).time.framerate.spec_fps(),
        ensures
            final(self).wf(),
            *final(self) == (StaticTimeline { time: final(self).time, ..*old(self) }),
            final(self).time.framerate == old(self).time.framerate,
            old(self).time.framerate.spec_fps() >= 1 ==> final(self).time.spec_total_nanoframes()
                == t.spec_as_nanoseconds(old(self).time.framerate, false) * old(
                self,
            ).time.framerate.spec_fps(),
    {
        self.time.set_by_timestamp(t);
    }

    /// Adopt a child timeline at the end of the forest.
    pub fn add_child(&mut self, child: StaticTimeline<T>)
        requires
            old(self).wf(),
            child.wf(),
        ensures
            final(self).wf(),
            final(self).children@ == old(self).children@.push(child),
            *final(self) == (StaticTimeline { children: final(self).children, ..*old(self) }),
    {
        self.children.push(child);
    }

    /// The owned child timelines.
    pub fn children(&self) -> (r: &Vec<StaticTimeline<T>>)
        ensures
            *r == self.children,
    {
        &self.children
    }

    /// Mutable access to one child; the caller re-establishes the child's
    /// well-formedness before handing it back.
    pub fn get_child_mut(&mut self, id: usize) -> (r: &mut StaticTimeline<T>)
        requires
            old(self).wf(),
            id < old(self).children@.len(),
        ensures
            *r == old(self).children@[id as int],
            (*r).wf(),
            final(self).children@ == old(self).children@.update(id as int, *final(r)),
            final(self).time == old(self).time,
            final(self).sequences == old(self).sequences,
            final(self).max_sequences == old(self).max_sequences,
            final(self).sequence_name_map == old(self).sequence_name_map,
            final(r).wf() ==> final(self).wf(),
    {
        &mut self.children[id]
    }

    /// Forget the cached interval of the sequence behind a handle, so
    /// that its next query rescans from zero; the opt-in path before
    /// seeking backwards. Yields whether the handle named a sequence.
    pub fn rewind_by_pointer(&mut self, pointer: usize) -> (r: bool)
        requires
            old(self).wf(),
        ensures
            final(self).wf(),
            r == (1 <= pointer <= old(self).sequences@.len()),
            !r ==> *final(self) == *old(self),
            final(self).time == old(self).time,
            final(self).children == old(self).children,
            final(self).names() == old(self).names(),
            final(self).sequences@.len() == old(self).sequences@.len(),
            forall|i: int|
                0 <= i < old(self).sequences@.len() && i != pointer - 1
                    ==> final(self).sequences@[i] == old(self).sequences@[i],
            r ==> {
                &&& final(self).sequences@[pointer - 1].tree == old(self).sequences@[pointer
                    - 1].tree
                &&& final(self).sequences@[pointer - 1].engine.status
                    == AnimationEngineStatus::Empty
            },
    {
        if pointer >= 1 && pointer <= self.sequences.len() {
            self.sequences[pointer - 1].rewind();
            true
        } else {
            false
        }
    }

    /// Interpolated value of the sequence behind a handle at the cursor,
    /// or nothing for a stale handle or an empty scan window.
    pub fn tween_by_pointer(&mut self, pointer: usize) -> (r: Option<T>)
        requires
            old(self).wf(),
            old(self).time.hours >= 0,
            old(self).time.frames >= 0,
            forall|i: int|
                0 <= i < old(self).sequences@.len() ==> {
                    let fps = (#[trigger] old(self).sequences@[i]).last_time.framerate.spec_fps();
                    let tn = old(self).time.spec_as_nanoseconds(
                        old(self).sequences@[i].last_time.framerate,
                        false,
                    );
                    &&& (-4_000_000_000_000_000_000) <= tn * fps <= 4_000_000_000_000_000_000
                    &&& fps >= 1 ==> tn * fps < crate::timecode::spec_fold_cap(fps)
                    &&& fps >= 1 ==> crate::timecode::spec_fold_floor(fps) <= tn * fps
                },
        ensures
            final(self).wf(),
            final(self).time == old(self).time,
            final(self).children == old(self).children,
            final(self).names() == old(self).names(),
            final(self).sequences@.len() == old(self).sequences@.len(),
            !(1 <= pointer <= old(self).sequences@.len()) ==> (r is None && *final(self) == *old(
                self,
            )),
            forall|i: int|
                0 <= i < old(self).sequences@.len() && i != pointer - 1
                    ==> final(self).sequences@[i] == old(self).sequences@[i],
            1 <= pointer <= old(self).sequences@.len() ==> tween_post(
                old(self).sequences@[pointer - 1],
                old(self).time,
                final(self).sequences@[pointer - 1],
                r,
            ),
    {
        if pointer >= 1 && pointer <= self.sequences.len() {
            let t = self.time;
            let out = self.sequences[pointer - 1].tween(&t);
            out
        } else {
            None
        }
    }

    /// Interpolated value of the sequence bound to `name` at the cursor,
    /// or nothing when the name is unknown.
    pub fn tween_by_name(&mut self, name: &str) -> (r: Option<T>)
        requires
            old(self).wf(),
            old(self).time.hours >= 0,
            old(self).time.frames >= 0,
            forall|i: int|
                0 <= i < old(self).sequences@.len() ==> {
                    let fps = (#[trigger] old(self).sequences@[i]).last_time.framerate.spec_fps();
                    let tn = old(self).time.spec_as_nanoseconds(
                        old(self).sequences@[i].last_time.framerate,
                        false,
                    );
                    &&& (-4_000_000_000_000_000_000) <= tn * fps <= 4_000_000_000_000_000_000
                    &&& fps >= 1 ==> tn * fps < crate::timecode::spec_fold_cap(fps)
                    &&& fps >= 1 ==> crate::timecode::spec_fold_floor(fps) <= tn * fps
                },
        ensures
            final(self).wf(),
            final(self).time == old(self).time,
            final(self).children == old(self).children,
            final(self).names() == old(self).names(),
            final(self).sequences@.len() == old(self).sequences@.len(),
            !old(self).names().contains_key(name@) ==> (r is None && *final(self) == *old(self)),
            old(self).names().contains_key(name@) && 1 <= old(self).names()[name@] <= old(
                self,
            ).sequences@.len() ==> tween_post(
                old(self).sequences@[old(self).names()[name@] - 1],
                old(self).time,
                final(self).sequences@[old(self).names()[name@] - 1],
                r,
            ),
    {
        match self.get_sequence_pointer(name) {
            Some(ptr) => self.tween_by_pointer(ptr),
            None => None,
        }
    }
}

} // verus!
