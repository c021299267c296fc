//! The track writer registry: lazily-created per-source output writers.
//!
//! Exactly one track writer exists per source id for the lifetime of one
//! capture session; it is created on the first fragment seen for that id
//! (live or silent) and never recreated within the session.  The slot map
//! is the concurrent container the event callbacks share; each entry in it
//! names one writer.

use vstd::prelude::*;
use crate::cmap;
use crate::track::FRAGMENT_SAMPLES;
use crate::track::TrackWriter;
use crate::track::zero_samples;
use crate::wav;

verus! {

/// The samples a source id has accumulated: its track's contents, or no
/// samples at all if no writer exists for it yet.
pub open spec fn track_or_empty(m: Map<u32, Seq<i16>>, k: u32) -> Seq<i16> {
    if m.contains_key(k) {
        m[k]
    } else {
        Seq::empty()
    }
}

/// One finished output file: the source id that names it and the complete
/// WAV image of its track.
pub struct TrackFile {
    pub ssrc: u32,
    pub wav: Vec<u8>,
}

/// The per-session set of track writers, keyed by source id.
pub struct WriterRegistry {
    slots: dashmap::DashMap<u32, u64>,
    tracks: Vec<TrackWriter>,
}

impl View for WriterRegistry {
    type V = Map<u32, Seq<i16>>;

    /// The registry as a map from source id to that source's samples.
    closed spec fn view(&self) -> Map<u32, Seq<i16>> {
        Map::new(
            |k: u32| cmap::dash_entries(self.slots).contains_key(k),
            |k: u32| self.tracks@[cmap::dash_entries(self.slots)[k] as int]@,
        )
    }
}

impl WriterRegistry {
    spec fn slot_map(&self) -> Map<u32, u64> {
        cmap::dash_entries(self.slots)
    }

    /// The slot a source id's writer sits in.
    pub closed spec fn spec_slot(&self, k: u32) -> u64 {
        self.slot_map()[k]
    }

    /// How many writers exist.
    pub closed spec fn spec_track_count(&self) -> nat {
        self.tracks@.len()
    }

    /// Each slot map entry names exactly one live writer for its source
    /// id, and every writer is named by exactly one slot map entry.
    pub closed spec fn wf(&self) -> bool {
        &&& forall|k: u32| #[trigger]
            self.slot_map().contains_key(k) ==> self.slot_map()[k] < self.tracks@.len()
                && self.tracks@[self.slot_map()[k] as int].spec_ssrc() == k
        &&& forall|i: int|
            0 <= i < self.tracks@.len() ==> #[trigger] self.slot_map().contains_key(
                self.tracks@[i].spec_ssrc(),
            ) && self.slot_map()[self.tracks@[i].spec_ssrc()] as int == i
    }

    proof fn lemma_slot_of_index(&self, i: int)
        requires
            self.wf(),
            0 <= i < self.tracks@.len(),
        ensures
            self.slot_map().contains_key(self.tracks@[i].spec_ssrc()),
            self.slot_map()[self.tracks@[i].spec_ssrc()] as int == i,
    {
        assert(self.slot_map().contains_key(self.tracks@[i].spec_ssrc()));
    }

    /// A registry with no writers.
    pub fn new() -> (r: WriterRegistry)
        ensures
            r.wf(),
            r@ == Map::<u32, Seq<i16>>::empty(),
            r.spec_track_count() == 0,
    {
        let r = WriterRegistry { slots: cmap::dash_new(), tracks: Vec::new() };
        proof {
            assert(r@ =~= Map::<u32, Seq<i16>>::empty());
        }
        r
    }

    pub fn track_count(&self) -> (n: usize)
        ensures
            n == self.spec_track_count(),
    {
        self.tracks.len()
    }

    /// Returns the slot of the writer for a source id, creating the writer
    /// on the first call for that id.  Any later call for the same id
    /// returns the same slot and changes nothing: one writer per source id
    /// per session.
    pub fn get_or_create(&mut self, ssrc: u32) -> (idx: usize)
        requires
            old(self).wf(),
        ensures
            final(self).wf(),
            final(self).spec_slot(ssrc) == idx as u64,
            final(self)@.contains_key(ssrc),
            old(self)@.contains_key(ssrc) ==> *final(self) == *old(self) && idx as u64 == old(
                self,
            ).spec_slot(ssrc),
            !old(self)@.contains_key(ssrc) ==> final(self)@ == old(self)@.insert(
                ssrc,
                Seq::empty(),
            ) && idx == old(self).spec_track_count() && final(self).spec_track_count() == old(
                self,
            ).spec_track_count() + 1,
    {
        match cmap::dash_get(&self.slots, ssrc) {
            Some(v) => {
                let n = self.tracks.len();
                proof {
                    assert(v < self.tracks@.len());
                    assert(self.tracks@.len() == n);
                }
                v as usize
            },
            None => {
                let idx = self.tracks.len();
                self.tracks.push(TrackWriter::new(ssrc));
                cmap::dash_insert(&mut self.slots, ssrc, idx as u64);
                proof {
                    assert forall|k: u32| #[trigger] self.slot_map().contains_key(k)
                        implies self.slot_map()[k] < self.tracks@.len() && self.tracks@[self.slot_map()[k] as int].spec_ssrc() == k by {
                        if k != ssrc {
                            assert(old(self).slot_map().contains_key(k));
                        }
                    }
                    assert forall|i: int| 0 <= i < self.tracks@.len()
                        implies #[trigger] self.slot_map().contains_key(
                        self.tracks@[i].spec_ssrc(),
                    ) && self.slot_map()[self.tracks@[i].spec_ssrc()] as int == i by {
                        if i < idx {
                            assert(old(self).slot_map().contains_key(
                                old(self).tracks@[i].spec_ssrc(),
                            ));
                            assert(old(self).tracks@[i].spec_ssrc() != ssrc);
                        }
                    }
                    assert(self.wf());
                    assert forall|k: u32| self@.contains_key(k) implies self@[k] == old(
                        self,
                    )@.insert(ssrc, Seq::empty())[k] by {
                        if k != ssrc {
                            assert(old(self).slot_map().contains_key(k));
                        }
                    }
                    assert(self@ =~= old(self)@.insert(ssrc, Seq::empty()));
                }
                idx
            },
        }
    }

    /// Appends a decoded fragment to a source id's track, creating the
    /// track first if this is the first fragment seen for that id.  No
    /// other track changes.
    pub fn append_fragment(&mut self, ssrc: u32, fragment: &Vec<i16>)
        requires
            old(self).wf(),
        ensures
            final(self).wf(),
            final(self)@ == old(self)@.insert(
                ssrc,
                track_or_empty(old(self)@, ssrc) + fragment@,
            ),
            final(self).spec_track_count() == if old(self)@.contains_key(ssrc) {
                old(self).spec_track_count()
            } else {
                old(self).spec_track_count() + 1
            },
    {
        let idx = self.get_or_create(ssrc);
        let ghost mid = *self;
        let t = &mut self.tracks[idx];
        t.append_fragment(fragment);
        proof {
            Self::lemma_after_track_update(mid, *self, ssrc, idx);
            assert(mid.slot_map().contains_key(ssrc) && mid.slot_map()[ssrc] == idx as u64);
            assert(mid@.contains_key(ssrc) && mid@[ssrc] == mid.tracks@[idx as int]@);
            assert(mid@[ssrc] == track_or_empty(old(self)@, ssrc));
            assert(self.tracks@[idx as int]@ == mid.tracks@[idx as int]@ + fragment@);
            assert(self@ =~= old(self)@.insert(
                ssrc,
                track_or_empty(old(self)@, ssrc) + fragment@,
            ));
        }
    }

    /// Appends exactly one fragment's worth of zero samples to a source
    /// id's track, creating the track first if this silent fragment is the
    /// first seen for that id.  No other track changes.
    pub fn append_silence(&mut self, ssrc: u32)
        requires
            old(self).wf(),
        ensures
            final(self).wf(),
            final(self)@ == old(self)@.insert(
                ssrc,
                track_or_empty(old(self)@, ssrc) + zero_samples(FRAGMENT_SAMPLES as nat),
            ),
            final(self).spec_track_count() == if old(self)@.contains_key(ssrc) {
                old(self).spec_track_count()
            } else {
                old(self).spec_track_count() + 1
            },
    {
        let idx = self.get_or_create(ssrc);
        let ghost mid = *self;
        let t = &mut self.tracks[idx];
        t.append_silence();
        proof {
            Self::lemma_after_track_update(mid, *self, ssrc, idx);
            assert(mid.slot_map().contains_key(ssrc) && mid.slot_map()[ssrc] == idx as u64);
            assert(mid@.contains_key(ssrc) && mid@[ssrc] == mid.tracks@[idx as int]@);
            assert(mid@[ssrc] == track_or_empty(old(self)@, ssrc));
            assert(self.tracks@[idx as int]@ == mid.tracks@[idx as int]@
                + zero_samples(FRAGMENT_SAMPLES as nat));
            assert(self@ =~= old(self)@.insert(
                ssrc,
                track_or_empty(old(self)@, ssrc) + zero_samples(FRAGMENT_SAMPLES as nat),
            ));
        }
    }

    /// After mutating only the track in `ssrc`'s slot, the registry is
    /// still well formed and every other source's samples are untouched.
    proof fn lemma_after_track_update(mid: WriterRegistry, post: WriterRegistry, ssrc: u32, idx: usize)
        requires
            mid.wf(),
            mid.slot_map().contains_key(ssrc),
            mid.slot_map()[ssrc] == idx as u64,
            post.slots == mid.slots,
            post.tracks@.len() == mid.tracks@.len(),
            post.tracks@ == mid.tracks@.update(idx as int, post.tracks@[idx as int]),
            post.tracks@[idx as int].spec_ssrc() == mid.tracks@[idx as int].spec_ssrc(),
        ensures
            post.wf(),
            post@ == mid@.insert(ssrc, post.tracks@[idx as int]@),
    {
        assert(idx < mid.tracks@.len());
        assert forall|k: u32| #[trigger] post.slot_map().contains_key(k)
            implies post.slot_map()[k] < post.tracks@.len() && post.tracks@[post.slot_map()[k] as int].spec_ssrc() == k by {
            assert(mid.slot_map().contains_key(k));
            assert(mid.tracks@[mid.slot_map()[k] as int].spec_ssrc() == k);
        }
        assert forall|i: int| 0 <= i < post.tracks@.len()
            implies #[trigger] post.slot_map().contains_key(post.tracks@[i].spec_ssrc())
            && post.slot_map()[post.tracks@[i].spec_ssrc()] as int == i by {
            assert(mid.slot_map().contains_key(mid.tracks@[i].spec_ssrc()));
        }
        assert(post.wf());
        assert(post@ =~= mid@.insert(ssrc, post.tracks@[idx as int]@)) by {
            assert forall|k: u32| post@.contains_key(k) implies post@[k] == mid@.insert(
                ssrc,
                post.tracks@[idx as int]@,
            )[k] by {
                if k != ssrc {
                    assert(mid.slot_map().contains_key(k));
                    assert(mid.tracks@[mid.slot_map()[k] as int].spec_ssrc() == k);
                    assert(mid.slot_map()[k] != idx as u64);
                }
            }
        }
    }

    /// Renders every track as its WAV file image, one file per source id,
    /// unless some track has outgrown the 32-bit WAV chunk sizes.  A
    /// session is bounded by real time, so in practice the limit is
    /// unreachable; it is still stated rather than assumed.
    pub fn wav_images(&self) -> (r: Option<Vec<TrackFile>>)
        requires
            self.wf(),
        ensures
            r matches Some(files) ==> {
                &&& files@.len() == self.spec_track_count()
                &&& forall|i: int|
                    0 <= i < files@.len() ==> #[trigger] self@.contains_key(files@[i].ssrc)
                        && files@[i].wav@ == wav::wav_bytes(self@[files@[i].ssrc])
                &&& forall|i: int, j: int|
                    0 <= i < files@.len() && 0 <= j < files@.len() && i != j
                        ==> #[trigger] files@[i].ssrc != #[trigger] files@[j].ssrc
                &&& forall|k: u32| #[trigger]
                    self@.contains_key(k) ==> exists|i: int|
                        0 <= i < files@.len() && files@[i].ssrc == k
            },
            r is Some <==> (forall|k: u32| #[trigger]
                self@.contains_key(k) ==> self@[k].len() <= wav::MAX_WAV_SAMPLES),
    {
        let mut files: Vec<TrackFile> = Vec::new();
        let mut i: usize = 0;
        while i < self.tracks.len()
            invariant
                self.wf(),
                i <= self.tracks@.len(),
                files@.len() == i,
                forall|j: int|
                    0 <= j < i ==> #[trigger] files@[j].ssrc == self.tracks@[j].spec_ssrc()
                        && files@[j].wav@ == wav::wav_bytes(self.tracks@[j]@),
                forall|j: int| 0 <= j < i ==> self.tracks@[j]@.len() <= wav::MAX_WAV_SAMPLES,
            decreases self.tracks@.len() - i,
        {
            let t = &self.tracks[i];
            match wav::encode_wav(t.samples_ref()) {
                Ok(bytes) => {
                    files.push(TrackFile { ssrc: t.ssrc(), wav: bytes });
                },
                Err(_) => {
                    proof {
                        let k = self.tracks@[i as int].spec_ssrc();
                        self.lemma_slot_of_index(i as int);
                        assert(self@.contains_key(k));
                        assert(self@[k] == self.tracks@[i as int]@);
                    }
                    return None;
                },
            }
            i = i + 1;
        }
        proof {
            assert(files@.len() == self.tracks@.len());
            assert forall|k: u32| #[trigger] self@.contains_key(k) implies self@[k].len()
                <= wav::MAX_WAV_SAMPLES && exists|j: int|
                0 <= j < files@.len() && files@[j].ssrc == k by {
                let s = self.slot_map()[k] as int;
                assert(self.tracks@[s].spec_ssrc() == k);
                assert(files@[s].ssrc == k);
            }
            assert forall|j: int| 0 <= j < files@.len() implies #[trigger] self@.contains_key(
                files@[j].ssrc,
            ) && files@[j].wav@ == wav::wav_bytes(self@[files@[j].ssrc]) by {
                self.lemma_slot_of_index(j);
            }
            assert forall|i0: int, j0: int|
                0 <= i0 < files@.len() && 0 <= j0 < files@.len() && i0 != j0
                implies #[trigger] files@[i0].ssrc != #[trigger] files@[j0].ssrc by {
                assert(self.wf());
                assert(0 <= i0 < self.tracks@.len() && 0 <= j0 < self.tracks@.len());
                assert(files@[i0].ssrc == self.tracks@[i0].spec_ssrc());
                assert(files@[j0].ssrc == self.tracks@[j0].spec_ssrc());
                self.lemma_slot_of_index(i0);
                self.lemma_slot_of_index(j0);
            }
        }
        Some(files)
    }
}

} // verus!
