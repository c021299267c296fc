//! The events the transport collaborator delivers, and the meaning of a
//! tick.
//!
//! A periodic tick carries, for each currently active source id, either a
//! decoded fragment or nothing, together with the set of source ids that
//! are present but silent this tick.  `post_tick` is the specification of
//! what one tick does to the per-source sample map: every active or silent
//! id gains exactly one fragment's worth of samples (live, or zero-filled,
//! or none in the degraded mode where decoding is off), and ids absent
//! from the tick are untouched.

use vstd::prelude::*;
use crate::registry::track_or_empty;
use crate::track::FRAGMENT_SAMPLES;
use crate::track::zero_samples;

verus! {

/// One currently active source in a tick: its id and, when decoding is
/// enabled upstream, its decoded fragment.
pub struct ActiveSource {
    pub ssrc: u32,
    pub decoded: Option<Vec<i16>>,
}

impl ActiveSource {
    /// The decoded fragment as a sequence, if one was delivered.
    pub open spec fn decoded_view(&self) -> Option<Seq<i16>> {
        match self.decoded {
            Some(v) => Some(v@),
            None => None,
        }
    }
}

/// One periodic tick's batch: the active sources and the silent ones.
pub struct VoiceTickInput {
    pub speaking: Vec<ActiveSource>,
    pub silent: Vec<u32>,
}

/// The source id appears among the tick's active sources.
pub open spec fn in_speaking(t: VoiceTickInput, k: u32) -> bool {
    exists|i: int| 0 <= i < t.speaking@.len() && #[trigger] t.speaking@[i].ssrc == k
}

/// The position of an active source id in the tick's batch.
pub open spec fn speaker_index(t: VoiceTickInput, k: u32) -> int {
    choose|i: int| 0 <= i < t.speaking@.len() && #[trigger] t.speaking@[i].ssrc == k
}

/// The source id appears in the tick's silent set.
pub open spec fn in_silent(t: VoiceTickInput, k: u32) -> bool {
    t.silent@.contains(k)
}

/// The source id appears in the tick at all.
pub open spec fn touched(t: VoiceTickInput, k: u32) -> bool {
    in_speaking(t, k) || in_silent(t, k)
}

/// What one tick appends to a source id's track: its decoded fragment if
/// it is active and one was delivered, nothing if it is active without a
/// decoded fragment (decoding disabled upstream), and one fragment of
/// zeros if it is silent.
pub open spec fn contribution(t: VoiceTickInput, k: u32) -> Seq<i16> {
    if in_speaking(t, k) {
        match t.speaking@[speaker_index(t, k)].decoded_view() {
            Some(f) => f,
            None => Seq::empty(),
        }
    } else if in_silent(t, k) {
        zero_samples(FRAGMENT_SAMPLES as nat)
    } else {
        Seq::empty()
    }
}

/// What the transport protocol guarantees of a tick: active ids are
/// listed once, silent ids are listed once, no id is both, and a decoded
/// fragment is exactly one fragment long.
pub open spec fn tick_wf(t: VoiceTickInput) -> bool {
    &&& forall|i: int, j: int|
        #![trigger t.speaking@[i].ssrc, t.speaking@[j].ssrc]
        0 <= i < j < t.speaking@.len() ==> t.speaking@[i].ssrc != t.speaking@[j].ssrc
    &&& forall|i: int, j: int|
        #![trigger t.silent@[i], t.silent@[j]]
        0 <= i < j < t.silent@.len() ==> t.silent@[i] != t.silent@[j]
    &&& forall|i: int, j: int|
        #![trigger t.speaking@[i].ssrc, t.silent@[j]]
        0 <= i < t.speaking@.len() && 0 <= j < t.silent@.len() ==> t.speaking@[i].ssrc
            != t.silent@[j]
    &&& forall|i: int|
        0 <= i < t.speaking@.len() ==> (#[trigger] t.speaking@[i].decoded_view() matches Some(f)
            ==> f.len() == FRAGMENT_SAMPLES)
}

/// The per-source sample map after one tick: exactly one contribution per
/// touched id, appended in tick order; untouched ids keep their samples.
pub open spec fn post_tick(m: Map<u32, Seq<i16>>, t: VoiceTickInput) -> Map<u32, Seq<i16>> {
    Map::new(
        |k: u32| m.contains_key(k) || touched(t, k),
        |k: u32|
            if touched(t, k) {
                track_or_empty(m, k) + contribution(t, k)
            } else {
                m[k]
            },
    )
}

/// An active entry's id resolves to its own position in the batch.
pub proof fn lemma_speaker_index(t: VoiceTickInput, j: int)
    requires
        tick_wf(t),
        0 <= j < t.speaking@.len(),
    ensures
        in_speaking(t, t.speaking@[j].ssrc),
        speaker_index(t, t.speaking@[j].ssrc) == j,
{
    let k = t.speaking@[j].ssrc;
    assert(in_speaking(t, k));
    let i = speaker_index(t, k);
    assert(0 <= i < t.speaking@.len() && t.speaking@[i].ssrc == k);
    if i < j {
        assert(t.speaking@[i].ssrc != t.speaking@[j].ssrc);
    } else if j < i {
        assert(t.speaking@[j].ssrc != t.speaking@[i].ssrc);
    }
}

/// The event categories the transport delivers: an identity announcement,
/// the periodic tick, the two raw packet notifications that carry only
/// diagnostic metadata, and a client disconnect.  The set is closed: the
/// subscription list is fixed, so no other category can arrive.
#[allow(inconsistent_fields)]
pub enum VoiceEvent {
    SpeakingStateUpdate { ssrc: u32, user_id: Option<u64> },
    VoiceTick(VoiceTickInput),
    RtpPacket { ssrc: u32, sequence: u16, timestamp: u32, payload_len: usize },
    RtcpPacket,
    ClientDisconnect { user_id: u64 },
}

} // verus!
