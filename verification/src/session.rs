//! One capture session: its start time, its enable flag, the identity
//! directory and the track writer registry, and the event dispatch facade
//! the transport collaborator drives.

use vstd::prelude::*;
use vstd::string::StrSliceExecFns;
use vstd::string::StringExecFns;
use crate::events::VoiceEvent;
use crate::events::VoiceTickInput;
use crate::events::contribution;
use crate::events::in_silent;
use crate::events::in_speaking;
use crate::events::lemma_speaker_index;
use crate::events::post_tick;
use crate::events::tick_wf;
use crate::events::touched;
use crate::identity::IdentityDirectory;
use crate::registry::TrackFile;
use crate::registry::WriterRegistry;
use crate::registry::track_or_empty;
use crate::text::append_decimal;
use crate::text::dec_chars;
use crate::track::FRAGMENT_SAMPLES;
use crate::track::zero_samples;
use crate::time::StartTime;
use crate::time::dir_chars;
use crate::wav;

verus! {

/// The id appears among the first `n` active entries of the tick.
spec fn processed_speaking(t: VoiceTickInput, n: int, k: u32) -> bool {
    exists|j: int| 0 <= j < n && #[trigger] t.speaking@[j].ssrc == k
}

/// The id appears among the first `n` silent entries of the tick.
spec fn processed_silent(t: VoiceTickInput, n: int, k: u32) -> bool {
    exists|j: int| 0 <= j < n && #[trigger] t.silent@[j] == k
}

/// Having processed every silent entry is having processed exactly the
/// tick's silent set.
proof fn lemma_processed_silent_all(t: VoiceTickInput, k: u32)
    ensures
        in_silent(t, k) <==> processed_silent(t, t.silent@.len() as int, k),
{
    if in_silent(t, k) {
        let j = choose|j: int| 0 <= j < t.silent@.len() && t.silent@[j] == k;
        assert(t.silent@[j] == k);
        assert(processed_silent(t, t.silent@.len() as int, k));
    }
    if processed_silent(t, t.silent@.len() as int, k) {
        let j = choose|j: int| 0 <= j < t.silent@.len() as int && #[trigger] t.silent@[j] == k;
        assert(t.silent@[j] == k);
        assert(t.silent@.contains(k));
    }
}

/// The full path of one source id's output file, under one directory per
/// session named by the session's start time.
pub open spec fn output_path_chars(t: StartTime, ssrc: u32) -> Seq<char> {
    "recordings/"@ + dir_chars(t) + "/"@ + dec_chars(ssrc as int) + ".wav"@
}

/// Two sessions with distinct start times write every source id's file
/// under distinct paths: re-enabling capture never reuses an earlier
/// session's files.
pub proof fn lemma_distinct_sessions_distinct_paths(a: StartTime, b: StartTime, ssrc: u32)
    requires
        a.wf(),
        b.wf(),
        a != b,
    ensures
        output_path_chars(a, ssrc) != output_path_chars(b, ssrc),
{
    crate::time::lemma_distinct_start_times_distinct_dirs(a, b);
    if output_path_chars(a, ssrc) == output_path_chars(b, ssrc) {
        reveal_strlit("recordings/");
        let pa = output_path_chars(a, ssrc);
        let pb = output_path_chars(b, ssrc);
        assert(dir_chars(a).len() == 16);
        assert(dir_chars(b).len() == 16);
        assert(dir_chars(a) =~= pa.subrange(11, 27));
        assert(dir_chars(b) =~= pb.subrange(11, 27));
        assert(false);
    }
}

/// One capture session's whole state: the enable flag every event
/// callback consults, the flag tracking whether the previous tick had no
/// speakers (observability only), the identity directory, the track
/// writer registry, and the start time that names all output paths.
pub struct Receiver {
    record: bool,
    last_tick_was_empty: bool,
    known_ssrcs: IdentityDirectory,
    writers: WriterRegistry,
    start_time: StartTime,
}

impl Receiver {
    /// Whether capture is enabled: when false, every event is ignored.
    pub closed spec fn spec_record(&self) -> bool {
        self.record
    }

    /// Whether the previous processed tick had no active speakers.
    pub closed spec fn spec_last_tick_was_empty(&self) -> bool {
        self.last_tick_was_empty
    }

    /// The identity directory: source id to announced speaker identity.
    pub closed spec fn identities(&self) -> Map<u32, u64> {
        self.known_ssrcs@
    }

    /// The tracks: source id to the samples its writer has accumulated.
    pub closed spec fn tracks(&self) -> Map<u32, Seq<i16>> {
        self.writers@
    }

    pub closed spec fn spec_start_time(&self) -> StartTime {
        self.start_time
    }

    pub closed spec fn wf(&self) -> bool {
        &&& self.writers.wf()
        &&& self.start_time.wf()
    }

    /// A fresh session starting at the given time: capture enabled, no
    /// identities known, no writers yet.
    pub fn with_start_time(start_time: StartTime) -> (r: Receiver)
        requires
            start_time.wf(),
        ensures
            r.wf(),
            r.spec_record(),
            !r.spec_last_tick_was_empty(),
            r.identities() == Map::<u32, u64>::empty(),
            r.tracks() == Map::<u32, Seq<i16>>::empty(),
            r.spec_start_time() == start_time,
    {
        Receiver {
            record: true,
            last_tick_was_empty: false,
            known_ssrcs: IdentityDirectory::new(),
            writers: WriterRegistry::new(),
            start_time,
        }
    }

    /// A fresh session starting now, by the wall clock.
    pub fn new() -> (r: Receiver)
        ensures
            r.wf(),
            r.spec_record(),
            !r.spec_last_tick_was_empty(),
            r.identities() == Map::<u32, u64>::empty(),
            r.tracks() == Map::<u32, Seq<i16>>::empty(),
    {
        Receiver::with_start_time(StartTime::now())
    }

    pub fn start_time(&self) -> (t: StartTime)
        ensures
            t == self.spec_start_time(),
    {
        self.start_time
    }

    /// The session's directory name: its start time, formatted.
    pub fn start_time_formatted(&self) -> (s: String)
        requires
            self.wf(),
        ensures
            s@ == dir_chars(self.spec_start_time()),
    {
        self.start_time.formatted()
    }

    /// The path of one source id's output file within this session.
    pub fn output_path(&self, ssrc: u32) -> (s: String)
        requires
            self.wf(),
        ensures
            s@ == output_path_chars(self.spec_start_time(), ssrc),
    {
        let mut s = String::from_str("recordings/");
        let dir = self.start_time.formatted();
        s.append(dir.as_str());
        s.append("/");
        append_decimal(&mut s, ssrc);
        s.append(".wav");
        proof {
            assert(s@ =~= output_path_chars(self.spec_start_time(), ssrc));
        }
        s
    }

    /// Enables or disables capture.  Disabling stops all further writes
    /// but touches nothing already written.
    pub fn set_record(&mut self, v: bool)
        ensures
            final(self).spec_record() == v,
            final(self).spec_last_tick_was_empty() == old(self).spec_last_tick_was_empty(),
            final(self).identities() == old(self).identities(),
            final(self).tracks() == old(self).tracks(),
            final(self).spec_start_time() == old(self).spec_start_time(),
            final(self).wf() == old(self).wf(),
    {
        self.record = v;
    }

    pub fn get_record(&self) -> (r: bool)
        ensures
            r == self.spec_record(),
    {
        self.record
    }

    /// Resolves a source id to its announced identity, if one is known.
    pub fn lookup_identity(&self, ssrc: u32) -> (r: Option<u64>)
        ensures
            r == if self.identities().contains_key(ssrc) {
                Some(self.identities()[ssrc])
            } else {
                None::<u64>
            },
    {
        self.known_ssrcs.lookup(ssrc)
    }

    /// The per-interval driver.  When capture is enabled, every source id
    /// in the tick gains exactly one contribution — its decoded fragment,
    /// nothing in the degraded no-decode mode, or one fragment of zeros if
    /// silent — and every other track is untouched; when disabled, the
    /// tick is ignored entirely.
    pub fn on_tick(&mut self, tick: &VoiceTickInput)
        requires
            old(self).wf(),
            tick_wf(*tick),
        ensures
            final(self).wf(),
            final(self).spec_record() == old(self).spec_record(),
            final(self).spec_start_time() == old(self).spec_start_time(),
            final(self).identities() == old(self).identities(),
            !old(self).spec_record() ==> *final(self) == *old(self),
            old(self).spec_record() ==> final(self).tracks() == post_tick(
                old(self).tracks(),
                *tick,
            ) && final(self).spec_last_tick_was_empty() == (tick.speaking@.len() == 0),
    {
        if !self.record {
            return ;
        }
        let speaking_count = tick.speaking.len();
        if speaking_count == 0 && !self.last_tick_was_empty {
            self.last_tick_was_empty = true;
        } else if speaking_count != 0 {
            self.last_tick_was_empty = false;
        }
        let ghost m0 = self.writers@;
        let mut i: usize = 0;
        while i < tick.speaking.len()
            invariant
                tick_wf(*tick),
                self.writers.wf(),
                i <= tick.speaking@.len(),
                self.record == old(self).spec_record(),
                self.last_tick_was_empty == (tick.speaking@.len() == 0),
                self.known_ssrcs == old(self).known_ssrcs,
                self.start_time == old(self).spec_start_time(),
                m0 == old(self).tracks(),
                forall|k: u32|
                    processed_speaking(*tick, i as int, k) ==> #[trigger] self.writers@.contains_key(
                        k,
                    ) && self.writers@[k] == track_or_empty(m0, k) + contribution(*tick, k),
                forall|k: u32|
                    !processed_speaking(*tick, i as int, k) ==> (#[trigger] self.writers@.contains_key(
                        k,
                    ) <==> m0.contains_key(k)) && (m0.contains_key(k) ==> self.writers@[k] == m0[k]),
            decreases tick.speaking@.len() - i,
        {
            let entry = &tick.speaking[i];
            let ghost pre = self.writers@;
            proof {
                lemma_speaker_index(*tick, i as int);
                assert(!processed_speaking(*tick, i as int, entry.ssrc));
            }
            proof {
                assert(track_or_empty(pre, entry.ssrc) == track_or_empty(m0, entry.ssrc));
            }
            match &entry.decoded {
                Some(fragment) => {
                    self.writers.append_fragment(entry.ssrc, fragment);
                    proof {
                        assert(contribution(*tick, entry.ssrc) == fragment@);
                    }
                },
                None => {
                    let _ = self.writers.get_or_create(entry.ssrc);
                    proof {
                        assert(contribution(*tick, entry.ssrc) == Seq::<i16>::empty());
                        assert(track_or_empty(m0, entry.ssrc) + contribution(*tick, entry.ssrc)
                            =~= track_or_empty(m0, entry.ssrc));
                        if pre.contains_key(entry.ssrc) {
                            assert(pre[entry.ssrc] == m0[entry.ssrc]);
                            assert(self.writers@ =~= pre.insert(
                                entry.ssrc,
                                track_or_empty(m0, entry.ssrc) + contribution(*tick, entry.ssrc),
                            ));
                        } else {
                            assert(track_or_empty(m0, entry.ssrc) =~= Seq::<i16>::empty());
                        }
                    }
                },
            }
            proof {
                let ghost k_i = tick.speaking@[i as int].ssrc;
                assert(self.writers@ == pre.insert(
                    k_i,
                    track_or_empty(m0, k_i) + contribution(*tick, k_i),
                ));
                assert forall|k: u32| processed_speaking(*tick, i + 1, k)
                    implies #[trigger] self.writers@.contains_key(k) && self.writers@[k]
                    == track_or_empty(m0, k) + contribution(*tick, k) by {
                    if k != k_i {
                        assert(processed_speaking(*tick, i as int, k));
                        assert(pre.contains_key(k) && pre[k] == track_or_empty(m0, k)
                            + contribution(*tick, k));
                    }
                }
                assert forall|k: u32| !processed_speaking(*tick, i + 1, k) implies ((
                #[trigger] self.writers@.contains_key(k) <==> m0.contains_key(k)) && (
                m0.contains_key(k) ==> self.writers@[k] == m0[k])) by {
                    assert(processed_speaking(*tick, i + 1, k_i));
                    assert(k != k_i);
                    assert(!processed_speaking(*tick, i as int, k));
                    assert(pre.contains_key(k) <==> m0.contains_key(k));
                }
            }
            i = i + 1;
        }
        let mut s: usize = 0;
        while s < tick.silent.len()
            invariant
                tick_wf(*tick),
                self.writers.wf(),
                s <= tick.silent@.len(),
                self.record == old(self).spec_record(),
                self.last_tick_was_empty == (tick.speaking@.len() == 0),
                self.known_ssrcs == old(self).known_ssrcs,
                self.start_time == old(self).spec_start_time(),
                m0 == old(self).tracks(),
                forall|k: u32|
                    #[trigger] in_speaking(*tick, k) ==> self.writers@.contains_key(k)
                        && self.writers@[k] == track_or_empty(m0, k) + contribution(*tick, k),
                forall|k: u32|
                    !in_speaking(*tick, k) && #[trigger] processed_silent(*tick, s as int, k)
                        ==> self.writers@.contains_key(k) && self.writers@[k]
                        == track_or_empty(m0, k) + contribution(*tick, k),
                forall|k: u32|
                    !in_speaking(*tick, k) && !(#[trigger] processed_silent(*tick, s as int, k))
                        ==> (self.writers@.contains_key(k) <==> m0.contains_key(k)) && (
                    m0.contains_key(k) ==> self.writers@[k] == m0[k]),
            decreases tick.silent@.len() - s,
        {
            let ghost pre = self.writers@;
            let k_s = tick.silent[s];
            proof {
                assert(in_silent(*tick, k_s));
                assert(!in_speaking(*tick, k_s));
                assert(!processed_silent(*tick, s as int, k_s));
                assert(contribution(*tick, k_s) == zero_samples(FRAGMENT_SAMPLES as nat));
            }
            proof {
                assert(pre.contains_key(k_s) <==> m0.contains_key(k_s));
                assert(track_or_empty(pre, k_s) == track_or_empty(m0, k_s));
            }
            self.writers.append_silence(k_s);
            proof {
                assert(self.writers@ == pre.insert(
                    k_s,
                    track_or_empty(m0, k_s) + contribution(*tick, k_s),
                ));
                assert forall|k: u32|
                    !in_speaking(*tick, k) && processed_silent(*tick, s + 1, k)
                    implies #[trigger] self.writers@.contains_key(k) && self.writers@[k]
                    == track_or_empty(m0, k) + contribution(*tick, k) by {
                    if k != k_s {
                        assert(processed_silent(*tick, s as int, k));
                        assert(pre.contains_key(k) && pre[k] == track_or_empty(m0, k)
                            + contribution(*tick, k));
                    }
                }
                assert forall|k: u32|
                    !in_speaking(*tick, k) && !processed_silent(*tick, s + 1, k) implies ((
                #[trigger] self.writers@.contains_key(k) <==> m0.contains_key(k)) && (
                m0.contains_key(k) ==> self.writers@[k] == m0[k])) by {
                    assert(processed_silent(*tick, s + 1, k_s));
                    assert(k != k_s);
                    assert(!processed_silent(*tick, s as int, k));
                    assert(pre.contains_key(k) <==> m0.contains_key(k));
                }
            }
            s = s + 1;
        }
        proof {
            let ghost nsil = tick.silent@.len() as int;
            assert forall|k: u32| #[trigger] self.writers@.contains_key(k)
                implies self.writers@[k] == post_tick(m0, *tick)[k] && post_tick(
                m0,
                *tick,
            ).contains_key(k) by {
                lemma_processed_silent_all(*tick, k);
                if in_speaking(*tick, k) {
                    assert(self.writers@[k] == track_or_empty(m0, k) + contribution(*tick, k));
                } else if in_silent(*tick, k) {
                    assert(processed_silent(*tick, nsil, k));
                    assert(self.writers@[k] == track_or_empty(m0, k) + contribution(*tick, k));
                } else {
                    assert(!processed_silent(*tick, nsil, k));
                    assert(m0.contains_key(k) && self.writers@[k] == m0[k]);
                    assert(!touched(*tick, k));
                }
            }
            assert forall|k: u32| #[trigger] post_tick(m0, *tick).contains_key(k)
                implies self.writers@.contains_key(k) by {
                lemma_processed_silent_all(*tick, k);
                if in_speaking(*tick, k) {
                    assert(self.writers@.contains_key(k));
                } else if in_silent(*tick, k) {
                    assert(processed_silent(*tick, nsil, k));
                    assert(self.writers@.contains_key(k));
                } else {
                    assert(!processed_silent(*tick, nsil, k));
                    assert(m0.contains_key(k));
                }
            }
            assert(self.writers@ =~= post_tick(m0, *tick));
        }
    }

    /// The event dispatch facade: one call per delivered event.  When
    /// capture is disabled every event is ignored; otherwise an identity
    /// announcement updates only the identity directory — audio already
    /// written for its source id stays exactly where it is — a tick runs
    /// the tick processor, and the raw packet and disconnect
    /// notifications carry diagnostic data only and change nothing.
    pub fn act(&mut self, ctx: &VoiceEvent)
        requires
            old(self).wf(),
            *ctx matches VoiceEvent::VoiceTick(t) ==> tick_wf(t),
        ensures
            final(self).wf(),
            final(self).spec_record() == old(self).spec_record(),
            final(self).spec_start_time() == old(self).spec_start_time(),
            !old(self).spec_record() ==> *final(self) == *old(self),
            old(self).spec_record() ==> match *ctx {
                VoiceEvent::SpeakingStateUpdate { ssrc, user_id } => {
                    &&& final(self).identities() == (match user_id {
                        Some(u) => old(self).identities().insert(ssrc, u),
                        None => old(self).identities(),
                    })
                    &&& final(self).tracks() == old(self).tracks()
                    &&& final(self).spec_last_tick_was_empty() == old(
                        self,
                    ).spec_last_tick_was_empty()
                },
                VoiceEvent::VoiceTick(t) => {
                    &&& final(self).tracks() == post_tick(old(self).tracks(), t)
                    &&& final(self).identities() == old(self).identities()
                    &&& final(self).spec_last_tick_was_empty() == (t.speaking@.len() == 0)
                },
                _ => *final(self) == *old(self),
            },
    {
        if !self.record {
            return ;
        }
        match ctx {
            VoiceEvent::SpeakingStateUpdate { ssrc, user_id } => {
                if let Some(user) = user_id {
                    self.known_ssrcs.record_identity(*ssrc, *user);
                }
            },
            VoiceEvent::VoiceTick(tick) => {
                self.on_tick(tick);
            },
            VoiceEvent::RtpPacket { .. } => {},
            VoiceEvent::RtcpPacket => {},
            VoiceEvent::ClientDisconnect { .. } => {},
        }
    }

    /// Renders every track of this session as its WAV file image, one per
    /// source id, unless some track has outgrown the 32-bit WAV chunk
    /// sizes; a failing track would be reported without touching its
    /// siblings, but the session itself never produces one within the
    /// format's bounds.
    pub fn finish(&self) -> (r: Option<Vec<TrackFile>>)
        requires
            self.wf(),
        ensures
            r matches Some(files) ==> {
                &&& forall|i: int|
                    0 <= i < files@.len() ==> #[trigger] self.tracks().contains_key(files@[i].ssrc)
                        && files@[i].wav@ == wav::wav_bytes(self.tracks()[files@[i].ssrc])
                &&& forall|i: int, j: int|
                    0 <= i < files@.len() && 0 <= j < files@.len() && i != j
                        ==> #[trigger] files@[i].ssrc != #[trigger] files@[j].ssrc
                &&& forall|k: u32| #[trigger]
                    self.tracks().contains_key(k) ==> exists|i: int|
                        0 <= i < files@.len() && files@[i].ssrc == k
            },
            r is Some <==> (forall|k: u32| #[trigger]
                self.tracks().contains_key(k) ==> self.tracks()[k].len()
                    <= wav::MAX_WAV_SAMPLES),
    {
        let r = self.writers.wav_images();
        proof {
            if forall|k: u32| #[trigger]
                self.tracks().contains_key(k) ==> self.tracks()[k].len()
                    <= wav::MAX_WAV_SAMPLES {
                assert forall|k: u32| #[trigger] self.writers@.contains_key(k)
                    implies self.writers@[k].len() <= wav::MAX_WAV_SAMPLES by {
                    assert(self.tracks().contains_key(k));
                }
                assert(r is Some);
            } else {
                let k0 = choose|k: u32| #[trigger]
                    self.tracks().contains_key(k) && self.tracks()[k].len()
                        > wav::MAX_WAV_SAMPLES;
                assert(self.writers@.contains_key(k0) && self.writers@[k0].len()
                    > wav::MAX_WAV_SAMPLES);
                assert(!(r is Some));
            }
            if r is Some {
                let files = r->0;
                assert forall|i: int| 0 <= i < files@.len()
                    implies #[trigger] self.tracks().contains_key(files@[i].ssrc)
                    && files@[i].wav@ == wav::wav_bytes(self.tracks()[files@[i].ssrc]) by {
                    assert(self.writers@.contains_key(files@[i].ssrc));
                }
                assert forall|k: u32| #[trigger] self.tracks().contains_key(k) implies exists|i: int|
                    0 <= i < files@.len() && files@[i].ssrc == k by {
                    assert(self.writers@.contains_key(k));
                }
            }
        }
        r
    }
}

} // verus!
