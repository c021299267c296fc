//! Laws of the tick semantics across whole runs of ticks.
//!
//! `post_tick` says what one tick does; these lemmas say what a run of
//! consecutive ticks does to one source id's track: its per-tick
//! contributions are appended in tick order, an id that appears in every
//! tick with audio grows by exactly one fragment per tick, and an id that
//! is only ever silent accumulates zero-valued samples only.

use vstd::prelude::*;
use crate::events::VoiceTickInput;
use crate::events::contribution;
use crate::events::in_silent;
use crate::events::in_speaking;
use crate::events::post_tick;
use crate::events::speaker_index;
use crate::events::tick_wf;
use crate::events::touched;
use crate::registry::track_or_empty;
use crate::track::FRAGMENT_SAMPLES;
use crate::track::zero_samples;

verus! {

/// The per-source sample map after a run of consecutive ticks, first to
/// last.
pub open spec fn post_ticks(m: Map<u32, Seq<i16>>, ticks: Seq<VoiceTickInput>) -> Map<
    u32,
    Seq<i16>,
>
    decreases ticks.len(),
{
    if ticks.len() == 0 {
        m
    } else {
        post_tick(post_ticks(m, ticks.drop_last()), ticks.last())
    }
}

/// The samples a source id gains over a run of ticks: its per-tick
/// contributions, concatenated in tick order.
pub open spec fn contributions(ticks: Seq<VoiceTickInput>, k: u32) -> Seq<i16>
    decreases ticks.len(),
{
    if ticks.len() == 0 {
        Seq::empty()
    } else {
        contributions(ticks.drop_last(), k) + contribution(ticks.last(), k)
    }
}

/// The tick delivers audio for the id: a decoded fragment while active,
/// or a zero-filled fragment while silent — not the degraded active mode
/// where decoding is off.
pub open spec fn touched_with_audio(t: VoiceTickInput, k: u32) -> bool {
    ||| (in_speaking(t, k) && t.speaking@[speaker_index(t, k)].decoded_view() is Some)
    ||| (!in_speaking(t, k) && in_silent(t, k))
}

/// A well-formed tick lists no id as both active and silent.
pub proof fn lemma_silent_not_speaking(t: VoiceTickInput, k: u32)
    requires
        tick_wf(t),
        in_silent(t, k),
    ensures
        !in_speaking(t, k),
{
    if in_speaking(t, k) {
        let i = choose|i: int| 0 <= i < t.speaking@.len() && #[trigger] t.speaking@[i].ssrc == k;
        let j = choose|j: int| 0 <= j < t.silent@.len() && #[trigger] t.silent@[j] == k;
        assert(t.speaking@[i].ssrc != t.silent@[j]);
    }
}

/// Every source id that appears in each of N consecutive ticks' active or
/// silent sets accumulates exactly its N per-tick contributions, appended
/// in tick order, on top of whatever its track held before.
pub proof fn lemma_consecutive_ticks_accumulate(
    m: Map<u32, Seq<i16>>,
    ticks: Seq<VoiceTickInput>,
    k: u32,
)
    requires
        forall|i: int| 0 <= i < ticks.len() ==> touched(#[trigger] ticks[i], k),
    ensures
        post_ticks(m, ticks).contains_key(k) || ticks.len() == 0,
        track_or_empty(post_ticks(m, ticks), k) == track_or_empty(m, k) + contributions(ticks, k),
    decreases ticks.len(),
{
    if ticks.len() == 0 {
        assert(track_or_empty(m, k) + Seq::<i16>::empty() =~= track_or_empty(m, k));
    } else {
        let prefix = ticks.drop_last();
        let last = ticks.last();
        assert(forall|i: int| 0 <= i < prefix.len() ==> touched(#[trigger] prefix[i], k));
        lemma_consecutive_ticks_accumulate(m, prefix, k);
        let prev = post_ticks(m, prefix);
        assert(touched(ticks[ticks.len() - 1], k));
        assert(touched(last, k));
        assert(track_or_empty(post_tick(prev, last), k) == track_or_empty(prev, k) + contribution(
            last,
            k,
        ));
        assert(track_or_empty(m, k) + contributions(prefix, k) + contribution(last, k)
            =~= track_or_empty(m, k) + contributions(ticks, k));
    }
}

/// A run of zeros followed by a run of zeros is one longer run of zeros.
proof fn lemma_zero_samples_add(a: nat, b: nat)
    ensures
        zero_samples(a) + zero_samples(b) == zero_samples(a + b),
{
    assert(zero_samples(a) + zero_samples(b) =~= zero_samples(a + b));
}

/// A source id that appears in each of N consecutive well-formed ticks
/// with audio — a decoded fragment or silence — grows by exactly N
/// fragments' worth of samples.
pub proof fn lemma_exact_growth(m: Map<u32, Seq<i16>>, ticks: Seq<VoiceTickInput>, k: u32)
    requires
        forall|i: int|
            0 <= i < ticks.len() ==> tick_wf(#[trigger] ticks[i]) && touched_with_audio(
                ticks[i],
                k,
            ),
    ensures
        track_or_empty(post_ticks(m, ticks), k).len() == track_or_empty(m, k).len() + ticks.len()
            * FRAGMENT_SAMPLES,
    decreases ticks.len(),
{
    if ticks.len() > 0 {
        let prefix = ticks.drop_last();
        let last = ticks.last();
        assert(forall|i: int|
            0 <= i < prefix.len() ==> tick_wf(#[trigger] prefix[i]) && touched_with_audio(
                prefix[i],
                k,
            ));
        lemma_exact_growth(m, prefix, k);
        let prev = post_ticks(m, prefix);
        assert(tick_wf(ticks[ticks.len() - 1]) && touched_with_audio(ticks[ticks.len() - 1], k));
        assert(contribution(last, k).len() == FRAGMENT_SAMPLES) by {
            if in_speaking(last, k) {
                let i = speaker_index(last, k);
                assert(0 <= i < last.speaking@.len() && last.speaking@[i].ssrc == k);
                assert(last.speaking@[i].decoded_view() matches Some(f) ==> f.len()
                    == FRAGMENT_SAMPLES);
            }
        }
        assert(track_or_empty(post_tick(prev, last), k) == track_or_empty(prev, k) + contribution(
            last,
            k,
        ));
    }
}

/// A source id with no prior track that appears only in silent sets
/// produces a track holding zero-valued samples only: one zero-filled
/// fragment per tick.
pub proof fn lemma_silent_only_all_zeros(m: Map<u32, Seq<i16>>, ticks: Seq<VoiceTickInput>, k: u32)
    requires
        !m.contains_key(k),
        forall|i: int|
            0 <= i < ticks.len() ==> tick_wf(#[trigger] ticks[i]) && in_silent(ticks[i], k),
    ensures
        track_or_empty(post_ticks(m, ticks), k) == zero_samples(
            (ticks.len() * FRAGMENT_SAMPLES) as nat,
        ),
    decreases ticks.len(),
{
    if ticks.len() == 0 {
        assert(track_or_empty(m, k) =~= zero_samples(0));
    } else {
        let prefix = ticks.drop_last();
        let last = ticks.last();
        assert(forall|i: int|
            0 <= i < prefix.len() ==> tick_wf(#[trigger] prefix[i]) && in_silent(prefix[i], k));
        lemma_silent_only_all_zeros(m, prefix, k);
        let prev = post_ticks(m, prefix);
        assert(tick_wf(ticks[ticks.len() - 1]) && in_silent(ticks[ticks.len() - 1], k));
        lemma_silent_not_speaking(last, k);
        assert(contribution(last, k) == zero_samples(FRAGMENT_SAMPLES as nat));
        assert(track_or_empty(post_tick(prev, last), k) == track_or_empty(prev, k) + contribution(
            last,
            k,
        ));
        lemma_zero_samples_add((prefix.len() * FRAGMENT_SAMPLES) as nat, FRAGMENT_SAMPLES as nat);
        assert((prefix.len() * FRAGMENT_SAMPLES + FRAGMENT_SAMPLES) == ticks.len()
            * FRAGMENT_SAMPLES) by (nonlinear_arith)
            requires
                prefix.len() + 1 == ticks.len(),
        ;
    }
}

} // verus!
