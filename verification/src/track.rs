//! Per-source track writers: append-only sample sinks.

use vstd::prelude::*;

verus! {

/// Samples in one fragment: 20 ms at 48 kHz, two interleaved channels.
pub const FRAGMENT_SAMPLES: usize = 1920;

/// A run of `n` zero-valued samples, the content of one silent fragment.
pub open spec fn zero_samples(n: nat) -> Seq<i16> {
    Seq::new(n, |i: int| 0i16)
}

/// The append-only audio sink for one source stream.  It accumulates the
/// exact sample sequence of that source's output file, in tick arrival
/// order; the writer itself never reorders or drops samples.
pub struct TrackWriter {
    ssrc: u32,
    samples: Vec<i16>,
}

impl View for TrackWriter {
    type V = Seq<i16>;

    closed spec fn view(&self) -> Seq<i16> {
        self.samples@
    }
}

impl TrackWriter {
    /// The source stream this track belongs to.
    pub closed spec fn spec_ssrc(&self) -> u32 {
        self.ssrc
    }

    /// Opens a fresh, empty track for one source stream.
    pub fn new(ssrc: u32) -> (t: TrackWriter)
        ensures
            t@ == Seq::<i16>::empty(),
            t.spec_ssrc() == ssrc,
    {
        TrackWriter { ssrc, samples: Vec::new() }
    }

    pub fn ssrc(&self) -> (s: u32)
        ensures
            s == self.spec_ssrc(),
    {
        self.ssrc
    }

    pub fn len(&self) -> (n: usize)
        ensures
            n == self@.len(),
    {
        self.samples.len()
    }

    /// The samples written so far, in order.
    pub fn samples_ref(&self) -> (r: &Vec<i16>)
        ensures
            r@ == self@,
    {
        &self.samples
    }

    /// Appends one decoded fragment verbatim, in order.
    pub fn append_fragment(&mut self, fragment: &Vec<i16>)
        ensures
            final(self)@ == old(self)@ + fragment@,
            final(self).spec_ssrc() == old(self).spec_ssrc(),
    {
        let mut i: usize = 0;
        while i < fragment.len()
            invariant
                i <= fragment@.len(),
                self@ == old(self)@ + fragment@.take(i as int),
                self.spec_ssrc() == old(self).spec_ssrc(),
            decreases fragment@.len() - i,
        {
            self.samples.push(fragment[i]);
            proof {
                assert(fragment@.take(i + 1) == fragment@.take(i as int).push(fragment@[i as int]));
            }
            i = i + 1;
        }
        proof {
            assert(fragment@.take(fragment@.len() as int) == fragment@);
        }
    }

    /// Appends exactly one fragment's worth of zero samples.
    pub fn append_silence(&mut self)
        ensures
            final(self)@ == old(self)@ + zero_samples(FRAGMENT_SAMPLES as nat),
            final(self).spec_ssrc() == old(self).spec_ssrc(),
    {
        let mut i: usize = 0;
        while i < FRAGMENT_SAMPLES
            invariant
                i <= FRAGMENT_SAMPLES,
                self@ == old(self)@ + zero_samples(i as nat),
                self.spec_ssrc() == old(self).spec_ssrc(),
            decreases FRAGMENT_SAMPLES - i,
        {
            self.samples.push(0i16);
            proof {
                assert(zero_samples((i + 1) as nat) == zero_samples(i as nat).push(0i16));
            }
            i = i + 1;
        }
    }
}

} // verus!
