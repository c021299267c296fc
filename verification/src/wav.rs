//! The on-disk audio format: a RIFF/WAVE image with a 44-byte header
//! declaring 48 kHz, 16-bit signed, 2-channel PCM, followed by the raw
//! little-endian samples.  Any audio tool reading this format recovers the
//! exact sample values.

use vstd::prelude::*;

verus! {

pub const CHANNELS: u16 = 2;

pub const SAMPLE_RATE: u32 = 48000;

pub const BITS_PER_SAMPLE: u16 = 16;

/// Bytes consumed per second of audio: rate times channels times two bytes.
pub const BYTE_RATE: u32 = 192000;

/// Bytes per frame across both channels.
pub const BLOCK_ALIGN: u16 = 4;

/// The largest sample count whose RIFF chunk sizes still fit in 32 bits.
pub const MAX_WAV_SAMPLES: usize = 2147483629;

/// A 16-bit value as two little-endian bytes.
pub open spec fn le16(x: u16) -> Seq<u8> {
    seq![(x & 0xff) as u8, ((x >> 8) & 0xff) as u8]
}

/// A 32-bit value as four little-endian bytes.
pub open spec fn le32(x: u32) -> Seq<u8> {
    seq![
        (x & 0xff) as u8,
        ((x >> 8) & 0xff) as u8,
        ((x >> 16) & 0xff) as u8,
        ((x >> 24) & 0xff) as u8,
    ]
}

/// Each sample as two little-endian bytes, in sample order.
pub open spec fn sample_bytes(s: Seq<i16>) -> Seq<u8>
    decreases s.len(),
{
    if s.len() == 0 {
        Seq::empty()
    } else {
        sample_bytes(s.drop_last()) + le16(s.last() as u16)
    }
}

/// The 44-byte header for a data chunk of `n` samples: the RIFF chunk tag
/// and size, the WAVE form tag, the PCM format chunk, and the data chunk
/// tag and size.
pub open spec fn wav_header(n: int) -> Seq<u8> {
    seq![0x52u8, 0x49u8, 0x46u8, 0x46u8] + le32((36 + 2 * n) as u32)
        + seq![0x57u8, 0x41u8, 0x56u8, 0x45u8]
        + seq![0x66u8, 0x6du8, 0x74u8, 0x20u8] + le32(16) + le16(1) + le16(CHANNELS)
        + le32(SAMPLE_RATE) + le32(BYTE_RATE) + le16(BLOCK_ALIGN) + le16(BITS_PER_SAMPLE)
        + seq![0x64u8, 0x61u8, 0x74u8, 0x61u8] + le32((2 * n) as u32)
}

/// The complete file image for a track holding the samples `s`.
pub open spec fn wav_bytes(s: Seq<i16>) -> Seq<u8> {
    wav_header(s.len() as int) + sample_bytes(s)
}

pub proof fn lemma_sample_bytes_len(s: Seq<i16>)
    ensures
        sample_bytes(s).len() == 2 * s.len(),
    decreases s.len(),
{
    if s.len() > 0 {
        lemma_sample_bytes_len(s.drop_last());
    }
}

proof fn lemma_sample_bytes_snoc(s: Seq<i16>, i: int)
    requires
        0 <= i < s.len(),
    ensures
        sample_bytes(s.take(i + 1)) == sample_bytes(s.take(i)) + le16(s[i] as u16),
{
    let t = s.take(i + 1);
    assert(t.drop_last() =~= s.take(i));
    assert(t.last() == s[i]);
}

/// A track too long for its chunk sizes to fit the 32-bit RIFF fields.
#[derive(Clone, Copy, Debug, PartialEq, Eq, Structural)]
pub enum EncodeError {
    TooManySamples,
}

fn push_le16(out: &mut Vec<u8>, x: u16)
    ensures
        final(out)@ == old(out)@ + le16(x),
{
    proof {
        assert((x & 0xff) < 256 && ((x >> 8) & 0xff) < 256) by (bit_vector);
    }
    out.push((x & 0xff) as u8);
    out.push(((x >> 8) & 0xff) as u8);
    assert(out@ =~= old(out)@ + le16(x));
}

fn push_le32(out: &mut Vec<u8>, x: u32)
    ensures
        final(out)@ == old(out)@ + le32(x),
{
    proof {
        assert((x & 0xff) < 256 && ((x >> 8) & 0xff) < 256 && ((x >> 16) & 0xff) < 256 && ((x
            >> 24) & 0xff) < 256) by (bit_vector);
    }
    out.push((x & 0xff) as u8);
    out.push(((x >> 8) & 0xff) as u8);
    out.push(((x >> 16) & 0xff) as u8);
    out.push(((x >> 24) & 0xff) as u8);
    assert(out@ =~= old(out)@ + le32(x));
}

/// Renders the complete WAV file image for the given samples, or reports
/// that the track has outgrown the 32-bit chunk sizes.
pub fn encode_wav(samples: &Vec<i16>) -> (r: Result<Vec<u8>, EncodeError>)
    ensures
        samples@.len() <= MAX_WAV_SAMPLES ==> (r matches Ok(b) && b@ == wav_bytes(samples@)),
        samples@.len() > MAX_WAV_SAMPLES ==> r == Err::<Vec<u8>, EncodeError>(
            EncodeError::TooManySamples,
        ),
{
    if samples.len() > MAX_WAV_SAMPLES {
        return Err(EncodeError::TooManySamples);
    }
    let n: u32 = samples.len() as u32;
    let mut out: Vec<u8> = Vec::new();
    out.push(0x52);
    out.push(0x49);
    out.push(0x46);
    out.push(0x46);
    push_le32(&mut out, 36 + 2 * n);
    out.push(0x57);
    out.push(0x41);
    out.push(0x56);
    out.push(0x45);
    out.push(0x66);
    out.push(0x6d);
    out.push(0x74);
    out.push(0x20);
    push_le32(&mut out, 16);
    push_le16(&mut out, 1);
    push_le16(&mut out, CHANNELS);
    push_le32(&mut out, SAMPLE_RATE);
    push_le32(&mut out, BYTE_RATE);
    push_le16(&mut out, BLOCK_ALIGN);
    push_le16(&mut out, BITS_PER_SAMPLE);
    out.push(0x64);
    out.push(0x61);
    out.push(0x74);
    out.push(0x61);
    push_le32(&mut out, 2 * n);
    assert(out@ =~= wav_header(samples@.len() as int));
    let ghost header = out@;
    let mut i: usize = 0;
    while i < samples.len()
        invariant
            i <= samples@.len(),
            out@ == header + sample_bytes(samples@.take(i as int)),
            header == wav_header(samples@.len() as int),
        decreases samples@.len() - i,
    {
        push_le16(&mut out, #[verifier::truncate] (samples[i] as u16));
        proof {
            lemma_sample_bytes_snoc(samples@, i as int);
        }
        i = i + 1;
    }
    proof {
        assert(samples@.take(samples@.len() as int) == samples@);
    }
    Ok(out)
}

} // verus!
