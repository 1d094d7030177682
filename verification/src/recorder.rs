//! The recording writer's decision and framing logic: whether a taken
//! buffer deserves a file at all, and the exact bytes of the uncompressed
//! 32-bit float WAV container that holds it. Samples pass through as the
//! bit patterns the capture stream delivered; nothing here reinterprets
//! them. The caller only puts the finished bytes on disk.
use vstd::prelude::*;

use crate::capture::SampleBits;
use crate::capture::SaveRequest;

verus! {

/// Why a non-empty buffer could not be framed.
#[derive(Clone, Copy, PartialEq, Eq, Structural, Debug)]
pub enum RenderError {
    /// Channel count or sample rate of zero, or too large for the
    /// container's 16-bit block-align and 32-bit byte-rate fields.
    UnsupportedFormat,
    /// The buffer does not hold a whole number of frames.
    UnalignedBuffer,
    /// The sample data would overflow the container's 32-bit size fields.
    TooLong,
}

/// The two little-endian bytes of a 16-bit value.
pub open spec fn le16(x: int) -> Seq<u8>
    recommends
        0 <= x < 0x10000,
{
    seq![(x % 256) as u8, ((x / 256) % 256) as u8]
}

/// The four little-endian bytes of a 32-bit value.
pub open spec fn le32(x: int) -> Seq<u8>
    recommends
        0 <= x < 0x100000000,
{
    seq![
        (x % 256) as u8,
        ((x / 256) % 256) as u8,
        ((x / 0x10000) % 256) as u8,
        ((x / 0x1000000) % 256) as u8,
    ]
}

/// Each sample as its four little-endian bytes, in order.
pub open spec fn sample_bytes(samples: Seq<SampleBits>) -> Seq<u8>
    decreases samples.len(),
{
    if samples.len() == 0 {
        Seq::empty()
    } else {
        le32(samples[0] as int) + sample_bytes(samples.drop_first())
    }
}

/// A format and buffer the container can hold: at least one channel, whole
/// frames, and sizes within the container's 16- and 32-bit fields.
pub open spec fn encodable(len: nat, rate: u32, channels: u16) -> bool {
    &&& 1 <= channels
    &&& 1 <= rate
    &&& 4 * channels <= 0xFFFF
    &&& 4 * (rate as int) * (channels as int) <= 0xFFFFFFFF
    &&& len % (channels as nat) == 0
    &&& 4 * len + 44 <= 0xFFFFFFFF
}

/// The 44 header bytes: RIFF chunk, a 16-byte IEEE-float fmt chunk, and
/// the data chunk header.
pub open spec fn wav_header(len: nat, rate: u32, channels: u16) -> Seq<u8>
    recommends
        encodable(len, rate, channels),
{
    seq![0x52u8, 0x49u8, 0x46u8, 0x46u8]  /* RIFF */ + le32(36 + 4 * len as int) + seq![0x57u8, 0x41u8, 0x56u8, 0x45u8]  /* WAVE */ + seq![
        0x66u8,
        0x6du8,
        0x74u8,
        0x20u8,
    ] + le32(16)  // fmt chunk length
     + le16(3)  // IEEE float format tag
     + le16(channels as int) + le32(rate as int) + le32(
        4 * (rate as int) * (channels as int),
    )  // bytes per second
     + le16(4 * channels as int)  // frame size in bytes
     + le16(32)  // bits per sample
     + seq![0x64u8, 0x61u8, 0x74u8, 0x61u8]  /* data */ + le32(4 * len as int)
}

/// The whole file: header, then the samples.
pub open spec fn wav_bytes(samples: Seq<SampleBits>, rate: u32, channels: u16) -> Seq<u8>
    recommends
        encodable(samples.len(), rate, channels),
{
    wav_header(samples.len(), rate, channels) + sample_bytes(samples)
}

proof fn lemma_sample_bytes_snoc(samples: Seq<SampleBits>)
    requires
        samples.len() > 0,
    ensures
        sample_bytes(samples) == sample_bytes(samples.drop_last()) + le32(samples.last() as int),
    decreases samples.len(),
{
    if samples.len() == 1 {
        assert(samples.drop_last() =~= Seq::empty());
        assert(sample_bytes(samples.drop_first()) =~= Seq::empty());
        assert(sample_bytes(samples) =~= le32(samples.last() as int));
    } else {
        lemma_sample_bytes_snoc(samples.drop_first());
        assert(samples.drop_first().drop_last() =~= samples.drop_last().drop_first());
        assert(samples.drop_last().len() > 0);
        assert(sample_bytes(samples.drop_last()) == le32(samples.drop_last()[0] as int)
            + sample_bytes(samples.drop_last().drop_first()));
        assert(samples.drop_last()[0] == samples[0]);
        assert(sample_bytes(samples) =~= sample_bytes(samples.drop_last()) + le32(
            samples.last() as int,
        ));
    }
}

fn push_le16(out: &mut Vec<u8>, x: u16)
    ensures
        final(out)@ == old(out)@ + le16(x as int),
{
    out.push((x % 256) as u8);
    out.push((x / 256) as u8);
    proof {
        assert(out@ =~= old(out)@ + le16(x as int));
    }
}

fn push_le32(out: &mut Vec<u8>, x: u32)
    ensures
        final(out)@ == old(out)@ + le32(x as int),
{
    out.push((x % 256) as u8);
    out.push(((x / 256) % 256) as u8);
    out.push(((x / 0x10000) % 256) as u8);
    out.push((x / 0x1000000) as u8);
    proof {
        assert(x / 0x1000000 == (x / 0x1000000) % 256);
        assert(out@ =~= old(out)@ + le32(x as int));
    }
}

/// Frames samples as a 32-bit float WAV file.
pub fn encode_wav(samples: &Vec<SampleBits>, rate: u32, channels: u16) -> (bytes: Vec<u8>)
    requires
        encodable(samples@.len(), rate, channels),
    ensures
        bytes@ == wav_bytes(samples@, rate, channels),
{
    let data_len: u32 = 4 * (samples.len() as u32);
    let byte_rate_wide: u64 = 4u64 * (rate as u64) * (channels as u64);
    let byte_rate: u32 = byte_rate_wide as u32;
    let mut out: Vec<u8> = Vec::new();
    out.push(0x52u8);
    out.push(0x49u8);
    out.push(0x46u8);
    out.push(0x46u8);
    push_le32(&mut out, 36 + data_len);
    out.push(0x57u8);
    out.push(0x41u8);
    out.push(0x56u8);
    out.push(0x45u8);
    out.push(0x66u8);
    out.push(0x6du8);
    out.push(0x74u8);
    out.push(0x20u8);
    push_le32(&mut out, 16);
    push_le16(&mut out, 3);
    push_le16(&mut out, channels);
    push_le32(&mut out, rate);
    push_le32(&mut out, byte_rate);
    push_le16(&mut out, 4 * channels);
    push_le16(&mut out, 32);
    out.push(0x64u8);
    out.push(0x61u8);
    out.push(0x74u8);
    out.push(0x61u8);
    push_le32(&mut out, data_len);
    proof {
        assert(out@ =~= wav_header(samples@.len(), rate, channels));
    }
    let mut i: usize = 0;
    while i < samples.len()
        invariant
            0 <= i <= samples@.len(),
            encodable(samples@.len(), rate, channels),
            out@ == wav_header(samples@.len(), rate, channels) + sample_bytes(
                samples@.take(i as int),
            ),
        decreases samples@.len() - i,
    {
        push_le32(&mut out, samples[i]);
        proof {
            lemma_sample_bytes_snoc(samples@.take(i + 1));
            assert(samples@.take(i + 1).drop_last() =~= samples@.take(i as int));
            assert(out@ =~= wav_header(samples@.len(), rate, channels) + sample_bytes(
                samples@.take(i + 1),
            ));
        }
        i = i + 1;
    }
    proof {
        assert(samples@.take(samples@.len() as int) =~= samples@);
    }
    out
}

proof fn lemma_sample_bytes_len(samples: Seq<SampleBits>)
    ensures
        sample_bytes(samples).len() == 4 * samples.len(),
    decreases samples.len(),
{
    if samples.len() > 0 {
        lemma_sample_bytes_len(samples.drop_first());
    }
}

proof fn lemma_le16_value(x: int)
    requires
        0 <= x < 0x10000,
    ensures
        le16(x)[0] + 0x100 * le16(x)[1] == x,
{
    vstd::arithmetic::div_mod::lemma_fundamental_div_mod(x, 256);
    vstd::arithmetic::div_mod::lemma_mod_division_less_than_divisor(x, 256);
    let q1 = x / 256;
    assert(0 <= q1 < 256);
    vstd::arithmetic::div_mod::lemma_small_mod(q1 as nat, 256);
}

proof fn lemma_le32_value(x: int)
    requires
        0 <= x < 0x100000000,
    ensures
        le32(x)[0] + 0x100 * le32(x)[1] + 0x10000 * le32(x)[2] + 0x1000000 * le32(x)[3] == x,
{
    let q1 = x / 256;
    let q2 = x / 0x10000;
    let q3 = x / 0x1000000;
    vstd::arithmetic::div_mod::lemma_fundamental_div_mod(x, 256);
    vstd::arithmetic::div_mod::lemma_mod_division_less_than_divisor(x, 256);
    assert(0 <= q1);
    vstd::arithmetic::div_mod::lemma_fundamental_div_mod(q1, 256);
    vstd::arithmetic::div_mod::lemma_mod_division_less_than_divisor(q1, 256);
    vstd::arithmetic::div_mod::lemma_div_denominator(x, 256, 256);
    assert(q1 / 256 == q2);
    assert(0 <= q2);
    vstd::arithmetic::div_mod::lemma_fundamental_div_mod(q2, 256);
    vstd::arithmetic::div_mod::lemma_mod_division_less_than_divisor(q2, 256);
    vstd::arithmetic::div_mod::lemma_div_denominator(x, 0x10000, 256);
    assert(q2 / 256 == q3);
    vstd::arithmetic::div_mod::lemma_fundamental_div_mod(x, 0x1000000);
    vstd::arithmetic::div_mod::lemma_mod_division_less_than_divisor(x, 0x1000000);
    assert(0 <= q3 < 256);
    vstd::arithmetic::div_mod::lemma_small_mod(q3 as nat, 256);
}

/// The 32-bit value stored little-endian at group `i` of a raw byte
/// buffer.
pub open spec fn le_u32_at(b: Seq<u8>, i: int) -> u32
    recommends
        0 <= i,
        4 * i + 3 < b.len(),
{
    (b[4 * i] + 256 * b[4 * i + 1] + 0x10000 * b[4 * i + 2] + 0x1000000 * b[4 * i + 3]) as u32
}

/// The whole sample bit patterns held in a raw byte buffer, groups of
/// four little-endian bytes each; a trailing partial group carries no
/// sample and is dropped.
pub open spec fn le_samples(b: Seq<u8>) -> Seq<SampleBits> {
    Seq::new((b.len() / 4) as nat, |i: int| le_u32_at(b, i))
}

/// Turns the raw bytes one stream delivery carries into sample bit
/// patterns, exactly as they will be framed later: four little-endian
/// bytes per sample.
pub fn samples_from_le_bytes(bytes: &Vec<u8>) -> (samples: Vec<SampleBits>)
    ensures
        samples@ == le_samples(bytes@),
{
    let n = bytes.len() / 4;
    proof {
        vstd::arithmetic::div_mod::lemma_fundamental_div_mod(bytes@.len() as int, 4);
        vstd::arithmetic::div_mod::lemma_mod_division_less_than_divisor(bytes@.len() as int, 4);
    }
    let mut samples: Vec<SampleBits> = Vec::new();
    let mut i: usize = 0;
    while i < n
        invariant
            0 <= i <= n,
            n == bytes@.len() / 4,
            4 * n <= bytes@.len(),
            bytes@.len() <= usize::MAX,
            samples@.len() == i,
            forall|j: int| 0 <= j < i ==> samples@[j] == le_u32_at(bytes@, j),
        decreases n - i,
    {
        let b0 = bytes[4 * i] as u32;
        let b1 = bytes[4 * i + 1] as u32;
        let b2 = bytes[4 * i + 2] as u32;
        let b3 = bytes[4 * i + 3] as u32;
        let s: u32 = b0 + 256 * b1 + 0x10000 * b2 + 0x1000000 * b3;
        samples.push(s);
        i = i + 1;
    }
    proof {
        assert(samples@ =~= le_samples(bytes@));
    }
    samples
}

/// Decides and performs the framing for a taken buffer: an empty buffer
/// earns no file at all, a sound one earns exactly the WAV bytes for the
/// negotiated format, and the rest are refused with the reason.
/// True exactly when the format fits the container's header fields.
fn format_encodable(rate: u32, channels: u16) -> (b: bool)
    ensures
        b <==> (1 <= channels && 1 <= rate && 4 * channels <= 0xFFFF && 4 * (rate as int) * (
        channels as int) <= 0xFFFFFFFF),
{
    if channels == 0 || rate == 0 {
        return false;
    }
    if channels > 0x3FFF {
        return false;
    }
    proof {
        assert((rate as int) * (channels as int) <= 0xFFFFFFFFint * 0x3FFF) by (nonlinear_arith)
            requires
                rate <= 0xFFFFFFFFu32,
                channels <= 0x3FFFu16,
        ;
        assert(4 * (rate as int) * (channels as int) == 4 * ((rate as int) * (channels as int)))
            by (nonlinear_arith);
    }
    let prod: u64 = (rate as u64) * (channels as u64);
    prod <= 0xFFFFFFFFu64 / 4
}

#[verifier::rlimit(100)]
pub fn render_recording(save: &SaveRequest) -> (r: Result<Option<Vec<u8>>, RenderError>)
    ensures
        save@.samples.len() == 0 <==> r == Result::<Option<Vec<u8>>, RenderError>::Ok(
            Option::<Vec<u8>>::None,
        ),
        (r matches Ok(Some(bytes)) ==> bytes@ == wav_bytes(
            save@.samples,
            save@.format.sample_rate,
            save@.format.channel_count,
        )),
        (save@.samples.len() > 0 && encodable(
            save@.samples.len(),
            save@.format.sample_rate,
            save@.format.channel_count,
        ) ==> r matches Ok(Some(bytes))),
        (r matches Err(e) ==> save@.samples.len() > 0 && !encodable(
            save@.samples.len(),
            save@.format.sample_rate,
            save@.format.channel_count,
        )),
{
    let channels = save.format.channel_count;
    let rate = save.format.sample_rate;
    if save.samples.len() == 0 {
        return Ok(None);
    }
    if !format_encodable(rate, channels) {
        return Err(RenderError::UnsupportedFormat);
    }
    if save.samples.len() % (channels as usize) != 0 {
        return Err(RenderError::UnalignedBuffer);
    }
    if (save.samples.len() as u64) > (0xFFFFFFFFu64 - 44) / 4 {
        return Err(RenderError::TooLong);
    }
    Ok(Some(encode_wav(&save.samples, rate, channels)))
}

/// Reading the data section back: every four-byte group is the sample it
/// was framed from.
proof fn lemma_le_samples_of_sample_bytes(samples: Seq<SampleBits>)
    ensures
        le_samples(sample_bytes(samples)) == samples,
    decreases samples.len(),
{
    lemma_sample_bytes_len(samples);
    let b = sample_bytes(samples);
    if samples.len() == 0 {
        assert(le_samples(b) =~= samples);
    } else {
        let first = samples[0];
        let rest = sample_bytes(samples.drop_first());
        lemma_le_samples_of_sample_bytes(samples.drop_first());
        lemma_sample_bytes_len(samples.drop_first());
        assert(b == le32(first as int) + rest);
        lemma_le32_value(first as int);
        assert(le_u32_at(b, 0) == first);
        assert forall|i: int| 1 <= i < samples.len() implies le_u32_at(b, i) == samples[i] by {
            assert(b[4 * i] == rest[4 * (i - 1)]);
            assert(b[4 * i + 1] == rest[4 * (i - 1) + 1]);
            assert(b[4 * i + 2] == rest[4 * (i - 1) + 2]);
            assert(b[4 * i + 3] == rest[4 * (i - 1) + 3]);
            assert(le_u32_at(b, i) == le_u32_at(rest, i - 1));
            assert(le_samples(rest)[i - 1] == le_u32_at(rest, i - 1));
            assert(le_samples(rest)[i - 1] == samples.drop_first()[i - 1]);
        }
        vstd::arithmetic::div_mod::lemma_div_by_multiple(samples.len() as int, 4);
        assert(b.len() / 4 == samples.len());
        assert(le_samples(b) =~= samples);
    }
}

/// The 16-bit value stored little-endian at `off`.
pub open spec fn le16_at(b: Seq<u8>, off: int) -> int
    recommends
        0 <= off,
        off + 1 < b.len(),
{
    b[off] + 0x100 * b[off + 1]
}

/// The 32-bit value stored little-endian at `off`.
pub open spec fn le32_at(b: Seq<u8>, off: int) -> int
    recommends
        0 <= off,
        off + 3 < b.len(),
{
    b[off] + 0x100 * b[off + 1] + 0x10000 * b[off + 2] + 0x1000000 * b[off + 3]
}

/// What a WAV file of this module's form decodes to: the header fields
/// are checked against each other, and the data chunk's four-byte groups
/// are the samples. Anything else decodes to nothing.
pub open spec fn parsed_wav(b: Seq<u8>) -> Option<(Seq<SampleBits>, u32, u16)> {
    let channels = le16_at(b, 22);
    let rate = le32_at(b, 24);
    let dlen = le32_at(b, 40);
    if b.len() >= 44
        && b.subrange(0, 4) == seq![0x52u8, 0x49u8, 0x46u8, 0x46u8]  /* RIFF */
        && le32_at(b, 4) == b.len() - 8
        && b.subrange(8, 12) == seq![0x57u8, 0x41u8, 0x56u8, 0x45u8]  /* WAVE */
        && b.subrange(12, 16) == seq![0x66u8, 0x6du8, 0x74u8, 0x20u8]  /* fmt */
        && le32_at(b, 16) == 16
        && le16_at(b, 20) == 3
        && le32_at(b, 28) == 4 * rate * channels
        && le16_at(b, 32) == 4 * channels
        && le16_at(b, 34) == 32
        && b.subrange(36, 40) == seq![0x64u8, 0x61u8, 0x74u8, 0x61u8]  /* data */
        && dlen == b.len() - 44
        && dlen % 4 == 0
        && 1 <= channels
        && 1 <= rate
        && (dlen / 4) % channels == 0 {
        Some((le_samples(b.skip(44)), rate as u32, channels as u16))
    } else {
        None
    }
}

/// Law: a file framed from a buffer decodes back to the same sample
/// sequence, sample rate and channel count.
#[verifier::rlimit(100)]
pub proof fn lemma_wav_round_trip(samples: Seq<SampleBits>, rate: u32, channels: u16)
    requires
        encodable(samples.len(), rate, channels),
    ensures
        parsed_wav(wav_bytes(samples, rate, channels)) == Some(
            (samples, rate, channels),
        ),
{
    let len = samples.len();
    let b = wav_bytes(samples, rate, channels);
    let h = wav_header(len, rate, channels);
    lemma_sample_bytes_len(samples);
    assert(h.len() == 44);
    assert(b.len() == 44 + 4 * len);

    assert(b.subrange(0, 4) =~= seq![0x52u8, 0x49u8, 0x46u8, 0x46u8]);
    assert(b.subrange(4, 8) =~= le32(36 + 4 * len as int));
    assert(b.subrange(8, 12) =~= seq![0x57u8, 0x41u8, 0x56u8, 0x45u8]);
    assert(b.subrange(12, 16) =~= seq![0x66u8, 0x6du8, 0x74u8, 0x20u8]);
    assert(b.subrange(16, 20) =~= le32(16));
    assert(b.subrange(20, 22) =~= le16(3));
    assert(b.subrange(22, 24) =~= le16(channels as int));
    assert(b.subrange(24, 28) =~= le32(rate as int));
    assert(b.subrange(28, 32) =~= le32(4 * (rate as int) * (channels as int)));
    assert(b.subrange(32, 34) =~= le16(4 * channels as int));
    assert(b.subrange(34, 36) =~= le16(32));
    assert(b.subrange(36, 40) =~= seq![0x64u8, 0x61u8, 0x74u8, 0x61u8]);
    assert(b.subrange(40, 44) =~= le32(4 * len as int));

    lemma_le32_value(36 + 4 * len as int);
    assert(le32_at(b, 4) == b.len() - 8);
    lemma_le32_value(16);
    assert(le32_at(b, 16) == 16);
    lemma_le16_value(3);
    assert(le16_at(b, 20) == 3);
    lemma_le16_value(channels as int);
    assert(le16_at(b, 22) == channels);
    lemma_le32_value(rate as int);
    assert(le32_at(b, 24) == rate);
    lemma_le32_value(4 * (rate as int) * (channels as int));
    assert(le32_at(b, 28) == 4 * (rate as int) * (channels as int));
    lemma_le16_value(4 * channels as int);
    assert(le16_at(b, 32) == 4 * channels);
    lemma_le16_value(32);
    assert(le16_at(b, 34) == 32);
    lemma_le32_value(4 * len as int);
    assert(le32_at(b, 40) == 4 * len);

    vstd::arithmetic::div_mod::lemma_mod_multiples_basic(len as int, 4);
    assert((4 * len as int) % 4 == 0);
    vstd::arithmetic::div_mod::lemma_div_by_multiple(len as int, 4);
    assert((4 * len as int) / 4 == len);
    assert((len as int) % (channels as int) == 0);

    assert(b.skip(44) =~= sample_bytes(samples));
    lemma_le_samples_of_sample_bytes(samples);
    assert(le_samples(b.skip(44)) == samples);
    assert(((rate as int) as u32) == rate);
    assert(((channels as int) as u16) == channels);
}

} // verus!
