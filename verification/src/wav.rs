//! RIFF/WAVE encoding of mono 16-bit PCM at the cue sample rate.
use vstd::prelude::*;
use crate::sine::SAMPLE_RATE;

verus! {

/// Size of the canonical PCM WAVE header, in bytes.
pub const WAV_HEADER_BYTES: usize = 44;

pub open spec fn le_u16(value: u16) -> Seq<u8> {
    seq![(value % 256) as u8, (value / 256) as u8]
}

pub open spec fn le_u32(value: u32) -> Seq<u8> {
    seq![
        (value % 256) as u8,
        ((value / 256) % 256) as u8,
        ((value / 65_536) % 256) as u8,
        (value / 16_777_216) as u8,
    ]
}

/// `"RIFF"`
pub open spec fn riff_tag() -> Seq<u8> {
    seq![82u8, 73u8, 70u8, 70u8]
}

/// `"WAVEfmt "`
pub open spec fn wave_fmt_tag() -> Seq<u8> {
    seq![87u8, 65u8, 86u8, 69u8, 102u8, 109u8, 116u8, 32u8]
}

/// `"data"`
pub open spec fn data_tag() -> Seq<u8> {
    seq![100u8, 97u8, 116u8, 97u8]
}

/// The PCM payload: each sample as two little-endian bytes.
pub open spec fn pcm_bytes(samples: Seq<i16>) -> Seq<u8>
    decreases samples.len(),
{
    if samples.len() == 0 {
        Seq::empty()
    } else {
        pcm_bytes(samples.drop_last()) + le_u16(samples.last() as u16)
    }
}

/// Byte size of the PCM payload as written into the header.
pub open spec fn pcm_data_size(samples: Seq<i16>) -> u32 {
    (2 * samples.len()) as u32
}

/// The header of a mono, 16-bit, 48 kHz PCM WAVE file with `data_size` payload bytes.
pub open spec fn wav_header(data_size: u32) -> Seq<u8> {
    riff_tag() + le_u32((36 + data_size) as u32) + wave_fmt_tag() + le_u32(16) + le_u16(1)
        + le_u16(1) + le_u32(48_000) + le_u32(96_000) + le_u16(2) + le_u16(16) + data_tag()
        + le_u32(data_size)
}

pub open spec fn spec_encode_pcm_wav(samples: Seq<i16>) -> Seq<u8> {
    wav_header(pcm_data_size(samples)) + pcm_bytes(samples)
}

/// Inputs whose RIFF size field (36 bytes plus the payload) fits its `u32`
/// field and whose file length fits the address space.
pub open spec fn encode_pcm_wav_defined(samples: Seq<i16>) -> bool {
    36 + 2 * samples.len() <= u32::MAX && 44 + 2 * samples.len() <= usize::MAX
}

pub proof fn lemma_pcm_bytes_len(samples: Seq<i16>)
    ensures
        pcm_bytes(samples).len() == 2 * samples.len(),
    decreases samples.len(),
{
    if samples.len() > 0 {
        lemma_pcm_bytes_len(samples.drop_last());
    }
}

/// The header is always 44 bytes, so the file is the header plus two bytes per sample.
pub proof fn lemma_wav_len(samples: Seq<i16>)
    ensures
        wav_header(pcm_data_size(samples)).len() == 44,
        spec_encode_pcm_wav(samples).len() == 44 + 2 * samples.len(),
{
    lemma_pcm_bytes_len(samples);
}

pub(crate) fn push_le_u16(bytes: &mut Vec<u8>, value: u16)
    ensures
        final(bytes)@ == old(bytes)@ + le_u16(value),
{
    bytes.push((value % 256) as u8);
    bytes.push((value / 256) as u8);
}

pub(crate) fn push_le_u32(bytes: &mut Vec<u8>, value: u32)
    ensures
        final(bytes)@ == old(bytes)@ + le_u32(value),
{
    bytes.push((value % 256) as u8);
    bytes.push(((value / 256) % 256) as u8);
    bytes.push(((value / 65_536) % 256) as u8);
    bytes.push((value / 16_777_216) as u8);
}

/// Encodes mono 16-bit samples as a complete RIFF/WAVE file image.
pub fn encode_pcm_wav(samples: &[i16]) -> (r: Vec<u8>)
    requires
        encode_pcm_wav_defined(samples@),
    ensures
        r@ == spec_encode_pcm_wav(samples@),
        r@.len() == WAV_HEADER_BYTES + 2 * samples@.len(),
{
    proof {
        lemma_wav_len(samples@);
    }
    let data_size: u32 = #[verifier::truncate] ((2 * samples.len() as u128) as u32);
    assert(data_size == pcm_data_size(samples@));
    let mut bytes: Vec<u8> = Vec::with_capacity(44 + data_size as usize);
    bytes.push(82);
    bytes.push(73);
    bytes.push(70);
    bytes.push(70);
    push_le_u32(&mut bytes, 36 + data_size);
    bytes.push(87);
    bytes.push(65);
    bytes.push(86);
    bytes.push(69);
    bytes.push(102);
    bytes.push(109);
    bytes.push(116);
    bytes.push(32);
    push_le_u32(&mut bytes, 16);
    push_le_u16(&mut bytes, 1);
    push_le_u16(&mut bytes, 1);
    push_le_u32(&mut bytes, SAMPLE_RATE);
    push_le_u32(&mut bytes, SAMPLE_RATE * 2);
    push_le_u16(&mut bytes, 2);
    push_le_u16(&mut bytes, 16);
    bytes.push(100);
    bytes.push(97);
    bytes.push(116);
    bytes.push(97);
    push_le_u32(&mut bytes, data_size);
    assert(bytes@ == wav_header(data_size));
    let mut index: usize = 0;
    while index < samples.len()
        invariant
            index <= samples@.len(),
            bytes@ == wav_header(data_size) + pcm_bytes(samples@.subrange(0, index as int)),
        decreases samples@.len() - index,
    {
        let ghost before = bytes@;
        push_le_u16(&mut bytes, #[verifier::truncate] (samples[index] as u16));
        proof {
            let prefix = samples@.subrange(0, index + 1);
            assert(prefix.drop_last() == samples@.subrange(0, index as int));
            assert(prefix.last() == samples@[index as int]);
        }
        index = index + 1;
    }
    assert(samples@.subrange(0, samples@.len() as int) == samples@);
    bytes
}

} // verus!

verus! {

/// Layout of every encoded file: the RIFF size field is the file length minus 8,
/// the format is PCM, mono, 48 kHz, 16-bit, and the data size field counts the payload.
pub proof fn lemma_encode_pcm_wav_layout(samples: Seq<i16>)
    requires
        36 + 2 * samples.len() <= u32::MAX,
    ensures
        ({
            let w = spec_encode_pcm_wav(samples);
            &&& w.len() == 44 + 2 * samples.len()
            &&& w.subrange(0, 4) == riff_tag()
            &&& w.subrange(4, 8) == le_u32((w.len() - 8) as u32)
            &&& w.subrange(8, 16) == wave_fmt_tag()
            &&& w.subrange(16, 20) == le_u32(16)
            &&& w.subrange(20, 22) == le_u16(1)
            &&& w.subrange(22, 24) == le_u16(1)
            &&& w.subrange(24, 28) == le_u32(48_000)
            &&& w.subrange(28, 32) == le_u32(96_000)
            &&& w.subrange(32, 34) == le_u16(2)
            &&& w.subrange(34, 36) == le_u16(16)
            &&& w.subrange(36, 40) == data_tag()
            &&& w.subrange(40, 44) == le_u32((2 * samples.len()) as u32)
            &&& w.subrange(44, w.len() as int) == pcm_bytes(samples)
        }),
{
    lemma_wav_len(samples);
    let w = spec_encode_pcm_wav(samples);
    let size = pcm_data_size(samples);
    assert(size == 2 * samples.len());
    assert(w.subrange(0, 4) =~= riff_tag());
    assert(w.subrange(4, 8) =~= le_u32((w.len() - 8) as u32));
    assert(w.subrange(8, 16) =~= wave_fmt_tag());
    assert(w.subrange(16, 20) =~= le_u32(16));
    assert(w.subrange(20, 22) =~= le_u16(1));
    assert(w.subrange(22, 24) =~= le_u16(1));
    assert(w.subrange(24, 28) =~= le_u32(48_000));
    assert(w.subrange(28, 32) =~= le_u32(96_000));
    assert(w.subrange(32, 34) =~= le_u16(2));
    assert(w.subrange(34, 36) =~= le_u16(16));
    assert(w.subrange(36, 40) =~= data_tag());
    assert(w.subrange(40, 44) =~= le_u32(size));
    assert(w.subrange(44, w.len() as int) =~= pcm_bytes(samples));
}

} // verus!
