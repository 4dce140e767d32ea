use vstd::prelude::*;

verus! {

/// Samples per second of every sound effect.
pub const SAMPLE_RATE: u32 = 22050;

/// Little-endian bytes of a 32-bit value.
pub open spec fn le32(v: u32) -> Seq<u8> {
    seq![
        (v % 0x100) as u8,
        ((v / 0x100) % 0x100) as u8,
        ((v / 0x1_0000) % 0x100) as u8,
        (v / 0x100_0000) as u8,
    ]
}

/// Little-endian bytes of a 16-bit value.
pub open spec fn le16(v: u16) -> Seq<u8> {
    seq![(v % 0x100) as u8, (v / 0x100) as u8]
}

/// The ASCII bytes of a four-letter chunk tag.
pub open spec fn tag(a: char, b: char, c: char, d: char) -> Seq<u8> {
    seq![a as u8, b as u8, c as u8, d as u8]
}

/// Size of the sample data in bytes, as the header records it (two bytes per
/// sample, kept to 32 bits).
pub open spec fn data_size(n: nat) -> u32 {
    ((2 * n) % 0x1_0000_0000) as u32
}

/// The 44-byte header of a mono 16-bit PCM WAV file holding `n` samples.
pub open spec fn wav_header(n: nat) -> Seq<u8> {
    tag('R', 'I', 'F', 'F') + le32((36 + data_size(n)) as u32) + tag('W', 'A', 'V', 'E') + tag('f', 'm', 't', ' ')
        + le32(16) + le16(1) + le16(1) + le32(SAMPLE_RATE) + le32((SAMPLE_RATE * 2) as u32) + le16(2) + le16(16) + tag(
        'd',
        'a',
        't',
        'a',
    ) + le32(data_size(n))
}

/// The sample data: each sample as two's-complement little-endian bytes.
pub open spec fn pcm_data(samples: Seq<i16>) -> Seq<u8> {
    Seq::new(
        2 * samples.len(),
        |k: int|
            if k % 2 == 0 {
                le16(samples[k / 2] as u16)[0]
            } else {
                le16(samples[k / 2] as u16)[1]
            },
    )
}

fn push_u32(out: &mut Vec<u8>, v: u32)
    ensures
        final(out)@ == old(out)@ + le32(v),
{
    out.push((v % 0x100) as u8);
    out.push(((v / 0x100) % 0x100) as u8);
    out.push(((v / 0x1_0000) % 0x100) as u8);
    out.push((v / 0x100_0000) as u8);
    assert(out@ =~= old(out)@ + le32(v));
}

fn push_u16(out: &mut Vec<u8>, v: u16)
    ensures
        final(out)@ == old(out)@ + le16(v),
{
    out.push((v % 0x100) as u8);
    out.push((v / 0x100) as u8);
    assert(out@ =~= old(out)@ + le16(v));
}

fn push_tag(out: &mut Vec<u8>, a: char, b: char, c: char, d: char)
    requires
        (a as u32) < 0x80 && (b as u32) < 0x80 && (c as u32) < 0x80 && (d as u32) < 0x80,
    ensures
        final(out)@ == old(out)@ + tag(a, b, c, d),
{
    out.push(a as u8);
    out.push(b as u8);
    out.push(c as u8);
    out.push(d as u8);
    assert(out@ =~= old(out)@ + tag(a, b, c, d));
}

/// The header of a WAV file holding `n` samples.
fn push_header(wav: &mut Vec<u8>, n: usize)
    requires
        old(wav)@.len() == 0,
        2 * n <= usize::MAX,
        36 + data_size(n as nat) <= u32::MAX,
    ensures
        final(wav)@ == wav_header(n as nat),
{
    let size = ((n as u64 * 2) % 0x1_0000_0000) as u32;  // 16-bit = 2 bytes per sample
    let file_size = 36 + size;
    // RIFF header
    push_tag(wav, 'R', 'I', 'F', 'F');
    push_u32(wav, file_size);
    push_tag(wav, 'W', 'A', 'V', 'E');
    let ghost riff = wav@;
    // fmt chunk
    push_tag(wav, 'f', 'm', 't', ' ');
    push_u32(wav, 16);  // chunk size
    push_u16(wav, 1);  // PCM format
    push_u16(wav, 1);  // mono
    let ghost fmt1 = wav@;
    push_u32(wav, SAMPLE_RATE);  // sample rate
    push_u32(wav, SAMPLE_RATE * 2);  // byte rate
    push_u16(wav, 2);  // block align
    push_u16(wav, 16);  // bits per sample
    let ghost fmt2 = wav@;
    // data chunk
    push_tag(wav, 'd', 'a', 't', 'a');
    push_u32(wav, size);
    assert(riff == tag('R', 'I', 'F', 'F') + le32((36 + data_size(n as nat)) as u32) + tag('W', 'A', 'V', 'E'));
    assert(wav@ =~= wav_header(n as nat));
}

/// Generate a WAV file (mono, 16-bit PCM) from samples.
pub fn samples_to_wav(samples: &[i16]) -> (r: Vec<u8>)
    requires
        2 * samples@.len() <= usize::MAX,
        36 + data_size(samples@.len()) <= u32::MAX,
    ensures
        r@ == wav_header(samples@.len()) + pcm_data(samples@),
{
    let num_samples = samples.len();
    let mut wav: Vec<u8> = Vec::new();
    push_header(&mut wav, num_samples);
    let ghost header = wav@;
    let mut i: usize = 0;
    while i < num_samples
        invariant
            num_samples == samples@.len(),
            header == wav_header(samples@.len()),
            i <= num_samples,
            wav@ == header + pcm_data(samples@.subrange(0, i as int)),
        decreases num_samples - i,
    {
        push_u16(&mut wav, samples[i] as u16);
        assert(pcm_data(samples@.subrange(0, i + 1)) =~= pcm_data(samples@.subrange(0, i as int)) + le16(
            samples@[i as int] as u16,
        ));
        i = i + 1;
    }
    assert(samples@.subrange(0, num_samples as int) =~= samples@);
    wav
}

} // verus!
