//! Sixteen-bit audio as bytes: raw PCM, WAV files and their base64 form.
use vstd::prelude::*;
use crate::text::concat;

verus! {

/// The low byte of a sample in two's complement.
pub open spec fn low_byte(sample: i16) -> u8 {
    ((sample + 65536) % 256) as u8
}

/// The high byte of a sample in two's complement.
pub open spec fn high_byte(sample: i16) -> u8 {
    (((sample + 65536) % 65536) / 256) as u8
}

/// The samples as little-endian bytes.
pub open spec fn pcm(samples: Seq<i16>) -> Seq<u8> {
    Seq::new(
        2 * samples.len(),
        |i: int|
            if i % 2 == 0 {
                low_byte(samples[i / 2])
            } else {
                high_byte(samples[i / 2])
            },
    )
}

/// The samples as little-endian bytes.
pub fn pcm_bytes(samples: &[i16]) -> (r: Vec<u8>)
    ensures
        r@ == pcm(samples@),
{
    let mut out: Vec<u8> = Vec::new();
    let mut i: usize = 0;
    while i < samples.len()
        invariant
            i <= samples.len(),
            out@ == pcm(samples@.take(i as int)),
        decreases samples.len() - i,
    {
        let sample: i32 = samples[i] as i32;
        let word: u32 = if sample < 0 {
            (sample + 65536) as u32
        } else {
            sample as u32
        };
        out.push((word % 256) as u8);
        out.push((word / 256) as u8);
        proof {
            let s = samples@[i as int];
            assert((word % 256) as u8 == low_byte(s));
            assert((word / 256) as u8 == high_byte(s));
            let before = samples@.take(i as int);
            let after = samples@.take(i + 1);
            assert forall|k: int| 0 <= k < 2 * i implies pcm(before)[k] == #[trigger] pcm(after)[k] by {
                assert(before[k / 2] == after[k / 2]);
            }
            assert(after[i as int] == s);
            assert(out@ =~= pcm(after));
        }
        i += 1;
    }
    proof {
        assert(samples@.take(samples@.len() as int) =~= samples@);
    }
    out
}

/// A number as two little-endian bytes.
pub open spec fn le2(n: int) -> Seq<u8> {
    seq![(n % 256) as u8, (n / 256 % 256) as u8]
}

/// A number as four little-endian bytes.
pub open spec fn le4(n: int) -> Seq<u8> {
    seq![
        (n % 256) as u8,
        (n / 256 % 256) as u8,
        (n / 65536 % 256) as u8,
        (n / 16777216 % 256) as u8,
    ]
}

/// Channels of a recording.
pub const CHANNELS: u16 = 1;

/// Bits of a sample.
pub const BITS_PER_SAMPLE: u16 = 16;

/// Bytes of a WAV file before its samples.
pub const WAV_HEADER: usize = 44;

/// The header of a WAV file of integer samples whose data takes `size` bytes.
pub open spec fn wav_header(size: int, channels: int, sample_rate: int, bits: int) -> Seq<u8> {
    // "RIFF", then the size of what follows, then "WAVE"
    seq![0x52u8, 0x49, 0x46, 0x46] + le4(36 + size) + seq![0x57u8, 0x41, 0x56, 0x45]
        // "fmt ": sixteen bytes, integer PCM
         + seq![0x66u8, 0x6d, 0x74, 0x20] + le4(16) + le2(1) + le2(channels) + le4(sample_rate)
        + le4(sample_rate * (bits / 8) * channels) + le2(bits / 8 * channels) + le2(bits)
        // "data", then its size
         + seq![0x64u8, 0x61, 0x74, 0x61] + le4(size)
}

/// A mono sixteen-bit WAV file.
pub open spec fn wav_file(samples: Seq<i16>, sample_rate: int) -> Seq<u8> {
    wav_header(2 * samples.len() as int, CHANNELS as int, sample_rate, BITS_PER_SAMPLE as int) + pcm(
        samples,
    )
}

/// At which step a WAV file could not be written, and why.
#[derive(Debug)]
pub enum WavError {
    Start(String),
    Sample(String),
    Finish(String),
}

/// What is reported when a WAV file could not be written.
pub open spec fn wav_error_text(error: WavError) -> Seq<char> {
    match error {
        WavError::Start(why) => "Failed to start WAV encoding: "@ + why@,
        WavError::Sample(why) => "Failed to encode WAV sample: "@ + why@,
        WavError::Finish(why) => "Failed to finalize WAV encoding: "@ + why@,
    }
}

impl WavError {
    /// What is reported when a WAV file could not be written.
    pub fn message(&self) -> (r: String)
        ensures
            r@ == wav_error_text(*self),
    {
        match self {
            WavError::Start(why) => concat("Failed to start WAV encoding: ", why.as_str()),
            WavError::Sample(why) => concat("Failed to encode WAV sample: ", why.as_str()),
            WavError::Finish(why) => concat("Failed to finalize WAV encoding: ", why.as_str()),
        }
    }
}

/// Writes a WAV file into memory with `hound::WavWriter`: `new`, `write_sample` for each sample in
/// order, `finalize`. The contract claims that this succeeds and that what comes out is exactly the
/// file, the header and the samples: with one or two channels, sixteen bits and whole frames `hound`
/// refuses nothing itself, and a buffer in memory takes whatever is written to it. The bounds keep
/// `hound`'s arithmetic within `u32`, its divisor from zero, and the buffer within `capacity`, so
/// that it never grows.
#[verifier::external_body]
fn write_wav(
    samples: &[i16],
    channels: u16,
    sample_rate: u32,
    bits_per_sample: u16,
    capacity: usize,
) -> (r: Result<Vec<u8>, WavError>)
    requires
        channels == 1 || channels == 2,
        samples@.len() % (channels as nat) == 0,
        bits_per_sample == 16,
        0 < sample_rate,
        2 * sample_rate * channels <= u32::MAX,
        2 * samples@.len() + 36 <= u32::MAX,
        44 + 2 * samples@.len() <= capacity <= isize::MAX,
    ensures
        match r {
            Ok(bytes) => bytes@ == wav_header(
                2 * samples@.len() as int,
                channels as int,
                sample_rate as int,
                bits_per_sample as int,
            ) + pcm(samples@),
            Err(_) => false,
        },
{
    let sample_format = hound::SampleFormat::Int;
    let spec = hound::WavSpec { channels, sample_rate, bits_per_sample, sample_format };
    let mut buffer = std::io::Cursor::new(Vec::with_capacity(capacity));
    let started = hound::WavWriter::new(&mut buffer, spec);
    let mut writer = started.map_err(|e| WavError::Start(e.to_string()))?;
    for sample in samples {
        writer.write_sample(*sample).map_err(|e| WavError::Sample(e.to_string()))?;
    }
    writer.finalize().map_err(|e| WavError::Finish(e.to_string()))?;
    Ok(buffer.into_inner())
}

/// Writes a mono sixteen-bit WAV file into memory.
pub fn encode_wav(samples: &[i16], sample_rate: u32) -> (r: Result<Vec<u8>, WavError>)
    requires
        0 < sample_rate,
        2 * sample_rate <= u32::MAX,
        2 * samples@.len() + 36 <= u32::MAX,
        44 + 2 * samples@.len() <= isize::MAX,
    ensures
        match r {
            Ok(bytes) => bytes@ == wav_file(samples@, sample_rate as int),
            Err(_) => false,
        },
{
    let capacity: usize = samples.len() * 2 + WAV_HEADER;
    write_wav(samples, CHANNELS, sample_rate, BITS_PER_SAMPLE, capacity)
}

/// The base64 letter for a six-bit number, in the standard alphabet.
pub open spec fn base64_letter(n: int) -> char {
    if n < 26 {
        ('A' as int + n) as char
    } else if n < 52 {
        ('a' as int + (n - 26)) as char
    } else if n < 62 {
        ('0' as int + (n - 52)) as char
    } else if n == 62 {
        '+'
    } else {
        '/'
    }
}

/// The byte at `i`, or zero past the end.
pub open spec fn byte_or_zero(bytes: Seq<u8>, i: int) -> int {
    if 0 <= i < bytes.len() {
        bytes[i] as int
    } else {
        0
    }
}

/// The `k`-th letter of the padded base64 form: letters `4g..4g+4` hold bytes `3g..3g+3`, six bits
/// each, and stand as `=` where none of their bits comes from a byte.
pub open spec fn base64_at(bytes: Seq<u8>, k: int) -> char {
    let g = k / 4;
    let a = byte_or_zero(bytes, 3 * g);
    let b = byte_or_zero(bytes, 3 * g + 1);
    let c = byte_or_zero(bytes, 3 * g + 2);
    if k % 4 == 0 {
        base64_letter(a / 4)
    } else if k % 4 == 1 {
        base64_letter((a % 4) * 16 + b / 16)
    } else if k % 4 == 2 {
        if 3 * g + 1 < bytes.len() {
            base64_letter((b % 16) * 4 + c / 64)
        } else {
            '='
        }
    } else {
        if 3 * g + 2 < bytes.len() {
            base64_letter(c % 64)
        } else {
            '='
        }
    }
}

/// The length of the padded base64 form of `n` bytes.
pub open spec fn base64_len(n: int) -> int {
    (n + 2) / 3 * 4
}

/// The padded base64 form in the standard alphabet.
pub open spec fn base64(bytes: Seq<u8>) -> Seq<char> {
    Seq::new(base64_len(bytes.len() as int) as nat, |k: int| base64_at(bytes, k))
}

/// Calls `encode` of `base64::engine::general_purpose::STANDARD`. The contract claims that it
/// gives the padded form in the standard alphabet. The bound keeps the buffer allocatable.
#[verifier::external_body]
pub(crate) fn base64_text(bytes: &[u8]) -> (r: String)
    requires
        base64_len(bytes@.len() as int) <= isize::MAX,
    ensures
        r@ == base64(bytes@),
{
    base64::Engine::encode(&base64::engine::general_purpose::STANDARD, bytes)
}

/// The bytes of a sample say which sample it is.
pub proof fn law_samples_can_be_told_from_their_bytes(sample: i16)
    ensures
        low_byte(sample) + 256 * high_byte(sample) == if sample < 0 {
            sample + 65536
        } else {
            sample as int
        },
{
}

/// A number that fits reads back from its little-endian bytes.
pub proof fn law_little_endian_reads_back(n: int)
    ensures
        0 <= n < 65536 ==> le2(n).len() == 2 && le2(n)[0] + 256 * le2(n)[1] == n,
        0 <= n < 0x1_0000_0000 ==> le4(n).len() == 4 && le4(n)[0] + 256 * le4(n)[1] + 65536
            * le4(n)[2] + 16777216 * le4(n)[3] == n,
{
}

/// The bytes of samples are two for each, in order, the low one first.
pub proof fn law_samples_stand_in_order(samples: Seq<i16>, i: int)
    requires
        0 <= i < samples.len(),
    ensures
        pcm(samples).len() == 2 * samples.len(),
        pcm(samples)[2 * i] + 256 * pcm(samples)[2 * i + 1] == if samples[i] < 0 {
            samples[i] + 65536
        } else {
            samples[i] as int
        },
{
    law_samples_can_be_told_from_their_bytes(samples[i]);
    assert((2 * i) / 2 == i && (2 * i) % 2 == 0);
    assert((2 * i + 1) / 2 == i && (2 * i + 1) % 2 == 1);
}

/// A WAV file is a header of forty-four bytes and then the samples. The header says that there is
/// one channel of sixteen-bit integers at the given rate, and how many bytes follow.
pub proof fn law_what_a_wav_file_says(samples: Seq<i16>, sample_rate: int)
    ensures
        ({
            let file = wav_file(samples, sample_rate);
            let size = 2 * samples.len() as int;
            &&& file.len() == 44 + size
            &&& file.skip(44) == pcm(samples)
            &&& file.subrange(0, 4) == seq!['R' as u8, 'I' as u8, 'F' as u8, 'F' as u8]
            &&& file.subrange(4, 8) == le4(36 + size)
            &&& file.subrange(8, 12) == seq!['W' as u8, 'A' as u8, 'V' as u8, 'E' as u8]
            &&& file.subrange(12, 16) == seq!['f' as u8, 'm' as u8, 't' as u8, ' ' as u8]
            &&& file.subrange(16, 20) == le4(16)
            &&& file.subrange(20, 22) == le2(1)
            &&& file.subrange(22, 24) == le2(1)
            &&& file.subrange(24, 28) == le4(sample_rate)
            &&& file.subrange(28, 32) == le4(2 * sample_rate)
            &&& file.subrange(32, 34) == le2(2)
            &&& file.subrange(34, 36) == le2(16)
            &&& file.subrange(36, 40) == seq!['d' as u8, 'a' as u8, 't' as u8, 'a' as u8]
            &&& file.subrange(40, 44) == le4(size)
        }),
{
    let file = wav_file(samples, sample_rate);
    let size = 2 * samples.len() as int;
    assert(sample_rate * (16int / 8) * 1 == 2 * sample_rate);
    assert(file.len() == 44 + size);
    assert(file.skip(44) =~= pcm(samples));
    assert(file.subrange(0, 4) =~= seq!['R' as u8, 'I' as u8, 'F' as u8, 'F' as u8]);
    assert(file.subrange(4, 8) =~= le4(36 + size));
    assert(file.subrange(8, 12) =~= seq!['W' as u8, 'A' as u8, 'V' as u8, 'E' as u8]);
    assert(file.subrange(12, 16) =~= seq!['f' as u8, 'm' as u8, 't' as u8, ' ' as u8]);
    assert(file.subrange(16, 20) =~= le4(16));
    assert(file.subrange(20, 22) =~= le2(1));
    assert(file.subrange(22, 24) =~= le2(1));
    assert(file.subrange(24, 28) =~= le4(sample_rate));
    assert(file.subrange(28, 32) =~= le4(2 * sample_rate));
    assert(file.subrange(32, 34) =~= le2(2));
    assert(file.subrange(34, 36) =~= le2(16));
    assert(file.subrange(36, 40) =~= seq!['d' as u8, 'a' as u8, 't' as u8, 'a' as u8]);
    assert(file.subrange(40, 44) =~= le4(size));
}

/// A failure is reported with its step first and its reason last.
pub proof fn law_how_a_wav_error_is_reported(why: String)
    ensures
        wav_error_text(WavError::Start(why)) == "Failed to start WAV encoding: "@ + why@,
        wav_error_text(WavError::Sample(why)) == "Failed to encode WAV sample: "@ + why@,
        wav_error_text(WavError::Finish(why)) == "Failed to finalize WAV encoding: "@ + why@,
{
}

} // verus!
