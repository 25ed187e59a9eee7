//! Audio that arrives over the wire.
//!
//! Uploads are WAV files of any common bit depth, sample rate and channel
//! count; streams are bare little-endian PCM16. Both are unpacked here into
//! integer samples that still carry their scale. Nothing compressed is
//! accepted.

use vstd::prelude::*;
use vstd::string::*;

use crate::text::{decimal, push_decimal};

verus! {

/// The sample rate that every transcription engine expects.
pub const TARGET_HZ: usize = 16_000;

/// The longest upload or stream accepted, in seconds of audio.
pub const MAX_AUDIO_SECS: u64 = 600;

/// How a WAV file stores its samples.
#[derive(Clone, Copy, Debug, PartialEq, Eq, Structural)]
pub enum SampleFormat {
    Int,
    Float,
}

/// What a WAV header says of the samples that follow it.
#[derive(Clone, Copy, Debug, PartialEq, Eq, Structural)]
pub struct WavSpec {
    pub channels: u16,
    pub sample_rate: u32,
    pub bits_per_sample: u16,
    pub sample_format: SampleFormat,
}

/// Why audio was refused.
#[derive(Debug)]
pub enum AudioError {
    /// The bytes are not a WAV file; the reader's own words.
    Unreadable(String),
    /// The header declares no channel at all.
    NoChannels,
    /// A bit depth that is not decoded.
    Unsupported { format: SampleFormat, bits: u16 },
    /// The samples do not match the header; the reader's own words.
    BrokenSamples(String),
    /// More audio than is accepted.
    TooLong { frames: u64, sample_rate: u32 },
    /// A PCM16 payload that ends in the middle of a sample.
    OddByteCount(usize),
}

/// What an [`AudioError`] says.
pub ghost enum AudioErrorView {
    Unreadable(Seq<char>),
    NoChannels,
    Unsupported(SampleFormat, u16),
    BrokenSamples(Seq<char>),
    TooLong(u64, u32),
    OddByteCount(usize),
}

impl View for AudioError {
    type V = AudioErrorView;

    open spec fn view(&self) -> AudioErrorView {
        match self {
            AudioError::Unreadable(e) => AudioErrorView::Unreadable(e@),
            AudioError::NoChannels => AudioErrorView::NoChannels,
            AudioError::Unsupported { format, bits } => AudioErrorView::Unsupported(*format, *bits),
            AudioError::BrokenSamples(e) => AudioErrorView::BrokenSamples(e@),
            AudioError::TooLong { frames, sample_rate } => AudioErrorView::TooLong(
                *frames,
                *sample_rate,
            ),
            AudioError::OddByteCount(n) => AudioErrorView::OddByteCount(*n),
        }
    }
}

/// Interleaved samples, in the width that holds them. A 24-bit sample stands
/// in an `i32`; a float is kept as its IEEE 754 bits.
#[derive(Debug)]
pub enum Samples {
    I8(Vec<i8>),
    I16(Vec<i16>),
    I24(Vec<i32>),
    I32(Vec<i32>),
    F32(Vec<u32>),
}

/// What [`Samples`] hold.
pub ghost enum SamplesView {
    I8(Seq<i8>),
    I16(Seq<i16>),
    I24(Seq<i32>),
    I32(Seq<i32>),
    F32(Seq<u32>),
}

impl SamplesView {
    /// The number of samples, over all channels.
    pub open spec fn len(self) -> nat {
        match self {
            SamplesView::I8(s) => s.len(),
            SamplesView::I16(s) => s.len(),
            SamplesView::I24(s) => s.len(),
            SamplesView::I32(s) => s.len(),
            SamplesView::F32(s) => s.len(),
        }
    }

    /// The integer that stands for full scale. Floats are not scaled.
    pub open spec fn full_scale(self) -> int {
        match self {
            SamplesView::I8(_) => 127,
            SamplesView::I16(_) => 32_767,
            SamplesView::I24(_) => 8_388_607,
            SamplesView::I32(_) => 2_147_483_647,
            SamplesView::F32(_) => 1,
        }
    }

    /// The samples as integers. A float stands as its bits.
    pub open spec fn values(self) -> Seq<int> {
        match self {
            SamplesView::I8(s) => s.map_values(|v: i8| v as int),
            SamplesView::I16(s) => s.map_values(|v: i16| v as int),
            SamplesView::I24(s) => s.map_values(|v: i32| v as int),
            SamplesView::I32(s) => s.map_values(|v: i32| v as int),
            SamplesView::F32(s) => s.map_values(|v: u32| v as int),
        }
    }
}

impl View for Samples {
    type V = SamplesView;

    open spec fn view(&self) -> SamplesView {
        match self {
            Samples::I8(s) => SamplesView::I8(s@),
            Samples::I16(s) => SamplesView::I16(s@),
            Samples::I24(s) => SamplesView::I24(s@),
            Samples::I32(s) => SamplesView::I32(s@),
            Samples::F32(s) => SamplesView::F32(s@),
        }
    }
}

impl Samples {
    /// The number of samples, over all channels.
    pub fn len(&self) -> (n: usize)
        ensures
            n == self@.len(),
    {
        match self {
            Samples::I8(s) => s.len(),
            Samples::I16(s) => s.len(),
            Samples::I24(s) => s.len(),
            Samples::I32(s) => s.len(),
            Samples::F32(s) => s.len(),
        }
    }

    /// The integer that stands for full scale: the largest of the declared bit
    /// depth, not of the width that holds the sample, or 24-bit audio would
    /// come out 256 times too quiet. Floats are not scaled.
    pub fn full_scale(&self) -> (n: i32)
        ensures
            n == self@.full_scale(),
    {
        match self {
            Samples::I8(_) => 127,
            Samples::I16(_) => 32_767,
            Samples::I24(_) => 8_388_607,
            Samples::I32(_) => 2_147_483_647,
            Samples::F32(_) => 1,
        }
    }
}

// ------------------------------------------------------------- durations

/// `n / d`, rounded to the nearest integer, to the even one of two nearest.
pub open spec fn round_half_even(n: nat, d: nat) -> nat
    recommends
        d > 0,
{
    let q = n / d;
    let r = n % d;
    if 2 * r > d || (2 * r == d && q % 2 == 1) {
        q + 1
    } else {
        q
    }
}

/// The largest `p / 2^k` at which `n / d`, counted in units of `1 / p`, fits
/// in the 53 bits of a double.
pub open spec fn double_unit(n: nat, d: nat, p: nat) -> nat
    decreases p,
{
    if p <= 1 || n * p < d * 9_007_199_254_740_992 {
        p
    } else {
        double_unit(n, d, p / 2)
    }
}

/// The tenths of a second that a duration of `frames` at `rate` is shown as:
/// the quotient as a double holds it, rounded to one decimal. Made for
/// durations over 512 seconds.
pub open spec fn shown_tenths(frames: nat, rate: nat) -> nat {
    let p = double_unit(frames, rate, 8_796_093_022_208);
    round_half_even(10 * round_half_even(frames * p, rate), p)
}

fn nearest(n: u128, d: u128) -> (q: u128)
    requires
        0 < d < 0x1_0000_0000_0000_0000,
        n < 0x1_0000_0000_0000_0000_0000_0000_0000,
    ensures
        q == round_half_even(n as nat, d as nat),
        q <= n + 1,
{
    let q: u128 = n / d;
    let r: u128 = n % d;
    assert(q <= n) by (nonlinear_arith)
        requires
            q == n / d,
            d > 0,
    ;
    assert(r < d) by (nonlinear_arith)
        requires
            r == n % d,
            d > 0,
    ;
    if 2 * r > d || (2 * r == d && q % 2 == 1) {
        q + 1
    } else {
        q
    }
}

fn tenths(frames: u64, rate: u32) -> (t: u128)
    requires
        rate > 0,
    ensures
        t == shown_tenths(frames as nat, rate as nat),
{
    let n: u128 = frames as u128;
    let d: u128 = rate as u128;
    let mut p: u128 = 8_796_093_022_208;
    assert(n * p < 0x800_0000_0000_0000_0000_0000_0000) by (nonlinear_arith)
        requires
            n <= 0xffff_ffff_ffff_ffff,
            p == 8_796_093_022_208,
    ;
    while p > 1 && n * p >= d * 9_007_199_254_740_992
        invariant
            n == frames,
            d == rate,
            0 < p <= 8_796_093_022_208,
            n * p < 0x800_0000_0000_0000_0000_0000_0000,
            double_unit(frames as nat, rate as nat, p as nat) == double_unit(
                frames as nat,
                rate as nat,
                8_796_093_022_208,
            ),
        decreases p,
    {
        let half: u128 = p / 2;
        assert(n * half <= n * p) by (nonlinear_arith)
            requires
                half <= p,
        ;
        p = half;
    }
    let m: u128 = nearest(n * p, d);
    nearest(10 * m, p)
}

/// What a refusal says to the client.
pub open spec fn audio_message(e: AudioErrorView) -> Seq<char> {
    match e {
        AudioErrorView::Unreadable(why) => "not a readable WAV file: "@ + why,
        AudioErrorView::NoChannels => "WAV declares zero channels"@,
        AudioErrorView::Unsupported(format, bits) => "unsupported WAV sample format: "@ + (
        match format {
            SampleFormat::Int => "Int"@,
            SampleFormat::Float => "Float"@,
        }) + " at "@ + decimal(bits as nat) + " bits"@,
        AudioErrorView::BrokenSamples(why) => why,
        AudioErrorView::TooLong(frames, rate) => {
            let t = shown_tenths(frames as nat, at_least_one(rate as nat));
            "audio is "@ + decimal(t / 10) + "."@ + decimal(t % 10) + "s, longer than the "@
                + decimal(MAX_AUDIO_SECS as nat) + "s limit"@
        },
        AudioErrorView::OddByteCount(n) => "PCM16 payload has an odd byte count ("@ + decimal(
            n as nat,
        ) + ")"@,
    }
}

/// A sample rate to divide by.
pub open spec fn at_least_one(rate: nat) -> nat {
    if rate == 0 {
        1
    } else {
        rate
    }
}

proof fn lemma_nearest(n: nat, d: nat)
    requires
        d > 0,
    ensures
        -(d as int) <= 2 * (round_half_even(n, d) * d - n) <= d,
{
    let q = (n / d) as int;
    let r = (n % d) as int;
    let di = d as int;
    assert(n == q * di + r && 0 <= r < di) by (nonlinear_arith)
        requires
            di > 0,
            q == n as int / di,
            r == n as int % di,
    ;
    assert((q + 1) * di == q * di + di) by (nonlinear_arith);
}

proof fn lemma_double_unit(n: nat, d: nat, p: nat)
    requires
        p >= 1,
    ensures
        1 <= double_unit(n, d, p) <= p,
        n * p < d * 9_007_199_254_740_992 ==> double_unit(n, d, p) == p,
    decreases p,
{
    if !(p <= 1 || n * p < d * 9_007_199_254_740_992) {
        lemma_double_unit(n, d, p / 2);
    }
}

/// The duration that a refusal shows is the one that the audio has, to the
/// nearest tenth of a second: off by half a tenth at most, and by no more than
/// what a double loses.
pub proof fn a_shown_duration_is_the_nearest_tenth(frames: nat, rate: nat)
    requires
        rate > 0,
    ensures
        ({
            let off = shown_tenths(frames, rate) * rate - 10 * frames;
            let unit = 8_796_093_022_208int;
            &&& frames < 1024 * rate ==> -(rate * (unit + 10)) <= 2 * unit * off <= rate * (unit
                + 10)
            &&& -(11 * rate) <= 2 * off <= 11 * rate
        }),
{
    let unit = 8_796_093_022_208nat;
    let p = double_unit(frames, rate, unit);
    lemma_double_unit(frames, rate, unit);
    let m = round_half_even(frames * p, rate);
    lemma_nearest(frames * p, rate);
    let t = round_half_even(10 * m, p);
    lemma_nearest(10 * m, p);
    let (ti, ri, fi, mi, pi) = (t as int, rate as int, frames as int, m as int, p as int);
    let off = ti * ri - 10 * fi;
    assert(-(ri * (pi + 10)) <= 2 * pi * off <= ri * (pi + 10)) by (nonlinear_arith)
        requires
            off == ti * ri - 10 * fi,
            -pi <= 2 * (ti * pi - 10 * mi) <= pi,
            -ri <= 2 * (mi * ri - fi * pi) <= ri,
            ri > 0,
            pi > 0,
    {
        let a = 2 * (ti * pi - 10 * mi);
        let b = 2 * (mi * ri - fi * pi);
        assert(2 * pi * off == ri * a + 10 * b) by (nonlinear_arith)
            requires
                off == ti * ri - 10 * fi,
                a == 2 * (ti * pi - 10 * mi),
                b == 2 * (mi * ri - fi * pi),
        ;
        assert(-(ri * pi) <= ri * a <= ri * pi) by (nonlinear_arith)
            requires
                -pi <= a <= pi,
                ri > 0,
        ;
        assert(ri * (pi + 10) == ri * pi + 10 * ri) by (nonlinear_arith);
    }
    assert(-(11 * ri) <= 2 * off <= 11 * ri) by (nonlinear_arith)
        requires
            -(ri * (pi + 10)) <= 2 * pi * off <= ri * (pi + 10),
            pi >= 1,
            ri > 0,
    ;
    if frames < 1024 * rate {
        assert(frames * unit < rate * 9_007_199_254_740_992) by (nonlinear_arith)
            requires
                frames < 1024 * rate,
                unit == 8_796_093_022_208,
        ;
    }
}

/// A refusal says what is wrong: the reader's words as they are, the format and
/// the bit depth that were declared, how long the audio lasts to the tenth of a
/// second and that ten minutes are the limit, or how many bytes came.
pub proof fn a_refusal_says_what_is_wrong(
    why: Seq<char>,
    bits: u16,
    frames: u64,
    rate: u32,
    bytes: usize,
)
    ensures
        audio_message(AudioErrorView::BrokenSamples(why)) == why,
        audio_message(AudioErrorView::Unreadable(why)).subrange(
            0,
            audio_message(AudioErrorView::Unreadable(why)).len() - why.len(),
        ) == "not a readable WAV file: "@,
        why.is_suffix_of(audio_message(AudioErrorView::Unreadable(why))),
        audio_message(AudioErrorView::Unsupported(SampleFormat::Int, bits))
            == "unsupported WAV sample format: Int at "@ + decimal(bits as nat) + " bits"@,
        audio_message(AudioErrorView::Unsupported(SampleFormat::Float, bits))
            == "unsupported WAV sample format: Float at "@ + decimal(bits as nat) + " bits"@,
        audio_message(AudioErrorView::OddByteCount(bytes))
            == "PCM16 payload has an odd byte count ("@ + decimal(bytes as nat) + ")"@,
        exists|whole: nat, tenth: nat|
            tenth < 10 && 10 * whole + tenth == shown_tenths(
                frames as nat,
                if rate == 0 {
                    1
                } else {
                    rate as nat
                },
            ) && audio_message(AudioErrorView::TooLong(frames, rate)) == "audio is "@
                + #[trigger] decimal(whole) + "."@ + #[trigger] decimal(tenth)
                + "s, longer than the 600s limit"@,
{
    reveal_strlit("unsupported WAV sample format: ");
    reveal_strlit("Int");
    reveal_strlit("Float");
    reveal_strlit(" at ");
    reveal_strlit("unsupported WAV sample format: Int at ");
    reveal_strlit("unsupported WAV sample format: Float at ");
    reveal_strlit("s, longer than the ");
    reveal_strlit("s limit");
    reveal_strlit("s, longer than the 600s limit");
    reveal_with_fuel(decimal, 4);
    assert(decimal(600) =~= seq!['6', '0', '0']);
    assert("s, longer than the "@ + decimal(600) + "s limit"@ =~= "s, longer than the 600s limit"@);
    assert("unsupported WAV sample format: "@ + "Int"@ + " at "@
        =~= "unsupported WAV sample format: Int at "@);
    assert("unsupported WAV sample format: "@ + "Float"@ + " at "@
        =~= "unsupported WAV sample format: Float at "@);
    let read = audio_message(AudioErrorView::Unreadable(why));
    assert(read.subrange(0, read.len() - why.len()) =~= "not a readable WAV file: "@);
    assert(why =~= read.subrange(read.len() - why.len(), read.len() as int));
    let t = shown_tenths(frames as nat, at_least_one(rate as nat));
    let long = audio_message(AudioErrorView::TooLong(frames, rate));
    assert(long =~= "audio is "@ + decimal(t / 10) + "."@ + decimal(t % 10)
        + "s, longer than the 600s limit"@);
}

impl AudioError {
    /// What the refusal says to the client.
    pub fn message(&self) -> (m: String)
        ensures
            m@ == audio_message(self@),
    {
        let mut m = String::new();
        match self {
            AudioError::Unreadable(why) => {
                m.append("not a readable WAV file: ");
                m.append(why.as_str());
            },
            AudioError::NoChannels => {
                m.append("WAV declares zero channels");
            },
            AudioError::Unsupported { format, bits } => {
                m.append("unsupported WAV sample format: ");
                m.append(
                    match format {
                        SampleFormat::Int => "Int",
                        SampleFormat::Float => "Float",
                    },
                );
                m.append(" at ");
                push_decimal(&mut m, *bits as u128);
                m.append(" bits");
            },
            AudioError::BrokenSamples(why) => {
                m.append(why.as_str());
            },
            AudioError::TooLong { frames, sample_rate } => {
                let rate: u32 = if *sample_rate == 0 {
                    1
                } else {
                    *sample_rate
                };
                let t: u128 = tenths(*frames, rate);
                m.append("audio is ");
                push_decimal(&mut m, t / 10);
                m.append(".");
                push_decimal(&mut m, t % 10);
                m.append("s, longer than the ");
                push_decimal(&mut m, MAX_AUDIO_SECS as u128);
                m.append("s limit");
            },
            AudioError::OddByteCount(n) => {
                m.append("PCM16 payload has an odd byte count (");
                push_decimal(&mut m, *n as u128);
                m.append(")");
            },
        }
        m
    }
}

// ------------------------------------------------------------ WAV uploads

/// What hound's `WavReader::new` and `spec` give for some bytes: the header of
/// the WAV file that they hold, or what the reader says of them.
pub uninterp spec fn wav_header(bytes: Seq<u8>) -> Result<WavSpec, Seq<char>>;

/// What hound's `samples::<i8>` gives for the WAV file in some bytes.
pub uninterp spec fn wav_samples_i8(bytes: Seq<u8>) -> Result<Seq<i8>, Seq<char>>;

/// What hound's `samples::<i16>` gives for the WAV file in some bytes.
pub uninterp spec fn wav_samples_i16(bytes: Seq<u8>) -> Result<Seq<i16>, Seq<char>>;

/// What hound's `samples::<i32>` gives for the WAV file in some bytes.
pub uninterp spec fn wav_samples_i32(bytes: Seq<u8>) -> Result<Seq<i32>, Seq<char>>;

/// Whether some bytes carry the tags that every WAV file starts with: `RIFF`,
/// four bytes of length, and `WAVE`.
pub open spec fn has_wav_tags(bytes: Seq<u8>) -> bool {
    &&& bytes.len() >= 12
    &&& bytes[0] == 82 && bytes[1] == 73 && bytes[2] == 70 && bytes[3] == 70
    &&& bytes[8] == 87 && bytes[9] == 65 && bytes[10] == 86 && bytes[11] == 69
}

/// The number whose `n` little-endian bytes stand at `at`.
pub open spec fn le(bytes: Seq<u8>, at: int, n: nat) -> nat
    decreases n,
{
    if n == 0 {
        0
    } else {
        bytes[at] as nat + 256 * le(bytes, at + 1, (n - 1) as nat)
    }
}

/// The bit depth that a plain WAV file declares.
pub open spec fn plain_bits(bytes: Seq<u8>) -> nat {
    le(bytes, 34, 2)
}

/// What a plain WAV file declares.
pub open spec fn plain_spec(bytes: Seq<u8>) -> WavSpec {
    WavSpec {
        channels: le(bytes, 22, 2) as u16,
        sample_rate: le(bytes, 24, 4) as u32,
        bits_per_sample: le(bytes, 34, 2) as u16,
        sample_format: SampleFormat::Int,
    }
}

/// Whether some bytes are a WAV file in its plainest form: 44 bytes of header
/// that declare integer PCM of 8, 16, 24 or 32 bits without contradicting
/// themselves, and then whole frames of samples to the end.
pub open spec fn is_plain_wav(bytes: Seq<u8>) -> bool {
    let channels = le(bytes, 22, 2);
    let bits = plain_bits(bytes);
    let frame = channels * (bits / 8);
    &&& bytes.len() >= 44
    &&& has_wav_tags(bytes)
    // The chunk `fmt `, of 16 bytes, in which 1 stands for PCM.
    &&& bytes[12] == 102 && bytes[13] == 109 && bytes[14] == 116 && bytes[15] == 32
    &&& le(bytes, 16, 4) == 16
    &&& le(bytes, 20, 2) == 1
    &&& channels > 0
    &&& le(bytes, 28, 4) == le(bytes, 24, 4) * frame
    &&& le(bytes, 32, 2) == frame
    &&& bits == 8 || bits == 16 || bits == 24 || bits == 32
    // The chunk `data`, which reaches to the end.
    &&& bytes[36] == 100 && bytes[37] == 97 && bytes[38] == 116 && bytes[39] == 97
    &&& le(bytes, 40, 4) == bytes.len() - 44
    &&& (bytes.len() - 44) % frame as int == 0
}

/// The sample of a bit depth that is stored at `at`: 8 bits are stored with an
/// offset, more bits in two's complement.
pub open spec fn stored_sample(bytes: Seq<u8>, at: int, bits: nat) -> int {
    let u = le(bytes, at, bits / 8) as int;
    if bits == 8 {
        u - 128
    } else if bits == 16 {
        if u < 0x8000 {
            u
        } else {
            u - 0x1_0000
        }
    } else if bits == 24 {
        if u < 0x80_0000 {
            u
        } else {
            u - 0x100_0000
        }
    } else {
        if u < 0x8000_0000 {
            u
        } else {
            u - 0x1_0000_0000
        }
    }
}

/// The samples that a plain WAV file stores.
pub open spec fn plain_samples(bytes: Seq<u8>) -> Seq<int> {
    let bits = plain_bits(bytes);
    let width = (bits / 8) as int;
    Seq::new(
        ((bytes.len() - 44) / width) as nat,
        |i: int| stored_sample(bytes, 44 + width * i, bits),
    )
}

/// Whether a header was read as a plain WAV file declares it.
pub open spec fn is_declared(bytes: Seq<u8>, header: Result<WavSpec, Seq<char>>) -> bool {
    header matches Ok(spec) && spec == plain_spec(bytes)
}

/// Whether samples were read as a plain WAV file stores them.
pub open spec fn is_stored_i8(bytes: Seq<u8>, read: Result<Seq<i8>, Seq<char>>) -> bool {
    read matches Ok(s) && s.map_values(|v: i8| v as int) == plain_samples(bytes)
}

/// Whether samples were read as a plain WAV file stores them.
pub open spec fn is_stored_i16(bytes: Seq<u8>, read: Result<Seq<i16>, Seq<char>>) -> bool {
    read matches Ok(s) && s.map_values(|v: i16| v as int) == plain_samples(bytes)
}

/// Whether samples were read as a plain WAV file stores them.
pub open spec fn is_stored_i32(bytes: Seq<u8>, read: Result<Seq<i32>, Seq<char>>) -> bool {
    read matches Ok(s) && s.map_values(|v: i32| v as int) == plain_samples(bytes)
}

/// Calls `hound::WavReader::new` and takes its `spec`. The result depends on
/// the bytes alone; an error is given by its text. Bytes without the tags of a
/// WAV file are always an error; a plain WAV file is read as it declares
/// itself.
#[verifier::external_body]
fn read_header(bytes: &[u8]) -> (r: Result<WavSpec, String>)
    ensures
        text_seen(r) == wav_header(bytes@),
        r is Ok ==> has_wav_tags(bytes@),
        is_plain_wav(bytes@) ==> is_declared(bytes@, text_seen(r)),
{
    let spec = hound::WavReader::new(bytes).map_err(|e| e.to_string())?.spec();
    Ok(
        WavSpec {
            channels: spec.channels,
            sample_rate: spec.sample_rate,
            bits_per_sample: spec.bits_per_sample,
            sample_format: match spec.sample_format {
                hound::SampleFormat::Int => SampleFormat::Int,
                hound::SampleFormat::Float => SampleFormat::Float,
            },
        },
    )
}

/// Calls `samples::<i8>` of a `hound::WavReader` on the bytes and collects
/// what it yields, or the text of the first error. Of a plain WAV file of 8 bits
/// it yields the samples that are stored.
#[verifier::external_body]
fn read_i8(bytes: &[u8]) -> (r: Result<Vec<i8>, String>)
    ensures
        samples_seen(r) == wav_samples_i8(bytes@),
        is_plain_wav(bytes@) && plain_bits(bytes@) == 8 ==> is_stored_i8(bytes@, samples_seen(r)),
{
    let mut reader = hound::WavReader::new(bytes).map_err(|e| e.to_string())?;
    reader.samples::<i8>().collect::<Result<Vec<i8>, hound::Error>>().map_err(|e| e.to_string())
}

/// Calls `samples::<i16>` of a `hound::WavReader` on the bytes and collects
/// what it yields, or the text of the first error. Of a plain WAV file of 16 bits
/// it yields the samples that are stored.
#[verifier::external_body]
fn read_i16(bytes: &[u8]) -> (r: Result<Vec<i16>, String>)
    ensures
        samples_seen(r) == wav_samples_i16(bytes@),
        is_plain_wav(bytes@) && plain_bits(bytes@) == 16 ==> is_stored_i16(bytes@, samples_seen(r)),
{
    let mut reader = hound::WavReader::new(bytes).map_err(|e| e.to_string())?;
    reader.samples::<i16>().collect::<Result<Vec<i16>, hound::Error>>().map_err(|e| e.to_string())
}

/// Calls `samples::<i32>` of a `hound::WavReader` on the bytes and collects
/// what it yields, or the text of the first error. Of a plain WAV file of 24 or 32 bits
/// it yields the samples that are stored.
#[verifier::external_body]
fn read_i32(bytes: &[u8]) -> (r: Result<Vec<i32>, String>)
    ensures
        samples_seen(r) == wav_samples_i32(bytes@),
        is_plain_wav(bytes@) && (plain_bits(bytes@) == 24 || plain_bits(bytes@) == 32) ==> is_stored_i32(bytes@, samples_seen(r)),
{
    let mut reader = hound::WavReader::new(bytes).map_err(|e| e.to_string())?;
    reader.samples::<i32>().collect::<Result<Vec<i32>, hound::Error>>().map_err(|e| e.to_string())
}

/// The kinds of sample that are decoded.
#[derive(Clone, Copy, Debug, PartialEq, Eq, Structural)]
pub enum SampleKind {
    I8,
    I16,
    I24,
    I32,
    F32,
}

/// How the samples behind a header are read: 8, 16, 24 and 32 bits of integer
/// and 32 bits of float are, nothing else is.
pub open spec fn kind_of(spec: WavSpec) -> Result<SampleKind, AudioErrorView> {
    match (spec.sample_format, spec.bits_per_sample) {
        (SampleFormat::Float, 32) => Ok(SampleKind::F32),
        (SampleFormat::Int, 8) => Ok(SampleKind::I8),
        (SampleFormat::Int, 16) => Ok(SampleKind::I16),
        (SampleFormat::Int, 24) => Ok(SampleKind::I24),
        (SampleFormat::Int, 32) => Ok(SampleKind::I32),
        (format, bits) => Err(AudioErrorView::Unsupported(format, bits)),
    }
}

/// What a header leads to: a kind of sample to read, or a refusal.
pub open spec fn header_verdict(header: Result<WavSpec, Seq<char>>) -> Result<
    (WavSpec, SampleKind),
    AudioErrorView,
> {
    match header {
        Err(why) => Err(AudioErrorView::Unreadable(why)),
        Ok(spec) => if spec.channels == 0 {
            Err(AudioErrorView::NoChannels)
        } else {
            match kind_of(spec) {
                Ok(kind) => Ok((spec, kind)),
                Err(e) => Err(e),
            }
        },
    }
}

/// A result with its error seen through its view.
pub open spec fn seen<T>(r: Result<T, AudioError>) -> Result<T, AudioErrorView> {
    match r {
        Ok(v) => Ok(v),
        Err(e) => Err(e@),
    }
}

/// A result with its text seen as characters.
pub open spec fn text_seen<T>(r: Result<T, String>) -> Result<T, Seq<char>> {
    match r {
        Ok(v) => Ok(v),
        Err(e) => Err(e@),
    }
}

/// A reading with its samples and its text seen as sequences.
pub open spec fn samples_seen<T>(r: Result<Vec<T>, String>) -> Result<Seq<T>, Seq<char>> {
    match r {
        Ok(v) => Ok(v@),
        Err(e) => Err(e@),
    }
}

/// Decides how the samples behind a header are read.
pub fn judge_header(header: Result<WavSpec, String>) -> (r: Result<
    (WavSpec, SampleKind),
    AudioError,
>)
    ensures
        seen(r) == header_verdict(text_seen(header)),
{
    let spec = match header {
        Ok(spec) => spec,
        Err(why) => return Err(AudioError::Unreadable(why)),
    };
    if spec.channels == 0 {
        return Err(AudioError::NoChannels);
    }
    let bits: u16 = spec.bits_per_sample;
    let kind = match spec.sample_format {
        SampleFormat::Float if bits == 32 => SampleKind::F32,
        SampleFormat::Int if bits == 8 => SampleKind::I8,
        SampleFormat::Int if bits == 16 => SampleKind::I16,
        SampleFormat::Int if bits == 24 => SampleKind::I24,
        SampleFormat::Int if bits == 32 => SampleKind::I32,
        format => return Err(AudioError::Unsupported { format, bits }),
    };
    Ok((spec, kind))
}

/// The number of mono samples that interleaved samples mix down to: one per
/// frame, where the last frame may lack channels.
pub open spec fn frame_count(len: nat, channels: nat) -> nat {
    if channels <= 1 {
        len
    } else {
        ((len + channels - 1) / channels as int) as nat
    }
}

/// Where frame `i` starts among interleaved samples.
pub open spec fn frame_start(channels: nat, i: nat) -> nat {
    if channels <= 1 {
        i
    } else {
        i * channels
    }
}

/// Where frame `i` ends among `len` interleaved samples.
pub open spec fn frame_end(len: nat, channels: nat, i: nat) -> nat {
    let end = frame_start(channels, i + 1);
    if end <= len {
        end
    } else {
        len
    }
}

/// Whether a recording is longer than is accepted. The limit is on its
/// duration, not on the bytes that it takes.
pub open spec fn is_too_long(frames: nat, rate: nat) -> bool {
    frames > MAX_AUDIO_SECS * at_least_one(rate)
}

/// The rate to resample from, if `len` mono samples at `hz` have to be.
pub open spec fn resample_rate(len: nat, hz: nat) -> Option<nat> {
    if hz == TARGET_HZ || len == 0 || hz == 0 {
        None
    } else {
        Some(hz)
    }
}

/// Decides whether `len` mono samples at `hz` have to be resampled to
/// [`TARGET_HZ`], and from which rate. Samples at that rate already, no
/// samples, and samples of no known rate are left untouched.
pub fn resample_from(len: usize, hz: usize) -> (r: Option<usize>)
    ensures
        r is Some <==> resample_rate(len as nat, hz as nat) is Some,
        r matches Some(from) ==> from == hz,
        len > 0 ==> (r is None <==> hz == 16_000 || hz == 0),
        len == 0 ==> r is None,
{
    if hz == TARGET_HZ || len == 0 || hz == 0 {
        None
    } else {
        Some(hz)
    }
}

/// Audio is left as it is exactly if there is none, if it is at 16 kHz already,
/// or if its rate is zero and so tells nothing; any other audio is resampled
/// from its very rate, whether a multiple of 16 kHz or not.
pub proof fn only_audio_at_sixteen_kilohertz_is_left_as_it_is(len: nat, hz: nat)
    ensures
        len > 0 && hz != 16_000 && hz != 0 ==> resample_rate(len, hz) == Some(hz),
        len > 0 && (hz == 16_000 || hz == 0) ==> resample_rate(len, hz) is None,
        len == 0 ==> resample_rate(len, hz) is None,
{
}

/// A decoded WAV file, no longer than is accepted.
#[derive(Debug)]
pub struct WavAudio {
    pub spec: WavSpec,
    pub samples: Samples,
}

/// What a [`WavAudio`] holds.
pub ghost struct WavAudioView {
    pub spec: WavSpec,
    pub samples: SamplesView,
}

impl WavAudioView {
    /// The number of mono samples that the audio mixes down to.
    pub open spec fn frames(self) -> nat {
        frame_count(self.samples.len(), self.spec.channels as nat)
    }
}

impl View for WavAudio {
    type V = WavAudioView;

    open spec fn view(&self) -> WavAudioView {
        WavAudioView { spec: self.spec, samples: self.samples@ }
    }
}

fn count_frames(len: usize, channels: u16) -> (n: usize)
    ensures
        n == frame_count(len as nat, channels as nat),
        n <= len,
{
    if channels <= 1 {
        return len;
    }
    let whole: usize = len / channels as usize;
    let rest: usize = len % channels as usize;
    proof {
        let l = len as int;
        let c = channels as int;
        assert(l == c * (l / c) + l % c && 0 <= l % c < c) by (nonlinear_arith)
            requires
                c > 0,
        ;
        let q = l / c;
        let m = l % c;
        assert((l + c - 1) / c == (if m == 0 {
            q
        } else {
            q + 1
        })) by (nonlinear_arith)
            requires
                c > 1,
                l == c * q + m,
                0 <= m < c,
        ;
        assert(q + (if m == 0 {
            0int
        } else {
            1int
        }) <= l) by (nonlinear_arith)
            requires
                c > 1,
                l == c * q + m,
                0 <= m < c,
                q >= 0,
        ;
    }
    if rest == 0 {
        whole
    } else {
        whole + 1
    }
}

impl WavAudio {
    /// The number of mono samples that the audio mixes down to.
    pub fn frames(&self) -> (n: usize)
        ensures
            n == self@.frames(),
            n <= self@.samples.len(),
    {
        count_frames(self.samples.len(), self.spec.channels)
    }

    /// Where the samples of frame `i` stand, first and one past the last. The
    /// mono sample of the frame is their mean.
    pub fn frame(&self, i: usize) -> (r: (usize, usize))
        requires
            i < self@.frames(),
        ensures
            r.0 == frame_start(self.spec.channels as nat, i as nat),
            r.1 == frame_end(self@.samples.len(), self.spec.channels as nat, i as nat),
            r.0 < r.1 <= self@.samples.len(),
    {
        let len: usize = self.samples.len();
        let channels: usize = self.spec.channels as usize;
        proof {
            frames_partition(len as nat, channels as nat, i as nat);
        }
        if channels <= 1 {
            return (i, i + 1);
        }
        let start: usize = i * channels;
        let end: usize = if len - start < channels {
            len
        } else {
            start + channels
        };
        proof {
            let c = channels as int;
            let j = i as int;
            assert((j + 1) * c == j * c + c) by (nonlinear_arith);
        }
        (start, end)
    }

    /// The rate to resample the mono samples from, if they have to be.
    pub fn resample_from(&self) -> (r: Option<usize>)
        ensures
            r is Some <==> resample_rate(self@.frames(), self.spec.sample_rate as nat) is Some,
            r matches Some(from) ==> from == self.spec.sample_rate,
    {
        resample_from(self.frames(), self.spec.sample_rate as usize)
    }
}

/// The frames cover the samples in order, without gap or overlap: the first
/// starts at the first sample, each starts where the one before it ends, each
/// holds at least one sample, and the last ends at the last sample.
pub proof fn frames_partition(len: nat, channels: nat, i: nat)
    requires
        i < frame_count(len, channels),
    ensures
        frame_start(channels, 0) == 0,
        frame_start(channels, i) < frame_end(len, channels, i) <= len,
        i + 1 < frame_count(len, channels) ==> frame_end(len, channels, i) == frame_start(
            channels,
            i + 1,
        ),
        i + 1 == frame_count(len, channels) ==> frame_end(len, channels, i) == len,
{
    if channels > 1 {
        let l = len as int;
        let c = channels as int;
        let n = (l + c - 1) / c;
        assert(n * c <= l + c - 1 < n * c + c) by (nonlinear_arith)
            requires
                c > 1,
                n == (l + c - 1) / c,
        ;
        let j = i as int;
        assert(j * c + c <= n * c) by (nonlinear_arith)
            requires
                j + 1 <= n,
                c > 1,
        ;
        assert((j + 1) * c == j * c + c) by (nonlinear_arith);
        assert(0 * c == 0) by (nonlinear_arith);
        if j + 1 < n {
            assert((j + 1) * c + c <= n * c) by (nonlinear_arith)
                requires
                    j + 2 <= n,
                    c > 1,
            ;
        }
    }
}

/// A frame holds one sample of every channel, the last one maybe fewer: frame
/// `i` starts behind `i` whole frames, and there are just as many frames as it
/// takes to hold all samples. A file without channels counts as mono.
pub proof fn frames_are_as_wide_as_there_are_channels(len: nat, channels: nat, i: nat)
    ensures
        ({
            let c = if channels == 0 {
                1
            } else {
                channels
            };
            let frames = frame_count(len, channels);
            &&& len <= frames * c < len + c
            &&& frame_start(channels, i) == i * c
            &&& (i + 1) * c <= len ==> frame_end(len, channels, i) == (i + 1) * c
            &&& (i + 1) * c > len ==> frame_end(len, channels, i) == len
        }),
{
    if channels > 1 {
        let l = len as int;
        let c = channels as int;
        let n = (l + c - 1) / c;
        assert(n * c <= l + c - 1 < n * c + c) by (nonlinear_arith)
            requires
                c > 1,
                n == (l + c - 1) / c,
        ;
    } else {
        assert(len * 1 == len && i * 1 == i && (i + 1) * 1 == i + 1) by (nonlinear_arith);
    }
}

/// The sum of some samples in a row, from `start` to before `end`.
pub open spec fn sum_of(samples: Seq<int>, start: int, end: int) -> int
    decreases end - start,
{
    if end <= start {
        0
    } else {
        sum_of(samples, start, end - 1) + samples[end - 1]
    }
}

/// Mono samples, copied to every one of some channels.
pub open spec fn on_every_channel(mono: Seq<int>, channels: nat) -> Seq<int> {
    Seq::new(mono.len() * channels, |i: int| mono[i / channels as int])
}

proof fn lemma_constant_sum(samples: Seq<int>, start: int, end: int, value: int)
    requires
        start <= end,
        forall|i: int| start <= i < end ==> #[trigger] samples[i] == value,
    ensures
        sum_of(samples, start, end) == value * (end - start),
    decreases end - start,
{
    if start < end {
        lemma_constant_sum(samples, start, end - 1, value);
        assert(value * (end - 1 - start) + value == value * (end - start)) by (nonlinear_arith);
    } else {
        assert(value * 0 == 0) by (nonlinear_arith);
    }
}

/// A channel that is doubled, or copied any number of times, changes neither
/// the length nor the level of what is heard: there are as many frames as mono
/// samples, each holds one sample per channel, and the mean of each, its sum
/// divided by its length, is the mono sample. So it is too long exactly if the
/// mono recording is.
pub proof fn a_copied_channel_changes_nothing(mono: Seq<int>, channels: nat, i: nat)
    requires
        channels > 0,
    ensures
        ({
            let copied = on_every_channel(mono, channels);
            &&& frame_count(copied.len(), channels) == frame_count(mono.len(), 1) == mono.len()
            &&& forall|rate: nat|
                is_too_long(frame_count(copied.len(), channels), rate) == #[trigger] is_too_long(
                    mono.len(),
                    rate,
                )
            &&& i < mono.len() ==> {
                let start = frame_start(channels, i) as int;
                let end = frame_end(copied.len(), channels, i) as int;
                &&& end - start == channels
                &&& sum_of(copied, start, end) == mono[i as int] * (end - start)
            }
        }),
{
    let n = mono.len() as int;
    let c = channels as int;
    let copied = on_every_channel(mono, channels);
    assert(n * c >= 0) by (nonlinear_arith)
        requires
            n >= 0,
            c > 0,
    ;
    assert((n * c + c - 1) / c == n) by (nonlinear_arith)
        requires
            c > 0,
    ;
    assert(c == 1 ==> n * c == n) by (nonlinear_arith);
    if i < mono.len() {
        let j = i as int;
        assert(j * c + c == (j + 1) * c && (j + 1) * c <= n * c) by (nonlinear_arith)
            requires
                j + 1 <= n,
                c > 0,
        ;
        assert(c == 1 ==> j * c == j) by (nonlinear_arith);
        assert forall|k: int| j * c <= k < j * c + c implies #[trigger] copied[k] == mono[j] by {
            assert(k / c == j) by (nonlinear_arith)
                requires
                    c > 0,
                    j * c <= k < j * c + c,
            ;
            assert(0 <= j * c) by (nonlinear_arith)
                requires
                    j >= 0,
                    c > 0,
            ;
        }
        lemma_constant_sum(copied, j * c, j * c + c, mono[j]);
    }
}

/// What becomes of the samples behind an accepted header.
pub open spec fn audio_verdict(spec: WavSpec, read: Result<SamplesView, Seq<char>>) -> Result<
    WavAudioView,
    AudioErrorView,
> {
    match read {
        Err(why) => Err(AudioErrorView::BrokenSamples(why)),
        Ok(samples) => {
            let frames = frame_count(samples.len(), spec.channels as nat);
            if is_too_long(frames, spec.sample_rate as nat) {
                Err(AudioErrorView::TooLong(frames as u64, spec.sample_rate))
            } else {
                Ok(WavAudioView { spec, samples })
            }
        },
    }
}

/// Samples with their text seen as characters.
pub open spec fn read_seen(r: Result<Samples, String>) -> Result<SamplesView, Seq<char>> {
    match r {
        Ok(s) => Ok(s@),
        Err(e) => Err(e@),
    }
}

/// Audio with its refusal seen through its view.
pub open spec fn audio_seen(r: Result<WavAudio, AudioError>) -> Result<
    WavAudioView,
    AudioErrorView,
> {
    match r {
        Ok(a) => Ok(a@),
        Err(e) => Err(e@),
    }
}

/// Takes the samples behind an accepted header, unless they could not be read
/// or last too long.
pub fn judge_samples(spec: WavSpec, read: Result<Samples, String>) -> (r: Result<
    WavAudio,
    AudioError,
>)
    ensures
        audio_seen(r) == audio_verdict(spec, read_seen(read)),
{
    let samples = match read {
        Ok(samples) => samples,
        Err(why) => return Err(AudioError::BrokenSamples(why)),
    };
    let frames: usize = count_frames(samples.len(), spec.channels);
    let rate: u64 = if spec.sample_rate == 0 {
        1
    } else {
        spec.sample_rate as u64
    };
    if frames as u64 > MAX_AUDIO_SECS * rate {
        return Err(
            AudioError::TooLong { frames: frames as u64, sample_rate: spec.sample_rate },
        );
    }
    Ok(WavAudio { spec, samples })
}

/// Samples are taken, all of them and with what was declared of them, exactly
/// if every channel holds at most 600 seconds of them at the declared rate,
/// where a rate of zero counts as one. Samples that could not be read are
/// refused in the words of the reader.
pub proof fn audio_is_taken_up_to_ten_minutes(spec: WavSpec, samples: SamplesView, why: Seq<char>)
    requires
        spec.channels > 0,
    ensures
        ({
            let rate = if spec.sample_rate == 0 {
                1
            } else {
                spec.sample_rate as int
            };
            let most = 600 * rate * spec.channels;
            let verdict = audio_verdict(spec, Ok(samples));
            &&& samples.len() <= most ==> verdict == Ok::<WavAudioView, AudioErrorView>(
                WavAudioView { spec, samples },
            )
            &&& samples.len() > most ==> (verdict matches Err(
                AudioErrorView::TooLong(frames, shown),
            ) && shown == spec.sample_rate && (samples.len() <= u64::MAX ==> (frames - 1)
                * spec.channels < samples.len() <= frames * spec.channels))
        }),
        audio_verdict(spec, Err(why)) == Err::<WavAudioView, AudioErrorView>(
            AudioErrorView::BrokenSamples(why),
        ),
{
    let n = samples.len() as int;
    let c = spec.channels as int;
    let r = at_least_one(spec.sample_rate as nat) as int;
    let f = frame_count(samples.len(), spec.channels as nat) as int;
    frames_are_as_wide_as_there_are_channels(samples.len(), spec.channels as nat, 0);
    assert(n <= f * c < n + c);
    assert(f <= 600 * r <==> n <= 600 * r * c) by (nonlinear_arith)
        requires
            c > 0,
            r > 0,
            n <= f * c < n + c,
    ;
    assert((f - 1) * c == f * c - c) by (nonlinear_arith);
    assert(f <= n) by (nonlinear_arith)
        requires
            c > 0,
            n >= 0,
            f * c < n + c,
    ;
}

/// Accepted audio is no longer than the limit, whatever its rate and channels.
pub proof fn accepted_audio_is_short_enough(spec: WavSpec, read: Result<SamplesView, Seq<char>>)
    ensures
        audio_verdict(spec, read) matches Ok(audio) ==> audio.frames() <= MAX_AUDIO_SECS
            * at_least_one(spec.sample_rate as nat) && read == Ok::<_, Seq<char>>(audio.samples),
{
}

/// The integer samples of one kind in a WAV file. Floats are not read here.
pub open spec fn samples_of(bytes: Seq<u8>, kind: SampleKind) -> Result<SamplesView, Seq<char>>
    recommends
        kind != SampleKind::F32,
{
    match kind {
        SampleKind::I8 => match wav_samples_i8(bytes) {
            Ok(s) => Ok(SamplesView::I8(s)),
            Err(e) => Err(e),
        },
        SampleKind::I16 => match wav_samples_i16(bytes) {
            Ok(s) => Ok(SamplesView::I16(s)),
            Err(e) => Err(e),
        },
        SampleKind::I24 => match wav_samples_i32(bytes) {
            Ok(s) => Ok(SamplesView::I24(s)),
            Err(e) => Err(e),
        },
        SampleKind::I32 => match wav_samples_i32(bytes) {
            Ok(s) => Ok(SamplesView::I32(s)),
            Err(e) => Err(e),
        },
        SampleKind::F32 => arbitrary(),
    }
}

/// Reads the integer samples of one kind.
fn read_samples(bytes: &[u8], kind: SampleKind) -> (r: Result<Samples, String>)
    requires
        kind != SampleKind::F32,
    ensures
        read_seen(r) == samples_of(bytes@, kind),
        is_plain_wav(bytes@) && kind_of(plain_spec(bytes@)) == Ok::<_, AudioErrorView>(kind) ==> (
        read_seen(r) matches Ok(samples) && samples.values() == plain_samples(bytes@)),
{
    proof {
        reveal_with_fuel(le, 3);
    }
    match kind {
        SampleKind::I8 => match read_i8(bytes) {
            Ok(s) => Ok(Samples::I8(s)),
            Err(e) => Err(e),
        },
        SampleKind::I16 => match read_i16(bytes) {
            Ok(s) => Ok(Samples::I16(s)),
            Err(e) => Err(e),
        },
        SampleKind::I24 => match read_i32(bytes) {
            Ok(s) => Ok(Samples::I24(s)),
            Err(e) => Err(e),
        },
        _ => match read_i32(bytes) {
            Ok(s) => Ok(Samples::I32(s)),
            Err(e) => Err(e),
        },
    }
}

/// What decoding an upload comes to.
#[derive(Debug)]
pub enum WavDecode {
    /// Integer audio, decoded.
    Audio(WavAudio),
    /// A file of floats. Its samples are read elsewhere, and taken by
    /// [`judge_samples`] as their bits.
    Float(WavSpec),
}

/// What a [`WavDecode`] holds.
pub ghost enum WavDecodeView {
    Audio(WavAudioView),
    Float(WavSpec),
}

/// What decoding an upload comes to, through what hound makes of the bytes.
pub open spec fn wav_verdict(bytes: Seq<u8>) -> Result<WavDecodeView, AudioErrorView> {
    match header_verdict(wav_header(bytes)) {
        Err(e) => Err(e),
        Ok((spec, kind)) => if kind == SampleKind::F32 {
            Ok(WavDecodeView::Float(spec))
        } else {
            match audio_verdict(spec, samples_of(bytes, kind)) {
                Ok(audio) => Ok(WavDecodeView::Audio(audio)),
                Err(e) => Err(e),
            }
        },
    }
}

/// A WAV file is decoded by the sample format and the bit depth that it
/// declares: integers of 8, 16, 24 and 32 bits, and floats of 32. Any of those
/// that lasts at most 600 seconds is accepted, whatever its rate and its number
/// of channels, with all that it declares and holds.
pub proof fn a_file_is_decoded_as_it_declares_itself(bytes: Seq<u8>, spec: WavSpec)
    requires
        wav_header(bytes) == Ok::<WavSpec, Seq<char>>(spec),
        spec.channels > 0,
    ensures
        ({
            let rate = if spec.sample_rate == 0 {
                1
            } else {
                spec.sample_rate as int
            };
            let most = 600 * rate * spec.channels;
            let bits = spec.bits_per_sample;
            let verdict = wav_verdict(bytes);
            let taken = |samples: SamplesView|
                if samples.len() <= most {
                    verdict == Ok::<WavDecodeView, AudioErrorView>(
                        WavDecodeView::Audio(WavAudioView { spec, samples }),
                    )
                } else {
                    verdict is Err && verdict->Err_0 is TooLong
                };
            let broken = |why: Seq<char>|
                verdict == Err::<WavDecodeView, AudioErrorView>(AudioErrorView::BrokenSamples(why));
            if spec.sample_format == SampleFormat::Float {
                if bits == 32 {
                    verdict == Ok::<WavDecodeView, AudioErrorView>(WavDecodeView::Float(spec))
                } else {
                    verdict == Err::<WavDecodeView, AudioErrorView>(
                        AudioErrorView::Unsupported(SampleFormat::Float, bits),
                    )
                }
            } else if bits == 8 {
                match wav_samples_i8(bytes) {
                    Ok(samples) => taken(SamplesView::I8(samples)),
                    Err(why) => broken(why),
                }
            } else if bits == 16 {
                match wav_samples_i16(bytes) {
                    Ok(samples) => taken(SamplesView::I16(samples)),
                    Err(why) => broken(why),
                }
            } else if bits == 24 {
                match wav_samples_i32(bytes) {
                    Ok(samples) => taken(SamplesView::I24(samples)),
                    Err(why) => broken(why),
                }
            } else if bits == 32 {
                match wav_samples_i32(bytes) {
                    Ok(samples) => taken(SamplesView::I32(samples)),
                    Err(why) => broken(why),
                }
            } else {
                verdict == Err::<WavDecodeView, AudioErrorView>(
                    AudioErrorView::Unsupported(SampleFormat::Int, bits),
                )
            }
        }),
{
    if let Ok(samples) = wav_samples_i8(bytes) {
        audio_is_taken_up_to_ten_minutes(spec, SamplesView::I8(samples), seq![]);
    }
    if let Ok(samples) = wav_samples_i16(bytes) {
        audio_is_taken_up_to_ten_minutes(spec, SamplesView::I16(samples), seq![]);
    }
    if let Ok(samples) = wav_samples_i32(bytes) {
        audio_is_taken_up_to_ten_minutes(spec, SamplesView::I24(samples), seq![]);
        audio_is_taken_up_to_ten_minutes(spec, SamplesView::I32(samples), seq![]);
    }
}

/// Bytes that are no WAV file are refused in the words of the reader, and a
/// file that declares no channel for just that.
pub proof fn a_file_without_a_header_is_refused(bytes: Seq<u8>)
    ensures
        wav_header(bytes) matches Err(why) ==> wav_verdict(bytes) == Err::<
            WavDecodeView,
            AudioErrorView,
        >(AudioErrorView::Unreadable(why)),
        wav_header(bytes) matches Ok(spec) ==> (spec.channels == 0 ==> wav_verdict(bytes) == Err::<
            WavDecodeView,
            AudioErrorView,
        >(AudioErrorView::NoChannels)),
{
}

/// A decoding with its parts seen through their views.
pub open spec fn decode_seen(r: Result<WavDecode, AudioError>) -> Result<
    WavDecodeView,
    AudioErrorView,
> {
    match r {
        Ok(WavDecode::Audio(a)) => Ok(WavDecodeView::Audio(a@)),
        Ok(WavDecode::Float(spec)) => Ok(WavDecodeView::Float(spec)),
        Err(e) => Err(e@),
    }
}

/// Whether decoding comes to the very audio that a plain WAV file stores: what
/// it declares, its samples, and the scale of its bit depth.
pub open spec fn is_stored_audio(bytes: Seq<u8>, decode: WavDecodeView) -> bool {
    &&& decode matches WavDecodeView::Audio(audio)
    &&& audio.spec == plain_spec(bytes)
    &&& audio.samples.values() == plain_samples(bytes)
    &&& 2 * (audio.samples.full_scale() + 1) == vstd::arithmetic::power2::pow2(plain_bits(bytes))
}

/// The number of mono samples that a plain WAV file mixes down to.
pub open spec fn plain_frames(bytes: Seq<u8>) -> nat {
    frame_count(plain_samples(bytes).len(), plain_spec(bytes).channels as nat)
}

/// Decodes an uploaded WAV file. Whatever does not carry the tags of one is
/// refused as unreadable: there is no decoder for compressed audio. A plain
/// WAV file is decoded as it is stored, unless it lasts too long.
pub fn decode_wav(bytes: &[u8]) -> (r: Result<WavDecode, AudioError>)
    ensures
        decode_seen(r) == wav_verdict(bytes@),
        !has_wav_tags(bytes@) ==> (r matches Err(e) && e@ is Unreadable),
        is_plain_wav(bytes@) ==> if is_too_long(
            plain_frames(bytes@),
            plain_spec(bytes@).sample_rate as nat,
        ) {
            r matches Err(e) && e@ == AudioErrorView::TooLong(
                plain_frames(bytes@) as u64,
                plain_spec(bytes@).sample_rate,
            )
        } else {
            decode_seen(r) matches Ok(decode) && is_stored_audio(bytes@, decode)
        },
{
    proof {
        vstd::arithmetic::power2::lemma2_to64();
        reveal_with_fuel(le, 3);
    }
    let (spec, kind) = match judge_header(read_header(bytes)) {
        Ok(v) => v,
        Err(e) => return Err(e),
    };
    if kind == SampleKind::F32 {
        return Ok(WavDecode::Float(spec));
    }
    match judge_samples(spec, read_samples(bytes, kind)) {
        Ok(audio) => Ok(WavDecode::Audio(audio)),
        Err(e) => Err(e),
    }
}

// ------------------------------------------------------------ PCM16 frames

/// The signed 16-bit integer whose little-endian bytes are `low` and `high`.
pub open spec fn le_i16(low: u8, high: u8) -> int {
    let u = low + 256 * high;
    if u < 32_768 {
        u
    } else {
        u - 65_536
    }
}

/// The samples behind raw little-endian PCM16.
pub open spec fn pcm16(bytes: Seq<u8>) -> Seq<i16> {
    Seq::new(bytes.len() / 2, |i: int| le_i16(bytes[2 * i], bytes[2 * i + 1]) as i16)
}

/// Two bytes make a sample: its value is that of the two bytes, the low one
/// first, up to the sign that the highest bit stands for.
pub proof fn two_bytes_make_a_sample(bytes: Seq<u8>, i: int)
    ensures
        pcm16(bytes).len() == bytes.len() / 2,
        0 <= i < bytes.len() / 2 ==> ({
            let low = bytes[2 * i] as int;
            let high = bytes[2 * i + 1] as int;
            let sample = pcm16(bytes)[i] as int;
            &&& sample == low + 256 * high || sample == low + 256 * high - 65_536
            &&& sample < 0 <==> high >= 128
        }),
{
}

/// Unpacks raw little-endian PCM16, where there is no container to describe
/// the audio. Refuses a payload that ends in the middle of a sample.
pub fn decode_pcm16(bytes: &[u8]) -> (r: Result<Vec<i16>, AudioError>)
    ensures
        r is Ok <==> bytes@.len() % 2 == 0,
        r matches Ok(samples) ==> samples@ == pcm16(bytes@),
        r matches Err(e) ==> e@ == AudioErrorView::OddByteCount(bytes@.len() as usize),
{
    if bytes.len() % 2 != 0 {
        return Err(AudioError::OddByteCount(bytes.len()));
    }
    let n: usize = bytes.len() / 2;
    let mut samples: Vec<i16> = Vec::new();
    let mut i: usize = 0;
    while i < n
        invariant
            i <= n,
            2 * n == bytes.len(),
            samples@.len() == i,
            forall|j: int| 0 <= j < i ==> #[trigger] samples@[j] == pcm16(bytes@)[j],
        decreases n - i,
    {
        let u: i32 = bytes[2 * i] as i32 + 256 * bytes[2 * i + 1] as i32;
        let v: i32 = if u < 32_768 {
            u
        } else {
            u - 65_536
        };
        samples.push(v as i16);
        i = i + 1;
    }
    assert(samples@ =~= pcm16(bytes@));
    Ok(samples)
}

} // verus!
