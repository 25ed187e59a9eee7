use std::io::Cursor;

use handy_server::audio::{
    decode_pcm16, decode_wav, judge_header, judge_samples, resample_from, AudioError, SampleFormat,
    SampleKind, Samples, WavAudio, WavDecode, WavSpec, MAX_AUDIO_SECS, TARGET_HZ,
};
use handy_server::routes::MAX_UPLOAD_BYTES;

fn wav_i16(rate: u32, channels: u16, samples: &[i16]) -> Vec<u8> {
    let spec = hound::WavSpec {
        channels,
        sample_rate: rate,
        bits_per_sample: 16,
        sample_format: hound::SampleFormat::Int,
    };
    let mut buf = Cursor::new(Vec::new());
    {
        let mut w = hound::WavWriter::new(&mut buf, spec).unwrap();
        for s in samples {
            w.write_sample(*s).unwrap();
        }
        w.finalize().unwrap();
    }
    buf.into_inner()
}

fn wav_i32(rate: u32, channels: u16, bits: u16, samples: &[i32]) -> Vec<u8> {
    let spec = hound::WavSpec {
        channels,
        sample_rate: rate,
        bits_per_sample: bits,
        sample_format: hound::SampleFormat::Int,
    };
    let mut buf = Cursor::new(Vec::new());
    {
        let mut w = hound::WavWriter::new(&mut buf, spec).unwrap();
        for s in samples {
            w.write_sample(*s).unwrap();
        }
        w.finalize().unwrap();
    }
    buf.into_inner()
}

fn wav_f32(rate: u32, channels: u16, samples: &[f32]) -> Vec<u8> {
    let spec = hound::WavSpec {
        channels,
        sample_rate: rate,
        bits_per_sample: 32,
        sample_format: hound::SampleFormat::Float,
    };
    let mut buf = Cursor::new(Vec::new());
    {
        let mut w = hound::WavWriter::new(&mut buf, spec).unwrap();
        for s in samples {
            w.write_sample(*s).unwrap();
        }
        w.finalize().unwrap();
    }
    buf.into_inner()
}

/// A WAV file with the plainest header there is.
fn plain_wav(rate: u32, channels: u16, bits: u16, data: &[u8]) -> Vec<u8> {
    let frame = channels * (bits / 8);
    let mut wav = Vec::new();
    wav.extend_from_slice(b"RIFF");
    wav.extend_from_slice(&(36 + data.len() as u32).to_le_bytes());
    wav.extend_from_slice(b"WAVEfmt ");
    wav.extend_from_slice(&16u32.to_le_bytes());
    wav.extend_from_slice(&1u16.to_le_bytes());
    wav.extend_from_slice(&channels.to_le_bytes());
    wav.extend_from_slice(&rate.to_le_bytes());
    wav.extend_from_slice(&(rate * frame as u32).to_le_bytes());
    wav.extend_from_slice(&frame.to_le_bytes());
    wav.extend_from_slice(&bits.to_le_bytes());
    wav.extend_from_slice(b"data");
    wav.extend_from_slice(&(data.len() as u32).to_le_bytes());
    wav.extend_from_slice(data);
    wav
}

/// The samples between minus one and one.
fn scaled(samples: &Samples) -> Vec<f32> {
    let scale = samples.full_scale() as f32;
    match samples {
        Samples::I8(s) => s.iter().map(|v| *v as f32 / scale).collect(),
        Samples::I16(s) => s.iter().map(|v| *v as f32 / scale).collect(),
        Samples::I24(s) => s.iter().map(|v| *v as f32 / scale).collect(),
        Samples::I32(s) => s.iter().map(|v| *v as f32 / scale).collect(),
        Samples::F32(s) => s.iter().map(|v| f32::from_bits(*v)).collect(),
    }
}

/// The mean of every frame.
fn mixed(audio: &WavAudio) -> Vec<f32> {
    let all = scaled(&audio.samples);
    let mut mono = Vec::new();
    for i in 0..audio.frames() {
        let (start, end) = audio.frame(i);
        let frame = &all[start..end];
        mono.push(frame.iter().sum::<f32>() / frame.len() as f32);
    }
    mono
}

/// Decodes a file that needs no resampling into mono samples and its rate.
fn decode(bytes: &[u8]) -> Result<(Vec<f32>, u32), String> {
    let audio = match decode_wav(bytes).map_err(|e| e.message())? {
        WavDecode::Audio(audio) => audio,
        WavDecode::Float(spec) => {
            let mut reader = hound::WavReader::new(bytes).map_err(|e| e.to_string())?;
            let bits = reader
                .samples::<f32>()
                .map(|s| s.map(f32::to_bits))
                .collect::<Result<Vec<u32>, _>>()
                .map_err(|e| e.to_string());
            judge_samples(spec, bits.map(Samples::F32)).map_err(|e| e.message())?
        }
    };
    assert_eq!(audio.resample_from(), None);
    Ok((mixed(&audio), audio.spec.sample_rate))
}

fn audio_of(bytes: &[u8]) -> WavAudio {
    match decode_wav(bytes).unwrap() {
        WavDecode::Audio(audio) => audio,
        WavDecode::Float(_) => panic!("floats"),
    }
}

#[test]
fn passes_16k_mono_through_untouched() {
    let bytes = wav_i16(16_000, 1, &[0, 16384, -16384, 0]);
    let (out, rate) = decode(&bytes).unwrap();
    assert_eq!(rate, 16_000);
    assert_eq!(out.len(), 4);
    assert!((out[1] - 0.5).abs() < 0.001, "got {}", out[1]);
}

#[test]
fn downmixes_stereo_to_mono() {
    // Two frames of (L, R): (1.0, 0.0) and (0.0, 1.0) average to 0.5 each.
    let bytes = wav_i16(16_000, 2, &[i16::MAX, 0, 0, i16::MAX]);
    let (out, _) = decode(&bytes).unwrap();
    assert_eq!(out.len(), 2);
    assert!((out[0] - 0.5).abs() < 0.01, "got {}", out[0]);
    assert!((out[1] - 0.5).abs() < 0.01, "got {}", out[1]);
}

#[test]
fn scales_24_bit_by_the_sample_width_not_the_container() {
    // i24 arrives in an i32 container, and dividing by i32::MAX instead of
    // 2^23-1 attenuates everything by 256: audio that still decodes, still
    // transcribes, and is simply too quiet to hear.
    let bytes = wav_i32(16_000, 1, 24, &[8_388_607i32, -8_388_607, 0]);
    let (out, rate) = decode(&bytes).unwrap();
    assert_eq!(rate, 16_000);
    assert!((out[0] - 1.0).abs() < 0.001, "full scale decoded as {}", out[0]);
    assert!((out[1] + 1.0).abs() < 0.001, "full negative decoded as {}", out[1]);
}

#[test]
fn rejects_non_wav() {
    assert!(decode(b"ID3\x04\x00not actually a wav").is_err());
}

#[test]
fn rejects_audio_over_the_length_limit() {
    // Declare a very low rate so a small buffer is a very long recording:
    // proves the limit is enforced on duration, not on byte count.
    let bytes = wav_i16(8_000, 1, &vec![0i16; 8_000 * 601]);
    let err = decode(&bytes).unwrap_err();
    assert!(err.contains("longer than"), "got: {}", err);
}

#[test]
fn decodes_pcm16_frames() {
    let raw: Vec<u8> = [0i16, i16::MAX, -i16::MAX].iter().flat_map(|s| s.to_le_bytes()).collect();
    let samples = decode_pcm16(&raw).unwrap();
    assert_eq!(resample_from(samples.len(), TARGET_HZ), None);
    let out = scaled(&Samples::I16(samples));
    assert_eq!(out.len(), 3);
    assert!((out[1] - 1.0).abs() < 0.001);
}

#[test]
fn rejects_odd_length_pcm16() {
    assert!(decode_pcm16(&[0u8, 1, 2]).is_err());
}

#[test]
fn every_pcm16_sample_is_unpacked() {
    let all: Vec<i16> = (i16::MIN..=i16::MAX).collect();
    let raw: Vec<u8> = all.iter().flat_map(|s| s.to_le_bytes()).collect();
    assert_eq!(decode_pcm16(&raw).unwrap(), all);
    assert!(decode_pcm16(&[]).unwrap().is_empty());
}

#[test]
fn an_odd_payload_is_told_its_length() {
    assert_eq!(
        decode_pcm16(&[1, 2, 3]).unwrap_err().message(),
        "PCM16 payload has an odd byte count (3)"
    );
}

#[test]
fn each_bit_depth_is_read_into_its_width() {
    let eight = audio_of(&wav_i32(16_000, 1, 8, &[-128, -1, 0, 127]));
    assert!(matches!(&eight.samples, Samples::I8(s) if *s == [-128, -1, 0, 127]));
    assert_eq!(eight.samples.full_scale(), i8::MAX as i32);

    let sixteen = audio_of(&wav_i16(16_000, 1, &[i16::MIN, -2, 3, i16::MAX]));
    assert!(matches!(&sixteen.samples, Samples::I16(s) if *s == [i16::MIN, -2, 3, i16::MAX]));
    assert_eq!(sixteen.samples.full_scale(), i16::MAX as i32);

    let many = audio_of(&wav_i32(16_000, 1, 24, &[-8_388_608, -5, 7, 8_388_607]));
    assert!(matches!(&many.samples, Samples::I24(s) if *s == [-8_388_608, -5, 7, 8_388_607]));
    assert_eq!(many.samples.full_scale(), 8_388_607);

    let most = audio_of(&wav_i32(16_000, 1, 32, &[i32::MIN, -5, 7, i32::MAX]));
    assert!(matches!(&most.samples, Samples::I32(s) if *s == [i32::MIN, -5, 7, i32::MAX]));
    assert_eq!(most.samples.full_scale(), i32::MAX);
    assert_eq!(most.samples.len(), 4);
}

#[test]
fn a_plain_file_is_decoded_as_it_is_stored() {
    let eight = audio_of(&plain_wav(11_025, 1, 8, &[0, 127, 128, 255]));
    assert!(matches!(&eight.samples, Samples::I8(s) if *s == [-128, -1, 0, 127]));

    let sixteen = audio_of(&plain_wav(44_100, 2, 16, &[0, 128, 1, 0, 255, 255, 255, 127]));
    assert_eq!(
        sixteen.spec,
        WavSpec {
            channels: 2,
            sample_rate: 44_100,
            bits_per_sample: 16,
            sample_format: SampleFormat::Int,
        }
    );
    assert!(matches!(&sixteen.samples, Samples::I16(s) if *s == [-32_768, 1, -1, 32_767]));
    assert_eq!(sixteen.frames(), 2);
    assert_eq!(sixteen.resample_from(), Some(44_100));

    let many = audio_of(&plain_wav(16_000, 1, 24, &[0, 0, 128, 255, 255, 255, 1, 2, 3]));
    assert!(matches!(&many.samples, Samples::I24(s) if *s == [-8_388_608, -1, 197_121]));

    let most = audio_of(&plain_wav(16_000, 1, 32, &[0, 0, 0, 128, 254, 255, 255, 255, 1, 2, 3, 4]));
    assert!(matches!(&most.samples, Samples::I32(s) if *s == [i32::MIN, -2, 67_305_985]));
}

#[test]
fn floats_are_taken_as_their_bits() {
    let bytes = wav_f32(16_000, 2, &[0.5, -0.25, 1.0, 0.0]);
    match decode_wav(&bytes).unwrap() {
        WavDecode::Float(spec) => {
            assert_eq!(spec.channels, 2);
            assert_eq!(spec.bits_per_sample, 32);
            assert_eq!(spec.sample_format, SampleFormat::Float);
        }
        WavDecode::Audio(_) => panic!("integers"),
    }
    let (out, _) = decode(&bytes).unwrap();
    assert_eq!(out, [0.125, 0.5]);
}

#[test]
fn a_mono_file_mixes_down_to_itself() {
    let audio = audio_of(&wav_i16(16_000, 1, &[3, 1, 4, 1, 5]));
    assert_eq!(audio.frames(), 5);
    for i in 0..5 {
        assert_eq!(audio.frame(i), (i, i + 1));
    }
}

#[test]
fn frames_cover_the_samples_without_gap_or_overlap() {
    let spec = |channels| WavSpec {
        channels,
        sample_rate: 16_000,
        bits_per_sample: 16,
        sample_format: SampleFormat::Int,
    };
    for channels in 1..8u16 {
        for len in 0..40usize {
            let audio = judge_samples(spec(channels), Ok(Samples::I16(vec![0; len]))).unwrap();
            let expected: Vec<usize> = vec![0u8; len].chunks(channels as usize).map(|c| c.len()).collect();
            assert_eq!(audio.frames(), expected.len());
            let mut next = 0;
            for (i, n) in expected.iter().enumerate() {
                assert_eq!(audio.frame(i), (next, next + n));
                next += n;
            }
            assert_eq!(next, len);
        }
    }
}

#[test]
fn resamples_44k_to_16k() {
    // One second of 44.1 kHz silence is one second to bring to 16 kHz.
    let bytes = wav_i16(44_100, 1, &vec![0i16; 44_100]);
    let audio = audio_of(&bytes);
    let rate = audio.spec.sample_rate;
    assert_eq!(rate, 44_100);
    assert_eq!(audio.frames(), 44_100);
    assert_eq!(audio.resample_from(), Some(44_100));
    let secs = audio.frames() as f64 / rate as f64;
    assert!((secs - 1.0).abs() < 0.05, "got {:.3}s ({} frames)", secs, audio.frames());
}

#[test]
fn only_audio_of_another_rate_is_resampled() {
    assert_eq!(resample_from(100, 44_100), Some(44_100));
    assert_eq!(resample_from(100, 16_000), None);
    assert_eq!(resample_from(0, 44_100), None);
    assert_eq!(resample_from(100, 0), None);
    let one_second = audio_of(&wav_i16(44_100, 1, &vec![0i16; 44_100]));
    assert_eq!(one_second.spec.sample_rate, 44_100);
    assert_eq!(one_second.resample_from(), Some(44_100));
    assert_eq!(one_second.frames(), 44_100);
}

#[test]
fn the_limit_is_ten_minutes_to_the_sample() {
    let spec = WavSpec {
        channels: 1,
        sample_rate: 2,
        bits_per_sample: 8,
        sample_format: SampleFormat::Int,
    };
    assert!(judge_samples(spec, Ok(Samples::I8(vec![0; 1_200]))).is_ok());
    let err = judge_samples(spec, Ok(Samples::I8(vec![0; 1_201]))).unwrap_err();
    assert!(matches!(err, AudioError::TooLong { frames: 1_201, sample_rate: 2 }));
    assert_eq!(err.message(), "audio is 600.5s, longer than the 600s limit");
    // Two channels last half as long.
    let stereo = WavSpec { channels: 2, ..spec };
    assert!(judge_samples(stereo, Ok(Samples::I8(vec![0; 2_400]))).is_ok());
    // A rate of zero counts as one.
    let still = WavSpec { sample_rate: 0, ..spec };
    assert!(judge_samples(still, Ok(Samples::I8(vec![0; 600]))).is_ok());
    assert_eq!(
        judge_samples(still, Ok(Samples::I8(vec![0; 601]))).unwrap_err().message(),
        "audio is 601.0s, longer than the 600s limit"
    );
}

#[test]
fn a_duration_is_shown_as_a_double_is_printed() {
    let check = |frames: u64, sample_rate: u32| {
        let secs = frames as f64 / sample_rate.max(1) as f64;
        let expected = format!("audio is {:.1}s, longer than the {:.0}s limit", secs, 600.0);
        assert_eq!(AudioError::TooLong { frames, sample_rate }.message(), expected);
    };
    // Halves of a tenth, which a double holds exactly, or a little off.
    for n in 0..400u64 {
        check(600 * 20 + 1 + n, 20);
        check(600 * 100 + 5 + 10 * n, 100);
        check(600 * 16_000 + 800 + 1_600 * n, 16_000);
        check(600 * 44_100 + 2_205 + 4_410 * n, 44_100);
        check(600 * 4 + n + 1, 4);
    }
    let mut seed: u64 = 0x9e37_79b9_7f4a_7c15;
    for _ in 0..20_000 {
        seed = seed.wrapping_mul(6_364_136_223_846_793_005).wrapping_add(1_442_695_040_888_963_407);
        let rate = ((seed >> 33) as u32).max(1) >> (seed % 31);
        let rate = rate.max(1);
        seed = seed.wrapping_mul(6_364_136_223_846_793_005).wrapping_add(1_442_695_040_888_963_407);
        let over = (seed >> 40) % (1 << (seed % 24));
        check(600 * rate as u64 + 1 + over, rate);
    }
    check(601, 0);
    check(u32::MAX as u64, 1);
}

#[test]
fn unsupported_and_broken_files_say_why() {
    let spec = |bits, sample_format| WavSpec {
        channels: 1,
        sample_rate: 16_000,
        bits_per_sample: bits,
        sample_format,
    };
    assert_eq!(
        judge_header(Ok(spec(12, SampleFormat::Int))).unwrap_err().message(),
        "unsupported WAV sample format: Int at 12 bits"
    );
    assert_eq!(
        judge_header(Ok(spec(64, SampleFormat::Float))).unwrap_err().message(),
        "unsupported WAV sample format: Float at 64 bits"
    );
    assert_eq!(
        judge_header(Ok(spec(16, SampleFormat::Float))).unwrap_err().message(),
        "unsupported WAV sample format: Float at 16 bits"
    );
    for (bits, kind) in [
        (8, SampleKind::I8),
        (16, SampleKind::I16),
        (24, SampleKind::I24),
        (32, SampleKind::I32),
    ] {
        assert_eq!(judge_header(Ok(spec(bits, SampleFormat::Int))).unwrap().1, kind);
    }
    assert_eq!(
        judge_header(Ok(spec(32, SampleFormat::Float))).unwrap().1,
        SampleKind::F32
    );
    let silent = WavSpec { channels: 0, ..spec(16, SampleFormat::Int) };
    assert_eq!(judge_header(Ok(silent)).unwrap_err().message(), "WAV declares zero channels");
    assert_eq!(
        judge_header(Err("no RIFF tag found".to_string())).unwrap_err().message(),
        "not a readable WAV file: no RIFF tag found"
    );
    assert_eq!(
        judge_samples(spec(16, SampleFormat::Int), Err("torn".to_string())).unwrap_err().message(),
        "torn"
    );
}

#[test]
fn the_readers_own_words_are_passed_on() {
    let words = hound::WavReader::new(&b"ID3\x04\x00not actually a wav"[..]).err().unwrap().to_string();
    assert_eq!(
        decode_wav(b"ID3\x04\x00not actually a wav").unwrap_err().message(),
        format!("not a readable WAV file: {words}")
    );
    // A file that promises more samples than it holds.
    let mut torn = wav_i16(16_000, 1, &[1, 2, 3, 4]);
    torn.truncate(torn.len() - 3);
    let words = hound::WavReader::new(&torn[..])
        .unwrap()
        .samples::<i16>()
        .find_map(|s| s.err())
        .unwrap()
        .to_string();
    match decode_wav(&torn).unwrap_err() {
        AudioError::BrokenSamples(why) => assert_eq!(why, words),
        other => panic!("got {other:?}"),
    }
}

#[test]
fn compressed_audio_is_unreadable() {
    for bytes in [
        &b"ID3\x04"[..],
        b"OggS\x00\x02",
        b"\x00\x00\x00\x20ftypM4A ",
        b"fLaC\x00\x00\x00\x22",
        b"RIFF",
        b"RIFF\x00\x00\x00\x00AVI ",
        b"",
    ] {
        assert!(matches!(decode_wav(bytes), Err(AudioError::Unreadable(_))));
    }
}

#[test]
fn an_upload_may_hold_ten_minutes_of_cd_quality() {
    assert!(MAX_UPLOAD_BYTES as u64 >= 44 + MAX_AUDIO_SECS * 44_100 * 2 * 2);
    assert_eq!(MAX_UPLOAD_BYTES, 128 * 1024 * 1024);
}

#[test]
fn a_doubled_channel_changes_neither_length_nor_level() {
    let mono = [5i16, -7, i16::MAX, i16::MIN, 0];
    for channels in 1..5u16 {
        let copied: Vec<i16> =
            mono.iter().flat_map(|s| vec![*s; channels as usize]).collect();
        let audio = audio_of(&wav_i16(16_000, channels, &copied));
        assert_eq!(audio.frames(), mono.len());
        for (i, sample) in mono.iter().enumerate() {
            let (start, end) = audio.frame(i);
            let sum: i32 = copied[start..end].iter().map(|s| *s as i32).sum();
            assert_eq!(sum, *sample as i32 * (end - start) as i32);
        }
    }
    let (once, _) = decode(&wav_i16(16_000, 1, &mono)).unwrap();
    let twice: Vec<i16> = mono.iter().flat_map(|s| [*s, *s]).collect();
    assert_eq!(decode(&wav_i16(16_000, 2, &twice)).unwrap().0, once);
}
