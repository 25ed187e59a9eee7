use std::sync::Arc;

use handy_server::audio::{AudioError, Samples};
use handy_server::error::StatusCode;
use handy_server::host::{AppSettings, ModelInfo, Models, ServerHost, StreamTextEvent};
use handy_server::transcription::{
    check_samples, decode_upload, field_kind, read_multipart, refuse_audio, render, respond,
    run_transcription, transcriptions, AcceptedUpload, FieldKind, FloatUpload, FormEvent, JobAction,
    Reply, TaskOutcome, TranscriptionJob, TranscriptionRequest, Upload, UploadDecode,
};

struct NoModels;

impl Models for NoModels {
    fn available(&self) -> Vec<ModelInfo> {
        Vec::new()
    }
    fn info(&self, _model_id: &str) -> Option<ModelInfo> {
        None
    }
}

struct Host;

impl ServerHost for Host {
    type Catalogue = NoModels;
    fn settings(&self) -> AppSettings {
        AppSettings {
            server_enabled: true,
            server_port: 8915,
            server_token: None,
            server_allow_lan: false,
            selected_model: "base".to_string(),
            selected_language: "de".to_string(),
        }
    }
    fn models(&self) -> Arc<NoModels> {
        Arc::new(NoModels)
    }
    fn show_transcribing_overlay(&self) {}
    fn show_streaming_overlay(&self) {}
    fn hide_recording_overlay(&self) {}
    fn listen_stream_text<F: Fn(StreamTextEvent) + Send + Sync + 'static>(&self, _on: F) -> u32 {
        0
    }
    fn unlisten(&self, _id: u32) {}
}

fn form() -> TranscriptionRequest {
    transcriptions(None, None).unwrap()
}

fn text(s: &str) -> Option<String> {
    Some(s.to_string())
}

/// A plain WAV file of 16-bit mono samples.
fn wav(rate: u32, samples: &[i16]) -> Vec<u8> {
    let len = 2 * samples.len() as u32;
    let mut wav = b"RIFF".to_vec();
    wav.extend_from_slice(&(36 + len).to_le_bytes());
    wav.extend_from_slice(b"WAVEfmt \x10\x00\x00\x00\x01\x00\x01\x00");
    wav.extend_from_slice(&rate.to_le_bytes());
    wav.extend_from_slice(&(2 * rate).to_le_bytes());
    wav.extend_from_slice(b"\x02\x00\x10\x00data");
    wav.extend_from_slice(&len.to_le_bytes());
    wav.extend(samples.iter().flat_map(|s| s.to_le_bytes()));
    wav
}

fn decoded(file: Vec<u8>) -> UploadDecode {
    let req = read_multipart(form(), vec![FormEvent::File(Ok(file))]).unwrap();
    decode_upload(&req).unwrap()
}

fn uploaded(rate: u32, samples: &[i16]) -> Upload {
    match decoded(wav(rate, samples)) {
        UploadDecode::Audio(upload) => upload,
        UploadDecode::Float(_) => panic!("floats"),
    }
}

fn accepted(rate: u32, samples: usize) -> AcceptedUpload {
    check_samples(&uploaded(rate, &[1, -1]), samples).unwrap()
}

fn floats(file: Vec<u8>) -> FloatUpload {
    match decoded(file) {
        UploadDecode::Float(floats) => floats,
        UploadDecode::Audio(_) => panic!("integers"),
    }
}

/// Actions by name, with what they carry.
fn names(actions: &[JobAction]) -> Vec<String> {
    actions
        .iter()
        .map(|a| match a {
            JobAction::LoadModel(id) => format!("load {id}"),
            JobAction::InitiateModelLoad => "initiate".to_string(),
            JobAction::ShowTranscribingOverlay => "show".to_string(),
            JobAction::Transcribe => "transcribe".to_string(),
            JobAction::HideRecordingOverlay => "hide".to_string(),
            JobAction::Answer(Ok(text)) => format!("ok {text}"),
            JobAction::Answer(Err(e)) => format!("{} {}", e.status.as_u16(), e.message),
        })
        .collect()
}

#[test]
fn fields_are_known_by_their_exact_names() {
    assert_eq!(field_kind("file"), FieldKind::File);
    assert_eq!(field_kind("model"), FieldKind::Model);
    assert_eq!(field_kind("response_format"), FieldKind::ResponseFormat);
    for name in ["language", "prompt", "temperature", "File", "file ", "", "models"] {
        assert_eq!(field_kind(name), FieldKind::Ignored);
    }
}

#[test]
fn a_form_amounts_to_its_last_fields() {
    let req = read_multipart(
        form(),
        vec![
            FormEvent::Model(text("small")),
            FormEvent::File(Ok(vec![1, 2])),
            FormEvent::Ignored,
            FormEvent::ResponseFormat(text("text")),
            FormEvent::File(Ok(vec![3])),
            FormEvent::Model(text("large")),
        ],
    )
    .unwrap();
    assert_eq!(req.file(), Some(&[3u8][..]));
    assert_eq!(req.model(), Some("large"));
    assert_eq!(req.response_format(), Some("text"));
}

#[test]
fn an_empty_or_unreadable_model_is_none() {
    for model in [text(""), None] {
        let events = vec![FormEvent::Model(text("small")), FormEvent::Model(model)];
        assert_eq!(read_multipart(form(), events).unwrap().model(), None);
    }
    // An empty response format is one, and not supported.
    let events = vec![FormEvent::ResponseFormat(text(""))];
    assert_eq!(read_multipart(form(), events).unwrap().response_format(), Some(""));
}

#[test]
fn an_ignored_field_changes_nothing() {
    let with = read_multipart(
        form(),
        vec![FormEvent::File(Ok(vec![7])), FormEvent::Ignored, FormEvent::Model(text("m"))],
    )
    .unwrap();
    let without =
        read_multipart(form(), vec![FormEvent::File(Ok(vec![7])), FormEvent::Model(text("m"))])
            .unwrap();
    assert_eq!(with.file(), without.file());
    assert_eq!(with.model(), without.model());
    assert_eq!(with.response_format(), without.response_format());
}

#[test]
fn a_form_fails_on_the_first_field_that_cannot_be_read() {
    let e = read_multipart(
        form(),
        vec![
            FormEvent::Ignored,
            FormEvent::File(Err("length limit exceeded".to_string())),
            FormEvent::Broken("torn".to_string()),
        ],
    )
    .unwrap_err();
    assert_eq!(e.status, StatusCode::PayloadTooLarge);
    assert_eq!(e.message, "could not read `file`: length limit exceeded");
    let e = read_multipart(form(), vec![FormEvent::Broken("torn".to_string())]).unwrap_err();
    assert_eq!(e.status, StatusCode::BadRequest);
    assert_eq!(e.message, "could not read the multipart body: torn");
}

#[test]
fn a_field_that_fails_leaves_the_request_as_it_was() {
    let mut req = form();
    assert!(req.take(FormEvent::Model(text("m"))).is_ok());
    assert!(req.take(FormEvent::File(Err("no".to_string()))).is_err());
    assert_eq!(req.model(), Some("m"));
    assert_eq!(req.file(), None);
}

#[test]
fn an_upload_is_decoded() {
    let upload = uploaded(16_000, &[1, -1]);
    assert!(matches!(&upload.audio().samples, Samples::I16(s) if *s == [1, -1]));
    assert_eq!(upload.audio().resample_from(), None);
}

#[test]
fn an_upload_of_floats_is_taken_as_its_bits() {
    let spec = hound::WavSpec {
        channels: 1,
        sample_rate: 2,
        bits_per_sample: 32,
        sample_format: hound::SampleFormat::Float,
    };
    let mut buf = std::io::Cursor::new(Vec::new());
    let mut w = hound::WavWriter::new(&mut buf, spec).unwrap();
    w.write_sample(0.5f32).unwrap();
    w.finalize().unwrap();
    let file = buf.into_inner();
    let upload = floats(file.clone()).read(Ok(vec![0.5f32.to_bits()])).unwrap();
    assert!(matches!(&upload.audio().samples, Samples::F32(s) if *s == [0.5f32.to_bits()]));
    let e = floats(file.clone()).read(Ok(vec![0; 1_201])).unwrap_err();
    assert_eq!(e.status, StatusCode::UnsupportedMediaType);
    assert_eq!(
        e.message,
        "audio is 600.5s, longer than the 600s limit. This server accepts WAV only (any rate, any channel count)."
    );
    let e = floats(file).read(Err("torn".to_string())).unwrap_err();
    assert_eq!(e.status, StatusCode::UnsupportedMediaType);
    assert_eq!(
        e.message,
        "torn. This server accepts WAV only (any rate, any channel count)."
    );
}

#[test]
fn a_plain_file_that_lasts_too_long_is_an_unsupported_media_type() {
    let long = FormEvent::File(Ok(wav(1, &[0; 601])));
    let e = decode_upload(&read_multipart(form(), vec![long]).unwrap()).unwrap_err();
    assert_eq!(e.status, StatusCode::UnsupportedMediaType);
    assert_eq!(
        e.message,
        "audio is 601.0s, longer than the 600s limit. This server accepts WAV only (any rate, any channel count)."
    );
    assert_eq!(uploaded(1, &[0; 600]).audio().frames(), 600);
}

#[test]
fn refused_audio_is_an_unsupported_media_type() {
    let e = refuse_audio(&AudioError::NoChannels);
    assert_eq!(e.status, StatusCode::UnsupportedMediaType);
    assert_eq!(
        e.message,
        "WAV declares zero channels. This server accepts WAV only (any rate, any channel count)."
    );
}

#[test]
fn audio_without_samples_is_refused() {
    let upload = uploaded(44_100, &[1, 2, 3]);
    let accepted = check_samples(&upload, 1).unwrap();
    assert_eq!(accepted.samples(), 1);
    assert_eq!(accepted.source_rate(), 44_100);
    let e = check_samples(&upload, 0).unwrap_err();
    assert_eq!(e.status, StatusCode::BadRequest);
    assert_eq!(e.message, "decoded audio contains no samples");
}

#[test]
fn a_request_that_names_no_model_uses_the_selected_one() {
    let (mut job, actions) = run_transcription(&Host, &accepted(16_000, 2), None, true);
    assert_eq!(names(&actions), ["initiate", "show", "transcribe"]);
    assert_eq!(names(&job.finished(TaskOutcome::Text("hello".to_string()))), ["hide", "ok hello"]);
    // Naming the selected one is the same.
    let (_, actions) = run_transcription(&Host, &accepted(16_000, 2), Some("base"), true);
    assert_eq!(names(&actions), ["initiate", "show", "transcribe"]);
}

#[test]
fn a_request_that_names_another_model_loads_it() {
    let (mut job, actions) = run_transcription(&Host, &accepted(16_000, 2), Some("large"), false);
    assert_eq!(names(&actions), ["load large"]);
    assert_eq!(names(&job.loaded(Ok(()))), ["initiate", "transcribe"]);
    assert_eq!(names(&job.finished(TaskOutcome::Text("hi".to_string()))), ["ok hi"]);
}

#[test]
fn a_model_that_does_not_load_is_a_bad_request() {
    let (mut job, _) = TranscriptionJob::begin(&accepted(16_000, 2), Some("large"), "base", true);
    assert_eq!(
        names(&job.loaded(Err("not downloaded".to_string()))),
        ["400 could not load model `large`: not downloaded"]
    );
    assert!(job.loaded(Ok(())).is_empty());
    assert!(job.finished(TaskOutcome::Text("late".to_string())).is_empty());
}

#[test]
fn a_failed_transcription_is_an_internal_error() {
    let (mut job, _) = TranscriptionJob::begin(&accepted(16_000, 2), None, "base", true);
    assert_eq!(
        names(&job.finished(TaskOutcome::Failed("out of memory".to_string()))),
        ["hide", "500 transcription failed: out of memory"]
    );
    let (mut job, _) = TranscriptionJob::begin(&accepted(16_000, 2), None, "base", false);
    assert_eq!(
        names(&job.finished(TaskOutcome::Lost("panicked".to_string()))),
        ["500 transcription task did not finish: panicked"]
    );
}

#[test]
fn the_overlay_is_hidden_as_often_as_it_is_shown() {
    for requested in [None, Some("base"), Some("large")] {
        for load in [Ok(()), Err("no".to_string())] {
            for show_overlay in [true, false] {
                let (mut job, mut seen) = TranscriptionJob::begin(&accepted(16_000, 2), requested, "base", show_overlay);
                seen.extend(job.loaded(load.clone()));
                seen.extend(job.finished(TaskOutcome::Failed("no".to_string())));
                seen.extend(job.finished(TaskOutcome::Failed("again".to_string())));
                let seen = names(&seen);
                let count = |name: &str| seen.iter().filter(|n| *n == name).count();
                assert_eq!(count("show"), count("hide"));
                assert!(count("show") <= show_overlay as usize);
                let answers = seen.iter().filter(|n| n.starts_with("500") || n.starts_with("400"));
                assert_eq!(answers.count(), 1);
            }
        }
    }
}

fn json(reply: Reply) -> String {
    match reply {
        Reply::Json(body) => body,
        Reply::Text(text) => panic!("plain text: {text}"),
    }
}

#[test]
fn the_answer_comes_in_the_format_that_is_asked_for() {
    let say = || "Hello \"world\"".to_string();
    for format in [None, Some("json")] {
        assert_eq!(
            json(render(format, say(), "en", 16_000, 44_100).unwrap()),
            r#"{"text":"Hello \"world\""}"#
        );
    }
    assert!(matches!(
        render(Some("text"), say(), "en", 16_000, 44_100).unwrap(),
        Reply::Text(t) if t == "Hello \"world\""
    ));
    assert_eq!(
        json(render(Some("verbose_json"), say(), "en", 24_000, 44_100).unwrap()),
        concat_parts(&[
            r#"{"task":"transcribe","language":"en","duration":1.5,"#,
            r#""source_sample_rate":44100,"text":"Hello \"world\""}"#,
        ])
    );
    let e = render(Some("srt"), say(), "en", 16_000, 44_100).unwrap_err();
    assert_eq!(e.status, StatusCode::BadRequest);
    assert_eq!(e.message, "unsupported response_format `srt` (use json, text or verbose_json)");
}

fn concat_parts(parts: &[&str]) -> String {
    parts.concat()
}

#[test]
fn a_verbose_answer_tells_the_language_of_the_settings() {
    let upload = accepted(48_000, 8_000);
    let body = json(respond(&Host, &upload, Some("verbose_json"), "x".to_string()).unwrap());
    assert_eq!(
        body,
        r#"{"task":"transcribe","language":"de","duration":0.5,"source_sample_rate":48000,"text":"x"}"#
    );
}

#[test]
fn a_duration_is_written_as_a_double_would_be() {
    let mut counts: Vec<usize> = (0..40_000).collect();
    counts.extend([159_999, 160_000, 160_001, 9_599_999, 9_600_000, 123_456_789]);
    for samples in counts {
        let body = json(render(Some("verbose_json"), String::new(), "", samples, 1).unwrap());
        let secs = samples as f64 / 16_000.0;
        let written = serde_json::Value::from(secs).to_string();
        assert!(body.contains(&format!("\"duration\":{written},")), "{samples}: {body}");
    }
}
