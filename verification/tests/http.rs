use std::sync::Arc;

use handy_server::error::{ApiError, StatusCode};
use handy_server::host::{AppSettings, ModelInfo, Models, ServerHost, StreamTextEvent};
use handy_server::routes::{
    check_access, healthz, list_models, model_list, router, Endpoint, Health, Method,
};
use handy_server::transcription::{
    check_samples, decode_upload, field_kind, read_multipart, transcriptions, AcceptedUpload,
    FieldKind, FormEvent, UploadDecode,
};

struct Catalogue;

impl Models for Catalogue {
    fn available(&self) -> Vec<ModelInfo> {
        vec![
            ModelInfo {
                id: "parakeet \"v3\"".to_string(),
                is_downloaded: true,
                supports_streaming: false,
            },
            ModelInfo {
                id: "nemotron".to_string(),
                is_downloaded: false,
                supports_streaming: true,
            },
        ]
    }
    fn info(&self, model_id: &str) -> Option<ModelInfo> {
        self.available().into_iter().find(|m| m.id == model_id)
    }
}

struct FakeHost;

impl ServerHost for FakeHost {
    type Catalogue = Catalogue;
    fn settings(&self) -> AppSettings {
        AppSettings {
            server_enabled: false,
            server_port: 8915,
            server_token: None,
            server_allow_lan: false,
            selected_model: "nemotron".to_string(),
            selected_language: "en".to_string(),
        }
    }
    fn models(&self) -> Arc<Catalogue> {
        Arc::new(Catalogue)
    }
    fn show_transcribing_overlay(&self) {}
    fn show_streaming_overlay(&self) {}
    fn hide_recording_overlay(&self) {}
    fn listen_stream_text<F: Fn(StreamTextEvent) + Send + Sync + 'static>(&self, _on: F) -> u32 {
        1
    }
    fn unlisten(&self, _id: u32) {}
}

/// What a GET without a body comes to, as an HTTP status.
fn get(token: Option<&str>, authorization: Option<&[u8]>, path: &str, query: Option<&str>) -> u16 {
    let route = match router().into_iter().find(|r| r.path == path && r.method == Method::Get) {
        Some(route) => route,
        None => return 404,
    };
    match check_access(route.endpoint, token, authorization, query) {
        Err(e) => return e.status.as_u16(),
        Ok(()) => {}
    }
    match route.endpoint {
        Endpoint::Healthz => {
            healthz(&FakeHost, "1.0.0", false, None);
            200
        }
        Endpoint::ListModels => match list_models(&FakeHost, token, authorization) {
            Ok(_) => 200,
            Err(e) => e.status.as_u16(),
        },
        _ => panic!("no test here reaches {path}"),
    }
}

/// What an upload of some parts comes to before it would be transcribed.
fn upload(token: Option<&str>, parts: &[(&str, Option<&[u8]>)]) -> Result<AcceptedUpload, ApiError> {
    let form = transcriptions(token, None)?;
    let mut events = Vec::new();
    for (name, content) in parts {
        let bytes = content.unwrap_or(b"").to_vec();
        let text = String::from_utf8(bytes.clone()).ok();
        events.push(match field_kind(name) {
            FieldKind::File => FormEvent::File(Ok(bytes)),
            FieldKind::Model => FormEvent::Model(text),
            FieldKind::ResponseFormat => FormEvent::ResponseFormat(text),
            FieldKind::Ignored => FormEvent::Ignored,
        });
    }
    let req = read_multipart(form, events)?;
    match decode_upload(&req)? {
        UploadDecode::Audio(upload) => check_samples(&upload, upload.audio().frames()),
        UploadDecode::Float(_) => panic!("floats"),
    }
}

fn upload_status(parts: &[(&str, Option<&[u8]>)]) -> u16 {
    upload(None, parts).unwrap_err().status.as_u16()
}

#[test]
fn healthz_needs_no_token_even_when_one_is_set() {
    // Liveness must answer a supervisor that holds no credential.
    assert_eq!(get(Some("secret"), None, "/healthz", None), 200);
}

#[test]
fn a_missing_token_is_refused_on_the_model_list() {
    assert_eq!(get(Some("secret"), None, "/v1/models", None), 401);
}

#[test]
fn a_wrong_token_is_refused_on_the_model_list() {
    assert_eq!(get(Some("secret"), Some(b"Bearer wrong"), "/v1/models", None), 401);
}

#[test]
fn a_query_token_is_refused_on_an_http_route() {
    // `?token=` exists for the websocket upgrade, where a browser cannot set a
    // header. Accepting it here would put the secret in every access log.
    assert_eq!(get(Some("secret"), None, "/v1/models", Some("secret")), 401);
}

#[test]
fn transcription_without_a_token_is_refused_before_the_body_is_read() {
    assert_eq!(transcriptions(Some("secret"), None).unwrap_err().status.as_u16(), 401);
    assert_eq!(upload(Some("secret"), &[]).unwrap_err().status.as_u16(), 401);
}

#[test]
fn an_unknown_path_is_not_found_rather_than_unauthorized() {
    // A 401 here would tell an unauthenticated caller which paths exist.
    assert_eq!(get(Some("secret"), None, "/v1/nope", None), 404);
}

#[test]
fn an_upload_with_no_file_part_is_a_bad_request() {
    assert_eq!(upload_status(&[("model", None)]), 400);
}

#[test]
fn an_empty_file_is_a_bad_request() {
    assert_eq!(upload_status(&[("file", Some(b""))]), 400);
}

#[test]
fn a_non_wav_upload_is_unsupported_media_type() {
    // The common case is an mp3 or m4a, which decodes as "not a readable WAV".
    // 415 rather than 400 so the client learns the format is the problem.
    assert_eq!(upload_status(&[("file", Some(b"ID3\x04\x00not actually a wav"))]), 415);
}

#[test]
fn a_wav_with_no_audio_is_a_bad_request() {
    // A valid, well-formed header describing zero frames: it decodes cleanly
    // and yields nothing, which is a different failure from a bad container.
    let wav = wav_header_with_no_frames();
    assert_eq!(upload_status(&[("file", Some(&wav))]), 400);
}

/// 44 bytes of RIFF header declaring 16 kHz mono 16-bit and no data.
fn wav_header_with_no_frames() -> Vec<u8> {
    let mut wav = Vec::new();
    wav.extend_from_slice(b"RIFF");
    wav.extend_from_slice(&36u32.to_le_bytes());
    wav.extend_from_slice(b"WAVEfmt ");
    wav.extend_from_slice(&16u32.to_le_bytes());
    wav.extend_from_slice(&1u16.to_le_bytes()); // PCM
    wav.extend_from_slice(&1u16.to_le_bytes()); // mono
    wav.extend_from_slice(&16_000u32.to_le_bytes());
    wav.extend_from_slice(&32_000u32.to_le_bytes());
    wav.extend_from_slice(&2u16.to_le_bytes());
    wav.extend_from_slice(&16u16.to_le_bytes());
    wav.extend_from_slice(b"data");
    wav.extend_from_slice(&0u32.to_le_bytes());
    wav
}

#[test]
fn the_refusals_of_an_upload_say_why() {
    assert_eq!(
        upload(None, &[("model", None)]).unwrap_err().message,
        "no `file` field in the request"
    );
    assert_eq!(upload(None, &[("file", Some(b""))]).unwrap_err().message, "`file` is empty");
    assert_eq!(
        upload(None, &[("file", Some(&wav_header_with_no_frames()))]).unwrap_err().message,
        "decoded audio contains no samples"
    );
    let refusal = upload(None, &[("file", Some(b"ID3\x04\x00not actually a wav"))]).unwrap_err();
    assert!(refusal.message.starts_with("not a readable WAV file: "));
    assert!(refusal
        .message
        .ends_with(". This server accepts WAV only (any rate, any channel count)."));
}

#[test]
fn every_documented_route_is_served() {
    let served: Vec<(Method, &str, Endpoint)> =
        router().iter().map(|r| (r.method, r.path, r.endpoint)).collect();
    assert_eq!(
        served,
        [
            (Method::Get, "/healthz", Endpoint::Healthz),
            (Method::Get, "/v1/models", Endpoint::ListModels),
            (Method::Post, "/v1/audio/transcriptions", Endpoint::Transcriptions),
            (Method::Get, "/v1/audio/stream", Endpoint::Stream),
        ]
    );
}

#[test]
fn a_query_token_opens_a_stream_and_nothing_else() {
    for endpoint in [Endpoint::ListModels, Endpoint::Transcriptions] {
        assert!(check_access(endpoint, Some("secret"), None, Some("secret")).is_err());
        assert!(check_access(endpoint, Some("secret"), Some(b"Bearer secret"), Some("x")).is_ok());
    }
    assert!(check_access(Endpoint::Stream, Some("secret"), None, Some("secret")).is_ok());
    assert!(check_access(Endpoint::Stream, Some("secret"), None, Some("wrong")).is_err());
    assert!(check_access(Endpoint::Healthz, Some("secret"), Some(b"Bearer wrong"), None).is_ok());
}

#[test]
fn the_model_list_tells_what_can_be_used() {
    let body = list_models(&FakeHost, Some("secret"), Some(b"Bearer secret")).unwrap();
    assert_eq!(
        body,
        concat_rows(&[
            r#"{"id":"parakeet \"v3\"","object":"model","owned_by":"handy","downloaded":true,"supports_streaming":false}"#,
            r#"{"id":"nemotron","object":"model","owned_by":"handy","downloaded":false,"supports_streaming":true}"#,
        ])
    );
    let value: serde_json::Value = serde_json::from_str(&body).unwrap();
    assert_eq!(value["data"][0]["id"], "parakeet \"v3\"");
    assert_eq!(value["data"].as_array().unwrap().len(), 2);
    assert_eq!(model_list(&Vec::new()), r#"{"object":"list","data":[]}"#);
}

fn concat_rows(rows: &[&str]) -> String {
    format!("{{\"object\":\"list\",\"data\":[{}]}}", rows.join(","))
}

#[test]
fn a_health_report_names_the_model_and_the_engine() {
    let idle = healthz(&FakeHost, "0.9.1", false, None);
    assert_eq!(
        idle.body(),
        r#"{"status":"ok","version":"0.9.1","selected_model":"nemotron","model_loaded":false,"backend":null}"#
    );
    let busy = Health {
        version: "0.9.1".to_string(),
        selected_model: "a\\b".to_string(),
        model_loaded: true,
        backend: Some("metal".to_string()),
    };
    assert_eq!(
        busy.body(),
        r#"{"status":"ok","version":"0.9.1","selected_model":"a\\b","model_loaded":true,"backend":"metal"}"#
    );
}

#[test]
fn each_status_has_its_number() {
    let numbers = [
        (StatusCode::BadRequest, 400),
        (StatusCode::Unauthorized, 401),
        (StatusCode::Conflict, 409),
        (StatusCode::PayloadTooLarge, 413),
        (StatusCode::UnsupportedMediaType, 415),
        (StatusCode::InternalServerError, 500),
    ];
    for (status, number) in numbers {
        assert_eq!(status.as_u16(), number);
    }
}

#[test]
fn an_error_body_quotes_its_message() {
    for message in ["plain", "say \"no\"", "a\\b\n\t\u{1}\u{7f}", "gr\u{fc}\u{df}e \u{1f600}", ""] {
        let error = ApiError::bad_request(message);
        assert_eq!(error.status, StatusCode::BadRequest);
        let value: serde_json::Value = serde_json::from_str(&error.body()).unwrap();
        assert_eq!(value["error"]["message"], message);
        assert_eq!(value["error"]["type"], "invalid_request_error");
    }
    assert_eq!(
        ApiError::new(StatusCode::Conflict, "a\"\\\u{8}\u{9}\u{a}\u{c}\u{d}\u{1f}\u{0}".to_string()).body(),
        r#"{"error":{"message":"a\"\\\b\t\n\f\r\u001f\u0000","type":"invalid_request_error"}}"#
    );
}
