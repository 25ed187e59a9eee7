use std::sync::Arc;

use handy_server::base64;
use handy_server::error::StatusCode;
use handy_server::host::{AppSettings, ModelInfo, Models, ServerHost, StreamTextEvent};
use handy_server::message::{judge_message, read_message, ClientMessage, Dialect};
use handy_server::session::{
    FinalOutcome, StreamAction, StreamEvent, StreamPhase, StreamSession, MAX_STREAM_SAMPLES,
    MODEL_POLL_MS, MODEL_WAIT_MS,
};
use handy_server::stream::{judge_stream, stream, StreamParams, StreamPlan};

struct Catalogue;

impl Models for Catalogue {
    fn available(&self) -> Vec<ModelInfo> {
        Vec::new()
    }
    fn info(&self, model_id: &str) -> Option<ModelInfo> {
        match model_id {
            "live" | "batch" => Some(ModelInfo {
                id: model_id.to_string(),
                is_downloaded: true,
                supports_streaming: model_id == "live",
            }),
            _ => None,
        }
    }
}

struct Host(&'static str);

impl ServerHost for Host {
    type Catalogue = Catalogue;
    fn settings(&self) -> AppSettings {
        AppSettings {
            server_enabled: true,
            server_port: 8915,
            server_token: None,
            server_allow_lan: false,
            selected_model: self.0.to_string(),
            selected_language: "en".to_string(),
        }
    }
    fn models(&self) -> Arc<Catalogue> {
        Arc::new(Catalogue)
    }
    fn show_transcribing_overlay(&self) {}
    fn show_streaming_overlay(&self) {}
    fn hide_recording_overlay(&self) {}
    fn listen_stream_text<F: Fn(StreamTextEvent) + Send + Sync + 'static>(&self, _on: F) -> u32 {
        0
    }
    fn unlisten(&self, _id: u32) {}
}

fn params(sample_rate: Option<usize>, token: Option<&str>, dialect: Option<&str>) -> StreamParams {
    StreamParams {
        sample_rate,
        token: token.map(str::to_string),
        dialect: dialect.map(str::to_string),
    }
}

/// Actions by name, with what they carry.
fn names(actions: &[StreamAction]) -> Vec<String> {
    actions
        .iter()
        .map(|a| match a {
            StreamAction::InitiateModelLoad => "initiate".to_string(),
            StreamAction::PollModel(ms) => format!("poll {ms}"),
            StreamAction::Subscribe => "subscribe".to_string(),
            StreamAction::StartStream => "start".to_string(),
            StreamAction::ShowStreamingOverlay => "show streaming".to_string(),
            StreamAction::Send(m) => format!("send {m}"),
            StreamAction::SendPartial(m) => format!("partial {m}"),
            StreamAction::Resample { samples, rate } => format!("resample {samples:?} {rate}"),
            StreamAction::Feed => "feed".to_string(),
            StreamAction::Unsubscribe => "unsubscribe".to_string(),
            StreamAction::ShowTranscribingOverlay => "show transcribing".to_string(),
            StreamAction::Finalize => "finalize".to_string(),
            StreamAction::CancelStream => "cancel".to_string(),
            StreamAction::HideRecordingOverlay => "hide".to_string(),
            StreamAction::Close => "close".to_string(),
        })
        .collect()
}

fn open(dialect: Dialect, show_overlay: bool) -> StreamSession {
    let plan = StreamPlan { rate: 48_000, dialect };
    let (session, actions) = StreamSession::open(plan, "s\"1".to_string(), show_overlay);
    assert_eq!(names(&actions), ["initiate", "poll 0"]);
    assert_eq!(session.phase(), StreamPhase::Loading);
    assert_eq!(session.dialect(), dialect);
    session
}

fn live(dialect: Dialect, show_overlay: bool) -> StreamSession {
    let mut session = open(dialect, show_overlay);
    session.step(StreamEvent::ModelPolled(true));
    if dialect == Dialect::Codex {
        session.step(StreamEvent::Message(ClientMessage::Start { sample_rate: None }));
    }
    assert_eq!(session.phase(), StreamPhase::Live);
    session
}

fn say(session: &StreamSession, text: &str) -> StreamEvent {
    StreamEvent::Message(read_message(session.dialect(), text))
}

fn partial(committed: &str, tentative: &str) -> StreamEvent {
    StreamEvent::Partial { committed: committed.to_string(), tentative: tentative.to_string() }
}

fn transcript(text: &str) -> StreamEvent {
    StreamEvent::Finalized(FinalOutcome::Text(Some(text.to_string())))
}

// ----------------------------------------------------------- the upgrade

#[test]
fn a_stream_is_held_at_the_rate_that_is_asked_for() {
    let plan = stream(&Host("live"), None, None, &params(None, None, None), false).unwrap();
    assert_eq!(plan, StreamPlan { rate: 16_000, dialect: Dialect::Native });
    let plan =
        stream(&Host("live"), None, None, &params(Some(48_000), None, Some("codex")), false).unwrap();
    assert_eq!(plan, StreamPlan { rate: 48_000, dialect: Dialect::Codex });
    let plan =
        stream(&Host("live"), None, None, &params(Some(8_000), None, Some("native")), false).unwrap();
    assert_eq!(plan, StreamPlan { rate: 8_000, dialect: Dialect::Native });
}

#[test]
fn a_stream_takes_its_token_from_the_header_or_the_query() {
    let ask = |authorization: Option<&[u8]>, token: Option<&str>| {
        stream(&Host("live"), Some("secret"), authorization, &params(None, token, None), false)
    };
    assert!(ask(None, Some("secret")).is_ok());
    assert!(ask(Some(b"Bearer secret"), None).is_ok());
    for refused in [ask(None, None), ask(None, Some("x")), ask(Some(b"Bearer x"), Some("secret"))] {
        assert_eq!(refused.unwrap_err().status, StatusCode::Unauthorized);
    }
}

#[test]
fn a_model_without_streaming_is_a_conflict() {
    // Whatever else is wrong with the request.
    for model in ["batch", "unknown"] {
        let e = stream(&Host(model), None, None, &params(Some(0), None, Some("x")), true).unwrap_err();
        assert_eq!(e.status, StatusCode::Conflict);
        assert_eq!(
            e.message,
            format!("the selected model `{model}` does not support live streaming; use POST /v1/audio/transcriptions instead")
        );
    }
}

#[test]
fn the_other_refusals_come_in_their_order() {
    let e = judge_stream("m", true, &params(Some(0), None, Some("x")), true).unwrap_err();
    assert_eq!(e.status, StatusCode::BadRequest);
    assert_eq!(e.message, "sample_rate must be greater than 0");
    let e = judge_stream("m", true, &params(Some(1), None, Some("x")), true).unwrap_err();
    assert_eq!(e.status, StatusCode::BadRequest);
    assert_eq!(e.message, "unknown dialect `x` (use native or codex)");
    let e = judge_stream("m", true, &params(Some(1), None, None), true).unwrap_err();
    assert_eq!(e.status, StatusCode::Conflict);
    assert_eq!(e.message, "another stream is already open");
}

// ---------------------------------------------------------- text frames

#[test]
fn only_a_commit_finishes_a_native_stream() {
    let is_commit = |text: &str| matches!(read_message(Dialect::Native, text), ClientMessage::Commit);
    assert!(is_commit(r#"{"type":"commit"}"#));
    assert!(is_commit(r#" { "x": [1], "type" : "commit" } "#));
    for text in [
        r#"{"type":"ping"}"#,
        r#"{"type":"session.close"}"#,
        r#"{"type":1}"#,
        r#"{"kind":"commit"}"#,
        r#"["commit"]"#,
        r#""commit""#,
        "commit",
        r#"{"type":"commit""#,
        "",
    ] {
        assert!(matches!(read_message(Dialect::Native, text), ClientMessage::Unknown), "{text}");
    }
}

#[test]
fn codex_frames_are_read() {
    let read = |text: &str| read_message(Dialect::Codex, text);
    assert!(matches!(
        read(r#"{"type":"session.start","config":{"encoding":"pcm16","sample_rate_hz":48000,"x":{}}}"#),
        ClientMessage::Start { sample_rate: Some(48_000) }
    ));
    assert!(matches!(
        read(r#"{"type":"session.start","config":{"sample_rate_hz":18446744073709551615}}"#),
        ClientMessage::Start { sample_rate: Some(u64::MAX) }
    ));
    for text in [
        r#"{"type":"session.start"}"#,
        r#"{"type":"session.start","config":{"sample_rate_hz":-1}}"#,
        r#"{"type":"session.start","config":{"sample_rate_hz":1.5}}"#,
        r#"{"type":"session.start","config":{"sample_rate_hz":"48000"}}"#,
        r#"{"type":"session.start","sample_rate_hz":48000}"#,
    ] {
        assert!(matches!(read(text), ClientMessage::Start { sample_rate: None }), "{text}");
    }
    assert!(matches!(
        read(r#"{"type":"audio.append","audio":"AAAB\/w=="}"#),
        ClientMessage::Append { audio: Some(a) } if a == "AAAB/w=="
    ));
    assert!(matches!(
        read(r#"{"type":"audio.append","audio":7}"#),
        ClientMessage::Append { audio: None }
    ));
    assert!(matches!(read(r#"{"type":"session.close"}"#), ClientMessage::Commit));
    assert!(matches!(read(r#"{"type":"commit"}"#), ClientMessage::Unknown));
    assert!(matches!(
        judge_message(Dialect::Codex, None, Some(1), None),
        ClientMessage::Unknown
    ));
}

#[test]
fn base64_is_decoded_with_its_padding() {
    let cases: [(&str, Option<&[u8]>); 16] = [
        ("", Some(b"")),
        ("Zg==", Some(b"f")),
        ("Zm8=", Some(b"fo")),
        ("Zm9v", Some(b"foo")),
        ("Zm9vYg==", Some(b"foob")),
        ("Zm9vYmE=", Some(b"fooba")),
        ("Zm9vYmFy", Some(b"foobar")),
        ("+/8A", Some(b"\xfb\xff\x00")),
        ("Zg=", None),
        ("Zg", None),
        ("Zh==", None),
        ("Zm9=", None),
        ("Zg==Zg==", None),
        ("Z===", None),
        ("-_8A", None),
        ("Zm9v\n", None),
    ];
    for (text, bytes) in cases {
        assert_eq!(base64::decode(text.as_bytes()).as_deref(), bytes, "{text}");
    }
}

// ------------------------------------------------------ native sessions

#[test]
fn a_native_session_from_ready_to_final() {
    let mut session = open(Dialect::Native, true);
    assert_eq!(
        names(&session.step(StreamEvent::ModelPolled(true))),
        [
            "subscribe",
            "start",
            "show streaming",
            r#"send {"type":"ready","sample_rate":48000}"#,
        ]
    );
    assert_eq!(
        names(&session.step(StreamEvent::Binary(vec![1, 0, 255, 255]))),
        ["resample [1, -1] 48000"]
    );
    assert_eq!(names(&session.step(StreamEvent::Resampled(1))), ["feed"]);
    assert_eq!(
        names(&session.step(partial("The \"quick\"", " brown"))),
        [r#"partial {"type":"partial","committed":"The \"quick\"","tentative":" brown"}"#]
    );
    let keepalive = say(&session, r#"{"type":"ping"}"#);
    assert!(session.step(keepalive).is_empty());
    let commit = say(&session, r#"{"type":"commit"}"#);
    assert_eq!(names(&session.step(commit)), ["unsubscribe", "show transcribing", "finalize"]);
    assert_eq!(session.phase(), StreamPhase::Finalizing);
    assert!(session.step(partial("late", "")).is_empty());
    assert_eq!(
        names(&session.step(transcript("The quick brown fox."))),
        [r#"send {"type":"final","text":"The quick brown fox."}"#, "hide", "close"]
    );
    assert_eq!(session.phase(), StreamPhase::Closed);
    assert!(session.step(StreamEvent::Closed).is_empty());
}

#[test]
fn a_clean_close_still_gets_its_transcript() {
    let mut session = live(Dialect::Native, false);
    assert_eq!(names(&session.step(StreamEvent::Closed)), ["unsubscribe", "finalize"]);
    assert_eq!(
        names(&session.step(StreamEvent::Finalized(FinalOutcome::Text(None)))),
        [r#"send {"type":"final","text":""}"#, "close"]
    );
}

#[test]
fn a_dropped_client_cancels_the_stream() {
    let mut session = live(Dialect::Native, true);
    assert_eq!(
        names(&session.step(StreamEvent::Failed)),
        ["unsubscribe", "cancel", "hide", "close"]
    );
    assert_eq!(session.phase(), StreamPhase::Closed);
}

#[test]
fn a_transcript_that_cannot_be_made_is_an_error() {
    let mut session = live(Dialect::Native, false);
    session.step(StreamEvent::Closed);
    assert_eq!(
        names(&session.step(StreamEvent::Finalized(FinalOutcome::Failed("no engine".to_string())))),
        [r#"send {"type":"error","message":"finalize failed: no engine"}"#, "close"]
    );
    let mut session = live(Dialect::Native, false);
    session.step(StreamEvent::Closed);
    assert_eq!(
        names(&session.step(StreamEvent::Finalized(FinalOutcome::Lost("panicked".to_string())))),
        [r#"send {"type":"error","message":"finalize did not finish: panicked"}"#, "close"]
    );
}

#[test]
fn half_a_sample_ends_the_stream() {
    let mut session = live(Dialect::Native, true);
    assert_eq!(
        names(&session.step(StreamEvent::Binary(vec![1, 2, 3]))),
        [
            r#"send {"type":"error","message":"PCM16 payload has an odd byte count (3)"}"#,
            "unsubscribe",
            "cancel",
            "hide",
            "close",
        ]
    );
}

#[test]
fn a_stream_may_last_ten_minutes() {
    assert_eq!(MAX_STREAM_SAMPLES, 600 * 16_000);
    let mut session = live(Dialect::Native, false);
    assert_eq!(names(&session.step(StreamEvent::Resampled(MAX_STREAM_SAMPLES - 1))), ["feed"]);
    assert_eq!(names(&session.step(StreamEvent::Resampled(1))), ["feed"]);
    assert_eq!(names(&session.step(StreamEvent::Resampled(0))), ["feed"]);
    assert_eq!(
        names(&session.step(StreamEvent::Resampled(1))),
        [
            r#"send {"type":"error","message":"stream exceeded the 600s limit"}"#,
            "unsubscribe",
            "cancel",
            "close",
        ]
    );
    let mut session = live(Dialect::Native, false);
    session.step(StreamEvent::Resampled(usize::MAX));
    assert_eq!(session.phase(), StreamPhase::Closed);
}

#[test]
fn a_model_that_is_not_there_is_waited_for() {
    for dialect in [Dialect::Native, Dialect::Codex] {
        let mut session = open(dialect, true);
        let mut waited = 0;
        while waited < MODEL_WAIT_MS {
            assert_eq!(names(&session.step(StreamEvent::ModelPolled(false))), ["poll 250"]);
            waited += MODEL_POLL_MS;
        }
        assert_eq!(waited, 90_000);
        assert_eq!(
            names(&session.step(StreamEvent::ModelPolled(false))),
            [r#"send {"type":"error","message":"model is still loading, retry shortly"}"#]
        );
        assert_eq!(session.phase(), StreamPhase::Closed);
    }
    // One that comes late is as good as any.
    let mut session = open(Dialect::Native, false);
    session.step(StreamEvent::ModelPolled(false));
    assert_eq!(
        names(&session.step(StreamEvent::ModelPolled(true))),
        ["subscribe", "start", r#"send {"type":"ready","sample_rate":48000}"#]
    );
}

// ------------------------------------------------------- Codex sessions

#[test]
fn a_codex_session_from_start_to_closed() {
    let mut session = open(Dialect::Codex, true);
    assert!(session.step(StreamEvent::ModelPolled(true)).is_empty());
    assert_eq!(session.phase(), StreamPhase::Greeting);
    let begin = say(&session, r#"{"type":"session.start","config":{"sample_rate_hz":24000}}"#);
    assert_eq!(
        names(&session.step(begin)),
        [
            "subscribe",
            "start",
            "show streaming",
            r#"send {"type":"session.started","session":{"id":"s\"1"}}"#,
        ]
    );
    let append = say(&session, r#"{"type":"audio.append","audio":"AQD//w=="}"#);
    assert_eq!(names(&session.step(append)), ["resample [1, -1] 24000"]);
    assert_eq!(names(&session.step(StreamEvent::Resampled(2))), ["feed"]);
    assert_eq!(
        names(&session.step(partial("The", " quick"))),
        [r#"partial {"type":"transcript.segment","utterance_id":"s\"1","revision":1,"text":"The quick"}"#]
    );
    assert_eq!(
        names(&session.step(partial("The quick", ""))),
        [r#"partial {"type":"transcript.segment","utterance_id":"s\"1","revision":2,"text":"The quick"}"#]
    );
    let close = say(&session, r#"{"type":"session.close"}"#);
    assert_eq!(names(&session.step(close)), ["unsubscribe", "show transcribing", "finalize"]);
    assert_eq!(
        names(&session.step(transcript("The quick."))),
        [
            r#"send {"type":"transcript.final","utterance_id":"s\"1","text":"The quick."}"#,
            r#"send {"type":"session.updated","session":{"status":"closed"}}"#,
            "hide",
            "close",
        ]
    );
}

#[test]
fn a_codex_client_is_not_spoken_to_before_it_speaks() {
    let mut session = open(Dialect::Codex, false);
    assert!(session.step(StreamEvent::ModelPolled(true)).is_empty());
    let early = say(&session, r#"{"type":"audio.append","audio":"AQD//w=="}"#);
    assert!(session.step(early).is_empty());
    assert!(session.step(StreamEvent::Binary(vec![0, 0])).is_empty());
    let begin = say(&session, r#"{"type":"session.start"}"#);
    assert_eq!(
        names(&session.step(begin)),
        ["subscribe", "start", r#"send {"type":"session.started","session":{"id":"s\"1"}}"#]
    );
    // Without a rate of its own, that of the request holds.
    let append = say(&session, r#"{"type":"audio.append","audio":"AQA="}"#);
    assert_eq!(names(&session.step(append)), ["resample [1] 48000"]);
    // Audio in binary frames is not this dialect's.
    assert!(session.step(StreamEvent::Binary(vec![0, 0])).is_empty());
}

#[test]
fn a_codex_client_may_leave_before_it_begins() {
    let mut session = open(Dialect::Codex, true);
    session.step(StreamEvent::ModelPolled(true));
    let close = say(&session, r#"{"type":"session.close"}"#);
    assert_eq!(
        names(&session.step(close)),
        [
            r#"send {"type":"transcript.final","utterance_id":"s\"1","text":""}"#,
            r#"send {"type":"session.updated","session":{"status":"closed"}}"#,
            "close",
        ]
    );
    for event in [StreamEvent::Closed, StreamEvent::Failed] {
        let mut session = open(Dialect::Codex, true);
        session.step(StreamEvent::ModelPolled(true));
        assert_eq!(names(&session.step(event)), ["close"]);
    }
}

#[test]
fn a_codex_rate_out_of_range_is_refused() {
    let mut session = open(Dialect::Codex, true);
    session.step(StreamEvent::ModelPolled(true));
    let begin = say(&session, r#"{"type":"session.start","config":{"sample_rate_hz":0}}"#);
    assert_eq!(
        names(&session.step(begin)),
        [r#"send {"type":"error","message":"sample_rate_hz is out of range"}"#, "close"]
    );
    assert_eq!(session.phase(), StreamPhase::Closed);
}

#[test]
fn audio_that_is_no_base64_ends_a_codex_session() {
    for text in [
        r#"{"type":"audio.append","audio":"?"}"#,
        r#"{"type":"audio.append"}"#,
        r#"{"type":"audio.append","audio":"ä"}"#,
    ] {
        let mut session = live(Dialect::Codex, false);
        let append = say(&session, text);
        assert_eq!(
            names(&session.step(append)),
            [
                r#"send {"type":"error","message":"audio.append holds no Base64"}"#,
                "unsubscribe",
                "cancel",
                "close",
            ]
        );
    }
    let mut session = live(Dialect::Codex, false);
    let append = say(&session, r#"{"type":"audio.append","audio":"AQ=="}"#);
    assert_eq!(
        names(&session.step(append))[0],
        r#"send {"type":"error","message":"PCM16 payload has an odd byte count (1)"}"#
    );
}

#[test]
fn a_session_takes_nothing_that_it_does_not_give_back() {
    // Every order of a few events, in both dialects, with and without overlay.
    let event = |i: usize| match i {
        0 => StreamEvent::ModelPolled(true),
        1 => StreamEvent::Message(ClientMessage::Start { sample_rate: None }),
        2 => StreamEvent::Message(ClientMessage::Commit),
        3 => StreamEvent::Closed,
        4 => StreamEvent::Failed,
        5 => StreamEvent::Binary(vec![0]),
        _ => transcript("x"),
    };
    for dialect in [Dialect::Native, Dialect::Codex] {
        for show_overlay in [true, false] {
            for order in 0..7usize.pow(4) {
                let mut session = open(dialect, show_overlay);
                let mut seen = names(&session.step(StreamEvent::ModelPolled(true)));
                let mut rest = order;
                for _ in 0..4 {
                    seen.extend(names(&session.step(event(rest % 7))));
                    rest /= 7;
                }
                let count = |name: &str| seen.iter().filter(|n| *n == name).count();
                assert!(count("start") <= 1);
                if session.phase() == StreamPhase::Closed {
                    assert_eq!(count("subscribe"), count("unsubscribe"));
                    assert_eq!(count("start"), count("finalize") + count("cancel"));
                    assert_eq!(count("show streaming"), count("hide"));
                    assert_eq!(count("close"), 1);
                }
            }
        }
    }
}

#[test]
fn a_frame_that_is_not_understood_changes_nothing() {
    for dialect in [Dialect::Native, Dialect::Codex] {
        // Sent before every other event, or not at all.
        let run = |noise: bool| {
            let mut session = open(dialect, true);
            let mut seen = Vec::new();
            for i in 0..5 {
                if noise {
                    let frame = say(&session, r#"{"type":"keepalive"}"#);
                    seen.extend(names(&session.step(frame)));
                }
                let event = match i {
                    0 => StreamEvent::ModelPolled(true),
                    1 => StreamEvent::Message(ClientMessage::Start { sample_rate: None }),
                    2 => partial("a", "b"),
                    3 => StreamEvent::Closed,
                    _ => transcript("ab"),
                };
                seen.extend(names(&session.step(event)));
            }
            assert_eq!(session.phase(), StreamPhase::Closed);
            seen
        };
        assert_eq!(run(true), run(false));
    }
}

#[test]
fn a_stream_is_finalized_on_commit_or_close_and_cancelled_otherwise() {
    let end = |event: StreamEvent| {
        let mut session = live(Dialect::Native, false);
        let seen = names(&session.step(event));
        let count = |name: &str| seen.iter().filter(|n| *n == name).count();
        (count("finalize"), count("cancel"))
    };
    assert_eq!(end(StreamEvent::Closed), (1, 0));
    assert_eq!(end(StreamEvent::Message(ClientMessage::Commit)), (1, 0));
    assert_eq!(end(StreamEvent::Failed), (0, 1));
    assert_eq!(end(StreamEvent::Binary(vec![1])), (0, 1));
    assert_eq!(end(StreamEvent::Resampled(MAX_STREAM_SAMPLES + 1)), (0, 1));
    assert_eq!(end(StreamEvent::Resampled(1)), (0, 0));
}
