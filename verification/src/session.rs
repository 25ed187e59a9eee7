//! A streaming session: audio in, partial transcripts out, and a final
//! transcript on commit or close.
//!
//! A session is a state machine. The program around the library performs the
//! actions that a step asks for, in order, and reports what came of them as
//! the next event.

use vstd::prelude::*;
use vstd::string::*;

use crate::audio::{audio_message, decode_pcm16, pcm16, AudioErrorView, MAX_AUDIO_SECS};
use crate::base64;
use crate::message::{
    error_json, error_text, final_json, final_text, partial_json, partial_text, ready_json,
    ready_text, segment_json, segment_text, session_closed_json, session_closed_text, started_json,
    started_text, transcript_final_json, transcript_final_text, ClientMessage, Dialect,
};
use crate::stream::StreamPlan;
use crate::text::{decimal, push_decimal, string_seen};

verus! {

/// The most samples that one stream may feed to the engine.
pub const MAX_STREAM_SAMPLES: usize = 9_600_000;

/// How long a stream waits for the model to load, in milliseconds.
pub const MODEL_WAIT_MS: u64 = 90_000;

/// How long to wait between two looks at the model, in milliseconds.
pub const MODEL_POLL_MS: u64 = 250;

/// How finalizing a stream ended.
#[derive(Debug)]
pub enum FinalOutcome {
    /// The transcript, if there is any.
    Text(Option<String>),
    /// The engine failed; its own words.
    Failed(String),
    /// The task was lost before it could end; the runtime's own words.
    Lost(String),
}

/// What happens to a session.
#[derive(Debug)]
pub enum StreamEvent {
    /// Whether the model is loaded, as [`StreamAction::PollModel`] asked.
    ModelPolled(bool),
    /// A partial transcript.
    Partial { committed: String, tentative: String },
    /// A binary frame.
    Binary(Vec<u8>),
    /// A text frame.
    Message(ClientMessage),
    /// The audio of the last [`StreamAction::Resample`] came to this many
    /// samples.
    Resampled(usize),
    /// The client closed the socket, or the socket came to its end.
    Closed,
    /// The socket failed, or [`StreamAction::SendPartial`] did.
    Failed,
    /// How [`StreamAction::Finalize`] ended.
    Finalized(FinalOutcome),
}

/// What the program around the library is to do for a session.
#[derive(Debug)]
pub enum StreamAction {
    /// Have the selected model loaded if none is.
    InitiateModelLoad,
    /// Wait for some milliseconds, and report whether the model is loaded.
    PollModel(u64),
    /// Have partial transcripts reported.
    Subscribe,
    /// Have the engine begin a stream.
    StartStream,
    ShowStreamingOverlay,
    /// Send a text frame. It does not matter whether it arrives.
    Send(String),
    /// Send a text frame, and report a failure.
    SendPartial(String),
    /// Bring samples from a rate to that of the engine, and report how many
    /// they came to.
    Resample { samples: Vec<i16>, rate: usize },
    /// Feed the engine what was last resampled.
    Feed,
    /// Have no more partial transcripts reported.
    Unsubscribe,
    ShowTranscribingOverlay,
    /// Have the engine end the stream, and report its transcript.
    Finalize,
    /// Have the engine drop the stream.
    CancelStream,
    HideRecordingOverlay,
    /// Send a close frame.
    Close,
}

/// What a [`StreamAction`] says.
pub ghost enum StreamActionView {
    InitiateModelLoad,
    PollModel(u64),
    Subscribe,
    StartStream,
    ShowStreamingOverlay,
    Send(Seq<char>),
    SendPartial(Seq<char>),
    Resample(Seq<i16>, usize),
    Feed,
    Unsubscribe,
    ShowTranscribingOverlay,
    Finalize,
    CancelStream,
    HideRecordingOverlay,
    Close,
}

impl View for StreamAction {
    type V = StreamActionView;

    open spec fn view(&self) -> StreamActionView {
        match self {
            StreamAction::InitiateModelLoad => StreamActionView::InitiateModelLoad,
            StreamAction::PollModel(ms) => StreamActionView::PollModel(*ms),
            StreamAction::Subscribe => StreamActionView::Subscribe,
            StreamAction::StartStream => StreamActionView::StartStream,
            StreamAction::ShowStreamingOverlay => StreamActionView::ShowStreamingOverlay,
            StreamAction::Send(m) => StreamActionView::Send(m@),
            StreamAction::SendPartial(m) => StreamActionView::SendPartial(m@),
            StreamAction::Resample { samples, rate } => StreamActionView::Resample(samples@, *rate),
            StreamAction::Feed => StreamActionView::Feed,
            StreamAction::Unsubscribe => StreamActionView::Unsubscribe,
            StreamAction::ShowTranscribingOverlay => StreamActionView::ShowTranscribingOverlay,
            StreamAction::Finalize => StreamActionView::Finalize,
            StreamAction::CancelStream => StreamActionView::CancelStream,
            StreamAction::HideRecordingOverlay => StreamActionView::HideRecordingOverlay,
            StreamAction::Close => StreamActionView::Close,
        }
    }
}

/// Actions seen through their views.
pub open spec fn stream_actions(actions: Seq<StreamAction>) -> Seq<StreamActionView> {
    actions.map_values(|a: StreamAction| a@)
}

/// How far a session is.
#[derive(Clone, Copy, Debug, PartialEq, Eq, Structural)]
pub enum StreamPhase {
    /// The model is not loaded yet.
    Loading,
    /// The client has yet to begin.
    Greeting,
    /// Audio comes in, partial transcripts go out.
    Live,
    /// The final transcript is being made.
    Finalizing,
    /// Nothing more happens.
    Closed,
}

/// One streaming session.
pub struct StreamSession {
    phase: StreamPhase,
    dialect: Dialect,
    rate: usize,
    id: String,
    show_overlay: bool,
    waited_ms: u64,
    fed: usize,
    revision: u64,
}

/// What a [`StreamSession`] holds.
pub ghost struct SessionView {
    pub phase: StreamPhase,
    pub dialect: Dialect,
    /// The rate of the client's audio.
    pub rate: usize,
    /// The name of the session and of its only utterance.
    pub id: Seq<char>,
    pub show_overlay: bool,
    /// How long the session has waited for the model.
    pub waited_ms: nat,
    /// How many samples the engine was fed.
    pub fed: nat,
    /// The revision of the last partial transcript that was sent.
    pub revision: u64,
}

impl View for StreamSession {
    type V = SessionView;

    closed spec fn view(&self) -> SessionView {
        SessionView {
            phase: self.phase,
            dialect: self.dialect,
            rate: self.rate,
            id: self.id@,
            show_overlay: self.show_overlay,
            waited_ms: self.waited_ms as nat,
            fed: self.fed as nat,
            revision: self.revision,
        }
    }
}

/// An action, or none.
pub open spec fn if_so(condition: bool, action: StreamActionView) -> Seq<StreamActionView> {
    if condition {
        seq![action]
    } else {
        seq![]
    }
}

/// A session in another phase.
pub open spec fn in_phase(s: SessionView, phase: StreamPhase) -> SessionView {
    SessionView { phase, ..s }
}

/// A session begins by having the model loaded.
pub open spec fn opened(plan: StreamPlan, id: Seq<char>, show_overlay: bool) -> (
    SessionView,
    Seq<StreamActionView>,
) {
    (
        SessionView {
            phase: StreamPhase::Loading,
            dialect: plan.dialect,
            rate: plan.rate,
            id,
            show_overlay,
            waited_ms: 0,
            fed: 0,
            revision: 0,
        },
        seq![StreamActionView::InitiateModelLoad, StreamActionView::PollModel(0)],
    )
}

/// The stream begins, and the client is told.
pub open spec fn gone_live(s: SessionView, rate: usize, greeting: Seq<char>) -> (
    SessionView,
    Seq<StreamActionView>,
) {
    (
        SessionView { phase: StreamPhase::Live, rate, ..s },
        seq![StreamActionView::Subscribe, StreamActionView::StartStream] + if_so(
            s.show_overlay,
            StreamActionView::ShowStreamingOverlay,
        ) + seq![StreamActionView::Send(greeting)],
    )
}

/// The model may have loaded. A model that has not is waited for rather than
/// refused: models unload on a timer, so that is the ordinary state between
/// dictations.
pub open spec fn polled(s: SessionView, loaded: bool) -> (SessionView, Seq<StreamActionView>) {
    if loaded {
        match s.dialect {
            Dialect::Native => gone_live(s, s.rate, ready_json(s.rate as nat)),
            Dialect::Codex => (in_phase(s, StreamPhase::Greeting), seq![]),
        }
    } else if s.waited_ms >= MODEL_WAIT_MS {
        (
            in_phase(s, StreamPhase::Closed),
            seq![StreamActionView::Send(error_json("model is still loading, retry shortly"@))],
        )
    } else {
        (
            SessionView { waited_ms: s.waited_ms + MODEL_POLL_MS as nat, ..s },
            seq![StreamActionView::PollModel(MODEL_POLL_MS)],
        )
    }
}

/// The client begins, at the rate that it names or at that of the request.
pub open spec fn greeted(s: SessionView, sample_rate: Option<u64>) -> (
    SessionView,
    Seq<StreamActionView>,
) {
    match sample_rate {
        Some(hz) if hz == 0 || hz > usize::MAX => (
            in_phase(s, StreamPhase::Closed),
            seq![
                StreamActionView::Send(error_json("sample_rate_hz is out of range"@)),
                StreamActionView::Close,
            ],
        ),
        Some(hz) => gone_live(s, hz as usize, started_json(s.id)),
        None => gone_live(s, s.rate, started_json(s.id)),
    }
}

/// A partial transcript goes out.
pub open spec fn relayed(s: SessionView, committed: Seq<char>, tentative: Seq<char>) -> (
    SessionView,
    Seq<StreamActionView>,
) {
    match s.dialect {
        Dialect::Native => (
            s,
            seq![StreamActionView::SendPartial(partial_json(committed, tentative))],
        ),
        Dialect::Codex => {
            let revision = if s.revision < u64::MAX {
                (s.revision + 1) as u64
            } else {
                s.revision
            };
            (
                SessionView { revision, ..s },
                seq![
                    StreamActionView::SendPartial(
                        segment_json(s.id, revision as nat, committed + tentative),
                    ),
                ],
            )
        },
    }
}

/// The stream is dropped without a transcript.
pub open spec fn cancelled(s: SessionView) -> (SessionView, Seq<StreamActionView>) {
    (
        in_phase(s, StreamPhase::Closed),
        seq![StreamActionView::Unsubscribe, StreamActionView::CancelStream] + if_so(
            s.show_overlay,
            StreamActionView::HideRecordingOverlay,
        ) + seq![StreamActionView::Close],
    )
}

/// The stream is dropped, and the client is told why.
pub open spec fn failed(s: SessionView, message: Seq<char>) -> (SessionView, Seq<StreamActionView>) {
    let (next, actions) = cancelled(s);
    (next, seq![StreamActionView::Send(error_json(message))] + actions)
}

/// PCM16 comes in.
pub open spec fn heard(s: SessionView, bytes: Seq<u8>) -> (SessionView, Seq<StreamActionView>) {
    if bytes.len() % 2 == 0 {
        (s, seq![StreamActionView::Resample(pcm16(bytes), s.rate)])
    } else {
        failed(s, audio_message(AudioErrorView::OddByteCount(bytes.len() as usize)))
    }
}

/// PCM16 comes in, in Base64.
pub open spec fn appended(s: SessionView, audio: Option<Seq<char>>) -> (
    SessionView,
    Seq<StreamActionView>,
) {
    match audio {
        Some(text) => match base64::decoded(vstd::utf8::encode_utf8(text)) {
            Some(bytes) => heard(s, bytes),
            None => failed(s, "audio.append holds no Base64"@),
        },
        None => failed(s, "audio.append holds no Base64"@),
    }
}

/// Audio is fed to the engine, unless the stream has gone on for too long.
pub open spec fn resampled(s: SessionView, samples: nat) -> (SessionView, Seq<StreamActionView>) {
    if s.fed + samples > MAX_STREAM_SAMPLES {
        failed(s, "stream exceeded the "@ + decimal(MAX_AUDIO_SECS as nat) + "s limit"@)
    } else {
        (SessionView { fed: s.fed + samples, ..s }, seq![StreamActionView::Feed])
    }
}

/// The audio ends, and the final transcript is asked for. A clean close still
/// wants its transcript: the client may simply have hung up.
pub open spec fn committed(s: SessionView) -> (SessionView, Seq<StreamActionView>) {
    (
        in_phase(s, StreamPhase::Finalizing),
        seq![StreamActionView::Unsubscribe] + if_so(
            s.show_overlay,
            StreamActionView::ShowTranscribingOverlay,
        ) + seq![StreamActionView::Finalize],
    )
}

/// What the client is sent once the stream has ended.
pub open spec fn farewell(s: SessionView, outcome: FinalOutcome) -> Seq<StreamActionView> {
    let last = match outcome {
        FinalOutcome::Text(text) => {
            let text = match text {
                Some(t) => t@,
                None => seq![],
            };
            match s.dialect {
                Dialect::Native => final_json(text),
                Dialect::Codex => transcript_final_json(s.id, text),
            }
        },
        FinalOutcome::Failed(why) => error_json("finalize failed: "@ + why@),
        FinalOutcome::Lost(why) => error_json("finalize did not finish: "@ + why@),
    };
    seq![StreamActionView::Send(last)] + if_so(
        s.dialect == Dialect::Codex,
        StreamActionView::Send(session_closed_json()),
    )
}

/// The final transcript goes out, and the session is over.
pub open spec fn finalized(s: SessionView, outcome: FinalOutcome) -> (
    SessionView,
    Seq<StreamActionView>,
) {
    (
        in_phase(s, StreamPhase::Closed),
        farewell(s, outcome) + if_so(s.show_overlay, StreamActionView::HideRecordingOverlay)
            + seq![StreamActionView::Close],
    )
}

/// The client leaves before it has begun. One that says so is sent what every
/// session ends with, and has said nothing to transcribe.
pub open spec fn dismissed(s: SessionView, say: bool) -> (SessionView, Seq<StreamActionView>) {
    (
        in_phase(s, StreamPhase::Closed),
        (if say {
            seq![
                StreamActionView::Send(transcript_final_json(s.id, seq![])),
                StreamActionView::Send(session_closed_json()),
            ]
        } else {
            seq![]
        }) + seq![StreamActionView::Close],
    )
}

/// Where an event takes a session, and what it asks for. An event that the
/// phase does not wait for is ignored.
pub open spec fn stepped(s: SessionView, event: StreamEvent) -> (
    SessionView,
    Seq<StreamActionView>,
) {
    match (s.phase, event) {
        (StreamPhase::Loading, StreamEvent::ModelPolled(loaded)) => polled(s, loaded),
        (StreamPhase::Greeting, StreamEvent::Message(ClientMessage::Start { sample_rate })) =>
            greeted(s, sample_rate),
        (StreamPhase::Greeting, StreamEvent::Message(ClientMessage::Commit)) => dismissed(s, true),
        (StreamPhase::Greeting, StreamEvent::Closed) => dismissed(s, false),
        (StreamPhase::Greeting, StreamEvent::Failed) => dismissed(s, false),
        (StreamPhase::Live, StreamEvent::Partial { committed, tentative }) => relayed(
            s,
            committed@,
            tentative@,
        ),
        (StreamPhase::Live, StreamEvent::Binary(bytes)) => if s.dialect == Dialect::Native {
            heard(s, bytes@)
        } else {
            (s, seq![])
        },
        (StreamPhase::Live, StreamEvent::Message(ClientMessage::Append { audio })) => appended(
            s,
            string_seen(audio),
        ),
        (StreamPhase::Live, StreamEvent::Message(ClientMessage::Commit)) => committed(s),
        (StreamPhase::Live, StreamEvent::Resampled(samples)) => resampled(s, samples as nat),
        (StreamPhase::Live, StreamEvent::Closed) => committed(s),
        (StreamPhase::Live, StreamEvent::Failed) => cancelled(s),
        (StreamPhase::Finalizing, StreamEvent::Finalized(outcome)) => finalized(s, outcome),
        _ => (s, seq![]),
    }
}

/// Whether a session is within its bounds: it has waited no longer than it
/// may, in whole turns, and has fed the engine no more than it may.
pub open spec fn in_bounds(s: SessionView) -> bool {
    s.waited_ms <= MODEL_WAIT_MS && s.waited_ms % MODEL_POLL_MS as nat == 0 && s.fed
        <= MAX_STREAM_SAMPLES
}

fn nothing() -> (actions: Vec<StreamAction>)
    ensures
        stream_actions(actions@) == Seq::<StreamActionView>::empty(),
{
    let actions: Vec<StreamAction> = Vec::new();
    assert(stream_actions(actions@) =~= seq![]);
    actions
}

fn ask(actions: &mut Vec<StreamAction>, action: StreamAction)
    ensures
        stream_actions(final(actions)@) == stream_actions(old(actions)@).push(action@),
{
    actions.push(action);
    assert(stream_actions(actions@) =~= stream_actions(old(actions)@).push(action@));
}

impl StreamSession {
    #[verifier::type_invariant]
    closed spec fn keeps_bounds(self) -> bool {
        self.waited_ms <= MODEL_WAIT_MS && self.waited_ms % MODEL_POLL_MS == 0 && self.fed
            <= MAX_STREAM_SAMPLES
    }

    /// Opens a session. `id` names it to the client, where the dialect has a
    /// place for that.
    pub fn open(plan: StreamPlan, id: String, show_overlay: bool) -> (r: (
        Self,
        Vec<StreamAction>,
    ))
        ensures
            (r.0@, stream_actions(r.1@)) == opened(plan, id@, show_overlay),
            in_bounds(r.0@),
    {
        let session = StreamSession {
            phase: StreamPhase::Loading,
            dialect: plan.dialect,
            rate: plan.rate,
            id,
            show_overlay,
            waited_ms: 0,
            fed: 0,
            revision: 0,
        };
        let actions = vec![StreamAction::InitiateModelLoad, StreamAction::PollModel(0)];
        assert(stream_actions(actions@) =~= opened(plan, id@, show_overlay).1);
        (session, actions)
    }

    /// How far the session is.
    pub fn phase(&self) -> (p: StreamPhase)
        ensures
            p == self@.phase,
    {
        self.phase
    }

    /// The dialect that the session is held in.
    pub fn dialect(&self) -> (d: Dialect)
        ensures
            d == self@.dialect,
    {
        self.dialect
    }

    fn go_live(&mut self, rate: usize, greeting: String) -> (actions: Vec<StreamAction>)
        ensures
            (final(self)@, stream_actions(actions@)) == gone_live(old(self)@, rate, greeting@),
    {
        proof {
            use_type_invariant(&*self);
        }
        self.phase = StreamPhase::Live;
        self.rate = rate;
        let mut actions = nothing();
        ask(&mut actions, StreamAction::Subscribe);
        ask(&mut actions, StreamAction::StartStream);
        if self.show_overlay {
            ask(&mut actions, StreamAction::ShowStreamingOverlay);
        }
        ask(&mut actions, StreamAction::Send(greeting));
        assert(stream_actions(actions@) =~= gone_live(old(self)@, rate, greeting@).1);
        actions
    }

    fn model_polled(&mut self, loaded: bool) -> (actions: Vec<StreamAction>)
        ensures
            (final(self)@, stream_actions(actions@)) == polled(old(self)@, loaded),
    {
        proof {
            use_type_invariant(&*self);
        }
        if loaded {
            return match self.dialect {
                Dialect::Native => {
                    let greeting = ready_text(self.rate);
                    self.go_live(self.rate, greeting)
                },
                Dialect::Codex => {
                    self.phase = StreamPhase::Greeting;
                    nothing()
                },
            };
        }
        let mut actions = nothing();
        if self.waited_ms >= MODEL_WAIT_MS {
            self.phase = StreamPhase::Closed;
            ask(
                &mut actions,
                StreamAction::Send(error_text("model is still loading, retry shortly")),
            );
        } else {
            self.waited_ms = self.waited_ms + MODEL_POLL_MS;
            ask(&mut actions, StreamAction::PollModel(MODEL_POLL_MS));
        }
        assert(stream_actions(actions@) =~= polled(old(self)@, loaded).1);
        actions
    }

    fn greet(&mut self, sample_rate: Option<u64>) -> (actions: Vec<StreamAction>)
        ensures
            (final(self)@, stream_actions(actions@)) == greeted(old(self)@, sample_rate),
    {
        proof {
            use_type_invariant(&*self);
        }
        let greeting = started_text(self.id.as_str());
        match sample_rate {
            Some(hz) => {
                if hz == 0 || hz > usize::MAX as u64 {
                    self.phase = StreamPhase::Closed;
                    let mut actions = nothing();
                    ask(
                        &mut actions,
                        StreamAction::Send(error_text("sample_rate_hz is out of range")),
                    );
                    ask(&mut actions, StreamAction::Close);
                    assert(stream_actions(actions@) =~= greeted(old(self)@, sample_rate).1);
                    return actions;
                }
                self.go_live(hz as usize, greeting)
            },
            None => self.go_live(self.rate, greeting),
        }
    }

    fn relay(&mut self, committed: &str, tentative: &str) -> (actions: Vec<StreamAction>)
        ensures
            (final(self)@, stream_actions(actions@)) == relayed(
                old(self)@,
                committed@,
                tentative@,
            ),
    {
        proof {
            use_type_invariant(&*self);
        }
        let mut actions = nothing();
        match self.dialect {
            Dialect::Native => {
                ask(&mut actions, StreamAction::SendPartial(partial_text(committed, tentative)));
            },
            Dialect::Codex => {
                if self.revision < u64::MAX {
                    self.revision = self.revision + 1;
                }
                let mut text = committed.to_owned();
                text.append(tentative);
                let segment = segment_text(self.id.as_str(), self.revision, text.as_str());
                ask(&mut actions, StreamAction::SendPartial(segment));
            },
        }
        assert(stream_actions(actions@) =~= relayed(old(self)@, committed@, tentative@).1);
        actions
    }

    fn cancel_after(&mut self, so_far: Vec<StreamAction>) -> (actions: Vec<StreamAction>)
        ensures
            final(self)@ == cancelled(old(self)@).0,
            stream_actions(actions@) == stream_actions(so_far@) + cancelled(old(self)@).1,
    {
        proof {
            use_type_invariant(&*self);
        }
        let mut actions = so_far;
        self.phase = StreamPhase::Closed;
        ask(&mut actions, StreamAction::Unsubscribe);
        ask(&mut actions, StreamAction::CancelStream);
        if self.show_overlay {
            ask(&mut actions, StreamAction::HideRecordingOverlay);
        }
        ask(&mut actions, StreamAction::Close);
        assert(stream_actions(actions@) =~= stream_actions(so_far@) + cancelled(old(self)@).1);
        actions
    }

    fn cancel(&mut self) -> (actions: Vec<StreamAction>)
        ensures
            (final(self)@, stream_actions(actions@)) == cancelled(old(self)@),
    {
        let actions = self.cancel_after(nothing());
        assert(stream_actions(actions@) =~= cancelled(old(self)@).1);
        actions
    }

    fn fail(&mut self, message: &str) -> (actions: Vec<StreamAction>)
        ensures
            (final(self)@, stream_actions(actions@)) == failed(old(self)@, message@),
    {
        let mut actions = nothing();
        ask(&mut actions, StreamAction::Send(error_text(message)));
        let actions = self.cancel_after(actions);
        assert(stream_actions(actions@) =~= failed(old(self)@, message@).1);
        actions
    }

    fn hear(&mut self, bytes: &[u8]) -> (actions: Vec<StreamAction>)
        ensures
            (final(self)@, stream_actions(actions@)) == heard(old(self)@, bytes@),
    {
        match decode_pcm16(bytes) {
            Ok(samples) => {
                let mut actions = nothing();
                ask(&mut actions, StreamAction::Resample { samples, rate: self.rate });
                assert(stream_actions(actions@) =~= heard(old(self)@, bytes@).1);
                actions
            },
            Err(e) => {
                let message = e.message();
                self.fail(message.as_str())
            },
        }
    }

    fn append(&mut self, audio: &Option<String>) -> (actions: Vec<StreamAction>)
        ensures
            (final(self)@, stream_actions(actions@)) == appended(old(self)@, string_seen(*audio)),
    {
        let text = match audio {
            Some(text) => text,
            None => return self.fail("audio.append holds no Base64"),
        };
        match base64::decode(text.as_str().as_bytes()) {
            Some(bytes) => self.hear(bytes.as_slice()),
            None => self.fail("audio.append holds no Base64"),
        }
    }

    fn feed(&mut self, samples: usize) -> (actions: Vec<StreamAction>)
        ensures
            (final(self)@, stream_actions(actions@)) == resampled(old(self)@, samples as nat),
    {
        proof {
            use_type_invariant(&*self);
        }
        if samples > MAX_STREAM_SAMPLES - self.fed {
            let mut m = "stream exceeded the ".to_owned();
            push_decimal(&mut m, MAX_AUDIO_SECS as u128);
            m.append("s limit");
            return self.fail(m.as_str());
        }
        self.fed = self.fed + samples;
        let mut actions = nothing();
        ask(&mut actions, StreamAction::Feed);
        assert(stream_actions(actions@) =~= resampled(old(self)@, samples as nat).1);
        actions
    }

    fn commit(&mut self) -> (actions: Vec<StreamAction>)
        ensures
            (final(self)@, stream_actions(actions@)) == committed(old(self)@),
    {
        proof {
            use_type_invariant(&*self);
        }
        self.phase = StreamPhase::Finalizing;
        let mut actions = nothing();
        ask(&mut actions, StreamAction::Unsubscribe);
        if self.show_overlay {
            ask(&mut actions, StreamAction::ShowTranscribingOverlay);
        }
        ask(&mut actions, StreamAction::Finalize);
        assert(stream_actions(actions@) =~= committed(old(self)@).1);
        actions
    }

    fn conclude(&mut self, outcome: FinalOutcome) -> (actions: Vec<StreamAction>)
        ensures
            (final(self)@, stream_actions(actions@)) == finalized(old(self)@, outcome),
    {
        proof {
            use_type_invariant(&*self);
        }
        let last = match &outcome {
            FinalOutcome::Text(text) => {
                let text = match text {
                    Some(text) => text.clone(),
                    None => String::new(),
                };
                match self.dialect {
                    Dialect::Native => final_text(text.as_str()),
                    Dialect::Codex => transcript_final_text(self.id.as_str(), text.as_str()),
                }
            },
            FinalOutcome::Failed(why) => {
                let mut m = "finalize failed: ".to_owned();
                m.append(why.as_str());
                error_text(m.as_str())
            },
            FinalOutcome::Lost(why) => {
                let mut m = "finalize did not finish: ".to_owned();
                m.append(why.as_str());
                error_text(m.as_str())
            },
        };
        self.phase = StreamPhase::Closed;
        let mut actions = nothing();
        ask(&mut actions, StreamAction::Send(last));
        if self.dialect == Dialect::Codex {
            ask(&mut actions, StreamAction::Send(session_closed_text()));
        }
        if self.show_overlay {
            ask(&mut actions, StreamAction::HideRecordingOverlay);
        }
        ask(&mut actions, StreamAction::Close);
        assert(stream_actions(actions@) =~= finalized(old(self)@, outcome).1);
        actions
    }

    fn dismiss(&mut self, say: bool) -> (actions: Vec<StreamAction>)
        ensures
            (final(self)@, stream_actions(actions@)) == dismissed(old(self)@, say),
    {
        proof {
            use_type_invariant(&*self);
        }
        self.phase = StreamPhase::Closed;
        let mut actions = nothing();
        if say {
            let last = transcript_final_text(self.id.as_str(), String::new().as_str());
            ask(&mut actions, StreamAction::Send(last));
            ask(&mut actions, StreamAction::Send(session_closed_text()));
        }
        ask(&mut actions, StreamAction::Close);
        assert(stream_actions(actions@) =~= dismissed(old(self)@, say).1);
        actions
    }

    /// Takes the session through an event, and says what that asks for. An
    /// event that the session does not wait for is ignored.
    pub fn step(&mut self, event: StreamEvent) -> (actions: Vec<StreamAction>)
        ensures
            (final(self)@, stream_actions(actions@)) == stepped(old(self)@, event),
            in_bounds(final(self)@),
    {
        let actions = self.advance(event);
        proof {
            use_type_invariant(&*self);
        }
        actions
    }

    fn advance(&mut self, event: StreamEvent) -> (actions: Vec<StreamAction>)
        ensures
            (final(self)@, stream_actions(actions@)) == stepped(old(self)@, event),
    {
        match self.phase {
            StreamPhase::Loading => match event {
                StreamEvent::ModelPolled(loaded) => self.model_polled(loaded),
                _ => nothing(),
            },
            StreamPhase::Greeting => match event {
                StreamEvent::Message(ClientMessage::Start { sample_rate }) => self.greet(
                    sample_rate,
                ),
                StreamEvent::Message(ClientMessage::Commit) => self.dismiss(true),
                StreamEvent::Closed => self.dismiss(false),
                StreamEvent::Failed => self.dismiss(false),
                _ => nothing(),
            },
            StreamPhase::Live => match event {
                StreamEvent::Partial { committed, tentative } => self.relay(
                    committed.as_str(),
                    tentative.as_str(),
                ),
                StreamEvent::Binary(bytes) => match self.dialect {
                    Dialect::Native => self.hear(bytes.as_slice()),
                    Dialect::Codex => nothing(),
                },
                StreamEvent::Message(ClientMessage::Append { audio }) => self.append(&audio),
                StreamEvent::Message(ClientMessage::Commit) => self.commit(),
                StreamEvent::Resampled(samples) => self.feed(samples),
                StreamEvent::Closed => self.commit(),
                StreamEvent::Failed => self.cancel(),
                _ => nothing(),
            },
            StreamPhase::Finalizing => match event {
                StreamEvent::Finalized(outcome) => self.conclude(outcome),
                _ => nothing(),
            },
            StreamPhase::Closed => nothing(),
        }
    }
}

} // verus!
