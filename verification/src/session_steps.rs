//! What each event does to a streaming session, in so many words.

use vstd::prelude::*;

use crate::base64;
use crate::message::{
    codex_frames_are_objects, error_json, native_frames_are_objects, session_closed_json,
    ClientMessage, Dialect,
};
use crate::session::{
    failed, opened, stepped, FinalOutcome, SessionView, StreamActionView, StreamEvent, StreamPhase,
};
use crate::session_laws::lived;
use crate::stream::StreamPlan;
use crate::text::{decimal, json_string, object, string_seen};

verus! {

/// A session opens with what was planned for it, and with nothing fed, sent or
/// waited for yet; it has the model loaded, and looks at once whether it is.
pub proof fn a_session_opens_as_planned(plan: StreamPlan, id: Seq<char>, show_overlay: bool)
    ensures
        ({
            let (s, actions) = opened(plan, id, show_overlay);
            &&& s.phase == StreamPhase::Loading
            &&& s.rate == plan.rate && s.dialect == plan.dialect
            &&& s.id == id && s.show_overlay == show_overlay
            &&& s.waited_ms == 0 && s.fed == 0 && s.revision == 0
            &&& actions == seq![StreamActionView::InitiateModelLoad, StreamActionView::PollModel(0)]
        }),
{
}

/// Whatever happens, a session keeps its dialect, its name and whether it has
/// an overlay. Its rate changes only where a Codex client begins, its wait only
/// while the model loads, the count of what it has fed only with audio, and
/// its revision only with a partial transcript.
pub proof fn a_step_changes_only_what_it_is_about(s: SessionView, event: StreamEvent)
    ensures
        ({
            let next = stepped(s, event).0;
            &&& next.dialect == s.dialect && next.id == s.id
            &&& next.show_overlay == s.show_overlay
            &&& next.rate != s.rate ==> s.phase == StreamPhase::Greeting && (event
                matches StreamEvent::Message(ClientMessage::Start { sample_rate: Some(_) }))
            &&& next.waited_ms != s.waited_ms ==> s.phase == StreamPhase::Loading
                && event == StreamEvent::ModelPolled(false)
            &&& next.fed != s.fed ==> s.phase == StreamPhase::Live && event is Resampled
            &&& next.revision != s.revision ==> s.phase == StreamPhase::Live && s.dialect
                == Dialect::Codex && event is Partial
        }),
{
}

/// A session reacts only to what its phase waits for: to the state of the
/// model while that loads, to the client's beginning or leaving before it has
/// begun, to audio, partial transcripts and the end of the audio while live, to
/// the final transcript while that is made, and to nothing once closed.
/// Anything else changes nothing and asks for nothing.
pub proof fn a_session_ignores_what_it_does_not_wait_for(s: SessionView, event: StreamEvent)
    requires
        match s.phase {
            StreamPhase::Loading => !(event is ModelPolled),
            StreamPhase::Greeting => match event {
                StreamEvent::Message(m) => !(m is Start) && !(m is Commit),
                StreamEvent::Closed => false,
                StreamEvent::Failed => false,
                _ => true,
            },
            StreamPhase::Live => match event {
                StreamEvent::Message(m) => m is Start || m is Unknown,
                StreamEvent::Binary(_) => s.dialect == Dialect::Codex,
                StreamEvent::ModelPolled(_) => true,
                StreamEvent::Finalized(_) => true,
                _ => false,
            },
            StreamPhase::Finalizing => !(event is Finalized),
            StreamPhase::Closed => true,
        },
    ensures
        stepped(s, event) == (s, Seq::<StreamActionView>::empty()),
{
}

/// Once the model is there, a native session goes live at the rate of the
/// request: it has partial transcripts reported, the engine begin a stream and
/// the overlay shown if there is one, and tells the client the rate.
pub proof fn a_native_session_is_ready_at_its_rate(s: SessionView)
    requires
        s.phase == StreamPhase::Loading,
        s.dialect == Dialect::Native,
    ensures
        ({
            let (next, actions) = stepped(s, StreamEvent::ModelPolled(true));
            let ready = StreamActionView::Send(
                object(
                    seq![
                        ("type"@, json_string("ready"@)),
                        ("sample_rate"@, decimal(s.rate as nat)),
                    ],
                ),
            );
            &&& next.phase == StreamPhase::Live && next.rate == s.rate
            &&& actions == (if s.show_overlay {
                seq![
                    StreamActionView::Subscribe,
                    StreamActionView::StartStream,
                    StreamActionView::ShowStreamingOverlay,
                    ready,
                ]
            } else {
                seq![StreamActionView::Subscribe, StreamActionView::StartStream, ready]
            })
        }),
{
    native_frames_are_objects(s.rate as nat, seq![], seq![], seq![]);
}

/// A model that has not loaded is looked for every 250 milliseconds until 90
/// seconds have gone by; a session then says so and is closed. A Codex session
/// whose model has loaded waits for its client without a word.
pub proof fn a_model_is_looked_for_until_ninety_seconds_are_over(s: SessionView, loaded: bool)
    requires
        s.phase == StreamPhase::Loading,
        s.dialect == Dialect::Codex || !loaded,
    ensures
        ({
            let (next, actions) = stepped(s, StreamEvent::ModelPolled(loaded));
            if loaded {
                next == (SessionView { phase: StreamPhase::Greeting, ..s }) && actions
                    == Seq::<StreamActionView>::empty()
            } else if s.waited_ms < 90_000 {
                next == (SessionView { waited_ms: s.waited_ms + 250, ..s }) && actions == seq![
                    StreamActionView::PollModel(250),
                ]
            } else {
                next == (SessionView { phase: StreamPhase::Closed, ..s }) && actions == seq![
                    StreamActionView::Send(error_json("model is still loading, retry shortly"@)),
                ]
            }
        }),
{
}

/// A Codex client that begins sets the rate of its session: exactly the one
/// that it names, or that of the request if it names none. The session goes
/// live and says its name. A rate of zero, and one that no machine word holds,
/// is refused, and the session closed.
pub proof fn a_codex_client_begins_at_the_rate_that_it_names(
    s: SessionView,
    sample_rate: Option<u64>,
)
    requires
        s.phase == StreamPhase::Greeting,
    ensures
        ({
            let begin = StreamEvent::Message(ClientMessage::Start { sample_rate });
            let (next, actions) = stepped(s, begin);
            let started = StreamActionView::Send(
                object(
                    seq![
                        ("type"@, json_string("session.started"@)),
                        ("session"@, object(seq![("id"@, json_string(s.id))])),
                    ],
                ),
            );
            let refused = sample_rate matches Some(hz) && (hz == 0 || hz > usize::MAX);
            if refused {
                &&& next == (SessionView { phase: StreamPhase::Closed, ..s })
                &&& actions == seq![
                    StreamActionView::Send(error_json("sample_rate_hz is out of range"@)),
                    StreamActionView::Close,
                ]
            } else {
                &&& next.phase == StreamPhase::Live
                &&& sample_rate matches Some(hz) ==> next.rate == hz
                &&& sample_rate is None ==> next.rate == s.rate
                &&& actions == (if s.show_overlay {
                    seq![
                        StreamActionView::Subscribe,
                        StreamActionView::StartStream,
                        StreamActionView::ShowStreamingOverlay,
                        started,
                    ]
                } else {
                    seq![StreamActionView::Subscribe, StreamActionView::StartStream, started]
                })
            }
        }),
{
    codex_frames_are_objects(s.id, 0, seq![]);
}

proof fn lemma_rate_of_a_live_session(s: SessionView, events: Seq<StreamEvent>)
    requires
        s.phase == StreamPhase::Live,
    ensures
        lived(s, events).0.rate == s.rate,
        lived(s, events).0.phase != StreamPhase::Loading,
        lived(s, events).0.phase != StreamPhase::Greeting,
    decreases events.len(),
{
    if events.len() > 0 {
        lemma_rate_of_a_live_session(s, events.drop_last());
    }
}

/// Audio that a Codex client appends is resampled from the rate that the
/// client began with, however much has happened since: from the one that it
/// named, or from that of the request if it named none.
pub proof fn appended_audio_is_of_the_rate_that_the_client_named(
    s: SessionView,
    sample_rate: Option<u64>,
    events: Seq<StreamEvent>,
    bytes: Seq<u8>,
    audio: String,
)
    requires
        s.phase == StreamPhase::Greeting,
        sample_rate matches Some(hz) ==> 0 < hz <= usize::MAX,
        bytes.len() % 2 == 0,
        vstd::utf8::encode_utf8(audio@) == base64::encoded(bytes),
    ensures
        ({
            let begin = StreamEvent::Message(ClientMessage::Start { sample_rate });
            let append = StreamEvent::Message(ClientMessage::Append { audio: Some(audio) });
            let later = lived(stepped(s, begin).0, events).0;
            later.phase == StreamPhase::Live ==> {
                let (next, actions) = stepped(later, append);
                &&& next == later
                &&& actions.len() == 1
                &&& actions[0] matches StreamActionView::Resample(samples, rate) && samples.len()
                    == bytes.len() / 2 && rate == (match sample_rate {
                    Some(hz) => hz as usize,
                    None => s.rate,
                })
            }
        }),
{
    let begin = StreamEvent::Message(ClientMessage::Start { sample_rate });
    a_codex_client_begins_at_the_rate_that_it_names(s, sample_rate);
    lemma_rate_of_a_live_session(stepped(s, begin).0, events);
    base64::decoding_undoes_encoding(bytes);
}

/// Every partial transcript that a live session gets is sent on, whatever it
/// holds, in one frame: a native client gets both parts, a Codex client the
/// one after the other, under the session's name and the next revision.
pub proof fn every_partial_transcript_is_sent(
    s: SessionView,
    committed: String,
    tentative: String,
)
    requires
        s.phase == StreamPhase::Live,
    ensures
        ({
            let (next, actions) = stepped(s, StreamEvent::Partial { committed, tentative });
            &&& s.dialect == Dialect::Native ==> next == s && actions == seq![
                StreamActionView::SendPartial(
                    object(
                        seq![
                            ("type"@, json_string("partial"@)),
                            ("committed"@, json_string(committed@)),
                            ("tentative"@, json_string(tentative@)),
                        ],
                    ),
                ),
            ]
            &&& s.dialect == Dialect::Codex && s.revision < u64::MAX ==> next == (SessionView {
                revision: (s.revision + 1) as u64,
                ..s
            }) && actions == seq![
                StreamActionView::SendPartial(
                    object(
                        seq![
                            ("type"@, json_string("transcript.segment"@)),
                            ("utterance_id"@, json_string(s.id)),
                            ("revision"@, decimal((s.revision + 1) as nat)),
                            ("text"@, json_string(committed@ + tentative@)),
                        ],
                    ),
                ),
            ]
            &&& s.dialect == Dialect::Codex && s.revision == u64::MAX ==> next == s
                && actions.len() == 1 && actions[0] is SendPartial
        }),
{
    native_frames_are_objects(0, committed@, tentative@, seq![]);
    codex_frames_are_objects(s.id, (s.revision + 1) as nat, committed@ + tentative@);
}

/// Whether a session was dropped for a reason that its client is told: the
/// engine's stream is cancelled, the overlay hidden, and the session closed.
pub open spec fn is_dropped(
    s: SessionView,
    next: SessionView,
    actions: Seq<StreamActionView>,
    why: Seq<char>,
) -> bool {
    let told = StreamActionView::Send(
        object(seq![("type"@, json_string("error"@)), ("message"@, json_string(why))]),
    );
    &&& next == (SessionView { phase: StreamPhase::Closed, ..s })
    &&& actions == (if s.show_overlay {
        seq![
            told,
            StreamActionView::Unsubscribe,
            StreamActionView::CancelStream,
            StreamActionView::HideRecordingOverlay,
            StreamActionView::Close,
        ]
    } else {
        seq![
            told,
            StreamActionView::Unsubscribe,
            StreamActionView::CancelStream,
            StreamActionView::Close,
        ]
    })
}

proof fn lemma_dropped(s: SessionView, why: Seq<char>)
    ensures
        is_dropped(s, failed(s, why).0, failed(s, why).1, why),
{
    native_frames_are_objects(0, seq![], seq![], why);
    let told = StreamActionView::Send(error_json(why));
    if s.show_overlay {
        assert(failed(s, why).1 =~= seq![
            told,
            StreamActionView::Unsubscribe,
            StreamActionView::CancelStream,
            StreamActionView::HideRecordingOverlay,
            StreamActionView::Close,
        ]);
    } else {
        assert(failed(s, why).1 =~= seq![
            told,
            StreamActionView::Unsubscribe,
            StreamActionView::CancelStream,
            StreamActionView::Close,
        ]);
    }
}

/// Audio is fed to the engine as long as all that was fed, with it, is at most
/// ten minutes' worth at 16 kHz, to the sample. More than that ends the stream.
pub proof fn audio_is_fed_for_ten_minutes(s: SessionView, samples: usize)
    requires
        s.phase == StreamPhase::Live,
    ensures
        ({
            let (next, actions) = stepped(s, StreamEvent::Resampled(samples));
            if s.fed + samples <= 600 * 16_000 {
                next == (SessionView { fed: s.fed + samples as nat, ..s }) && actions == seq![
                    StreamActionView::Feed,
                ]
            } else {
                is_dropped(s, next, actions, "stream exceeded the 600s limit"@)
            }
        }),
{
    reveal_strlit("stream exceeded the 600s limit");
    reveal_strlit("stream exceeded the ");
    reveal_strlit("s limit");
    reveal_with_fuel(decimal, 4);
    assert(decimal(600) =~= seq!['6', '0', '0']);
    assert("stream exceeded the "@ + decimal(600) + "s limit"@
        =~= "stream exceeded the 600s limit"@);
    lemma_dropped(s, "stream exceeded the 600s limit"@);
}

/// Audio that ends in the middle of a sample drops the stream, and the client
/// is told how many bytes it sent: a native client in a binary frame, a Codex
/// client in Base64. So does a piece of audio that is no Base64, or none at
/// all.
pub proof fn broken_audio_drops_the_stream(s: SessionView, bytes: Vec<u8>, audio: Option<String>)
    requires
        s.phase == StreamPhase::Live,
    ensures
        s.dialect == Dialect::Native && bytes@.len() % 2 == 1 ==> ({
            let (next, actions) = stepped(s, StreamEvent::Binary(bytes));
            is_dropped(s, next, actions, odd_message(bytes@.len()))
        }),
        ({
            let append = StreamEvent::Message(ClientMessage::Append { audio });
            let (next, actions) = stepped(s, append);
            let sent = match string_seen(audio) {
                Some(text) => base64::decoded(vstd::utf8::encode_utf8(text)),
                None => None,
            };
            match sent {
                None => is_dropped(s, next, actions, "audio.append holds no Base64"@),
                Some(sent) => sent.len() % 2 == 1 && sent.len() <= usize::MAX ==> is_dropped(
                    s,
                    next,
                    actions,
                    odd_message(sent.len()),
                ),
            }
        }),
{
    lemma_dropped(s, "audio.append holds no Base64"@);
    lemma_dropped(s, odd_message(bytes@.len()));
    assert(bytes.len() == bytes@.len());
    if let Some(text) = string_seen(audio) {
        if let Some(sent) = base64::decoded(vstd::utf8::encode_utf8(text)) {
            lemma_dropped(s, odd_message(sent.len()));
        }
    }
}

/// What a client is told that sent an odd number of bytes.
pub open spec fn odd_message(bytes: nat) -> Seq<char> {
    "PCM16 payload has an odd byte count ("@ + decimal(bytes) + ")"@
}

/// A client that commits, or closes a live stream, has its transcript made; one
/// that is lost has its stream dropped without a word. Either way no more
/// partial transcripts are asked for, and the overlay follows.
pub proof fn a_live_session_ends_with_its_client(s: SessionView, event: StreamEvent)
    requires
        s.phase == StreamPhase::Live,
    ensures
        event == StreamEvent::Closed || event == StreamEvent::Message(ClientMessage::Commit) ==> ({
            let (next, actions) = stepped(s, event);
            &&& next == (SessionView { phase: StreamPhase::Finalizing, ..s })
            &&& actions == (if s.show_overlay {
                seq![
                    StreamActionView::Unsubscribe,
                    StreamActionView::ShowTranscribingOverlay,
                    StreamActionView::Finalize,
                ]
            } else {
                seq![StreamActionView::Unsubscribe, StreamActionView::Finalize]
            })
        }),
        event == StreamEvent::Failed ==> ({
            let (next, actions) = stepped(s, event);
            &&& next == (SessionView { phase: StreamPhase::Closed, ..s })
            &&& actions == (if s.show_overlay {
                seq![
                    StreamActionView::Unsubscribe,
                    StreamActionView::CancelStream,
                    StreamActionView::HideRecordingOverlay,
                    StreamActionView::Close,
                ]
            } else {
                seq![
                    StreamActionView::Unsubscribe,
                    StreamActionView::CancelStream,
                    StreamActionView::Close,
                ]
            })
        }),
{
    let (_, actions) = stepped(s, event);
    if event == StreamEvent::Closed || event == StreamEvent::Message(ClientMessage::Commit) {
        if s.show_overlay {
            assert(actions =~= seq![
                StreamActionView::Unsubscribe,
                StreamActionView::ShowTranscribingOverlay,
                StreamActionView::Finalize,
            ]);
        } else {
            assert(actions =~= seq![StreamActionView::Unsubscribe, StreamActionView::Finalize]);
        }
    }
}

/// A session that ends says what came of it: the engine's transcript as it is,
/// an empty one where the engine has none, or an error in the words of what
/// failed. A Codex client is told that the session is closed. The overlay goes,
/// and so does the socket.
pub proof fn a_session_ends_with_what_came_of_it(s: SessionView, outcome: FinalOutcome)
    requires
        s.phase == StreamPhase::Finalizing,
    ensures
        ({
            let (next, actions) = stepped(s, StreamEvent::Finalized(outcome));
            let text = match outcome {
                FinalOutcome::Text(Some(text)) => text@,
                _ => seq![],
            };
            let why = match outcome {
                FinalOutcome::Failed(why) => "finalize failed: "@ + why@,
                FinalOutcome::Lost(why) => "finalize did not finish: "@ + why@,
                _ => seq![],
            };
            let said = StreamActionView::Send(
                if !(outcome is Text) {
                    object(seq![("type"@, json_string("error"@)), ("message"@, json_string(why))])
                } else if s.dialect == Dialect::Native {
                    object(seq![("type"@, json_string("final"@)), ("text"@, json_string(text))])
                } else {
                    object(
                        seq![
                            ("type"@, json_string("transcript.final"@)),
                            ("utterance_id"@, json_string(s.id)),
                            ("text"@, json_string(text)),
                        ],
                    )
                },
            );
            let over = StreamActionView::Send(
                object(
                    seq![
                        ("type"@, json_string("session.updated"@)),
                        ("session"@, object(seq![("status"@, json_string("closed"@))])),
                    ],
                ),
            );
            &&& next == (SessionView { phase: StreamPhase::Closed, ..s })
            &&& actions == (match (s.dialect, s.show_overlay) {
                (Dialect::Native, false) => seq![said, StreamActionView::Close],
                (Dialect::Native, true) => seq![
                    said,
                    StreamActionView::HideRecordingOverlay,
                    StreamActionView::Close,
                ],
                (Dialect::Codex, false) => seq![said, over, StreamActionView::Close],
                (Dialect::Codex, true) => seq![
                    said,
                    over,
                    StreamActionView::HideRecordingOverlay,
                    StreamActionView::Close,
                ],
            })
        }),
{
    let text = match outcome {
        FinalOutcome::Text(Some(text)) => text@,
        _ => seq![],
    };
    let why = match outcome {
        FinalOutcome::Failed(why) => "finalize failed: "@ + why@,
        FinalOutcome::Lost(why) => "finalize did not finish: "@ + why@,
        _ => seq![],
    };
    native_frames_are_objects(0, seq![], seq![], text);
    native_frames_are_objects(0, seq![], seq![], why);
    codex_frames_are_objects(s.id, 0, text);
    let (_, actions) = stepped(s, StreamEvent::Finalized(outcome));
    let said = actions[0];
    let over = StreamActionView::Send(session_closed_json());
    match (s.dialect, s.show_overlay) {
        (Dialect::Native, false) => {
            assert(actions =~= seq![said, StreamActionView::Close]);
        },
        (Dialect::Native, true) => {
            assert(actions =~= seq![
                said,
                StreamActionView::HideRecordingOverlay,
                StreamActionView::Close,
            ]);
        },
        (Dialect::Codex, false) => {
            assert(actions =~= seq![said, over, StreamActionView::Close]);
        },
        (Dialect::Codex, true) => {
            assert(actions =~= seq![
                said,
                over,
                StreamActionView::HideRecordingOverlay,
                StreamActionView::Close,
            ]);
        },
    }
}

/// A Codex client that leaves before it has begun leaves a closed session; only
/// one that says so is answered.
pub proof fn a_codex_client_may_leave_before_it_begins(s: SessionView, event: StreamEvent)
    requires
        s.phase == StreamPhase::Greeting,
        event == StreamEvent::Closed || event == StreamEvent::Failed,
    ensures
        stepped(s, event) == (
            SessionView { phase: StreamPhase::Closed, ..s },
            seq![StreamActionView::Close],
        ),
{
    assert(stepped(s, event).1 =~= seq![StreamActionView::Close]);
}

} // verus!
