//! What holds of every streaming session.

use vstd::prelude::*;

use crate::audio::{audio_message, pcm16, AudioErrorView, MAX_AUDIO_SECS, TARGET_HZ};
use crate::base64;
use crate::message::{
    error_json, final_json, ready_json, segment_json, session_closed_json, started_json,
    transcript_final_json, ClientMessage, Dialect,
};
use crate::session::{
    cancelled, failed, farewell, gone_live, if_so, in_bounds, opened, stepped, FinalOutcome,
    SessionView, StreamActionView, StreamEvent, StreamPhase, MODEL_POLL_MS, MODEL_WAIT_MS,
};
use crate::stream::StreamPlan;
use crate::text::decimal;

verus! {

/// The overlays that there are.
pub ghost enum Overlay {
    Streaming,
    Transcribing,
}

/// What a session holds of the program around it.
pub ghost struct Holdings {
    /// Whether partial transcripts are reported.
    pub subscribed: bool,
    /// Whether the engine has a stream for the session.
    pub streaming: bool,
    /// The overlay that is up for the session.
    pub overlay: Option<Overlay>,
}

/// What a session holds in its phase.
pub open spec fn holdings(s: SessionView) -> Holdings {
    let overlay = |o: Overlay|
        if s.show_overlay {
            Some(o)
        } else {
            None
        };
    match s.phase {
        StreamPhase::Live => Holdings {
            subscribed: true,
            streaming: true,
            overlay: overlay(Overlay::Streaming),
        },
        StreamPhase::Finalizing => Holdings {
            subscribed: false,
            streaming: false,
            overlay: overlay(Overlay::Transcribing),
        },
        _ => Holdings { subscribed: false, streaming: false, overlay: None },
    }
}

/// What is held after an action; none if the action does not fit what is held
/// before it: nothing is taken twice, nothing is given back that was not
/// taken, and nothing is fed to an engine that has no stream.
pub open spec fn held_after(h: Holdings, action: StreamActionView) -> Option<Holdings> {
    match action {
        StreamActionView::Subscribe => if h.subscribed {
            None
        } else {
            Some(Holdings { subscribed: true, ..h })
        },
        StreamActionView::Unsubscribe => if h.subscribed {
            Some(Holdings { subscribed: false, ..h })
        } else {
            None
        },
        StreamActionView::StartStream => if h.streaming {
            None
        } else {
            Some(Holdings { streaming: true, ..h })
        },
        StreamActionView::Feed => if h.streaming {
            Some(h)
        } else {
            None
        },
        StreamActionView::Finalize => if h.streaming {
            Some(Holdings { streaming: false, ..h })
        } else {
            None
        },
        StreamActionView::CancelStream => if h.streaming {
            Some(Holdings { streaming: false, ..h })
        } else {
            None
        },
        StreamActionView::ShowStreamingOverlay => if h.overlay is None {
            Some(Holdings { overlay: Some(Overlay::Streaming), ..h })
        } else {
            None
        },
        StreamActionView::ShowTranscribingOverlay => if h.overlay == Some(Overlay::Streaming) {
            Some(Holdings { overlay: Some(Overlay::Transcribing), ..h })
        } else {
            None
        },
        StreamActionView::HideRecordingOverlay => if h.overlay is Some {
            Some(Holdings { overlay: None, ..h })
        } else {
            None
        },
        _ => Some(h),
    }
}

/// What is held after some actions in a row.
pub open spec fn held_after_all(h: Holdings, actions: Seq<StreamActionView>) -> Option<Holdings>
    decreases actions.len(),
{
    if actions.len() == 0 {
        Some(h)
    } else {
        match held_after_all(h, actions.drop_last()) {
            Some(before) => held_after(before, actions.last()),
            None => None,
        }
    }
}

proof fn lemma_in_a_row(h: Holdings, a: Seq<StreamActionView>, b: Seq<StreamActionView>)
    ensures
        held_after_all(h, a + b) == (match held_after_all(h, a) {
            Some(before) => held_after_all(before, b),
            None => None,
        }),
    decreases b.len(),
{
    if b.len() == 0 {
        assert(a + b =~= a);
    } else {
        assert((a + b).drop_last() =~= a + b.drop_last());
        lemma_in_a_row(h, a, b.drop_last());
    }
}

proof fn lemma_single(h: Holdings, action: StreamActionView)
    ensures
        held_after_all(h, seq![action]) == held_after(h, action),
{
    reveal_with_fuel(held_after_all, 2);
    assert(seq![action].drop_last() =~= seq![]);
}

proof fn lemma_pair(h: Holdings, a: StreamActionView, b: StreamActionView)
    ensures
        held_after_all(h, seq![a, b]) == (match held_after(h, a) {
            Some(before) => held_after(before, b),
            None => None,
        }),
{
    lemma_single(h, a);
    assert(seq![a, b] =~= seq![a] + seq![b]);
    lemma_in_a_row(h, seq![a], seq![b]);
    if let Some(before) = held_after(h, a) {
        lemma_single(before, b);
    }
}

proof fn lemma_maybe(h: Holdings, condition: bool, action: StreamActionView)
    ensures
        held_after_all(h, if_so(condition, action)) == (if condition {
            held_after(h, action)
        } else {
            Some(h)
        }),
{
    lemma_single(h, action);
}

proof fn lemma_around(
    h: Holdings,
    head: Seq<StreamActionView>,
    condition: bool,
    action: StreamActionView,
    tail: StreamActionView,
)
    requires
        held_after_all(h, head) is Some,
    ensures
        held_after_all(h, head + if_so(condition, action) + seq![tail]) == ({
            let first = held_after_all(h, head)->Some_0;
            let second = if condition {
                held_after(first, action)
            } else {
                Some(first)
            };
            match second {
                Some(before) => held_after(before, tail),
                None => None,
            }
        }),
{
    let first = held_after_all(h, head)->Some_0;
    lemma_in_a_row(h, head, if_so(condition, action));
    lemma_maybe(first, condition, action);
    lemma_in_a_row(h, head + if_so(condition, action), seq![tail]);
    if let Some(before) = held_after_all(h, head + if_so(condition, action)) {
        lemma_single(before, tail);
    }
}

proof fn lemma_live_holdings(s: SessionView, rate: usize, greeting: Seq<char>)
    requires
        holdings(s) == (Holdings { subscribed: false, streaming: false, overlay: None }),
    ensures
        held_after_all(holdings(s), gone_live(s, rate, greeting).1) == Some(
            holdings(gone_live(s, rate, greeting).0),
        ),
{
    let h = holdings(s);
    lemma_pair(h, StreamActionView::Subscribe, StreamActionView::StartStream);
    lemma_around(
        h,
        seq![StreamActionView::Subscribe, StreamActionView::StartStream],
        s.show_overlay,
        StreamActionView::ShowStreamingOverlay,
        StreamActionView::Send(greeting),
    );
}

proof fn lemma_cancel_holdings(s: SessionView)
    requires
        s.phase == StreamPhase::Live,
    ensures
        held_after_all(holdings(s), cancelled(s).1) == Some(holdings(cancelled(s).0)),
{
    let h = holdings(s);
    lemma_pair(h, StreamActionView::Unsubscribe, StreamActionView::CancelStream);
    lemma_around(
        h,
        seq![StreamActionView::Unsubscribe, StreamActionView::CancelStream],
        s.show_overlay,
        StreamActionView::HideRecordingOverlay,
        StreamActionView::Close,
    );
}

proof fn lemma_fail_holdings(s: SessionView, message: Seq<char>)
    requires
        s.phase == StreamPhase::Live,
    ensures
        held_after_all(holdings(s), failed(s, message).1) == Some(holdings(failed(s, message).0)),
{
    let said = StreamActionView::Send(error_json(message));
    lemma_single(holdings(s), said);
    lemma_cancel_holdings(s);
    lemma_in_a_row(holdings(s), seq![said], cancelled(s).1);
}

/// Whatever happens to a session, its actions fit what it holds of the program
/// around it, and it ends up holding what its phase says: partial transcripts
/// are subscribed to and unsubscribed from in turn, every stream of the engine
/// that is started is finalized or cancelled once, and every overlay that is
/// shown is hidden. A closed session holds nothing.
pub proof fn nothing_is_left_behind(s: SessionView, event: StreamEvent)
    ensures
        held_after_all(holdings(s), stepped(s, event).1) == Some(holdings(stepped(s, event).0)),
        s.phase == StreamPhase::Closed ==> holdings(s) == (Holdings {
            subscribed: false,
            streaming: false,
            overlay: None,
        }),
{
    let h = holdings(s);
    let (next, actions) = stepped(s, event);
    if actions.len() == 1 {
        assert(actions =~= seq![actions[0]]);
        lemma_single(h, actions[0]);
    }
    match (s.phase, event) {
        (StreamPhase::Loading, StreamEvent::ModelPolled(loaded)) => {
            lemma_live_holdings(s, s.rate, ready_json(s.rate as nat));
        },
        (StreamPhase::Greeting, StreamEvent::Message(ClientMessage::Start { sample_rate })) => {
            lemma_live_holdings(s, s.rate, started_json(s.id));
            if let Some(hz) = sample_rate {
                lemma_live_holdings(s, hz as usize, started_json(s.id));
                lemma_pair(
                    h,
                    StreamActionView::Send(error_json("sample_rate_hz is out of range"@)),
                    StreamActionView::Close,
                );
            }
        },
        (StreamPhase::Greeting, _) => {
            let last = StreamActionView::Send(transcript_final_json(s.id, seq![]));
            let closed = StreamActionView::Send(session_closed_json());
            let silence = Seq::<StreamActionView>::empty();
            lemma_pair(h, last, closed);
            lemma_single(h, StreamActionView::Close);
            lemma_in_a_row(h, seq![last, closed], seq![StreamActionView::Close]);
            lemma_in_a_row(h, silence, seq![StreamActionView::Close]);
        },
        (StreamPhase::Live, StreamEvent::Binary(bytes)) => {
            lemma_fail_holdings(
                s,
                audio_message(AudioErrorView::OddByteCount(bytes@.len() as usize)),
            );
        },
        (StreamPhase::Live, StreamEvent::Message(ClientMessage::Append { audio })) => {
            lemma_fail_holdings(s, "audio.append holds no Base64"@);
            if let Some(text) = audio {
                if let Some(bytes) = base64::decoded(vstd::utf8::encode_utf8(text@)) {
                    lemma_fail_holdings(
                        s,
                        audio_message(AudioErrorView::OddByteCount(bytes.len() as usize)),
                    );
                }
            }
        },
        (StreamPhase::Live, StreamEvent::Resampled(samples)) => {
            lemma_fail_holdings(
                s,
                "stream exceeded the "@ + decimal(MAX_AUDIO_SECS as nat) + "s limit"@,
            );
        },
        (StreamPhase::Live, StreamEvent::Failed) => {
            lemma_cancel_holdings(s);
        },
        (StreamPhase::Live, _) => {
            lemma_single(h, StreamActionView::Unsubscribe);
            lemma_around(
                h,
                seq![StreamActionView::Unsubscribe],
                s.show_overlay,
                StreamActionView::ShowTranscribingOverlay,
                StreamActionView::Finalize,
            );
        },
        (StreamPhase::Finalizing, StreamEvent::Finalized(outcome)) => {
            let said = farewell(s, outcome);
            lemma_single(h, said[0]);
            let closed = StreamActionView::Send(session_closed_json());
            let codex = s.dialect == Dialect::Codex;
            lemma_maybe(h, codex, closed);
            lemma_in_a_row(h, seq![said[0]], if_so(codex, closed));
            assert(said =~= seq![said[0]] + if_so(codex, closed));
            lemma_around(
                h,
                said,
                s.show_overlay,
                StreamActionView::HideRecordingOverlay,
                StreamActionView::Close,
            );
        },
        _ => {},
    }
}

/// A session begins with nothing, and takes nothing before the model is there.
pub proof fn a_session_begins_with_nothing(plan: StreamPlan, id: Seq<char>, show_overlay: bool)
    ensures
        holdings(opened(plan, id, show_overlay).0) == (Holdings {
            subscribed: false,
            streaming: false,
            overlay: None,
        }),
        held_after_all(
            holdings(opened(plan, id, show_overlay).0),
            opened(plan, id, show_overlay).1,
        ) == Some(holdings(opened(plan, id, show_overlay).0)),
        in_bounds(opened(plan, id, show_overlay).0),
{
    lemma_pair(
        holdings(opened(plan, id, show_overlay).0),
        StreamActionView::InitiateModelLoad,
        StreamActionView::PollModel(0),
    );
}

/// Where some events in a row take a session, and all that they ask for.
pub open spec fn lived(s: SessionView, events: Seq<StreamEvent>) -> (
    SessionView,
    Seq<StreamActionView>,
)
    decreases events.len(),
{
    if events.len() == 0 {
        (s, seq![])
    } else {
        let (before, actions) = lived(s, events.drop_last());
        let (next, more) = stepped(before, events.last());
        (next, actions + more)
    }
}

proof fn lemma_lived(s: SessionView, events: Seq<StreamEvent>)
    ensures
        held_after_all(holdings(s), lived(s, events).1) == Some(holdings(lived(s, events).0)),
        in_bounds(s) ==> in_bounds(lived(s, events).0),
    decreases events.len(),
{
    if events.len() > 0 {
        lemma_lived(s, events.drop_last());
        let (before, actions) = lived(s, events.drop_last());
        nothing_is_left_behind(before, events.last());
        lemma_in_a_row(holdings(s), actions, stepped(before, events.last()).1);
    }
}

/// Over a whole session, whatever happens to it in whatever order, what it
/// takes of the program around it it gives back: once it is closed, it holds
/// nothing. It never leaves its bounds.
pub proof fn a_whole_session_leaves_nothing_behind(
    plan: StreamPlan,
    id: Seq<char>,
    show_overlay: bool,
    events: Seq<StreamEvent>,
)
    ensures
        ({
            let none = Holdings { subscribed: false, streaming: false, overlay: None };
            let (first, asked) = opened(plan, id, show_overlay);
            let (last, more) = lived(first, events);
            &&& held_after_all(none, asked + more) == Some(holdings(last))
            &&& last.phase == StreamPhase::Closed ==> held_after_all(none, asked + more) == Some(none)
            &&& in_bounds(last)
        }),
{
    let (first, asked) = opened(plan, id, show_overlay);
    a_session_begins_with_nothing(plan, id, show_overlay);
    lemma_lived(first, events);
    lemma_in_a_row(holdings(first), asked, lived(first, events).1);
}

/// How often a session has its stream started, finalized and cancelled.
#[verifier::ext_equal]
pub ghost struct Tally {
    pub starts: nat,
    pub finalizes: nat,
    pub cancels: nat,
}

/// What one action adds to the tally.
pub open spec fn tally_of(action: StreamActionView) -> Tally {
    Tally {
        starts: if action == StreamActionView::StartStream {
            1
        } else {
            0
        },
        finalizes: if action == StreamActionView::Finalize {
            1
        } else {
            0
        },
        cancels: if action == StreamActionView::CancelStream {
            1
        } else {
            0
        },
    }
}

/// Two tallies together.
pub open spec fn both(a: Tally, b: Tally) -> Tally {
    Tally {
        starts: a.starts + b.starts,
        finalizes: a.finalizes + b.finalizes,
        cancels: a.cancels + b.cancels,
    }
}

/// The tally of some actions.
pub open spec fn tally(actions: Seq<StreamActionView>) -> Tally
    decreases actions.len(),
{
    if actions.len() == 0 {
        Tally { starts: 0, finalizes: 0, cancels: 0 }
    } else {
        both(tally(actions.drop_last()), tally_of(actions.last()))
    }
}

proof fn lemma_tally_in_a_row(a: Seq<StreamActionView>, b: Seq<StreamActionView>)
    ensures
        tally(a + b) == both(tally(a), tally(b)),
    decreases b.len(),
{
    if b.len() == 0 {
        assert(a + b =~= a);
    } else {
        assert((a + b).drop_last() =~= a + b.drop_last());
        lemma_tally_in_a_row(a, b.drop_last());
    }
}

proof fn lemma_tally_single(a: StreamActionView)
    ensures
        tally(seq![a]) == tally_of(a),
{
    reveal_with_fuel(tally, 2);
    assert(seq![a].drop_last() =~= seq![]);
}

proof fn lemma_tally_pair(a: StreamActionView, b: StreamActionView)
    ensures
        tally(seq![a, b]) == both(tally_of(a), tally_of(b)),
{
    lemma_tally_single(a);
    lemma_tally_single(b);
    assert(seq![a, b] =~= seq![a] + seq![b]);
    lemma_tally_in_a_row(seq![a], seq![b]);
}

proof fn lemma_tally_around(
    head: Seq<StreamActionView>,
    condition: bool,
    action: StreamActionView,
    tail: StreamActionView,
)
    requires
        tally_of(action) == tally(seq![]),
    ensures
        tally(head + if_so(condition, action) + seq![tail]) == both(tally(head), tally_of(tail)),
{
    lemma_tally_in_a_row(head, if_so(condition, action));
    lemma_tally_single(action);
    lemma_tally_in_a_row(head + if_so(condition, action), seq![tail]);
    lemma_tally_single(tail);
}

proof fn lemma_live_tally(s: SessionView, rate: usize, greeting: Seq<char>)
    ensures
        tally(gone_live(s, rate, greeting).1) == (Tally { starts: 1, finalizes: 0, cancels: 0 }),
{
    lemma_tally_pair(StreamActionView::Subscribe, StreamActionView::StartStream);
    lemma_tally_around(
        seq![StreamActionView::Subscribe, StreamActionView::StartStream],
        s.show_overlay,
        StreamActionView::ShowStreamingOverlay,
        StreamActionView::Send(greeting),
    );
}

proof fn lemma_cancel_tally(s: SessionView, message: Seq<char>)
    ensures
        tally(cancelled(s).1) == (Tally { starts: 0, finalizes: 0, cancels: 1 }),
        tally(failed(s, message).1) == (Tally { starts: 0, finalizes: 0, cancels: 1 }),
{
    lemma_tally_pair(StreamActionView::Unsubscribe, StreamActionView::CancelStream);
    lemma_tally_around(
        seq![StreamActionView::Unsubscribe, StreamActionView::CancelStream],
        s.show_overlay,
        StreamActionView::HideRecordingOverlay,
        StreamActionView::Close,
    );
    let said = StreamActionView::Send(error_json(message));
    lemma_tally_single(said);
    lemma_tally_in_a_row(seq![said], cancelled(s).1);
}

/// Whether an event ends the audio of a stream and asks for its transcript.
pub open spec fn is_commit(event: StreamEvent) -> bool {
    event is Closed || event matches StreamEvent::Message(ClientMessage::Commit)
}

/// What a step does to the stream of the engine: it starts it exactly where
/// the session goes live, and ends it exactly where the session stops being
/// live, by finalizing it if the client has committed or closed, and by
/// cancelling it otherwise.
pub proof fn a_stream_ends_as_its_client_does(s: SessionView, event: StreamEvent)
    ensures
        ({
            let (next, actions) = stepped(s, event);
            let goes_live = s.phase != StreamPhase::Live && next.phase == StreamPhase::Live;
            let ends = s.phase == StreamPhase::Live && next.phase != StreamPhase::Live;
            &&& tally(actions) == (Tally {
                starts: if goes_live {
                    1
                } else {
                    0
                },
                finalizes: if ends && is_commit(event) {
                    1
                } else {
                    0
                },
                cancels: if ends && !is_commit(event) {
                    1
                } else {
                    0
                },
            })
            &&& s.phase == StreamPhase::Live && is_commit(event) ==> next.phase
                == StreamPhase::Finalizing
            &&& ends && !is_commit(event) ==> next.phase == StreamPhase::Closed
        }),
{
    let (next, actions) = stepped(s, event);
    if actions.len() == 1 {
        assert(actions =~= seq![actions[0]]);
        lemma_tally_single(actions[0]);
    }
    match (s.phase, event) {
        (StreamPhase::Loading, StreamEvent::ModelPolled(loaded)) => {
            lemma_live_tally(s, s.rate, ready_json(s.rate as nat));
        },
        (StreamPhase::Greeting, StreamEvent::Message(ClientMessage::Start { sample_rate })) => {
            lemma_live_tally(s, s.rate, started_json(s.id));
            if let Some(hz) = sample_rate {
                lemma_live_tally(s, hz as usize, started_json(s.id));
                lemma_tally_pair(
                    StreamActionView::Send(error_json("sample_rate_hz is out of range"@)),
                    StreamActionView::Close,
                );
            }
        },
        (StreamPhase::Greeting, _) => {
            let last = StreamActionView::Send(transcript_final_json(s.id, seq![]));
            let closed = StreamActionView::Send(session_closed_json());
            lemma_tally_pair(last, closed);
            lemma_tally_single(StreamActionView::Close);
            lemma_tally_in_a_row(seq![last, closed], seq![StreamActionView::Close]);
            lemma_tally_in_a_row(seq![], seq![StreamActionView::Close]);
        },
        (StreamPhase::Live, StreamEvent::Binary(bytes)) => {
            lemma_cancel_tally(
                s,
                audio_message(AudioErrorView::OddByteCount(bytes@.len() as usize)),
            );
        },
        (StreamPhase::Live, StreamEvent::Message(ClientMessage::Append { audio })) => {
            lemma_cancel_tally(s, "audio.append holds no Base64"@);
            if let Some(text) = audio {
                if let Some(bytes) = base64::decoded(vstd::utf8::encode_utf8(text@)) {
                    lemma_cancel_tally(
                        s,
                        audio_message(AudioErrorView::OddByteCount(bytes.len() as usize)),
                    );
                }
            }
        },
        (StreamPhase::Live, StreamEvent::Resampled(samples)) => {
            lemma_cancel_tally(
                s,
                "stream exceeded the "@ + decimal(MAX_AUDIO_SECS as nat) + "s limit"@,
            );
        },
        (StreamPhase::Live, StreamEvent::Failed) => {
            lemma_cancel_tally(s, seq![]);
        },
        (StreamPhase::Live, _) => {
            lemma_tally_single(StreamActionView::Unsubscribe);
            lemma_tally_around(
                seq![StreamActionView::Unsubscribe],
                s.show_overlay,
                StreamActionView::ShowTranscribingOverlay,
                StreamActionView::Finalize,
            );
        },
        (StreamPhase::Finalizing, StreamEvent::Finalized(outcome)) => {
            let said = farewell(s, outcome);
            let closed = StreamActionView::Send(session_closed_json());
            lemma_tally_single(said[0]);
            lemma_tally_single(closed);
            let codex = s.dialect == Dialect::Codex;
            lemma_tally_in_a_row(seq![said[0]], if_so(codex, closed));
            assert(said =~= seq![said[0]] + if_so(codex, closed));
            lemma_tally_around(
                said,
                s.show_overlay,
                StreamActionView::HideRecordingOverlay,
                StreamActionView::Close,
            );
        },
        _ => {},
    }
}

/// Whether a tally is that of a session in its phase.
pub open spec fn tally_fits(phase: StreamPhase, t: Tally) -> bool {
    match phase {
        StreamPhase::Loading => t.starts == 0 && t.finalizes == 0 && t.cancels == 0,
        StreamPhase::Greeting => t.starts == 0 && t.finalizes == 0 && t.cancels == 0,
        StreamPhase::Live => t.starts == 1 && t.finalizes == 0 && t.cancels == 0,
        StreamPhase::Finalizing => t.starts == 1 && t.finalizes == 1 && t.cancels == 0,
        StreamPhase::Closed => t.starts <= 1 && t.finalizes + t.cancels == t.starts,
    }
}

proof fn lemma_tally_lived(s: SessionView, events: Seq<StreamEvent>)
    requires
        s.phase == StreamPhase::Loading,
    ensures
        tally_fits(lived(s, events).0.phase, tally(lived(s, events).1)),
    decreases events.len(),
{
    if events.len() > 0 {
        lemma_tally_lived(s, events.drop_last());
        let (before, actions) = lived(s, events.drop_last());
        a_stream_ends_as_its_client_does(before, events.last());
        a_session_moves_forward(before, events.last());
        lemma_tally_in_a_row(actions, stepped(before, events.last()).1);
    }
}

/// Over a whole session, whatever happens to it in whatever order, the stream
/// of the engine is started once at most, which is when the session goes live,
/// and is ended by exactly one of finalizing and cancelling once the session
/// is live no more.
pub proof fn a_stream_is_started_and_ended_once(
    plan: StreamPlan,
    id: Seq<char>,
    show_overlay: bool,
    events: Seq<StreamEvent>,
)
    ensures
        ({
            let (first, asked) = opened(plan, id, show_overlay);
            let (last, more) = lived(first, events);
            tally_fits(last.phase, tally(asked + more))
        }),
{
    let (first, asked) = opened(plan, id, show_overlay);
    lemma_tally_lived(first, events);
    lemma_tally_pair(StreamActionView::InitiateModelLoad, StreamActionView::PollModel(0));
    lemma_tally_in_a_row(asked, lived(first, events).1);
}

/// A text frame that is not understood changes nothing, wherever in a session
/// it comes: the session goes on and asks for the same things as if it had not
/// been sent.
pub proof fn an_unknown_frame_changes_nothing(
    s: SessionView,
    before: Seq<StreamEvent>,
    after: Seq<StreamEvent>,
)
    ensures
        lived(s, before.push(StreamEvent::Message(ClientMessage::Unknown)) + after) == lived(
            s,
            before + after,
        ),
    decreases after.len(),
{
    let unknown = StreamEvent::Message(ClientMessage::Unknown);
    if after.len() == 0 {
        assert(before.push(unknown) + after =~= before.push(unknown));
        assert(before.push(unknown).drop_last() =~= before);
        assert(before + after =~= before);
        let (there, actions) = lived(s, before);
        assert(stepped(there, unknown) == (there, Seq::<StreamActionView>::empty()));
        assert(actions + Seq::<StreamActionView>::empty() =~= actions);
    } else {
        an_unknown_frame_changes_nothing(s, before, after.drop_last());
        let long = before.push(unknown) + after;
        let short = before + after;
        assert(long.drop_last() =~= before.push(unknown) + after.drop_last());
        assert(short.drop_last() =~= before + after.drop_last());
    }
}

/// The order of the phases.
pub open spec fn rank(phase: StreamPhase) -> nat {
    match phase {
        StreamPhase::Loading => 0,
        StreamPhase::Greeting => 1,
        StreamPhase::Live => 2,
        StreamPhase::Finalizing => 3,
        StreamPhase::Closed => 4,
    }
}

/// A session only moves forward, and once closed it does nothing more.
pub proof fn a_session_moves_forward(s: SessionView, event: StreamEvent)
    ensures
        rank(stepped(s, event).0.phase) >= rank(s.phase),
        s.phase == StreamPhase::Closed ==> stepped(s, event) == (
            s,
            Seq::<StreamActionView>::empty(),
        ),
{
}

/// A session stays within its bounds, and audio is fed to the engine only
/// while all that was fed, with it, is no more than ten minutes' worth.
pub proof fn a_stream_is_bounded(s: SessionView, event: StreamEvent)
    requires
        in_bounds(s),
    ensures
        in_bounds(stepped(s, event).0),
        stepped(s, event).1.contains(StreamActionView::Feed) ==> {
            &&& event matches StreamEvent::Resampled(samples)
            &&& stepped(s, event).0.fed == s.fed + samples
            &&& s.fed + samples <= MAX_AUDIO_SECS * TARGET_HZ
        },
        !stepped(s, event).1.contains(StreamActionView::Feed) ==> stepped(s, event).0.fed == s.fed,
{
    let (next, actions) = stepped(s, event);
    if next.fed != s.fed {
        assert(actions[0] == StreamActionView::Feed);
    }
}

/// A model that is not loaded is waited for: a session gives up on it only
/// after the whole wait, never once it has loaded, and until then the wait
/// grows with every look.
pub proof fn the_model_is_waited_for(s: SessionView, loaded: bool)
    requires
        s.phase == StreamPhase::Loading,
    ensures
        ({
            let (next, actions) = stepped(s, StreamEvent::ModelPolled(loaded));
            &&& next.phase == StreamPhase::Closed <==> !loaded && s.waited_ms >= MODEL_WAIT_MS
            &&& !loaded && s.waited_ms < MODEL_WAIT_MS ==> next.waited_ms == s.waited_ms
                + MODEL_POLL_MS && actions == seq![StreamActionView::PollModel(MODEL_POLL_MS)]
        }),
{
}

/// The revisions of an utterance only grow, and every partial transcript that
/// a Codex client is sent has a higher one than the last.
pub proof fn revisions_grow(s: SessionView, event: StreamEvent)
    requires
        s.revision < u64::MAX,
    ensures
        stepped(s, event).0.revision >= s.revision,
        s.phase == StreamPhase::Live && s.dialect == Dialect::Codex && event is Partial ==> {
            &&& stepped(s, event).0.revision == s.revision + 1
            &&& stepped(s, event).1 == seq![
                StreamActionView::SendPartial(
                    segment_json(
                        s.id,
                        stepped(s, event).0.revision as nat,
                        event->committed@ + event->tentative@,
                    ),
                ),
            ]
        },
{
}

/// A native client hears from the server as soon as the model is there; a
/// Codex client hears nothing until it has begun, and then that it has.
pub proof fn the_dialects_differ_in_who_speaks_first(s: SessionView, sample_rate: Option<u64>)
    requires
        s.phase == StreamPhase::Loading,
        sample_rate matches Some(hz) ==> 0 < hz <= usize::MAX,
    ensures
        s.dialect == Dialect::Native ==> {
            let (next, actions) = stepped(s, StreamEvent::ModelPolled(true));
            &&& next.phase == StreamPhase::Live
            &&& actions.last() == StreamActionView::Send(ready_json(s.rate as nat))
        },
        s.dialect == Dialect::Codex ==> {
            let (waiting, silence) = stepped(s, StreamEvent::ModelPolled(true));
            let (next, actions) = stepped(
                waiting,
                StreamEvent::Message(ClientMessage::Start { sample_rate }),
            );
            &&& silence == Seq::<StreamActionView>::empty()
            &&& next.phase == StreamPhase::Live
            &&& actions.last() == StreamActionView::Send(started_json(s.id))
        },
{
}

/// Audio reaches the engine's side as it was recorded: whole samples that a
/// native client sends as bytes, or that a Codex client sends in Base64, are
/// the samples that the session has resampled.
pub proof fn audio_is_heard_as_it_was_sent(s: SessionView, bytes: Vec<u8>, audio: String)
    requires
        s.phase == StreamPhase::Live,
        bytes@.len() % 2 == 0,
        vstd::utf8::encode_utf8(audio@) == base64::encoded(bytes@),
    ensures
        ({
            let heard = seq![StreamActionView::Resample(pcm16(bytes@), s.rate)];
            &&& s.dialect == Dialect::Native ==> stepped(s, StreamEvent::Binary(bytes)) == (s, heard)
            &&& stepped(
                s,
                StreamEvent::Message(ClientMessage::Append { audio: Some(audio) }),
            ) == (s, heard)
        }),
{
    base64::decoding_undoes_encoding(bytes@);
}

/// A Codex client that closes its session before it has begun is still sent a
/// final transcript, an empty one, and that the session is closed.
pub proof fn a_close_is_always_answered(s: SessionView)
    requires
        s.phase == StreamPhase::Greeting,
    ensures
        ({
            let (over, actions) = stepped(s, StreamEvent::Message(ClientMessage::Commit));
            &&& over.phase == StreamPhase::Closed
            &&& actions == seq![
                StreamActionView::Send(transcript_final_json(s.id, seq![])),
                StreamActionView::Send(session_closed_json()),
                StreamActionView::Close,
            ]
        }),
{
}

/// A live session that is committed, or whose client hangs up, has its final
/// transcript made, sends it first of all, and closes.
pub proof fn a_commit_yields_the_final_transcript(s: SessionView, event: StreamEvent, text: String)
    requires
        s.phase == StreamPhase::Live,
        event == StreamEvent::Closed || event == StreamEvent::Message(ClientMessage::Commit),
    ensures
        ({
            let (ending, first) = stepped(s, event);
            let (over, second) = stepped(
                ending,
                StreamEvent::Finalized(FinalOutcome::Text(Some(text))),
            );
            &&& first.last() == StreamActionView::Finalize
            &&& over.phase == StreamPhase::Closed
            &&& second.first() == StreamActionView::Send(
                match s.dialect {
                    Dialect::Native => final_json(text@),
                    Dialect::Codex => transcript_final_json(s.id, text@),
                },
            )
            &&& s.dialect == Dialect::Codex ==> second[1] == StreamActionView::Send(
                session_closed_json(),
            )
            &&& second.last() == StreamActionView::Close
        }),
{
}

} // verus!
