//! What client and server say to each other over a stream.

use vstd::prelude::*;
use vstd::string::*;

use crate::text::{
    audio_object, config_object, decimal, json_str_at, json_string, json_u64_at, lemma_object,
    lemma_plain_json, object, push_decimal, push_json, read_json_str, read_json_u64, same_text,
    str_seen, string_seen, typed_object,
};

verus! {

/// The languages that a stream can be held in.
#[derive(Clone, Copy, Debug, PartialEq, Eq, Structural)]
pub enum Dialect {
    /// The server speaks first; audio comes in binary frames.
    Native,
    /// OpenCodex's dictation extension: the client speaks first; audio comes
    /// as Base64 in text frames.
    Codex,
}

/// What a client says in a text frame.
#[derive(Debug)]
pub enum ClientMessage {
    /// The client begins, and may name the rate of its audio.
    Start { sample_rate: Option<u64> },
    /// A piece of audio, in Base64; none where the message holds no text.
    Append { audio: Option<String> },
    /// The client is done and asks for the final transcript.
    Commit,
    /// Anything else. It is ignored rather than fatal: a client that sends a
    /// keepalive should not lose its session.
    Unknown,
}

/// What a [`ClientMessage`] says.
pub ghost enum ClientMessageView {
    Start(Option<u64>),
    Append(Option<Seq<char>>),
    Commit,
    Unknown,
}

impl View for ClientMessage {
    type V = ClientMessageView;

    open spec fn view(&self) -> ClientMessageView {
        match self {
            ClientMessage::Start { sample_rate } => ClientMessageView::Start(*sample_rate),
            ClientMessage::Append { audio } => ClientMessageView::Append(string_seen(*audio)),
            ClientMessage::Commit => ClientMessageView::Commit,
            ClientMessage::Unknown => ClientMessageView::Unknown,
        }
    }
}

/// What a text frame says, given the type that it names, the rate in its
/// configuration and its audio.
pub open spec fn message_of(
    dialect: Dialect,
    kind: Option<Seq<char>>,
    sample_rate: Option<u64>,
    audio: Option<Seq<char>>,
) -> ClientMessageView {
    match (dialect, kind) {
        (Dialect::Native, Some(k)) => if k == "commit"@ {
            ClientMessageView::Commit
        } else {
            ClientMessageView::Unknown
        },
        (Dialect::Codex, Some(k)) => if k == "session.start"@ {
            ClientMessageView::Start(sample_rate)
        } else if k == "audio.append"@ {
            ClientMessageView::Append(audio)
        } else if k == "session.close"@ {
            ClientMessageView::Commit
        } else {
            ClientMessageView::Unknown
        },
        (_, None) => ClientMessageView::Unknown,
    }
}

/// Decides what a text frame says, from what its JSON holds.
pub fn judge_message(
    dialect: Dialect,
    kind: Option<&str>,
    sample_rate: Option<u64>,
    audio: Option<String>,
) -> (r: ClientMessage)
    ensures
        r@ == message_of(dialect, str_seen(kind), sample_rate, string_seen(audio)),
{
    let kind = match kind {
        Some(kind) => kind,
        None => return ClientMessage::Unknown,
    };
    match dialect {
        Dialect::Native => if same_text(kind, "commit") {
            ClientMessage::Commit
        } else {
            ClientMessage::Unknown
        },
        Dialect::Codex => if same_text(kind, "session.start") {
            ClientMessage::Start { sample_rate }
        } else if same_text(kind, "audio.append") {
            ClientMessage::Append { audio }
        } else if same_text(kind, "session.close") {
            ClientMessage::Commit
        } else {
            ClientMessage::Unknown
        },
    }
}

proof fn lemma_plain_messages()
    ensures
        typed_object("commit"@) == "{\"type\":\"commit\"}"@,
        typed_object("session.close"@) == "{\"type\":\"session.close\"}"@,
{
    reveal_strlit("commit");
    reveal_strlit("session.close");
    reveal_strlit("{\"type\":");
    reveal_strlit("}");
    reveal_strlit("{\"type\":\"commit\"}");
    reveal_strlit("{\"type\":\"session.close\"}");
    lemma_plain_json("commit"@);
    lemma_plain_json("session.close"@);
    assert(typed_object("commit"@) =~= "{\"type\":\"commit\"}"@);
    assert(typed_object("session.close"@) =~= "{\"type\":\"session.close\"}"@);
}

/// Reads a text frame.
pub fn read_message(dialect: Dialect, text: &str) -> (r: ClientMessage)
    ensures
        r@ == message_of(
            dialect,
            json_str_at(text@, "/type"@),
            json_u64_at(text@, "/config/sample_rate_hz"@),
            json_str_at(text@, "/audio"@),
        ),
        // What a client writes in the plainest way is understood.
        dialect == Dialect::Codex ==> forall|hz: u64|
            text@ == #[trigger] config_object("session.start"@, hz) ==> r@
                == ClientMessageView::Start(Some(hz)),
        dialect == Dialect::Codex ==> forall|audio: Seq<char>|
            text@ == #[trigger] audio_object("audio.append"@, audio) ==> r@
                == ClientMessageView::Append(Some(audio)),
        dialect == Dialect::Native && text@ == "{\"type\":\"commit\"}"@ ==> r@
            == ClientMessageView::Commit,
        dialect == Dialect::Codex && text@ == "{\"type\":\"session.close\"}"@ ==> r@
            == ClientMessageView::Commit,
{
    proof {
        lemma_plain_messages();
        reveal_strlit("session.start");
        reveal_strlit("audio.append");
        reveal_strlit("session.close");
        assert("session.close"@[8] != "session.start"@[8]);
        assert("session.close"@.len() != "audio.append"@.len());
        assert("session.start"@.len() != "audio.append"@.len());
    }
    let kind = read_json_str(text, "/type");
    let sample_rate = read_json_u64(text, "/config/sample_rate_hz");
    let audio = read_json_str(text, "/audio");
    let kind = match &kind {
        Some(kind) => Some(kind.as_str()),
        None => None,
    };
    judge_message(dialect, kind, sample_rate, audio)
}

/// The server is ready for audio at a rate.
pub open spec fn ready_json(rate: nat) -> Seq<char> {
    "{\"type\":\"ready\",\"sample_rate\":"@ + decimal(rate) + "}"@
}

/// A partial transcript.
pub open spec fn partial_json(committed: Seq<char>, tentative: Seq<char>) -> Seq<char> {
    "{\"type\":\"partial\",\"committed\":"@ + json_string(committed) + ",\"tentative\":"@
        + json_string(tentative) + "}"@
}

/// The final transcript.
pub open spec fn final_json(text: Seq<char>) -> Seq<char> {
    "{\"type\":\"final\",\"text\":"@ + json_string(text) + "}"@
}

/// Something went wrong.
pub open spec fn error_json(message: Seq<char>) -> Seq<char> {
    "{\"type\":\"error\",\"message\":"@ + json_string(message) + "}"@
}

/// A dictation session has begun.
pub open spec fn started_json(id: Seq<char>) -> Seq<char> {
    "{\"type\":\"session.started\",\"session\":{\"id\":"@ + json_string(id) + "}}"@
}

/// The text of an utterance so far. A higher revision replaces the text of a
/// lower one.
pub open spec fn segment_json(id: Seq<char>, revision: nat, text: Seq<char>) -> Seq<char> {
    "{\"type\":\"transcript.segment\",\"utterance_id\":"@ + json_string(id) + ",\"revision\":"@
        + decimal(revision) + ",\"text\":"@ + json_string(text) + "}"@
}

/// The final text of an utterance.
pub open spec fn transcript_final_json(id: Seq<char>, text: Seq<char>) -> Seq<char> {
    "{\"type\":\"transcript.final\",\"utterance_id\":"@ + json_string(id) + ",\"text\":"@
        + json_string(text) + "}"@
}

/// A dictation session is over.
pub open spec fn session_closed_json() -> Seq<char> {
    "{\"type\":\"session.updated\",\"session\":{\"status\":\"closed\"}}"@
}

/// What the server says in the native dialect is JSON objects with the
/// documented members: the rate in decimal notation, and every text as it is.
pub proof fn native_frames_are_objects(
    rate: nat,
    committed: Seq<char>,
    tentative: Seq<char>,
    text: Seq<char>,
)
    ensures
        ready_json(rate) == object(
            seq![("type"@, json_string("ready"@)), ("sample_rate"@, decimal(rate))],
        ),
        partial_json(committed, tentative) == object(
            seq![
                ("type"@, json_string("partial"@)),
                ("committed"@, json_string(committed)),
                ("tentative"@, json_string(tentative)),
            ],
        ),
        final_json(text) == object(
            seq![("type"@, json_string("final"@)), ("text"@, json_string(text))],
        ),
        error_json(text) == object(
            seq![("type"@, json_string("error"@)), ("message"@, json_string(text))],
        ),
{
    reveal_strlit("type");
    reveal_strlit("}");
    reveal_strlit("ready");
    reveal_strlit("sample_rate");
    reveal_strlit("{\"type\":\"ready\",\"sample_rate\":");
    lemma_plain_json("ready"@);
    let ready = seq![("type"@, json_string("ready"@)), ("sample_rate"@, decimal(rate))];
    lemma_object(ready);
    assert(ready_json(rate) =~= object(ready));
    reveal_strlit("partial");
    reveal_strlit("committed");
    reveal_strlit("tentative");
    reveal_strlit("{\"type\":\"partial\",\"committed\":");
    reveal_strlit(",\"tentative\":");
    lemma_plain_json("partial"@);
    let partial = seq![
        ("type"@, json_string("partial"@)),
        ("committed"@, json_string(committed)),
        ("tentative"@, json_string(tentative)),
    ];
    lemma_object(partial);
    assert(partial_json(committed, tentative) =~= object(partial));
    reveal_strlit("final");
    reveal_strlit("text");
    reveal_strlit("{\"type\":\"final\",\"text\":");
    lemma_plain_json("final"@);
    let last = seq![("type"@, json_string("final"@)), ("text"@, json_string(text))];
    lemma_object(last);
    assert(final_json(text) =~= object(last));
    reveal_strlit("error");
    reveal_strlit("message");
    reveal_strlit("{\"type\":\"error\",\"message\":");
    lemma_plain_json("error"@);
    let error = seq![("type"@, json_string("error"@)), ("message"@, json_string(text))];
    lemma_object(error);
    assert(error_json(text) =~= object(error));
}

proof fn lemma_started_object(id: Seq<char>)
    ensures
        started_json(id) == object(
            seq![
                ("type"@, json_string("session.started"@)),
                ("session"@, object(seq![("id"@, json_string(id))])),
            ],
        ),
{
    reveal_strlit("type");
    reveal_strlit("session");
    reveal_strlit("}}");
    reveal_strlit("id");
    reveal_strlit("session.started");
    reveal_strlit("{\"type\":\"session.started\",\"session\":{\"id\":");
    lemma_plain_json("session.started"@);
    let named = seq![("id"@, json_string(id))];
    lemma_object(named);
    let started = seq![("type"@, json_string("session.started"@)), ("session"@, object(named))];
    lemma_object(started);
    assert(started_json(id) =~= object(started));
}

proof fn lemma_segment_object(id: Seq<char>, revision: nat, text: Seq<char>)
    ensures
        segment_json(id, revision, text) == object(
            seq![
                ("type"@, json_string("transcript.segment"@)),
                ("utterance_id"@, json_string(id)),
                ("revision"@, decimal(revision)),
                ("text"@, json_string(text)),
            ],
        ),
{
    reveal_strlit("type");
    reveal_strlit("text");
    reveal_strlit("utterance_id");
    reveal_strlit("}");
    reveal_strlit("transcript.segment");
    reveal_strlit("revision");
    reveal_strlit("{\"type\":\"transcript.segment\",\"utterance_id\":");
    reveal_strlit(",\"revision\":");
    reveal_strlit(",\"text\":");
    lemma_plain_json("transcript.segment"@);
    let segment = seq![
        ("type"@, json_string("transcript.segment"@)),
        ("utterance_id"@, json_string(id)),
        ("revision"@, decimal(revision)),
        ("text"@, json_string(text)),
    ];
    lemma_object(segment);
    assert(segment_json(id, revision, text) =~= object(segment));
}

proof fn lemma_transcript_final_object(id: Seq<char>, text: Seq<char>)
    ensures
        transcript_final_json(id, text) == object(
            seq![
                ("type"@, json_string("transcript.final"@)),
                ("utterance_id"@, json_string(id)),
                ("text"@, json_string(text)),
            ],
        ),
{
    reveal_strlit("type");
    reveal_strlit("text");
    reveal_strlit("utterance_id");
    reveal_strlit("}");
    reveal_strlit(",\"text\":");
    reveal_strlit("transcript.final");
    reveal_strlit("{\"type\":\"transcript.final\",\"utterance_id\":");
    lemma_plain_json("transcript.final"@);
    let last = seq![
        ("type"@, json_string("transcript.final"@)),
        ("utterance_id"@, json_string(id)),
        ("text"@, json_string(text)),
    ];
    lemma_object(last);
    assert(transcript_final_json(id, text) =~= object(last));
}

proof fn lemma_session_closed_object()
    ensures
        session_closed_json() == object(
            seq![
                ("type"@, json_string("session.updated"@)),
                ("session"@, object(seq![("status"@, json_string("closed"@))])),
            ],
        ),
{
    reveal_strlit("type");
    reveal_strlit("session");
    reveal_strlit("session.updated");
    reveal_strlit("status");
    reveal_strlit("closed");
    reveal_strlit("{\"type\":\"session.updated\",\"session\":{\"status\":\"closed\"}}");
    lemma_plain_json("session.updated"@);
    lemma_plain_json("closed"@);
    let over = seq![("status"@, json_string("closed"@))];
    lemma_object(over);
    let updated = seq![("type"@, json_string("session.updated"@)), ("session"@, object(over))];
    lemma_object(updated);
    assert(session_closed_json() =~= object(updated));
}

/// What the server says in the Codex dialect is JSON objects with the
/// documented members: the session's name, the revision in decimal notation,
/// and every text as it is.
pub proof fn codex_frames_are_objects(id: Seq<char>, revision: nat, text: Seq<char>)
    ensures
        started_json(id) == object(
            seq![
                ("type"@, json_string("session.started"@)),
                ("session"@, object(seq![("id"@, json_string(id))])),
            ],
        ),
        segment_json(id, revision, text) == object(
            seq![
                ("type"@, json_string("transcript.segment"@)),
                ("utterance_id"@, json_string(id)),
                ("revision"@, decimal(revision)),
                ("text"@, json_string(text)),
            ],
        ),
        transcript_final_json(id, text) == object(
            seq![
                ("type"@, json_string("transcript.final"@)),
                ("utterance_id"@, json_string(id)),
                ("text"@, json_string(text)),
            ],
        ),
        session_closed_json() == object(
            seq![
                ("type"@, json_string("session.updated"@)),
                ("session"@, object(seq![("status"@, json_string("closed"@))])),
            ],
        ),
{
    lemma_started_object(id);
    lemma_segment_object(id, revision, text);
    lemma_transcript_final_object(id, text);
    lemma_session_closed_object();
}

/// What a text frame says depends on its type alone, which has to be the very
/// one: a native client can commit and nothing else, and a Codex client can
/// begin, at the rate that it names, append the audio that it sends, and
/// close. Anything else, and no type at all, is not understood.
pub proof fn a_frame_says_what_its_type_says(
    dialect: Dialect,
    kind: Option<Seq<char>>,
    sample_rate: Option<u64>,
    audio: Option<Seq<char>>,
)
    ensures
        ({
            let said = message_of(dialect, kind, sample_rate, audio);
            let native = dialect == Dialect::Native;
            let commit = if native {
                "commit"@
            } else {
                "session.close"@
            };
            &&& said is Commit <==> kind == Some(commit)
            &&& said is Start <==> !native && kind == Some("session.start"@)
            &&& said is Append <==> !native && kind == Some("audio.append"@)
            &&& said matches ClientMessageView::Start(rate) ==> rate == sample_rate
            &&& said matches ClientMessageView::Append(piece) ==> piece == audio
        }),
{
    reveal_strlit("session.start");
    reveal_strlit("audio.append");
    reveal_strlit("session.close");
    assert("session.close"@[8] != "session.start"@[8]);
    assert("session.close"@.len() != "audio.append"@.len());
}

pub(crate) fn ready_text(rate: usize) -> (m: String)
    ensures
        m@ == ready_json(rate as nat),
{
    let mut m = "{\"type\":\"ready\",\"sample_rate\":".to_owned();
    push_decimal(&mut m, rate as u128);
    m.append("}");
    m
}

pub(crate) fn partial_text(committed: &str, tentative: &str) -> (m: String)
    ensures
        m@ == partial_json(committed@, tentative@),
{
    let mut m = "{\"type\":\"partial\",\"committed\":".to_owned();
    push_json(&mut m, committed);
    m.append(",\"tentative\":");
    push_json(&mut m, tentative);
    m.append("}");
    m
}

pub(crate) fn final_text(text: &str) -> (m: String)
    ensures
        m@ == final_json(text@),
{
    let mut m = "{\"type\":\"final\",\"text\":".to_owned();
    push_json(&mut m, text);
    m.append("}");
    m
}

pub(crate) fn error_text(message: &str) -> (m: String)
    ensures
        m@ == error_json(message@),
{
    let mut m = "{\"type\":\"error\",\"message\":".to_owned();
    push_json(&mut m, message);
    m.append("}");
    m
}

pub(crate) fn started_text(id: &str) -> (m: String)
    ensures
        m@ == started_json(id@),
{
    let mut m = "{\"type\":\"session.started\",\"session\":{\"id\":".to_owned();
    push_json(&mut m, id);
    m.append("}}");
    m
}

pub(crate) fn segment_text(id: &str, revision: u64, text: &str) -> (m: String)
    ensures
        m@ == segment_json(id@, revision as nat, text@),
{
    let mut m = "{\"type\":\"transcript.segment\",\"utterance_id\":".to_owned();
    push_json(&mut m, id);
    m.append(",\"revision\":");
    push_decimal(&mut m, revision as u128);
    m.append(",\"text\":");
    push_json(&mut m, text);
    m.append("}");
    m
}

pub(crate) fn transcript_final_text(id: &str, text: &str) -> (m: String)
    ensures
        m@ == transcript_final_json(id@, text@),
{
    let mut m = "{\"type\":\"transcript.final\",\"utterance_id\":".to_owned();
    push_json(&mut m, id);
    m.append(",\"text\":");
    push_json(&mut m, text);
    m.append("}");
    m
}

pub(crate) fn session_closed_text() -> (m: String)
    ensures
        m@ == session_closed_json(),
{
    "{\"type\":\"session.updated\",\"session\":{\"status\":\"closed\"}}".to_owned()
}

} // verus!
