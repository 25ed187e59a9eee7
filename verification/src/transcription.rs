//! Batch transcription: one upload in, one transcript out.

use vstd::prelude::*;
use vstd::string::*;

use crate::audio::{
    audio_is_taken_up_to_ten_minutes, audio_message, audio_verdict, decode_wav, has_wav_tags, is_plain_wav, is_stored_audio,
    is_too_long, judge_samples, plain_frames, plain_spec, samples_seen, wav_verdict, AudioError,
    AudioErrorView, Samples, SamplesView, WavAudio, WavAudioView, WavDecode, WavDecodeView,
    WavSpec,
};
use crate::auth::bearer_token;
use crate::error::{api_error, unauthorized, ApiError, ApiErrorView, StatusCode};
use crate::host::{AppSettings, ServerHost};
use crate::routes::{access_verdict, check_access, Endpoint};
use crate::text::{
    bytes_seen, decimal, decimal_notation_is_digits, digit, digits_value, json_string,
    lemma_decimal_value, lemma_object, lemma_plain_json, member, object, push_decimal, push_digit,
    push_json, same_text, str_seen, string_seen,
};

verus! {

// ---------------------------------------------------------------- upload

/// How a field of the upload form is read.
#[derive(Clone, Copy, Debug, PartialEq, Eq, Structural)]
pub enum FieldKind {
    File,
    Model,
    ResponseFormat,
    /// `language`, `prompt`, `temperature` and whatever else a client sends:
    /// read and dropped, so that the default payload of an OpenAI client does
    /// not fail.
    Ignored,
}

/// How a field of a given name is read.
pub open spec fn kind_of_field(name: Seq<char>) -> FieldKind {
    if name == "file"@ {
        FieldKind::File
    } else if name == "model"@ {
        FieldKind::Model
    } else if name == "response_format"@ {
        FieldKind::ResponseFormat
    } else {
        FieldKind::Ignored
    }
}

/// Three names are known, letter for letter, and no two of them are read the
/// same way; a field of any other name is dropped.
pub proof fn a_field_is_known_by_its_very_name(name: Seq<char>)
    ensures
        kind_of_field(name) == FieldKind::File <==> name == seq!['f', 'i', 'l', 'e'],
        kind_of_field(name) == FieldKind::Model <==> name == seq!['m', 'o', 'd', 'e', 'l'],
        kind_of_field(name) == FieldKind::ResponseFormat <==> name == "response_format"@,
{
    reveal_strlit("file");
    reveal_strlit("model");
    reveal_strlit("response_format");
    assert("file"@ =~= seq!['f', 'i', 'l', 'e']);
    assert("model"@ =~= seq!['m', 'o', 'd', 'e', 'l']);
    assert("file"@.len() == 4 && "model"@.len() == 5 && "response_format"@.len() == 15);
}

/// Decides how a field is read.
pub fn field_kind(name: &str) -> (k: FieldKind)
    ensures
        k == kind_of_field(name@),
{
    if same_text(name, "file") {
        FieldKind::File
    } else if same_text(name, "model") {
        FieldKind::Model
    } else if same_text(name, "response_format") {
        FieldKind::ResponseFormat
    } else {
        FieldKind::Ignored
    }
}

/// What came of reading one more field of the upload form.
#[derive(Debug)]
pub enum FormEvent {
    /// The content of the file, or why it could not be read.
    File(Result<Vec<u8>, String>),
    /// The model's id, unless it could not be read.
    Model(Option<String>),
    /// The name of a response format, unless it could not be read.
    ResponseFormat(Option<String>),
    /// A field that is dropped.
    Ignored,
    /// The form itself could not be read on, and why.
    Broken(String),
}

/// What a client asks for.
#[derive(Debug)]
pub struct TranscriptionRequest {
    file: Option<Vec<u8>>,
    model: Option<String>,
    response_format: Option<String>,
}

/// What a [`TranscriptionRequest`] holds.
pub ghost struct RequestView {
    pub file: Option<Seq<u8>>,
    pub model: Option<Seq<char>>,
    pub response_format: Option<Seq<char>>,
}

impl View for TranscriptionRequest {
    type V = RequestView;

    closed spec fn view(&self) -> RequestView {
        RequestView {
            file: match self.file {
                Some(f) => Some(f@),
                None => None,
            },
            model: string_seen(self.model),
            response_format: string_seen(self.response_format),
        }
    }
}

/// A request that asks for nothing yet.
pub open spec fn empty_request() -> RequestView {
    RequestView { file: None, model: None, response_format: None }
}

/// A request after one more field. The last field of a name wins; an empty
/// model is none.
pub open spec fn with_field(req: RequestView, event: FormEvent) -> Result<
    RequestView,
    ApiErrorView,
> {
    match event {
        FormEvent::File(Ok(bytes)) => Ok(RequestView { file: Some(bytes@), ..req }),
        FormEvent::File(Err(why)) => Err(
            api_error(StatusCode::PayloadTooLarge, "could not read `file`: "@ + why@),
        ),
        FormEvent::Model(text) => Ok(
            RequestView {
                model: match text {
                    Some(id) => if id@.len() == 0 {
                        None
                    } else {
                        Some(id@)
                    },
                    None => None,
                },
                ..req
            },
        ),
        FormEvent::ResponseFormat(text) => Ok(
            RequestView { response_format: string_seen(text), ..req },
        ),
        FormEvent::Ignored => Ok(req),
        FormEvent::Broken(why) => Err(
            api_error(StatusCode::BadRequest, "could not read the multipart body: "@ + why@),
        ),
    }
}

/// The request that a form amounts to after some more fields, up to the first
/// one that fails it.
pub open spec fn with_fields(req: RequestView, events: Seq<FormEvent>) -> Result<
    RequestView,
    ApiErrorView,
>
    decreases events.len(),
{
    if events.len() == 0 {
        Ok(req)
    } else {
        match with_fields(req, events.drop_last()) {
            Ok(req) => with_field(req, events.last()),
            Err(e) => Err(e),
        }
    }
}

/// A request seen through its view.
pub open spec fn request_seen(r: Result<TranscriptionRequest, ApiError>) -> Result<
    RequestView,
    ApiErrorView,
> {
    match r {
        Ok(req) => Ok(req@),
        Err(e) => Err(e@),
    }
}

impl TranscriptionRequest {
    /// The model that is asked for, if any is.
    pub fn model(&self) -> (r: Option<&str>)
        ensures
            str_seen(r) == self@.model,
    {
        match &self.model {
            Some(id) => Some(id.as_str()),
            None => None,
        }
    }

    /// The response format that is asked for, if any is.
    pub fn response_format(&self) -> (r: Option<&str>)
        ensures
            str_seen(r) == self@.response_format,
    {
        match &self.response_format {
            Some(name) => Some(name.as_str()),
            None => None,
        }
    }

    /// The file that was uploaded, if any was.
    pub fn file(&self) -> (r: Option<&[u8]>)
        ensures
            bytes_seen(r) == self@.file,
    {
        match &self.file {
            Some(bytes) => Some(bytes.as_slice()),
            None => None,
        }
    }

    /// Takes one more field into the request, which a field that cannot be
    /// read fails.
    pub fn take(&mut self, event: FormEvent) -> (r: Result<(), ApiError>)
        ensures
            match with_field(old(self)@, event) {
                Ok(req) => r is Ok && final(self)@ == req,
                Err(e) => (r matches Err(refusal) && refusal@ == e) && final(self)@ == old(self)@,
            },
    {
        match event {
            FormEvent::File(Ok(bytes)) => {
                self.file = Some(bytes);
            },
            FormEvent::File(Err(why)) => {
                let mut m = "could not read `file`: ".to_owned();
                m.append(why.as_str());
                return Err(ApiError::new(StatusCode::PayloadTooLarge, m));
            },
            FormEvent::Model(text) => {
                self.model = match text {
                    Some(id) => if id.as_str().is_empty() {
                        None
                    } else {
                        Some(id)
                    },
                    None => None,
                };
            },
            FormEvent::ResponseFormat(text) => {
                self.response_format = text;
            },
            FormEvent::Ignored => {},
            FormEvent::Broken(why) => {
                let mut m = "could not read the multipart body: ".to_owned();
                m.append(why.as_str());
                return Err(ApiError::new(StatusCode::BadRequest, m));
            },
        }
        Ok(())
    }
}

/// What a request to transcribe is told before its body is looked at: a form
/// to fill, or a refusal.
pub open spec fn admission_verdict(
    token: Option<Seq<char>>,
    authorization: Option<Seq<u8>>,
) -> Result<RequestView, ApiErrorView> {
    match access_verdict(Endpoint::Transcriptions, token, authorization, None) {
        Ok(()) => Ok(empty_request()),
        Err(e) => Err(e),
    }
}

/// An upload is opened exactly if no token is configured or the header carries
/// the token: the query does not count. The form that is given out is empty.
pub proof fn an_upload_is_opened_with_the_token_alone(
    token: Option<Seq<char>>,
    authorization: Option<Seq<u8>>,
)
    ensures
        ({
            let verdict = admission_verdict(token, authorization);
            &&& verdict is Ok <==> token is None || bearer_token(authorization) == token
            &&& verdict matches Ok(form) ==> form.file is None && form.model is None
                && form.response_format is None
            &&& verdict matches Err(e) ==> e.status == StatusCode::Unauthorized && e.message
                == "missing or invalid bearer token"@
        }),
{
}

/// Opens an upload: gives an empty form to an authorized request. There is no
/// other way to get one, so that nobody's body is read who may not upload.
pub fn transcriptions(token: Option<&str>, authorization: Option<&[u8]>) -> (r: Result<
    TranscriptionRequest,
    ApiError,
>)
    ensures
        request_seen(r) == admission_verdict(str_seen(token), bytes_seen(authorization)),
{
    match check_access(Endpoint::Transcriptions, token, authorization, None) {
        Ok(()) => Ok(TranscriptionRequest { file: None, model: None, response_format: None }),
        Err(e) => Err(e),
    }
}

/// Reads the fields of an upload form into a request.
pub fn read_multipart(form: TranscriptionRequest, events: Vec<FormEvent>) -> (r: Result<
    TranscriptionRequest,
    ApiError,
>)
    ensures
        request_seen(r) == with_fields(form@, events@),
{
    let ghost start = form@;
    let mut req = form;
    let ghost all = events@;
    assert(all.take(0) =~= seq![]);
    for event in it: events
        invariant
            it.seq() == all,
            start == form@,
            all == events@,
            with_fields(start, all.take(it.index())) == Ok::<_, ApiErrorView>(req@),
    {
        proof {
            let next = all.take(it.index() + 1);
            assert(next.drop_last() =~= all.take(it.index()));
            assert(next.last() == event);
        }
        match req.take(event) {
            Ok(()) => {},
            Err(e) => {
                proof {
                    lemma_fails_for_good(start, all, it.index() + 1);
                }
                return Err(e);
            },
        }
    }
    assert(all.take(all.len() as int) =~= all);
    Ok(req)
}

proof fn lemma_fails_for_good(req: RequestView, events: Seq<FormEvent>, n: int)
    requires
        0 <= n <= events.len(),
        with_fields(req, events.take(n)) is Err,
    ensures
        with_fields(req, events) == with_fields(req, events.take(n)),
    decreases events.len(),
{
    if n < events.len() {
        assert(events.drop_last().take(n) =~= events.take(n));
        lemma_fails_for_good(req, events.drop_last(), n);
    } else {
        assert(events.take(n) =~= events);
    }
}

/// Why a field fails the form that it stands in, if it does.
pub open spec fn field_failure(event: FormEvent) -> Option<ApiErrorView> {
    match event {
        FormEvent::File(Err(why)) => Some(
            api_error(StatusCode::PayloadTooLarge, "could not read `file`: "@ + why@),
        ),
        FormEvent::Broken(why) => Some(
            api_error(StatusCode::BadRequest, "could not read the multipart body: "@ + why@),
        ),
        _ => None,
    }
}

/// Whether no field among some fails the form that it stands in.
pub open spec fn all_readable(events: Seq<FormEvent>) -> bool {
    forall|i: int| 0 <= i < events.len() ==> field_failure(#[trigger] events[i]) is None
}

/// A form fails exactly if one of its parts cannot be read, with the failure
/// of the first such part. That is a bad request or a payload that is too
/// large, and never anything else.
pub proof fn a_form_fails_on_its_first_unreadable_part(req: RequestView, events: Seq<FormEvent>)
    ensures
        with_fields(req, events) is Ok <==> all_readable(events),
        with_fields(req, events) matches Err(e) ==> exists|i: int|
            0 <= i < events.len() && all_readable(events.take(i)) && field_failure(
                #[trigger] events[i],
            ) == Some(e),
        with_fields(req, events) matches Err(e) ==> e.status == StatusCode::BadRequest || e.status
            == StatusCode::PayloadTooLarge,
    decreases events.len(),
{
    if events.len() > 0 {
        let init = events.drop_last();
        let n = events.len() - 1;
        a_form_fails_on_its_first_unreadable_part(req, init);
        assert(all_readable(events) <==> all_readable(init) && field_failure(events[n]) is None) by {
            if all_readable(events) {
                assert forall|i: int| 0 <= i < init.len() implies field_failure(
                    #[trigger] init[i],
                ) is None by {
                    assert(init[i] == events[i]);
                }
            }
            if all_readable(init) && field_failure(events[n]) is None {
                assert forall|i: int| 0 <= i < events.len() implies field_failure(
                    #[trigger] events[i],
                ) is None by {
                    if i < n {
                        assert(init[i] == events[i]);
                    }
                }
            }
        }
        match with_fields(req, init) {
            Err(e) => {
                let i = choose|i: int|
                    0 <= i < init.len() && all_readable(init.take(i)) && field_failure(
                        #[trigger] init[i],
                    ) == Some(e);
                assert(init.take(i) =~= events.take(i));
                assert(events[i] == init[i]);
            },
            Ok(_) => {
                assert(events.take(n) =~= init);
                assert(events[n] == events.last());
            },
        }
    }
}

/// Whether no part of an event's name comes after it.
pub open spec fn is_last_of_name(events: Seq<FormEvent>, i: int) -> bool {
    &&& 0 <= i < events.len()
    &&& forall|j: int|
        i < j < events.len() ==> match events[i] {
            FormEvent::File(_) => !(#[trigger] events[j] is File),
            FormEvent::Model(_) => !(events[j] is Model),
            FormEvent::ResponseFormat(_) => !(events[j] is ResponseFormat),
            _ => true,
        }
}

/// A form without a part of some name leaves what it stands for as it was.
pub proof fn an_absent_part_changes_nothing(req: RequestView, events: Seq<FormEvent>)
    requires
        with_fields(req, events) is Ok,
    ensures
        ({
            let read = with_fields(req, events)->Ok_0;
            &&& (forall|j: int| 0 <= j < events.len() ==> !(#[trigger] events[j] is File))
                ==> read.file == req.file
            &&& (forall|j: int| 0 <= j < events.len() ==> !(#[trigger] events[j] is Model))
                ==> read.model == req.model
            &&& (forall|j: int| 0 <= j < events.len() ==> !(#[trigger] events[j] is ResponseFormat))
                ==> read.response_format == req.response_format
        }),
    decreases events.len(),
{
    if events.len() > 0 {
        let init = events.drop_last();
        an_absent_part_changes_nothing(req, init);
        assert(events.last() == events[events.len() - 1]);
        assert(forall|j: int| 0 <= j < init.len() ==> #[trigger] init[j] == events[j]);
    }
}

proof fn lemma_form_splits(req: RequestView, a: Seq<FormEvent>, b: Seq<FormEvent>)
    ensures
        with_fields(req, a + b) == (match with_fields(req, a) {
            Ok(read) => with_fields(read, b),
            Err(e) => Err(e),
        }),
    decreases b.len(),
{
    if b.len() == 0 {
        assert(a + b =~= a);
    } else {
        assert((a + b).drop_last() =~= a + b.drop_last());
        lemma_form_splits(req, a, b.drop_last());
    }
}

/// The last part of a name wins: what stands in it is what the request holds,
/// whatever came before. An empty model counts as none.
pub proof fn the_last_part_of_a_name_wins(req: RequestView, events: Seq<FormEvent>, i: int)
    requires
        with_fields(req, events) is Ok,
        is_last_of_name(events, i),
    ensures
        ({
            let read = with_fields(req, events)->Ok_0;
            &&& events[i] matches FormEvent::File(Ok(bytes)) ==> read.file == Some(bytes@)
            &&& events[i] matches FormEvent::Model(text) ==> read.model == (match text {
                Some(id) => if id@.len() == 0 {
                    None
                } else {
                    Some(id@)
                },
                None => None,
            })
            &&& events[i] matches FormEvent::ResponseFormat(text) ==> read.response_format
                == string_seen(text)
        }),
{
    let head = events.take(i + 1);
    let tail = events.skip(i + 1);
    assert(head + tail =~= events);
    lemma_form_splits(req, head, tail);
    assert(head.last() == events[i]);
    let read = with_fields(req, head)->Ok_0;
    an_absent_part_changes_nothing(read, tail);
    assert forall|j: int| 0 <= j < tail.len() implies #[trigger] tail[j] == events[j + i + 1] by {}
    assert(events[i] is File ==> forall|j: int| 0 <= j < tail.len() ==> !(#[trigger] tail[j] is File));
    assert(events[i] is Model ==> forall|j: int|
        0 <= j < tail.len() ==> !(#[trigger] tail[j] is Model)) by {
        if events[i] is Model {
            assert forall|j: int| 0 <= j < tail.len() implies !(#[trigger] tail[j] is Model) by {
                assert(!(events[j + i + 1] is Model));
            }
        }
    }
    assert(events[i] is ResponseFormat ==> forall|j: int|
        0 <= j < tail.len() ==> !(#[trigger] tail[j] is ResponseFormat)) by {
        if events[i] is ResponseFormat {
            assert forall|j: int| 0 <= j < tail.len() implies !(
            #[trigger] tail[j] is ResponseFormat) by {
                assert(!(events[j + i + 1] is ResponseFormat));
            }
        }
    }
}

/// A field that is not known is as good as not sent, wherever it stands.
pub proof fn ignored_fields_change_nothing(
    req: RequestView,
    before: Seq<FormEvent>,
    after: Seq<FormEvent>,
)
    ensures
        with_fields(req, before.push(FormEvent::Ignored) + after) == with_fields(
            req,
            before + after,
        ),
    decreases after.len(),
{
    if after.len() == 0 {
        assert(before.push(FormEvent::Ignored) + after =~= before.push(FormEvent::Ignored));
        assert(before.push(FormEvent::Ignored).drop_last() =~= before);
        assert(before + after =~= before);
    } else {
        ignored_fields_change_nothing(req, before, after.drop_last());
        let long = before.push(FormEvent::Ignored) + after;
        let short = before + after;
        assert(long.drop_last() =~= before.push(FormEvent::Ignored) + after.drop_last());
        assert(short.drop_last() =~= before + after.drop_last());
    }
}

/// What a refused recording is told.
pub open spec fn audio_refusal(e: AudioErrorView) -> ApiErrorView {
    api_error(
        StatusCode::UnsupportedMediaType,
        audio_message(e) + ". This server accepts WAV only (any rate, any channel count)."@,
    )
}

/// The refusal of a recording. Compressed uploads are the common case, so it
/// says what is accepted rather than only what failed.
pub fn refuse_audio(e: &AudioError) -> (r: ApiError)
    ensures
        r@ == audio_refusal(e@),
{
    let mut m = e.message();
    m.append(". This server accepts WAV only (any rate, any channel count).");
    ApiError::new(StatusCode::UnsupportedMediaType, m)
}

/// What an upload comes to.
pub open spec fn upload_verdict(req: RequestView) -> Result<WavDecodeView, ApiErrorView> {
    match req.file {
        None => Err(api_error(StatusCode::BadRequest, "no `file` field in the request"@)),
        Some(bytes) => if bytes.len() == 0 {
            Err(api_error(StatusCode::BadRequest, "`file` is empty"@))
        } else {
            match wav_verdict(bytes) {
                Ok(decode) => Ok(decode),
                Err(e) => Err(audio_refusal(e)),
            }
        },
    }
}

/// The audio of an upload, no longer than is accepted. Only the upload of an
/// authorized request gives one.
#[derive(Debug)]
pub struct Upload {
    audio: WavAudio,
}

impl View for Upload {
    type V = WavAudioView;

    closed spec fn view(&self) -> WavAudioView {
        self.audio@
    }
}

impl Upload {
    #[verifier::type_invariant]
    closed spec fn is_short_enough(self) -> bool {
        !is_too_long(self.audio@.frames(), self.audio@.spec.sample_rate as nat)
    }

    /// The audio.
    pub fn audio(&self) -> (r: &WavAudio)
        ensures
            r@ == self@,
            !is_too_long(self@.frames(), self@.spec.sample_rate as nat),
    {
        proof {
            use_type_invariant(self);
        }
        &self.audio
    }
}

/// An upload of floats, whose samples are yet to be read.
#[derive(Debug)]
pub struct FloatUpload {
    spec: WavSpec,
}

impl View for FloatUpload {
    type V = WavSpec;

    closed spec fn view(&self) -> WavSpec {
        self.spec
    }
}

/// What an upload of floats comes to, given the bits of its samples or why
/// they could not be read.
pub open spec fn floats_verdict(spec: WavSpec, read: Result<Seq<u32>, Seq<char>>) -> Result<
    WavAudioView,
    ApiErrorView,
> {
    let samples = match read {
        Ok(bits) => Ok(SamplesView::F32(bits)),
        Err(why) => Err(why),
    };
    match audio_verdict(spec, samples) {
        Ok(audio) => Ok(audio),
        Err(e) => Err(audio_refusal(e)),
    }
}

/// An upload seen through its view.
pub open spec fn audio_upload_seen(r: Result<Upload, ApiError>) -> Result<
    WavAudioView,
    ApiErrorView,
> {
    match r {
        Ok(upload) => Ok(upload@),
        Err(e) => Err(e@),
    }
}

impl FloatUpload {
    /// Takes the bits of the samples, unless they could not be read or last
    /// too long.
    pub fn read(self, bits: Result<Vec<u32>, String>) -> (r: Result<Upload, ApiError>)
        ensures
            audio_upload_seen(r) == floats_verdict(self@, samples_seen(bits)),
    {
        let samples = match bits {
            Ok(bits) => Ok(Samples::F32(bits)),
            Err(why) => Err(why),
        };
        match judge_samples(self.spec, samples) {
            Ok(audio) => Ok(Upload { audio }),
            Err(e) => Err(refuse_audio(&e)),
        }
    }
}

/// What an upload holds.
#[derive(Debug)]
pub enum UploadDecode {
    /// Integer audio, decoded.
    Audio(Upload),
    /// A file of floats, for [`FloatUpload::read`] to take.
    Float(FloatUpload),
}

/// A decoded upload seen through its view.
pub open spec fn upload_seen(r: Result<UploadDecode, ApiError>) -> Result<
    WavDecodeView,
    ApiErrorView,
> {
    match r {
        Ok(UploadDecode::Audio(upload)) => Ok(WavDecodeView::Audio(upload@)),
        Ok(UploadDecode::Float(floats)) => Ok(WavDecodeView::Float(floats@)),
        Err(e) => Err(e@),
    }
}

/// Takes the audio out of an upload. Anything that is not empty and does not
/// carry the tags of a WAV file, compressed audio for one, is an unsupported
/// media type; a plain WAV file is taken as it is stored, or refused as one
/// too if it lasts too long.
pub fn decode_upload(req: &TranscriptionRequest) -> (r: Result<UploadDecode, ApiError>)
    ensures
        upload_seen(r) == upload_verdict(req@),
        (req@.file matches Some(bytes) && bytes.len() > 0 && !has_wav_tags(bytes)) ==> (
        r matches Err(e) && e.status == StatusCode::UnsupportedMediaType),
        (req@.file matches Some(bytes) && is_plain_wav(bytes) && !is_too_long(
            plain_frames(bytes),
            plain_spec(bytes).sample_rate as nat,
        )) ==> (upload_seen(r) matches Ok(decode) && is_stored_audio(req@.file->Some_0, decode)),
        (req@.file matches Some(bytes) && is_plain_wav(bytes) && is_too_long(
            plain_frames(bytes),
            plain_spec(bytes).sample_rate as nat,
        )) ==> (r matches Err(e) && e.status == StatusCode::UnsupportedMediaType && e@
            == audio_refusal(
            AudioErrorView::TooLong(
                plain_frames(req@.file->Some_0) as u64,
                plain_spec(req@.file->Some_0).sample_rate,
            ),
        )),
{
    let bytes = match req.file() {
        Some(bytes) => bytes,
        None => return Err(ApiError::bad_request("no `file` field in the request")),
    };
    if bytes.len() == 0 {
        return Err(ApiError::bad_request("`file` is empty"));
    }
    match decode_wav(bytes) {
        Ok(WavDecode::Audio(audio)) => Ok(UploadDecode::Audio(Upload { audio })),
        Ok(WavDecode::Float(spec)) => Ok(UploadDecode::Float(FloatUpload { spec })),
        Err(e) => Err(refuse_audio(&e)),
    }
}

/// A file that holds anything but WAV audio of a supported kind and length is
/// refused as an unsupported media type; only a missing or an empty file is a
/// bad request.
pub proof fn undecodable_audio_is_unsupported(req: RequestView)
    ensures
        match upload_verdict(req) {
            Ok(decode) => req.file matches Some(bytes) && wav_verdict(bytes) == Ok::<
                _,
                AudioErrorView,
            >(decode),
            Err(e) => if req.file matches Some(bytes) && bytes.len() > 0 {
                e.status == StatusCode::UnsupportedMediaType
            } else {
                e.status == StatusCode::BadRequest
            },
        },
{
}

/// An upload is decoded exactly if it holds a file that is not empty and that
/// can be decoded, and comes to just what that file is decoded to, however
/// large it is. A missing and an empty file are told apart; any other refusal
/// gives the reason that decoding has, and what is accepted.
pub proof fn an_upload_comes_to_what_its_file_is_decoded_to(req: RequestView)
    ensures
        match req.file {
            None => upload_verdict(req) == Err::<WavDecodeView, ApiErrorView>(
                ApiErrorView {
                    status: StatusCode::BadRequest,
                    message: "no `file` field in the request"@,
                },
            ),
            Some(bytes) => {
                &&& bytes.len() == 0 ==> upload_verdict(req) == Err::<WavDecodeView, ApiErrorView>(
                    ApiErrorView { status: StatusCode::BadRequest, message: "`file` is empty"@ },
                )
                &&& bytes.len() > 0 ==> match wav_verdict(bytes) {
                    Ok(decode) => upload_verdict(req) == Ok::<WavDecodeView, ApiErrorView>(decode),
                    Err(e) => upload_verdict(req) matches Err(refusal) && refusal.status
                        == StatusCode::UnsupportedMediaType && audio_message(e).is_prefix_of(
                        refusal.message,
                    ) && refusal.message.skip(audio_message(e).len() as int)
                        == ". This server accepts WAV only (any rate, any channel count)."@,
                }
            },
        },
{
    if let Some(bytes) = req.file {
        if let Err(e) = wav_verdict(bytes) {
            let said = audio_message(e);
            let all = audio_refusal(e).message;
            assert(said =~= all.subrange(0, said.len() as int));
            assert(all.skip(said.len() as int)
                =~= ". This server accepts WAV only (any rate, any channel count)."@);
        }
    }
}

/// Floats are taken as integers are: all of them, with what was declared of
/// them, up to 600 seconds on every channel, where a rate of zero counts as
/// one. What is refused is an unsupported media type.
pub proof fn floats_are_taken_up_to_ten_minutes(
    spec: WavSpec,
    bits: Seq<u32>,
    why: Seq<char>,
)
    requires
        spec.channels > 0,
    ensures
        ({
            let rate = if spec.sample_rate == 0 {
                1
            } else {
                spec.sample_rate as int
            };
            let verdict = floats_verdict(spec, Ok(bits));
            if bits.len() <= 600 * rate * spec.channels {
                verdict == Ok::<WavAudioView, ApiErrorView>(
                    WavAudioView { spec, samples: SamplesView::F32(bits) },
                )
            } else {
                verdict is Err && verdict->Err_0.status == StatusCode::UnsupportedMediaType
            }
        }),
        floats_verdict(spec, Err(why)) matches Err(e) && e.status
            == StatusCode::UnsupportedMediaType && e.message == why
            + ". This server accepts WAV only (any rate, any channel count)."@,
{
    audio_is_taken_up_to_ten_minutes(spec, SamplesView::F32(bits), why);
}

/// An upload that may be transcribed. There is no transcription without one.
#[derive(Debug)]
pub struct AcceptedUpload {
    samples: usize,
    source_rate: u32,
}

/// What an [`AcceptedUpload`] holds.
pub ghost struct AcceptedView {
    /// The number of samples to transcribe, at 16 kHz.
    pub samples: nat,
    /// The sample rate of the upload.
    pub source_rate: nat,
}

impl View for AcceptedUpload {
    type V = AcceptedView;

    closed spec fn view(&self) -> AcceptedView {
        AcceptedView { samples: self.samples as nat, source_rate: self.source_rate as nat }
    }
}

impl AcceptedUpload {
    #[verifier::type_invariant]
    closed spec fn holds_samples(self) -> bool {
        self.samples > 0
    }

    /// The number of samples to transcribe, at 16 kHz. There is at least one.
    pub fn samples(&self) -> (n: usize)
        ensures
            n == self@.samples,
            n > 0,
    {
        proof {
            use_type_invariant(self);
        }
        self.samples
    }

    /// The sample rate of the upload.
    pub fn source_rate(&self) -> (hz: u32)
        ensures
            hz == self@.source_rate,
    {
        self.source_rate
    }
}

/// What becomes of audio that comes to a number of samples at 16 kHz.
pub open spec fn samples_verdict(audio: WavAudioView, samples: nat) -> Result<
    AcceptedView,
    ApiErrorView,
> {
    if samples == 0 {
        Err(api_error(StatusCode::BadRequest, "decoded audio contains no samples"@))
    } else {
        Ok(AcceptedView { samples, source_rate: audio.spec.sample_rate as nat })
    }
}

/// An accepted upload seen through its view.
pub open spec fn accepted_seen(r: Result<AcceptedUpload, ApiError>) -> Result<
    AcceptedView,
    ApiErrorView,
> {
    match r {
        Ok(accepted) => Ok(accepted@),
        Err(e) => Err(e@),
    }
}

/// Accepts an upload that comes to some samples at 16 kHz, and refuses one
/// that comes to none. Such a file is well formed: nothing is wrong with its
/// container.
pub fn check_samples(upload: &Upload, samples: usize) -> (r: Result<AcceptedUpload, ApiError>)
    ensures
        accepted_seen(r) == samples_verdict(upload@, samples as nat),
{
    if samples == 0 {
        Err(ApiError::bad_request("decoded audio contains no samples"))
    } else {
        Ok(AcceptedUpload { samples, source_rate: upload.audio.spec.sample_rate })
    }
}

/// The audio of a form, given the bits of its samples or why they could not be
/// read, if it holds floats.
pub open spec fn form_audio(
    token: Option<Seq<char>>,
    authorization: Option<Seq<u8>>,
    events: Seq<FormEvent>,
    floats: Result<Seq<u32>, Seq<char>>,
) -> Result<WavAudioView, ApiErrorView> {
    match admission_verdict(token, authorization) {
        Err(e) => Err(e),
        Ok(form) => match with_fields(form, events) {
            Err(e) => Err(e),
            Ok(req) => match upload_verdict(req) {
                Err(e) => Err(e),
                Ok(WavDecodeView::Audio(audio)) => Ok(audio),
                Ok(WavDecodeView::Float(spec)) => floats_verdict(spec, floats),
            },
        },
    }
}

/// What an upload comes to, from its token to the acceptance without which
/// nothing is transcribed.
pub open spec fn acceptance(
    token: Option<Seq<char>>,
    authorization: Option<Seq<u8>>,
    events: Seq<FormEvent>,
    floats: Result<Seq<u32>, Seq<char>>,
    samples: nat,
) -> Result<AcceptedView, ApiErrorView> {
    match form_audio(token, authorization, events, floats) {
        Err(e) => Err(e),
        Ok(audio) => samples_verdict(audio, samples),
    }
}

/// An upload is accepted whenever nothing is wrong with it: an authorized
/// request, a form that can be read, a file that can be decoded, and at least
/// one sample. It is accepted with all its samples and at its own rate.
pub proof fn a_good_upload_is_accepted(
    token: Option<Seq<char>>,
    authorization: Option<Seq<u8>>,
    events: Seq<FormEvent>,
    floats: Result<Seq<u32>, Seq<char>>,
    samples: nat,
    bytes: Seq<u8>,
    audio: WavAudioView,
)
    requires
        admission_verdict(token, authorization) is Ok,
        with_fields(empty_request(), events) matches Ok(req) && req.file == Some(bytes),
        bytes.len() > 0,
        wav_verdict(bytes) == Ok::<WavDecodeView, AudioErrorView>(WavDecodeView::Audio(audio)) || (
        wav_verdict(bytes) matches Ok(WavDecodeView::Float(spec)) && floats_verdict(spec, floats)
            == Ok::<WavAudioView, ApiErrorView>(audio)),
        samples > 0,
    ensures
        acceptance(token, authorization, events, floats, samples) matches Ok(accepted)
            && accepted.samples == samples && accepted.source_rate == audio.spec.sample_rate,
{
}

/// A refused upload never reaches the engine: an upload is accepted only if
/// its request is authorized, its form can be read, its file is there and not
/// empty, its audio is of a supported kind and no longer than the limit, and
/// there are samples to transcribe. A request that is not authorized is told
/// that and nothing else; any other refusal is one of 400, 413 and 415.
pub proof fn a_refused_upload_is_not_transcribed(
    token: Option<Seq<char>>,
    authorization: Option<Seq<u8>>,
    events: Seq<FormEvent>,
    floats: Result<Seq<u32>, Seq<char>>,
    samples: nat,
)
    ensures
        match acceptance(token, authorization, events, floats, samples) {
            Ok(accepted) => {
                &&& admission_verdict(token, authorization) is Ok
                &&& with_fields(empty_request(), events) matches Ok(req) && req.file matches Some(
                    bytes,
                ) && bytes.len() > 0 && wav_verdict(bytes) is Ok
                &&& form_audio(token, authorization, events, floats) matches Ok(audio)
                    && !is_too_long(audio.frames(), audio.spec.sample_rate as nat)
                    && accepted.source_rate == audio.spec.sample_rate
                &&& accepted.samples == samples > 0
            },
            Err(e) => if admission_verdict(token, authorization) is Err {
                e == unauthorized()
            } else {
                e.status == StatusCode::BadRequest || e.status == StatusCode::PayloadTooLarge
                    || e.status == StatusCode::UnsupportedMediaType
            },
        },
{
    a_form_fails_on_its_first_unreadable_part(empty_request(), events);
}

// ------------------------------------------------------------------- job

/// How a transcription ended.
#[derive(Debug)]
pub enum TaskOutcome {
    /// The transcript.
    Text(String),
    /// The engine failed; its own words.
    Failed(String),
    /// The task was lost before it could end; the runtime's own words.
    Lost(String),
}

/// What the program around the library is to do for a transcription.
#[derive(Debug)]
pub enum JobAction {
    /// Load a model, and report to [`TranscriptionJob::loaded`].
    LoadModel(String),
    /// Have the selected model loaded if none is.
    InitiateModelLoad,
    ShowTranscribingOverlay,
    /// Transcribe the audio, off the threads that serve requests, and report
    /// to [`TranscriptionJob::finished`].
    Transcribe,
    HideRecordingOverlay,
    /// The end of the job: a transcript, or a refusal.
    Answer(Result<String, ApiError>),
}

/// What a [`JobAction`] says.
pub ghost enum JobActionView {
    LoadModel(Seq<char>),
    InitiateModelLoad,
    ShowTranscribingOverlay,
    Transcribe,
    HideRecordingOverlay,
    Answer(Result<Seq<char>, ApiErrorView>),
}

impl View for JobAction {
    type V = JobActionView;

    open spec fn view(&self) -> JobActionView {
        match self {
            JobAction::LoadModel(id) => JobActionView::LoadModel(id@),
            JobAction::InitiateModelLoad => JobActionView::InitiateModelLoad,
            JobAction::ShowTranscribingOverlay => JobActionView::ShowTranscribingOverlay,
            JobAction::Transcribe => JobActionView::Transcribe,
            JobAction::HideRecordingOverlay => JobActionView::HideRecordingOverlay,
            JobAction::Answer(Ok(text)) => JobActionView::Answer(Ok(text@)),
            JobAction::Answer(Err(e)) => JobActionView::Answer(Err(e@)),
        }
    }
}

/// Actions seen through their views.
pub open spec fn job_actions(actions: Seq<JobAction>) -> Seq<JobActionView> {
    actions.map_values(|a: JobAction| a@)
}

enum JobPhase {
    Loading(String),
    Transcribing,
    Done,
}

/// One transcription, from the decoded upload to the answer.
pub struct TranscriptionJob {
    phase: JobPhase,
    show_overlay: bool,
}

/// How far a job is.
pub ghost enum JobPhaseView {
    /// Waiting for the model of an id.
    Loading(Seq<char>),
    Transcribing,
    Done,
}

/// What a [`TranscriptionJob`] holds.
pub ghost struct JobView {
    pub phase: JobPhaseView,
    pub show_overlay: bool,
}

impl View for TranscriptionJob {
    type V = JobView;

    closed spec fn view(&self) -> JobView {
        JobView {
            phase: match self.phase {
                JobPhase::Loading(id) => JobPhaseView::Loading(id@),
                JobPhase::Transcribing => JobPhaseView::Transcribing,
                JobPhase::Done => JobPhaseView::Done,
            },
            show_overlay: self.show_overlay,
        }
    }
}

/// A job that goes on to transcribe.
pub open spec fn transcribing(show_overlay: bool) -> (JobView, Seq<JobActionView>) {
    (
        JobView { phase: JobPhaseView::Transcribing, show_overlay },
        if show_overlay {
            seq![
                JobActionView::InitiateModelLoad,
                JobActionView::ShowTranscribingOverlay,
                JobActionView::Transcribe,
            ]
        } else {
            seq![JobActionView::InitiateModelLoad, JobActionView::Transcribe]
        },
    )
}

/// A new job. Naming a model other than the selected one loads it first.
pub open spec fn begun(
    requested: Option<Seq<char>>,
    selected: Seq<char>,
    show_overlay: bool,
) -> (JobView, Seq<JobActionView>) {
    match requested {
        Some(id) if id != selected => (
            JobView { phase: JobPhaseView::Loading(id), show_overlay },
            seq![JobActionView::LoadModel(id)],
        ),
        _ => transcribing(show_overlay),
    }
}

/// What is answered where the requested model does not load.
pub open spec fn load_refusal(id: Seq<char>, why: Seq<char>) -> ApiErrorView {
    api_error(StatusCode::BadRequest, "could not load model `"@ + id + "`: "@ + why)
}

/// A job after its model has loaded, or has not. Nothing comes of it unless
/// the job waits for that.
pub open spec fn after_load(job: JobView, result: Result<(), Seq<char>>) -> (
    JobView,
    Seq<JobActionView>,
) {
    match job.phase {
        JobPhaseView::Loading(id) => match result {
            Ok(()) => transcribing(job.show_overlay),
            Err(why) => (
                JobView { phase: JobPhaseView::Done, ..job },
                seq![JobActionView::Answer(Err(load_refusal(id, why)))],
            ),
        },
        _ => (job, seq![]),
    }
}

/// What is answered to the end of a transcription.
pub open spec fn task_answer(outcome: TaskOutcome) -> Result<Seq<char>, ApiErrorView> {
    match outcome {
        TaskOutcome::Text(text) => Ok(text@),
        TaskOutcome::Failed(why) => Err(
            api_error(StatusCode::InternalServerError, "transcription failed: "@ + why@),
        ),
        TaskOutcome::Lost(why) => Err(
            api_error(
                StatusCode::InternalServerError,
                "transcription task did not finish: "@ + why@,
            ),
        ),
    }
}

/// A job after its transcription has ended. Nothing comes of it unless the job
/// waits for that.
pub open spec fn after_task(job: JobView, outcome: TaskOutcome) -> (JobView, Seq<JobActionView>) {
    match job.phase {
        JobPhaseView::Transcribing => (
            JobView { phase: JobPhaseView::Done, ..job },
            if job.show_overlay {
                seq![
                    JobActionView::HideRecordingOverlay,
                    JobActionView::Answer(task_answer(outcome)),
                ]
            } else {
                seq![JobActionView::Answer(task_answer(outcome))]
            },
        ),
        _ => (job, seq![]),
    }
}

fn transcribe_actions(show_overlay: bool) -> (actions: Vec<JobAction>)
    ensures
        job_actions(actions@) == transcribing(show_overlay).1,
{
    let actions = if show_overlay {
        vec![
            JobAction::InitiateModelLoad,
            JobAction::ShowTranscribingOverlay,
            JobAction::Transcribe,
        ]
    } else {
        vec![JobAction::InitiateModelLoad, JobAction::Transcribe]
    };
    assert(job_actions(actions@) =~= transcribing(show_overlay).1);
    actions
}

impl TranscriptionJob {
    /// Begins a job for an accepted upload that may name a model, where another
    /// may be selected. There is one engine: loading a model for a request changes
    /// what everything else uses too.
    pub fn begin(
        accepted: &AcceptedUpload,
        requested: Option<&str>,
        selected: &str,
        show_overlay: bool,
    ) -> (r: (Self, Vec<JobAction>))
        ensures
            (r.0@, job_actions(r.1@)) == begun(str_seen(requested), selected@, show_overlay),
    {
        if let Some(id) = requested {
            if !same_text(id, selected) {
                let job = TranscriptionJob { phase: JobPhase::Loading(id.to_owned()), show_overlay };
                let actions = vec![JobAction::LoadModel(id.to_owned())];
                assert(job_actions(actions@) =~= seq![JobActionView::LoadModel(id@)]);
                return (job, actions);
            }
        }
        (
            TranscriptionJob { phase: JobPhase::Transcribing, show_overlay },
            transcribe_actions(show_overlay),
        )
    }

    /// Goes on after the requested model has loaded, or has not.
    pub fn loaded(&mut self, result: Result<(), String>) -> (actions: Vec<JobAction>)
        ensures
            (final(self)@, job_actions(actions@)) == after_load(
                old(self)@,
                match result {
                    Ok(()) => Ok(()),
                    Err(why) => Err(why@),
                },
            ),
    {
        let id = match &self.phase {
            JobPhase::Loading(id) => id.clone(),
            _ => {
                let none: Vec<JobAction> = Vec::new();
                assert(job_actions(none@) =~= seq![]);
                return none;
            },
        };
        match result {
            Ok(()) => {
                self.phase = JobPhase::Transcribing;
                transcribe_actions(self.show_overlay)
            },
            Err(why) => {
                self.phase = JobPhase::Done;
                let mut m = "could not load model `".to_owned();
                m.append(id.as_str());
                m.append("`: ");
                m.append(why.as_str());
                let actions = vec![
                    JobAction::Answer(Err(ApiError::new(StatusCode::BadRequest, m))),
                ];
                assert(job_actions(actions@) =~= seq![
                    JobActionView::Answer(Err(load_refusal(id@, why@))),
                ]);
                actions
            },
        }
    }

    /// Ends the job once its transcription has ended.
    pub fn finished(&mut self, outcome: TaskOutcome) -> (actions: Vec<JobAction>)
        ensures
            (final(self)@, job_actions(actions@)) == after_task(old(self)@, outcome),
    {
        match &self.phase {
            JobPhase::Transcribing => {},
            _ => {
                let none: Vec<JobAction> = Vec::new();
                assert(job_actions(none@) =~= seq![]);
                return none;
            },
        }
        self.phase = JobPhase::Done;
        let answer = match outcome {
            TaskOutcome::Text(text) => Ok(text),
            TaskOutcome::Failed(why) => {
                let mut m = "transcription failed: ".to_owned();
                m.append(why.as_str());
                Err(ApiError::new(StatusCode::InternalServerError, m))
            },
            TaskOutcome::Lost(why) => {
                let mut m = "transcription task did not finish: ".to_owned();
                m.append(why.as_str());
                Err(ApiError::new(StatusCode::InternalServerError, m))
            },
        };
        let actions = if self.show_overlay {
            vec![JobAction::HideRecordingOverlay, JobAction::Answer(answer)]
        } else {
            vec![JobAction::Answer(answer)]
        };
        assert(job_actions(actions@) =~= after_task(old(self)@, outcome).1);
        actions
    }
}

/// Begins a job for an accepted upload that may name a model, where the
/// settings as they are now select one.
pub fn run_transcription<H: ServerHost>(
    host: &H,
    accepted: &AcceptedUpload,
    requested: Option<&str>,
    show_overlay: bool,
) -> (r: (TranscriptionJob, Vec<JobAction>))
    ensures
        exists|settings: AppSettings| #[trigger]
            call_ensures(H::settings, (host,), settings) && (r.0@, job_actions(r.1@)) == begun(
                str_seen(requested),
                settings.selected_model@,
                show_overlay,
            ),
{
    let settings = host.settings();
    assert(call_ensures(H::settings, (host,), settings));
    TranscriptionJob::begin(accepted, requested, settings.selected_model.as_str(), show_overlay)
}

/// A job begins by loading the requested model whenever the request names one
/// that is not, letter for letter, the selected one; it then does nothing else
/// until that has loaded. If none is named, or the selected one is, it goes
/// straight to transcribing.
pub proof fn a_model_is_loaded_exactly_if_another_is_named(
    requested: Option<Seq<char>>,
    selected: Seq<char>,
    show_overlay: bool,
)
    ensures
        ({
            let (job, actions) = begun(requested, selected, show_overlay);
            &&& job.show_overlay == show_overlay
            &&& match requested {
                Some(id) => {
                    &&& id != selected ==> actions == seq![JobActionView::LoadModel(id)]
                        && job.phase == JobPhaseView::Loading(id)
                    &&& id == selected ==> begun(requested, selected, show_overlay) == begun(
                        None,
                        selected,
                        show_overlay,
                    )
                },
                None => {
                    &&& job.phase == JobPhaseView::Transcribing
                    &&& actions.first() == JobActionView::InitiateModelLoad
                    &&& actions.last() == JobActionView::Transcribe
                    &&& actions.len() == (if show_overlay {
                        3int
                    } else {
                        2int
                    })
                    &&& show_overlay ==> actions[1] == JobActionView::ShowTranscribingOverlay
                },
            }
        }),
{
}

/// Once the requested model has loaded, a job goes on just as one that had
/// nothing to load; if the model does not load, the job is over, and the answer
/// names the model and says why.
pub proof fn a_job_goes_on_once_its_model_has_loaded(
    id: Seq<char>,
    selected: Seq<char>,
    show_overlay: bool,
    why: Seq<char>,
)
    ensures
        ({
            let waiting = JobView { phase: JobPhaseView::Loading(id), show_overlay };
            let (over, actions) = after_load(waiting, Err(why));
            &&& after_load(waiting, Ok(())) == begun(None, selected, show_overlay)
            &&& over.phase == JobPhaseView::Done
            &&& actions.len() == 1
            &&& actions[0] matches JobActionView::Answer(Err(e)) && e.status
                == StatusCode::BadRequest && e.message == "could not load model `"@ + id + "`: "@
                + why
        }),
{
}

/// The answer to a job is what the engine made of the audio: its transcript as
/// it is, or an internal error that ends in the words of what failed. It comes
/// right after the overlay is hidden, if there is one.
pub proof fn a_job_answers_with_what_the_engine_made(show_overlay: bool, outcome: TaskOutcome)
    ensures
        ({
            let job = JobView { phase: JobPhaseView::Transcribing, show_overlay };
            let (over, actions) = after_task(job, outcome);
            &&& over.phase == JobPhaseView::Done
            &&& actions.len() == (if show_overlay {
                2int
            } else {
                1int
            })
            &&& show_overlay ==> actions[0] == JobActionView::HideRecordingOverlay
            &&& match outcome {
                TaskOutcome::Text(text) => actions.last() == JobActionView::Answer(Ok(text@)),
                TaskOutcome::Failed(why) => actions.last() matches JobActionView::Answer(Err(e))
                    && e.status == StatusCode::InternalServerError && e.message
                    == "transcription failed: "@ + why@,
                TaskOutcome::Lost(why) => actions.last() matches JobActionView::Answer(Err(e))
                    && e.status == StatusCode::InternalServerError && e.message
                    == "transcription task did not finish: "@ + why@,
            }
        }),
{
}

/// Whether the overlay is up after some actions, if it was up or not before;
/// none if an action shows what is shown or hides what is hidden.
pub open spec fn overlay_after(shown: bool, actions: Seq<JobActionView>) -> Option<bool>
    decreases actions.len(),
{
    if actions.len() == 0 {
        Some(shown)
    } else {
        match (overlay_after(shown, actions.drop_last()), actions.last()) {
            (Some(false), JobActionView::ShowTranscribingOverlay) => Some(true),
            (Some(true), JobActionView::HideRecordingOverlay) => Some(false),
            (_, JobActionView::ShowTranscribingOverlay) => None,
            (_, JobActionView::HideRecordingOverlay) => None,
            (before, _) => before,
        }
    }
}

/// Whether the overlay is up while a job is where it is.
pub open spec fn overlay_held(job: JobView) -> bool {
    job.show_overlay && job.phase == JobPhaseView::Transcribing
}

/// Whether some actions answer the request.
pub open spec fn answers(actions: Seq<JobActionView>) -> bool {
    exists|i: int| 0 <= i < actions.len() && #[trigger] actions[i] is Answer
}

/// Whatever happens to a job, the overlay that it shows it hides again, and it
/// never touches one where there is none to show.
pub proof fn the_overlay_is_paired(
    requested: Option<Seq<char>>,
    selected: Seq<char>,
    show_overlay: bool,
    job: JobView,
    result: Result<(), Seq<char>>,
    outcome: TaskOutcome,
)
    ensures
        ({
            let (next, actions) = begun(requested, selected, show_overlay);
            overlay_after(false, actions) == Some(overlay_held(next))
        }),
        ({
            let (next, actions) = after_load(job, result);
            overlay_after(overlay_held(job), actions) == Some(overlay_held(next))
        }),
        ({
            let (next, actions) = after_task(job, outcome);
            overlay_after(overlay_held(job), actions) == Some(overlay_held(next))
        }),
{
    reveal_with_fuel(overlay_after, 4);
    let shown = seq![
        JobActionView::InitiateModelLoad,
        JobActionView::ShowTranscribingOverlay,
        JobActionView::Transcribe,
    ];
    assert(shown.drop_last() =~= seq![
        JobActionView::InitiateModelLoad,
        JobActionView::ShowTranscribingOverlay,
    ]);
    assert(shown.drop_last().drop_last() =~= seq![JobActionView::InitiateModelLoad]);
    let (next, actions) = after_task(job, outcome);
    if actions.len() == 2 {
        assert(actions.drop_last() =~= seq![JobActionView::HideRecordingOverlay]);
    }
}

/// A job answers exactly once: when it comes to its end, and never after.
pub proof fn a_job_answers_once(
    requested: Option<Seq<char>>,
    selected: Seq<char>,
    show_overlay: bool,
    job: JobView,
    result: Result<(), Seq<char>>,
    outcome: TaskOutcome,
)
    ensures
        ({
            let (next, actions) = begun(requested, selected, show_overlay);
            next.phase != JobPhaseView::Done && !answers(actions)
        }),
        ({
            let (next, actions) = after_load(job, result);
            answers(actions) <==> job.phase != JobPhaseView::Done && next.phase
                == JobPhaseView::Done
        }),
        ({
            let (next, actions) = after_task(job, outcome);
            answers(actions) <==> job.phase != JobPhaseView::Done && next.phase
                == JobPhaseView::Done
        }),
        job.phase == JobPhaseView::Done ==> after_load(job, result) == (
            job,
            Seq::<JobActionView>::empty(),
        ) && after_task(job, outcome) == (job, Seq::<JobActionView>::empty()),
{
    let (loaded, load_actions) = after_load(job, result);
    if load_actions.len() == 1 {
        assert(load_actions[0] is Answer);
    }
    let (ended, end_actions) = after_task(job, outcome);
    if end_actions.len() > 0 {
        assert(end_actions[end_actions.len() - 1] is Answer);
    }
}

// ----------------------------------------------------------------- reply

/// The body of a successful answer.
#[derive(Debug)]
pub enum Reply {
    /// Plain text.
    Text(String),
    /// JSON.
    Json(String),
}

/// What a [`Reply`] says.
pub ghost enum ReplyView {
    Text(Seq<char>),
    Json(Seq<char>),
}

impl View for Reply {
    type V = ReplyView;

    open spec fn view(&self) -> ReplyView {
        match self {
            Reply::Text(s) => ReplyView::Text(s@),
            Reply::Json(s) => ReplyView::Json(s@),
        }
    }
}

/// A number below ten to the `width`, in `width` decimal digits.
pub open spec fn padded(n: nat, width: nat) -> Seq<char>
    decreases width,
{
    if width == 0 {
        seq![]
    } else {
        padded(n / 10, (width - 1) as nat).push(digit(n % 10))
    }
}

/// The decimals of `n` divided by ten to the `width`, without trailing zeros
/// but at least one.
pub open spec fn decimals(n: nat, width: nat) -> Seq<char>
    decreases width,
{
    if width > 1 && n % 10 == 0 {
        decimals(n / 10, (width - 1) as nat)
    } else {
        padded(n, width)
    }
}

/// The duration of samples at 16 kHz, in seconds: exactly, in decimal
/// notation. One sample takes 625 ten-millionths of a second.
pub open spec fn duration_text(samples: nat) -> Seq<char> {
    decimal(samples / 16_000) + "."@ + decimals((samples % 16_000) * 625, 7)
}

/// Ten to the `n`.
pub open spec fn power_of_ten(n: nat) -> nat
    decreases n,
{
    if n == 0 {
        1
    } else {
        10 * power_of_ten((n - 1) as nat)
    }
}

proof fn lemma_padded_value(n: nat, width: nat)
    requires
        n < power_of_ten(width),
    ensures
        padded(n, width).len() == width,
        digits_value(padded(n, width)) == n,
    decreases width,
{
    if width > 0 {
        lemma_padded_value(n / 10, (width - 1) as nat);
        let head = padded(n / 10, (width - 1) as nat);
        assert(padded(n, width).drop_last() =~= head);
    }
}

proof fn lemma_decimals_value(n: nat, width: nat)
    requires
        width > 0,
        n < power_of_ten(width),
    ensures
        0 < decimals(n, width).len() <= width,
        digits_value(decimals(n, width)) * power_of_ten(
            (width - decimals(n, width).len()) as nat,
        ) == n,
    decreases width,
{
    if width > 1 && n % 10 == 0 {
        let w = (width - 1) as nat;
        lemma_decimals_value(n / 10, w);
        let d = decimals(n / 10, w);
        let rest = power_of_ten((w - d.len()) as nat);
        assert(power_of_ten((width - d.len()) as nat) == 10 * rest);
        let v = digits_value(d);
        assert(v * (10 * rest) == 10 * (v * rest)) by (nonlinear_arith);
    } else {
        lemma_padded_value(n, width);
        assert(digits_value(padded(n, width)) * 1 == n) by (nonlinear_arith)
            requires
                digits_value(padded(n, width)) == n,
        ;
    }
}

proof fn lemma_split_power(a: nat, b: nat)
    ensures
        power_of_ten(a) * power_of_ten(b) == power_of_ten(a + b),
        power_of_ten(a) > 0,
    decreases a,
{
    let pb = power_of_ten(b);
    if a == 0 {
        assert(1 * pb == pb) by (nonlinear_arith);
    } else {
        lemma_split_power((a - 1) as nat, b);
        let pa = power_of_ten((a - 1) as nat);
        assert((10 * pa) * pb == 10 * (pa * pb)) by (nonlinear_arith);
    }
}

/// The duration that is reported is exact: read as whole seconds and decimals,
/// it is the number of samples divided by 16000.
pub proof fn a_duration_is_exact(samples: nat)
    ensures
        ({
            let whole = decimal(samples / 16_000);
            let part = decimals((samples % 16_000) * 625, 7);
            &&& duration_text(samples) == whole + "."@ + part
            &&& part.len() > 0
            &&& (digits_value(whole) * power_of_ten(part.len()) + digits_value(part)) * 16_000
                == samples * power_of_ten(part.len())
        }),
{
    let q = samples / 16_000;
    let r = samples % 16_000;
    lemma_decimal_value(q);
    reveal_with_fuel(power_of_ten, 8);
    assert(power_of_ten(7) == 10_000_000);
    let part = decimals(r * 625, 7);
    lemma_decimals_value(r * 625, 7);
    let k = part.len();
    let v = digits_value(part);
    let p = power_of_ten(k);
    let rest = power_of_ten((7 - k) as nat);
    lemma_split_power(k, (7 - k) as nat);
    lemma_split_power((7 - k) as nat, 0);
    assert(v * 16_000 == r * p) by (nonlinear_arith)
        requires
            v * rest == r * 625,
            p * rest == 10_000_000,
            rest > 0,
    ;
    assert((q * p + v) * 16_000 == samples * p) by (nonlinear_arith)
        requires
            v * 16_000 == r * p,
            samples == q * 16_000 + r,
    ;
}

proof fn lemma_padded_digits(n: nat, width: nat)
    ensures
        forall|i: int| 0 <= i < padded(n, width).len() ==> '0' <= #[trigger] padded(
            n,
            width,
        )[i] <= '9',
    decreases width,
{
    if width > 0 {
        lemma_padded_digits(n / 10, (width - 1) as nat);
        let head = padded(n / 10, (width - 1) as nat);
        let all = padded(n, width);
        assert(all == head.push(digit(n % 10)));
        assert forall|i: int| 0 <= i < all.len() implies '0' <= #[trigger] all[i] <= '9' by {
            if i < head.len() {
                assert(all[i] == head[i]);
            } else {
                assert(all[i] == digit(n % 10));
            }
        }
    }
}

proof fn lemma_decimals_digits(n: nat, width: nat)
    requires
        width > 0,
    ensures
        forall|i: int| 0 <= i < decimals(n, width).len() ==> '0' <= #[trigger] decimals(
            n,
            width,
        )[i] <= '9',
        decimals(n, width).len() > 1 ==> decimals(n, width).last() != '0',
    decreases width,
{
    if width > 1 && n % 10 == 0 {
        lemma_decimals_digits(n / 10, (width - 1) as nat);
    } else {
        lemma_padded_digits(n, width);
        if width == 1 {
            reveal_with_fuel(padded, 2);
        }
    }
}

/// A duration reads as the number of samples divided by 16000: whole seconds
/// without leading zeros, a point, and decimals without trailing zeros but for
/// a single one.
pub proof fn a_duration_reads_as_samples_by_sixteen_thousand(samples: nat)
    ensures
        exists|whole: Seq<char>, part: Seq<char>|
            duration_text(samples) == #[trigger] (whole + "."@ + part) && whole.len() > 0
                && part.len() > 0 && (forall|i: int|
                0 <= i < whole.len() ==> '0' <= #[trigger] whole[i] <= '9') && (forall|i: int|
                0 <= i < part.len() ==> '0' <= #[trigger] part[i] <= '9') && (whole.first() == '0'
                ==> whole.len() == 1) && (part.len() > 1 ==> part.last() != '0') && (digits_value(
                whole,
            ) * power_of_ten(part.len()) + digits_value(part)) * 16_000 == samples * power_of_ten(
                part.len(),
            ),
{
    let whole = decimal(samples / 16_000);
    let part = decimals((samples % 16_000) * 625, 7);
    a_duration_is_exact(samples);
    decimal_notation_is_digits(samples / 16_000);
    lemma_decimals_digits((samples % 16_000) * 625, 7);
    assert(duration_text(samples) == whole + "."@ + part);
}

fn push_padded(out: &mut String, n: u128, width: u32)
    ensures
        final(out)@ == old(out)@ + padded(n as nat, width as nat),
    decreases width,
{
    if width > 0 {
        push_padded(out, n / 10, width - 1);
        push_digit(out, n % 10);
    }
    assert(out@ =~= old(out)@ + padded(n as nat, width as nat));
}

fn push_duration(out: &mut String, samples: usize)
    ensures
        final(out)@ == old(out)@ + duration_text(samples as nat),
{
    let n: u128 = samples as u128;
    let mut text = String::new();
    push_decimal(&mut text, n / 16_000);
    text.append(".");
    let mut rest: u128 = (n % 16_000) * 625;
    let mut width: u32 = 7;
    while width > 1 && rest % 10 == 0
        invariant
            width >= 1,
            decimals(rest as nat, width as nat) == decimals(
                ((samples as nat % 16_000) * 625) as nat,
                7,
            ),
        decreases width,
    {
        rest = rest / 10;
        width = width - 1;
    }
    push_padded(&mut text, rest, width);
    assert(text@ =~= duration_text(samples as nat));
    out.append(text.as_str());
}

/// The bare transcript as JSON.
pub open spec fn transcript_json(text: Seq<char>) -> Seq<char> {
    "{\"text\":"@ + json_string(text) + "}"@
}

/// The transcript as JSON, with what is known of the audio.
pub open spec fn verbose_json(
    text: Seq<char>,
    language: Seq<char>,
    samples: nat,
    source_rate: nat,
) -> Seq<char> {
    "{\"task\":\"transcribe\",\"language\":"@ + json_string(language) + ",\"duration\":"@
        + duration_text(samples) + ",\"source_sample_rate\":"@ + decimal(source_rate)
        + ",\"text\":"@ + json_string(text) + "}"@
}

/// The answer in the format that a request names, `json` if it names none.
pub open spec fn reply_verdict(
    format: Option<Seq<char>>,
    text: Seq<char>,
    language: Seq<char>,
    samples: nat,
    source_rate: nat,
) -> Result<ReplyView, ApiErrorView> {
    match format {
        None => Ok(ReplyView::Json(transcript_json(text))),
        Some(name) => if name == "text"@ {
            Ok(ReplyView::Text(text))
        } else if name == "verbose_json"@ {
            Ok(ReplyView::Json(verbose_json(text, language, samples, source_rate)))
        } else if name == "json"@ {
            Ok(ReplyView::Json(transcript_json(text)))
        } else {
            Err(
                api_error(
                    StatusCode::BadRequest,
                    "unsupported response_format `"@ + name
                        + "` (use json, text or verbose_json)"@,
                ),
            )
        },
    }
}

/// A transcript is an object that holds it as it is; the verbose one also
/// holds the language, the duration and the rate of the upload.
pub proof fn transcripts_are_objects(
    text: Seq<char>,
    language: Seq<char>,
    samples: nat,
    source_rate: nat,
)
    ensures
        transcript_json(text) == object(seq![("text"@, json_string(text))]),
        verbose_json(text, language, samples, source_rate) == object(
            seq![
                ("task"@, json_string("transcribe"@)),
                ("language"@, json_string(language)),
                ("duration"@, duration_text(samples)),
                ("source_sample_rate"@, decimal(source_rate)),
                ("text"@, json_string(text)),
            ],
        ),
{
    reveal_strlit("text");
    reveal_strlit("}");
    reveal_strlit("{\"text\":");
    let short = seq![("text"@, json_string(text))];
    lemma_object(short);
    assert(transcript_json(text) =~= object(short));
    lemma_verbose_object(
        json_string(text),
        json_string(language),
        duration_text(samples),
        decimal(source_rate),
    );
}

proof fn lemma_verbose_object(
    text: Seq<char>,
    language: Seq<char>,
    duration: Seq<char>,
    source_rate: Seq<char>,
)
    ensures
        "{\"task\":\"transcribe\",\"language\":"@ + language + ",\"duration\":"@ + duration
            + ",\"source_sample_rate\":"@ + source_rate + ",\"text\":"@ + text + "}"@ == object(
            seq![
                ("task"@, json_string("transcribe"@)),
                ("language"@, language),
                ("duration"@, duration),
                ("source_sample_rate"@, source_rate),
                ("text"@, text),
            ],
        ),
{
    reveal_strlit("text");
    reveal_strlit("}");
    reveal_strlit("task");
    reveal_strlit("transcribe");
    reveal_strlit("language");
    reveal_strlit("duration");
    reveal_strlit("source_sample_rate");
    reveal_strlit("{\"task\":\"transcribe\",\"language\":");
    reveal_strlit(",\"duration\":");
    reveal_strlit(",\"source_sample_rate\":");
    reveal_strlit(",\"text\":");
    lemma_plain_json("transcribe"@);
    let long = seq![
        ("task"@, json_string("transcribe"@)),
        ("language"@, language),
        ("duration"@, duration),
        ("source_sample_rate"@, source_rate),
        ("text"@, text),
    ];
    lemma_object(long);
    assert("{\"task\":\"transcribe\",\"language\":"@ =~= seq!['{'] + member(
        "task"@,
        json_string("transcribe"@),
    ) + seq![','] + seq!['"'] + "language"@ + seq!['"', ':']);
    assert(",\"duration\":"@ =~= seq![','] + seq!['"'] + "duration"@ + seq!['"', ':']);
    assert(",\"source_sample_rate\":"@ =~= seq![','] + seq!['"'] + "source_sample_rate"@ + seq![
        '"',
        ':',
    ]);
    assert(",\"text\":"@ =~= seq![','] + seq!['"'] + "text"@ + seq!['"', ':']);
    assert("{\"task\":\"transcribe\",\"language\":"@ + language + ",\"duration\":"@ + duration
        + ",\"source_sample_rate\":"@ + source_rate + ",\"text\":"@ + text + "}"@ =~= object(long));
}

/// The answer comes in the format that the request names, letter for letter,
/// and as plain JSON if it names none: the transcript is always the engine's.
/// A format of any other name is a bad request that repeats the name.
pub proof fn the_answer_has_the_format_that_is_named(
    name: Seq<char>,
    text: Seq<char>,
    language: Seq<char>,
    samples: nat,
    source_rate: nat,
)
    ensures
        ({
            let reply = |format: Option<Seq<char>>|
                reply_verdict(format, text, language, samples, source_rate);
            &&& reply(None) == reply(Some("json"@))
            &&& reply(None) == Ok::<ReplyView, ApiErrorView>(
                ReplyView::Json(object(seq![("text"@, json_string(text))])),
            )
            &&& reply(Some("text"@)) == Ok::<ReplyView, ApiErrorView>(ReplyView::Text(text))
            &&& reply(Some("verbose_json"@)) == Ok::<ReplyView, ApiErrorView>(
                ReplyView::Json(
                    object(
                        seq![
                            ("task"@, json_string("transcribe"@)),
                            ("language"@, json_string(language)),
                            ("duration"@, duration_text(samples)),
                            ("source_sample_rate"@, decimal(source_rate)),
                            ("text"@, json_string(text)),
                        ],
                    ),
                ),
            )
            &&& name != "json"@ && name != "text"@ && name != "verbose_json"@ ==> (reply(Some(name))
                matches Err(e) && e.status == StatusCode::BadRequest && e.message
                == "unsupported response_format `"@ + name + "` (use json, text or verbose_json)"@)
        }),
{
    transcripts_are_objects(text, language, samples, source_rate);
    reveal_strlit("text");
    reveal_strlit("json");
    reveal_strlit("verbose_json");
    assert("text"@[0] != "json"@[0]);
    assert("verbose_json"@.len() != "json"@.len());
    assert("verbose_json"@.len() != "text"@.len());
}

/// A reply seen through its view.
pub open spec fn reply_seen(r: Result<Reply, ApiError>) -> Result<ReplyView, ApiErrorView> {
    match r {
        Ok(reply) => Ok(reply@),
        Err(e) => Err(e@),
    }
}

/// Puts a transcript into the format that the request names. `samples` is the
/// number that was transcribed, at 16 kHz; `source_rate` is the rate of the
/// upload.
pub fn render(
    format: Option<&str>,
    text: String,
    language: &str,
    samples: usize,
    source_rate: u32,
) -> (r: Result<Reply, ApiError>)
    ensures
        reply_seen(r) == reply_verdict(
            str_seen(format),
            text@,
            language@,
            samples as nat,
            source_rate as nat,
        ),
{
    let name = match format {
        Some(name) => name,
        None => "json",
    };
    if same_text(name, "text") {
        proof {
            reveal_strlit("text");
            reveal_strlit("json");
            assert("text"@[0] != "json"@[0]);
        }
        return Ok(Reply::Text(text));
    }
    if same_text(name, "verbose_json") {
        proof {
            reveal_strlit("verbose_json");
            reveal_strlit("json");
            assert("verbose_json"@.len() != "json"@.len());
        }
        let mut b = "{\"task\":\"transcribe\",\"language\":".to_owned();
        push_json(&mut b, language);
        b.append(",\"duration\":");
        push_duration(&mut b, samples);
        b.append(",\"source_sample_rate\":");
        push_decimal(&mut b, source_rate as u128);
        b.append(",\"text\":");
        push_json(&mut b, text.as_str());
        b.append("}");
        return Ok(Reply::Json(b));
    }
    if same_text(name, "json") {
        let mut b = "{\"text\":".to_owned();
        push_json(&mut b, text.as_str());
        b.append("}");
        return Ok(Reply::Json(b));
    }
    let mut m = "unsupported response_format `".to_owned();
    m.append(name);
    m.append("` (use json, text or verbose_json)");
    Err(ApiError::new(StatusCode::BadRequest, m))
}

/// Puts the transcript of an accepted upload into the format that the request
/// names, with the language that the settings select as they are now.
pub fn respond<H: ServerHost>(
    host: &H,
    accepted: &AcceptedUpload,
    format: Option<&str>,
    text: String,
) -> (r: Result<Reply, ApiError>)
    ensures
        exists|settings: AppSettings| #[trigger]
            call_ensures(H::settings, (host,), settings) && reply_seen(r) == reply_verdict(
                str_seen(format),
                text@,
                settings.selected_language@,
                accepted@.samples,
                accepted@.source_rate,
            ),
{
    let settings = host.settings();
    assert(call_ensures(H::settings, (host,), settings));
    render(
        format,
        text,
        settings.selected_language.as_str(),
        accepted.samples,
        accepted.source_rate,
    )
}

} // verus!
