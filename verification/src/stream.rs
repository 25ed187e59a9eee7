//! Requests for a live stream: which are refused, and how the others will be
//! held.

use std::sync::Arc;
use vstd::prelude::*;
use vstd::string::*;

use crate::audio::TARGET_HZ;
use crate::error::{api_error, ApiError, ApiErrorView, StatusCode};
use crate::host::{AppSettings, ModelInfo, Models, ServerHost};
use crate::message::Dialect;
use crate::routes::{access_verdict, check_access, Endpoint};
use crate::text::{bytes_seen, same_text, str_seen, string_seen};

verus! {

/// What the query of a stream request says.
#[derive(Debug)]
pub struct StreamParams {
    /// The sample rate of the audio that the client will send. The engine's
    /// own rate if none is given.
    pub sample_rate: Option<usize>,
    /// The token, because a browser cannot set a header on an upgrade.
    pub token: Option<String>,
    pub dialect: Option<String>,
}

/// How a stream will be held.
#[derive(Clone, Copy, Debug, PartialEq, Eq, Structural)]
pub struct StreamPlan {
    pub rate: usize,
    pub dialect: Dialect,
}

/// The dialect of a given name, native if none is named.
pub open spec fn dialect_of(name: Option<Seq<char>>) -> Option<Dialect> {
    match name {
        None => Some(Dialect::Native),
        Some(n) => if n == "native"@ {
            Some(Dialect::Native)
        } else if n == "codex"@ {
            Some(Dialect::Codex)
        } else {
            None
        },
    }
}

/// What becomes of a stream request, once it is authorized: the model has to
/// support streaming, the rate has to be one, the dialect has to be known, and
/// there can be one stream at a time, because there is one engine.
pub open spec fn stream_verdict(
    model_id: Seq<char>,
    supports_streaming: bool,
    sample_rate: Option<usize>,
    dialect: Option<Seq<char>>,
    stream_open: bool,
) -> Result<StreamPlan, ApiErrorView> {
    let rate = match sample_rate {
        Some(rate) => rate,
        None => TARGET_HZ,
    };
    if !supports_streaming {
        Err(
            api_error(
                StatusCode::Conflict,
                "the selected model `"@ + model_id
                    + "` does not support live streaming; use POST /v1/audio/transcriptions instead"@,
            ),
        )
    } else if rate == 0 {
        Err(api_error(StatusCode::BadRequest, "sample_rate must be greater than 0"@))
    } else {
        match dialect_of(dialect) {
            None => Err(
                api_error(
                    StatusCode::BadRequest,
                    "unknown dialect `"@ + dialect->Some_0 + "` (use native or codex)"@,
                ),
            ),
            Some(dialect) => if stream_open {
                Err(api_error(StatusCode::Conflict, "another stream is already open"@))
            } else {
                Ok(StreamPlan { rate, dialect })
            },
        }
    }
}

/// A stream is granted exactly if the model supports streaming, the rate that
/// is asked for, if any, is not zero, the dialect that is named, if any, is one
/// of the two, letter for letter, and no other stream is open. It is then held
/// at that very rate, or at 16 kHz, and in that dialect, or in the native one.
/// What is refused is refused for the first of these that fails, in this order.
pub proof fn a_stream_is_granted_unless_something_is_in_the_way(
    model_id: Seq<char>,
    supports_streaming: bool,
    sample_rate: Option<usize>,
    dialect: Option<Seq<char>>,
    stream_open: bool,
)
    ensures
        ({
            let verdict = stream_verdict(
                model_id,
                supports_streaming,
                sample_rate,
                dialect,
                stream_open,
            );
            let known = dialect is None || dialect == Some("native"@) || dialect == Some("codex"@);
            &&& verdict is Ok <==> supports_streaming && sample_rate != Some(0usize) && known
                && !stream_open
            &&& verdict matches Ok(plan) ==> {
                &&& sample_rate matches Some(rate) ==> plan.rate == rate
                &&& sample_rate is None ==> plan.rate == 16_000
                &&& plan.dialect == Dialect::Codex <==> dialect == Some("codex"@)
            }
            &&& verdict matches Err(e) ==> {
                &&& !supports_streaming ==> e.status == StatusCode::Conflict && e.message
                    == "the selected model `"@ + model_id
                    + "` does not support live streaming; use POST /v1/audio/transcriptions instead"@
                &&& supports_streaming && sample_rate == Some(0usize) ==> e.status
                    == StatusCode::BadRequest && e.message == "sample_rate must be greater than 0"@
                &&& supports_streaming && sample_rate != Some(0usize) && !known ==> e.status
                    == StatusCode::BadRequest && e.message == "unknown dialect `"@
                    + dialect->Some_0 + "` (use native or codex)"@
                &&& supports_streaming && sample_rate != Some(0usize) && known ==> e.status
                    == StatusCode::Conflict && e.message == "another stream is already open"@
            }
        }),
{
    reveal_strlit("native");
    reveal_strlit("codex");
    assert("native"@.len() != "codex"@.len());
}

/// A plan seen through its view.
pub open spec fn plan_seen(r: Result<StreamPlan, ApiError>) -> Result<StreamPlan, ApiErrorView> {
    match r {
        Ok(plan) => Ok(plan),
        Err(e) => Err(e@),
    }
}

/// Decides how an authorized stream request will be held, or refuses it with a
/// status that the client can read. A close frame after a successful upgrade
/// would be far easier to mistake for a network problem.
pub fn judge_stream(
    model_id: &str,
    supports_streaming: bool,
    params: &StreamParams,
    stream_open: bool,
) -> (r: Result<StreamPlan, ApiError>)
    ensures
        plan_seen(r) == stream_verdict(
            model_id@,
            supports_streaming,
            params.sample_rate,
            string_seen(params.dialect),
            stream_open,
        ),
{
    if !supports_streaming {
        let mut m = "the selected model `".to_owned();
        m.append(model_id);
        m.append("` does not support live streaming; use POST /v1/audio/transcriptions instead");
        return Err(ApiError::new(StatusCode::Conflict, m));
    }
    let rate: usize = match params.sample_rate {
        Some(rate) => rate,
        None => TARGET_HZ,
    };
    if rate == 0 {
        return Err(ApiError::bad_request("sample_rate must be greater than 0"));
    }
    let dialect = match &params.dialect {
        None => Dialect::Native,
        Some(name) => if same_text(name.as_str(), "native") {
            Dialect::Native
        } else if same_text(name.as_str(), "codex") {
            Dialect::Codex
        } else {
            let mut m = "unknown dialect `".to_owned();
            m.append(name.as_str());
            m.append("` (use native or codex)");
            return Err(ApiError::new(StatusCode::BadRequest, m));
        },
    };
    if stream_open {
        return Err(ApiError::new(StatusCode::Conflict, "another stream is already open".to_owned()));
    }
    Ok(StreamPlan { rate, dialect })
}

/// Answers a request for a stream: refuses it, or says how it will be held.
/// `stream_open` tells whether another one is open.
pub fn stream<H: ServerHost>(
    host: &H,
    token: Option<&str>,
    authorization: Option<&[u8]>,
    params: &StreamParams,
    stream_open: bool,
) -> (r: Result<StreamPlan, ApiError>)
    ensures
        match access_verdict(
            Endpoint::Stream,
            str_seen(token),
            bytes_seen(authorization),
            string_seen(params.token),
        ) {
            Ok(()) => exists|
                settings: AppSettings,
                catalogue: Arc<H::Catalogue>,
                id: &str,
                info: Option<ModelInfo>,
            | #[trigger]
                call_ensures(H::settings, (host,), settings) && call_ensures(
                    H::models,
                    (host,),
                    catalogue,
                ) && id@ == settings.selected_model@ && #[trigger] call_ensures(
                    H::Catalogue::info,
                    (&*catalogue, id),
                    info,
                ) && plan_seen(r) == stream_verdict(
                    settings.selected_model@,
                    (match info {
                        Some(model) => model.supports_streaming,
                        None => false,
                    }),
                    params.sample_rate,
                    string_seen(params.dialect),
                    stream_open,
                ),
            Err(e) => plan_seen(r) == Err::<StreamPlan, ApiErrorView>(e),
        },
{
    let query_token = match &params.token {
        Some(t) => Some(t.as_str()),
        None => None,
    };
    match check_access(Endpoint::Stream, token, authorization, query_token) {
        Ok(()) => {},
        Err(e) => return Err(e),
    }
    let settings = host.settings();
    let catalogue = host.models();
    let id = settings.selected_model.as_str();
    let info = catalogue.info(id);
    assert(call_ensures(H::settings, (host,), settings));
    assert(call_ensures(H::models, (host,), catalogue));
    assert(call_ensures(H::Catalogue::info, (&*catalogue, id), info));
    let supports_streaming = match info {
        Some(model) => model.supports_streaming,
        None => false,
    };
    judge_stream(id, supports_streaming, params, stream_open)
}

} // verus!
