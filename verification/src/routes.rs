//! The HTTP surface: routes, and the ones that are answered at once.

use std::sync::Arc;
use vstd::prelude::*;
use vstd::string::*;

use crate::auth::{auth_verdict, bearer_token, check_auth};
use crate::error::{api_seen, ApiError, ApiErrorView, StatusCode};
use crate::host::{AppSettings, ModelInfo, Models, ServerHost};
use crate::text::{
    bytes_seen, json_string, lemma_object, lemma_plain_json, member, object, push_json, str_seen,
    string_seen,
};

verus! {

/// The largest upload accepted, in bytes. Generous enough for ten minutes of
/// 44.1 kHz stereo WAV.
pub const MAX_UPLOAD_BYTES: usize = 134_217_728;

/// The methods that routes answer to.
#[derive(Clone, Copy, Debug, PartialEq, Eq, Structural)]
pub enum Method {
    Get,
    Post,
}

/// What there is to ask for.
#[derive(Clone, Copy, Debug, PartialEq, Eq, Structural)]
pub enum Endpoint {
    Healthz,
    ListModels,
    Transcriptions,
    Stream,
}

/// A path, the method that it answers to, and what answers.
#[derive(Clone, Copy, Debug)]
pub struct Route {
    pub method: Method,
    pub path: &'static str,
    pub endpoint: Endpoint,
}

/// What a [`Route`] says.
pub ghost struct RouteView {
    pub method: Method,
    pub path: Seq<char>,
    pub endpoint: Endpoint,
}

impl View for Route {
    type V = RouteView;

    open spec fn view(&self) -> RouteView {
        RouteView { method: self.method, path: self.path@, endpoint: self.endpoint }
    }
}

/// The routes that there are.
pub open spec fn routes() -> Seq<RouteView> {
    seq![
        RouteView { method: Method::Get, path: "/healthz"@, endpoint: Endpoint::Healthz },
        RouteView { method: Method::Get, path: "/v1/models"@, endpoint: Endpoint::ListModels },
        RouteView {
            method: Method::Post,
            path: "/v1/audio/transcriptions"@,
            endpoint: Endpoint::Transcriptions,
        },
        RouteView { method: Method::Get, path: "/v1/audio/stream"@, endpoint: Endpoint::Stream },
    ]
}

/// The routes to serve. Any other path is not found.
pub fn router() -> (r: Vec<Route>)
    ensures
        r@.map_values(|route: Route| route@) == routes(),
{
    let r = vec![
        Route { method: Method::Get, path: "/healthz", endpoint: Endpoint::Healthz },
        Route { method: Method::Get, path: "/v1/models", endpoint: Endpoint::ListModels },
        Route {
            method: Method::Post,
            path: "/v1/audio/transcriptions",
            endpoint: Endpoint::Transcriptions,
        },
        Route { method: Method::Get, path: "/v1/audio/stream", endpoint: Endpoint::Stream },
    ];
    assert(r@.map_values(|route: Route| route@) =~= routes());
    r
}

/// What a request for an endpoint is told before anything else is looked at.
///
/// The health check needs no token: it reports neither transcript nor token,
/// and a supervisor needs an answer without holding the credential. Only the
/// stream takes a token from the query, because a browser cannot set a header
/// on an upgrade; elsewhere the URL would carry it into logs.
pub open spec fn access_verdict(
    endpoint: Endpoint,
    token: Option<Seq<char>>,
    authorization: Option<Seq<u8>>,
    query_token: Option<Seq<char>>,
) -> Result<(), ApiErrorView> {
    match endpoint {
        Endpoint::Healthz => Ok(()),
        Endpoint::ListModels => auth_verdict(token, authorization, None),
        Endpoint::Transcriptions => auth_verdict(token, authorization, None),
        Endpoint::Stream => auth_verdict(token, authorization, query_token),
    }
}

/// Refuses a request that an endpoint does not let through.
pub fn check_access(
    endpoint: Endpoint,
    token: Option<&str>,
    authorization: Option<&[u8]>,
    query_token: Option<&str>,
) -> (r: Result<(), ApiError>)
    ensures
        api_seen(r) == access_verdict(
            endpoint,
            str_seen(token),
            bytes_seen(authorization),
            str_seen(query_token),
        ),
{
    match endpoint {
        Endpoint::Healthz => Ok(()),
        Endpoint::ListModels => check_auth(token, authorization, None),
        Endpoint::Transcriptions => check_auth(token, authorization, None),
        Endpoint::Stream => check_auth(token, authorization, query_token),
    }
}

/// The health check answers everyone.
pub proof fn health_needs_no_token(
    token: Option<Seq<char>>,
    authorization: Option<Seq<u8>>,
    query_token: Option<Seq<char>>,
)
    ensures
        access_verdict(Endpoint::Healthz, token, authorization, query_token) is Ok,
{
}

/// A token in the query counts for the stream alone: no other endpoint's
/// answer depends on it.
pub proof fn a_query_token_is_for_streams(
    endpoint: Endpoint,
    token: Option<Seq<char>>,
    authorization: Option<Seq<u8>>,
    query_token: Option<Seq<char>>,
)
    requires
        endpoint != Endpoint::Stream,
    ensures
        access_verdict(endpoint, token, authorization, query_token) == access_verdict(
            endpoint,
            token,
            authorization,
            None,
        ),
{
}

/// A request passes exactly if it asks after health, if no token is configured,
/// if its header carries the token, or if it asks for a stream, its header
/// carries none and its query the token. It is otherwise told that it is not
/// authorized, and nothing else.
pub proof fn a_request_passes_with_the_token_alone(
    endpoint: Endpoint,
    token: Option<Seq<char>>,
    authorization: Option<Seq<u8>>,
    query_token: Option<Seq<char>>,
)
    ensures
        ({
            let header = bearer_token(authorization);
            let passes = endpoint == Endpoint::Healthz || token is None || header == token || (
            endpoint == Endpoint::Stream && header is None && query_token == token);
            let verdict = access_verdict(endpoint, token, authorization, query_token);
            &&& verdict is Ok <==> passes
            &&& verdict matches Err(e) ==> e.status == StatusCode::Unauthorized && e.message
                == "missing or invalid bearer token"@
        }),
{
}

// --------------------------------------------------------------- healthz

/// What the health check answers.
#[derive(Debug)]
pub struct Health {
    pub version: String,
    /// The model that a request which names none would use.
    pub selected_model: String,
    /// Whether an engine is resident. False is normal: the unload timeout
    /// releases it, and the next request loads it again.
    pub model_loaded: bool,
    pub backend: Option<String>,
}

/// A truth value in JSON.
pub open spec fn json_bool(b: bool) -> Seq<char> {
    if b {
        "true"@
    } else {
        "false"@
    }
}

fn bool_text(b: bool) -> (r: &'static str)
    ensures
        r@ == json_bool(b),
{
    if b {
        "true"
    } else {
        "false"
    }
}

/// A health report as JSON.
pub open spec fn health_json(
    version: Seq<char>,
    selected_model: Seq<char>,
    model_loaded: bool,
    backend: Option<Seq<char>>,
) -> Seq<char> {
    "{\"status\":\"ok\",\"version\":"@ + json_string(version) + ",\"selected_model\":"@
        + json_string(selected_model) + ",\"model_loaded\":"@ + json_bool(model_loaded)
        + ",\"backend\":"@ + (match backend {
        Some(name) => json_string(name),
        None => "null"@,
    }) + "}"@
}

/// A health report is an object that holds all that it was given, as it is.
pub proof fn a_health_report_is_an_object(
    version: Seq<char>,
    selected_model: Seq<char>,
    model_loaded: bool,
    backend: Option<Seq<char>>,
)
    ensures
        health_json(version, selected_model, model_loaded, backend) == object(
            seq![
                ("status"@, json_string("ok"@)),
                ("version"@, json_string(version)),
                ("selected_model"@, json_string(selected_model)),
                (
                    "model_loaded"@,
                    if model_loaded {
                        "true"@
                    } else {
                        "false"@
                    },
                ),
                (
                    "backend"@,
                    match backend {
                        Some(name) => json_string(name),
                        None => "null"@,
                    },
                ),
            ],
        ),
{
    let back = match backend {
        Some(name) => json_string(name),
        None => "null"@,
    };
    let loaded = json_bool(model_loaded);
    lemma_health_object(json_string(version), json_string(selected_model), loaded, back);
    assert(health_json(version, selected_model, model_loaded, backend)
        == "{\"status\":\"ok\",\"version\":"@ + json_string(version) + ",\"selected_model\":"@
        + json_string(selected_model) + ",\"model_loaded\":"@ + loaded + ",\"backend\":"@ + back
        + "}"@);
    assert(seq![
        ("status"@, json_string("ok"@)),
        ("version"@, json_string(version)),
        ("selected_model"@, json_string(selected_model)),
        (
            "model_loaded"@,
            if model_loaded {
                "true"@
            } else {
                "false"@
            },
        ),
        (
            "backend"@,
            match backend {
                Some(name) => json_string(name),
                None => "null"@,
            },
        ),
    ] =~= seq![
        ("status"@, json_string("ok"@)),
        ("version"@, json_string(version)),
        ("selected_model"@, json_string(selected_model)),
        ("model_loaded"@, loaded),
        ("backend"@, back),
    ]);
}

proof fn lemma_health_object(
    version: Seq<char>,
    selected_model: Seq<char>,
    model_loaded: Seq<char>,
    backend: Seq<char>,
)
    ensures
        "{\"status\":\"ok\",\"version\":"@ + version + ",\"selected_model\":"@ + selected_model
            + ",\"model_loaded\":"@ + model_loaded + ",\"backend\":"@ + backend + "}"@ == object(
            seq![
                ("status"@, json_string("ok"@)),
                ("version"@, version),
                ("selected_model"@, selected_model),
                ("model_loaded"@, model_loaded),
                ("backend"@, backend),
            ],
        ),
{
    reveal_strlit("status");
    reveal_strlit("ok");
    reveal_strlit("version");
    reveal_strlit("selected_model");
    reveal_strlit("model_loaded");
    reveal_strlit("backend");
    reveal_strlit("}");
    reveal_strlit("{\"status\":\"ok\",\"version\":");
    reveal_strlit(",\"selected_model\":");
    reveal_strlit(",\"model_loaded\":");
    reveal_strlit(",\"backend\":");
    lemma_plain_json("ok"@);
    let report = seq![
        ("status"@, json_string("ok"@)),
        ("version"@, version),
        ("selected_model"@, selected_model),
        ("model_loaded"@, model_loaded),
        ("backend"@, backend),
    ];
    lemma_object(report);
    assert("{\"status\":\"ok\",\"version\":"@ =~= seq!['{'] + member("status"@, json_string("ok"@))
        + seq![','] + seq!['"'] + "version"@ + seq!['"', ':']);
    assert(",\"selected_model\":"@ =~= seq![','] + seq!['"'] + "selected_model"@ + seq!['"', ':']);
    assert(",\"model_loaded\":"@ =~= seq![','] + seq!['"'] + "model_loaded"@ + seq!['"', ':']);
    assert(",\"backend\":"@ =~= seq![','] + seq!['"'] + "backend"@ + seq!['"', ':']);
    assert("{\"status\":\"ok\",\"version\":"@ + version + ",\"selected_model\":"@ + selected_model
        + ",\"model_loaded\":"@ + model_loaded + ",\"backend\":"@ + backend + "}"@ =~= object(
        report,
    ));
}

impl Health {
    /// The report as JSON.
    pub fn body(&self) -> (b: String)
        ensures
            b@ == health_json(
                self.version@,
                self.selected_model@,
                self.model_loaded,
                string_seen(self.backend),
            ),
    {
        let mut b = "{\"status\":\"ok\",\"version\":".to_owned();
        push_json(&mut b, self.version.as_str());
        b.append(",\"selected_model\":");
        push_json(&mut b, self.selected_model.as_str());
        b.append(",\"model_loaded\":");
        b.append(bool_text(self.model_loaded));
        b.append(",\"backend\":");
        match &self.backend {
            Some(name) => push_json(&mut b, name.as_str()),
            None => b.append("null"),
        }
        b.append("}");
        b
    }
}

/// Answers the health check, without loading a model.
pub fn healthz<H: ServerHost>(
    host: &H,
    version: &str,
    model_loaded: bool,
    backend: Option<String>,
) -> (r: Health)
    ensures
        exists|settings: AppSettings| #[trigger]
            call_ensures(H::settings, (host,), settings) && r.selected_model
                == settings.selected_model,
        r.version@ == version@,
        r.model_loaded == model_loaded,
        r.backend == backend,
{
    let settings = host.settings();
    assert(call_ensures(H::settings, (host,), settings));
    Health {
        version: version.to_owned(),
        selected_model: settings.selected_model,
        model_loaded,
        backend,
    }
}

// ---------------------------------------------------------------- models

/// A model as JSON, in OpenAI's shape and with two additions: a model that is
/// not downloaded cannot be used, and a client should see that before it
/// uploads audio.
pub open spec fn model_json(m: ModelInfo) -> Seq<char> {
    "{\"id\":"@ + json_string(m.id@)
        + ",\"object\":\"model\",\"owned_by\":\"handy\",\"downloaded\":"@ + json_bool(
        m.is_downloaded,
    ) + ",\"supports_streaming\":"@ + json_bool(m.supports_streaming) + "}"@
}

/// Models as JSON, with commas between them.
pub open spec fn models_json(models: Seq<ModelInfo>) -> Seq<char>
    decreases models.len(),
{
    if models.len() == 0 {
        seq![]
    } else if models.len() == 1 {
        model_json(models[0])
    } else {
        models_json(models.drop_last()) + ","@ + model_json(models.last())
    }
}

/// The model registry as JSON.
pub open spec fn model_list_json(models: Seq<ModelInfo>) -> Seq<char> {
    "{\"object\":\"list\",\"data\":["@ + models_json(models) + "]}"@
}

/// A model is an object that holds its id as it is and tells truly whether it
/// is downloaded and whether it supports streaming.
pub proof fn a_model_is_an_object(m: ModelInfo)
    ensures
        model_json(m) == object(
            seq![
                ("id"@, json_string(m.id@)),
                ("object"@, json_string("model"@)),
                ("owned_by"@, json_string("handy"@)),
                (
                    "downloaded"@,
                    if m.is_downloaded {
                        "true"@
                    } else {
                        "false"@
                    },
                ),
                (
                    "supports_streaming"@,
                    if m.supports_streaming {
                        "true"@
                    } else {
                        "false"@
                    },
                ),
            ],
        ),
{
    lemma_model_object(
        json_string(m.id@),
        json_bool(m.is_downloaded),
        json_bool(m.supports_streaming),
    );
}

proof fn lemma_model_object(id: Seq<char>, downloaded: Seq<char>, streaming: Seq<char>)
    ensures
        "{\"id\":"@ + id + ",\"object\":\"model\",\"owned_by\":\"handy\",\"downloaded\":"@
            + downloaded + ",\"supports_streaming\":"@ + streaming + "}"@ == object(
            seq![
                ("id"@, id),
                ("object"@, json_string("model"@)),
                ("owned_by"@, json_string("handy"@)),
                ("downloaded"@, downloaded),
                ("supports_streaming"@, streaming),
            ],
        ),
{
    reveal_strlit("id");
    reveal_strlit("object");
    reveal_strlit("model");
    reveal_strlit("owned_by");
    reveal_strlit("handy");
    reveal_strlit("downloaded");
    reveal_strlit("supports_streaming");
    reveal_strlit("}");
    reveal_strlit("{\"id\":");
    reveal_strlit(",\"object\":\"model\",\"owned_by\":\"handy\",\"downloaded\":");
    reveal_strlit(",\"supports_streaming\":");
    lemma_plain_json("model"@);
    lemma_plain_json("handy"@);
    let row = seq![
        ("id"@, id),
        ("object"@, json_string("model"@)),
        ("owned_by"@, json_string("handy"@)),
        ("downloaded"@, downloaded),
        ("supports_streaming"@, streaming),
    ];
    lemma_object(row);
    assert("{\"id\":"@ =~= seq!['{'] + seq!['"'] + "id"@ + seq!['"', ':']);
    assert(",\"object\":\"model\",\"owned_by\":\"handy\",\"downloaded\":"@ =~= seq![','] + member(
        "object"@,
        json_string("model"@),
    ) + seq![','] + member("owned_by"@, json_string("handy"@)) + seq![','] + seq!['"']
        + "downloaded"@ + seq!['"', ':']);
    assert(",\"supports_streaming\":"@ =~= seq![','] + seq!['"'] + "supports_streaming"@ + seq![
        '"',
        ':',
    ]);
    assert("{\"id\":"@ + id + ",\"object\":\"model\",\"owned_by\":\"handy\",\"downloaded\":"@
        + downloaded + ",\"supports_streaming\":"@ + streaming + "}"@ =~= object(row));
}

/// The model list leaves no model out and changes their order nowhere: one more
/// model is one more row at its end, behind a comma unless it is the first.
pub proof fn the_model_list_holds_every_model(models: Seq<ModelInfo>, m: ModelInfo)
    ensures
        models_json(Seq::<ModelInfo>::empty()) == Seq::<char>::empty(),
        models_json(seq![m]) == model_json(m),
        models.len() > 0 ==> models_json(models.push(m)) == models_json(models) + seq![',']
            + model_json(m),
        model_list_json(models) == object(
            seq![
                ("object"@, json_string("list"@)),
                ("data"@, seq!['['] + models_json(models) + seq![']']),
            ],
        ),
{
    reveal_strlit(",");
    assert(","@ =~= seq![',']);
    assert(models.push(m).drop_last() =~= models);
    reveal_strlit("object");
    reveal_strlit("list");
    reveal_strlit("data");
    reveal_strlit("{\"object\":\"list\",\"data\":[");
    reveal_strlit("]}");
    lemma_plain_json("list"@);
    let list = seq![
        ("object"@, json_string("list"@)),
        ("data"@, seq!['['] + models_json(models) + seq![']']),
    ];
    lemma_object(list);
    assert(model_list_json(models) =~= object(list));
}

fn push_model(out: &mut String, m: &ModelInfo)
    ensures
        final(out)@ == old(out)@ + model_json(*m),
{
    let mut row = "{\"id\":".to_owned();
    push_json(&mut row, m.id.as_str());
    row.append(",\"object\":\"model\",\"owned_by\":\"handy\",\"downloaded\":");
    row.append(bool_text(m.is_downloaded));
    row.append(",\"supports_streaming\":");
    row.append(bool_text(m.supports_streaming));
    row.append("}");
    out.append(row.as_str());
}

/// The model registry as JSON.
pub fn model_list(models: &Vec<ModelInfo>) -> (b: String)
    ensures
        b@ == model_list_json(models@),
{
    let mut rows = String::new();
    let mut i: usize = 0;
    while i < models.len()
        invariant
            i <= models.len(),
            rows@ == models_json(models@.take(i as int)),
        decreases models.len() - i,
    {
        if i > 0 {
            rows.append(",");
        }
        push_model(&mut rows, &models[i]);
        proof {
            let next = models@.take(i + 1);
            assert(next.drop_last() =~= models@.take(i as int));
            assert(rows@ =~= models_json(next));
        }
        i = i + 1;
    }
    assert(models@.take(i as int) =~= models@);
    let mut b = "{\"object\":\"list\",\"data\":[".to_owned();
    b.append(rows.as_str());
    b.append("]}");
    b
}

/// Answers a request for the model registry.
pub fn list_models<H: ServerHost>(
    host: &H,
    token: Option<&str>,
    authorization: Option<&[u8]>,
) -> (r: Result<String, ApiError>)
    ensures
        match access_verdict(
            Endpoint::ListModels,
            str_seen(token),
            bytes_seen(authorization),
            None,
        ) {
            Ok(()) => r matches Ok(body) && (exists|
                catalogue: Arc<H::Catalogue>,
                models: Vec<ModelInfo>,
            | #[trigger]
                call_ensures(H::models, (host,), catalogue) && #[trigger] call_ensures(
                    H::Catalogue::available,
                    (&*catalogue,),
                    models,
                ) && body@ == model_list_json(models@)),
            Err(e) => r matches Err(refusal) && refusal@ == e,
        },
{
    match check_access(Endpoint::ListModels, token, authorization, None) {
        Ok(()) => {},
        Err(e) => return Err(e),
    }
    let catalogue = host.models();
    let models = catalogue.available();
    assert(call_ensures(H::models, (host,), catalogue));
    assert(call_ensures(H::Catalogue::available, (&*catalogue,), models));
    Ok(model_list(&models))
}

} // verus!
