//! The HTTP interface: its routes, and the replies to requests.

use crate::config::AppConfig;
use crate::input::parsed;
use crate::input::parsed::{ParsedInput, ParsedView};
use crate::json;
use crate::json::{Json, JsonView, Number, NumberView};
use crate::state;
use crate::state::AppState;
use crate::string_map::StringMap;
use crate::text;
use vstd::prelude::*;
use vstd::string::StrSliceExecFns;
use vstd::utf8::encode_utf8;

verus! {

/// The header with the media type of the payload, where the usual one is missing.
pub const SAGEMAKER_CONTENT_TYPE_HEADER: &'static str = "x-amzn-sagemaker-content-type";

/// The header with the media types of the reply, where the usual one is missing.
pub const SAGEMAKER_ACCEPT_HEADER: &'static str = "x-amzn-sagemaker-accept";

/// The page that shows the contract of the interface.
pub const SWAGGER_UI_HTML: &'static str = r##"<!doctype html>
<html>
<head>
  <meta charset="utf-8" />
  <meta name="viewport" content="width=device-width, initial-scale=1" />
  <title>API Docs</title>
  <link rel="stylesheet" href="https://unpkg.com/swagger-ui-dist@5/swagger-ui.css" />
</head>
<body>
  <div id="swagger-ui"></div>
  <script src="https://unpkg.com/swagger-ui-dist@5/swagger-ui-bundle.js"></script>
  <script>
    window.ui = SwaggerUIBundle({
      url: "/openapi.yaml",
      dom_id: "#swagger-ui",
      deepLinking: true,
      presets: [SwaggerUIBundle.presets.apis],
    });
  </script>
</body>
</html>
"##;

/// The headers of a request, as `axum` has them.
#[verifier::external_type_specification]
#[verifier::external_body]
#[verifier::reject_recursive_types(T)]
pub struct ExHeaderMap<T>(axum::http::HeaderMap<T>);

/// The value of a header, as `axum` has it.
#[verifier::external_type_specification]
#[verifier::external_body]
pub struct ExHeaderValue(axum::http::HeaderValue);

/// The bytes of the first value of each header, by its name in lower case.
pub uninterp spec fn header_values(
    headers: axum::http::HeaderMap<axum::http::HeaderValue>,
) -> Map<Seq<char>, Seq<u8>>;

/// The characters of a header name in lower case.
pub open spec fn is_name_char(c: char) -> bool {
    ||| '0' <= c <= '9'
    ||| 'a' <= c <= 'z'
    ||| '!' <= c <= '\''
    ||| '^' <= c <= '`'
    ||| c == '*' || c == '+' || c == '-' || c == '.' || c == '|' || c == '~'
}

/// The header names in lower case.
pub open spec fn is_header_name(name: Seq<char>) -> bool {
    &&& 1 <= name.len() <= 65535
    &&& forall|i: int| 0 <= i < name.len() ==> is_name_char(#[trigger] name[i])
}

/// The bytes of header values that are text: visible ASCII, spaces and tabs.
pub open spec fn is_text_byte(b: u8) -> bool {
    32 <= b < 127 || b == 9
}

/// The first value of the header, where it is text.
pub open spec fn header_text(values: Map<Seq<char>, Seq<u8>>, name: Seq<char>) -> Option<
    Seq<char>,
> {
    if values.contains_key(name) && (forall|i: int|
        0 <= i < values[name].len() ==> is_text_byte(#[trigger] values[name][i])) {
        Some(values[name].map_values(|b: u8| b as char))
    } else {
        None
    }
}

/// `HeaderMap::get` with the name that `HeaderName::from_lowercase` makes, and
/// `HeaderValue::to_str`: the first value that the headers have under the name,
/// where they have one and it is made up of visible ASCII characters, spaces and
/// tabs.
#[verifier::external_body]
fn read_header(
    headers: &axum::http::HeaderMap<axum::http::HeaderValue>,
    name: &str,
) -> (r: Option<String>)
    requires
        is_header_name(name@),
    ensures
        text::optional(r) == header_text(header_values(*headers), name@),
{
    let name = axum::http::HeaderName::from_lowercase(name.as_bytes()).ok()?;
    headers.get(name).and_then(|value| value.to_str().ok()).map(|value| value.to_string())
}

/// `HeaderName::from_lowercase`: it takes the header names in lower case and
/// nothing else.
#[verifier::external_body]
fn names_header(name: &str) -> (r: bool)
    ensures
        r == is_header_name(name@),
{
    axum::http::HeaderName::from_lowercase(name.as_bytes()).is_ok()
}

/// The first of two texts that is there, or else the default.
pub open spec fn first_text(
    primary: Option<Seq<char>>,
    fallback: Option<Seq<char>>,
    default: Seq<char>,
) -> Seq<char> {
    match (primary, fallback) {
        (Some(value), _) => value,
        (None, Some(value)) => value,
        (None, None) => default,
    }
}

/// The text of the first header, else that of the second, else the default. A
/// second name that is no header name in lower case stands for no header.
pub open spec fn header_choice(
    values: Map<Seq<char>, Seq<u8>>,
    primary: Seq<char>,
    fallback: Seq<char>,
    default: Seq<char>,
) -> Seq<char> {
    first_text(
        header_text(values, primary),
        if is_header_name(fallback) {
            header_text(values, fallback)
        } else {
            None
        },
        default,
    )
}

/// The media type of the payload that a request states.
pub open spec fn request_content_type(
    values: Map<Seq<char>, Seq<u8>>,
    cfg: AppConfig,
) -> Seq<char> {
    header_choice(
        values,
        "content-type"@,
        SAGEMAKER_CONTENT_TYPE_HEADER@,
        cfg.default_content_type@,
    )
}

/// The media types of the reply that a request states.
pub open spec fn request_accept(values: Map<Seq<char>, Seq<u8>>, cfg: AppConfig) -> Seq<char> {
    header_choice(values, "accept"@, SAGEMAKER_ACCEPT_HEADER@, cfg.default_accept@)
}

/// The first of two texts that is there, or else the default.
pub fn choose_text(primary: Option<String>, fallback: Option<String>, default: &str) -> (r: String)
    ensures
        r@ == first_text(text::optional(primary), text::optional(fallback), default@),
{
    match (primary, fallback) {
        (Some(value), _) => value,
        (None, Some(value)) => value,
        (None, None) => default.to_owned(),
    }
}

/// The text of the first header, else that of the second, else the default.
pub fn header_value_with_fallback(
    headers: &axum::http::HeaderMap<axum::http::HeaderValue>,
    primary: &str,
    fallback: &str,
    default: &str,
) -> (r: String)
    requires
        is_header_name(primary@),
    ensures
        r@ == header_choice(header_values(*headers), primary@, fallback@, default@),
{
    let second = if names_header(fallback) {
        read_header(headers, fallback)
    } else {
        None
    };
    choose_text(read_header(headers, primary), second, default)
}

/// The media type of the payload and those of the reply that a request states.
pub fn resolve_request_media_types(
    headers: &axum::http::HeaderMap<axum::http::HeaderValue>,
    cfg: &AppConfig,
) -> (r: (String, String))
    ensures
        r.0@ == request_content_type(header_values(*headers), *cfg),
        r.1@ == request_accept(header_values(*headers), *cfg),
{
    proof {
        reveal_strlit("content-type");
        reveal_strlit("accept");
    }
    (
        header_value_with_fallback(
            headers,
            "content-type",
            SAGEMAKER_CONTENT_TYPE_HEADER,
            cfg.default_content_type.as_str(),
        ),
        header_value_with_fallback(
            headers,
            "accept",
            SAGEMAKER_ACCEPT_HEADER,
            cfg.default_accept.as_str(),
        ),
    )
}

/// The body of a reply: JSON, plain text, a page, or bytes of a stated media type.
#[derive(Debug, PartialEq)]
pub enum HttpBody {
    Json(Json),
    Text(String),
    Html(String),
    Typed { content_type: String, body: Vec<u8> },
}

/// A reply: its status code and its body.
#[derive(Debug, PartialEq)]
pub struct HttpReply {
    pub status: u16,
    pub body: HttpBody,
}

/// What the body of a reply stands for.
pub enum HttpBodyView {
    Json(JsonView),
    Text(Seq<char>),
    Html(Seq<char>),
    Typed { content_type: Seq<char>, body: Seq<u8> },
}

/// What a reply stands for.
pub struct HttpReplyView {
    pub status: u16,
    pub body: HttpBodyView,
}

impl View for HttpBody {
    type V = HttpBodyView;

    open spec fn view(&self) -> HttpBodyView {
        match *self {
            HttpBody::Json(value) => HttpBodyView::Json(value@),
            HttpBody::Text(body) => HttpBodyView::Text(body@),
            HttpBody::Html(body) => HttpBodyView::Html(body@),
            HttpBody::Typed { content_type, body } => HttpBodyView::Typed {
                content_type: content_type@,
                body: body@,
            },
        }
    }
}

impl View for HttpReply {
    type V = HttpReplyView;

    open spec fn view(&self) -> HttpReplyView {
        HttpReplyView { status: self.status, body: self.body@ }
    }
}

/// The reply that names an error.
pub open spec fn error_reply(status: u16, message: Seq<char>) -> HttpReplyView {
    HttpReplyView {
        status,
        body: HttpBodyView::Json(JsonView::Object(seq![("error"@, JsonView::Text(message))])),
    }
}

/// The reply to a payload of more bytes than the limit.
pub open spec fn too_large_reply(limit: usize) -> HttpReplyView {
    HttpReplyView {
        status: 413,
        body: HttpBodyView::Json(
            JsonView::Object(
                seq![
                    ("error"@, JsonView::Text("payload_too_large"@)),
                    ("max_bytes"@, JsonView::Number(NumberView::Unsigned(limit as u64))),
                ],
            ),
        ),
    }
}

/// The reply with predictions.
pub open spec fn success_reply(body: Seq<u8>, content_type: Seq<char>) -> HttpReplyView {
    HttpReplyView { status: 200, body: HttpBodyView::Typed { content_type, body } }
}

/// The reply of plain text.
pub open spec fn text_reply(status: u16, body: Seq<char>) -> HttpReplyView {
    HttpReplyView { status, body: HttpBodyView::Text(body) }
}

/// The reply that names an error.
fn build_error_reply(status: u16, message: &str) -> (r: HttpReply)
    ensures
        r@ == error_reply(status, message@),
{
    let map = StringMap { entries: vec![("error".to_owned(), Json::Text(message.to_owned()))] };
    proof {
        json::lemma_object_view(map);
        assert(json::object_view(map) =~= seq![("error"@, JsonView::Text(message@))]);
    }
    HttpReply { status, body: HttpBody::Json(Json::Object(map)) }
}

/// The reply to a payload of the length, where it has more bytes than the settings
/// admit.
pub fn validate_payload_size(payload_len: usize, cfg: &AppConfig) -> (r: Option<HttpReply>)
    ensures
        r is Some == (payload_len > cfg.max_body_bytes),
        r matches Some(reply) ==> reply@ == too_large_reply(cfg.max_body_bytes),
{
    if payload_len <= cfg.max_body_bytes {
        return None;
    }
    let error = Json::Text("payload_too_large".to_owned());
    let limit = Json::Number(Number::Unsigned(cfg.max_body_bytes as u64));
    let map = StringMap {
        entries: vec![("error".to_owned(), error), ("max_bytes".to_owned(), limit)],
    };
    proof {
        json::lemma_object_view(map);
        assert(JsonView::Object(json::object_view(map)) == too_large_reply(
            cfg.max_body_bytes,
        ).body->Json_0) by {
            assert(json::object_view(map) =~= too_large_reply(
                cfg.max_body_bytes,
            ).body->Json_0->Object_0);
        }
    }
    Some(HttpReply { status: 413, body: HttpBody::Json(Json::Object(map)) })
}

/// The reply with predictions.
pub fn build_success_response(body: Vec<u8>, content_type: String) -> (r: HttpReply)
    ensures
        r@ == success_reply(body@, content_type@),
{
    HttpReply { status: 200, body: HttpBody::Typed { content_type, body } }
}

/// What an outcome stands for whose error is a reply.
pub open spec fn replied<T: View>(r: Result<T, HttpReply>) -> Result<T::V, HttpReplyView> {
    match r {
        Ok(value) => Ok(value@),
        Err(reply) => Err(reply@),
    }
}

/// The reply where no permit to work on the request was to be had.
pub fn acquire_inflight_permit(acquired: bool) -> (r: Result<(), HttpReply>)
    ensures
        replied(r) == if acquired {
            Ok(())
        } else {
            Err(error_reply(429, "too_many_requests"@))
        },
{
    if acquired {
        return Ok(());
    }
    Err(build_error_reply(429, "too_many_requests"))
}

/// The model input of a request and its batch size, or the reply that refuses it.
pub open spec fn validated_request(
    cfg: AppConfig,
    payload: Seq<u8>,
    content_type: Seq<char>,
) -> Result<(ParsedView, usize), HttpReplyView> {
    match state::request_input(cfg, payload, content_type) {
        Ok(sized) => Ok(sized),
        Err(message) => Err(error_reply(400, message)),
    }
}

/// The model input of a request and its batch size, or the reply that refuses it;
/// nothing where some row of the payload lacks a column that the settings choose.
pub fn parse_and_validate_request(state: &AppState, payload: &[u8], content_type: &str) -> (r:
    Option<Result<(ParsedInput, usize), HttpReply>>)
    ensures
        r is Some == state::payload_fits(state.cfg, payload@, content_type@),
        r matches Some(outcome) ==> replied(outcome) == validated_request(
            state.cfg,
            payload@,
            content_type@,
        ),
        r matches Some(Ok((input, _))) ==> parsed::holds_numbers(input@),
{
    match state.read_request(payload, content_type) {
        Some(Ok(sized)) => Some(Ok(sized)),
        Some(Err(message)) => Some(Err(build_error_reply(400, message.as_str()))),
        None => None,
    }
}

/// What came of the model for a request.
#[derive(Debug, PartialEq)]
pub enum Inference {
    LoadFailed(String),
    PredictFailed(String),
    Predicted(Json),
}

/// What an inference stands for.
pub enum InferenceView {
    LoadFailed(Seq<char>),
    PredictFailed(Seq<char>),
    Predicted(JsonView),
}

impl View for Inference {
    type V = InferenceView;

    open spec fn view(&self) -> InferenceView {
        match *self {
            Inference::LoadFailed(message) => InferenceView::LoadFailed(message@),
            Inference::PredictFailed(message) => InferenceView::PredictFailed(message@),
            Inference::Predicted(predictions) => InferenceView::Predicted(predictions@),
        }
    }
}

/// The body and the media type of the reply to an inference, or the reply that
/// names its error.
pub open spec fn formatted_inference(
    cfg: AppConfig,
    inference: InferenceView,
    accept: Seq<char>,
) -> Result<(Seq<u8>, Seq<char>), HttpReplyView> {
    match inference {
        InferenceView::LoadFailed(message) => Err(error_reply(500, message)),
        InferenceView::PredictFailed(message) => Err(error_reply(400, message)),
        InferenceView::Predicted(predictions) => match state::reply_body(
            cfg,
            predictions,
            accept,
        ) {
            Ok(formatted) => Ok(formatted),
            Err(message) => Err(error_reply(400, message)),
        },
    }
}

/// The body and the media type of the reply to an inference, or the reply that
/// names its error.
pub fn predict_and_format(state: &AppState, inference: Inference, accept: &str) -> (r: Result<
    (Vec<u8>, String),
    HttpReply,
>)
    ensures
        replied(r) == formatted_inference(state.cfg, inference@, accept@),
{
    let prediction = match inference {
        Inference::LoadFailed(message) => {
            return Err(build_error_reply(500, message.as_str()));
        },
        Inference::PredictFailed(message) => Err(message),
        Inference::Predicted(predictions) => Ok(predictions),
    };
    match state.answer(prediction, accept) {
        Ok(formatted) => Ok(formatted),
        Err(message) => Err(build_error_reply(400, message.as_str())),
    }
}

/// A request of acceptable size that waits for a permit.
#[derive(Debug, PartialEq)]
pub struct PendingRequest {
    pub content_type: String,
    pub accept: String,
}

/// A request whose model input waits for the model.
#[derive(Debug)]
pub struct PendingInference {
    pub input: ParsedInput,
    pub accept: String,
}

/// What a pending request stands for.
pub struct PendingRequestView {
    pub content_type: Seq<char>,
    pub accept: Seq<char>,
}

/// What a pending inference stands for.
pub struct PendingInferenceView {
    pub input: ParsedView,
    pub accept: Seq<char>,
}

impl View for PendingRequest {
    type V = PendingRequestView;

    open spec fn view(&self) -> PendingRequestView {
        PendingRequestView { content_type: self.content_type@, accept: self.accept@ }
    }
}

impl View for PendingInference {
    type V = PendingInferenceView;

    open spec fn view(&self) -> PendingInferenceView {
        PendingInferenceView { input: self.input@, accept: self.accept@ }
    }
}

/// The first step of a request: its size is checked, and its media types are read.
pub open spec fn opened(
    cfg: AppConfig,
    values: Map<Seq<char>, Seq<u8>>,
    payload_len: nat,
) -> Result<PendingRequestView, HttpReplyView> {
    if payload_len > cfg.max_body_bytes {
        Err(too_large_reply(cfg.max_body_bytes))
    } else {
        Ok(
            PendingRequestView {
                content_type: request_content_type(values, cfg),
                accept: request_accept(values, cfg),
            },
        )
    }
}

/// The second step of a request: with a permit, its payload is read.
pub open spec fn admitted(
    cfg: AppConfig,
    request: PendingRequestView,
    payload: Seq<u8>,
    acquired: bool,
) -> Result<PendingInferenceView, HttpReplyView> {
    if !acquired {
        Err(error_reply(429, "too_many_requests"@))
    } else {
        match validated_request(cfg, payload, request.content_type) {
            Ok((input, _)) => Ok(PendingInferenceView { input, accept: request.accept }),
            Err(reply) => Err(reply),
        }
    }
}

/// The last step of a request: the reply to what came of the model.
pub open spec fn finished(
    cfg: AppConfig,
    pending: PendingInferenceView,
    inference: InferenceView,
) -> HttpReplyView {
    match formatted_inference(cfg, inference, pending.accept) {
        Ok((body, content_type)) => success_reply(body, content_type),
        Err(reply) => reply,
    }
}

/// The first step of a request: its size is checked, and its media types are read.
pub fn http_invocations(
    state: &AppState,
    headers: &axum::http::HeaderMap<axum::http::HeaderValue>,
    payload: &[u8],
) -> (r: Result<PendingRequest, HttpReply>)
    ensures
        replied(r) == opened(state.cfg, header_values(*headers), payload@.len()),
{
    if let Some(reply) = validate_payload_size(payload.len(), &state.cfg) {
        return Err(reply);
    }
    let (content_type, accept) = resolve_request_media_types(headers, &state.cfg);
    Ok(PendingRequest { content_type, accept })
}

impl PendingRequest {
    /// The second step of a request: with a permit, its payload is read. Nothing
    /// where some row of the payload lacks a column that the settings choose.
    pub fn proceed(self, state: &AppState, payload: &[u8], acquired: bool) -> (r: Option<
        Result<PendingInference, HttpReply>,
    >)
        ensures
            r is Some == (!acquired || state::payload_fits(
                state.cfg,
                payload@,
                self@.content_type,
            )),
            r matches Some(outcome) ==> replied(outcome) == admitted(
                state.cfg,
                self@,
                payload@,
                acquired,
            ),
            r matches Some(Ok(pending)) ==> parsed::holds_numbers(pending.input@),
    {
        if let Err(reply) = acquire_inflight_permit(acquired) {
            return Some(Err(reply));
        }
        match parse_and_validate_request(state, payload, self.content_type.as_str()) {
            Some(Ok((input, _))) => Some(Ok(PendingInference { input, accept: self.accept })),
            Some(Err(reply)) => Some(Err(reply)),
            None => None,
        }
    }
}

impl PendingInference {
    /// The last step of a request: the reply to what came of the model.
    pub fn finish(self, state: &AppState, inference: Inference) -> (r: HttpReply)
        ensures
            r@ == finished(state.cfg, self@, inference@),
    {
        match predict_and_format(state, inference, self.accept.as_str()) {
            Ok((body, content_type)) => build_success_response(body, content_type),
            Err(reply) => reply,
        }
    }
}

/// The reply that the service is alive.
pub fn http_live() -> (r: HttpReply)
    ensures
        r@ == text_reply(200, "\n"@),
{
    HttpReply { status: 200, body: HttpBody::Text("\n".to_owned()) }
}

/// The reply on whether the service is ready: whether its model is loaded and then
/// is ready.
pub fn http_ready(loaded: &Result<bool, String>) -> (r: HttpReply)
    ensures
        r@ == text_reply(
            if *loaded matches Ok(ready) && ready {
                200
            } else {
                500
            },
            "\n"@,
        ),
{
    let status: u16 = match loaded {
        Ok(true) => 200,
        Ok(false) => 500,
        Err(_) => 500,
    };
    HttpReply { status, body: HttpBody::Text("\n".to_owned()) }
}

/// The reply with the metrics of the service.
pub fn http_metrics() -> (r: HttpReply)
    ensures
        r@ == text_reply(
            200,
            "# HELP byoc_up Service readiness\n# TYPE byoc_up gauge\nbyoc_up 1\n"@,
        ),
{
    HttpReply {
        status: 200,
        body: HttpBody::Text(
            "# HELP byoc_up Service readiness\n# TYPE byoc_up gauge\nbyoc_up 1\n".to_owned(),
        ),
    }
}

/// The reply with the contract of the interface, where it was found.
pub fn http_openapi_spec(contract: Option<String>) -> (r: HttpReply)
    ensures
        r@ == match contract {
            Some(source) => success_reply(
                encode_utf8(source@),
                "application/yaml; charset=utf-8"@,
            ),
            None => error_reply(404, "openapi_contract_not_found"@),
        },
{
    match contract {
        Some(source) => build_success_response(
            source.as_str().as_bytes_vec(),
            "application/yaml; charset=utf-8".to_owned(),
        ),
        None => build_error_reply(404, "openapi_contract_not_found"),
    }
}

/// The page that shows the contract of the interface.
pub fn http_swagger_ui() -> (r: HttpReply)
    ensures
        r@ == (HttpReplyView { status: 200, body: HttpBodyView::Html(SWAGGER_UI_HTML@) }),
{
    HttpReply { status: 200, body: HttpBody::Html(SWAGGER_UI_HTML.to_owned()) }
}

/// The method of a request.
#[derive(Clone, Copy, Debug, PartialEq, Eq, Structural)]
pub enum HttpMethod {
    Get,
    Post,
}

/// What answers the requests on a route.
#[derive(Clone, Copy, Debug, PartialEq, Eq, Structural)]
pub enum HttpHandler {
    Live,
    Ready,
    Invocations,
    OpenApi,
    Docs,
    Metrics,
}

/// The method of the requests that the handler answers: invocations are posted, all
/// else is got.
pub open spec fn method_for(handler: HttpHandler) -> HttpMethod {
    if handler is Invocations {
        HttpMethod::Post
    } else {
        HttpMethod::Get
    }
}

/// The method of the requests that the handler answers.
pub fn method_of(handler: HttpHandler) -> (r: HttpMethod)
    ensures
        r == method_for(handler),
{
    match handler {
        HttpHandler::Invocations => HttpMethod::Post,
        _ => HttpMethod::Get,
    }
}

/// A route: the method and the path of requests, and what answers them.
#[derive(Debug, PartialEq)]
pub struct HttpRoute {
    pub method: HttpMethod,
    pub path: String,
    pub handler: HttpHandler,
}

/// What a route stands for.
pub struct HttpRouteView {
    pub method: HttpMethod,
    pub path: Seq<char>,
    pub handler: HttpHandler,
}

impl View for HttpRoute {
    type V = HttpRouteView;

    open spec fn view(&self) -> HttpRouteView {
        HttpRouteView { method: self.method, path: self.path@, handler: self.handler }
    }
}

/// The route on which the requests with the path are got.
pub open spec fn get_route(path: Seq<char>, handler: HttpHandler) -> HttpRouteView {
    HttpRouteView { method: HttpMethod::Get, path, handler }
}

/// The route on which the requests with the path are posted.
pub open spec fn post_route(path: Seq<char>, handler: HttpHandler) -> HttpRouteView {
    HttpRouteView { method: HttpMethod::Post, path, handler }
}

/// The routes that are always there.
pub open spec fn service_routes() -> Seq<HttpRouteView> {
    seq![
        get_route("/live"@, HttpHandler::Live),
        get_route("/healthz"@, HttpHandler::Live),
        get_route("/ready"@, HttpHandler::Ready),
        get_route("/readyz"@, HttpHandler::Ready),
        get_route("/ping"@, HttpHandler::Ready),
        post_route("/invocations"@, HttpHandler::Invocations),
    ]
}

/// The routes of the contract and its page, where they are enabled.
pub open spec fn swagger_routes(cfg: AppConfig) -> Seq<HttpRouteView> {
    if cfg.swagger_enabled {
        seq![
            get_route("/openapi.yaml"@, HttpHandler::OpenApi),
            get_route("/docs"@, HttpHandler::Docs),
        ]
    } else {
        Seq::empty()
    }
}

/// The route of the metrics, where they are enabled.
pub open spec fn metrics_routes(cfg: AppConfig) -> Seq<HttpRouteView> {
    if cfg.prometheus_enabled {
        seq![get_route(cfg.prometheus_path@, HttpHandler::Metrics)]
    } else {
        Seq::empty()
    }
}

/// All the routes of the interface.
pub open spec fn all_routes(cfg: AppConfig) -> Seq<HttpRouteView> {
    service_routes() + swagger_routes(cfg) + metrics_routes(cfg)
}

/// What routes stand for.
pub open spec fn routes_view(routes: Seq<HttpRoute>) -> Seq<HttpRouteView> {
    routes.map_values(|route: HttpRoute| route@)
}

/// The route of the requests with the path that the handler answers.
fn route(path: &str, handler: HttpHandler) -> (r: HttpRoute)
    ensures
        r@ == (HttpRouteView { method: method_for(handler), path: path@, handler }),
{
    HttpRoute { method: method_of(handler), path: path.to_owned(), handler }
}

/// The routes of the interface.
pub fn build_http_router(cfg: &AppConfig) -> (r: Vec<HttpRoute>)
    ensures
        routes_view(r@) == all_routes(*cfg),
{
    let mut routes = vec![
        route("/live", HttpHandler::Live),
        route("/healthz", HttpHandler::Live),
        route("/ready", HttpHandler::Ready),
        route("/readyz", HttpHandler::Ready),
        route("/ping", HttpHandler::Ready),
        route("/invocations", HttpHandler::Invocations),
    ];
    assert(routes_view(routes@) =~= service_routes());
    if cfg.swagger_enabled {
        routes.push(route("/openapi.yaml", HttpHandler::OpenApi));
        routes.push(route("/docs", HttpHandler::Docs));
    }
    assert(routes_view(routes@) =~= service_routes() + swagger_routes(*cfg));
    if cfg.prometheus_enabled {
        routes.push(route(cfg.prometheus_path.as_str(), HttpHandler::Metrics));
    }
    assert(routes_view(routes@) =~= all_routes(*cfg));
    routes
}

} // verus!
