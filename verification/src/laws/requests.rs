//! Requests over HTTP, step by step.

use crate::config::AppConfig;
use crate::http::{
    HttpBodyView,
    HttpReply,
    HttpReplyView,
    Inference,
    PendingInference,
    PendingRequest,
};
use crate::input::parsed::{ParsedInput, ParsedView};
use crate::json::{JsonView, NumberView};
use crate::laws::parity;
use crate::outcome;
use crate::state;
use crate::state::AppState;
use crate::text;
use vstd::prelude::*;
use vstd::utf8::encode_utf8;

verus! {

/// The bytes are visible ASCII characters, spaces and tabs.
pub open spec fn is_text(bytes: Seq<u8>) -> bool {
    forall|i: int| 0 <= i < bytes.len() ==> 32 <= #[trigger] bytes[i] <= 126 || bytes[i] == 9
}

/// The headers have a text under the name.
pub open spec fn states(values: Map<Seq<char>, Seq<u8>>, name: Seq<char>) -> bool {
    values.contains_key(name) && is_text(values[name])
}

/// The text has the characters of the bytes.
pub open spec fn same_text(s: Seq<char>, bytes: Seq<u8>) -> bool {
    s.len() == bytes.len() && forall|i: int| 0 <= i < s.len() ==> #[trigger] s[i] == bytes[i] as char
}

/// The text is that of the header with the one name, or else that of the header with the other
/// name, or else the default.
pub open spec fn is_stated(
    s: Seq<char>,
    values: Map<Seq<char>, Seq<u8>>,
    usual: Seq<char>,
    substitute: Seq<char>,
    default: Seq<char>,
) -> bool {
    &&& states(values, usual) ==> same_text(s, values[usual])
    &&& !states(values, usual) && states(values, substitute) ==> same_text(s, values[substitute])
    &&& !states(values, usual) && !states(values, substitute) ==> s == default
}

/// The reply names the error, with the status.
pub open spec fn names_error(reply: HttpReplyView, status: u16, message: Seq<char>) -> bool {
    &&& reply.status == status
    &&& reply.body == HttpBodyView::Json(
        JsonView::Object(seq![("error"@, JsonView::Text(message))]),
    )
}

/// What a header holds is read as its text.
proof fn lemma_header_text(values: Map<Seq<char>, Seq<u8>>, name: Seq<char>)
    ensures
        crate::http::header_text(values, name) is Some <==> states(values, name),
        crate::http::header_text(values, name) matches Some(s) ==> same_text(s, values[name]),
{
    if values.contains_key(name) {
        let bytes = values[name];
        if is_text(bytes) {
            assert forall|i: int| 0 <= i < bytes.len() implies crate::http::is_text_byte(
                #[trigger] bytes[i],
            ) by {}
        }
        if forall|i: int| 0 <= i < bytes.len() ==> crate::http::is_text_byte(#[trigger] bytes[i]) {
            assert forall|i: int| 0 <= i < bytes.len() implies 32 <= #[trigger] bytes[i] <= 126
                || bytes[i] == 9 by {
                assert(crate::http::is_text_byte(bytes[i]));
            }
        }
    }
}

/// The substitutes for the usual headers are header names.
proof fn lemma_substitutes()
    ensures
        crate::http::is_header_name("x-amzn-sagemaker-content-type"@),
        crate::http::is_header_name("x-amzn-sagemaker-accept"@),
{
    reveal_strlit("x-amzn-sagemaker-content-type");
    reveal_strlit("x-amzn-sagemaker-accept");
    let a = "x-amzn-sagemaker-content-type"@;
    let b = "x-amzn-sagemaker-accept"@;
    assert(a.len() == 29);
    assert(b.len() == 23);
    assert forall|i: int| 0 <= i < a.len() implies crate::http::is_name_char(#[trigger] a[i]) by {}
    assert forall|i: int| 0 <= i < b.len() implies crate::http::is_name_char(#[trigger] b[i]) by {}
}

/// Header names are made up of digits, small letters and a few other characters, and are neither
/// empty nor longer than a name can be.
pub proof fn law_header_names(name: Seq<char>)
    ensures
        crate::http::is_header_name(name) <==> 1 <= name.len() <= 65535 && forall|i: int|
            0 <= i < name.len() ==> {
                let c = #[trigger] name[i];
                ||| '0' <= c <= '9'
                ||| 'a' <= c <= 'z'
                ||| c == '!' || c == '"' || c == '#' || c == '$' || c == '%' || c == '&' || c == '\''
                ||| c == '*' || c == '+' || c == '-' || c == '.' || c == '^' || c == '_' || c == '`'
                ||| c == '|' || c == '~'
            },
{
    if crate::http::is_header_name(name) {
        assert forall|i: int| 0 <= i < name.len() implies {
            let c = #[trigger] name[i];
            ||| '0' <= c <= '9'
            ||| 'a' <= c <= 'z'
            ||| c == '!' || c == '"' || c == '#' || c == '$' || c == '%' || c == '&' || c == '\''
            ||| c == '*' || c == '+' || c == '-' || c == '.' || c == '^' || c == '_' || c == '`'
            ||| c == '|' || c == '~'
        } by {
            assert(crate::http::is_name_char(name[i]));
        }
    }
}

/// The text of the one header goes before that of the other, and the default stands in only
/// where neither has a text.
proof fn lemma_header_choice(
    values: Map<Seq<char>, Seq<u8>>,
    usual: Seq<char>,
    substitute: Seq<char>,
    default: Seq<char>,
)
    requires
        crate::http::is_header_name(substitute),
    ensures
        is_stated(
            crate::http::header_choice(values, usual, substitute, default),
            values,
            usual,
            substitute,
            default,
        ),
{
    lemma_header_text(values, usual);
    lemma_header_text(values, substitute);
}

/// A header that is a text is read as it is; where it is missing or no text, so is the
/// substitute; and where that is missing, no text, or no header name, the default stands in.
pub proof fn law_headers_are_read_in_order(
    headers: &axum::http::HeaderMap<axum::http::HeaderValue>,
    usual: &str,
    substitute: &str,
    default: &str,
    r: String,
)
    requires
        call_ensures(
            crate::http::header_value_with_fallback,
            (headers, usual, substitute, default),
            r,
        ),
    ensures
        ({
            let values = crate::http::header_values(*headers);
            &&& crate::http::is_header_name(substitute@) ==> is_stated(
                r@,
                values,
                usual@,
                substitute@,
                default@,
            )
            &&& !crate::http::is_header_name(substitute@) ==> if states(values, usual@) {
                same_text(r@, values[usual@])
            } else {
                r@ == default@
            }
        }),
{
    let values = crate::http::header_values(*headers);
    lemma_header_text(values, usual@);
    lemma_header_text(values, substitute@);
}

/// The media type of the payload is stated by `content-type`, or else by its substitute, or else
/// is the default of the settings for payloads; that of the reply is stated by `accept`, or else
/// by its substitute, or else is the default of the settings for replies.
pub proof fn law_stated_media_types(
    headers: &axum::http::HeaderMap<axum::http::HeaderValue>,
    cfg: &AppConfig,
    r: (String, String),
)
    requires
        call_ensures(crate::http::resolve_request_media_types, (headers, cfg), r),
    ensures
        is_stated(
            r.0@,
            crate::http::header_values(*headers),
            "content-type"@,
            "x-amzn-sagemaker-content-type"@,
            cfg.default_content_type@,
        ),
        is_stated(
            r.1@,
            crate::http::header_values(*headers),
            "accept"@,
            "x-amzn-sagemaker-accept"@,
            cfg.default_accept@,
        ),
{
    let values = crate::http::header_values(*headers);
    lemma_substitutes();
    lemma_header_choice(
        values,
        "content-type"@,
        "x-amzn-sagemaker-content-type"@,
        cfg.default_content_type@,
    );
    lemma_header_choice(values, "accept"@, "x-amzn-sagemaker-accept"@, cfg.default_accept@);
}

/// A request whose payload has no more bytes than the limit is opened with the media types that
/// its headers state, or with the defaults; any other is refused with the limit.
pub proof fn law_requests_are_opened(
    state: &AppState,
    headers: &axum::http::HeaderMap<axum::http::HeaderValue>,
    payload: &[u8],
    r: Result<PendingRequest, HttpReply>,
)
    requires
        call_ensures(crate::http::http_invocations, (state, headers, payload), r),
    ensures
        if payload@.len() <= state.cfg.max_body_bytes {
            r matches Ok(request) && {
                &&& is_stated(
                    request.content_type@,
                    crate::http::header_values(*headers),
                    "content-type"@,
                    "x-amzn-sagemaker-content-type"@,
                    state.cfg.default_content_type@,
                )
                &&& is_stated(
                    request.accept@,
                    crate::http::header_values(*headers),
                    "accept"@,
                    "x-amzn-sagemaker-accept"@,
                    state.cfg.default_accept@,
                )
            }
        } else {
            r matches Err(reply) && reply@.status == 413 && reply@.body == HttpBodyView::Json(
                JsonView::Object(
                    seq![
                        ("error"@, JsonView::Text("payload_too_large"@)),
                        (
                            "max_bytes"@,
                            JsonView::Number(
                                NumberView::Unsigned(state.cfg.max_body_bytes as u64),
                            ),
                        ),
                    ],
                ),
            )
        },
{
    let values = crate::http::header_values(*headers);
    lemma_substitutes();
    lemma_header_choice(
        values,
        "content-type"@,
        "x-amzn-sagemaker-content-type"@,
        state.cfg.default_content_type@,
    );
    lemma_header_choice(values, "accept"@, "x-amzn-sagemaker-accept"@, state.cfg.default_accept@);
}

/// A payload is refused for its size if and only if it has more bytes than the limit.
pub proof fn law_sizes_are_limited(payload_len: usize, cfg: &AppConfig, r: Option<HttpReply>)
    requires
        call_ensures(crate::http::validate_payload_size, (payload_len, cfg), r),
    ensures
        payload_len <= cfg.max_body_bytes ==> r is None,
        payload_len > cfg.max_body_bytes ==> (r matches Some(reply) && reply@.status == 413
            && reply@.body == HttpBodyView::Json(
            JsonView::Object(
                seq![
                    ("error"@, JsonView::Text("payload_too_large"@)),
                    (
                        "max_bytes"@,
                        JsonView::Number(NumberView::Unsigned(cfg.max_body_bytes as u64)),
                    ),
                ],
            ),
        )),
{
}

/// Where a request has no header for the media type of its payload, the payload is read as the
/// default of the settings for payloads; where it has none for the media types of its reply, the
/// reply is written for the default of the settings for replies. An answer with predictions is
/// the body that is written for these predictions.
pub proof fn law_defaults_stand_in_for_headers(
    cfg: AppConfig,
    values: Map<Seq<char>, Seq<u8>>,
    payload: Seq<u8>,
    model: spec_fn(ParsedView) -> Result<JsonView, Seq<char>>,
)
    requires
        payload.len() <= cfg.max_body_bytes,
        !values.contains_key("content-type"@),
        !values.contains_key("x-amzn-sagemaker-content-type"@),
        !values.contains_key("accept"@),
        !values.contains_key("x-amzn-sagemaker-accept"@),
    ensures
        ({
            let answer = parity::http_answer(cfg, values, payload, true, Ok(()), model);
            if !state::payload_fits(cfg, payload, cfg.default_content_type@) {
                answer is None
            } else {
                match state::request_input(cfg, payload, cfg.default_content_type@) {
                    Err(message) => answer matches Some(reply) && names_error(reply, 400, message),
                    Ok((input, _)) => match model(input) {
                        Err(message) => answer matches Some(reply) && names_error(
                            reply,
                            400,
                            message,
                        ),
                        Ok(predictions) => match state::reply_body(
                            cfg,
                            predictions,
                            cfg.default_accept@,
                        ) {
                            Ok((body, content_type)) => answer matches Some(reply) && {
                                &&& reply.status == 200
                                &&& reply.body == HttpBodyView::Typed { content_type, body }
                            },
                            Err(message) => answer matches Some(reply) && names_error(
                                reply,
                                400,
                                message,
                            ),
                        },
                    },
                }
            }
        }),
{
}

/// Under the settings that a service starts from, a request that says nothing of its reply gets
/// its predictions as JSON, whatever they are and whatever its payload is.
pub proof fn law_predictions_are_json_by_default(
    cfg: AppConfig,
    values: Map<Seq<char>, Seq<u8>>,
    payload: Seq<u8>,
    acquired: bool,
    loaded: Result<(), Seq<char>>,
    model: spec_fn(ParsedView) -> Result<JsonView, Seq<char>>,
)
    requires
        call_ensures(<AppConfig as Default>::default, (), cfg),
        !values.contains_key("accept"@),
        !values.contains_key("x-amzn-sagemaker-accept"@),
    ensures
        parity::http_answer(cfg, values, payload, acquired, loaded, model) matches Some(reply)
            ==> reply.status == 200 ==> (reply.body matches HttpBodyView::Typed {
            content_type,
            body,
        } && content_type == "application/json"@),
{
    reveal_strlit("application/json");
    reveal_strlit("text/csv");
    reveal_strlit("application/csv");
    let accept = "application/json"@;
    assert(accept.len() == 16);
    assert("text/csv"@.len() == 8);
    assert("application/csv"@.len() == 15);
    assert forall|k: int| 0 <= k < accept.len() implies accept[k] != ',' by {}
    text::lemma_position(accept, ',', accept.len() as int);
    assert(text::before(accept, ',') =~= accept);
    assert(accept.first() == 'a' && accept.last() == 'n');
    assert(text::trim(accept) == accept);
    assert(text::lower(accept).len() == 16);
    assert(cfg.default_accept@ == accept);
}

/// Without a permit a request is turned away before its payload is read.
pub proof fn law_permits_are_asked_for(acquired: bool, r: Result<(), HttpReply>)
    requires
        call_ensures(crate::http::acquire_inflight_permit, (acquired,), r),
    ensures
        acquired ==> r is Ok,
        !acquired ==> (r matches Err(reply) && names_error(reply@, 429, "too_many_requests"@)),
{
}

/// A request is read by its media type; what is wrong with it is named as a bad request.
pub proof fn law_bad_payloads_are_bad_requests(
    state: &AppState,
    payload: &[u8],
    content_type: &str,
    read: Option<Result<(ParsedInput, usize), String>>,
    r: Option<Result<(ParsedInput, usize), HttpReply>>,
)
    requires
        call_ensures(
            crate::http::parse_and_validate_request,
            (state, payload, content_type),
            r,
        ),
        call_ensures(AppState::read_request, (state, payload, content_type), read),
    ensures
        match read {
            None => r is None,
            Some(Ok((input, batch))) => r matches Some(Ok((same, size))) && same@ == input@ && size
                == batch,
            Some(Err(message)) => r matches Some(Err(reply)) && names_error(reply@, 400, message@),
        },
{
}

/// With a permit, the input of an opened request is that of its payload by the media type that
/// it states, and waits with the media types of the reply that it states. Without one the request
/// is turned away, whatever its payload is.
pub proof fn law_requests_proceed(
    request: PendingRequest,
    state: &AppState,
    payload: &[u8],
    acquired: bool,
    content_type: &str,
    read: Option<Result<(ParsedInput, usize), String>>,
    r: Option<Result<PendingInference, HttpReply>>,
)
    requires
        call_ensures(PendingRequest::proceed, (request, state, payload, acquired), r),
        call_ensures(AppState::read_request, (state, payload, content_type), read),
        content_type@ == request.content_type@,
    ensures
        !acquired ==> (r matches Some(Err(reply)) && names_error(
            reply@,
            429,
            "too_many_requests"@,
        )),
        acquired ==> match read {
            None => r is None,
            Some(Ok((input, _))) => r matches Some(Ok(pending)) && pending.input@ == input@
                && pending.accept@ == request.accept@,
            Some(Err(message)) => r matches Some(Err(reply)) && names_error(reply@, 400, message@),
        },
{
}

/// The body of a reply is the one that is written for the predictions. A model that could not be
/// loaded is named as an error of the service, and a prediction that failed, or that cannot be
/// written, as a bad request.
pub proof fn law_inferences_are_formatted(
    state: &AppState,
    inference: Inference,
    accept: &str,
    written: Result<(Vec<u8>, String), String>,
    r: Result<(Vec<u8>, String), HttpReply>,
)
    requires
        call_ensures(crate::http::predict_and_format, (state, inference, accept), r),
        inference matches Inference::Predicted(predictions) ==> call_ensures(
            AppState::format_output,
            (state, predictions, accept),
            written,
        ),
    ensures
        match inference {
            Inference::LoadFailed(message) => r matches Err(reply) && names_error(
                reply@,
                500,
                message@,
            ),
            Inference::PredictFailed(message) => r matches Err(reply) && names_error(
                reply@,
                400,
                message@,
            ),
            Inference::Predicted(_) => match written {
                Ok((body, content_type)) => r matches Ok((same, kind)) && same@ == body@ && kind@
                    == content_type@,
                Err(message) => r matches Err(reply) && names_error(reply@, 400, message@),
            },
        },
{
    if let Inference::Predicted(_) = inference {
        if let (Ok(pair), Ok(same)) = (written, r) {
            assert(pair@ == same@);
        }
    }
}

/// The reply to predictions has their body and its media type; the reply to anything else names
/// the error, with the status for it.
pub proof fn law_requests_are_finished(
    pending: PendingInference,
    state: &AppState,
    inference: Inference,
    accept: &str,
    written: Result<(Vec<u8>, String), String>,
    r: HttpReply,
)
    requires
        call_ensures(PendingInference::finish, (pending, state, inference), r),
        accept@ == pending.accept@,
        inference matches Inference::Predicted(predictions) ==> call_ensures(
            AppState::format_output,
            (state, predictions, accept),
            written,
        ),
    ensures
        match inference {
            Inference::LoadFailed(message) => names_error(r@, 500, message@),
            Inference::PredictFailed(message) => names_error(r@, 400, message@),
            Inference::Predicted(_) => match written {
                Ok((body, content_type)) => r@.status == 200 && r@.body == (HttpBodyView::Typed {
                    content_type: content_type@,
                    body: body@,
                }),
                Err(message) => names_error(r@, 400, message@),
            },
        },
{
    if let Inference::Predicted(predictions) = inference {
        assert(outcome::viewed(written) == state::reply_body(
            state.cfg,
            predictions@,
            pending.accept@,
        ));
    }
}

/// A reply with predictions has their body and media type, and says that all is well.
pub proof fn law_success_replies(body: Vec<u8>, content_type: String, r: HttpReply)
    requires
        call_ensures(crate::http::build_success_response, (body, content_type), r),
    ensures
        r@.status == 200,
        r@.body == (HttpBodyView::Typed { content_type: content_type@, body: body@ }),
{
}

/// The first of two texts is taken where it is there, then the second, then the default.
pub proof fn law_texts_are_chosen_in_order(
    usual: Option<String>,
    substitute: Option<String>,
    default: &str,
    r: String,
)
    requires
        call_ensures(crate::http::choose_text, (usual, substitute, default), r),
    ensures
        usual matches Some(s) ==> r@ == s@,
        usual is None ==> (substitute matches Some(s) ==> r@ == s@),
        usual is None && substitute is None ==> r@ == default@,
{
}

/// The service always says that it is alive, and says that it is ready if and only if its model
/// is loaded and ready.
pub proof fn law_probes(
    loaded: &Result<bool, String>,
    live: HttpReply,
    ready: HttpReply,
)
    requires
        call_ensures(crate::http::http_live, (), live),
        call_ensures(crate::http::http_ready, (loaded,), ready),
    ensures
        live@.status == 200,
        live@.body == HttpBodyView::Text("\n"@),
        ready@.body == HttpBodyView::Text("\n"@),
        *loaded == Ok::<bool, String>(true) ==> ready@.status == 200,
        *loaded != Ok::<bool, String>(true) ==> ready@.status == 500,
{
}

/// The contract is sent as it was found, and where none was found there is none.
pub proof fn law_contracts_are_sent(contract: Option<String>, r: HttpReply)
    requires
        call_ensures(crate::http::http_openapi_spec, (contract,), r),
    ensures
        match contract {
            Some(source) => r@.status == 200 && r@.body == (HttpBodyView::Typed {
                content_type: "application/yaml; charset=utf-8"@,
                body: encode_utf8(source@),
            }),
            None => names_error(r@, 404, "openapi_contract_not_found"@),
        },
{
}

/// The metrics are a text that says that the service is up, and the page shows the contract that
/// is served under its own path.
pub proof fn law_pages(metrics: HttpReply, page: HttpReply)
    requires
        call_ensures(crate::http::http_metrics, (), metrics),
        call_ensures(crate::http::http_swagger_ui, (), page),
    ensures
        metrics@.status == 200,
        metrics@.body == HttpBodyView::Text(
            "# HELP byoc_up Service readiness\n# TYPE byoc_up gauge\nbyoc_up 1\n"@,
        ),
        page@.status == 200,
        page@.body == HttpBodyView::Html(crate::http::SWAGGER_UI_HTML@),
{
}

} // verus!
