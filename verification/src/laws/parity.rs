//! What the HTTP interface and the gRPC interface have in common.
//!
//! Here a model is any function from model input to predictions or the text of an
//! error, and an answer is what all the steps of a request come to with it. There is
//! no answer where some row of the payload lacks a column that the settings choose.

use crate::config::AppConfig;
use crate::grpc_service;
use crate::grpc_service::{GrpcCode, GrpcStatusView, PredictReplyView, PredictRequestView};
use crate::http::{HttpReplyView, InferenceView};
use crate::input::parsed::ParsedView;
use crate::json::JsonView;
use crate::numeral;
use crate::state;
use vstd::prelude::*;

verus! {

/// What comes of a model, loaded or not, for its input.
pub open spec fn inference(
    loaded: Result<(), Seq<char>>,
    prediction: Result<JsonView, Seq<char>>,
) -> InferenceView {
    match (loaded, prediction) {
        (Err(message), _) => InferenceView::LoadFailed(message),
        (Ok(()), Err(message)) => InferenceView::PredictFailed(message),
        (Ok(()), Ok(predictions)) => InferenceView::Predicted(predictions),
    }
}

/// The answer to a request over HTTP.
pub open spec fn http_answer(
    cfg: AppConfig,
    values: Map<Seq<char>, Seq<u8>>,
    payload: Seq<u8>,
    acquired: bool,
    loaded: Result<(), Seq<char>>,
    model: spec_fn(ParsedView) -> Result<JsonView, Seq<char>>,
) -> Option<HttpReplyView> {
    match crate::http::opened(cfg, values, payload.len()) {
        Err(reply) => Some(reply),
        Ok(request) => if acquired && !state::payload_fits(cfg, payload, request.content_type) {
            None
        } else {
            match crate::http::admitted(cfg, request, payload, acquired) {
                Err(reply) => Some(reply),
                Ok(pending) => Some(
                    crate::http::finished(cfg, pending, inference(loaded, model(pending.input))),
                ),
            }
        },
    }
}

/// The answer to a call for predictions over gRPC.
pub open spec fn grpc_answer(
    cfg: AppConfig,
    load_error: Option<Seq<char>>,
    request: PredictRequestView,
    acquired: bool,
    loaded: Result<(), Seq<char>>,
    model: spec_fn(ParsedView) -> Result<JsonView, Seq<char>>,
) -> Option<Result<PredictReplyView, GrpcStatusView>> {
    match grpc_service::opened(cfg, load_error, request) {
        Err(status) => Some(Err(status)),
        Ok(call) => match grpc_service::permitted(call, acquired) {
            Err(status) => Some(Err(status)),
            Ok(call) => if loaded is Ok && !state::payload_fits(
                cfg,
                call.payload,
                grpc_service::or_default(call.content_type, cfg.default_content_type@),
            ) {
                None
            } else {
                match grpc_service::read(cfg, call, loaded) {
                    Err(status) => Some(Err(status)),
                    Ok(pending) => Some(
                        grpc_service::finished(cfg, pending, model(pending.input)),
                    ),
                }
            },
        },
    }
}

/// The headers of a request state what the call states.
pub open spec fn same_media_types(
    cfg: AppConfig,
    values: Map<Seq<char>, Seq<u8>>,
    request: PredictRequestView,
) -> bool {
    &&& crate::http::request_content_type(values, cfg) == grpc_service::or_default(
        request.content_type,
        cfg.default_content_type@,
    )
    &&& crate::http::request_accept(values, cfg) == grpc_service::or_default(
        request.accept,
        cfg.default_accept@,
    )
}

/// The refusal of a call.
pub open spec fn refused(code: GrpcCode, message: Seq<char>) -> Option<
    Result<PredictReplyView, GrpcStatusView>,
> {
    Some(Err(grpc_service::refusal(code, message)))
}

/// Where the model is loaded, a request and a call with the same payload and the
/// same media types are answered alike: with the same predictions in the same
/// bytes and of the same media type, or, where the size of the payload is
/// acceptable and there is a permit, with the same error, which is a bad request
/// over HTTP and an invalid argument over gRPC.
pub proof fn law_same_answers(
    cfg: AppConfig,
    values: Map<Seq<char>, Seq<u8>>,
    request: PredictRequestView,
    acquired: bool,
    model: spec_fn(ParsedView) -> Result<JsonView, Seq<char>>,
)
    requires
        same_media_types(cfg, values, request),
    ensures
        ({
            let over_http = http_answer(cfg, values, request.payload, acquired, Ok(()), model);
            let over_grpc = grpc_answer(cfg, None, request, acquired, Ok(()), model);
            &&& over_http is None <==> over_grpc is None
            &&& over_http matches Some(reply) ==> (reply.status == 200 <==> over_grpc->0 is Ok)
            &&& over_grpc matches Some(Ok(reply)) ==> over_http == Some(
                crate::http::success_reply(reply.body, reply.content_type),
            )
            &&& over_grpc matches Some(Err(status)) ==> acquired && request.payload.len()
                <= cfg.max_body_bytes ==> {
                &&& status.code == GrpcCode::InvalidArgument
                &&& over_http == Some(crate::http::error_reply(400, status.message))
            }
        }),
{
}

/// A payload of more bytes than the limit is refused with its own status over HTTP
/// and as an invalid argument over gRPC, whatever else it may be.
pub proof fn law_oversized_payloads_are_refused(
    cfg: AppConfig,
    values: Map<Seq<char>, Seq<u8>>,
    request: PredictRequestView,
    acquired: bool,
    loaded: Result<(), Seq<char>>,
    model: spec_fn(ParsedView) -> Result<JsonView, Seq<char>>,
)
    requires
        request.payload.len() > cfg.max_body_bytes,
    ensures
        http_answer(cfg, values, request.payload, acquired, loaded, model) == Some(
            crate::http::too_large_reply(cfg.max_body_bytes),
        ),
        grpc_answer(cfg, None, request, acquired, loaded, model) == refused(
            GrpcCode::InvalidArgument,
            grpc_service::too_large_error(request.payload.len(), cfg.max_body_bytes),
        ),
{
}

/// Without a permit, a request of acceptable size is turned away with the same
/// message over both interfaces.
pub proof fn law_no_permit_no_work(
    cfg: AppConfig,
    values: Map<Seq<char>, Seq<u8>>,
    request: PredictRequestView,
    loaded: Result<(), Seq<char>>,
    model: spec_fn(ParsedView) -> Result<JsonView, Seq<char>>,
)
    requires
        request.payload.len() <= cfg.max_body_bytes,
    ensures
        http_answer(cfg, values, request.payload, false, loaded, model) == Some(
            crate::http::error_reply(429, "too_many_requests"@),
        ),
        grpc_answer(cfg, None, request, false, loaded, model) == refused(
            GrpcCode::ResourceExhausted,
            "too_many_requests"@,
        ),
{
}

/// A model that cannot be loaded never gives predictions: a call is refused as an
/// internal error, and so is a request, unless there is something wrong with the
/// request itself.
pub proof fn law_no_model_no_predictions(
    cfg: AppConfig,
    values: Map<Seq<char>, Seq<u8>>,
    request: PredictRequestView,
    acquired: bool,
    message: Seq<char>,
    model: spec_fn(ParsedView) -> Result<JsonView, Seq<char>>,
)
    ensures
        ({
            let loaded = Err::<(), Seq<char>>(message);
            let over_http = http_answer(cfg, values, request.payload, acquired, loaded, model);
            let over_grpc = grpc_answer(cfg, None, request, acquired, loaded, model);
            let stated = crate::http::request_content_type(values, cfg);
            let acceptable = acquired && request.payload.len() <= cfg.max_body_bytes;
            &&& over_http matches Some(reply) ==> reply.status != 200
            &&& acceptable && state::payload_fits(cfg, request.payload, stated)
                && state::request_input(cfg, request.payload, stated) is Ok ==> over_http == Some(
                crate::http::error_reply(500, message),
            )
            &&& over_grpc matches Some(Err(_))
            &&& acceptable ==> over_grpc == refused(GrpcCode::Internal, message)
            &&& grpc_answer(cfg, Some(message), request, acquired, loaded, model) == refused(
                GrpcCode::Internal,
                message,
            )
        }),
{
}

/// Predictions are given for no more records than the limit, and the reply over
/// gRPC states their number.
pub proof fn law_answered_batches_are_within_the_limit(
    cfg: AppConfig,
    request: PredictRequestView,
    acquired: bool,
    loaded: Result<(), Seq<char>>,
    model: spec_fn(ParsedView) -> Result<JsonView, Seq<char>>,
)
    ensures
        grpc_answer(cfg, None, request, acquired, loaded, model) matches Some(Ok(reply))
            ==> exists|batch: usize|
            batch <= cfg.max_records && reply.metadata == seq![
                ("batch_size"@, #[trigger] numeral::decimal(batch as nat)),
            ],
{
    let stated = grpc_service::or_default(request.content_type, cfg.default_content_type@);
    if let Some(Ok(reply)) = grpc_answer(cfg, None, request, acquired, loaded, model) {
        let batch = state::request_input(cfg, request.payload, stated)->Ok_0.1;
        assert(reply.metadata == seq![("batch_size"@, numeral::decimal(batch as nat))]);
        assert(batch <= cfg.max_records);
    }
}

} // verus!
