//! Calls over gRPC, step by step.

use crate::config::AppConfig;
use crate::grpc_service::{
    GrpcCode,
    GrpcStatus,
    InferenceGrpcService,
    OpenedCall,
    PendingPrediction,
    PermittedCall,
    PredictReply,
    PredictRequest,
    StatusReply,
};
use crate::input::parsed::ParsedInput;
use crate::json::Json;
use crate::numeral;
use crate::state::AppState;
use vstd::prelude::*;

verus! {

/// The call is refused with the code and the message.
pub open spec fn is_refusal(status: GrpcStatus, code: GrpcCode, message: Seq<char>) -> bool {
    status.code == code && status.message@ == message
}

/// The text is the one that is stated, or the default where nothing is.
pub open spec fn is_stated(s: Seq<char>, stated: Seq<char>, default: Seq<char>) -> bool {
    &&& stated.len() > 0 ==> s == stated
    &&& stated.len() == 0 ==> s == default
}

/// The service has its settings, and remembers why its model could not be loaded.
pub proof fn law_services_remember(
    cfg: AppConfig,
    loaded: Result<(), String>,
    r: InferenceGrpcService,
)
    requires
        call_ensures(InferenceGrpcService::new, (cfg, loaded), r),
    ensures
        r.state.cfg == cfg,
        loaded is Ok ==> r.load_error is None,
        loaded matches Err(reason) ==> (r.load_error matches Some(message) && message@ == reason@),
{
}

/// The service always says that it is alive, and says that it is ready if and only if its model
/// is loaded and ready.
pub proof fn law_status_calls(
    service: &InferenceGrpcService,
    loaded: &Result<bool, String>,
    live: StatusReply,
    ready: StatusReply,
)
    requires
        call_ensures(InferenceGrpcService::live, (service,), live),
        call_ensures(InferenceGrpcService::ready, (service, loaded), ready),
    ensures
        live.ok && live.status@ == "live"@,
        *loaded == Ok::<bool, String>(true) ==> ready.ok && ready.status@ == "ready"@,
        *loaded != Ok::<bool, String>(true) ==> !ready.ok && ready.status@ == "not_ready"@,
{
}

/// A call is opened as it is if and only if the model of the service was found and the payload
/// has no more bytes than the limit. A model that was not found comes first, as an internal
/// error; a payload that is too large is an invalid argument, with both numbers.
pub proof fn law_calls_are_opened(
    service: &InferenceGrpcService,
    request: PredictRequest,
    r: Result<OpenedCall, GrpcStatus>,
)
    requires
        call_ensures(InferenceGrpcService::predict, (service, request), r),
    ensures
        match service.load_error {
            Some(message) => r matches Err(status) && is_refusal(
                status,
                GrpcCode::Internal,
                message@,
            ),
            None => if request.payload@.len() <= service.state.cfg.max_body_bytes {
                r matches Ok(call) && call.request@ == request@
            } else {
                r matches Err(status) && is_refusal(
                    status,
                    GrpcCode::InvalidArgument,
                    "payload too large: "@ + numeral::decimal(request.payload@.len())
                        + " bytes > "@ + numeral::decimal(
                        service.state.cfg.max_body_bytes as nat,
                    ) + " bytes limit"@,
                )
            },
        },
{
}

/// An opened call goes on as it is with a permit, and is turned away without one.
pub proof fn law_calls_need_a_permit(
    call: OpenedCall,
    acquired: bool,
    r: Result<PermittedCall, GrpcStatus>,
)
    requires
        call_ensures(OpenedCall::after_permit, (call, acquired), r),
    ensures
        acquired ==> (r matches Ok(same) && same.request@ == call.request@),
        !acquired ==> (r matches Err(status) && is_refusal(
            status,
            GrpcCode::ResourceExhausted,
            "too_many_requests"@,
        )),
{
}

/// A model that could not be loaded is an internal error, whatever the payload is. With a model,
/// the payload is read by the media type that the call states, or by the default of the settings
/// for payloads where it states none; what is wrong with it is an invalid argument. The input
/// waits with its batch size and with the media types of the reply that the call states, or with
/// the default of the settings for replies.
pub proof fn law_calls_are_read(
    call: PermittedCall,
    service: &InferenceGrpcService,
    loaded: Result<(), String>,
    payload: &[u8],
    content_type: &str,
    read: Option<Result<(ParsedInput, usize), String>>,
    r: Option<Result<PendingPrediction, GrpcStatus>>,
)
    requires
        call_ensures(PermittedCall::after_load, (call, service, loaded), r),
        call_ensures(AppState::read_request, (&service.state, payload, content_type), read),
        payload@ == call.request.payload@,
        is_stated(
            content_type@,
            call.request.content_type@,
            service.state.cfg.default_content_type@,
        ),
    ensures
        match loaded {
            Err(message) => r matches Some(Err(status)) && is_refusal(
                status,
                GrpcCode::Internal,
                message@,
            ),
            Ok(()) => match read {
                None => r is None,
                Some(Err(message)) => r matches Some(Err(status)) && is_refusal(
                    status,
                    GrpcCode::InvalidArgument,
                    message@,
                ),
                Some(Ok((input, batch))) => r matches Some(Ok(pending)) && {
                    &&& pending.input@ == input@
                    &&& pending.batch == batch
                    &&& is_stated(
                        pending.accept@,
                        call.request.accept@,
                        service.state.cfg.default_accept@,
                    )
                },
            },
        },
{
}

/// The reply to predictions has the body that is written for them, its media type, and the batch
/// size in decimal beside it; a prediction that failed, or that cannot be written, is an invalid
/// argument.
pub proof fn law_calls_are_finished(
    pending: PendingPrediction,
    service: &InferenceGrpcService,
    prediction: Result<Json, String>,
    accept: &str,
    written: Result<(Vec<u8>, String), String>,
    r: Result<PredictReply, GrpcStatus>,
)
    requires
        call_ensures(PendingPrediction::finish, (pending, service, prediction), r),
        accept@ == pending.accept@,
        prediction matches Ok(predictions) ==> call_ensures(
            AppState::format_output,
            (&service.state, predictions, accept),
            written,
        ),
    ensures
        match prediction {
            Err(message) => r matches Err(status) && is_refusal(
                status,
                GrpcCode::InvalidArgument,
                message@,
            ),
            Ok(_) => match written {
                Ok((body, content_type)) => r matches Ok(reply) && {
                    &&& reply.body@ == body@
                    &&& reply.content_type@ == content_type@
                    &&& reply.metadata.entries@.len() == 1
                    &&& reply.metadata.entries@[0].0@ == "batch_size"@
                    &&& reply.metadata.entries@[0].1@ == numeral::decimal(pending.batch as nat)
                },
                Err(message) => r matches Err(status) && is_refusal(
                    status,
                    GrpcCode::InvalidArgument,
                    message@,
                ),
            },
        },
{
    if let Ok(reply) = r {
        let views = crate::input::records::text_map_view(reply.metadata);
        assert(views.len() == 1);
        assert(views[0] == ("batch_size"@, numeral::decimal(pending.batch as nat)));
        assert(views[0] == (reply.metadata.entries@[0].0@, reply.metadata.entries@[0].1@));
    }
}

} // verus!
