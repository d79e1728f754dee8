//! The gRPC interface: the replies to its calls.

use crate::config::AppConfig;
use crate::input::parsed;
use crate::input::parsed::{ParsedInput, ParsedView};
use crate::json::{Json, JsonView};
use crate::numeral;
use crate::outcome;
use crate::state;
use crate::state::AppState;
use crate::string_map::StringMap;
use crate::text;
use vstd::prelude::*;

verus! {

/// The codes with which a call is refused.
#[derive(Clone, Copy, Debug, PartialEq, Eq, Structural)]
pub enum GrpcCode {
    Internal,
    InvalidArgument,
    ResourceExhausted,
}

/// Why a call is refused.
#[derive(Debug, PartialEq)]
pub struct GrpcStatus {
    pub code: GrpcCode,
    pub message: String,
}

/// What a refusal stands for.
pub struct GrpcStatusView {
    pub code: GrpcCode,
    pub message: Seq<char>,
}

impl View for GrpcStatus {
    type V = GrpcStatusView;

    open spec fn view(&self) -> GrpcStatusView {
        GrpcStatusView { code: self.code, message: self.message@ }
    }
}

/// What an outcome stands for whose error is a refusal.
pub open spec fn answered<T: View>(r: Result<T, GrpcStatus>) -> Result<T::V, GrpcStatusView> {
    match r {
        Ok(value) => Ok(value@),
        Err(status) => Err(status@),
    }
}

/// The reply to a call for the state of the service.
#[derive(Debug, PartialEq)]
pub struct StatusReply {
    pub ok: bool,
    pub status: String,
}

/// A call for predictions.
#[derive(Debug, PartialEq)]
pub struct PredictRequest {
    pub payload: Vec<u8>,
    pub content_type: String,
    pub accept: String,
}

/// The reply with predictions.
#[derive(Debug, PartialEq)]
pub struct PredictReply {
    pub body: Vec<u8>,
    pub content_type: String,
    pub metadata: StringMap<String>,
}

/// What the reply with predictions stands for.
pub struct PredictReplyView {
    pub body: Seq<u8>,
    pub content_type: Seq<char>,
    pub metadata: Seq<(Seq<char>, Seq<char>)>,
}

impl View for PredictReply {
    type V = PredictReplyView;

    open spec fn view(&self) -> PredictReplyView {
        PredictReplyView {
            body: self.body@,
            content_type: self.content_type@,
            metadata: crate::input::records::text_map_view(self.metadata),
        }
    }
}

/// What a call for predictions stands for.
pub struct PredictRequestView {
    pub payload: Seq<u8>,
    pub content_type: Seq<char>,
    pub accept: Seq<char>,
}

impl View for PredictRequest {
    type V = PredictRequestView;

    open spec fn view(&self) -> PredictRequestView {
        PredictRequestView {
            payload: self.payload@,
            content_type: self.content_type@,
            accept: self.accept@,
        }
    }
}

/// A call of acceptable size that waits for a permit.
#[derive(Debug, PartialEq)]
pub struct OpenedCall {
    pub request: PredictRequest,
}

impl View for OpenedCall {
    type V = PredictRequestView;

    open spec fn view(&self) -> PredictRequestView {
        self.request@
    }
}

/// A call with a permit that waits for the model to be loaded.
#[derive(Debug, PartialEq)]
pub struct PermittedCall {
    pub request: PredictRequest,
}

impl View for PermittedCall {
    type V = PredictRequestView;

    open spec fn view(&self) -> PredictRequestView {
        self.request@
    }
}

/// A call whose model input waits for the model.
#[derive(Debug)]
pub struct PendingPrediction {
    pub input: ParsedInput,
    pub batch: usize,
    pub accept: String,
}

/// What a pending prediction stands for.
pub struct PendingPredictionView {
    pub input: ParsedView,
    pub batch: usize,
    pub accept: Seq<char>,
}

impl View for PendingPrediction {
    type V = PendingPredictionView;

    open spec fn view(&self) -> PendingPredictionView {
        PendingPredictionView { input: self.input@, batch: self.batch, accept: self.accept@ }
    }
}

/// A refusal.
pub open spec fn refusal(code: GrpcCode, message: Seq<char>) -> GrpcStatusView {
    GrpcStatusView { code, message }
}

/// The message about a payload of more bytes than the limit.
pub open spec fn too_large_error(payload_len: nat, limit: usize) -> Seq<char> {
    "payload too large: "@ + numeral::decimal(payload_len) + " bytes > "@ + numeral::decimal(
        limit as nat,
    ) + " bytes limit"@
}

/// The first step of a call for predictions: the service must have found its model,
/// and the payload must have an acceptable size.
pub open spec fn opened(
    cfg: AppConfig,
    load_error: Option<Seq<char>>,
    request: PredictRequestView,
) -> Result<PredictRequestView, GrpcStatusView> {
    match load_error {
        Some(message) => Err(refusal(GrpcCode::Internal, message)),
        None => if request.payload.len() > cfg.max_body_bytes {
            Err(
                refusal(
                    GrpcCode::InvalidArgument,
                    too_large_error(request.payload.len(), cfg.max_body_bytes),
                ),
            )
        } else {
            Ok(request)
        },
    }
}

/// The second step of a call for predictions: there must be a permit.
pub open spec fn permitted(request: PredictRequestView, acquired: bool) -> Result<
    PredictRequestView,
    GrpcStatusView,
> {
    if acquired {
        Ok(request)
    } else {
        Err(refusal(GrpcCode::ResourceExhausted, "too_many_requests"@))
    }
}

/// The text, or the default where it is empty.
pub open spec fn or_default(stated: Seq<char>, default: Seq<char>) -> Seq<char> {
    if stated.len() == 0 {
        default
    } else {
        stated
    }
}

/// The third step of a call for predictions: with its model loaded, the payload is
/// read.
pub open spec fn read(
    cfg: AppConfig,
    request: PredictRequestView,
    loaded: Result<(), Seq<char>>,
) -> Result<PendingPredictionView, GrpcStatusView> {
    match loaded {
        Err(message) => Err(refusal(GrpcCode::Internal, message)),
        Ok(()) => match state::request_input(
            cfg,
            request.payload,
            or_default(request.content_type, cfg.default_content_type@),
        ) {
            Ok((input, batch)) => Ok(
                PendingPredictionView {
                    input,
                    batch,
                    accept: or_default(request.accept, cfg.default_accept@),
                },
            ),
            Err(message) => Err(refusal(GrpcCode::InvalidArgument, message)),
        },
    }
}

/// The last step of a call for predictions: the reply to what the model gave.
pub open spec fn finished(
    cfg: AppConfig,
    pending: PendingPredictionView,
    prediction: Result<JsonView, Seq<char>>,
) -> Result<PredictReplyView, GrpcStatusView> {
    match state::prediction_body(cfg, prediction, pending.accept) {
        Ok((body, content_type)) => Ok(
            PredictReplyView {
                body,
                content_type,
                metadata: seq![("batch_size"@, numeral::decimal(pending.batch as nat))],
            },
        ),
        Err(message) => Err(refusal(GrpcCode::InvalidArgument, message)),
    }
}

/// The text, or the default where it is empty.
fn text_or_default(stated: &str, default: &str) -> (r: String)
    ensures
        r@ == or_default(stated@, default@),
{
    if stated.is_empty() {
        default.to_owned()
    } else {
        stated.to_owned()
    }
}

/// The gRPC service: its state, and why its model could not be loaded at its start.
#[derive(Clone, Debug)]
pub struct InferenceGrpcService {
    pub state: AppState,
    pub load_error: Option<String>,
}

impl InferenceGrpcService {
    /// The service for the settings, with what came of loading its model.
    pub fn new(cfg: AppConfig, loaded: Result<(), String>) -> (r: Self)
        ensures
            r.state.cfg == cfg,
            text::optional(r.load_error) == match loaded {
                Ok(()) => None,
                Err(message) => Some(message@),
            },
    {
        InferenceGrpcService {
            state: AppState::new(cfg),
            load_error: match loaded {
                Ok(()) => None,
                Err(message) => Some(message),
            },
        }
    }

    /// The reply that the service is alive.
    pub fn live(&self) -> (r: StatusReply)
        ensures
            r.ok,
            r.status@ == "live"@,
    {
        StatusReply { ok: true, status: "live".to_owned() }
    }

    /// The reply on whether the service is ready: whether its model is loaded and
    /// then is ready.
    pub fn ready(&self, loaded: &Result<bool, String>) -> (r: StatusReply)
        ensures
            r.ok == (*loaded matches Ok(ready) && ready),
            r.status@ == if r.ok {
                "ready"@
            } else {
                "not_ready"@
            },
    {
        let ready = match loaded {
            Ok(ready) => *ready,
            Err(_) => false,
        };
        let status = if ready {
            "ready"
        } else {
            "not_ready"
        };
        StatusReply { ok: ready, status: status.to_owned() }
    }

    /// The first step of a call for predictions: the service must have found its
    /// model, and the payload must have an acceptable size.
    pub fn predict(&self, request: PredictRequest) -> (r: Result<OpenedCall, GrpcStatus>)
        ensures
            answered(r) == opened(self.state.cfg, text::optional(self.load_error), request@),
    {
        if let Some(message) = &self.load_error {
            return Err(GrpcStatus { code: GrpcCode::Internal, message: message.clone() });
        }
        let limit = self.state.cfg.max_body_bytes;
        if request.payload.len() > limit {
            let got = numeral::decimal_string(request.payload.len() as u64);
            let head = text::concat("payload too large: ", got.as_str());
            let middle = text::concat(head.as_str(), " bytes > ");
            let tail = text::concat(numeral::decimal_string(limit as u64).as_str(), " bytes limit");
            let message = text::concat(middle.as_str(), tail.as_str());
            assert(message@ =~= too_large_error(request.payload@.len(), limit));
            return Err(GrpcStatus { code: GrpcCode::InvalidArgument, message });
        }
        Ok(OpenedCall { request })
    }
}

impl OpenedCall {
    /// The second step of a call for predictions: there must be a permit.
    pub fn after_permit(self, acquired: bool) -> (r: Result<PermittedCall, GrpcStatus>)
        ensures
            answered(r) == permitted(self@, acquired),
    {
        if acquired {
            return Ok(PermittedCall { request: self.request });
        }
        Err(
            GrpcStatus {
                code: GrpcCode::ResourceExhausted,
                message: "too_many_requests".to_owned(),
            },
        )
    }
}

impl PermittedCall {
    /// The third step of a call for predictions: with the model loaded, the payload
    /// is read. Nothing where some row of the payload lacks a column that the
    /// settings choose.
    pub fn after_load(self, service: &InferenceGrpcService, loaded: Result<(), String>) -> (r:
        Option<Result<PendingPrediction, GrpcStatus>>)
        ensures
            r is Some == (loaded is Err || state::payload_fits(
                service.state.cfg,
                self@.payload,
                or_default(self@.content_type, service.state.cfg.default_content_type@),
            )),
            r matches Some(outcome) ==> answered(outcome) == read(
                service.state.cfg,
                self@,
                outcome::viewed(loaded),
            ),
            r matches Some(Ok(pending)) ==> parsed::holds_numbers(pending.input@),
    {
        if let Err(message) = loaded {
            return Some(Err(GrpcStatus { code: GrpcCode::Internal, message }));
        }
        let cfg = &service.state.cfg;
        let content_type = text_or_default(
            self.request.content_type.as_str(),
            cfg.default_content_type.as_str(),
        );
        let accept = text_or_default(self.request.accept.as_str(), cfg.default_accept.as_str());
        match service.state.read_request(self.request.payload.as_slice(), content_type.as_str()) {
            Some(Ok((input, batch))) => Some(Ok(PendingPrediction { input, batch, accept })),
            Some(Err(message)) => Some(
                Err(GrpcStatus { code: GrpcCode::InvalidArgument, message }),
            ),
            None => None,
        }
    }
}

impl PendingPrediction {
    /// The last step of a call for predictions: the reply to what the model gave.
    pub fn finish(self, service: &InferenceGrpcService, prediction: Result<Json, String>) -> (r:
        Result<PredictReply, GrpcStatus>)
        ensures
            answered(r) == finished(service.state.cfg, self@, outcome::viewed(prediction)),
    {
        match service.state.answer(prediction, self.accept.as_str()) {
            Ok((body, content_type)) => {
                let size = numeral::decimal_string(self.batch as u64);
                let metadata = StringMap { entries: vec![("batch_size".to_owned(), size)] };
                let reply = PredictReply { body, content_type, metadata };
                assert(reply@.metadata =~= seq![
                    ("batch_size"@, numeral::decimal(self.batch as nat)),
                ]);
                Ok(reply)
            },
            Err(message) => Err(GrpcStatus { code: GrpcCode::InvalidArgument, message }),
        }
    }
}

} // verus!
