//! What values stand for: nothing of them is left out.

use crate::adapter;
use crate::adapter::InputTensor;
use crate::grpc_service;
use crate::grpc_service::{GrpcStatus, PredictReply, PredictRequest, PendingPrediction};
use crate::http::{HttpBody, HttpBodyView, HttpReply, HttpRoute, PendingInference, PendingRequest};
use crate::input::parsed::ParsedInput;
use crate::input::records;
use crate::json;
use crate::json::{Json, JsonView, Number, NumberView};
use crate::outcome;
use crate::state;
use crate::string_map::StringMap;
use vstd::prelude::*;

verus! {

/// An outcome stands for its value, or for the text of its error.
pub proof fn law_outcomes<T: View>(value: T, message: String, reply: HttpReply, status: GrpcStatus)
    ensures
        outcome::viewed(Ok::<T, String>(value)) == Ok::<T::V, Seq<char>>(value@),
        outcome::viewed(Err::<T, String>(message)) == Err::<T::V, Seq<char>>(message@),
        crate::http::replied(Ok::<T, HttpReply>(value)) matches Ok(v) && v == value@,
        crate::http::replied(Err::<T, HttpReply>(reply)) matches Err(e) && e == reply@,
        grpc_service::answered(Ok::<T, GrpcStatus>(value)) matches Ok(v) && v == value@,
        grpc_service::answered(Err::<T, GrpcStatus>(status)) matches Err(e) && e == status@,
{
}

/// An outcome with items stands for what its items stand for, or for the text of its error.
pub proof fn law_deep_outcomes<T: DeepView>(value: T, message: String)
    ensures
        outcome::deep_viewed(Ok::<T, String>(value)) == Ok::<T::V, Seq<char>>(value.deep_view()),
        outcome::deep_viewed(Err::<T, String>(message)) == Err::<T::V, Seq<char>>(message@),
{
}

/// Entries and records stand for all that they hold, in their order.
pub proof fn law_entries(
    map: StringMap<Json>,
    texts: StringMap<String>,
    found: Vec<StringMap<Json>>,
    message: String,
)
    ensures
        json::object_view(map).len() == map.entries@.len(),
        forall|i: int|
            0 <= i < map.entries@.len() ==> #[trigger] json::object_view(map)[i] == (
                map.entries@[i].0@,
                map.entries@[i].1@,
            ),
        records::text_map_view(texts).len() == texts.entries@.len(),
        forall|i: int|
            0 <= i < texts.entries@.len() ==> #[trigger] records::text_map_view(texts)[i] == (
                texts.entries@[i].0@,
                texts.entries@[i].1@,
            ),
        records::records_view(found@).len() == found@.len(),
        forall|i: int|
            0 <= i < found@.len() ==> #[trigger] records::records_view(found@)[i]
                == json::object_view(found@[i]),
        records::text_map_outcome(Ok(texts)) == Ok::<Seq<(Seq<char>, Seq<char>)>, Seq<char>>(
            records::text_map_view(texts),
        ),
        records::text_map_outcome(Err(message)) == Err::<Seq<(Seq<char>, Seq<char>)>, Seq<char>>(
            message@,
        ),
        records::records_outcome(Ok(found)) matches Ok(views) && views == records::records_view(
            found@,
        ),
        records::records_outcome(Err(message)) matches Err(e) && e == message@,
        adapter::tensors_outcome(Ok(map)) matches Ok(view) && view == json::object_view(map),
        adapter::tensors_outcome(Err(message)) matches Err(e) && e == message@,
{
}

/// A JSON value stands for what it holds, down to its items.
pub proof fn law_json_values(items: Vec<Json>, map: StringMap<Json>, s: String, b: bool, n: Number)
    ensures
        Json::Null@ is Null,
        Json::Bool(b)@ == JsonView::Bool(b),
        Json::Text(s)@ == JsonView::Text(s@),
        Json::Number(n)@ == JsonView::Number(n@),
        n matches Number::Unsigned(u) ==> n@ == NumberView::Unsigned(u),
        n matches Number::Signed(i) ==> n@ == NumberView::Signed(i),
        n matches Number::Float(digits) ==> n@ == NumberView::Float(digits@),
        Json::Array(items)@ matches JsonView::Array(views) && views.len() == items@.len()
            && forall|i: int| 0 <= i < items@.len() ==> #[trigger] views[i] == items@[i]@,
        Json::Object(map)@ == JsonView::Object(json::object_view(map)),
{
    json::lemma_array_view(items);
    json::lemma_object_view(map);
    let views = json::array_view(items@);
    assert forall|i: int| 0 <= i < items@.len() implies #[trigger] views[i] == items@[i]@ by {}
}

/// Model input, and input with its batch size, stand for all that they hold.
pub proof fn law_inputs(input: ParsedInput, batch: usize, tensor: InputTensor, message: String)
    ensures
        input.x matches Some(rows) ==> input@.x == Some(rows.deep_view()),
        input.x is None ==> input@.x is None,
        input.tensors matches Some(map) ==> input@.tensors == Some(json::object_view(map)),
        input.tensors is None ==> input@.tensors is None,
        input.meta matches Some(value) ==> input@.meta == Some(value@),
        input.meta is None ==> input@.meta is None,
        state::sized_view(Ok((input, batch))) matches Ok(sized) && sized == (input@, batch),
        state::sized_view(Err(message)) matches Err(e) && e == message@,
        tensor@.n_rows == tensor.n_rows,
        tensor@.n_cols == tensor.n_cols,
        tensor@.cells == tensor.cells.deep_view(),
{
}

/// Replies, routes and requests over HTTP stand for all that they hold.
pub proof fn law_http_values(
    reply: HttpReply,
    route: HttpRoute,
    request: PendingRequest,
    pending: PendingInference,
)
    ensures
        reply@.status == reply.status,
        reply@.body == reply.body@,
        match reply.body {
            HttpBody::Json(value) => reply.body@ == HttpBodyView::Json(value@),
            HttpBody::Text(body) => reply.body@ == HttpBodyView::Text(body@),
            HttpBody::Html(body) => reply.body@ == HttpBodyView::Html(body@),
            HttpBody::Typed { content_type, body } => reply.body@ == (HttpBodyView::Typed {
                content_type: content_type@,
                body: body@,
            }),
        },
        route@.method == route.method,
        route@.path == route.path@,
        route@.handler == route.handler,
        request@.content_type == request.content_type@,
        request@.accept == request.accept@,
        pending@.input == pending.input@,
        pending@.accept == pending.accept@,
{
}

/// Calls and replies over gRPC stand for all that they hold.
pub proof fn law_grpc_values(
    status: GrpcStatus,
    request: PredictRequest,
    pending: PendingPrediction,
    reply: PredictReply,
)
    ensures
        status@.code == status.code,
        status@.message == status.message@,
        request@.payload == request.payload@,
        request@.content_type == request.content_type@,
        request@.accept == request.accept@,
        pending@.input == pending.input@,
        pending@.batch == pending.batch,
        pending@.accept == pending.accept@,
        reply@.body == reply.body@,
        reply@.content_type == reply.content_type@,
        reply@.metadata == records::text_map_view(reply.metadata),
{
}

} // verus!
