//! Replies with predictions, headers and routes.

use crate::config::AppConfig;
use crate::http::{HttpHandler, HttpMethod, HttpRoute, HttpRouteView};
use crate::input::media;
use crate::input::output;
use crate::json;
use crate::json::{Json, JsonView};
use crate::outcome;
use crate::state;
use crate::state::AppState;
use crate::string_map;
use crate::text;
use vstd::prelude::*;
use vstd::utf8::encode_utf8;

verus! {

/// A reply with predictions is CSV if and only if that is asked for first and the
/// predictions are no object; any other is JSON, and never fails.
pub proof fn law_media_type_of_reply(
    cfg: AppConfig,
    predictions: JsonView,
    accept: Seq<char>,
)
    ensures
        ({
            let as_csv = !(predictions is Object) && media::is_csv(media::accepted_type(accept));
            let reply = state::reply_body(cfg, predictions, accept);
            &&& !as_csv ==> (reply matches Ok((_, content_type)) && content_type
                == "application/json"@)
            &&& as_csv ==> (reply matches Ok((_, content_type)) ==> content_type == "text/csv"@)
        }),
{
}

/// Predictions that are an object are the reply as they are, whatever is asked for.
pub proof fn law_objects_are_sent_as_they_are(
    cfg: AppConfig,
    predictions: JsonView,
    accept: Seq<char>,
)
    requires
        predictions is Object,
    ensures
        state::reply_body(cfg, predictions, accept) == Ok::<(Seq<u8>, Seq<char>), Seq<char>>(
            (encode_utf8(json::text_of_json(predictions)), "application/json"@),
        ),
{
}

/// Wrapped predictions stand under their key, and under no other.
pub proof fn law_wrapped_predictions_stand_under_their_key(
    predictions: JsonView,
    key: Seq<char>,
    other: Seq<char>,
)
    ensures
        json::member(output::wrapped(predictions, false, key), key) == Some(predictions),
        other != key ==> json::member(output::wrapped(predictions, false, key), other) is None,
        output::wrapped(predictions, true, key) == predictions,
{
    let entries = seq![(key, predictions)];
    assert(entries.drop_first() =~= Seq::empty());
    assert(string_map::lookup(entries.drop_first(), other) is None);
}

/// The usual header goes before its substitute, and the default stands in only where
/// neither has a text.
pub proof fn law_headers_go_in_order(
    values: Map<Seq<char>, Seq<u8>>,
    primary: Seq<char>,
    fallback: Seq<char>,
    default: Seq<char>,
)
    ensures
        crate::http::header_text(values, primary) matches Some(value)
            ==> crate::http::header_choice(values, primary, fallback, default) == value,
        crate::http::header_text(values, primary) is None && crate::http::is_header_name(fallback)
            ==> (crate::http::header_text(values, fallback) matches Some(value)
            ==> crate::http::header_choice(values, primary, fallback, default) == value),
        crate::http::header_text(values, primary) is None && crate::http::header_text(
            values,
            fallback,
        ) is None ==> crate::http::header_choice(values, primary, fallback, default) == default,
{
}

/// The handler is meant to answer the requests with the method and the path.
pub open spec fn answers(
    cfg: AppConfig,
    method: HttpMethod,
    path: Seq<char>,
    handler: HttpHandler,
) -> bool {
    &&& method == if handler is Invocations {
        HttpMethod::Post
    } else {
        HttpMethod::Get
    }
    &&& match handler {
        HttpHandler::Live => path == "/live"@ || path == "/healthz"@,
        HttpHandler::Ready => path == "/ready"@ || path == "/readyz"@ || path == "/ping"@,
        HttpHandler::Invocations => path == "/invocations"@,
        HttpHandler::OpenApi => cfg.swagger_enabled && path == "/openapi.yaml"@,
        HttpHandler::Docs => cfg.swagger_enabled && path == "/docs"@,
        HttpHandler::Metrics => cfg.prometheus_enabled && path == cfg.prometheus_path@,
    }
}

/// The routes of the service proper are there whatever the settings are; those of
/// the contract and of the metrics are there if and only if they are enabled. Each
/// route is for one method: invocations are posted, all else is got.
pub proof fn law_routes_follow_the_settings(
    cfg: AppConfig,
    method: HttpMethod,
    path: Seq<char>,
    handler: HttpHandler,
)
    ensures
        crate::http::all_routes(cfg).contains(HttpRouteView { method, path, handler }) <==> answers(
            cfg,
            method,
            path,
            handler,
        ),
{
    let service = crate::http::service_routes();
    let swagger = crate::http::swagger_routes(cfg);
    let metrics = crate::http::metrics_routes(cfg);
    let routes = crate::http::all_routes(cfg);
    let entry = HttpRouteView { method, path, handler };
    assert(routes.contains(entry) <==> service.contains(entry) || swagger.contains(entry)
        || metrics.contains(entry)) by {
        if service.contains(entry) {
            let i = choose|i: int| 0 <= i < service.len() && service[i] == entry;
            assert(routes[i] == entry);
        }
        if swagger.contains(entry) {
            let i = choose|i: int| 0 <= i < swagger.len() && swagger[i] == entry;
            assert(routes[service.len() + i] == entry);
        }
        if metrics.contains(entry) {
            let i = choose|i: int| 0 <= i < metrics.len() && metrics[i] == entry;
            assert(routes[service.len() + swagger.len() + i] == entry);
        }
        if routes.contains(entry) {
            let i = choose|i: int| 0 <= i < routes.len() && routes[i] == entry;
            if i < service.len() {
                assert(service[i] == entry);
            } else if i < service.len() + swagger.len() {
                assert(swagger[i - service.len()] == entry);
            } else {
                assert(metrics[i - service.len() - swagger.len()] == entry);
            }
        }
    }
    assert(service[0] == crate::http::get_route("/live"@, HttpHandler::Live));
    assert(service[1] == crate::http::get_route("/healthz"@, HttpHandler::Live));
    assert(service[2] == crate::http::get_route("/ready"@, HttpHandler::Ready));
    assert(service[3] == crate::http::get_route("/readyz"@, HttpHandler::Ready));
    assert(service[4] == crate::http::get_route("/ping"@, HttpHandler::Ready));
    assert(service[5] == crate::http::post_route("/invocations"@, HttpHandler::Invocations));
    if cfg.swagger_enabled {
        assert(swagger[0] == crate::http::get_route("/openapi.yaml"@, HttpHandler::OpenApi));
        assert(swagger[1] == crate::http::get_route("/docs"@, HttpHandler::Docs));
    }
    if cfg.prometheus_enabled {
        assert(metrics[0] == crate::http::get_route(cfg.prometheus_path@, HttpHandler::Metrics));
    }
}

/// Some route answers the requests with the method and the path.
pub open spec fn is_routed(cfg: AppConfig, method: HttpMethod, path: Seq<char>) -> bool {
    exists|handler: HttpHandler|
        crate::http::all_routes(cfg).contains(HttpRouteView { method, path, handler })
}

/// Which requests are routed: those for the paths of the service proper, for the
/// contract and its page where they are enabled, and for the metrics where they are
/// enabled, each by its one method; no others.
pub proof fn law_routed_requests(cfg: AppConfig, path: Seq<char>)
    ensures
        is_routed(cfg, HttpMethod::Post, path) <==> path == "/invocations"@,
        is_routed(cfg, HttpMethod::Get, path) <==> {
            ||| path == "/live"@
            ||| path == "/healthz"@
            ||| path == "/ready"@
            ||| path == "/readyz"@
            ||| path == "/ping"@
            ||| cfg.swagger_enabled && (path == "/openapi.yaml"@ || path == "/docs"@)
            ||| cfg.prometheus_enabled && path == cfg.prometheus_path@
        },
{
    let routes = crate::http::all_routes(cfg);
    assert forall|method: HttpMethod, handler: HttpHandler|
        #[trigger] routes.contains(HttpRouteView { method, path, handler }) <==> answers(
            cfg,
            method,
            path,
            handler,
        ) by {
        law_routes_follow_the_settings(cfg, method, path, handler);
    }
    assert(routes.contains(crate::http::get_route(path, HttpHandler::Live)) ==> is_routed(
        cfg,
        HttpMethod::Get,
        path,
    ));
    assert(routes.contains(crate::http::get_route(path, HttpHandler::Ready)) ==> is_routed(
        cfg,
        HttpMethod::Get,
        path,
    ));
    assert(routes.contains(crate::http::get_route(path, HttpHandler::OpenApi)) ==> is_routed(
        cfg,
        HttpMethod::Get,
        path,
    ));
    assert(routes.contains(crate::http::get_route(path, HttpHandler::Docs)) ==> is_routed(
        cfg,
        HttpMethod::Get,
        path,
    ));
    assert(routes.contains(crate::http::get_route(path, HttpHandler::Metrics)) ==> is_routed(
        cfg,
        HttpMethod::Get,
        path,
    ));
    assert(routes.contains(crate::http::post_route(path, HttpHandler::Invocations)) ==> is_routed(
        cfg,
        HttpMethod::Post,
        path,
    ));
}

/// CSV is asked for first.
pub open spec fn asks_for_csv(accept: Seq<char>) -> bool {
    let first = text::lower(text::trim(text::before(accept, ',')));
    first == "text/csv"@ || first == "application/csv"@
}

/// Predictions that are no object, where CSV is not asked for first, are sent as JSON and whole:
/// the body is the text of all of them, alone where they are to be sent alone, and else in an
/// object of the one key that the settings name.
pub proof fn law_predictions_are_sent_whole(
    state: &AppState,
    predictions: Json,
    accept: &str,
    r: Result<(Vec<u8>, String), String>,
)
    requires
        call_ensures(AppState::format_output, (state, predictions, accept), r),
        !(predictions@ is Object),
        !asks_for_csv(accept@),
    ensures
        r matches Ok((body, content_type)) && {
            &&& content_type@ == "application/json"@
            &&& state.cfg.predictions_only ==> body@ == encode_utf8(
                json::text_of_json(predictions@),
            )
            &&& !state.cfg.predictions_only ==> body@ == encode_utf8(
                json::text_of_json(
                    JsonView::Object(seq![(state.cfg.json_output_key@, predictions@)]),
                ),
            )
        },
        state::reply_body(state.cfg, predictions@, accept@) == Ok::<(Seq<u8>, Seq<char>), Seq<char>>(
            (
                encode_utf8(
                    json::text_of_json(
                        if state.cfg.predictions_only {
                            predictions@
                        } else {
                            JsonView::Object(seq![(state.cfg.json_output_key@, predictions@)])
                        },
                    ),
                ),
                "application/json"@,
            ),
        ),
{
}

/// Predictions that are an object are sent as JSON and as they are, whatever is asked for.
pub proof fn law_objects_are_sent_whole(
    state: &AppState,
    predictions: Json,
    accept: &str,
    r: Result<(Vec<u8>, String), String>,
)
    requires
        call_ensures(AppState::format_output, (state, predictions, accept), r),
        predictions@ is Object,
    ensures
        r matches Ok((body, content_type)) && content_type@ == "application/json"@ && body@
            == encode_utf8(json::text_of_json(predictions@)),
{
}

/// Predictions that are no object are sent as CSV where that is asked for first, with the
/// delimiter that the settings name; what cannot be written as CSV is refused.
pub proof fn law_csv_is_sent_where_it_is_asked_for(
    state: &AppState,
    predictions: Json,
    accept: &str,
    delimiter: &str,
    written: Result<String, String>,
    r: Result<(Vec<u8>, String), String>,
)
    requires
        call_ensures(AppState::format_output, (state, predictions, accept), r),
        call_ensures(output::format_csv_predictions, (&predictions, delimiter), written),
        delimiter@ == state.cfg.csv_delimiter@,
        !(predictions@ is Object),
        asks_for_csv(accept@),
    ensures
        match written {
            Ok(source) => r matches Ok((body, content_type)) && content_type@ == "text/csv"@
                && body@ == encode_utf8(source@),
            Err(reason) => r matches Err(message) && message@ == reason@,
        },
{
}

/// What comes of a prediction is its reply, or its error.
pub proof fn law_answers_are_replies(
    state: &AppState,
    prediction: Result<Json, String>,
    accept: &str,
    reply: Result<(Vec<u8>, String), String>,
    r: Result<(Vec<u8>, String), String>,
)
    requires
        call_ensures(AppState::answer, (state, prediction, accept), r),
        prediction matches Ok(predictions) ==> call_ensures(
            AppState::format_output,
            (state, predictions, accept),
            reply,
        ),
    ensures
        match prediction {
            Ok(_) => outcome::viewed(r) == outcome::viewed(reply),
            Err(reason) => r matches Err(message) && message@ == reason@,
        },
{
}

/// Predictions go into a reply alone, or in an object under the one key, as the settings say.
pub proof fn law_predictions_are_wrapped(predictions: Json, cfg: &AppConfig, r: Json)
    requires
        call_ensures(output::wrap_predictions_if_needed, (predictions, cfg), r),
    ensures
        cfg.predictions_only ==> r@ == predictions@,
        !cfg.predictions_only ==> r@ == JsonView::Object(
            seq![(cfg.json_output_key@, predictions@)],
        ),
{
}

/// The text of a value in a cell, by the kind of the value.
pub proof fn law_cells(value: &Json, r: String)
    requires
        call_ensures(output::value_to_string, (value,), r),
    ensures
        r@ == output::cell_text(value@),
        value@ is Null ==> r@.len() == 0,
        value@ == JsonView::Bool(true) ==> r@ == "true"@,
        value@ == JsonView::Bool(false) ==> r@ == "false"@,
        value@ matches JsonView::Number(number) ==> r@ == json::number_text(number),
        value@ matches JsonView::Text(s) ==> r@ == s,
        value@ is Array || value@ is Object ==> r@ == json::text_of_json(value@),
{
}

/// An array that begins with an array is written as CSV if and only if all its items are
/// arrays: one line for each of them, in their order, and in it one cell for each of its items,
/// with the delimiter between them.
pub proof fn law_rows_are_written_as_lines(
    predictions: &Json,
    delimiter: &str,
    rows: Seq<JsonView>,
    lines: Seq<Seq<char>>,
    r: Result<String, String>,
)
    requires
        call_ensures(output::format_csv_predictions, (predictions, delimiter), r),
        predictions@ == JsonView::Array(rows),
        rows.len() > 0,
        rows[0] is Array,
        lines.len() == rows.len(),
        forall|i: int|
            0 <= i < rows.len() ==> (#[trigger] rows[i] matches JsonView::Array(cells) ==> lines[i]
                == text::join(
                cells.map_values(|cell: JsonView| output::cell_text(cell)),
                delimiter@,
            )),
    ensures
        match r {
            Ok(source) => {
                &&& forall|i: int| 0 <= i < rows.len() ==> #[trigger] rows[i] is Array
                &&& source@ == text::join(lines, seq!['\n'])
            },
            Err(message) => {
                &&& !forall|i: int| 0 <= i < rows.len() ==> #[trigger] rows[i] is Array
                &&& message@ == "expected csv row array"@
            },
        },
{
    reveal_strlit("\n");
    assert("\n"@ =~= seq!['\n']);
    let outcomes = rows.map_values(|row: JsonView| output::csv_row_text(row, delimiter@));
    outcome::lemma_collect_is_ok(outcomes);
    outcome::lemma_collected(outcomes);
    lemma_row_error(rows, delimiter@);
    assert forall|i: int| 0 <= i < rows.len() implies (#[trigger] outcomes[i] is Ok
        <==> rows[i] is Array) by {}
    if forall|i: int| 0 <= i < rows.len() ==> #[trigger] rows[i] is Array {
        assert forall|i: int| 0 <= i < outcomes.len() implies #[trigger] outcomes[i] == Ok::<
            Seq<char>,
            Seq<char>,
        >(lines[i]) by {
            assert(rows[i] is Array);
        }
        outcome::lemma_collect_values(outcomes, lines);
    } else if outcome::collect(outcomes) is Ok {
        assert forall|i: int| 0 <= i < rows.len() implies #[trigger] rows[i] is Array by {
            assert(outcomes[i] is Ok);
        }
    }
}

/// Rows that are no arrays have the one error.
proof fn lemma_row_error(rows: Seq<JsonView>, delimiter: Seq<char>)
    ensures
        outcome::collect(
            rows.map_values(|row: JsonView| output::csv_row_text(row, delimiter)),
        ) matches Err(message) ==> message == "expected csv row array"@,
    decreases rows.len(),
{
    let outcomes = rows.map_values(|row: JsonView| output::csv_row_text(row, delimiter));
    if rows.len() > 0 {
        lemma_row_error(rows.drop_last(), delimiter);
        assert(outcomes.drop_last() =~= rows.drop_last().map_values(
            |row: JsonView| output::csv_row_text(row, delimiter),
        ));
        assert(outcomes.last() == output::csv_row_text(rows.last(), delimiter));
    }
}

/// Any other array is written as one line for each of its items, in their order, and any other
/// value as one cell; neither is ever refused, and the delimiter makes no difference.
pub proof fn law_other_values_are_written_as_cells(
    predictions: &Json,
    delimiter: &str,
    r: Result<String, String>,
)
    requires
        call_ensures(output::format_csv_predictions, (predictions, delimiter), r),
        predictions@ matches JsonView::Array(items) ==> items.len() == 0 || !(items[0] is Array),
    ensures
        r matches Ok(source) && match predictions@ {
            JsonView::Array(items) => source@ == text::join(
                items.map_values(|item: JsonView| output::cell_text(item)),
                seq!['\n'],
            ),
            _ => source@ == output::cell_text(predictions@),
        },
{
    reveal_strlit("\n");
    assert("\n"@ =~= seq!['\n']);
}

/// The body of a JSON reply is the text of its value.
pub proof fn law_json_bodies(value: &Json, r: Result<(Vec<u8>, String), String>)
    requires
        call_ensures(state::json_body, (value,), r),
    ensures
        r matches Ok((body, content_type)) && content_type@ == "application/json"@ && body@
            == encode_utf8(json::text_of_json(value@)),
{
}

/// The routes that are built are those of the service proper, those of the contract and its page
/// where they are enabled, and that of the metrics where they are enabled, under the path that
/// the settings name; each once, and each with its method and what answers it.
pub proof fn law_built_routes(cfg: &AppConfig, r: Vec<HttpRoute>, route: HttpRouteView)
    requires
        call_ensures(crate::http::build_http_router, (cfg,), r),
    ensures
        (exists|i: int| 0 <= i < r@.len() && (#[trigger] r@[i])@ == route) <==> answers(
            *cfg,
            route.method,
            route.path,
            route.handler,
        ),
        r@.len() == 6 + (if cfg.swagger_enabled {
            2int
        } else {
            0
        }) + (if cfg.prometheus_enabled {
            1int
        } else {
            0
        }),
{
    let views = crate::http::routes_view(r@);
    let routes = crate::http::all_routes(*cfg);
    law_routes_follow_the_settings(*cfg, route.method, route.path, route.handler);
    assert(route == (HttpRouteView {
        method: route.method,
        path: route.path,
        handler: route.handler,
    }));
    if routes.contains(route) {
        let i = choose|i: int| 0 <= i < routes.len() && routes[i] == route;
        assert(views[i] == r@[i]@);
    }
    if exists|i: int| 0 <= i < r@.len() && (#[trigger] r@[i])@ == route {
        let i = choose|i: int| 0 <= i < r@.len() && (#[trigger] r@[i])@ == route;
        assert(views[i] == r@[i]@);
        assert(routes.contains(routes[i]));
    }
}

/// Invocations are posted; all else is got.
pub proof fn law_methods(handler: HttpHandler, r: HttpMethod)
    requires
        call_ensures(crate::http::method_of, (handler,), r),
    ensures
        handler == HttpHandler::Invocations ==> r == HttpMethod::Post,
        handler != HttpHandler::Invocations ==> r == HttpMethod::Get,
{
}

} // verus!
