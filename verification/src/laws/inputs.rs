//! From a payload to model input.

use crate::adapter;
use crate::config::AppConfig;
use crate::input::columns;
use crate::input::csv;
use crate::input::media;
use crate::input::parsed;
use crate::input::parsed::ParsedInput;
use crate::input::records;
use crate::input::records::{RecordView, TextMapView};
use crate::input::tabular;
use crate::json;
use crate::json::{Json, JsonView, NumberView};
use crate::laws;
use crate::numeral;
use crate::outcome;
use crate::state;
use crate::state::AppState;
use crate::string_map;
use crate::string_map::StringMap;
use crate::text;
use vstd::prelude::*;
use vstd::utf8::{decode_utf8, valid_utf8};

verus! {

/// What a request states of its payload, without parameters and white space and in lower case.
pub open spec fn bare_type(content_type: Seq<char>) -> Seq<char> {
    text::lower(text::trim(text::before(content_type, ';')))
}

/// The media type is one of those of JSON.
pub open spec fn names_document(content_type: Seq<char>) -> bool {
    ||| bare_type(content_type) == "application/json"@
    ||| bare_type(content_type) == "application/*+json"@
}

/// The media type is one of those of JSON lines.
pub open spec fn names_lines(content_type: Seq<char>) -> bool {
    ||| bare_type(content_type) == "application/jsonlines"@
    ||| bare_type(content_type) == "application/x-jsonlines"@
    ||| bare_type(content_type) == "application/jsonl"@
    ||| bare_type(content_type) == "application/x-ndjson"@
}

/// The media type is one of those of CSV.
pub open spec fn names_csv(content_type: Seq<char>) -> bool {
    ||| bare_type(content_type) == "text/csv"@
    ||| bare_type(content_type) == "application/csv"@
}

/// The setting holds the map from record keys to model inputs.
pub open spec fn maps_inputs(setting: Seq<char>, input_map: TextMapView) -> bool {
    &&& text::trim(setting).len() > 0
    &&& json::json_of_text(text::trim(setting)) == Ok::<JsonView, Seq<char>>(
        JsonView::Object(
            input_map.map_values(
                |entry: (Seq<char>, Seq<char>)| (entry.0, JsonView::Text(entry.1)),
            ),
        ),
    )
}

/// The payload is a text whose lines, blank ones left out, hold the records, one each.
pub open spec fn lines_hold(payload: Seq<u8>, fields: Seq<RecordView>) -> bool {
    &&& valid_utf8(payload)
    &&& text::filled_lines(decode_utf8(payload)).len() == fields.len()
    &&& forall|i: int|
        0 <= i < fields.len() ==> json::json_of_text(
            #[trigger] text::filled_lines(decode_utf8(payload))[i],
        ) == Ok::<JsonView, Seq<char>>(JsonView::Object(fields[i]))
}

/// The payload is a JSON document that holds the records: an object for one, or an array of
/// objects, either alone or under the key for instances.
pub open spec fn document_holds(
    payload: Seq<u8>,
    instances_key: Seq<char>,
    fields: Seq<RecordView>,
) -> bool {
    json::json_of_bytes(payload) matches Ok(document) && exists|scope: JsonView|
        {
            &&& #[trigger] stands_for(scope, fields)
            &&& match document {
                JsonView::Object(entries) => match string_map::lookup(entries, instances_key) {
                    Some(instances) => scope == instances,
                    None => scope == document,
                },
                _ => scope == document,
            }
        }
}

/// The value is the one record, or the array of the records.
pub open spec fn stands_for(scope: JsonView, fields: Seq<RecordView>) -> bool {
    match scope {
        JsonView::Object(entries) => fields == seq![entries],
        JsonView::Array(items) => items.len() == fields.len() && forall|i: int|
            0 <= i < items.len() ==> #[trigger] items[i] == JsonView::Object(fields[i]),
        _ => false,
    }
}

/// The model input has no rows, and a tensor of the values of the records for each mapped input.
pub open spec fn holds_records(
    input: ParsedInput,
    fields: Seq<RecordView>,
    input_map: TextMapView,
) -> bool {
    &&& input@.x is None
    &&& input@.tensors matches Some(tensors) && laws::records::holds_tensors(
        tensors,
        fields,
        input_map,
    )
    &&& input@.meta == Some(
        JsonView::Object(
            seq![
                ("mode"@, JsonView::Text("onnx_multi_input"@)),
                ("records"@, JsonView::Number(NumberView::Unsigned(fields.len() as u64))),
            ],
        ),
    )
}

/// A setting that holds a map is read as that map.
proof fn lemma_setting(setting: Seq<char>, input_map: TextMapView)
    ensures
        maps_inputs(setting, input_map) ==> records::setting_map(setting) == Ok::<
            TextMapView,
            Seq<char>,
        >(input_map),
{
    if maps_inputs(setting, input_map) {
        let entries = input_map.map_values(
            |entry: (Seq<char>, Seq<char>)| (entry.0, JsonView::Text(entry.1)),
        );
        let outcomes = entries.map_values(
            |entry: (Seq<char>, JsonView)| records::text_entry(entry),
        );
        assert forall|i: int| 0 <= i < outcomes.len() implies #[trigger] outcomes[i] == Ok::<
            (Seq<char>, Seq<char>),
            Seq<char>,
        >(input_map[i]) by {
            assert(entries[i] == (input_map[i].0, JsonView::Text(input_map[i].1)));
        }
        outcome::lemma_collect_values(outcomes, input_map);
    }
}

/// A payload that holds records is read as these.
proof fn lemma_payload_records(
    cfg: AppConfig,
    payload: Seq<u8>,
    content_type: Seq<char>,
    fields: Seq<RecordView>,
)
    ensures
        ({
            ||| names_lines(content_type) && lines_hold(payload, fields)
            ||| names_document(content_type) && document_holds(
                payload,
                cfg.json_key_instances@,
                fields,
            )
        }) ==> records::payload_records(payload, bare_type(content_type), cfg) == Ok::<
            Seq<RecordView>,
            Seq<char>,
        >(fields),
{
    laws::media::law_kinds_exclude_each_other(bare_type(content_type));
    if names_lines(content_type) && lines_hold(payload, fields) {
        laws::records::lemma_records_of_lines(text::filled_lines(decode_utf8(payload)), fields);
    }
    if names_document(content_type) && document_holds(payload, cfg.json_key_instances@, fields) {
        let document = json::json_of_bytes(payload)->Ok_0;
        let scope = records::scoped_records(document, cfg.json_key_instances@);
        assert(stands_for(scope, fields));
        if let JsonView::Array(items) = scope {
            let outcomes = items.map_values(|item: JsonView| records::record(item));
            assert forall|i: int| 0 <= i < outcomes.len() implies #[trigger] outcomes[i] == Ok::<
                RecordView,
                Seq<char>,
            >(fields[i]) by {
                assert(items[i] == JsonView::Object(fields[i]));
            }
            outcome::lemma_collect_values(outcomes, fields);
        }
    }
}

/// With a map of model inputs, a payload of JSON or of JSON lines whose records have every
/// mapped field gives model input whose tensor under each mapped name holds the values of the
/// records under its key, in their order. So it is for every media type of JSON and every one
/// of JSON lines, written in any case and with any parameters.
pub proof fn law_records_become_tensors(
    cfg: AppConfig,
    payload: Seq<u8>,
    content_type: Seq<char>,
    fields: Seq<RecordView>,
    input_map: TextMapView,
)
    requires
        cfg.input_mode@ == "tabular"@,
        input_map.len() > 0,
        0 < fields.len() <= usize::MAX,
        laws::records::complete(fields, input_map),
    ensures
        maps_inputs(cfg.onnx_input_map_json@, input_map) && ({
            ||| names_lines(content_type) && lines_hold(payload, fields)
            ||| names_document(content_type) && document_holds(
                payload,
                cfg.json_key_instances@,
                fields,
            )
        }) ==> state::payload_fits(cfg, payload, content_type) && (state::model_input(
            cfg,
            payload,
            content_type,
        ) matches Ok(input) && {
            &&& input.x is None
            &&& input.tensors matches Some(tensors) && laws::records::holds_tensors(
                tensors,
                fields,
                input_map,
            )
            &&& parsed::batch(input) == Ok::<usize, Seq<char>>(fields.len() as usize)
        }),
{
    lemma_setting(cfg.onnx_input_map_json@, input_map);
    lemma_payload_records(cfg, payload, content_type, fields);
    laws::records::lemma_tensors(fields, input_map, cfg.onnx_dynamic_batch);
    laws::batches::law_batch_of_records(cfg, fields, input_map);
}

/// The same of the model input that is handed on, whether or not rows are looked at first.
pub proof fn law_records_are_handed_on_as_tensors(
    state: &AppState,
    payload: &[u8],
    content_type: &str,
    fields: Seq<RecordView>,
    input_map: TextMapView,
    r: Result<ParsedInput, String>,
    q: Option<Result<ParsedInput, String>>,
)
    requires
        call_ensures(AppState::parse_payload, (state, payload, content_type), r),
        call_ensures(AppState::try_parse_payload, (state, payload, content_type), q),
        state.cfg.input_mode@ == "tabular"@,
        input_map.len() > 0,
        0 < fields.len() <= usize::MAX,
        laws::records::complete(fields, input_map),
    ensures
        maps_inputs(state.cfg.onnx_input_map_json@, input_map) && ({
            ||| names_lines(content_type@) && lines_hold(payload@, fields)
            ||| names_document(content_type@) && document_holds(
                payload@,
                state.cfg.json_key_instances@,
                fields,
            )
        }) ==> {
            &&& r matches Ok(input) && holds_records(input, fields, input_map)
            &&& q matches Some(Ok(input)) && holds_records(input, fields, input_map)
        },
{
    lemma_setting(state.cfg.onnx_input_map_json@, input_map);
    lemma_payload_records(state.cfg, payload@, content_type@, fields);
    laws::records::lemma_tensors(fields, input_map, state.cfg.onnx_dynamic_batch);
}

/// Records that lack a mapped field, and payloads that hold none, are refused; neither is read
/// as a table.
pub proof fn law_bad_records_are_refused(
    state: &AppState,
    payload: &[u8],
    content_type: &str,
    fields: Seq<RecordView>,
    input_map: TextMapView,
    q: Option<Result<ParsedInput, String>>,
)
    requires
        call_ensures(AppState::try_parse_payload, (state, payload, content_type), q),
        state.cfg.input_mode@ == "tabular"@,
        input_map.len() > 0,
        fields.len() <= usize::MAX,
        !laws::records::complete(fields, input_map) || fields.len() == 0,
    ensures
        maps_inputs(state.cfg.onnx_input_map_json@, input_map) && ({
            ||| names_lines(content_type@) && lines_hold(payload@, fields)
            ||| names_document(content_type@) && document_holds(
                payload@,
                state.cfg.json_key_instances@,
                fields,
            )
        }) ==> (q matches Some(Err(message)) && (fields.len() == 0 ==> message@
            == "ONNX multi-input mode expects a JSON object or a non-empty list of objects"@)),
{
    lemma_setting(state.cfg.onnx_input_map_json@, input_map);
    lemma_payload_records(state.cfg, payload@, content_type@, fields);
    laws::records::lemma_tensors(fields, input_map, state.cfg.onnx_dynamic_batch);
}

/// The input of records: none for none, and else their tensors, with how they were read and
/// their number beside them; the error of the tensors is the error of all.
pub proof fn law_input_of_records(
    state: &AppState,
    fields: &Vec<StringMap<Json>>,
    input_map: &StringMap<String>,
    slice: &[StringMap<Json>],
    tensors: Result<StringMap<Json>, String>,
    r: Result<ParsedInput, String>,
)
    requires
        call_ensures(AppState::records_to_input, (state, fields, input_map), r),
        call_ensures(
            adapter::build_onnx_tensors,
            (slice, input_map, state.cfg.onnx_dynamic_batch),
            tensors,
        ),
        slice@ == fields@,
    ensures
        if fields@.len() == 0 {
            r matches Err(message) && message@
                == "ONNX multi-input mode expects a JSON object or a non-empty list of objects"@
        } else {
            match tensors {
                Ok(map) => r matches Ok(input) && {
                    &&& input@.x is None
                    &&& input@.tensors == Some(json::object_view(map))
                    &&& input@.meta == Some(
                        JsonView::Object(
                            seq![
                                ("mode"@, JsonView::Text("onnx_multi_input"@)),
                                (
                                    "records"@,
                                    JsonView::Number(
                                        NumberView::Unsigned(fields@.len() as u64),
                                    ),
                                ),
                            ],
                        ),
                    )
                },
                Err(reason) => r matches Err(message) && message@ == reason@,
            }
        },
{
}

/// The input of a payload of records is that of its records; their error is the error of all.
pub proof fn law_input_of_a_payload_of_records(
    state: &AppState,
    payload: &[u8],
    content_type: &str,
    input_map: &StringMap<String>,
    read: Result<Vec<StringMap<Json>>, String>,
    fields: &Vec<StringMap<Json>>,
    input: Result<ParsedInput, String>,
    r: Result<ParsedInput, String>,
)
    requires
        call_ensures(
            AppState::parse_onnx_multi_input,
            (state, payload, content_type, input_map),
            r,
        ),
        call_ensures(
            records::load_multi_input_records,
            (payload, content_type, &state.cfg),
            read,
        ),
        call_ensures(AppState::records_to_input, (state, fields, input_map), input),
    ensures
        match read {
            Ok(out) => records::records_view(out@) == records::records_view(fields@)
                ==> outcome::viewed(r) == outcome::viewed(input),
            Err(reason) => r matches Err(message) && message@ == reason@,
        },
{
}

/// Which reader the rows of a payload come from, by its media type; a type that is not known
/// is refused as it was stated.
pub proof fn law_rows_by_media_type(
    state: &AppState,
    payload: &[u8],
    media_type: &str,
    stated: &str,
    table: Result<Vec<Vec<String>>, String>,
    document: Result<Vec<Vec<String>>, String>,
    lines: Result<Vec<Vec<String>>, String>,
    r: Result<Vec<Vec<String>>, String>,
)
    requires
        call_ensures(AppState::parse_tabular_matrix, (state, payload, media_type, stated), r),
        call_ensures(csv::parse_csv_rows, (payload, &state.cfg), table),
        call_ensures(tabular::parse_json_rows, (payload, &state.cfg), document),
        call_ensures(tabular::parse_jsonl_rows, (payload, &state.cfg), lines),
    ensures
        media_type@ == "text/csv"@ || media_type@ == "application/csv"@ ==> outcome::deep_viewed(r)
            == outcome::deep_viewed(table),
        media_type@ == "application/json"@ || media_type@ == "application/*+json"@
            ==> outcome::deep_viewed(r) == outcome::deep_viewed(document),
        media_type@ == "application/jsonlines"@ || media_type@ == "application/x-jsonlines"@
            || media_type@ == "application/jsonl"@ || media_type@ == "application/x-ndjson"@
            ==> outcome::deep_viewed(r) == outcome::deep_viewed(lines),
        ({
            &&& media_type@ != "text/csv"@
            &&& media_type@ != "application/csv"@
            &&& media_type@ != "application/json"@
            &&& media_type@ != "application/*+json"@
            &&& media_type@ != "application/jsonlines"@
            &&& media_type@ != "application/x-jsonlines"@
            &&& media_type@ != "application/jsonl"@
            &&& media_type@ != "application/x-ndjson"@
        }) ==> (r matches Err(message) && message@ == "Unsupported Content-Type: "@ + stated@),
{
    laws::media::law_kinds_exclude_each_other(media_type@);
}

/// The input of a matrix has the chosen columns of its rows and nothing else; a matrix of the
/// wrong shape is refused before any column is chosen.
pub proof fn law_input_of_a_matrix(
    state: &AppState,
    matrix: Vec<Vec<String>>,
    slice: &[Vec<String>],
    shape: Result<(), String>,
    chosen: Result<Vec<Vec<String>>, String>,
    r: Result<ParsedInput, String>,
)
    requires
        call_ensures(AppState::matrix_to_input, (state, matrix), r),
        call_ensures(
            columns::validate_tabular_matrix_shape::<String>,
            (slice, &state.cfg),
            shape,
        ),
        slice@ == matrix@,
        call_ensures(columns::apply_feature_selection, (matrix, &state.cfg), chosen),
    ensures
        match (shape, chosen) {
            (Err(reason), _) => r matches Err(message) && message@ == reason@,
            (Ok(()), Err(reason)) => r matches Err(message) && message@ == reason@,
            (Ok(()), Ok(rows)) => r matches Ok(input) && {
                &&& input@.x == Some(rows.deep_view())
                &&& input@.tensors is None
                &&& input@.meta is None
            },
        },
{
    assert(matrix.deep_view().len() == matrix@.len());
    if matrix@.len() > 0 {
        assert(matrix.deep_view()[0] == matrix@[0].deep_view());
    }
}

/// Records are read from a payload if and only if the settings map any model inputs and the
/// payload is of a media type of JSON or of JSON lines: then its input is that of its records.
pub proof fn law_which_payloads_hold_records(
    state: &AppState,
    payload: &[u8],
    content_type: &str,
    media_type: &str,
    setting: &str,
    input_map: StringMap<String>,
    input: Result<ParsedInput, String>,
    r: Result<ParsedInput, String>,
    q: Option<Result<ParsedInput, String>>,
)
    requires
        call_ensures(AppState::parse_payload, (state, payload, content_type), r),
        call_ensures(AppState::try_parse_payload, (state, payload, content_type), q),
        call_ensures(records::load_json_map, (setting,), Ok(input_map)),
        call_ensures(
            AppState::parse_onnx_multi_input,
            (state, payload, media_type, &input_map),
            input,
        ),
        setting@ == state.cfg.onnx_input_map_json@,
        media_type@ == bare_type(content_type@),
        state.cfg.input_mode@ == "tabular"@,
        input_map.entries@.len() > 0,
        names_lines(content_type@) || names_document(content_type@),
    ensures
        outcome::viewed(r) == outcome::viewed(input),
        q matches Some(outcome) && outcome::viewed(outcome) == outcome::viewed(input),
{
    assert(records::text_map_view(input_map).len() == input_map.entries@.len());
}

/// Any other payload is a table: its input is that of its matrix, by its media type. There is
/// no input at all if and only if the shape of the matrix is accepted and some row lacks a
/// chosen column.
pub proof fn law_other_payloads_are_tables(
    state: &AppState,
    payload: &[u8],
    content_type: &str,
    media_type: &str,
    setting: &str,
    input_map: StringMap<String>,
    matrix: Result<Vec<Vec<String>>, String>,
    slice: &[Vec<String>],
    shape: Result<(), String>,
    fits: bool,
    input: Result<ParsedInput, String>,
    r: Result<ParsedInput, String>,
    q: Option<Result<ParsedInput, String>>,
)
    requires
        call_ensures(AppState::parse_payload, (state, payload, content_type), r),
        call_ensures(AppState::try_parse_payload, (state, payload, content_type), q),
        call_ensures(records::load_json_map, (setting,), Ok(input_map)),
        call_ensures(
            AppState::parse_tabular_matrix,
            (state, payload, media_type, content_type),
            matrix,
        ),
        setting@ == state.cfg.onnx_input_map_json@,
        media_type@ == bare_type(content_type@),
        state.cfg.input_mode@ == "tabular"@,
        input_map.entries@.len() == 0 || !names_lines(content_type@) && !names_document(
            content_type@,
        ),
        matrix matches Ok(rows) ==> {
            &&& slice@ == rows@
            &&& call_ensures(
                columns::validate_tabular_matrix_shape::<String>,
                (slice, &state.cfg),
                shape,
            )
            &&& call_ensures(columns::columns_fit, (&rows, &state.cfg), fits)
            &&& call_ensures(AppState::matrix_to_input, (state, rows), input)
        },
    ensures
        match matrix {
            Ok(_) => {
                &&& outcome::viewed(r) == outcome::viewed(input)
                &&& q is Some <==> shape is Err || fits
                &&& q matches Some(outcome) ==> outcome::viewed(outcome) == outcome::viewed(input)
            },
            Err(reason) => {
                &&& r matches Err(message) && message@ == reason@
                &&& q matches Some(Err(message)) && message@ == reason@
            },
        },
{
    assert(records::text_map_view(input_map).len() == input_map.entries@.len());
    if let Ok(rows) = matrix {
        assert(rows.deep_view().len() == rows@.len());
        if rows@.len() > 0 {
            assert(rows.deep_view()[0] == rows@[0].deep_view());
        }
    }
}

/// A mode other than `tabular` is refused before anything is read, and a map of model inputs
/// that cannot be read before the payload is, each with its own text.
pub proof fn law_settings_come_first(
    state: &AppState,
    payload: &[u8],
    content_type: &str,
    setting: &str,
    mode: Result<(), String>,
    map: Result<StringMap<String>, String>,
    r: Result<ParsedInput, String>,
    q: Option<Result<ParsedInput, String>>,
)
    requires
        call_ensures(AppState::parse_payload, (state, payload, content_type), r),
        call_ensures(AppState::try_parse_payload, (state, payload, content_type), q),
        call_ensures(media::validate_input_mode, (&state.cfg,), mode),
        call_ensures(records::load_json_map, (setting,), map),
        setting@ == state.cfg.onnx_input_map_json@,
    ensures
        mode matches Err(reason) ==> (r matches Err(message) && message@ == reason@) && (
        q matches Some(Err(message)) && message@ == reason@),
        mode is Ok ==> (map matches Err(reason) ==> (r matches Err(message) && message@ == reason@)
            && (q matches Some(Err(message)) && message@ == reason@)),
{
}

/// The input of a request is that of its payload together with its batch size, where that is
/// no more than the limit; a larger batch is refused with both numbers.
pub proof fn law_batches_are_limited(
    state: &AppState,
    input: ParsedInput,
    batch: Result<usize, String>,
    r: Result<(ParsedInput, usize), String>,
)
    requires
        call_ensures(AppState::limit_records, (state, input), r),
        call_ensures(ParsedInput::batch_size, (&input,), batch),
    ensures
        match batch {
            Ok(size) => if size <= state.cfg.max_records {
                r matches Ok((same, count)) && same@ == input@ && count == size
            } else {
                r matches Err(message) && message@ == "too_many_records: "@ + numeral::decimal(
                    size as nat,
                ) + " > "@ + numeral::decimal(state.cfg.max_records as nat)
            },
            Err(reason) => r matches Err(message) && message@ == reason@,
        },
{
}

/// A request is read as its payload is, and then limited.
pub proof fn law_requests_are_limited_payloads(
    state: &AppState,
    payload: &[u8],
    content_type: &str,
    read: Option<Result<ParsedInput, String>>,
    input: ParsedInput,
    limited: Result<(ParsedInput, usize), String>,
    r: Option<Result<(ParsedInput, usize), String>>,
)
    requires
        call_ensures(AppState::read_request, (state, payload, content_type), r),
        call_ensures(AppState::try_parse_payload, (state, payload, content_type), read),
        call_ensures(AppState::limit_records, (state, input), limited),
    ensures
        match read {
            None => r is None,
            Some(Err(reason)) => r matches Some(Err(message)) && message@ == reason@,
            Some(Ok(found)) => found@ == input@ ==> match limited {
                Ok((same, batch)) => r matches Some(Ok((taken, size))) && taken@ == same@ && size
                    == batch,
                Err(reason) => r matches Some(Err(message)) && message@ == reason@,
            },
        },
{
}

/// The batch size of input with rows is their number, whatever else it has.
pub proof fn law_batch_of_rows(
    input: &ParsedInput,
    rows: Vec<Vec<String>>,
    r: Result<usize, String>,
)
    requires
        call_ensures(ParsedInput::batch_size, (input,), r),
        input.x == Some(rows),
    ensures
        r matches Ok(size) && size == rows@.len(),
{
    assert(rows.len() == rows@.len());
    assert(rows.deep_view().len() == rows@.len());
}

/// The batch size of input without rows is the one length of all its tensors: each of them
/// must be an array, and there must be one at least, and none may be empty.
pub proof fn law_batch_of_tensors(
    input: &ParsedInput,
    tensors: RecordView,
    lengths: &[usize],
    verdict: Result<(), String>,
    r: Result<usize, String>,
)
    requires
        call_ensures(ParsedInput::batch_size, (input,), r),
        call_ensures(parsed::validate_dynamic_batch_sizes, (lengths,), verdict),
        input@.x is None,
        input@.tensors == Some(tensors),
        lengths@.len() == tensors.len(),
        forall|i: int|
            0 <= i < tensors.len() ==> ((#[trigger] tensors[i]).1 matches JsonView::Array(items)
                ==> items.len() == lengths@[i]),
    ensures
        if exists|i: int| 0 <= i < tensors.len() && !((#[trigger] tensors[i]).1 is Array) {
            r matches Err(message) && message@ == "ONNX input tensor must be array-like"@
        } else if tensors.len() == 0 {
            r matches Err(message) && message@ == "Parsed input contained no features/tensors"@
        } else {
            match verdict {
                Ok(()) => r matches Ok(size) && size == lengths@[0],
                Err(reason) => r matches Err(message) && message@ == reason@,
            }
        },
{
    let sizes = tensors.map_values(|entry: (Seq<char>, JsonView)| parsed::tensor_size(entry.1));
    if forall|i: int| 0 <= i < tensors.len() ==> (#[trigger] tensors[i]).1 is Array {
        assert forall|i: int| 0 <= i < tensors.len() implies sizes[i] == lengths@[i] by {
            assert(tensors[i].1 is Array);
        }
        assert(sizes =~= lengths@);
    }
}

/// Input with neither rows nor tensors has no batch size.
pub proof fn law_no_batch_of_nothing(input: &ParsedInput, r: Result<usize, String>)
    requires
        call_ensures(ParsedInput::batch_size, (input,), r),
        input.x is None,
        input.tensors is None,
    ensures
        r matches Err(message) && message@ == "Parsed input contained no features/tensors"@,
{
}

/// Batch sizes are accepted if and only if there are some, none of them is zero, and all are
/// the same; sizes that differ are named in the error, in their order.
pub proof fn law_batch_sizes(sizes: &[usize], r: Result<(), String>)
    requires
        call_ensures(parsed::validate_dynamic_batch_sizes, (sizes,), r),
    ensures
        r is Ok <==> {
            &&& sizes@.len() > 0
            &&& forall|i: int| 0 <= i < sizes@.len() ==> #[trigger] sizes@[i] != 0
            &&& forall|i: int, j: int|
                0 <= i < sizes@.len() && 0 <= j < sizes@.len() ==> #[trigger] sizes@[i]
                    == #[trigger] sizes@[j]
        },
        r matches Err(message) ==> message@ == if sizes@.len() == 0 || sizes@.contains(0) {
            "ONNX_DYNAMIC_BATCH enabled but batch dimension invalid"@
        } else {
            "ONNX inputs have mismatched batch sizes: "@ + ("["@ + text::join(
                sizes@.map_values(|size: usize| numeral::decimal(size as nat)),
                ", "@,
            ) + "]"@)
        },
{
    laws::batches::law_batch_sizes_agree(sizes@);
}

/// There is always a permit to be had: as many as the settings say, and one where they say
/// none.
pub proof fn law_permits(cfg: AppConfig, state: AppState, permits: usize)
    requires
        call_ensures(AppState::new, (cfg,), state),
        call_ensures(AppState::inflight_permits, (&state,), permits),
    ensures
        permits >= 1,
        cfg.max_inflight >= 1 ==> permits == cfg.max_inflight,
        cfg.max_inflight == 0 ==> permits == 1,
{
}

} // verus!
