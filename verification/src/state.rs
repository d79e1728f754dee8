//! The service without its model: from a payload to model input, and from
//! predictions to the body of a reply.

use crate::adapter;
use crate::config::AppConfig;
use crate::input::columns;
use crate::input::csv;
use crate::input::media;
use crate::input::output;
use crate::input::parsed;
use crate::input::parsed::{ParsedInput, ParsedView};
use crate::input::records;
use crate::input::records::{RecordView, TextMapView};
use crate::input::tabular;
use crate::json;
use crate::json::{Json, JsonView, Number, NumberView};
use crate::laws::rows;
use crate::numeral;
use crate::outcome;
use crate::string_map::StringMap;
use crate::text;
use vstd::prelude::*;
use vstd::string::StrSliceExecFns;
use vstd::utf8::encode_utf8;

verus! {

/// The state of the service: its settings.
#[derive(Clone, Debug)]
pub struct AppState {
    pub cfg: AppConfig,
}

/// The rows of a payload, by its media type.
pub open spec fn payload_matrix(
    cfg: AppConfig,
    payload: Seq<u8>,
    media_type: Seq<char>,
    raw_type: Seq<char>,
) -> Result<Seq<Seq<Seq<char>>>, Seq<char>> {
    if media::is_csv(media_type) {
        csv::csv_payload(payload, cfg)
    } else if media::is_json(media_type) {
        tabular::json_payload_rows(payload, cfg)
    } else if media::is_json_lines(media_type) {
        tabular::json_lines_payload_rows(payload, cfg)
    } else {
        Err("Unsupported Content-Type: "@ + raw_type)
    }
}

/// What is to be known about the records of a payload: how they were read, and
/// their number.
pub open spec fn records_meta(count: nat) -> JsonView {
    JsonView::Object(
        seq![
            ("mode"@, JsonView::Text("onnx_multi_input"@)),
            ("records"@, JsonView::Number(NumberView::Unsigned(count as u64))),
        ],
    )
}

/// The model input of records.
pub open spec fn records_input(
    cfg: AppConfig,
    fields: Seq<RecordView>,
    input_map: TextMapView,
) -> Result<ParsedView, Seq<char>> {
    if fields.len() == 0 {
        Err("ONNX multi-input mode expects a JSON object or a non-empty list of objects"@)
    } else {
        match adapter::onnx_tensors(fields, input_map, cfg.onnx_dynamic_batch) {
            Ok(tensors) => Ok(
                ParsedView {
                    x: None,
                    tensors: Some(tensors),
                    meta: Some(records_meta(fields.len())),
                },
            ),
            Err(message) => Err(message),
        }
    }
}

/// The model input of a payload of records.
pub open spec fn multi_input(
    cfg: AppConfig,
    payload: Seq<u8>,
    media_type: Seq<char>,
    input_map: TextMapView,
) -> Result<ParsedView, Seq<char>> {
    match records::payload_records(payload, media_type, cfg) {
        Ok(fields) => records_input(cfg, fields, input_map),
        Err(message) => Err(message),
    }
}

/// The model input of a matrix: its chosen columns.
pub open spec fn matrix_input(cfg: AppConfig, matrix: Seq<Seq<Seq<char>>>) -> Result<
    ParsedView,
    Seq<char>,
> {
    match columns::shape_verdict(
        matrix.len(),
        columns::column_count(matrix),
        cfg.tabular_num_features,
    ) {
        Ok(()) => match columns::selection(
            matrix,
            cfg.tabular_feature_columns@,
            cfg.tabular_id_columns@,
        ) {
            Ok(rows) => Ok(ParsedView { x: Some(rows), tensors: None, meta: None }),
            Err(message) => Err(message),
        },
        Err(message) => Err(message),
    }
}

/// The payload holds records for named model inputs.
pub open spec fn holds_records(input_map: TextMapView, media_type: Seq<char>) -> bool {
    input_map.len() > 0 && (media::is_json(media_type) || media::is_json_lines(media_type))
}

/// The model input of a payload.
pub open spec fn model_input(
    cfg: AppConfig,
    payload: Seq<u8>,
    content_type: Seq<char>,
) -> Result<ParsedView, Seq<char>> {
    let media_type = media::media_type(content_type);
    if cfg.input_mode@ != "tabular"@ {
        Err(media::input_mode_error(cfg.input_mode@))
    } else {
        match records::setting_map(cfg.onnx_input_map_json@) {
            Ok(input_map) => if holds_records(input_map, media_type) {
                multi_input(cfg, payload, media_type, input_map)
            } else {
                match payload_matrix(cfg, payload, media_type, content_type) {
                    Ok(matrix) => matrix_input(cfg, matrix),
                    Err(message) => Err(message),
                }
            },
            Err(message) => Err(message),
        }
    }
}

/// Every row of the matrix has the columns that the settings choose, where it comes to
/// choosing.
pub open spec fn matrix_fits(cfg: AppConfig, matrix: Seq<Seq<Seq<char>>>) -> bool {
    ||| columns::shape_verdict(
        matrix.len(),
        columns::column_count(matrix),
        cfg.tabular_num_features,
    ) is Err
    ||| columns::selection_fits(
        matrix,
        cfg.tabular_feature_columns@,
        cfg.tabular_id_columns@,
    )
}

/// Every row of the payload has the columns that the settings choose, where it
/// comes to choosing.
pub open spec fn payload_fits(
    cfg: AppConfig,
    payload: Seq<u8>,
    content_type: Seq<char>,
) -> bool {
    let media_type = media::media_type(content_type);
    match (
        records::setting_map(cfg.onnx_input_map_json@),
        payload_matrix(cfg, payload, media_type, content_type),
    ) {
        (Ok(input_map), Ok(matrix)) => {
            ||| cfg.input_mode@ != "tabular"@
            ||| holds_records(input_map, media_type)
            ||| matrix_fits(cfg, matrix)
        },
        _ => true,
    }
}

/// The error for a batch of more records than a request may have.
pub open spec fn too_many_records_error(batch: usize, limit: usize) -> Seq<char> {
    "too_many_records: "@ + numeral::decimal(batch as nat) + " > "@ + numeral::decimal(limit as nat)
}

/// The model input with its batch size, where that is no more than the limit.
pub open spec fn within_limit(limit: usize, input: ParsedView) -> Result<
    (ParsedView, usize),
    Seq<char>,
> {
    match parsed::batch(input) {
        Ok(batch) => if batch > limit {
            Err(too_many_records_error(batch, limit))
        } else {
            Ok((input, batch))
        },
        Err(message) => Err(message),
    }
}

/// The model input of a request and its batch size.
pub open spec fn request_input(
    cfg: AppConfig,
    payload: Seq<u8>,
    content_type: Seq<char>,
) -> Result<(ParsedView, usize), Seq<char>> {
    match model_input(cfg, payload, content_type) {
        Ok(input) => within_limit(cfg.max_records, input),
        Err(message) => Err(message),
    }
}

/// What a model input with its batch size stands for.
pub open spec fn sized_view(r: Result<(ParsedInput, usize), String>) -> Result<
    (ParsedView, usize),
    Seq<char>,
> {
    match r {
        Ok((input, batch)) => Ok((input@, batch)),
        Err(message) => Err(message@),
    }
}

/// What comes of a prediction: the body and the media type of the reply, or the
/// text of an error.
pub open spec fn prediction_body(
    cfg: AppConfig,
    prediction: Result<JsonView, Seq<char>>,
    accept: Seq<char>,
) -> Result<(Seq<u8>, Seq<char>), Seq<char>> {
    match prediction {
        Ok(predictions) => reply_body(cfg, predictions, accept),
        Err(message) => Err(message),
    }
}

/// The body and the media type of a reply with predictions. An object is JSON in
/// any case; anything else is CSV where that is asked for first.
pub open spec fn reply_body(
    cfg: AppConfig,
    predictions: JsonView,
    accept: Seq<char>,
) -> Result<(Seq<u8>, Seq<char>), Seq<char>> {
    if predictions is Object {
        Ok((encode_utf8(json::text_of_json(predictions)), "application/json"@))
    } else if media::is_csv(media::accepted_type(accept)) {
        match output::csv_text(predictions, cfg.csv_delimiter@) {
            Ok(body) => Ok((encode_utf8(body), "text/csv"@)),
            Err(message) => Err(message),
        }
    } else {
        Ok(
            (
                encode_utf8(
                    json::text_of_json(
                        output::wrapped(predictions, cfg.predictions_only, cfg.json_output_key@),
                    ),
                ),
                "application/json"@,
            ),
        )
    }
}

/// A payload as it is read: the model input of its records, or its matrix.
enum ReadPayload {
    Input(ParsedInput),
    Matrix(Vec<Vec<String>>),
}

/// What is to be known about the records of a payload.
fn build_records_meta(count: usize) -> (r: Json)
    ensures
        r@ == records_meta(count as nat),
{
    let mode = Json::Text("onnx_multi_input".to_owned());
    let records = Json::Number(Number::Unsigned(count as u64));
    let entries = vec![("mode".to_owned(), mode), ("records".to_owned(), records)];
    let map = StringMap { entries };
    proof {
        json::lemma_object_view(map);
        assert(json::object_view(map) =~= records_meta(count as nat)->Object_0);
    }
    Json::Object(map)
}

impl AppState {
    /// The state for the settings.
    pub fn new(cfg: AppConfig) -> (r: Self)
        ensures
            r.cfg == cfg,
    {
        AppState { cfg }
    }

    /// The number of requests that are worked on at once: at least one.
    pub fn inflight_permits(&self) -> (r: usize)
        ensures
            r == if self.cfg.max_inflight == 0 {
                1
            } else {
                self.cfg.max_inflight
            },
    {
        if self.cfg.max_inflight == 0 {
            1
        } else {
            self.cfg.max_inflight
        }
    }

    /// The rows of a payload, by its media type.
    pub fn parse_tabular_matrix(
        &self,
        payload: &[u8],
        normalized_content_type: &str,
        raw_content_type: &str,
    ) -> (r: Result<Vec<Vec<String>>, String>)
        ensures
            outcome::deep_viewed(r) == payload_matrix(
                self.cfg,
                payload@,
                normalized_content_type@,
                raw_content_type@,
            ),
            r matches Ok(matrix) ==> columns::all_numeric(matrix.deep_view()),
    {
        proof {
            rows::law_matrix_cells_are_numbers(
                self.cfg,
                payload@,
                normalized_content_type@,
                raw_content_type@,
            );
        }
        if media::is_csv_type(normalized_content_type) {
            return csv::parse_csv_rows(payload, &self.cfg);
        }
        if media::is_json_document_type(normalized_content_type) {
            return tabular::parse_json_rows(payload, &self.cfg);
        }
        if media::is_json_lines_type(normalized_content_type) {
            return tabular::parse_jsonl_rows(payload, &self.cfg);
        }
        Err(text::concat("Unsupported Content-Type: ", raw_content_type))
    }

    /// The model input of records.
    pub fn records_to_input(
        &self,
        fields: &Vec<StringMap<Json>>,
        onnx_input_map: &StringMap<String>,
    ) -> (r: Result<ParsedInput, String>)
        ensures
            outcome::viewed(r) == records_input(
                self.cfg,
                records::records_view(fields@),
                records::text_map_view(*onnx_input_map),
            ),
    {
        if fields.len() == 0 {
            return Err(
                "ONNX multi-input mode expects a JSON object or a non-empty list of objects".to_owned(),
            );
        }
        match adapter::build_onnx_tensors(
            fields.as_slice(),
            onnx_input_map,
            self.cfg.onnx_dynamic_batch,
        ) {
            Ok(tensors) => Ok(
                ParsedInput {
                    x: None,
                    tensors: Some(tensors),
                    meta: Some(build_records_meta(fields.len())),
                },
            ),
            Err(message) => Err(message),
        }
    }

    /// The model input of a payload of records.
    pub fn parse_onnx_multi_input(
        &self,
        payload: &[u8],
        content_type: &str,
        onnx_input_map: &StringMap<String>,
    ) -> (r: Result<ParsedInput, String>)
        ensures
            outcome::viewed(r) == multi_input(
                self.cfg,
                payload@,
                content_type@,
                records::text_map_view(*onnx_input_map),
            ),
            r matches Ok(input) ==> parsed::holds_numbers(input@),
    {
        match records::load_multi_input_records(payload, content_type, &self.cfg) {
            Ok(fields) => {
                proof {
                    adapter::lemma_numeral_tensors(
                        records::records_view(fields@),
                        records::text_map_view(*onnx_input_map),
                        self.cfg.onnx_dynamic_batch,
                    );
                }
                self.records_to_input(&fields, onnx_input_map)
            },
            Err(message) => Err(message),
        }
    }

    /// The model input of a matrix.
    pub fn matrix_to_input(&self, matrix: Vec<Vec<String>>) -> (r: Result<ParsedInput, String>)
        requires
            matrix_fits(self.cfg, matrix.deep_view()),
        ensures
            outcome::viewed(r) == matrix_input(self.cfg, matrix.deep_view()),
            columns::all_numeric(matrix.deep_view()) ==> (r matches Ok(input)
                ==> parsed::holds_numbers(input@)),
    {
        if let Err(message) = columns::validate_tabular_matrix_shape(matrix.as_slice(), &self.cfg) {
            return Err(message);
        }
        proof {
            if columns::all_numeric(matrix.deep_view()) {
                columns::lemma_selection_of_numbers(
                    matrix.deep_view(),
                    self.cfg.tabular_feature_columns@,
                    self.cfg.tabular_id_columns@,
                );
            }
        }
        match columns::apply_feature_selection(matrix, &self.cfg) {
            Ok(rows) => Ok(ParsedInput { x: Some(rows), tensors: None, meta: None }),
            Err(message) => Err(message),
        }
    }

    /// A payload as it is read, before columns are chosen.
    fn read_payload(&self, payload: &[u8], content_type: &str) -> (r: Result<ReadPayload, String>)
        ensures
            match r {
                Ok(ReadPayload::Input(input)) => {
                    &&& model_input(self.cfg, payload@, content_type@) == Ok::<
                        ParsedView,
                        Seq<char>,
                    >(input@)
                    &&& payload_fits(self.cfg, payload@, content_type@)
                    &&& parsed::holds_numbers(input@)
                },
                Ok(ReadPayload::Matrix(matrix)) => {
                    &&& model_input(self.cfg, payload@, content_type@) == matrix_input(
                        self.cfg,
                        matrix.deep_view(),
                    )
                    &&& payload_fits(self.cfg, payload@, content_type@) == matrix_fits(
                        self.cfg,
                        matrix.deep_view(),
                    )
                    &&& columns::all_numeric(matrix.deep_view())
                },
                Err(message) => {
                    &&& model_input(self.cfg, payload@, content_type@) == Err::<
                        ParsedView,
                        Seq<char>,
                    >(message@)
                    &&& payload_fits(self.cfg, payload@, content_type@)
                },
            },
    {
        if let Err(message) = media::validate_input_mode(&self.cfg) {
            return Err(message);
        }
        let normalized = media::resolve_content_type(content_type);
        let onnx_input_map = match records::load_json_map(self.cfg.onnx_input_map_json.as_str()) {
            Ok(map) => map,
            Err(message) => {
                return Err(message);
            },
        };
        assert(onnx_input_map@.len() == onnx_input_map.entries@.len());
        if media::should_use_onnx_multi_input(&onnx_input_map, normalized.as_str()) {
            return match self.parse_onnx_multi_input(
                payload,
                normalized.as_str(),
                &onnx_input_map,
            ) {
                Ok(input) => Ok(ReadPayload::Input(input)),
                Err(message) => Err(message),
            };
        }
        match self.parse_tabular_matrix(payload, normalized.as_str(), content_type) {
            Ok(matrix) => Ok(ReadPayload::Matrix(matrix)),
            Err(message) => Err(message),
        }
    }

    /// The model input of a payload.
    pub fn parse_payload(&self, payload: &[u8], content_type: &str) -> (r: Result<
        ParsedInput,
        String,
    >)
        requires
            payload_fits(self.cfg, payload@, content_type@),
        ensures
            outcome::viewed(r) == model_input(self.cfg, payload@, content_type@),
            r matches Ok(input) ==> parsed::holds_numbers(input@),
    {
        match self.read_payload(payload, content_type) {
            Ok(ReadPayload::Input(input)) => Ok(input),
            Ok(ReadPayload::Matrix(matrix)) => self.matrix_to_input(matrix),
            Err(message) => Err(message),
        }
    }

    /// The model input of a payload; nothing where some row of it lacks a column
    /// that the settings choose. Where they choose none, no row does.
    pub fn try_parse_payload(&self, payload: &[u8], content_type: &str) -> (r: Option<
        Result<ParsedInput, String>,
    >)
        ensures
            r is Some == payload_fits(self.cfg, payload@, content_type@),
            r matches Some(outcome) ==> outcome::viewed(outcome) == model_input(
                self.cfg,
                payload@,
                content_type@,
            ),
            r matches Some(Ok(input)) ==> parsed::holds_numbers(input@),
    {
        if self.cfg.tabular_feature_columns.as_str().is_empty()
            && self.cfg.tabular_id_columns.as_str().is_empty() {
            return Some(self.parse_payload(payload, content_type));
        }
        match self.read_payload(payload, content_type) {
            Ok(ReadPayload::Input(input)) => Some(Ok(input)),
            Ok(ReadPayload::Matrix(matrix)) => {
                let refused = columns::validate_tabular_matrix_shape(
                    matrix.as_slice(),
                    &self.cfg,
                ).is_err();
                if refused || columns::columns_fit(&matrix, &self.cfg) {
                    Some(self.matrix_to_input(matrix))
                } else {
                    None
                }
            },
            Err(message) => Some(Err(message)),
        }
    }

    /// The model input with its batch size, where that is no more than a request may
    /// have.
    pub fn limit_records(&self, input: ParsedInput) -> (r: Result<(ParsedInput, usize), String>)
        ensures
            sized_view(r) == within_limit(self.cfg.max_records, input@),
    {
        let batch = match input.batch_size() {
            Ok(batch) => batch,
            Err(message) => {
                return Err(message);
            },
        };
        if batch > self.cfg.max_records {
            let got = numeral::decimal_string(batch as u64);
            let head = text::concat("too_many_records: ", got.as_str());
            let limit = numeral::decimal_string(self.cfg.max_records as u64);
            return Err(
                text::concat(text::concat(head.as_str(), " > ").as_str(), limit.as_str()),
            );
        }
        Ok((input, batch))
    }

    /// The model input of a request and its batch size; nothing where some row of
    /// the payload lacks a column that the settings choose.
    pub fn read_request(&self, payload: &[u8], content_type: &str) -> (r: Option<
        Result<(ParsedInput, usize), String>,
    >)
        ensures
            r is Some == payload_fits(self.cfg, payload@, content_type@),
            r matches Some(outcome) ==> sized_view(outcome) == request_input(
                self.cfg,
                payload@,
                content_type@,
            ),
            r matches Some(Ok((input, _))) ==> parsed::holds_numbers(input@),
    {
        match self.try_parse_payload(payload, content_type) {
            Some(Ok(input)) => Some(self.limit_records(input)),
            Some(Err(message)) => Some(Err(message)),
            None => None,
        }
    }

    /// What comes of a prediction: the body and the media type of the reply, or the
    /// text of an error.
    pub fn answer(&self, prediction: Result<Json, String>, accept: &str) -> (r: Result<
        (Vec<u8>, String),
        String,
    >)
        ensures
            outcome::viewed(r) == prediction_body(self.cfg, outcome::viewed(prediction), accept@),
    {
        match prediction {
            Ok(predictions) => self.format_output(predictions, accept),
            Err(message) => Err(message),
        }
    }

    /// The body and the media type of a reply with predictions.
    pub fn format_output(&self, predictions: Json, accept: &str) -> (r: Result<
        (Vec<u8>, String),
        String,
    >)
        ensures
            outcome::viewed(r) == reply_body(self.cfg, predictions@, accept@),
    {
        broadcast use {json::lemma_object_view, json::lemma_array_view};

        let is_object = match &predictions {
            Json::Object(_) => true,
            _ => false,
        };
        if is_object {
            return json_body(&predictions);
        }
        let normalized = media::normalized_accept(accept, self.cfg.default_accept.as_str());
        if media::is_csv_type(normalized.as_str()) {
            return match output::format_csv_predictions(
                &predictions,
                self.cfg.csv_delimiter.as_str(),
            ) {
                Ok(body) => Ok((body.as_str().as_bytes_vec(), "text/csv".to_owned())),
                Err(message) => Err(message),
            };
        }
        json_body(&output::wrap_predictions_if_needed(predictions, &self.cfg))
    }
}

/// The value as the body of a JSON reply.
pub fn json_body(value: &Json) -> (r: Result<(Vec<u8>, String), String>)
    ensures
        outcome::viewed(r) == Ok::<(Seq<u8>, Seq<char>), Seq<char>>(
            (encode_utf8(json::text_of_json(value@)), "application/json"@),
        ),
{
    match json::write_vec(value) {
        Ok(body) => Ok((body, "application/json".to_owned())),
        Err(message) => Err(text::concat("failed to encode json: ", message.as_str())),
    }
}

} // verus!
