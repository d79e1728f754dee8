//! The settings of the service.

use crate::outcome;
use crate::paths;
use crate::text;
use vstd::prelude::*;

verus! {

/// The settings of the service.
#[derive(Clone, Debug)]
pub struct AppConfig {
    /// How a payload is to be read; only `tabular` is known.
    pub input_mode: String,
    /// The media type of a request that names none.
    pub default_content_type: String,
    /// The media type of a reply to a request that asks for none.
    pub default_accept: String,
    /// The number of columns that a tabular payload must have; 0 for any number.
    pub tabular_num_features: usize,
    /// The columns to hand to the model; blank for all.
    pub tabular_feature_columns: String,
    /// The columns to keep from the model, where none are chosen.
    pub tabular_id_columns: String,
    /// What stands between the cells of a CSV row.
    pub csv_delimiter: String,
    /// Whether the first CSV row is a header: `auto`, `true` or `false`.
    pub csv_has_header: String,
    /// Whether blank CSV lines are passed over.
    pub csv_skip_blank_lines: bool,
    /// The key of a JSON payload that holds the rows or records.
    pub json_key_instances: String,
    /// The key of a JSON payload or line that holds the features of one row.
    pub jsonl_features_key: String,
    /// The key under which predictions are wrapped.
    pub json_output_key: String,
    /// Whether predictions are handed out without a wrapping object.
    pub predictions_only: bool,
    /// A JSON object from record keys to model inputs; blank for none.
    pub onnx_input_map_json: String,
    /// A JSON object from reply keys to model outputs; blank for none.
    pub onnx_output_map_json: String,
    /// The model output to hand out, as a number.
    pub onnx_output_name: String,
    /// The model output to hand out where the name is no number.
    pub onnx_output_index: usize,
    /// Whether the inputs must agree on a batch size.
    pub onnx_dynamic_batch: bool,
    /// The largest payload in bytes.
    pub max_body_bytes: usize,
    /// The largest number of records in one payload.
    pub max_records: usize,
    /// The number of requests that are worked on at once.
    pub max_inflight: usize,
    /// The kind of model; `onnx` is known.
    pub model_type: String,
    /// The directory that holds the model.
    pub model_dir: String,
    /// The file that holds the model.
    pub model_filename: String,
    /// Whether metrics are served.
    pub prometheus_enabled: bool,
    /// The path under which metrics are served.
    pub prometheus_path: String,
    /// Whether the API description is served.
    pub swagger_enabled: bool,
}

impl Default for AppConfig {
    fn default() -> (r: Self)
        ensures
            r.input_mode@ == "tabular"@,
            r.default_content_type@ == "text/csv"@,
            r.default_accept@ == "application/json"@,
            r.tabular_num_features == 0,
            r.tabular_feature_columns@ == ""@,
            r.tabular_id_columns@ == ""@,
            r.csv_delimiter@ == ","@,
            r.csv_has_header@ == "auto"@,
            r.csv_skip_blank_lines,
            r.json_key_instances@ == "instances"@,
            r.jsonl_features_key@ == "features"@,
            r.json_output_key@ == "predictions"@,
            r.predictions_only,
            r.onnx_input_map_json@ == ""@,
            r.onnx_output_map_json@ == ""@,
            r.onnx_output_name@ == ""@,
            r.onnx_output_index == 0,
            r.onnx_dynamic_batch,
            r.max_body_bytes == 6291456,
            r.max_records == 5000,
            r.max_inflight == 16,
            r.model_type@ == ""@,
            r.model_dir@ == "/opt/ml/model"@,
            r.model_filename@ == "model.onnx"@,
            r.prometheus_enabled,
            r.prometheus_path@ == "/metrics"@,
            r.swagger_enabled,
    {
        AppConfig {
            input_mode: "tabular".to_owned(),
            default_content_type: "text/csv".to_owned(),
            default_accept: "application/json".to_owned(),
            tabular_num_features: 0,
            tabular_feature_columns: "".to_owned(),
            tabular_id_columns: "".to_owned(),
            csv_delimiter: ",".to_owned(),
            csv_has_header: "auto".to_owned(),
            csv_skip_blank_lines: true,
            json_key_instances: "instances".to_owned(),
            jsonl_features_key: "features".to_owned(),
            json_output_key: "predictions".to_owned(),
            predictions_only: true,
            onnx_input_map_json: "".to_owned(),
            onnx_output_map_json: "".to_owned(),
            onnx_output_name: "".to_owned(),
            onnx_output_index: 0,
            onnx_dynamic_batch: true,
            max_body_bytes: 6291456,
            max_records: 5000,
            max_inflight: 16,
            model_type: "".to_owned(),
            model_dir: "/opt/ml/model".to_owned(),
            model_filename: "model.onnx".to_owned(),
            prometheus_enabled: true,
            prometheus_path: "/metrics".to_owned(),
            swagger_enabled: true,
        }
    }
}

/// What stands at the path of a directory.
#[derive(Clone, Copy, Debug, PartialEq, Eq, Structural)]
pub enum DirectoryState {
    Missing,
    NotDirectory,
    Directory,
}

/// The path of the model in its directory; an error where that is no directory.
pub open spec fn model_path(
    model_dir: Seq<char>,
    model_filename: Seq<char>,
    found: DirectoryState,
) -> Result<Seq<char>, Seq<char>> {
    match found {
        DirectoryState::Missing => Err(
            "Model directory '"@ + model_dir + "' does not exist"@,
        ),
        DirectoryState::NotDirectory => Err(
            "Model directory '"@ + model_dir + "' is not a directory"@,
        ),
        DirectoryState::Directory => Ok(paths::below(model_dir, model_filename)),
    }
}

impl AppConfig {
    /// The path of the model, with what stands at the path of its directory.
    pub fn model_path(&self, found: DirectoryState) -> (r: Result<String, String>)
        ensures
            outcome::viewed(r) == model_path(self.model_dir@, self.model_filename@, found),
    {
        let head = text::concat("Model directory '", self.model_dir.as_str());
        match found {
            DirectoryState::Missing => Err(text::concat(head.as_str(), "' does not exist")),
            DirectoryState::NotDirectory => Err(
                text::concat(head.as_str(), "' is not a directory"),
            ),
            DirectoryState::Directory => Ok(
                paths::join(self.model_dir.as_str(), self.model_filename.as_str()),
            ),
        }
    }
}

} // verus!
