//! Models, settings and paths.

use crate::adapter;
use crate::adapter::{ModelKind, OnnxAdapter};
use crate::config::{AppConfig, DirectoryState};
use crate::input::records;
use crate::openapi;
use crate::paths;
use crate::string_map::StringMap;
use crate::text;
use vstd::prelude::*;

verus! {

/// A path is joined to a directory by one slash, unless the directory is nothing or ends with
/// one; a path that begins with a slash stays as it is.
pub proof fn law_paths_are_joined(directory: &str, path: &str, r: String)
    requires
        call_ensures(paths::join, (directory, path), r),
    ensures
        path@.len() > 0 && path@[0] == '/' ==> r@ == path@,
        !(path@.len() > 0 && path@[0] == '/') ==> {
            &&& directory@.len() == 0 ==> r@ == path@
            &&& directory@.len() > 0 && directory@.last() == '/' ==> r@ == directory@ + path@
            &&& directory@.len() > 0 && directory@.last() != '/' ==> r@ == directory@ + seq!['/']
                + path@
        },
{
    reveal_strlit("/");
    assert("/"@ =~= seq!['/']);
    assert(directory@.len() == 0 ==> directory@ + path@ =~= path@);
}

/// The path of the model is that of its file in its directory; a directory that is missing, or
/// is none, is named.
pub proof fn law_path_of_the_model(
    cfg: &AppConfig,
    found: DirectoryState,
    directory: &str,
    file: &str,
    joined: String,
    r: Result<String, String>,
)
    requires
        call_ensures(AppConfig::model_path, (cfg, found), r),
        call_ensures(paths::join, (directory, file), joined),
        directory@ == cfg.model_dir@,
        file@ == cfg.model_filename@,
    ensures
        match found {
            DirectoryState::Directory => r matches Ok(path) && path@ == joined@,
            DirectoryState::Missing => r matches Err(message) && message@ == "Model directory '"@
                + directory@ + "' does not exist"@,
            DirectoryState::NotDirectory => r matches Err(message) && message@
                == "Model directory '"@ + directory@ + "' is not a directory"@,
        },
{
}

/// The model is found where its path is and the file exists; a file that does not is named.
pub proof fn law_models_are_located(
    cfg: &AppConfig,
    found: DirectoryState,
    exists: bool,
    path: Result<String, String>,
    r: Result<String, String>,
)
    requires
        call_ensures(OnnxAdapter::locate, (cfg, found, exists), r),
        call_ensures(AppConfig::model_path, (cfg, found), path),
    ensures
        match path {
            Ok(file) => if exists {
                r matches Ok(same) && same@ == file@
            } else {
                r matches Err(message) && message@ == "ONNX model not found: "@ + file@
            },
            Err(reason) => r matches Err(message) && message@ == reason@,
        },
{
}

/// The kind of model is ONNX if and only if the settings say so or the file exists; any other
/// kind is refused by its name, and none at all with a hint.
pub proof fn law_kinds_of_model(
    cfg: &AppConfig,
    model_exists: bool,
    r: Result<ModelKind, String>,
)
    requires
        call_ensures(adapter::choose_model_kind, (cfg, model_exists), r),
    ensures
        r is Ok <==> cfg.model_type@ == "onnx"@ || model_exists,
        r matches Err(message) ==> message@ == if cfg.model_type@.len() > 0 {
            "MODEL_TYPE="@ + cfg.model_type@ + " is not implemented in this package"@
        } else {
            "Set MODEL_TYPE=onnx or place model.onnx under SM_MODEL_DIR"@
        },
{
}

/// The model to load is the one that is located, once its kind is known; its file tells the kind
/// only where it stands in a directory.
pub proof fn law_models_to_load(
    cfg: &AppConfig,
    found: DirectoryState,
    exists: bool,
    in_place: bool,
    kind: Result<ModelKind, String>,
    located: Result<String, String>,
    r: Result<String, String>,
)
    requires
        call_ensures(adapter::load_adapter, (cfg, found, exists), r),
        in_place == (found == DirectoryState::Directory && exists),
        call_ensures(adapter::choose_model_kind, (cfg, in_place), kind),
        call_ensures(OnnxAdapter::locate, (cfg, found, exists), located),
    ensures
        match (kind, located) {
            (Err(reason), _) => r matches Err(message) && message@ == reason@,
            (Ok(_), Err(reason)) => r matches Err(message) && message@ == reason@,
            (Ok(_), Ok(path)) => r matches Ok(same) && same@ == path@,
        },
{
}

/// An adapter has its settings and the map of outputs that they hold. A model that did not load
/// comes first and is named with its path and the reason; then a map that cannot be read.
pub proof fn law_adapters_are_made(
    cfg: AppConfig,
    path: &str,
    loaded: Result<(), String>,
    setting: &str,
    map: Result<StringMap<String>, String>,
    r: Result<OnnxAdapter, String>,
)
    requires
        call_ensures(OnnxAdapter::new, (cfg, path, loaded), r),
        call_ensures(records::load_json_map, (setting,), map),
        setting@ == cfg.onnx_output_map_json@,
    ensures
        match (loaded, map) {
            (Err(reason), _) => r matches Err(message) && message@
                == "Failed to load or prepare ONNX model "@ + path@ + ": "@ + reason@,
            (Ok(()), Err(reason)) => r matches Err(message) && message@ == reason@,
            (Ok(()), Ok(found)) => r matches Ok(made) && made.cfg == cfg && records::text_map_view(
                made.output_map,
            ) == records::text_map_view(found),
        },
{
}

/// The contract is looked for first where the environment says, trimmed, unless that is blank;
/// then beside the directory of the package, and then below the working directory.
pub proof fn law_where_the_contract_is_looked_for(
    value: Option<String>,
    directory: &str,
    relative: &str,
    joined: String,
    named: Option<String>,
    candidates: [String; 2],
    r: Vec<String>,
)
    requires
        call_ensures(openapi::openapi_lookup_paths, (value, directory), r),
        call_ensures(openapi::openapi_path_from_env, (value,), named),
        call_ensures(openapi::openapi_candidate_paths, (directory,), candidates),
        call_ensures(paths::join, (directory, relative), joined),
        relative@ == "../docs/openapi.yaml"@,
    ensures
        openapi::OPENAPI_SPEC_PATH_ENV_KEY@ == "OPENAPI_SPEC_PATH"@,
        named is Some <==> (value matches Some(path) && text::trim(path@).len() > 0),
        named matches Some(path) ==> path@ == text::trim(value->0@),
        candidates@[0]@ == joined@,
        candidates@[1]@ == "docs/openapi.yaml"@,
        named matches Some(path) ==> r@.len() == 3 && r@[0]@ == path@ && r@[1]@ == joined@
            && r@[2]@ == "docs/openapi.yaml"@,
        named is None ==> r@.len() == 2 && r@[0]@ == joined@ && r@[1]@ == "docs/openapi.yaml"@,
{
    let views = r.deep_view();
    assert(views.len() == r@.len());
    assert(forall|i: int| 0 <= i < r@.len() ==> #[trigger] views[i] == r@[i]@);
    assert(views[0] == r@[0]@);
    assert(views[1] == r@[1]@);
    if named is Some {
        assert(views[2] == r@[2]@);
    }
}

/// The settings that a service starts from: payloads are CSV with commas, whose header is looked
/// for and whose blank lines are passed over; replies are JSON, with predictions alone; no column
/// is chosen and no model input is named; and there are limits to what a request may hold.
pub proof fn law_default_settings(cfg: AppConfig)
    requires
        call_ensures(<AppConfig as Default>::default, (), cfg),
    ensures
        cfg.input_mode@ == "tabular"@,
        cfg.default_content_type@ == "text/csv"@,
        cfg.default_accept@ == "application/json"@,
        cfg.tabular_num_features == 0,
        cfg.tabular_feature_columns@.len() == 0,
        cfg.tabular_id_columns@.len() == 0,
        cfg.csv_delimiter@ == seq![','],
        cfg.csv_has_header@ == "auto"@,
        cfg.csv_skip_blank_lines,
        cfg.json_key_instances@ == "instances"@,
        cfg.jsonl_features_key@ == "features"@,
        cfg.json_output_key@ == "predictions"@,
        cfg.predictions_only,
        cfg.onnx_input_map_json@.len() == 0,
        cfg.onnx_output_map_json@.len() == 0,
        cfg.onnx_output_name@.len() == 0,
        cfg.onnx_output_index == 0,
        cfg.onnx_dynamic_batch,
        cfg.max_body_bytes == 6 * 1024 * 1024,
        cfg.max_records == 5000,
        cfg.max_inflight == 16,
        cfg.model_type@.len() == 0,
        cfg.model_dir@ == "/opt/ml/model"@,
        cfg.model_filename@ == "model.onnx"@,
        cfg.prometheus_enabled,
        cfg.prometheus_path@ == "/metrics"@,
        cfg.swagger_enabled,
{
    reveal_strlit("");
    reveal_strlit(",");
    assert(","@ =~= seq![',']);
}

} // verus!
