use axum::http::header::{ACCEPT, CONTENT_TYPE};
use axum::http::{HeaderMap, HeaderName, HeaderValue};
use onnx_serving::adapter::{load_adapter, OnnxAdapter, OutputTensor, TensorElements};
use onnx_serving::config::DirectoryState;
use onnx_serving::grpc_service::{GrpcCode, PredictRequest};
use onnx_serving::http::{
    header_value_with_fallback, http_invocations, http_live, http_metrics, http_openapi_spec,
    http_swagger_ui, resolve_request_media_types, validate_payload_size, HttpBody, Inference,
    SAGEMAKER_ACCEPT_HEADER, SAGEMAKER_CONTENT_TYPE_HEADER,
};
use onnx_serving::input::{
    apply_feature_selection, format_csv_predictions, load_json_map, load_multi_input_records,
    normalized_accept, parse_col_selector, parse_csv_rows, parse_json_records, parse_json_rows,
    parse_jsonl_records, parse_jsonl_rows, should_use_onnx_multi_input, strip_content_type_params,
    validate_dynamic_batch_sizes, validate_input_mode, validate_tabular_matrix_shape,
    value_to_numeric_rows, wrap_predictions_if_needed, ParsedInput,
};
use onnx_serving::json::{Json, Number};
use onnx_serving::openapi::{openapi_candidate_paths, openapi_path_from_env};
use onnx_serving::string_map::StringMap;
use onnx_serving::{AppConfig, AppState, InferenceGrpcService};

fn whole(n: u64) -> Json {
    Json::Number(Number::Unsigned(n))
}

fn values(rows: &[Vec<String>]) -> Vec<Vec<f64>> {
    rows.iter()
        .map(|row| row.iter().map(|cell| cell.parse::<f64>().expect("number")).collect())
        .collect()
}

fn cells(rows: &[Vec<f64>]) -> Vec<Vec<String>> {
    rows.iter()
        .map(|row| row.iter().map(|cell| cell.to_string()).collect())
        .collect()
}

fn array(values: Vec<serde_json::Value>) -> serde_json::Value {
    serde_json::Value::Array(values)
}

fn object(key: &str, value: serde_json::Value) -> serde_json::Value {
    let mut map = serde_json::Map::new();
    map.insert(key.to_string(), value);
    serde_json::Value::Object(map)
}

fn field(key: &str, value: Json) -> Json {
    Json::Object(StringMap {
        entries: vec![(key.to_string(), value)],
    })
}

#[test]
fn json_instances_are_parsed() {
    let cfg = AppConfig::default();
    let state = AppState::new(cfg);
    let payload = br#"{"instances":[[1.0,2.0],[3.0,4.0]]}"#;
    let parsed = state
        .parse_payload(payload, "application/json")
        .expect("json parse should pass");
    assert_eq!(parsed.batch_size().expect("batch"), 2);
}

#[test]
fn csv_header_auto_detect_works() {
    let cfg = AppConfig {
        csv_has_header: "auto".to_string(),
        ..AppConfig::default()
    };
    let state = AppState::new(cfg);
    let payload = b"f1,f2\n1,2\n3,4\n";
    let parsed = state
        .parse_payload(payload, "text/csv")
        .expect("csv parse should pass");
    assert_eq!(parsed.batch_size().expect("batch"), 2);
}

#[test]
fn output_formatter_supports_csv() {
    let cfg = AppConfig::default();
    let state = AppState::new(cfg);
    let (body, content_type) = state
        .format_output(Json::Array(vec![whole(1), whole(2)]), "text/csv")
        .expect("csv format should pass");
    assert_eq!(content_type, "text/csv");
    assert_eq!(String::from_utf8(body).expect("utf8"), "1\n2");
}

#[test]
fn strip_content_type_params_normalizes_media_type() {
    assert_eq!(
        strip_content_type_params("Application/JSON; charset=utf-8"),
        "application/json"
    );
}

#[test]
fn load_json_map_handles_empty_and_invalid_values() {
    let empty = load_json_map("   ").expect("empty map");
    assert!(empty.is_empty());

    let err = load_json_map("[]").expect_err("non-object should fail");
    assert!(err.contains("Expected JSON object mapping"));
}

#[test]
fn parse_payload_stage_helpers_cover_core_decisions() {
    let err = validate_input_mode(&AppConfig {
        input_mode: "image".to_string(),
        ..AppConfig::default()
    })
    .expect_err("invalid mode");
    assert!(err.contains("not implemented"));
    assert!(validate_input_mode(&AppConfig::default()).is_ok());

    let mut onnx_map = StringMap::new();
    onnx_map.insert("a".to_string(), "input_a".to_string());
    assert!(should_use_onnx_multi_input(&onnx_map, "application/json"));
    assert!(!should_use_onnx_multi_input(
        &StringMap::new(),
        "application/json"
    ));
    assert!(!should_use_onnx_multi_input(&onnx_map, "text/csv"));

    let none: &[Vec<String>] = &[];
    let shape_err =
        validate_tabular_matrix_shape(none, &AppConfig::default()).expect_err("empty matrix");
    assert!(shape_err.contains("Parsed payload is empty"));
    let mismatch_err = validate_tabular_matrix_shape(
        &cells(&[vec![1.0, 2.0]]),
        &AppConfig {
            tabular_num_features: 3,
            ..AppConfig::default()
        },
    )
    .expect_err("feature mismatch");
    assert!(mismatch_err.contains("Feature count mismatch"));
}

#[test]
fn apply_feature_selection_returns_original_when_selectors_are_empty() {
    let rows = cells(&[vec![1.0, 2.0], vec![3.0, 4.0]]);
    let selected =
        apply_feature_selection(rows.clone(), &AppConfig::default()).expect("selection pass");
    assert_eq!(selected, rows);
}

#[test]
fn multi_input_helpers_cover_json_dispatch_and_batch_validation() {
    let records = load_multi_input_records(
        br#"{"instances":[{"a":[1,2]},{"a":[3,4]}]}"#,
        "application/json",
        &AppConfig::default(),
    )
    .expect("json records");
    assert_eq!(records.len(), 2);

    let records = load_multi_input_records(
        br#"{"a":[1,2]}
{"a":[3,4]}"#,
        "application/x-jsonlines",
        &AppConfig::default(),
    )
    .expect("jsonl records");
    assert_eq!(records.len(), 2);

    let invalid = validate_dynamic_batch_sizes(&[2, 0]).expect_err("zero batch invalid");
    assert!(invalid.contains("batch dimension invalid"));
    let mismatch =
        validate_dynamic_batch_sizes(&[2, 3]).expect_err("mismatched batch sizes invalid");
    assert!(mismatch.contains("mismatched batch sizes"));
    assert!(validate_dynamic_batch_sizes(&[2, 2]).is_ok());
}

#[test]
fn media_and_output_helpers_cover_fallbacks() {
    assert_eq!(
        normalized_accept("text/csv,application/json", "application/json"),
        "text/csv"
    );
    assert_eq!(normalized_accept("", "application/json"), "");

    let wrapped = wrap_predictions_if_needed(
        Json::Array(vec![whole(1)]),
        &AppConfig {
            predictions_only: false,
            json_output_key: "result".to_string(),
            ..AppConfig::default()
        },
    );
    assert_eq!(wrapped, field("result", Json::Array(vec![whole(1)])));
    let plain = wrap_predictions_if_needed(whole(1), &AppConfig::default());
    assert_eq!(plain, whole(1));
}

#[test]
fn request_phase_helpers_cover_media_resolution_and_size_checks() {
    let mut headers = HeaderMap::new();
    headers.insert(CONTENT_TYPE, HeaderValue::from_static("application/json"));
    headers.insert(ACCEPT, HeaderValue::from_static("text/csv"));
    let cfg = AppConfig::default();
    let (content_type, accept) = resolve_request_media_types(&headers, &cfg);
    assert_eq!(content_type, "application/json");
    assert_eq!(accept, "text/csv");

    let oversized = validate_payload_size(
        128,
        &AppConfig {
            max_body_bytes: 64,
            ..AppConfig::default()
        },
    )
    .expect("oversized payload should return response");
    assert_eq!(oversized.status, 413);
    assert!(validate_payload_size(64, &AppConfig::default()).is_none());
}

#[test]
fn parse_json_records_supports_instances_and_object_shape() {
    let cfg = AppConfig::default();
    let from_instances =
        parse_json_records(br#"{"instances":[{"a":1},{"a":2}]}"#, &cfg).expect("instances parse");
    assert_eq!(from_instances.len(), 2);

    let from_object = parse_json_records(br#"{"a":1,"b":2}"#, &cfg).expect("object parse");
    assert_eq!(from_object.len(), 1);
    assert!(from_object[0].contains_key("a"));
}

#[test]
fn parse_jsonl_records_rejects_non_object_lines() {
    let err = parse_jsonl_records(br#"[1,2,3]"#).expect_err("must reject non-object");
    assert!(err.contains("JSON object"));
}

#[test]
fn parse_json_records_reject_non_object_array_entries() {
    let cfg = AppConfig::default();
    let err = parse_json_records(br#"{"instances":[{"a":1},2]}"#, &cfg)
        .expect_err("mixed records must fail");
    assert!(err.contains("expects each record to be a JSON object"));
}

#[test]
fn parse_jsonl_records_reject_invalid_utf8() {
    let err = parse_jsonl_records(&[0x80]).expect_err("invalid utf8 must fail");
    assert!(err.contains("invalid utf-8"));
}

#[test]
fn parse_json_rows_and_jsonl_rows_support_feature_shortcuts() {
    let cfg = AppConfig::default();
    let rows = parse_json_rows(br#"{"features":[1.0,2.0]}"#, &cfg).expect("features row");
    assert_eq!(values(&rows), vec![vec![1.0, 2.0]]);

    let jsonl = br#"{"features":[3,4]}
{"features":[5,6]}"#;
    let rows = parse_jsonl_rows(jsonl, &cfg).expect("features jsonl");
    assert_eq!(values(&rows), vec![vec![3.0, 4.0], vec![5.0, 6.0]]);
}

#[test]
fn value_to_numeric_rows_handles_scalar_and_rejects_text() {
    let scalar = value_to_numeric_rows(&Json::Number(Number::Float(7.5.to_string())))
        .expect("scalar rows");
    assert_eq!(values(&scalar), vec![vec![7.5]]);
    let err =
        value_to_numeric_rows(&Json::Text("x".to_string())).expect_err("non-numeric should fail");
    assert!(err.contains("Expected tabular numeric payload"));
}

#[test]
fn parse_csv_rows_supports_header_modes() {
    let cfg_true = AppConfig {
        csv_has_header: "true".to_string(),
        ..AppConfig::default()
    };
    let rows = parse_csv_rows(b"f1,f2\n1,2\n3,4\n", &cfg_true).expect("header=true should parse");
    assert_eq!(values(&rows), vec![vec![1.0, 2.0], vec![3.0, 4.0]]);

    let cfg_invalid = AppConfig {
        csv_has_header: "maybe".to_string(),
        ..AppConfig::default()
    };
    let err = parse_csv_rows(b"1,2\n", &cfg_invalid).expect_err("invalid mode should fail");
    assert!(err.contains("CSV_HAS_HEADER must be auto|true|false"));
}

#[test]
fn parse_csv_rows_covers_empty_and_invalid_numeric_paths() {
    let cfg = AppConfig::default();
    let empty_err = parse_csv_rows(b"", &cfg).expect_err("empty csv must fail");
    assert!(empty_err.contains("Empty CSV payload"));

    let cfg_no_header = AppConfig {
        csv_has_header: "false".to_string(),
        ..AppConfig::default()
    };
    let bad_err =
        parse_csv_rows(b"1,abc\n", &cfg_no_header).expect_err("non-numeric token must fail");
    assert!(bad_err.contains("Expected numeric value in CSV payload"));
}

#[test]
fn parse_col_selector_supports_range_and_list() {
    assert_eq!(
        parse_col_selector("", 3).expect("empty selector means all columns"),
        vec![0, 1, 2]
    );
    assert_eq!(
        parse_col_selector("1:3", 5).expect("range selector"),
        vec![1, 2]
    );
    assert_eq!(parse_col_selector(":2", 5).expect("open start"), vec![0, 1]);
    assert_eq!(
        parse_col_selector("2:", 5).expect("open end"),
        vec![2, 3, 4]
    );
    assert_eq!(
        parse_col_selector("0,2,4", 5).expect("list selector"),
        vec![0, 2, 4]
    );
    let err = parse_col_selector("bad", 5).expect_err("invalid selector must fail");
    assert!(err.contains("Invalid column selector"));
}

#[test]
fn format_output_wraps_predictions_when_predictions_only_is_false() {
    let cfg = AppConfig {
        predictions_only: false,
        json_output_key: "y_hat".to_string(),
        ..AppConfig::default()
    };
    let state = AppState::new(cfg);
    let (body, content_type) = state
        .format_output(Json::Array(vec![whole(1)]), "application/json")
        .expect("json output");
    assert_eq!(content_type, "application/json");
    let parsed: serde_json::Value = serde_json::from_slice(&body).expect("valid json");
    assert_eq!(
        parsed,
        object("y_hat", array(vec![serde_json::Value::from(1)]))
    );
}

#[test]
fn header_value_with_fallback_prefers_primary_then_fallback_then_default() {
    let mut headers = HeaderMap::new();
    headers.insert(CONTENT_TYPE, HeaderValue::from_static("text/csv"));
    let value = header_value_with_fallback(
        &headers,
        CONTENT_TYPE.as_str(),
        SAGEMAKER_CONTENT_TYPE_HEADER,
        "application/json",
    );
    assert_eq!(value, "text/csv");

    let mut headers = HeaderMap::new();
    headers.insert(
        HeaderName::from_static(SAGEMAKER_CONTENT_TYPE_HEADER),
        HeaderValue::from_static("application/json"),
    );
    let fallback = header_value_with_fallback(
        &headers,
        CONTENT_TYPE.as_str(),
        SAGEMAKER_CONTENT_TYPE_HEADER,
        "text/plain",
    );
    assert_eq!(fallback, "application/json");

    let defaulted = header_value_with_fallback(
        &HeaderMap::new(),
        CONTENT_TYPE.as_str(),
        SAGEMAKER_CONTENT_TYPE_HEADER,
        "text/plain",
    );
    assert_eq!(defaulted, "text/plain");
}

#[test]
fn header_value_with_fallback_uses_default_for_invalid_fallback_name() {
    let value = header_value_with_fallback(
        &HeaderMap::new(),
        CONTENT_TYPE.as_str(),
        "Invalid Header Name",
        "application/json",
    );
    assert_eq!(value, "application/json");
}

#[test]
fn load_openapi_yaml_supports_blank_and_missing_env_paths() {
    assert_eq!(
        openapi_path_from_env(Some("/definitely/missing/spec.yaml".to_string())),
        Some("/definitely/missing/spec.yaml".to_string())
    );
    assert!(openapi_path_from_env(Some("   ".to_string())).is_none());
    assert!(openapi_path_from_env(None).is_none());
    let candidates = openapi_candidate_paths("/srv/app");
    assert_eq!(candidates.len(), 2);
    for path in candidates {
        assert!(path.ends_with("openapi.yaml"));
    }
}

#[test]
fn http_live_and_metrics_handlers_return_ok_with_expected_payloads() {
    let live = http_live();
    assert_eq!(live.status, 200);
    assert_eq!(live.body, HttpBody::Text("\n".to_string()));

    let metrics = http_metrics();
    assert_eq!(metrics.status, 200);
    match metrics.body {
        HttpBody::Text(metrics_text) => assert!(metrics_text.contains("byoc_up 1")),
        _ => panic!("metrics are text"),
    }
}

#[test]
fn format_csv_predictions_and_value_to_string_cover_non_array_cases() {
    let scalar = format_csv_predictions(&Json::Bool(true), ",").expect("scalar csv");
    assert_eq!(scalar, "true");

    let rows = format_csv_predictions(
        &Json::Array(vec![
            Json::Array(vec![Json::Null, whole(2)]),
            Json::Array(vec![Json::Text("x".to_string()), whole(4)]),
        ]),
        ";",
    )
    .expect("row csv");
    assert_eq!(rows, ";2\nx;4");
}

#[test]
fn swagger_handlers_serve_openapi_and_ui() {
    let spec_response = http_openapi_spec(Some("openapi: 3.1.0\n".to_string()));
    assert_eq!(spec_response.status, 200);
    match spec_response.body {
        HttpBody::Typed { content_type, body } => {
            assert_eq!(content_type, "application/yaml; charset=utf-8");
            let spec_text = String::from_utf8(body).expect("spec utf8");
            assert!(spec_text.contains("openapi: 3.1.0"));
        }
        _ => panic!("the contract has a media type"),
    }

    let ui_response = http_swagger_ui();
    assert_eq!(ui_response.status, 200);
    match ui_response.body {
        HttpBody::Html(ui_text) => {
            assert!(ui_text.contains("SwaggerUIBundle"));
            assert!(ui_text.contains("/openapi.yaml"));
        }
        _ => panic!("the page is html"),
    }
}

#[test]
fn tensor_to_json_supports_i64_and_higher_dimensions() {
    let i64_tensor = OutputTensor {
        shape: vec![3],
        elements: TensorElements::Integers(vec![1, 2, 3]),
    };
    let i64_json = OnnxAdapter::tensor_to_json(&i64_tensor).expect("i64 tensor json");
    assert_eq!(i64_json, Json::Array(vec![whole(1), whole(2), whole(3)]));

    let f32_3d = OutputTensor {
        shape: vec![1, 2, 2],
        elements: TensorElements::Floats(
            [1.0, 2.0, 3.0, 4.0]
                .iter()
                .map(|value: &f64| Some(format!("{value:?}")))
                .collect(),
        ),
    };
    let f32_json = OnnxAdapter::tensor_to_json(&f32_3d).expect("f32 tensor json");
    let expected = ["1.0", "2.0", "3.0", "4.0"]
        .iter()
        .map(|digits| Json::Number(Number::Float(digits.to_string())))
        .collect();
    assert_eq!(f32_json, Json::Array(expected));
}

#[test]
fn tensor_to_json_rejects_unsupported_dtype() {
    let bool_tensor = OutputTensor {
        shape: vec![2],
        elements: TensorElements::Unsupported,
    };
    let err = OnnxAdapter::tensor_to_json(&bool_tensor).expect_err("bool tensor must fail");
    assert!(err.contains("unsupported ONNX output tensor dtype"));
}

#[test]
fn parsed_input_batch_size_validates_tensors() {
    let empty = ParsedInput {
        x: None,
        tensors: Some(StringMap::new()),
        meta: None,
    };
    let err = empty.batch_size().expect_err("empty tensors must fail");
    assert!(err.contains("no features/tensors"));

    let mut bad_type = StringMap::new();
    bad_type.insert("x".to_string(), whole(1));
    let parsed = ParsedInput {
        x: None,
        tensors: Some(bad_type),
        meta: None,
    };
    let err = parsed.batch_size().expect_err("scalar tensor must fail");
    assert!(err.contains("array-like"));
}

#[test]
fn app_config_model_path_errors_when_dir_missing_or_not_directory() {
    let missing = AppConfig {
        model_dir: "/definitely/missing/dir".to_string(),
        ..AppConfig::default()
    };
    let err = missing
        .model_path(DirectoryState::Missing)
        .expect_err("missing dir must fail");
    assert!(err.contains("does not exist"), "unexpected error: {err}");

    let not_dir = AppConfig {
        model_dir: "/models/model.onnx".to_string(),
        ..AppConfig::default()
    };
    let err = not_dir
        .model_path(DirectoryState::NotDirectory)
        .expect_err("non-directory must fail");
    assert!(err.contains("not a directory"), "unexpected error: {err}");
}

#[test]
fn load_adapter_rejects_unknown_model_type_and_missing_model() {
    let unknown = AppConfig {
        model_type: "xgboost".to_string(),
        ..AppConfig::default()
    };
    let err = match load_adapter(&unknown, DirectoryState::Directory, false) {
        Ok(_) => panic!("unknown model type should fail"),
        Err(err) => err,
    };
    assert!(err.contains("not implemented"));

    let missing = AppConfig {
        model_type: "".to_string(),
        ..AppConfig::default()
    };
    let err = match load_adapter(&missing, DirectoryState::Directory, false) {
        Ok(_) => panic!("missing model should fail"),
        Err(err) => err,
    };
    assert!(err.contains("Set MODEL_TYPE=onnx"));
}

#[test]
fn parse_payload_rejects_unsupported_modes_and_content_types() {
    let cfg_mode = AppConfig {
        input_mode: "image".to_string(),
        ..AppConfig::default()
    };
    let mode_state = AppState::new(cfg_mode);
    let mode_err = mode_state
        .parse_payload(b"1,2\n", "text/csv")
        .expect_err("non-tabular mode should fail");
    assert!(mode_err.contains("not implemented"));

    let cfg_content = AppConfig::default();
    let content_state = AppState::new(cfg_content);
    let content_err = content_state
        .parse_payload(b"1,2\n", "application/xml")
        .expect_err("unsupported content type should fail");
    assert!(content_err.contains("Unsupported Content-Type"));
}

#[test]
fn parse_payload_validates_feature_count_and_header_only_csv() {
    let cfg = AppConfig {
        tabular_num_features: 3,
        ..AppConfig::default()
    };
    let state = AppState::new(cfg);
    let mismatch_err = state
        .parse_payload(b"1,2\n", "text/csv")
        .expect_err("feature mismatch should fail");
    assert!(mismatch_err.contains("Feature count mismatch"));

    let header_only_cfg = AppConfig {
        csv_has_header: "true".to_string(),
        ..AppConfig::default()
    };
    let header_state = AppState::new(header_only_cfg);
    let header_err = header_state
        .parse_payload(b"f1,f2\n", "text/csv")
        .expect_err("header-only csv should fail");
    assert!(header_err.contains("only header row"));
}

#[test]
fn parse_payload_multi_input_reports_missing_record_key() {
    let cfg = AppConfig {
        onnx_input_map_json: r#"{"a":"input_a","b":"input_b"}"#.to_string(),
        ..AppConfig::default()
    };
    let state = AppState::new(cfg);
    let payload = br#"{"instances":[{"a":[1.0,2.0]}]}"#;
    let err = state
        .parse_payload(payload, "application/json")
        .expect_err("missing key should fail");
    assert!(err.contains("Missing key 'b'"));
}

#[test]
fn property_parse_payload_json_preserves_shape() {
    let state = AppState::new(AppConfig::default());
    for n_rows in 1..24usize {
        for n_cols in 1..8usize {
            let instances: Vec<Vec<f64>> = (0..n_rows)
                .map(|i| {
                    (0..n_cols)
                        .map(|j| ((i * 577 + j * 131 + n_cols * 37) % 2000) as f64 - 1000.0)
                        .collect()
                })
                .collect();
            let rows = instances
                .iter()
                .map(|row| array(row.iter().map(|v| serde_json::Value::from(*v)).collect()))
                .collect();
            let payload =
                serde_json::to_vec(&object("instances", array(rows))).expect("json payload");

            let parsed = state
                .parse_payload(payload.as_slice(), "application/json")
                .expect("json parse should pass");

            let parsed_rows = values(&parsed.x.expect("tabular rows expected"));
            assert_eq!(parsed_rows.len(), instances.len());
            for (parsed_row, input_row) in parsed_rows.iter().zip(instances.iter()) {
                assert_eq!(parsed_row.len(), input_row.len());
                for (parsed_value, input_value) in parsed_row.iter().zip(input_row.iter()) {
                    assert!((parsed_value - input_value).abs() < 1e-12);
                }
            }
        }
    }
}

#[test]
fn parse_payload_json_preserves_shape_of_ragged_rows() {
    let state = AppState::new(AppConfig::default());
    for n_rows in 1..24usize {
        for seed in 0..8usize {
            let instances: Vec<Vec<f64>> = (0..n_rows)
                .map(|i| {
                    let n_cols = 1 + (i * 5 + seed * 3 + i * i) % 7;
                    (0..n_cols)
                        .map(|j| ((i * 577 + j * 131 + seed * 37) % 2000) as f64 - 1000.0)
                        .collect()
                })
                .collect();
            let rows = instances
                .iter()
                .map(|row| array(row.iter().map(|v| serde_json::Value::from(*v)).collect()))
                .collect();
            let payload =
                serde_json::to_vec(&object("instances", array(rows))).expect("json payload");

            let parsed = state
                .parse_payload(payload.as_slice(), "application/json")
                .expect("json parse should pass");

            let parsed_rows = values(&parsed.x.expect("tabular rows expected"));
            assert_eq!(parsed_rows.len(), instances.len());
            for (parsed_row, input_row) in parsed_rows.iter().zip(instances.iter()) {
                assert_eq!(parsed_row.len(), input_row.len());
                for (parsed_value, input_value) in parsed_row.iter().zip(input_row.iter()) {
                    assert!((parsed_value - input_value).abs() < 1e-12);
                }
            }
        }
    }
}

#[test]
fn parse_payload_applies_column_selection_paths() {
    let cfg = AppConfig {
        tabular_feature_columns: "1".to_string(),
        ..AppConfig::default()
    };
    let state = AppState::new(cfg);
    let parsed = state
        .parse_payload(b"1,2\n3,4\n", "text/csv")
        .expect("feature selector should parse");
    assert_eq!(
        parsed.x.map(|x| values(&x)),
        Some(vec![vec![2.0], vec![4.0]])
    );

    let cfg = AppConfig {
        tabular_id_columns: "0".to_string(),
        ..AppConfig::default()
    };
    let state = AppState::new(cfg);
    let parsed = state
        .parse_payload(b"10,2,3\n11,4,5\n", "text/csv")
        .expect("id selector should infer feature columns");
    assert_eq!(
        parsed.x.map(|x| values(&x)),
        Some(vec![vec![2.0, 3.0], vec![4.0, 5.0]])
    );
}

#[test]
fn http_invocations_returns_too_many_requests_when_no_permit() {
    let state = AppState::new(AppConfig::default());
    let mut headers = HeaderMap::new();
    headers.insert(CONTENT_TYPE, HeaderValue::from_static("application/json"));
    let payload = br#"{"instances":[[1.0,2.0]]}"#;
    let response = http_invocations(&state, &headers, payload)
        .expect("size is acceptable")
        .proceed(&state, payload, false)
        .expect("columns are there")
        .expect_err("must fail without a permit");
    assert_eq!(response.status, 429);
    assert_eq!(
        response.body,
        HttpBody::Json(field("error", Json::Text("too_many_requests".to_string())))
    );
}

#[test]
fn http_invocations_accepts_sagemaker_header_fallbacks() {
    let state = AppState::new(AppConfig::default());
    let mut headers = HeaderMap::new();
    headers.insert(
        HeaderName::from_static(SAGEMAKER_CONTENT_TYPE_HEADER),
        HeaderValue::from_static("application/json"),
    );
    headers.insert(
        HeaderName::from_static(SAGEMAKER_ACCEPT_HEADER),
        HeaderValue::from_static("text/csv"),
    );
    let payload = br#"{"instances":[[1.0,2.0],[3.0,4.0]]}"#;
    let pending = http_invocations(&state, &headers, payload)
        .expect("size is acceptable")
        .proceed(&state, payload, true)
        .expect("columns are there")
        .expect("payload is acceptable");
    assert_eq!(pending.input.batch_size().expect("batch"), 2);
    let predictions = Json::Array(vec![whole(3), whole(7)]);
    let response = pending.finish(&state, Inference::Predicted(predictions));
    assert_eq!(response.status, 200);
    assert_eq!(
        response.body,
        HttpBody::Typed {
            content_type: "text/csv".to_string(),
            body: b"3\n7".to_vec()
        }
    );
}

#[test]
fn grpc_service_live_ready_and_predict_error_paths() {
    let reason = "ONNX model not found: missing.onnx".to_string();
    let service = InferenceGrpcService::new(AppConfig::default(), Err(reason.clone()));

    let live = service.live();
    assert!(live.ok);

    let ready = service.ready(&Err(reason.clone()));
    assert!(!ready.ok);
    assert_eq!(ready.status, "not_ready");

    let predict = service
        .predict(PredictRequest {
            payload: b"1,2\n".to_vec(),
            content_type: "text/csv".to_string(),
            accept: "application/json".to_string(),
        })
        .expect_err("predict should fail when model failed loading");
    assert_eq!(predict.code, GrpcCode::Internal);
    assert_eq!(predict.message, reason);
}

#[test]
fn grpc_predict_returns_resource_exhausted_when_no_inflight_capacity() {
    let service = InferenceGrpcService::new(AppConfig::default(), Ok(()));
    let request = PredictRequest {
        payload: br#"{"instances":[[1.0,2.0]]}"#.to_vec(),
        content_type: "application/json".to_string(),
        accept: "application/json".to_string(),
    };
    let result = service
        .predict(request)
        .expect("size is acceptable")
        .after_permit(false)
        .expect_err("must fail when semaphore has no permits");
    assert_eq!(result.code, GrpcCode::ResourceExhausted);
    assert!(result.message.contains("too_many_requests"));
}

#[test]
fn grpc_predict_success_populates_metadata_and_json_content_type() {
    let service = InferenceGrpcService::new(AppConfig::default(), Ok(()));
    let request = PredictRequest {
        payload: br#"{"instances":[[1.0,2.0],[3.0,4.0]]}"#.to_vec(),
        content_type: "application/json".to_string(),
        accept: "".to_string(),
    };
    let pending = service
        .predict(request)
        .expect("size is acceptable")
        .after_permit(true)
        .expect("permit")
        .after_load(&service, Ok(()))
        .expect("columns are there")
        .expect("payload is acceptable");
    let reply = pending
        .finish(&service, Ok(Json::Array(vec![whole(3), whole(7)])))
        .expect("predict should succeed");
    assert_eq!(reply.content_type, "application/json");
    assert_eq!(reply.body, b"[3,7]".to_vec());
    assert_eq!(reply.metadata.get("batch_size"), Some(&"2".to_string()));
}
