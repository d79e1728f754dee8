use axum::http::header::{ACCEPT, CONTENT_TYPE};
use axum::http::{HeaderMap, HeaderValue};
use onnx_serving::adapter::{
    build_onnx_tensors, choose_model_kind, load_adapter, ModelKind, ModelRun, OnnxAdapter,
    OutputTensor, TensorElements,
};
use onnx_serving::build_http_router;
use onnx_serving::config::DirectoryState;
use onnx_serving::grpc_service::{GrpcCode, PredictRequest};
use onnx_serving::http::{
    choose_text, header_value_with_fallback, http_invocations, http_openapi_spec, http_ready,
    method_of, HttpBody, HttpHandler, HttpMethod, HttpReply, Inference,
};
use onnx_serving::input::columns::columns_fit;
use onnx_serving::input::{
    csv_first_row_is_header, format_csv_predictions, is_json_content_type, load_json_map,
    load_multi_input_records, parse_col_selector, parse_csv_rows, parse_json_records,
    parse_json_rows, parse_jsonl_records, parse_jsonl_rows, resolve_content_type,
    strip_content_type_params, validate_dynamic_batch_sizes, validate_input_mode,
    validate_tabular_matrix_shape, value_to_numeric_rows, value_to_string, ParsedInput,
};
use onnx_serving::json::{Json, Number};
use onnx_serving::numeral::{decimal_string, read_usize, reads_as_number, signed_decimal_string};
use onnx_serving::openapi::{
    openapi_candidate_paths, openapi_lookup_paths, OPENAPI_SPEC_PATH_ENV_KEY,
};
use onnx_serving::paths::join;
use onnx_serving::string_map::StringMap;
use onnx_serving::text::{
    chars_of, filled_line_slices, lower_string, split_slice, string_of, trim_slice,
    trimmed_line_slices,
};
use onnx_serving::{AppConfig, AppState, InferenceGrpcService};

fn whole(n: u64) -> Json {
    Json::Number(Number::Unsigned(n))
}

fn float(digits: &str) -> Json {
    Json::Number(Number::Float(digits.to_string()))
}

fn text(s: &str) -> Json {
    Json::Text(s.to_string())
}

fn map<V>(entries: Vec<(&str, V)>) -> StringMap<V> {
    StringMap {
        entries: entries
            .into_iter()
            .map(|(key, value)| (key.to_string(), value))
            .collect(),
    }
}

fn rows(source: &[&[&str]]) -> Vec<Vec<String>> {
    source
        .iter()
        .map(|row| row.iter().map(|cell| cell.to_string()).collect())
        .collect()
}

fn headers(content_type: &str, accept: &str) -> HeaderMap {
    let mut headers = HeaderMap::new();
    headers.insert(CONTENT_TYPE, content_type.parse().expect("header value"));
    headers.insert(ACCEPT, accept.parse().expect("header value"));
    headers
}

fn error_reply(status: u16, message: &str) -> HttpReply {
    HttpReply {
        status,
        body: HttpBody::Json(Json::Object(map(vec![("error", text(message))]))),
    }
}

/// Runs a request through all its steps, with the outcome of the model.
fn over_http(state: &AppState, headers: &HeaderMap, payload: &[u8], model: Inference) -> HttpReply {
    let request = match http_invocations(state, headers, payload) {
        Ok(request) => request,
        Err(reply) => return reply,
    };
    match request
        .proceed(state, payload, true)
        .expect("columns are there")
    {
        Ok(pending) => pending.finish(state, model),
        Err(reply) => reply,
    }
}

/// Runs a call through all its steps, with the outcome of the model.
fn over_grpc(
    service: &InferenceGrpcService,
    request: PredictRequest,
    prediction: Result<Json, String>,
) -> Result<(Vec<u8>, String, Option<String>), (GrpcCode, String)> {
    let refused = |status: onnx_serving::grpc_service::GrpcStatus| (status.code, status.message);
    let opened = service.predict(request).map_err(refused)?;
    let permitted = opened.after_permit(true).map_err(refused)?;
    let pending = permitted
        .after_load(service, Ok(()))
        .expect("columns are there")
        .map_err(refused)?;
    let reply = pending.finish(service, prediction).map_err(refused)?;
    let batch = reply.metadata.get("batch_size").cloned();
    Ok((reply.body, reply.content_type, batch))
}

fn call(payload: &[u8], content_type: &str, accept: &str) -> PredictRequest {
    PredictRequest {
        payload: payload.to_vec(),
        content_type: content_type.to_string(),
        accept: accept.to_string(),
    }
}

#[test]
fn both_interfaces_give_the_same_predictions() {
    let state = AppState::new(AppConfig::default());
    let service = InferenceGrpcService::new(AppConfig::default(), Ok(()));
    let predictions = || Json::Array(vec![float("0.5"), float("1.25")]);
    for (payload, content_type) in [
        (&b"1,2\n3,4\n"[..], "text/csv"),
        (&br#"{"instances":[[1,2],[3,4]]}"#[..], "application/json"),
        (&b"[1,2]\n[3,4]\n"[..], "application/x-ndjson"),
    ] {
        for (accept, body, reply_type) in [
            ("application/json", &b"[0.5,1.25]"[..], "application/json"),
            ("text/csv", &b"0.5\n1.25"[..], "text/csv"),
        ] {
            let reply = over_http(
                &state,
                &headers(content_type, accept),
                payload,
                Inference::Predicted(predictions()),
            );
            assert_eq!(
                reply,
                HttpReply {
                    status: 200,
                    body: HttpBody::Typed {
                        content_type: reply_type.to_string(),
                        body: body.to_vec()
                    }
                }
            );
            let answer = over_grpc(
                &service,
                call(payload, content_type, accept),
                Ok(predictions()),
            );
            assert_eq!(
                answer,
                Ok((body.to_vec(), reply_type.to_string(), Some("2".to_string())))
            );
        }
    }
}

#[test]
fn both_interfaces_name_the_same_errors() {
    let cfg = AppConfig {
        max_records: 1,
        ..AppConfig::default()
    };
    let state = AppState::new(cfg.clone());
    let service = InferenceGrpcService::new(cfg, Ok(()));
    for (payload, content_type, message) in [
        (
            &b"{"[..],
            "application/json",
            "invalid json payload: EOF while parsing an object at line 1 column 1",
        ),
        (&b"1\n2\n"[..], "text/csv", "too_many_records: 2 > 1"),
        (
            &b"1"[..],
            "application/xml",
            "Unsupported Content-Type: application/xml",
        ),
    ] {
        let reply = over_http(
            &state,
            &headers(content_type, "application/json"),
            payload,
            Inference::Predicted(whole(1)),
        );
        assert_eq!(reply, error_reply(400, message));
        let answer = over_grpc(
            &service,
            call(payload, content_type, "application/json"),
            Ok(whole(1)),
        );
        assert_eq!(
            answer,
            Err((GrpcCode::InvalidArgument, message.to_string()))
        );
    }
}

#[test]
fn oversized_payloads_are_refused_by_both_interfaces() {
    let cfg = AppConfig {
        max_body_bytes: 3,
        ..AppConfig::default()
    };
    let state = AppState::new(cfg.clone());
    let service = InferenceGrpcService::new(cfg, Ok(()));
    let reply = over_http(
        &state,
        &headers("text/csv", "text/csv"),
        b"1,2\n",
        Inference::Predicted(whole(1)),
    );
    assert_eq!(
        reply,
        HttpReply {
            status: 413,
            body: HttpBody::Json(Json::Object(map(vec![
                ("error", text("payload_too_large")),
                ("max_bytes", whole(3)),
            ])))
        }
    );
    assert_eq!(
        over_grpc(&service, call(b"1,2\n", "text/csv", ""), Ok(whole(1))),
        Err((
            GrpcCode::InvalidArgument,
            "payload too large: 4 bytes > 3 bytes limit".to_string()
        ))
    );
    let at_limit = over_http(
        &state,
        &headers("text/csv", "text/csv"),
        b"1,2",
        Inference::Predicted(whole(1)),
    );
    assert_eq!(at_limit.status, 200);
}

#[test]
fn a_model_that_does_not_load_or_run_gives_no_predictions() {
    let state = AppState::new(AppConfig::default());
    let stated = headers("text/csv", "text/csv");
    let reply = over_http(
        &state,
        &stated,
        b"1\n",
        Inference::LoadFailed("no model".to_string()),
    );
    assert_eq!(reply, error_reply(500, "no model"));
    let reply = over_http(
        &state,
        &stated,
        b"1\n",
        Inference::PredictFailed("no luck".to_string()),
    );
    assert_eq!(reply, error_reply(400, "no luck"));

    let service = InferenceGrpcService::new(AppConfig::default(), Ok(()));
    let refused = service
        .predict(call(b"1\n", "text/csv", "text/csv"))
        .expect("size is acceptable")
        .after_permit(true)
        .expect("permit")
        .after_load(&service, Err("no model".to_string()))
        .expect("nothing is read")
        .expect_err("no model");
    assert_eq!(refused.code, GrpcCode::Internal);
    assert_eq!(refused.message, "no model");
    assert_eq!(
        over_grpc(
            &service,
            call(b"1\n", "text/csv", "text/csv"),
            Err("no luck".to_string())
        ),
        Err((GrpcCode::InvalidArgument, "no luck".to_string()))
    );
}

#[test]
fn calls_without_media_types_get_the_defaults() {
    let service = InferenceGrpcService::new(AppConfig::default(), Ok(()));
    let answer = over_grpc(&service, call(b"1,2\n3,4\n", "", ""), Ok(whole(5)));
    assert_eq!(
        answer,
        Ok((
            b"5".to_vec(),
            "application/json".to_string(),
            Some("2".to_string())
        ))
    );
}

#[test]
fn readiness_follows_the_model() {
    let service = InferenceGrpcService::new(AppConfig::default(), Ok(()));
    for (loaded, status, ok) in [
        (Ok(true), 200, true),
        (Ok(false), 500, false),
        (Err("gone".to_string()), 500, false),
    ] {
        let reply = http_ready(&loaded);
        assert_eq!(reply.status, status);
        assert_eq!(reply.body, HttpBody::Text("\n".to_string()));
        let answer = service.ready(&loaded);
        assert_eq!(answer.ok, ok);
        assert_eq!(answer.status, if ok { "ready" } else { "not_ready" });
    }
    assert_eq!(service.live().status, "live");
}

#[test]
fn rows_without_a_chosen_column_have_no_answer() {
    let cfg = AppConfig {
        tabular_feature_columns: "0,2".to_string(),
        ..AppConfig::default()
    };
    let state = AppState::new(cfg.clone());
    assert!(state.try_parse_payload(b"1,2\n", "text/csv").is_none());
    assert!(state.try_parse_payload(b"1,2,3\n4\n", "text/csv").is_none());
    let parsed = state
        .try_parse_payload(b"1,2,3\n4,5,6\n", "text/csv")
        .expect("columns are there")
        .expect("numbers");
    assert_eq!(parsed.x, Some(rows(&[&["1", "3"], &["4", "6"]])));
    assert!(state.read_request(b"1,2\n", "text/csv").is_none());
    assert!(!columns_fit(&rows(&[&["1", "2"]]), &cfg));
    assert!(columns_fit(&rows(&[&["1", "2", "3"]]), &cfg));
    let service = InferenceGrpcService::new(cfg, Ok(()));
    assert!(service
        .predict(call(b"1,2\n", "text/csv", ""))
        .expect("size is acceptable")
        .after_permit(true)
        .expect("permit")
        .after_load(&service, Ok(()))
        .is_none());
    let stated = headers("text/csv", "text/csv");
    let request = http_invocations(&state, &stated, b"1,2\n").expect("size is acceptable");
    assert!(request.proceed(&state, b"1,2\n", true).is_none());
}

#[test]
fn ragged_rows_are_cut_to_the_chosen_columns() {
    let cfg = AppConfig {
        tabular_feature_columns: ":1".to_string(),
        ..AppConfig::default()
    };
    let parsed = AppState::new(cfg)
        .parse_payload(b"1,2\n3\n4,5,6\n", "text/csv")
        .expect("numbers");
    assert_eq!(parsed.x, Some(rows(&[&["1"], &["3"], &["4"]])));
}

#[test]
fn selectors_name_columns() {
    assert_eq!(parse_col_selector("  ", 2), Ok(vec![0, 1]));
    assert_eq!(parse_col_selector("3:9", 5), Ok(vec![3, 4]));
    assert_eq!(parse_col_selector("4:2", 5), Ok(vec![]));
    assert_eq!(parse_col_selector("9:", 5), Ok(vec![]));
    assert_eq!(parse_col_selector(":", 2), Ok(vec![0, 1]));
    assert_eq!(parse_col_selector(" 7 , ,+1,", 2), Ok(vec![7, 1]));
    for selector in ["1:2:3", "a:", ":b", "-1", "1 :2", "1;2"] {
        assert_eq!(
            parse_col_selector(selector, 5),
            Err("Invalid column selector".to_string())
        );
    }
}

#[test]
fn kept_back_columns_are_left_out() {
    let cfg = AppConfig {
        tabular_id_columns: "1,3,9".to_string(),
        ..AppConfig::default()
    };
    let parsed = AppState::new(cfg)
        .parse_payload(b"1,2,3,4\n5,6,7,8\n", "text/csv")
        .expect("numbers");
    assert_eq!(parsed.x, Some(rows(&[&["1", "3"], &["5", "7"]])));
}

#[test]
fn chosen_columns_go_before_kept_back_columns() {
    let cfg = AppConfig {
        tabular_feature_columns: "1".to_string(),
        tabular_id_columns: "1".to_string(),
        ..AppConfig::default()
    };
    let parsed = AppState::new(cfg)
        .parse_payload(b"1,2\n", "text/csv")
        .expect("numbers");
    assert_eq!(parsed.x, Some(rows(&[&["2"]])));
}

#[test]
fn an_unreadable_selector_is_an_error() {
    let cfg = AppConfig {
        tabular_feature_columns: "x".to_string(),
        ..AppConfig::default()
    };
    let err = AppState::new(cfg)
        .parse_payload(b"1,2\n", "text/csv")
        .expect_err("selector");
    assert_eq!(err, "Invalid column selector");
}

#[test]
fn texts_that_read_as_numbers_are_those_of_the_standard_library() {
    let cases = [
        "", "+", "-", ".", "1", "+1", "-1", "--1", "1.", ".5", "-.5", "1.5", "1..5", "1.5.2", "e",
        "1e", "1e5", "1E5", "1e+5", "1e-5", "1e+", "1e5.0", ".e5", "1.e5", "5.e", "inf", "+inf",
        "-INF", "Infinity", "infinit", "nan", "-NaN", "+nan", "0x10", "1_000", " 1", "1 ", "1f",
        "١", "1e999", "0e0", "00012", "9999999999999999999999", "in", "e5", "+e5", "1-2", "+.",
    ];
    for case in cases {
        assert_eq!(
            reads_as_number(&chars_of(case)),
            case.parse::<f64>().is_ok(),
            "{case}"
        );
    }
}

#[test]
fn decimal_digits_read_back() {
    for n in [0u64, 7, 10, 42, 100, 65535, 18446744073709551615] {
        assert_eq!(decimal_string(n), n.to_string());
        assert_eq!(read_usize(&chars_of(&n.to_string())), Some(n as usize));
        assert!(reads_as_number(&chars_of(&n.to_string())));
    }
    for i in [0i64, 5, -5, i64::MAX, i64::MIN] {
        assert_eq!(signed_decimal_string(i), i.to_string());
    }
    assert_eq!(read_usize(&chars_of("18446744073709551616")), None);
    assert_eq!(read_usize(&chars_of("")), None);
    assert_eq!(read_usize(&chars_of("+")), None);
    assert_eq!(read_usize(&chars_of("+5")), Some(5));
}

#[test]
fn texts_are_taken_apart_as_by_the_standard_library() {
    for case in [
        "",
        " ",
        " a b ",
        "a\r\nb\n\nc",
        "\n\r\n \n",
        "x\r",
        "x\r\n",
        "\u{a0}é\u{2003}",
        "Ünï ABC",
    ] {
        let chars = chars_of(case);
        assert_eq!(string_of(trim_slice(&chars)), case.trim());
        assert_eq!(lower_string(&chars), case.to_ascii_lowercase());
        let lines: Vec<String> = trimmed_line_slices(&chars)
            .into_iter()
            .map(string_of)
            .collect();
        assert_eq!(lines, case.lines().map(str::trim).collect::<Vec<_>>());
        let filled: Vec<String> = filled_line_slices(&chars)
            .into_iter()
            .map(string_of)
            .collect();
        assert_eq!(
            filled,
            case.lines()
                .map(str::trim)
                .filter(|line| !line.is_empty())
                .collect::<Vec<_>>()
        );
    }
    for (source, delimiter) in [
        ("a,b", ","),
        (",", ","),
        ("", ","),
        ("a--b---c", "--"),
        ("aaa", "aa"),
        ("ab", ""),
        ("", ""),
    ] {
        let chars = chars_of(source);
        let parts: Vec<String> = split_slice(&chars, &chars_of(delimiter))
            .into_iter()
            .map(string_of)
            .collect();
        assert_eq!(parts, source.split(delimiter).collect::<Vec<_>>());
    }
}

#[test]
fn media_types_are_compared_without_case_and_parameters() {
    assert_eq!(strip_content_type_params(" TEXT/Csv ;a;b"), "text/csv");
    assert_eq!(strip_content_type_params(""), "");
    assert_eq!(resolve_content_type("text/csv;header=present"), "text/csv");
    let settled = strip_content_type_params("Application/JSONL; q=1");
    assert_eq!(strip_content_type_params(&settled), settled);
    for content_type in [
        "application/json",
        "application/*+json",
        "application/jsonlines",
        "application/x-jsonlines",
        "application/jsonl",
        "application/x-ndjson",
    ] {
        assert!(is_json_content_type(content_type));
    }
    for content_type in ["text/csv", "application/csv", "Application/json", ""] {
        assert!(!is_json_content_type(content_type));
    }
    let state = AppState::new(AppConfig::default());
    for content_type in ["text/csv", "APPLICATION/CSV; charset=utf-8"] {
        let parsed = state
            .parse_payload(b"1,2\n", content_type)
            .expect("csv");
        assert_eq!(parsed.x, Some(rows(&[&["1", "2"]])));
    }
}

#[test]
fn only_the_tabular_mode_is_known() {
    let err = validate_input_mode(&AppConfig {
        input_mode: "image".to_string(),
        ..AppConfig::default()
    })
    .expect_err("mode");
    assert_eq!(err, "INPUT_MODE=image not implemented (tabular only for now)");
}

#[test]
fn shapes_are_checked_against_the_settings() {
    let cfg = AppConfig {
        tabular_num_features: 3,
        ..AppConfig::default()
    };
    assert_eq!(
        validate_tabular_matrix_shape(&rows(&[&["1", "2"]]), &cfg),
        Err("Feature count mismatch: got 2 expected TABULAR_NUM_FEATURES=3".to_string())
    );
    assert_eq!(
        validate_tabular_matrix_shape(&rows(&[&["1", "2", "3"], &["4"]]), &cfg),
        Ok(())
    );
}

#[test]
fn csv_headers_are_detected() {
    assert!(csv_first_row_is_header("a,1", ","));
    assert!(csv_first_row_is_header("1,,2", ","));
    assert!(!csv_first_row_is_header(" 1 ,inf,-2e3", ","));
    let with = |mode: &str| AppConfig {
        csv_has_header: mode.to_string(),
        ..AppConfig::default()
    };
    let numeric = b"1,2\n3,4\n";
    assert_eq!(
        parse_csv_rows(numeric, &with("auto")),
        parse_csv_rows(numeric, &with("false"))
    );
    assert_eq!(
        parse_csv_rows(numeric, &with("true")),
        Ok(rows(&[&["3", "4"]]))
    );
    let headed = b"a,b\n3,4\n";
    assert_eq!(
        parse_csv_rows(headed, &with("auto")),
        parse_csv_rows(headed, &with("true"))
    );
    assert_eq!(
        parse_csv_rows(headed, &with("false")),
        Err("Expected numeric value in CSV payload".to_string())
    );
    assert_eq!(
        parse_csv_rows(b"a,b\n", &with("auto")),
        Err("CSV payload contains only header row".to_string())
    );
}

#[test]
fn blank_csv_lines_are_passed_over_or_not() {
    let skip = AppConfig::default();
    assert_eq!(
        parse_csv_rows(b"\n 1 , 2 \r\n\n3,4", &skip),
        Ok(rows(&[&["1", "2"], &["3", "4"]]))
    );
    assert_eq!(
        parse_csv_rows(b" \n\n", &skip),
        Err("Empty CSV payload".to_string())
    );
    let keep = AppConfig {
        csv_skip_blank_lines: false,
        csv_has_header: "false".to_string(),
        ..AppConfig::default()
    };
    assert_eq!(
        parse_csv_rows(b"1,2\n\n3,4", &keep),
        Err("Expected numeric value in CSV payload".to_string())
    );
    let err = parse_csv_rows(&[0x31, 0xff], &skip).expect_err("utf-8");
    assert_eq!(
        err,
        "invalid utf-8 csv payload: invalid utf-8 sequence of 1 bytes from index 1"
    );
}

#[test]
fn csv_delimiters_are_free() {
    let cfg = AppConfig {
        csv_delimiter: "||".to_string(),
        ..AppConfig::default()
    };
    assert_eq!(
        parse_csv_rows(b"1||2\n3||4\n", &cfg),
        Ok(rows(&[&["1", "2"], &["3", "4"]]))
    );
}

#[test]
fn csv_reads_back_what_it_wrote() {
    let predictions = Json::Array(vec![
        Json::Array(vec![whole(10), whole(0)]),
        Json::Array(vec![whole(3), whole(45)]),
    ]);
    let source = format_csv_predictions(&predictions, ",").expect("rows");
    assert_eq!(source, "10,0\n3,45");
    assert_eq!(
        parse_csv_rows(source.as_bytes(), &AppConfig::default()),
        Ok(rows(&[&["10", "0"], &["3", "45"]]))
    );
}

#[test]
fn numbers_of_all_kinds_read_back_from_csv() {
    let numbers = [0.5, -2.25, 1e300, -1e-7, 0.1, 123456789.125, -0.0, 5e-324];
    let floats: Vec<Json> = numbers
        .iter()
        .map(|n| serde_json::Number::from_f64(*n).expect("finite"))
        .map(|n| float(&n.to_string()))
        .collect();
    let predictions = Json::Array(vec![
        Json::Array(floats),
        Json::Array(vec![
            Json::Number(Number::Signed(i64::MIN)),
            whole(u64::MAX),
            Json::Number(Number::Signed(-7)),
        ]),
    ]);
    for (delimiter, has_header) in [(",", "auto"), (",", "false"), (";", "auto"), ("\t", "false")] {
        let state = AppState::new(AppConfig {
            csv_delimiter: delimiter.to_string(),
            csv_has_header: has_header.to_string(),
            ..AppConfig::default()
        });
        let (body, content_type) = state
            .format_output(predictions.clone(), "text/csv")
            .expect("rows");
        assert_eq!(content_type, "text/csv");
        let read = parse_csv_rows(&body, &state.cfg).expect("numbers");
        let first: Vec<f64> = read[0].iter().map(|s| s.parse().expect("float")).collect();
        assert_eq!(first, numbers.to_vec());
        assert_eq!(
            read[1],
            vec!["-9223372036854775808", "18446744073709551615", "-7"]
        );
    }
}

#[test]
fn loading_fails_in_a_fixed_order() {
    let with = |model_type: &str, output_map: &str| AppConfig {
        model_type: model_type.to_string(),
        model_dir: "/m".to_string(),
        model_filename: "a.onnx".to_string(),
        onnx_output_map_json: output_map.to_string(),
        ..AppConfig::default()
    };
    let found = DirectoryState::Directory;
    for (cfg, state, exists, expected) in [
        (with("onnx", "1"), found, true, Ok("/m/a.onnx")),
        (with("pmml", "1"), found, true, Ok("/m/a.onnx")),
        (
            with("onnx", "1"),
            DirectoryState::Missing,
            false,
            Err("Model directory '/m' does not exist"),
        ),
        (
            with("onnx", "1"),
            DirectoryState::NotDirectory,
            true,
            Err("Model directory '/m' is not a directory"),
        ),
        (
            with("onnx", "1"),
            found,
            false,
            Err("ONNX model not found: /m/a.onnx"),
        ),
        (
            with("pmml", "1"),
            DirectoryState::NotDirectory,
            true,
            Err("MODEL_TYPE=pmml is not implemented in this package"),
        ),
        (
            with("", "1"),
            DirectoryState::Missing,
            true,
            Err("Set MODEL_TYPE=onnx or place model.onnx under SM_MODEL_DIR"),
        ),
    ] {
        let expected = expected.map(str::to_string).map_err(str::to_string);
        assert_eq!(load_adapter(&cfg, state, exists), expected);
    }
    assert_eq!(
        OnnxAdapter::locate(&with("pmml", ""), found, false),
        Err("ONNX model not found: /m/a.onnx".to_string())
    );
    let failed = OnnxAdapter::new(with("onnx", "1"), "/m/a.onnx", Err("bad magic".to_string()));
    assert_eq!(
        failed.expect_err("load"),
        "Failed to load or prepare ONNX model /m/a.onnx: bad magic"
    );
    let unread = OnnxAdapter::new(with("onnx", "1"), "/m/a.onnx", Ok(()));
    assert_eq!(unread.expect_err("map"), "Expected JSON object mapping");
    assert!(OnnxAdapter::new(with("onnx", ""), "/m/a.onnx", Ok(())).is_ok());
}

#[test]
fn no_json_number_is_refused() {
    let cfg = AppConfig::default();
    let numbers = "1.5, -0.0, 1e300, 1E-7, 5e-324, 0.1e1, 123456789012345678901234567890, -3, 2.50";
    let payload = format!("[[{numbers}],[{numbers}]]");
    let read = parse_json_rows(payload.as_bytes(), &cfg).expect("numbers");
    assert_eq!(read.len(), 2);
    let expected: Vec<f64> = numbers
        .split(',')
        .map(|number| number.trim().parse().expect("float"))
        .collect();
    for row in read {
        let got: Vec<f64> = row.iter().map(|cell| cell.parse().expect("float")).collect();
        assert_eq!(got, expected);
    }
    let lines = format!("[{numbers}]\n{{\"features\":[{numbers}]}}\n7.25");
    assert_eq!(
        parse_jsonl_rows(lines.as_bytes(), &cfg)
            .expect("numbers")
            .len(),
        3
    );
    let state = AppState::new(AppConfig {
        onnx_input_map_json: r#"{"a":"in"}"#.to_string(),
        ..AppConfig::default()
    });
    let parsed = state
        .parse_payload(
            format!("{{\"a\":[{numbers}]}}").as_bytes(),
            "application/json",
        )
        .expect("record");
    let tensor = OnnxAdapter::prepare(&parsed).expect("rows of numbers");
    assert!(tensor
        .cells
        .iter()
        .all(|cell| reads_as_number(&chars_of(cell))));
}

#[test]
fn json_lines_can_be_joined() {
    let cfg = AppConfig::default();
    for (first, second) in [
        ("[1,2]", "[3,4]\n5"),
        ("[1]\r", "[2]"),
        ("", "[2]"),
        ("[1]\n\n", "\n[2]\n"),
        ("x", "[2]"),
        ("[1]", "x"),
    ] {
        let joined = parse_jsonl_rows(format!("{first}\n{second}").as_bytes(), &cfg);
        let expected = parse_jsonl_rows(first.as_bytes(), &cfg).and_then(|mut rows| {
            rows.extend(parse_jsonl_rows(second.as_bytes(), &cfg)?);
            Ok(rows)
        });
        assert_eq!(joined, expected);
    }
    let joined = parse_jsonl_records(b"{\"a\":1}\n{\"b\":2}").expect("records");
    assert_eq!(
        joined,
        vec![map(vec![("a", whole(1))]), map(vec![("b", whole(2))])]
    );
}

#[test]
fn headers_are_what_no_row_is() {
    let cfg = AppConfig {
        csv_has_header: "false".to_string(),
        ..AppConfig::default()
    };
    for line in ["1,2", "a,b", "1,", " 3 ", "nan,inf", "1;2"] {
        assert_eq!(
            csv_first_row_is_header(line, ","),
            parse_csv_rows(line.as_bytes(), &cfg).is_err()
        );
    }
}

#[test]
fn json_payloads_hold_rows_in_several_places() {
    let cfg = AppConfig::default();
    for (payload, expected) in [
        (&br#"[[1,2],[3,4]]"#[..], rows(&[&["1", "2"], &["3", "4"]])),
        (&br#"[1,-2,3.5]"#[..], rows(&[&["1", "-2", "3.5"]])),
        (&br#"7"#[..], rows(&[&["7"]])),
        (&br#"[]"#[..], rows(&[&[]])),
        (&br#"{"instances":[[1],[2]]}"#[..], rows(&[&["1"], &["2"]])),
        (
            &br#"{"instances":[5],"features":[6]}"#[..],
            rows(&[&["5"]]),
        ),
        (&br#"{"features":[5,6]}"#[..], rows(&[&["5", "6"]])),
    ] {
        assert_eq!(parse_json_rows(payload, &cfg), Ok(expected));
    }
    for (payload, message) in [
        (&br#"[[1],2]"#[..], "Expected array row"),
        (&br#"[[1],["x"]]"#[..], "Expected numeric value in payload"),
        (&br#"[1,null]"#[..], "Expected numeric value in payload"),
        (&br#"{"a":1}"#[..], "Expected tabular numeric payload"),
        (&br#"true"#[..], "Expected tabular numeric payload"),
        (
            &br#"nope"#[..],
            "invalid json payload: expected ident at line 1 column 2",
        ),
    ] {
        assert_eq!(parse_json_rows(payload, &cfg), Err(message.to_string()));
    }
}

#[test]
fn json_lines_hold_rows() {
    let cfg = AppConfig::default();
    assert_eq!(
        parse_jsonl_rows(b"[1,2]\n\n{\"features\":[[3],[4]]}\n5", &cfg),
        Ok(rows(&[&["1", "2"], &["3"], &["4"], &["5"]]))
    );
    assert_eq!(parse_jsonl_rows(b" \n", &cfg), Ok(vec![]));
    assert_eq!(
        parse_jsonl_rows(b"[1]\n{\"a\":2}", &cfg),
        Err("Expected tabular numeric payload".to_string())
    );
    assert_eq!(
        parse_jsonl_rows(b"[1", &cfg),
        Err("invalid json line payload: EOF while parsing a list at line 1 column 2".to_string())
    );
    assert_eq!(
        parse_jsonl_rows(&[0xff], &cfg),
        Err("invalid utf-8 payload: invalid utf-8 sequence of 1 bytes from index 0".to_string())
    );
    let err = AppState::new(cfg)
        .parse_payload(b"", "application/jsonl")
        .expect_err("no rows");
    assert_eq!(err, "Parsed payload is empty");
}

#[test]
fn setting_maps_are_objects_of_texts() {
    let read = load_json_map(r#" {"b":"2","a":"1"} "#).expect("map");
    assert_eq!(read.len(), 2);
    assert_eq!(read.get("a"), Some(&"1".to_string()));
    assert_eq!(read.get("b"), Some(&"2".to_string()));
    assert_eq!(read.get("c"), None);
    assert_eq!(
        load_json_map("[1]"),
        Err("Expected JSON object mapping".to_string())
    );
    assert_eq!(
        load_json_map(r#"{"a":1}"#),
        Err("Expected string value for key 'a' in JSON object mapping".to_string())
    );
    assert_eq!(
        load_json_map("{"),
        Err("Expected JSON object mapping: EOF while parsing an object at line 1 column 1".to_string())
    );
}

#[test]
fn setting_a_key_is_seen_under_that_key_only() {
    let mut entries: StringMap<u64> = StringMap::new();
    assert!(entries.is_empty());
    entries.insert("a".to_string(), 1);
    entries.insert("b".to_string(), 2);
    entries.insert("a".to_string(), 3);
    assert_eq!(entries.len(), 2);
    assert_eq!(entries.get("a"), Some(&3));
    assert_eq!(entries.get("b"), Some(&2));
    assert!(!entries.contains_key("c"));
}

#[test]
fn records_are_objects() {
    let cfg = AppConfig::default();
    assert_eq!(
        parse_json_records(b"3", &cfg),
        Err("ONNX multi-input mode expects a JSON object or a non-empty list of objects".to_string())
    );
    assert_eq!(
        parse_json_records(b"[1]", &cfg),
        Err("ONNX multi-input mode expects each record to be a JSON object".to_string())
    );
    assert_eq!(
        parse_json_records(b"[", &cfg),
        Err("invalid json payload: EOF while parsing a list at line 1 column 1".to_string())
    );
    let single = parse_json_records(br#"{"instances":{"a":1}}"#, &cfg).expect("record");
    assert_eq!(single, vec![map(vec![("a", whole(1))])]);
    let lines = parse_jsonl_records(b"{\"a\":1}\n\n{\"b\":[true]}").expect("records");
    assert_eq!(
        lines,
        vec![
            map(vec![("a", whole(1))]),
            map(vec![("b", Json::Array(vec![Json::Bool(true)]))]),
        ]
    );
    assert_eq!(
        parse_jsonl_records(b"{"),
        Err("invalid json line payload: EOF while parsing an object at line 1 column 1".to_string())
    );
    let loaded = load_multi_input_records(br#"[{"a":1}]"#, "application/*+json", &cfg);
    assert_eq!(loaded, Ok(vec![map(vec![("a", whole(1))])]));
}

#[test]
fn tensors_hold_one_row_for_each_record() {
    let fields = vec![
        map(vec![("a", whole(1)), ("b", text("x"))]),
        map(vec![("b", text("y")), ("a", whole(2))]),
    ];
    let inputs = map(vec![("a", "in_a".to_string()), ("b", "in_b".to_string())]);
    let tensors = build_onnx_tensors(&fields, &inputs, true).expect("tensors");
    assert_eq!(
        tensors.get("in_a"),
        Some(&Json::Array(vec![whole(1), whole(2)]))
    );
    assert_eq!(
        tensors.get("in_b"),
        Some(&Json::Array(vec![text("x"), text("y")]))
    );
    let parsed = ParsedInput {
        x: None,
        tensors: Some(tensors),
        meta: None,
    };
    assert_eq!(parsed.batch_size(), Ok(2));

    let missing = map(vec![("c", "in_c".to_string())]);
    assert_eq!(
        build_onnx_tensors(&fields, &missing, false),
        Err("Missing key 'c' in one of the records for ONNX multi-input".to_string())
    );
    let none: StringMap<String> = StringMap::new();
    assert_eq!(
        build_onnx_tensors(&fields, &none, true),
        Err("ONNX_DYNAMIC_BATCH enabled but batch dimension invalid".to_string())
    );
    assert_eq!(
        build_onnx_tensors(&[], &inputs, true),
        Err("ONNX_DYNAMIC_BATCH enabled but batch dimension invalid".to_string())
    );
    let unchecked = build_onnx_tensors(&[], &inputs, false).expect("tensors");
    assert_eq!(unchecked.get("in_a"), Some(&Json::Array(vec![])));
}

#[test]
fn inputs_with_one_name_share_a_tensor() {
    let fields = vec![map(vec![("a", whole(1)), ("b", whole(2))])];
    let inputs = map(vec![("a", "in".to_string()), ("b", "in".to_string())]);
    let tensors = build_onnx_tensors(&fields, &inputs, true).expect("tensors");
    assert_eq!(tensors.len(), 1);
    assert_eq!(tensors.get("in"), Some(&Json::Array(vec![whole(2)])));
}

#[test]
fn payloads_of_records_become_tensors() {
    let cfg = AppConfig {
        onnx_input_map_json: r#"{"a":"input_a"}"#.to_string(),
        ..AppConfig::default()
    };
    let state = AppState::new(cfg);
    let parsed = state
        .parse_payload(br#"{"instances":[{"a":[1,2]},{"a":[3,4]}]}"#, "application/json")
        .expect("records");
    assert_eq!(parsed.x, None);
    assert_eq!(
        parsed.meta,
        Some(Json::Object(map(vec![
            ("mode", text("onnx_multi_input")),
            ("records", whole(2)),
        ])))
    );
    assert_eq!(parsed.batch_size(), Ok(2));
    let tensor = OnnxAdapter::prepare(&parsed).expect("one input");
    assert_eq!((tensor.n_rows, tensor.n_cols), (2, 2));
    assert_eq!(tensor.cells, vec!["1", "2", "3", "4"]);

    let err = state
        .parse_payload(br#"{"instances":[]}"#, "application/json")
        .expect_err("no records");
    assert_eq!(
        err,
        "ONNX multi-input mode expects a JSON object or a non-empty list of objects"
    );
    let tabular = state.parse_payload(b"1,2\n", "text/csv").expect("csv");
    assert_eq!(tabular.x, Some(rows(&[&["1", "2"]])));
}

#[test]
fn an_unreadable_input_map_is_an_error() {
    let cfg = AppConfig {
        onnx_input_map_json: "3".to_string(),
        ..AppConfig::default()
    };
    let err = AppState::new(cfg)
        .parse_payload(b"1,2\n", "text/csv")
        .expect_err("map");
    assert_eq!(err, "Expected JSON object mapping");
}

#[test]
fn batch_sizes_must_agree() {
    assert_eq!(validate_dynamic_batch_sizes(&[3, 3, 3]), Ok(()));
    assert_eq!(
        validate_dynamic_batch_sizes(&[]),
        Err("ONNX_DYNAMIC_BATCH enabled but batch dimension invalid".to_string())
    );
    assert_eq!(
        validate_dynamic_batch_sizes(&[2, 3, 2]),
        Err("ONNX inputs have mismatched batch sizes: [2, 3, 2]".to_string())
    );
    let parsed = |tensors: Vec<(&str, Json)>| ParsedInput {
        x: None,
        tensors: Some(map(tensors)),
        meta: None,
    };
    let one = || Json::Array(vec![whole(1)]);
    let two = || Json::Array(vec![whole(1), whole(2)]);
    assert_eq!(parsed(vec![("a", two()), ("b", two())]).batch_size(), Ok(2));
    assert_eq!(
        parsed(vec![("a", two()), ("b", one())]).batch_size(),
        Err("ONNX inputs have mismatched batch sizes: [2, 1]".to_string())
    );
    assert_eq!(
        parsed(vec![("a", Json::Array(vec![]))]).batch_size(),
        Err("ONNX_DYNAMIC_BATCH enabled but batch dimension invalid".to_string())
    );
    let nothing = ParsedInput {
        x: None,
        tensors: None,
        meta: None,
    };
    assert_eq!(
        nothing.batch_size(),
        Err("Parsed input contained no features/tensors".to_string())
    );
    let matrix = ParsedInput {
        x: Some(rows(&[&["1"], &["2"], &["3"]])),
        tensors: None,
        meta: None,
    };
    assert_eq!(matrix.batch_size(), Ok(3));
}

#[test]
fn tensors_hold_rows_one_after_another() {
    let tensor =
        OnnxAdapter::rows_to_tensor(&rows(&[&["1", "2", "3"], &["4", "5", "6"]])).expect("tensor");
    assert_eq!((tensor.n_rows, tensor.n_cols), (2, 3));
    assert_eq!(tensor.cells[3 + 2], "6");
    assert_eq!(
        OnnxAdapter::rows_to_tensor(&rows(&[&["1"], &["2", "3"]])),
        Err("Input rows have inconsistent feature counts".to_string())
    );
    assert_eq!(
        OnnxAdapter::rows_to_tensor(&[]),
        Err("Parsed payload is empty".to_string())
    );
}

#[test]
fn the_model_takes_one_tensor() {
    let parsed = |tensors: Vec<(&str, Json)>| ParsedInput {
        x: None,
        tensors: Some(map(tensors)),
        meta: None,
    };
    assert_eq!(
        OnnxAdapter::prepare(&parsed(vec![])),
        Err("Parsed input contained no tensors".to_string())
    );
    assert_eq!(
        OnnxAdapter::prepare(&parsed(vec![("a", whole(1)), ("b", whole(2))])),
        Err("Parsed input contained 2 ONNX input tensors, but this adapter currently supports only a single input tensor".to_string())
    );
    assert_eq!(
        OnnxAdapter::prepare(&parsed(vec![("a", text("x"))])),
        Err("Expected tabular numeric payload".to_string())
    );
    let nothing = ParsedInput {
        x: None,
        tensors: None,
        meta: None,
    };
    assert_eq!(
        OnnxAdapter::parsed_input_to_rows(&nothing),
        Err("Parsed input contained no features/tensors".to_string())
    );
}

fn integers(shape: &[usize], elements: &[i64]) -> OutputTensor {
    OutputTensor {
        shape: shape.to_vec(),
        elements: TensorElements::Integers(elements.to_vec()),
    }
}

#[test]
fn tensors_come_out_in_rows() {
    assert_eq!(
        OnnxAdapter::tensor_to_json(&integers(&[2, 2], &[1, -2, 3, 4])),
        Ok(Json::Array(vec![
            Json::Array(vec![whole(1), Json::Number(Number::Signed(-2))]),
            Json::Array(vec![whole(3), whole(4)]),
        ]))
    );
    assert_eq!(
        OnnxAdapter::tensor_to_json(&integers(&[2, 0], &[])),
        Ok(Json::Array(vec![Json::Array(vec![]), Json::Array(vec![])]))
    );
    let gaps = OutputTensor {
        shape: vec![2],
        elements: TensorElements::Floats(vec![Some("0.5".to_string()), None]),
    };
    assert_eq!(
        OnnxAdapter::tensor_to_json(&gaps),
        Ok(Json::Array(vec![float("0.5"), Json::Null]))
    );
}

#[test]
fn outputs_are_chosen_by_the_settings() {
    let outputs = || {
        ModelRun::Outputs(vec![
            integers(&[1], &[10]),
            integers(&[1], &[11]),
            integers(&[1], &[12]),
        ])
    };
    let one = |n: u64| Ok(Json::Array(vec![whole(n)]));
    let with = |name: &str, index: usize, output_map: &str| {
        let cfg = AppConfig {
            onnx_output_name: name.to_string(),
            onnx_output_index: index,
            onnx_output_map_json: output_map.to_string(),
            ..AppConfig::default()
        };
        OnnxAdapter::new(cfg, "model.onnx", Ok(())).expect("adapter")
    };
    assert_eq!(with("", 0, "").finish(outputs()), one(10));
    assert_eq!(with("", 1, "").finish(outputs()), one(11));
    assert_eq!(with("", 9, "").finish(outputs()), one(12));
    assert_eq!(with("2", 1, "").finish(outputs()), one(12));
    assert_eq!(with("label", 1, "").finish(outputs()), one(11));
    assert_eq!(with(" 2", 1, "").finish(outputs()), one(11));
    assert_eq!(
        with("2", 1, r#"{"x":"1","y":"name","z":"7"}"#).finish(outputs()),
        Ok(Json::Object(map(vec![
            ("x", Json::Array(vec![whole(11)])),
            ("y", Json::Array(vec![whole(10)])),
            ("z", Json::Array(vec![whole(12)])),
        ])))
    );
    let adapter = with("", 0, "");
    assert_eq!(
        adapter.finish(ModelRun::Unavailable),
        Err("ONNX model runtime unavailable".to_string())
    );
    assert_eq!(
        adapter.finish(ModelRun::Failed("shape".to_string())),
        Err("ONNX inference failed: shape".to_string())
    );
}

#[test]
fn model_kinds_follow_the_settings() {
    let with = |model_type: &str| AppConfig {
        model_type: model_type.to_string(),
        ..AppConfig::default()
    };
    assert_eq!(choose_model_kind(&with("onnx"), false), Ok(ModelKind::Onnx));
    assert_eq!(choose_model_kind(&with(""), true), Ok(ModelKind::Onnx));
    assert_eq!(choose_model_kind(&with("pmml"), true), Ok(ModelKind::Onnx));
    assert_eq!(
        choose_model_kind(&with("pmml"), false),
        Err("MODEL_TYPE=pmml is not implemented in this package".to_string())
    );
    assert_eq!(
        choose_model_kind(&with(""), false),
        Err("Set MODEL_TYPE=onnx or place model.onnx under SM_MODEL_DIR".to_string())
    );
}

#[test]
fn the_model_stands_in_its_directory() {
    let cfg = AppConfig {
        model_dir: "/models".to_string(),
        model_filename: "m.onnx".to_string(),
        ..AppConfig::default()
    };
    assert_eq!(
        cfg.model_path(DirectoryState::Directory),
        Ok("/models/m.onnx".to_string())
    );
    assert_eq!(join("", "a"), "a");
    assert_eq!(join("/srv/", "a"), "/srv/a");
    assert_eq!(join("/srv", "/a"), "/a");
}

#[test]
fn cells_are_written_by_kind() {
    assert_eq!(value_to_string(&Json::Null), "");
    assert_eq!(value_to_string(&Json::Bool(false)), "false");
    assert_eq!(value_to_string(&whole(12)), "12");
    assert_eq!(value_to_string(&Json::Number(Number::Signed(-3))), "-3");
    assert_eq!(value_to_string(&float("2.5")), "2.5");
    assert_eq!(value_to_string(&text("a,b")), "a,b");
    assert_eq!(
        value_to_string(&Json::Array(vec![whole(1), text("x")])),
        "[1,\"x\"]"
    );
    assert_eq!(
        format_csv_predictions(&Json::Array(vec![Json::Array(vec![]), whole(1)]), ","),
        Err("expected csv row array".to_string())
    );
    assert_eq!(
        format_csv_predictions(&Json::Array(vec![]), ","),
        Ok("".to_string())
    );
}

#[test]
fn replies_have_the_type_that_is_asked_for() {
    let state = AppState::new(AppConfig::default());
    let predictions = || Json::Array(vec![whole(1)]);
    for (accept, content_type, body) in [
        ("text/csv", "text/csv", "1"),
        ("Application/CSV , text/plain", "text/csv", "1"),
        ("application/json", "application/json", "[1]"),
        ("application/xml, text/csv", "application/json", "[1]"),
        ("", "application/json", "[1]"),
        ("text/csv;q=1", "application/json", "[1]"),
    ] {
        assert_eq!(
            state.format_output(predictions(), accept),
            Ok((body.as_bytes().to_vec(), content_type.to_string()))
        );
    }
    let object = Json::Object(map(vec![("b", float("2.0")), ("a", Json::Null)]));
    let (body, content_type) = state.format_output(object, "text/csv").expect("object");
    assert_eq!(content_type, "application/json");
    let read: serde_json::Value = serde_json::from_slice(&body).expect("json");
    assert_eq!(read["b"], serde_json::Value::from(2.0));
    assert!(read["a"].is_null());
    assert_eq!(
        state.answer(Err("no".to_string()), "text/csv"),
        Err("no".to_string())
    );
}

#[test]
fn json_values_survive_writing_and_reading() {
    let state = AppState::new(AppConfig {
        predictions_only: false,
        ..AppConfig::default()
    });
    let (body, _) = state
        .format_output(
            Json::Array(vec![whole(1), float("-0.25"), text("\"é\n"), Json::Bool(true)]),
            "application/json",
        )
        .expect("json");
    assert_eq!(
        String::from_utf8(body).expect("utf-8"),
        "{\"predictions\":[1,-0.25,\"\\\"é\\n\",true]}"
    );
}

#[test]
fn headers_go_in_order() {
    let mut stated = HeaderMap::new();
    stated.insert("x-other", HeaderValue::from_static("second"));
    assert_eq!(
        header_value_with_fallback(&stated, "accept", "x-other", "third"),
        "second"
    );
    stated.append(ACCEPT, HeaderValue::from_static("first"));
    stated.append(ACCEPT, HeaderValue::from_static("later"));
    assert_eq!(
        header_value_with_fallback(&stated, "accept", "x-other", "third"),
        "first"
    );
    stated.insert(
        ACCEPT,
        HeaderValue::from_bytes(b"\xe9").expect("opaque value"),
    );
    assert_eq!(
        header_value_with_fallback(&stated, "accept", "x-other", "third"),
        "second"
    );
    assert_eq!(
        header_value_with_fallback(&stated, "accept", "X-Other", "third"),
        "third"
    );
    assert_eq!(
        header_value_with_fallback(&stated, "accept", "", "third"),
        "third"
    );
    assert_eq!(
        header_value_with_fallback(&stated, "content-type", "x-missing", "third"),
        "third"
    );
    assert_eq!(
        choose_text(None, Some("b".to_string()), "c"),
        "b".to_string()
    );
}

#[test]
fn header_names_are_those_of_the_outside_crate() {
    let long = "a".repeat(65535);
    let longer = "a".repeat(65536);
    let mut names: Vec<String> = (0u8..=127).map(|b| (b as char).to_string()).collect();
    names.push("é".to_string());
    for name in names.iter() {
        let mut stated = HeaderMap::new();
        let valid = match axum::http::HeaderName::from_lowercase(name.as_bytes()) {
            Ok(valid) => {
                stated.insert(valid, HeaderValue::from_static("found"));
                true
            }
            Err(_) => false,
        };
        let expected = if valid { "found" } else { "default" };
        assert_eq!(
            header_value_with_fallback(&stated, "accept", name, "default"),
            expected
        );
    }
    assert!(axum::http::HeaderName::from_lowercase(long.as_bytes()).is_ok());
    assert!(axum::http::HeaderName::from_lowercase(longer.as_bytes()).is_err());
}

#[test]
fn routes_follow_the_settings() {
    let paths = |cfg: &AppConfig| -> Vec<(String, HttpHandler)> {
        build_http_router(cfg)
            .into_iter()
            .map(|route| {
                let posted = route.path == "/invocations";
                let method = if posted { HttpMethod::Post } else { HttpMethod::Get };
                assert_eq!(route.method, method);
                assert_eq!(method_of(route.handler), method);
                (route.path, route.handler)
            })
            .collect()
    };
    let service: Vec<(String, HttpHandler)> = [
        ("/live", HttpHandler::Live),
        ("/healthz", HttpHandler::Live),
        ("/ready", HttpHandler::Ready),
        ("/readyz", HttpHandler::Ready),
        ("/ping", HttpHandler::Ready),
        ("/invocations", HttpHandler::Invocations),
    ]
    .iter()
    .map(|(path, handler)| (path.to_string(), *handler))
    .collect();
    let bare = AppConfig {
        swagger_enabled: false,
        prometheus_enabled: false,
        ..AppConfig::default()
    };
    assert_eq!(paths(&bare), service);
    let all = AppConfig {
        prometheus_path: "/numbers".to_string(),
        ..AppConfig::default()
    };
    let mut expected = service;
    expected.push(("/openapi.yaml".to_string(), HttpHandler::OpenApi));
    expected.push(("/docs".to_string(), HttpHandler::Docs));
    expected.push(("/numbers".to_string(), HttpHandler::Metrics));
    assert_eq!(paths(&all), expected);
}

#[test]
fn the_contract_is_looked_for_in_order() {
    assert_eq!(OPENAPI_SPEC_PATH_ENV_KEY, "OPENAPI_SPEC_PATH");
    assert_eq!(
        openapi_candidate_paths("/srv/app"),
        [
            "/srv/app/../docs/openapi.yaml".to_string(),
            "docs/openapi.yaml".to_string()
        ]
    );
    assert_eq!(
        openapi_lookup_paths(Some(" /etc/spec.yaml\n".to_string()), "/srv/app/"),
        vec![
            "/etc/spec.yaml",
            "/srv/app/../docs/openapi.yaml",
            "docs/openapi.yaml"
        ]
    );
    assert_eq!(openapi_lookup_paths(Some(" ".to_string()), "").len(), 2);
    assert_eq!(openapi_lookup_paths(None, "x").len(), 2);
    assert_eq!(
        http_openapi_spec(None),
        error_reply(404, "openapi_contract_not_found")
    );
}

#[test]
fn there_is_always_a_permit() {
    for (max_inflight, permits) in [(0, 1), (1, 1), (16, 16)] {
        let state = AppState::new(AppConfig {
            max_inflight,
            ..AppConfig::default()
        });
        assert_eq!(state.inflight_permits(), permits);
    }
}

#[test]
fn instances_keep_their_shape() {
    let value = Json::Array(vec![
        Json::Array(vec![whole(1), float("2.5"), Json::Number(Number::Signed(-3))]),
        Json::Array(vec![]),
    ]);
    assert_eq!(
        value_to_numeric_rows(&value),
        Ok(rows(&[&["1", "2.5", "-3"], &[]]))
    );
}
