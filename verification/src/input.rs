//! Reading payloads into model input, and writing predictions out.

pub mod columns;
pub mod csv;
pub mod media;
pub mod output;
pub mod parsed;
pub mod records;
pub mod tabular;

pub use columns::{apply_feature_selection, parse_col_selector, validate_tabular_matrix_shape};
pub use csv::{csv_first_row_is_header, parse_csv_rows};
pub use media::{
    is_json_content_type, normalized_accept, resolve_content_type, should_use_onnx_multi_input,
    strip_content_type_params, validate_input_mode,
};
pub use output::{format_csv_predictions, value_to_string, wrap_predictions_if_needed};
pub use parsed::{validate_dynamic_batch_sizes, ParsedInput};
pub use records::{
    load_json_map, load_multi_input_records, parse_json_records, parse_jsonl_records,
};
pub use tabular::{parse_json_rows, parse_jsonl_rows, value_to_numeric_rows};
