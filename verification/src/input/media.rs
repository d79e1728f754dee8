//! Media types of payloads and replies.

use crate::config::AppConfig;
use crate::string_map::StringMap;
use crate::text;
use vstd::prelude::*;

verus! {

/// The media type without its parameters, trimmed and in lower case.
pub open spec fn media_type(content_type: Seq<char>) -> Seq<char> {
    text::lower(text::trim(text::before(content_type, ';')))
}

/// The first media type that a reply may have, trimmed and in lower case.
pub open spec fn accepted_type(accept: Seq<char>) -> Seq<char> {
    text::lower(text::trim(text::before(accept, ',')))
}

/// The media types of JSON.
pub open spec fn is_json(content_type: Seq<char>) -> bool {
    ||| content_type == "application/json"@
    ||| content_type == "application/*+json"@
}

/// The media types of JSON lines.
pub open spec fn is_json_lines(content_type: Seq<char>) -> bool {
    ||| content_type == "application/jsonlines"@
    ||| content_type == "application/x-jsonlines"@
    ||| content_type == "application/jsonl"@
    ||| content_type == "application/x-ndjson"@
}

/// The media types of CSV.
pub open spec fn is_csv(content_type: Seq<char>) -> bool {
    ||| content_type == "text/csv"@
    ||| content_type == "application/csv"@
}

/// The error for an input mode other than `tabular`.
pub open spec fn input_mode_error(mode: Seq<char>) -> Seq<char> {
    "INPUT_MODE="@ + mode + " not implemented (tabular only for now)"@
}

/// Accepts the input mode `tabular` and refuses any other.
pub fn validate_input_mode(cfg: &AppConfig) -> (r: Result<(), String>)
    ensures
        r is Ok <==> cfg.input_mode@ == "tabular"@,
        r matches Err(message) ==> message@ == input_mode_error(cfg.input_mode@),
{
    if !text::same(cfg.input_mode.as_str(), "tabular") {
        let head = text::concat("INPUT_MODE=", cfg.input_mode.as_str());
        return Err(text::concat(head.as_str(), " not implemented (tabular only for now)"));
    }
    Ok(())
}

/// The media type without its parameters, trimmed and in lower case.
pub fn strip_content_type_params(content_type: &str) -> (r: String)
    ensures
        r@ == media_type(content_type@),
{
    let chars = text::chars_of(content_type);
    text::lower_string(text::trim_slice(text::before_slice(chars.as_slice(), ';')))
}

/// The media type of a payload.
pub fn resolve_content_type(raw: &str) -> (r: String)
    ensures
        r@ == media_type(raw@),
{
    strip_content_type_params(raw)
}

/// The first media type that the reply may have. There always is one, blank as it
/// may be, so the default is never taken.
pub fn normalized_accept(accept: &str, default_accept: &str) -> (r: String)
    ensures
        r@ == accepted_type(accept@),
{
    let chars = text::chars_of(accept);
    text::lower_string(text::trim_slice(text::before_slice(chars.as_slice(), ',')))
}

/// Whether the media type is one of JSON proper.
pub fn is_json_document_type(content_type: &str) -> (r: bool)
    ensures
        r == is_json(content_type@),
{
    text::same(content_type, "application/json") || text::same(content_type, "application/*+json")
}

/// Whether the media type is one of JSON lines.
pub fn is_json_lines_type(content_type: &str) -> (r: bool)
    ensures
        r == is_json_lines(content_type@),
{
    text::same(content_type, "application/jsonlines") || text::same(
        content_type,
        "application/x-jsonlines",
    ) || text::same(content_type, "application/jsonl") || text::same(
        content_type,
        "application/x-ndjson",
    )
}

/// Whether the media type is one of CSV.
pub fn is_csv_type(content_type: &str) -> (r: bool)
    ensures
        r == is_csv(content_type@),
{
    text::same(content_type, "text/csv") || text::same(content_type, "application/csv")
}

/// Whether the media type is one of JSON or of JSON lines.
pub fn is_json_content_type(content_type: &str) -> (r: bool)
    ensures
        r == (is_json(content_type@) || is_json_lines(content_type@)),
{
    is_json_document_type(content_type) || is_json_lines_type(content_type)
}

/// Whether a payload holds records for named model inputs.
pub fn should_use_onnx_multi_input(
    onnx_input_map: &StringMap<String>,
    content_type: &str,
) -> (r: bool)
    ensures
        r == (onnx_input_map@.len() > 0 && (is_json(content_type@) || is_json_lines(
            content_type@,
        ))),
{
    !onnx_input_map.is_empty() && is_json_content_type(content_type)
}

} // verus!
