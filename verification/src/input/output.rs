//! Predictions as CSV and as JSON.

use crate::config::AppConfig;
use crate::json;
use crate::json::{Json, JsonView};
use crate::outcome;
use crate::string_map::StringMap;
use crate::text;
use vstd::prelude::*;

verus! {

/// The text of a value in a CSV cell: nothing for null, a text as it is, a number by
/// its text, and anything else as JSON has it.
pub open spec fn cell_text(value: JsonView) -> Seq<char> {
    match value {
        JsonView::Null => Seq::empty(),
        JsonView::Bool(b) => if b {
            "true"@
        } else {
            "false"@
        },
        JsonView::Text(s) => s,
        JsonView::Number(n) => json::number_text(n),
        _ => json::text_of_json(value),
    }
}

/// The cells of a CSV row, with the delimiter between them.
pub open spec fn csv_row_text(row: JsonView, delimiter: Seq<char>) -> Result<
    Seq<char>,
    Seq<char>,
> {
    match row {
        JsonView::Array(cells) => Ok(
            text::join(cells.map_values(|cell: JsonView| cell_text(cell)), delimiter),
        ),
        _ => Err("expected csv row array"@),
    }
}

/// Predictions as CSV: one line for each row of an array that begins with an
/// array, one for each item of any other array, and one for any other value.
pub open spec fn csv_text(predictions: JsonView, delimiter: Seq<char>) -> Result<
    Seq<char>,
    Seq<char>,
> {
    match predictions {
        JsonView::Array(rows) => if rows.len() > 0 && rows[0] is Array {
            match outcome::collect(
                rows.map_values(|row: JsonView| csv_row_text(row, delimiter)),
            ) {
                Ok(lines) => Ok(text::join(lines, "\n"@)),
                Err(message) => Err(message),
            }
        } else {
            Ok(text::join(rows.map_values(|row: JsonView| cell_text(row)), "\n"@))
        },
        _ => Ok(cell_text(predictions)),
    }
}

/// The predictions as they go into a JSON reply: alone, or in an object under the
/// key.
pub open spec fn wrapped(
    predictions: JsonView,
    predictions_only: bool,
    key: Seq<char>,
) -> JsonView {
    if predictions_only {
        predictions
    } else {
        JsonView::Object(seq![(key, predictions)])
    }
}

/// The predictions as they go into a JSON reply.
pub fn wrap_predictions_if_needed(predictions: Json, cfg: &AppConfig) -> (r: Json)
    ensures
        r@ == wrapped(predictions@, cfg.predictions_only, cfg.json_output_key@),
{
    broadcast use json::lemma_object_view;

    if cfg.predictions_only {
        return predictions;
    }
    let ghost inner = predictions@;
    let mut output: StringMap<Json> = StringMap::new();
    output.insert(cfg.json_output_key.clone(), predictions);
    assert(output@ =~= seq![(cfg.json_output_key@, predictions)]);
    assert(output@.len() == output.entries@.len());
    assert(output@[0] == (output.entries@[0].0@, output.entries@[0].1));
    assert(json::object_view(output) =~= seq![(cfg.json_output_key@, inner)]);
    Json::Object(output)
}

/// The text of a value in a CSV cell.
pub fn value_to_string(value: &Json) -> (r: String)
    ensures
        r@ == cell_text(value@),
{
    match value {
        Json::Null => String::new(),
        Json::Bool(true) => "true".to_owned(),
        Json::Bool(false) => "false".to_owned(),
        Json::Number(n) => n.text(),
        Json::Text(s) => s.clone(),
        _ => json::write_string(value),
    }
}

/// The texts of the cells.
fn cell_strings(cells: &Vec<Json>) -> (r: Vec<String>)
    ensures
        r.deep_view() == json::array_view(cells@).map_values(|cell: JsonView| cell_text(cell)),
{
    let ghost whole = json::array_view(cells@).map_values(|cell: JsonView| cell_text(cell));
    let mut r: Vec<String> = Vec::new();
    let mut i: usize = 0;
    while i < cells.len()
        invariant
            i <= cells@.len(),
            whole == json::array_view(cells@).map_values(|cell: JsonView| cell_text(cell)),
            r.deep_view() == whole.take(i as int),
        decreases cells@.len() - i,
    {
        assert(whole[i as int] == cell_text(cells@[i as int]@));
        let cell = value_to_string(&cells[i]);
        let ghost done = r.deep_view();
        r.push(cell);
        assert(r.deep_view() =~= done.push(cell@));
        assert(whole.take(i + 1) =~= whole.take(i as int).push(cell@));
        i += 1;
    }
    assert(whole.take(whole.len() as int) =~= whole);
    r
}

/// The cells of a CSV row, with the delimiter between them.
fn csv_row(row: &Json, delimiter: &str) -> (r: Result<String, String>)
    ensures
        outcome::viewed(r) == csv_row_text(row@, delimiter@),
{
    broadcast use json::lemma_array_view;

    match row {
        Json::Array(cells) => Ok(text::join_strings(&cell_strings(cells), delimiter)),
        _ => Err("expected csv row array".to_owned()),
    }
}

/// The rows as CSV.
fn csv_rows(rows: &Vec<Json>, delimiter: &str) -> (r: Result<String, String>)
    ensures
        outcome::viewed(r) == match outcome::collect(
            json::array_view(rows@).map_values(|row: JsonView| csv_row_text(row, delimiter@)),
        ) {
            Ok(lines) => Ok(text::join(lines, "\n"@)),
            Err(message) => Err(message),
        },
{
    let ghost outcomes = json::array_view(rows@).map_values(
        |row: JsonView| csv_row_text(row, delimiter@),
    );
    let mut out: Vec<String> = Vec::new();
    assert(outcomes.take(0) =~= Seq::empty());
    assert(out.deep_view() =~= Seq::empty());
    for i in 0..rows.len()
        invariant
            outcomes == json::array_view(rows@).map_values(
                |row: JsonView| csv_row_text(row, delimiter@),
            ),
            outcome::collect(outcomes.take(i as int)) == Ok::<Seq<Seq<char>>, Seq<char>>(
                out.deep_view(),
            ),
    {
        let ghost done = out.deep_view();
        proof {
            outcome::lemma_collect_step(outcomes, i as int);
            assert(outcomes[i as int] == csv_row_text(rows@[i as int]@, delimiter@));
        }
        match csv_row(&rows[i], delimiter) {
            Ok(line) => {
                let ghost content = line@;
                out.push(line);
                assert(out.deep_view() =~= done.push(content));
            },
            Err(message) => {
                proof {
                    outcome::lemma_collect_error(outcomes, i + 1, message@);
                }
                return Err(message);
            },
        }
    }
    assert(outcomes.take(rows@.len() as int) =~= outcomes);
    Ok(text::join_strings(&out, "\n"))
}

/// Predictions as CSV.
pub fn format_csv_predictions(predictions: &Json, delimiter: &str) -> (r: Result<String, String>)
    ensures
        outcome::viewed(r) == csv_text(predictions@, delimiter@),
{
    broadcast use json::lemma_array_view;

    match predictions {
        Json::Array(rows) => {
            assert(rows@.len() > 0 ==> json::array_view(rows@)[0] == rows@[0]@);
            let nested = rows.len() > 0 && match &rows[0] {
                Json::Array(_) => true,
                _ => false,
            };
            if nested {
                return csv_rows(rows, delimiter);
            }
            Ok(text::join_strings(&cell_strings(rows), "\n"))
        },
        _ => Ok(value_to_string(predictions)),
    }
}

} // verus!
