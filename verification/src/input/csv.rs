//! CSV payloads.

use crate::config::AppConfig;
use crate::numeral;
use crate::outcome;
use crate::text;
use vstd::prelude::*;
use vstd::utf8::{decode_utf8, valid_utf8};

verus! {

/// The trimmed lines of the payload, without the blank ones where these are to be
/// passed over.
pub open spec fn csv_lines(source: Seq<char>, skip_blank: bool) -> Seq<Seq<char>> {
    if skip_blank {
        text::filled_lines(source)
    } else {
        text::trimmed_lines(source)
    }
}

/// The trimmed cells of a line.
pub open spec fn csv_cells(line: Seq<char>, delimiter: Seq<char>) -> Seq<Seq<char>> {
    text::split(line, delimiter).map_values(|cell: Seq<char>| text::trim(cell))
}

/// Every cell of the line reads as a number.
pub open spec fn is_numeric_row(line: Seq<char>, delimiter: Seq<char>) -> bool {
    forall|i: int|
        0 <= i < csv_cells(line, delimiter).len() ==> numeral::is_numeric(
            #[trigger] csv_cells(line, delimiter)[i],
        )
}

/// The lines that hold rows: all, but the first where it is a header. It is one
/// where the setting says so, or where the setting is `auto` and some cell of it
/// is no number.
pub open spec fn csv_body(
    lines: Seq<Seq<char>>,
    has_header: Seq<char>,
    delimiter: Seq<char>,
) -> Seq<Seq<char>> {
    if has_header == "true"@ || (has_header == "auto"@ && !is_numeric_row(lines[0], delimiter)) {
        lines.drop_first()
    } else {
        lines
    }
}

/// The rows of a CSV text, each cell by its text.
pub open spec fn csv_matrix(
    source: Seq<char>,
    has_header: Seq<char>,
    delimiter: Seq<char>,
    skip_blank: bool,
) -> Result<Seq<Seq<Seq<char>>>, Seq<char>> {
    let lines = csv_lines(source, skip_blank);
    let body = csv_body(lines, has_header, delimiter);
    if lines.len() == 0 {
        Err("Empty CSV payload"@)
    } else if has_header != "true"@ && has_header != "auto"@ && has_header != "false"@ {
        Err("CSV_HAS_HEADER must be auto|true|false"@)
    } else if body.len() == 0 {
        Err("CSV payload contains only header row"@)
    } else if forall|i: int| 0 <= i < body.len() ==> is_numeric_row(#[trigger] body[i], delimiter) {
        Ok(body.map_values(|line: Seq<char>| csv_cells(line, delimiter)))
    } else {
        Err("Expected numeric value in CSV payload"@)
    }
}

/// The rows of a CSV payload.
pub open spec fn csv_payload(payload: Seq<u8>, cfg: AppConfig) -> Result<
    Seq<Seq<Seq<char>>>,
    Seq<char>,
> {
    if valid_utf8(payload) {
        csv_matrix(
            decode_utf8(payload),
            cfg.csv_has_header@,
            cfg.csv_delimiter@,
            cfg.csv_skip_blank_lines,
        )
    } else {
        Err("invalid utf-8 csv payload: "@ + text::utf8_error(payload))
    }
}

/// The cells of the line where all read as numbers.
fn numeric_cells(line: &[char], delimiter: &[char]) -> (r: Option<Vec<String>>)
    ensures
        match r {
            Some(cells) => is_numeric_row(line@, delimiter@) && cells.deep_view() == csv_cells(
                line@,
                delimiter@,
            ),
            None => !is_numeric_row(line@, delimiter@),
        },
{
    let parts = text::split_slice(line, delimiter);
    let ghost whole = csv_cells(line@, delimiter@);
    let mut cells: Vec<String> = Vec::new();
    let mut i: usize = 0;
    while i < parts.len()
        invariant
            i <= parts@.len(),
            text::slice_views(parts@) == text::split(line@, delimiter@),
            whole == csv_cells(line@, delimiter@),
            cells.deep_view() == whole.take(i as int),
            forall|k: int| 0 <= k < i ==> numeral::is_numeric(#[trigger] whole[k]),
        decreases parts@.len() - i,
    {
        let cell = text::trim_slice(parts[i]);
        assert(text::slice_views(parts@)[i as int] == parts@[i as int]@);
        assert(whole[i as int] == cell@);
        if !numeral::reads_as_number(cell) {
            return None;
        }
        let ghost done = cells.deep_view();
        cells.push(text::string_of(cell));
        assert(cells.deep_view() =~= done.push(cell@));
        assert(whole.take(i + 1) =~= whole.take(i as int).push(cell@));
        i += 1;
    }
    assert(whole.take(whole.len() as int) =~= whole);
    Some(cells)
}

/// Whether some cell of the line is no number.
pub fn csv_first_row_is_header(line: &str, delim: &str) -> (r: bool)
    ensures
        r == !is_numeric_row(line@, delim@),
{
    let chars = text::chars_of(line);
    let delimiter = text::chars_of(delim);
    numeric_cells(chars.as_slice(), delimiter.as_slice()).is_none()
}

/// The rows of a CSV payload, each cell by its text.
pub fn parse_csv_rows(payload: &[u8], cfg: &AppConfig) -> (r: Result<Vec<Vec<String>>, String>)
    ensures
        outcome::deep_viewed(r) == csv_payload(payload@, *cfg),
{
    let source = match text::read_utf8(payload) {
        Ok(source) => source,
        Err(message) => {
            return Err(text::concat("invalid utf-8 csv payload: ", message.as_str()));
        },
    };
    let chars = text::chars_of(source);
    let delimiter = text::chars_of(cfg.csv_delimiter.as_str());
    let lines = if cfg.csv_skip_blank_lines {
        text::filled_line_slices(chars.as_slice())
    } else {
        text::trimmed_line_slices(chars.as_slice())
    };
    let ghost views = csv_lines(source@, cfg.csv_skip_blank_lines);
    let ghost body = csv_body(views, cfg.csv_has_header@, cfg.csv_delimiter@);
    if lines.len() == 0 {
        return Err("Empty CSV payload".to_owned());
    }
    assert(views[0] == lines@[0]@);
    let mut first: usize = 0;
    if text::same(cfg.csv_has_header.as_str(), "true") {
        first = 1;
    } else if text::same(cfg.csv_has_header.as_str(), "auto") {
        if numeric_cells(lines[0], delimiter.as_slice()).is_none() {
            first = 1;
        }
    } else if !text::same(cfg.csv_has_header.as_str(), "false") {
        return Err("CSV_HAS_HEADER must be auto|true|false".to_owned());
    }
    assert(body =~= views.skip(first as int));
    if lines.len() == first {
        return Err("CSV payload contains only header row".to_owned());
    }
    let mut rows: Vec<Vec<String>> = Vec::new();
    let ghost whole = body.map_values(|line: Seq<char>| csv_cells(line, cfg.csv_delimiter@));
    let mut i: usize = first;
    while i < lines.len()
        invariant
            first <= i <= lines@.len(),
            views == text::slice_views(lines@),
            body == views.skip(first as int),
            delimiter@ == cfg.csv_delimiter@,
            whole == body.map_values(|line: Seq<char>| csv_cells(line, cfg.csv_delimiter@)),
            rows@.len() == i - first,
            csv_payload(payload@, *cfg) == if forall|i: int|
                0 <= i < body.len() ==> is_numeric_row(#[trigger] body[i], delimiter@) {
                Ok::<Seq<Seq<Seq<char>>>, Seq<char>>(whole)
            } else {
                Err("Expected numeric value in CSV payload"@)
            },
            forall|k: int|
                0 <= k < i - first ==> (#[trigger] rows@[k]).deep_view() == whole[k]
                    && is_numeric_row(body[k], delimiter@),
        decreases lines@.len() - i,
    {
        let ghost done = rows@;
        assert(body[i - first] == lines@[i as int]@);
        assert(whole[i - first] == csv_cells(body[i - first], delimiter@));
        match numeric_cells(lines[i], delimiter.as_slice()) {
            Some(cells) => {
                rows.push(cells);
            },
            None => {
                return Err("Expected numeric value in CSV payload".to_owned());
            },
        }
        i += 1;
        assert forall|k: int| 0 <= k < i - first implies (#[trigger] rows@[k]).deep_view()
            == whole[k] && is_numeric_row(body[k], delimiter@) by {
            if k < i - first - 1 {
                assert(done[k].deep_view() == whole[k]);
            }
        }
    }
    assert(rows.deep_view() =~= whole);
    assert forall|k: int| 0 <= k < body.len() implies is_numeric_row(
        #[trigger] body[k],
        delimiter@,
    ) by {
        assert(rows@[k].deep_view() == whole[k]);
    }
    Ok(rows)
}

} // verus!
