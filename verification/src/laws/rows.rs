//! Rows of numbers.

use crate::config::AppConfig;
use crate::input::columns;
use crate::input::csv;
use crate::input::media;
use crate::input::tabular;
use crate::json;
use crate::json::{Json, JsonView};
use crate::laws::lines;
use crate::laws::texts;
use crate::numeral;
use crate::outcome;
use crate::state;
use crate::string_map;
use crate::text;
use vstd::prelude::*;
use vstd::utf8::{decode_utf8, valid_utf8};

verus! {

/// The cells of parts are those of the whole.
proof fn lemma_flatten_numeric(parts: Seq<Seq<Seq<Seq<char>>>>)
    requires
        forall|i: int| 0 <= i < parts.len() ==> columns::all_numeric(#[trigger] parts[i]),
    ensures
        columns::all_numeric(parts.flatten()),
    decreases parts.len(),
{
    if parts.len() > 0 {
        let rest = parts.drop_first();
        assert forall|i: int| 0 <= i < rest.len() implies columns::all_numeric(
            #[trigger] rest[i],
        ) by {
            assert(rest[i] == parts[i + 1]);
        }
        lemma_flatten_numeric(rest);
        let whole = parts.flatten();
        assert(whole == parts.first() + rest.flatten());
        assert(columns::all_numeric(parts[0]));
        assert forall|i: int, j: int|
            0 <= i < whole.len() && 0 <= j < whole[i].len() implies numeral::is_numeric(
            #[trigger] whole[i][j],
        ) by {
            if i < parts.first().len() {
                assert(whole[i] == parts[0][i]);
            } else {
                assert(whole[i] == rest.flatten()[i - parts.first().len()]);
            }
        }
    } else {
        assert(parts.flatten() =~= Seq::empty());
    }
}

/// The rows of a JSON value: there is at least one, and every cell is a number.
pub proof fn law_json_cells_are_numbers(value: JsonView)
    ensures
        tabular::numeric_rows(value) matches Ok(rows) ==> rows.len() > 0 && columns::all_numeric(
            rows,
        ),
{
    if let JsonView::Array(items) = value {
        if items.len() > 0 && items[0] is Array {
            let outcomes = items.map_values(|row: JsonView| tabular::numeric_row(row));
            outcome::lemma_collected(outcomes);
            if let Ok(rows) = outcome::collect(outcomes) {
                assert forall|i: int, j: int|
                    0 <= i < rows.len() && 0 <= j < rows[i].len() implies numeral::is_numeric(
                    #[trigger] rows[i][j],
                ) by {
                    assert(outcomes[i] == tabular::numeric_row(items[i]));
                    assert(outcomes[i] == Ok::<Seq<Seq<char>>, Seq<char>>(rows[i]));
                    assert(json::as_number(items[i]->Array_0[j]) is Some);
                }
            }
        } else if let Ok(rows) = tabular::numeric_rows(value) {
            assert(rows =~= seq![tabular::numbers(items)->Ok_0]);
            assert forall|i: int, j: int|
                0 <= i < rows.len() && 0 <= j < rows[i].len() implies numeral::is_numeric(
                #[trigger] rows[i][j],
            ) by {
                assert(json::as_number(items[j]) is Some);
            }
        }
    }
}

/// Whatever kind of payload it comes from, every cell of a matrix is a number.
pub proof fn law_matrix_cells_are_numbers(
    cfg: AppConfig,
    payload: Seq<u8>,
    media_type: Seq<char>,
    raw_type: Seq<char>,
)
    ensures
        state::payload_matrix(cfg, payload, media_type, raw_type) matches Ok(matrix)
            ==> columns::all_numeric(matrix),
{
    if media::is_csv(media_type) {
        if let Ok(matrix) = csv::csv_payload(payload, cfg) {
            let lines = csv::csv_lines(
                vstd::utf8::decode_utf8(payload),
                cfg.csv_skip_blank_lines,
            );
            let body = csv::csv_body(lines, cfg.csv_has_header@, cfg.csv_delimiter@);
            assert forall|i: int, j: int|
                0 <= i < matrix.len() && 0 <= j < matrix[i].len() implies numeral::is_numeric(
                #[trigger] matrix[i][j],
            ) by {
                assert(csv::is_numeric_row(body[i], cfg.csv_delimiter@));
                assert(matrix[i] == csv::csv_cells(body[i], cfg.csv_delimiter@));
            }
        }
    } else if media::is_json(media_type) {
        if let Ok(value) = json::json_of_bytes(payload) {
            law_json_cells_are_numbers(
                tabular::scoped_rows(value, cfg.json_key_instances@, cfg.jsonl_features_key@),
            );
        }
    } else if media::is_json_lines(media_type) {
        let lines = crate::text::filled_lines(vstd::utf8::decode_utf8(payload));
        let outcomes = lines.map_values(
            |line: Seq<char>| tabular::line_rows(line, cfg.jsonl_features_key@),
        );
        outcome::lemma_collected(outcomes);
        if let Ok(parts) = outcome::collect(outcomes) {
            assert forall|i: int| 0 <= i < parts.len() implies columns::all_numeric(
                #[trigger] parts[i],
            ) by {
                assert(outcomes[i] == tabular::line_rows(lines[i], cfg.jsonl_features_key@));
                assert(outcomes[i] == Ok::<Seq<Seq<Seq<char>>>, Seq<char>>(parts[i]));
                if let Ok(value) = json::json_of_text(lines[i]) {
                    law_json_cells_are_numbers(
                        tabular::line_scope(value, cfg.jsonl_features_key@),
                    );
                }
            }
            lemma_flatten_numeric(parts);
        }
    }
}

/// A JSON value is refused if and only if it is not made up of rows of numbers: no
/// number in it is.
pub proof fn law_no_number_is_refused(value: JsonView)
    requires
        json::numerals_only(value),
    ensures
        tabular::numeric_rows(value) is Ok <==> tabular::rows_of_numbers(value),
{
    tabular::lemma_rows_of_numbers(value);
}

/// Instances that are rows of numbers keep their number, their lengths and the
/// numbers in them.
pub proof fn law_instances_keep_their_shape(rows: Seq<Seq<JsonView>>)
    requires
        rows.len() > 0,
        forall|i: int, j: int|
            0 <= i < rows.len() && 0 <= j < rows[i].len() ==> #[trigger] rows[i][j] is Number
                && json::numerals_only(rows[i][j]),
    ensures
        tabular::numeric_rows(
            JsonView::Array(rows.map_values(|row: Seq<JsonView>| JsonView::Array(row))),
        ) matches Ok(matrix) && {
            &&& matrix.len() == rows.len()
            &&& forall|i: int| 0 <= i < rows.len() ==> (#[trigger] matrix[i]).len() == rows[i].len()
            &&& forall|i: int, j: int|
                0 <= i < rows.len() && 0 <= j < rows[i].len() ==> #[trigger] matrix[i][j]
                    == json::number_text(rows[i][j]->Number_0)
        },
{
    let items = rows.map_values(|row: Seq<JsonView>| JsonView::Array(row));
    let outcomes = items.map_values(|row: JsonView| tabular::numeric_row(row));
    let matrix = rows.map_values(
        |row: Seq<JsonView>| row.map_values(|item: JsonView| json::number_text(item->Number_0)),
    );
    assert(items[0] == JsonView::Array(rows[0]));
    assert forall|i: int| 0 <= i < outcomes.len() implies #[trigger] outcomes[i] == Ok::<
        Seq<Seq<char>>,
        Seq<char>,
    >(matrix[i]) by {
        assert(items[i] == JsonView::Array(rows[i]));
        assert forall|j: int| 0 <= j < rows[i].len() implies json::as_number(#[trigger] rows[i][j])
            == Some(matrix[i][j]) by {
            assert(rows[i][j] is Number);
            json::lemma_number(rows[i][j]->Number_0);
        }
        assert(tabular::numbers(rows[i])->Ok_0 =~= matrix[i]);
    }
    outcome::lemma_collect_values(outcomes, matrix);
}

/// Looking for a header comes to taking the first line for one, or to taking none,
/// as the cells of the first line tell.
pub proof fn law_header_detection(source: Seq<char>, delimiter: Seq<char>, skip_blank: bool)
    ensures
        csv::csv_matrix(source, "auto"@, delimiter, skip_blank) == csv::csv_matrix(
            source,
            if csv::is_numeric_row(csv::csv_lines(source, skip_blank)[0], delimiter) {
                "false"@
            } else {
                "true"@
            },
            delimiter,
            skip_blank,
        ),
{
    reveal_strlit("true");
    reveal_strlit("auto");
    reveal_strlit("false");
    assert("true"@[0] != "auto"@[0]);
    assert("true"@.len() != "false"@.len());
}

/// A line is a header if and only if it cannot be read as a row.
pub proof fn law_headers_are_what_no_row_is(
    source: Seq<char>,
    line: Seq<char>,
    delimiter: Seq<char>,
    skip_blank: bool,
)
    requires
        csv::csv_lines(source, skip_blank) == seq![line],
    ensures
        csv::csv_matrix(source, "false"@, delimiter, skip_blank) is Ok <==> csv::is_numeric_row(
            line,
            delimiter,
        ),
        csv::csv_matrix(source, "false"@, delimiter, skip_blank) matches Ok(matrix) ==> matrix
            == seq![csv::csv_cells(line, delimiter)],
{
    reveal_strlit("true");
    reveal_strlit("auto");
    reveal_strlit("false");
    assert("false"@[0] != "auto"@[0]);
    assert("true"@.len() != "false"@.len());
    let lines = seq![line];
    assert(lines[0] == line);
    assert(lines.map_values(|line: Seq<char>| csv::csv_cells(line, delimiter)) =~= seq![
        csv::csv_cells(line, delimiter),
    ]);
}

/// The value is a number of JSON whose text reads as one.
pub open spec fn is_number(value: JsonView) -> bool {
    value matches JsonView::Number(number) && numeral::is_numeric(json::number_text(number))
}

/// The value is an array of numbers.
pub open spec fn is_number_row(value: JsonView) -> bool {
    value matches JsonView::Array(items) && forall|j: int|
        0 <= j < items.len() ==> is_number(#[trigger] items[j])
}

/// The numbers of a row are read if and only if all its items are numbers, and then by their
/// texts.
proof fn lemma_numbers(items: Seq<JsonView>)
    ensures
        match tabular::numbers(items) {
            Ok(cells) => {
                &&& forall|j: int| 0 <= j < items.len() ==> is_number(#[trigger] items[j])
                &&& cells.len() == items.len()
                &&& forall|j: int|
                    0 <= j < items.len() ==> #[trigger] cells[j] == json::number_text(
                        items[j]->Number_0,
                    )
            },
            Err(message) => message == "Expected numeric value in payload"@ && !forall|j: int|
                0 <= j < items.len() ==> is_number(#[trigger] items[j]),
        },
{
    if tabular::numbers(items) is Ok {
        assert forall|j: int| 0 <= j < items.len() implies is_number(#[trigger] items[j]) by {
            assert(json::as_number(items[j]) is Some);
        }
    } else if forall|j: int| 0 <= j < items.len() ==> is_number(#[trigger] items[j]) {
        assert forall|j: int| 0 <= j < items.len() implies json::as_number(
            #[trigger] items[j],
        ) is Some by {
            assert(is_number(items[j]));
        }
    }
}

/// An array that begins with an array is read as rows if and only if all its items are rows
/// of numbers: one row for each item, and one cell for each number, in their order and by
/// the texts of the numbers.
pub proof fn law_arrays_are_rows(
    value: &Json,
    items: Seq<JsonView>,
    r: Result<Vec<Vec<String>>, String>,
)
    requires
        call_ensures(tabular::value_to_numeric_rows, (value,), r),
        value@ == JsonView::Array(items),
        items.len() > 0,
        items[0] is Array,
    ensures
        r is Ok <==> forall|i: int| 0 <= i < items.len() ==> is_number_row(#[trigger] items[i]),
        r matches Ok(rows) ==> {
            &&& rows@.len() == items.len()
            &&& forall|i: int|
                0 <= i < items.len() ==> (#[trigger] rows@[i])@.len() == items[i]->Array_0.len()
            &&& forall|i: int, j: int|
                0 <= i < items.len() && 0 <= j < items[i]->Array_0.len() ==> (
                #[trigger] rows@[i]@[j])@ == json::number_text(items[i]->Array_0[j]->Number_0)
        },
{
    let outcomes = items.map_values(|row: JsonView| tabular::numeric_row(row));
    outcome::lemma_collected(outcomes);
    outcome::lemma_collect_is_ok(outcomes);
    assert forall|i: int| 0 <= i < items.len() implies (#[trigger] outcomes[i] is Ok
        <==> is_number_row(items[i])) by {
        if let JsonView::Array(row) = items[i] {
            lemma_numbers(row);
        }
    }
    if forall|i: int| 0 <= i < items.len() ==> is_number_row(#[trigger] items[i]) {
        assert forall|i: int| 0 <= i < outcomes.len() implies #[trigger] outcomes[i] is Ok by {
            assert(is_number_row(items[i]));
        }
    }
    if let Ok(rows) = r {
        assert forall|i: int| 0 <= i < items.len() implies {
            &&& is_number_row(#[trigger] items[i])
            &&& rows@[i]@.len() == items[i]->Array_0.len()
            &&& forall|j: int|
                0 <= j < items[i]->Array_0.len() ==> (#[trigger] rows@[i]@[j])@
                    == json::number_text(items[i]->Array_0[j]->Number_0)
        } by {
            assert(outcomes[i] is Ok);
            let row = items[i]->Array_0;
            lemma_numbers(row);
            assert(outcomes[i] == Ok::<Seq<Seq<char>>, Seq<char>>(rows.deep_view()[i]));
            assert(rows.deep_view()[i] == rows@[i].deep_view());
            assert forall|j: int| 0 <= j < row.len() implies (#[trigger] rows@[i]@[j])@
                == json::number_text(row[j]->Number_0) by {
                assert(rows@[i].deep_view()[j] == rows@[i]@[j]@);
            }
        }
        assert forall|i: int| 0 <= i < items.len() implies (#[trigger] rows@[i])@.len()
            == items[i]->Array_0.len() by {
            assert(is_number_row(items[i]));
        }
        assert forall|i: int, j: int|
            0 <= i < items.len() && 0 <= j < items[i]->Array_0.len() implies (
        #[trigger] rows@[i]@[j])@ == json::number_text(items[i]->Array_0[j]->Number_0) by {
            assert(is_number_row(items[i]));
        }
    }
}

/// The first item that is no row of numbers decides on the text of the error.
pub proof fn law_first_bad_row_is_named(
    value: &Json,
    items: Seq<JsonView>,
    k: int,
    r: Result<Vec<Vec<String>>, String>,
)
    requires
        call_ensures(tabular::value_to_numeric_rows, (value,), r),
        value@ == JsonView::Array(items),
        items[0] is Array,
        0 <= k < items.len(),
        !is_number_row(items[k]),
        forall|i: int| 0 <= i < k ==> is_number_row(#[trigger] items[i]),
    ensures
        r matches Err(message) && message@ == if items[k] is Array {
            "Expected numeric value in payload"@
        } else {
            "Expected array row"@
        },
{
    let outcomes = items.map_values(|row: JsonView| tabular::numeric_row(row));
    assert forall|i: int| 0 <= i < k + 1 implies (#[trigger] outcomes[i] is Ok <==> is_number_row(
        items[i],
    )) by {
        if let JsonView::Array(row) = items[i] {
            lemma_numbers(row);
        }
    }
    if let JsonView::Array(row) = items[k] {
        lemma_numbers(row);
    }
    let found = Seq::new(k as nat, |i: int| outcomes[i]->Ok_0);
    assert forall|i: int| 0 <= i < k implies #[trigger] outcomes.take(k)[i] == Ok::<
        Seq<Seq<char>>,
        Seq<char>,
    >(found[i]) by {
        assert(is_number_row(items[i]));
        assert(outcomes[i] is Ok);
    }
    outcome::lemma_collect_values(outcomes.take(k), found);
    outcome::lemma_collect_step(outcomes, k);
    assert(outcomes[k] is Err);
    outcome::lemma_collect_error(outcomes, k + 1, outcomes[k]->Err_0);
}

/// Any other array is one row if and only if all its items are numbers, and any other value
/// is one cell if and only if it is a number.
pub proof fn law_other_values_are_one_row(value: &Json, r: Result<Vec<Vec<String>>, String>)
    requires
        call_ensures(tabular::value_to_numeric_rows, (value,), r),
        value@ matches JsonView::Array(items) ==> items.len() == 0 || !(items[0] is Array),
    ensures
        match value@ {
            JsonView::Array(items) => match r {
                Ok(rows) => {
                    &&& is_number_row(value@)
                    &&& rows@.len() == 1
                    &&& rows@[0]@.len() == items.len()
                    &&& forall|j: int|
                        0 <= j < items.len() ==> (#[trigger] rows@[0]@[j])@ == json::number_text(
                            items[j]->Number_0,
                        )
                },
                Err(message) => !is_number_row(value@) && message@
                    == "Expected numeric value in payload"@,
            },
            _ => match r {
                Ok(rows) => {
                    &&& is_number(value@)
                    &&& rows@.len() == 1
                    &&& rows@[0]@.len() == 1
                    &&& rows@[0]@[0]@ == json::number_text(value@->Number_0)
                },
                Err(message) => !is_number(value@) && message@
                    == "Expected tabular numeric payload"@,
            },
        },
{
    if let JsonView::Array(items) = value@ {
        lemma_numbers(items);
    }
    if let Ok(rows) = r {
        let views = rows.deep_view();
        assert(views.len() == 1 && views.len() == rows@.len());
        assert(views[0] == rows@[0].deep_view());
        if let JsonView::Array(items) = value@ {
            assert forall|j: int| 0 <= j < items.len() implies (#[trigger] rows@[0]@[j])@
                == json::number_text(items[j]->Number_0) by {
                assert(rows@[0].deep_view()[j] == rows@[0]@[j]@);
            }
        } else {
            assert(rows@[0].deep_view()[0] == rows@[0]@[0]@);
        }
    }
}

/// The rows of a JSON document are those of what stands under the key for instances; where
/// there is none, of an array of what stands under the key for features; and where there is
/// neither, of the document itself.
pub proof fn law_scope_of_a_document(
    value: &Json,
    cfg: &AppConfig,
    scope: &Json,
    r: Result<Vec<Vec<String>>, String>,
    q: Result<Vec<Vec<String>>, String>,
)
    requires
        call_ensures(tabular::json_rows_of, (value, cfg), r),
        call_ensures(tabular::value_to_numeric_rows, (scope,), q),
        match value@ {
            JsonView::Object(entries) => match string_map::lookup(
                entries,
                cfg.json_key_instances@,
            ) {
                Some(instances) => scope@ == instances,
                None => match string_map::lookup(entries, cfg.jsonl_features_key@) {
                    Some(features) => scope@ == JsonView::Array(seq![features]),
                    None => scope@ == value@,
                },
            },
            _ => scope@ == value@,
        },
    ensures
        outcome::deep_viewed(r) == outcome::deep_viewed(q),
{
}

/// The rows of a JSON payload are those of the document that it holds; a payload that holds
/// none is refused with the reason.
pub proof fn law_json_payloads_are_documents(
    payload: &[u8],
    cfg: &AppConfig,
    value: &Json,
    r: Result<Vec<Vec<String>>, String>,
    q: Result<Vec<Vec<String>>, String>,
)
    requires
        call_ensures(tabular::parse_json_rows, (payload, cfg), r),
        call_ensures(tabular::json_rows_of, (value, cfg), q),
    ensures
        json::json_of_bytes(payload@) == Ok::<JsonView, Seq<char>>(value@)
            ==> outcome::deep_viewed(r) == outcome::deep_viewed(q),
        json::json_of_bytes(payload@) matches Err(reason) ==> (r matches Err(message) && message@
            == "invalid json payload: "@ + reason),
{
}

/// The rows of a line are those of what stands under the key for features, or of the whole
/// document where there is no such key.
pub proof fn law_scope_of_a_line(
    value: &Json,
    cfg: &AppConfig,
    scope: &Json,
    r: Result<Vec<Vec<String>>, String>,
    q: Result<Vec<Vec<String>>, String>,
)
    requires
        call_ensures(tabular::line_rows_of, (value, cfg), r),
        call_ensures(tabular::value_to_numeric_rows, (scope,), q),
        match value@ {
            JsonView::Object(entries) => match string_map::lookup(
                entries,
                cfg.jsonl_features_key@,
            ) {
                Some(features) => scope@ == features,
                None => scope@ == value@,
            },
            _ => scope@ == value@,
        },
    ensures
        outcome::deep_viewed(r) == outcome::deep_viewed(q),
{
}

/// A payload of one line has the rows of that line, and none where the line is blank; a line
/// that holds no document is refused with the reason, and so is a payload that is no text.
pub proof fn law_rows_of_one_line(
    payload: &[u8],
    cfg: &AppConfig,
    value: &Json,
    r: Result<Vec<Vec<String>>, String>,
    q: Result<Vec<Vec<String>>, String>,
)
    requires
        call_ensures(tabular::parse_jsonl_rows, (payload, cfg), r),
        call_ensures(tabular::line_rows_of, (value, cfg), q),
    ensures
        !valid_utf8(payload@) ==> (r matches Err(message) && message@ == "invalid utf-8 payload: "@
            + text::utf8_error(payload@)),
        valid_utf8(payload@) && !decode_utf8(payload@).contains('\n') ==> {
            let line = text::trim(decode_utf8(payload@));
            if line.len() == 0 {
                r matches Ok(rows) && rows@.len() == 0
            } else {
                &&& json::json_of_text(line) == Ok::<JsonView, Seq<char>>(value@)
                    ==> outcome::deep_viewed(r) == outcome::deep_viewed(q)
                &&& json::json_of_text(line) matches Err(reason) ==> (r matches Err(message)
                    && message@ == "invalid json line payload: "@ + reason)
            }
        },
{
    let source = decode_utf8(payload@);
    if valid_utf8(payload@) && !source.contains('\n') {
        texts::law_filled_lines(source, source, source);
        let line = text::trim(source);
        let key = cfg.jsonl_features_key@;
        let filled = text::filled_lines(source);
        let outcomes = filled.map_values(|line: Seq<char>| tabular::line_rows(line, key));
        if line.len() == 0 {
            assert(outcomes =~= Seq::empty());
            assert(Seq::<Seq<Seq<Seq<char>>>>::empty().flatten() =~= Seq::empty());
        } else {
            assert(filled =~= seq![line]);
            assert(outcomes =~= seq![tabular::line_rows(line, key)]);
            assert(outcomes.drop_last() =~= Seq::empty());
            assert(outcome::collect(outcomes.drop_last()) == Ok::<_, Seq<char>>(
                Seq::<Seq<Seq<Seq<char>>>>::empty(),
            ));
            assert(outcomes.last() == tabular::line_rows(line, key));
            if let Ok(rows) = tabular::line_rows(line, key) {
                let parts = Seq::<Seq<Seq<Seq<char>>>>::empty().push(rows);
                assert(outcome::collect(outcomes) == Ok::<_, Seq<char>>(parts));
                tabular::lemma_flatten_push(Seq::empty(), rows);
                assert(Seq::<Seq<Seq<Seq<char>>>>::empty().flatten() =~= Seq::empty());
                assert(parts.flatten() =~= rows);
            }
        }
    }
}

/// Lines one after another have their rows one after another, and the first line in error
/// decides.
pub proof fn law_rows_of_lines_follow_each_other(
    cfg: &AppConfig,
    first: &[u8],
    second: &[u8],
    whole: &[u8],
    a: Result<Vec<Vec<String>>, String>,
    b: Result<Vec<Vec<String>>, String>,
    r: Result<Vec<Vec<String>>, String>,
)
    requires
        call_ensures(tabular::parse_jsonl_rows, (first, cfg), a),
        call_ensures(tabular::parse_jsonl_rows, (second, cfg), b),
        call_ensures(tabular::parse_jsonl_rows, (whole, cfg), r),
        valid_utf8(first@),
        valid_utf8(second@),
        valid_utf8(whole@),
        decode_utf8(whole@) == decode_utf8(first@) + seq!['\n'] + decode_utf8(second@),
    ensures
        match (a, b) {
            (Err(reason), _) => r matches Err(message) && message@ == reason@,
            (Ok(_), Err(reason)) => r matches Err(message) && message@ == reason@,
            (Ok(x), Ok(y)) => r matches Ok(rows) && rows.deep_view() == x.deep_view()
                + y.deep_view(),
        },
{
    lines::lemma_rows_join(decode_utf8(first@), decode_utf8(second@), cfg.jsonl_features_key@);
}

} // verus!
