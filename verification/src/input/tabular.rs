//! Rows of numbers in JSON payloads and JSON lines.

use crate::config::AppConfig;
use crate::json;
use crate::json::{Json, JsonView};
use crate::outcome;
use crate::text;
use vstd::prelude::*;
use vstd::utf8::{decode_utf8, valid_utf8};

verus! {

/// The texts of the numbers that the items are; an error where one is none.
pub open spec fn numbers(items: Seq<JsonView>) -> Result<Seq<Seq<char>>, Seq<char>> {
    if forall|i: int| 0 <= i < items.len() ==> json::as_number(#[trigger] items[i]) is Some {
        Ok(items.map_values(|item: JsonView| json::as_number(item)->0))
    } else {
        Err("Expected numeric value in payload"@)
    }
}

/// The numbers of a row.
pub open spec fn numeric_row(row: JsonView) -> Result<Seq<Seq<char>>, Seq<char>> {
    match row {
        JsonView::Array(items) => numbers(items),
        _ => Err("Expected array row"@),
    }
}

/// The rows that a value holds: one for each item of an array that begins with an
/// array, one of the items of any other array, and one of a number alone.
pub open spec fn numeric_rows(value: JsonView) -> Result<Seq<Seq<Seq<char>>>, Seq<char>> {
    match value {
        JsonView::Array(items) => if items.len() > 0 && items[0] is Array {
            outcome::collect(items.map_values(|row: JsonView| numeric_row(row)))
        } else {
            match numbers(items) {
                Ok(row) => Ok(seq![row]),
                Err(message) => Err(message),
            }
        },
        _ => match json::as_number(value) {
            Some(number) => Ok(seq![seq![number]]),
            None => Err("Expected tabular numeric payload"@),
        },
    }
}

/// Every item is a number.
pub open spec fn are_numbers(items: Seq<JsonView>) -> bool {
    forall|i: int| 0 <= i < items.len() ==> #[trigger] items[i] is Number
}

/// The value is made up of rows of numbers: an array of arrays of numbers, an array of
/// numbers, or a number.
pub open spec fn rows_of_numbers(value: JsonView) -> bool {
    match value {
        JsonView::Array(items) => if items.len() > 0 && items[0] is Array {
            forall|i: int|
                0 <= i < items.len() ==> (#[trigger] items[i] matches JsonView::Array(row)
                    && are_numbers(row))
        } else {
            are_numbers(items)
        },
        _ => value is Number,
    }
}

/// The part of a payload that holds its rows: what stands under the key for
/// instances, or one row of what stands under the key for features, or all of it.
pub open spec fn scoped_rows(
    value: JsonView,
    instances_key: Seq<char>,
    features_key: Seq<char>,
) -> JsonView {
    match (json::member(value, instances_key), json::member(value, features_key)) {
        (Some(instances), _) => instances,
        (None, Some(features)) => JsonView::Array(seq![features]),
        (None, None) => value,
    }
}

/// The rows of a JSON payload.
pub open spec fn json_payload_rows(payload: Seq<u8>, cfg: AppConfig) -> Result<
    Seq<Seq<Seq<char>>>,
    Seq<char>,
> {
    match json::json_of_bytes(payload) {
        Ok(value) => numeric_rows(
            scoped_rows(value, cfg.json_key_instances@, cfg.jsonl_features_key@),
        ),
        Err(message) => Err("invalid json payload: "@ + message),
    }
}

/// The part of a line that holds its rows: what stands under the key for
/// features, or all of it.
pub open spec fn line_scope(value: JsonView, features_key: Seq<char>) -> JsonView {
    match json::member(value, features_key) {
        Some(features) => features,
        None => value,
    }
}

/// The rows of one line.
pub open spec fn line_rows(line: Seq<char>, features_key: Seq<char>) -> Result<
    Seq<Seq<Seq<char>>>,
    Seq<char>,
> {
    match json::json_of_text(line) {
        Ok(value) => numeric_rows(line_scope(value, features_key)),
        Err(message) => Err("invalid json line payload: "@ + message),
    }
}

/// The rows of the lines, one after another, or the first error among them.
pub open spec fn rows_of_lines(lines: Seq<Seq<char>>, features_key: Seq<char>) -> Result<
    Seq<Seq<Seq<char>>>,
    Seq<char>,
> {
    match outcome::collect(lines.map_values(|line: Seq<char>| line_rows(line, features_key))) {
        Ok(rows) => Ok(rows.flatten()),
        Err(message) => Err(message),
    }
}

/// The rows of a payload of JSON lines.
pub open spec fn json_lines_payload_rows(payload: Seq<u8>, cfg: AppConfig) -> Result<
    Seq<Seq<Seq<char>>>,
    Seq<char>,
> {
    if valid_utf8(payload) {
        rows_of_lines(text::filled_lines(decode_utf8(payload)), cfg.jsonl_features_key@)
    } else {
        Err("invalid utf-8 payload: "@ + text::utf8_error(payload))
    }
}

/// The line holds a JSON document whose rows are rows of numbers.
pub open spec fn line_of_numbers(line: Seq<char>, features_key: Seq<char>) -> bool {
    json::json_of_text(line) matches Ok(value) && rows_of_numbers(line_scope(value, features_key))
}

/// Items are read as numbers if and only if they are numbers.
proof fn lemma_numbers(items: Seq<JsonView>)
    requires
        forall|i: int| 0 <= i < items.len() ==> json::numerals_only(#[trigger] items[i]),
    ensures
        numbers(items) is Ok <==> are_numbers(items),
{
    assert forall|i: int| 0 <= i < items.len() implies (json::as_number(
        #[trigger] items[i],
    ) is Some <==> items[i] is Number) by {
        assert(json::numerals_only(items[i]));
        if let JsonView::Number(n) = items[i] {
            json::lemma_number(n);
        }
    }
    if are_numbers(items) {
        assert forall|i: int| 0 <= i < items.len() implies json::as_number(
            #[trigger] items[i],
        ) is Some by {
            assert(items[i] is Number);
        }
    }
    if numbers(items) is Ok {
        assert forall|i: int| 0 <= i < items.len() implies #[trigger] items[i] is Number by {
            assert(json::as_number(items[i]) is Some);
        }
    }
}

/// A value is read as rows if and only if it is made up of rows of numbers.
pub proof fn lemma_rows_of_numbers(value: JsonView)
    requires
        json::numerals_only(value),
    ensures
        numeric_rows(value) is Ok <==> rows_of_numbers(value),
{
    match value {
        JsonView::Array(items) => {
            if items.len() > 0 && items[0] is Array {
                let outcomes = items.map_values(|row: JsonView| numeric_row(row));
                outcome::lemma_collect_is_ok(outcomes);
                assert forall|i: int| 0 <= i < items.len() implies (#[trigger] outcomes[i] is Ok
                    <==> (items[i] matches JsonView::Array(row) && are_numbers(row))) by {
                    assert(json::numerals_only(items[i]));
                    if let JsonView::Array(row) = items[i] {
                        lemma_numbers(row);
                    }
                }
                if outcome::collect(outcomes) is Ok {
                    assert forall|i: int| 0 <= i < items.len() implies (
                    #[trigger] items[i] matches JsonView::Array(row) && are_numbers(row)) by {
                        assert(outcomes[i] is Ok);
                    }
                }
                if rows_of_numbers(value) {
                    assert forall|i: int| 0 <= i < outcomes.len() implies
                        #[trigger] outcomes[i] is Ok by {
                        assert(items[i] is Array);
                    }
                }
            } else {
                lemma_numbers(items);
            }
        },
        JsonView::Number(n) => {
            json::lemma_number(n);
        },
        _ => {},
    }
}

/// The texts of the numbers that the items are.
fn read_numbers(items: &Vec<Json>) -> (r: Result<Vec<String>, String>)
    ensures
        outcome::deep_viewed(r) == numbers(json::array_view(items@)),
{
    let ghost views = json::array_view(items@);
    let ghost whole = views.map_values(|item: JsonView| json::as_number(item)->0);
    let mut row: Vec<String> = Vec::new();
    let mut i: usize = 0;
    while i < items.len()
        invariant
            i <= items@.len(),
            views == json::array_view(items@),
            whole == views.map_values(|item: JsonView| json::as_number(item)->0),
            row.deep_view() == whole.take(i as int),
            forall|k: int| 0 <= k < i ==> json::as_number(#[trigger] views[k]) is Some,
        decreases items@.len() - i,
    {
        assert(views[i as int] == items@[i as int]@);
        match items[i].as_number() {
            Some(number) => {
                let ghost done = row.deep_view();
                row.push(number);
                assert(row.deep_view() =~= done.push(number@));
                assert(whole.take(i + 1) =~= whole.take(i as int).push(whole[i as int]));
            },
            None => {
                return Err("Expected numeric value in payload".to_owned());
            },
        }
        i += 1;
    }
    assert(whole.take(whole.len() as int) =~= whole);
    Ok(row)
}

/// The rows that a value holds, each number by its text.
pub fn value_to_numeric_rows(value: &Json) -> (r: Result<Vec<Vec<String>>, String>)
    ensures
        outcome::deep_viewed(r) == numeric_rows(value@),
{
    broadcast use json::lemma_array_view;

    match value {
        Json::Array(items) => {
            let ghost views = json::array_view(items@);
            let nested = items.len() > 0 && match &items[0] {
                Json::Array(_) => true,
                _ => false,
            };
            assert(items@.len() > 0 ==> views[0] == items@[0]@);
            if nested {
                return read_rows(items);
            }
            match read_numbers(items) {
                Ok(row) => {
                    let ghost cells = row.deep_view();
                    let rows = vec![row];
                    assert(rows.deep_view() =~= seq![cells]);
                    Ok(rows)
                },
                Err(message) => Err(message),
            }
        },
        _ => match value.as_number() {
            Some(number) => {
                let ghost cell = number@;
                let row = vec![number];
                assert(row.deep_view() =~= seq![cell]);
                let rows = vec![row];
                assert(rows.deep_view() =~= seq![seq![cell]]);
                Ok(rows)
            },
            None => Err("Expected tabular numeric payload".to_owned()),
        },
    }
}

/// The numbers of a row.
fn read_row(row: &Json) -> (r: Result<Vec<String>, String>)
    ensures
        outcome::deep_viewed(r) == numeric_row(row@),
{
    broadcast use json::lemma_array_view;

    match row {
        Json::Array(items) => read_numbers(items),
        _ => Err("Expected array row".to_owned()),
    }
}

/// The rows that the items are.
fn read_rows(items: &Vec<Json>) -> (r: Result<Vec<Vec<String>>, String>)
    ensures
        outcome::deep_viewed(r) == outcome::collect(
            json::array_view(items@).map_values(|row: JsonView| numeric_row(row)),
        ),
{
    let ghost outcomes = json::array_view(items@).map_values(|row: JsonView| numeric_row(row));
    let mut rows: Vec<Vec<String>> = Vec::new();
    assert(outcomes.take(0) =~= Seq::empty());
    assert(rows.deep_view() =~= Seq::empty());
    for i in 0..items.len()
        invariant
            outcomes == json::array_view(items@).map_values(|row: JsonView| numeric_row(row)),
            outcome::collect(outcomes.take(i as int)) == Ok::<Seq<Seq<Seq<char>>>, Seq<char>>(
                rows.deep_view(),
            ),
    {
        let ghost done = rows.deep_view();
        proof {
            outcome::lemma_collect_step(outcomes, i as int);
            assert(outcomes[i as int] == numeric_row(items@[i as int]@));
        }
        match read_row(&items[i]) {
            Ok(row) => {
                let ghost cells = row.deep_view();
                rows.push(row);
                assert(rows.deep_view() =~= done.push(cells));
            },
            Err(message) => {
                proof {
                    outcome::lemma_collect_error(outcomes, i + 1, message@);
                }
                return Err(message);
            },
        }
    }
    assert(outcomes.take(items@.len() as int) =~= outcomes);
    Ok(rows)
}

/// The rows of a JSON payload.
pub fn parse_json_rows(payload: &[u8], cfg: &AppConfig) -> (r: Result<Vec<Vec<String>>, String>)
    ensures
        outcome::deep_viewed(r) == json_payload_rows(payload@, *cfg),
        json::json_of_bytes(payload@) matches Ok(value) ==> (r is Ok <==> rows_of_numbers(
            scoped_rows(value, cfg.json_key_instances@, cfg.jsonl_features_key@),
        )),
{
    match json::read_slice(payload) {
        Ok(value) => {
            proof {
                let scope = scoped_rows(
                    value@,
                    cfg.json_key_instances@,
                    cfg.jsonl_features_key@,
                );
                json::lemma_numeral_member(value@, cfg.json_key_instances@);
                json::lemma_numeral_member(value@, cfg.jsonl_features_key@);
                assert(json::numerals_only(scope));
                lemma_rows_of_numbers(scope);
            }
            json_rows_of(&value, cfg)
        },
        Err(message) => Err(text::concat("invalid json payload: ", message.as_str())),
    }
}

/// The rows of a JSON document.
pub fn json_rows_of(value: &Json, cfg: &AppConfig) -> (r: Result<Vec<Vec<String>>, String>)
    ensures
        outcome::deep_viewed(r) == numeric_rows(
            scoped_rows(value@, cfg.json_key_instances@, cfg.jsonl_features_key@),
        ),
{
    broadcast use json::lemma_array_view;

    if let Some(instances) = value.get(cfg.json_key_instances.as_str()) {
        return value_to_numeric_rows(instances);
    }
    if let Some(features) = value.get(cfg.jsonl_features_key.as_str()) {
        let row = features.clone();
        let ghost cells = row@;
        let rows = vec![row];
        assert(json::array_view(rows@) =~= seq![cells]);
        return value_to_numeric_rows(&Json::Array(rows));
    }
    value_to_numeric_rows(value)
}

/// The rows of one line.
fn read_line_rows(line: &[char], cfg: &AppConfig) -> (r: Result<Vec<Vec<String>>, String>)
    ensures
        outcome::deep_viewed(r) == line_rows(line@, cfg.jsonl_features_key@),
        r is Ok <==> line_of_numbers(line@, cfg.jsonl_features_key@),
{
    match json::read_str(text::string_of(line).as_str()) {
        Ok(value) => {
            proof {
                json::lemma_numeral_member(value@, cfg.jsonl_features_key@);
                lemma_rows_of_numbers(line_scope(value@, cfg.jsonl_features_key@));
            }
            line_rows_of(&value, cfg)
        },
        Err(message) => Err(text::concat("invalid json line payload: ", message.as_str())),
    }
}

/// The rows of a JSON document that stands on one line.
pub fn line_rows_of(value: &Json, cfg: &AppConfig) -> (r: Result<Vec<Vec<String>>, String>)
    ensures
        outcome::deep_viewed(r) == numeric_rows(line_scope(value@, cfg.jsonl_features_key@)),
{
    match value.get(cfg.jsonl_features_key.as_str()) {
        Some(features) => value_to_numeric_rows(features),
        None => value_to_numeric_rows(value),
    }
}

/// The rows of a payload of JSON lines.
pub fn parse_jsonl_rows(payload: &[u8], cfg: &AppConfig) -> (r: Result<Vec<Vec<String>>, String>)
    ensures
        outcome::deep_viewed(r) == json_lines_payload_rows(payload@, *cfg),
        valid_utf8(payload@) ==> (r is Ok <==> forall|i: int|
            0 <= i < text::filled_lines(decode_utf8(payload@)).len() ==> line_of_numbers(
                #[trigger] text::filled_lines(decode_utf8(payload@))[i],
                cfg.jsonl_features_key@,
            )),
{
    let source = match text::read_utf8(payload) {
        Ok(source) => source,
        Err(message) => {
            return Err(text::concat("invalid utf-8 payload: ", message.as_str()));
        },
    };
    let chars = text::chars_of(source);
    let lines = text::filled_line_slices(chars.as_slice());
    let ghost key = cfg.jsonl_features_key@;
    let ghost views = text::slice_views(lines@);
    let ghost outcomes = text::slice_views(lines@).map_values(
        |line: Seq<char>| line_rows(line, key),
    );
    let ghost mut parts: Seq<Seq<Seq<Seq<char>>>> = Seq::empty();
    let mut rows: Vec<Vec<String>> = Vec::new();
    assert(outcomes.take(0) =~= Seq::empty());
    assert(rows.deep_view() =~= parts.flatten());
    for i in 0..lines.len()
        invariant
            key == cfg.jsonl_features_key@,
            json_lines_payload_rows(payload@, *cfg) == rows_of_lines(
                text::slice_views(lines@),
                key,
            ),
            outcomes == text::slice_views(lines@).map_values(
                |line: Seq<char>| line_rows(line, key),
            ),
            outcome::collect(outcomes.take(i as int)) == Ok::<_, Seq<char>>(parts),
            rows.deep_view() == parts.flatten(),
            views == text::slice_views(lines@),
            views == text::filled_lines(decode_utf8(payload@)),
            forall|k: int| 0 <= k < i ==> line_of_numbers(#[trigger] views[k], key),
    {
        proof {
            outcome::lemma_collect_step(outcomes, i as int);
            assert(outcomes[i as int] == line_rows(lines@[i as int]@, key));
            assert(views[i as int] == lines@[i as int]@);
        }
        match read_line_rows(lines[i], cfg) {
            Ok(mut more) => {
                let ghost done = rows.deep_view();
                let ghost added = more.deep_view();
                rows.append(&mut more);
                proof {
                    assert(rows.deep_view() =~= done + added);
                    lemma_flatten_push(parts, added);
                    parts = parts.push(added);
                }
            },
            Err(message) => {
                proof {
                    outcome::lemma_collect_error(outcomes, i + 1, message@);
                }
                return Err(message);
            },
        }
    }
    assert(outcomes.take(lines@.len() as int) =~= outcomes);
    Ok(rows)
}

/// Flattening with one part more.
pub proof fn lemma_flatten_push<A>(parts: Seq<Seq<A>>, part: Seq<A>)
    ensures
        parts.push(part).flatten() == parts.flatten() + part,
    decreases parts.len(),
{
    if parts.len() == 0 {
        assert(parts.push(part).drop_first() =~= Seq::<Seq<A>>::empty());
        assert(Seq::<Seq<A>>::empty().flatten() =~= Seq::<A>::empty());
        assert(parts.push(part).flatten() =~= part);
        assert(parts.flatten() + part =~= part);
    } else {
        assert(parts.push(part).drop_first() =~= parts.drop_first().push(part));
        lemma_flatten_push(parts.drop_first(), part);
        assert(parts.push(part).flatten() =~= parts.flatten() + part);
    }
}

} // verus!
