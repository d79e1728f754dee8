//! Records, and the tensors of named model inputs.

use crate::adapter;
use crate::config::AppConfig;
use crate::input::parsed;
use crate::input::records;
use crate::input::records::{RecordView, TextMapView};
use crate::json;
use crate::json::{Json, JsonView};
use crate::laws::batches;
use crate::laws::lines;
use crate::laws::texts;
use crate::outcome;
use crate::string_map;
use crate::string_map::StringMap;
use crate::text;
use vstd::prelude::*;
use vstd::utf8::{decode_utf8, valid_utf8};

verus! {

/// A JSON value is a text map if and only if it is an object whose values are all texts: with
/// the same keys in the same order, each with its text.
pub proof fn law_text_maps(value: &Json, r: Result<StringMap<String>, String>)
    requires
        call_ensures(records::text_map_of, (value,), r),
    ensures
        match value@ {
            JsonView::Object(entries) => {
                &&& r is Ok <==> forall|i: int|
                    0 <= i < entries.len() ==> (#[trigger] entries[i]).1 is Text
                &&& r matches Ok(map) ==> map.entries@.len() == entries.len() && forall|i: int|
                    0 <= i < entries.len() ==> (#[trigger] map.entries@[i]).0@ == entries[i].0
                        && JsonView::Text(map.entries@[i].1@) == entries[i].1
            },
            _ => r matches Err(message) && message@ == "Expected JSON object mapping"@,
        },
{
    if let JsonView::Object(entries) = value@ {
        let outcomes = entries.map_values(
            |entry: (Seq<char>, JsonView)| records::text_entry(entry),
        );
        outcome::lemma_collected(outcomes);
        outcome::lemma_collect_is_ok(outcomes);
        assert forall|i: int| 0 <= i < entries.len() implies (#[trigger] outcomes[i] is Ok
            <==> entries[i].1 is Text) by {}
        if forall|i: int| 0 <= i < entries.len() ==> (#[trigger] entries[i]).1 is Text {
            assert forall|i: int| 0 <= i < outcomes.len() implies #[trigger] outcomes[i] is Ok by {
                assert(entries[i].1 is Text);
            }
        }
        if let Ok(map) = r {
            let views = records::text_map_view(map);
            assert forall|i: int| 0 <= i < entries.len() implies (#[trigger] entries[i]).1 is Text by {
                assert(outcomes[i] is Ok);
            }
            assert forall|i: int| 0 <= i < entries.len() implies (#[trigger] map.entries@[i]).0@
                == entries[i].0 && JsonView::Text(map.entries@[i].1@) == entries[i].1 by {
                assert(outcomes[i] == Ok::<(Seq<char>, Seq<char>), Seq<char>>(views[i]));
                assert(views[i] == (map.entries@[i].0@, map.entries@[i].1@));
            }
        }
    }
}

/// The first value of a text map that is no text is named by its key.
pub proof fn law_first_bad_entry_is_named(
    value: &Json,
    entries: RecordView,
    k: int,
    r: Result<StringMap<String>, String>,
)
    requires
        call_ensures(records::text_map_of, (value,), r),
        value@ == JsonView::Object(entries),
        0 <= k < entries.len(),
        !(entries[k].1 is Text),
        forall|i: int| 0 <= i < k ==> (#[trigger] entries[i]).1 is Text,
    ensures
        r matches Err(message) && message@ == "Expected string value for key '"@ + entries[k].0
            + "' in JSON object mapping"@,
{
    let outcomes = entries.map_values(|entry: (Seq<char>, JsonView)| records::text_entry(entry));
    let found = Seq::new(k as nat, |i: int| outcomes[i]->Ok_0);
    assert forall|i: int| 0 <= i < k implies #[trigger] outcomes.take(k)[i] == Ok::<
        (Seq<char>, Seq<char>),
        Seq<char>,
    >(found[i]) by {
        assert(entries[i].1 is Text);
        assert(outcomes[i] == records::text_entry(entries[i]));
    }
    outcome::lemma_collect_values(outcomes.take(k), found);
    outcome::lemma_collect_step(outcomes, k);
    outcome::lemma_collect_error(outcomes, k + 1, outcomes[k]->Err_0);
}

/// A setting that is blank is a map without entries; any other is the map that it holds once
/// it is trimmed, and is refused with the reason where it holds no JSON.
pub proof fn law_setting_maps(
    raw: &str,
    value: &Json,
    r: Result<StringMap<String>, String>,
    q: Result<StringMap<String>, String>,
)
    requires
        call_ensures(records::load_json_map, (raw,), r),
        call_ensures(records::text_map_of, (value,), q),
    ensures
        text::trim(raw@).len() == 0 ==> (r matches Ok(map) && map.entries@.len() == 0),
        text::trim(raw@).len() > 0 ==> {
            &&& json::json_of_text(text::trim(raw@)) == Ok::<JsonView, Seq<char>>(value@)
                ==> records::text_map_outcome(r) == records::text_map_outcome(q)
            &&& json::json_of_text(text::trim(raw@)) matches Err(reason) ==> (r matches Err(message)
                && message@ == "Expected JSON object mapping: "@ + reason)
        },
{
    if text::trim(raw@).len() == 0 {
        assert(records::text_map_view(r->Ok_0).len() == 0);
    }
}

/// A record is an object, with its fields as they are.
pub proof fn law_records_are_objects(value: &Json, r: Result<StringMap<Json>, String>)
    requires
        call_ensures(records::record_of, (value,), r),
    ensures
        match value@ {
            JsonView::Object(entries) => r matches Ok(map) && json::object_view(map) == entries,
            _ => r matches Err(message) && message@
                == "ONNX multi-input mode expects each record to be a JSON object"@,
        },
{
}

/// An object is one record; an array is the records that its items are, in their order, if and
/// only if all of them are objects; nothing else holds records.
pub proof fn law_records_of_a_value(value: &Json, r: Result<Vec<StringMap<Json>>, String>)
    requires
        call_ensures(records::records_of, (value,), r),
    ensures
        match value@ {
            JsonView::Object(entries) => r matches Ok(out) && out@.len() == 1 && json::object_view(
                out@[0],
            ) == entries,
            JsonView::Array(items) => match r {
                Ok(out) => out@.len() == items.len() && forall|i: int|
                    0 <= i < items.len() ==> #[trigger] items[i] == JsonView::Object(
                        json::object_view(out@[i]),
                    ),
                Err(message) => message@
                    == "ONNX multi-input mode expects each record to be a JSON object"@
                    && !forall|i: int| 0 <= i < items.len() ==> #[trigger] items[i] is Object,
            },
            _ => r matches Err(message) && message@
                == "ONNX multi-input mode expects a JSON object or a non-empty list of objects"@,
        },
{
    match value@ {
        JsonView::Object(entries) => {
            let out = r->Ok_0;
            let views = records::records_view(out@);
            assert(views.len() == 1 && views[0] == entries);
            assert(views[0] == json::object_view(out@[0]));
        },
        JsonView::Array(items) => {
            let outcomes = items.map_values(|item: JsonView| records::record(item));
            outcome::lemma_collected(outcomes);
            outcome::lemma_collect_is_ok(outcomes);
            lemma_record_error(items);
            if let Ok(out) = r {
                let views = records::records_view(out@);
                assert forall|i: int| 0 <= i < items.len() implies #[trigger] items[i]
                    == JsonView::Object(json::object_view(out@[i])) by {
                    assert(outcomes[i] == Ok::<RecordView, Seq<char>>(views[i]));
                }
            } else if forall|i: int| 0 <= i < items.len() ==> #[trigger] items[i] is Object {
                assert forall|i: int| 0 <= i < outcomes.len() implies
                    #[trigger] outcomes[i] is Ok by {
                    assert(items[i] is Object);
                }
            }
        },
        _ => {},
    }
}

/// Items that are no records have the one error.
proof fn lemma_record_error(items: Seq<JsonView>)
    ensures
        outcome::collect(items.map_values(|item: JsonView| records::record(item))) matches Err(
            message,
        ) ==> message == "ONNX multi-input mode expects each record to be a JSON object"@,
    decreases items.len(),
{
    let outcomes = items.map_values(|item: JsonView| records::record(item));
    if items.len() > 0 {
        lemma_record_error(items.drop_last());
        assert(outcomes.drop_last() =~= items.drop_last().map_values(
            |item: JsonView| records::record(item),
        ));
        assert(outcomes.last() == records::record(items.last()));
    }
}

/// The records of a JSON document are those of what stands under the key for instances, or of
/// the document itself where there is no such key.
pub proof fn law_scope_of_records(
    value: &Json,
    cfg: &AppConfig,
    scope: &Json,
    r: Result<Vec<StringMap<Json>>, String>,
    q: Result<Vec<StringMap<Json>>, String>,
)
    requires
        call_ensures(records::json_records_of, (value, cfg), r),
        call_ensures(records::records_of, (scope,), q),
        match value@ {
            JsonView::Object(entries) => match string_map::lookup(
                entries,
                cfg.json_key_instances@,
            ) {
                Some(instances) => scope@ == instances,
                None => scope@ == value@,
            },
            _ => scope@ == value@,
        },
    ensures
        records::records_outcome(r) == records::records_outcome(q),
{
}

/// The records of a JSON payload are those of the document that it holds; a payload that holds
/// none is refused with the reason.
pub proof fn law_records_of_a_json_payload(
    payload: &[u8],
    cfg: &AppConfig,
    value: &Json,
    r: Result<Vec<StringMap<Json>>, String>,
    q: Result<Vec<StringMap<Json>>, String>,
)
    requires
        call_ensures(records::parse_json_records, (payload, cfg), r),
        call_ensures(records::json_records_of, (value, cfg), q),
    ensures
        json::json_of_bytes(payload@) == Ok::<JsonView, Seq<char>>(value@)
            ==> records::records_outcome(r) == records::records_outcome(q),
        json::json_of_bytes(payload@) matches Err(reason) ==> (r matches Err(message) && message@
            == "invalid json payload: "@ + reason),
{
}

/// A payload of JSON lines has one record for each line that is not blank, in the order of the
/// lines: the object that the line holds.
pub proof fn law_records_of_lines(
    payload: &[u8],
    fields: Seq<RecordView>,
    r: Result<Vec<StringMap<Json>>, String>,
)
    requires
        call_ensures(records::parse_jsonl_records, (payload,), r),
        valid_utf8(payload@),
    ensures
        ({
            let filled = text::filled_lines(decode_utf8(payload@));
            filled.len() == fields.len() && (forall|i: int|
                0 <= i < filled.len() ==> json::json_of_text(#[trigger] filled[i]) == Ok::<
                    JsonView,
                    Seq<char>,
                >(JsonView::Object(fields[i])))
        }) ==> (r matches Ok(out) && records::records_view(out@) == fields),
{
    let filled = text::filled_lines(decode_utf8(payload@));
    if filled.len() == fields.len() && (forall|i: int|
        0 <= i < filled.len() ==> json::json_of_text(#[trigger] filled[i]) == Ok::<
            JsonView,
            Seq<char>,
        >(JsonView::Object(fields[i]))) {
        lemma_records_of_lines(filled, fields);
    }
}

/// Lines that hold objects are read as these.
pub proof fn lemma_records_of_lines(filled: Seq<Seq<char>>, fields: Seq<RecordView>)
    ensures
        filled.len() == fields.len() && (forall|i: int|
            0 <= i < filled.len() ==> json::json_of_text(#[trigger] filled[i]) == Ok::<
                JsonView,
                Seq<char>,
            >(JsonView::Object(fields[i]))) ==> outcome::collect(
            filled.map_values(|line: Seq<char>| records::line_record(line)),
        ) == Ok::<Seq<RecordView>, Seq<char>>(fields),
{
    if filled.len() == fields.len() && (forall|i: int|
        0 <= i < filled.len() ==> json::json_of_text(#[trigger] filled[i]) == Ok::<
            JsonView,
            Seq<char>,
        >(JsonView::Object(fields[i]))) {
        let outcomes = filled.map_values(|line: Seq<char>| records::line_record(line));
        assert forall|i: int| 0 <= i < outcomes.len() implies #[trigger] outcomes[i] == Ok::<
            RecordView,
            Seq<char>,
        >(fields[i]) by {
            assert(json::json_of_text(filled[i]) == Ok::<JsonView, Seq<char>>(
                JsonView::Object(fields[i]),
            ));
        }
        outcome::lemma_collect_values(outcomes, fields);
    }
}

/// A payload of one line is refused where the line holds no JSON, or no object; a payload that
/// is no text is refused.
pub proof fn law_bad_record_lines_are_refused(
    payload: &[u8],
    r: Result<Vec<StringMap<Json>>, String>,
)
    requires
        call_ensures(records::parse_jsonl_records, (payload,), r),
    ensures
        !valid_utf8(payload@) ==> (r matches Err(message) && message@ == "invalid utf-8 payload: "@
            + text::utf8_error(payload@)),
        valid_utf8(payload@) && !decode_utf8(payload@).contains('\n') && text::trim(
            decode_utf8(payload@),
        ).len() > 0 ==> match json::json_of_text(text::trim(decode_utf8(payload@))) {
            Ok(value) => !(value is Object) ==> (r matches Err(message) && message@
                == "ONNX multi-input mode expects each record to be a JSON object"@),
            Err(reason) => r matches Err(message) && message@ == "invalid json line payload: "@
                + reason,
        },
{
    let source = decode_utf8(payload@);
    if valid_utf8(payload@) && !source.contains('\n') && text::trim(source).len() > 0 {
        texts::law_filled_lines(source, source, source);
        let line = text::trim(source);
        let outcomes = text::filled_lines(source).map_values(
            |line: Seq<char>| records::line_record(line),
        );
        assert(outcomes =~= seq![records::line_record(line)]);
        assert(outcomes.drop_last() =~= Seq::empty());
        assert(outcome::collect(outcomes.drop_last()) == Ok::<Seq<RecordView>, Seq<char>>(
            Seq::empty(),
        ));
        assert(outcomes.last() == records::line_record(line));
    }
}

/// Lines one after another have their records one after another, and the first line in error
/// decides.
pub proof fn law_records_of_lines_follow_each_other(
    first: &[u8],
    second: &[u8],
    whole: &[u8],
    a: Result<Vec<StringMap<Json>>, String>,
    b: Result<Vec<StringMap<Json>>, String>,
    r: Result<Vec<StringMap<Json>>, String>,
)
    requires
        call_ensures(records::parse_jsonl_records, (first,), a),
        call_ensures(records::parse_jsonl_records, (second,), b),
        call_ensures(records::parse_jsonl_records, (whole,), r),
        valid_utf8(first@),
        valid_utf8(second@),
        valid_utf8(whole@),
        decode_utf8(whole@) == decode_utf8(first@) + seq!['\n'] + decode_utf8(second@),
    ensures
        match (a, b) {
            (Err(reason), _) => r matches Err(message) && message@ == reason@,
            (Ok(_), Err(reason)) => r matches Err(message) && message@ == reason@,
            (Ok(x), Ok(y)) => r matches Ok(out) && records::records_view(out@)
                == records::records_view(x@) + records::records_view(y@),
        },
{
    lines::lemma_records_join(decode_utf8(first@), decode_utf8(second@));
}

/// The records of a payload of one of the media types of JSON are those of its document, and
/// those of any other payload are those of its lines.
pub proof fn law_records_by_media_type(
    payload: &[u8],
    content_type: &str,
    cfg: &AppConfig,
    document: Result<Vec<StringMap<Json>>, String>,
    lines: Result<Vec<StringMap<Json>>, String>,
    r: Result<Vec<StringMap<Json>>, String>,
)
    requires
        call_ensures(records::load_multi_input_records, (payload, content_type, cfg), r),
        call_ensures(records::parse_json_records, (payload, cfg), document),
        call_ensures(records::parse_jsonl_records, (payload,), lines),
    ensures
        records::records_outcome(r) == if content_type@ == "application/json"@ || content_type@
            == "application/*+json"@ {
            records::records_outcome(document)
        } else {
            records::records_outcome(lines)
        },
{
}

/// What is set last under a key stands under it once all is merged, and nothing stands under
/// a key that was not set.
proof fn lemma_merged_lookup(fields: RecordView, key: Seq<char>, k: int)
    requires
        0 <= k <= fields.len(),
        k < fields.len() ==> fields[k].0 == key,
        forall|j: int| k < j < fields.len() ==> (#[trigger] fields[j]).0 != key,
        k == fields.len() ==> forall|j: int|
            0 <= j < fields.len() ==> (#[trigger] fields[j]).0 != key,
    ensures
        string_map::lookup(adapter::merged(fields), key) == if k < fields.len() {
            Some(fields[k].1)
        } else {
            None
        },
    decreases fields.len(),
{
    if fields.len() > 0 {
        let rest = fields.drop_last();
        let (last, value) = fields.last();
        let done = adapter::merged(rest);
        string_map::law_put_then_lookup(done, last, value, key);
        if k != fields.len() - 1 {
            assert(fields[fields.len() - 1].0 != key);
            let at = if k == fields.len() {
                rest.len() as int
            } else {
                k
            };
            assert forall|j: int| at < j < rest.len() implies (#[trigger] rest[j]).0 != key by {
                assert(rest[j] == fields[j]);
            }
            if at == rest.len() {
                assert forall|j: int| 0 <= j < rest.len() implies (#[trigger] rest[j]).0 != key by {
                    assert(rest[j] == fields[j]);
                }
            } else {
                assert(rest[at] == fields[at]);
            }
            lemma_merged_lookup(rest, key, at);
        }
    }
}

/// Fields with distinct keys are as they were once all is merged.
proof fn lemma_merged_distinct(fields: RecordView)
    requires
        string_map::distinct(fields),
    ensures
        adapter::merged(fields) == fields,
    decreases fields.len(),
{
    if fields.len() > 0 {
        let rest = fields.drop_last();
        let (last, value) = fields.last();
        assert forall|i: int, j: int| 0 <= i < j < rest.len() implies (#[trigger] rest[i]).0 != (
        #[trigger] rest[j]).0 by {
            assert(fields[i].0 != fields[j].0);
        }
        lemma_merged_distinct(rest);
        assert forall|i: int| 0 <= i < rest.len() implies (#[trigger] rest[i]).0 != last by {
            assert(fields[i].0 != fields[fields.len() - 1].0);
        }
        string_map::lemma_put(rest, last, value, rest.len() as int);
        assert(rest.push((last, value)) =~= fields);
    } else {
        assert(fields =~= Seq::empty());
    }
}

/// Every record has every mapped field.
pub open spec fn complete(fields: Seq<RecordView>, input_map: TextMapView) -> bool {
    forall|k: int| 0 <= k < input_map.len() ==> batches::all_have(fields, (#[trigger] input_map[k]).0)
}

/// The values of the records under the key, in the order of the records.
pub open spec fn holds_column(tensor: JsonView, fields: Seq<RecordView>, key: Seq<char>) -> bool {
    tensor matches JsonView::Array(values) && values.len() == fields.len() && forall|i: int|
        0 <= i < values.len() ==> string_map::lookup(fields[i], key) == Some(#[trigger] values[i])
}

/// The mapped fields are collected where every record has them, each under its name.
proof fn lemma_named(fields: Seq<RecordView>, input_map: TextMapView) -> (named: RecordView)
    requires
        complete(fields, input_map),
    ensures
        outcome::collect(
            input_map.map_values(
                |input: (Seq<char>, Seq<char>)| adapter::named_tensor(fields, input),
            ),
        ) == Ok::<RecordView, Seq<char>>(named),
        named.len() == input_map.len(),
        forall|k: int|
            0 <= k < named.len() ==> (#[trigger] named[k]).0 == input_map[k].1 && holds_column(
                named[k].1,
                fields,
                input_map[k].0,
            ),
{
    let outcomes = input_map.map_values(
        |input: (Seq<char>, Seq<char>)| adapter::named_tensor(fields, input),
    );
    let named = outcomes.map_values(
        |outcome: Result<(Seq<char>, JsonView), Seq<char>>| outcome->Ok_0,
    );
    assert forall|k: int| 0 <= k < named.len() implies {
        &&& #[trigger] outcomes[k] == Ok::<(Seq<char>, JsonView), Seq<char>>(named[k])
        &&& named[k].0 == input_map[k].1
        &&& holds_column(named[k].1, fields, input_map[k].0)
    } by {
        assert(batches::all_have(fields, input_map[k].0));
        assert(outcomes[k] == adapter::named_tensor(fields, input_map[k]));
        let values = named[k].1->Array_0;
        assert forall|i: int| 0 <= i < values.len() implies string_map::lookup(
            fields[i],
            input_map[k].0,
        ) == Some(#[trigger] values[i]) by {
            assert(string_map::lookup(fields[i], input_map[k].0) is Some);
        }
    }
    outcome::lemma_collect_values(outcomes, named);
    named
}

/// The tensors of records: every mapped name stands for the values of the records under its
/// key, in their order, the last entry deciding where a name is mapped twice; no other name
/// stands for anything; and distinct names come in the order of the map.
pub open spec fn holds_tensors(
    tensors: RecordView,
    fields: Seq<RecordView>,
    input_map: TextMapView,
) -> bool {
    &&& forall|k: int|
        0 <= k < input_map.len() && (forall|j: int|
            k < j < input_map.len() ==> (#[trigger] input_map[j]).1 != input_map[k].1) ==> (
        string_map::lookup(tensors, (#[trigger] input_map[k]).1) matches Some(tensor)
            && holds_column(tensor, fields, input_map[k].0))
    &&& forall|name: Seq<char>|
        (forall|k: int| 0 <= k < input_map.len() ==> (#[trigger] input_map[k]).1 != name)
            ==> #[trigger] string_map::lookup(tensors, name) is None
    &&& (forall|j: int, k: int|
        0 <= j < k < input_map.len() ==> (#[trigger] input_map[j]).1 != (#[trigger] input_map[k]).1)
        ==> {
        &&& tensors.len() == input_map.len()
        &&& forall|k: int|
            0 <= k < input_map.len() ==> (#[trigger] tensors[k]).0 == input_map[k].1
                && holds_column(tensors[k].1, fields, input_map[k].0)
    }
}

/// Tensors are built if and only if every record has every mapped field and, where the inputs
/// must agree on a batch size, there are inputs and records; they then hold the fields.
pub proof fn lemma_tensors(fields: Seq<RecordView>, input_map: TextMapView, dynamic_batch: bool)
    requires
        fields.len() <= usize::MAX,
    ensures
        match adapter::onnx_tensors(fields, input_map, dynamic_batch) {
            Ok(tensors) => {
                &&& complete(fields, input_map)
                &&& dynamic_batch ==> fields.len() > 0 && input_map.len() > 0
                &&& holds_tensors(tensors, fields, input_map)
            },
            Err(message) => {
                ||| !complete(fields, input_map)
                ||| dynamic_batch && (fields.len() == 0 || input_map.len() == 0) && message
                    == "ONNX_DYNAMIC_BATCH enabled but batch dimension invalid"@
            },
        },
{
    let outcomes = input_map.map_values(
        |input: (Seq<char>, Seq<char>)| adapter::named_tensor(fields, input),
    );
    if complete(fields, input_map) {
        let named = lemma_named(fields, input_map);
        let tensors = adapter::merged(named);
        assert forall|k: int|
            0 <= k < input_map.len() && (forall|j: int|
                k < j < input_map.len() ==> (#[trigger] input_map[j]).1
                    != input_map[k].1) implies (string_map::lookup(
            tensors,
            (#[trigger] input_map[k]).1,
        ) matches Some(tensor) && holds_column(tensor, fields, input_map[k].0)) by {
            assert forall|j: int| k < j < named.len() implies (#[trigger] named[j]).0
                != input_map[k].1 by {
                assert(input_map[j].1 != input_map[k].1);
            }
            assert(named[k].0 == input_map[k].1);
            lemma_merged_lookup(named, input_map[k].1, k);
        }
        assert forall|name: Seq<char>|
            (forall|k: int| 0 <= k < input_map.len() ==> (#[trigger] input_map[k]).1
                != name) implies #[trigger] string_map::lookup(tensors, name) is None by {
            assert forall|j: int| 0 <= j < named.len() implies (#[trigger] named[j]).0 != name by {
                assert(input_map[j].1 != name);
            }
            lemma_merged_lookup(named, name, named.len() as int);
        }
        if forall|j: int, k: int|
            0 <= j < k < input_map.len() ==> (#[trigger] input_map[j]).1 != (
            #[trigger] input_map[k]).1 {
            assert forall|i: int, j: int| 0 <= i < j < named.len() implies (#[trigger] named[i]).0
                != (#[trigger] named[j]).0 by {
                assert(input_map[i].1 != input_map[j].1);
            }
            lemma_merged_distinct(named);
        }
        assert(holds_tensors(tensors, fields, input_map));
        let counts = adapter::record_counts(fields.len(), input_map.len());
        if counts.len() > 0 {
            assert(counts[0] == fields.len());
            if fields.len() == 0 {
                assert(counts.contains(counts[0]));
            } else {
                assert(!counts.contains(0));
                assert(parsed::all_same(counts));
            }
        }
    } else {
        let k = choose|k: int|
            0 <= k < input_map.len() && !batches::all_have(fields, (#[trigger] input_map[k]).0);
        assert(outcomes[k] == adapter::named_tensor(fields, input_map[k]));
        assert(outcomes[k] is Err);
        outcome::lemma_collect_is_ok(outcomes);
    }
}

/// Tensors are built from records if and only if every record has every mapped field and, where
/// the inputs must agree on a batch size, there are inputs and records. Each mapped name then
/// stands for the values of the records under its key.
pub proof fn law_tensors_hold_the_fields(
    fields: &[StringMap<Json>],
    input_map: &StringMap<String>,
    dynamic_batch: bool,
    r: Result<StringMap<Json>, String>,
)
    requires
        call_ensures(adapter::build_onnx_tensors, (fields, input_map, dynamic_batch), r),
        fields@.len() <= usize::MAX,
    ensures
        ({
            let views = records::records_view(fields@);
            let inputs = records::text_map_view(*input_map);
            &&& r is Ok <==> complete(views, inputs) && (dynamic_batch ==> views.len() > 0
                && inputs.len() > 0)
            &&& r matches Ok(tensors) ==> holds_tensors(json::object_view(tensors), views, inputs)
            &&& r matches Err(message) ==> complete(views, inputs) ==> message@
                == "ONNX_DYNAMIC_BATCH enabled but batch dimension invalid"@
        }),
{
    lemma_tensors(
        records::records_view(fields@),
        records::text_map_view(*input_map),
        dynamic_batch,
    );
}

/// The first mapped field that some record lacks is named in the error.
pub proof fn law_missing_keys_are_named(
    fields: &[StringMap<Json>],
    input_map: &StringMap<String>,
    dynamic_batch: bool,
    k: int,
    r: Result<StringMap<Json>, String>,
)
    requires
        call_ensures(adapter::build_onnx_tensors, (fields, input_map, dynamic_batch), r),
        0 <= k < input_map.entries@.len(),
        !batches::all_have(records::records_view(fields@), input_map.entries@[k].0@),
        forall|i: int|
            0 <= i < k ==> batches::all_have(
                records::records_view(fields@),
                (#[trigger] input_map.entries@[i]).0@,
            ),
    ensures
        r matches Err(message) && message@ == "Missing key '"@ + input_map.entries@[k].0@
            + "' in one of the records for ONNX multi-input"@,
{
    let inputs = records::text_map_view(*input_map);
    assert forall|i: int| 0 <= i < k implies batches::all_have(
        records::records_view(fields@),
        (#[trigger] inputs[i]).0,
    ) by {
        assert(inputs[i] == (input_map.entries@[i].0@, input_map.entries@[i].1@));
    }
    batches::law_missing_fields_are_named(
        records::records_view(fields@),
        inputs,
        dynamic_batch,
        k,
    );
}

} // verus!
