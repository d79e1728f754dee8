//! Records with named fields in JSON payloads and JSON lines, and text maps in
//! JSON settings.

use super::media;
use crate::config::AppConfig;
use crate::json;
use crate::json::{Json, JsonView};
use crate::outcome;
use crate::string_map;
use crate::string_map::StringMap;
use crate::text;
use vstd::prelude::*;
use vstd::utf8::{decode_utf8, valid_utf8};

verus! {

/// The fields of a record: keys and values.
pub type RecordView = Seq<(Seq<char>, JsonView)>;

/// The entries of a text map: keys and texts.
pub type TextMapView = Seq<(Seq<char>, Seq<char>)>;

/// What the entries of a text map stand for.
pub open spec fn text_map_view(map: StringMap<String>) -> TextMapView {
    Seq::new(map.entries@.len(), |i: int| (map.entries@[i].0@, map.entries@[i].1@))
}

/// What the records stand for.
pub open spec fn records_view(records: Seq<StringMap<Json>>) -> Seq<RecordView> {
    records.map_values(|record: StringMap<Json>| json::object_view(record))
}

/// What the outcome of reading a text map stands for.
pub open spec fn text_map_outcome(r: Result<StringMap<String>, String>) -> Result<
    TextMapView,
    Seq<char>,
> {
    match r {
        Ok(map) => Ok(text_map_view(map)),
        Err(message) => Err(message@),
    }
}

/// What the outcome of reading records stands for.
pub open spec fn records_outcome(r: Result<Vec<StringMap<Json>>, String>) -> Result<
    Seq<RecordView>,
    Seq<char>,
> {
    match r {
        Ok(records) => Ok(records_view(records@)),
        Err(message) => Err(message@),
    }
}

/// No record holds a key twice.
pub open spec fn all_wf(records: Seq<StringMap<Json>>) -> bool {
    forall|i: int| 0 <= i < records.len() ==> (#[trigger] records[i]).wf()
}

/// Every floating-point number in the fields is given by a text that reads as one.
pub open spec fn numeral_fields(fields: RecordView) -> bool {
    forall|i: int| 0 <= i < fields.len() ==> json::numerals_only((#[trigger] fields[i]).1)
}

/// Every floating-point number in the records is given by a text that reads as one.
pub open spec fn numeral_records(records: Seq<RecordView>) -> bool {
    forall|i: int| 0 <= i < records.len() ==> numeral_fields(#[trigger] records[i])
}

/// An entry of a text map: its value must be a text.
pub open spec fn text_entry(entry: (Seq<char>, JsonView)) -> Result<
    (Seq<char>, Seq<char>),
    Seq<char>,
> {
    match entry.1 {
        JsonView::Text(value) => Ok((entry.0, value)),
        _ => Err(
            "Expected string value for key '"@ + entry.0 + "' in JSON object mapping"@,
        ),
    }
}

/// The text map that the value is: an object whose values are texts.
pub open spec fn text_map(value: JsonView) -> Result<TextMapView, Seq<char>> {
    match value {
        JsonView::Object(entries) => outcome::collect(
            entries.map_values(|entry: (Seq<char>, JsonView)| text_entry(entry)),
        ),
        _ => Err("Expected JSON object mapping"@),
    }
}

/// The text map that a setting holds; blank for one without entries.
pub open spec fn setting_map(raw: Seq<char>) -> Result<TextMapView, Seq<char>> {
    if text::trim(raw).len() == 0 {
        Ok(Seq::empty())
    } else {
        match json::json_of_text(text::trim(raw)) {
            Ok(value) => text_map(value),
            Err(message) => Err("Expected JSON object mapping: "@ + message),
        }
    }
}

/// The record that the value is.
pub open spec fn record(value: JsonView) -> Result<RecordView, Seq<char>> {
    match value {
        JsonView::Object(entries) => Ok(entries),
        _ => Err("ONNX multi-input mode expects each record to be a JSON object"@),
    }
}

/// The part of a payload that holds its records: what stands under the key for
/// instances, or all of it.
pub open spec fn scoped_records(value: JsonView, instances_key: Seq<char>) -> JsonView {
    match json::member(value, instances_key) {
        Some(instances) => instances,
        None => value,
    }
}

/// The records that the value holds: an object alone, or the objects of an array.
pub open spec fn records(value: JsonView) -> Result<Seq<RecordView>, Seq<char>> {
    match value {
        JsonView::Object(entries) => Ok(seq![entries]),
        JsonView::Array(items) => outcome::collect(
            items.map_values(|item: JsonView| record(item)),
        ),
        _ => Err("ONNX multi-input mode expects a JSON object or a non-empty list of objects"@),
    }
}

/// The records of a JSON payload.
pub open spec fn json_payload_records(payload: Seq<u8>, cfg: AppConfig) -> Result<
    Seq<RecordView>,
    Seq<char>,
> {
    match json::json_of_bytes(payload) {
        Ok(value) => records(scoped_records(value, cfg.json_key_instances@)),
        Err(message) => Err("invalid json payload: "@ + message),
    }
}

/// The record of one line.
pub open spec fn line_record(line: Seq<char>) -> Result<RecordView, Seq<char>> {
    match json::json_of_text(line) {
        Ok(value) => record(value),
        Err(message) => Err("invalid json line payload: "@ + message),
    }
}

/// The records of a payload of JSON lines.
pub open spec fn json_lines_payload_records(payload: Seq<u8>) -> Result<
    Seq<RecordView>,
    Seq<char>,
> {
    if valid_utf8(payload) {
        outcome::collect(
            text::filled_lines(decode_utf8(payload)).map_values(
                |line: Seq<char>| line_record(line),
            ),
        )
    } else {
        Err("invalid utf-8 payload: "@ + text::utf8_error(payload))
    }
}

/// The records of a payload of the media type.
pub open spec fn payload_records(
    payload: Seq<u8>,
    content_type: Seq<char>,
    cfg: AppConfig,
) -> Result<Seq<RecordView>, Seq<char>> {
    if media::is_json(content_type) {
        json_payload_records(payload, cfg)
    } else {
        json_lines_payload_records(payload)
    }
}

/// The text map that the value is.
pub fn text_map_of(value: &Json) -> (r: Result<StringMap<String>, String>)
    ensures
        text_map_outcome(r) == text_map(value@),
        json::keys_distinct(value@) ==> (r matches Ok(map) ==> map.wf()),
{
    broadcast use json::lemma_object_view;

    let map = match value {
        Json::Object(map) => map,
        _ => {
            return Err("Expected JSON object mapping".to_owned());
        },
    };
    let ghost entries = json::object_view(*map);
    let ghost outcomes = entries.map_values(|entry: (Seq<char>, JsonView)| text_entry(entry));
    let mut out: StringMap<String> = StringMap::new();
    assert(outcomes.take(0) =~= Seq::empty());
    assert(out@.len() == out.entries@.len());
    assert(text_map_view(out) =~= Seq::empty());
    for i in 0..map.entries.len()
        invariant
            entries == json::object_view(*map),
            outcomes == entries.map_values(|entry: (Seq<char>, JsonView)| text_entry(entry)),
            text_map(value@) == outcome::collect(outcomes),
            outcome::collect(outcomes.take(i as int)) == Ok::<TextMapView, Seq<char>>(
                text_map_view(out),
            ),
            out@.len() == i,
            forall|k: int| 0 <= k < i ==> (#[trigger] out@[k]).0 == entries[k].0,
    {
        let ghost done = text_map_view(out);
        let ghost before = out@;
        proof {
            outcome::lemma_collect_step(outcomes, i as int);
            assert(outcomes[i as int] == text_entry(entries[i as int]));
        }
        let key = map.entries[i].0.clone();
        match &map.entries[i].1 {
            Json::Text(value) => {
                let ghost entry = (key@, value@);
                out.entries.push((key, value.clone()));
                assert(text_map_view(out) =~= done.push(entry));
                assert forall|k: int| 0 <= k < i + 1 implies (#[trigger] out@[k]).0
                    == entries[k].0 by {
                    if k < i {
                        assert(out@[k] == before[k]);
                    }
                }
            },
            _ => {
                let head = text::concat("Expected string value for key '", key.as_str());
                let message = text::concat(head.as_str(), "' in JSON object mapping");
                proof {
                    outcome::lemma_collect_error(outcomes, i + 1, message@);
                }
                return Err(message);
            },
        }
    }
    assert(outcomes.take(map.entries@.len() as int) =~= outcomes);
    proof {
        if json::keys_distinct(value@) {
            assert(string_map::distinct(entries));
            assert forall|i: int, j: int| 0 <= i < j < out@.len() implies (#[trigger] out@[i]).0
                != (#[trigger] out@[j]).0 by {
                assert(entries[i].0 != entries[j].0);
            }
        }
    }
    Ok(out)
}

/// The text map that a setting holds.
pub fn load_json_map(raw: &str) -> (r: Result<StringMap<String>, String>)
    ensures
        text_map_outcome(r) == setting_map(raw@),
        r matches Ok(map) ==> map.wf(),
{
    let chars = text::chars_of(raw);
    let trimmed = text::trim_slice(chars.as_slice());
    if trimmed.len() == 0 {
        let map: StringMap<String> = StringMap::new();
        assert(map@.len() == map.entries@.len());
        assert(text_map_view(map) =~= Seq::empty());
        return Ok(map);
    }
    match json::read_str(text::string_of(trimmed).as_str()) {
        Ok(value) => text_map_of(&value),
        Err(message) => Err(text::concat("Expected JSON object mapping: ", message.as_str())),
    }
}

/// The record that the value is.
pub fn record_of(value: &Json) -> (r: Result<StringMap<Json>, String>)
    ensures
        (match r {
            Ok(map) => Ok(json::object_view(map)),
            Err(message) => Err(message@),
        }) == record(value@),
        json::keys_distinct(value@) ==> (r matches Ok(map) ==> map.wf()),
{
    broadcast use {json::lemma_object_view, json::lemma_array_view};

    match value.clone() {
        Json::Object(map) => {
            proof {
                if json::keys_distinct(value@) {
                    lemma_distinct_fields(map);
                }
            }
            Ok(map)
        },
        _ => Err("ONNX multi-input mode expects each record to be a JSON object".to_owned()),
    }
}

/// Distinct keys of an object are distinct keys of the map that it is made of.
proof fn lemma_distinct_fields(map: StringMap<Json>)
    requires
        string_map::distinct(json::object_view(map)),
    ensures
        map.wf(),
{
    assert forall|i: int, j: int| 0 <= i < j < map@.len() implies (#[trigger] map@[i]).0
        != (#[trigger] map@[j]).0 by {
        assert(json::object_view(map)[i].0 != json::object_view(map)[j].0);
    }
}

/// The records that the items are.
fn records_of_items(items: &Vec<Json>) -> (r: Result<Vec<StringMap<Json>>, String>)
    ensures
        records_outcome(r) == outcome::collect(
            json::array_view(items@).map_values(|item: JsonView| record(item)),
        ),
        (forall|i: int|
            0 <= i < items@.len() ==> json::keys_distinct((#[trigger] items@[i])@)) ==> (
        r matches Ok(out) ==> all_wf(out@)),
{
    let ghost outcomes = json::array_view(items@).map_values(|item: JsonView| record(item));
    let mut out: Vec<StringMap<Json>> = Vec::new();
    assert(outcomes.take(0) =~= Seq::empty());
    assert(records_view(out@) =~= Seq::empty());
    for i in 0..items.len()
        invariant
            outcomes == json::array_view(items@).map_values(|item: JsonView| record(item)),
            outcome::collect(outcomes.take(i as int)) == Ok::<Seq<RecordView>, Seq<char>>(
                records_view(out@),
            ),
            (forall|i: int|
                0 <= i < items@.len() ==> json::keys_distinct((#[trigger] items@[i])@))
                ==> all_wf(out@),
    {
        let ghost done = records_view(out@);
        proof {
            outcome::lemma_collect_step(outcomes, i as int);
            assert(outcomes[i as int] == record(items@[i as int]@));
        }
        match record_of(&items[i]) {
            Ok(map) => {
                let ghost fields = json::object_view(map);
                out.push(map);
                assert(records_view(out@) =~= done.push(fields));
            },
            Err(message) => {
                proof {
                    outcome::lemma_collect_error(outcomes, i + 1, message@);
                }
                return Err(message);
            },
        }
    }
    assert(outcomes.take(items@.len() as int) =~= outcomes);
    Ok(out)
}

/// The records that the value holds.
pub fn records_of(value: &Json) -> (r: Result<Vec<StringMap<Json>>, String>)
    ensures
        records_outcome(r) == records(value@),
        json::keys_distinct(value@) ==> (r matches Ok(out) ==> all_wf(out@)),
{
    broadcast use {json::lemma_object_view, json::lemma_array_view};

    match value {
        Json::Object(_) => match record_of(value) {
            Ok(map) => {
                let ghost fields = json::object_view(map);
                let out = vec![map];
                assert(records_view(out@) =~= seq![fields]);
                Ok(out)
            },
            Err(message) => Err(message),
        },
        Json::Array(items) => {
            proof {
                if json::keys_distinct(value@) {
                    assert forall|i: int| 0 <= i < items@.len() implies json::keys_distinct(
                        (#[trigger] items@[i])@,
                    ) by {
                        assert(json::keys_distinct(json::array_view(items@)[i]));
                    }
                }
            }
            records_of_items(items)
        },
        _ => Err(
            "ONNX multi-input mode expects a JSON object or a non-empty list of objects".to_owned(),
        ),
    }
}

/// The value under a key holds no key twice where the whole does not.
proof fn lemma_distinct_member(value: JsonView, key: Seq<char>)
    requires
        json::keys_distinct(value),
    ensures
        json::member(value, key) matches Some(inner) ==> json::keys_distinct(inner),
{
    if let JsonView::Object(entries) = value {
        lemma_distinct_lookup(entries, key);
    }
}

proof fn lemma_distinct_lookup(entries: RecordView, key: Seq<char>)
    requires
        forall|i: int| 0 <= i < entries.len() ==> json::keys_distinct((#[trigger] entries[i]).1),
    ensures
        string_map::lookup(entries, key) matches Some(inner) ==> json::keys_distinct(inner),
    decreases entries.len(),
{
    if entries.len() > 0 {
        assert(json::keys_distinct(entries[0].1));
        let rest = entries.drop_first();
        assert forall|i: int| 0 <= i < rest.len() implies json::keys_distinct(
            (#[trigger] rest[i]).1,
        ) by {
            assert(json::keys_distinct(entries[i + 1].1));
        }
        lemma_distinct_lookup(rest, key);
    }
}

/// The records of a value have numerals only where the value has.
proof fn lemma_numeral_records(value: JsonView)
    requires
        json::numerals_only(value),
    ensures
        records(value) matches Ok(fields) ==> numeral_records(fields),
{
    if let JsonView::Array(items) = value {
        let outcomes = items.map_values(|item: JsonView| record(item));
        outcome::lemma_collected(outcomes);
        if let Ok(fields) = outcome::collect(outcomes) {
            assert forall|i: int| 0 <= i < fields.len() implies numeral_fields(
                #[trigger] fields[i],
            ) by {
                assert(outcomes[i] == record(items[i]));
                assert(outcomes[i] == Ok::<RecordView, Seq<char>>(fields[i]));
                assert(json::numerals_only(items[i]));
            }
        }
    }
}

/// The records of a JSON payload.
pub fn parse_json_records(payload: &[u8], cfg: &AppConfig) -> (r: Result<
    Vec<StringMap<Json>>,
    String,
>)
    ensures
        records_outcome(r) == json_payload_records(payload@, *cfg),
        r matches Ok(out) ==> all_wf(out@),
        r matches Ok(out) ==> numeral_records(records_view(out@)),
{
    match json::read_slice(payload) {
        Ok(value) => {
            proof {
                json::lemma_numeral_member(value@, cfg.json_key_instances@);
                lemma_numeral_records(scoped_records(value@, cfg.json_key_instances@));
            }
            json_records_of(&value, cfg)
        },
        Err(message) => Err(text::concat("invalid json payload: ", message.as_str())),
    }
}

/// The records of a JSON document.
pub fn json_records_of(value: &Json, cfg: &AppConfig) -> (r: Result<Vec<StringMap<Json>>, String>)
    ensures
        records_outcome(r) == records(scoped_records(value@, cfg.json_key_instances@)),
        json::keys_distinct(value@) ==> (r matches Ok(out) ==> all_wf(out@)),
{
    proof {
        if json::keys_distinct(value@) {
            lemma_distinct_member(value@, cfg.json_key_instances@);
        }
    }
    match value.get(cfg.json_key_instances.as_str()) {
        Some(instances) => records_of(instances),
        None => records_of(value),
    }
}

/// The record of one line.
fn read_line_record(line: &[char]) -> (r: Result<StringMap<Json>, String>)
    ensures
        (match r {
            Ok(map) => Ok(json::object_view(map)),
            Err(message) => Err(message@),
        }) == line_record(line@),
        r matches Ok(map) ==> map.wf(),
        r matches Ok(map) ==> numeral_fields(json::object_view(map)),
{
    match json::read_str(text::string_of(line).as_str()) {
        Ok(value) => record_of(&value),
        Err(message) => Err(text::concat("invalid json line payload: ", message.as_str())),
    }
}

/// The records of a payload of JSON lines.
pub fn parse_jsonl_records(payload: &[u8]) -> (r: Result<Vec<StringMap<Json>>, String>)
    ensures
        records_outcome(r) == json_lines_payload_records(payload@),
        r matches Ok(out) ==> all_wf(out@),
        r matches Ok(out) ==> numeral_records(records_view(out@)),
{
    let source = match text::read_utf8(payload) {
        Ok(source) => source,
        Err(message) => {
            return Err(text::concat("invalid utf-8 payload: ", message.as_str()));
        },
    };
    let chars = text::chars_of(source);
    let lines = text::filled_line_slices(chars.as_slice());
    let ghost outcomes = text::slice_views(lines@).map_values(
        |line: Seq<char>| line_record(line),
    );
    let mut out: Vec<StringMap<Json>> = Vec::new();
    assert(outcomes.take(0) =~= Seq::empty());
    assert(records_view(out@) =~= Seq::empty());
    for i in 0..lines.len()
        invariant
            outcomes == text::slice_views(lines@).map_values(|line: Seq<char>| line_record(line)),
            json_lines_payload_records(payload@) == outcome::collect(outcomes),
            outcome::collect(outcomes.take(i as int)) == Ok::<Seq<RecordView>, Seq<char>>(
                records_view(out@),
            ),
            all_wf(out@),
            numeral_records(records_view(out@)),
    {
        let ghost done = records_view(out@);
        proof {
            outcome::lemma_collect_step(outcomes, i as int);
            assert(outcomes[i as int] == line_record(lines@[i as int]@));
        }
        match read_line_record(lines[i]) {
            Ok(map) => {
                let ghost fields = json::object_view(map);
                out.push(map);
                assert(records_view(out@) =~= done.push(fields));
            },
            Err(message) => {
                proof {
                    outcome::lemma_collect_error(outcomes, i + 1, message@);
                }
                return Err(message);
            },
        }
    }
    assert(outcomes.take(lines@.len() as int) =~= outcomes);
    Ok(out)
}

/// The records of a payload of the media type.
pub fn load_multi_input_records(
    payload: &[u8],
    content_type: &str,
    cfg: &AppConfig,
) -> (r: Result<Vec<StringMap<Json>>, String>)
    ensures
        records_outcome(r) == payload_records(payload@, content_type@, *cfg),
        r matches Ok(out) ==> all_wf(out@),
        r matches Ok(out) ==> numeral_records(records_view(out@)),
{
    if media::is_json_document_type(content_type) {
        return parse_json_records(payload, cfg);
    }
    parse_jsonl_records(payload)
}

} // verus!
