//! JSON values, and their text as `serde_json` reads and writes it.

use crate::numeral;
use crate::outcome;
use crate::string_map;
use crate::string_map::StringMap;
use crate::text;
use serde_json::Value;
use vstd::prelude::*;
use vstd::utf8::encode_utf8;

verus! {

/// A JSON number: an integer, or the text that `serde_json::Number` prints of a
/// floating-point number.
#[derive(Debug, PartialEq)]
pub enum Number {
    Unsigned(u64),
    Signed(i64),
    Float(String),
}

/// A JSON value.
#[derive(Debug, PartialEq)]
pub enum Json {
    Null,
    Bool(bool),
    Number(Number),
    Text(String),
    Array(Vec<Json>),
    Object(StringMap<Json>),
}

/// What a JSON number stands for.
pub enum NumberView {
    Unsigned(u64),
    Signed(i64),
    Float(Seq<char>),
}

/// What a JSON value stands for.
pub enum JsonView {
    Null,
    Bool(bool),
    Number(NumberView),
    Text(Seq<char>),
    Array(Seq<JsonView>),
    Object(Seq<(Seq<char>, JsonView)>),
}

impl View for Number {
    type V = NumberView;

    open spec fn view(&self) -> NumberView {
        match *self {
            Number::Unsigned(u) => NumberView::Unsigned(u),
            Number::Signed(i) => NumberView::Signed(i),
            Number::Float(s) => NumberView::Float(s@),
        }
    }
}

impl Json {
    /// The tree that the value stands for.
    pub open spec fn tree(self) -> JsonView
        decreases self,
    {
        match self {
            Json::Null => JsonView::Null,
            Json::Bool(b) => JsonView::Bool(b),
            Json::Number(n) => JsonView::Number(n@),
            Json::Text(s) => JsonView::Text(s@),
            Json::Array(items) => JsonView::Array(
                Seq::new(
                    items@.len(),
                    |i: int|
                        if 0 <= i < items@.len() {
                            items@[i].tree()
                        } else {
                            JsonView::Null
                        },
                ),
            ),
            Json::Object(map) => JsonView::Object(
                Seq::new(
                    map.entries@.len(),
                    |i: int|
                        if 0 <= i < map.entries@.len() {
                            (map.entries@[i].0@, map.entries@[i].1.tree())
                        } else {
                            (Seq::empty(), JsonView::Null)
                        },
                ),
            ),
        }
    }
}

impl View for Json {
    type V = JsonView;

    open spec fn view(&self) -> JsonView {
        self.tree()
    }
}

impl DeepView for Json {
    type V = JsonView;

    open spec fn deep_view(&self) -> JsonView {
        self.tree()
    }
}

/// What the items stand for.
pub open spec fn array_view(items: Seq<Json>) -> Seq<JsonView> {
    items.map_values(|item: Json| item@)
}

/// What the entries of an object stand for.
pub open spec fn object_view(map: StringMap<Json>) -> Seq<(Seq<char>, JsonView)> {
    Seq::new(map.entries@.len(), |i: int| (map.entries@[i].0@, map.entries@[i].1@))
}

/// The view of an array is made up of the views of its items.
pub broadcast proof fn lemma_array_view(items: Vec<Json>)
    ensures
        (#[trigger] Json::Array(items)@) == JsonView::Array(array_view(items@)),
{
    assert(Json::Array(items)@->Array_0 =~= array_view(items@));
}

/// The view of an object is made up of its keys and the views of its values.
pub broadcast proof fn lemma_object_view(map: StringMap<Json>)
    ensures
        (#[trigger] Json::Object(map)@) == JsonView::Object(object_view(map)),
{
    assert(Json::Object(map)@->Object_0 =~= object_view(map));
}

impl Clone for Number {
    fn clone(&self) -> (r: Self)
        ensures
            r@ == self@,
    {
        match self {
            Number::Unsigned(u) => Number::Unsigned(*u),
            Number::Signed(i) => Number::Signed(*i),
            Number::Float(s) => Number::Float(s.clone()),
        }
    }
}

impl Clone for Json {
    fn clone(&self) -> (r: Self)
        ensures
            r@ == self@,
        decreases self,
    {
        broadcast use lemma_array_view, lemma_object_view;

        match self {
            Json::Null => Json::Null,
            Json::Bool(b) => Json::Bool(*b),
            Json::Number(n) => Json::Number(n.clone()),
            Json::Text(s) => Json::Text(s.clone()),
            Json::Array(items) => {
                let mut copy: Vec<Json> = Vec::new();
                for i in 0..items.len()
                    invariant
                        self == Json::Array(*items),
                        array_view(copy@) == array_view(items@).take(i as int),
                {
                    let ghost done = array_view(copy@);
                    assert(decreases_to!(self => self->Array_0@[i as int]));
                    let item = items[i].clone();
                    copy.push(item);
                    assert(array_view(copy@) =~= done.push(item@));
                    assert(array_view(items@).take(i + 1) =~= array_view(items@).take(
                        i as int,
                    ).push(items@[i as int]@));
                }
                assert(array_view(items@).take(items@.len() as int) =~= array_view(items@));
                Json::Array(copy)
            },
            Json::Object(map) => {
                let mut copy: Vec<(String, Json)> = Vec::new();
                for i in 0..map.entries.len()
                    invariant
                        self == Json::Object(*map),
                        object_view(StringMap { entries: copy }) == object_view(*map).take(
                            i as int,
                        ),
                {
                    let ghost done = object_view(StringMap { entries: copy });
                    assert(decreases_to!(self => self->Object_0.entries@[i as int].1));
                    let key = map.entries[i].0.clone();
                    let item = map.entries[i].1.clone();
                    copy.push((key, item));
                    assert(object_view(StringMap { entries: copy }) =~= done.push((key@, item@)));
                    assert(object_view(*map).take(i + 1) =~= object_view(*map).take(
                        i as int,
                    ).push((key@, item@)));
                }
                assert(object_view(*map).take(map.entries@.len() as int) =~= object_view(*map));
                Json::Object(StringMap { entries: copy })
            },
        }
    }
}

/// In every object of the tree, no key stands in two entries.
pub open spec fn keys_distinct(value: JsonView) -> bool
    decreases value,
{
    match value {
        JsonView::Array(items) => forall|i: int|
            0 <= i < items.len() ==> keys_distinct(#[trigger] items[i]),
        JsonView::Object(entries) => string_map::distinct(entries) && forall|i: int|
            0 <= i < entries.len() ==> keys_distinct((#[trigger] entries[i]).1),
        _ => true,
    }
}

/// Every floating-point number of the tree is given by a text that reads as one.
pub open spec fn numerals_only(value: JsonView) -> bool
    decreases value,
{
    match value {
        JsonView::Number(NumberView::Float(s)) => numeral::is_numeric(s),
        JsonView::Array(items) => forall|i: int|
            0 <= i < items.len() ==> numerals_only(#[trigger] items[i]),
        JsonView::Object(entries) => forall|i: int|
            0 <= i < entries.len() ==> numerals_only((#[trigger] entries[i]).1),
        _ => true,
    }
}

/// What `serde_json::from_slice` reads from the bytes: a value, or the text of
/// the error.
pub uninterp spec fn json_of_bytes(payload: Seq<u8>) -> Result<JsonView, Seq<char>>;

/// What `serde_json::from_str` reads from the text: a value, or the text of the
/// error.
pub uninterp spec fn json_of_text(source: Seq<char>) -> Result<JsonView, Seq<char>>;

/// The compact text that `serde_json` writes for the value.
pub uninterp spec fn text_of_json(value: JsonView) -> Seq<char>;

/// `serde_json::Value`, which is only handed from one conversion to the next.
#[verifier::external_type_specification]
#[verifier::external_body]
pub struct ExValue(serde_json::Value);

/// Takes a `serde_json::Value` apart, one variant for another. An integer keeps
/// its value, and any other number the text that `serde_json::Number` prints of
/// it. Nothing is claimed of the result here: what the readers below claim is of
/// the call and this conversion together.
#[verifier::external_body]
fn json_of_value(value: Value) -> Json {
    match value {
        Value::Null => Json::Null,
        Value::Bool(b) => Json::Bool(b),
        Value::Number(n) => Json::Number(match (n.as_u64(), n.as_i64()) {
            (Some(u), _) => Number::Unsigned(u),
            (None, Some(i)) => Number::Signed(i),
            (None, None) => Number::Float(n.to_string()),
        }),
        Value::String(s) => Json::Text(s),
        Value::Array(items) => Json::Array(items.into_iter().map(json_of_value).collect()),
        Value::Object(map) => Json::Object(StringMap {
            entries: map.into_iter().map(|(k, v)| (k, json_of_value(v))).collect(),
        }),
    }
}

/// Puts a `Value` together, one variant for another. The text of a
/// floating-point number is read again; where it stands for no finite number,
/// the value is null. Nothing is claimed of the result here: what the writers
/// below claim is of this conversion and the call together.
#[verifier::external_body]
fn value_of_json(value: &Json) -> Value {
    match value {
        Json::Null => Value::Null,
        Json::Bool(b) => Value::Bool(*b),
        Json::Number(Number::Unsigned(u)) => Value::from(*u),
        Json::Number(Number::Signed(i)) => Value::from(*i),
        Json::Number(Number::Float(s)) => Value::from(
            s.parse().ok().and_then(serde_json::Number::from_f64),
        ),
        Json::Text(s) => Value::String(s.clone()),
        Json::Array(items) => Value::Array(items.iter().map(value_of_json).collect()),
        Json::Object(map) => Value::Object(
            map.entries.iter().map(|(k, v)| (k.clone(), value_of_json(v))).collect(),
        ),
    }
}

/// `serde_json::from_slice` into a `serde_json::Value`: the result depends on the
/// bytes alone, no object that it gives holds a key twice, and the text that
/// `serde_json::Number` prints of a floating-point number reads as one.
#[verifier::external_body]
pub(crate) fn read_slice(payload: &[u8]) -> (r: Result<Json, String>)
    ensures
        outcome::viewed(r) == json_of_bytes(payload@),
        r matches Ok(value) ==> keys_distinct(value@),
        r matches Ok(value) ==> numerals_only(value@),
{
    match serde_json::from_slice::<serde_json::Value>(payload) {
        Ok(value) => Ok(json_of_value(value)),
        Err(err) => Err(err.to_string()),
    }
}

/// `serde_json::from_str` into a `serde_json::Value`: the result depends on the
/// text alone, no object that it gives holds a key twice, and the text that
/// `serde_json::Number` prints of a floating-point number reads as one.
#[verifier::external_body]
pub(crate) fn read_str(source: &str) -> (r: Result<Json, String>)
    ensures
        outcome::viewed(r) == json_of_text(source@),
        r matches Ok(value) ==> keys_distinct(value@),
        r matches Ok(value) ==> numerals_only(value@),
{
    match serde_json::from_str::<serde_json::Value>(source) {
        Ok(value) => Ok(json_of_value(value)),
        Err(err) => Err(err.to_string()),
    }
}

/// `serde_json::Value::to_string`: the compact text of the value, which depends
/// on the value alone.
#[verifier::external_body]
pub(crate) fn write_string(value: &Json) -> (r: String)
    ensures
        r@ == text_of_json(value@),
{
    value_of_json(value).to_string()
}

/// `serde_json::to_vec` of a `serde_json::Value`: it succeeds, with the bytes of
/// the compact text of the value.
#[verifier::external_body]
pub(crate) fn write_vec(value: &Json) -> (r: Result<Vec<u8>, String>)
    ensures
        r is Ok,
        r matches Ok(bytes) ==> bytes@ == encode_utf8(text_of_json(value@)),
{
    serde_json::to_vec(&value_of_json(value)).map_err(|err| err.to_string())
}

/// The text of a number.
pub open spec fn number_text(number: NumberView) -> Seq<char> {
    match number {
        NumberView::Unsigned(u) => numeral::decimal(u as nat),
        NumberView::Signed(i) => numeral::signed_decimal(i as int),
        NumberView::Float(s) => s,
    }
}

/// The text of the number that the value is, where it is one.
pub open spec fn as_number(value: JsonView) -> Option<Seq<char>> {
    match value {
        JsonView::Number(n) => if numeral::is_numeric(number_text(n)) {
            Some(number_text(n))
        } else {
            None
        },
        _ => None,
    }
}

/// A number whose text, if it is a floating-point number, reads as one is a number by
/// its text.
pub proof fn lemma_number(number: NumberView)
    requires
        numerals_only(JsonView::Number(number)),
    ensures
        numeral::is_numeric(number_text(number)),
        as_number(JsonView::Number(number)) == Some(number_text(number)),
{
    match number {
        NumberView::Unsigned(u) => {
            let digits = numeral::decimal(u as nat);
            numeral::lemma_decimal(u as nat);
            numeral::lemma_digits_are_numeric(digits, digits);
        },
        NumberView::Signed(i) => {
            let size = if i < 0 {
                (-i) as nat
            } else {
                i as nat
            };
            numeral::lemma_decimal(size);
            numeral::lemma_digits_are_numeric(
                numeral::decimal(size),
                numeral::signed_decimal(i as int),
            );
        },
        NumberView::Float(_) => {},
    }
}

impl Number {
    /// The text of the number.
    pub fn text(&self) -> (r: String)
        ensures
            r@ == number_text(self@),
    {
        match self {
            Number::Unsigned(u) => numeral::decimal_string(*u),
            Number::Signed(i) => numeral::signed_decimal_string(*i),
            Number::Float(s) => s.clone(),
        }
    }
}

/// Sets the field of an object.
pub fn put_field(map: &mut StringMap<Json>, key: String, value: Json)
    ensures
        object_view(*final(map)) == string_map::put(object_view(*old(map)), key@, value@),
        old(map).wf() ==> final(map).wf(),
{
    let i = map.index_of(key.as_str());
    let ghost before = *map;
    let ghost (name, inner) = (key@, value);
    map.insert(key, value);
    proof {
        let fields = object_view(before);
        assert forall|k: int| 0 <= k < i implies (#[trigger] fields[k]).0 != name by {
            assert(before@[k].0 != name);
        }
        string_map::lemma_put(before@, name, inner, i as int);
        string_map::lemma_put(fields, name, inner@, i as int);
        assert forall|k: int| 0 <= k < map.entries@.len() implies #[trigger] object_view(*map)[k]
            == (map@[k].0, map@[k].1@) by {}
        if i < fields.len() {
            assert(object_view(*map) =~= fields.update(i as int, (name, inner@))) by {
                assert(map@.len() == map.entries@.len());
                assert forall|k: int| 0 <= k < fields.len() implies object_view(*map)[k]
                    == fields.update(i as int, (name, inner@))[k] by {
                    assert(map@[k] == before@.update(i as int, (name, inner))[k]);
                }
            }
        } else {
            assert(object_view(*map) =~= fields.push((name, inner@))) by {
                assert(map@.len() == map.entries@.len());
                assert forall|k: int| 0 <= k < fields.len() + 1 implies object_view(*map)[k]
                    == fields.push((name, inner@))[k] by {
                    assert(map@[k] == before@.push((name, inner))[k]);
                }
            }
        }
    }
}

/// The value under the key, where the value is an object that has it.
pub open spec fn member(value: JsonView, key: Seq<char>) -> Option<JsonView> {
    match value {
        JsonView::Object(entries) => string_map::lookup(entries, key),
        _ => None,
    }
}

/// What stands under a key has numerals only where the whole has.
pub proof fn lemma_numeral_member(value: JsonView, key: Seq<char>)
    requires
        numerals_only(value),
    ensures
        member(value, key) matches Some(inner) ==> numerals_only(inner),
{
    if let JsonView::Object(entries) = value {
        let i = string_map::lemma_first_index(entries, key);
        string_map::lemma_lookup(entries, key, i);
        if i < entries.len() {
            assert(numerals_only(entries[i].1));
        }
    }
}

impl Json {
    /// The value under the key, where the value is an object that has it.
    pub fn get(&self, key: &str) -> (r: Option<&Json>)
        ensures
            (match r {
                Some(value) => Some(value@),
                None => None,
            }) == member(self@, key@),
    {
        broadcast use lemma_object_view;

        match self {
            Json::Object(map) => {
                let i = map.index_of(key);
                proof {
                    assert forall|k: int| 0 <= k < i implies (#[trigger] object_view(*map)[k]).0
                        != key@ by {
                        assert(map@[k].0 != key@);
                    }
                    string_map::lemma_lookup(object_view(*map), key@, i as int);
                }
                if i < map.entries.len() {
                    Some(&map.entries[i].1)
                } else {
                    None
                }
            },
            _ => None,
        }
    }

    /// The text of the number that the value is, where it is one.
    pub fn as_number(&self) -> (r: Option<String>)
        ensures
            r is Some == as_number(self@) is Some,
            r matches Some(s) ==> as_number(self@) == Some(s@),
    {
        match self {
            Json::Number(n) => {
                let s = n.text();
                let chars = text::chars_of(s.as_str());
                if numeral::reads_as_number(chars.as_slice()) {
                    Some(s)
                } else {
                    None
                }
            },
            _ => None,
        }
    }
}

} // verus!
