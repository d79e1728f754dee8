//! Between model input and the tensors of an ONNX model.

use crate::config;
use crate::config::{AppConfig, DirectoryState};
use crate::input::parsed;
use crate::input::parsed::ParsedInput;
use crate::input::records;
use crate::input::records::{RecordView, TextMapView};
use crate::input::tabular;
use crate::json;
use crate::json::{Json, JsonView, Number, NumberView};
use crate::numeral;
use crate::outcome;
use crate::string_map;
use crate::string_map::StringMap;
use crate::text;
use vstd::prelude::*;

verus! {

/// A model that gives predictions.
pub trait BaseAdapter: Send + Sync {
    /// Whether the model can be asked.
    fn is_ready(&self) -> bool;

    /// The predictions for the input.
    fn predict(&self, parsed_input: &ParsedInput) -> Result<Json, String>;
}

/// The error for a record without a mapped field.
pub open spec fn missing_key_error(key: Seq<char>) -> Seq<char> {
    "Missing key '"@ + key + "' in one of the records for ONNX multi-input"@
}

/// The values of the records under the key; an error where one has none.
pub open spec fn field_values(fields: Seq<RecordView>, key: Seq<char>) -> Result<
    JsonView,
    Seq<char>,
> {
    if forall|i: int|
        0 <= i < fields.len() ==> string_map::lookup(#[trigger] fields[i], key) is Some {
        Ok(
            JsonView::Array(
                fields.map_values(|record: RecordView| string_map::lookup(record, key)->0),
            ),
        )
    } else {
        Err(missing_key_error(key))
    }
}

/// The tensor of one mapped input: its name and its values.
pub open spec fn named_tensor(fields: Seq<RecordView>, input: (Seq<char>, Seq<char>)) -> Result<
    (Seq<char>, JsonView),
    Seq<char>,
> {
    match field_values(fields, input.0) {
        Ok(values) => Ok((input.1, values)),
        Err(message) => Err(message),
    }
}

/// The fields set one after another.
pub open spec fn merged(fields: RecordView) -> RecordView
    decreases fields.len(),
{
    if fields.len() == 0 {
        Seq::empty()
    } else {
        string_map::put(merged(fields.drop_last()), fields.last().0, fields.last().1)
    }
}

/// The batch size of each mapped input.
pub open spec fn record_counts(n_records: nat, n_inputs: nat) -> Seq<usize> {
    Seq::new(n_inputs, |i: int| n_records as usize)
}

/// The tensors of the mapped inputs, each under its name. Where the inputs must
/// agree on a batch size, there must be inputs and records.
pub open spec fn onnx_tensors(
    fields: Seq<RecordView>,
    input_map: TextMapView,
    dynamic_batch: bool,
) -> Result<RecordView, Seq<char>> {
    match outcome::collect(
        input_map.map_values(|input: (Seq<char>, Seq<char>)| named_tensor(fields, input)),
    ) {
        Ok(tensors) => if dynamic_batch {
            match parsed::batch_sizes_verdict(record_counts(fields.len(), input_map.len())) {
                Ok(()) => Ok(merged(tensors)),
                Err(message) => Err(message),
            }
        } else {
            Ok(merged(tensors))
        },
        Err(message) => Err(message),
    }
}

/// Fields with numerals only stay so where they are merged.
proof fn lemma_merged_numerals(fields: RecordView)
    requires
        records::numeral_fields(fields),
    ensures
        records::numeral_fields(merged(fields)),
    decreases fields.len(),
{
    if fields.len() > 0 {
        let rest = fields.drop_last();
        assert forall|i: int| 0 <= i < rest.len() implies json::numerals_only(
            (#[trigger] rest[i]).1,
        ) by {
            assert(json::numerals_only(fields[i].1));
        }
        lemma_merged_numerals(rest);
        let done = merged(rest);
        let (key, value) = fields.last();
        assert(json::numerals_only(fields[fields.len() - 1].1));
        let at = string_map::lemma_first_index(done, key);
        string_map::lemma_put(done, key, value, at);
        assert forall|i: int| 0 <= i < merged(fields).len() implies json::numerals_only(
            (#[trigger] merged(fields)[i]).1,
        ) by {
            if i != at {
                assert(merged(fields)[i] == done[i]);
            }
        }
    }
}

/// Tensors of records with numerals only have numerals only.
pub proof fn lemma_numeral_tensors(
    fields: Seq<RecordView>,
    input_map: TextMapView,
    dynamic_batch: bool,
)
    requires
        records::numeral_records(fields),
    ensures
        onnx_tensors(fields, input_map, dynamic_batch) matches Ok(tensors)
            ==> records::numeral_fields(tensors),
{
    let outcomes = input_map.map_values(
        |input: (Seq<char>, Seq<char>)| named_tensor(fields, input),
    );
    outcome::lemma_collected(outcomes);
    if let Ok(tensors) = outcome::collect(outcomes) {
        assert forall|i: int| 0 <= i < tensors.len() implies json::numerals_only(
            (#[trigger] tensors[i]).1,
        ) by {
            let key = input_map[i].0;
            assert(outcomes[i] == named_tensor(fields, input_map[i]));
            assert(outcomes[i] == Ok::<(Seq<char>, JsonView), Seq<char>>(tensors[i]));
            let values = tensors[i].1->Array_0;
            assert forall|k: int| 0 <= k < values.len() implies json::numerals_only(
                #[trigger] values[k],
            ) by {
                let record = JsonView::Object(fields[k]);
                assert(records::numeral_fields(fields[k]));
                assert(json::numerals_only(record));
                json::lemma_numeral_member(record, key);
                assert(string_map::lookup(fields[k], key) is Some);
            }
        }
        lemma_merged_numerals(tensors);
    }
}

/// What the outcome of building tensors stands for.
pub open spec fn tensors_outcome(r: Result<StringMap<Json>, String>) -> Result<
    RecordView,
    Seq<char>,
> {
    match r {
        Ok(map) => Ok(json::object_view(map)),
        Err(message) => Err(message@),
    }
}

/// The value of the record under the key.
fn field_of(record: &StringMap<Json>, key: &str) -> (r: Option<Json>)
    ensures
        (match r {
            Some(value) => Some(value@),
            None => None,
        }) == string_map::lookup(json::object_view(*record), key@),
{
    let i = record.index_of(key);
    proof {
        assert forall|k: int| 0 <= k < i implies (#[trigger] json::object_view(*record)[k]).0
            != key@ by {
            assert(record@[k].0 != key@);
        }
        string_map::lemma_lookup(json::object_view(*record), key@, i as int);
    }
    if i < record.entries.len() {
        Some(record.entries[i].1.clone())
    } else {
        None
    }
}

/// The values of the records under the key.
fn read_field_values(fields: &[StringMap<Json>], key: &str) -> (r: Result<Json, String>)
    ensures
        outcome::viewed(r) == field_values(records::records_view(fields@), key@),
{
    broadcast use json::lemma_array_view;

    let ghost views = records::records_view(fields@);
    let ghost whole = views.map_values(|record: RecordView| string_map::lookup(record, key@)->0);
    let mut values: Vec<Json> = Vec::new();
    for i in 0..fields.len()
        invariant
            views == records::records_view(fields@),
            whole == views.map_values(
                |record: RecordView| string_map::lookup(record, key@)->0,
            ),
            json::array_view(values@) == whole.take(i as int),
            forall|k: int|
                0 <= k < i ==> string_map::lookup(#[trigger] views[k], key@) is Some,
    {
        let ghost done = json::array_view(values@);
        assert(views[i as int] == json::object_view(fields@[i as int]));
        match field_of(&fields[i], key) {
            Some(value) => {
                let ghost content = value@;
                values.push(value);
                assert(json::array_view(values@) =~= done.push(content));
                assert(whole.take(i + 1) =~= whole.take(i as int).push(content));
            },
            None => {
                let head = text::concat("Missing key '", key);
                return Err(
                    text::concat(
                        head.as_str(),
                        "' in one of the records for ONNX multi-input",
                    ),
                );
            },
        }
    }
    assert(whole.take(views.len() as int) =~= whole);
    Ok(Json::Array(values))
}

/// The tensors of the mapped inputs, each under its name.
pub fn build_onnx_tensors(
    records: &[StringMap<Json>],
    input_map: &StringMap<String>,
    dynamic_batch: bool,
) -> (r: Result<StringMap<Json>, String>)
    ensures
        tensors_outcome(r) == onnx_tensors(
            records::records_view(records@),
            records::text_map_view(*input_map),
            dynamic_batch,
        ),
        r matches Ok(map) ==> map.wf(),
{
    let ghost fields = records::records_view(records@);
    let ghost inputs = records::text_map_view(*input_map);
    let ghost outcomes = inputs.map_values(
        |input: (Seq<char>, Seq<char>)| named_tensor(fields, input),
    );
    let mut tensors: StringMap<Json> = StringMap::new();
    let mut batch_sizes: Vec<usize> = Vec::new();
    let ghost mut named: RecordView = Seq::empty();
    proof {
        assert(outcomes.take(0) =~= Seq::empty());
        assert(tensors@.len() == tensors.entries@.len());
        assert(json::object_view(tensors) =~= Seq::empty());
    }
    for i in 0..input_map.entries.len()
        invariant
            fields == records::records_view(records@),
            inputs == records::text_map_view(*input_map),
            outcomes == inputs.map_values(
                |input: (Seq<char>, Seq<char>)| named_tensor(fields, input),
            ),
            outcome::collect(outcomes.take(i as int)) == Ok::<RecordView, Seq<char>>(named),
            json::object_view(tensors) == merged(named),
            tensors.wf(),
            dynamic_batch ==> batch_sizes@ == record_counts(fields.len(), i as nat),
    {
        proof {
            outcome::lemma_collect_step(outcomes, i as int);
            assert(outcomes[i as int] == named_tensor(fields, inputs[i as int]));
        }
        let name = input_map.entries[i].1.clone();
        match read_field_values(records, input_map.entries[i].0.as_str()) {
            Ok(values) => {
                let ghost tensor = (name@, values@);
                if dynamic_batch {
                    batch_sizes.push(records.len());
                    assert(batch_sizes@ =~= record_counts(fields.len(), (i + 1) as nat));
                }
                json::put_field(&mut tensors, name, values);
                proof {
                    assert(named.push(tensor).drop_last() =~= named);
                    named = named.push(tensor);
                }
            },
            Err(message) => {
                proof {
                    outcome::lemma_collect_error(outcomes, i + 1, message@);
                }
                return Err(message);
            },
        }
    }
    assert(outcomes.take(inputs.len() as int) =~= outcomes);
    if dynamic_batch {
        if let Err(message) = parsed::validate_dynamic_batch_sizes(batch_sizes.as_slice()) {
            return Err(message);
        }
    }
    Ok(tensors)
}

/// A matrix of cells in row-major order, each cell by the text of its number.
#[derive(Debug, PartialEq)]
pub struct InputTensor {
    pub n_rows: usize,
    pub n_cols: usize,
    pub cells: Vec<String>,
}

/// What an input tensor stands for.
pub struct InputTensorView {
    pub n_rows: usize,
    pub n_cols: usize,
    pub cells: Seq<Seq<char>>,
}

impl View for InputTensor {
    type V = InputTensorView;

    open spec fn view(&self) -> InputTensorView {
        InputTensorView { n_rows: self.n_rows, n_cols: self.n_cols, cells: self.cells.deep_view() }
    }
}

/// The elements of an output tensor in row-major order. A floating-point number
/// is given by its text, and as nothing where it is not finite.
#[derive(Debug, PartialEq)]
pub enum TensorElements {
    Floats(Vec<Option<String>>),
    Integers(Vec<i64>),
    Unsupported,
}

/// A tensor that a model gives: the lengths of its dimensions, and its elements.
#[derive(Debug, PartialEq)]
pub struct OutputTensor {
    pub shape: Vec<usize>,
    pub elements: TensorElements,
}

/// How a run of the model ended.
#[derive(Debug, PartialEq)]
pub enum ModelRun {
    Unavailable,
    Failed(String),
    Outputs(Vec<OutputTensor>),
}

/// The error for tensors where there are none.
pub open spec fn no_tensors_error() -> Seq<char> {
    "Parsed input contained no tensors"@
}

/// The error for more than one tensor.
pub open spec fn many_tensors_error(count: nat) -> Seq<char> {
    "Parsed input contained "@ + numeral::decimal(count)
        + " ONNX input tensors, but this adapter currently supports only a single input tensor"@
}

/// The rows of the input: its own, or those of its one tensor.
pub open spec fn input_rows(input: parsed::ParsedView) -> Result<Seq<Seq<Seq<char>>>, Seq<char>> {
    match (input.x, input.tensors) {
        (Some(rows), _) => Ok(rows),
        (None, Some(tensors)) => if tensors.len() == 0 {
            Err(no_tensors_error())
        } else if tensors.len() > 1 {
            Err(many_tensors_error(tensors.len()))
        } else {
            tabular::numeric_rows(tensors[0].1)
        },
        (None, None) => Err(parsed::no_input_error()),
    }
}

/// All rows have the length of the first.
pub open spec fn is_rectangular(rows: Seq<Seq<Seq<char>>>) -> bool {
    forall|i: int| 0 <= i < rows.len() ==> (#[trigger] rows[i]).len() == rows[0].len()
}

/// The rows as one tensor.
pub open spec fn matrix_tensor(rows: Seq<Seq<Seq<char>>>) -> Result<InputTensorView, Seq<char>> {
    if rows.len() == 0 {
        Err("Parsed payload is empty"@)
    } else if !is_rectangular(rows) {
        Err("Input rows have inconsistent feature counts"@)
    } else {
        Ok(
            InputTensorView {
                n_rows: rows.len() as usize,
                n_cols: rows[0].len() as usize,
                cells: rows.flatten(),
            },
        )
    }
}

/// The input as the tensor that the model takes.
pub open spec fn model_input(input: parsed::ParsedView) -> Result<InputTensorView, Seq<char>> {
    match input_rows(input) {
        Ok(rows) => matrix_tensor(rows),
        Err(message) => Err(message),
    }
}

/// An element that is a floating-point number, as JSON has it.
pub open spec fn float_json(element: Option<String>) -> JsonView {
    match element {
        Some(digits) => JsonView::Number(NumberView::Float(digits@)),
        None => JsonView::Null,
    }
}

/// An element that is an integer, as JSON has it.
pub open spec fn integer_json(element: i64) -> JsonView {
    if element < 0 {
        JsonView::Number(NumberView::Signed(element))
    } else {
        JsonView::Number(NumberView::Unsigned(element as u64))
    }
}

/// The number of elements.
pub open spec fn element_count(elements: TensorElements) -> nat {
    match elements {
        TensorElements::Floats(items) => items@.len(),
        TensorElements::Integers(items) => items@.len(),
        TensorElements::Unsupported => 0,
    }
}

/// The elements as JSON has them, where JSON has them.
pub open spec fn elements_json(elements: TensorElements) -> Option<Seq<JsonView>> {
    match elements {
        TensorElements::Floats(items) => Some(
            items@.map_values(|element: Option<String>| float_json(element)),
        ),
        TensorElements::Integers(items) => Some(
            items@.map_values(|element: i64| integer_json(element)),
        ),
        TensorElements::Unsupported => None,
    }
}

impl OutputTensor {
    /// A tensor of two dimensions has an element for each place.
    pub open spec fn wf(self) -> bool {
        self.shape@.len() == 2 && !(self.elements is Unsupported) ==> element_count(self.elements)
            == self.shape@[0] * self.shape@[1]
    }
}

/// The elements in rows of the length.
pub open spec fn in_rows(elements: Seq<JsonView>, n_rows: nat, n_cols: nat) -> Seq<JsonView> {
    Seq::new(
        n_rows,
        |i: int| JsonView::Array(elements.subrange(i * n_cols, i * n_cols + n_cols)),
    )
}

/// The elements as a JSON array: of rows for two dimensions, and in one row for
/// any other number.
pub open spec fn array_json(shape: Seq<usize>, elements: Seq<JsonView>) -> JsonView {
    if shape.len() == 2 {
        JsonView::Array(in_rows(elements, shape[0] as nat, shape[1] as nat))
    } else {
        JsonView::Array(elements)
    }
}

/// The tensor as JSON.
pub open spec fn tensor_json(tensor: OutputTensor) -> Result<JsonView, Seq<char>> {
    match elements_json(tensor.elements) {
        Some(elements) => Ok(array_json(tensor.shape@, elements)),
        None => Err("unsupported ONNX output tensor dtype"@),
    }
}

/// The number that the name is, or the default, but no more than the last of
/// `count` outputs.
pub open spec fn output_index(name: Seq<char>, default: usize, count: nat) -> int {
    let index: usize = match numeral::parse_usize(name) {
        Some(index) => index,
        None => default,
    };
    if index < count {
        index as int
    } else {
        count - 1
    }
}

/// One entry of the reply: the key and the output that it is mapped to.
pub open spec fn mapped_output(
    outputs: Seq<OutputTensor>,
    entry: (Seq<char>, Seq<char>),
) -> Result<(Seq<char>, JsonView), Seq<char>> {
    match tensor_json(outputs[output_index(entry.1, 0, outputs.len())]) {
        Ok(value) => Ok((entry.0, value)),
        Err(message) => Err(message),
    }
}

/// The predictions: an object of the mapped outputs where there is a map, else
/// the one output that the settings choose, by its name or by its index.
pub open spec fn predictions(
    outputs: Seq<OutputTensor>,
    output_map: TextMapView,
    output_name: Seq<char>,
    default_index: usize,
) -> Result<JsonView, Seq<char>> {
    if output_map.len() > 0 {
        match outcome::collect(
            output_map.map_values(|entry: (Seq<char>, Seq<char>)| mapped_output(outputs, entry)),
        ) {
            Ok(entries) => Ok(JsonView::Object(entries)),
            Err(message) => Err(message),
        }
    } else if text::trim(output_name).len() > 0 {
        tensor_json(outputs[output_index(output_name, default_index, outputs.len())])
    } else {
        tensor_json(outputs[output_index(Seq::empty(), default_index, outputs.len())])
    }
}

/// A copy of the rows.
fn copy_rows(rows: &Vec<Vec<String>>) -> (r: Vec<Vec<String>>)
    ensures
        r.deep_view() == rows.deep_view(),
{
    let ghost whole = rows.deep_view();
    let mut r: Vec<Vec<String>> = Vec::new();
    let mut i: usize = 0;
    while i < rows.len()
        invariant
            i <= rows@.len(),
            whole == rows.deep_view(),
            r.deep_view() == whole.take(i as int),
        decreases rows@.len() - i,
    {
        let row = copy_cells(&rows[i]);
        let ghost done = r.deep_view();
        let ghost cells = row.deep_view();
        assert(cells == whole[i as int]);
        r.push(row);
        assert(r.deep_view() =~= done.push(cells));
        assert(whole.take(i + 1) =~= whole.take(i as int).push(cells));
        i += 1;
    }
    assert(whole.take(whole.len() as int) =~= whole);
    r
}

/// A copy of the cells.
fn copy_cells(cells: &Vec<String>) -> (r: Vec<String>)
    ensures
        r.deep_view() == cells.deep_view(),
{
    let ghost whole = cells.deep_view();
    let mut r: Vec<String> = Vec::new();
    let mut i: usize = 0;
    while i < cells.len()
        invariant
            i <= cells@.len(),
            whole == cells.deep_view(),
            r.deep_view() == whole.take(i as int),
        decreases cells@.len() - i,
    {
        let cell = cells[i].clone();
        let ghost done = r.deep_view();
        assert(cell@ == whole[i as int]);
        r.push(cell);
        assert(r.deep_view() =~= done.push(cell@));
        assert(whole.take(i + 1) =~= whole.take(i as int).push(cell@));
        i += 1;
    }
    assert(whole.take(whole.len() as int) =~= whole);
    r
}

/// The floating-point elements as JSON.
fn read_floats(items: &Vec<Option<String>>) -> (r: Vec<Json>)
    ensures
        json::array_view(r@) == items@.map_values(
            |element: Option<String>| float_json(element),
        ),
{
    let ghost whole = items@.map_values(|element: Option<String>| float_json(element));
    let mut r: Vec<Json> = Vec::new();
    for i in 0..items.len()
        invariant
            whole == items@.map_values(|element: Option<String>| float_json(element)),
            json::array_view(r@) == whole.take(i as int),
    {
        let ghost done = json::array_view(r@);
        let value = match &items[i] {
            Some(digits) => Json::Number(Number::Float(digits.clone())),
            None => Json::Null,
        };
        assert(value@ == whole[i as int]);
        r.push(value);
        assert(json::array_view(r@) =~= done.push(value@));
        assert(whole.take(i + 1) =~= whole.take(i as int).push(value@));
    }
    assert(whole.take(items@.len() as int) =~= whole);
    r
}

/// The integer elements as JSON.
fn read_integers(items: &Vec<i64>) -> (r: Vec<Json>)
    ensures
        json::array_view(r@) == items@.map_values(|element: i64| integer_json(element)),
{
    let ghost whole = items@.map_values(|element: i64| integer_json(element));
    let mut r: Vec<Json> = Vec::new();
    for i in 0..items.len()
        invariant
            whole == items@.map_values(|element: i64| integer_json(element)),
            json::array_view(r@) == whole.take(i as int),
    {
        let ghost done = json::array_view(r@);
        let value = if items[i] < 0 {
            Json::Number(Number::Signed(items[i]))
        } else {
            Json::Number(Number::Unsigned(items[i] as u64))
        };
        assert(value@ == whole[i as int]);
        r.push(value);
        assert(json::array_view(r@) =~= done.push(value@));
        assert(whole.take(i + 1) =~= whole.take(i as int).push(value@));
    }
    assert(whole.take(items@.len() as int) =~= whole);
    r
}

/// The elements from one index up to another.
fn copy_range(elements: &Vec<Json>, from: usize, to: usize) -> (r: Vec<Json>)
    requires
        from <= to <= elements@.len(),
    ensures
        json::array_view(r@) == json::array_view(elements@).subrange(from as int, to as int),
{
    let ghost whole = json::array_view(elements@);
    let mut r: Vec<Json> = Vec::new();
    let mut i: usize = from;
    while i < to
        invariant
            from <= i <= to <= elements@.len(),
            whole == json::array_view(elements@),
            json::array_view(r@) == whole.subrange(from as int, i as int),
        decreases to - i,
    {
        let ghost done = json::array_view(r@);
        let value = elements[i].clone();
        assert(value@ == whole[i as int]);
        r.push(value);
        assert(json::array_view(r@) =~= done.push(value@));
        assert(whole.subrange(from as int, i + 1) =~= whole.subrange(from as int, i as int).push(
            value@,
        ));
        i += 1;
    }
    r
}

/// An adapter for ONNX models: the settings, and the map from reply keys to model
/// outputs.
#[derive(Debug)]
pub struct OnnxAdapter {
    pub cfg: AppConfig,
    pub output_map: StringMap<String>,
}

impl OnnxAdapter {
    /// The path of the model file, with what stands at the path of its directory and
    /// whether the file exists.
    pub fn locate(cfg: &AppConfig, found: DirectoryState, exists: bool) -> (r: Result<
        String,
        String,
    >)
        ensures
            outcome::viewed(r) == located_model(*cfg, found, exists),
    {
        match cfg.model_path(found) {
            Ok(path) => {
                if exists {
                    return Ok(path);
                }
                Err(text::concat("ONNX model not found: ", path.as_str()))
            },
            Err(message) => Err(message),
        }
    }

    /// The adapter for the settings and the model file at the path, with what came of
    /// loading it.
    pub fn new(cfg: AppConfig, path: &str, loaded: Result<(), String>) -> (r: Result<Self, String>)
        ensures
            match r {
                Ok(adapter) => {
                    &&& adapter.cfg == cfg
                    &&& loaded_output_map(cfg, path@, outcome::viewed(loaded)) == Ok::<
                        TextMapView,
                        Seq<char>,
                    >(records::text_map_view(adapter.output_map))
                    &&& adapter.output_map.wf()
                },
                Err(message) => loaded_output_map(cfg, path@, outcome::viewed(loaded)) == Err::<
                    TextMapView,
                    Seq<char>,
                >(message@),
            },
    {
        if let Err(reason) = loaded {
            let head = text::concat("Failed to load or prepare ONNX model ", path);
            return Err(text::concat(text::concat(head.as_str(), ": ").as_str(), reason.as_str()));
        }
        match records::load_json_map(cfg.onnx_output_map_json.as_str()) {
            Ok(output_map) => Ok(OnnxAdapter { cfg, output_map }),
            Err(message) => Err(message),
        }
    }

    /// The rows of the input.
    pub fn parsed_input_to_rows(parsed_input: &ParsedInput) -> (r: Result<
        Vec<Vec<String>>,
        String,
    >)
        ensures
            outcome::deep_viewed(r) == input_rows(parsed_input@),
    {
        if let Some(rows) = &parsed_input.x {
            return Ok(copy_rows(rows));
        }
        match &parsed_input.tensors {
            Some(tensors) => {
                if tensors.is_empty() {
                    return Err("Parsed input contained no tensors".to_owned());
                }
                if tensors.len() > 1 {
                    let head = text::concat(
                        "Parsed input contained ",
                        numeral::decimal_string(tensors.len() as u64).as_str(),
                    );
                    return Err(
                        text::concat(
                            head.as_str(),
                            " ONNX input tensors, but this adapter currently supports only a single input tensor",
                        ),
                    );
                }
                assert(json::object_view(*tensors)[0].1 == tensors.entries@[0].1@);
                tabular::value_to_numeric_rows(&tensors.entries[0].1)
            },
            None => Err("Parsed input contained no features/tensors".to_owned()),
        }
    }

    /// The rows as one tensor.
    pub fn rows_to_tensor(rows: &[Vec<String>]) -> (r: Result<InputTensor, String>)
        ensures
            outcome::viewed(r) == matrix_tensor(
                rows@.map_values(|row: Vec<String>| row.deep_view()),
            ),
    {
        let ghost views = rows@.map_values(|row: Vec<String>| row.deep_view());
        if rows.len() == 0 {
            return Err("Parsed payload is empty".to_owned());
        }
        let n_rows = rows.len();
        let n_cols = rows[0].len();
        assert(views[0].len() == n_cols);
        let mut cells: Vec<String> = Vec::new();
        assert(views.take(0).flatten() =~= Seq::empty());
        assert(cells.deep_view() =~= Seq::empty());
        for i in 0..n_rows
            invariant
                n_rows == rows@.len(),
                n_rows > 0,
                views == rows@.map_values(|row: Vec<String>| row.deep_view()),
                views[0].len() == n_cols,
                forall|k: int| 0 <= k < i ==> (#[trigger] views[k]).len() == n_cols,
                cells.deep_view() == views.take(i as int).flatten(),
        {
            assert(views[i as int].len() == rows@[i as int].len());
            if rows[i].len() != n_cols {
                return Err("Input rows have inconsistent feature counts".to_owned());
            }
            let ghost done = cells.deep_view();
            let mut row = copy_cells(&rows[i]);
            let ghost added = row.deep_view();
            cells.append(&mut row);
            proof {
                assert(cells.deep_view() =~= done + added);
                assert(views.take(i + 1) =~= views.take(i as int).push(added));
                tabular::lemma_flatten_push(views.take(i as int), added);
            }
        }
        assert(views.take(n_rows as int) =~= views);
        Ok(InputTensor { n_rows, n_cols, cells })
    }

    /// The elements as a JSON array.
    pub fn array_view_to_json(shape: &Vec<usize>, elements: Vec<Json>) -> (r: Json)
        requires
            shape@.len() == 2 ==> elements@.len() == shape@[0] * shape@[1],
        ensures
            r@ == array_json(shape@, json::array_view(elements@)),
    {
        broadcast use json::lemma_array_view;

        if shape.len() != 2 {
            return Json::Array(elements);
        }
        let n_rows = shape[0];
        let n_cols = shape[1];
        let total = elements.len();
        let ghost whole = in_rows(json::array_view(elements@), n_rows as nat, n_cols as nat);
        let mut rows: Vec<Json> = Vec::new();
        let mut start: usize = 0;
        assert(0 * n_cols == 0) by (nonlinear_arith);
        for i in 0..n_rows
            invariant
                total == elements@.len(),
                total == n_rows * n_cols,
                start == i * n_cols,
                whole == in_rows(json::array_view(elements@), n_rows as nat, n_cols as nat),
                json::array_view(rows@) == whole.take(i as int),
        {
            let ghost done = json::array_view(rows@);
            assert(i * n_cols + n_cols == (i + 1) * n_cols) by (nonlinear_arith);
            assert((i + 1) * n_cols <= n_rows * n_cols) by (nonlinear_arith)
                requires
                    i + 1 <= n_rows,
            ;
            let end: usize = start + n_cols;
            let row = copy_range(&elements, start, end);
            proof {
                json::lemma_array_view(row);
            }
            let value = Json::Array(row);
            assert(whole[i as int] == JsonView::Array(
                json::array_view(elements@).subrange(start as int, end as int),
            ));
            rows.push(value);
            assert(json::array_view(rows@) =~= done.push(value@));
            assert(whole.take(i + 1) =~= whole.take(i as int).push(value@));
            start = end;
        }
        assert(whole.take(n_rows as int) =~= whole);
        Json::Array(rows)
    }

    /// The tensor as JSON.
    pub fn tensor_to_json(tensor: &OutputTensor) -> (r: Result<Json, String>)
        requires
            tensor.wf(),
        ensures
            outcome::viewed(r) == tensor_json(*tensor),
    {
        let elements = match &tensor.elements {
            TensorElements::Floats(items) => read_floats(items),
            TensorElements::Integers(items) => read_integers(items),
            TensorElements::Unsupported => {
                return Err("unsupported ONNX output tensor dtype".to_owned());
            },
        };
        proof {
            assert(json::array_view(elements@).len() == element_count(tensor.elements));
        }
        Ok(Self::array_view_to_json(&tensor.shape, elements))
    }

    /// The input as the tensor that the model takes.
    pub fn prepare(parsed_input: &ParsedInput) -> (r: Result<InputTensor, String>)
        ensures
            outcome::viewed(r) == model_input(parsed_input@),
    {
        match Self::parsed_input_to_rows(parsed_input) {
            Ok(rows) => {
                assert(rows@.map_values(|row: Vec<String>| row.deep_view()) =~= rows.deep_view());
                Self::rows_to_tensor(rows.as_slice())
            },
            Err(message) => Err(message),
        }
    }

    /// What a run of the model gives, as predictions.
    pub fn finish(&self, run: ModelRun) -> (r: Result<Json, String>)
        requires
            run matches ModelRun::Outputs(outputs) ==> outputs@.len() > 0 && forall|i: int|
                0 <= i < outputs@.len() ==> (#[trigger] outputs@[i]).wf(),
        ensures
            outcome::viewed(r) == match run {
                ModelRun::Unavailable => Err("ONNX model runtime unavailable"@),
                ModelRun::Failed(reason) => Err("ONNX inference failed: "@ + reason@),
                ModelRun::Outputs(outputs) => predictions(
                    outputs@,
                    records::text_map_view(self.output_map),
                    self.cfg.onnx_output_name@,
                    self.cfg.onnx_output_index,
                ),
            },
    {
        match run {
            ModelRun::Unavailable => Err("ONNX model runtime unavailable".to_owned()),
            ModelRun::Failed(reason) => Err(
                text::concat("ONNX inference failed: ", reason.as_str()),
            ),
            ModelRun::Outputs(outputs) => self.outputs_to_json(&outputs),
        }
    }

    /// The outputs of the model as predictions.
    pub fn outputs_to_json(&self, outputs: &Vec<OutputTensor>) -> (r: Result<Json, String>)
        requires
            outputs@.len() > 0,
            forall|i: int| 0 <= i < outputs@.len() ==> (#[trigger] outputs@[i]).wf(),
        ensures
            outcome::viewed(r) == predictions(
                outputs@,
                records::text_map_view(self.output_map),
                self.cfg.onnx_output_name@,
                self.cfg.onnx_output_index,
            ),
    {
        assert(self.output_map@.len() == self.output_map.entries@.len());
        if !self.output_map.is_empty() {
            return self.mapped_outputs(outputs);
        }
        let name = text::chars_of(self.cfg.onnx_output_name.as_str());
        if text::trim_slice(name.as_slice()).len() > 0 {
            let index = read_output_index(
                name.as_slice(),
                self.cfg.onnx_output_index,
                outputs.len(),
            );
            return Self::tensor_to_json(&outputs[index]);
        }
        let none: Vec<char> = Vec::new();
        assert(none@ =~= Seq::empty());
        let index = read_output_index(none.as_slice(), self.cfg.onnx_output_index, outputs.len());
        Self::tensor_to_json(&outputs[index])
    }

    /// An object of the mapped outputs.
    fn mapped_outputs(&self, outputs: &Vec<OutputTensor>) -> (r: Result<Json, String>)
        requires
            outputs@.len() > 0,
            self.output_map@.len() > 0,
            forall|i: int| 0 <= i < outputs@.len() ==> (#[trigger] outputs@[i]).wf(),
        ensures
            outcome::viewed(r) == predictions(
                outputs@,
                records::text_map_view(self.output_map),
                self.cfg.onnx_output_name@,
                self.cfg.onnx_output_index,
            ),
    {
        let ghost entries = records::text_map_view(self.output_map);
        let ghost outcomes = entries.map_values(
            |entry: (Seq<char>, Seq<char>)| mapped_output(outputs@, entry),
        );
        let mut mapped: StringMap<Json> = StringMap::new();
        proof {
            assert(outcomes.take(0) =~= Seq::empty());
            assert(mapped@.len() == mapped.entries@.len());
            assert(json::object_view(mapped) =~= Seq::empty());
        }
        for i in 0..self.output_map.entries.len()
            invariant
                outputs@.len() > 0,
                forall|i: int| 0 <= i < outputs@.len() ==> (#[trigger] outputs@[i]).wf(),
                entries == records::text_map_view(self.output_map),
                outcomes == entries.map_values(
                    |entry: (Seq<char>, Seq<char>)| mapped_output(outputs@, entry),
                ),
                outcome::collect(outcomes.take(i as int)) == Ok::<RecordView, Seq<char>>(
                    json::object_view(mapped),
                ),
        {
            let ghost done = json::object_view(mapped);
            proof {
                outcome::lemma_collect_step(outcomes, i as int);
                assert(outcomes[i as int] == mapped_output(outputs@, entries[i as int]));
            }
            let key = self.output_map.entries[i].0.clone();
            let name = text::chars_of(self.output_map.entries[i].1.as_str());
            let index = read_output_index(name.as_slice(), 0, outputs.len());
            match Self::tensor_to_json(&outputs[index]) {
                Ok(value) => {
                    let ghost entry = (key@, value@);
                    mapped.entries.push((key, value));
                    assert(json::object_view(mapped) =~= done.push(entry));
                },
                Err(message) => {
                    proof {
                        outcome::lemma_collect_error(outcomes, i + 1, message@);
                    }
                    return Err(message);
                },
            }
        }
        proof {
            assert(outcomes.take(entries.len() as int) =~= outcomes);
            assert(self.output_map@.len() == self.output_map.entries@.len());
            json::lemma_object_view(mapped);
        }
        Ok(Json::Object(mapped))
    }
}

/// The index of the output that the name or the default chooses.
fn read_output_index(name: &[char], default: usize, count: usize) -> (r: usize)
    requires
        count > 0,
    ensures
        r == output_index(name@, default, count as nat),
        r < count,
{
    let index = match numeral::read_usize(name) {
        Some(index) => index,
        None => default,
    };
    if index < count {
        index
    } else {
        count - 1
    }
}

/// The kinds of model that are known.
#[derive(Debug, PartialEq)]
pub enum ModelKind {
    Onnx,
}

/// The error for a kind of model that is not known.
pub open spec fn model_type_error(model_type: Seq<char>) -> Seq<char> {
    "MODEL_TYPE="@ + model_type + " is not implemented in this package"@
}

/// The kind of model to load: ONNX where the settings say so or where the model
/// file exists.
pub open spec fn model_kind(model_type: Seq<char>, model_exists: bool) -> Result<
    ModelKind,
    Seq<char>,
> {
    if model_type == "onnx"@ || model_exists {
        Ok(ModelKind::Onnx)
    } else if model_type.len() > 0 {
        Err(model_type_error(model_type))
    } else {
        Err("Set MODEL_TYPE=onnx or place model.onnx under SM_MODEL_DIR"@)
    }
}

/// The kind of model to load.
pub fn choose_model_kind(cfg: &AppConfig, model_exists: bool) -> (r: Result<ModelKind, String>)
    ensures
        (match r {
            Ok(kind) => Ok(kind),
            Err(message) => Err(message@),
        }) == model_kind(cfg.model_type@, model_exists),
{
    if text::same(cfg.model_type.as_str(), "onnx") || model_exists {
        return Ok(ModelKind::Onnx);
    }
    if !cfg.model_type.as_str().is_empty() {
        let head = text::concat("MODEL_TYPE=", cfg.model_type.as_str());
        return Err(text::concat(head.as_str(), " is not implemented in this package"));
    }
    Err("Set MODEL_TYPE=onnx or place model.onnx under SM_MODEL_DIR".to_owned())
}

/// The path of the model file, where it exists.
pub open spec fn existing_model(path: Seq<char>, exists: bool) -> Result<Seq<char>, Seq<char>> {
    if exists {
        Ok(path)
    } else {
        Err("ONNX model not found: "@ + path)
    }
}

/// The error for a model file that cannot be loaded, with the reason.
pub open spec fn load_error(path: Seq<char>, reason: Seq<char>) -> Seq<char> {
    "Failed to load or prepare ONNX model "@ + path + ": "@ + reason
}

/// The path of the model file: its directory and then the file itself must be there.
pub open spec fn located_model(cfg: AppConfig, found: DirectoryState, exists: bool) -> Result<
    Seq<char>,
    Seq<char>,
> {
    match config::model_path(cfg.model_dir@, cfg.model_filename@, found) {
        Ok(path) => existing_model(path, exists),
        Err(message) => Err(message),
    }
}

/// The path of the model file to load, where the settings or the file itself say what
/// kind of model it is.
pub open spec fn model_to_load(cfg: AppConfig, found: DirectoryState, exists: bool) -> Result<
    Seq<char>,
    Seq<char>,
> {
    match model_kind(cfg.model_type@, found is Directory && exists) {
        Ok(ModelKind::Onnx) => located_model(cfg, found, exists),
        Err(message) => Err(message),
    }
}

/// The map from reply keys to outputs of a model at the path, with what came of
/// loading it: a model that did not load comes before a map that cannot be read.
pub open spec fn loaded_output_map(
    cfg: AppConfig,
    path: Seq<char>,
    loaded: Result<(), Seq<char>>,
) -> Result<TextMapView, Seq<char>> {
    match loaded {
        Ok(()) => records::setting_map(cfg.onnx_output_map_json@),
        Err(reason) => Err(load_error(path, reason)),
    }
}

/// The path of the model file to load, with what stands at the path of its directory
/// and whether the file exists.
pub fn load_adapter(cfg: &AppConfig, found: DirectoryState, exists: bool) -> (r: Result<
    String,
    String,
>)
    ensures
        outcome::viewed(r) == model_to_load(*cfg, found, exists),
{
    let in_place = match found {
        DirectoryState::Directory => exists,
        _ => false,
    };
    match choose_model_kind(cfg, in_place) {
        Ok(ModelKind::Onnx) => OnnxAdapter::locate(cfg, found, exists),
        Err(message) => Err(message),
    }
}

} // verus!
