//! Model input as a payload gives it, and the number of records in it.

use super::columns;
use super::records;
use super::records::RecordView;
use crate::json;
use crate::json::{Json, JsonView};
use crate::numeral;
use crate::outcome;
use crate::string_map::StringMap;
use crate::text;
use vstd::prelude::*;

verus! {

/// Model input: rows of cells, each by the text of its number, or named tensors;
/// and what is to be known about them.
#[derive(Debug, PartialEq)]
pub struct ParsedInput {
    pub x: Option<Vec<Vec<String>>>,
    pub tensors: Option<StringMap<Json>>,
    pub meta: Option<Json>,
}

/// What model input stands for.
pub struct ParsedView {
    pub x: Option<Seq<Seq<Seq<char>>>>,
    pub tensors: Option<RecordView>,
    pub meta: Option<JsonView>,
}

impl View for ParsedInput {
    type V = ParsedView;

    open spec fn view(&self) -> ParsedView {
        ParsedView {
            x: match self.x {
                Some(rows) => Some(rows.deep_view()),
                None => None,
            },
            tensors: match self.tensors {
                Some(map) => Some(json::object_view(map)),
                None => None,
            },
            meta: match self.meta {
                Some(value) => Some(value@),
                None => None,
            },
        }
    }
}

/// All numbers are the same.
pub open spec fn all_same(sizes: Seq<usize>) -> bool {
    forall|i: int| 0 <= i < sizes.len() ==> #[trigger] sizes[i] == sizes[0]
}

/// The numbers in brackets, with commas between them.
pub open spec fn sizes_text(sizes: Seq<usize>) -> Seq<char> {
    "["@ + text::join(sizes.map_values(|size: usize| numeral::decimal(size as nat)), ", "@) + "]"@
}

/// The error for a batch without records.
pub open spec fn batch_dimension_error() -> Seq<char> {
    "ONNX_DYNAMIC_BATCH enabled but batch dimension invalid"@
}

/// The error for inputs that do not agree on a batch size.
pub open spec fn batch_mismatch_error(sizes: Seq<usize>) -> Seq<char> {
    "ONNX inputs have mismatched batch sizes: "@ + sizes_text(sizes)
}

/// The verdict on the batch sizes of the inputs: there must be some, none of them
/// zero, and all the same.
pub open spec fn batch_sizes_verdict(sizes: Seq<usize>) -> Result<(), Seq<char>> {
    if sizes.len() == 0 || sizes.contains(0) {
        Err(batch_dimension_error())
    } else if !all_same(sizes) {
        Err(batch_mismatch_error(sizes))
    } else {
        Ok(())
    }
}

/// The length of the array that a tensor is.
pub open spec fn tensor_size(tensor: JsonView) -> usize {
    match tensor {
        JsonView::Array(rows) => rows.len() as usize,
        _ => 0,
    }
}

/// The error for input that holds nothing.
pub open spec fn no_input_error() -> Seq<char> {
    "Parsed input contained no features/tensors"@
}

/// The batch size of the tensors.
pub open spec fn tensors_batch(tensors: RecordView) -> Result<usize, Seq<char>> {
    let sizes = tensors.map_values(|entry: (Seq<char>, JsonView)| tensor_size(entry.1));
    if exists|i: int| 0 <= i < tensors.len() && !((#[trigger] tensors[i]).1 is Array) {
        Err("ONNX input tensor must be array-like"@)
    } else if tensors.len() == 0 {
        Err(no_input_error())
    } else {
        match batch_sizes_verdict(sizes) {
            Ok(()) => Ok(sizes[0]),
            Err(message) => Err(message),
        }
    }
}

/// The number of records in the input.
pub open spec fn batch(input: ParsedView) -> Result<usize, Seq<char>> {
    match (input.x, input.tensors) {
        (Some(rows), _) => Ok(rows.len() as usize),
        (None, Some(tensors)) => tensors_batch(tensors),
        (None, None) => Err(no_input_error()),
    }
}

/// The input holds numbers: every cell of its rows reads as one, and so does the text
/// of every floating-point number in its tensors.
pub open spec fn holds_numbers(input: ParsedView) -> bool {
    &&& input.x matches Some(rows) ==> columns::all_numeric(rows)
    &&& input.tensors matches Some(tensors) ==> records::numeral_fields(tensors)
}

/// The numbers in brackets, with commas between them.
fn sizes_string(sizes: &[usize]) -> (r: String)
    ensures
        r@ == sizes_text(sizes@),
{
    let ghost whole = sizes@.map_values(|size: usize| numeral::decimal(size as nat));
    let mut parts: Vec<String> = Vec::new();
    let mut i: usize = 0;
    while i < sizes.len()
        invariant
            i <= sizes@.len(),
            whole == sizes@.map_values(|size: usize| numeral::decimal(size as nat)),
            parts.deep_view() == whole.take(i as int),
        decreases sizes@.len() - i,
    {
        let part = numeral::decimal_string(sizes[i] as u64);
        let ghost done = parts.deep_view();
        parts.push(part);
        assert(parts.deep_view() =~= done.push(part@));
        assert(whole.take(i + 1) =~= whole.take(i as int).push(part@));
        i += 1;
    }
    assert(whole.take(whole.len() as int) =~= whole);
    let head = text::concat("[", text::join_strings(&parts, ", ").as_str());
    text::concat(head.as_str(), "]")
}

/// Accepts batch sizes of which there are some, none zero, and all the same.
pub fn validate_dynamic_batch_sizes(batch_sizes: &[usize]) -> (r: Result<(), String>)
    ensures
        outcome::viewed(r) == batch_sizes_verdict(batch_sizes@),
{
    if batch_sizes.len() == 0 {
        return Err("ONNX_DYNAMIC_BATCH enabled but batch dimension invalid".to_owned());
    }
    let mut same: bool = true;
    for i in 0..batch_sizes.len()
        invariant
            batch_sizes@.len() > 0,
            forall|k: int| 0 <= k < i ==> #[trigger] batch_sizes@[k] != 0,
            same == (forall|k: int|
                0 <= k < i ==> #[trigger] batch_sizes@[k] == batch_sizes@[0]),
    {
        if batch_sizes[i] == 0 {
            assert(batch_sizes@.contains(0)) by {
                assert(batch_sizes@[i as int] == 0);
            }
            return Err("ONNX_DYNAMIC_BATCH enabled but batch dimension invalid".to_owned());
        }
        if batch_sizes[i] != batch_sizes[0] {
            same = false;
        }
    }
    if !same {
        return Err(
            text::concat(
                "ONNX inputs have mismatched batch sizes: ",
                sizes_string(batch_sizes).as_str(),
            ),
        );
    }
    Ok(())
}

impl ParsedInput {
    /// The number of records in the input.
    pub fn batch_size(&self) -> (r: Result<usize, String>)
        ensures
            outcome::viewed(r) == batch(self@),
    {
        if let Some(x) = &self.x {
            return Ok(x.len());
        }
        match &self.tensors {
            Some(tensors) => batch_size_of_tensors(tensors),
            None => Err("Parsed input contained no features/tensors".to_owned()),
        }
    }
}

/// The batch size of the tensors.
fn batch_size_of_tensors(tensors: &StringMap<Json>) -> (r: Result<usize, String>)
    ensures
        outcome::viewed(r) == tensors_batch(json::object_view(*tensors)),
{
    let ghost entries = json::object_view(*tensors);
    let ghost whole = entries.map_values(|entry: (Seq<char>, JsonView)| tensor_size(entry.1));
    let mut inferred: Vec<usize> = Vec::new();
    for i in 0..tensors.entries.len()
        invariant
            entries == json::object_view(*tensors),
            whole == entries.map_values(|entry: (Seq<char>, JsonView)| tensor_size(entry.1)),
            inferred@ == whole.take(i as int),
            forall|k: int| 0 <= k < i ==> (#[trigger] entries[k]).1 is Array,
    {
        assert(entries[i as int].1 == tensors.entries@[i as int].1@);
        match array_len(&tensors.entries[i].1) {
            Some(size) => {
                inferred.push(size);
                assert(whole.take(i + 1) =~= whole.take(i as int).push(size));
            },
            None => {
                return Err("ONNX input tensor must be array-like".to_owned());
            },
        }
    }
    assert(whole.take(entries.len() as int) =~= whole);
    if inferred.len() == 0 {
        return Err("Parsed input contained no features/tensors".to_owned());
    }
    match validate_dynamic_batch_sizes(inferred.as_slice()) {
        Ok(()) => Ok(inferred[0]),
        Err(message) => Err(message),
    }
}

/// The length of the array that the value is.
fn array_len(value: &Json) -> (r: Option<usize>)
    ensures
        r is Some == value@ is Array,
        r matches Some(size) ==> size == tensor_size(value@),
{
    broadcast use json::lemma_array_view;

    match value {
        Json::Array(items) => Some(items.len()),
        _ => None,
    }
}

} // verus!
