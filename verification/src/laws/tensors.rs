//! Tensors.

use crate::adapter;
use crate::adapter::{InputTensor, ModelRun, OnnxAdapter, OutputTensor, TensorElements};
use crate::input::columns;
use crate::input::parsed;
use crate::input::parsed::{ParsedInput, ParsedView};
use crate::input::records;
use crate::input::tabular;
use crate::json;
use crate::json::{Json, JsonView, NumberView};
use crate::laws::rows;
use crate::numeral;
use crate::outcome;
use crate::text;
use vstd::prelude::*;

verus! {

/// The number of cells of rows of one length.
proof fn lemma_flatten_len<A>(rows: Seq<Seq<A>>, n_cols: nat)
    requires
        forall|i: int| 0 <= i < rows.len() ==> (#[trigger] rows[i]).len() == n_cols,
    ensures
        rows.flatten().len() == rows.len() * n_cols,
    decreases rows.len(),
{
    if rows.len() > 0 {
        let rest = rows.drop_first();
        assert forall|i: int| 0 <= i < rest.len() implies (#[trigger] rest[i]).len() == n_cols by {
            assert(rest[i] == rows[i + 1]);
        }
        lemma_flatten_len(rest, n_cols);
        assert(rows.flatten() == rows.first() + rest.flatten());
        assert(rows[0].len() == n_cols);
        assert(rows.len() * n_cols == n_cols + rest.len() * n_cols) by (nonlinear_arith)
            requires
                rest.len() == rows.len() - 1,
        ;
    } else {
        assert(rows.flatten() =~= Seq::empty());
        assert(rows.len() * n_cols == 0) by (nonlinear_arith)
            requires
                rows.len() == 0,
        ;
    }
}

/// Where a cell stands in rows of one length, one after another.
proof fn lemma_flatten_cell<A>(rows: Seq<Seq<A>>, n_cols: nat, i: int, j: int)
    requires
        forall|k: int| 0 <= k < rows.len() ==> (#[trigger] rows[k]).len() == n_cols,
        0 <= i < rows.len(),
        0 <= j < n_cols,
    ensures
        0 <= i * n_cols + j < rows.flatten().len(),
        rows.flatten()[i * n_cols + j] == rows[i][j],
    decreases i,
{
    let rest = rows.drop_first();
    let whole = rows.flatten();
    assert(whole == rows.first() + rest.flatten());
    assert(rows[0].len() == n_cols);
    if i == 0 {
        assert(i * n_cols == 0) by (nonlinear_arith)
            requires
                i == 0,
        ;
    } else {
        assert forall|k: int| 0 <= k < rest.len() implies (#[trigger] rest[k]).len() == n_cols by {
            assert(rest[k] == rows[k + 1]);
        }
        lemma_flatten_cell(rest, n_cols, i - 1, j);
        assert(i * n_cols == n_cols + (i - 1) * n_cols) by (nonlinear_arith);
        assert(rest[i - 1] == rows[i]);
        assert(whole[i * n_cols + j] == rest.flatten()[(i - 1) * n_cols + j]);
    }
}

/// The tensor of rows holds them one after another: the cell in row `i` and column
/// `j` stands `j` places after the start of row `i`.
pub proof fn law_tensor_holds_every_cell(rows: Seq<Seq<Seq<char>>>, i: int, j: int)
    requires
        rows.len() <= usize::MAX,
        0 <= i < rows.len(),
        0 <= j < rows[i].len(),
        rows[i].len() <= usize::MAX,
    ensures
        adapter::matrix_tensor(rows) matches Ok(tensor) ==> {
            &&& tensor.n_rows == rows.len()
            &&& tensor.n_cols == rows[i].len()
            &&& tensor.cells.len() == tensor.n_rows * tensor.n_cols
            &&& tensor.cells[i * tensor.n_cols + j] == rows[i][j]
        },
{
    if adapter::is_rectangular(rows) {
        assert(rows[i].len() == rows[0].len());
        lemma_flatten_len(rows, rows[0].len());
        lemma_flatten_cell(rows, rows[0].len(), i, j);
    }
}

/// The elements of a tensor of two dimensions come out in the rows that they were
/// laid out from.
pub proof fn law_rows_come_out_as_they_went_in(rows: Seq<Seq<JsonView>>, shape: Seq<usize>)
    requires
        shape.len() == 2,
        shape[0] == rows.len(),
        forall|i: int| 0 <= i < rows.len() ==> (#[trigger] rows[i]).len() == shape[1],
    ensures
        adapter::array_json(shape, rows.flatten()) == JsonView::Array(
            rows.map_values(|row: Seq<JsonView>| JsonView::Array(row)),
        ),
{
    let n_cols = shape[1] as nat;
    lemma_flatten_len(rows, n_cols);
    let split = adapter::in_rows(rows.flatten(), rows.len(), n_cols);
    let whole = rows.map_values(|row: Seq<JsonView>| JsonView::Array(row));
    assert forall|i: int| 0 <= i < rows.len() implies split[i] == whole[i] by {
        assert(i * n_cols + n_cols <= rows.len() * n_cols && 0 <= i * n_cols) by (nonlinear_arith)
            requires
                0 <= i < rows.len(),
        ;
        let row = rows.flatten().subrange(i * n_cols, i * n_cols + n_cols);
        assert forall|j: int| 0 <= j < n_cols implies row[j] == rows[i][j] by {
            lemma_flatten_cell(rows, n_cols, i, j);
        }
        assert(row =~= rows[i]);
    }
    assert(split =~= whole);
}

/// Whatever output is asked for, one of those that are there is taken; an output
/// that is asked for by its number and is there is the one taken.
pub proof fn law_chosen_output_exists(name: Seq<char>, default: usize, count: nat)
    requires
        count > 0,
    ensures
        0 <= adapter::output_index(name, default, count) < count,
        crate::numeral::parse_usize(name) matches Some(index) ==> index < count
            ==> adapter::output_index(name, default, count) == index,
{
}

/// Where the input holds numbers, so does the tensor that the model takes, and rows of
/// numbers in the one tensor of the input are never refused.
pub proof fn law_prepared_cells_are_numbers(input: ParsedView)
    requires
        parsed::holds_numbers(input),
    ensures
        adapter::model_input(input) matches Ok(tensor) ==> forall|k: int|
            0 <= k < tensor.cells.len() ==> numeral::is_numeric(#[trigger] tensor.cells[k]),
        input.x is None && input.tensors is Some && input.tensors->0.len() == 1 ==> (
        adapter::input_rows(input) is Ok <==> tabular::rows_of_numbers(input.tensors->0[0].1)),
{
    if input.x is None && input.tensors is Some && input.tensors->0.len() == 1 {
        let value = input.tensors->0[0].1;
        assert(json::numerals_only(value));
        tabular::lemma_rows_of_numbers(value);
        rows::law_json_cells_are_numbers(value);
    }
    if let Ok(rows) = adapter::input_rows(input) {
        lemma_flatten_numbers(rows);
    }
}

/// The cells of rows, one after another, are numbers where the cells of the rows are.
proof fn lemma_flatten_numbers(rows: Seq<Seq<Seq<char>>>)
    requires
        columns::all_numeric(rows),
    ensures
        forall|k: int|
            0 <= k < rows.flatten().len() ==> numeral::is_numeric(#[trigger] rows.flatten()[k]),
    decreases rows.len(),
{
    if rows.len() > 0 {
        let rest = rows.drop_first();
        assert forall|i: int, j: int|
            0 <= i < rest.len() && 0 <= j < rest[i].len() implies numeral::is_numeric(
            #[trigger] rest[i][j],
        ) by {
            assert(rest[i][j] == rows[i + 1][j]);
        }
        lemma_flatten_numbers(rest);
        let whole = rows.flatten();
        assert(whole == rows.first() + rest.flatten());
        assert forall|k: int| 0 <= k < whole.len() implies numeral::is_numeric(
            #[trigger] whole[k],
        ) by {
            if k < rows[0].len() {
                assert(whole[k] == rows[0][k]);
            } else {
                assert(whole[k] == rest.flatten()[k - rows[0].len()]);
            }
        }
    } else {
        assert(rows.flatten() =~= Seq::empty());
    }
}

/// The rows that a model takes are those of the input, where it has rows; else those of its one
/// tensor. Input with no tensor, with more than one, or with neither is refused.
pub proof fn law_rows_of_input(
    input: &ParsedInput,
    tensor: &Json,
    of_tensor: Result<Vec<Vec<String>>, String>,
    r: Result<Vec<Vec<String>>, String>,
)
    requires
        call_ensures(OnnxAdapter::parsed_input_to_rows, (input,), r),
        call_ensures(tabular::value_to_numeric_rows, (tensor,), of_tensor),
    ensures
        match (input@.x, input@.tensors) {
            (Some(found), _) => r matches Ok(same) && same.deep_view() == found,
            (None, Some(tensors)) => if tensors.len() == 1 {
                tensors[0].1 == tensor@ ==> outcome::deep_viewed(r) == outcome::deep_viewed(
                    of_tensor,
                )
            } else if tensors.len() == 0 {
                r matches Err(message) && message@ == "Parsed input contained no tensors"@
            } else {
                r matches Err(message) && message@ == "Parsed input contained "@
                    + numeral::decimal(tensors.len())
                    + " ONNX input tensors, but this adapter currently supports only a single input tensor"@
            },
            (None, None) => r matches Err(message) && message@
                == "Parsed input contained no features/tensors"@,
        },
{
}

/// Rows are one tensor if and only if there are some and all have the same length. It has one
/// row for each of them, and the cell in row `i` and column `j` stands `j` places after the start
/// of row `i`.
pub proof fn law_rows_are_one_tensor(found: &[Vec<String>], r: Result<InputTensor, String>)
    requires
        call_ensures(OnnxAdapter::rows_to_tensor, (found,), r),
        found@.len() <= usize::MAX,
    ensures
        match r {
            Ok(tensor) => {
                &&& found@.len() > 0
                &&& tensor.n_rows == found@.len()
                &&& forall|i: int|
                    0 <= i < found@.len() ==> (#[trigger] found@[i])@.len() == tensor.n_cols
                &&& tensor.cells@.len() == tensor.n_rows * tensor.n_cols
                &&& forall|i: int, j: int|
                    0 <= i < found@.len() && 0 <= j < tensor.n_cols ==> tensor.cells@[i
                        * tensor.n_cols + j]@ == (#[trigger] found@[i]@[j])@
            },
            Err(message) => if found@.len() == 0 {
                message@ == "Parsed payload is empty"@
            } else {
                &&& message@ == "Input rows have inconsistent feature counts"@
                &&& exists|i: int|
                    0 <= i < found@.len() && (#[trigger] found@[i])@.len() != found@[0]@.len()
            },
        },
{
    let views = found@.map_values(|row: Vec<String>| row.deep_view());
    if found@.len() > 0 {
        assert(found@[0].len() == found@[0]@.len());
        if let Ok(tensor) = r {
            let n_cols = tensor.n_cols as nat;
            assert(views[0].len() == found@[0]@.len());
            assert forall|i: int| 0 <= i < found@.len() implies (#[trigger] found@[i])@.len()
                == n_cols by {
                assert(views[i].len() == views[0].len());
            }
            lemma_flatten_len(views, n_cols);
            let cells = tensor.cells.deep_view();
            assert(cells == views.flatten());
            assert forall|i: int, j: int|
                0 <= i < found@.len() && 0 <= j < n_cols implies tensor.cells@[i * tensor.n_cols
                + j]@ == (#[trigger] found@[i]@[j])@ by {
                lemma_flatten_cell(views, n_cols, i, j);
                assert(views[i][j] == found@[i]@[j]@);
                assert(cells[i * n_cols + j] == tensor.cells@[i * n_cols + j]@);
            }
        } else if forall|i: int|
            0 <= i < found@.len() ==> (#[trigger] found@[i])@.len() == found@[0]@.len() {
            assert forall|i: int| 0 <= i < views.len() implies (#[trigger] views[i]).len()
                == views[0].len() by {
                assert(found@[i]@.len() == found@[0]@.len());
            }
        }
    }
}

/// The tensor that a model takes is the one of the rows of the input; the error of the rows is
/// the error of all.
pub proof fn law_prepared_tensors(
    input: &ParsedInput,
    found: Result<Vec<Vec<String>>, String>,
    slice: &[Vec<String>],
    tensor: Result<InputTensor, String>,
    r: Result<InputTensor, String>,
)
    requires
        call_ensures(OnnxAdapter::prepare, (input,), r),
        call_ensures(OnnxAdapter::parsed_input_to_rows, (input,), found),
        call_ensures(OnnxAdapter::rows_to_tensor, (slice,), tensor),
    ensures
        match found {
            Ok(taken) => slice@ == taken@ ==> outcome::viewed(r) == outcome::viewed(tensor),
            Err(reason) => r matches Err(message) && message@ == reason@,
        },
{
    if let Ok(taken) = found {
        if slice@ == taken@ {
            assert(slice@.map_values(|row: Vec<String>| row.deep_view()) =~= taken.deep_view());
        }
    }
}

/// Elements in two dimensions come out in rows: the element in row `i` and column `j` is the one
/// that stands `j` places after the start of row `i`. In any other number of dimensions they come
/// out in one row, as they are.
pub proof fn law_elements_come_out_in_rows(shape: &Vec<usize>, elements: Vec<Json>, r: Json)
    requires
        call_ensures(OnnxAdapter::array_view_to_json, (shape, elements), r),
        shape@.len() == 2 ==> elements@.len() == shape@[0] * shape@[1],
    ensures
        r@ matches JsonView::Array(items) && if shape@.len() == 2 {
            &&& items.len() == shape@[0]
            &&& forall|i: int|
                0 <= i < items.len() ==> (#[trigger] items[i] matches JsonView::Array(row)
                    && row.len() == shape@[1] && forall|j: int|
                    0 <= j < row.len() ==> #[trigger] row[j] == elements@[i * shape@[1] + j]@)
        } else {
            &&& items.len() == elements@.len()
            &&& forall|k: int| 0 <= k < items.len() ==> #[trigger] items[k] == elements@[k]@
        },
{
    let views = json::array_view(elements@);
    if shape@.len() == 2 {
        lemma_in_rows(views, shape@[0] as nat, shape@[1] as nat);
        let items = r@->Array_0;
        let n_cols = shape@[1] as nat;
        assert forall|i: int| 0 <= i < items.len() implies (#[trigger] items[i] matches JsonView::Array(
            row,
        ) && row.len() == n_cols && forall|j: int|
            0 <= j < row.len() ==> #[trigger] row[j] == elements@[i * n_cols + j]@) by {
            let row = items[i]->Array_0;
            assert forall|j: int| 0 <= j < row.len() implies #[trigger] row[j] == elements@[i
                * n_cols + j]@ by {
                assert(row[j] == views[i * n_cols + j]);
                lemma_place(i, j, shape@[0] as nat, n_cols);
            }
        }
    }
}

/// A place in a row lies within all the rows.
proof fn lemma_place(i: int, j: int, n_rows: nat, n_cols: nat)
    requires
        0 <= i < n_rows,
        0 <= j < n_cols,
    ensures
        0 <= i * n_cols + j < n_rows * n_cols,
{
    assert(0 <= i * n_cols + j < n_rows * n_cols) by (nonlinear_arith)
        requires
            0 <= i < n_rows,
            0 <= j < n_cols,
    ;
}

/// The elements in rows, each in its place.
proof fn lemma_in_rows(elements: Seq<JsonView>, n_rows: nat, n_cols: nat)
    requires
        elements.len() == n_rows * n_cols,
    ensures
        ({
            let items = adapter::in_rows(elements, n_rows, n_cols);
            &&& items.len() == n_rows
            &&& forall|i: int|
                0 <= i < items.len() ==> (#[trigger] items[i] matches JsonView::Array(row)
                    && row.len() == n_cols && forall|j: int|
                    0 <= j < row.len() ==> #[trigger] row[j] == elements[i * n_cols + j])
        }),
{
    let items = adapter::in_rows(elements, n_rows, n_cols);
    assert forall|i: int| 0 <= i < items.len() implies (#[trigger] items[i] matches JsonView::Array(
        row,
    ) && row.len() == n_cols && forall|j: int|
        0 <= j < row.len() ==> #[trigger] row[j] == elements[i * n_cols + j]) by {
        assert(i * n_cols + n_cols <= n_rows * n_cols && 0 <= i * n_cols) by (nonlinear_arith)
            requires
                0 <= i < n_rows,
        ;
    }
}

/// An element as JSON: a floating-point number by its text, and null where it is not finite; an
/// integer as it is.
pub open spec fn is_element(value: JsonView, elements: TensorElements, k: int) -> bool {
    match elements {
        TensorElements::Floats(items) => match items@[k] {
            Some(digits) => value == JsonView::Number(NumberView::Float(digits@)),
            None => value is Null,
        },
        TensorElements::Integers(items) => match value {
            JsonView::Number(NumberView::Unsigned(u)) => u == items@[k],
            JsonView::Number(NumberView::Signed(i)) => i == items@[k] && i < 0,
            _ => false,
        },
        TensorElements::Unsupported => false,
    }
}

/// A tensor of floating-point numbers or integers comes out with all its elements, in rows where
/// it has two dimensions and in one row where it has not; a tensor of anything else is refused.
pub proof fn law_tensors_come_out_whole(tensor: &OutputTensor, r: Result<Json, String>)
    requires
        call_ensures(OnnxAdapter::tensor_to_json, (tensor,), r),
        tensor.wf(),
    ensures
        if tensor.elements is Unsupported {
            r matches Err(message) && message@ == "unsupported ONNX output tensor dtype"@
        } else {
            r matches Ok(value) && (value@ matches JsonView::Array(items) && if tensor.shape@.len()
                == 2 {
                &&& items.len() == tensor.shape@[0]
                &&& forall|i: int|
                    0 <= i < items.len() ==> (#[trigger] items[i] matches JsonView::Array(row)
                        && row.len() == tensor.shape@[1] && forall|j: int|
                        0 <= j < row.len() ==> is_element(
                            #[trigger] row[j],
                            tensor.elements,
                            i * tensor.shape@[1] + j,
                        ))
            } else {
                &&& items.len() == adapter::element_count(tensor.elements)
                &&& forall|k: int|
                    0 <= k < items.len() ==> is_element(#[trigger] items[k], tensor.elements, k)
            })
        },
{
    if !(tensor.elements is Unsupported) {
        let elements = adapter::elements_json(tensor.elements)->0;
        assert(elements.len() == adapter::element_count(tensor.elements));
        assert forall|k: int| 0 <= k < elements.len() implies is_element(
            #[trigger] elements[k],
            tensor.elements,
            k,
        ) by {}
        let items = r->Ok_0@->Array_0;
        if tensor.shape@.len() == 2 {
            let n_rows = tensor.shape@[0] as nat;
            let n_cols = tensor.shape@[1] as nat;
            lemma_in_rows(elements, n_rows, n_cols);
            assert forall|i: int|
                0 <= i < items.len() implies (#[trigger] items[i] matches JsonView::Array(row)
                && row.len() == n_cols && forall|j: int|
                0 <= j < row.len() ==> is_element(
                    #[trigger] row[j],
                    tensor.elements,
                    i * n_cols + j,
                )) by {
                let row = items[i]->Array_0;
                assert forall|j: int| 0 <= j < row.len() implies is_element(
                    #[trigger] row[j],
                    tensor.elements,
                    i * n_cols + j,
                ) by {
                    lemma_place(i, j, n_rows, n_cols);
                    assert(row[j] == elements[i * n_cols + j]);
                }
            }
        }
    }
}

/// A tensor has as many elements as it was given.
pub proof fn law_elements_are_counted(elements: TensorElements)
    ensures
        elements matches TensorElements::Floats(items) ==> adapter::element_count(elements)
            == items@.len(),
        elements matches TensorElements::Integers(items) ==> adapter::element_count(elements)
            == items@.len(),
{
}

/// The output is the one with the number, or the last one where there are not so many.
pub open spec fn is_output(index: int, number: usize, count: nat) -> bool {
    &&& number < count ==> index == number
    &&& number >= count ==> index == count - 1
}

/// Where no map of outputs is set, the predictions are the one output that the settings name by
/// its number; where the name is blank or no number, the one at the index that they set; and the
/// last one where there are not so many.
pub proof fn law_one_output_is_chosen(
    adapter: &OnnxAdapter,
    outputs: &Vec<OutputTensor>,
    index: int,
    chosen: Result<Json, String>,
    r: Result<Json, String>,
)
    requires
        call_ensures(OnnxAdapter::outputs_to_json, (adapter, outputs), r),
        adapter.output_map.entries@.len() == 0,
        0 <= index < outputs@.len(),
        call_ensures(OnnxAdapter::tensor_to_json, (&outputs@[index],), chosen),
        ({
            let name = adapter.cfg.onnx_output_name@;
            match numeral::parse_usize(name) {
                Some(number) => is_output(index, number, outputs@.len()),
                None => is_output(index, adapter.cfg.onnx_output_index, outputs@.len()),
            }
        }),
    ensures
        outcome::viewed(r) == outcome::viewed(chosen),
{
    let name = adapter.cfg.onnx_output_name@;
    assert(records::text_map_view(adapter.output_map).len() == 0);
    assert(numeral::parse_usize(Seq::<char>::empty()) is None);
    if text::trim(name).len() == 0 {
        lemma_blank_is_no_number(name);
    }
}

/// A blank text is no number.
proof fn lemma_blank_is_no_number(s: Seq<char>)
    requires
        text::trim(s).len() == 0,
    ensures
        numeral::parse_usize(s) is None,
{
    if numeral::parse_usize(s) is Some {
        let body = numeral::strip_plus(s);
        assert(numeral::is_digit(body[0]));
        assert(numeral::is_digit(body[body.len() - 1]));
        assert(s.first() == '+' || s.first() == body[0]);
        assert(s.last() == body[body.len() - 1]);
        assert(text::trim(s) == s);
    }
}

/// Where a map of outputs is set, the predictions are an object with its keys in its order, each
/// with the output that it names by its number; the first output where it names none, and the
/// last one where there are not so many. An output that cannot be written is refused.
pub proof fn law_outputs_are_mapped(
    adapter: &OnnxAdapter,
    outputs: &Vec<OutputTensor>,
    r: Result<Json, String>,
)
    requires
        call_ensures(OnnxAdapter::outputs_to_json, (adapter, outputs), r),
        adapter.output_map.entries@.len() > 0,
        outputs@.len() > 0,
    ensures
        ({
            let map = adapter.output_map.entries@;
            match r {
                Ok(value) => value@ matches JsonView::Object(entries) && entries.len() == map.len()
                    && forall|k: int|
                    0 <= k < map.len() ==> (#[trigger] entries[k]).0 == map[k].0@ && exists|index: int|
                        is_output(
                            index,
                            match numeral::parse_usize(map[k].1@) {
                                Some(number) => number,
                                None => 0,
                            },
                            outputs@.len(),
                        ) && #[trigger] adapter::tensor_json(outputs@[index]) == Ok::<
                            JsonView,
                            Seq<char>,
                        >(entries[k].1),
                Err(message) => message@ == "unsupported ONNX output tensor dtype"@ && exists|
                    index: int,
                |
                    0 <= index < outputs@.len() && (#[trigger] outputs@[index]).elements is Unsupported,
            }
        }),
{
    let map = records::text_map_view(adapter.output_map);
    let outcomes = map.map_values(
        |entry: (Seq<char>, Seq<char>)| adapter::mapped_output(outputs@, entry),
    );
    outcome::lemma_collected(outcomes);
    if let Ok(value) = r {
        let entries = value@->Object_0;
        assert forall|k: int| 0 <= k < map.len() implies (#[trigger] entries[k]).0
            == adapter.output_map.entries@[k].0@ && exists|index: int|
            is_output(
                index,
                match numeral::parse_usize(adapter.output_map.entries@[k].1@) {
                    Some(number) => number,
                    None => 0,
                },
                outputs@.len(),
            ) && #[trigger] adapter::tensor_json(outputs@[index]) == Ok::<JsonView, Seq<char>>(
                entries[k].1,
            ) by {
            assert(outcomes[k] == adapter::mapped_output(outputs@, map[k]));
            assert(outcomes[k] == Ok::<(Seq<char>, JsonView), Seq<char>>(entries[k]));
            let index = adapter::output_index(map[k].1, 0, outputs@.len());
            assert(adapter::tensor_json(outputs@[index]) == Ok::<JsonView, Seq<char>>(
                entries[k].1,
            ));
        }
    } else {
        lemma_mapped_error(outputs@, map);
    }
}

/// The error of mapped outputs comes from one that cannot be written.
proof fn lemma_mapped_error(outputs: Seq<OutputTensor>, map: Seq<(Seq<char>, Seq<char>)>)
    requires
        outputs.len() > 0,
    ensures
        outcome::collect(
            map.map_values(
                |entry: (Seq<char>, Seq<char>)| adapter::mapped_output(outputs, entry),
            ),
        ) matches Err(message) ==> message == "unsupported ONNX output tensor dtype"@ && exists|
            index: int,
        |
            0 <= index < outputs.len() && (#[trigger] outputs[index]).elements is Unsupported,
    decreases map.len(),
{
    let outcomes = map.map_values(
        |entry: (Seq<char>, Seq<char>)| adapter::mapped_output(outputs, entry),
    );
    if map.len() > 0 {
        lemma_mapped_error(outputs, map.drop_last());
        assert(outcomes.drop_last() =~= map.drop_last().map_values(
            |entry: (Seq<char>, Seq<char>)| adapter::mapped_output(outputs, entry),
        ));
        assert(outcomes.last() == adapter::mapped_output(outputs, map.last()));
        let index = adapter::output_index(map.last().1, 0, outputs.len());
        assert(0 <= index < outputs.len());
        if outcomes.last() is Err {
            assert(outputs[index].elements is Unsupported);
        }
    }
}

/// A run that gave outputs comes to their predictions; one that failed is named with its reason,
/// and a model that is not there is named too.
pub proof fn law_runs_are_finished(
    adapter: &OnnxAdapter,
    run: ModelRun,
    of_outputs: Result<Json, String>,
    r: Result<Json, String>,
)
    requires
        call_ensures(OnnxAdapter::finish, (adapter, run), r),
        run matches ModelRun::Outputs(outputs) ==> call_ensures(
            OnnxAdapter::outputs_to_json,
            (adapter, &outputs),
            of_outputs,
        ),
    ensures
        match run {
            ModelRun::Unavailable => r matches Err(message) && message@
                == "ONNX model runtime unavailable"@,
            ModelRun::Failed(reason) => r matches Err(message) && message@
                == "ONNX inference failed: "@ + reason@,
            ModelRun::Outputs(_) => outcome::viewed(r) == outcome::viewed(of_outputs),
        },
{
}

} // verus!
