//! Batch sizes.

use crate::adapter;
use crate::config::AppConfig;
use crate::input::parsed;
use crate::input::records::{RecordView, TextMapView};
use crate::json::JsonView;
use crate::outcome;
use crate::state;
use crate::string_map;
use vstd::prelude::*;

verus! {

/// The value is an array of the length.
pub open spec fn has_length(value: JsonView, count: nat) -> bool {
    value matches JsonView::Array(items) && items.len() == count
}

/// Fields whose values are all arrays of the length stay so where they are merged,
/// and none are lost altogether.
proof fn lemma_merged(fields: RecordView, count: nat)
    requires
        forall|i: int| 0 <= i < fields.len() ==> has_length((#[trigger] fields[i]).1, count),
    ensures
        forall|i: int|
            0 <= i < adapter::merged(fields).len() ==> has_length(
                (#[trigger] adapter::merged(fields)[i]).1,
                count,
            ),
        adapter::merged(fields).len() > 0 <==> fields.len() > 0,
    decreases fields.len(),
{
    if fields.len() > 0 {
        let rest = fields.drop_last();
        assert forall|i: int| 0 <= i < rest.len() implies has_length(
            (#[trigger] rest[i]).1,
            count,
        ) by {
            assert(rest[i] == fields[i]);
        }
        lemma_merged(rest, count);
        let done = adapter::merged(rest);
        let (key, value) = fields.last();
        assert(has_length(fields[fields.len() - 1].1, count));
        let at = string_map::lemma_first_index(done, key);
        string_map::lemma_put(done, key, value, at);
        assert forall|i: int| 0 <= i < adapter::merged(fields).len() implies has_length(
            (#[trigger] adapter::merged(fields)[i]).1,
            count,
        ) by {
            if i != at {
                assert(adapter::merged(fields)[i] == done[i]);
            }
        }
    }
}

/// The sizes of inputs make up a batch if and only if there are some, none of them
/// is zero, and all are the same.
pub proof fn law_batch_sizes_agree(sizes: Seq<usize>)
    ensures
        parsed::batch_sizes_verdict(sizes) is Ok <==> {
            &&& sizes.len() > 0
            &&& forall|i: int| 0 <= i < sizes.len() ==> #[trigger] sizes[i] != 0
            &&& forall|i: int, j: int|
                0 <= i < sizes.len() && 0 <= j < sizes.len() ==> #[trigger] sizes[i]
                    == #[trigger] sizes[j]
        },
{
    if parsed::batch_sizes_verdict(sizes) is Ok {
        assert forall|i: int| 0 <= i < sizes.len() implies #[trigger] sizes[i] != 0 by {
            assert(sizes.contains(sizes[i]));
        }
    }
}

/// Every tensor that is built from records has one row for each record, and with
/// any mapped input there is some tensor.
pub proof fn law_tensors_have_a_row_for_each_record(
    fields: Seq<RecordView>,
    input_map: TextMapView,
    dynamic_batch: bool,
)
    ensures
        adapter::onnx_tensors(fields, input_map, dynamic_batch) matches Ok(tensors) ==> {
            &&& forall|i: int|
                0 <= i < tensors.len() ==> has_length((#[trigger] tensors[i]).1, fields.len())
            &&& input_map.len() > 0 <==> tensors.len() > 0
        },
{
    let outcomes = input_map.map_values(
        |input: (Seq<char>, Seq<char>)| adapter::named_tensor(fields, input),
    );
    outcome::lemma_collected(outcomes);
    if let Ok(tensors) = outcome::collect(outcomes) {
        assert forall|i: int| 0 <= i < tensors.len() implies has_length(
            (#[trigger] tensors[i]).1,
            fields.len(),
        ) by {
            assert(outcomes[i] == adapter::named_tensor(fields, input_map[i]));
            assert(outcomes[i] == Ok::<(Seq<char>, JsonView), Seq<char>>(tensors[i]));
        }
        lemma_merged(tensors, fields.len());
    }
}

/// The model input of records has as many records as there are, and there is at
/// least one.
pub proof fn law_batch_of_records(
    cfg: AppConfig,
    fields: Seq<RecordView>,
    input_map: TextMapView,
)
    requires
        input_map.len() > 0,
        fields.len() <= usize::MAX,
    ensures
        state::records_input(cfg, fields, input_map) matches Ok(input) ==> parsed::batch(input)
            == Ok::<usize, Seq<char>>(fields.len() as usize) && fields.len() > 0,
{
    law_tensors_have_a_row_for_each_record(fields, input_map, cfg.onnx_dynamic_batch);
    if let Ok(input) = state::records_input(cfg, fields, input_map) {
        let tensors = input.tensors->0;
        let sizes = tensors.map_values(
            |entry: (Seq<char>, JsonView)| parsed::tensor_size(entry.1),
        );
        assert forall|i: int| 0 <= i < sizes.len() implies #[trigger] sizes[i] == fields.len() by {
            assert(has_length(tensors[i].1, fields.len()));
        }
        assert(!sizes.contains(0));
        assert(sizes[0] == fields.len());
    }
}

/// The model input of a matrix has as many records as the matrix has rows, and there
/// is at least one.
pub proof fn law_batch_of_matrix(cfg: AppConfig, matrix: Seq<Seq<Seq<char>>>)
    requires
        matrix.len() <= usize::MAX,
    ensures
        state::matrix_input(cfg, matrix) matches Ok(input) ==> parsed::batch(input) == Ok::<
            usize,
            Seq<char>,
        >(matrix.len() as usize) && matrix.len() > 0,
{
}

/// Every record has the field.
pub open spec fn all_have(fields: Seq<RecordView>, key: Seq<char>) -> bool {
    forall|i: int| 0 <= i < fields.len() ==> string_map::lookup(#[trigger] fields[i], key) is Some
}

/// Where some record lacks a mapped field, no tensors are built, and the first such
/// field is named in the error.
pub proof fn law_missing_fields_are_named(
    fields: Seq<RecordView>,
    input_map: TextMapView,
    dynamic_batch: bool,
    k: int,
)
    requires
        0 <= k < input_map.len(),
        !all_have(fields, input_map[k].0),
        forall|i: int| 0 <= i < k ==> all_have(fields, (#[trigger] input_map[i]).0),
    ensures
        adapter::onnx_tensors(fields, input_map, dynamic_batch) == Err::<RecordView, Seq<char>>(
            adapter::missing_key_error(input_map[k].0),
        ),
{
    let outcomes = input_map.map_values(
        |input: (Seq<char>, Seq<char>)| adapter::named_tensor(fields, input),
    );
    let found = Seq::new(k as nat, |i: int| outcomes[i]->Ok_0);
    assert forall|i: int| 0 <= i < k implies #[trigger] outcomes.take(k)[i] == Ok::<
        (Seq<char>, JsonView),
        Seq<char>,
    >(found[i]) by {
        assert(all_have(fields, input_map[i].0));
        assert(outcomes[i] == adapter::named_tensor(fields, input_map[i]));
    }
    outcome::lemma_collect_values(outcomes.take(k), found);
    outcome::lemma_collect_step(outcomes, k);
    assert(outcomes[k] == adapter::named_tensor(fields, input_map[k]));
    outcome::lemma_collect_error(outcomes, k + 1, adapter::missing_key_error(input_map[k].0));
}

} // verus!
