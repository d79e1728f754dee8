//! Outcomes that are either a value or the text of an error.

use vstd::prelude::*;

verus! {

/// What an outcome stands for.
pub open spec fn viewed<T: View>(r: Result<T, String>) -> Result<T::V, Seq<char>> {
    match r {
        Ok(value) => Ok(value@),
        Err(message) => Err(message@),
    }
}

/// What an outcome stands for, down to the items of its value.
pub open spec fn deep_viewed<T: DeepView>(r: Result<T, String>) -> Result<T::V, Seq<char>> {
    match r {
        Ok(value) => Ok(value.deep_view()),
        Err(message) => Err(message@),
    }
}

/// The values of all outcomes, or the first error among them.
pub open spec fn collect<T>(outcomes: Seq<Result<T, Seq<char>>>) -> Result<Seq<T>, Seq<char>>
    decreases outcomes.len(),
{
    if outcomes.len() == 0 {
        Ok(Seq::empty())
    } else {
        match (collect(outcomes.drop_last()), outcomes.last()) {
            (Err(message), _) => Err(message),
            (Ok(_), Err(message)) => Err(message),
            (Ok(values), Ok(value)) => Ok(values.push(value)),
        }
    }
}

/// Collecting one outcome more.
pub proof fn lemma_collect_step<T>(outcomes: Seq<Result<T, Seq<char>>>, i: int)
    requires
        0 <= i < outcomes.len(),
    ensures
        collect(outcomes.take(i + 1)) == match (collect(outcomes.take(i)), outcomes[i]) {
            (Err(message), _) => Err(message),
            (Ok(_), Err(message)) => Err(message),
            (Ok(values), Ok(value)) => Ok(values.push(value)),
        },
{
    assert(outcomes.take(i + 1).drop_last() =~= outcomes.take(i));
    assert(outcomes.take(i + 1).last() == outcomes[i]);
}

/// An error among the first outcomes is the error of all.
pub proof fn lemma_collect_error<T>(
    outcomes: Seq<Result<T, Seq<char>>>,
    i: int,
    message: Seq<char>,
)
    requires
        0 <= i <= outcomes.len(),
        collect(outcomes.take(i)) == Err::<Seq<T>, Seq<char>>(message),
    ensures
        collect(outcomes) == Err::<Seq<T>, Seq<char>>(message),
    decreases outcomes.len() - i,
{
    if i < outcomes.len() {
        lemma_collect_step(outcomes, i);
        lemma_collect_error(outcomes, i + 1, message);
    } else {
        assert(outcomes.take(i) =~= outcomes);
    }
}

/// Outcomes that are all values collect to these values.
pub proof fn lemma_collect_values<T>(outcomes: Seq<Result<T, Seq<char>>>, values: Seq<T>)
    requires
        values.len() == outcomes.len(),
        forall|i: int|
            0 <= i < outcomes.len() ==> #[trigger] outcomes[i] == Ok::<T, Seq<char>>(values[i]),
    ensures
        collect(outcomes) == Ok::<Seq<T>, Seq<char>>(values),
    decreases outcomes.len(),
{
    if outcomes.len() > 0 {
        lemma_collect_values(outcomes.drop_last(), values.drop_last());
        assert(values =~= values.drop_last().push(values.last()));
    } else {
        assert(values =~= Seq::empty());
    }
}

/// What is collected has one value for each outcome, and it is the value of that
/// outcome.
pub proof fn lemma_collected<T>(outcomes: Seq<Result<T, Seq<char>>>)
    ensures
        collect(outcomes) matches Ok(values) ==> {
            &&& values.len() == outcomes.len()
            &&& forall|i: int|
                0 <= i < outcomes.len() ==> #[trigger] outcomes[i] == Ok::<T, Seq<char>>(values[i])
        },
    decreases outcomes.len(),
{
    if outcomes.len() > 0 {
        lemma_collected(outcomes.drop_last());
        if let Ok(values) = collect(outcomes) {
            assert forall|i: int| 0 <= i < outcomes.len() implies #[trigger] outcomes[i] == Ok::<
                T,
                Seq<char>,
            >(values[i]) by {
                if i < outcomes.len() - 1 {
                    assert(outcomes[i] == outcomes.drop_last()[i]);
                }
            }
        }
    }
}

/// Outcomes can be collected if and only if all are values.
pub proof fn lemma_collect_is_ok<T>(outcomes: Seq<Result<T, Seq<char>>>)
    ensures
        collect(outcomes) is Ok <==> forall|i: int|
            0 <= i < outcomes.len() ==> #[trigger] outcomes[i] is Ok,
{
    lemma_collected(outcomes);
    if collect(outcomes) is Ok {
        assert forall|i: int| 0 <= i < outcomes.len() implies #[trigger] outcomes[i] is Ok by {
            assert(outcomes[i] == Ok::<T, Seq<char>>(collect(outcomes)->Ok_0[i]));
        }
    }
    if forall|i: int| 0 <= i < outcomes.len() ==> #[trigger] outcomes[i] is Ok {
        let values = outcomes.map_values(|outcome: Result<T, Seq<char>>| outcome->Ok_0);
        lemma_collect_values(outcomes, values);
    }
}

} // verus!
