//! The check that a finished table declares no edge twice.

use vstd::prelude::*;
use crate::errors::StateMachineError;
use crate::transition::{labels_comparable, table_of, Transition, TransitionView};

verus! {

/// Whether some edge is declared twice in `table`.
pub open spec fn has_duplicate<Event: PartialEq, State: PartialEq, Store>(
    table: Seq<TransitionView<Event, State, Store>>,
) -> bool {
    exists|i: int, j: int| 0 <= i < j < table.len() && #[trigger] table[i].same_edge(table[j])
}

/// The number of records behind record `of`, and before index `upto`, that
/// declare the same edge as record `of`.
pub open spec fn repeats_behind<Event: PartialEq, State: PartialEq, Store>(
    table: Seq<TransitionView<Event, State, Store>>,
    of: int,
    upto: int,
) -> nat
    decreases upto - of,
{
    if upto <= of + 1 {
        0
    } else if table[of].same_edge(table[upto - 1]) {
        repeats_behind(table, of, upto - 1) + 1
    } else {
        repeats_behind(table, of, upto - 1)
    }
}

/// The number of pairs of records that declare the same edge, counting the
/// pairs whose first record stands before index `rows`.
pub open spec fn duplicate_pairs<Event: PartialEq, State: PartialEq, Store>(
    table: Seq<TransitionView<Event, State, Store>>,
    rows: int,
) -> nat
    decreases rows,
{
    if rows <= 0 {
        0
    } else {
        duplicate_pairs(table, rows - 1) + repeats_behind(table, rows - 1, table.len() as int)
    }
}

/// The report on a table with `count` duplicated pairs: one
/// `DuplicateTransition` for each.
pub open spec fn duplicate_report(count: nat) -> Seq<StateMachineError> {
    Seq::new(count, |k: int| StateMachineError::DuplicateTransition)
}

/// A record has no repeat behind it exactly when none of the records behind
/// it declares its edge.
pub proof fn lemma_repeats_behind_zero<Event: PartialEq, State: PartialEq, Store>(
    table: Seq<TransitionView<Event, State, Store>>,
    of: int,
    upto: int,
)
    ensures
        repeats_behind(table, of, upto) == 0 <==> forall|j: int|
            of < j < upto ==> !table[of].same_edge(#[trigger] table[j]),
    decreases upto - of,
{
    if upto > of + 1 {
        lemma_repeats_behind_zero(table, of, upto - 1);
        if repeats_behind(table, of, upto) == 0 {
            assert forall|j: int| of < j < upto implies !table[of].same_edge(
                #[trigger] table[j],
            ) by {
                if j == upto - 1 {
                } else {
                    assert(of < j < upto - 1);
                }
            }
        } else {
            if table[of].same_edge(table[upto - 1]) {
                assert(of < upto - 1 < upto);
            }
        }
    }
}

/// The first `rows` records have no duplicated pair exactly when none of them
/// has its edge declared again behind it.
pub proof fn lemma_duplicate_pairs_zero<Event: PartialEq, State: PartialEq, Store>(
    table: Seq<TransitionView<Event, State, Store>>,
    rows: int,
)
    requires
        rows <= table.len(),
    ensures
        duplicate_pairs(table, rows) == 0 <==> forall|i: int, j: int|
            0 <= i < rows && i < j < table.len() ==> !(#[trigger] table[i]).same_edge(
                #[trigger] table[j],
            ),
    decreases rows,
{
    if rows > 0 {
        lemma_duplicate_pairs_zero(table, rows - 1);
        lemma_repeats_behind_zero(table, rows - 1, table.len() as int);
        if duplicate_pairs(table, rows) == 0 {
            assert forall|i: int, j: int| 0 <= i < rows && i < j < table.len() implies !(
            #[trigger] table[i]).same_edge(#[trigger] table[j]) by {
                if i < rows - 1 {
                } else {
                    assert(rows - 1 < j < table.len());
                }
            }
        }
    }
}

/// A table has a duplicated pair exactly when some edge is declared twice.
pub proof fn lemma_duplicate_pairs_positive<Event: PartialEq, State: PartialEq, Store>(
    table: Seq<TransitionView<Event, State, Store>>,
)
    ensures
        duplicate_pairs(table, table.len() as int) > 0 <==> has_duplicate(table),
{
    lemma_duplicate_pairs_zero(table, table.len() as int);
}

/// Compares every two records of `table` and reports each pair that declares
/// the same edge. The table is read, never changed, and the scan does not
/// stop at the first fault.
pub(crate) fn validate<Event: PartialEq, State: Copy + PartialEq, Store>(
    table: &Vec<Transition<Event, State, Store>>,
) -> (errors: Vec<StateMachineError>)
    ensures
        errors@ == duplicate_report(errors@.len()),
        labels_comparable::<Event, State>() ==> errors@.len() == duplicate_pairs(
            table_of(table@),
            table@.len() as int,
        ),
{
    let ghost model = table_of(table@);
    let mut errors: Vec<StateMachineError> = Vec::new();
    let mut first: usize = 0;
    while first < table.len()
        invariant
            first <= table.len(),
            model == table_of(table@),
            errors@ =~= duplicate_report(errors@.len()),
            labels_comparable::<Event, State>() ==> errors@.len() == duplicate_pairs(
                model,
                first as int,
            ),
        decreases table.len() - first,
    {
        let mut second: usize = first + 1;
        while second < table.len()
            invariant
                first < table.len(),
                first < second <= table.len(),
                model == table_of(table@),
                errors@ =~= duplicate_report(errors@.len()),
                labels_comparable::<Event, State>() ==> errors@.len() == duplicate_pairs(
                    model,
                    first as int,
                ) + repeats_behind(model, first as int, second as int),
            decreases table.len() - second,
        {
            if table[first].same_edge(&table[second]) {
                errors.push(StateMachineError::DuplicateTransition);
            }
            second += 1;
        }
        first += 1;
    }
    errors
}

} // verus!
