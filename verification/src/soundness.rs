//! What holds of every trace that construction yields.

use crate::air::{
    assertion_holds, assertions_hold, boundary_assertions, linear_residual, trace_row,
    transition_evaluations, transition_holds_at, transitions_hold,
};
use crate::field::{field_mul, field_sub, MODULUS};
use crate::inputs::PublicInputRecord;
use crate::trace::{
    built_trace, follows_one_model, lemma_next_power_of_two_covers, model_output, row_on_line,
    trace_length_for, INTERCEPT_COLUMN, SLOPE_COLUMN, X_COLUMN, Y_COLUMN,
};
use vstd::arithmetic::div_mod::{lemma_sub_mod_noop, lemma_sub_mod_noop_right};
use vstd::prelude::*;

verus! {

/// Whether every sample is a point of the model, the samples being as many
/// outputs as inputs.
pub open spec fn samples_on_line(
    slope: int,
    intercept: int,
    sample_x: Seq<int>,
    sample_y: Seq<int>,
) -> bool {
    &&& sample_x.len() == sample_y.len()
    &&& forall|i: int|
        0 <= i < sample_x.len() ==> #[trigger] sample_y[i] == model_output(
            slope,
            intercept,
            sample_x[i],
        )
}

/// The record that goes with a trace built from the given data: the query
/// point, the model's output there, and the samples.
pub open spec fn claimed_record(
    slope: int,
    intercept: int,
    sample_x: Seq<int>,
    sample_y: Seq<int>,
    target_x: int,
) -> PublicInputRecord {
    PublicInputRecord {
        x_value: target_x,
        predicted_y: model_output(slope, intercept, target_x),
        sample_x_values: sample_x,
        sample_y_values: sample_y,
    }
}

/// A row whose output is the model's output at its input has a linear
/// residual of zero.
pub proof fn lemma_point_on_line_has_no_residual(row: Seq<int>)
    requires
        row[Y_COLUMN as int] == model_output(
            row[SLOPE_COLUMN as int],
            row[INTERCEPT_COLUMN as int],
            row[X_COLUMN as int],
        ),
    ensures
        linear_residual(row) == 0,
{
    let m = MODULUS as int;
    let product = field_mul(row[SLOPE_COLUMN as int], row[X_COLUMN as int]);
    let intercept = row[INTERCEPT_COLUMN as int];
    let y = row[Y_COLUMN as int];
    lemma_sub_mod_noop_right(y - product, intercept, m);
    lemma_sub_mod_noop(y - product, intercept, m);
    lemma_sub_mod_noop_right(product + intercept, product + intercept, m);
    lemma_sub_mod_noop(product + intercept, product + intercept, m);
}

/// Padding consistency: from the step after the samples on, every row of a
/// built trace holds the query point and the model's output there.
pub proof fn lemma_padding_repeats_prediction(
    slope: int,
    intercept: int,
    sample_x: Seq<int>,
    sample_y: Seq<int>,
    target_x: int,
    step: int,
)
    requires
        sample_x.len() <= step < trace_length_for(sample_x.len()),
    ensures
        built_trace(slope, intercept, sample_x, sample_y, target_x)[X_COLUMN as int][step]
            == target_x,
        built_trace(slope, intercept, sample_x, sample_y, target_x)[Y_COLUMN as int][step]
            == model_output(slope, intercept, target_x),
{
}

/// Where every sample is a point of the model, the built trace is the
/// trace of that model at every step: each row is a point of the model,
/// the padding rows as much as the others, and the slope and the intercept
/// never change.
pub proof fn lemma_built_trace_follows_model(
    slope: int,
    intercept: int,
    sample_x: Seq<int>,
    sample_y: Seq<int>,
    target_x: int,
)
    requires
        samples_on_line(slope, intercept, sample_x, sample_y),
    ensures
        follows_one_model(built_trace(slope, intercept, sample_x, sample_y, target_x)),
        forall|step: int|
            0 <= step < trace_length_for(sample_x.len()) ==> {
                &&& (#[trigger] built_trace(
                    slope,
                    intercept,
                    sample_x,
                    sample_y,
                    target_x,
                )[SLOPE_COLUMN as int][step]) == slope
                &&& built_trace(
                    slope,
                    intercept,
                    sample_x,
                    sample_y,
                    target_x,
                )[INTERCEPT_COLUMN as int][step] == intercept
            },
{
    let cells = built_trace(slope, intercept, sample_x, sample_y, target_x);
    lemma_next_power_of_two_covers((sample_x.len() + 1) as nat);
    assert forall|step: int| 0 <= step < cells[0].len() implies #[trigger] row_on_line(
        cells,
        step,
    ) by {
        if step < sample_x.len() {
            assert(sample_y[step] == model_output(slope, intercept, sample_x[step]));
        }
    }
}

/// A trace of one model satisfies every transition constraint at every
/// adjacent pair of steps.
pub proof fn lemma_model_trace_satisfies_transitions(cells: Seq<Seq<int>>)
    requires
        follows_one_model(cells),
        cells.len() > Y_COLUMN,
    ensures
        transitions_hold(cells),
{
    assert forall|step: int| 0 <= step < cells[0].len() - 1 implies #[trigger] transition_holds_at(
        cells,
        step,
    ) by {
        assert(row_on_line(cells, step));
        assert(row_on_line(cells, step + 1));
        lemma_point_on_line_has_no_residual(trace_row(cells, step));
    }
}

/// Trace soundness: where every sample is a point of the model, the built
/// trace satisfies every transition constraint at every adjacent pair of
/// steps, and every boundary assertion of the record that goes with it.
pub proof fn lemma_built_trace_is_sound(
    slope: int,
    intercept: int,
    sample_x: Seq<int>,
    sample_y: Seq<int>,
    target_x: int,
)
    requires
        samples_on_line(slope, intercept, sample_x, sample_y),
    ensures
        transitions_hold(built_trace(slope, intercept, sample_x, sample_y, target_x)),
        assertions_hold(
            built_trace(slope, intercept, sample_x, sample_y, target_x),
            claimed_record(slope, intercept, sample_x, sample_y, target_x),
        ),
{
    let cells = built_trace(slope, intercept, sample_x, sample_y, target_x);
    let record = claimed_record(slope, intercept, sample_x, sample_y, target_x);
    let n = sample_x.len() as int;
    lemma_next_power_of_two_covers((n + 1) as nat);
    lemma_built_trace_follows_model(slope, intercept, sample_x, sample_y, target_x);
    lemma_model_trace_satisfies_transitions(cells);
    assert forall|k: int| 0 <= k < boundary_assertions(record).len() implies assertion_holds(
        cells,
        #[trigger] boundary_assertions(record)[k],
    ) by {
        assert(0 <= boundary_assertions(record)[k].step <= n);
    }
}

/// A changed sample output is caught at the boundary: the trace built from
/// the samples does not meet the boundary assertions of a record in which
/// the output of one sample is another.
pub proof fn lemma_changed_sample_breaks_assertion(
    slope: int,
    intercept: int,
    sample_x: Seq<int>,
    sample_y: Seq<int>,
    target_x: int,
    index: int,
    changed_y: int,
)
    requires
        sample_x.len() == sample_y.len(),
        0 <= index < sample_y.len(),
        changed_y != sample_y[index],
    ensures
        !assertions_hold(
            built_trace(slope, intercept, sample_x, sample_y, target_x),
            claimed_record(
                slope,
                intercept,
                sample_x,
                sample_y.update(index, changed_y),
                target_x,
            ),
        ),
{
    let cells = built_trace(slope, intercept, sample_x, sample_y, target_x);
    let record = claimed_record(
        slope,
        intercept,
        sample_x,
        sample_y.update(index, changed_y),
        target_x,
    );
    lemma_next_power_of_two_covers((sample_x.len() + 1) as nat);
    assert(!assertion_holds(cells, boundary_assertions(record)[2 * index + 1]));
}

} // verus!
