//! Inference of the public input record from a trace alone.
//!
//! Inference takes at most [`INFERENCE_SAMPLE_CAP`] rows as samples, whatever
//! the number of samples that the trace was built from. It recovers the
//! record of a built trace when that number is the cap; for any other
//! number its result is not to be relied on.

use crate::error::InferenceMismatch;
use crate::field::{values, Felt};
use crate::inputs::{LinearRegressionInputs, PublicInputRecord};
use crate::soundness::{claimed_record, samples_on_line};
use crate::trace::{
    built_trace, is_trace_shape, lemma_next_power_of_two_covers, model_output, row_on_line,
    trace_length_for, ExecutionTrace, INTERCEPT_COLUMN, SLOPE_COLUMN, X_COLUMN, Y_COLUMN,
};
use vstd::prelude::*;

verus! {

/// The number of samples that inference assumes.
pub const INFERENCE_SAMPLE_CAP: usize = 4;

/// The record that inference arrives at when it has scanned the steps
/// before `step` and taken the points `(sample_x[i], sample_y[i])` as
/// samples.
///
/// A row whose input is not yet among the samples and which is a point of
/// the model is the next sample while fewer than the cap are recorded, and
/// the prediction once the cap is reached. Where the scan ends without
/// that, the last row is the prediction.
pub open spec fn infer_from(
    cells: Seq<Seq<int>>,
    step: int,
    sample_x: Seq<int>,
    sample_y: Seq<int>,
) -> PublicInputRecord
    decreases cells[0].len() - step,
{
    let len = cells[0].len() as int;
    if step >= len {
        PublicInputRecord {
            x_value: cells[X_COLUMN as int][len - 1],
            predicted_y: cells[Y_COLUMN as int][len - 1],
            sample_x_values: sample_x,
            sample_y_values: sample_y,
        }
    } else {
        let x = cells[X_COLUMN as int][step];
        let y = cells[Y_COLUMN as int][step];
        if !sample_x.contains(x) && row_on_line(cells, step) {
            if sample_x.len() < INFERENCE_SAMPLE_CAP {
                infer_from(cells, step + 1, sample_x.push(x), sample_y.push(y))
            } else {
                PublicInputRecord {
                    x_value: x,
                    predicted_y: y,
                    sample_x_values: sample_x,
                    sample_y_values: sample_y,
                }
            }
        } else {
            infer_from(cells, step + 1, sample_x, sample_y)
        }
    }
}

/// The record that inference reads off a trace: the first row is a sample,
/// and the scan goes on from the second.
pub open spec fn inferred_inputs(cells: Seq<Seq<int>>) -> PublicInputRecord {
    infer_from(cells, 1, seq![cells[X_COLUMN as int][0]], seq![cells[Y_COLUMN as int][0]])
}

/// Whether `needle` is among `haystack`.
fn contains_value(haystack: &Vec<Felt>, needle: Felt) -> (found: bool)
    ensures
        found == values(haystack@).contains(needle@),
{
    let mut i: usize = 0;
    while i < haystack.len()
        invariant
            i <= haystack@.len(),
            forall|k: int| 0 <= k < i ==> values(haystack@)[k] != needle@,
        decreases haystack@.len() - i,
    {
        if haystack[i].equals(&needle) {
            assert(values(haystack@)[i as int] == needle@);
            return true;
        }
        i = i + 1;
    }
    false
}

/// Reconstructs the public input record from a trace alone.
///
/// The result is the record that the trace was built from if that record
/// has exactly [`INFERENCE_SAMPLE_CAP`] samples, all of them points of the
/// model with inputs that differ from one another. Any other number of
/// samples is unsupported: the result is then another record, unless the
/// samples are fewer than the cap, with inputs that differ from one
/// another, and the query point is the input of one of them.
pub fn infer_public_inputs(trace: &ExecutionTrace) -> (inputs: LinearRegressionInputs)
    ensures
        inputs@ == inferred_inputs(trace@),
        inputs.well_formed(),
{
    let trace_length: usize = trace.length();
    let mut sample_x_values: Vec<Felt> = Vec::new();
    let mut sample_y_values: Vec<Felt> = Vec::new();
    sample_x_values.push(trace.get(X_COLUMN, 0));
    sample_y_values.push(trace.get(Y_COLUMN, 0));
    assert(values(sample_x_values@) =~= seq![trace@[X_COLUMN as int][0]]);
    assert(values(sample_y_values@) =~= seq![trace@[Y_COLUMN as int][0]]);
    let mut step: usize = 1;
    while step < trace_length
        invariant
            1 <= step <= trace_length,
            trace_length == trace@[0].len(),
            is_trace_shape(trace@),
            sample_x_values@.len() == sample_y_values@.len(),
            infer_from(trace@, step as int, values(sample_x_values@), values(sample_y_values@))
                == inferred_inputs(trace@),
        decreases trace_length - step,
    {
        let x: Felt = trace.get(X_COLUMN, step);
        let y: Felt = trace.get(Y_COLUMN, step);
        if !contains_value(&sample_x_values, x) {
            let slope: Felt = trace.get(SLOPE_COLUMN, step);
            let intercept: Felt = trace.get(INTERCEPT_COLUMN, step);
            let expected_y: Felt = slope.mul(x).add(intercept);
            if y.equals(&expected_y) {
                if sample_x_values.len() < INFERENCE_SAMPLE_CAP {
                    let ghost old_x = values(sample_x_values@);
                    let ghost old_y = values(sample_y_values@);
                    sample_x_values.push(x);
                    sample_y_values.push(y);
                    assert(values(sample_x_values@) =~= old_x.push(x@));
                    assert(values(sample_y_values@) =~= old_y.push(y@));
                } else {
                    return LinearRegressionInputs {
                        x_value: x,
                        predicted_y: y,
                        sample_x_values,
                        sample_y_values,
                    };
                }
            }
        }
        step = step + 1;
    }
    let last_step: usize = trace_length - 1;
    let x_value: Felt = trace.get(X_COLUMN, last_step);
    let predicted_y: Felt = trace.get(Y_COLUMN, last_step);
    LinearRegressionInputs { x_value, predicted_y, sample_x_values, sample_y_values }
}

/// Checks inference on `trace` against the record that the trace was built
/// from. Fails if inference arrives at another record: the trace then
/// cannot be proved on its own, since the proof would attest the inferred
/// record.
pub fn check_inferred_inputs(trace: &ExecutionTrace, pub_inputs: &LinearRegressionInputs) -> (result:
    Result<(), InferenceMismatch>)
    ensures
        result is Ok <==> inferred_inputs(trace@) == pub_inputs@,
{
    let inferred: LinearRegressionInputs = infer_public_inputs(trace);
    if inferred.same_record(pub_inputs) {
        Ok(())
    } else {
        Err(InferenceMismatch)
    }
}

/// Inference never records more samples than the cap, never drops one, and
/// never records an input twice.
pub proof fn lemma_inferred_samples_are_capped_and_distinct(
    cells: Seq<Seq<int>>,
    step: int,
    sample_x: Seq<int>,
    sample_y: Seq<int>,
)
    requires
        sample_x.len() == sample_y.len(),
        sample_x.len() <= INFERENCE_SAMPLE_CAP,
        sample_x.no_duplicates(),
    ensures
        sample_x.len() <= infer_from(cells, step, sample_x, sample_y).sample_x_values.len()
            <= INFERENCE_SAMPLE_CAP,
        infer_from(cells, step, sample_x, sample_y).sample_x_values.len() == infer_from(
            cells,
            step,
            sample_x,
            sample_y,
        ).sample_y_values.len(),
        infer_from(cells, step, sample_x, sample_y).sample_x_values.no_duplicates(),
    decreases cells[0].len() - step,
{
    if step < cells[0].len() {
        let x = cells[X_COLUMN as int][step];
        let y = cells[Y_COLUMN as int][step];
        if !sample_x.contains(x) && row_on_line(cells, step) {
            if sample_x.len() < INFERENCE_SAMPLE_CAP {
                assert(sample_x.push(x).no_duplicates());
                lemma_inferred_samples_are_capped_and_distinct(
                    cells,
                    step + 1,
                    sample_x.push(x),
                    sample_y.push(y),
                );
            }
        } else {
            lemma_inferred_samples_are_capped_and_distinct(cells, step + 1, sample_x, sample_y);
        }
    }
}

/// While it scans the sample rows of a built trace whose samples are
/// points of the model with distinct inputs, no more than the cap,
/// inference records each of them.
proof fn lemma_sample_rows_are_recorded(
    slope: int,
    intercept: int,
    sample_x: Seq<int>,
    sample_y: Seq<int>,
    target_x: int,
    step: int,
)
    requires
        samples_on_line(slope, intercept, sample_x, sample_y),
        sample_x.no_duplicates(),
        1 <= step <= sample_x.len() <= INFERENCE_SAMPLE_CAP,
    ensures
        infer_from(
            built_trace(slope, intercept, sample_x, sample_y, target_x),
            step,
            sample_x.take(step),
            sample_y.take(step),
        ) == infer_from(
            built_trace(slope, intercept, sample_x, sample_y, target_x),
            sample_x.len() as int,
            sample_x,
            sample_y,
        ),
    decreases sample_x.len() - step,
{
    let cells = built_trace(slope, intercept, sample_x, sample_y, target_x);
    lemma_next_power_of_two_covers((sample_x.len() + 1) as nat);
    if step < sample_x.len() {
        assert(sample_x.take(step).push(sample_x[step]) =~= sample_x.take(step + 1));
        assert(sample_y.take(step).push(sample_y[step]) =~= sample_y.take(step + 1));
        lemma_sample_rows_are_recorded(slope, intercept, sample_x, sample_y, target_x, step + 1);
    } else {
        assert(sample_x.take(step) =~= sample_x);
        assert(sample_y.take(step) =~= sample_y);
    }
}

/// Past the samples of a built trace, once the query point is among the
/// recorded inputs, inference runs to the end of the trace and takes the
/// last row as the prediction.
proof fn lemma_recorded_query_point_runs_to_end(
    slope: int,
    intercept: int,
    sample_x: Seq<int>,
    sample_y: Seq<int>,
    target_x: int,
    step: int,
    recorded_x: Seq<int>,
    recorded_y: Seq<int>,
)
    requires
        sample_x.len() <= step <= trace_length_for(sample_x.len()),
        recorded_x.contains(target_x),
    ensures
        infer_from(
            built_trace(slope, intercept, sample_x, sample_y, target_x),
            step,
            recorded_x,
            recorded_y,
        ) == (PublicInputRecord {
            x_value: target_x,
            predicted_y: model_output(slope, intercept, target_x),
            sample_x_values: recorded_x,
            sample_y_values: recorded_y,
        }),
    decreases trace_length_for(sample_x.len()) - step,
{
    let cells = built_trace(slope, intercept, sample_x, sample_y, target_x);
    lemma_next_power_of_two_covers((sample_x.len() + 1) as nat);
    if step < trace_length_for(sample_x.len()) {
        lemma_recorded_query_point_runs_to_end(
            slope,
            intercept,
            sample_x,
            sample_y,
            target_x,
            step + 1,
            recorded_x,
            recorded_y,
        );
    }
}

/// What inference makes of a built trace from the prediction row on: the
/// prediction is the query point with the model's output. The query point
/// is first recorded as one more sample if it is not among the recorded
/// inputs and these are fewer than the cap.
proof fn lemma_prediction_row(
    slope: int,
    intercept: int,
    sample_x: Seq<int>,
    sample_y: Seq<int>,
    target_x: int,
    recorded_x: Seq<int>,
    recorded_y: Seq<int>,
)
    ensures
        infer_from(
            built_trace(slope, intercept, sample_x, sample_y, target_x),
            sample_x.len() as int,
            recorded_x,
            recorded_y,
        ) == if recorded_x.contains(target_x) || recorded_x.len() >= INFERENCE_SAMPLE_CAP {
            PublicInputRecord {
                x_value: target_x,
                predicted_y: model_output(slope, intercept, target_x),
                sample_x_values: recorded_x,
                sample_y_values: recorded_y,
            }
        } else {
            PublicInputRecord {
                x_value: target_x,
                predicted_y: model_output(slope, intercept, target_x),
                sample_x_values: recorded_x.push(target_x),
                sample_y_values: recorded_y.push(model_output(slope, intercept, target_x)),
            }
        },
{
    let cells = built_trace(slope, intercept, sample_x, sample_y, target_x);
    let n = sample_x.len() as int;
    lemma_next_power_of_two_covers((n + 1) as nat);
    if recorded_x.contains(target_x) {
        lemma_recorded_query_point_runs_to_end(
            slope,
            intercept,
            sample_x,
            sample_y,
            target_x,
            n,
            recorded_x,
            recorded_y,
        );
    } else if recorded_x.len() < INFERENCE_SAMPLE_CAP {
        let pushed = recorded_x.push(target_x);
        assert(pushed[recorded_x.len() as int] == target_x);
        lemma_recorded_query_point_runs_to_end(
            slope,
            intercept,
            sample_x,
            sample_y,
            target_x,
            n + 1,
            pushed,
            recorded_y.push(model_output(slope, intercept, target_x)),
        );
    }
}

/// The boundary of inference, exactly: from a trace built from samples
/// that are points of the model, inference recovers the record that goes
/// with the trace if and only if the inputs of the samples differ from one
/// another and either the samples are as many as the cap, or they are
/// fewer and the query point is the input of one of them.
pub proof fn lemma_inference_recovers_exactly_when(
    slope: int,
    intercept: int,
    sample_x: Seq<int>,
    sample_y: Seq<int>,
    target_x: int,
)
    requires
        samples_on_line(slope, intercept, sample_x, sample_y),
    ensures
        inferred_inputs(built_trace(slope, intercept, sample_x, sample_y, target_x))
            == claimed_record(slope, intercept, sample_x, sample_y, target_x) <==> {
            &&& sample_x.no_duplicates()
            &&& sample_x.len() == INFERENCE_SAMPLE_CAP || (sample_x.len() < INFERENCE_SAMPLE_CAP
                && sample_x.contains(target_x))
        },
{
    let cells = built_trace(slope, intercept, sample_x, sample_y, target_x);
    let first_x = seq![cells[X_COLUMN as int][0]];
    let first_y = seq![cells[Y_COLUMN as int][0]];
    lemma_next_power_of_two_covers((sample_x.len() + 1) as nat);
    lemma_inferred_samples_are_capped_and_distinct(cells, 1, first_x, first_y);
    if 1 <= sample_x.len() <= INFERENCE_SAMPLE_CAP && sample_x.no_duplicates() {
        assert(first_x =~= sample_x.take(1));
        assert(first_y =~= sample_y.take(1));
        lemma_sample_rows_are_recorded(slope, intercept, sample_x, sample_y, target_x, 1);
        lemma_prediction_row(slope, intercept, sample_x, sample_y, target_x, sample_x, sample_y);
    }
}

/// Inference at the cap: from a trace built from exactly
/// [`INFERENCE_SAMPLE_CAP`] samples, all points of the model with inputs
/// that differ from one another, inference recovers the record that goes
/// with the trace.
pub proof fn lemma_inference_recovers_record_at_cap(
    slope: int,
    intercept: int,
    sample_x: Seq<int>,
    sample_y: Seq<int>,
    target_x: int,
)
    requires
        samples_on_line(slope, intercept, sample_x, sample_y),
        sample_x.len() == INFERENCE_SAMPLE_CAP,
        sample_x.no_duplicates(),
    ensures
        inferred_inputs(built_trace(slope, intercept, sample_x, sample_y, target_x))
            == claimed_record(slope, intercept, sample_x, sample_y, target_x),
{
    lemma_inference_recovers_exactly_when(slope, intercept, sample_x, sample_y, target_x);
}

/// Inference off the cap: from a trace built from any other number of
/// samples, all points of the model, inference arrives at a record that is
/// not the one that goes with the trace. The one exception, which the
/// precondition leaves out, is a trace of fewer samples than the cap, with
/// inputs that differ from one another, whose query point is the input of
/// one of them.
pub proof fn lemma_inference_misses_record_off_cap(
    slope: int,
    intercept: int,
    sample_x: Seq<int>,
    sample_y: Seq<int>,
    target_x: int,
)
    requires
        samples_on_line(slope, intercept, sample_x, sample_y),
        sample_x.len() != INFERENCE_SAMPLE_CAP,
        !(sample_x.len() < INFERENCE_SAMPLE_CAP && sample_x.no_duplicates() && sample_x.contains(
            target_x,
        )),
    ensures
        inferred_inputs(built_trace(slope, intercept, sample_x, sample_y, target_x))
            != claimed_record(slope, intercept, sample_x, sample_y, target_x),
{
    lemma_inference_recovers_exactly_when(slope, intercept, sample_x, sample_y, target_x);
}

} // verus!
