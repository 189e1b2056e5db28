//! Execution traces: the private computation unrolled over discrete steps.
//!
//! A trace is a column-major table with the four columns slope, intercept,
//! x and y. Its length is a power of two of at least eight steps. The first
//! steps hold the samples, the next one the prediction, and the remaining
//! ones repeat the prediction.

use crate::error::ConfigurationError;
use crate::field::{field_add, field_mul, values, Felt};
use vstd::arithmetic::power2::{
    lemma2_to64, lemma_pow2_pos, lemma_pow2_strictly_increases, lemma_pow2_unfold, pow2,
};
use vstd::prelude::*;

verus! {

/// Number of columns of a trace.
pub const TRACE_WIDTH: usize = 4;

/// Smallest length of a trace.
pub const MIN_TRACE_LENGTH: usize = 8;

/// Column of the secret slope.
pub const SLOPE_COLUMN: usize = 0;

/// Column of the secret intercept.
pub const INTERCEPT_COLUMN: usize = 1;

/// Column of the inputs.
pub const X_COLUMN: usize = 2;

/// Column of the outputs.
pub const Y_COLUMN: usize = 3;

/// Whether `n` is a power of two.
pub open spec fn is_power_of_two(n: int) -> bool {
    exists|e: nat| n == pow2(e)
}

/// The least power of two that is at least `n`.
pub open spec fn next_power_of_two(n: nat) -> nat
    decreases n,
{
    if n <= 1 {
        1
    } else {
        2 * next_power_of_two((n + 1) / 2)
    }
}

/// The length of the trace for `num_samples` samples: room for the samples
/// and the prediction, rounded up to a power of two, and at least eight.
pub open spec fn trace_length_for(num_samples: nat) -> nat {
    let needed = next_power_of_two(num_samples + 1);
    if needed < 8 {
        8
    } else {
        needed
    }
}

/// Whether `cells` has the shape of a trace: four columns of one length,
/// which is a power of two of at least eight.
pub open spec fn is_trace_shape(cells: Seq<Seq<int>>) -> bool {
    &&& cells.len() == TRACE_WIDTH
    &&& forall|c: int| 0 <= c < cells.len() ==> (#[trigger] cells[c]).len() == cells[0].len()
    &&& cells[0].len() >= MIN_TRACE_LENGTH
    &&& is_power_of_two(cells[0].len() as int)
}

/// The canonical integers of the cells of `columns`.
pub open spec fn column_values(columns: Seq<Vec<Felt>>) -> Seq<Seq<int>> {
    Seq::new(columns.len(), |c: int| values(columns[c]@))
}

/// The model's output at `x`: `slope * x + intercept`.
pub open spec fn model_output(slope: int, intercept: int, x: int) -> int {
    field_add(field_mul(slope, x), intercept)
}

/// Whether the row of `cells` at `step` is a point of the model that the
/// row itself names.
pub open spec fn row_on_line(cells: Seq<Seq<int>>, step: int) -> bool {
    cells[Y_COLUMN as int][step] == model_output(
        cells[SLOPE_COLUMN as int][step],
        cells[INTERCEPT_COLUMN as int][step],
        cells[X_COLUMN as int][step],
    )
}

/// Whether `cells` is the trace of one model: at every step the row is a
/// point of the model it names, and the slope and the intercept are those
/// of the first step.
pub open spec fn follows_one_model(cells: Seq<Seq<int>>) -> bool {
    forall|step: int|
        0 <= step < cells[0].len() ==> {
            &&& #[trigger] row_on_line(cells, step)
            &&& cells[SLOPE_COLUMN as int][step] == cells[SLOPE_COLUMN as int][0]
            &&& cells[INTERCEPT_COLUMN as int][step] == cells[INTERCEPT_COLUMN as int][0]
        }
}

/// The cell that trace construction puts in `column` at `step`.
pub open spec fn built_cell(
    slope: int,
    intercept: int,
    sample_x: Seq<int>,
    sample_y: Seq<int>,
    target_x: int,
    column: int,
    step: int,
) -> int {
    if column == SLOPE_COLUMN {
        slope
    } else if column == INTERCEPT_COLUMN {
        intercept
    } else if column == X_COLUMN {
        if step < sample_x.len() {
            sample_x[step]
        } else {
            target_x
        }
    } else {
        if step < sample_x.len() {
            sample_y[step]
        } else {
            model_output(slope, intercept, target_x)
        }
    }
}

/// The trace that construction yields, as columns of canonical integers.
pub open spec fn built_trace(
    slope: int,
    intercept: int,
    sample_x: Seq<int>,
    sample_y: Seq<int>,
    target_x: int,
) -> Seq<Seq<int>> {
    Seq::new(
        TRACE_WIDTH as nat,
        |c: int|
            Seq::new(
                trace_length_for(sample_x.len()),
                |i: int| built_cell(slope, intercept, sample_x, sample_y, target_x, c, i),
            ),
    )
}

/// `next_power_of_two(n)` is a power of two and at least `n`.
pub proof fn lemma_next_power_of_two_covers(n: nat)
    ensures
        is_power_of_two(next_power_of_two(n) as int),
        next_power_of_two(n) >= n,
        next_power_of_two(n) >= 1,
    decreases n,
{
    if n <= 1 {
        lemma2_to64();
        assert(next_power_of_two(n) == pow2(0));
    } else {
        let half: nat = (n + 1) / 2;
        lemma_next_power_of_two_covers(half);
        let e: nat = choose|e: nat| next_power_of_two(half) as int == pow2(e);
        lemma_pow2_unfold(e + 1);
        assert(next_power_of_two(n) == pow2(e + 1));
    }
}

/// Length minimality: no power of two that is at least `n` lies below
/// `next_power_of_two(n)`.
pub proof fn lemma_next_power_of_two_least(n: nat, q: nat)
    requires
        is_power_of_two(q as int),
        q >= n,
    ensures
        next_power_of_two(n) <= q,
    decreases n,
{
    let e: nat = choose|e: nat| q as int == pow2(e);
    lemma_pow2_pos(e);
    if n > 1 {
        if e == 0 {
            lemma2_to64();
        } else {
            lemma_pow2_unfold(e);
            let half_q: nat = pow2((e - 1) as nat);
            assert(is_power_of_two(half_q as int));
            lemma_next_power_of_two_least((n + 1) / 2, half_q);
        }
    }
}

/// A trace is long enough for its samples and the prediction, and no
/// shorter admissible length is: every power of two of at least eight that
/// exceeds `num_samples` is at least `trace_length_for(num_samples)`.
pub proof fn lemma_trace_length_minimal(num_samples: nat, q: nat)
    requires
        is_power_of_two(q as int),
        q >= 8,
        q > num_samples,
    ensures
        is_power_of_two(trace_length_for(num_samples) as int),
        trace_length_for(num_samples) >= 8,
        trace_length_for(num_samples) > num_samples,
        trace_length_for(num_samples) <= q,
{
    lemma_next_power_of_two_covers(num_samples + 1);
    lemma_next_power_of_two_least(num_samples + 1, q);
    lemma2_to64();
    assert(8int == pow2(3));
}

/// Two powers of two of which neither is at most half the other are equal.
proof fn lemma_powers_of_two_close(p: nat, e: nat, t: nat)
    requires
        p == pow2(e),
        e >= 1,
        is_power_of_two(t as int),
        pow2((e - 1) as nat) < t <= p,
    ensures
        t == p,
{
    let f: nat = choose|f: nat| t as int == pow2(f);
    if f < e {
        if f < e - 1 {
            lemma_pow2_strictly_increases(f, (e - 1) as nat);
        }
    } else if f > e {
        lemma_pow2_strictly_increases(e, f);
    }
}

/// No power of two lies strictly between two neighbouring powers of two.
proof fn lemma_no_power_of_two_between(n: nat, e: nat)
    requires
        pow2(e) < n < pow2(e + 1),
    ensures
        !is_power_of_two(n as int),
{
    if is_power_of_two(n as int) {
        let f: nat = choose|f: nat| n as int == pow2(f);
        if f < e {
            lemma_pow2_strictly_increases(f, e);
        } else if f > e + 1 {
            lemma_pow2_strictly_increases(e + 1, f);
        }
    }
}

/// The length of the trace for `num_samples` samples.
pub fn trace_length(num_samples: usize) -> (len: usize)
    requires
        num_samples <= usize::MAX / 2,
    ensures
        len == trace_length_for(num_samples as nat),
        len >= MIN_TRACE_LENGTH,
        len > num_samples,
        is_power_of_two(len as int),
{
    let needed: usize = num_samples + 1;
    let mut len: usize = MIN_TRACE_LENGTH;
    let ghost mut e: nat = 3;
    proof {
        lemma2_to64();
    }
    while len < needed
        invariant
            needed == num_samples + 1,
            num_samples <= usize::MAX / 2,
            len == pow2(e),
            e >= 3,
            len >= 8,
            e == 3 || pow2((e - 1) as nat) < needed,
        decreases usize::MAX - len,
    {
        proof {
            lemma_pow2_unfold(e + 1);
            e = e + 1;
        }
        len = len * 2;
    }
    proof {
        let target: nat = next_power_of_two(needed as nat);
        lemma_next_power_of_two_covers(needed as nat);
        lemma_next_power_of_two_least(needed as nat, len as nat);
        if e > 3 {
            lemma_powers_of_two_close(len as nat, e, target);
        }
    }
    len
}

/// Whether `len` is a power of two of at least eight.
pub fn is_valid_trace_length(len: usize) -> (valid: bool)
    ensures
        valid == (len >= MIN_TRACE_LENGTH && is_power_of_two(len as int)),
{
    let mut power: usize = MIN_TRACE_LENGTH;
    let ghost mut e: nat = 3;
    proof {
        lemma2_to64();
    }
    while power < len && power <= usize::MAX / 2
        invariant
            power == pow2(e),
            power >= 8,
            e >= 3,
            e == 3 || pow2((e - 1) as nat) < len,
        decreases usize::MAX - power,
    {
        proof {
            lemma_pow2_unfold(e + 1);
            e = e + 1;
        }
        power = power * 2;
    }
    proof {
        if power < len {
            lemma_pow2_unfold(e + 1);
            lemma_no_power_of_two_between(len as nat, e);
        } else if power > len && e > 3 {
            lemma_pow2_unfold(e);
            lemma_no_power_of_two_between(len as nat, (e - 1) as nat);
        }
    }
    power == len
}

/// An execution trace: four columns of field values, all of one length.
#[derive(Debug)]
pub struct ExecutionTrace {
    columns: Vec<Vec<Felt>>,
}

impl View for ExecutionTrace {
    type V = Seq<Seq<int>>;

    /// The columns, each as the canonical integers of its cells.
    closed spec fn view(&self) -> Seq<Seq<int>> {
        column_values(self.columns@)
    }
}

impl ExecutionTrace {
    /// Every trace has four columns of one length, which is a power of two
    /// of at least eight.
    #[verifier::type_invariant]
    pub open spec fn well_formed(self) -> bool {
        is_trace_shape(self@)
    }

    /// The trace with the given columns, in the order slope, intercept, x,
    /// y. Fails unless there are four columns of one length, which is a
    /// power of two of at least eight.
    pub fn from_columns(columns: Vec<Vec<Felt>>) -> (result: Result<ExecutionTrace, ConfigurationError>)
        ensures
            match result {
                Ok(trace) => is_trace_shape(column_values(columns@)) && trace@ == column_values(
                    columns@,
                ),
                Err(ConfigurationError::WrongTraceWidth) => columns@.len() != TRACE_WIDTH,
                Err(ConfigurationError::InvalidTraceLength) => columns@.len() == TRACE_WIDTH
                    && !is_trace_shape(column_values(columns@)),
                Err(ConfigurationError::SampleLengthMismatch) => false,
            },
    {
        if columns.len() != TRACE_WIDTH {
            return Err(ConfigurationError::WrongTraceWidth);
        }
        let ghost cells = column_values(columns@);
        let len: usize = columns[0].len();
        if columns[1].len() != len || columns[2].len() != len || columns[3].len() != len {
            proof {
                assert(cells[1].len() == columns@[1]@.len());
                assert(cells[2].len() == columns@[2]@.len());
                assert(cells[3].len() == columns@[3]@.len());
            }
            return Err(ConfigurationError::InvalidTraceLength);
        }
        if !is_valid_trace_length(len) {
            return Err(ConfigurationError::InvalidTraceLength);
        }
        Ok(ExecutionTrace { columns })
    }

    /// The columns of the trace, in the order slope, intercept, x, y.
    pub fn into_columns(self) -> (columns: Vec<Vec<Felt>>)
        ensures
            column_values(columns@) == self@,
            is_trace_shape(self@),
    {
        proof {
            use_type_invariant(&self);
        }
        self.columns
    }

    /// Number of columns.
    pub fn width(&self) -> (w: usize)
        ensures
            w == self@.len(),
            w == TRACE_WIDTH,
    {
        proof {
            use_type_invariant(self);
        }
        self.columns.len()
    }

    /// Number of steps.
    pub fn length(&self) -> (len: usize)
        ensures
            len == self@[0].len(),
            is_trace_shape(self@),
    {
        proof {
            use_type_invariant(self);
        }
        self.columns[0].len()
    }

    /// The cell in `column` at `step`.
    pub fn get(&self, column: usize, step: usize) -> (cell: Felt)
        requires
            column < self@.len(),
            step < self@[column as int].len(),
        ensures
            cell@ == self@[column as int][step as int],
    {
        self.columns[column][step]
    }
}

/// Builds the execution trace of the model `y = slope * x + intercept`.
///
/// Step `i` below the number of samples holds sample `i`. The step after
/// the samples holds the prediction for `target_x`, and every later step
/// repeats it. The samples are not checked against the model. Fails if the
/// two sample sequences differ in length.
pub fn build_linear_regression_trace(
    slope: Felt,
    intercept: Felt,
    sample_x_values: &[Felt],
    sample_y_values: &[Felt],
    target_x: Felt,
) -> (result: Result<ExecutionTrace, ConfigurationError>)
    requires
        sample_x_values@.len() <= usize::MAX / 2,
    ensures
        sample_x_values@.len() != sample_y_values@.len() ==> result == Err::<
            ExecutionTrace,
            ConfigurationError,
        >(ConfigurationError::SampleLengthMismatch),
        sample_x_values@.len() == sample_y_values@.len() ==> {
            &&& result is Ok
            &&& result->Ok_0@ == built_trace(
                slope@,
                intercept@,
                values(sample_x_values@),
                values(sample_y_values@),
                target_x@,
            )
            &&& result->Ok_0@[0].len() == trace_length_for(sample_x_values@.len())
            &&& forall|step: int|
                sample_x_values@.len() <= step < trace_length_for(sample_x_values@.len()) ==> {
                    &&& (#[trigger] result->Ok_0@[X_COLUMN as int][step]) == target_x@
                    &&& result->Ok_0@[Y_COLUMN as int][step] == model_output(
                        slope@,
                        intercept@,
                        target_x@,
                    )
                }
        },
{
    let num_samples: usize = sample_x_values.len();
    if sample_y_values.len() != num_samples {
        return Err(ConfigurationError::SampleLengthMismatch);
    }
    let len: usize = trace_length(num_samples);
    let predicted_y: Felt = slope.mul(target_x).add(intercept);
    let ghost xs = values(sample_x_values@);
    let ghost ys = values(sample_y_values@);
    let mut slopes: Vec<Felt> = Vec::new();
    let mut intercepts: Vec<Felt> = Vec::new();
    let mut inputs: Vec<Felt> = Vec::new();
    let mut outputs: Vec<Felt> = Vec::new();
    let mut step: usize = 0;
    while step < len
        invariant
            step <= len,
            num_samples == sample_x_values@.len(),
            num_samples == sample_y_values@.len(),
            xs == values(sample_x_values@),
            ys == values(sample_y_values@),
            predicted_y@ == model_output(slope@, intercept@, target_x@),
            slopes@.len() == step,
            intercepts@.len() == step,
            inputs@.len() == step,
            outputs@.len() == step,
            forall|i: int|
                0 <= i < step ==> (#[trigger] slopes@[i])@ == built_cell(
                    slope@,
                    intercept@,
                    xs,
                    ys,
                    target_x@,
                    SLOPE_COLUMN as int,
                    i,
                ),
            forall|i: int|
                0 <= i < step ==> (#[trigger] intercepts@[i])@ == built_cell(
                    slope@,
                    intercept@,
                    xs,
                    ys,
                    target_x@,
                    INTERCEPT_COLUMN as int,
                    i,
                ),
            forall|i: int|
                0 <= i < step ==> (#[trigger] inputs@[i])@ == built_cell(
                    slope@,
                    intercept@,
                    xs,
                    ys,
                    target_x@,
                    X_COLUMN as int,
                    i,
                ),
            forall|i: int|
                0 <= i < step ==> (#[trigger] outputs@[i])@ == built_cell(
                    slope@,
                    intercept@,
                    xs,
                    ys,
                    target_x@,
                    Y_COLUMN as int,
                    i,
                ),
        decreases len - step,
    {
        slopes.push(slope);
        intercepts.push(intercept);
        if step < num_samples {
            inputs.push(sample_x_values[step]);
            outputs.push(sample_y_values[step]);
        } else {
            inputs.push(target_x);
            outputs.push(predicted_y);
        }
        step = step + 1;
    }
    let mut columns: Vec<Vec<Felt>> = Vec::new();
    columns.push(slopes);
    columns.push(intercepts);
    columns.push(inputs);
    columns.push(outputs);
    proof {
        let cells = column_values(columns@);
        let expected = built_trace(slope@, intercept@, xs, ys, target_x@);
        assert forall|c: int| 0 <= c < cells.len() implies #[trigger] cells[c] =~= expected[c] by {
            assert(cells[c].len() == len);
        }
        assert(cells =~= expected);
    }
    Ok(ExecutionTrace { columns })
}

} // verus!
