//! The constraint definition: transition constraints with their degrees,
//! and the boundary assertions that bind trace cells to public values.

use crate::error::{ConfigurationError, ConstraintViolation};
use crate::field::{field_mul, field_sub, values, Felt};
use crate::inputs::{LinearRegressionInputs, PublicInputRecord};
use crate::trace::{
    is_trace_shape, ExecutionTrace, INTERCEPT_COLUMN, SLOPE_COLUMN, TRACE_WIDTH, X_COLUMN, Y_COLUMN,
};
use vstd::prelude::*;

verus! {

/// Number of transition constraints.
pub const NUM_TRANSITION_CONSTRAINTS: usize = 3;

/// Width and length of the trace that a constraint definition is for.
#[derive(Clone, Copy, Debug, PartialEq, Eq, Structural)]
pub struct TraceShape {
    pub width: usize,
    pub length: usize,
}

/// Two adjacent rows of a trace.
#[derive(Clone, Copy, Debug)]
pub struct EvaluationFrame {
    pub current: [Felt; 4],
    pub next: [Felt; 4],
}

/// The left-hand side of the constraint that a row is consistent with the
/// linear relation: `y - slope * x - intercept`.
pub open spec fn linear_residual(row: Seq<int>) -> int {
    field_sub(
        field_sub(row[Y_COLUMN as int], field_mul(row[SLOPE_COLUMN as int], row[X_COLUMN as int])),
        row[INTERCEPT_COLUMN as int],
    )
}

/// The left-hand sides of the three transition constraints on two adjacent
/// rows: the linear relation on the current row, the change of the slope,
/// and the change of the intercept. A trace is valid where all are zero.
pub open spec fn transition_evaluations(current: Seq<int>, next: Seq<int>) -> Seq<int> {
    seq![
        linear_residual(current),
        field_sub(next[SLOPE_COLUMN as int], current[SLOPE_COLUMN as int]),
        field_sub(next[INTERCEPT_COLUMN as int], current[INTERCEPT_COLUMN as int]),
    ]
}

/// The row of `cells` at `step`, one cell for each column.
pub open spec fn trace_row(cells: Seq<Seq<int>>, step: int) -> Seq<int> {
    Seq::new(cells.len(), |c: int| cells[c][step])
}

/// Whether all three transition constraints hold between the rows at
/// `step` and `step + 1`.
pub open spec fn transition_holds_at(cells: Seq<Seq<int>>, step: int) -> bool {
    transition_evaluations(trace_row(cells, step), trace_row(cells, step + 1)) == seq![
        0int,
        0int,
        0int,
    ]
}

/// Whether the transition constraints hold at every adjacent pair of steps.
pub open spec fn transitions_hold(cells: Seq<Seq<int>>) -> bool {
    forall|step: int| 0 <= step < cells[0].len() - 1 ==> #[trigger] transition_holds_at(cells, step)
}

/// A requirement that one trace cell hold a public value.
#[derive(Clone, Copy, Debug, PartialEq, Eq, Structural)]
pub struct BoundaryAssertion {
    /// The column of the cell.
    pub column: usize,
    /// The step of the cell.
    pub step: usize,
    /// The value that the cell must hold.
    pub value: Felt,
}

/// A boundary assertion over canonical integers.
pub struct CellAssertion {
    pub column: int,
    pub step: int,
    pub value: int,
}

impl View for BoundaryAssertion {
    type V = CellAssertion;

    open spec fn view(&self) -> CellAssertion {
        CellAssertion { column: self.column as int, step: self.step as int, value: self.value@ }
    }
}

/// The views of a sequence of boundary assertions.
pub open spec fn assertion_views(assertions: Seq<BoundaryAssertion>) -> Seq<CellAssertion> {
    assertions.map_values(|a: BoundaryAssertion| a@)
}

/// The boundary assertions of a record, in order: for each sample its
/// input in the x column and its output in the y column at the sample's
/// step, then the query point and the claimed output at the step after the
/// samples.
pub open spec fn boundary_assertions(record: PublicInputRecord) -> Seq<CellAssertion> {
    let n = record.sample_x_values.len() as int;
    Seq::new(
        (2 * n + 2) as nat,
        |k: int|
            if k < 2 * n {
                if k % 2 == 0 {
                    CellAssertion {
                        column: X_COLUMN as int,
                        step: k / 2,
                        value: record.sample_x_values[k / 2],
                    }
                } else {
                    CellAssertion {
                        column: Y_COLUMN as int,
                        step: k / 2,
                        value: record.sample_y_values[k / 2],
                    }
                }
            } else if k == 2 * n {
                CellAssertion { column: X_COLUMN as int, step: n, value: record.x_value }
            } else {
                CellAssertion { column: Y_COLUMN as int, step: n, value: record.predicted_y }
            },
    )
}

/// Whether `cells` has the cell that `assertion` names, with the value
/// that it requires.
pub open spec fn assertion_holds(cells: Seq<Seq<int>>, assertion: CellAssertion) -> bool {
    &&& 0 <= assertion.column < cells.len()
    &&& 0 <= assertion.step < cells[assertion.column].len()
    &&& cells[assertion.column][assertion.step] == assertion.value
}

/// Whether `cells` meets every boundary assertion of `record`.
pub open spec fn assertions_hold(cells: Seq<Seq<int>>, record: PublicInputRecord) -> bool {
    forall|k: int|
        0 <= k < boundary_assertions(record).len() ==> assertion_holds(
            cells,
            #[trigger] boundary_assertions(record)[k],
        )
}

/// The degrees declared for the transition constraints: two for the
/// linear relation, which multiplies two cells, and one each for the
/// constancy of the slope and of the intercept.
pub open spec fn declared_degrees() -> Seq<usize> {
    seq![2usize, 1usize, 1usize]
}

/// A polynomial in the cells of two adjacent rows.
pub enum Polynomial {
    /// The cell of the current row in `column`.
    Current { column: int },
    /// The cell of the next row in `column`.
    Next { column: int },
    /// The product of two polynomials.
    Product { left: Box<Polynomial>, right: Box<Polynomial> },
    /// The difference of two polynomials.
    Difference { left: Box<Polynomial>, right: Box<Polynomial> },
}

impl Polynomial {
    /// The degree of the polynomial in the cells.
    pub open spec fn degree(self) -> nat
        decreases self,
    {
        match self {
            Polynomial::Current { .. } => 1,
            Polynomial::Next { .. } => 1,
            Polynomial::Product { left, right } => left.degree() + right.degree(),
            Polynomial::Difference { left, right } => if left.degree() >= right.degree() {
                left.degree()
            } else {
                right.degree()
            },
        }
    }

    /// The value of the polynomial on the rows `current` and `next`.
    pub open spec fn value(self, current: Seq<int>, next: Seq<int>) -> int
        decreases self,
    {
        match self {
            Polynomial::Current { column } => current[column],
            Polynomial::Next { column } => next[column],
            Polynomial::Product { left, right } => field_mul(
                left.value(current, next),
                right.value(current, next),
            ),
            Polynomial::Difference { left, right } => field_sub(
                left.value(current, next),
                right.value(current, next),
            ),
        }
    }
}

/// The three transition constraints as polynomials: `y - slope * x -
/// intercept` on the current row, and the next row's slope and intercept
/// less the current row's.
pub open spec fn transition_constraints() -> Seq<Polynomial> {
    let slope = Polynomial::Current { column: SLOPE_COLUMN as int };
    let intercept = Polynomial::Current { column: INTERCEPT_COLUMN as int };
    let x = Polynomial::Current { column: X_COLUMN as int };
    let y = Polynomial::Current { column: Y_COLUMN as int };
    let next_slope = Polynomial::Next { column: SLOPE_COLUMN as int };
    let next_intercept = Polynomial::Next { column: INTERCEPT_COLUMN as int };
    seq![
        Polynomial::Difference {
            left: Box::new(
                Polynomial::Difference {
                    left: Box::new(y),
                    right: Box::new(
                        Polynomial::Product { left: Box::new(slope), right: Box::new(x) },
                    ),
                },
            ),
            right: Box::new(intercept),
        },
        Polynomial::Difference { left: Box::new(next_slope), right: Box::new(slope) },
        Polynomial::Difference { left: Box::new(next_intercept), right: Box::new(intercept) },
    ]
}

/// Degree bookkeeping: there are as many declared degrees as transition
/// constraints, each declared degree is the degree of its constraint, and
/// what is evaluated on two rows is the value of each constraint there.
pub proof fn lemma_declared_degrees_match_constraints(current: Seq<int>, next: Seq<int>)
    ensures
        transition_constraints().len() == NUM_TRANSITION_CONSTRAINTS,
        declared_degrees().len() == NUM_TRANSITION_CONSTRAINTS,
        transition_evaluations(current, next).len() == NUM_TRANSITION_CONSTRAINTS,
        forall|k: int|
            0 <= k < NUM_TRANSITION_CONSTRAINTS ==> (#[trigger] transition_constraints()[k]).degree()
                == declared_degrees()[k],
        forall|k: int|
            0 <= k < NUM_TRANSITION_CONSTRAINTS ==> (#[trigger] transition_constraints()[k]).value(
                current,
                next,
            ) == transition_evaluations(current, next)[k],
{
    reveal_with_fuel(Polynomial::degree, 4);
    reveal_with_fuel(Polynomial::value, 4);
}

/// What a constraint definition reports up front: the shape of the trace,
/// the degree of each transition constraint, and the number of boundary
/// assertions.
#[derive(Clone, Debug, PartialEq, Eq)]
pub struct AirContext {
    pub trace_shape: TraceShape,
    pub transition_constraint_degrees: Vec<usize>,
    pub num_assertions: usize,
}

/// A constraint definition over canonical integers.
pub struct ConstraintDefinition {
    pub trace_shape: TraceShape,
    pub transition_constraint_degrees: Seq<usize>,
    pub num_assertions: int,
    pub inputs: PublicInputRecord,
}

/// The constraint definition of the linear model for one trace shape and
/// one public input record.
#[derive(Debug)]
pub struct LinearRegressionAir {
    context: AirContext,
    x_value: Felt,
    predicted_y: Felt,
    sample_x_values: Vec<Felt>,
    sample_y_values: Vec<Felt>,
    num_samples: usize,
}

impl View for LinearRegressionAir {
    type V = ConstraintDefinition;

    closed spec fn view(&self) -> ConstraintDefinition {
        ConstraintDefinition {
            trace_shape: self.context.trace_shape,
            transition_constraint_degrees: self.context.transition_constraint_degrees@,
            num_assertions: self.context.num_assertions as int,
            inputs: PublicInputRecord {
                x_value: self.x_value@,
                predicted_y: self.predicted_y@,
                sample_x_values: values(self.sample_x_values@),
                sample_y_values: values(self.sample_y_values@),
            },
        }
    }
}

impl LinearRegressionAir {
    /// The trace has four columns, the record has as many sample outputs
    /// as sample inputs, the declared degrees are those of the constraints,
    /// and the number of assertions is two for each sample and two for the
    /// prediction.
    #[verifier::type_invariant]
    pub closed spec fn well_formed(self) -> bool {
        &&& self.context.trace_shape.width == TRACE_WIDTH
        &&& self.context.transition_constraint_degrees@ == declared_degrees()
        &&& self.sample_x_values@.len() == self.num_samples
        &&& self.sample_y_values@.len() == self.num_samples
        &&& self.context.num_assertions == 2 * self.num_samples + 2
    }

    /// The constraint definition for a trace of shape `trace_shape` and
    /// the record `pub_inputs`. Fails if the trace does not have four
    /// columns, or else if the two sample sequences differ in length.
    pub fn new(trace_shape: TraceShape, pub_inputs: LinearRegressionInputs) -> (result: Result<
        LinearRegressionAir,
        ConfigurationError,
    >)
        requires
            2 * pub_inputs.sample_x_values@.len() + 2 <= usize::MAX,
        ensures
            match result {
                Ok(air) => {
                    &&& trace_shape.width == TRACE_WIDTH
                    &&& pub_inputs.well_formed()
                    &&& air@ == (ConstraintDefinition {
                        trace_shape,
                        transition_constraint_degrees: declared_degrees(),
                        num_assertions: 2 * (pub_inputs.sample_x_values@.len() as int) + 2,
                        inputs: pub_inputs@,
                    })
                },
                Err(ConfigurationError::WrongTraceWidth) => trace_shape.width != TRACE_WIDTH,
                Err(ConfigurationError::SampleLengthMismatch) => trace_shape.width == TRACE_WIDTH
                    && !pub_inputs.well_formed(),
                Err(ConfigurationError::InvalidTraceLength) => false,
            },
    {
        if trace_shape.width != TRACE_WIDTH {
            return Err(ConfigurationError::WrongTraceWidth);
        }
        let num_samples: usize = pub_inputs.sample_x_values.len();
        if num_samples != pub_inputs.sample_y_values.len() {
            return Err(ConfigurationError::SampleLengthMismatch);
        }
        let mut degrees: Vec<usize> = Vec::new();
        degrees.push(2);
        degrees.push(1);
        degrees.push(1);
        assert(degrees@ =~= declared_degrees());
        let num_assertions: usize = 2 * num_samples + 2;
        Ok(
            LinearRegressionAir {
                context: AirContext {
                    trace_shape,
                    transition_constraint_degrees: degrees,
                    num_assertions,
                },
                x_value: pub_inputs.x_value,
                predicted_y: pub_inputs.predicted_y,
                sample_x_values: pub_inputs.sample_x_values,
                sample_y_values: pub_inputs.sample_y_values,
                num_samples,
            },
        )
    }

    /// Evaluates the three transition constraints on `frame` into the
    /// first three entries of `result`, and leaves the others as they are.
    /// The constraints use no periodic values.
    pub fn evaluate_transition(
        &self,
        frame: &EvaluationFrame,
        _periodic_values: &[Felt],
        result: &mut [Felt],
    )
        requires
            old(result)@.len() >= NUM_TRANSITION_CONSTRAINTS,
        ensures
            final(result)@.len() == old(result)@.len(),
            forall|k: int|
                0 <= k < NUM_TRANSITION_CONSTRAINTS ==> (#[trigger] final(result)@[k])@
                    == transition_evaluations(values(frame.current@), values(frame.next@))[k],
            forall|k: int|
                NUM_TRANSITION_CONSTRAINTS <= k < old(result)@.len() ==> final(result)@[k] == old(
                    result,
                )@[k],
    {
        let slope: Felt = frame.current[SLOPE_COLUMN];
        let intercept: Felt = frame.current[INTERCEPT_COLUMN];
        let x: Felt = frame.current[X_COLUMN];
        let y: Felt = frame.current[Y_COLUMN];
        let next_slope: Felt = frame.next[SLOPE_COLUMN];
        let next_intercept: Felt = frame.next[INTERCEPT_COLUMN];
        result[0] = y.sub(slope.mul(x)).sub(intercept);
        result[1] = next_slope.sub(slope);
        result[2] = next_intercept.sub(intercept);
    }

    /// The boundary assertions of the record, in their fixed order.
    pub fn get_assertions(&self) -> (assertions: Vec<BoundaryAssertion>)
        ensures
            assertion_views(assertions@) == boundary_assertions(self@.inputs),
            assertions@.len() == self@.num_assertions,
            forall|k: int|
                0 <= k < assertions@.len() ==> (#[trigger] assertions@[k])@ == boundary_assertions(
                    self@.inputs,
                )[k],
    {
        proof {
            use_type_invariant(self);
        }
        let ghost expected = boundary_assertions(self@.inputs);
        let mut assertions: Vec<BoundaryAssertion> = Vec::new();
        let mut i: usize = 0;
        while i < self.num_samples
            invariant
                i <= self.num_samples,
                self.well_formed(),
                expected == boundary_assertions(self@.inputs),
                assertions@.len() == 2 * i,
                forall|k: int| 0 <= k < 2 * i ==> (#[trigger] assertions@[k])@ == expected[k],
            decreases self.num_samples - i,
        {
            assertions.push(
                BoundaryAssertion { column: X_COLUMN, step: i, value: self.sample_x_values[i] },
            );
            assertions.push(
                BoundaryAssertion { column: Y_COLUMN, step: i, value: self.sample_y_values[i] },
            );
            i = i + 1;
        }
        let prediction_step: usize = self.num_samples;
        assertions.push(
            BoundaryAssertion { column: X_COLUMN, step: prediction_step, value: self.x_value },
        );
        assertions.push(
            BoundaryAssertion { column: Y_COLUMN, step: prediction_step, value: self.predicted_y },
        );
        assertions
    }

    /// Checks `trace` against this constraint definition: first the
    /// boundary assertions in their order, then the transition constraints
    /// step by step. Reports the first that fails.
    pub fn validate_trace(&self, trace: &ExecutionTrace) -> (result: Result<
        (),
        ConstraintViolation,
    >)
        ensures
            match result {
                Ok(()) => assertions_hold(trace@, self@.inputs) && transitions_hold(trace@),
                Err(ConstraintViolation::Assertion { index }) => {
                    &&& index < boundary_assertions(self@.inputs).len()
                    &&& !assertion_holds(trace@, boundary_assertions(self@.inputs)[index as int])
                    &&& forall|k: int|
                        0 <= k < index ==> assertion_holds(
                            trace@,
                            #[trigger] boundary_assertions(self@.inputs)[k],
                        )
                },
                Err(ConstraintViolation::Transition { constraint, step }) => {
                    &&& assertions_hold(trace@, self@.inputs)
                    &&& step < trace@[0].len() - 1
                    &&& constraint < NUM_TRANSITION_CONSTRAINTS
                    &&& transition_evaluations(
                        trace_row(trace@, step as int),
                        trace_row(trace@, step + 1),
                    )[constraint as int] != 0
                    &&& forall|k: int|
                        0 <= k < constraint ==> #[trigger] transition_evaluations(
                            trace_row(trace@, step as int),
                            trace_row(trace@, step + 1),
                        )[k] == 0
                    &&& forall|s: int| 0 <= s < step ==> #[trigger] transition_holds_at(trace@, s)
                },
            },
    {
        let trace_length: usize = trace.length();
        let assertions: Vec<BoundaryAssertion> = self.get_assertions();
        let ghost expected = boundary_assertions(self@.inputs);
        let mut index: usize = 0;
        while index < assertions.len()
            invariant
                index <= assertions@.len(),
                is_trace_shape(trace@),
                trace_length == trace@[0].len(),
                expected == boundary_assertions(self@.inputs),
                assertion_views(assertions@) == expected,
                forall|k: int| 0 <= k < index ==> assertion_holds(trace@, #[trigger] expected[k]),
            decreases assertions@.len() - index,
        {
            let assertion: BoundaryAssertion = assertions[index];
            if assertion.column >= TRACE_WIDTH || assertion.step >= trace_length || !trace.get(
                assertion.column,
                assertion.step,
            ).equals(&assertion.value) {
                return Err(ConstraintViolation::Assertion { index });
            }
            index = index + 1;
        }
        let mut step: usize = 0;
        while step < trace_length - 1
            invariant
                step <= trace_length - 1,
                is_trace_shape(trace@),
                trace_length == trace@[0].len(),
                assertions_hold(trace@, self@.inputs),
                forall|s: int| 0 <= s < step ==> #[trigger] transition_holds_at(trace@, s),
            decreases trace_length - step,
        {
            let frame = EvaluationFrame {
                current: [
                    trace.get(SLOPE_COLUMN, step),
                    trace.get(INTERCEPT_COLUMN, step),
                    trace.get(X_COLUMN, step),
                    trace.get(Y_COLUMN, step),
                ],
                next: [
                    trace.get(SLOPE_COLUMN, step + 1),
                    trace.get(INTERCEPT_COLUMN, step + 1),
                    trace.get(X_COLUMN, step + 1),
                    trace.get(Y_COLUMN, step + 1),
                ],
            };
            let ghost evaluations = transition_evaluations(
                trace_row(trace@, step as int),
                trace_row(trace@, step + 1),
            );
            let mut result: [Felt; 3] = [Felt::zero(), Felt::zero(), Felt::zero()];
            self.evaluate_transition(&frame, &[], &mut result);
            let mut constraint: usize = 0;
            while constraint < NUM_TRANSITION_CONSTRAINTS
                invariant
                    constraint <= NUM_TRANSITION_CONSTRAINTS,
                    result@.len() == NUM_TRANSITION_CONSTRAINTS,
                    step < trace@[0].len() - 1,
                    assertions_hold(trace@, self@.inputs),
                    evaluations == transition_evaluations(
                        trace_row(trace@, step as int),
                        trace_row(trace@, step + 1),
                    ),
                    forall|k: int|
                        0 <= k < NUM_TRANSITION_CONSTRAINTS ==> (#[trigger] result@[k])@
                            == evaluations[k],
                    forall|k: int| 0 <= k < constraint ==> #[trigger] evaluations[k] == 0,
                    forall|s: int| 0 <= s < step ==> #[trigger] transition_holds_at(trace@, s),
                decreases NUM_TRANSITION_CONSTRAINTS - constraint,
            {
                if !result[constraint].equals(&Felt::zero()) {
                    return Err(ConstraintViolation::Transition { constraint, step });
                }
                constraint = constraint + 1;
            }
            step = step + 1;
        }
        Ok(())
    }

    /// The trace shape, the declared degrees and the number of assertions.
    pub fn context(&self) -> (context: &AirContext)
        ensures
            context.trace_shape == self@.trace_shape,
            context.transition_constraint_degrees@ == self@.transition_constraint_degrees,
            context.num_assertions == self@.num_assertions,
            self@.trace_shape.width == TRACE_WIDTH,
            self@.transition_constraint_degrees == declared_degrees(),
            self@.num_assertions == 2 * self@.inputs.sample_x_values.len() + 2,
            self@.inputs.sample_x_values.len() == self@.inputs.sample_y_values.len(),
    {
        proof {
            use_type_invariant(self);
        }
        &self.context
    }
}

} // verus!
