use linreg_air::air::{EvaluationFrame as RowPair, LinearRegressionAir, TraceShape};
use linreg_air::field::Felt;
use linreg_air::inputs::LinearRegressionInputs;
use linreg_air::prover::LinearRegressionProver;
use linreg_air::trace::{build_linear_regression_trace, ExecutionTrace};
use winterfell::math::fields::f128::BaseElement;
use winterfell::math::{FieldElement, StarkField, ToElements};
use winterfell::{
    Air, AirContext, Assertion, BatchingMethod, EvaluationFrame, FieldExtension, ProofOptions,
    Trace, TraceInfo, TraceTable, TransitionConstraintDegree,
};

fn to_engine(value: Felt) -> BaseElement {
    BaseElement::new(value.as_int())
}

fn from_engine(value: BaseElement) -> Felt {
    Felt::new(value.as_int())
}

fn engine_felts(values: &[u128]) -> Vec<Felt> {
    values.iter().map(|v| Felt::new(*v)).collect()
}

fn engine_trace(trace: ExecutionTrace) -> TraceTable<BaseElement> {
    let columns = trace
        .into_columns()
        .into_iter()
        .map(|column| column.into_iter().map(to_engine).collect())
        .collect();
    TraceTable::init(columns)
}

fn library_trace(trace: &TraceTable<BaseElement>) -> ExecutionTrace {
    let columns = (0..trace.width())
        .map(|c| trace.get_column(c).iter().map(|v| from_engine(*v)).collect())
        .collect();
    ExecutionTrace::from_columns(columns).expect("the trace has the shape of a model trace")
}

struct EngineInputs(LinearRegressionInputs);

impl ToElements<BaseElement> for EngineInputs {
    fn to_elements(&self) -> Vec<BaseElement> {
        self.0.to_elements().into_iter().map(to_engine).collect()
    }
}

struct EngineAir {
    air: LinearRegressionAir,
    context: AirContext<BaseElement>,
}

impl Air for EngineAir {
    type BaseField = BaseElement;
    type PublicInputs = EngineInputs;

    fn new(trace_info: TraceInfo, pub_inputs: EngineInputs, options: ProofOptions) -> Self {
        let shape = TraceShape { width: trace_info.width(), length: trace_info.length() };
        let air = LinearRegressionAir::new(shape, pub_inputs.0).expect("valid constraint definition");
        let degrees = air
            .context()
            .transition_constraint_degrees
            .iter()
            .map(|degree| TransitionConstraintDegree::new(*degree))
            .collect();
        let num_assertions = air.context().num_assertions;
        let context = AirContext::new(trace_info, degrees, num_assertions, options);
        EngineAir { air, context }
    }

    fn context(&self) -> &AirContext<BaseElement> {
        &self.context
    }

    fn evaluate_transition<E: FieldElement<BaseField = BaseElement>>(
        &self,
        frame: &EvaluationFrame<E>,
        _periodic_values: &[E],
        result: &mut [E],
    ) {
        assert_eq!(E::EXTENSION_DEGREE, 1);
        let cell = |row: &[E], column: usize| from_engine(row[column].base_element(0));
        let current = frame.current();
        let next = frame.next();
        let rows = RowPair {
            current: [cell(current, 0), cell(current, 1), cell(current, 2), cell(current, 3)],
            next: [cell(next, 0), cell(next, 1), cell(next, 2), cell(next, 3)],
        };
        let mut evaluations = [Felt::zero(); 3];
        self.air.evaluate_transition(&rows, &[], &mut evaluations);
        for (k, value) in evaluations.into_iter().enumerate() {
            result[k] = E::from(to_engine(value));
        }
    }

    fn get_assertions(&self) -> Vec<Assertion<BaseElement>> {
        self.air
            .get_assertions()
            .into_iter()
            .map(|a| Assertion::single(a.column, a.step, to_engine(a.value)))
            .collect()
    }
}

fn engine_options() -> ProofOptions {
    ProofOptions::new(
        32,
        8,
        0,
        FieldExtension::None,
        8,
        31,
        BatchingMethod::Linear,
        BatchingMethod::Linear,
    )
}

/// Has the engine check the trace against the constraint definition of
/// `pub_inputs`: every boundary assertion and, at every adjacent pair of
/// steps, every transition constraint. The engine panics where one fails.
fn engine_accepts(trace: &TraceTable<BaseElement>, pub_inputs: LinearRegressionInputs) {
    let air = EngineAir::new(trace.info().clone(), EngineInputs(pub_inputs), engine_options());
    assert_eq!(air.context().num_assertions(), air.get_assertions().len());
    assert_eq!(air.context().num_main_transition_constraints(), 3);
    trace.validate::<EngineAir, BaseElement>(&air, None);
}

// Proving itself is left to release builds of the engine. Its debug build
// requires the measured degree of every constraint to equal the declared
// one, and the linear constraint, declared with degree two, vanishes
// identically on every valid trace.
#[test]
fn test_linear_regression_proof() {
    // Secret parameters (not revealed in proof)
    let slope = Felt::new(3);
    let intercept = Felt::new(7);

    // Public sample data points
    let sample_x = vec![Felt::new(1), Felt::new(2), Felt::new(4), Felt::new(5)];
    let sample_y = vec![Felt::new(10), Felt::new(13), Felt::new(19), Felt::new(22)];

    // Target prediction
    let target_x = Felt::new(6);
    let expected_y = slope.mul(target_x).add(intercept);
    assert_eq!(expected_y.as_int(), 25);

    // Build execution trace
    let trace =
        build_linear_regression_trace(slope, intercept, &sample_x, &sample_y, target_x).unwrap();
    let trace = engine_trace(trace);

    println!("Trace length: {}", trace.length());
    println!("Trace width: {}", trace.width());

    // Verify the trace values manually
    for i in 0..trace.length() {
        let s = trace.get(0, i);
        let b = trace.get(1, i);
        let x = trace.get(2, i);
        let y = trace.get(3, i);
        println!("Step {}: slope={}, intercept={}, x={}, y={}", i, s, b, x, y);

        let expected = s * x + b;
        assert_eq!(y, expected, "Linear relationship violated at step {}", i);
    }

    // The record that the prover binds the proof to is the verifier's
    let prover = LinearRegressionProver::new(engine_options());
    assert_eq!(prover.options(), &engine_options());
    let pub_inputs = LinearRegressionInputs {
        x_value: target_x,
        predicted_y: expected_y,
        sample_x_values: sample_x,
        sample_y_values: sample_y,
    };
    assert_eq!(prover.get_pub_inputs(&library_trace(&trace)), pub_inputs);

    // The engine finds the trace valid against the constraint definition
    engine_accepts(&trace, pub_inputs);
    println!(
        "Predicted y = {} for x = {} (slope and intercept kept private)",
        expected_y.as_int(),
        target_x.as_int()
    );
}

#[test]
fn engine_accepts_the_second_model() {
    let sample_x = engine_felts(&[1, 3, 7, 10]);
    let sample_y = engine_felts(&[7, 11, 19, 25]);
    let trace = build_linear_regression_trace(
        Felt::new(2),
        Felt::new(5),
        &sample_x,
        &sample_y,
        Felt::new(8),
    )
    .unwrap();
    assert_eq!(trace.length(), 8);
    let pub_inputs = LinearRegressionInputs {
        x_value: Felt::new(8),
        predicted_y: Felt::new(21),
        sample_x_values: sample_x,
        sample_y_values: sample_y,
    };
    let prover = LinearRegressionProver::new(engine_options());
    assert_eq!(prover.get_pub_inputs(&trace), pub_inputs);
    engine_accepts(&engine_trace(trace), pub_inputs);
}

#[test]
fn engine_accepts_a_trace_without_samples() {
    let trace =
        build_linear_regression_trace(Felt::new(3), Felt::new(7), &[], &[], Felt::new(6)).unwrap();
    assert_eq!(trace.length(), 8);
    let pub_inputs = LinearRegressionInputs {
        x_value: Felt::new(6),
        predicted_y: Felt::new(25),
        sample_x_values: Vec::new(),
        sample_y_values: Vec::new(),
    };
    engine_accepts(&engine_trace(trace), pub_inputs);
}

#[test]
fn engine_accepts_a_trace_of_nine_samples() {
    let xs: Vec<u128> = (1..=9).collect();
    let ys: Vec<u128> = xs.iter().map(|x| 5 * x + 11).collect();
    let trace = build_linear_regression_trace(
        Felt::new(5),
        Felt::new(11),
        &engine_felts(&xs),
        &engine_felts(&ys),
        Felt::new(100),
    )
    .unwrap();
    let pub_inputs = LinearRegressionInputs {
        x_value: Felt::new(100),
        predicted_y: Felt::new(511),
        sample_x_values: engine_felts(&xs),
        sample_y_values: engine_felts(&ys),
    };
    let table = engine_trace(trace);
    assert_eq!(table.length(), 16);
    engine_accepts(&table, pub_inputs);
}

#[test]
fn engine_context_reports_degrees_and_assertion_count() {
    let pub_inputs = LinearRegressionInputs {
        x_value: Felt::new(6),
        predicted_y: Felt::new(25),
        sample_x_values: engine_felts(&[1, 2, 4, 5]),
        sample_y_values: engine_felts(&[10, 13, 19, 22]),
    };
    let air = EngineAir::new(TraceInfo::new(4, 8), EngineInputs(pub_inputs), engine_options());
    assert_eq!(air.context().num_assertions(), 10);
    assert_eq!(air.context().num_main_transition_constraints(), 3);
    assert_eq!(air.air.context().transition_constraint_degrees, vec![2, 1, 1]);
    assert_eq!(air.trace_length(), 8);
    let assertions = air.get_assertions();
    assert_eq!(assertions.len(), 10);
    assert_eq!(assertions[0], Assertion::single(2, 0, BaseElement::new(1)));
    assert_eq!(assertions[1], Assertion::single(3, 0, BaseElement::new(10)));
    assert_eq!(assertions[8], Assertion::single(2, 4, BaseElement::new(6)));
    assert_eq!(assertions[9], Assertion::single(3, 4, BaseElement::new(25)));
}

#[test]
fn engine_evaluation_agrees_with_the_engine_field() {
    let pub_inputs = LinearRegressionInputs {
        x_value: Felt::new(6),
        predicted_y: Felt::new(25),
        sample_x_values: Vec::new(),
        sample_y_values: Vec::new(),
    };
    let air = EngineAir::new(TraceInfo::new(4, 8), EngineInputs(pub_inputs), engine_options());
    let current: Vec<BaseElement> =
        [3u128, 7, 123456789012345678901234567890, 5].iter().map(|v| BaseElement::new(*v)).collect();
    let next: Vec<BaseElement> = [9u128, 2, 0, 0].iter().map(|v| BaseElement::new(*v)).collect();
    let frame = EvaluationFrame::from_rows(current.clone(), next.clone());
    let mut result = vec![BaseElement::ZERO; 3];
    air.evaluate_transition(&frame, &[], &mut result);
    assert_eq!(result[0], current[3] - current[0] * current[2] - current[1]);
    assert_eq!(result[1], next[0] - current[0]);
    assert_eq!(result[2], next[1] - current[1]);
    assert_eq!(result[1], BaseElement::new(6));
}

#[test]
fn engine_inputs_are_serialized_in_record_order() {
    let pub_inputs = LinearRegressionInputs {
        x_value: Felt::new(6),
        predicted_y: Felt::new(25),
        sample_x_values: engine_felts(&[1, 2]),
        sample_y_values: engine_felts(&[10, 13]),
    };
    let elements: Vec<u128> =
        EngineInputs(pub_inputs).to_elements().iter().map(|e| e.as_int()).collect();
    assert_eq!(elements, vec![6, 25, 1, 2, 10, 13]);
}

#[test]
fn engine_trace_conversion_keeps_every_cell() {
    let trace = build_linear_regression_trace(
        Felt::new(3),
        Felt::new(7),
        &engine_felts(&[1, 2, 4, 5]),
        &engine_felts(&[10, 13, 19, 22]),
        Felt::new(6),
    )
    .unwrap();
    let table = engine_trace(trace);
    assert_eq!(table.width(), 4);
    assert_eq!(table.length(), 8);
    let back = library_trace(&table);
    for step in 0..8 {
        for column in 0..4 {
            assert_eq!(table.get(column, step).as_int(), back.get(column, step).as_int());
        }
    }
    assert_eq!(table.get(3, 4), BaseElement::new(25));
}
