//! The prover's side: the options of the proof engine, and the public
//! input record read off a trace.

use crate::inference::{infer_public_inputs, inferred_inputs};
use crate::inputs::LinearRegressionInputs;
use crate::trace::ExecutionTrace;
use vstd::prelude::*;
use winterfell::ProofOptions;

verus! {

/// `winterfell`'s `ProofOptions`, the parameters of the proof engine. The
/// library hands them through and never looks inside.
#[verifier::external_type_specification]
#[verifier::external_body]
pub struct ExProofOptions(ProofOptions);

/// The prover of the linear model: it holds the options of the proof
/// engine and reads the public input record off a trace.
pub struct LinearRegressionProver {
    options: ProofOptions,
}

impl LinearRegressionProver {
    /// The options that the prover was made with.
    pub closed spec fn proof_options(&self) -> ProofOptions {
        self.options
    }

    /// A prover with the given options.
    pub fn new(options: ProofOptions) -> (prover: Self)
        ensures
            prover.proof_options() == options,
    {
        Self { options }
    }

    /// The options of the proof engine.
    pub fn options(&self) -> (options: &ProofOptions)
        ensures
            *options == self.proof_options(),
    {
        &self.options
    }

    /// The public input record that inference reads off `trace`. It is the
    /// record that the trace was built from only under the conditions of
    /// [`infer_public_inputs`].
    pub fn get_pub_inputs(&self, trace: &ExecutionTrace) -> (inputs: LinearRegressionInputs)
        ensures
            inputs@ == inferred_inputs(trace@),
            inputs.well_formed(),
    {
        infer_public_inputs(trace)
    }
}

} // verus!
