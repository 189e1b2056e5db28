//! The public input record: what a verifier knows of a claimed prediction.

use crate::field::{values, Felt};
use vstd::prelude::*;

verus! {

/// The public data bound into a proof: the query point, the claimed
/// output, and the sample points.
#[derive(Clone, Debug, PartialEq, Eq)]
pub struct LinearRegressionInputs {
    /// The query point.
    pub x_value: Felt,
    /// The claimed output at the query point.
    pub predicted_y: Felt,
    /// The inputs of the samples, in order.
    pub sample_x_values: Vec<Felt>,
    /// The outputs of the samples, in the order of their inputs.
    pub sample_y_values: Vec<Felt>,
}

/// A public input record over canonical integers.
pub struct PublicInputRecord {
    pub x_value: int,
    pub predicted_y: int,
    pub sample_x_values: Seq<int>,
    pub sample_y_values: Seq<int>,
}

/// The field values that a record is transmitted as: query point, claimed
/// output, sample inputs, sample outputs, with no length prefix.
pub open spec fn record_elements(record: PublicInputRecord) -> Seq<int> {
    seq![record.x_value, record.predicted_y] + record.sample_x_values + record.sample_y_values
}

/// Whether two sequences hold the same field values in the same order.
fn same_values(left: &Vec<Felt>, right: &Vec<Felt>) -> (same: bool)
    ensures
        same == (values(left@) == values(right@)),
{
    if left.len() != right.len() {
        assert(values(left@).len() != values(right@).len());
        return false;
    }
    let mut i: usize = 0;
    while i < left.len()
        invariant
            i <= left@.len(),
            left@.len() == right@.len(),
            forall|k: int| 0 <= k < i ==> values(left@)[k] == values(right@)[k],
        decreases left@.len() - i,
    {
        if !left[i].equals(&right[i]) {
            assert(values(left@)[i as int] != values(right@)[i as int]);
            return false;
        }
        i = i + 1;
    }
    assert(values(left@) =~= values(right@));
    true
}

impl View for LinearRegressionInputs {
    type V = PublicInputRecord;

    open spec fn view(&self) -> PublicInputRecord {
        PublicInputRecord {
            x_value: self.x_value@,
            predicted_y: self.predicted_y@,
            sample_x_values: values(self.sample_x_values@),
            sample_y_values: values(self.sample_y_values@),
        }
    }
}

impl LinearRegressionInputs {
    /// A record is well formed if it has as many sample outputs as sample
    /// inputs.
    pub open spec fn well_formed(&self) -> bool {
        self.sample_x_values@.len() == self.sample_y_values@.len()
    }

    /// Whether `other` is the same record: the same query point, claimed
    /// output and samples, in the same order.
    pub fn same_record(&self, other: &LinearRegressionInputs) -> (same: bool)
        ensures
            same == (self@ == other@),
    {
        if !self.x_value.equals(&other.x_value) || !self.predicted_y.equals(&other.predicted_y) {
            return false;
        }
        let same: bool = same_values(&self.sample_x_values, &other.sample_x_values) && same_values(
            &self.sample_y_values,
            &other.sample_y_values,
        );
        same
    }

    /// The record as the sequence of field values it is transmitted as.
    pub fn to_elements(&self) -> (elements: Vec<Felt>)
        ensures
            values(elements@) == record_elements(self@),
    {
        let mut elements: Vec<Felt> = Vec::new();
        elements.push(self.x_value);
        elements.push(self.predicted_y);
        let ghost head = elements@;
        let mut i: usize = 0;
        while i < self.sample_x_values.len()
            invariant
                i <= self.sample_x_values@.len(),
                elements@ == head + self.sample_x_values@.subrange(0, i as int),
            decreases self.sample_x_values@.len() - i,
        {
            elements.push(self.sample_x_values[i]);
            i = i + 1;
        }
        let ghost front = elements@;
        let mut j: usize = 0;
        while j < self.sample_y_values.len()
            invariant
                j <= self.sample_y_values@.len(),
                elements@ == front + self.sample_y_values@.subrange(0, j as int),
            decreases self.sample_y_values@.len() - j,
        {
            elements.push(self.sample_y_values[j]);
            j = j + 1;
        }
        proof {
            assert(self.sample_x_values@.subrange(0, self.sample_x_values@.len() as int)
                == self.sample_x_values@);
            assert(self.sample_y_values@.subrange(0, self.sample_y_values@.len() as int)
                == self.sample_y_values@);
        }
        elements
    }
}

} // verus!
