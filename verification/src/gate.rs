//! The indivisible logic primitive: a NAND operation over two slot indices.

use vstd::prelude::*;

verus! {

/// A 2-input NAND gate. Each input names a slot in the growing sequence of
/// known Boolean values (primary inputs first, then earlier gate outputs).
#[derive(Debug, Clone, Copy, PartialEq, Eq, Structural)]
pub struct Nand {
    pub in1: usize,
    pub in2: usize,
}

/// What a NAND gate computes over a sequence of already-known slot values.
pub open spec fn nand_value(values: Seq<bool>, gate: Nand) -> bool {
    !(values[gate.in1 as int] && values[gate.in2 as int])
}

impl Nand {
    pub fn new(in1: usize, in2: usize) -> (gate: Nand)
        ensures
            gate.in1 == in1,
            gate.in2 == in2,
    {
        Nand { in1, in2 }
    }

    /// `NOT (values[in1] AND values[in2])`. Both indices must name a slot
    /// whose value is already known; correct construction guarantees that.
    pub fn eval(&self, values: &Vec<bool>) -> (result: bool)
        requires
            self.in1 < values@.len(),
            self.in2 < values@.len(),
        ensures
            result == nand_value(values@, *self),
    {
        !(values[self.in1] && values[self.in2])
    }
}

} // verus!
