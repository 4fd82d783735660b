//! Example target predicates for the synthesis loop: exclusive-or of the
//! first two inputs, and a 2-to-1 multiplexer steered by the third input.

use vstd::prelude::*;

verus! {

/// Exclusive-or of the first two inputs.
pub fn xor_test_function(input: &Vec<bool>) -> (result: bool)
    requires
        input@.len() >= 2,
    ensures
        result == (input@[0] != input@[1]),
{
    input[0] ^ input[1]
}

/// 2-to-1 multiplexer: the third input selects between the second (when
/// true) and the first (when false).
pub fn mux_test_function(input: &Vec<bool>) -> (result: bool)
    requires
        input@.len() >= 3,
    ensures
        result == (if input@[2] {
            input@[1]
        } else {
            input@[0]
        }),
{
    if input[2] {
        input[1]
    } else {
        input[0]
    }
}

} // verus!
