//! Little-endian decomposition of an integer into a fixed-width Boolean
//! vector, used to enumerate every input combination of a circuit.

use vstd::arithmetic::power2::*;
use vstd::prelude::*;

verus! {

/// The `width` low-order bits of `number`, least significant first:
/// entry `i` is bit `i` of `number`.
pub open spec fn bits_of(number: nat, width: nat) -> Seq<bool>
    decreases width,
{
    if width == 0 {
        Seq::empty()
    } else {
        seq![number % 2 == 1] + bits_of(number / 2, (width - 1) as nat)
    }
}

pub proof fn lemma_bits_of_len(number: nat, width: nat)
    ensures
        bits_of(number, width).len() == width,
    decreases width,
{
    if width > 0 {
        lemma_bits_of_len(number / 2, (width - 1) as nat);
    }
}

/// `2^exp`, the number of Boolean vectors of length `exp`.
pub fn pow2_usize(exp: usize) -> (result: usize)
    requires
        pow2(exp as nat) <= usize::MAX,
    ensures
        result == pow2(exp as nat),
{
    proof {
        lemma2_to64();
    }
    let mut result: usize = 1;
    let mut i: usize = 0;
    while i < exp
        invariant
            i <= exp,
            result == pow2(i as nat),
            pow2(exp as nat) <= usize::MAX,
        decreases exp - i,
    {
        proof {
            lemma_pow2_unfold((i + 1) as nat);
            if i + 1 < exp {
                lemma_pow2_strictly_increases((i + 1) as nat, exp as nat);
            }
        }
        result = result * 2;
        i = i + 1;
    }
    result
}

/// A little-endian representation of `number`, `bits` entries long.
pub fn as_bool_vec(number: usize, bits: usize) -> (result: Vec<bool>)
    ensures
        result@ == bits_of(number as nat, bits as nat),
{
    let mut result: Vec<bool> = Vec::new();
    let mut remaining: usize = number;
    let mut produced: usize = 0;
    while produced < bits
        invariant
            produced <= bits,
            result@.len() == produced,
            bits_of(number as nat, bits as nat) == result@ + bits_of(
                remaining as nat,
                (bits - produced) as nat,
            ),
        decreases bits - produced,
    {
        proof {
            assert(bits_of(remaining as nat, (bits - produced) as nat) == seq![
                remaining as nat % 2 == 1,
            ] + bits_of(remaining as nat / 2, (bits - produced - 1) as nat));
            assert(result@ + (seq![remaining as nat % 2 == 1] + bits_of(
                remaining as nat / 2,
                (bits - produced - 1) as nat,
            )) =~= result@.push(remaining % 2 == 1) + bits_of(
                remaining as nat / 2,
                (bits - produced - 1) as nat,
            ));
        }
        result.push(remaining % 2 == 1);
        remaining = remaining / 2;
        produced = produced + 1;
    }
    proof {
        assert(bits_of(remaining as nat, 0) =~= Seq::<bool>::empty());
        assert(result@ + Seq::<bool>::empty() =~= result@);
    }
    result
}

} // verus!
