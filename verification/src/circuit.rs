//! The circuit: an ordered list of NAND gates over a fixed set of primary
//! input slots, with random generation, evaluation, exhaustive verification
//! against a target function, and the brute-force synthesis loop.

use vstd::prelude::*;
use vstd::arithmetic::power2::*;

use crate::bits::{as_bool_vec, bits_of, lemma_bits_of_len, pow2_usize};
use crate::gate::{nand_value, Nand};

verus! {

/// A feed-forward NAND network. The first `inputs` slots are the primary
/// inputs; each gate occupies the next slot, in order. The last gate's value
/// is the circuit's single output.
#[derive(Debug)]
pub struct Stack {
    pub inputs: usize,
    pub content: Vec<Nand>,
}

/// The slot-value sequence after evaluating `gates` left to right on top of
/// the primary input values `init`: each gate appends its NAND result.
pub open spec fn slot_values(init: Seq<bool>, gates: Seq<Nand>) -> Seq<bool>
    decreases gates.len(),
{
    if gates.len() == 0 {
        init
    } else {
        let prior = slot_values(init, gates.drop_last());
        prior.push(nand_value(prior, gates.last()))
    }
}

pub proof fn lemma_slot_values_len(init: Seq<bool>, gates: Seq<Nand>)
    ensures
        slot_values(init, gates).len() == init.len() + gates.len(),
    decreases gates.len(),
{
    if gates.len() > 0 {
        lemma_slot_values_len(init, gates.drop_last());
    }
}

/// Draws one uniform slot index strictly below `bound`.
///
/// Relies on `rand::rng` and `rand::RngExt::random_range` over `0..bound`:
/// a sample from a non-empty half-open integer range lies within it, and the
/// call panics only on an empty range, which `bound >= 1` rules out.
#[verifier::external_body]
fn random_index_below(bound: usize) -> (result: usize)
    requires
        bound >= 1,
    ensures
        result < bound,
{
    rand::RngExt::random_range(&mut rand::rng(), 0..bound)
}

impl Stack {
    /// The feed-forward (acyclic) invariant: at least one primary input, the
    /// slot count fits the machine, and every gate reads only slots that
    /// exist before it — primary inputs or strictly earlier gates.
    pub open spec fn wf(self) -> bool {
        &&& self.inputs >= 1
        &&& self.inputs + self.content@.len() <= usize::MAX
        &&& forall|k: int|
            0 <= k < self.content@.len() ==> (#[trigger] self.content@[k]).in1 < self.inputs + k
                && self.content@[k].in2 < self.inputs + k
    }

    /// The circuit's output on primary input values `ins`: the last slot of
    /// the fully evaluated slot sequence.
    pub open spec fn spec_eval(self, ins: Seq<bool>) -> bool {
        slot_values(ins, self.content@).last()
    }

    /// Total number of slots so far: primary inputs plus appended gates.
    pub fn len(&self) -> (total: usize)
        requires
            self.inputs + self.content@.len() <= usize::MAX,
        ensures
            total == self.inputs + self.content@.len(),
    {
        self.inputs + self.content.len()
    }

    /// Appends one gate whose two inputs are drawn uniformly from the slots
    /// that already exist, which preserves the feed-forward invariant.
    fn add_nand(&mut self)
        requires
            old(self).wf(),
            old(self).inputs + old(self).content@.len() < usize::MAX,
        ensures
            final(self).wf(),
            final(self).inputs == old(self).inputs,
            final(self).content@.len() == old(self).content@.len() + 1,
            final(self).content@.drop_last() == old(self).content@,
    {
        let bound = self.len();
        let nand = Nand::new(random_index_below(bound), random_index_below(bound));
        self.content.push(nand);
        proof {
            assert(final(self).content@.drop_last() =~= old(self).content@);
        }
    }

    /// Builds a circuit of `nand_count` random gates over `inputs` primary
    /// inputs. Each gate's two indices are drawn uniformly from the half-open
    /// range of currently existing slots, so the result is always
    /// well-formed. A circuit needs at least one primary input; `inputs == 0`
    /// is rejected.
    pub fn random(inputs: usize, nand_count: usize) -> (result: Option<Stack>)
        requires
            inputs + nand_count <= usize::MAX,
        ensures
            result is Some <==> inputs >= 1,
            result is Some ==> {
                let stack = result->Some_0;
                &&& stack.wf()
                &&& stack.inputs == inputs
                &&& stack.content@.len() == nand_count
            },
    {
        if inputs == 0 {
            return None;
        }
        let content: Vec<Nand> = Vec::new();
        let mut result = Stack { inputs, content };
        let mut added: usize = 0;
        while added < nand_count
            invariant
                result.wf(),
                result.inputs == inputs,
                result.content@.len() == added,
                added <= nand_count,
                inputs + nand_count <= usize::MAX,
            decreases nand_count - added,
        {
            result.add_nand();
            added = added + 1;
        }
        Some(result)
    }

    /// Evaluates the circuit on one input combination by a single
    /// left-to-right pass: gate `k` may read any of the `inputs + k`
    /// preceding slot values. Returns the final slot's value, or `None` when
    /// the input length does not match `inputs` or the circuit has no gate
    /// (a zero-gate circuit has no well-defined output).
    pub fn eval(&self, ins: Vec<bool>) -> (result: Option<bool>)
        requires
            self.wf(),
        ensures
            result is Some <==> (ins@.len() == self.inputs && self.content@.len() >= 1),
            result is Some ==> result->Some_0 == self.spec_eval(ins@),
    {
        if ins.len() != self.inputs || self.content.len() == 0 {
            return None;
        }
        let ghost init = ins@;
        let mut values = ins;
        let mut done: usize = 0;
        while done < self.content.len()
            invariant
                self.wf(),
                done <= self.content@.len(),
                init.len() == self.inputs,
                values@ == slot_values(init, self.content@.take(done as int)),
                values@.len() == self.inputs + done,
            decreases self.content@.len() - done,
        {
            proof {
                lemma_slot_values_len(init, self.content@.take(done as int));
            }
            let nand_result = self.content[done].eval(&values);
            proof {
                let next = self.content@.take(done + 1);
                assert(next.drop_last() =~= self.content@.take(done as int));
                assert(next.last() == self.content@[done as int]);
                assert(slot_values(init, next) == values@.push(nand_value(
                    values@,
                    self.content@[done as int],
                )));
            }
            values.push(nand_result);
            done = done + 1;
        }
        proof {
            assert(self.content@.take(self.content@.len() as int) =~= self.content@);
        }
        Some(values[values.len() - 1])
    }

    /// Evaluation is deterministic: for one circuit and one input sequence,
    /// the contract of `eval` admits exactly one result, so any two results
    /// it admits — such as those of two successive calls — are equal.
    pub proof fn lemma_eval_deterministic(
        self,
        ins: Seq<bool>,
        first: Option<bool>,
        second: Option<bool>,
    )
        requires
            first is Some <==> (ins.len() == self.inputs && self.content@.len() >= 1),
            first is Some ==> first->Some_0 == self.spec_eval(ins),
            second is Some <==> (ins.len() == self.inputs && self.content@.len() >= 1),
            second is Some ==> second->Some_0 == self.spec_eval(ins),
        ensures
            first == second,
    {
    }

    /// Some call of the target on combination `n` of the enumeration
    /// returns exactly the circuit's own output on that combination. For a
    /// deterministic target this says the target agrees with the circuit
    /// there (`lemma_match_is_exact`).
    pub open spec fn matches_target_at<F: Fn(&Vec<bool>) -> bool>(
        self,
        target: F,
        n: int,
    ) -> bool {
        exists|v: Vec<bool>, b: bool|
            v@ == bits_of(n as nat, self.inputs as nat) && #[trigger] call_ensures(
                target,
                (&v,),
                b,
            ) && b == self.spec_eval(v@)
    }

    /// Some call of the target on combination `n` of the enumeration
    /// returns something other than the circuit's output there. For a
    /// deterministic target this says the target disagrees with the circuit
    /// there (`lemma_mismatch_is_exact`).
    pub open spec fn differs_from_target_at<F: Fn(&Vec<bool>) -> bool>(
        self,
        target: F,
        n: int,
    ) -> bool {
        exists|v: Vec<bool>, b: bool|
            v@ == bits_of(n as nat, self.inputs as nat) && #[trigger] call_ensures(
                target,
                (&v,),
                b,
            ) && b != self.spec_eval(v@)
    }

    /// For a deterministic target — one whose possible return values are
    /// fixed by a single spec function `table` — a match at combination `n`
    /// says exactly that the circuit's output there equals the table's.
    pub proof fn lemma_match_is_exact<F: Fn(&Vec<bool>) -> bool>(
        self,
        target: F,
        table: spec_fn(Seq<bool>) -> bool,
        n: int,
    )
        requires
            forall|v: Vec<bool>, b: bool| #[trigger] call_ensures(target, (&v,), b) ==> b
                == table(v@),
            self.matches_target_at(target, n),
        ensures
            self.spec_eval(bits_of(n as nat, self.inputs as nat)) == table(
                bits_of(n as nat, self.inputs as nat),
            ),
    {
        let (v, b): (Vec<bool>, bool) = choose|v: Vec<bool>, b: bool|
            v@ == bits_of(n as nat, self.inputs as nat) && #[trigger] call_ensures(
                target,
                (&v,),
                b,
            ) && b == self.spec_eval(v@);
    }

    /// The counterpart for a mismatch: for a deterministic target, a
    /// mismatch at combination `n` says exactly that the circuit's output
    /// there differs from the table's.
    pub proof fn lemma_mismatch_is_exact<F: Fn(&Vec<bool>) -> bool>(
        self,
        target: F,
        table: spec_fn(Seq<bool>) -> bool,
        n: int,
    )
        requires
            forall|v: Vec<bool>, b: bool| #[trigger] call_ensures(target, (&v,), b) ==> b
                == table(v@),
            self.differs_from_target_at(target, n),
        ensures
            self.spec_eval(bits_of(n as nat, self.inputs as nat)) != table(
                bits_of(n as nat, self.inputs as nat),
            ),
    {
        let (v, b): (Vec<bool>, bool) = choose|v: Vec<bool>, b: bool|
            v@ == bits_of(n as nat, self.inputs as nat) && #[trigger] call_ensures(
                target,
                (&v,),
                b,
            ) && b != self.spec_eval(v@);
    }

    /// Checks the circuit's output against `target`'s output for every one
    /// of the `2^inputs` Boolean input combinations, enumerated little-endian
    /// from the integers `0..2^inputs`. Returns `false` at the first
    /// mismatch, `true` once the whole domain is covered.
    ///
    /// For a deterministic target the two postconditions pin the result down
    /// exactly: `true` means every combination matched, `false` means some
    /// combination did not.
    pub fn test<F: Fn(&Vec<bool>) -> bool>(&self, target: &F) -> (result: bool)
        requires
            self.wf(),
            self.content@.len() >= 1,
            pow2(self.inputs as nat) <= usize::MAX,
            forall|v: Vec<bool>| v@.len() == self.inputs ==> call_requires(*target, (&v,)),
        ensures
            result ==> forall|n: int|
                0 <= n < pow2(self.inputs as nat) ==> self.matches_target_at(*target, n),
            !result ==> exists|n: int|
                0 <= n < pow2(self.inputs as nat) && self.differs_from_target_at(*target, n),
    {
        let combinations = pow2_usize(self.inputs);
        let mut n: usize = 0;
        while n < combinations
            invariant
                self.wf(),
                self.content@.len() >= 1,
                combinations == pow2(self.inputs as nat),
                n <= combinations,
                forall|v: Vec<bool>| v@.len() == self.inputs ==> call_requires(*target, (&v,)),
                forall|m: int| 0 <= m < n ==> self.matches_target_at(*target, m),
            decreases combinations - n,
        {
            let input = as_bool_vec(n, self.inputs);
            let ghost input_view = input@;
            proof {
                lemma_bits_of_len(n as nat, self.inputs as nat);
            }
            let target_value = target(&input);
            proof {
                if target_value == self.spec_eval(input_view) {
                    assert(self.matches_target_at(*target, n as int));
                } else {
                    assert(self.differs_from_target_at(*target, n as int));
                }
            }
            let actual_value = self.eval(input).unwrap();
            if target_value != actual_value {
                return false;
            }
            n = n + 1;
        }
        true
    }

    /// The brute-force synthesis loop: up to `timeout` times, generate a
    /// fresh random circuit of `size` gates over `inputs` primary inputs and
    /// verify it against `target` on every input combination; the first
    /// circuit that passes is returned. Exhausting the attempt budget is a
    /// normal empty result, not an error. A gate budget of zero can never
    /// succeed (a zero-gate circuit has no output), and a circuit needs at
    /// least one primary input, so both are rejected outright.
    pub fn from_target_function<F: Fn(&Vec<bool>) -> bool>(
        inputs: usize,
        size: usize,
        target: F,
        timeout: usize,
    ) -> (result: Option<Stack>)
        requires
            size >= 1 ==> inputs + size <= usize::MAX,
            inputs >= 1 && size >= 1 ==> pow2(inputs as nat) <= usize::MAX,
            inputs >= 1 && size >= 1 ==> forall|v: Vec<bool>|
                v@.len() == inputs ==> call_requires(target, (&v,)),
        ensures
            result is Some ==> ({
                let stack = result->Some_0;
                &&& stack.wf()
                &&& stack.inputs == inputs
                &&& stack.content@.len() == size
                &&& forall|n: int|
                    0 <= n < pow2(inputs as nat) ==> stack.matches_target_at(target, n)
            }),
            inputs == 0 ==> result is None,
            size == 0 ==> result is None,
    {
        if size == 0 {
            return None;
        }
        let mut attempt: usize = 0;
        while attempt < timeout
            invariant
                inputs + size <= usize::MAX,
                size >= 1,
                inputs >= 1 ==> pow2(inputs as nat) <= usize::MAX,
                inputs >= 1 ==> forall|v: Vec<bool>|
                    v@.len() == inputs ==> call_requires(target, (&v,)),
            decreases timeout - attempt,
        {
            match Stack::random(inputs, size) {
                None => {
                    return None;
                },
                Some(stack) => {
                    if stack.test(&target) {
                        return Some(stack);
                    }
                },
            }
            attempt = attempt + 1;
        }
        None
    }
}

} // verus!
