use nand_synth::{as_bool_vec, mux_test_function, xor_test_function, Nand, Stack};
use nand_synth::bits::pow2_usize;

#[test]
fn nand_gate_truth_table() {
    let gate = Nand::new(0, 1);
    assert_eq!(gate.eval(&vec![false, false]), true);
    assert_eq!(gate.eval(&vec![true, false]), true);
    assert_eq!(gate.eval(&vec![false, true]), true);
    assert_eq!(gate.eval(&vec![true, true]), false);
}

#[test]
fn nand_gate_reads_named_slots() {
    let gate = Nand::new(2, 0);
    assert_eq!(gate.eval(&vec![true, false, true]), false);
    assert_eq!(gate.eval(&vec![false, true, true]), true);
}

#[test]
fn random_has_exact_gate_count_and_is_feed_forward() {
    for &gate_count in &[0usize, 1, 4, 17] {
        let stack = Stack::random(2, gate_count).expect("two inputs must be accepted");
        assert_eq!(stack.inputs, 2);
        assert_eq!(stack.content.len(), gate_count);
        for (position, gate) in stack.content.iter().enumerate() {
            let slots_so_far = 2 + position;
            assert!(gate.in1 < slots_so_far);
            assert!(gate.in2 < slots_so_far);
        }
    }
}

#[test]
fn random_rejects_zero_inputs() {
    for &gate_count in &[0usize, 1, 4, 100] {
        assert!(Stack::random(0, gate_count).is_none());
    }
}

#[test]
fn eval_is_deterministic() {
    let stack = Stack::random(3, 6).expect("three inputs must be accepted");
    let ins = vec![true, false, true];
    let first = stack.eval(ins.clone());
    let second = stack.eval(ins);
    assert!(first.is_some());
    assert_eq!(first, second);
}

#[test]
fn eval_rejects_wrong_input_length() {
    let stack = Stack {
        inputs: 2,
        content: vec![Nand::new(0, 1)],
    };
    assert!(stack.eval(vec![]).is_none());
    assert!(stack.eval(vec![true]).is_none());
    assert!(stack.eval(vec![true, false, true]).is_none());
    assert!(stack.eval(vec![true, false]).is_some());
}

#[test]
fn eval_rejects_zero_gate_circuit() {
    let stack = Stack {
        inputs: 2,
        content: vec![],
    };
    assert!(stack.eval(vec![true, false]).is_none());
}

#[test]
fn manual_nand_chain_round_trip() {
    // Two primary inputs, then a chain of four gates, each referencing only
    // slots that exist before it. On [true, false] the slots evolve as:
    //   s0 = true, s1 = false
    //   s2 = !(s0 && s1) = true
    //   s3 = !(s1 && s2) = true
    //   s4 = !(s2 && s3) = false
    //   s5 = !(s3 && s4) = true   <- circuit output
    let stack = Stack {
        inputs: 2,
        content: vec![
            Nand::new(0, 1),
            Nand::new(1, 2),
            Nand::new(2, 3),
            Nand::new(3, 4),
        ],
    };
    assert_eq!(stack.eval(vec![true, false]), Some(true));
}

#[test]
fn xor_synthesis_end_to_end() {
    let found = Stack::from_target_function(2, 4, xor_test_function, 10000);
    let stack = found.expect("a 4-NAND XOR implementation exists and is found");
    assert_eq!(stack.inputs, 2);
    assert_eq!(stack.content.len(), 4);
    assert!(stack.test(&xor_test_function));
    assert_eq!(stack.eval(vec![false, false]), Some(false));
    assert_eq!(stack.eval(vec![true, false]), Some(true));
    assert_eq!(stack.eval(vec![false, true]), Some(true));
    assert_eq!(stack.eval(vec![true, true]), Some(false));
}

#[test]
fn mux_synthesis_end_to_end() {
    let found = Stack::from_target_function(3, 4, mux_test_function, 10000);
    let stack = found.expect("a 4-NAND MUX implementation exists and is found");
    for n in 0..8usize {
        let combination = as_bool_vec(n, 3);
        let expected = if combination[2] {
            combination[1]
        } else {
            combination[0]
        };
        assert_eq!(stack.eval(combination), Some(expected));
    }
}

#[test]
fn zero_gate_search_is_always_exhausted() {
    for &inputs in &[1usize, 2, 3] {
        for &timeout in &[0usize, 1, 100] {
            let found = Stack::from_target_function(inputs, 0, xor_test_function, timeout);
            assert!(found.is_none());
        }
    }
}

#[test]
fn search_with_zero_inputs_finds_nothing() {
    let found = Stack::from_target_function(0, 4, |_: &Vec<bool>| true, 100);
    assert!(found.is_none());
}

#[test]
fn as_bool_vec_is_little_endian() {
    assert_eq!(as_bool_vec(0, 0), Vec::<bool>::new());
    assert_eq!(as_bool_vec(0, 3), vec![false, false, false]);
    assert_eq!(as_bool_vec(1, 2), vec![true, false]);
    assert_eq!(as_bool_vec(6, 3), vec![false, true, true]);
    assert_eq!(as_bool_vec(5, 4), vec![true, false, true, false]);
    // widths narrower than the number keep only the low-order bits
    assert_eq!(as_bool_vec(6, 2), vec![false, true]);
}

#[test]
fn pow2_usize_exact_values() {
    assert_eq!(pow2_usize(0), 1);
    assert_eq!(pow2_usize(1), 2);
    assert_eq!(pow2_usize(3), 8);
    assert_eq!(pow2_usize(10), 1024);
}

#[test]
fn target_functions_match_their_tables() {
    assert_eq!(xor_test_function(&vec![false, false]), false);
    assert_eq!(xor_test_function(&vec![true, false]), true);
    assert_eq!(xor_test_function(&vec![false, true]), true);
    assert_eq!(xor_test_function(&vec![true, true]), false);

    assert_eq!(mux_test_function(&vec![true, false, false]), true);
    assert_eq!(mux_test_function(&vec![true, false, true]), false);
    assert_eq!(mux_test_function(&vec![false, true, true]), true);
    assert_eq!(mux_test_function(&vec![false, true, false]), false);
}

#[test]
fn test_reports_mismatch_against_wrong_target() {
    // A circuit that is a constant cannot match XOR on the whole domain.
    let constant = Stack {
        inputs: 2,
        content: vec![Nand::new(0, 0), Nand::new(2, 2), Nand::new(2, 3)],
    };
    assert!(!constant.test(&xor_test_function));
}
