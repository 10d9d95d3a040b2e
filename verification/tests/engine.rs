use cellular_automaton::engine::vec_to_number;
use cellular_automaton::engine::CellularAutomaton;

#[test]
fn test_new() {
    let automaton = CellularAutomaton::new(30, vec![1; 128], false);
    assert_eq!(automaton.rule, 30);
}

#[test]
fn test_step_rule_0() {
    let mut automaton = CellularAutomaton::new(0, vec![1; 128], false);
    automaton.step();
    assert_eq!(automaton.get_state(), vec![0; 128]);
}

#[test]
fn test_step_rule_30() {
    let mut automaton = CellularAutomaton::new(30, vec![1; 128], false);
    automaton.step();
    // For rule 30, when all cells are 1, the next state will be all 0s except the left edge
    let mut expected = vec![0; 128];
    expected[0] = 1;
    assert_eq!(automaton.get_state(), expected);
}

#[test]
fn test_reset() {
    let mut automaton = CellularAutomaton::new(30, vec![1; 128], false);
    automaton.step();
    automaton.reset();
    assert_eq!(automaton.get_state(), vec![1; 128]);
}

#[test]
fn test_set_rule() {
    let mut automaton = CellularAutomaton::new(30, vec![1; 128], false);
    automaton.set_rule(0);
    assert_eq!(automaton.rule, 0);
}

#[test]
fn test_set_initial_state() {
    let mut automaton = CellularAutomaton::new(30, vec![1; 128], false);
    automaton.set_initial_state(vec![0; 128]);
    assert_eq!(automaton.initial_state, 0);
    assert_eq!(automaton.get_state(), vec![0; 128]);
}

#[test]
fn test_periodic_boundary() {
    let mut automaton = CellularAutomaton::new(128, vec![1; 128], false);
    automaton.step();
    let mut expected = vec![1; 128];
    expected[0] = 0;
    expected[127] = 0;

    assert_eq!(automaton.get_state(), expected);

    let mut automaton = CellularAutomaton::new(128, vec![1; 128], true);
    automaton.step();
    assert_eq!(automaton.get_state(), vec![1; 128]);
}

#[test]
fn test_set_periodic_boundary() {
    let mut automaton = CellularAutomaton::new(128, vec![1; 128], false);
    automaton.set_periodic_boundary(true);
    assert_eq!(automaton.periodic_boundary, true);
}

#[test]
fn test_step_rule_255() {
    let mut automaton = CellularAutomaton::new(255, vec![0; 128], false);
    automaton.step();
    assert_eq!(automaton.get_state(), vec![1; 128]);
}

#[test]
fn test_vec_to_number_exact() {
    let mut leftmost = vec![0; 128];
    leftmost[0] = 1;
    assert_eq!(vec_to_number(leftmost), 1u128 << 127);

    let mut rightmost = vec![0; 128];
    rightmost[127] = 1;
    assert_eq!(vec_to_number(rightmost), 1);

    let mut two_bits = vec![0; 128];
    two_bits[126] = 1;
    two_bits[127] = 1;
    assert_eq!(vec_to_number(two_bits), 3);

    assert_eq!(vec_to_number(vec![1; 128]), u128::MAX);
}

#[test]
fn test_round_trip() {
    let mut bits = vec![0; 128];
    for i in 0..128 {
        // an asymmetric pattern, so a reversed or shifted unpacking would show
        bits[i] = if i % 3 == 0 || i == 77 { 1 } else { 0 };
    }
    let automaton = CellularAutomaton::new(30, bits.clone(), false);
    assert_eq!(automaton.get_state(), bits);

    let automaton = CellularAutomaton::new(201, bits.clone(), true);
    assert_eq!(automaton.get_state(), bits);
}

#[test]
fn test_set_rule_keeps_state() {
    let mut bits = vec![0; 128];
    bits[17] = 1;
    bits[90] = 1;
    let mut automaton = CellularAutomaton::new(30, bits.clone(), false);
    automaton.set_rule(90);
    assert_eq!(automaton.get_state(), bits);
}

#[test]
fn test_synchronous_update() {
    // Rule 240 copies each cell's left neighbor, so a lone 1 moves one cell
    // to the right per step. A left-to-right in-place update would read the
    // already-cleared neighbor and wipe the row instead.
    let mut bits = vec![0; 128];
    bits[0] = 1;
    let mut automaton = CellularAutomaton::new(240, bits, false);
    automaton.step();
    let mut expected = vec![0; 128];
    expected[1] = 1;
    assert_eq!(automaton.get_state(), expected);
}

#[test]
fn test_reset_idempotent() {
    let mut automaton = CellularAutomaton::new(30, vec![1; 128], false);
    automaton.step();
    automaton.reset();
    let once = automaton.get_state();
    automaton.reset();
    assert_eq!(automaton.get_state(), once);
    assert_eq!(once, vec![1; 128]);
}
