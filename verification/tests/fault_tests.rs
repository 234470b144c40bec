use fault_sim::Circuit;
use fault_sim::FAULT_STUCK_AT_ONE;
use fault_sim::FAULT_STUCK_AT_ZERO;
use fault_sim::fault_units;

#[test]
fn fault_values_are_fixed() {
    assert_eq!(FAULT_STUCK_AT_ZERO, 3);
    assert_eq!(FAULT_STUCK_AT_ONE, 4);
}

#[test]
fn fault_units_of_single_gate_circuit() {
    let mut circuit = Circuit::empty();
    circuit.to[0] = 3;
    assert_eq!(circuit.gates(), vec![3]);
    let units = fault_units(&circuit);
    assert_eq!(units.len(), 2);
    assert_eq!(units[0].gate, 3);
    assert_eq!(units[0].fault_value, FAULT_STUCK_AT_ZERO);
    assert_eq!(units[1].gate, 3);
    assert_eq!(units[1].fault_value, FAULT_STUCK_AT_ONE);
}

#[test]
fn fault_units_gate_outer_fault_inner() {
    let mut circuit = Circuit::empty();
    circuit.from[0] = 5;
    circuit.from[1] = 7;
    let units = fault_units(&circuit);
    let pairs: Vec<(u32, u32)> = units.iter().map(|u| (u.gate, u.fault_value)).collect();
    assert_eq!(pairs, vec![(5, 3), (5, 4), (7, 3), (7, 4)]);
}

#[test]
fn fault_units_of_empty_circuit() {
    let circuit = Circuit::empty();
    assert_eq!(fault_units(&circuit).len(), 0);
}

#[test]
fn fault_units_of_default_circuit() {
    let circuit = Circuit::default();
    let units = fault_units(&circuit);
    let pairs: Vec<(u32, u32)> = units.iter().map(|u| (u.gate, u.fault_value)).collect();
    assert_eq!(pairs, vec![(1, 3), (1, 4), (2, 3), (2, 4), (3, 3), (3, 4)]);
}
