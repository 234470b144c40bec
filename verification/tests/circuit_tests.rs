use fault_sim::Circuit;
use fault_sim::MAX_NUMBER_CONNECTIONS;
use fault_sim::MAX_NUMBER_GATES;

#[test]
fn gates_of_default_circuit() {
    let circuit = Circuit::default();
    assert_eq!(circuit.from[0], 1);
    assert_eq!(circuit.from[1], 2);
    assert_eq!(circuit.to[0], 3);
    assert_eq!(circuit.to[1], 3);
    assert_eq!(circuit.gate[3], 1);
    assert_eq!(circuit.gates(), vec![1, 2, 3]);
}

#[test]
fn gates_of_empty_circuit() {
    let circuit = Circuit::empty();
    assert_eq!(circuit.from.len(), MAX_NUMBER_CONNECTIONS);
    assert_eq!(circuit.to.len(), MAX_NUMBER_CONNECTIONS);
    assert_eq!(circuit.gate.len(), MAX_NUMBER_GATES);
    assert_eq!(circuit.gates(), Vec::<u32>::new());
}

#[test]
fn gates_scans_from_before_to() {
    let mut circuit = Circuit::empty();
    circuit.from[0] = 5;
    circuit.from[1] = 7;
    circuit.to[0] = 9;
    circuit.to[1] = 5;
    assert_eq!(circuit.gates(), vec![5, 7, 9]);
}

#[test]
fn gates_suppresses_duplicates() {
    let mut circuit = Circuit::empty();
    circuit.from[0] = 4;
    circuit.from[1] = 4;
    circuit.from[2] = 6;
    circuit.to[0] = 6;
    circuit.to[1] = 4;
    assert_eq!(circuit.gates(), vec![4, 6]);
}

#[test]
fn gates_ignores_zero_slots() {
    let mut circuit = Circuit::empty();
    circuit.from[10] = 8;
    circuit.to[20] = 2;
    assert_eq!(circuit.gates(), vec![8, 2]);
}

#[test]
fn gates_first_seen_order_with_gaps() {
    let mut circuit = Circuit::empty();
    circuit.from[5] = 11;
    circuit.from[100] = 3;
    circuit.to[0] = 11;
    circuit.to[1] = 12;
    assert_eq!(circuit.gates(), vec![11, 3, 12]);
}
