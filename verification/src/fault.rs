use vstd::prelude::*;

use crate::circuit::Circuit;

verus! {

/// Encoding of a stuck-at-0 fault. The values 3 and 4 are chosen so that
/// a fault value never collides with the 0/1/2 domain used elsewhere in
/// the device-side encoding.
pub const FAULT_STUCK_AT_ZERO: u32 = 3;

/// Encoding of a stuck-at-1 fault.
pub const FAULT_STUCK_AT_ONE: u32 = 4;

/// A single fault target: a gate identifier and the value that gate is
/// assumed stuck at. The enumerator yields one unit per gate and
/// polarity; each unit drives exactly one dispatch.
#[derive(Clone, Copy, Debug, PartialEq, Eq, Structural)]
pub struct FaultTestUnit {
    pub gate: u32,
    pub fault_value: u32,
}

/// The cross product of the discovered gates with the two fault
/// polarities: gate is the outer loop, fault value the inner one, the
/// stuck-at-0 polarity first.
pub open spec fn fault_units_spec(gates: Seq<u32>) -> Seq<FaultTestUnit> {
    Seq::new(
        2 * gates.len(),
        (|i: int| FaultTestUnit {
            gate: gates[i / 2],
            fault_value: if i % 2 == 0 { FAULT_STUCK_AT_ZERO } else { FAULT_STUCK_AT_ONE },
        }),
    )
}

/// Enumerates the fault tests for `circuit`: both polarities for each
/// gate `circuit.gates()` discovers, in discovery order.
pub fn fault_units(circuit: &Circuit) -> (r: Vec<FaultTestUnit>)
    ensures
        r@ == fault_units_spec(circuit.gates_spec()),
{
    let gates = circuit.gates();
    let mut r: Vec<FaultTestUnit> = Vec::new();
    let mut i: usize = 0;
    while i < gates.len()
        invariant
            i <= gates@.len(),
            gates@ == circuit.gates_spec(),
            r@.len() == 2 * i,
            forall|k: int|
                0 <= k < r@.len() ==> r@[k] == fault_units_spec(circuit.gates_spec())[k],
        decreases gates@.len() - i,
    {
        let gate = gates[i];
        r.push(FaultTestUnit { gate, fault_value: FAULT_STUCK_AT_ZERO });
        r.push(FaultTestUnit { gate, fault_value: FAULT_STUCK_AT_ONE });
        i = i + 1;
    }
    proof {
        assert(r@ =~= fault_units_spec(circuit.gates_spec()));
    }
    r
}

} // verus!
