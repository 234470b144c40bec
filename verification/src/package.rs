use vstd::prelude::*;

use crate::MAX_NUMBER_CONNECTIONS;
use crate::MAX_NUMBER_GATES;
use crate::circuit::Circuit;

verus! {

/// Number of 32-bit words in one serialized work package.
pub open spec fn work_package_words() -> int {
    2 * MAX_NUMBER_CONNECTIONS + MAX_NUMBER_GATES + 3
}

/// The payload uploaded to the device for one compute dispatch: a full
/// circuit snapshot plus one fault target. The word layout is a fixed
/// contract with the compute kernel and must not change on one side alone.
#[derive(Clone, Debug, PartialEq)]
pub struct WorkPackage {
    pub circuit: Circuit,
    pub stuck_at_fault_gate: u32,
    pub stuck_at_fault_value: u32,
    pub offset: u32,
}

impl WorkPackage {
    pub open spec fn wf(self) -> bool {
        self.circuit.wf()
    }

    /// Word image of the package, in the order the kernel reads it.
    pub open spec fn words_spec(self) -> Seq<u32> {
        self.circuit.from@ + self.circuit.to@ + self.circuit.gate@
            + seq![self.stuck_at_fault_gate, self.stuck_at_fault_value, self.offset]
    }

    /// Combines a circuit snapshot with one fault target. The caller hands
    /// the circuit over by value: the package embeds an independent copy,
    /// shared with nobody. The sub-batching offset is always 0.
    pub fn encode(circuit: Circuit, stuck_at_fault_gate: u32, stuck_at_fault_value: u32) -> (r:
        WorkPackage)
        ensures
            r.circuit == circuit,
            r.stuck_at_fault_gate == stuck_at_fault_gate,
            r.stuck_at_fault_value == stuck_at_fault_value,
            r.offset == 0,
    {
        WorkPackage { circuit, stuck_at_fault_gate, stuck_at_fault_value, offset: 0 }
    }

    /// Serializes the package into its flat word sequence.
    pub fn to_words(&self) -> (r: Vec<u32>)
        requires
            self.wf(),
        ensures
            r@ == self.words_spec(),
            r@.len() == work_package_words(),
    {
        let mut r: Vec<u32> = Vec::new();
        append_words(&mut r, &self.circuit.from);
        append_words(&mut r, &self.circuit.to);
        append_words(&mut r, &self.circuit.gate);
        r.push(self.stuck_at_fault_gate);
        r.push(self.stuck_at_fault_value);
        r.push(self.offset);
        proof {
            assert(r@ =~= self.words_spec());
        }
        r
    }
}

/// Appends every word of `src` to `dst` in order.
fn append_words(dst: &mut Vec<u32>, src: &Vec<u32>)
    ensures
        final(dst)@ == old(dst)@ + src@,
{
    let mut i: usize = 0;
    while i < src.len()
        invariant
            i <= src@.len(),
            dst@ == old(dst)@ + src@.take(i as int),
        decreases src@.len() - i,
    {
        dst.push(src[i]);
        proof {
            assert(old(dst)@ + src@.take(i + 1) =~= (old(dst)@ + src@.take(i as int)).push(
                src@[i as int],
            ));
        }
        i = i + 1;
    }
    proof {
        assert(old(dst)@ + src@.take(src@.len() as int) =~= old(dst)@ + src@);
    }
}

/// The serialized layout is deterministic: two packages built from the
/// same circuit and the same fault target serialize to identical words.
pub proof fn lemma_words_deterministic(a: WorkPackage, b: WorkPackage)
    requires
        a.circuit.from@ == b.circuit.from@,
        a.circuit.to@ == b.circuit.to@,
        a.circuit.gate@ == b.circuit.gate@,
        a.stuck_at_fault_gate == b.stuck_at_fault_gate,
        a.stuck_at_fault_value == b.stuck_at_fault_value,
        a.offset == b.offset,
    ensures
        a.words_spec() == b.words_spec(),
{
}

/// The circuit snapshot embedded in a package does not depend on the
/// fault target: however two packages built from one circuit differ in
/// gate, fault value or offset, their words agree on the whole circuit
/// prefix. Dispatching the same circuit twice with different faults
/// uploads the same circuit words both times.
pub proof fn lemma_circuit_snapshot_independent_of_fault(a: WorkPackage, b: WorkPackage)
    requires
        a.wf(),
        b.wf(),
        a.circuit.from@ == b.circuit.from@,
        a.circuit.to@ == b.circuit.to@,
        a.circuit.gate@ == b.circuit.gate@,
    ensures
        a.words_spec().take(2 * MAX_NUMBER_CONNECTIONS + MAX_NUMBER_GATES) == b.words_spec().take(
            2 * MAX_NUMBER_CONNECTIONS + MAX_NUMBER_GATES,
        ),
        a.words_spec().take(2 * MAX_NUMBER_CONNECTIONS + MAX_NUMBER_GATES) == a.circuit.from@
            + a.circuit.to@ + a.circuit.gate@,
{
    assert(a.words_spec().take(2 * MAX_NUMBER_CONNECTIONS + MAX_NUMBER_GATES) =~= a.circuit.from@
        + a.circuit.to@ + a.circuit.gate@);
    assert(b.words_spec().take(2 * MAX_NUMBER_CONNECTIONS + MAX_NUMBER_GATES) =~= b.circuit.from@
        + b.circuit.to@ + b.circuit.gate@);
}

} // verus!
