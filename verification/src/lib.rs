mod circuit;
mod codec;
mod fault;
mod package;

pub use circuit::Circuit;
pub use circuit::collect_gates;
pub use circuit::collect_step;
pub use circuit::distinct;
pub use circuit::first_index;
pub use circuit::gate_ids;
pub use circuit::lemma_collect_concat;
pub use circuit::lemma_default_circuit_gates;
pub use circuit::lemma_first_index_is_first;
pub use circuit::lemma_gates_distinct;
pub use circuit::lemma_gates_first_seen_order;
pub use circuit::lemma_gates_membership;

pub use codec::RESULT_WORDS;
pub use codec::decode_result;
pub use codec::le_bytes_to_words;
pub use codec::le_bytes_words;
pub use codec::lemma_bytes_deterministic;
pub use codec::lemma_echo_prefix_round_trip;
pub use codec::lemma_le_round_trip;
pub use codec::lemma_word_le_round_trip;
pub use codec::lemma_words_le_bytes_len;
pub use codec::word_le_bytes;
pub use codec::word_of_le_bytes;
pub use codec::words_le_bytes;
pub use codec::words_to_le_bytes;
pub use codec::work_package_bytes;

pub use fault::FAULT_STUCK_AT_ONE;
pub use fault::FAULT_STUCK_AT_ZERO;
pub use fault::FaultTestUnit;
pub use fault::fault_units;
pub use fault::fault_units_spec;
pub use package::WorkPackage;
pub use package::lemma_circuit_snapshot_independent_of_fault;
pub use package::lemma_words_deterministic;
pub use package::work_package_words;

use vstd::prelude::*;

verus! {

/// Number of connection slots a circuit can hold.
pub const MAX_NUMBER_CONNECTIONS: usize = 32768;

/// Number of gate slots a circuit can hold.
pub const MAX_NUMBER_GATES: usize = 8192;

} // verus!
