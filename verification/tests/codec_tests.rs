use fault_sim::Circuit;
use fault_sim::MAX_NUMBER_CONNECTIONS;
use fault_sim::MAX_NUMBER_GATES;
use fault_sim::RESULT_WORDS;
use fault_sim::WorkPackage;
use fault_sim::decode_result;
use fault_sim::le_bytes_to_words;
use fault_sim::words_to_le_bytes;
use fault_sim::work_package_bytes;

#[test]
fn words_serialize_little_endian() {
    let words: Vec<u32> = vec![0x04030201, 1, 0xffffffff];
    let bytes = words_to_le_bytes(&words);
    assert_eq!(
        bytes,
        vec![1, 2, 3, 4, 1, 0, 0, 0, 0xff, 0xff, 0xff, 0xff]
    );
}

#[test]
fn bytes_to_words_round_trip() {
    let words: Vec<u32> = vec![0, 7, 0xdeadbeef, u32::MAX, 1 << 31];
    let bytes = words_to_le_bytes(&words);
    assert_eq!(le_bytes_to_words(&bytes), words);
}

#[test]
fn work_package_layout() {
    let mut circuit = Circuit::empty();
    circuit.from[0] = 1;
    circuit.to[0] = 3;
    circuit.gate[3] = 1;
    let package = WorkPackage::encode(circuit, 3, 4);
    assert_eq!(package.offset, 0);
    let words = package.to_words();
    assert_eq!(words.len(), 2 * MAX_NUMBER_CONNECTIONS + MAX_NUMBER_GATES + 3);
    assert_eq!(words[0], 1);
    assert_eq!(words[MAX_NUMBER_CONNECTIONS], 3);
    assert_eq!(words[2 * MAX_NUMBER_CONNECTIONS + 3], 1);
    assert_eq!(words[2 * MAX_NUMBER_CONNECTIONS + MAX_NUMBER_GATES], 3);
    assert_eq!(words[2 * MAX_NUMBER_CONNECTIONS + MAX_NUMBER_GATES + 1], 4);
    assert_eq!(words[2 * MAX_NUMBER_CONNECTIONS + MAX_NUMBER_GATES + 2], 0);
}

#[test]
fn work_package_encoding_is_deterministic() {
    let circuit = Circuit::default();
    let first = work_package_bytes(&WorkPackage::encode(circuit.clone(), 3, 4));
    let second = work_package_bytes(&WorkPackage::encode(circuit, 3, 4));
    assert_eq!(first, second);
}

#[test]
fn circuit_snapshot_independent_of_fault() {
    let circuit = Circuit::default();
    let snapshot = circuit.clone();
    let with_zero_fault = work_package_bytes(&WorkPackage::encode(circuit.clone(), 3, 3));
    let with_one_fault = work_package_bytes(&WorkPackage::encode(circuit.clone(), 3, 4));
    let circuit_prefix = 4 * (2 * MAX_NUMBER_CONNECTIONS + MAX_NUMBER_GATES);
    assert_eq!(with_zero_fault[..circuit_prefix], with_one_fault[..circuit_prefix]);
    assert_eq!(circuit, snapshot);
}

#[test]
fn decode_result_takes_exactly_the_result_size() {
    let bytes: Vec<u8> = vec![0; 4 * RESULT_WORDS];
    let words = decode_result(&bytes).unwrap();
    assert_eq!(words.len(), RESULT_WORDS);
    assert!(words.iter().all(|w| *w == 0));
}

#[test]
fn decode_result_rejects_wrong_size() {
    let short: Vec<u8> = vec![0; 4 * RESULT_WORDS - 4];
    assert!(decode_result(&short).is_none());
    let long: Vec<u8> = vec![0; 4 * RESULT_WORDS + 4];
    assert!(decode_result(&long).is_none());
    let empty: Vec<u8> = Vec::new();
    assert!(decode_result(&empty).is_none());
}

#[test]
fn echoed_prefix_decodes_unchanged() {
    let circuit = Circuit::default();
    let package = WorkPackage::encode(circuit, 3, 4);
    let payload = work_package_bytes(&package);
    let echoed: Vec<u8> = payload[..4 * RESULT_WORDS].to_vec();
    let result = decode_result(&echoed).unwrap();
    let words = package.to_words();
    assert_eq!(result, words[..RESULT_WORDS]);
}
