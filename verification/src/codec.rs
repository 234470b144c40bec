use vstd::prelude::*;

use crate::package::WorkPackage;

verus! {

/// Number of 32-bit words in the result buffer read back per dispatch.
pub const RESULT_WORDS: usize = 256;

/// The four little-endian bytes of one 32-bit word.
pub open spec fn word_le_bytes(x: u32) -> Seq<u8> {
    seq![
        (x & 0xff) as u8,
        ((x >> 8) & 0xff) as u8,
        ((x >> 16) & 0xff) as u8,
        ((x >> 24) & 0xff) as u8,
    ]
}

/// The little-endian bytes of a word sequence, word by word.
pub open spec fn words_le_bytes(s: Seq<u32>) -> Seq<u8>
    decreases s.len(),
{
    if s.len() == 0 {
        Seq::empty()
    } else {
        word_le_bytes(s[0]) + words_le_bytes(s.drop_first())
    }
}

/// The 32-bit word read from four little-endian bytes.
pub open spec fn word_of_le_bytes(b0: u8, b1: u8, b2: u8, b3: u8) -> u32 {
    (b0 as u32) | ((b1 as u32) << 8) | ((b2 as u32) << 16) | ((b3 as u32) << 24)
}

/// The word sequence read from a byte sequence, four little-endian bytes
/// per word; trailing bytes that do not fill a word are ignored.
pub open spec fn le_bytes_words(s: Seq<u8>) -> Seq<u32> {
    Seq::new(s.len() / 4, (|i: int| word_of_le_bytes(s[4 * i], s[4 * i + 1], s[4 * i + 2], s[4 * i + 3])))
}

/// Serializing a word sequence yields four bytes per word.
pub proof fn lemma_words_le_bytes_len(s: Seq<u32>)
    ensures
        words_le_bytes(s).len() == 4 * s.len(),
    decreases s.len(),
{
    if s.len() > 0 {
        lemma_words_le_bytes_len(s.drop_first());
    }
}

/// Reading four little-endian bytes back as a word undoes writing a word
/// as four little-endian bytes.
pub proof fn lemma_word_le_round_trip(x: u32)
    ensures
        word_of_le_bytes(
            (x & 0xff) as u8,
            ((x >> 8) & 0xff) as u8,
            ((x >> 16) & 0xff) as u8,
            ((x >> 24) & 0xff) as u8,
        ) == x,
{
    assert(((x & 0xff) as u8 as u32) | (((x >> 8) & 0xff) as u8 as u32) << 8 | (((x >> 16)
        & 0xff) as u8 as u32) << 16 | (((x >> 24) & 0xff) as u8 as u32) << 24 == x)
        by (bit_vector);
}

/// Each word of a serialized sequence can be read back from its own four
/// bytes.
proof fn lemma_words_le_bytes_index(s: Seq<u32>, i: int)
    requires
        0 <= i < s.len(),
    ensures
        words_le_bytes(s).len() == 4 * s.len(),
        words_le_bytes(s)[4 * i] == (s[i] & 0xff) as u8,
        words_le_bytes(s)[4 * i + 1] == ((s[i] >> 8) & 0xff) as u8,
        words_le_bytes(s)[4 * i + 2] == ((s[i] >> 16) & 0xff) as u8,
        words_le_bytes(s)[4 * i + 3] == ((s[i] >> 24) & 0xff) as u8,
    decreases s.len(),
{
    lemma_words_le_bytes_len(s);
    lemma_words_le_bytes_len(s.drop_first());
    if i > 0 {
        lemma_words_le_bytes_index(s.drop_first(), i - 1);
    }
}

/// Round trip: reading a serialized word sequence back, four bytes at a
/// time, yields the original words. This carries an echoed input buffer
/// through the codec unchanged.
pub proof fn lemma_le_round_trip(s: Seq<u32>)
    ensures
        le_bytes_words(words_le_bytes(s)) == s,
{
    lemma_words_le_bytes_len(s);
    assert forall|i: int| 0 <= i < s.len() implies le_bytes_words(words_le_bytes(s))[i]
        == s[i] by {
        lemma_words_le_bytes_index(s, i);
        lemma_word_le_round_trip(s[i]);
    }
    assert(le_bytes_words(words_le_bytes(s)) =~= s);
}

/// Reading back a prefix of a serialized word sequence yields a prefix
/// of the original words: a kernel that echoes its input buffer into the
/// first `k` words of its output buffer hands those words back through
/// the codec unchanged.
pub proof fn lemma_echo_prefix_round_trip(s: Seq<u32>, k: int)
    requires
        0 <= k <= s.len(),
    ensures
        le_bytes_words(words_le_bytes(s).take(4 * k)) == s.take(k),
{
    lemma_words_le_bytes_len(s);
    let taken = words_le_bytes(s).take(4 * k);
    assert forall|i: int| 0 <= i < k implies le_bytes_words(taken)[i] == s[i] by {
        lemma_words_le_bytes_index(s, i);
        assert(taken[4 * i] == words_le_bytes(s)[4 * i]);
        assert(taken[4 * i + 1] == words_le_bytes(s)[4 * i + 1]);
        assert(taken[4 * i + 2] == words_le_bytes(s)[4 * i + 2]);
        assert(taken[4 * i + 3] == words_le_bytes(s)[4 * i + 3]);
        lemma_word_le_round_trip(s[i]);
    }
    assert(le_bytes_words(taken) =~= s.take(k));
}

/// The serialized byte payload is deterministic: two packages built from
/// the same circuit and the same fault target serialize to byte-identical
/// payloads.
pub proof fn lemma_bytes_deterministic(a: WorkPackage, b: WorkPackage)
    requires
        a.circuit.from@ == b.circuit.from@,
        a.circuit.to@ == b.circuit.to@,
        a.circuit.gate@ == b.circuit.gate@,
        a.stuck_at_fault_gate == b.stuck_at_fault_gate,
        a.stuck_at_fault_value == b.stuck_at_fault_value,
        a.offset == b.offset,
    ensures
        words_le_bytes(a.words_spec()) == words_le_bytes(b.words_spec()),
{
    crate::package::lemma_words_deterministic(a, b);
}

/// Serializes a word sequence into its little-endian bytes.
pub fn words_to_le_bytes(words: &Vec<u32>) -> (r: Vec<u8>)
    ensures
        r@ == words_le_bytes(words@),
        r@.len() == 4 * words@.len(),
{
    let mut r: Vec<u8> = Vec::new();
    let mut i: usize = 0;
    while i < words.len()
        invariant
            i <= words@.len(),
            r@ == words_le_bytes(words@.take(i as int)),
            r@.len() == 4 * i,
        decreases words@.len() - i,
    {
        let x = words[i];
        r.push((x & 0xff) as u8);
        r.push(((x >> 8) & 0xff) as u8);
        r.push(((x >> 16) & 0xff) as u8);
        r.push(((x >> 24) & 0xff) as u8);
        proof {
            lemma_words_le_bytes_snoc(words@.take(i as int), words@[i as int]);
            assert(words@.take(i + 1) =~= words@.take(i as int).push(words@[i as int]));
            assert(r@ =~= words_le_bytes(words@.take(i as int)) + word_le_bytes(words@[i as int]));
            lemma_words_le_bytes_len(words@.take(i + 1));
        }
        i = i + 1;
    }
    proof {
        assert(words@.take(words@.len() as int) =~= words@);
    }
    r
}

/// Serializing one more word appends its four bytes.
proof fn lemma_words_le_bytes_snoc(s: Seq<u32>, x: u32)
    ensures
        words_le_bytes(s.push(x)) == words_le_bytes(s) + word_le_bytes(x),
    decreases s.len(),
{
    if s.len() == 0 {
        assert(s.push(x)[0] == x);
        assert(s.push(x).drop_first() =~= Seq::<u32>::empty());
        assert(words_le_bytes(s.push(x)) == word_le_bytes(x) + words_le_bytes(
            s.push(x).drop_first(),
        ));
        assert(words_le_bytes(s.push(x)) =~= words_le_bytes(s) + word_le_bytes(x));
    } else {
        assert(s.push(x)[0] == s[0]);
        assert(s.push(x).drop_first() =~= s.drop_first().push(x));
        lemma_words_le_bytes_snoc(s.drop_first(), x);
        assert(words_le_bytes(s.push(x)) == word_le_bytes(s[0]) + words_le_bytes(
            s.drop_first().push(x),
        ));
        assert(words_le_bytes(s.push(x)) =~= words_le_bytes(s) + word_le_bytes(x));
    }
}

/// Reads a byte sequence back as words, four little-endian bytes each.
pub fn le_bytes_to_words(bytes: &Vec<u8>) -> (r: Vec<u32>)
    requires
        bytes@.len() % 4 == 0,
    ensures
        r@ == le_bytes_words(bytes@),
{
    let mut r: Vec<u32> = Vec::new();
    let mut i: usize = 0;
    while i < bytes.len()
        invariant
            bytes@.len() % 4 == 0,
            i % 4 == 0,
            i <= bytes@.len(),
            r@.len() == i / 4,
            forall|k: int| 0 <= k < r@.len() ==> r@[k] == le_bytes_words(bytes@)[k],
        decreases bytes@.len() - i,
    {
        proof {
            assert(i + 4 <= bytes@.len());
        }
        let b0 = bytes[i];
        let b1 = bytes[i + 1];
        let b2 = bytes[i + 2];
        let b3 = bytes[i + 3];
        let w = (b0 as u32) | ((b1 as u32) << 8) | ((b2 as u32) << 16) | ((b3 as u32) << 24);
        proof {
            let k = i as int / 4;
            assert(4 * k == i as int);
            assert(le_bytes_words(bytes@)[k] == word_of_le_bytes(
                bytes@[i as int],
                bytes@[i as int + 1],
                bytes@[i as int + 2],
                bytes@[i as int + 3],
            ));
        }
        r.push(w);
        i = i + 4;
    }
    proof {
        assert(r@ =~= le_bytes_words(bytes@));
    }
    r
}

/// Decodes one dispatch's readback buffer: exactly the fixed number of
/// result words, or nothing when the buffer has the wrong size.
pub fn decode_result(bytes: &Vec<u8>) -> (r: Option<Vec<u32>>)
    ensures
        match r {
            Some(words) => bytes@.len() == 4 * RESULT_WORDS && words@ == le_bytes_words(bytes@)
                && words@.len() == RESULT_WORDS,
            None => bytes@.len() != 4 * RESULT_WORDS,
        },
{
    if bytes.len() != 4 * RESULT_WORDS {
        return None;
    }
    Some(le_bytes_to_words(bytes))
}

/// The full host-side half of one dispatch: the little-endian bytes of
/// the serialized package, as uploaded into the device input buffer.
pub fn work_package_bytes(package: &WorkPackage) -> (r: Vec<u8>)
    requires
        package.wf(),
    ensures
        r@ == words_le_bytes(package.words_spec()),
        r@.len() == 4 * crate::package::work_package_words(),
{
    let words = package.to_words();
    words_to_le_bytes(&words)
}

} // verus!
