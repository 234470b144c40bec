use vstd::prelude::*;

use crate::MAX_NUMBER_CONNECTIONS;
use crate::MAX_NUMBER_GATES;

verus! {

/// One step of the first-seen scan over connection identifiers: append `x`
/// when it is a real gate identifier (non-zero) that was not collected yet.
pub open spec fn collect_step(acc: Seq<u32>, x: u32) -> Seq<u32> {
    if x != 0 && !acc.contains(x) {
        acc.push(x)
    } else {
        acc
    }
}

/// Scan `s` from left to right, starting from the already collected `acc`.
pub open spec fn collect_gates(acc: Seq<u32>, s: Seq<u32>) -> Seq<u32>
    decreases s.len(),
{
    if s.len() == 0 {
        acc
    } else {
        collect_gates(collect_step(acc, s[0]), s.drop_first())
    }
}

/// All distinct non-zero identifiers appearing in `from` or `to`, in
/// first-seen order, with `from` scanned fully before `to`.
pub open spec fn gate_ids(from: Seq<u32>, to: Seq<u32>) -> Seq<u32> {
    collect_gates(collect_gates(Seq::empty(), from), to)
}

/// A fixed-capacity directed connection graph plus a per-gate word table.
/// Slot `i` connects gate `from[i]` to gate `to[i]`; the identifier 0 is
/// reserved for "no connection" and never names a real gate.
#[derive(Clone, Debug, PartialEq)]
pub struct Circuit {
    pub from: Vec<u32>,
    pub to: Vec<u32>,
    pub gate: Vec<u32>,
}

impl Circuit {
    /// Every circuit carries exactly the fixed number of connection slots
    /// and gate table entries.
    pub open spec fn wf(self) -> bool {
        &&& self.from@.len() == MAX_NUMBER_CONNECTIONS
        &&& self.to@.len() == MAX_NUMBER_CONNECTIONS
        &&& self.gate@.len() == MAX_NUMBER_GATES
    }

    /// The distinct non-zero gate identifiers referenced by any connection.
    pub open spec fn gates_spec(self) -> Seq<u32> {
        gate_ids(self.from@, self.to@)
    }

    /// A circuit with no connections and an all-zero gate table.
    pub fn empty() -> (r: Circuit)
        ensures
            r.wf(),
            forall|i: int| 0 <= i < MAX_NUMBER_CONNECTIONS ==> r.from@[i] == 0,
            forall|i: int| 0 <= i < MAX_NUMBER_CONNECTIONS ==> r.to@[i] == 0,
            forall|i: int| 0 <= i < MAX_NUMBER_GATES ==> r.gate@[i] == 0,
    {
        Circuit { from: zero_words(MAX_NUMBER_CONNECTIONS), to: zero_words(MAX_NUMBER_CONNECTIONS), gate: zero_words(MAX_NUMBER_GATES) }
    }

    /// Collects each distinct non-zero identifier of either connection
    /// array, scanning `from` in index order and then `to`.
    pub fn gates(&self) -> (r: Vec<u32>)
        ensures
            r@ == self.gates_spec(),
    {
        let mut r: Vec<u32> = Vec::new();
        let mut i: usize = 0;
        while i < self.from.len()
            invariant
                i <= self.from@.len(),
                r@ == collect_gates(Seq::<u32>::empty(), self.from@.take(i as int)),
            decreases self.from@.len() - i,
        {
            let x = self.from[i];
            if x != 0 && !contains_word(&r, x) {
                r.push(x);
            }
            proof {
                assert(self.from@.take(i + 1) =~= self.from@.take(i as int).push(self.from@[i as int]));
                lemma_collect_snoc(Seq::<u32>::empty(), self.from@.take(i as int), self.from@[i as int]);
            }
            i = i + 1;
        }
        proof {
            assert(self.from@.take(self.from@.len() as int) =~= self.from@);
        }
        let mut j: usize = 0;
        while j < self.to.len()
            invariant
                j <= self.to@.len(),
                r@ == collect_gates(collect_gates(Seq::<u32>::empty(), self.from@), self.to@.take(j as int)),
            decreases self.to@.len() - j,
        {
            let x = self.to[j];
            if x != 0 && !contains_word(&r, x) {
                r.push(x);
            }
            proof {
                assert(self.to@.take(j + 1) =~= self.to@.take(j as int).push(self.to@[j as int]));
                lemma_collect_snoc(collect_gates(Seq::<u32>::empty(), self.from@), self.to@.take(j as int), self.to@[j as int]);
            }
            j = j + 1;
        }
        proof {
            assert(self.to@.take(self.to@.len() as int) =~= self.to@);
        }
        r
    }
}

impl Default for Circuit {
    /// The example circuit: slot 0 connects gate 1 to gate 3, slot 1
    /// connects gate 2 to gate 3, gate table entry 3 holds 1, and all
    /// remaining slots are zero.
    fn default() -> (r: Circuit)
        ensures
            r.wf(),
            r.from@ == Seq::new(MAX_NUMBER_CONNECTIONS as nat, (|i: int| if i == 0 { 1u32 } else if i == 1 { 2u32 } else { 0u32 })),
            r.to@ == Seq::new(MAX_NUMBER_CONNECTIONS as nat, (|i: int| if i == 0 || i == 1 { 3u32 } else { 0u32 })),
            r.gate@ == Seq::new(MAX_NUMBER_GATES as nat, (|i: int| if i == 3 { 1u32 } else { 0u32 })),
    {
        let mut r = Circuit::empty();
        r.from[0] = 1;
        r.from[1] = 2;
        r.to[0] = 3;
        r.to[1] = 3;
        r.gate[3] = 1;
        proof {
            assert(r.from@ =~= Seq::new(MAX_NUMBER_CONNECTIONS as nat, (|i: int| if i == 0 { 1u32 } else if i == 1 { 2u32 } else { 0u32 })));
            assert(r.to@ =~= Seq::new(MAX_NUMBER_CONNECTIONS as nat, (|i: int| if i == 0 || i == 1 { 3u32 } else { 0u32 })));
            assert(r.gate@ =~= Seq::new(MAX_NUMBER_GATES as nat, (|i: int| if i == 3 { 1u32 } else { 0u32 })));
        }
        r
    }
}

/// Whether `x` occurs in `v`.
fn contains_word(v: &Vec<u32>, x: u32) -> (r: bool)
    ensures
        r == v@.contains(x),
{
    let mut i: usize = 0;
    while i < v.len()
        invariant
            i <= v@.len(),
            forall|j: int| 0 <= j < i ==> v@[j] != x,
        decreases v@.len() - i,
    {
        if v[i] == x {
            return true;
        }
        i = i + 1;
    }
    false
}

/// A vector of `n` zero words.
fn zero_words(n: usize) -> (r: Vec<u32>)
    ensures
        r@.len() == n,
        forall|i: int| 0 <= i < n ==> r@[i] == 0,
{
    let mut r: Vec<u32> = Vec::new();
    let mut i: usize = 0;
    while i < n
        invariant
            i <= n,
            r@.len() == i,
            forall|j: int| 0 <= j < i ==> r@[j] == 0,
        decreases n - i,
    {
        r.push(0);
        i = i + 1;
    }
    r
}

/// Scanning one more identifier after `s` applies one collection step to
/// the result of scanning `s`.
proof fn lemma_collect_snoc(acc: Seq<u32>, s: Seq<u32>, x: u32)
    ensures
        collect_gates(acc, s.push(x)) == collect_step(collect_gates(acc, s), x),
    decreases s.len(),
{
    if s.len() == 0 {
        assert(s.push(x)[0] == x);
        assert(s.push(x).drop_first() =~= Seq::<u32>::empty());
        assert(collect_gates(acc, s.push(x)) == collect_gates(collect_step(acc, x), s.push(x).drop_first()));
    } else {
        assert(s.push(x)[0] == s[0]);
        assert(s.push(x).drop_first() =~= s.drop_first().push(x));
        lemma_collect_snoc(collect_step(acc, s[0]), s.drop_first(), x);
        assert(collect_gates(acc, s.push(x)) == collect_gates(collect_step(acc, s[0]), s.drop_first().push(x)));
    }
}

/// Whether no identifier occurs twice in `s`.
pub open spec fn distinct(s: Seq<u32>) -> bool {
    forall|i: int, j: int| 0 <= i < j < s.len() ==> s[i] != s[j]
}

/// The index of the first occurrence of `x` in `s` (meaningful when `s`
/// contains `x`).
pub open spec fn first_index(s: Seq<u32>, x: u32) -> int
    decreases s.len(),
{
    if s.len() == 0 {
        0
    } else if s[0] == x {
        0
    } else {
        1 + first_index(s.drop_first(), x)
    }
}

proof fn lemma_contains_drop_first(s: Seq<u32>, x: u32)
    requires
        s.len() > 0,
    ensures
        s.contains(x) <==> (s[0] == x || s.drop_first().contains(x)),
{
    if s.drop_first().contains(x) {
        let j = choose|j: int| 0 <= j < s.drop_first().len() && s.drop_first()[j] == x;
        assert(s[j + 1] == x);
    }
    if s.contains(x) && s[0] != x {
        let j = choose|j: int| 0 <= j < s.len() && s[j] == x;
        assert(s.drop_first()[j - 1] == x);
    }
}

/// The first occurrence really is one: it holds `x`, and nothing before
/// it does.
pub proof fn lemma_first_index_is_first(s: Seq<u32>, x: u32)
    requires
        s.contains(x),
    ensures
        0 <= first_index(s, x) < s.len(),
        s[first_index(s, x)] == x,
        forall|k: int| 0 <= k < first_index(s, x) ==> s[k] != x,
    decreases s.len(),
{
    lemma_contains_drop_first(s, x);
    if s[0] != x {
        lemma_first_index_is_first(s.drop_first(), x);
        assert forall|k: int| 0 <= k < first_index(s, x) implies s[k] != x by {
            if k > 0 {
                assert(s.drop_first()[k - 1] == s[k]);
            }
        }
    }
}

proof fn lemma_contains_push(acc: Seq<u32>, y: u32, x: u32)
    ensures
        acc.push(y).contains(x) <==> (acc.contains(x) || x == y),
{
    if acc.push(y).contains(x) {
        let j = choose|j: int| 0 <= j < acc.push(y).len() && acc.push(y)[j] == x;
        if j < acc.len() {
            assert(acc[j] == x);
        }
    }
    if acc.contains(x) {
        let j = choose|j: int| 0 <= j < acc.len() && acc[j] == x;
        assert(acc.push(y)[j] == x);
    }
    assert(acc.push(y)[acc.len() as int] == y);
}

proof fn lemma_collect_membership(acc: Seq<u32>, s: Seq<u32>, x: u32)
    ensures
        collect_gates(acc, s).contains(x) <==> (acc.contains(x) || (x != 0 && s.contains(x))),
    decreases s.len(),
{
    if s.len() == 0 {
    } else {
        lemma_contains_drop_first(s, x);
        lemma_collect_membership(collect_step(acc, s[0]), s.drop_first(), x);
        if s[0] != 0 && !acc.contains(s[0]) {
            assert(collect_step(acc, s[0]) == acc.push(s[0]));
            lemma_contains_push(acc, s[0], x);
        }
        assert(s.contains(s[0]));
    }
}

/// Each non-zero identifier of either connection array appears in
/// `gates()`, and nothing else does: in particular the reserved
/// identifier 0 is never reported as a gate.
pub proof fn lemma_gates_membership(c: Circuit, x: u32)
    ensures
        c.gates_spec().contains(x) <==> (x != 0 && (c.from@.contains(x) || c.to@.contains(x))),
{
    lemma_collect_membership(Seq::<u32>::empty(), c.from@, x);
    lemma_collect_membership(collect_gates(Seq::<u32>::empty(), c.from@), c.to@, x);
}

proof fn lemma_collect_distinct(acc: Seq<u32>, s: Seq<u32>)
    requires
        distinct(acc),
    ensures
        distinct(collect_gates(acc, s)),
    decreases s.len(),
{
    if s.len() > 0 {
        assert(distinct(collect_step(acc, s[0]))) by {
            if s[0] != 0 && !acc.contains(s[0]) {
                assert forall|i: int, j: int|
                    0 <= i < j < acc.push(s[0]).len() implies acc.push(s[0])[i] != acc.push(
                    s[0],
                )[j] by {
                    if j == acc.len() {
                        assert(!acc.contains(s[0]));
                        assert(acc[i] == acc.push(s[0])[i]);
                    }
                }
            }
        }
        lemma_collect_distinct(collect_step(acc, s[0]), s.drop_first());
    }
}

/// `gates()` reports each identifier at most once: duplicates among the
/// connection slots are suppressed.
pub proof fn lemma_gates_distinct(c: Circuit)
    ensures
        distinct(c.gates_spec()),
{
    lemma_collect_distinct(Seq::<u32>::empty(), c.from@);
    lemma_collect_distinct(collect_gates(Seq::<u32>::empty(), c.from@), c.to@);
}

/// Scanning a concatenation is scanning one part after the other.
pub proof fn lemma_collect_concat(acc: Seq<u32>, a: Seq<u32>, b: Seq<u32>)
    ensures
        collect_gates(acc, a + b) == collect_gates(collect_gates(acc, a), b),
    decreases a.len(),
{
    if a.len() == 0 {
        assert(a + b =~= b);
    } else {
        assert((a + b)[0] == a[0]);
        assert((a + b).drop_first() =~= a.drop_first() + b);
        lemma_collect_concat(collect_step(acc, a[0]), a.drop_first(), b);
    }
}

proof fn lemma_collect_order(acc: Seq<u32>, s: Seq<u32>)
    ensures
        collect_gates(acc, s).len() >= acc.len(),
        forall|k: int| 0 <= k < acc.len() ==> collect_gates(acc, s)[k] == acc[k],
        forall|k: int|
            acc.len() <= k < collect_gates(acc, s).len() ==> (#[trigger] collect_gates(acc, s)[k])
                != 0 && s.contains(collect_gates(acc, s)[k]) && !acc.contains(
                collect_gates(acc, s)[k],
            ),
        forall|k1: int, k2: int|
            acc.len() <= k1 < k2 < collect_gates(acc, s).len() ==> first_index(
                s,
                collect_gates(acc, s)[k1],
            ) < first_index(s, collect_gates(acc, s)[k2]),
    decreases s.len(),
{
    if s.len() == 0 {
    } else {
        let acc2 = collect_step(acc, s[0]);
        let r = collect_gates(acc, s);
        lemma_collect_order(acc2, s.drop_first());
        assert(r == collect_gates(acc2, s.drop_first()));
        assert(acc2.len() >= acc.len());
        assert(r.len() >= acc.len());
        assert forall|k: int| 0 <= k < acc.len() implies r[k] == acc[k] by {
            assert(r[k] == acc2[k]);
            if s[0] != 0 && !acc.contains(s[0]) {
                assert(acc2[k] == acc.push(s[0])[k] == acc[k]);
            }
        }
        assert forall|k: int| acc.len() <= k < r.len() implies (#[trigger] r[k]) != 0
            && s.contains(r[k]) && !acc.contains(r[k]) by {
            if s[0] != 0 && !acc.contains(s[0]) {
                if k == acc.len() {
                    assert(r[k] == acc2[k] == s[0]);
                    assert(s.contains(s[0]));
                } else {
                    assert(r[k] != 0 && s.drop_first().contains(r[k]) && !acc2.contains(r[k]));
                    lemma_contains_drop_first(s, r[k]);
                    assert(!acc.contains(r[k])) by {
                        if acc.contains(r[k]) {
                            let j = choose|j: int| 0 <= j < acc.len() && acc[j] == r[k];
                            assert(acc2[j] == r[k]);
                        }
                    }
                }
            } else {
                assert(acc2 == acc);
                assert(r[k] != 0 && s.drop_first().contains(r[k]) && !acc.contains(r[k]));
                lemma_contains_drop_first(s, r[k]);
            }
        }
        assert forall|k1: int, k2: int|
            acc.len() <= k1 < k2 < r.len() implies first_index(s, r[k1]) < first_index(
            s,
            r[k2],
        ) by {
            if s[0] != 0 && !acc.contains(s[0]) {
                assert(acc2 == acc.push(s[0]));
                if k2 > k1 && k1 > acc.len() {
                    assert(!acc2.contains(r[k1]) && !acc2.contains(r[k2]));
                    assert(r[k1] != s[0]) by {
                        assert(acc2[acc.len() as int] == s[0]);
                    }
                    assert(r[k2] != s[0]) by {
                        assert(acc2[acc.len() as int] == s[0]);
                    }
                    assert(first_index(s, r[k1]) == 1 + first_index(s.drop_first(), r[k1]));
                    assert(first_index(s, r[k2]) == 1 + first_index(s.drop_first(), r[k2]));
                } else {
                    assert(k1 == acc.len());
                    assert(r[k1] == acc2[k1] == s[0]);
                    assert(first_index(s, s[0]) == 0);
                    assert(r[k2] != s[0]) by {
                        assert(!acc2.contains(r[k2]));
                        assert(acc2[acc.len() as int] == s[0]);
                    }
                    assert(first_index(s, r[k2]) == 1 + first_index(s.drop_first(), r[k2]));
                    assert(first_index(s.drop_first(), r[k2]) >= 0) by {
                        lemma_first_index_nonneg(s.drop_first(), r[k2]);
                    }
                }
            } else {
                assert(acc2 == acc);
                assert(r[k1] != s[0]) by {
                    if s[0] == 0 {
                        assert(r[k1] != 0);
                    } else {
                        assert(!acc.contains(r[k1]));
                        assert(acc.contains(s[0]));
                    }
                }
                assert(r[k2] != s[0]) by {
                    if s[0] == 0 {
                        assert(r[k2] != 0);
                    } else {
                        assert(!acc.contains(r[k2]));
                        assert(acc.contains(s[0]));
                    }
                }
                assert(first_index(s, r[k1]) == 1 + first_index(s.drop_first(), r[k1]));
                assert(first_index(s, r[k2]) == 1 + first_index(s.drop_first(), r[k2]));
            }
        }
    }
}

proof fn lemma_first_index_nonneg(s: Seq<u32>, x: u32)
    ensures
        first_index(s, x) >= 0,
    decreases s.len(),
{
    if s.len() > 0 && s[0] != x {
        lemma_first_index_nonneg(s.drop_first(), x);
    }
}

/// Identifiers that are all zero add nothing to the scan.
proof fn lemma_collect_all_zero(acc: Seq<u32>, s: Seq<u32>)
    requires
        forall|i: int| 0 <= i < s.len() ==> s[i] == 0,
    ensures
        collect_gates(acc, s) == acc,
    decreases s.len(),
{
    if s.len() > 0 {
        assert(forall|i: int|
            0 <= i < s.drop_first().len() ==> s.drop_first()[i] == s[i + 1] && s[i + 1] == 0);
        lemma_collect_all_zero(acc, s.drop_first());
    }
}

/// The example circuit built by `Circuit::default` reports exactly the
/// gates 1, 2 and 3, in this order: 1 and 2 from the `from` slots, then
/// 3 from the `to` slots.
pub proof fn lemma_default_circuit_gates(c: Circuit)
    requires
        c.from@ == Seq::new(MAX_NUMBER_CONNECTIONS as nat, (|i: int| if i == 0 { 1u32 } else if i == 1 { 2u32 } else { 0u32 })),
        c.to@ == Seq::new(MAX_NUMBER_CONNECTIONS as nat, (|i: int| if i == 0 || i == 1 { 3u32 } else { 0u32 })),
    ensures
        c.gates_spec() == seq![1u32, 2u32, 3u32],
{
    let empty_acc = Seq::<u32>::empty();
    assert(c.from@ =~= c.from@.take(2) + c.from@.skip(2));
    lemma_collect_concat(empty_acc, c.from@.take(2), c.from@.skip(2));
    assert(c.from@.take(2) =~= seq![1u32, 2u32]);
    let s12 = seq![1u32, 2u32];
    assert(s12.drop_first() =~= seq![2u32]);
    assert(seq![2u32].drop_first() =~= empty_acc);
    assert(collect_step(empty_acc, 1u32) == empty_acc.push(1u32));
    assert(empty_acc.push(1u32) =~= seq![1u32]);
    assert(!seq![1u32].contains(2u32));
    assert(collect_step(seq![1u32], 2u32) == seq![1u32].push(2u32));
    assert(seq![1u32].push(2u32) =~= s12);
    assert(collect_gates(empty_acc, s12) == collect_gates(collect_step(empty_acc, 1u32), seq![2u32]));
    assert(collect_gates(empty_acc, s12) == collect_gates(seq![1u32], seq![2u32]));
    assert(collect_gates(seq![1u32], seq![2u32]) == collect_gates(s12, empty_acc));
    assert(forall|i: int| 0 <= i < c.from@.skip(2).len() ==> c.from@.skip(2)[i] == 0);
    lemma_collect_all_zero(s12, c.from@.skip(2));
    assert(collect_gates(empty_acc, c.from@) == s12);

    assert(c.to@ =~= c.to@.take(2) + c.to@.skip(2));
    lemma_collect_concat(s12, c.to@.take(2), c.to@.skip(2));
    assert(c.to@.take(2) =~= seq![3u32, 3u32]);
    let s33 = seq![3u32, 3u32];
    assert(s33.drop_first() =~= seq![3u32]);
    assert(seq![3u32].drop_first() =~= empty_acc);
    assert(!s12.contains(3u32));
    assert(collect_step(s12, 3u32) == s12.push(3u32));
    let s123 = seq![1u32, 2u32, 3u32];
    assert(s12.push(3u32) =~= s123);
    assert(s123.contains(3u32)) by {
        assert(s123[2] == 3u32);
    }
    assert(collect_step(s123, 3u32) == s123);
    assert(collect_gates(s12, s33) == collect_gates(s123, seq![3u32]));
    assert(collect_gates(s123, seq![3u32]) == collect_gates(s123, empty_acc));
    assert(forall|i: int| 0 <= i < c.to@.skip(2).len() ==> c.to@.skip(2)[i] == 0);
    lemma_collect_all_zero(s123, c.to@.skip(2));
    assert(c.gates_spec() == s123);
}

/// `gates()` lists identifiers in first-seen order: of two reported
/// identifiers, the one whose first occurrence comes earlier in the scan
/// (`from` in index order, fully, then `to`) stands earlier in the
/// result.
pub proof fn lemma_gates_first_seen_order(c: Circuit, i: int, j: int)
    requires
        0 <= i < j < c.gates_spec().len(),
    ensures
        first_index(c.from@ + c.to@, c.gates_spec()[i]) < first_index(
            c.from@ + c.to@,
            c.gates_spec()[j],
        ),
{
    lemma_collect_concat(Seq::<u32>::empty(), c.from@, c.to@);
    assert(c.gates_spec() == collect_gates(Seq::<u32>::empty(), c.from@ + c.to@));
    lemma_collect_order(Seq::<u32>::empty(), c.from@ + c.to@);
}

} // verus!
