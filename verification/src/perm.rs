//! The 512-entry permutation table behind every lattice hash.

use vstd::prelude::*;
use crate::rng::{low_byte, xorshift_step, XorShift64};

verus! {

/// Number of distinct byte values, and so of entries in one permutation.
pub const PERIOD: usize = 256;

/// Entries in a table: the permutation written out twice, so that a lookup
/// at `a + b` with both below `PERIOD` needs no reduction.
pub const TABLE_LEN: usize = 512;

/// `p` with the entries at `i` and `j` exchanged.
pub open spec fn swap_at(p: Seq<u8>, i: int, j: int) -> Seq<u8> {
    p.update(i, p[j]).update(j, p[i])
}

/// The partner that the shuffle picks for position `i` from a drawn byte:
/// the byte reduced into `0..=i`.
pub open spec fn partner(byte: u8, i: int) -> int {
    (byte as int) % (i + 1)
}

/// Fisher-Yates from position `i` down to 1. Each position draws one byte
/// from the stream and is exchanged with the partner that byte selects.
pub open spec fn shuffle(p: Seq<u8>, state: u64, i: int) -> Seq<u8>
    decreases i,
{
    if i < 1 {
        p
    } else {
        let next = xorshift_step(state);
        shuffle(swap_at(p, i, partner(low_byte(next), i)), next, i - 1)
    }
}

/// The bytes `0, 1, .., 255` in order.
pub open spec fn identity_bytes() -> Seq<u8> {
    Seq::new(256, |k: int| k as u8)
}

/// The permutation of `0..=255` that a stream started at `start` produces.
pub open spec fn permutation_of(start: u64) -> Seq<u8> {
    shuffle(identity_bytes(), start, 255)
}

/// The table for a stream started at `start`: entry `k` is entry `k mod 256`
/// of the permutation.
pub open spec fn table_of(start: u64) -> Seq<u8> {
    Seq::new(512, |k: int| permutation_of(start)[k % 256])
}

/// `p` holds every byte value exactly once.
pub open spec fn is_byte_permutation(p: Seq<u8>) -> bool {
    &&& p.len() == 256
    &&& p.no_duplicates()
    &&& forall|v: u8| p.contains(v)
}

proof fn lemma_identity_is_permutation()
    ensures
        is_byte_permutation(identity_bytes()),
{
    let p = identity_bytes();
    assert forall|v: u8| p.contains(v) by {
        assert(p[v as int] == v);
    }
}

proof fn lemma_swap_keeps_permutation(p: Seq<u8>, i: int, j: int)
    requires
        is_byte_permutation(p),
        0 <= i < 256,
        0 <= j < 256,
    ensures
        is_byte_permutation(swap_at(p, i, j)),
{
    let q = swap_at(p, i, j);
    assert forall|v: u8| q.contains(v) by {
        assert(p.contains(v));
        let k = choose|k: int| 0 <= k < p.len() && p[k] == v;
        if k == i {
            assert(q[j] == v);
        } else if k == j {
            assert(q[i] == v);
        } else {
            assert(q[k] == v);
        }
    }
}

proof fn lemma_shuffle_keeps_permutation(p: Seq<u8>, state: u64, i: int)
    requires
        is_byte_permutation(p),
        i < 256,
    ensures
        is_byte_permutation(shuffle(p, state, i)),
    decreases i,
{
    if i >= 1 {
        let next = xorshift_step(state);
        let j = partner(low_byte(next), i);
        lemma_swap_keeps_permutation(p, i, j);
        lemma_shuffle_keeps_permutation(swap_at(p, i, j), next, i - 1);
    }
}

/// Whatever the seed, the shuffle yields a permutation of the 256 byte
/// values: none is lost and none occurs twice.
pub proof fn lemma_permutation_of_is_permutation(start: u64)
    ensures
        is_byte_permutation(permutation_of(start)),
{
    lemma_identity_is_permutation();
    lemma_shuffle_keeps_permutation(identity_bytes(), start, 255);
}

/// The upper half of a table repeats the lower half, and the lower half is
/// the permutation itself.
pub proof fn lemma_table_repeats(start: u64, k: int)
    requires
        0 <= k < 256,
    ensures
        table_of(start).len() == 512,
        table_of(start)[k] == permutation_of(start)[k],
        table_of(start)[k + 256] == table_of(start)[k],
{
}

/// A permutation table built from a seed.
pub struct PermTable {
    start: u64,
    entries: Vec<u8>,
}

impl View for PermTable {
    type V = Seq<u8>;

    /// The 512 entries, as the seed determines them.
    open spec fn view(&self) -> Seq<u8> {
        table_of(self.start())
    }
}

impl PermTable {
    /// The mixed seed that the table's stream started from.
    pub closed spec fn start(&self) -> u64 {
        self.start
    }

    #[verifier::type_invariant]
    spec fn stored_matches_seed(&self) -> bool {
        self.entries@ == table_of(self.start)
    }

    /// Builds the table for `seed`, mixed with the sampler's own `salt`.
    pub fn new(seed: u64, salt: u64) -> (t: Self)
        ensures
            t.start() == seed ^ salt,
    {
        let mut p: Vec<u8> = Vec::new();
        let mut k: usize = 0;
        while k < PERIOD
            invariant
                k <= 256,
                p@.len() == k,
                forall|m: int| 0 <= m < k ==> p@[m] == m as u8,
            decreases 256 - k,
        {
            p.push(k as u8);
            k += 1;
        }
        assert(p@ =~= identity_bytes());
        let mut rng = XorShift64::new(seed, salt);
        let mut i: usize = PERIOD - 1;
        while i >= 1
            invariant
                i <= 255,
                p@.len() == 256,
                shuffle(p@, rng.state(), i as int) == permutation_of(seed ^ salt),
            decreases i,
        {
            let byte = rng.next_byte();
            let j: usize = (byte as usize) % (i + 1);
            let ghost before = p@;
            let at_i: u8 = p[i];
            let at_j: u8 = p[j];
            p.set(i, at_j);
            p.set(j, at_i);
            assert(p@ =~= swap_at(before, i as int, j as int));
            i -= 1;
        }
        let mut entries: Vec<u8> = Vec::new();
        let mut k: usize = 0;
        while k < TABLE_LEN
            invariant
                k <= 512,
                p@ == permutation_of(seed ^ salt),
                p@.len() == 256,
                entries@.len() == k,
                forall|m: int| 0 <= m < k ==> entries@[m] == p@[m % 256],
            decreases 512 - k,
        {
            let low: usize = k & 255;
            assert(low == k % 256) by (bit_vector)
                requires
                    low == k & 255,
            ;
            entries.push(p[low]);
            k += 1;
        }
        assert(entries@ =~= table_of(seed ^ salt));
        PermTable { start: seed ^ salt, entries }
    }

    /// The entry at `index`.
    pub fn get(&self, index: usize) -> (r: u8)
        requires
            index < TABLE_LEN,
        ensures
            r == self@[index as int],
    {
        proof {
            use_type_invariant(self);
        }
        self.entries[index]
    }
}

} // verus!
