//! The shuffled byte table that hashes lattice points.
use crate::rng::shuffle;
use rand::rngs::StdRng;
use vstd::prelude::*;

verus! {

/// Number of entries of a permutation table.
pub const TABLE_SIZE: usize = 256;

/// `s` holds every byte exactly once.
pub open spec fn is_permutation(s: Seq<u8>) -> bool {
    &&& s.len() == TABLE_SIZE
    &&& forall|v: u8| #[trigger] s.to_multiset().count(v) == 1
}

/// The table that maps every byte to itself.
pub open spec fn identity_table() -> Seq<u8> {
    Seq::new(TABLE_SIZE as nat, |i: int| i as u8)
}

/// Hash of the lattice point `(x, y)`: `perm[(perm[x mod 256] + y) mod 256]`.
pub open spec fn lattice_hash(perm: Seq<u8>, x: int, y: int) -> u8 {
    perm[(perm[x % 256] as int + y) % 256]
}

/// The identity table is a permutation.
pub proof fn lemma_identity_is_permutation()
    ensures
        is_permutation(identity_table()),
{
    let id = identity_table();
    assert(id.no_duplicates());
    id.lemma_multiset_has_no_duplicates();
    assert forall|v: u8| #[trigger] id.to_multiset().count(v) == 1 by {
        assert(id[v as int] == v);
        assert(id.contains(v));
        vstd::seq_lib::to_multiset_contains(id, v);
    }
}

/// In a permutation no byte stands at two places, and every byte stands somewhere.
pub proof fn lemma_permutation_is_bijection(s: Seq<u8>)
    requires
        is_permutation(s),
    ensures
        s.no_duplicates(),
        forall|v: u8| s.contains(v),
{
    assert forall|x: u8| s.to_multiset().contains(x) implies s.to_multiset().count(x) == 1 by {}
    s.lemma_multiset_has_no_duplicates_conv();
    assert forall|v: u8| s.contains(v) by {
        assert(s.to_multiset().count(v) == 1);
        vstd::seq_lib::to_multiset_contains(s, v);
    }
}

/// A permutation of the bytes `0..=255`.
pub struct PermutationTable {
    entries: Vec<u8>,
}

impl View for PermutationTable {
    type V = Seq<u8>;

    closed spec fn view(&self) -> Seq<u8> {
        self.entries@
    }
}

impl PermutationTable {
    /// The table holds every byte exactly once.
    pub open spec fn wf(&self) -> bool {
        is_permutation(self@)
    }

    /// The table that maps every byte to itself.
    pub fn identity() -> (table: PermutationTable)
        ensures
            table.wf(),
            table@ == identity_table(),
    {
        let mut entries: Vec<u8> = Vec::new();
        let mut i: usize = 0;
        while i < TABLE_SIZE
            invariant
                i <= TABLE_SIZE,
                entries@.len() == i,
                forall|k: int| 0 <= k < i ==> entries@[k] == k as u8,
            decreases TABLE_SIZE - i,
        {
            entries.push(i as u8);
            i += 1;
        }
        proof {
            assert(entries@ =~= identity_table());
            lemma_identity_is_permutation();
        }
        PermutationTable { entries }
    }

    /// A table shuffled by `rng`.
    pub fn shuffled(rng: &mut StdRng) -> (table: PermutationTable)
        ensures
            table.wf(),
    {
        let mut table = PermutationTable::identity();
        shuffle(&mut table.entries, rng);
        table
    }

    /// The entry at `i`.
    pub fn entry(&self, i: u8) -> (r: u8)
        requires
            self.wf(),
        ensures
            r == self@[i as int],
    {
        self.entries[i as usize]
    }

    /// Hash of the lattice point `(x, y)`.
    pub fn index(&self, x: usize, y: usize) -> (r: u8)
        requires
            self.wf(),
        ensures
            r == lattice_hash(self@, x as int, y as int),
    {
        let column: usize = x & 0xFF;
        let row: usize = y & 0xFF;
        assert(column == x % 256) by (bit_vector)
            requires
                column == x & 0xFF,
        ;
        assert(row == y % 256) by (bit_vector)
            requires
                row == y & 0xFF,
        ;
        let first: usize = self.entries[column] as usize;
        let sum: usize = first + row;
        let slot: usize = sum & 0xFF;
        assert(slot == sum % 256) by (bit_vector)
            requires
                slot == sum & 0xFF,
        ;
        assert((first + row) % 256 == (first + y) % 256) by {
            vstd::arithmetic::div_mod::lemma_add_mod_noop_right(first as int, y as int, 256);
        }
        self.entries[slot]
    }
}

} // verus!
