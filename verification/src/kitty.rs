//! The asset itself and the rule by which two genomes are combined.

use vstd::prelude::*;
use vstd::std_specs::cmp::PartialEqSpecImpl;

verus! {

/// Number of bytes in a genome.
pub const GENOME_LEN: usize = 16;

/// A uniquely identified asset: sixteen bytes of genome, never changed once made.
#[derive(Clone, Copy, Debug, Eq)]
pub struct Kitty(pub [u8; 16]);

impl Kitty {
    /// The genome as a sequence of bytes.
    pub open spec fn dna(self) -> Seq<u8> {
        self.0@
    }

    /// Two kitties are the same value exactly when their genomes agree byte for byte.
    pub proof fn lemma_eq_by_dna(self, other: Kitty)
        ensures
            (self == other) <==> (self.dna() == other.dna()),
    {
        if self.dna() == other.dna() {
            assert(self.0 =~= other.0);
        }
    }

    /// Compares two genomes byte by byte.
    pub fn same(&self, other: &Kitty) -> (r: bool)
        ensures
            r == (*self == *other),
    {
        let mut i: usize = 0;
        while i < GENOME_LEN
            invariant
                i <= GENOME_LEN,
                forall|j: int| 0 <= j < i ==> self.0@[j] == other.0@[j],
            decreases GENOME_LEN - i,
        {
            if self.0[i] != other.0[i] {
                return false;
            }
            i += 1;
        }
        proof {
            assert(self.0@ =~= other.0@);
            self.lemma_eq_by_dna(*other);
        }
        true
    }
}

impl PartialEq for Kitty {
    fn eq(&self, other: &Kitty) -> (r: bool) {
        self.same(other)
    }
}

impl PartialEqSpecImpl for Kitty {
    open spec fn obeys_eq_spec() -> bool {
        true
    }

    open spec fn eq_spec(&self, other: &Kitty) -> bool {
        *self == *other
    }
}

/// One byte of a child: where a bit of `selector` is set the bit comes from
/// `parent1`, elsewhere from `parent2`.
pub open spec fn select_byte(parent1: u8, parent2: u8, selector: u8) -> u8 {
    (parent1 & selector) | (parent2 & !selector)
}

/// The child genome of two parents under a selector, byte by byte.
pub open spec fn combine_spec(parent1: Seq<u8>, parent2: Seq<u8>, selector: Seq<u8>) -> Seq<u8> {
    Seq::new(GENOME_LEN as nat, |i: int| select_byte(parent1[i], parent2[i], selector[i]))
}

/// Combines two parent genomes into a child, bit by bit, as the selector says.
pub fn combine(parent1: &[u8; 16], parent2: &[u8; 16], selector: &[u8; 16]) -> (child: [u8; 16])
    ensures
        child@ == combine_spec(parent1@, parent2@, selector@),
        forall|i: int|
            0 <= i < 16 ==> #[trigger] child@[i] == (parent1@[i] & selector@[i]) | (parent2@[i]
                & !selector@[i]),
{
    let mut data: [u8; 16] = [0u8; 16];
    let mut i: usize = 0;
    while i < GENOME_LEN
        invariant
            i <= GENOME_LEN,
            forall|j: int|
                0 <= j < i ==> #[trigger] data@[j] == select_byte(
                    parent1@[j],
                    parent2@[j],
                    selector@[j],
                ),
        decreases GENOME_LEN - i,
    {
        data[i] = (parent1[i] & selector[i]) | (parent2[i] & !selector[i]);
        i += 1;
    }
    assert(data@ =~= combine_spec(parent1@, parent2@, selector@));
    data
}

} // verus!
