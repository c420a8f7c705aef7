//! A block of the chain, its hash, and the proof-of-work search for a nonce.

use vstd::prelude::*;

use crate::digest::{digest_of_fields, hash_fields};

verus! {

/// Whether the hex hash `h` starts with `d` characters `'0'`.
pub open spec fn meets_difficulty(h: Seq<char>, d: nat) -> bool {
    &&& d <= h.len()
    &&& forall|i: int| 0 <= i < d ==> h[i] == '0'
}

/// Tells whether `hash` starts with `difficulty` characters `'0'`.
pub fn hash_meets_difficulty(hash: &str, difficulty: usize) -> (r: bool)
    ensures
        r == meets_difficulty(hash@, difficulty as nat),
{
    let len = hash.unicode_len();
    if difficulty > len {
        return false;
    }
    let mut i: usize = 0;
    while i < difficulty
        invariant
            i <= difficulty <= hash@.len(),
            forall|j: int| 0 <= j < i ==> hash@[j] == '0',
        decreases difficulty - i,
    {
        if hash.get_char(i) != '0' {
            return false;
        }
        i = i + 1;
    }
    true
}

/// One record of the chain. `hash` is filled in by mining.
#[derive(Debug)]
pub struct Block {
    pub index: u64,
    pub timestamp: u64,
    pub previous_hash: String,
    pub data: String,
    pub nonce: u64,
    pub hash: String,
}

impl Block {
    /// The hash the block's fields give with the nonce `nonce`.
    pub open spec fn digest_at(&self, nonce: u64) -> Seq<char> {
        digest_of_fields(self.index, self.timestamp, self.previous_hash@, self.data@, nonce)
    }

    /// The hash of the block's fields as they stand, its nonce included.
    pub open spec fn spec_hash(&self) -> Seq<char> {
        self.digest_at(self.nonce)
    }

    /// The block went through mining at difficulty `d` from nonce 0: its
    /// nonce is the first that meets `d`, or the last nonce there is when
    /// none before it does, and `hash` is the hash at that nonce.
    pub open spec fn is_mined(&self, d: nat) -> bool {
        &&& self.hash@ == self.spec_hash()
        &&& meets_difficulty(self.hash@, d) || self.nonce == u64::MAX
        &&& forall|n: u64| n < self.nonce ==> !meets_difficulty(#[trigger] self.digest_at(n), d)
    }

    /// Whether two blocks agree on every field but the nonce.
    pub open spec fn same_but_nonce(&self, other: &Block) -> bool {
        &&& self.index == other.index
        &&& self.timestamp == other.timestamp
        &&& self.previous_hash == other.previous_hash
        &&& self.data == other.data
        &&& self.hash == other.hash
    }

    /// Hashes the block's fields with its current nonce.
    pub fn calculate_hash(&self) -> (r: String)
        ensures
            r@ == self.spec_hash(),
    {
        hash_fields(
            self.index,
            self.timestamp,
            self.previous_hash.as_str(),
            self.data.as_str(),
            self.nonce,
        )
    }

    /// Proof-of-work: counts the nonce up from where it stands to the first
    /// value whose hash starts with `difficulty` zeros, and returns that hash.
    /// Should no nonce up to the largest meet it, the search ends there.
    pub fn mine(&mut self, difficulty: usize) -> (r: String)
        ensures
            final(self).same_but_nonce(old(self)),
            old(self).nonce <= final(self).nonce,
            r@ == final(self).spec_hash(),
            meets_difficulty(r@, difficulty as nat) || final(self).nonce == u64::MAX,
            forall|n: u64|
                old(self).nonce <= n < final(self).nonce ==> !meets_difficulty(
                    #[trigger] old(self).digest_at(n),
                    difficulty as nat,
                ),
    {
        loop
            invariant
                self.same_but_nonce(old(self)),
                old(self).nonce <= self.nonce,
                forall|n: u64|
                    old(self).nonce <= n < self.nonce ==> !meets_difficulty(
                        #[trigger] old(self).digest_at(n),
                        difficulty as nat,
                    ),
            decreases u64::MAX - self.nonce,
        {
            let hash = self.calculate_hash();
            if hash_meets_difficulty(hash.as_str(), difficulty) || self.nonce == u64::MAX {
                return hash;
            }
            self.nonce = self.nonce + 1;
        }
    }

    /// Makes a block with nonce 0 and mines it at `difficulty`.
    pub fn new(
        index: u64,
        previous_hash: String,
        data: String,
        difficulty: usize,
        timestamp: u64,
    ) -> (r: Self)
        ensures
            r.index == index,
            r.timestamp == timestamp,
            r.previous_hash == previous_hash,
            r.data == data,
            r.is_mined(difficulty as nat),
    {
        let mut block = Block { index, timestamp, previous_hash, data, nonce: 0, hash: String::new() };
        let ghost start = block;
        block.hash = block.mine(difficulty);
        assert forall|n: u64| n < block.nonce implies !meets_difficulty(
            #[trigger] block.digest_at(n),
            difficulty as nat,
        ) by {
            assert(block.digest_at(n) == start.digest_at(n));
        }
        block
    }
}

/// A mined block's stored hash is the hash of its fields, and it starts with
/// `d` zeros whenever some nonce gives the block's other fields such a hash.
pub proof fn lemma_mined_block_meets_difficulty(b: Block, d: nat, witness: u64)
    requires
        b.is_mined(d),
        meets_difficulty(b.digest_at(witness), d),
    ensures
        b.hash@ == b.spec_hash(),
        meets_difficulty(b.hash@, d),
{
}

} // verus!
