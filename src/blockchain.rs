//! The chain of blocks, its integrity check, and the balance ledger.

use vstd::prelude::*;

use vstd::hash_map::StringHashMap;

use crate::block::Block;

verus! {

/// std's `SystemTime`, carried through opaque.
#[verifier::external_type_specification]
#[verifier::external_body]
pub struct ExSystemTime(std::time::SystemTime);

/// std's `SystemTimeError`, carried through opaque.
#[verifier::external_type_specification]
#[verifier::external_body]
pub struct ExSystemTimeError(std::time::SystemTimeError);

/// Relies on std's `SystemTime::now`: the system clock's reading, of which
/// nothing is promised.
pub assume_specification[ std::time::SystemTime::now ]() -> std::time::SystemTime;

/// Relies on std's `SystemTime::duration_since`: the time elapsed since
/// `earlier`, or an error when `earlier` is later than `t`.
pub assume_specification[ std::time::SystemTime::duration_since ](
    t: &std::time::SystemTime,
    earlier: std::time::SystemTime,
) -> core::result::Result<core::time::Duration, std::time::SystemTimeError>;

/// Relies on std's `Duration::as_secs`: the whole seconds of a duration.
pub assume_specification[ core::time::Duration::as_secs ](d: &core::time::Duration) -> u64;

/// Relies on std's `UNIX_EPOCH`: the time 1970-01-01 00:00:00 UTC.
#[verifier::external_body]
fn unix_epoch() -> std::time::SystemTime {
    std::time::UNIX_EPOCH
}

/// The clock's reading in whole seconds since the Unix epoch; 0 when the
/// clock stands before the epoch. Nothing is promised of the value.
pub fn current_timestamp() -> u64 {
    match std::time::SystemTime::now().duration_since(unix_epoch()) {
        Ok(d) => d.as_secs(),
        Err(_) => 0,
    }
}

/// Block `i` of `c` holds the hash of its own fields and names the stored
/// hash of block `i - 1` as its predecessor.
pub open spec fn link_ok(c: Seq<Block>, i: int) -> bool {
    &&& c[i].hash@ == c[i].spec_hash()
    &&& c[i].previous_hash@ == c[i - 1].hash@
}

/// Every block after the genesis block is intact and linked to the one before.
pub open spec fn chain_valid(c: Seq<Block>) -> bool {
    forall|i: int| 1 <= i < c.len() ==> #[trigger] link_ok(c, i)
}

/// The genesis block of a chain of difficulty `d`.
pub open spec fn is_genesis(b: Block, d: nat) -> bool {
    &&& b.index == 0
    &&& b.previous_hash@ == "0"@
    &&& b.data@ == "Genesis Block"@
    &&& b.is_mined(d)
}

/// What the integrity check found wrong with a block.
#[derive(Debug, Clone, Copy, PartialEq, Eq, Structural)]
pub enum ChainFault {
    /// The stored hash is not the hash of the block's fields.
    HashMismatch,
    /// The block does not name the stored hash of the block before it.
    LinkMismatch,
}

/// The chain with its proof-of-work difficulty, and the ledger of balances.
pub struct Blockchain {
    pub chain: Vec<Block>,
    pub balances: StringHashMap<i32>,
    pub difficulty: usize,
}

impl Blockchain {
    /// A chain that holds only its mined genesis block, and an empty ledger.
    pub fn new(difficulty: usize) -> (r: Self)
        ensures
            r.chain@.len() == 1,
            is_genesis(r.chain@[0], difficulty as nat),
            chain_valid(r.chain@),
            r.balances@ == Map::<Seq<char>, i32>::empty(),
            r.difficulty == difficulty,
    {
        let mut blockchain = Blockchain {
            chain: Vec::new(),
            balances: StringHashMap::new(),
            difficulty,
        };
        blockchain.create_genesis_block();
        blockchain
    }

    /// Mines a genesis block at the chain's difficulty and appends it.
    pub fn create_genesis_block(&mut self)
        ensures
            final(self).chain@.len() == old(self).chain@.len() + 1,
            final(self).chain@.drop_last() == old(self).chain@,
            is_genesis(final(self).chain@.last(), old(self).difficulty as nat),
            final(self).balances@ == old(self).balances@,
            final(self).difficulty == old(self).difficulty,
    {
        let genesis_block = Block::new(
            0,
            "0".to_owned(),
            "Genesis Block".to_owned(),
            self.difficulty,
            current_timestamp(),
        );
        self.chain.push(genesis_block);
        assert(self.chain@.drop_last() =~= old(self).chain@);
    }

    /// The most recently appended block.
    pub fn last_block(&self) -> (r: &Block)
        requires
            self.chain@.len() > 0,
        ensures
            *r == self.chain@.last(),
    {
        &self.chain[self.chain.len() - 1]
    }

    /// Mines a block that carries `data` on top of the last block, and
    /// appends it.
    pub fn add_block(&mut self, data: String)
        requires
            old(self).chain@.len() > 0,
            old(self).chain@.last().index < u64::MAX,
        ensures
            final(self).chain@.len() == old(self).chain@.len() + 1,
            final(self).chain@.drop_last() == old(self).chain@,
            final(self).chain@.last().index == old(self).chain@.last().index + 1,
            final(self).chain@.last().previous_hash == old(self).chain@.last().hash,
            final(self).chain@.last().data == data,
            final(self).chain@.last().is_mined(old(self).difficulty as nat),
            chain_valid(old(self).chain@) ==> chain_valid(final(self).chain@),
            final(self).balances@ == old(self).balances@,
            final(self).difficulty == old(self).difficulty,
    {
        let last_block = self.last_block();
        let new_block = Block::new(
            last_block.index + 1,
            last_block.hash.clone(),
            data,
            self.difficulty,
            current_timestamp(),
        );
        self.chain.push(new_block);
        assert(self.chain@.drop_last() =~= old(self).chain@);
        proof {
            if chain_valid(old(self).chain@) {
                lemma_append_keeps_valid(old(self).chain@, self.chain@.last());
                assert(self.chain@ =~= old(self).chain@.push(self.chain@.last()));
            }
        }
    }

    /// The first block after the genesis block that fails the integrity
    /// check, and what is wrong with it; `None` when every block passes.
    pub fn find_fault(&self) -> (r: Option<(usize, ChainFault)>)
        ensures
            r is None <==> chain_valid(self.chain@),
            match r {
                Some((i, fault)) => {
                    &&& 1 <= i < self.chain@.len()
                    &&& forall|j: int| 1 <= j < i ==> #[trigger] link_ok(self.chain@, j)
                    &&& !link_ok(self.chain@, i as int)
                    &&& (fault == ChainFault::HashMismatch) == (self.chain@[i as int].hash@
                        != self.chain@[i as int].spec_hash())
                },
                None => true,
            },
    {
        let mut i: usize = 1;
        while i < self.chain.len()
            invariant
                1 <= i,
                forall|j: int| 1 <= j < i && j < self.chain@.len() ==> #[trigger] link_ok(
                    self.chain@,
                    j,
                ),
            decreases self.chain@.len() - i,
        {
            let current_block = &self.chain[i];
            let previous_block = &self.chain[i - 1];
            let recomputed = current_block.calculate_hash();
            if !(current_block.hash == recomputed) {
                assert(!link_ok(self.chain@, i as int));
                return Some((i, ChainFault::HashMismatch));
            }
            if !(current_block.previous_hash == previous_block.hash) {
                assert(!link_ok(self.chain@, i as int));
                return Some((i, ChainFault::LinkMismatch));
            }
            i = i + 1;
        }
        None
    }

    /// Whether every block after the genesis block holds the hash of its own
    /// fields and names the stored hash of the block before it.
    pub fn is_valid(&self) -> (r: bool)
        ensures
            r == chain_valid(self.chain@),
    {
        self.find_fault().is_none()
    }
}

/// Appending a block that holds its own hash and names the last block's hash
/// keeps a valid chain valid.
pub proof fn lemma_append_keeps_valid(c: Seq<Block>, b: Block)
    requires
        chain_valid(c),
        c.len() > 0,
        b.hash@ == b.spec_hash(),
        b.previous_hash@ == c.last().hash@,
    ensures
        chain_valid(c.push(b)),
{
    let d = c.push(b);
    assert forall|i: int| 1 <= i < d.len() implies #[trigger] link_ok(d, i) by {
        if i < c.len() {
            assert(link_ok(c, i));
        }
    }
}

/// Changing fields of a block after the genesis block without mining it
/// again, so that it keeps its stored hash, makes a valid chain invalid,
/// unless the changed fields hash to the same digest as before and the
/// block still names its predecessor's hash.
pub proof fn lemma_tampered_fields_detected(c: Seq<Block>, i: int, tampered: Block)
    requires
        chain_valid(c),
        1 <= i < c.len(),
        tampered.hash == c[i].hash,
        tampered.previous_hash@ != c[i].previous_hash@ || tampered.spec_hash() != c[i].spec_hash(),
    ensures
        !chain_valid(c.update(i, tampered)),
{
    assert(link_ok(c, i));
    assert(!link_ok(c.update(i, tampered), i));
}

/// Overwriting the stored hash of a block after the genesis block, and
/// nothing else, makes a valid chain invalid.
pub proof fn lemma_tampered_hash_detected(c: Seq<Block>, i: int, tampered: Block)
    requires
        chain_valid(c),
        1 <= i < c.len(),
        tampered.index == c[i].index,
        tampered.timestamp == c[i].timestamp,
        tampered.previous_hash == c[i].previous_hash,
        tampered.data == c[i].data,
        tampered.nonce == c[i].nonce,
        tampered.hash@ != c[i].hash@,
    ensures
        !chain_valid(c.update(i, tampered)),
{
    assert(link_ok(c, i));
    assert(!link_ok(c.update(i, tampered), i));
}

/// The balance of `account` in `m`: 0 for an account with no entry.
pub open spec fn balance_in(m: Map<Seq<char>, i32>, account: Seq<char>) -> int {
    if m.contains_key(account) {
        m[account] as int
    } else {
        0
    }
}

/// A transfer goes through when the amount is not negative, the sender holds
/// at least that much, and the receiver's credit fits in an `i32`.
pub open spec fn transfer_allowed(
    m: Map<Seq<char>, i32>,
    sender: Seq<char>,
    receiver: Seq<char>,
    amount: int,
) -> bool {
    &&& 0 <= amount <= balance_in(m, sender)
    &&& sender == receiver || balance_in(m, receiver) + amount <= i32::MAX
}

/// The balances after a transfer that went through: the sender debited, then
/// the receiver credited, each account getting an entry.
pub open spec fn after_transfer(
    m: Map<Seq<char>, i32>,
    sender: Seq<char>,
    receiver: Seq<char>,
    amount: int,
) -> Map<Seq<char>, i32> {
    if sender == receiver {
        m.insert(sender, balance_in(m, sender) as i32)
    } else {
        m.insert(sender, (balance_in(m, sender) - amount) as i32).insert(
            receiver,
            (balance_in(m, receiver) + amount) as i32,
        )
    }
}

impl Blockchain {
    /// The balance of `account`, or `None` while it has no entry.
    pub fn balance(&self, account: &str) -> (r: Option<i32>)
        ensures
            r == (if self.balances@.contains_key(account@) {
                Some(self.balances@[account@])
            } else {
                None
            }),
    {
        match self.balances.get(account) {
            Some(v) => Some(*v),
            None => None,
        }
    }

    /// Sets the balance of `account`, replacing any earlier one.
    pub fn set_balance(&mut self, account: String, amount: i32)
        ensures
            final(self).balances@ == old(self).balances@.insert(account@, amount),
            final(self).chain == old(self).chain,
            final(self).difficulty == old(self).difficulty,
    {
        self.balances.insert(account, amount);
    }

    /// Moves `amount` from `sender` to `receiver` and returns true; returns
    /// false and changes nothing when the sender holds less than `amount`,
    /// when `amount` is negative, or when the credit would not fit in an
    /// `i32`. An account with no entry counts as holding 0.
    pub fn transfer_balance(&mut self, sender: String, receiver: String, amount: i32) -> (r: bool)
        ensures
            r == transfer_allowed(old(self).balances@, sender@, receiver@, amount as int),
            final(self).balances@ == (if r {
                after_transfer(old(self).balances@, sender@, receiver@, amount as int)
            } else {
                old(self).balances@
            }),
            r && sender@ != receiver@ ==> {
                &&& balance_in(final(self).balances@, sender@) == balance_in(
                    old(self).balances@,
                    sender@,
                ) - amount
                &&& balance_in(final(self).balances@, receiver@) == balance_in(
                    old(self).balances@,
                    receiver@,
                ) + amount
            },
            r ==> balance_in(final(self).balances@, sender@) + balance_in(
                final(self).balances@,
                receiver@,
            ) == balance_in(old(self).balances@, sender@) + balance_in(
                old(self).balances@,
                receiver@,
            ),
            amount > balance_in(old(self).balances@, sender@) ==> !r,
            final(self).chain == old(self).chain,
            final(self).difficulty == old(self).difficulty,
    {
        if amount < 0 {
            return false;
        }
        let sender_balance: i32 = match self.balances.get(sender.as_str()) {
            Some(v) => *v,
            None => 0,
        };
        if sender_balance < amount {
            return false;
        }
        let same = sender == receiver;
        let receiver_balance: i32 = if same {
            sender_balance - amount
        } else {
            match self.balances.get(receiver.as_str()) {
                Some(v) => *v,
                None => 0,
            }
        };
        if receiver_balance > i32::MAX - amount {
            return false;
        }
        let ghost before = self.balances@;
        self.balances.insert(sender, sender_balance - amount);
        self.balances.insert(receiver, receiver_balance + amount);
        assert(self.balances@ =~= after_transfer(before, sender@, receiver@, amount as int));
        true
    }
}

} // verus!
