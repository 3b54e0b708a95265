//! Blocks, and the proof of work that seals them.

use vstd::prelude::*;
use crate::clock::millis_since_epoch;
use crate::digest::{digest_bytes, sha256};
use crate::encoding::{header_encoding, serialize_header};
use crate::text::{hex_digit, hex_lower, to_hex};
use crate::transaction::{tx_models, Transaction, TxModel};

verus! {

/// The number of leading hexadecimal zeros that a block's hash must show.
pub const TARGET_HEXS: usize = 4;

/// A block: its chain header, when it was made, its transactions, the hash
/// of the previous block on its own chain and a hash from the other chain,
/// its own hash, the nonce that proves the work and its height.
#[derive(Debug)]
pub struct Block {
    header: String,
    timestamp: u128,
    transactions: Vec<Transaction>,
    prev_block_hash: String,
    prev_block_hash_other: String,
    hash: String,
    nonce: i32,
    height: i32,
}

/// The mathematical value of a block.
pub struct BlockModel {
    pub header: Seq<char>,
    pub timestamp: u128,
    pub transactions: Seq<TxModel>,
    pub prev_block_hash: Seq<char>,
    pub prev_block_hash_other: Seq<char>,
    pub hash: Seq<char>,
    pub nonce: i32,
    pub height: i32,
}

impl View for Block {
    type V = BlockModel;

    closed spec fn view(&self) -> BlockModel {
        BlockModel {
            header: self.header@,
            timestamp: self.timestamp,
            transactions: tx_models(self.transactions@),
            prev_block_hash: self.prev_block_hash@,
            prev_block_hash_other: self.prev_block_hash_other@,
            hash: self.hash@,
            nonce: self.nonce,
            height: self.height,
        }
    }
}

/// The bytes that are hashed to prove the work of block `b` with nonce
/// `nonce`, where `tx_root` is the Merkle root of its transactions.
pub open spec fn pow_input(b: BlockModel, tx_root: Seq<u8>, nonce: i32) -> Seq<u8> {
    header_encoding(
        b.header,
        b.prev_block_hash,
        b.prev_block_hash_other,
        tx_root,
        b.timestamp,
        TARGET_HEXS,
        nonce,
    )
}

/// The prefix that a hash must have to meet the target.
pub open spec fn target_prefix() -> Seq<char> {
    Seq::new(TARGET_HEXS as nat, |i: int| '0')
}

/// The hexadecimal SHA-256 digest of `data` begins with `TARGET_HEXS` zeros.
pub open spec fn meets_target(data: Seq<u8>) -> bool {
    hex_lower(sha256(data)).take(TARGET_HEXS as int) == target_prefix()
}

/// `b` is sealed by a search that began at nonce `start`: its nonce is the
/// least nonce from `start` on whose input meets the target, and its hash is
/// the hexadecimal rendering of that input's 32-byte digest.
pub open spec fn sealed_from(b: BlockModel, tx_root: Seq<u8>, start: i32) -> bool {
    &&& start <= b.nonce
    &&& meets_target(pow_input(b, tx_root, b.nonce))
    &&& forall|k: i32| start <= k < b.nonce ==> !meets_target(#[trigger] pow_input(b, tx_root, k))
    &&& sha256(pow_input(b, tx_root, b.nonce)).len() == 32
    &&& b.hash == hex_lower(sha256(pow_input(b, tx_root, b.nonce)))
}

/// The proof of work of `b` is the one the search from nonce 0 finds: its
/// nonce is the least non-negative nonce whose input meets the target, and
/// its hash is the hexadecimal rendering of that input's 32-byte digest.
pub open spec fn work_proved(b: BlockModel, tx_root: Seq<u8>) -> bool {
    sealed_from(b, tx_root, 0)
}

/// No non-negative nonce meets the target for a block with these contents.
pub open spec fn no_nonce_for(
    header: Seq<char>,
    prev_block_hash: Seq<char>,
    prev_block_hash_other: Seq<char>,
    tx_root: Seq<u8>,
    timestamp: u128,
) -> bool {
    forall|k: i32|
        0 <= k ==> !meets_target(
            #[trigger] header_encoding(
                header,
                prev_block_hash,
                prev_block_hash_other,
                tx_root,
                timestamp,
                TARGET_HEXS,
                k,
            ),
        )
}

/// Why a block could not be made.
#[derive(Debug, PartialEq, Eq, Structural)]
pub enum BlockError {
    /// The clock reads a time before the Unix epoch.
    Clock,
    /// No nonce from 0 to `i32::MAX` meets the target.
    NonceExhausted,
}

/// `b` holds the given contents.
pub open spec fn holds(
    b: BlockModel,
    transactions: Seq<TxModel>,
    prev_block_hash: Seq<char>,
    prev_block_hash_other: Seq<char>,
    header: Seq<char>,
    height: i32,
    timestamp: u128,
) -> bool {
    &&& b.transactions == transactions
    &&& b.prev_block_hash == prev_block_hash
    &&& b.prev_block_hash_other == prev_block_hash_other
    &&& b.header == header
    &&& b.height == height
    &&& b.timestamp == timestamp
}

/// The header text of the genesis block of chain 1 or chain 2.
pub open spec fn genesis_header(chain: i32) -> Seq<char> {
    if chain == 1 {
        "Chain 1"@
    } else {
        "Chain 2"@
    }
}

/// The hash that the genesis block records from the other chain.
pub open spec fn genesis_other_hash() -> Seq<char> {
    "Genessis block"@
}

/// A number below 16 is zero exactly when its hexadecimal digit is '0'.
proof fn lemma_hex_digit_zero(n: int)
    requires
        0 <= n < 16,
    ensures
        (hex_digit(n) == '0') <==> n == 0,
{
}

/// A 32-byte digest meets the target exactly when its first two bytes are zero.
pub proof fn lemma_target_is_two_zero_bytes(data: Seq<u8>)
    requires
        sha256(data).len() == 32,
    ensures
        meets_target(data) <==> (sha256(data)[0] == 0 && sha256(data)[1] == 0),
{
    let d = sha256(data);
    let h = hex_lower(d);
    let t = h.take(TARGET_HEXS as int);
    assert(h[0] == hex_digit(d[0] as int / 16));
    assert(h[1] == hex_digit(d[0] as int % 16));
    assert(h[2] == hex_digit(d[1] as int / 16));
    assert(h[3] == hex_digit(d[1] as int % 16));
    lemma_hex_digit_zero(d[0] as int / 16);
    lemma_hex_digit_zero(d[0] as int % 16);
    lemma_hex_digit_zero(d[1] as int / 16);
    lemma_hex_digit_zero(d[1] as int % 16);
    if d[0] == 0 && d[1] == 0 {
        assert(t =~= target_prefix());
    }
    if t == target_prefix() {
        assert(t[0] == '0' && t[1] == '0' && t[2] == '0' && t[3] == '0');
    }
}

/// The hash of a sealed block is 64 hexadecimal digits that begin with
/// `TARGET_HEXS` zeros, and its proof-of-work input meets the target: the
/// block validates.
pub proof fn lemma_sealed_block_meets_target(b: BlockModel, tx_root: Seq<u8>)
    requires
        work_proved(b, tx_root),
    ensures
        b.hash.take(TARGET_HEXS as int) == target_prefix(),
        b.hash.len() == 64,
        meets_target(pow_input(b, tx_root, b.nonce)),
{
}

impl Block {
    pub fn get_hash(&self) -> (hash: String)
        ensures
            hash@ == self@.hash,
    {
        self.hash.clone()
    }

    pub fn get_prev_hash(&self) -> (hash: String)
        ensures
            hash@ == self@.prev_block_hash,
    {
        self.prev_block_hash.clone()
    }

    pub fn get_transaction(&self) -> (txs: &Vec<Transaction>)
        ensures
            tx_models(txs@) == self@.transactions,
    {
        &self.transactions
    }

    pub fn get_height(&self) -> (height: i32)
        ensures
            height == self@.height,
    {
        self.height
    }

    /// Searches the nonces upward from the present one for the first whose
    /// proof-of-work input meets the target, and records it and the hash of
    /// that input.
    fn run_proof_of_work(&mut self, tx_root: &[u8]) -> (res: Result<(), BlockError>)
        ensures
            final(self).header == old(self).header,
            final(self).timestamp == old(self).timestamp,
            final(self).transactions == old(self).transactions,
            final(self).prev_block_hash == old(self).prev_block_hash,
            final(self).prev_block_hash_other == old(self).prev_block_hash_other,
            final(self).height == old(self).height,
            res is Ok ==> sealed_from(final(self)@, tx_root@, old(self).nonce),
            res is Err ==> res == Err::<(), BlockError>(BlockError::NonceExhausted) && forall|k: i32|
                old(self).nonce <= k ==> !meets_target(#[trigger] pow_input(final(self)@, tx_root@, k)),
    {
        let ghost start = self.nonce;
        loop
            invariant_except_break
                self.header == old(self).header,
                self.timestamp == old(self).timestamp,
                self.transactions == old(self).transactions,
                self.prev_block_hash == old(self).prev_block_hash,
                self.prev_block_hash_other == old(self).prev_block_hash_other,
                self.height == old(self).height,
                start == old(self).nonce,
                start <= self.nonce,
                forall|k: i32| start <= k < self.nonce ==> !meets_target(#[trigger] pow_input(self@, tx_root@, k)),
            ensures
                self.header == old(self).header,
                self.timestamp == old(self).timestamp,
                self.transactions == old(self).transactions,
                self.prev_block_hash == old(self).prev_block_hash,
                self.prev_block_hash_other == old(self).prev_block_hash_other,
                self.height == old(self).height,
                start == old(self).nonce,
                start <= self.nonce,
                forall|k: i32| start <= k < self.nonce ==> !meets_target(#[trigger] pow_input(self@, tx_root@, k)),
                meets_target(pow_input(self@, tx_root@, self.nonce)),
            decreases i32::MAX - self.nonce,
        {
            let found = match self.validate(tx_root) {
                Some(v) => v,
                None => false,
            };
            if found {
                break ;
            }
            if self.nonce == i32::MAX {
                return Err(BlockError::NonceExhausted);
            }
            let ghost before = self@;
            self.nonce = self.nonce + 1;
            assert forall|k: i32| start <= k < self.nonce implies !meets_target(
                #[trigger] pow_input(self@, tx_root@, k),
            ) by {
                assert(pow_input(self@, tx_root@, k) == pow_input(before, tx_root@, k));
            }
        }
        let data = serialize_header(
            self.header.as_str(),
            self.prev_block_hash.as_str(),
            self.prev_block_hash_other.as_str(),
            tx_root,
            self.timestamp,
            TARGET_HEXS,
            self.nonce,
        ).unwrap();
        let digest = digest_bytes(data.as_slice());
        let ghost before = self@;
        self.hash = to_hex(digest.as_slice());
        assert forall|k: i32| start <= k <= self.nonce implies #[trigger] pow_input(
            self@,
            tx_root@,
            k,
        ) == pow_input(before, tx_root@, k) by {}
        Ok(())
    }

    /// Makes the block with the given contents and timestamp and seals it
    /// with the first nonce, counting from 0, whose proof-of-work input
    /// meets the target; `tx_root` is the Merkle root of the transactions.
    /// It fails, with `NonceExhausted`, exactly when no nonce meets it.
    pub fn new_block_at(
        transactions: Vec<Transaction>,
        prev_block_hash: String,
        prev_block_hash_other: String,
        header: String,
        height: i32,
        timestamp: u128,
        tx_root: &[u8],
    ) -> (res: Result<Block, BlockError>)
        ensures
            res matches Ok(b) ==> holds(
                b@,
                tx_models(transactions@),
                prev_block_hash@,
                prev_block_hash_other@,
                header@,
                height,
                timestamp,
            ) && work_proved(b@, tx_root@),
            res is Err ==> res == Err::<Block, BlockError>(BlockError::NonceExhausted),
            res is Ok <==> !no_nonce_for(
                header@,
                prev_block_hash@,
                prev_block_hash_other@,
                tx_root@,
                timestamp,
            ),
    {
        let ghost (h, p, po) = (header@, prev_block_hash@, prev_block_hash_other@);
        let mut block = Block {
            timestamp,
            transactions,
            prev_block_hash,
            prev_block_hash_other,
            header,
            hash: String::new(),
            nonce: 0,
            height,
        };
        let res = block.run_proof_of_work(tx_root);
        proof {
            assert(block@.header == h && block@.prev_block_hash == p && block@.prev_block_hash_other
                == po && block@.timestamp == timestamp);
            assert forall|k: i32| #[trigger] pow_input(block@, tx_root@, k) == header_encoding(
                h,
                p,
                po,
                tx_root@,
                timestamp,
                TARGET_HEXS,
                k,
            ) by {}
            if res is Ok {
                let n = block@.nonce;
                assert(0 <= n);
                assert(meets_target(header_encoding(h, p, po, tx_root@, timestamp, TARGET_HEXS, n)));
                assert(!no_nonce_for(h, p, po, tx_root@, timestamp));
            } else {
                assert forall|k: i32| 0 <= k implies !meets_target(
                    #[trigger] header_encoding(h, p, po, tx_root@, timestamp, TARGET_HEXS, k),
                ) by {
                    assert(pow_input(block@, tx_root@, k) == header_encoding(
                        h,
                        p,
                        po,
                        tx_root@,
                        timestamp,
                        TARGET_HEXS,
                        k,
                    ));
                }
            }
        }
        match res {
            Ok(()) => Ok(block),
            Err(e) => Err(e),
        }
    }

    /// Makes the block with the given contents, stamped with the present
    /// time in milliseconds since the Unix epoch, and seals it as
    /// `new_block_at` does; `tx_root` is the Merkle root of the transactions.
    pub fn new_block(
        transactions: Vec<Transaction>,
        prev_block_hash: String,
        prev_block_hash_other: String,
        header: String,
        height: i32,
        tx_root: &[u8],
    ) -> (res: Result<Block, BlockError>)
        ensures
            res matches Ok(b) ==> holds(
                b@,
                tx_models(transactions@),
                prev_block_hash@,
                prev_block_hash_other@,
                header@,
                height,
                b@.timestamp,
            ) && work_proved(b@, tx_root@),
            res == Err::<Block, BlockError>(BlockError::NonceExhausted) ==> exists|timestamp: u128|
                no_nonce_for(
                    header@,
                    prev_block_hash@,
                    prev_block_hash_other@,
                    tx_root@,
                    timestamp,
                ),
    {
        match millis_since_epoch() {
            None => Err(BlockError::Clock),
            Some(timestamp) => Block::new_block_at(
                transactions,
                prev_block_hash,
                prev_block_hash_other,
                header,
                height,
                timestamp,
                tx_root,
            ),
        }
    }

    /// Makes the genesis block of chain 1 or chain 2, holding the coinbase
    /// transaction alone, at height 0, with no previous hash and the other
    /// chain's hash set to "Genessis block"; `tx_root` is the Merkle root of
    /// that one transaction.
    pub fn new_genesis_block(coinbase: Transaction, chain: i32, tx_root: &[u8]) -> (res: Result<
        Block,
        BlockError,
    >)
        requires
            chain == 1 || chain == 2,
        ensures
            res matches Ok(b) ==> holds(
                b@,
                seq![coinbase@],
                Seq::empty(),
                genesis_other_hash(),
                genesis_header(chain),
                0,
                b@.timestamp,
            ) && work_proved(b@, tx_root@),
            res == Err::<Block, BlockError>(BlockError::NonceExhausted) ==> exists|timestamp: u128|
                no_nonce_for(
                    genesis_header(chain),
                    Seq::empty(),
                    genesis_other_hash(),
                    tx_root@,
                    timestamp,
                ),
    {
        let header = if chain == 1 {
            "Chain 1".to_owned()
        } else {
            "Chain 2".to_owned()
        };
        let other = "Genessis block".to_owned();
        let ghost c = coinbase@;
        let mut transactions: Vec<Transaction> = Vec::new();
        transactions.push(coinbase);
        assert(tx_models(transactions@) =~= seq![c]);
        let ghost (h, o) = (header@, other@);
        let res = Block::new_block(transactions, String::new(), other, header, 0, tx_root);
        proof {
            if res == Err::<Block, BlockError>(BlockError::NonceExhausted) {
                let ts = choose|ts: u128| no_nonce_for(h, Seq::empty(), o, tx_root@, ts);
                assert(no_nonce_for(genesis_header(chain), Seq::empty(), genesis_other_hash(), tx_root@, ts));
            }
        }
        res
    }

    /// A block with the given fields, as they were recorded elsewhere.
    pub fn from_parts(
        header: String,
        timestamp: u128,
        transactions: Vec<Transaction>,
        prev_block_hash: String,
        prev_block_hash_other: String,
        hash: String,
        nonce: i32,
        height: i32,
    ) -> (b: Block)
        ensures
            holds(
                b@,
                tx_models(transactions@),
                prev_block_hash@,
                prev_block_hash_other@,
                header@,
                height,
                timestamp,
            ),
            b@.hash == hash@,
            b@.nonce == nonce,
    {
        Block {
            header,
            timestamp,
            transactions,
            prev_block_hash,
            prev_block_hash_other,
            hash,
            nonce,
            height,
        }
    }

    /// The header text naming the block's chain.
    pub fn get_header(&self) -> (header: String)
        ensures
            header@ == self@.header,
    {
        self.header.clone()
    }

    /// When the block was made, in milliseconds since the Unix epoch.
    pub fn get_timestamp(&self) -> (timestamp: u128)
        ensures
            timestamp == self@.timestamp,
    {
        self.timestamp
    }

    /// The hash that the block records from the other chain.
    pub fn get_prev_hash_other(&self) -> (hash: String)
        ensures
            hash@ == self@.prev_block_hash_other,
    {
        self.prev_block_hash_other.clone()
    }

    /// The nonce that proves the block's work.
    pub fn get_nonce(&self) -> (nonce: i32)
        ensures
            nonce == self@.nonce,
    {
        self.nonce
    }

    /// A copy of this block.
    pub fn duplicate(&self) -> (b: Block)
        ensures
            b@ == self@,
    {
        let mut transactions: Vec<Transaction> = Vec::new();
        let mut i: usize = 0;
        while i < self.transactions.len()
            invariant
                i <= self.transactions@.len(),
                tx_models(transactions@) == tx_models(self.transactions@).take(i as int),
            decreases self.transactions@.len() - i,
        {
            let ghost before = transactions@;
            assert(tx_models(before).len() == before.len());
            transactions.push(self.transactions[i].duplicate());
            assert(tx_models(transactions@) =~= tx_models(self.transactions@).take(i + 1)) by {
                assert forall|k: int| 0 <= k < i + 1 implies tx_models(transactions@)[k]
                    == tx_models(self.transactions@).take(i + 1)[k] by {
                    if k < i {
                        assert(transactions@[k] == before[k]);
                        assert(tx_models(before)[k] == tx_models(self.transactions@).take(i as int)[k]);
                    }
                }
            }
            i = i + 1;
        }
        assert(tx_models(self.transactions@).take(self.transactions@.len() as int) =~= tx_models(
            self.transactions@,
        ));
        Block {
            header: self.header.clone(),
            timestamp: self.timestamp,
            transactions,
            prev_block_hash: self.prev_block_hash.clone(),
            prev_block_hash_other: self.prev_block_hash_other.clone(),
            hash: self.hash.clone(),
            nonce: self.nonce,
            height: self.height,
        }
    }

    /// Whether the work of this block, with `tx_root` as the Merkle root of
    /// its transactions, meets the target. The proof-of-work input is always
    /// encoded, so the answer is always given.
    pub fn validate(&self, tx_root: &[u8]) -> (valid: Option<bool>)
        ensures
            valid == Some(meets_target(pow_input(self@, tx_root@, self@.nonce))),
    {
        match serialize_header(
            self.header.as_str(),
            self.prev_block_hash.as_str(),
            self.prev_block_hash_other.as_str(),
            tx_root,
            self.timestamp,
            TARGET_HEXS,
            self.nonce,
        ) {
            None => None,
            Some(data) => {
                let digest = digest_bytes(data.as_slice());
                proof {
                    lemma_target_is_two_zero_bytes(data@);
                }
                Some(digest[0] == 0 && digest[1] == 0)
            },
        }
    }
}

} // verus!
