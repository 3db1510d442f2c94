//! The chain itself: blocks, the canonical hashing procedure, the difficulty
//! predicate, mining, appending, verification and traversal.

use vstd::prelude::*;
use vstd::bytes::spec_u64_to_le_bytes;
use vstd::bytes::u64_to_le_bytes;
use vstd::string::StrSliceExecFns;
use vstd::utf8::encode_utf8;
use crate::hashing::base64_encode;
use crate::hashing::base64_of;
use crate::hashing::sha256;
use crate::hashing::sha256_of;

verus! {

/// One unit of the chain: the cached hash of the predecessor (absent only for
/// the genesis block), the creation timestamp, the opaque payload, and the
/// proof-of-work nonce.
pub struct Block {
    pub prev_hash: Option<String>,
    pub timestamp: String,
    pub transaction: String,
    pub nonce: u64,
}

/// A verification failure, naming the offending link: link `link` is the one
/// from block `link` (counted from genesis) down to its predecessor.
pub enum VerifyError {
    /// The recomputed hash of block `link - 1` fails the difficulty predicate.
    InvalidHash { link: usize, hash: String },
    /// The recomputed hash of block `link - 1` differs from the hash cached in
    /// block `link` when the two were linked.
    HashMismatch { link: usize, expected: String, actual: String },
}

/// The chain: blocks in insertion order, genesis first and tail last, and the
/// difficulty fixed at creation.
pub struct Blockchain {
    pub blocks: Vec<Block>,
    pub difficulty: usize,
}

/// The bytes a block's hash is computed over, in order: the cached
/// predecessor hash if one is present (omitted entirely for genesis), the
/// timestamp text, the payload text, and the nonce as eight little-endian
/// bytes.
pub open spec fn spec_content_bytes(b: Block) -> Seq<u8> {
    (match b.prev_hash {
        Some(h) => encode_utf8(h@),
        None => Seq::<u8>::empty(),
    }) + encode_utf8(b.timestamp@) + encode_utf8(b.transaction@)
        + spec_u64_to_le_bytes(b.nonce)
}

/// A block's hash: the base64 text of the SHA-256 digest of its content
/// bytes.
pub open spec fn spec_block_hash(b: Block) -> Seq<char> {
    base64_of(sha256_of(spec_content_bytes(b)))
}

/// The difficulty predicate: the first `d` characters of the hash (all of
/// them, if it is shorter than `d`) are the literal zero character.
pub open spec fn spec_hash_ok(h: Seq<char>, d: int) -> bool {
    forall|i: int| 0 <= i < d && i < h.len() ==> h[i] == '0'
}

/// `b` with its nonce replaced and every other field kept.
pub open spec fn with_nonce(b: Block, m: u64) -> Block {
    Block { nonce: m, ..b }
}

/// Some nonce makes `b`'s hash satisfy the difficulty predicate. Mining is
/// guaranteed to succeed exactly on such blocks; that it always holds in
/// practice is an assumption of the design, not proved here.
pub open spec fn spec_mineable(b: Block, d: int) -> bool {
    exists|m: u64| spec_hash_ok(spec_block_hash(with_nonce(b, m)), d)
}

impl Blockchain {
    /// Link `j` (for `1 <= j < len`) is intact: block `j` caches exactly the
    /// recomputed hash of block `j - 1`.
    pub open spec fn link_ok(self, j: int) -> bool {
        self.blocks@[j].prev_hash matches Some(h) && h@ == spec_block_hash(self.blocks@[j - 1])
    }

    /// The recomputed hash of block `j - 1` satisfies the difficulty
    /// predicate.
    pub open spec fn link_hash_ok(self, j: int) -> bool {
        spec_hash_ok(spec_block_hash(self.blocks@[j - 1]), self.difficulty as int)
    }

    /// Link `j` fails verification, by mismatch or by difficulty.
    pub open spec fn bad_link(self, j: int) -> bool {
        !self.link_ok(j) || !self.link_hash_ok(j)
    }

    /// Every interior link holds: exactly what verification checks. The tail
    /// block's own hash is not part of this (no successor has cached it).
    pub open spec fn spec_valid(self) -> bool {
        forall|j: int| 1 <= j < self.blocks@.len() ==> !self.bad_link(j)
    }

    /// What `new` and `add` maintain: the genesis block has no predecessor
    /// link, every block's hash satisfies the difficulty predicate, and every
    /// block caches exactly its predecessor's hash.
    pub open spec fn wf(self) -> bool {
        &&& (self.blocks@.len() > 0 ==> self.blocks@[0].prev_hash is None)
        &&& (forall|i: int|
            0 <= i < self.blocks@.len() ==> spec_hash_ok(
                spec_block_hash(self.blocks@[i]),
                self.difficulty as int,
            ))
        &&& (forall|j: int| 1 <= j < self.blocks@.len() ==> self.link_ok(j))
    }

    pub fn new(difficulty: usize) -> (r: Self)
        ensures
            r.blocks@.len() == 0,
            r.difficulty == difficulty,
            r.wf(),
    {
        Blockchain { blocks: Vec::new(), difficulty }
    }

    /// Proof-of-work: search upward from nonce zero until the block's hash
    /// satisfies the difficulty predicate, and return the block fixed at the
    /// smallest such nonce. If no nonce at all satisfies the predicate the
    /// whole nonce space is swept once and the block comes back with the last
    /// nonce tried; the contract says exactly when that happens.
    pub fn mine_block(&self, block: Block) -> (r: Block)
        ensures
            r.prev_hash == block.prev_hash,
            r.timestamp == block.timestamp,
            r.transaction == block.transaction,
            spec_mineable(r, self.difficulty as int) ==> spec_hash_ok(
                spec_block_hash(r),
                self.difficulty as int,
            ),
            forall|m: u64|
                m < r.nonce ==> !spec_hash_ok(
                    spec_block_hash(with_nonce(r, m)),
                    self.difficulty as int,
                ),
    {
        let mut b = block;
        b.nonce = 0;
        let mut exhausted = false;
        let h = self.hash_block(&b);
        let mut ok = self.check_hash(h.as_str());
        while !ok && !exhausted
            invariant
                b.prev_hash == block.prev_hash,
                b.timestamp == block.timestamp,
                b.transaction == block.transaction,
                ok == spec_hash_ok(spec_block_hash(b), self.difficulty as int),
                forall|m: u64|
                    m < b.nonce ==> !spec_hash_ok(
                        spec_block_hash(with_nonce(b, m)),
                        self.difficulty as int,
                    ),
                exhausted ==> b.nonce == u64::MAX,
            decreases u64::MAX - b.nonce, if exhausted { 0int } else { 1int },
        {
            let ghost b0 = b;
            proof {
                assert(with_nonce(b0, b0.nonce) == b0);
            }
            if b.nonce == u64::MAX {
                exhausted = true;
            } else {
                b.nonce = b.nonce + 1;
            }
            proof {
                assert forall|m: u64| with_nonce(b, m) == with_nonce(b0, m) by {}
            }
            let h2 = self.hash_block(&b);
            ok = self.check_hash(h2.as_str());
        }
        proof {
            assert(with_nonce(b, b.nonce) == b);
            if !ok {
                assert forall|m: u64| !spec_hash_ok(
                    spec_block_hash(with_nonce(b, m)),
                    self.difficulty as int,
                ) by {
                    if m < b.nonce {
                    } else {
                        assert(m == b.nonce);
                    }
                }
            }
        }
        b
    }

    /// Recompute a block's hash from its own content.
    pub fn hash_block(&self, block: &Block) -> (h: String)
        ensures
            h@ == spec_block_hash(*block),
    {
        let mut data: Vec<u8> = Vec::new();
        match &block.prev_hash {
            Some(p) => {
                let mut pb = p.as_str().as_bytes_vec();
                data.append(&mut pb);
            },
            None => {},
        }
        let mut tb = block.timestamp.as_str().as_bytes_vec();
        data.append(&mut tb);
        let mut xb = block.transaction.as_str().as_bytes_vec();
        data.append(&mut xb);
        let mut nb = u64_to_le_bytes(block.nonce);
        data.append(&mut nb);
        proof {
            assert(data@ =~= spec_content_bytes(*block));
        }
        let digest = sha256(&data);
        base64_encode(&digest)
    }

    /// Append a block carrying `transaction` with the given timestamp: cache
    /// the current tail's hash as the new block's predecessor link, mine the
    /// new block, and install it as the new tail. `add` does the same after
    /// reading the clock itself.
    pub fn add_with_timestamp(&mut self, transaction: String, timestamp: String)
        ensures
            final(self).difficulty == old(self).difficulty,
            final(self).blocks@.len() == old(self).blocks@.len() + 1,
            forall|i: int|
                0 <= i < old(self).blocks@.len() ==> final(self).blocks@[i] == old(
                    self,
                ).blocks@[i],
            final(self).blocks@.last().transaction == transaction,
            final(self).blocks@.last().timestamp == timestamp,
            old(self).blocks@.len() == 0 ==> final(self).blocks@.last().prev_hash is None,
            old(self).blocks@.len() > 0 ==> (final(self).blocks@.last().prev_hash matches Some(h)
                && h@ == spec_block_hash(old(self).blocks@.last())),
            spec_mineable(final(self).blocks@.last(), old(self).difficulty as int)
                ==> spec_hash_ok(
                spec_block_hash(final(self).blocks@.last()),
                old(self).difficulty as int,
            ),
            forall|m: u64|
                m < final(self).blocks@.last().nonce ==> !spec_hash_ok(
                    spec_block_hash(with_nonce(final(self).blocks@.last(), m)),
                    old(self).difficulty as int,
                ),
            old(self).wf() && spec_mineable(
                final(self).blocks@.last(),
                old(self).difficulty as int,
            ) ==> final(self).wf(),
    {
        let n = self.blocks.len();
        let prev_hash: Option<String> = if n > 0 {
            Some(self.hash_block(&self.blocks[n - 1]))
        } else {
            None
        };
        let fresh = Block { prev_hash, timestamp, transaction, nonce: 0 };
        let mined = self.mine_block(fresh);
        self.blocks.push(mined);
        proof {
            let s = self.blocks@;
            assert(s.last() == s[s.len() - 1]);
            if old(self).wf() && spec_mineable(s.last(), old(self).difficulty as int) {
                assert forall|j: int| 1 <= j < s.len() implies self.link_ok(j) by {
                    if j < s.len() - 1 {
                        assert(old(self).link_ok(j));
                    }
                }
            }
        }
    }

    /// Append a block carrying `transaction`, timestamped with the clock's
    /// current reading, of whose value nothing is known.
    pub fn add(&mut self, transaction: String)
        ensures
            final(self).difficulty == old(self).difficulty,
            final(self).blocks@.len() == old(self).blocks@.len() + 1,
            forall|i: int|
                0 <= i < old(self).blocks@.len() ==> final(self).blocks@[i] == old(
                    self,
                ).blocks@[i],
            final(self).blocks@.last().transaction == transaction,
            old(self).blocks@.len() == 0 ==> final(self).blocks@.last().prev_hash is None,
            old(self).blocks@.len() > 0 ==> (final(self).blocks@.last().prev_hash matches Some(h)
                && h@ == spec_block_hash(old(self).blocks@.last())),
            spec_mineable(final(self).blocks@.last(), old(self).difficulty as int)
                ==> spec_hash_ok(
                spec_block_hash(final(self).blocks@.last()),
                old(self).difficulty as int,
            ),
            forall|m: u64|
                m < final(self).blocks@.last().nonce ==> !spec_hash_ok(
                    spec_block_hash(with_nonce(final(self).blocks@.last(), m)),
                    old(self).difficulty as int,
                ),
            old(self).wf() && spec_mineable(
                final(self).blocks@.last(),
                old(self).difficulty as int,
            ) ==> final(self).wf(),
    {
        let ts = crate::hashing::now_timestamp();
        self.add_with_timestamp(transaction, ts);
    }

    /// Does a hash satisfy this chain's difficulty predicate?
    pub fn check_hash(&self, hash: &str) -> (r: bool)
        ensures
            r == spec_hash_ok(hash@, self.difficulty as int),
    {
        let n = hash.unicode_len();
        let limit = if self.difficulty < n { self.difficulty } else { n };
        let mut i: usize = 0;
        while i < limit
            invariant
                n == hash@.len(),
                limit == if self.difficulty < n { self.difficulty } else { n },
                0 <= i <= limit,
                forall|j: int| 0 <= j < i ==> hash@[j] == '0',
            decreases limit - i,
        {
            if hash.get_char(i) != '0' {
                return false;
            }
            i = i + 1;
        }
        true
    }

    /// Walk the chain from the tail towards genesis, recomputing each
    /// predecessor's hash and holding it against the hash its successor
    /// cached, then against the difficulty predicate; stop at the first
    /// failure. A missing predecessor link on an interior block is reported
    /// as a mismatch with an empty expected hash. The tail block's own hash
    /// is never checked, and chains of length zero or one verify trivially.
    pub fn verify_chain(&self) -> (r: Result<(), VerifyError>)
        ensures
            r is Ok <==> self.spec_valid(),
            match r {
                Ok(_) => true,
                Err(VerifyError::HashMismatch { link, expected, actual }) => {
                    &&& 1 <= link < self.blocks@.len()
                    &&& !self.link_ok(link as int)
                    &&& (forall|k: int| link < k < self.blocks@.len() ==> !self.bad_link(k))
                    &&& actual@ == spec_block_hash(self.blocks@[link - 1])
                    &&& (match self.blocks@[link as int].prev_hash {
                        Some(c) => expected@ == c@,
                        None => expected@ == Seq::<char>::empty(),
                    })
                },
                Err(VerifyError::InvalidHash { link, hash }) => {
                    &&& 1 <= link < self.blocks@.len()
                    &&& self.link_ok(link as int)
                    &&& !self.link_hash_ok(link as int)
                    &&& (forall|k: int| link < k < self.blocks@.len() ==> !self.bad_link(k))
                    &&& hash@ == spec_block_hash(self.blocks@[link - 1])
                },
            },
    {
        let n = self.blocks.len();
        let mut j = n;
        while j >= 2
            invariant
                j <= n,
                n == self.blocks@.len(),
                forall|k: int| j <= k < n ==> !self.bad_link(k),
            decreases j,
        {
            let link = j - 1;
            let actual = self.hash_block(&self.blocks[link - 1]);
            match &self.blocks[link].prev_hash {
                Some(cached) => {
                    if !(*cached == actual) {
                        proof {
                            assert(!self.link_ok(link as int));
                            assert(self.bad_link(link as int));
                            assert(!self.spec_valid());
                        }
                        return Err(VerifyError::HashMismatch {
                            link,
                            expected: cached.clone(),
                            actual,
                        });
                    }
                    if !self.check_hash(actual.as_str()) {
                        proof {
                            assert(self.link_ok(link as int));
                            assert(!self.link_hash_ok(link as int));
                            assert(self.bad_link(link as int));
                            assert(!self.spec_valid());
                        }
                        return Err(VerifyError::InvalidHash { link, hash: actual });
                    }
                },
                None => {
                    proof {
                        assert(!self.link_ok(link as int));
                        assert(self.bad_link(link as int));
                        assert(!self.spec_valid());
                    }
                    return Err(VerifyError::HashMismatch {
                        link,
                        expected: String::new(),
                        actual,
                    });
                },
            }
            j = link;
        }
        Ok(())
    }

    /// The blocks from tail to genesis, as references in traversal order.
    pub fn iter(&self) -> (r: Vec<&Block>)
        ensures
            r@.len() == self.blocks@.len(),
            forall|i: int|
                0 <= i < r@.len() ==> r@[i] == self.blocks@[self.blocks@.len() - 1 - i],
    {
        let n = self.blocks.len();
        let mut r: Vec<&Block> = Vec::new();
        let mut j = n;
        while j > 0
            invariant
                j <= n,
                n == self.blocks@.len(),
                r@.len() == n - j,
                forall|i: int| 0 <= i < r@.len() ==> r@[i] == self.blocks@[n - 1 - i],
            decreases j,
        {
            j = j - 1;
            r.push(&self.blocks[j]);
        }
        r
    }
}

} // verus!
