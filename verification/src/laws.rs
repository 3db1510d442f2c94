//! The properties the chain is built for, stated and proved over the same
//! spec functions the methods' contracts use.

use vstd::prelude::*;
use crate::chain::Block;
use crate::chain::Blockchain;
use crate::chain::spec_block_hash;
use crate::chain::spec_content_bytes;
use crate::chain::spec_hash_ok;

verus! {

/// `a` and `b` carry the same content: the same cached predecessor hash text
/// (or both none), timestamp text, payload text and nonce.
pub open spec fn same_content(a: Block, b: Block) -> bool {
    &&& (match (a.prev_hash, b.prev_hash) {
        (Option::None, Option::None) => true,
        (Option::Some(x), Option::Some(y)) => x@ == y@,
        _ => false,
    })
    &&& a.timestamp@ == b.timestamp@
    &&& a.transaction@ == b.transaction@
    &&& a.nonce == b.nonce
}

/// Hashing is deterministic: blocks of identical content have the identical
/// hash.
pub proof fn lemma_hash_deterministic(a: Block, b: Block)
    ensures
        same_content(a, b) ==> spec_block_hash(a) == spec_block_hash(b),
{
    if same_content(a, b) {
        assert(spec_content_bytes(a) == spec_content_bytes(b));
    }
}

/// A chain built purely through `add` calls verifies: well-formedness, which
/// `new` establishes and `add` maintains, implies the predicate that makes
/// `verify_chain` return success.
pub proof fn lemma_wf_verifies(c: Blockchain)
    ensures
        c.wf() ==> c.spec_valid(),
{
    if c.wf() {
        assert forall|j: int| 1 <= j < c.blocks@.len() implies !c.bad_link(j) by {
            assert(c.link_ok(j));
            assert(spec_hash_ok(spec_block_hash(c.blocks@[j - 1]), c.difficulty as int));
        }
    }
}

/// On a well-formed chain every block's recomputed hash, the tail's included,
/// carries at least `difficulty` leading zero characters.
pub proof fn lemma_difficulty_met(c: Blockchain, i: int, k: int)
    ensures
        c.wf() && 0 <= i < c.blocks@.len() && 0 <= k < c.difficulty && k < spec_block_hash(
            c.blocks@[i],
        ).len() ==> spec_block_hash(c.blocks@[i])[k] == '0',
{
    if c.wf() && 0 <= i < c.blocks@.len() {
        assert(spec_hash_ok(spec_block_hash(c.blocks@[i]), c.difficulty as int));
    }
}

/// On any chain that verifies, every non-tail block's recomputed hash carries
/// at least `difficulty` leading zero characters.
pub proof fn lemma_valid_chain_difficulty(c: Blockchain, j: int, k: int)
    ensures
        c.spec_valid() && 1 <= j < c.blocks@.len() && 0 <= k < c.difficulty && k < spec_block_hash(
            c.blocks@[j - 1],
        ).len() ==> spec_block_hash(c.blocks@[j - 1])[k] == '0',
{
    if c.spec_valid() && 1 <= j < c.blocks@.len() {
        assert(!c.bad_link(j));
        assert(c.link_hash_ok(j));
    }
}

/// `t` is `c` with exactly the block at `i` replaced: same difficulty, same
/// length, every other block identical.
pub open spec fn differs_only_at(c: Blockchain, t: Blockchain, i: int) -> bool {
    &&& t.difficulty == c.difficulty
    &&& t.blocks@.len() == c.blocks@.len()
    &&& (forall|k: int| 0 <= k < c.blocks@.len() && k != i ==> t.blocks@[k] == c.blocks@[k])
}

/// Tampering with a non-tail block is caught at the link right above it: if a
/// valid chain has block `i` replaced by one whose recomputed hash differs
/// (as a change of payload, timestamp or nonce does, short of a hash
/// collision), the first failure seen from the tail is a mismatch at link
/// `i + 1`, which is therefore what `verify_chain` reports.
pub proof fn lemma_tamper_detected(c: Blockchain, t: Blockchain, i: int)
    ensures
        (c.spec_valid() && 0 <= i < t.blocks@.len() - 1 && differs_only_at(c, t, i)
            && spec_block_hash(t.blocks@[i]) != spec_block_hash(c.blocks@[i])) ==> {
            &&& !t.spec_valid()
            &&& !t.link_ok(i + 1)
            &&& (forall|k: int| i + 1 < k < t.blocks@.len() ==> !t.bad_link(k))
        },
{
    if c.spec_valid() && 0 <= i < t.blocks@.len() - 1 && differs_only_at(c, t, i)
        && spec_block_hash(t.blocks@[i]) != spec_block_hash(c.blocks@[i]) {
        assert(!c.bad_link(i + 1));
        assert(t.blocks@[i + 1] == c.blocks@[i + 1]);
        assert(!t.link_ok(i + 1));
        assert(t.bad_link(i + 1));
        assert forall|k: int| i + 1 < k < t.blocks@.len() implies !t.bad_link(k) by {
            assert(!c.bad_link(k));
            assert(t.blocks@[k] == c.blocks@[k]);
            assert(t.blocks@[k - 1] == c.blocks@[k - 1]);
        }
    }
}

/// Tampering with the cached predecessor hash inside the tail block is caught
/// at that very link: if a valid chain of length at least two has its tail
/// replaced by one whose cached hash text differs from the recomputed hash of
/// the block below, the first and only failure is a mismatch at the last
/// link.
pub proof fn lemma_cached_hash_tamper_detected(c: Blockchain, t: Blockchain)
    ensures
        (c.spec_valid() && t.blocks@.len() >= 2 && differs_only_at(c, t, t.blocks@.len() - 1)
            && t.blocks@[t.blocks@.len() - 2] == c.blocks@[c.blocks@.len() - 2] && !(
        t.blocks@.last().prev_hash matches Some(h) && h@ == spec_block_hash(
            t.blocks@[t.blocks@.len() - 2],
        ))) ==> {
            &&& !t.spec_valid()
            &&& !t.link_ok(t.blocks@.len() - 1)
        },
{
    let n = t.blocks@.len();
    if c.spec_valid() && n >= 2 && differs_only_at(c, t, n - 1) && t.blocks@[n - 2] == c.blocks@[n
        - 2] && !(t.blocks@.last().prev_hash matches Some(h) && h@ == spec_block_hash(
        t.blocks@[n - 2],
    )) {
        assert(t.blocks@.last() == t.blocks@[n - 1]);
        assert(!t.link_ok(n - 1));
        assert(t.bad_link(n - 1));
        assert(!t.spec_valid());
    }
}

} // verus!
