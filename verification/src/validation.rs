//! Validity of blocks and chains, the temporal rule, and the rolling
//! difficulty.
use crate::block::Block;
use crate::block::spec_block_hash_ok;
use crate::blockchain::Blockchain;
use crate::hashing::generate_hash;
use crate::hashing::hash_matches_difficulty;
use crate::hashing::spec_matches_difficulty;
use crate::time::now_seconds;
use crate::BLOCK_GENERATION_INTERVAL;
use crate::DIFFICULTY_ADJUSTMENT_INTERVAL;
use vstd::prelude::*;
use vstd::string::StrSliceExecFns;

verus! {

/// A block is structurally valid relative to its predecessor: the index
/// advances by one, the link matches, the stored hash is the fingerprint of
/// the fields, and that fingerprint meets the block's difficulty. The
/// temporal rule, which needs a clock reading, is added by
/// `spec_valid_block_at`.
pub open spec fn spec_valid_block(new: Block, prev: Block) -> bool {
    &&& new.index == prev.index as int + 1
    &&& new.prev_hash@ == prev.hash@
    &&& spec_block_hash_ok(new)
    &&& spec_matches_difficulty(new.hash@, new.difficulty)
}

/// The genesis block is well-formed: index zero, the all-zero digest (64
/// hex zeros) as predecessor hash, and a correct fingerprint that meets its
/// difficulty.
pub open spec fn spec_genesis_ok(b: Block) -> bool {
    &&& b.index == 0
    &&& b.prev_hash@.len() == 64
    &&& forall|j: int| 0 <= j < b.prev_hash@.len() ==> b.prev_hash@[j] == '0'
    &&& spec_block_hash_ok(b)
    &&& spec_matches_difficulty(b.hash@, b.difficulty)
}

/// A chain is structurally valid: non-empty, its genesis well-formed, and
/// every later block structurally valid relative to its predecessor.
pub open spec fn spec_valid_chain(s: Seq<Block>) -> bool {
    &&& s.len() > 0
    &&& spec_genesis_ok(s[0])
    &&& forall|i: int| 1 <= i < s.len() ==> spec_valid_block(#[trigger] s[i], s[i - 1])
}

/// A block is valid relative to its predecessor against the clock reading
/// `now`: structurally valid, and inside the temporal window.
pub open spec fn spec_valid_block_at(new: Block, prev: Block, now: i64) -> bool {
    spec_valid_block(new, prev) && spec_valid_timestamp(new, prev, now)
}

/// A chain is valid against the clock reading `now`: non-empty, its genesis
/// well-formed, and every later block valid relative to its predecessor,
/// temporal rule included.
pub open spec fn spec_valid_chain_at(s: Seq<Block>, now: i64) -> bool {
    &&& s.len() > 0
    &&& spec_genesis_ok(s[0])
    &&& forall|i: int| 1 <= i < s.len() ==> spec_valid_block_at(#[trigger] s[i], s[i - 1], now)
}

/// Validity against any clock reading implies structural validity.
pub proof fn lemma_valid_chain_at_implies_structural(s: Seq<Block>, now: i64)
    requires
        spec_valid_chain_at(s, now),
    ensures
        spec_valid_chain(s),
{
    assert forall|i: int| 1 <= i < s.len() implies spec_valid_block(#[trigger] s[i], s[i - 1]) by {
        assert(spec_valid_block_at(s[i], s[i - 1], now));
    }
}

/// Checks a candidate block against its predecessor and the clock reading
/// `now`: index, link, fingerprint, proof-of-work, and the temporal rule.
pub fn is_valid_block_at(new_block: &Block, prev_block: &Block, now: i64) -> (r: bool)
    ensures
        r == spec_valid_block_at(*new_block, *prev_block, now),
{
    if prev_block.index == u32::MAX {
        return false;
    }
    if new_block.index != prev_block.index + 1 {
        return false;
    }
    if !(new_block.prev_hash == prev_block.hash) {
        return false;
    }
    let computed = generate_hash(
        new_block.index,
        new_block.prev_hash.as_str(),
        new_block.timestamp,
        new_block.data.as_str(),
        new_block.nonce,
    );
    if !(computed == new_block.hash) {
        return false;
    }
    if !hash_matches_difficulty(new_block.hash.as_str(), new_block.difficulty) {
        return false;
    }
    is_valid_timestamp_at(new_block, prev_block, now)
}

/// Checks a candidate block against its predecessor, reading the node's
/// wall clock for the temporal rule. Whatever the clock said: a block that
/// fails the structural rules, or sits at or beyond a minute before its
/// predecessor, is rejected, and an accepted block is structurally valid.
pub fn is_valid_block(new_block: &Block, prev_block: &Block) -> (r: bool)
    ensures
        exists|now: i64| r == spec_valid_block_at(*new_block, *prev_block, now),
        r ==> spec_valid_block(*new_block, *prev_block),
        new_block.timestamp <= prev_block.timestamp - 60 ==> !r,
{
    let now = now_seconds();
    let r = is_valid_block_at(new_block, prev_block, now);
    proof {
        assert(r == spec_valid_block_at(*new_block, *prev_block, now));
    }
    r
}

/// Checks a whole candidate chain, genesis included, against the clock
/// reading `now`.
pub fn is_valid_blocks_at(blocks: &Vec<Block>, now: i64) -> (r: bool)
    ensures
        r == spec_valid_chain_at(blocks@, now),
{
    if blocks.len() == 0 {
        return false;
    }
    let genesis = &blocks[0];
    if genesis.index != 0 {
        return false;
    }
    let ph = genesis.prev_hash.as_str();
    let phn = ph.unicode_len();
    if phn != 64 {
        return false;
    }
    let mut j: usize = 0;
    while j < phn
        invariant
            phn == ph@.len(),
            ph@ == blocks@[0].prev_hash@,
            j <= phn,
            forall|k: int| 0 <= k < j ==> ph@[k] == '0',
        decreases phn - j,
    {
        if ph.get_char(j) != '0' {
            return false;
        }
        j += 1;
    }
    let computed = generate_hash(
        genesis.index,
        ph,
        genesis.timestamp,
        genesis.data.as_str(),
        genesis.nonce,
    );
    if !(computed == genesis.hash) {
        return false;
    }
    if !hash_matches_difficulty(genesis.hash.as_str(), genesis.difficulty) {
        return false;
    }
    let mut i: usize = 1;
    while i < blocks.len()
        invariant
            1 <= i <= blocks@.len(),
            spec_genesis_ok(blocks@[0]),
            forall|k: int|
                1 <= k < i ==> spec_valid_block_at(#[trigger] blocks@[k], blocks@[k - 1], now),
        decreases blocks@.len() - i,
    {
        if !is_valid_block_at(&blocks[i], &blocks[i - 1], now) {
            return false;
        }
        i += 1;
    }
    true
}

/// Checks a whole candidate chain, reading the node's wall clock once for
/// the temporal rule. Whatever the clock said, an accepted chain is
/// structurally valid.
pub fn is_valid_blocks(blocks: &Vec<Block>) -> (r: bool)
    ensures
        exists|now: i64| r == spec_valid_chain_at(blocks@, now),
        r ==> spec_valid_chain(blocks@),
{
    let now = now_seconds();
    let r = is_valid_blocks_at(blocks, now);
    proof {
        assert(r == spec_valid_chain_at(blocks@, now));
        if r {
            lemma_valid_chain_at_implies_structural(blocks@, now);
        }
    }
    r
}

/// Checks the chain held by a store, reading the node's wall clock once.
pub fn is_valid_chain(blockchain: &Blockchain) -> (r: bool)
    ensures
        exists|now: i64| r == spec_valid_chain_at(blockchain.chain@, now),
        r ==> spec_valid_chain(blockchain.chain@),
{
    is_valid_blocks(&blockchain.chain)
}

/// Every accepted chain is hash-linked with consecutive indices: each block
/// names its predecessor's hash and advances the index by one.
pub proof fn lemma_valid_chain_links(s: Seq<Block>)
    requires
        spec_valid_chain(s),
    ensures
        forall|i: int|
            1 <= i < s.len() ==> (#[trigger] s[i]).prev_hash@ == s[i - 1].hash@ && s[i].index == s[i
                - 1].index as int + 1,
{
}

proof fn lemma_valid_chain_index_at(s: Seq<Block>, i: int)
    requires
        spec_valid_chain(s),
        0 <= i < s.len(),
    ensures
        s[i].index == i,
    decreases i,
{
    if i > 0 {
        lemma_valid_chain_index_at(s, i - 1);
    }
}

/// In a valid chain the block at position `i` carries index `i`, so the
/// chain cannot be longer than the index type allows.
pub proof fn lemma_valid_chain_indices(s: Seq<Block>)
    requires
        spec_valid_chain(s),
    ensures
        forall|i: int| 0 <= i < s.len() ==> (#[trigger] s[i]).index == i,
        s.len() <= u32::MAX + 1,
{
    assert forall|i: int| 0 <= i < s.len() implies (#[trigger] s[i]).index == i by {
        lemma_valid_chain_index_at(s, i);
    }
    assert(s[s.len() - 1].index == s.len() - 1);
}

/// In a valid chain every difficulty is at most half the 64-digit hex
/// fingerprint's byte length: at most 32.
pub proof fn lemma_valid_chain_difficulty_bound(s: Seq<Block>)
    requires
        spec_valid_chain(s),
    ensures
        forall|i: int| 0 <= i < s.len() ==> (#[trigger] s[i]).difficulty <= 32,
{
}

/// Two blocks that agree in every field value, if not necessarily in
/// allocation.
pub open spec fn blocks_equivalent(a: Block, b: Block) -> bool {
    &&& a.index == b.index
    &&& a.timestamp == b.timestamp
    &&& a.data@ == b.data@
    &&& a.hash@ == b.hash@
    &&& a.prev_hash@ == b.prev_hash@
    &&& a.nonce == b.nonce
    &&& a.difficulty == b.difficulty
}

/// Chain validation reads nothing but the blocks' field values: a chain
/// rebuilt from equal values — say, decoded back from a faithful wire
/// encoding — validates exactly like the chain it was rebuilt from.
pub proof fn lemma_validation_reads_only_fields(s: Seq<Block>, t: Seq<Block>)
    requires
        s.len() == t.len(),
        forall|i: int| 0 <= i < s.len() ==> blocks_equivalent(#[trigger] s[i], #[trigger] t[i]),
    ensures
        spec_valid_chain(s) == spec_valid_chain(t),
{
    if s.len() > 0 {
        assert(blocks_equivalent(s[0], t[0]));
        assert(spec_genesis_ok(s[0]) == spec_genesis_ok(t[0]));
        if spec_valid_chain(s) {
            assert forall|i: int| 1 <= i < t.len() implies spec_valid_block(
                #[trigger] t[i],
                t[i - 1],
            ) by {
                assert(spec_valid_block(s[i], s[i - 1]));
                assert(blocks_equivalent(s[i], t[i]));
                assert(blocks_equivalent(s[i - 1], t[i - 1]));
            }
        }
        if spec_valid_chain(t) {
            assert forall|i: int| 1 <= i < s.len() implies spec_valid_block(
                #[trigger] s[i],
                s[i - 1],
            ) by {
                assert(spec_valid_block(t[i], t[i - 1]));
                assert(blocks_equivalent(s[i], t[i]));
                assert(blocks_equivalent(s[i - 1], t[i - 1]));
            }
        }
    }
}

/// A node whose valid chain still has room for another index may always ask
/// for the next difficulty: when a retarget is due the adjustment window is
/// present and the retargeted difficulty is small.
pub proof fn lemma_difficulty_preconditions(s: Seq<Block>)
    requires
        spec_valid_chain(s),
        s.len() <= u32::MAX,
    ensures
        s.last().index < u32::MAX,
        spec_retarget_due(s) ==> s.len() >= DIFFICULTY_ADJUSTMENT_INTERVAL
            && spec_adjusted_difficulty(s) <= usize::MAX,
{
    lemma_valid_chain_indices(s);
    lemma_valid_chain_difficulty_bound(s);
    if spec_retarget_due(s) {
        assert(s.last().index == s.len() - 1);
        assert(s.last().index >= DIFFICULTY_ADJUSTMENT_INTERVAL) by {
            assert(s.last().index % (DIFFICULTY_ADJUSTMENT_INTERVAL as u32) == 0);
            assert(s.last().index != 0);
        }
        assert(s[s.len() - DIFFICULTY_ADJUSTMENT_INTERVAL].difficulty <= 32);
    }
}

/// Appending a block that is valid relative to the head keeps the chain
/// valid.
pub proof fn lemma_valid_chain_extend(s: Seq<Block>, b: Block)
    requires
        spec_valid_chain(s),
        spec_valid_block(b, s.last()),
    ensures
        spec_valid_chain(s.push(b)),
{
    let t = s.push(b);
    assert(t[0] == s[0]);
    assert forall|i: int| 1 <= i < t.len() implies spec_valid_block(#[trigger] t[i], t[i - 1]) by {
        if i < t.len() - 1 {
            assert(t[i] == s[i] && t[i - 1] == s[i - 1]);
        } else {
            assert(t[i] == b && t[i - 1] == s.last());
        }
    }
}

/// The temporal rule against a clock reading `now`: the candidate is newer
/// than one minute before its predecessor and less than one minute into the
/// future.
pub open spec fn spec_valid_timestamp(new: Block, prev: Block, now: i64) -> bool {
    prev.timestamp - 60 < new.timestamp as int && new.timestamp - now < 60
}

/// Applies the temporal rule against the given clock reading.
pub fn is_valid_timestamp_at(new_block: &Block, prev_block: &Block, now: i64) -> (r: bool)
    ensures
        r == spec_valid_timestamp(*new_block, *prev_block, now),
{
    let is_new_enough = (prev_block.timestamp as i128) - 60 < new_block.timestamp as i128;
    let is_old_enough = (new_block.timestamp as i128) - (now as i128) < 60;
    is_new_enough && is_old_enough
}

/// Reads the node's wall clock and applies the temporal rule against it.
/// Which reading the clock hands back is not specified; the rule itself is
/// stated by `is_valid_timestamp_at`. Whatever the clock said, a candidate
/// at or beyond a minute before its predecessor is rejected.
pub fn is_valid_timestamp(new_block: &Block, prev_block: &Block) -> (r: bool)
    ensures
        exists|now: i64| r == spec_valid_timestamp(*new_block, *prev_block, now),
        new_block.timestamp <= prev_block.timestamp - 60 ==> !r,
{
    let now = now_seconds();
    let r = is_valid_timestamp_at(new_block, prev_block, now);
    proof {
        assert(r == spec_valid_timestamp(*new_block, *prev_block, now));
    }
    r
}

/// Whether the head's index calls for a difficulty retarget.
pub open spec fn spec_retarget_due(s: Seq<Block>) -> bool
    recommends
        s.len() > 0,
{
    s.last().index % (DIFFICULTY_ADJUSTMENT_INTERVAL as u32) == 0 && s.last().index != 0
}

/// The retargeted difficulty: against the block one adjustment window back,
/// raise by one when the window took less than half the expected time, lower
/// by one (stopping at zero) when it took more than double, else keep it.
pub open spec fn spec_adjusted_difficulty(s: Seq<Block>) -> int
    recommends
        s.len() >= DIFFICULTY_ADJUSTMENT_INTERVAL,
{
    let prev_adj = s[s.len() - DIFFICULTY_ADJUSTMENT_INTERVAL];
    let actual = s.last().timestamp - prev_adj.timestamp;
    let expected = BLOCK_GENERATION_INTERVAL * DIFFICULTY_ADJUSTMENT_INTERVAL;
    if actual < expected / 2 {
        prev_adj.difficulty + 1
    } else if actual > expected * 2 {
        if prev_adj.difficulty == 0 {
            0
        } else {
            prev_adj.difficulty - 1
        }
    } else {
        prev_adj.difficulty as int
    }
}

/// The difficulty the next block must meet: the retargeted one when a
/// retarget is due, else the head's.
pub open spec fn spec_difficulty(s: Seq<Block>) -> int
    recommends
        s.len() > 0,
{
    if spec_retarget_due(s) {
        spec_adjusted_difficulty(s)
    } else {
        s.last().difficulty as int
    }
}

/// Computes the retargeted difficulty from the last adjustment window.
pub fn get_adjusted_difficulty(blockchain: &Blockchain) -> (r: usize)
    requires
        blockchain.chain@.len() >= DIFFICULTY_ADJUSTMENT_INTERVAL,
        spec_adjusted_difficulty(blockchain.chain@) <= usize::MAX,
    ensures
        r == spec_adjusted_difficulty(blockchain.chain@),
{
    let len = blockchain.chain.len();
    let prev_adj = &blockchain.chain[len - DIFFICULTY_ADJUSTMENT_INTERVAL];
    let head = &blockchain.chain[len - 1];
    let actual: i128 = (head.timestamp as i128) - (prev_adj.timestamp as i128);
    let expected: i128 = (BLOCK_GENERATION_INTERVAL as i128) * (DIFFICULTY_ADJUSTMENT_INTERVAL
        as i128);
    if actual < expected / 2 {
        prev_adj.difficulty + 1
    } else if actual > expected * 2 {
        if prev_adj.difficulty == 0 {
            0
        } else {
            prev_adj.difficulty - 1
        }
    } else {
        prev_adj.difficulty
    }
}

/// The difficulty for the next block, retargeting once per adjustment
/// window.
pub fn get_difficulty(blockchain: &Blockchain) -> (r: usize)
    requires
        blockchain.wf(),
        spec_retarget_due(blockchain.chain@) ==> blockchain.chain@.len()
            >= DIFFICULTY_ADJUSTMENT_INTERVAL && spec_adjusted_difficulty(blockchain.chain@)
            <= usize::MAX,
    ensures
        r == spec_difficulty(blockchain.chain@),
{
    let latest_index = blockchain.get_latest_block().index;
    if latest_index % (DIFFICULTY_ADJUSTMENT_INTERVAL as u32) == 0 && latest_index != 0 {
        get_adjusted_difficulty(blockchain)
    } else {
        blockchain.get_latest_block().difficulty
    }
}

} // verus!
