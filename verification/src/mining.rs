//! The proof-of-work search: iterate the nonce from zero until the block's
//! fingerprint meets the difficulty.
use crate::block::Block;
use crate::block::spec_block_hash_ok;
use crate::blockchain::Blockchain;
use crate::hashing::generate_hash;
use crate::hashing::hash_matches_difficulty;
use crate::hashing::spec_block_hash;
use crate::hashing::spec_matches_difficulty;
use crate::time::now_seconds;
use crate::validation::get_difficulty;
use crate::validation::spec_adjusted_difficulty;
use crate::validation::spec_difficulty;
use crate::validation::spec_retarget_due;
use crate::validation::spec_valid_block;
use crate::work::lemma_work_push;
use crate::work::spec_cumulative_work;
use crate::DIFFICULTY_ADJUSTMENT_INTERVAL;
use vstd::prelude::*;

verus! {

/// Mines a block over the given fields: tries nonces from zero upward and
/// returns the block built from the first nonce whose fingerprint meets the
/// difficulty; `None` when no 32-bit nonce does. The timestamp is the
/// caller's, captured once; it is not refreshed per attempt.
pub fn find_block(
    index: u32,
    prev_hash: &str,
    timestamp: i64,
    data: &str,
    difficulty: usize,
) -> (r: Option<Block>)
    ensures
        match r {
            Some(b) => {
                &&& b.index == index
                &&& b.timestamp == timestamp
                &&& b.data@ == data@
                &&& b.prev_hash@ == prev_hash@
                &&& b.difficulty == difficulty
                &&& spec_block_hash_ok(b)
                &&& spec_matches_difficulty(b.hash@, difficulty)
                &&& forall|n: u32|
                    n < b.nonce ==> !spec_matches_difficulty(
                        #[trigger] spec_block_hash(index, prev_hash@, timestamp, data@, n),
                        difficulty,
                    )
            },
            None => forall|n: u32|
                !spec_matches_difficulty(
                    #[trigger] spec_block_hash(index, prev_hash@, timestamp, data@, n),
                    difficulty,
                ),
        },
        difficulty == 0 ==> r is Some,
        difficulty == 0 ==> (match r {
            Some(b) => b.nonce == 0,
            None => false,
        }),
{
    let mut nonce: u32 = 0;
    loop
        invariant
            forall|n: u32|
                n < nonce ==> !spec_matches_difficulty(
                    #[trigger] spec_block_hash(index, prev_hash@, timestamp, data@, n),
                    difficulty,
                ),
            difficulty == 0 ==> nonce == 0,
        decreases u32::MAX - nonce,
    {
        let hash = generate_hash(index, prev_hash, timestamp, data, nonce);
        if hash_matches_difficulty(hash.as_str(), difficulty) {
            return Some(
                Block {
                    index,
                    timestamp,
                    data: data.to_owned(),
                    hash,
                    prev_hash: prev_hash.to_owned(),
                    nonce,
                    difficulty,
                },
            );
        }
        if nonce == u32::MAX {
            return None;
        }
        nonce = nonce + 1;
    }
}

impl Blockchain {
    /// Mines the next block carrying `data` on the current head, at the
    /// rolling difficulty, with the timestamp read from the node clock, and
    /// appends it. Reports whether a block was produced: the search can
    /// exhaust the nonce space for the drawn timestamp, and then leaves the
    /// chain untouched — except at difficulty zero, where the first nonce
    /// always fits and mining is owed to succeed. The appended block always
    /// carries the least nonce that works for its timestamp.
    pub fn generate_next_block(&mut self, data: &str) -> (mined: bool)
        requires
            old(self).wf(),
            old(self).chain@.last().index < u32::MAX,
            spec_retarget_due(old(self).chain@) ==> old(self).chain@.len()
                >= DIFFICULTY_ADJUSTMENT_INTERVAL && spec_adjusted_difficulty(old(self).chain@)
                <= usize::MAX,
        ensures
            final(self).wf(),
            mined ==> {
                &&& final(self).chain@.len() == old(self).chain@.len() + 1
                &&& final(self).chain@ == old(self).chain@.push(final(self).chain@.last())
                &&& spec_valid_block(final(self).chain@.last(), old(self).chain@.last())
                &&& final(self).chain@.last().data@ == data@
                &&& final(self).chain@.last().difficulty == spec_difficulty(old(self).chain@)
                &&& forall|n: u32|
                    n < final(self).chain@.last().nonce ==> !spec_matches_difficulty(
                        #[trigger] spec_block_hash(
                            final(self).chain@.last().index,
                            final(self).chain@.last().prev_hash@,
                            final(self).chain@.last().timestamp,
                            final(self).chain@.last().data@,
                            n,
                        ),
                        final(self).chain@.last().difficulty,
                    )
            },
            !mined ==> *final(self) == *old(self),
            spec_difficulty(old(self).chain@) == 0 ==> mined,
            spec_cumulative_work(final(self).chain@) >= spec_cumulative_work(old(self).chain@),
    {
        let prev_index = self.get_latest_block().index;
        let prev_hash = self.get_latest_block().hash.clone();
        let difficulty = get_difficulty(self);
        let timestamp = now_seconds();
        match find_block(prev_index + 1, prev_hash.as_str(), timestamp, data, difficulty) {
            Some(block) => {
                proof {
                    lemma_work_push(self.chain@, block);
                }
                self.add_block(block);
                true
            },
            None => false,
        }
    }
}

} // verus!
