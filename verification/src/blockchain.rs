//! The chain store: an ordered sequence of blocks, never empty once built.
//! Appends do not validate; validation is the caller's responsibility.
use crate::block::Block;
use vstd::prelude::*;

verus! {

/// The local chain. Its first element is the genesis block; it is never
/// empty after construction.
pub struct Blockchain {
    pub chain: Vec<Block>,
}

impl Blockchain {
    /// Well-formedness: the chain holds at least its genesis block.
    pub open spec fn wf(&self) -> bool {
        self.chain@.len() > 0
    }

    /// Starts a chain from its genesis block. The chain is not empty
    /// afterwards, and stays so under every operation of the store.
    pub fn new(genesis_block: Block) -> (r: Blockchain)
        ensures
            r.chain@ == seq![genesis_block],
            r.wf(),
    {
        let r = Blockchain { chain: vec![genesis_block] };
        proof {
            assert(r.chain@ =~= seq![genesis_block]);
        }
        r
    }

    /// The head of the chain.
    pub fn get_latest_block(&self) -> (r: &Block)
        requires
            self.wf(),
        ensures
            *r == self.chain@.last(),
    {
        &self.chain[self.chain.len() - 1]
    }

    /// Appends a block without validating it.
    pub fn add_block(&mut self, block: Block)
        ensures
            final(self).chain@ == old(self).chain@.push(block),
            final(self).wf(),
    {
        self.chain.push(block);
    }

    /// Swaps the whole chain for `new_blocks` without validating it.
    pub fn replace_chain(&mut self, new_blocks: Vec<Block>)
        requires
            new_blocks@.len() > 0,
        ensures
            final(self).chain@ == new_blocks@,
            final(self).wf(),
    {
        self.chain = new_blocks;
    }
}

} // verus!
