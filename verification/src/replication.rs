//! Peer replication: the heaviest-chain replacement rule and the broadcast
//! decisions of a node. The transport that carries chains between peers is
//! outside this library; every decision it acts on is made here.
use crate::block::Block;
use crate::blockchain::Blockchain;
use crate::time::now_seconds;
use crate::hashing::spec_block_hash;
use crate::hashing::spec_matches_difficulty;
use crate::validation::is_valid_blocks_at;
use crate::validation::lemma_difficulty_preconditions;
use crate::validation::lemma_valid_chain_at_implies_structural;
use crate::validation::lemma_valid_chain_extend;
use crate::validation::spec_difficulty;
use crate::validation::spec_valid_block;
use crate::validation::spec_valid_chain;
use crate::validation::spec_valid_chain_at;
use crate::work::cumulative_difficulty;
use crate::work::lemma_valid_chain_work_fits;
use crate::work::lemma_work_push;
use crate::work::spec_cumulative_work;
use vstd::prelude::*;

verus! {

/// The body of an `update-chain` message: the sender's chain and the
/// sender's own address, so that recipients can avoid reflecting the chain
/// straight back.
pub struct UpdateChainPayload {
    pub blocks: Vec<Block>,
    pub addr: String,
}

/// The Nakamoto rule against the clock reading `now`: a candidate chain
/// replaces the local one exactly when it is valid — temporal rule included
/// — and carries strictly more cumulative work. Equality does not replace.
pub open spec fn spec_should_replace_at(
    current: Seq<Block>,
    candidate: Seq<Block>,
    now: i64,
) -> bool {
    spec_valid_chain_at(candidate, now) && spec_cumulative_work(candidate) > spec_cumulative_work(
        current,
    )
}

/// A replacement is only ever strictly heavier than what it replaces,
/// whatever the clock said.
pub proof fn lemma_replacement_strictly_heavier(
    current: Seq<Block>,
    candidate: Seq<Block>,
    now: i64,
)
    requires
        spec_should_replace_at(current, candidate, now),
    ensures
        spec_cumulative_work(candidate) > spec_cumulative_work(current),
{
}

/// Offering a node a chain equal in work to its own never replaces, at no
/// clock reading, so no re-broadcast follows and gossip of an unchanged
/// chain dies out.
pub proof fn lemma_equal_chain_not_replaced(chain: Seq<Block>, now: i64)
    ensures
        !spec_should_replace_at(chain, chain, now),
{
}

/// Applies the replacement rule against the clock reading `now`: replaces
/// the local chain exactly when the candidate is valid and strictly
/// heavier, and reports whether it did — on replacement the caller
/// broadcasts the adopted chain. The local work metric never decreases.
pub fn replace_and_broadcast_chain_at(
    new_blocks: Vec<Block>,
    blockchain: &mut Blockchain,
    now: i64,
) -> (replaced: bool)
    requires
        old(blockchain).wf(),
    ensures
        replaced == spec_should_replace_at(old(blockchain).chain@, new_blocks@, now),
        replaced ==> final(blockchain).chain@ == new_blocks@,
        !replaced ==> *final(blockchain) == *old(blockchain),
        final(blockchain).wf(),
        spec_cumulative_work(final(blockchain).chain@) >= spec_cumulative_work(
            old(blockchain).chain@,
        ),
{
    if !is_valid_blocks_at(&new_blocks, now) {
        return false;
    }
    let candidate_len = new_blocks.len();
    proof {
        assert(new_blocks@.len() == candidate_len);
        lemma_valid_chain_at_implies_structural(new_blocks@, now);
        lemma_valid_chain_work_fits(new_blocks@);
    }
    let candidate_work = cumulative_difficulty(&new_blocks);
    let current_work = cumulative_difficulty(&blockchain.chain);
    if candidate_work > current_work {
        blockchain.replace_chain(new_blocks);
        true
    } else {
        false
    }
}

/// Applies the replacement rule, reading the node's wall clock once for the
/// temporal rule. Whatever the clock said: replacement only installs the
/// offered chain, only a structurally valid and strictly heavier candidate
/// replaces, a rejected offer leaves the chain untouched, and the work
/// metric never decreases.
pub fn replace_and_broadcast_chain(new_blocks: Vec<Block>, blockchain: &mut Blockchain) -> (replaced:
    bool)
    requires
        old(blockchain).wf(),
    ensures
        exists|now: i64| replaced == spec_should_replace_at(old(blockchain).chain@, new_blocks@, now),
        replaced ==> final(blockchain).chain@ == new_blocks@ && spec_valid_chain(new_blocks@)
            && spec_cumulative_work(new_blocks@) > spec_cumulative_work(old(blockchain).chain@),
        !replaced ==> *final(blockchain) == *old(blockchain),
        final(blockchain).wf(),
        spec_cumulative_work(final(blockchain).chain@) >= spec_cumulative_work(
            old(blockchain).chain@,
        ),
{
    let now = now_seconds();
    let replaced = replace_and_broadcast_chain_at(new_blocks, blockchain, now);
    proof {
        assert(replaced == spec_should_replace_at(old(blockchain).chain@, new_blocks@, now));
        if replaced {
            lemma_valid_chain_at_implies_structural(new_blocks@, now);
        }
    }
    replaced
}

/// The known peers with `addr` left out, in order.
pub open spec fn spec_peers_excluding(peers: Seq<String>, addr: Seq<char>) -> Seq<String>
    decreases peers.len(),
{
    if peers.len() == 0 {
        Seq::empty()
    } else {
        let rest = spec_peers_excluding(peers.drop_last(), addr);
        if peers.last()@ == addr {
            rest
        } else {
            rest.push(peers.last())
        }
    }
}

/// Filters one address out of a peer list: the broadcast targets after a
/// chain arrived from that address.
pub fn peers_excluding(peers: &Vec<String>, addr: &str) -> (r: Vec<String>)
    ensures
        r@ == spec_peers_excluding(peers@, addr@),
{
    let addr_owned = addr.to_owned();
    let mut r: Vec<String> = Vec::new();
    let mut i: usize = 0;
    while i < peers.len()
        invariant
            i <= peers@.len(),
            addr_owned@ == addr@,
            r@ == spec_peers_excluding(peers@.take(i as int), addr@),
        decreases peers@.len() - i,
    {
        proof {
            let t = peers@.take(i + 1);
            assert(t.drop_last() =~= peers@.take(i as int));
            assert(t.last() == peers@[i as int]);
        }
        if !(peers[i] == addr_owned) {
            let p = peers[i].clone();
            r.push(p);
        }
        i += 1;
    }
    proof {
        assert(peers@.take(peers@.len() as int) =~= peers@);
    }
    r
}

/// One node's replicated state: its chain, the peers it knows, and its own
/// address. Every operation keeps the chain valid and its cumulative work
/// non-decreasing over the node's life.
pub struct Node {
    pub blockchain: Blockchain,
    pub peers: Vec<String>,
    pub node_addr: String,
}

impl Node {
    /// Well-formedness: the node's chain is structurally valid, so in
    /// particular never empty.
    pub open spec fn wf(&self) -> bool {
        spec_valid_chain(self.blockchain.chain@)
    }

    /// Starts a node from a well-formed genesis block.
    pub fn new(genesis_block: Block, node_addr: String) -> (r: Node)
        requires
            crate::validation::spec_genesis_ok(genesis_block),
        ensures
            r.wf(),
            r.blockchain.chain@ == seq![genesis_block],
            r.peers@ == Seq::<String>::empty(),
            r.node_addr == node_addr,
    {
        let blockchain = Blockchain::new(genesis_block);
        Node { blockchain, peers: Vec::new(), node_addr }
    }

    /// Registers a peer address.
    pub fn register_peer(&mut self, addr: String)
        ensures
            final(self).peers@ == old(self).peers@.push(addr),
            final(self).blockchain == old(self).blockchain,
            final(self).node_addr == old(self).node_addr,
    {
        self.peers.push(addr);
    }

    /// Whether a peer whose head carries `peer_head_index` is ahead of this
    /// node: only then is its chain worth fetching for a replacement
    /// attempt.
    pub fn wants_peer_chain(&self, peer_head_index: u32) -> (r: bool)
        requires
            self.wf(),
        ensures
            r == (peer_head_index > self.blockchain.chain@.last().index),
    {
        peer_head_index > self.blockchain.get_latest_block().index
    }

    /// Mines a block carrying `data` on the current head and appends it;
    /// reports whether one was produced, and is owed success at difficulty
    /// zero. The appended block carries the least nonce that works for its
    /// drawn timestamp. On success the caller broadcasts the grown chain to
    /// the full peer set: there is no originator to exclude.
    pub fn handle_mine(&mut self, data: &str) -> (mined: bool)
        requires
            old(self).wf(),
            old(self).blockchain.chain@.len() <= u32::MAX,
        ensures
            final(self).wf(),
            final(self).peers == old(self).peers,
            final(self).node_addr == old(self).node_addr,
            mined ==> final(self).blockchain.chain@ == old(self).blockchain.chain@.push(
                final(self).blockchain.chain@.last(),
            ) && final(self).blockchain.chain@.last().data@ == data@,
            mined ==> spec_valid_block(
                final(self).blockchain.chain@.last(),
                old(self).blockchain.chain@.last(),
            ) && final(self).blockchain.chain@.last().difficulty == spec_difficulty(
                old(self).blockchain.chain@,
            ),
            mined ==> forall|n: u32|
                n < final(self).blockchain.chain@.last().nonce ==> !spec_matches_difficulty(
                    #[trigger] spec_block_hash(
                        final(self).blockchain.chain@.last().index,
                        final(self).blockchain.chain@.last().prev_hash@,
                        final(self).blockchain.chain@.last().timestamp,
                        final(self).blockchain.chain@.last().data@,
                        n,
                    ),
                    final(self).blockchain.chain@.last().difficulty,
                ),
            spec_difficulty(old(self).blockchain.chain@) == 0 ==> mined,
            !mined ==> final(self).blockchain == old(self).blockchain,
            spec_cumulative_work(final(self).blockchain.chain@) >= spec_cumulative_work(
                old(self).blockchain.chain@,
            ),
    {
        proof {
            lemma_difficulty_preconditions(old(self).blockchain.chain@);
        }
        let mined = self.blockchain.generate_next_block(data);
        proof {
            let s = old(self).blockchain.chain@;
            let t = self.blockchain.chain@;
            if mined {
                lemma_valid_chain_extend(s, t.last());
                assert(t == s.push(t.last()));
                lemma_work_push(s, t.last());
            }
        }
        mined
    }

    /// A peer at `sender_addr` offered its chain: adopt it exactly when the
    /// replacement rule, judged against the clock reading `now`, says so,
    /// and hand back the peers the adopted chain is to be re-broadcast to —
    /// every known peer except the sender. `None` means the offer was not
    /// adopted and nothing is broadcast.
    pub fn handle_update_chain_at(
        &mut self,
        new_blocks: Vec<Block>,
        sender_addr: &str,
        now: i64,
    ) -> (broadcast_to: Option<Vec<String>>)
        requires
            old(self).wf(),
        ensures
            final(self).wf(),
            final(self).peers == old(self).peers,
            final(self).node_addr == old(self).node_addr,
            broadcast_to is Some <==> spec_should_replace_at(
                old(self).blockchain.chain@,
                new_blocks@,
                now,
            ),
            broadcast_to is Some ==> final(self).blockchain.chain@ == new_blocks@,
            broadcast_to is None ==> final(self).blockchain == old(self).blockchain,
            match broadcast_to {
                Some(targets) => targets@ == spec_peers_excluding(old(self).peers@, sender_addr@),
                None => true,
            },
            spec_cumulative_work(final(self).blockchain.chain@) >= spec_cumulative_work(
                old(self).blockchain.chain@,
            ),
    {
        let replaced = replace_and_broadcast_chain_at(new_blocks, &mut self.blockchain, now);
        proof {
            if replaced {
                lemma_valid_chain_at_implies_structural(self.blockchain.chain@, now);
            }
        }
        if replaced {
            Some(peers_excluding(&self.peers, sender_addr))
        } else {
            None
        }
    }

    /// A peer at `sender_addr` offered its chain: judge it against one
    /// reading of the node's wall clock. Whatever the clock said: adoption
    /// installs exactly the offered chain, only a structurally valid and
    /// strictly heavier chain is adopted, the broadcast targets are the
    /// known peers minus the sender, a rejected offer changes nothing, and
    /// the work metric never decreases.
    pub fn handle_update_chain(&mut self, new_blocks: Vec<Block>, sender_addr: &str) -> (broadcast_to:
        Option<Vec<String>>)
        requires
            old(self).wf(),
        ensures
            final(self).wf(),
            final(self).peers == old(self).peers,
            final(self).node_addr == old(self).node_addr,
            exists|now: i64|
                (broadcast_to is Some <==> spec_should_replace_at(
                    old(self).blockchain.chain@,
                    new_blocks@,
                    now,
                )),
            broadcast_to is Some ==> final(self).blockchain.chain@ == new_blocks@
                && spec_valid_chain(new_blocks@) && spec_cumulative_work(new_blocks@)
                > spec_cumulative_work(old(self).blockchain.chain@),
            broadcast_to is None ==> final(self).blockchain == old(self).blockchain,
            match broadcast_to {
                Some(targets) => targets@ == spec_peers_excluding(old(self).peers@, sender_addr@),
                None => true,
            },
            spec_cumulative_work(final(self).blockchain.chain@) >= spec_cumulative_work(
                old(self).blockchain.chain@,
            ),
    {
        let now = now_seconds();
        let broadcast_to = self.handle_update_chain_at(new_blocks, sender_addr, now);
        proof {
            assert(broadcast_to is Some <==> spec_should_replace_at(
                old(self).blockchain.chain@,
                new_blocks@,
                now,
            ));
            if broadcast_to is Some {
                lemma_valid_chain_at_implies_structural(self.blockchain.chain@, now);
            }
        }
        broadcast_to
    }
}

} // verus!
