//! A minimal proof-of-work blockchain node core: hash-linked blocks, a
//! proof-of-work miner with rolling difficulty retargeting, and the
//! heaviest-chain replication rule used to converge with peers.
use vstd::prelude::*;

pub mod block;
pub mod blockchain;
pub mod encoding;
pub mod hashing;
pub mod mining;
pub mod replication;
mod time;
pub mod validation;
pub mod work;

pub use block::Block;
pub use blockchain::Blockchain;
pub use hashing::generate_hash;
pub use hashing::hash_matches_difficulty;
pub use validation::get_adjusted_difficulty;
pub use validation::get_difficulty;
pub use validation::is_valid_block;
pub use validation::is_valid_block_at;
pub use validation::is_valid_blocks;
pub use validation::is_valid_blocks_at;
pub use validation::is_valid_chain;
pub use validation::is_valid_timestamp;
pub use validation::is_valid_timestamp_at;
pub use mining::find_block;
pub use replication::Node;
pub use replication::UpdateChainPayload;
pub use replication::peers_excluding;
pub use replication::replace_and_broadcast_chain;
pub use replication::replace_and_broadcast_chain_at;
pub use work::cumulative_difficulty;

verus! {

/// Target seconds per mined block, used by difficulty retargeting.
pub const BLOCK_GENERATION_INTERVAL: usize = 10;

/// Number of blocks between difficulty retargets.
pub const DIFFICULTY_ADJUSTMENT_INTERVAL: usize = 10;

} // verus!
