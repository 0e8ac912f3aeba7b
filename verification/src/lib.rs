//! Ledger record of a seed: the stakeable token identity of a farming
//! contract, its staked balance, the farms that accept it, and the
//! read-only projection handed to queries.

pub mod farm_set;
pub mod json_amount;
pub mod seed;
pub mod seed_id;
pub mod seed_info;
pub mod token_map;
pub mod versioned;

pub use farm_set::{FarmId, FarmSet};
pub use seed::{AmountOp, Balance, FarmSeed, FarmSeedMetadata, SeedId};
pub use seed_id::{classify, is_valid_seed_id, parse_seed_id, SeedType, SEED_SEPARATOR};
pub use seed_info::SeedInfo;
pub use token_map::{NFTTokenId, TokenMap};
pub use versioned::VersionedFarmSeed;
