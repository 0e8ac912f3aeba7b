//! The versioned envelope in which a seed's ledger entry is stored.
//!
//! Stored entries are upgraded lazily: an envelope read from storage is
//! brought to the current layout when it is next used, one entry at a time.
//! A new layout adds a variant, and `upgraded` then says how each older
//! variant becomes the current one.

use crate::seed::{Balance, FarmSeed, FarmSeedMetadata, SeedId};
use crate::token_map::TokenMap;
use vstd::prelude::*;

verus! {

/// A ledger entry together with the version of its layout.
#[derive(Debug)]
pub enum VersionedFarmSeed {
    V101(FarmSeed),
}

impl VersionedFarmSeed {
    /// The envelope holds the layout that this code works on.
    pub open spec fn is_current(self) -> bool {
        self is V101
    }

    /// The envelope brought to the current layout.
    pub open spec fn upgraded(self) -> VersionedFarmSeed {
        match self {
            VersionedFarmSeed::V101(farm_seed) => VersionedFarmSeed::V101(farm_seed),
        }
    }

    /// The entry inside an envelope of the current layout.
    pub open spec fn current(self) -> FarmSeed
        recommends
            self.is_current(),
    {
        self->V101_0
    }

    /// A new entry, as `FarmSeed::new` makes it, in an envelope of the
    /// current layout.
    pub fn new(
        seed_id: &SeedId,
        min_deposit: Balance,
        nft_balance: Option<TokenMap<Balance>>,
        metadata: Option<FarmSeedMetadata>,
    ) -> (envelope: Self)
        ensures
            envelope.is_current(),
            envelope.current().is_new(seed_id@, min_deposit, nft_balance, metadata),
            envelope.current().well_formed(),
    {
        VersionedFarmSeed::V101(FarmSeed::new(seed_id, min_deposit, nft_balance, metadata))
    }

    /// Upgrades from other versions to the currently used version.
    pub fn upgrade(self) -> (envelope: Self)
        ensures
            envelope == self.upgraded(),
            envelope.is_current(),
    {
        match self {
            VersionedFarmSeed::V101(farm_seed) => VersionedFarmSeed::V101(farm_seed),
        }
    }

    /// Whether the envelope holds an older layout.
    pub fn need_upgrade(&self) -> (needed: bool)
        ensures
            needed == !self.is_current(),
    {
        match self {
            VersionedFarmSeed::V101(_) => false,
        }
    }

    /// The entry of an envelope of the current layout.
    pub fn get_ref(&self) -> (farm_seed: &FarmSeed)
        requires
            self.is_current(),
        ensures
            *farm_seed == self.current(),
    {
        match self {
            VersionedFarmSeed::V101(farm_seed) => farm_seed,
        }
    }

    /// The entry of an envelope of the current layout, to be changed in
    /// place: the envelope then holds what the caller leaves in it.
    pub fn get_ref_mut(&mut self) -> (farm_seed: &mut FarmSeed)
        requires
            old(self).is_current(),
        ensures
            *farm_seed == old(self).current(),
            *final(self) == VersionedFarmSeed::V101(*final(farm_seed)),
    {
        match self {
            VersionedFarmSeed::V101(farm_seed) => farm_seed,
        }
    }
}

/// Upgrading is idempotent, and an upgraded envelope needs no upgrade.
pub proof fn lemma_upgrade_idempotent(envelope: VersionedFarmSeed)
    ensures
        envelope.upgraded().upgraded() == envelope.upgraded(),
        envelope.upgraded().is_current(),
{
}

} // verus!
