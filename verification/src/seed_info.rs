//! The read-only projection of a ledger entry that answers queries.

use crate::farm_set::{views, FarmId};
use crate::json_amount::carried;
use crate::seed::{FarmSeed, FarmSeedMetadata, SeedId};
use crate::seed_id::SeedType;
use crate::token_map::TokenMap;
use near_sdk::json_types::U128;
use vstd::prelude::*;
use vstd::std_specs::convert::FromSpecImpl;
use vstd::string::*;

verus! {

/// A snapshot of a ledger entry for consumers outside the contract.
/// Amounts are `U128`, and title and media are always there.
#[derive(Debug)]
pub struct SeedInfo {
    pub seed_id: SeedId,
    pub seed_type: String,
    pub farms: Vec<FarmId>,
    pub next_index: u32,
    pub amount: U128,
    pub min_deposit: U128,
    pub nft_balance: Option<TokenMap<U128>>,
    pub title: Option<String>,
    pub media: Option<String>,
}

/// The name under which a seed type is shown.
pub open spec fn seed_type_name(seed_type: SeedType) -> Seq<char> {
    match seed_type {
        SeedType::FT => seq!['F', 'T'],
        SeedType::NFT => seq!['N', 'F', 'T'],
        SeedType::MFT => seq!['M', 'F', 'T'],
    }
}

/// The title that is shown for an entry: its own, or the empty string
/// where the entry has no metadata or the metadata has no title.
pub open spec fn shown_title(metadata: Option<FarmSeedMetadata>) -> Seq<char> {
    match metadata {
        Some(FarmSeedMetadata { title: Some(title), .. }) => title@,
        _ => Seq::<char>::empty(),
    }
}

/// The media reference that is shown for an entry: its own, or the empty
/// string where the entry has no metadata or the metadata has no media.
pub open spec fn shown_media(metadata: Option<FarmSeedMetadata>) -> Seq<char> {
    match metadata {
        Some(FarmSeedMetadata { media: Some(media), .. }) => media@,
        _ => Seq::<char>::empty(),
    }
}

/// `json` holds the entries of `balance`, in the same order, each quantity
/// carried by a `U128`; or both are absent.
pub open spec fn shows_balance(
    json: Option<TokenMap<U128>>,
    balance: Option<TokenMap<u128>>,
) -> bool {
    match (json, balance) {
        (Some(json), Some(balance)) => {
            &&& json.ids() == balance.ids()
            &&& json@.dom() == balance@.dom()
            &&& forall|id: Seq<char>| #[trigger]
                balance@.contains_key(id) ==> carried(json@[id]) == balance@[id]
        },
        (None, None) => true,
        _ => false,
    }
}

impl SeedInfo {
    /// `self` is the projection of `farm_seed`.
    pub open spec fn shows(self, farm_seed: FarmSeed) -> bool {
        &&& self.seed_id@ == farm_seed.seed_id@
        &&& self.seed_type@ == seed_type_name(farm_seed.seed_type)
        &&& views(self.farms@) == farm_seed.farms.ids()
        &&& self.next_index == farm_seed.next_index
        &&& carried(self.amount) == farm_seed.amount
        &&& carried(self.min_deposit) == farm_seed.min_deposit
        &&& shows_balance(self.nft_balance, farm_seed.nft_balance)
        &&& self.title matches Some(title) && title@ == shown_title(farm_seed.metadata)
        &&& self.media matches Some(media) && media@ == shown_media(farm_seed.metadata)
    }
}

/// The string under which `seed_type` is shown.
fn seed_type_label(seed_type: SeedType) -> (label: String)
    ensures
        label@ == seed_type_name(seed_type),
{
    proof {
        reveal_strlit("FT");
        reveal_strlit("NFT");
        reveal_strlit("MFT");
    }
    let label = match seed_type {
        SeedType::FT => "FT".to_owned(),
        SeedType::NFT => "NFT".to_owned(),
        SeedType::MFT => "MFT".to_owned(),
    };
    assert(label@ =~= seed_type_name(seed_type));
    label
}

/// A copy of `text`, or the empty string where there is none.
fn text_or_empty(text: &Option<String>) -> (copy: String)
    ensures
        copy@ == match *text {
            Some(t) => t@,
            None => Seq::<char>::empty(),
        },
{
    match text {
        Some(t) => t.clone(),
        None => String::new(),
    }
}

impl From<&FarmSeed> for SeedInfo {
    /// The projection of `fs`. Its farms are those of the entry, each once,
    /// in the order in which the entry's set holds them.
    fn from(fs: &FarmSeed) -> (info: Self)
        ensures
            info.shows(*fs),
            info.farms@.len() == fs.farms@.len(),
            views(info.farms@).no_duplicates(),
            views(info.farms@).to_set() == fs.farms@,
    {
        let (title, media) = match &fs.metadata {
            Some(seed_metadata) => (
                text_or_empty(&seed_metadata.title),
                text_or_empty(&seed_metadata.media),
            ),
            None => (String::new(), String::new()),
        };
        let nft_balance = match &fs.nft_balance {
            Some(balance) => Some(balance.to_json()),
            None => None,
        };
        SeedInfo {
            seed_id: fs.seed_id.clone(),
            seed_type: seed_type_label(fs.seed_type),
            farms: fs.farms.to_vec(),
            next_index: fs.next_index,
            amount: U128::from(fs.amount),
            min_deposit: U128::from(fs.min_deposit),
            nft_balance,
            title: Some(title),
            media: Some(media),
        }
    }
}

/// The contract of `from` compares strings by their contents, which no
/// function to `SeedInfo` can express: it stands in the `ensures` of `from`
/// itself, and `from_spec` is left unused.
impl FromSpecImpl<&FarmSeed> for SeedInfo {
    open spec fn obeys_from_spec() -> bool {
        false
    }

    open spec fn from_spec(fs: &FarmSeed) -> SeedInfo {
        arbitrary()
    }
}

} // verus!
