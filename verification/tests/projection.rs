use farm_seed::{FarmSeed, FarmSeedMetadata, SeedInfo, TokenMap};
use near_sdk::json_types::U128;

fn seed_with(metadata: Option<FarmSeedMetadata>) -> FarmSeed {
    FarmSeed::new(&"usdc.near".to_string(), 100, None, metadata)
}

#[test]
fn projection_copies_identity_and_counters() {
    let mut seed = seed_with(None);
    seed.next_index = 4;
    let info = SeedInfo::from(&seed);
    assert_eq!(info.seed_id, "usdc.near");
    assert_eq!(info.seed_type, "FT");
    assert_eq!(info.next_index, 4);
    assert!(info.nft_balance.is_none());
}

#[test]
fn projection_names_each_seed_type() {
    let ft = FarmSeed::new(&"token.near".to_string(), 1, None, None);
    assert_eq!(SeedInfo::from(&ft).seed_type, "FT");
    let mft = FarmSeed::new(&"token.near#3".to_string(), 1, None, None);
    assert_eq!(SeedInfo::from(&mft).seed_type, "MFT");
    let nft = FarmSeed::new(&"token.near".to_string(), 1, Some(TokenMap::new()), None);
    assert_eq!(SeedInfo::from(&nft).seed_type, "NFT");
}

#[test]
fn projection_carries_the_amounts() {
    let mut seed = seed_with(None);
    seed.add_amount(500);
    seed.sub_amount(200);
    let info = SeedInfo::from(&seed);
    assert_eq!(info.amount, U128(300));
    assert_eq!(info.min_deposit, U128(100));
    assert_eq!(u128::from(info.amount), 300);
}

#[test]
fn projected_amounts_are_written_as_decimal_strings() {
    let mut seed = FarmSeed::new(&"usdc.near".to_string(), 18_446_744_073_709_551_616, None, None);
    seed.add_amount(u128::MAX);
    let info = SeedInfo::from(&seed);
    assert_eq!(
        near_sdk::serde_json::to_string(&info.amount).unwrap(),
        "\"340282366920938463463374607431768211455\""
    );
    assert_eq!(
        near_sdk::serde_json::to_string(&info.min_deposit).unwrap(),
        "\"18446744073709551616\""
    );
}

#[test]
fn title_and_media_are_copied_verbatim() {
    let metadata = FarmSeedMetadata {
        title: Some("USD Coin – staking".to_string()),
        media: Some("https://example.org/usdc.png".to_string()),
    };
    let info = SeedInfo::from(&seed_with(Some(metadata)));
    assert_eq!(info.title, Some("USD Coin – staking".to_string()));
    assert_eq!(info.media, Some("https://example.org/usdc.png".to_string()));
}

#[test]
fn absent_metadata_shows_empty_strings() {
    let info = SeedInfo::from(&seed_with(None));
    assert_eq!(info.title, Some(String::new()));
    assert_eq!(info.media, Some(String::new()));
}

#[test]
fn absent_field_shows_an_empty_string() {
    let only_title = FarmSeedMetadata { title: Some("t".to_string()), media: None };
    let info = SeedInfo::from(&seed_with(Some(only_title)));
    assert_eq!(info.title, Some("t".to_string()));
    assert_eq!(info.media, Some(String::new()));

    let only_media = FarmSeedMetadata { title: None, media: Some("m".to_string()) };
    let info = SeedInfo::from(&seed_with(Some(only_media)));
    assert_eq!(info.title, Some(String::new()));
    assert_eq!(info.media, Some("m".to_string()));

    let neither = FarmSeedMetadata { title: None, media: None };
    let info = SeedInfo::from(&seed_with(Some(neither)));
    assert_eq!(info.title, Some(String::new()));
    assert_eq!(info.media, Some(String::new()));
}

#[test]
fn farms_are_listed_once_each() {
    let mut seed = seed_with(None);
    assert!(seed.farms.insert("usdc.near#0".to_string()));
    assert!(seed.farms.insert("usdc.near#1".to_string()));
    assert!(!seed.farms.insert("usdc.near#0".to_string()));
    assert!(seed.farms.insert("usdc.near#2".to_string()));
    assert!(seed.farms.remove(&"usdc.near#1".to_string()));
    let info = SeedInfo::from(&seed);
    assert_eq!(info.farms.len(), seed.farms.len());
    assert_eq!(info.farms, vec!["usdc.near#0".to_string(), "usdc.near#2".to_string()]);
    for (i, farm) in info.farms.iter().enumerate() {
        assert!(seed.farms.contains(farm));
        assert!(!info.farms[i + 1..].contains(farm));
    }
}

#[test]
fn projection_of_an_entry_without_farms_lists_none() {
    let info = SeedInfo::from(&seed_with(None));
    assert!(info.farms.is_empty());
}

#[test]
fn projection_shows_each_token_quantity() {
    let mut balance: TokenMap<u128> = TokenMap::new();
    balance.insert("paras.near@6".to_string(), 40);
    balance.insert("paras.near@9".to_string(), 1_000_000_000_000_000_000_000);
    let seed = FarmSeed::new(&"paras.near".to_string(), 1, Some(balance), None);
    let info = SeedInfo::from(&seed);
    assert_eq!(info.seed_type, "NFT");
    let shown = info.nft_balance.unwrap();
    assert_eq!(shown.len(), 2);
    assert_eq!(shown.keys(), vec!["paras.near@6".to_string(), "paras.near@9".to_string()]);
    assert_eq!(shown.get(&"paras.near@6".to_string()), Some(&U128(40)));
    assert_eq!(shown.get(&"paras.near@9".to_string()), Some(&U128(1_000_000_000_000_000_000_000)));
    assert_eq!(shown.get(&"paras.near@7".to_string()), None);
    assert_eq!(
        near_sdk::serde_json::to_string(shown.get(&"paras.near@9".to_string()).unwrap()).unwrap(),
        "\"1000000000000000000000\""
    );
}

#[test]
fn projection_through_into() {
    let mut seed = seed_with(None);
    seed.add_amount(5);
    let info: SeedInfo = (&seed).into();
    assert_eq!(info.amount, U128(5));
    assert_eq!(seed.amount, 5);
}
