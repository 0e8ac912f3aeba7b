use farm_seed::{FarmSeed, FarmSeedMetadata, SeedType};

fn usdc(min_deposit: u128) -> FarmSeed {
    FarmSeed::new(&"usdc.near".to_string(), min_deposit, None, None)
}

#[test]
fn new_entry_starts_empty() {
    let seed = usdc(100);
    assert_eq!(seed.seed_id, "usdc.near");
    assert_eq!(seed.seed_type, SeedType::FT);
    assert_eq!(seed.amount, 0);
    assert_eq!(seed.next_index, 0);
    assert_eq!(seed.min_deposit, 100);
    assert_eq!(seed.farms.len(), 0);
    assert!(seed.farms.is_empty());
    assert!(seed.nft_balance.is_none());
    assert!(seed.metadata.is_none());
}

#[test]
fn new_entry_keeps_its_metadata() {
    let metadata = FarmSeedMetadata { title: Some("USDC".to_string()), media: None };
    let seed = FarmSeed::new(&"usdc.near".to_string(), 7, None, Some(metadata));
    let kept = seed.metadata.unwrap();
    assert_eq!(kept.title, Some("USDC".to_string()));
    assert_eq!(kept.media, None);
}

#[test]
fn deposit_then_withdraw() {
    let mut seed = usdc(100);
    seed.add_amount(500);
    assert_eq!(seed.amount, 500);
    assert_eq!(seed.sub_amount(200), 300);
    assert_eq!(seed.amount, 300);
    assert_eq!(seed.try_sub_amount(400), None);
    assert_eq!(seed.amount, 300);
}

#[test]
fn amount_is_all_added_less_all_subtracted() {
    let mut seed = usdc(1);
    let added: [u128; 4] = [10, 1_000_000_000_000_000_000_000_000, 0, 37];
    let subtracted: [u128; 3] = [4, 999_999_999_999_999_999_999_999, 43];
    seed.add_amount(added[0]);
    assert_eq!(seed.sub_amount(subtracted[0]), 6);
    seed.add_amount(added[1]);
    seed.add_amount(added[2]);
    assert_eq!(seed.sub_amount(subtracted[1]), 7);
    seed.add_amount(added[3]);
    assert_eq!(seed.sub_amount(subtracted[2]), 1);
    let sum_added: u128 = added.iter().sum();
    let sum_subtracted: u128 = subtracted.iter().sum();
    assert_eq!(seed.amount, sum_added - sum_subtracted);
    assert_eq!(seed.amount, 1);
}

#[test]
fn withdrawing_all_leaves_zero() {
    let mut seed = usdc(1);
    seed.add_amount(u128::MAX);
    assert_eq!(seed.amount, u128::MAX);
    assert_eq!(seed.sub_amount(u128::MAX), 0);
    assert_eq!(seed.sub_amount(0), 0);
    assert_eq!(seed.amount, 0);
}

#[test]
fn withdrawal_over_the_balance_changes_nothing() {
    let mut seed = usdc(100);
    assert_eq!(seed.try_sub_amount(1), None);
    assert_eq!(seed.amount, 0);
    seed.add_amount(300);
    assert_eq!(seed.try_sub_amount(301), None);
    assert_eq!(seed.amount, 300);
    assert_eq!(seed.seed_id, "usdc.near");
    assert_eq!(seed.seed_type, SeedType::FT);
    assert_eq!(seed.min_deposit, 100);
    assert_eq!(seed.next_index, 0);
}

#[test]
fn covered_withdrawal_returns_what_remains() {
    let mut seed = usdc(100);
    seed.add_amount(300);
    assert_eq!(seed.try_sub_amount(300), Some(0));
    assert_eq!(seed.amount, 0);
    seed.add_amount(9);
    assert_eq!(seed.try_sub_amount(4), Some(5));
    assert_eq!(seed.amount, 5);
}

#[test]
fn deposit_past_the_range_changes_nothing() {
    let mut seed = usdc(100);
    assert!(seed.try_add_amount(u128::MAX - 1));
    assert_eq!(seed.amount, u128::MAX - 1);
    assert!(!seed.try_add_amount(2));
    assert_eq!(seed.amount, u128::MAX - 1);
    assert!(seed.try_add_amount(1));
    assert_eq!(seed.amount, u128::MAX);
    assert!(!seed.try_add_amount(1));
    assert!(seed.try_add_amount(0));
    assert_eq!(seed.amount, u128::MAX);
}

#[test]
fn accounting_touches_the_amount_alone() {
    let mut seed = FarmSeed::new(&"token.near#3".to_string(), 55, None, None);
    seed.next_index = 2;
    seed.farms.insert("token.near#3#0".to_string());
    seed.farms.insert("token.near#3#1".to_string());
    seed.add_amount(12);
    seed.sub_amount(5);
    assert_eq!(seed.amount, 7);
    assert_eq!(seed.seed_id, "token.near#3");
    assert_eq!(seed.seed_type, SeedType::MFT);
    assert_eq!(seed.min_deposit, 55);
    assert_eq!(seed.next_index, 2);
    assert_eq!(seed.farms.to_vec(), vec!["token.near#3#0".to_string(), "token.near#3#1".to_string()]);
}
