use pfc_reservation::db::{
    allocate, allocate_with_seed, check_quota, do_reservation, get_and_reserve_available_nft,
    get_nft_stat, get_open_stage, get_open_stages_for_wallet, get_open_wallets_for_stage,
    get_reservation_count, get_reservations_for_wallet, get_stage, get_stages,
    increase_stage_reservation, insert_nft, mint_nft_for_wallet_in_stage, reservations_in_process,
    reserve_with_seed,
};
use pfc_reservation::models::{MintState, NftFull, Stage, StagePredicate, WalletStageAllocation, NFT};
use pfc_reservation::requests::{Metadata, Trait};
use pfc_reservation::NFTDatabase;
use std::hash::{Hash, Hasher};

const WALLET_A: &str = "terra1aaaaaaaaaaaaaaaaaaaaaaaaaaaaaaaaaaaaaa";
const WALLET_B: &str = "terra1bbbbbbbbbbbbbbbbbbbbbbbbbbbbbbbbbbbbbb";
const NOW: i64 = 1_000_000;
const LATER: i64 = 9_000_000;

fn metadata(attributes: Option<Vec<Trait>>) -> Metadata {
    Metadata {
        token_uri: String::from("ipfs://meta"),
        image: None,
        image_data: None,
        external_url: None,
        description: None,
        name: None,
        attributes,
        background_color: None,
        animation_url: None,
        youtube_url: None,
    }
}

fn attribute(trait_type: &str, value: &str) -> Trait {
    Trait { display_type: None, trait_type: String::from(trait_type), value: String::from(value) }
}

fn item(id: u128, name: &str) -> NftFull {
    NftFull {
        nft_lite: NFT {
            id,
            name: String::from(name),
            assigned: false,
            reserved: false,
            has_submit_error: false,
            reserved_until: None,
            in_process: false,
            txhash: None,
        },
        meta_data: metadata(None),
        svg: String::new(),
        ipfs_image: String::new(),
        ipfs_meta: String::new(),
        image_data: None,
        external_url: None,
        description: None,
        background_color: None,
        animation_url: None,
        youtube_url: None,
        assigned_on: None,
        assigned_to_wallet_address: None,
        reserved_to_wallet_address: None,
        signed_packet: None,
        in_mint_run: false,
        tx_error: None,
        tx_retry_count: 0,
        token_id: None,
    }
}

fn item_with(id: u128, name: &str, trait_type: &str, value: &str) -> NftFull {
    let mut n = item(id, name);
    n.meta_data = metadata(Some(vec![attribute("background", "plain"), attribute(trait_type, value)]));
    n
}

fn reserved_item(id: u128, wallet: &str, until: i64) -> NftFull {
    let mut n = item(id, "held");
    n.nft_lite.reserved = true;
    n.nft_lite.reserved_until = Some(until);
    n.reserved_to_wallet_address = Some(String::from(wallet));
    n
}

fn stage(id: u128, code: &str, is_default: bool, open: i64) -> Stage {
    Stage {
        id,
        code: String::from(code),
        name: String::from(code),
        attribute_type: None,
        attribute_value: None,
        is_default,
        stage_free: false,
        stage_open: open,
    }
}

fn filtered_stage(id: u128, code: &str, trait_type: &str, value: &str) -> Stage {
    let mut s = stage(id, code, false, 0);
    s.attribute_type = Some(String::from(trait_type));
    s.attribute_value = Some(String::from(value));
    s
}

fn allowance(wallet: &str, stage: u128, allocation: i32, reserved: i32, assigned: i32) -> WalletStageAllocation {
    WalletStageAllocation {
        wallet_address: String::from(wallet),
        stage,
        allocation_count: allocation,
        reserved_count: reserved,
        assigned_count: assigned,
    }
}

fn pool(n: u128) -> NFTDatabase {
    let mut db = NFTDatabase::new();
    for k in 0..n {
        db.nfts.push(item(k + 1, "n"));
    }
    db.stages.push(stage(10, "open", true, 0));
    db
}

#[test]
fn single_item_goes_to_first_wallet_only() {
    let mut db = pool(1);
    assert_eq!(db.nfts[0].state(NOW), MintState::Available);
    let first = do_reservation(&mut db, WALLET_A, LATER, 3, NOW);
    assert_eq!(first.0, 201);
    let (id, meta) = first.1.unwrap();
    assert_eq!(id, 1);
    assert_eq!(meta, metadata(None));
    assert_eq!(db.nfts[0].state(NOW), MintState::Reserved);
    assert!(db.nfts[0].nft_lite.reserved);
    assert!(!db.nfts[0].in_mint_run);
    assert_eq!(db.nfts[0].reserved_to_wallet_address.as_deref(), Some(WALLET_A));
    assert_eq!(db.nfts[0].nft_lite.reserved_until, Some(LATER));
    let second = do_reservation(&mut db, WALLET_B, LATER, 3, NOW);
    assert_eq!(second.0, 444);
    let e = second.1.unwrap_err();
    assert_eq!(e.code, 444);
    assert_eq!(e.message, "No NFTs available for reservation at this time");
    assert_eq!(db.nfts[0].reserved_to_wallet_address.as_deref(), Some(WALLET_A));
}

#[test]
fn more_callers_than_items() {
    let mut db = pool(2);
    let wallets = ["terra1w1", "terra1w2", "terra1w3", "terra1w4", "terra1w5"];
    let mut won: Vec<u128> = Vec::new();
    let mut lost = 0;
    for w in wallets {
        match get_and_reserve_available_nft(&mut db, w, LATER, NOW) {
            Ok((id, _)) => won.push(id),
            Err(e) => {
                assert_eq!(e.0, 444);
                assert_eq!(e.1.message, "No NFTs available for reservation at this time");
                lost += 1;
            }
        }
    }
    assert_eq!(won.len(), 2);
    assert_eq!(lost, 3);
    assert_ne!(won[0], won[1]);
    assert!(db.is_well_formed());
}

#[test]
fn seeded_allocation_claims_count_items() {
    let mut db = pool(5);
    let stages = vec![stage(10, "open", true, 0)];
    let got = allocate_with_seed(&mut db, 7, WALLET_A, &stages, 3, LATER, true, NOW).unwrap();
    assert_eq!(got.len(), 3);
    let order = pfc_reservation::selection::selection_order(7, 5);
    for k in 0..3 {
        assert_eq!(got[k].nft_id, db.nfts[order[k]].nft_lite.id);
        assert_eq!(got[k].wallet_address, WALLET_A);
        assert!(db.nfts[order[k]].nft_lite.reserved);
        assert!(db.nfts[order[k]].in_mint_run);
    }
    for k in 3..5 {
        assert_eq!(db.nfts[order[k]], item(order[k] as u128 + 1, "n"));
    }
}

#[test]
fn allocation_takes_what_is_left_when_count_is_larger() {
    let mut db = pool(2);
    let stages = vec![stage(10, "open", true, 0)];
    let got = allocate(&mut db, WALLET_A, &stages, 5, LATER, false, NOW).unwrap();
    assert_eq!(got.len(), 2);
    let none = allocate(&mut db, WALLET_A, &stages, 5, LATER, false, NOW).unwrap_err();
    assert_eq!(none.0, 444);
}

#[test]
fn allocation_of_zero_items_finds_nothing() {
    let mut db = pool(2);
    let stages = vec![stage(10, "open", true, 0)];
    let before = format!("{:?}", db);
    let none = allocate_with_seed(&mut db, 1, WALLET_A, &stages, 0, LATER, false, NOW).unwrap_err();
    assert_eq!(none.0, 444);
    assert_eq!(format!("{:?}", db), before);
}

#[test]
fn same_seed_same_order() {
    let a = pfc_reservation::selection::selection_order(12345, 50);
    let b = pfc_reservation::selection::selection_order(12345, 50);
    assert_eq!(a, b);
    let mut sorted = a.clone();
    sorted.sort();
    assert_eq!(sorted, (0..50).collect::<Vec<usize>>());
    let c = pfc_reservation::selection::selection_order(-4, 50);
    assert_ne!(a, c);
}

#[test]
fn selection_order_of_small_pools() {
    assert_eq!(pfc_reservation::selection::selection_order(3, 0), Vec::<usize>::new());
    assert_eq!(pfc_reservation::selection::selection_order(3, 1), vec![0]);
    let state = (0u128 + 0x8000_0000) * 6364136223846793005u128 + 1442695040888963407u128;
    let state = (state % (1u128 << 64)) as u64;
    let j = ((state >> 32) % 2) as usize;
    let expected = if j == 0 { vec![1, 0] } else { vec![0, 1] };
    assert_eq!(pfc_reservation::selection::selection_order(0, 2), expected);
}

#[test]
fn wallet_seed_is_the_normalized_default_hash() {
    let mut hasher = std::collections::hash_map::DefaultHasher::new();
    WALLET_A.hash(&mut hasher);
    let hash = hasher.finish();
    let expected = (hash % 2147483647) as i32 - 1073741823;
    assert_eq!(pfc_reservation::selection::wallet_seed(WALLET_A), expected);
    assert_eq!(pfc_reservation::selection::normalize_hash(0), -1073741823);
    assert_eq!(pfc_reservation::selection::normalize_hash(2147483646), 1073741823);
    assert_eq!(pfc_reservation::selection::normalize_hash(2147483647), -1073741823);
    assert_eq!(pfc_reservation::selection::normalize_hash(u64::MAX), (u64::MAX % 2147483647) as i32 - 1073741823);
}

#[test]
fn quota_counts_running_in_process_and_owned() {
    let mut db = NFTDatabase::new();
    db.nfts.push(reserved_item(1, WALLET_A, LATER));
    db.nfts.push(reserved_item(2, WALLET_A, NOW - 1));
    db.nfts.push(reserved_item(3, WALLET_A, NOW));
    let mut in_process = reserved_item(4, WALLET_A, NOW - 5);
    in_process.nft_lite.in_process = true;
    db.nfts.push(in_process);
    let mut owned = item(5, "owned");
    owned.nft_lite.assigned = true;
    owned.assigned_to_wallet_address = Some(String::from(WALLET_A));
    db.nfts.push(owned);
    db.nfts.push(reserved_item(6, WALLET_B, LATER));
    db.nfts.push(item(7, "free"));
    assert_eq!(get_reservation_count(&db, WALLET_A, NOW), 3);
    assert_eq!(get_reservation_count(&db, WALLET_B, NOW), 1);
    assert_eq!(get_reservation_count(&db, "terra1nobody", NOW), 0);
    assert!(check_quota(&db, WALLET_A, 4, NOW).is_ok());
    let e = check_quota(&db, WALLET_A, 3, NOW).unwrap_err();
    assert_eq!(e.0, 403);
    assert_eq!(e.1.code, 403);
    assert_eq!(e.1.message, "Reservation limit exceeded");
}

#[test]
fn wallet_at_quota_claims_nothing() {
    let mut db = pool(3);
    db.nfts.push(reserved_item(50, WALLET_A, LATER));
    let before = format!("{:?}", db);
    let r = do_reservation(&mut db, WALLET_A, LATER, 1, NOW);
    assert_eq!(r.0, 403);
    assert_eq!(r.1.unwrap_err().message, "Reservation limit exceeded");
    assert_eq!(format!("{:?}", db), before);
}

#[test]
fn quota_holds_over_repeated_reservations() {
    let mut db = pool(10);
    let mut granted = 0;
    for _ in 0..6 {
        let r = do_reservation(&mut db, WALLET_A, LATER, 3, NOW);
        if r.1.is_ok() {
            granted += 1;
        } else {
            assert_eq!(r.0, 403);
        }
        assert!(get_reservation_count(&db, WALLET_A, NOW) <= 3);
    }
    assert_eq!(granted, 3);
}

#[test]
fn expired_reservation_goes_to_another_wallet() {
    let mut db = NFTDatabase::new();
    db.nfts.push(reserved_item(1, WALLET_A, NOW - 1));
    db.stages.push(stage(10, "open", true, 0));
    assert_eq!(db.nfts[0].state(NOW), MintState::Available);
    assert!(db.nfts[0].is_available(NOW));
    let r = do_reservation(&mut db, WALLET_B, LATER, 3, NOW);
    assert_eq!(r.0, 201);
    assert_eq!(r.1.unwrap().0, 1);
    assert_eq!(db.nfts[0].reserved_to_wallet_address.as_deref(), Some(WALLET_B));
    assert_eq!(db.nfts[0].nft_lite.reserved_until, Some(LATER));
}

#[test]
fn reservation_ending_now_is_not_yet_free() {
    let mut db = NFTDatabase::new();
    db.nfts.push(reserved_item(1, WALLET_A, NOW));
    db.stages.push(stage(10, "open", true, 0));
    assert!(!db.nfts[0].is_available(NOW));
    assert_eq!(do_reservation(&mut db, WALLET_B, LATER, 3, NOW).0, 444);
}

#[test]
fn item_under_retry_is_not_taken() {
    let mut db = NFTDatabase::new();
    let mut n = reserved_item(1, WALLET_A, NOW - 100);
    n.nft_lite.has_submit_error = true;
    n.nft_lite.in_process = true;
    db.nfts.push(n);
    let mut m = reserved_item(2, WALLET_A, NOW - 100);
    m.nft_lite.has_submit_error = true;
    db.nfts.push(m);
    db.stages.push(stage(10, "open", true, 0));
    assert_eq!(db.nfts[0].state(NOW), MintState::SubmitError);
    assert!(!db.nfts[1].is_available(NOW));
    assert_eq!(do_reservation(&mut db, WALLET_B, LATER, 3, NOW).0, 444);
}

#[test]
fn unavailable_items_are_skipped() {
    let mut db = NFTDatabase::new();
    let mut assigned = item(1, "a");
    assigned.nft_lite.assigned = true;
    assigned.assigned_to_wallet_address = Some(String::from(WALLET_B));
    db.nfts.push(assigned);
    let mut flying = item(2, "b");
    flying.nft_lite.in_process = true;
    db.nfts.push(flying);
    let mut no_deadline = item(3, "c");
    no_deadline.nft_lite.reserved = true;
    db.nfts.push(no_deadline);
    db.nfts.push(item(4, "d"));
    db.stages.push(stage(10, "open", true, 0));
    assert_eq!(db.nfts[0].state(NOW), MintState::Assigned);
    assert_eq!(db.nfts[1].state(NOW), MintState::InProcess);
    assert_eq!(db.nfts[2].state(NOW), MintState::Reserved);
    let r = do_reservation(&mut db, WALLET_A, LATER, 3, NOW);
    assert_eq!(r.1.unwrap().0, 4);
}

#[test]
fn personal_tier_before_default_tier() {
    let mut db = NFTDatabase::new();
    db.stages.push(stage(10, "open", true, 0));
    db.stages.push(filtered_stage(20, "gold", "tier", "gold"));
    db.stages.push(filtered_stage(30, "later", "tier", "later"));
    db.stages[2].stage_open = NOW + 1;
    db.stages.push(stage(40, "closed-default", true, NOW));
    db.wallet_whitelist.push(allowance(WALLET_A, 20, 2, 1, 0));
    db.wallet_whitelist.push(allowance(WALLET_A, 30, 2, 0, 0));
    db.wallet_whitelist.push(allowance(WALLET_B, 20, 1, 1, 0));
    let for_a = get_open_stages_for_wallet(&db, WALLET_A, NOW);
    assert_eq!(for_a.iter().map(|s| s.id).collect::<Vec<u128>>(), vec![20, 10]);
    let for_b = get_open_stages_for_wallet(&db, WALLET_B, NOW);
    assert_eq!(for_b.iter().map(|s| s.id).collect::<Vec<u128>>(), vec![10]);
    assert_eq!(for_a[0], db.stages[1]);
}

#[test]
fn default_tier_with_allowance_is_listed_twice() {
    let mut db = NFTDatabase::new();
    db.stages.push(stage(10, "open", true, 0));
    db.wallet_whitelist.push(allowance(WALLET_A, 10, 1, 0, 0));
    let got = get_open_stages_for_wallet(&db, WALLET_A, NOW);
    assert_eq!(got.iter().map(|s| s.id).collect::<Vec<u128>>(), vec![10, 10]);
}

#[test]
fn no_stage_open_is_told_apart_from_no_inventory() {
    let mut db = NFTDatabase::new();
    db.nfts.push(item(1, "n"));
    db.stages.push(stage(10, "open", true, NOW));
    let r = do_reservation(&mut db, WALLET_A, LATER, 3, NOW);
    assert_eq!(r.0, 444);
    let e = r.1.unwrap_err();
    assert_eq!(e.code, 444);
    assert_eq!(e.message, "No stages are open for your wallet at this time");
    assert!(!db.nfts[0].nft_lite.reserved);
}

#[test]
fn personal_tier_is_drawn_from_first() {
    let mut db = NFTDatabase::new();
    db.nfts.push(item(1, "plain"));
    db.nfts.push(item_with(2, "golden", "tier", "gold"));
    db.nfts.push(item(3, "plain"));
    db.stages.push(stage(10, "open", true, 0));
    db.stages.push(filtered_stage(20, "gold", "tier", "gold"));
    db.wallet_whitelist.push(allowance(WALLET_A, 20, 2, 0, 0));
    let first = do_reservation(&mut db, WALLET_A, LATER, 5, NOW);
    assert_eq!(first.1.unwrap().0, 2);
    assert_eq!(db.wallet_whitelist[0].reserved_count, 1);
    let second = do_reservation(&mut db, WALLET_A, LATER, 5, NOW);
    let id = second.1.unwrap().0;
    assert!(id == 1 || id == 3);
    assert_eq!(db.wallet_whitelist[0].reserved_count, 1);
}

#[test]
fn used_up_allowance_falls_back_to_default() {
    let mut db = NFTDatabase::new();
    db.nfts.push(item_with(2, "golden", "tier", "gold"));
    db.stages.push(stage(10, "open", true, 0));
    db.stages.push(filtered_stage(20, "gold", "tier", "gold"));
    db.wallet_whitelist.push(allowance(WALLET_A, 20, 1, 1, 0));
    let stages = get_open_stages_for_wallet(&db, WALLET_A, NOW);
    assert_eq!(stages.len(), 1);
    let r = do_reservation(&mut db, WALLET_A, LATER, 5, NOW);
    assert_eq!(r.1.unwrap().0, 2);
    assert_eq!(db.wallet_whitelist[0].reserved_count, 1);
}

#[test]
fn attribute_filter_needs_trait_and_value() {
    let n = item_with(1, "n", "tier", "gold");
    assert!(n.has_attribute("tier", "gold"));
    assert!(n.has_attribute("background", "plain"));
    assert!(!n.has_attribute("tier", "plain"));
    assert!(!n.has_attribute("background", "gold"));
    assert!(!item(2, "n").has_attribute("tier", "gold"));
    let p = filtered_stage(20, "gold", "tier", "gold").predicate().unwrap();
    assert_eq!(
        p,
        StagePredicate::AttributeFilter { trait_type: String::from("tier"), value: String::from("gold") }
    );
    assert!(n.is_eligible(&p, NOW));
    assert!(!item(2, "n").is_eligible(&p, NOW));
    assert_eq!(stage(10, "open", true, 0).predicate(), Some(StagePredicate::Unrestricted));
}

#[test]
fn promotional_tier_draws_by_name() {
    let s = filtered_stage(20, "bagel", "name", "Bagel #1");
    let p = s.predicate().unwrap();
    assert_eq!(p, StagePredicate::ExactName { name: String::from("Bagel #1") });
    let mut db = NFTDatabase::new();
    db.nfts.push(item_with(1, "Other", "name", "Bagel #1"));
    db.nfts.push(item(2, "Bagel #1"));
    db.nfts.push(item(3, "Bagel #10"));
    let got = allocate_with_seed(&mut db, 0, WALLET_A, &vec![s], 5, LATER, false, NOW).unwrap();
    assert_eq!(got.len(), 1);
    assert_eq!(got[0].nft_id, 2);
}

#[test]
fn misconfigured_tier_ends_the_attempt() {
    let mut bad = stage(20, "broken", false, 0);
    bad.attribute_type = Some(String::from("tier"));
    assert_eq!(bad.predicate(), None);
    let mut db = pool(2);
    let before = format!("{:?}", db);
    let stages = vec![filtered_stage(30, "none", "tier", "none"), bad, stage(10, "open", true, 0)];
    let e = allocate_with_seed(&mut db, 0, WALLET_A, &stages, 1, LATER, false, NOW).unwrap_err();
    assert_eq!(e.0, 500);
    assert_eq!(e.1.code, 500);
    assert_eq!(e.1.message, "Stage: broken is misconfigured");
    assert_eq!(format!("{:?}", db), before);
}

#[test]
fn tier_before_a_misconfigured_one_still_gives() {
    let mut bad = stage(20, "broken", false, 0);
    bad.attribute_type = Some(String::from("tier"));
    let mut db = pool(2);
    let stages = vec![stage(10, "open", true, 0), bad];
    assert!(allocate_with_seed(&mut db, 0, WALLET_A, &stages, 1, LATER, false, NOW).is_ok());
}

#[test]
fn draw_is_recorded_for_wallet_and_tier() {
    let mut db = NFTDatabase::new();
    db.wallet_whitelist.push(allowance(WALLET_A, 20, 5, 1, 0));
    db.wallet_whitelist.push(allowance(WALLET_B, 20, 5, 1, 0));
    db.wallet_whitelist.push(allowance(WALLET_A, 30, 5, 1, 0));
    assert_eq!(increase_stage_reservation(&mut db, 20, WALLET_A, 3).unwrap(), 1);
    assert_eq!(db.wallet_whitelist[0].reserved_count, 4);
    assert_eq!(db.wallet_whitelist[1].reserved_count, 1);
    assert_eq!(db.wallet_whitelist[2].reserved_count, 1);
    assert_eq!(increase_stage_reservation(&mut db, 99, WALLET_A, 3).unwrap(), 0);
}

#[test]
fn draw_that_does_not_fit_changes_nothing() {
    let mut db = NFTDatabase::new();
    db.wallet_whitelist.push(allowance(WALLET_A, 20, 5, i32::MAX - 1, 0));
    let e = increase_stage_reservation(&mut db, 20, WALLET_A, 2).unwrap_err();
    assert_eq!(e.0, 500);
    assert_eq!(e.1.message, "integer out of range");
    assert_eq!(db.wallet_whitelist[0].reserved_count, i32::MAX - 1);
    assert_eq!(increase_stage_reservation(&mut db, 20, WALLET_A, 1).unwrap(), 1);
    assert_eq!(db.wallet_whitelist[0].reserved_count, i32::MAX);
}

#[test]
fn claim_stands_when_the_counter_is_full() {
    let mut db = NFTDatabase::new();
    db.nfts.push(item_with(2, "golden", "tier", "gold"));
    db.stages.push(filtered_stage(20, "gold", "tier", "gold"));
    db.wallet_whitelist.push(allowance(WALLET_A, 20, 5, i32::MAX, i32::MIN));
    let r = reserve_with_seed(&mut db, 0, WALLET_A, LATER, NOW);
    assert_eq!(r.unwrap().0, 2);
    assert!(db.nfts[0].nft_lite.reserved);
    assert_eq!(db.wallet_whitelist[0].reserved_count, i32::MAX);
}

#[test]
fn mint_run_draw_yields_nothing_without_failure() {
    let mut db = NFTDatabase::new();
    db.nfts.push(item(1, "n"));
    let s = filtered_stage(20, "gold", "tier", "gold");
    let got = mint_nft_for_wallet_in_stage(&mut db, &s, WALLET_A, 1, LATER, NOW).unwrap();
    assert!(got.is_empty());
    let open = stage(10, "open", true, 0);
    let got = mint_nft_for_wallet_in_stage(&mut db, &open, WALLET_A, 1, LATER, NOW).unwrap();
    assert_eq!(got.len(), 1);
    assert!(db.nfts[0].in_mint_run);
    let mut bad = stage(30, "broken", false, 0);
    bad.attribute_type = Some(String::from("tier"));
    let e = mint_nft_for_wallet_in_stage(&mut db, &bad, WALLET_A, 1, LATER, NOW).unwrap_err();
    assert_eq!(e.1.message, "Stage: broken is misconfigured");
}

#[test]
fn holds_of_a_wallet_are_listed() {
    let mut db = NFTDatabase::new();
    db.nfts.push(reserved_item(1, WALLET_A, LATER));
    db.nfts.push(reserved_item(2, WALLET_A, NOW - 1));
    let mut owned = reserved_item(3, WALLET_B, LATER);
    owned.nft_lite.reserved = false;
    owned.nft_lite.assigned = true;
    owned.assigned_to_wallet_address = Some(String::from(WALLET_A));
    owned.assigned_on = Some(77);
    owned.token_id = Some(String::from("t3"));
    db.nfts.push(owned);
    let r = get_reservations_for_wallet(&db, WALLET_A, NOW);
    assert_eq!(r.0, 200);
    let list = r.1.unwrap();
    assert_eq!(list.len(), 2);
    assert_eq!(list[0].nft_id, 1);
    assert!(list[0].reserved);
    assert_eq!(list[0].reserved_until, Some(LATER));
    assert_eq!(list[0].wallet_address, WALLET_A);
    assert_eq!(list[1].nft_id, 3);
    assert!(!list[1].reserved);
    assert_eq!(list[1].reserved_until, None);
    assert!(list[1].assigned);
    assert_eq!(list[1].assigned_on, Some(77));
    assert_eq!(list[1].token_id.as_deref(), Some("t3"));
}

#[test]
fn tiers_are_listed_with_trimmed_codes() {
    let mut db = NFTDatabase::new();
    db.stages.push(stage(10, "  open \t", true, 0));
    db.stages.push(stage(20, "gold", false, 5));
    let got = get_stages(&db);
    assert_eq!(got.len(), 2);
    assert_eq!(got[0].code, "open");
    assert_eq!(got[0].name, "  open \t");
    assert_eq!(got[1], db.stages[1]);
    assert_eq!(get_stage(&db, "gold").unwrap().id, 20);
    assert_eq!(get_stage(&db, "open"), None);
}

#[test]
fn fallback_tier_opens_at_the_earliest_default() {
    let mut db = NFTDatabase::new();
    assert_eq!(get_open_stage(&db).unwrap_err().0, 404);
    db.stages.push(stage(20, "gold", false, 1));
    let e = get_open_stage(&db).unwrap_err();
    assert_eq!(e.1.code, 404);
    assert_eq!(e.1.message, "No open stages are available");
    db.stages.push(stage(10, "open", true, 50));
    db.stages.push(stage(11, "open2", true, 30));
    db.stages.push(stage(12, "open3", true, 40));
    assert_eq!(get_open_stage(&db).unwrap(), 30);
}

#[test]
fn tally_by_attribute() {
    let mut db = NFTDatabase::new();
    db.nfts.push(item_with(1, "a", "tier", "gold"));
    let mut held = item_with(2, "b", "tier", "gold");
    held.nft_lite.reserved = true;
    db.nfts.push(held);
    let mut owned = item_with(3, "c", "tier", "gold");
    owned.nft_lite.assigned = true;
    owned.assigned_to_wallet_address = Some(String::from(WALLET_A));
    db.nfts.push(owned);
    let mut other = item(4, "d");
    other.nft_lite.reserved = true;
    db.nfts.push(other);
    let gold = get_nft_stat(&db, &Some(String::from("tier")), &Some(String::from("gold"))).unwrap();
    assert_eq!((gold.assigned, gold.reserved, gold.count), (1, 1, 3));
    let all = get_nft_stat(&db, &None, &None).unwrap();
    assert_eq!((all.assigned, all.reserved, all.count), (1, 2, 4));
    let all = get_nft_stat(&db, &None, &Some(String::from("gold"))).unwrap();
    assert_eq!(all.count, 4);
    let e = get_nft_stat(&db, &Some(String::from("tier")), &None).unwrap_err();
    assert_eq!(e.0, 500);
    assert_eq!(e.1.message, "Missing Value");
}

#[test]
fn open_wallets_of_a_tier() {
    let mut db = NFTDatabase::new();
    db.wallet_whitelist.push(allowance(WALLET_A, 20, 3, 1, 1));
    db.wallet_whitelist.push(allowance(WALLET_B, 20, 2, 1, 1));
    db.wallet_whitelist.push(allowance(WALLET_B, 30, 2, 0, 0));
    let got = get_open_wallets_for_stage(&db, 20);
    assert_eq!(got.len(), 1);
    assert_eq!(got[0].wallet_address, WALLET_A);
    assert_eq!((got[0].stage_id, got[0].allocated, got[0].reserved, got[0].assigned), (20, 3, 1, 1));
}

#[test]
fn submissions_in_flight_are_listed_up_to_the_limit() {
    let mut db = NFTDatabase::new();
    for k in 0..4u128 {
        let mut n = reserved_item(k, WALLET_A, LATER);
        n.nft_lite.in_process = true;
        n.nft_lite.txhash = Some(format!("TX{}", k));
        db.nfts.push(n);
    }
    db.nfts[1].nft_lite.in_process = false;
    let mut done = item(9, "done");
    done.nft_lite.assigned = true;
    done.nft_lite.in_process = true;
    done.nft_lite.txhash = Some(String::from("TX9"));
    done.assigned_to_wallet_address = Some(String::from(WALLET_A));
    db.nfts.push(done);
    assert_eq!(reservations_in_process(&db, 100), vec!["TX0", "TX2", "TX3"]);
    assert_eq!(reservations_in_process(&db, 2), vec!["TX0", "TX2"]);
    assert_eq!(reservations_in_process(&db, 0), Vec::<String>::new());
}

#[test]
fn item_with_taken_identifier_is_refused() {
    let mut db = pool(1);
    let e = insert_nft(&mut db, item(1, "again")).unwrap_err();
    assert_eq!(e.0, 500);
    assert_eq!(e.1.message, "duplicate key value violates unique constraint");
    assert_eq!(db.nfts.len(), 1);
    assert_eq!(insert_nft(&mut db, item(2, "new")).unwrap(), 2);
    assert_eq!(db.nfts.len(), 2);
    let mut broken = item(3, "broken");
    broken.nft_lite.assigned = true;
    let e = insert_nft(&mut db, broken).unwrap_err();
    assert_eq!(e.1.message, "an assigned item must name its owner and cannot be reserved");
    assert!(db.is_well_formed());
}

#[test]
fn store_invariant_is_checked() {
    let mut db = pool(3);
    assert!(db.is_well_formed());
    db.nfts[2].nft_lite.id = 1;
    assert!(!db.is_well_formed());
    db.nfts[2].nft_lite.id = 3;
    db.nfts[1].nft_lite.assigned = true;
    assert!(!db.is_well_formed());
    db.nfts[1].assigned_to_wallet_address = Some(String::from(WALLET_A));
    assert!(db.is_well_formed());
    db.stages.push(stage(10, "twice", false, 0));
    assert!(!db.is_well_formed());
    db.stages.pop();
    db.wallet_whitelist.push(allowance(WALLET_A, 10, 1, 0, 0));
    db.wallet_whitelist.push(allowance(WALLET_B, 10, 1, 0, 0));
    assert!(db.is_well_formed());
    db.wallet_whitelist.push(allowance(WALLET_A, 10, 2, 0, 0));
    assert!(!db.is_well_formed());
}

#[test]
fn active_count_falls_as_time_passes() {
    let mut db = NFTDatabase::new();
    db.nfts.push(reserved_item(1, WALLET_A, NOW + 10));
    db.nfts.push(reserved_item(2, WALLET_A, NOW + 20));
    let mut owned = item(3, "owned");
    owned.nft_lite.assigned = true;
    owned.assigned_to_wallet_address = Some(String::from(WALLET_A));
    db.nfts.push(owned);
    assert_eq!(get_reservation_count(&db, WALLET_A, NOW), 3);
    assert_eq!(get_reservation_count(&db, WALLET_A, NOW + 10), 2);
    assert_eq!(get_reservation_count(&db, WALLET_A, NOW + 19), 2);
    assert_eq!(get_reservation_count(&db, WALLET_A, NOW + 20), 1);
    assert_eq!(get_reservation_count(&db, WALLET_A, i64::MAX), 1);
}

#[test]
fn one_attempt_claims_distinct_items() {
    let mut db = pool(20);
    let stages = vec![stage(10, "open", true, 0)];
    let got = allocate_with_seed(&mut db, -99, WALLET_A, &stages, 20, LATER, false, NOW).unwrap();
    let mut ids: Vec<u128> = got.iter().map(|c| c.nft_id).collect();
    ids.sort();
    assert_eq!(ids, (1..=20).collect::<Vec<u128>>());
    assert!(db.nfts.iter().all(|n| n.reserved_to_wallet_address.as_deref() == Some(WALLET_A)));
}

#[test]
fn claimed_item_is_not_claimed_again_while_held() {
    let mut db = pool(1);
    let stages = vec![stage(10, "open", true, 0)];
    assert!(allocate_with_seed(&mut db, 1, WALLET_A, &stages, 1, LATER, false, NOW).is_ok());
    assert!(allocate_with_seed(&mut db, 2, WALLET_B, &stages, 1, LATER + 5, true, LATER).is_err());
    assert_eq!(db.nfts[0].reserved_to_wallet_address.as_deref(), Some(WALLET_A));
    let again = allocate_with_seed(&mut db, 2, WALLET_B, &stages, 1, LATER + 5, true, LATER + 1).unwrap();
    assert_eq!(again[0].nft_id, 1);
    assert_eq!(db.nfts[0].reserved_to_wallet_address.as_deref(), Some(WALLET_B));
}

#[test]
fn allocation_claims_whatever_the_deadline() {
    let mut db = NFTDatabase::new();
    db.nfts.push(reserved_item(1, WALLET_A, NOW - 10));
    db.stages.push(stage(10, "open", true, 0));
    let r = get_and_reserve_available_nft(&mut db, WALLET_B, NOW - 1, NOW);
    assert_eq!(r.unwrap().0, 1);
    assert!(db.nfts[0].nft_lite.reserved);
    assert_eq!(db.nfts[0].reserved_to_wallet_address.as_deref(), Some(WALLET_B));
    assert_eq!(db.nfts[0].nft_lite.reserved_until, Some(NOW - 1));
    let r = do_reservation(&mut db, WALLET_A, NOW - 5, 3, NOW);
    assert_eq!(r.0, 201);
    assert_eq!(db.nfts[0].reserved_to_wallet_address.as_deref(), Some(WALLET_A));
    assert_eq!(db.nfts[0].nft_lite.reserved_until, Some(NOW - 5));
}

#[test]
fn past_deadline_does_not_change_the_failures() {
    let mut db = NFTDatabase::new();
    db.nfts.push(reserved_item(1, WALLET_A, LATER));
    db.stages.push(stage(10, "open", true, 0));
    let r = do_reservation(&mut db, WALLET_B, NOW - 1, 3, NOW);
    assert_eq!(r.0, 444);
    assert_eq!(r.1.unwrap_err().code, 444);
    assert_eq!(db.nfts[0].reserved_to_wallet_address.as_deref(), Some(WALLET_A));
    assert_eq!(db.nfts[0].nft_lite.reserved_until, Some(LATER));
    let mut bad = stage(20, "broken", false, 0);
    bad.attribute_type = Some(String::from("tier"));
    let e = allocate_with_seed(&mut db, 0, WALLET_B, &vec![bad.clone()], 1, NOW - 1, false, NOW)
        .unwrap_err();
    assert_eq!(e.0, 500);
    assert_eq!(e.1.message, "Stage: broken is misconfigured");
    let e = mint_nft_for_wallet_in_stage(&mut db, &bad, WALLET_B, 1, NOW - 1, NOW).unwrap_err();
    assert_eq!(e.0, 500);
}

#[test]
fn personal_tier_gives_its_item_whatever_the_deadline() {
    let mut db = NFTDatabase::new();
    db.nfts.push(item(1, "plain"));
    db.nfts.push(item_with(2, "golden", "tier", "gold"));
    db.stages.push(stage(10, "open", true, 0));
    db.stages.push(filtered_stage(20, "gold", "tier", "gold"));
    db.wallet_whitelist.push(allowance(WALLET_A, 20, 2, 0, 0));
    let r = do_reservation(&mut db, WALLET_A, NOW - 1, 5, NOW);
    assert_eq!(r.1.unwrap().0, 2);
    assert_eq!(db.wallet_whitelist[0].reserved_count, 1);
}

#[test]
fn codes_are_trimmed_of_unicode_white_space() {
    let mut db = NFTDatabase::new();
    db.stages.push(stage(10, "\u{3000}\n gold tier\u{a0}\u{2003}\r", true, 0));
    db.stages.push(stage(11, " \t ", false, 0));
    db.stages.push(stage(12, "\u{200b}x\u{200b}", false, 0));
    let got = get_stages(&db);
    assert_eq!(got[0].code, "gold tier");
    assert_eq!(got[1].code, "");
    assert_eq!(got[2].code, "\u{200b}x\u{200b}");
}
