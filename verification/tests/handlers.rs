use pfc_reservation::auth::SignatureB64;
use pfc_reservation::catchers::{get_catchers, internal_server_error, malformed, not_found};
use pfc_reservation::handlers::mint::{
    assign_owner, assign_tx, assign_tx_result, assign_txhash, get_signed_metadata, options_response,
};
use pfc_reservation::handlers::nft::{add_nft, get_by_id, get_stage_stats, index, new_nft};
use pfc_reservation::handlers::reservation::{
    get_by_address, get_free_stage, get_in_mint_process, get_in_mint_reserved, get_in_process,
    get_stuck_mint_process, mint_rows, new_reservation, reserve_for_request, run_free_stage,
};
use pfc_reservation::handlers::{Method, RouteInfo};
use pfc_reservation::models::{NftFull, Stage, WalletStageAllocation, NFT};
use pfc_reservation::requests::{
    AssignHashRequest, AssignOwner, AssignSignedTxRequest, Metadata, NFTTallyStat, NewNFTRequest,
    NewReservationRequest, OpenStageWallet, ReservationTxResultRequest,
};
use pfc_reservation::{NFTDatabase, ReservationState, CORS};
use secp256k1::Secp256k1;
use terra_rust_api::PrivateKey;

const WORDS: &str = "notice oak worry limit wrap speak medal online prefer cluster roof addict wrist behave treat actual wasp year salad speed social layer crew genius";
const WALLET_A: &str = "terra1aaaaaaaaaaaaaaaaaaaaaaaaaaaaaaaaaaaaaa";
const WALLET_B: &str = "terra1bbbbbbbbbbbbbbbbbbbbbbbbbbbbbbbbbbbbbb";
const NOW: i64 = 1_000_000;
const LATER: i64 = 9_000_000;

fn key() -> PrivateKey {
    PrivateKey::from_words(&Secp256k1::new(), WORDS, 0, 0).unwrap()
}

fn signed(message: &str) -> SignatureB64 {
    SignatureB64 { signature: key().sign(&Secp256k1::new(), message).unwrap().signature }
}

fn unsigned() -> SignatureB64 {
    SignatureB64 { signature: String::from("AAAA") }
}

fn state(debug_mode: bool) -> ReservationState {
    ReservationState {
        signing_key: key(),
        verification_key: key().sign(&Secp256k1::new(), "x").unwrap().pub_key.value,
        max_reservations: 2,
        max_reservation_duration: 10_000_000,
        debug_mode,
        chain: String::from("localterra"),
        lcd: String::from("http://localhost:1317"),
        fcd: String::from("http://localhost:3060"),
        nft_contract: String::from("terra1contract"),
    }
}

fn metadata() -> Metadata {
    Metadata {
        token_uri: String::from("ipfs://meta"),
        image: None,
        image_data: None,
        external_url: None,
        description: None,
        name: None,
        attributes: None,
        background_color: None,
        animation_url: None,
        youtube_url: None,
    }
}

fn item(id: u128, name: &str) -> NftFull {
    NftFull {
        nft_lite: NFT {
            id,
            name: String::from(name),
            assigned: false,
            reserved: false,
            has_submit_error: false,
            reserved_until: None,
            in_process: false,
            txhash: None,
        },
        meta_data: metadata(),
        svg: String::new(),
        ipfs_image: String::new(),
        ipfs_meta: String::new(),
        image_data: None,
        external_url: None,
        description: None,
        background_color: None,
        animation_url: None,
        youtube_url: None,
        assigned_on: None,
        assigned_to_wallet_address: None,
        reserved_to_wallet_address: None,
        signed_packet: None,
        in_mint_run: false,
        tx_error: None,
        tx_retry_count: 0,
        token_id: None,
    }
}

fn reserved_item(id: u128, name: &str, wallet: &str, until: i64) -> NftFull {
    let mut n = item(id, name);
    n.nft_lite.reserved = true;
    n.nft_lite.reserved_until = Some(until);
    n.reserved_to_wallet_address = Some(String::from(wallet));
    n
}

fn stage(id: u128, code: &str, is_default: bool, free: bool) -> Stage {
    Stage {
        id,
        code: String::from(code),
        name: String::from(code),
        attribute_type: None,
        attribute_value: None,
        is_default,
        stage_free: free,
        stage_open: 0,
    }
}

fn allowance(wallet: &str, stage: u128, allocation: i32, reserved: i32, assigned: i32) -> WalletStageAllocation {
    WalletStageAllocation {
        wallet_address: String::from(wallet),
        stage,
        allocation_count: allocation,
        reserved_count: reserved,
        assigned_count: assigned,
    }
}

fn pool(n: u128) -> NFTDatabase {
    let mut db = NFTDatabase::new();
    for k in 0..n {
        db.nfts.push(item(k + 1, "n"));
    }
    db.stages.push(stage(10, "open", true, false));
    db
}

fn request(wallet: &str, until: i64) -> NewReservationRequest {
    NewReservationRequest { wallet_address: String::from(wallet), reserved_until: until }
}

#[test]
fn reservation_window_is_checked_first() {
    let mut db = pool(1);
    let st = state(true);
    let r = reserve_for_request(&mut db, &st, &request(WALLET_A, NOW + 10_000_001), NOW);
    assert_eq!(r.0, 401);
    let e = r.1.unwrap_err();
    assert_eq!(e.code, 401);
    assert_eq!(e.message, "Exceeds maximum reservation length");
    let r = reserve_for_request(&mut db, &st, &request("bad", NOW - 1), NOW);
    assert_eq!(r.0, 401);
    assert_eq!(r.1.unwrap_err().message, "reservation time has already expired");
    let r = reserve_for_request(&mut db, &st, &request("bad", NOW), NOW);
    assert_eq!(r.0, 401);
    let e = r.1.unwrap_err();
    assert_eq!(e.code, 404);
    assert_eq!(e.message, "Expecting wallet address 'terra....'");
    assert!(!db.nfts[0].nft_lite.reserved);
    let r = reserve_for_request(&mut db, &st, &request(WALLET_A, NOW + 10_000_000), NOW);
    assert_eq!(r.0, 201);
    assert_eq!(r.1.unwrap().0, 1);
    assert_eq!(db.nfts[0].nft_lite.reserved_until, Some(NOW + 10_000_000));
}

#[test]
fn reservation_window_does_not_overflow() {
    let mut db = pool(1);
    let mut st = state(true);
    st.max_reservation_duration = i64::MAX;
    let r = reserve_for_request(&mut db, &st, &request(WALLET_A, i64::MAX), i64::MAX - 1);
    assert_eq!(r.0, 201);
}

#[test]
fn reservation_needs_a_signature() {
    let mut db = pool(3);
    let req = request(WALLET_A, LATER);
    let json = "{\"wallet_address\":\"terra1aaaaaaaaaaaaaaaaaaaaaaaaaaaaaaaaaaaaaa\",\"reserved_until\":\"x\"}";
    let r = new_reservation(&mut db, &unsigned(), &state(false), &req, json, NOW);
    assert_eq!(r.0, 403);
    assert_eq!(r.1.unwrap_err().code, 403);
    assert!(db.nfts.iter().all(|n| !n.nft_lite.reserved));
    let r = new_reservation(&mut db, &signed(json), &state(false), &req, json, NOW);
    assert_eq!(r.0, 201);
    let r = new_reservation(&mut db, &unsigned(), &state(true), &req, json, NOW);
    assert_eq!(r.0, 201);
    let r = new_reservation(&mut db, &unsigned(), &state(true), &req, json, NOW);
    assert_eq!(r.0, 403);
    assert_eq!(r.1.unwrap_err().message, "Reservation limit exceeded");
    assert_eq!(db.nfts.iter().filter(|n| n.nft_lite.reserved).count(), 2);
}

#[test]
fn holds_are_listed_for_valid_addresses() {
    let mut db = pool(0);
    db.nfts.push(reserved_item(1, "held", WALLET_A, LATER));
    let r = get_by_address(&db, "nobody", NOW);
    assert_eq!(r.0, 403);
    assert_eq!(r.1.unwrap_err().code, 404);
    let r = get_by_address(&db, WALLET_A, NOW);
    assert_eq!(r.0, 200);
    assert_eq!(r.1.unwrap().len(), 1);
    assert_eq!(get_by_address(&db, WALLET_B, NOW).1.unwrap().len(), 0);
}

#[test]
fn signed_metadata_needs_address_signature_and_hold() {
    let mut db = pool(0);
    db.nfts.push(reserved_item(0x1f, "held", WALLET_A, LATER));
    let payload = "{\"nft\":\"00000000-0000-0000-0000-00000000001f\"}";
    let r = get_signed_metadata(&db, &signed(payload), &state(false), "nobody", 0x1f, NOW);
    assert_eq!(r.0, 403);
    assert_eq!(r.1.unwrap_err().code, 404);
    let r = get_signed_metadata(&db, &signed("other"), &state(false), WALLET_A, 0x1f, NOW);
    assert_eq!(r.0, 403);
    assert_eq!(r.1.unwrap_err().message, "secp: signature failed verification");
    let r = get_signed_metadata(&db, &signed(payload), &state(false), WALLET_A, 0x1f, NOW);
    assert_eq!(r.0, 200);
    assert_eq!(r.1.unwrap(), metadata());
    let r = get_signed_metadata(&db, &signed(payload), &state(false), WALLET_B, 0x1f, NOW);
    assert_eq!(r.0, 401);
    let r = get_signed_metadata(&db, &unsigned(), &state(true), WALLET_A, 0x1f, LATER + 1);
    assert_eq!(r.0, 401);
    assert_eq!(r.1.unwrap_err().message, "Reservation has expired");
    db.nfts[0].nft_lite.has_submit_error = true;
    let r = get_signed_metadata(&db, &unsigned(), &state(true), WALLET_A, 0x1f, LATER + 1);
    assert_eq!(r.0, 200);
}

#[test]
fn submissions_need_a_signature() {
    let mut db = pool(0);
    db.nfts.push(reserved_item(1, "held", WALLET_A, LATER));
    let hash = AssignHashRequest { wallet_address: String::from(WALLET_A), nft_id: 1, tx_hash: String::from("T") };
    let r = assign_txhash(&mut db, &unsigned(), &state(false), &hash, "json");
    assert_eq!(r.0, 403);
    assert!(!db.nfts[0].nft_lite.in_process);
    let r = assign_txhash(&mut db, &signed("json"), &state(false), &hash, "json");
    assert_eq!(r, (200, Ok(true)));
    assert_eq!(db.nfts[0].nft_lite.txhash.as_deref(), Some("T"));
    let tx = AssignSignedTxRequest { wallet_address: String::from(WALLET_A), nft_id: 1, signed_tx: String::from("P") };
    assert_eq!(assign_tx(&mut db, &unsigned(), &state(false), &tx, "json").0, 403);
    assert_eq!(assign_tx(&mut db, &unsigned(), &state(true), &tx, "json"), (200, Ok(true)));
    assert_eq!(db.nfts[0].signed_packet.as_deref(), Some("P"));
}

#[test]
fn reports_need_a_signature() {
    let mut db = pool(0);
    let mut n = reserved_item(1, "held", WALLET_A, LATER);
    n.nft_lite.in_process = true;
    n.nft_lite.txhash = Some(String::from("T"));
    db.nfts.push(n);
    db.nfts.push(reserved_item(2, "second", WALLET_B, LATER));
    let report = || ReservationTxResultRequest {
        tx: String::from("T"),
        wallet_address: Some(String::from(WALLET_A)),
        assigned_on: Some(5),
        token_id: Some(String::from("tok")),
        success: true,
        error: None,
    };
    assert_eq!(assign_tx_result(&mut db, &unsigned(), &state(false), report(), "json").0, 403);
    assert!(!db.nfts[0].nft_lite.assigned);
    assert_eq!(assign_tx_result(&mut db, &signed("json"), &state(false), report(), "json"), (200, Ok(true)));
    assert!(db.nfts[0].nft_lite.assigned);
    assert_eq!(assign_tx_result(&mut db, &signed("json"), &state(false), report(), "json"), (200, Ok(false)));
    let owner = || AssignOwner { token_id: String::from("second"), wallet_address: String::from(WALLET_B) };
    assert_eq!(assign_owner(&mut db, &unsigned(), &state(false), owner(), "json", NOW).0, 403);
    assert_eq!(assign_owner(&mut db, &unsigned(), &state(true), owner(), "json", NOW), (200, Ok(true)));
    assert_eq!(db.nfts[1].assigned_on, Some(NOW));
    assert_eq!(assign_owner(&mut db, &unsigned(), &state(true), owner(), "json", NOW), (200, Ok(false)));
}

#[test]
fn free_tier_mints_one_item_per_open_allowance() {
    let mut db = pool(5);
    db.stages.push(stage(20, "free", false, true));
    db.stages.push(stage(30, "paid", false, false));
    db.wallet_whitelist.push(allowance(WALLET_A, 20, 2, 0, 0));
    db.wallet_whitelist.push(allowance(WALLET_B, 20, 1, 1, 0));
    db.wallet_whitelist.push(allowance("terra1cccccccccccccccccccccccccccccccccccccc", 20, 1, 0, 0));
    db.wallet_whitelist.push(allowance(WALLET_B, 30, 1, 0, 0));
    let r = run_free_stage(&mut db, "free", LATER, NOW);
    assert_eq!(r.0, 200);
    let minted = r.1.unwrap();
    assert_eq!(minted.len(), 2);
    assert_eq!(minted[0].wallet_address, WALLET_A);
    assert_eq!(minted[1].wallet_address, "terra1cccccccccccccccccccccccccccccccccccccc");
    assert_ne!(minted[0].nft_id, minted[1].nft_id);
    assert_eq!(db.nfts.iter().filter(|n| n.in_mint_run && n.nft_lite.reserved).count(), 2);
    assert_eq!(db.wallet_whitelist[0].reserved_count, 1);
    assert_eq!(db.wallet_whitelist[1].reserved_count, 1);
    assert_eq!(db.wallet_whitelist[2].reserved_count, 1);
    assert_eq!(db.wallet_whitelist[3].reserved_count, 0);
    assert!(db.is_well_formed());
}

#[test]
fn free_tier_run_is_refused_for_other_tiers() {
    let mut db = pool(2);
    db.stages.push(stage(30, "paid", false, false));
    let r = run_free_stage(&mut db, "none", LATER, NOW);
    assert_eq!(r.0, 404);
    let e = r.1.unwrap_err();
    assert_eq!(e.code, 404);
    assert_eq!(e.message, "stage not found");
    let r = run_free_stage(&mut db, "paid", LATER, NOW);
    assert_eq!(r.0, 403);
    let e = r.1.unwrap_err();
    assert_eq!(e.code, 403);
    assert_eq!(e.message, "Stage is not free");
    let r = get_free_stage(&mut db, &unsigned(), "paid", &state(false), LATER, NOW);
    assert_eq!(r.0, 403);
    assert_ne!(r.1.unwrap_err().message, "Stage is not free");
    let sig = SignatureB64 {
        signature: key().sign(&Secp256k1::new(), "{\"stage\":\"none\"}").unwrap().signature,
    };
    let r = get_free_stage(&mut db, &sig, "none", &state(false), LATER, NOW);
    assert_eq!(r.0, 404);
}

#[test]
fn mint_run_stops_at_a_misconfigured_tier() {
    let mut db = pool(3);
    let mut bad = stage(20, "broken", false, true);
    bad.attribute_type = Some(String::from("tier"));
    db.stages.push(bad);
    db.wallet_whitelist.push(allowance(WALLET_A, 20, 1, 0, 0));
    let r = run_free_stage(&mut db, "broken", LATER, NOW);
    assert_eq!(r.0, 500);
    assert_eq!(r.1.unwrap_err().message, "Stage: broken is misconfigured");
    assert!(db.nfts.iter().all(|n| !n.nft_lite.reserved));
}

#[test]
fn mint_rows_skip_used_up_allowances() {
    let mut db = pool(1);
    let rows = vec![
        OpenStageWallet { wallet_address: String::from(WALLET_A), stage_id: 10, allocated: 1, reserved: 0, assigned: 1 },
        OpenStageWallet { wallet_address: String::from(WALLET_B), stage_id: 10, allocated: i32::MAX, reserved: i32::MIN, assigned: 0 },
        OpenStageWallet { wallet_address: String::from(WALLET_A), stage_id: 10, allocated: 5, reserved: 0, assigned: 0 },
    ];
    let got = mint_rows(&mut db, &stage(10, "open", true, true), &rows, LATER, NOW).unwrap();
    assert_eq!(got.len(), 1);
    assert_eq!(got[0].wallet_address, WALLET_B);
}

#[test]
fn submissions_in_flight_are_reported() {
    let mut db = pool(1);
    db.nfts[0].nft_lite.in_process = true;
    db.nfts[0].nft_lite.txhash = Some(String::from("T"));
    assert_eq!(get_in_process(&db), (200, Ok(vec![String::from("T")])));
}

#[test]
fn tally_of_the_inventory() {
    let mut db = pool(0);
    db.nfts.push(item(1, "free"));
    db.nfts.push(reserved_item(2, "held", WALLET_A, LATER));
    db.nfts.push(reserved_item(3, "lapsed", WALLET_A, NOW));
    let mut flying = reserved_item(4, "flying", WALLET_A, LATER);
    flying.nft_lite.in_process = true;
    db.nfts.push(flying);
    let mut owned = item(5, "owned");
    owned.nft_lite.assigned = true;
    owned.assigned_to_wallet_address = Some(String::from(WALLET_B));
    db.nfts.push(owned);
    let mut open_ended = item(6, "open-ended");
    open_ended.nft_lite.reserved = true;
    db.nfts.push(open_ended);
    let r = index(&db, NOW);
    assert_eq!(r.0, 200);
    let t = r.1.unwrap();
    assert_eq!((t.assigned, t.reserved, t.in_process, t.available), (1, 1, 1, 2));
}

#[test]
fn tally_of_every_tier() {
    let mut db = pool(2);
    db.nfts[0].nft_lite.reserved = true;
    let mut gold = stage(20, " gold ", false, false);
    gold.attribute_type = Some(String::from("tier"));
    gold.attribute_value = Some(String::from("gold"));
    db.stages.push(gold);
    let mut bad = stage(30, "broken", false, false);
    bad.attribute_type = Some(String::from("tier"));
    db.stages.push(bad);
    let r = get_stage_stats(&db);
    assert_eq!(r.0, 200);
    let stats = r.1.unwrap();
    assert_eq!(stats.len(), 3);
    assert_eq!(stats[0].stage_id, 10);
    assert_eq!(stats[0].stats, NFTTallyStat { assigned: 0, reserved: 1, count: 2 });
    assert_eq!(stats[0].wallet_count, -1);
    assert_eq!(stats[1].stage_code, "gold");
    assert_eq!(stats[1].stage_name, " gold ");
    assert_eq!(stats[1].stats, NFTTallyStat { assigned: 0, reserved: 0, count: 0 });
    assert_eq!(stats[2].stats, NFTTallyStat { assigned: -1, reserved: -1, count: -1 });
}

#[test]
fn public_face_of_an_item() {
    let mut db = pool(0);
    db.nfts.push(item(1, "free"));
    db.nfts.push(reserved_item(2, "held", WALLET_A, LATER));
    db.nfts[1].nft_lite.txhash = Some(String::from("T"));
    let mut flying = reserved_item(3, "flying", WALLET_A, NOW - 1);
    flying.nft_lite.in_process = true;
    flying.nft_lite.txhash = Some(String::from("T3"));
    db.nfts.push(flying);
    let shown = get_by_id(&db, 1, NOW).1.unwrap();
    assert!(!shown.reserved);
    assert_eq!(shown.reserved_until, None);
    assert_eq!(shown.txhash.as_deref(), Some("-hidden-"));
    assert_eq!(shown.name, "free");
    let shown = get_by_id(&db, 2, NOW).1.unwrap();
    assert!(shown.reserved);
    assert_eq!(shown.reserved_until, Some(LATER));
    assert_eq!(shown.txhash, None);
    let shown = get_by_id(&db, 2, LATER).1.unwrap();
    assert!(!shown.reserved);
    assert_eq!(shown.reserved_until, None);
    assert_eq!(shown.txhash, None);
    let shown = get_by_id(&db, 3, NOW).1.unwrap();
    assert!(shown.reserved);
    assert!(shown.in_process);
    assert_eq!(shown.reserved_until, Some(NOW - 1));
    assert_eq!(shown.txhash.as_deref(), Some("-hidden-"));
    let r = get_by_id(&db, 9, NOW);
    assert_eq!(r.0, 404);
    let e = r.1.unwrap_err();
    assert_eq!(e.code, 404);
    assert_eq!(e.message, "NFT not found");
}

#[test]
fn items_are_added_with_a_signature_only() {
    let mut db = pool(1);
    let nft_in = NewNFTRequest {
        name: String::from("fresh"),
        meta: String::from("{}"),
        svg: String::from("{\"svg\":1}"),
        ipfs_image: String::from("ipfs://i"),
        ipfs_meta: String::from("ipfs://m"),
        image_data: None,
        external_url: Some(String::from("https://example.org")),
        description: None,
        background_color: None,
        animation_url: None,
        youtube_url: None,
    };
    let r = new_nft(&mut db, &unsigned(), &state(true), &nft_in, "json", metadata(), 7);
    assert_eq!(r.0, 403);
    assert_eq!(db.nfts.len(), 1);
    let r = new_nft(&mut db, &signed("json"), &state(false), &nft_in, "json", metadata(), 7);
    assert_eq!(r.0, 201);
    assert_eq!(r.1.unwrap().nft_id, 7);
    let mut expected = item(7, "fresh");
    expected.svg = String::from("{\"svg\":1}");
    expected.ipfs_image = String::from("ipfs://i");
    expected.ipfs_meta = String::from("ipfs://m");
    expected.external_url = Some(String::from("https://example.org"));
    assert_eq!(db.nfts[1], expected);
    let r = add_nft(&mut db, &nft_in, metadata(), 7);
    assert_eq!(r.0, 500);
    assert_eq!(r.1.unwrap_err().message, "duplicate key value violates unique constraint");
    assert_eq!(db.nfts.len(), 2);
}

#[test]
fn catchers_have_their_bodies() {
    assert_eq!(internal_server_error().code, 500);
    assert_eq!(internal_server_error().message, "Internal server error");
    assert_eq!(not_found().code, 404);
    assert_eq!(not_found().message, "Not Found");
    assert_eq!(malformed().code, 422);
    assert_eq!(malformed().message, "Malformed Request");
    let all = get_catchers();
    assert_eq!(all.iter().map(|c| c.0).collect::<Vec<u16>>(), vec![500, 404, 422]);
    assert_eq!(all[2].1, malformed());
}

#[test]
fn routes_are_listed() {
    let mint = pfc_reservation::handlers::mint::get_routes();
    assert_eq!(mint.len(), 10);
    assert_eq!(
        mint[0],
        RouteInfo {
            method: Method::Get,
            path: String::from("/<wallet>/<nft>"),
            handler: String::from("get_signed_metadata"),
        }
    );
    assert_eq!(mint.iter().filter(|r| r.method == Method::Options).count(), 5);
    assert_eq!(mint.iter().filter(|r| r.method == Method::Post).count(), 4);
    let nft = pfc_reservation::handlers::nft::get_routes();
    assert_eq!(
        nft.iter().map(|r| r.path.as_str()).collect::<Vec<&str>>(),
        vec!["/", "/<id>", "/new", "/stages"]
    );
    let reservation = pfc_reservation::handlers::reservation::get_routes();
    assert_eq!(reservation.len(), 8);
    assert_eq!(reservation[6].path, "/free/stage/<stage>");
    assert_eq!(reservation[1].method, Method::Post);
    assert_eq!(options_response(), (200, String::from("OK")));
}

#[test]
fn cross_origin_headers() {
    let cors = CORS { allowed_origins: String::from("https://mint.example") };
    let headers = cors.headers();
    assert_eq!(headers.len(), 4);
    assert_eq!(headers[0], (String::from("Access-Control-Allow-Origin"), String::from("https://mint.example")));
    assert_eq!(headers[1].1, "POST, GET, PATCH, OPTIONS");
    assert!(headers[2].1.ends_with("X-Reservation-Signature"));
    assert_eq!(headers[3], (String::from("Access-Control-Allow-Credentials"), String::from("true")));
}

#[test]
fn mint_run_items_are_listed_by_phase() {
    let mut db = pool(0);
    let mut waiting = reserved_item(0x0a, "waiting", WALLET_A, LATER);
    waiting.in_mint_run = true;
    db.nfts.push(waiting);
    let mut flying = reserved_item(0x0b, "flying", WALLET_B, LATER);
    flying.in_mint_run = true;
    flying.nft_lite.in_process = true;
    flying.nft_lite.txhash = Some(String::from("TB"));
    db.nfts.push(flying);
    let mut stuck = reserved_item(0x0c, "stuck", WALLET_A, LATER);
    stuck.in_mint_run = true;
    stuck.nft_lite.in_process = true;
    stuck.nft_lite.has_submit_error = true;
    stuck.nft_lite.txhash = Some(String::from("TC"));
    db.nfts.push(stuck);
    let mut single = reserved_item(0x0d, "single", WALLET_A, LATER);
    single.nft_lite.in_process = true;
    single.nft_lite.txhash = Some(String::from("TD"));
    db.nfts.push(single);
    db.nfts.push(reserved_item(0x0e, "plain", WALLET_A, LATER));
    assert_eq!(
        get_in_mint_reserved(&db),
        (200, Ok(vec![String::from("00000000-0000-0000-0000-00000000000a")]))
    );
    assert_eq!(
        get_in_mint_process(&db),
        (
            200,
            Ok(vec![
                (String::from(WALLET_B), String::from("TB")),
                (String::from(WALLET_A), String::from("TC")),
            ])
        )
    );
    let r = get_stuck_mint_process(&db);
    assert_eq!(r.0, 200);
    let list = r.1.unwrap();
    assert_eq!(list.len(), 1);
    assert_eq!(list[0].nft_id, 0x0c);
    assert_eq!(list[0].wallet_address, WALLET_A);
    assert_eq!(list[0].meta_data, metadata());
    assert_eq!(get_in_process(&db).1.unwrap(), vec!["TB", "TC", "TD"]);
    assert_eq!(
        pfc_reservation::db::reservations_in_mint_process(&db, 1),
        vec![(String::from(WALLET_B), String::from("TB"))]
    );
    assert!(pfc_reservation::db::reservations_stuck_in_mint_process(&db, 0).is_empty());
    assert!(pfc_reservation::db::reservations_in_mint_reserved(&db, 0).is_empty());
}

#[test]
fn mint_run_claims_whatever_the_deadline() {
    let mut db = pool(3);
    db.stages.push(stage(20, "free", false, true));
    db.wallet_whitelist.push(allowance(WALLET_A, 20, 2, 0, 0));
    let r = run_free_stage(&mut db, "free", NOW - 1, NOW);
    assert_eq!(r.0, 200);
    let minted = r.1.unwrap();
    assert_eq!(minted.len(), 1);
    assert_eq!(db.nfts.iter().filter(|n| n.in_mint_run).count(), 1);
    assert!(db.nfts.iter().any(|n| n.nft_lite.reserved_until == Some(NOW - 1)));
    let rows = vec![OpenStageWallet {
        wallet_address: String::from(WALLET_B),
        stage_id: 20,
        allocated: 2,
        reserved: 0,
        assigned: 0,
    }];
    let got = mint_rows(&mut db, &stage(20, "free", false, true), &rows, NOW - 1, NOW).unwrap();
    assert_eq!(got.len(), 1);
    let st = state(true);
    let r = reserve_for_request(&mut db, &st, &request(WALLET_A, NOW - 1), NOW);
    assert_eq!(r.0, 401);
    assert_eq!(r.1.unwrap_err().message, "reservation time has already expired");
}

#[test]
fn request_with_a_wrong_signature_changes_nothing() {
    let mut db = pool(2);
    let before = format!("{:?}", db);
    let req = request(WALLET_A, LATER);
    let r = new_reservation(&mut db, &signed("other payload"), &state(false), &req, "json", NOW);
    assert_eq!(r.0, 403);
    let e = r.1.unwrap_err();
    assert_eq!(e.code, 403);
    assert_eq!(e.message, "secp: signature failed verification");
    assert_eq!(format!("{:?}", db), before);
    let bad = SignatureB64 { signature: String::from("c2hvcnQ=") };
    let r = new_reservation(&mut db, &bad, &state(false), &req, "json", NOW);
    assert_eq!(r.0, 403);
    assert_eq!(r.1.unwrap_err().message, "secp: malformed signature");
    assert_eq!(format!("{:?}", db), before);
}

#[test]
fn mint_run_holds_for_an_hour() {
    use_deadline(0, 3_600_000_000);
    use_deadline(-5, 3_599_999_995);
    use_deadline(i64::MAX - 3_600_000_000, i64::MAX);
    use_deadline(i64::MAX - 3_599_999_999, i64::MAX);
    use_deadline(i64::MAX, i64::MAX);
    use_deadline(i64::MIN, i64::MIN + 3_600_000_000);
}

fn use_deadline(now: i64, expected: i64) {
    assert_eq!(pfc_reservation::handlers::reservation::mint_run_deadline(now), expected);
}
