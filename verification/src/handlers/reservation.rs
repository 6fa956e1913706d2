//! Requests that make and list reservations, and the mint run of a free
//! tier.

use vstd::prelude::*;
use vstd::string::*;
use crate::allocation::reservation_views;
use crate::auth::{address_message, is_valid_address, valid_address, SignatureB64};
use crate::db::{
    do_reservation, get_open_wallets_for_stage, get_reservations_for_wallet, get_stage,
    first_of, guarded_reservation, holds_views, in_flight, mint_flights,
    mint_nft_for_wallet_in_stage, mint_reserved, mint_run_draw, mint_stuck, misconfigured_message,
    open_stages, open_wallet_views, open_wallets, pair_views, reservation_response_is,
    reservations_for, reservations_in_mint_process, reservations_in_mint_reserved,
    reservations_in_process, reservations_stuck_in_mint_process, text_views, AllocationView,
};
use crate::handlers::{
    check_signature, passes_gate, refuse, refused_signature, refused_with, route, route_views, Method, Refusal,
    RouteInfo, RouteInfoView,
};
use crate::models::{Stage, StageView};
use crate::requests::{
    ErrorResponse, Metadata, MintReservation, MintReservationView, NewReservationRequest,
    OpenStageWallet, OpenStageWalletView, Reservation,
};
use crate::selection::wallet_seed_spec;
use crate::{NFTDatabase, NFTDatabaseView, ReservationState};

verus! {

/// The holds of a wallet, for a well-formed address; a malformed address
/// is refused with status 403.
pub fn get_by_address(conn: &NFTDatabase, address: &str, now: i64) -> (r: (
    u16,
    Result<Vec<Reservation>, ErrorResponse>,
))
    ensures
        !valid_address(address@) ==> refused_with(
            r,
            Refusal { status: 403, code: 404, message: address_message() },
        ),
        valid_address(address@) ==> r.0 == 200 && (r.1 matches Ok(v) && holds_views(v@)
            == reservations_for(conn@.nfts, address@, now)),
{
    if let Err(e) = is_valid_address(address) {
        return (403, Err(e));
    }
    get_reservations_for_wallet(conn, address, now)
}

/// What is wrong with the deadline of a requested reservation, if
/// anything: it must not lie further ahead than the longest reservation
/// allowed, nor in the past.
pub open spec fn window_refusal(
    reserved_until: i64,
    now: i64,
    max_duration: i64,
) -> Option<Refusal> {
    if reserved_until > now + max_duration {
        Some(Refusal { status: 401, code: 401, message: "Exceeds maximum reservation length"@ })
    } else if reserved_until < now {
        Some(Refusal { status: 401, code: 401, message: "reservation time has already expired"@ })
    } else {
        None
    }
}

/// What is wrong with a request for a reservation before the store is
/// asked, if anything: its deadline, or the wallet's address.
pub open spec fn request_refusal(
    wallet: Seq<char>,
    reserved_until: i64,
    now: i64,
    max_duration: i64,
) -> Option<Refusal> {
    match window_refusal(reserved_until, now, max_duration) {
        Some(x) => Some(x),
        None => if valid_address(wallet) {
            None
        } else {
            Some(Refusal { status: 401, code: 404, message: address_message() })
        },
    }
}

/// The store and the response agree with a request of `wallet` for one
/// item until `reserved_until`: the request is refused for its deadline or
/// address and the store is unchanged, or the wallet reserves an item
/// under its quota.
pub open spec fn reservation_request_met(
    before: NFTDatabaseView,
    after: NFTDatabaseView,
    r: (u16, Result<(u128, Metadata), ErrorResponse>),
    wallet: Seq<char>,
    reserved_until: i64,
    max_reservations: usize,
    max_duration: i64,
    now: i64,
) -> bool {
    match request_refusal(wallet, reserved_until, now, max_duration) {
        Some(x) => after == before && refused_with(r, x),
        None => {
            let (db, out) = guarded_reservation(
                before,
                wallet_seed_spec(wallet),
                wallet,
                reserved_until,
                max_reservations,
                now,
            );
            after == db && reservation_response_is(r, out, open_stages(before, wallet, now))
        },
    }
}

/// Reserves one item for the wallet of the request, once the deadline and
/// the address of the request are found in order.
pub fn reserve_for_request(
    conn: &mut NFTDatabase,
    state: &ReservationState,
    request: &NewReservationRequest,
    now: i64,
) -> (r: (u16, Result<(u128, Metadata), ErrorResponse>))
    ensures
        reservation_request_met(
            old(conn)@,
            final(conn)@,
            r,
            request.wallet_address@,
            request.reserved_until,
            state.max_reservations,
            state.max_reservation_duration,
            now,
        ),
        old(conn)@.wf() ==> final(conn)@.wf(),
{
    if (request.reserved_until as i128) > (now as i128) + (state.max_reservation_duration as i128) {
        return refuse(401, 401, "Exceeds maximum reservation length");
    }
    if request.reserved_until < now {
        return refuse(401, 401, "reservation time has already expired");
    }
    if let Err(e) = is_valid_address(request.wallet_address.as_str()) {
        return (401, Err(e));
    }
    do_reservation(
        conn,
        request.wallet_address.as_str(),
        request.reserved_until,
        state.max_reservations,
        now,
    )
}

/// Takes a request for a reservation. The request, whose serialized form
/// is `request_json`, must carry a valid signature unless the service runs
/// in debug mode. On success the response holds the identifier and the
/// metadata of the reserved item.
pub fn new_reservation(
    conn: &mut NFTDatabase,
    signature: &SignatureB64,
    state: &ReservationState,
    request: &NewReservationRequest,
    request_json: &str,
    now: i64,
) -> (r: (u16, Result<(u128, Metadata), ErrorResponse>))
    ensures
        passes_gate(*state, request_json@, *signature) ==> reservation_request_met(
            old(conn)@,
            final(conn)@,
            r,
            request.wallet_address@,
            request.reserved_until,
            state.max_reservations,
            state.max_reservation_duration,
            now,
        ),
        !passes_gate(*state, request_json@, *signature) ==> refused_signature(r) && final(conn)@
            == old(conn)@,
        old(conn)@.wf() ==> final(conn)@.wf(),
{
    if let Err(e) = check_signature(state, request_json, signature) {
        return (e.0, Err(e.1));
    }
    reserve_for_request(conn, state, request, now)
}

/// The identifiers of the submissions that wait for their outcome, 100 at
/// most.
pub fn get_in_process(conn: &NFTDatabase) -> (r: (u16, Result<Vec<String>, ErrorResponse>))
    ensures
        r.0 == 200,
        r.1 matches Ok(v) && text_views(v@) == first_of(in_flight(conn@.nfts), 100),
{
    (200, Ok(reservations_in_process(conn, 100)))
}

/// The wallet and the submission of the items of a mint run that wait for
/// their outcome, 100 at most.
pub fn get_in_mint_process(conn: &NFTDatabase) -> (r: (
    u16,
    Result<Vec<(String, String)>, ErrorResponse>,
))
    ensures
        r.0 == 200,
        r.1 matches Ok(v) && pair_views(v@) == first_of(mint_flights(conn@.nfts), 100),
{
    (200, Ok(reservations_in_mint_process(conn, 100)))
}

/// The items of a mint run whose submission failed, 100 at most.
pub fn get_stuck_mint_process(conn: &NFTDatabase) -> (r: (
    u16,
    Result<Vec<MintReservation>, ErrorResponse>,
))
    ensures
        r.0 == 200,
        r.1 matches Ok(v) && reservation_views(v@) == first_of(mint_stuck(conn@.nfts), 100),
{
    (200, Ok(reservations_stuck_in_mint_process(conn, 100)))
}

/// The items that a mint run has reserved and for which nothing was
/// submitted yet, 100 at most.
pub fn get_in_mint_reserved(conn: &NFTDatabase) -> (r: (u16, Result<Vec<String>, ErrorResponse>))
    ensures
        r.0 == 200,
        r.1 matches Ok(v) && text_views(v@) == first_of(mint_reserved(conn@.nfts), 100),
{
    (200, Ok(reservations_in_mint_reserved(conn, 100)))
}

/// The store after, and the items claimed by, the first `k` allowances of
/// a mint run of `stage`: each allowance that is not used up draws one
/// item for its wallet, in the order of the list. The run ends at a tier
/// that is misconfigured; what was claimed before stays claimed.
pub open spec fn mint_run(
    db: NFTDatabaseView,
    stage: StageView,
    rows: Seq<OpenStageWalletView>,
    k: int,
    reserved_until: i64,
    now: i64,
) -> (NFTDatabaseView, Option<Seq<MintReservationView>>)
    decreases k,
{
    if k <= 0 || k > rows.len() {
        (db, Some(Seq::empty()))
    } else {
        let (mid, done) = mint_run(db, stage, rows, k - 1, reserved_until, now);
        let row = rows[k - 1];
        match done {
            None => (mid, None),
            Some(claimed) => if row.remaining() <= 0 {
                (mid, Some(claimed))
            } else {
                let (after, out) = mint_run_draw(
                    mid,
                    wallet_seed_spec(row.wallet_address),
                    row.wallet_address,
                    stage,
                    1,
                    reserved_until,
                    now,
                );
                match out {
                    AllocationView::Claimed { claims, .. } => (after, Some(claimed + claims)),
                    AllocationView::NoInventory => (after, Some(claimed)),
                    _ => (after, None),
                }
            },
        }
    }
}

/// The store after, and the answer to, a request for the mint run of the
/// tier with the code `code`. The tier must exist and be free to mint from;
/// then every allowance in it that is not used up draws one item.
pub open spec fn free_stage_run(
    db: NFTDatabaseView,
    code: Seq<char>,
    reserved_until: i64,
    now: i64,
) -> (NFTDatabaseView, Result<Seq<MintReservationView>, Refusal>) {
    if !(exists|i: int| 0 <= i < db.stages.len() && (#[trigger] db.stages[i]).code == code) {
        (db, Err(Refusal { status: 404, code: 404, message: "stage not found"@ }))
    } else {
        let stage = first_stage_with_code(db, code);
        if !stage.stage_free {
            (db, Err(Refusal { status: 403, code: 403, message: "Stage is not free"@ }))
        } else {
            let rows = open_wallets(db.wallet_whitelist, stage.id);
            let (after, done) = mint_run(db, stage, rows, rows.len() as int, reserved_until, now);
            match done {
                Some(claimed) => (after, Ok(claimed)),
                None => (
                    after,
                    Err(
                        Refusal {
                            status: 500,
                            code: 500,
                            message: misconfigured_message(stage.code),
                        },
                    ),
                ),
            }
        }
    }
}

/// `i` is the first position of a tier with the code `code`.
pub open spec fn is_first_stage_with_code(db: NFTDatabaseView, code: Seq<char>, i: int) -> bool {
    &&& 0 <= i < db.stages.len()
    &&& db.stages[i].code == code
    &&& forall|j: int| 0 <= j < i ==> (#[trigger] db.stages[j]).code != code
}

/// The first tier with the code `code`.
pub open spec fn first_stage_with_code(db: NFTDatabaseView, code: Seq<char>) -> StageView {
    db.stages[choose|i: int| is_first_stage_with_code(db, code, i)]
}

/// The first tier with a code is determined.
pub proof fn lemma_first_stage_with_code(db: NFTDatabaseView, code: Seq<char>, i: int)
    requires
        is_first_stage_with_code(db, code, i),
    ensures
        first_stage_with_code(db, code) == db.stages[i],
{
    let j = choose|j: int| is_first_stage_with_code(db, code, j);
    assert(is_first_stage_with_code(db, code, j));
    if j < i {
        assert(db.stages[j].code != code);
    } else if i < j {
        assert(db.stages[i].code != code);
    }
}

/// The response carries the answer `out` of a mint run.
pub open spec fn mint_run_response_is(
    r: (u16, Result<Vec<MintReservation>, ErrorResponse>),
    out: Result<Seq<MintReservationView>, Refusal>,
) -> bool {
    match out {
        Ok(claimed) => r.0 == 200 && (r.1 matches Ok(v) && reservation_views(v@) == claimed),
        Err(x) => refused_with(r, x),
    }
}

/// The result carries what a mint run claimed, or the failure of a
/// misconfigured tier.
pub open spec fn mint_rows_result_is(
    r: Result<Vec<MintReservation>, (u16, ErrorResponse)>,
    done: Option<Seq<MintReservationView>>,
    stage: StageView,
) -> bool {
    match done {
        Some(claimed) => (r matches Ok(v) && reservation_views(v@) == claimed),
        None => (r matches Err(e) && e.0 == 500 && e.1.is(500, misconfigured_message(stage.code))),
    }
}

/// Draws one item of the tier for each of the allowances that is not used
/// up, in the order of the list.
pub fn mint_rows(
    conn: &mut NFTDatabase,
    stage: &Stage,
    rows: &Vec<OpenStageWallet>,
    reserved_until: i64,
    now: i64,
) -> (r: Result<Vec<MintReservation>, (u16, ErrorResponse)>)
    ensures
        ({
            let (db, done) = mint_run(
                old(conn)@,
                stage@,
                open_wallet_views(rows@),
                rows@.len() as int,
                reserved_until,
                now,
            );
            final(conn)@ == db && mint_rows_result_is(r, done, stage@)
        }),
        old(conn)@.wf() ==> final(conn)@.wf(),
{
    let ghost before = conn@;
    let ghost row_views = open_wallet_views(rows@);
    let mut generated: Vec<MintReservation> = Vec::new();
    let mut k: usize = 0;
    proof {
        assert(reservation_views(generated@) =~= Seq::<MintReservationView>::empty());
    }
    while k < rows.len()
        invariant
            k <= rows.len(),
            row_views == open_wallet_views(rows@),
            row_views.len() == rows@.len(),
            before == old(conn)@,
            before.wf() ==> conn@.wf(),
            mint_run(before, stage@, row_views, k as int, reserved_until, now) == (
                conn@,
                Some(reservation_views(generated@)),
            ),
        decreases rows.len() - k,
    {
        let row = &rows[k];
        let ghost mid = conn@;
        let ghost claimed = reservation_views(generated@);
        proof {
            assert(row_views[k as int] == row@);
        }
        let amount = (row.allocated as i64) - (row.assigned as i64) - (row.reserved as i64);
        if amount > 0 {
            let drawn = mint_nft_for_wallet_in_stage(
                conn,
                stage,
                row.wallet_address.as_str(),
                1,
                reserved_until,
                now,
            );
            let ghost out = mint_run_draw(
                mid,
                wallet_seed_spec(row@.wallet_address),
                row@.wallet_address,
                stage@,
                1,
                reserved_until,
                now,
            ).1;
            match drawn {
                Err(e) => {
                    proof {
                        assert(mint_run(
                            before,
                            stage@,
                            row_views,
                            k as int + 1,
                            reserved_until,
                            now,
                        ) == (conn@, None::<Seq<MintReservationView>>));
                        lemma_mint_run_stops(
                            before,
                            stage@,
                            row_views,
                            k as int + 1,
                            row_views.len() as int,
                            reserved_until,
                            now,
                        );
                    }
                    return Err(e);
                },
                Ok(mut reservations) => {
                    let ghost prior = generated@;
                    let ghost added = reservations@;
                    generated.append(&mut reservations);
                    proof {
                        assert(reservation_views(generated@) =~= claimed + reservation_views(
                            added,
                        ));
                        if out is NoInventory {
                            assert(reservation_views(added) =~= Seq::<MintReservationView>::empty());
                            assert(claimed + reservation_views(added) =~= claimed);
                        }
                        assert(mint_run(
                            before,
                            stage@,
                            row_views,
                            k as int + 1,
                            reserved_until,
                            now,
                        ) == (conn@, Some(reservation_views(generated@))));
                    }
                },
            }
        } else {
            proof {
                assert(mint_run(before, stage@, row_views, k as int + 1, reserved_until, now) == (
                    conn@,
                    Some(reservation_views(generated@)),
                ));
            }
        }
        k = k + 1;
    }
    Ok(generated)
}

/// Runs the mint of the free tier with the code `stage`: every allowance
/// in the tier that is not used up draws one item for its wallet, held
/// until `reserved_until`.
pub fn run_free_stage(conn: &mut NFTDatabase, stage: &str, reserved_until: i64, now: i64) -> (r: (
    u16,
    Result<Vec<MintReservation>, ErrorResponse>,
))
    ensures
        ({
            let (db, out) = free_stage_run(old(conn)@, stage@, reserved_until, now);
            final(conn)@ == db && mint_run_response_is(r, out)
        }),
        old(conn)@.wf() ==> final(conn)@.wf(),
{
    let ghost before = conn@;
    let stage_rec = match get_stage(conn, stage) {
        None => {
            return refuse(404, 404, "stage not found");
        },
        Some(s) => s,
    };
    proof {
        let i = choose|i: int|
            0 <= i < before.stages.len() && before.stages[i] == stage_rec@ && stage_rec@.code
                == stage@ && forall|j: int| 0 <= j < i ==> (#[trigger] before.stages[j]).code
                != stage@;
        lemma_first_stage_with_code(before, stage@, i);
    }
    if !stage_rec.stage_free {
        return refuse(403, 403, "Stage is not free");
    }
    let rows = get_open_wallets_for_stage(conn, stage_rec.id);
    proof {
        assert(open_wallet_views(rows@).len() == rows@.len());
    }
    match mint_rows(conn, &stage_rec, &rows, reserved_until, now) {
        Ok(v) => (200, Ok(v)),
        Err(e) => (e.0, Err(e.1)),
    }
}

/// Once a mint run has ended at a misconfigured tier, the rest of the
/// list changes nothing.
pub proof fn lemma_mint_run_stops(
    db: NFTDatabaseView,
    stage: StageView,
    rows: Seq<OpenStageWalletView>,
    k: int,
    n: int,
    reserved_until: i64,
    now: i64,
)
    requires
        0 <= k <= n <= rows.len(),
        mint_run(db, stage, rows, k, reserved_until, now).1 is None,
    ensures
        mint_run(db, stage, rows, n, reserved_until, now) == mint_run(
            db,
            stage,
            rows,
            k,
            reserved_until,
            now,
        ),
    decreases n - k,
{
    if k < n {
        lemma_mint_run_stops(db, stage, rows, k, n - 1, reserved_until, now);
    }
}

/// How long the items of a mint run are held: one hour, in microseconds.
pub const MINT_RUN_HOLD: i64 = 3_600_000_000;

/// Until when a mint run that starts at `now` holds its items: for
/// `MINT_RUN_HOLD`, or to the end of time where that lies beyond it.
pub open spec fn mint_run_deadline_spec(now: i64) -> i64 {
    if now + MINT_RUN_HOLD > i64::MAX {
        i64::MAX
    } else {
        (now + MINT_RUN_HOLD) as i64
    }
}

/// Until when a mint run that starts at `now` holds its items.
pub fn mint_run_deadline(now: i64) -> (r: i64)
    ensures
        r == mint_run_deadline_spec(now),
        r >= now,
{
    if now > i64::MAX - MINT_RUN_HOLD {
        i64::MAX
    } else {
        now + MINT_RUN_HOLD
    }
}

/// The payload that is signed to ask for the mint run of a tier.
pub open spec fn stage_payload_spec(stage: Seq<char>) -> Seq<char> {
    "{\"stage\":\""@ + stage + "\"}"@
}

/// The payload that is signed to ask for the mint run of a tier.
pub fn stage_payload(stage: &str) -> (r: String)
    ensures
        r@ == stage_payload_spec(stage@),
{
    let mut out = String::from_str("{\"stage\":\"");
    out.append(stage);
    out.append("\"}");
    out
}

/// Takes a request for the mint run of a free tier. The request must
/// carry a valid signature over the tier's payload unless the service runs
/// in debug mode.
pub fn get_free_stage(
    conn: &mut NFTDatabase,
    signature: &SignatureB64,
    stage: &str,
    state: &ReservationState,
    reserved_until: i64,
    now: i64,
) -> (r: (u16, Result<Vec<MintReservation>, ErrorResponse>))
    ensures
        ({
            let (db, out) = free_stage_run(old(conn)@, stage@, reserved_until, now);
            if passes_gate(*state, stage_payload_spec(stage@), *signature) {
                final(conn)@ == db && mint_run_response_is(r, out)
            } else {
                refused_signature(r) && final(conn)@ == old(conn)@
            }
        }),
        old(conn)@.wf() ==> final(conn)@.wf(),
{
    let payload = stage_payload(stage);
    if let Err(e) = check_signature(state, payload.as_str(), signature) {
        return (e.0, Err(e.1));
    }
    run_free_stage(conn, stage, reserved_until, now)
}

/// The routes of the service below `/reservation`.
pub open spec fn reservation_routes() -> Seq<RouteInfoView> {
    seq![
        RouteInfoView { method: Method::Get, path: "/<address>"@, handler: "get_by_address"@ },
        RouteInfoView { method: Method::Post, path: "/new"@, handler: "new_reservation"@ },
        RouteInfoView { method: Method::Options, path: "/new"@, handler: "options_new_reservation"@ },
        RouteInfoView { method: Method::Get, path: "/in-process"@, handler: "get_in_process"@ },
        RouteInfoView {
            method: Method::Get,
            path: "/in-mint-process"@,
            handler: "get_in_mint_process"@,
        },
        RouteInfoView {
            method: Method::Get,
            path: "/in-mint-reserved"@,
            handler: "get_in_mint_reserved"@,
        },
        RouteInfoView {
            method: Method::Get,
            path: "/free/stage/<stage>"@,
            handler: "get_free_stage"@,
        },
        RouteInfoView {
            method: Method::Get,
            path: "/stuck-mint-process"@,
            handler: "get_stuck_mint_process"@,
        },
    ]
}

/// The routes of the service below `/reservation`.
pub fn get_routes() -> (r: Vec<RouteInfo>)
    ensures
        route_views(r@) == reservation_routes(),
{
    let mut out: Vec<RouteInfo> = Vec::new();
    out.push(route(Method::Get, "/<address>", "get_by_address"));
    out.push(route(Method::Post, "/new", "new_reservation"));
    out.push(route(Method::Options, "/new", "options_new_reservation"));
    out.push(route(Method::Get, "/in-process", "get_in_process"));
    out.push(route(Method::Get, "/in-mint-process", "get_in_mint_process"));
    out.push(route(Method::Get, "/in-mint-reserved", "get_in_mint_reserved"));
    out.push(route(Method::Get, "/free/stage/<stage>", "get_free_stage"));
    out.push(route(Method::Get, "/stuck-mint-process", "get_stuck_mint_process"));
    proof {
        assert(route_views(out@) =~= reservation_routes());
    }
    out
}

} // verus!
