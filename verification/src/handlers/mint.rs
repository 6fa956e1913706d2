//! Requests of a holder on its item: the signed metadata, the submission
//! of a transaction, the report of its outcome, and the naming of an owner.

use vstd::prelude::*;
use vstd::string::*;
use crate::auth::{
    address_message, generate_signature, is_signature_text, is_valid_address, signed_text,
    valid_address, SignatureB64,
};
use crate::handlers::{
    check_signature, passes_gate, refuse, refused_signature, refused_with, route, route_views, Method, Refusal,
    RouteInfo, RouteInfoView,
};
use crate::lifecycle::{
    find_nft, has_id, hash_recorded, is_first_with_id, nft_assign_owner, nft_assign_tx_result,
    nft_not_found_message, owner_assigned, payload_recorded, rows_with_id, set_tx_for_nft,
    set_tx_hash_for_nft, tx_result_applied, TxOutcome,
};
use crate::models::{NFTView, NFT};
use crate::requests::{
    AssignHashRequest, AssignOwner, AssignSignedTxRequest, ErrorResponse, Metadata, MetadataResponse,
    MetadataView, NewReservationResponse, ReservationTxResultRequest,
};
use crate::text::{opt_text, str_eq, uuid_text, uuid_to_text};
use crate::{NFTDatabase, NFTDatabaseView, ReservationState};
use terra_rust_api::PrivateKey;

verus! {

/// What stands in the way of a holder's request on a reservation, if
/// anything: the item is not reserved, or the reservation has run out. A
/// reservation under a submit error does not run out.
pub open spec fn reservation_refusal(nft: NFTView, now: i64) -> Option<Refusal> {
    if !nft.reserved {
        Some(Refusal { status: 401, code: 401, message: "Not Reserved"@ })
    } else if nft.reservation_valid(now) {
        None
    } else {
        Some(Refusal { status: 401, code: 401, message: "Reservation has expired"@ })
    }
}

/// Ensures that the item is reserved and that the reservation has not
/// expired at time `now`. A reservation whose last submission failed is
/// let through whatever its deadline, so that it can be retried.
pub fn validate_reservation(nft: &NFT, now: i64) -> (r: (u16, Result<bool, ErrorResponse>))
    ensures
        match reservation_refusal(nft@, now) {
            Some(x) => refused_with(r, x),
            None => r.0 == 200 && r.1 == Ok::<bool, ErrorResponse>(true),
        },
        r.1 is Ok <==> nft@.reservation_valid(now),
{
    if !nft.reserved {
        refuse(401, 401, "Not Reserved")
    } else if nft.has_submit_error {
        (200, Ok(true))
    } else {
        match nft.reserved_until {
            Some(t) if t >= now => (200, Ok(true)),
            _ => refuse(401, 401, "Reservation has expired"),
        }
    }
}

/// The text that is signed for a wallet: its address, a slash, and the
/// serialized metadata.
pub open spec fn signing_payload_spec(wallet: Seq<char>, attributes: Seq<char>) -> Seq<char> {
    wallet + "/"@ + attributes
}

/// The text that is signed for a wallet.
pub fn signing_payload(wallet_address: &str, attributes: &str) -> (r: String)
    ensures
        r@ == signing_payload_spec(wallet_address@, attributes@),
{
    let mut out = String::from_str(wallet_address);
    out.append("/");
    out.append(attributes);
    out
}

/// The answer to a request for signed metadata, given the outcome of the
/// signing: status 200 with the metadata and the signature, or status 500
/// with the failure of the signer.
pub fn metadata_response(attributes: String, signed: Result<SignatureB64, ErrorResponse>) -> (r: (
    u16,
    Result<MetadataResponse, ErrorResponse>,
))
    ensures
        match signed {
            Ok(s) => r.0 == 200 && (r.1 matches Ok(m) && m.attributes@ == attributes@
                && m.signature@ == s.signature@),
            Err(e) => r.0 == 500 && r.1 == Err::<MetadataResponse, ErrorResponse>(e),
        },
{
    match signed {
        Ok(sig) => (200, Ok(MetadataResponse { attributes, signature: sig.signature })),
        Err(e) => (500, Err(e)),
    }
}

/// The serialized metadata of an item together with a signature over it
/// and the wallet's address, made with the signing key: status 200, the
/// metadata as given, and the signature that the signer gives of the
/// wallet's address, a slash and the metadata.
pub fn build_metadata_response(
    wallet_address: &str,
    signing_key: &PrivateKey,
    attributes: String,
) -> (r: (
    u16,
    Result<MetadataResponse, ErrorResponse>,
))
    ensures
        r.0 == 200,
        r.1 matches Ok(m) && m.attributes@ == attributes@ && m.signature@ == signed_text(
            *signing_key,
            signing_payload_spec(wallet_address@, attributes@),
        ) && is_signature_text(m.signature@),
{
    let to_sign = signing_payload(wallet_address, attributes.as_str());
    let signed = generate_signature(signing_key, to_sign.as_str());
    metadata_response(attributes, signed)
}

/// The payload that a holder signs to ask for the metadata of an item.
pub open spec fn item_payload_spec(nft: u128) -> Seq<char> {
    "{\"nft\":\""@ + uuid_text(nft) + "\"}"@
}

/// The payload that a holder signs to ask for the metadata of an item.
pub fn item_payload(nft: u128) -> (r: String)
    ensures
        r@ == item_payload_spec(nft),
{
    let mut out = String::from_str("{\"nft\":\"");
    out.append(uuid_to_text(nft).as_str());
    out.append("\"}");
    out
}

/// What a wallet's request for the signed metadata of an item comes to:
/// the metadata, or the refusal. The item must exist, be reserved to the
/// wallet, and the reservation must be valid at time `now`.
pub open spec fn held_metadata(
    db: NFTDatabaseView,
    wallet: Seq<char>,
    nft: u128,
    now: i64,
) -> Result<
    MetadataView,
    Refusal,
> {
    if !has_id(db.nfts, nft) {
        Err(Refusal { status: 404, code: 404, message: nft_not_found_message() })
    } else {
        let item = db.nfts[first_with_id(db, nft)];
        match item.reserved_to_wallet_address {
            None => Err(Refusal { status: 401, code: 401, message: "NFT is not reserved"@ }),
            Some(holder) => if holder != wallet {
                Err(Refusal { status: 401, code: 401, message: "Invalid Reservation"@ })
            } else {
                match reservation_refusal(item.nft_lite, now) {
                    Some(x) => Err(x),
                    None => Ok(item.meta_data),
                }
            },
        }
    }
}

/// The first position that holds an item with the identifier.
pub open spec fn first_with_id(db: NFTDatabaseView, nft: u128) -> int {
    choose|i: int| is_first_with_id(db.nfts, nft, i)
}

/// The first position with an identifier is determined.
pub proof fn lemma_first_with_id(db: NFTDatabaseView, nft: u128, i: int)
    requires
        is_first_with_id(db.nfts, nft, i),
    ensures
        first_with_id(db, nft) == i,
{
    let j = first_with_id(db, nft);
    assert(is_first_with_id(db.nfts, nft, j));
    if j < i {
        assert(db.nfts[j].nft_lite.id != nft);
    } else if i < j {
        assert(db.nfts[i].nft_lite.id != nft);
    }
}

/// The response carries the outcome `out` of a request for metadata.
pub open spec fn metadata_result_is(
    r: (u16, Result<Metadata, ErrorResponse>),
    out: Result<MetadataView, Refusal>,
) -> bool {
    match out {
        Ok(m) => r.0 == 200 && (r.1 matches Ok(got) && got@ == m),
        Err(x) => refused_with(r, x),
    }
}

/// The metadata of the item, for the wallet that holds a valid
/// reservation on it.
pub fn metadata_for_holder(conn: &NFTDatabase, wallet: &str, nft: u128, now: i64) -> (r: (
    u16,
    Result<Metadata, ErrorResponse>,
))
    ensures
        metadata_result_is(r, held_metadata(conn@, wallet@, nft, now)),
{
    match find_nft(conn, nft) {
        None => refuse(404, 404, "NFT not found"),
        Some(i) => {
            proof {
                lemma_first_with_id(conn@, nft, i as int);
                assert(conn@.nfts[i as int] == conn.nfts@[i as int]@);
            }
            let item = &conn.nfts[i];
            match &item.reserved_to_wallet_address {
                None => refuse(401, 401, "NFT is not reserved"),
                Some(holder) => {
                    if !str_eq(holder.as_str(), wallet) {
                        refuse(401, 401, "Invalid Reservation")
                    } else {
                        let checked = validate_reservation(&item.nft_lite, now);
                        match checked.1 {
                            Ok(_) => (200, Ok(item.meta_data.clone())),
                            Err(e) => (checked.0, Err(e)),
                        }
                    }
                },
            }
        },
    }
}

/// Answers a wallet's request for the metadata of an item that it holds.
/// A malformed address is refused with status 403; so is a request whose
/// signature over the item's payload does not verify, unless the service
/// runs in debug mode. Then the item must exist and be validly reserved to
/// the wallet.
pub fn get_signed_metadata(
    conn: &NFTDatabase,
    signature: &SignatureB64,
    state: &ReservationState,
    wallet: &str,
    nft: u128,
    now: i64,
) -> (r: (u16, Result<Metadata, ErrorResponse>))
    ensures
        !valid_address(wallet@) ==> refused_with(
            r,
            Refusal { status: 403, code: 404, message: address_message() },
        ),
        valid_address(wallet@) && !passes_gate(*state, item_payload_spec(nft), *signature)
            ==> refused_signature(r),
        valid_address(wallet@) && passes_gate(*state, item_payload_spec(nft), *signature)
            ==> metadata_result_is(r, held_metadata(conn@, wallet@, nft, now)),
{
    if let Err(e) = is_valid_address(wallet) {
        return (403, Err(e));
    }
    let payload = item_payload(nft);
    if let Err(e) = check_signature(state, payload.as_str(), signature) {
        return (e.0, Err(e.1));
    }
    metadata_for_holder(conn, wallet, nft, now)
}

/// The answer to a request for signed metadata, given what was built for
/// it: the item with its signed metadata, or the failure.
pub fn signed_metadata_response(
    nft: u128,
    built: (u16, Result<MetadataResponse, ErrorResponse>),
) -> (r: (
    u16,
    Result<NewReservationResponse, ErrorResponse>,
))
    ensures
        r.0 == built.0,
        match built.1 {
            Ok(m) => r.1 == Ok::<NewReservationResponse, ErrorResponse>(
                NewReservationResponse { nft_id: nft, metadata_response: m },
            ),
            Err(e) => r.1 == Err::<NewReservationResponse, ErrorResponse>(e),
        },
{
    match built.1 {
        Ok(m) => (built.0, Ok(NewReservationResponse { nft_id: nft, metadata_response: m })),
        Err(e) => (built.0, Err(e)),
    }
}

/// What stands in the way of a wallet's submission for an item, if
/// anything: the item must exist, and be reserved to the wallet.
pub open spec fn submission_refusal(
    db: NFTDatabaseView,
    wallet: Seq<char>,
    nft: u128,
) -> Option<Refusal> {
    if !has_id(db.nfts, nft) {
        Some(Refusal { status: 404, code: 404, message: nft_not_found_message() })
    } else {
        let item = db.nfts[first_with_id(db, nft)];
        match item.reserved_to_wallet_address {
            None => Some(Refusal { status: 401, code: 401, message: "NFT is not reserved"@ }),
            Some(holder) => if holder == wallet && item.nft_lite.reserved {
                None
            } else {
                Some(
                    Refusal { status: 401, code: 401, message: "NFT is not reserved to wallet"@ },
                )
            },
        }
    }
}

/// Checks that the wallet may submit for the item.
pub fn check_submission(
    conn: &NFTDatabase,
    wallet: &str,
    nft: u128,
) -> (r: Result<(), (u16, ErrorResponse)>)
    ensures
        match submission_refusal(conn@, wallet@, nft) {
            Some(x) => (r matches Err(e) && e.0 == x.status && e.1.is(x.code, x.message)),
            None => r is Ok,
        },
{
    match find_nft(conn, nft) {
        None => Err((404, ErrorResponse::new(404, "NFT not found"))),
        Some(i) => {
            proof {
                lemma_first_with_id(conn@, nft, i as int);
                assert(conn@.nfts[i as int] == conn.nfts@[i as int]@);
            }
            let item = &conn.nfts[i];
            match &item.reserved_to_wallet_address {
                None => Err((401, ErrorResponse::new(401, "NFT is not reserved"))),
                Some(holder) => {
                    if str_eq(holder.as_str(), wallet) && item.nft_lite.reserved {
                        Ok(())
                    } else {
                        Err((401, ErrorResponse::new(401, "NFT is not reserved to wallet")))
                    }
                },
            }
        },
    }
}

/// The store after, and the answer to, the submission of a transaction's
/// identifier by a wallet for an item: the item, which must be reserved to
/// the wallet, goes in process under the identifier.
pub open spec fn hash_submission(
    db: NFTDatabaseView,
    wallet: Seq<char>,
    nft: u128,
    tx: Seq<char>,
) -> (
    NFTDatabaseView,
    Result<bool, Refusal>,
) {
    match submission_refusal(db, wallet, nft) {
        Some(x) => (db, Err(x)),
        None => (
            NFTDatabaseView { nfts: hash_recorded(db.nfts, nft, tx), ..db },
            Ok(rows_with_id(db.nfts, nft) == 1),
        ),
    }
}

/// The store after, and the answer to, the handing in of a signed
/// transaction by a wallet for an item: the item, which must be reserved
/// to the wallet, goes in process and keeps the payload.
pub open spec fn payload_submission(
    db: NFTDatabaseView,
    wallet: Seq<char>,
    nft: u128,
    signed_tx: Seq<char>,
) -> (NFTDatabaseView, Result<bool, Refusal>) {
    match submission_refusal(db, wallet, nft) {
        Some(x) => (db, Err(x)),
        None => (
            NFTDatabaseView { nfts: payload_recorded(db.nfts, nft, signed_tx), ..db },
            Ok(rows_with_id(db.nfts, nft) == 1),
        ),
    }
}

/// The response carries the answer `out`.
pub open spec fn flag_result_is(
    r: (u16, Result<bool, ErrorResponse>),
    out: Result<bool, Refusal>,
) -> bool {
    match out {
        Ok(b) => r.0 == 200 && r.1 == Ok::<bool, ErrorResponse>(b),
        Err(x) => refused_with(r, x),
    }
}

/// Records the identifier of the transaction that a wallet submitted for
/// its item: `Reserved` to `InProcess`.
pub fn submit_txhash(conn: &mut NFTDatabase, request: &AssignHashRequest) -> (r: (
    u16,
    Result<bool, ErrorResponse>,
))
    ensures
        ({
            let (db, out) = hash_submission(
                old(conn)@,
                request.wallet_address@,
                request.nft_id,
                request.tx_hash@,
            );
            final(conn)@ == db && flag_result_is(r, out)
        }),
        old(conn)@.wf() ==> final(conn)@.wf(),
{
    match check_submission(conn, request.wallet_address.as_str(), request.nft_id) {
        Err(e) => (e.0, Err(e.1)),
        Ok(()) => {
            let n = set_tx_hash_for_nft(conn, request.nft_id, request.tx_hash.as_str());
            (200, Ok(n == 1))
        },
    }
}

/// Records the signed transaction that a wallet handed in for its item:
/// `Reserved` to `InProcess`.
pub fn submit_tx(conn: &mut NFTDatabase, request: &AssignSignedTxRequest) -> (r: (
    u16,
    Result<bool, ErrorResponse>,
))
    ensures
        ({
            let (db, out) = payload_submission(
                old(conn)@,
                request.wallet_address@,
                request.nft_id,
                request.signed_tx@,
            );
            final(conn)@ == db && flag_result_is(r, out)
        }),
        old(conn)@.wf() ==> final(conn)@.wf(),
{
    match check_submission(conn, request.wallet_address.as_str(), request.nft_id) {
        Err(e) => (e.0, Err(e.1)),
        Ok(()) => {
            let n = set_tx_for_nft(conn, request.nft_id, request.signed_tx.as_str());
            (200, Ok(n == 1))
        },
    }
}

/// Takes the identifier of a submitted transaction from a wallet. The
/// request, whose serialized form is `request_json`, must carry a valid
/// signature unless the service runs in debug mode.
pub fn assign_txhash(
    conn: &mut NFTDatabase,
    signature: &SignatureB64,
    state: &ReservationState,
    request: &AssignHashRequest,
    request_json: &str,
) -> (r: (u16, Result<bool, ErrorResponse>))
    ensures
        ({
            let (db, out) = hash_submission(
                old(conn)@,
                request.wallet_address@,
                request.nft_id,
                request.tx_hash@,
            );
            if passes_gate(*state, request_json@, *signature) {
                final(conn)@ == db && flag_result_is(r, out)
            } else {
                refused_signature(r) && final(conn)@ == old(conn)@
            }
        }),
        old(conn)@.wf() ==> final(conn)@.wf(),
{
    if let Err(e) = check_signature(state, request_json, signature) {
        return (e.0, Err(e.1));
    }
    submit_txhash(conn, request)
}

/// Takes a signed transaction from a wallet. The request, whose
/// serialized form is `request_json`, must carry a valid signature unless
/// the service runs in debug mode.
pub fn assign_tx(
    conn: &mut NFTDatabase,
    signature: &SignatureB64,
    state: &ReservationState,
    request: &AssignSignedTxRequest,
    request_json: &str,
) -> (r: (u16, Result<bool, ErrorResponse>))
    ensures
        ({
            let (db, out) = payload_submission(
                old(conn)@,
                request.wallet_address@,
                request.nft_id,
                request.signed_tx@,
            );
            if passes_gate(*state, request_json@, *signature) {
                final(conn)@ == db && flag_result_is(r, out)
            } else {
                refused_signature(r) && final(conn)@ == old(conn)@
            }
        }),
        old(conn)@.wf() ==> final(conn)@.wf(),
{
    if let Err(e) = check_signature(state, request_json, signature) {
        return (e.0, Err(e.1));
    }
    submit_tx(conn, request)
}

/// The answer that goes with the outcome of a report or of the naming of
/// an owner. A change is answered with `true`, an item that was assigned
/// before with `false`; a report that matches no single item is refused
/// with status 404 and the text `not_found`.
pub open spec fn outcome_answer(o: TxOutcome, not_found: Seq<char>) -> Result<bool, Refusal> {
    match o {
        TxOutcome::Assigned => Ok(true),
        TxOutcome::SubmitErrorRecorded => Ok(true),
        TxOutcome::AlreadyProcessed => Ok(false),
        TxOutcome::NotFound => Err(Refusal { status: 404, code: 404, message: not_found }),
        TxOutcome::OwnerMissing => Err(
            Refusal { status: 400, code: 400, message: "Owner wallet missing"@ },
        ),
        TxOutcome::RetryCountFull => Err(
            Refusal { status: 500, code: 500, message: "integer out of range"@ },
        ),
    }
}

/// The answer that goes with an outcome.
pub fn answer_outcome(o: TxOutcome, not_found: &str) -> (r: (u16, Result<bool, ErrorResponse>))
    ensures
        flag_result_is(r, outcome_answer(o, not_found@)),
{
    match o {
        TxOutcome::Assigned => (200, Ok(true)),
        TxOutcome::SubmitErrorRecorded => (200, Ok(true)),
        TxOutcome::AlreadyProcessed => (200, Ok(false)),
        TxOutcome::NotFound => refuse(404, 404, not_found),
        TxOutcome::OwnerMissing => refuse(400, 400, "Owner wallet missing"),
        TxOutcome::RetryCountFull => refuse(500, 500, "integer out of range"),
    }
}

/// The store after, and the answer to, the report of a transaction's
/// outcome.
pub open spec fn tx_result_reported(
    db: NFTDatabaseView,
    wallet: Option<Seq<char>>,
    tx: Seq<char>,
    success: bool,
    assigned_on: Option<i64>,
    error: Option<Seq<char>>,
    token_id: Option<Seq<char>>,
) -> (NFTDatabaseView, Result<bool, Refusal>) {
    let (after, o) = tx_result_applied(db, wallet, tx, success, assigned_on, error, token_id);
    (after, outcome_answer(o, "TX not found"@))
}

/// Takes the report of a transaction's outcome: `InProcess` to `Assigned`
/// on success, to `SubmitError` on failure.
pub fn report_tx_result(conn: &mut NFTDatabase, report: ReservationTxResultRequest) -> (r: (
    u16,
    Result<bool, ErrorResponse>,
))
    ensures
        ({
            let (db, out) = tx_result_reported(
                old(conn)@,
                opt_text(report.wallet_address),
                report.tx@,
                report.success,
                report.assigned_on,
                opt_text(report.error),
                opt_text(report.token_id),
            );
            final(conn)@ == db && flag_result_is(r, out)
        }),
        old(conn)@.wf() ==> final(conn)@.wf(),
{
    let o = nft_assign_tx_result(
        conn,
        report.wallet_address,
        report.tx,
        report.success,
        report.assigned_on,
        report.error,
        report.token_id,
    );
    answer_outcome(o, "TX not found")
}

/// Takes the report of a transaction's outcome from the reconciler. The
/// report, whose serialized form is `report_json`, must carry a valid
/// signature unless the service runs in debug mode.
pub fn assign_tx_result(
    conn: &mut NFTDatabase,
    signature: &SignatureB64,
    state: &ReservationState,
    report: ReservationTxResultRequest,
    report_json: &str,
) -> (r: (u16, Result<bool, ErrorResponse>))
    ensures
        ({
            let (db, out) = tx_result_reported(
                old(conn)@,
                opt_text(report.wallet_address),
                report.tx@,
                report.success,
                report.assigned_on,
                opt_text(report.error),
                opt_text(report.token_id),
            );
            if passes_gate(*state, report_json@, *signature) {
                final(conn)@ == db && flag_result_is(r, out)
            } else {
                refused_signature(r) && final(conn)@ == old(conn)@
            }
        }),
        old(conn)@.wf() ==> final(conn)@.wf(),
{
    if let Err(e) = check_signature(state, report_json, signature) {
        return (e.0, Err(e.1));
    }
    report_tx_result(conn, report)
}

/// The store after, and the answer to, the naming of an owner.
pub open spec fn owner_named(
    db: NFTDatabaseView,
    wallet: Seq<char>,
    token_id: Seq<char>,
    now: i64,
) -> (
    NFTDatabaseView,
    Result<bool, Refusal>,
) {
    let (after, o) = owner_assigned(db, wallet, token_id, now);
    (after, outcome_answer(o, "token/wallet not found"@))
}

/// Names a wallet as the owner of a token, at time `now`.
pub fn name_owner(conn: &mut NFTDatabase, request: AssignOwner, now: i64) -> (r: (
    u16,
    Result<bool, ErrorResponse>,
))
    ensures
        ({
            let (db, out) = owner_named(
                old(conn)@,
                request.wallet_address@,
                request.token_id@,
                now,
            );
            final(conn)@ == db && flag_result_is(r, out)
        }),
        old(conn)@.wf() ==> final(conn)@.wf(),
{
    let o = nft_assign_owner(conn, request.wallet_address, request.token_id, now);
    answer_outcome(o, "token/wallet not found")
}

/// Takes the naming of an owner. The request, whose serialized form is
/// `request_json`, must carry a valid signature unless the service runs in
/// debug mode.
pub fn assign_owner(
    conn: &mut NFTDatabase,
    signature: &SignatureB64,
    state: &ReservationState,
    request: AssignOwner,
    request_json: &str,
    now: i64,
) -> (r: (u16, Result<bool, ErrorResponse>))
    ensures
        ({
            let (db, out) = owner_named(
                old(conn)@,
                request.wallet_address@,
                request.token_id@,
                now,
            );
            if passes_gate(*state, request_json@, *signature) {
                final(conn)@ == db && flag_result_is(r, out)
            } else {
                refused_signature(r) && final(conn)@ == old(conn)@
            }
        }),
        old(conn)@.wf() ==> final(conn)@.wf(),
{
    if let Err(e) = check_signature(state, request_json, signature) {
        return (e.0, Err(e.1));
    }
    name_owner(conn, request, now)
}

/// The routes of the service below `/mint`.
pub open spec fn mint_routes() -> Seq<RouteInfoView> {
    seq![
        RouteInfoView { method: Method::Get, path: "/<wallet>/<nft>"@, handler: "get_signed_metadata"@ },
        RouteInfoView { method: Method::Post, path: "/hash"@, handler: "assign_txhash"@ },
        RouteInfoView { method: Method::Post, path: "/tx"@, handler: "assign_tx"@ },
        RouteInfoView { method: Method::Post, path: "/tx_result"@, handler: "assign_tx_result"@ },
        RouteInfoView { method: Method::Post, path: "/assign-owner"@, handler: "assign_owner"@ },
        RouteInfoView { method: Method::Options, path: "/hash"@, handler: "options_assign_txhash"@ },
        RouteInfoView { method: Method::Options, path: "/tx"@, handler: "options_assign_tx"@ },
        RouteInfoView {
            method: Method::Options,
            path: "/<_wallet>/<_nft>"@,
            handler: "options_signed_metadata"@,
        },
        RouteInfoView {
            method: Method::Options,
            path: "/tx_result"@,
            handler: "options_assign_tx_result"@,
        },
        RouteInfoView {
            method: Method::Options,
            path: "/assign-owner"@,
            handler: "options_assign_owner"@,
        },
    ]
}

/// The routes of the service below `/mint`.
pub fn get_routes() -> (r: Vec<RouteInfo>)
    ensures
        route_views(r@) == mint_routes(),
{
    let mut out: Vec<RouteInfo> = Vec::new();
    out.push(route(Method::Get, "/<wallet>/<nft>", "get_signed_metadata"));
    out.push(route(Method::Post, "/hash", "assign_txhash"));
    out.push(route(Method::Post, "/tx", "assign_tx"));
    out.push(route(Method::Post, "/tx_result", "assign_tx_result"));
    out.push(route(Method::Post, "/assign-owner", "assign_owner"));
    out.push(route(Method::Options, "/hash", "options_assign_txhash"));
    out.push(route(Method::Options, "/tx", "options_assign_tx"));
    out.push(route(Method::Options, "/<_wallet>/<_nft>", "options_signed_metadata"));
    out.push(route(Method::Options, "/tx_result", "options_assign_tx_result"));
    out.push(route(Method::Options, "/assign-owner", "options_assign_owner"));
    proof {
        assert(route_views(out@) =~= mint_routes());
    }
    out
}

/// The answer to a request that only asks which methods a path takes.
pub fn options_response() -> (r: (u16, String))
    ensures
        r.0 == 200,
        r.1@ == "OK"@,
{
    (200, crate::text::owned("OK"))
}

} // verus!
