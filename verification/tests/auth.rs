use pfc_reservation::auth::{
    generate_signature, is_valid_address, signature_response, verdict, verify_signature,
    SignatureB64, SignatureError, SignatureFailureKind,
};
use pfc_reservation::handlers::mint::{
    build_metadata_response, item_payload, metadata_response, signed_metadata_response,
    signing_payload,
};
use pfc_reservation::handlers::reservation::stage_payload;
use pfc_reservation::handlers::{check_signature, require_signature};
use pfc_reservation::requests::{ErrorResponse, MetadataResponse};
use pfc_reservation::ReservationState;
use secp256k1::Secp256k1;
use terra_rust_api::PrivateKey;

const WORDS: &str = "notice oak worry limit wrap speak medal online prefer cluster roof addict wrist behave treat actual wasp year salad speed social layer crew genius";

fn key() -> PrivateKey {
    PrivateKey::from_words(&Secp256k1::new(), WORDS, 0, 0).unwrap()
}

fn signed(message: &str) -> (SignatureB64, String) {
    let sig = key().sign(&Secp256k1::new(), message).unwrap();
    (SignatureB64 { signature: sig.signature }, sig.pub_key.value)
}

fn state(debug_mode: bool) -> ReservationState {
    ReservationState {
        signing_key: key(),
        verification_key: signed("x").1,
        max_reservations: 3,
        max_reservation_duration: 600_000_000,
        debug_mode,
        chain: String::from("localterra"),
        lcd: String::from("http://localhost:1317"),
        fcd: String::from("http://localhost:3060"),
        nft_contract: String::from("terra1contract"),
    }
}

#[test]
fn address_needs_length_and_prefix() {
    assert!(is_valid_address("terra1aaaaaaaaaaaaaaaaaaaaaaaaaaaaaaaaaaaaaa").is_ok());
    let e = is_valid_address("terra1aaaaaaaaaaaaaaaaaaaaaaaaaaaaaaaaaaaaa").unwrap_err();
    assert_eq!(e.code, 404);
    assert_eq!(e.message, "Expecting wallet address 'terra....'");
    assert!(is_valid_address("terra1aaaaaaaaaaaaaaaaaaaaaaaaaaaaaaaaaaaaaaa").is_err());
    assert!(is_valid_address("xerra1aaaaaaaaaaaaaaaaaaaaaaaaaaaaaaaaaaaaaa").is_err());
    assert!(is_valid_address("terr").is_err());
    assert!(is_valid_address("").is_err());
    assert!(is_valid_address("terraaaaaaaaaaaaaaaaaaaaaaaaaaaaaaaaaaaaaaaa").is_ok());
    assert!(is_valid_address("terra1aaaaaaaaaaaaaaaaaaaaaaaaaaaaaaaaaaaa\u{e9}").is_ok());
    assert!(is_valid_address("terra1aaaaaaaaaaaaaaaaaaaaaaaaaaaaaaaaaaaaa\u{e9}").is_err());
}

#[test]
fn signature_comes_from_the_header() {
    assert_eq!(
        SignatureB64::from_header(false, Some("c2ln")),
        Ok(SignatureB64 { signature: String::from("c2ln") })
    );
    assert_eq!(SignatureB64::from_header(false, None), Err(SignatureError::MissingHeader));
    assert_eq!(
        SignatureB64::from_header(true, None),
        Ok(SignatureB64 { signature: String::from("DEBUG IGNORE SIG TURNED ON") })
    );
    assert_eq!(
        SignatureB64::from_header(true, Some("c2ln")),
        Ok(SignatureB64 { signature: String::from("DEBUG IGNORE SIG TURNED ON") })
    );
}

#[test]
fn valid_signature_is_accepted() {
    let (sig, public_key) = signed("{\"nft\":\"1\"}");
    assert_eq!(verify_signature("{\"nft\":\"1\"}", &sig, &public_key), Ok(()));
}

#[test]
fn signature_over_other_text_is_a_mismatch() {
    let (sig, public_key) = signed("{\"nft\":\"1\"}");
    let e = verify_signature("{\"nft\":\"2\"}", &sig, &public_key).unwrap_err();
    assert_eq!(e.kind, SignatureFailureKind::Mismatch);
    assert_eq!(e.message, "secp: signature failed verification");
}

#[test]
fn malformed_signature_or_key_is_refused_by_step() {
    let (sig, public_key) = signed("m");
    let bad = SignatureB64 { signature: String::from("not base64!") };
    let e = verify_signature("m", &bad, &public_key).unwrap_err();
    assert_eq!(e.kind, SignatureFailureKind::SignatureEncoding);
    assert_eq!(e.message, "Invalid byte 32, offset 3.");
    let short = SignatureB64 { signature: String::from("c2hvcnQ=") };
    let e = verify_signature("m", &short, &public_key).unwrap_err();
    assert_eq!(e.kind, SignatureFailureKind::SignatureFormat);
    assert_eq!(e.message, "secp: malformed signature");
    let e = verify_signature("m", &sig, "%%%").unwrap_err();
    assert_eq!(e.kind, SignatureFailureKind::KeyEncoding);
    let e = verify_signature("m", &sig, "c2hvcnQ=").unwrap_err();
    assert_eq!(e.kind, SignatureFailureKind::KeyFormat);
    assert_eq!(e.message, "secp: malformed public key");
    let e = verify_signature("m", &bad, "%%%").unwrap_err();
    assert_eq!(e.kind, SignatureFailureKind::SignatureEncoding);
}

#[test]
fn verdict_follows_the_comparison() {
    assert_eq!(verdict(Ok(())), Ok(()));
    let e = verdict(Err(secp256k1::Error::IncorrectSignature)).unwrap_err();
    assert_eq!(e.kind, SignatureFailureKind::Mismatch);
}

#[test]
fn generated_signature_verifies() {
    let sig = generate_signature(&key(), "terra1wallet/{\"token_uri\":\"u\"}").unwrap();
    let public_key = signed("x").1;
    assert_eq!(verify_signature("terra1wallet/{\"token_uri\":\"u\"}", &sig, &public_key), Ok(()));
    assert!(verify_signature("terra1wallet/{}", &sig, &public_key).is_err());
    assert_eq!(sig, signed("terra1wallet/{\"token_uri\":\"u\"}").0);
    assert_eq!(sig.signature.len(), 88);
    assert!(sig.signature.ends_with("=="));
    assert!(sig.signature[..86]
        .chars()
        .all(|c| c.is_ascii_alphanumeric() || c == '+' || c == '/'));
    assert_eq!(base64::decode(&sig.signature).unwrap().len(), 64);
}

#[test]
fn signing_outcome_becomes_a_response() {
    assert_eq!(
        signature_response(Ok(String::from("c2ln"))),
        Ok(SignatureB64 { signature: String::from("c2ln") })
    );
    assert_eq!(
        signature_response(Err(String::from("no key"))),
        Err(ErrorResponse { code: 500, message: String::from("no key") })
    );
}

#[test]
fn debug_mode_lets_every_request_pass() {
    let bad = SignatureB64 { signature: String::from("DEBUG IGNORE SIG TURNED ON") };
    assert_eq!(check_signature(&state(true), "payload", &bad), Ok(()));
    let e = check_signature(&state(false), "payload", &bad).unwrap_err();
    assert_eq!(e.0, 403);
    assert_eq!(e.1.code, 403);
    assert_eq!(e.1.message, "Invalid byte 32, offset 5.");
    let e = require_signature(&state(true), "payload", &bad).unwrap_err();
    assert_eq!(e.0, 403);
    let (good, _) = signed("payload");
    assert_eq!(check_signature(&state(false), "payload", &good), Ok(()));
    assert_eq!(require_signature(&state(false), "payload", &good), Ok(()));
    let e = check_signature(&state(false), "other", &good).unwrap_err();
    assert_eq!(e.1.message, "secp: signature failed verification");
    assert_eq!(check_signature(&state(true), "other", &good), Ok(()));
}

#[test]
fn payloads_have_their_exact_text() {
    assert_eq!(
        item_payload(0x936da01f9abd4d9d80c702af85c822a8),
        "{\"nft\":\"936da01f-9abd-4d9d-80c7-02af85c822a8\"}"
    );
    assert_eq!(item_payload(0), "{\"nft\":\"00000000-0000-0000-0000-000000000000\"}");
    assert_eq!(item_payload(u128::MAX), "{\"nft\":\"ffffffff-ffff-ffff-ffff-ffffffffffff\"}");
    assert_eq!(item_payload(0x1f), "{\"nft\":\"00000000-0000-0000-0000-00000000001f\"}");
    assert_eq!(stage_payload("gold"), "{\"stage\":\"gold\"}");
    assert_eq!(signing_payload("terra1w", "{\"a\":1}"), "terra1w/{\"a\":1}");
    assert_eq!(signing_payload("", ""), "/");
}

#[test]
fn metadata_is_signed_with_the_wallet() {
    let r = build_metadata_response("terra1w", &key(), String::from("{\"a\":1}"));
    assert_eq!(r.0, 200);
    let m = r.1.unwrap();
    assert_eq!(m.attributes, "{\"a\":1}");
    let public_key = signed("x").1;
    let sig = SignatureB64 { signature: m.signature };
    assert_eq!(verify_signature("terra1w/{\"a\":1}", &sig, &public_key), Ok(()));
}

#[test]
fn metadata_response_follows_the_signing() {
    let ok = metadata_response(String::from("{}"), Ok(SignatureB64 { signature: String::from("s") }));
    assert_eq!(
        ok,
        (200, Ok(MetadataResponse { attributes: String::from("{}"), signature: String::from("s") }))
    );
    let failed = metadata_response(
        String::from("{}"),
        Err(ErrorResponse { code: 500, message: String::from("no") }),
    );
    assert_eq!(failed, (500, Err(ErrorResponse { code: 500, message: String::from("no") })));
    let r = signed_metadata_response(7, ok);
    assert_eq!(r.0, 200);
    let body = r.1.unwrap();
    assert_eq!(body.nft_id, 7);
    assert_eq!(body.metadata_response.signature, "s");
    let r = signed_metadata_response(7, failed);
    assert_eq!(r.0, 500);
    assert_eq!(r.1.unwrap_err().message, "no");
}
