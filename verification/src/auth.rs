//! Who may call: the format of a wallet address, and the signature that
//! every changing request carries over its payload.

use vstd::prelude::*;
use vstd::string::*;
use vstd::utf8::*;
use secp256k1::Secp256k1;
use sha2::{Digest, Sha256};
use terra_rust_api::errors::TerraRustAPIError;
use terra_rust_api::PrivateKey;
use crate::requests::ErrorResponse;
use crate::text::{owned, starts_with};

verus! {

/// Why a request carries no usable signature.
#[derive(Debug, Clone, Copy, PartialEq, Eq, Structural)]
pub enum SignatureError {
    MissingHeader,
}

/// A signature in base64.
#[derive(Debug, PartialEq, Eq)]
pub struct SignatureB64 {
    pub signature: String,
}

/// The text that stands for a signature where signatures are not checked.
pub open spec fn ignored_signature() -> Seq<char> {
    "DEBUG IGNORE SIG TURNED ON"@
}

impl SignatureB64 {
    /// The signature of a request, from its signature header. Where
    /// signatures are not checked, a fixed text stands for it; otherwise a
    /// request without the header has none.
    pub fn from_header(ignore_signatures: bool, header: Option<&str>) -> (r: Result<
        SignatureB64,
        SignatureError,
    >)
        ensures
            ignore_signatures ==> (r matches Ok(s) && s.signature@ == ignored_signature()),
            !ignore_signatures ==> match header {
                Some(h) => (r matches Ok(s) && s.signature@ == h@),
                None => r == Err::<SignatureB64, SignatureError>(SignatureError::MissingHeader),
            },
    {
        if ignore_signatures {
            return Ok(SignatureB64 { signature: owned("DEBUG IGNORE SIG TURNED ON") });
        }
        match header {
            Some(h) => Ok(SignatureB64 { signature: owned(h) }),
            None => Err(SignatureError::MissingHeader),
        }
    }
}

/// The first characters of every wallet address.
pub open spec fn address_prefix() -> Seq<char> {
    "terra"@
}

/// A wallet address has 44 bytes and begins with the prefix.
pub open spec fn valid_address(wallet: Seq<char>) -> bool {
    encode_utf8(wallet).len() == 44 && encode_utf8(address_prefix()).is_prefix_of(
        encode_utf8(wallet),
    )
}

/// The text of the refusal of a malformed address.
pub open spec fn address_message() -> Seq<char> {
    "Expecting wallet address 'terra....'"@
}

/// Accepts a wallet address of the right length and prefix, and refuses
/// any other.
pub fn is_valid_address(wallet_address: &str) -> (r: Result<(), ErrorResponse>)
    ensures
        r is Ok <==> valid_address(wallet_address@),
        r matches Err(e) ==> e.is(404, address_message()),
{
    if wallet_address.as_bytes().len() != 44 || !starts_with(wallet_address, "terra") {
        Err(ErrorResponse::new(404, "Expecting wallet address 'terra....'"))
    } else {
        Ok(())
    }
}


/// An ECDSA signature, of the secp256k1 library.
#[verifier::external_type_specification]
#[verifier::external_body]
pub struct ExSignature(secp256k1::Signature);

/// A public key, of the secp256k1 library.
#[verifier::external_type_specification]
#[verifier::external_body]
pub struct ExPublicKey(secp256k1::key::PublicKey);

/// The error of the secp256k1 library.
#[verifier::external_type_specification]
#[verifier::external_body]
pub struct ExSecpError(secp256k1::Error);

/// The error of the base64 library's decoder.
#[verifier::external_type_specification]
#[verifier::external_body]
pub struct ExDecodeError(base64::DecodeError);

/// The SHA-256 digest of a sequence of bytes.
pub uninterp spec fn sha256_digest(data: Seq<u8>) -> Seq<u8>;

/// The bytes that a text in standard base64 stands for, if it is one.
pub uninterp spec fn base64_decoded(text: Seq<char>) -> Option<Seq<u8>>;

/// Whether bytes are the compact form of an ECDSA signature.
pub uninterp spec fn is_compact_signature(bytes: Seq<u8>) -> bool;

/// Whether bytes are a serialized public key on the curve.
pub uninterp spec fn is_public_key(bytes: Seq<u8>) -> bool;

/// Whether the ECDSA verification of the secp256k1 library accepts a
/// compact signature as one of the holder of a public key over a digest of
/// 32 bytes.
pub uninterp spec fn ecdsa_accepts(digest: Seq<u8>, signature: Seq<u8>, key: Seq<u8>) -> bool;

/// Calls `Sha256::digest` of the sha2 library: the result is the SHA-256
/// digest of the bytes, which has 32 bytes.
#[verifier::external_body]
fn sha256(data: &[u8]) -> (r: Vec<u8>)
    ensures
        r@ == sha256_digest(data@),
        r@.len() == 32,
{
    Sha256::digest(data).to_vec()
}

/// Calls `decode` of the base64 library, which decodes standard base64
/// with padding: the result is the decoded bytes, or the decoder's error
/// where the text is no such base64.
#[verifier::external_body]
fn decode_base64(text: &str) -> (r: Result<Vec<u8>, base64::DecodeError>)
    ensures
        match base64_decoded(text@) {
            Some(bytes) => (r matches Ok(v) && v@ == bytes),
            None => r is Err,
        },
{
    base64::decode(text)
}

/// Calls `to_string` on an error of the base64 library's decoder: the
/// text that its `Display` writes. Nothing is stated of the text.
#[verifier::external_body]
fn decode_error_text(e: &base64::DecodeError) -> (r: String) {
    e.to_string()
}

/// Calls `Signature::from_compact` of the secp256k1 library: it succeeds
/// exactly on the compact form of a signature, which has 64 bytes.
#[verifier::external_body]
fn parse_signature(bytes: &[u8]) -> (r: Result<secp256k1::Signature, secp256k1::Error>)
    ensures
        r is Ok <==> is_compact_signature(bytes@),
        r is Ok ==> bytes@.len() == 64,
{
    secp256k1::Signature::from_compact(bytes)
}

/// Calls `PublicKey::from_slice` of the secp256k1 library: it succeeds
/// exactly on a serialized public key, which is not empty.
#[verifier::external_body]
fn parse_public_key(bytes: &[u8]) -> (r: Result<secp256k1::key::PublicKey, secp256k1::Error>)
    ensures
        r is Ok <==> is_public_key(bytes@),
        r is Ok ==> bytes@.len() > 0,
{
    secp256k1::key::PublicKey::from_slice(bytes)
}

/// Calls `Secp256k1::verify` of the secp256k1 library on a fresh context.
/// The digest, the signature and the key are brought into the library's
/// types by `Message::from_slice`, `Signature::from_compact` and
/// `PublicKey::from_slice`, which take them as the preconditions describe
/// them. The call succeeds exactly where the verification accepts.
#[verifier::external_body]
fn ecdsa_check(digest: &[u8], signature: &[u8], key: &[u8]) -> (r: Result<(), secp256k1::Error>)
    requires
        digest@.len() == 32,
        is_compact_signature(signature@),
        is_public_key(key@),
    ensures
        r is Ok <==> ecdsa_accepts(digest@, signature@, key@),
{
    let message = secp256k1::Message::from_slice(digest)?;
    let signature = secp256k1::Signature::from_compact(signature)?;
    let key = secp256k1::key::PublicKey::from_slice(key)?;
    Secp256k1::new().verify(&message, &signature, &key)
}

/// Calls `to_string` on an error of the secp256k1 library: the text that
/// its `Display` writes. Nothing is stated of the text.
#[verifier::external_body]
fn secp_error_text(e: &secp256k1::Error) -> (r: String) {
    e.to_string()
}

/// At which step the verification of a signature failed.
#[derive(Debug, Clone, Copy, PartialEq, Eq, Structural)]
pub enum SignatureFailureKind {
    /// the signature is no base64
    SignatureEncoding,
    /// the signature is no compact ECDSA signature
    SignatureFormat,
    /// the public key is no base64
    KeyEncoding,
    /// the public key is no key on the curve
    KeyFormat,
    /// the signature is not one of the key over the payload
    Mismatch,
}

/// Why a signature was not accepted: the step that failed, and the text
/// that the library which failed gives for it.
#[derive(Debug, PartialEq, Eq)]
pub struct SignatureFailure {
    pub kind: SignatureFailureKind,
    pub message: String,
}

/// The step at which the signature or the key fails before they can be
/// compared, if there is one: the signature is decoded and parsed first,
/// then the key.
pub open spec fn malformed_input(
    signature: Seq<char>,
    public_key: Seq<char>,
) -> Option<SignatureFailureKind> {
    match base64_decoded(signature) {
        None => Some(SignatureFailureKind::SignatureEncoding),
        Some(s) => if !is_compact_signature(s) {
            Some(SignatureFailureKind::SignatureFormat)
        } else {
            match base64_decoded(public_key) {
                None => Some(SignatureFailureKind::KeyEncoding),
                Some(k) => if !is_public_key(k) {
                    Some(SignatureFailureKind::KeyFormat)
                } else {
                    None
                },
            }
        },
    }
}

/// The signature is accepted for the payload: the signature and the key,
/// which come in base64, are well formed, and the verification accepts the
/// signature as one of the holder of the key over the SHA-256 digest of
/// the payload's UTF-8 bytes.
pub open spec fn signature_accepted(
    payload: Seq<char>,
    signature: Seq<char>,
    public_key: Seq<char>,
) -> bool {
    malformed_input(signature, public_key) is None && ecdsa_accepts(
        sha256_digest(encode_utf8(payload)),
        base64_decoded(signature)->Some_0,
        base64_decoded(public_key)->Some_0,
    )
}

/// The step at which the verification of a signature that is not accepted
/// fails.
pub open spec fn failing_step(
    signature: Seq<char>,
    public_key: Seq<char>,
) -> SignatureFailureKind {
    match malformed_input(signature, public_key) {
        Some(kind) => kind,
        None => SignatureFailureKind::Mismatch,
    }
}

/// What the comparison of a well-formed signature with a key amounts to:
/// acceptance where the library accepted, a mismatch where it did not.
pub fn verdict(checked: Result<(), secp256k1::Error>) -> (r: Result<(), SignatureFailure>)
    ensures
        r is Ok <==> checked is Ok,
        r matches Err(e) ==> e.kind == SignatureFailureKind::Mismatch,
{
    match checked {
        Ok(()) => Ok(()),
        Err(e) => Err(
            SignatureFailure { kind: SignatureFailureKind::Mismatch, message: secp_error_text(&e) },
        ),
    }
}

/// Checks that `sig` is a signature of the holder of `public_key` over the
/// SHA-256 digest of `verify_string`. The signature and the key come in
/// base64. The call succeeds exactly where the signature is accepted;
/// otherwise it fails with the step that failed: the decoding or the
/// parsing of the signature, then of the key, then the comparison.
pub fn verify_signature(verify_string: &str, sig: &SignatureB64, public_key: &str) -> (r: Result<
    (),
    SignatureFailure,
>)
    ensures
        r is Ok <==> signature_accepted(verify_string@, sig.signature@, public_key@),
        r matches Err(e) ==> e.kind == failing_step(sig.signature@, public_key@),
{
    let hash = sha256(verify_string.as_bytes());
    let sig_bytes = match decode_base64(sig.signature.as_str()) {
        Ok(b) => b,
        Err(e) => {
            return Err(
                SignatureFailure {
                    kind: SignatureFailureKind::SignatureEncoding,
                    message: decode_error_text(&e),
                },
            );
        },
    };
    if let Err(e) = parse_signature(sig_bytes.as_slice()) {
        return Err(
            SignatureFailure {
                kind: SignatureFailureKind::SignatureFormat,
                message: secp_error_text(&e),
            },
        );
    }
    let key_bytes = match decode_base64(public_key) {
        Ok(b) => b,
        Err(e) => {
            return Err(
                SignatureFailure {
                    kind: SignatureFailureKind::KeyEncoding,
                    message: decode_error_text(&e),
                },
            );
        },
    };
    if let Err(e) = parse_public_key(key_bytes.as_slice()) {
        return Err(
            SignatureFailure { kind: SignatureFailureKind::KeyFormat, message: secp_error_text(&e) },
        );
    }
    verdict(ecdsa_check(hash.as_slice(), sig_bytes.as_slice(), key_bytes.as_slice()))
}

/// A private key of the chain client.
#[verifier::external_type_specification]
#[verifier::external_body]
pub struct ExPrivateKey(terra_rust_api::PrivateKey);

/// The error of the chain client.
#[verifier::external_type_specification]
#[verifier::external_body]
pub struct ExTerraError(terra_rust_api::errors::TerraRustAPIError);

/// A character of the standard base64 alphabet: a letter, a digit, `+` or
/// `/`.
pub open spec fn is_base64_char(c: char) -> bool {
    ||| 'A' <= c <= 'Z'
    ||| 'a' <= c <= 'z'
    ||| '0' <= c <= '9'
    ||| c == '+'
    ||| c == '/'
}

/// The text has the form of a signature as the signer hands it out: the
/// standard base64 form, with padding, of the 64 bytes of a compact
/// signature. That is 86 characters of the alphabet and two padding signs.
pub open spec fn is_signature_text(text: Seq<char>) -> bool {
    &&& text.len() == 88
    &&& forall|i: int| 0 <= i < 86 ==> is_base64_char(#[trigger] text[i])
    &&& text[86] == '='
    &&& text[87] == '='
}

/// The signature, in base64, that the signer of the chain client gives of
/// a text with a key. The signer signs the SHA-256 digest of the text and
/// draws its nonce from the key and the digest alone, so the signature
/// depends on nothing but the key and the text.
pub uninterp spec fn signed_text(key: PrivateKey, text: Seq<char>) -> Seq<char>;

/// Calls `PrivateKey::sign` of the chain client on a fresh context, and
/// hands out the signature of what it returns: the signature of the text
/// with the key. The client fails only where a digest of 32 bytes is
/// refused, which it never is, so the call succeeds. It encodes the 64
/// bytes of the compact signature with `encode` of the base64 library, so
/// the text has the form of a signature.
#[verifier::external_body]
fn sign_blob(key: &PrivateKey, blob: &str) -> (r: Result<String, TerraRustAPIError>)
    ensures
        r is Ok,
        r matches Ok(s) ==> s@ == signed_text(*key, blob@),
        r matches Ok(s) ==> is_signature_text(s@),
{
    key.sign(&Secp256k1::new(), blob).map(|s| s.signature)
}

/// Calls `to_string` on an error of the chain client: the text that its
/// `Display` writes. Nothing is stated of the text.
#[verifier::external_body]
fn signing_error_text(e: &TerraRustAPIError) -> (r: String) {
    e.to_string()
}

/// The answer for an attempt to sign: the signature, or status 500 with
/// the text of the failure.
pub fn signature_response(
    signed: Result<String, String>,
) -> (r: Result<SignatureB64, ErrorResponse>)
    ensures
        match signed {
            Ok(s) => (r matches Ok(b) && b.signature@ == s@),
            Err(text) => (r matches Err(e) && e.is(500, text@)),
        },
{
    match signed {
        Ok(signature) => Ok(SignatureB64 { signature }),
        Err(message) => Err(ErrorResponse { code: 500, message }),
    }
}

/// Signs `message` with the private key. The result is the signature that
/// the signer gives of the message with the key, in base64; it has the
/// form of a signature.
pub fn generate_signature(private_key: &PrivateKey, message: &str) -> (r: Result<
    SignatureB64,
    ErrorResponse,
>)
    ensures
        r matches Ok(s) && s.signature@ == signed_text(*private_key, message@)
            && is_signature_text(s.signature@),
{
    match sign_blob(private_key, message) {
        Ok(signature) => signature_response(Ok(signature)),
        Err(e) => signature_response(Err(signing_error_text(&e))),
    }
}

} // verus!
