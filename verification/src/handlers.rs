//! What each request decides, apart from its transport.

use vstd::prelude::*;
use crate::auth::{signature_accepted, verify_signature, SignatureB64};
use crate::requests::ErrorResponse;
use crate::text::owned;
use crate::ReservationState;

pub mod mint;
pub mod nft;
pub mod reservation;

verus! {

/// The method of a request.
#[derive(Debug, Clone, Copy, PartialEq, Eq, Structural)]
pub enum Method {
    Get,
    Post,
    Options,
}

/// A route of the service: its method, its path below the mount point,
/// and the name of its handler.
#[derive(Debug, PartialEq, Eq)]
pub struct RouteInfo {
    pub method: Method,
    pub path: String,
    pub handler: String,
}

/// What a `RouteInfo` holds, with its texts as sequences of characters.
pub struct RouteInfoView {
    pub method: Method,
    pub path: Seq<char>,
    pub handler: Seq<char>,
}

impl View for RouteInfo {
    type V = RouteInfoView;

    open spec fn view(&self) -> RouteInfoView {
        RouteInfoView { method: self.method, path: self.path@, handler: self.handler@ }
    }
}

/// The views of a list of routes, in order.
pub open spec fn route_views(v: Seq<RouteInfo>) -> Seq<RouteInfoView> {
    Seq::new(v.len(), |i: int| v[i]@)
}

/// A route.
pub fn route(method: Method, path: &str, handler: &str) -> (r: RouteInfo)
    ensures
        r@ == (RouteInfoView { method, path: path@, handler: handler@ }),
{
    RouteInfo { method, path: owned(path), handler: owned(handler) }
}

/// The request passes the signature gate: its signature over `payload` is
/// accepted for the configured key, or the service runs in debug mode.
pub open spec fn passes_gate(
    state: ReservationState,
    payload: Seq<char>,
    signature: SignatureB64,
) -> bool {
    state.debug_mode || signature_accepted(payload, signature.signature@, state.verification_key@)
}

/// The request carries a signature over `payload` that is accepted for
/// the configured key.
pub open spec fn is_signed(
    state: ReservationState,
    payload: Seq<char>,
    signature: SignatureB64,
) -> bool {
    signature_accepted(payload, signature.signature@, state.verification_key@)
}

/// Lets a request pass whose signature over `payload` verifies against the
/// configured key, and in debug mode every request. Any other request is
/// refused with status 403 and the reason.
pub fn check_signature(state: &ReservationState, payload: &str, signature: &SignatureB64) -> (r: Result<
    (),
    (u16, ErrorResponse),
>)
    ensures
        r is Ok <==> passes_gate(*state, payload@, *signature),
        r matches Err(e) ==> e.0 == 403 && e.1.code == 403,
{
    match verify_signature(payload, signature, state.verification_key.as_str()) {
        Ok(()) => Ok(()),
        Err(e) => {
            if state.debug_mode {
                Ok(())
            } else {
                Err((403, ErrorResponse { code: 403, message: e.message }))
            }
        },
    }
}

/// Lets a request pass whose signature over `payload` verifies against the
/// configured key, whatever the mode. Any other request is refused with
/// status 403 and the reason.
pub fn require_signature(state: &ReservationState, payload: &str, signature: &SignatureB64) -> (r: Result<
    (),
    (u16, ErrorResponse),
>)
    ensures
        r is Ok <==> is_signed(*state, payload@, *signature),
        r matches Err(e) ==> e.0 == 403 && e.1.code == 403,
{
    match verify_signature(payload, signature, state.verification_key.as_str()) {
        Ok(()) => Ok(()),
        Err(e) => Err((403, ErrorResponse { code: 403, message: e.message })),
    }
}

/// A refusal: the status of the response, and the code and the text of its
/// body.
pub struct Refusal {
    pub status: u16,
    pub code: u16,
    pub message: Seq<char>,
}

/// The response is the refusal `x`.
pub open spec fn refused_with<T>(r: (u16, Result<T, ErrorResponse>), x: Refusal) -> bool {
    r.0 == x.status && (r.1 matches Err(e) && e.is(x.code, x.message))
}

/// The response is a refusal for want of a valid signature.
pub open spec fn refused_signature<T>(r: (u16, Result<T, ErrorResponse>)) -> bool {
    r.0 == 403 && (r.1 matches Err(e) && e.code == 403)
}

/// A refusal with the given status and body.
pub fn refuse<T>(status: u16, code: u16, message: &str) -> (r: (u16, Result<T, ErrorResponse>))
    ensures
        refused_with(r, Refusal { status, code, message: message@ }),
{
    (status, Err(ErrorResponse::new(code, message)))
}

} // verus!
