//! The bodies that answer requests which no handler took or which failed.

use vstd::prelude::*;
use crate::requests::ErrorResponse;

verus! {

/// The body for a failure inside the service.
pub fn internal_server_error() -> (r: ErrorResponse)
    ensures
        r.is(500, "Internal server error"@),
{
    ErrorResponse::new(500, "Internal server error")
}

/// The body for a path that does not exist.
pub fn not_found() -> (r: ErrorResponse)
    ensures
        r.is(404, "Not Found"@),
{
    ErrorResponse::new(404, "Not Found")
}

/// The body for a request that cannot be read.
pub fn malformed() -> (r: ErrorResponse)
    ensures
        r.is(422, "Malformed Request"@),
{
    ErrorResponse::new(422, "Malformed Request")
}

/// The statuses that are caught, each with its body: 500, 404 and 422.
pub fn get_catchers() -> (r: Vec<(u16, ErrorResponse)>)
    ensures
        r@.len() == 3,
        r@[0].0 == 500 && r@[0].1.is(500, "Internal server error"@),
        r@[1].0 == 404 && r@[1].1.is(404, "Not Found"@),
        r@[2].0 == 422 && r@[2].1.is(422, "Malformed Request"@),
{
    let mut out: Vec<(u16, ErrorResponse)> = Vec::new();
    out.push((500, internal_server_error()));
    out.push((404, not_found()));
    out.push((422, malformed()));
    out
}

} // verus!
