//! Plain response bodies.
use vstd::prelude::*;

verus! {

/// A status and a human-readable message.
#[derive(Debug)]
pub struct GenericResponse {
    pub status: &'static str,
    pub message: String,
}

/// The status word of a successful response.
pub const STATUS_SUCCESS: &'static str = "success";

/// The status word of a failed response.
pub const STATUS_FAIL: &'static str = "fail";

/// The greeting the service answers on its root route.
pub fn porta_status() -> (r: GenericResponse)
    ensures
        r.status == STATUS_SUCCESS,
        r.message@ == "Porta backend in Rust using Axum"@,
{
    GenericResponse { status: STATUS_SUCCESS, message: String::from_str("Porta backend in Rust using Axum") }
}

} // verus!
