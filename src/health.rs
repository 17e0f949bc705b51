use vstd::prelude::*;

verus! {

/// A status code counts as success when it lies in the 2xx class.
pub open spec fn is_success_spec(code: u16) -> bool {
    200 <= code && code <= 299
}

/// Whether an HTTP status code is of the success class (2xx).
pub fn is_success(code: u16) -> (r: bool)
    ensures
        r == is_success_spec(code),
{
    200 <= code && code <= 299
}

/// Health of the server from one health request: `status` is the HTTP
/// status of the response, or `None` when no response came (connection
/// refused, transport failure). Only a 2xx response counts as healthy.
pub fn is_healthy(status: Option<u16>) -> (r: bool)
    ensures
        r == match status {
            Some(code) => is_success_spec(code),
            None => false,
        },
{
    match status {
        Some(code) => is_success(code),
        None => false,
    }
}

} // verus!
