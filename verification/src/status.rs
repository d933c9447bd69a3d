//! Classification of the status codes with which a repository answers.

use vstd::prelude::*;

verus! {

/// The status with which a repository reports that an object does not exist.
pub const NOT_FOUND: u16 = 404;

/// The status with which a repository refuses to replace an existing
/// configuration.
pub const FORBIDDEN: u16 = 403;

/// A status in the range 200 to 299.
pub open spec fn success_code(status: u16) -> bool {
    200 <= status <= 299
}

/// Whether `status` reports success.
#[verifier::when_used_as_spec(success_code)]
pub fn is_success(status: u16) -> (ok: bool)
    ensures
        ok == success_code(status),
{
    200 <= status && status <= 299
}

} // verus!
