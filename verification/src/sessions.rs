//! Checking that a session exists.
use vstd::prelude::*;
use crate::status::HttpStatus;

verus! {

/// Decision on the number of session rows with a given token (`None` when
/// the database failed): whether the session is known.
pub open spec fn session_known(count: Option<i64>) -> Result<bool, HttpStatus> {
    match count {
        None => Err(HttpStatus::InternalServerError),
        Some(n) => Ok(n > 0),
    }
}

/// Whether the session is known, given how many session rows carry its
/// token; a database failure (`None`) is answered `InternalServerError`.
pub fn verify_session(count: Option<i64>) -> (r: Result<bool, HttpStatus>)
    ensures
        r == session_known(count),
{
    match count {
        None => Err(HttpStatus::InternalServerError),
        Some(n) => Ok(n > 0),
    }
}

} // verus!
