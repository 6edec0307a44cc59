use vstd::prelude::*;

verus! {

/// The HTTP status codes that the server answers with.
#[derive(Clone, Copy, Debug, PartialEq, Eq, Structural)]
pub enum HttpStatus {
    BadRequest,
    Unauthorized,
    NotFound,
    Conflict,
    InternalServerError,
    NotImplemented,
}

/// Numeric value of a status, as sent on the wire.
pub open spec fn status_code(s: HttpStatus) -> u16 {
    match s {
        HttpStatus::BadRequest => 400,
        HttpStatus::Unauthorized => 401,
        HttpStatus::NotFound => 404,
        HttpStatus::Conflict => 409,
        HttpStatus::InternalServerError => 500,
        HttpStatus::NotImplemented => 501,
    }
}

impl HttpStatus {
    /// The numeric HTTP code of this status.
    pub fn code(&self) -> (c: u16)
        ensures
            c == status_code(*self),
    {
        match self {
            HttpStatus::BadRequest => 400,
            HttpStatus::Unauthorized => 401,
            HttpStatus::NotFound => 404,
            HttpStatus::Conflict => 409,
            HttpStatus::InternalServerError => 500,
            HttpStatus::NotImplemented => 501,
        }
    }
}

} // verus!
