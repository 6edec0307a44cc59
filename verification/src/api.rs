//! Decisions of the plain HTTP endpoints: how an API error is answered and
//! which user ids the user lookup knows.
use vstd::prelude::*;
use vstd::string::StringExecFns;
use vstd::string::StrSliceExecFns;
use crate::status::HttpStatus;
use crate::text::{hex_char, hex_text, lemma_uuid_text_len, uuid_text, uuid_to_text};

verus! {

/// Errors of the plain endpoints.
pub enum ApiError {
    NotFound,
    InvalidInput(String),
    InternalError,
}

/// `Data not found`.
pub open spec fn not_found_text() -> Seq<char> {
    seq!['D', 'a', 't', 'a', ' ', 'n', 'o', 't', ' ', 'f', 'o', 'u', 'n', 'd']
}

/// `Internal server error`.
pub open spec fn internal_error_text() -> Seq<char> {
    seq![
        'I', 'n', 't', 'e', 'r', 'n', 'a', 'l', ' ', 's', 'e', 'r', 'v', 'e', 'r', ' ', 'e', 'r',
        'r', 'o', 'r',
    ]
}

/// The status and the message with which an API error is answered.
pub fn error_reply(e: ApiError) -> (r: (HttpStatus, String))
    ensures
        match e {
            ApiError::NotFound => r.0 == HttpStatus::NotFound && r.1@ == not_found_text(),
            ApiError::InvalidInput(msg) => r.0 == HttpStatus::BadRequest && r.1 == msg,
            ApiError::InternalError => r.0 == HttpStatus::InternalServerError && r.1@
                == internal_error_text(),
        },
{
    match e {
        ApiError::NotFound => {
            let m = String::from_str("Data not found");
            proof {
                reveal_strlit("Data not found");
            }
            (HttpStatus::NotFound, m)
        },
        ApiError::InvalidInput(msg) => (HttpStatus::BadRequest, msg),
        ApiError::InternalError => {
            let m = String::from_str("Internal server error");
            proof {
                reveal_strlit("Internal server error");
            }
            (HttpStatus::InternalServerError, m)
        },
    }
}

/// The text of a UUID starts with `1` exactly when its first byte's high
/// nibble is 1.
proof fn lemma_uuid_text_first(b: Seq<u8>)
    requires
        b.len() == 16,
    ensures
        uuid_text(b).len() == 36,
        uuid_text(b)[0] == hex_char((b[0] / 16) as nat),
        (uuid_text(b)[0] == '1') <==> (b[0] / 16 == 1),
{
    lemma_uuid_text_len(b);
    let h = hex_text(b.subrange(0, 4));
    assert(h[0] == hex_char((b.subrange(0, 4)[0] / 16) as nat));
    assert(uuid_text(b)[0] == h[0]);
    let d = (b[0] / 16) as nat;
    assert(d < 16);
    if d < 10 {
        assert(hex_char(d) == ((48 + d) as char));
        assert(((48 + d) as char) as int == 48 + d);
    } else {
        assert(((87 + d) as char) as int == 87 + d);
    }
    assert(('1' as int) == 49);
}

/// The user lookup: only ids whose canonical text starts with `1` are
/// known; any other id is `NotFound`.
pub fn get_user(id: [u8; 16]) -> (r: Result<[u8; 16], ApiError>)
    ensures
        r is Ok <==> uuid_text(id@)[0] == '1',
        r is Ok <==> id@[0] / 16 == 1,
        r matches Ok(found) ==> found == id,
        r is Err ==> r matches Err(ApiError::NotFound),
{
    proof {
        lemma_uuid_text_first(id@);
    }
    let text = uuid_to_text(&id);
    if text.as_str().get_char(0) != '1' {
        return Err(ApiError::NotFound);
    }
    Ok(id)
}

} // verus!
