//! The client's side of an exchange: what it makes of the server's reply.
use vstd::prelude::*;
use vstd::utf8::*;
use crate::data::string_from_utf8;

verus! {

/// Why a reply could not be taken as text.
#[derive(Debug, PartialEq, Eq, Structural)]
pub enum ReplyError {
    /// The reply is not valid UTF-8.
    InvalidUtf8,
}

/// The reply as text: its UTF-8 decoding, or `InvalidUtf8` exactly when it is not
/// valid UTF-8.
pub fn decode_reply(bytes: Vec<u8>) -> (r: Result<String, ReplyError>)
    ensures
        r is Ok <==> valid_utf8(bytes@),
        r matches Ok(s) ==> s@ == decode_utf8(bytes@),
        r matches Err(e) ==> e == ReplyError::InvalidUtf8,
{
    match string_from_utf8(bytes) {
        Ok(s) => Ok(s),
        Err(_) => Err(ReplyError::InvalidUtf8),
    }
}

} // verus!
