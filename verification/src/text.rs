//! From the bytes of a file to its text.

use vstd::prelude::*;
use vstd::utf8::{decode_utf8, valid_utf8};
use crate::error::Error;

verus! {

/// Calls `String::from_utf8`.
///
/// Believed of it: it returns the text that the bytes encode where they are
/// valid UTF-8, and fails on all other bytes.
#[verifier::external_body]
fn from_utf8(bytes: Vec<u8>) -> (text: Option<String>)
    ensures
        text is Some <==> valid_utf8(bytes@),
        text matches Some(s) ==> s@ == decode_utf8(bytes@),
{
    String::from_utf8(bytes).ok()
}

/// The text that `bytes` encode.  Bytes that are not valid UTF-8 fail with
/// `Error::Encoding`.
pub fn decode_text(bytes: Vec<u8>) -> (text: Result<String, Error>)
    ensures
        valid_utf8(bytes@) ==> (text matches Ok(s) && s@ == decode_utf8(bytes@)),
        !valid_utf8(bytes@) ==> text matches Err(Error::Encoding),
{
    match from_utf8(bytes) {
        Some(text) => Ok(text),
        None => Err(Error::Encoding),
    }
}

} // verus!
