//! Turning reply bytes into text.

use core::str::Utf8Error;
use vstd::prelude::*;
use vstd::string::StringSliceAdditionalSpecFns;
use vstd::utf8::{decode_utf8, encode_utf8_decode_utf8, valid_utf8};

verus! {

/// `core::str::Utf8Error`, what `core::str::from_utf8` says about bytes
/// that are not UTF-8. Nothing here reads it.
#[verifier::external_type_specification]
#[verifier::external_body]
pub struct ExUtf8Error(Utf8Error);

/// `core::str::from_utf8` accepts a slice exactly when it is well-formed
/// UTF-8, and the string it hands back consists of those very bytes. This is
/// what the standard library documents; it is taken on trust here.
pub assume_specification[ core::str::from_utf8 ](v: &[u8]) -> (r: Result<&str, Utf8Error>)
    ensures
        r is Ok <==> valid_utf8(v@),
        r matches Ok(s) ==> s.spec_bytes() == v@,
;

/// The text that `bytes` encode, if they are well-formed UTF-8.
pub open spec fn text_of(bytes: Seq<u8>) -> Option<Seq<char>> {
    if valid_utf8(bytes) {
        Some(decode_utf8(bytes))
    } else {
        None
    }
}

/// Decodes `bytes` as UTF-8 into an owned string; `None` if they are not
/// well-formed.
pub fn utf8_string(bytes: &[u8]) -> (r: Option<String>)
    ensures
        r is Some <==> valid_utf8(bytes@),
        r matches Some(s) ==> text_of(bytes@) == Some(s@),
{
    match core::str::from_utf8(bytes) {
        Ok(s) => {
            proof {
                encode_utf8_decode_utf8(s@);
            }
            Some(s.to_owned())
        },
        Err(_) => None,
    }
}

} // verus!
