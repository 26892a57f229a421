//! What this library believes of the standard library without proof.

use core::str::Utf8Error;
use vstd::prelude::*;

verus! {

/// `core::str::Utf8Error`, the error of `core::str::from_utf8`. Nothing is
/// claimed of what it holds.
#[verifier::external_type_specification]
#[verifier::external_body]
pub struct ExUtf8Error(Utf8Error);

/// `String::push` appends the one character to the end of the string and
/// leaves what was there before as it was.
pub assume_specification[ String::push ](s: &mut String, ch: char)
    ensures
        final(s)@ == old(s)@.push(ch),
;

/// `core::str::from_utf8` succeeds on exactly the byte slices that are valid
/// UTF-8, and the string slice it then returns is made of those same bytes:
/// encoding its characters gives the slice back.
pub assume_specification[ core::str::from_utf8 ](v: &[u8]) -> (r: Result<&str, Utf8Error>)
    ensures
        r is Ok <==> vstd::utf8::valid_utf8(v@),
        r matches Ok(s) ==> vstd::utf8::encode_utf8(s@) == v@,
;

} // verus!
