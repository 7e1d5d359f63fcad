//! Trusted bridges to std's text machinery: reading a `str` back out of its
//! UTF-8 bytes, and the debug-quoted rendering of a `str`.

use vstd::prelude::*;
use vstd::string::StringSliceAdditionalSpecFns;
use vstd::utf8::valid_utf8;

verus! {

/// The debug-quoted rendering of a text: the character sequence that std's
/// `Debug` formatting of `str` produces, surrounding quotes included. It is a
/// function of the characters alone.
pub uninterp spec fn debug_quoted(text: Seq<char>) -> Seq<char>;

/// Relies on core::str::from_utf8: it returns `Ok` exactly on valid UTF-8,
/// and the returned `str` is backed by the given bytes unchanged.
#[verifier::external_body]
pub fn bytes_as_str(v: &[u8]) -> (r: &str)
    requires
        valid_utf8(v@),
    ensures
        r.spec_bytes() == v@,
{
    core::str::from_utf8(v).unwrap()
}

/// Relies on the `Debug` impl of `str`: its output is a deterministic
/// function of the characters.
#[verifier::external_body]
pub fn quote_debug(s: &str) -> (r: String)
    ensures
        r@ == debug_quoted(s@),
{
    format!("{:?}", s)
}

} // verus!
