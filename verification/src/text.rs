//! Byte strings read from the host.

use vstd::prelude::*;
use vstd::utf8::valid_utf8;

verus! {

/// Whether `bytes` is well-formed UTF-8, by `std::str::from_utf8`, which
/// accepts exactly the well-formed UTF-8 sequences.
#[verifier::external_body]
pub(crate) fn is_utf8(bytes: &[u8]) -> (r: bool)
    ensures
        r == valid_utf8(bytes@),
{
    std::str::from_utf8(bytes).is_ok()
}

} // verus!
