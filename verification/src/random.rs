//! Random bytes from the system's source.

use vstd::prelude::*;

verus! {

/// Fills `buf` with random bytes from the system's source.
///
/// Trusted: calls `getrandom::fill`, which leaves the slice's length as it
/// is. Nothing is said of the bytes, nor of the error text (the `Display`
/// of `getrandom::Error`).
#[verifier::external_body]
pub(crate) fn fill_random(buf: &mut [u8]) -> (r: Result<(), String>)
    ensures
        final(buf)@.len() == old(buf)@.len(),
{
    match getrandom::fill(buf) {
        Ok(()) => Ok(()),
        Err(e) => Err(e.to_string()),
    }
}

}
