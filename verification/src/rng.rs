//! Random bytes from the platform.
use vstd::prelude::*;

verus! {

/// Fills `buf` with bytes from `getrandom::getrandom`. Nothing is claimed of
/// the bytes but their number; should the platform source fail, the bytes
/// that were in `buf` stay.
#[verifier::external_body]
pub(crate) fn fill_random(buf: &mut [u8])
    ensures
        final(buf)@.len() == old(buf)@.len(),
{
    let _ = getrandom::getrandom(buf);
}

} // verus!
