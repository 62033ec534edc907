//! Ordering of mask operations against the code around them.

use vstd::prelude::*;

verus! {

/// `std::sync::atomic::fence` with sequentially consistent ordering: what
/// stands before the call in program order is not moved behind it, nor the
/// other way round. It changes no value, so nothing is claimed of it but that
/// it returns.
#[verifier::external_body]
pub(crate) fn full_fence()
    opens_invariants none
    no_unwind
{
    std::sync::atomic::fence(std::sync::atomic::Ordering::SeqCst);
}

} // verus!
