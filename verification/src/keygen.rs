//! The random source that mask keys are drawn from.

use vstd::prelude::*;

verus! {

/// The error type of the `getrandom` crate. Nothing is known of a value of it.
#[verifier::external_type_specification]
#[verifier::external_body]
pub struct ExGetrandomError(getrandom::Error);

/// `getrandom::fill` overwrites `dest` with bytes from the system's random
/// source, or fails. Claimed: `dest` keeps its length, whatever the outcome;
/// and an empty `dest` always succeeds, as the function then returns at once
/// without asking the system. Nothing is claimed of the bytes, nor of when a
/// call on a buffer that is not empty succeeds.
pub assume_specification[ getrandom::fill ](dest: &mut [u8]) -> (outcome: Result<
    (),
    getrandom::Error,
>)
    ensures
        final(dest)@.len() == old(dest)@.len(),
        old(dest)@.len() == 0 ==> outcome is Ok,
;

/// The random source could not supply a key. No cell is made or rekeyed
/// without one.
#[derive(Debug)]
pub struct KeygenError {
    /// What the random source reported.
    pub source: getrandom::Error,
}

/// Draws a fresh key of `N` bytes from the random source. A key of no bytes
/// takes no randomness and is always had.
pub(crate) fn fresh_key<const N: usize>() -> (outcome: Result<[u8; N], KeygenError>)
    ensures
        N == 0 ==> outcome is Ok,
{
    let mut key: [u8; N] = [0u8; N];
    match getrandom::fill(&mut key) {
        Ok(()) => Ok(key),
        Err(source) => Err(KeygenError { source }),
    }
}

} // verus!
