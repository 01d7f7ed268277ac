use vstd::prelude::*;

use getrandom::Error as RandomError;

verus! {

/// The error of the system's random source.
#[verifier::external_type_specification]
#[verifier::external_body]
pub struct ExRandomError(RandomError);

/// `getrandom::fill`: fills `dest` with bytes from the system's random source,
/// or returns the source's error. Claimed here: the slice keeps its length.
/// Nothing is claimed of the bytes, nor of when the call fails.
#[verifier::external_body]
pub(crate) fn fill_random(dest: &mut [u8]) -> (r: Result<(), RandomError>)
    ensures
        final(dest)@.len() == old(dest)@.len(),
{
    getrandom::fill(dest)
}

/// `getrandom::Error::UNEXPECTED`, the error the source reports for an
/// unexpected result. Nothing is claimed of the value.
#[verifier::external_body]
pub(crate) fn unexpected_random_error() -> (r: RandomError) {
    RandomError::UNEXPECTED
}

} // verus!
