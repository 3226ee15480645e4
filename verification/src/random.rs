//! The process-wide source of cryptographically strong randomness.

use vstd::prelude::*;

use crate::errors::RandomGenerationError;

verus! {

/// Draws `length` bytes from the operating system's CSPRNG.
///
/// Relies on `ring::rand::SystemRandom` and `ring::rand::SecureRandom::fill`,
/// which fills the whole buffer on success and reports an unspecified error
/// when the entropy source rejects the request.  Nothing can be promised
/// about the bytes themselves.
#[verifier::external_body]
pub fn generate_random(length: usize) -> (r: Result<Vec<u8>, RandomGenerationError>)
    ensures
        r is Ok ==> r->Ok_0@.len() == length,
{
    let mut buf = vec![0u8; length];
    let rng = ring::rand::SystemRandom::new();
    match ring::rand::SecureRandom::fill(&rng, &mut buf) {
        Ok(()) => Ok(buf),
        Err(_) => Err(RandomGenerationError),
    }
}

} // verus!
