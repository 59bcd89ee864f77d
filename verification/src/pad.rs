//! The pad generator: produces a buffer of cryptographically random bytes,
//! sourced from the operating system's secure randomness source.

use vstd::prelude::*;

verus! {

/// Relies on `rand_core::OsRng::fill_bytes` (via `rand::rngs::OsRng`): it
/// overwrites the whole slice with bytes drawn from the operating system's
/// randomness source. A slice's length cannot change, so the buffer keeps
/// its length; nothing can be promised about the bytes themselves. The call
/// aborts the process only if the system's randomness source itself fails.
#[verifier::external_body]
fn fill_random(buf: &mut Vec<u8>)
    ensures
        final(buf)@.len() == old(buf)@.len(),
{
    rand::RngCore::fill_bytes(&mut rand::rngs::OsRng, buf.as_mut_slice());
}

/// Returns exactly `size` cryptographically random bytes.
pub fn generate(size: usize) -> (pad: Vec<u8>)
    ensures
        pad@.len() == size,
{
    let mut pad: Vec<u8> = Vec::new();
    let mut i: usize = 0;
    while i < size
        invariant
            i <= size,
            pad@.len() == i,
        decreases size - i,
    {
        pad.push(0u8);
        i = i + 1;
    }
    fill_random(&mut pad);
    pad
}

} // verus!
