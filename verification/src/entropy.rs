//! The random source. This is the one place where the library leaves
//! verified code: what the operating system hands out cannot be proved.

use vstd::prelude::*;

verus! {

/// Draws a random number of 32 bits, or nothing where the random source of
/// the system cannot be read.
///
/// Calls `getrandom::fill` on a buffer of four bytes. Where the call
/// succeeds the bytes are read as one number in the byte order of the
/// machine; where it reports an error there is no number. The contract
/// claims nothing about the outcome: any number may come back, or none.
#[verifier::external_body]
pub(crate) fn draw() -> (drawn: Option<u32>) {
    let mut buf = [0u8; 4];
    match getrandom::fill(&mut buf) {
        Ok(()) => Some(u32::from_ne_bytes(buf)),
        Err(_) => None,
    }
}

} // verus!
