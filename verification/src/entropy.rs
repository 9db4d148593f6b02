use rand::Rng;
use vstd::prelude::*;

verus! {

/// One byte from `rand::thread_rng()`, drawn with `Rng::gen`.
///
/// Nothing is claimed of the byte: the generator is seeded by the operating
/// system, so any of the 256 values may come back, and two calls need not
/// agree.
#[verifier::external_body]
pub(crate) fn random_byte() -> (byte: u8) {
    rand::thread_rng().gen()
}

} // verus!
