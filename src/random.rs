//! The random source: draws from rand's seedable standard generator.

use rand::rngs::StdRng;
use rand::Rng;
use vstd::prelude::*;

verus! {

/// rand's seedable standard generator, carried through as an opaque value.
#[verifier::external_type_specification]
#[verifier::external_body]
pub struct ExStdRng(StdRng);

/// Relies on rand's `Rng::gen_range` over `low..high`: a value of that
/// half-open range, which must not be empty (it panics on an empty one).
#[verifier::external_body]
pub(crate) fn draw_u128(rng: &mut StdRng, low: u128, high: u128) -> (r: u128)
    requires
        low < high,
    ensures
        low <= r < high,
{
    rng.gen_range(low..high)
}

/// Relies on rand's `Rng::gen_range` over `0..len`: an index below `len`,
/// which must be positive (it panics on an empty range).
#[verifier::external_body]
pub(crate) fn draw_index(rng: &mut StdRng, len: usize) -> (r: usize)
    requires
        0 < len,
    ensures
        r < len,
{
    rng.gen_range(0..len)
}

/// Relies on rand's `Rng::gen::<bool>`: a fair coin flip; nothing more is known.
#[verifier::external_body]
pub(crate) fn draw_bool(rng: &mut StdRng) -> (r: bool) {
    rng.gen::<bool>()
}

} // verus!
