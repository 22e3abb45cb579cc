use vstd::prelude::*;
use rand::rngs::StdRng;
use rand::Rng;

verus! {

/// rand's standard generator, carried through opaquely.
#[verifier::external_type_specification]
#[verifier::external_body]
pub struct ExStdRng(StdRng);

/// Relies on rand's `Rng::gen_range` over `0..n`: a value below `n`; the
/// range must not be empty, or the call panics.
#[verifier::external_body]
pub(crate) fn draw_below(rng: &mut StdRng, n: u64) -> (r: u64)
    requires
        n > 0,
    ensures
        r < n,
{
    rng.gen_range(0..n)
}

/// Relies on rand's `Rng::gen::<bool>`: a fair coin, nothing known of which side.
#[verifier::external_body]
pub(crate) fn draw_flag(rng: &mut StdRng) -> bool {
    rng.gen::<bool>()
}

} // verus!
