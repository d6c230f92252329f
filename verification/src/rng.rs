use vstd::prelude::*;

verus! {

/// `macroquad::rand::gen_range(0, n)` on `u32`: the next number of the
/// global pseudo-random generator, scaled into [0, n). Which number comes
/// depends on the generator's hidden state; only the range is promised.
#[verifier::external_body]
pub(crate) fn roll_below(n: u32) -> (r: u32)
    requires
        0 < n,
    ensures
        r < n,
{
    macroquad::rand::gen_range(0u32, n)
}

} // verus!
