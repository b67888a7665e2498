use vstd::prelude::*;

verus! {

/// Relies on rand's `Rng::gen_ratio` on the thread-local generator: true with
/// probability `numerator / denominator`. It panics unless
/// `0 < denominator` and `numerator <= denominator`; it always returns true
/// when the two are equal and always false when `numerator` is 0.
#[verifier::external_body]
pub(crate) fn gen_ratio(numerator: u32, denominator: u32) -> (r: bool)
    requires
        0 < denominator,
        numerator <= denominator,
    ensures
        numerator == denominator ==> r,
        numerator == 0 ==> !r,
{
    rand::Rng::gen_ratio(&mut rand::thread_rng(), numerator, denominator)
}

/// Relies on rand's `SliceRandom::choose` on the thread-local generator: one
/// element of the slice, `None` only for an empty slice.
#[verifier::external_body]
pub(crate) fn choose_glyph(set: &[char]) -> (r: char)
    requires
        set@.len() > 0,
    ensures
        set@.contains(r),
{
    *rand::seq::SliceRandom::choose(set, &mut rand::thread_rng()).unwrap()
}

} // verus!
