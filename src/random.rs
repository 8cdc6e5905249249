use vstd::prelude::*;

verus! {

/// Relies on rand::Rng::gen_range over an inclusive range, drawn from
/// rand::thread_rng: some value in `[low, high]`. It panics on an empty range,
/// which `requires` leaves out.
#[verifier::external_body]
pub(crate) fn random_between(low: i64, high: i64) -> (r: i64)
    requires
        low <= high,
    ensures
        low <= r <= high,
{
    rand::Rng::gen_range(&mut rand::thread_rng(), low..=high)
}

/// Relies on rand::Rng::gen_ratio, drawn from rand::thread_rng: `true` with
/// chance `numerator / denominator`; never for a zero numerator, always when
/// the two are equal. It panics on a zero denominator or a numerator above
/// it, which `requires` leaves out.
#[verifier::external_body]
pub(crate) fn random_chance(numerator: u32, denominator: u32) -> (r: bool)
    requires
        0 < denominator,
        numerator <= denominator,
    ensures
        numerator == 0 ==> !r,
        numerator == denominator ==> r,
{
    rand::Rng::gen_ratio(&mut rand::thread_rng(), numerator, denominator)
}

} // verus!
