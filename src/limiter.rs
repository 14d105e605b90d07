//! A token-bucket rate limiter with a fixed rate per second, backed by
//! governor's direct (unkeyed) rate limiter.

use vstd::prelude::*;

verus! {

/// governor's direct rate limiter. Verus cannot take its type as it stands
/// (its bounds are governor's own traits), so it is held here, out of view.
#[verifier::external_body]
struct Bucket {
    inner: governor::DefaultDirectRateLimiter,
}

/// Relies on governor's `RateLimiter::direct` with `Quota::per_second`: a
/// fresh unkeyed limiter whose bucket holds `rate` cells and refills `rate`
/// cells per second. `rate` is not zero, so the quota can be built.
#[verifier::external_body]
fn bucket_per_second(rate: u16) -> (r: Bucket)
    requires
        rate > 0,
{
    let per_second = std::num::NonZeroU32::new(rate as u32).unwrap();
    Bucket { inner: governor::RateLimiter::direct(governor::Quota::per_second(per_second)) }
}

/// Relies on governor's `RateLimiter::check`: takes one cell from the bucket
/// if one is there. Whether one is depends on the clock, so nothing is said of
/// the answer.
#[verifier::external_body]
fn bucket_check(bucket: &Bucket) -> (allowed: bool) {
    bucket.inner.check().is_ok()
}

/// Lets a fixed number of permits through per second.
pub struct Limiter {
    bucket: Bucket,
    rate: u16,
}

impl Limiter {
    /// A limiter of `rate` permits per second.
    pub fn new(rate: u16) -> (r: Limiter)
        requires
            rate > 0,
        ensures
            r.rate() == rate,
    {
        Limiter { bucket: bucket_per_second(rate), rate }
    }

    /// The configured number of permits per second.
    pub closed spec fn rate(&self) -> u16 {
        self.rate
    }

    /// The configured number of permits per second.
    pub fn get_rate(&self) -> (r: u16)
        ensures
            r == self.rate(),
    {
        self.rate
    }

    /// Tries to take one permit now; `true` when one was taken. A caller
    /// that must wait for a permit tries again after a short pause.
    pub fn try_acquire(&self) -> (allowed: bool) {
        bucket_check(&self.bucket)
    }
}

} // verus!
