use vstd::prelude::*;

verus! {

/// Relies on time::precise_time_ns: a reading of a high-resolution clock (the
/// monotonic clock on Unix), in nanoseconds from an unspecified origin.
/// Nothing is known of its value.
#[verifier::external_body]
pub(crate) fn monotonic_now_ns() -> (r: u64) {
    time::precise_time_ns()
}

} // verus!
