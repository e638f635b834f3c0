use vstd::prelude::*;

verus! {

/// Relies on time::precise_time_ns: a reading of the monotonic clock, in
/// nanoseconds from an unspecified origin. Nothing is known of its value.
#[verifier::external_body]
pub fn now_ns() -> u64 {
    time::precise_time_ns()
}

} // verus!
