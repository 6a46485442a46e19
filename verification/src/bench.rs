//! Timing one call: run a closure once and report how long it took on
//! the monotonic clock, as one of the library's time spans.

use crate::duration::Duration;
use vstd::prelude::*;

verus! {

#[verifier::external_type_specification]
#[verifier::external_body]
pub struct ExInstant(std::time::Instant);

/// Relies on Instant::now: an opaque monotonic timestamp; nothing is
/// assumed about its value.
#[verifier::external_body]
fn monotonic_now() -> std::time::Instant {
    std::time::Instant::now()
}

/// Relies on Instant::elapsed: the time since the timestamp, handed
/// back as whole seconds and a sub-second part that std documents to
/// stay below one second. The clock decides the value; nothing more is
/// assumed of it.
#[verifier::external_body]
fn elapsed_parts(start: &std::time::Instant) -> (r: (u64, u32))
    ensures
        r.1 < 1_000_000_000,
{
    let elapsed = start.elapsed();
    (elapsed.as_secs(), elapsed.subsec_nanos())
}

/// Executes a closure once and returns its result together with how
/// long the call took.
pub fn time_it<F, U>(f: F) -> (r: (U, Duration)) where F: FnOnce() -> U
    requires
        f.requires(()),
    ensures
        f.ensures((), r.0),
{
    let start = monotonic_now();
    let out = f();
    let (secs, nanos) = elapsed_parts(&start);
    proof {
        vstd::arithmetic::div_mod::lemma_basic_div(nanos as int, 1_000_000_000);
    }
    let took = Duration::new(secs, nanos);
    (out, took)
}

} // verus!
