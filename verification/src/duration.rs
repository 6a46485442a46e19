//! A span of wall-clock time, held as whole seconds plus a sub-second
//! nanosecond part. The view of a span is its total length in
//! nanoseconds, and every contract about timing statistics speaks in
//! that unit.

use vstd::prelude::*;

verus! {

pub const NANOS_PER_SEC: u32 = 1_000_000_000;

/// A non-negative time span with nanosecond resolution.
#[derive(Debug, Clone, Copy, PartialEq, Eq, PartialOrd, Ord, Hash)]
pub struct Duration {
    secs: u64,
    nanos: u32,
}

impl View for Duration {
    type V = int;

    /// The whole span in nanoseconds.
    closed spec fn view(&self) -> int {
        self.secs * 1_000_000_000 + self.nanos
    }
}

impl Duration {
    /// The nanosecond part always stays below one second.
    #[verifier::type_invariant]
    pub closed spec fn wf(&self) -> bool {
        self.nanos < 1_000_000_000
    }

    /// Builds a span out of seconds and nanoseconds; nanoseconds of a
    /// second or more carry over into the seconds.
    pub fn new(secs: u64, nanos: u32) -> (d: Duration)
        requires
            secs + nanos as int / 1_000_000_000 <= u64::MAX,
        ensures
            d@ == secs * 1_000_000_000 + nanos,
    {
        let carry: u32 = nanos / NANOS_PER_SEC;
        let d = Duration { secs: secs + carry as u64, nanos: nanos % NANOS_PER_SEC };
        proof {
            vstd::arithmetic::div_mod::lemma_fundamental_div_mod(nanos as int, 1_000_000_000);
        }
        d
    }

    /// Builds a span from a total nanosecond count.
    pub fn from_nanos(ns: u128) -> (d: Duration)
        requires
            ns as int / 1_000_000_000 <= u64::MAX,
        ensures
            d@ == ns,
    {
        let secs: u64 = (ns / 1_000_000_000) as u64;
        let nanos: u32 = (ns % 1_000_000_000) as u32;
        proof {
            vstd::arithmetic::div_mod::lemma_fundamental_div_mod(ns as int, 1_000_000_000);
        }
        Duration { secs, nanos }
    }

    /// The whole span in nanoseconds, as a machine integer.
    pub fn total_nanos(&self) -> (n: u128)
        ensures
            n == self@,
    {
        self.secs as u128 * 1_000_000_000 + self.nanos as u128
    }

    /// The whole seconds of the span.
    pub fn as_secs(&self) -> (s: u64)
        ensures
            s == self@ / 1_000_000_000,
    {
        proof {
            use_type_invariant(self);
            vstd::arithmetic::div_mod::lemma_fundamental_div_mod_converse(
                self@,
                1_000_000_000,
                self.secs as int,
                self.nanos as int,
            );
        }
        self.secs
    }

    /// The nanoseconds of the span below the last whole second.
    pub fn subsec_nanos(&self) -> (n: u32)
        ensures
            n == self@ % 1_000_000_000,
    {
        proof {
            use_type_invariant(self);
            vstd::arithmetic::div_mod::lemma_fundamental_div_mod_converse(
                self@,
                1_000_000_000,
                self.secs as int,
                self.nanos as int,
            );
        }
        self.nanos
    }

    /// A span is never negative.
    pub proof fn lemma_view_nonnegative(&self)
        ensures
            self@ >= 0,
    {
    }

    /// A well-formed span never exceeds the largest representable one:
    /// the largest second count plus a sub-second part.
    pub proof fn lemma_view_cap(&self)
        requires
            self.wf(),
        ensures
            self@ <= u64::MAX * 1_000_000_000 + 999_999_999,
    {
    }

    /// Whether this span is no longer than the other.
    pub fn le(&self, other: &Duration) -> (b: bool)
        ensures
            b == (self@ <= other@),
    {
        self.total_nanos() <= other.total_nanos()
    }
}

} // verus!
