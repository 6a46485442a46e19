//! A transferred byte count, with addition and a human-readable text
//! form using binary multiples (1024) and two decimal places.

use crate::digits::{dec_str, push_char, push_u64};
use vstd::prelude::*;
use vstd::string::StringExecFns;

verus! {

pub const KILO: u64 = 1024;

pub const MEGA: u64 = 1048576;

pub const GIGA: u64 = 1073741824;

/// A byte count observed on the wire.
#[derive(Debug, Clone, Copy, PartialEq, Eq, Structural)]
pub struct ContentLength {
    bytes: u64,
}

/// The byte count scaled by a unit, rounded half-up to hundredths:
/// the number that prints with two decimal places.
pub open spec fn scaled_hundredths(bytes: int, unit: int) -> int {
    (bytes * 200 + unit) / (2 * unit)
}

/// The text of a hundredths count, as `whole.fraction` with the
/// fraction always two digits wide.
pub open spec fn two_decimals_str(h: int) -> Seq<char> {
    dec_str((h / 100) as nat) + seq!['.'] + (if h % 100 < 10 {
        seq!['0']
    } else {
        Seq::empty()
    }) + dec_str((h % 100) as nat)
}

/// The human-readable text of a byte count: plain bytes up to a
/// kibibyte, then `KB`, `MB` and `GB` with strictly-greater-than
/// thresholds and two decimal places.
pub open spec fn human_text(bytes: int) -> Seq<char> {
    if bytes > GIGA {
        two_decimals_str(scaled_hundredths(bytes, GIGA as int)) + seq![' ', 'G', 'B']
    } else if bytes > MEGA {
        two_decimals_str(scaled_hundredths(bytes, MEGA as int)) + seq![' ', 'M', 'B']
    } else if bytes > KILO {
        two_decimals_str(scaled_hundredths(bytes, KILO as int)) + seq![' ', 'K', 'B']
    } else {
        dec_str(bytes as nat) + seq![' ', 'B']
    }
}

impl ContentLength {
    pub closed spec fn spec_bytes(&self) -> u64 {
        self.bytes
    }

    pub fn new(bytes: u64) -> (c: ContentLength)
        ensures
            c.spec_bytes() == bytes,
    {
        ContentLength { bytes }
    }

    pub fn zero() -> (c: ContentLength)
        ensures
            c.spec_bytes() == 0,
    {
        ContentLength { bytes: 0 }
    }

    pub fn bytes(&self) -> (b: u64)
        ensures
            b == self.spec_bytes(),
    {
        self.bytes
    }

    /// The sum of two byte counts.
    pub fn add(&self, other: &ContentLength) -> (c: ContentLength)
        requires
            self.spec_bytes() + other.spec_bytes() <= u64::MAX,
        ensures
            c.spec_bytes() == self.spec_bytes() + other.spec_bytes(),
    {
        ContentLength { bytes: self.bytes + other.bytes }
    }

    /// Renders the count for people: `B` below the first threshold,
    /// then `KB`, `MB`, `GB` with two decimal places.
    pub fn human_readable(&self) -> (r: String)
        ensures
            r@ == human_text(self.spec_bytes() as int),
    {
        let mut s = String::new();
        if self.bytes > GIGA {
            push_scaled(&mut s, self.bytes, GIGA);
            s.append(" GB");
            proof {
                reveal_strlit(" GB");
                assert(" GB"@ =~= seq![' ', 'G', 'B']);
            }
        } else if self.bytes > MEGA {
            push_scaled(&mut s, self.bytes, MEGA);
            s.append(" MB");
            proof {
                reveal_strlit(" MB");
                assert(" MB"@ =~= seq![' ', 'M', 'B']);
            }
        } else if self.bytes > KILO {
            push_scaled(&mut s, self.bytes, KILO);
            s.append(" KB");
            proof {
                reveal_strlit(" KB");
                assert(" KB"@ =~= seq![' ', 'K', 'B']);
            }
        } else {
            push_u64(&mut s, self.bytes);
            s.append(" B");
            proof {
                reveal_strlit(" B");
                assert(" B"@ =~= seq![' ', 'B']);
            }
        }
        s
    }
}

/// Appends the two-decimal text of a byte count scaled by a unit.
fn push_scaled(s: &mut String, bytes: u64, unit: u64)
    requires
        1024 <= unit,
    ensures
        final(s)@ == old(s)@ + two_decimals_str(scaled_hundredths(bytes as int, unit as int)),
{
    let wide: u128 = (bytes as u128 * 200 + unit as u128) / (2 * unit as u128);
    proof {
        vstd::arithmetic::div_mod::lemma_div_is_ordered(
            bytes as int * 200 + unit,
            u64::MAX as int * 200 + unit,
            2 * unit as int,
        );
        vstd::arithmetic::div_mod::lemma_div_is_ordered_by_denominator(
            u64::MAX as int * 200 + unit,
            2048,
            2 * unit as int,
        );
    }
    let h: u64 = wide as u64;
    push_u64(s, h / 100);
    push_char(s, '.');
    if h % 100 < 10 {
        push_char(s, '0');
    }
    push_u64(s, h % 100);
}

/// The spec-level sum of two byte counts.
pub open spec fn added_bytes(a: ContentLength, b: ContentLength) -> int {
    a.spec_bytes() + b.spec_bytes()
}

/// Adding byte counts is commutative.
pub proof fn lemma_add_commutative(a: ContentLength, b: ContentLength)
    ensures
        added_bytes(a, b) == added_bytes(b, a),
{
}

/// Adding byte counts is associative.
pub proof fn lemma_add_associative(a: ContentLength, b: ContentLength, c: ContentLength)
    ensures
        added_bytes(a, b) + c.spec_bytes() == a.spec_bytes() + added_bytes(b, c),
{
}

/// The zero count is the identity of addition.
pub proof fn lemma_add_identity(a: ContentLength, z: ContentLength)
    requires
        z.spec_bytes() == 0,
    ensures
        added_bytes(a, z) == a.spec_bytes(),
{
}

} // verus!
