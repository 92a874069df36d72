//! Decimal rendering of fixed-point coordinates with exactly four
//! fractional digits.
//!
//! A coordinate carries six fractional digits; rendering rounds it half-up
//! to four digits and prints sign, integer digits, a point, and the four
//! fraction digits.

use vstd::prelude::*;
use crate::points::FORMAT_LIMIT;
use crate::transform::div_floor;

verus! {

/// ASCII digit for one decimal value.
pub open spec fn digit_byte(d: int) -> u8 {
    (48 + d) as u8
}

/// Decimal digits of a natural number, most significant first.
pub open spec fn dec_digits(n: nat) -> Seq<u8>
    decreases n,
{
    if n < 10 {
        seq![digit_byte(n as int)]
    } else {
        dec_digits(n / 10).push(digit_byte((n % 10) as int))
    }
}

/// The four fraction digits of `f`, zero-padded, for `0 <= f < 10000`.
pub open spec fn frac4_digits(f: int) -> Seq<u8> {
    seq![
        digit_byte(f / 1000),
        digit_byte((f / 100) % 10),
        digit_byte((f / 10) % 10),
        digit_byte(f % 10),
    ]
}

/// Half-up rounding from six to four fractional digits.
pub open spec fn round4(v: int) -> int {
    (v + 50) / 100
}

/// Rendering of a non-negative four-fraction-digit value `m`.
pub open spec fn unsigned_fmt(m: nat) -> Seq<u8> {
    dec_digits(m / 10000) + seq![46u8] + frac4_digits((m % 10000) as int)
}

/// Rendering of a six-fraction-digit coordinate: rounded half-up to four
/// fractional digits, with a leading minus sign when the rounded value is
/// negative.
pub open spec fn fmt4(v: int) -> Seq<u8> {
    if round4(v) < 0 {
        seq![45u8] + unsigned_fmt((-round4(v)) as nat)
    } else {
        unsigned_fmt(round4(v) as nat)
    }
}

/// Append the decimal digits of `n`.
fn push_digits(out: &mut Vec<u8>, n: u64)
    ensures
        final(out)@ == old(out)@ + dec_digits(n as nat),
    decreases n,
{
    if n < 10 {
        out.push(48 + n as u8);
        proof {
            assert(out@ =~= old(out)@ + dec_digits(n as nat));
        }
    } else {
        proof {
            assert(n / 10 < n) by (nonlinear_arith)
                requires
                    n >= 10,
            {}
        }
        push_digits(out, n / 10);
        out.push(48 + (n % 10) as u8);
        proof {
            assert(48 + (n % 10) as u8 == digit_byte((n as nat % 10) as int));
            assert(out@ =~= old(out)@ + dec_digits(n as nat));
        }
    }
}

/// Render one coordinate with exactly four fractional digits.
pub fn fmt_coord(v: i64) -> (r: Vec<u8>)
    requires
        -FORMAT_LIMIT <= v <= FORMAT_LIMIT,
    ensures
        r@ == fmt4(v as int),
{
    let rounded = div_floor(v + 50, 100);
    proof {
        assert(rounded as int == round4(v as int));
        vstd::arithmetic::div_mod::lemma_div_is_ordered(
            v as int + 50,
            FORMAT_LIMIT as int + 50,
            100,
        );
        vstd::arithmetic::div_mod::lemma_div_is_ordered(
            -(FORMAT_LIMIT as int),
            v as int + 50,
            100,
        );
    }
    let mut out: Vec<u8> = Vec::new();
    let m: u64 = if rounded < 0 {
        out.push(45);
        (-rounded) as u64
    } else {
        rounded as u64
    };
    let whole = m / 10000;
    let frac = m % 10000;
    push_digits(&mut out, whole);
    out.push(46);
    out.push(48 + (frac / 1000) as u8);
    out.push(48 + ((frac / 100) % 10) as u8);
    out.push(48 + ((frac / 10) % 10) as u8);
    out.push(48 + (frac % 10) as u8);
    proof {
        assert(whole as nat == (m as nat) / 10000);
        assert(frac as nat == (m as nat) % 10000);
        assert(out@ =~= fmt4(v as int));
    }
    out
}

} // verus!
