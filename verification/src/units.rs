//! Unit scaling: mapping a raw byte magnitude to a small fixed-point value
//! together with a unit exponent (B, KB, MB, GB, TB).

use vstd::prelude::*;

verus! {

/// `base` raised to `exp`, as a mathematical integer.
pub open spec fn pow_spec(base: int, exp: nat) -> int
    decreases exp,
{
    if exp == 0 {
        1
    } else {
        base * pow_spec(base, (exp - 1) as nat)
    }
}

/// The unit exponent chosen for a magnitude: the largest `e` in `0..=4` such
/// that `m` reaches `base^e`, with `base^4` as the ceiling. A magnitude equal
/// to a power boundary resolves to that power's exponent (`m == base` yields
/// 1, not 0), and `exp_of(0, base) == 0`.
pub open spec fn exp_of(m: u64, base: u64) -> u32 {
    if m >= pow_spec(base as int, 4) {
        4
    } else if m >= pow_spec(base as int, 3) {
        3
    } else if m >= pow_spec(base as int, 2) {
        2
    } else if m >= base {
        1
    } else {
        0
    }
}

/// The fixed-point scaled value: `m / base^e` in tenths, truncated, and
/// saturated to the 16-bit wire field.
pub open spec fn scale_of(m: u64, e: u32, base: u64) -> int {
    let q = (m * 10) / pow_spec(base as int, e as nat);
    if q > 65535 {
        65535
    } else {
        q
    }
}

/// The human-readable label for a unit exponent; `"UB"` is the defensive
/// fallback for an exponent outside `0..=4`.
pub open spec fn unit_label_spec(e: u32) -> Seq<char> {
    if e == 0 {
        "B"@
    } else if e == 1 {
        "KB"@
    } else if e == 2 {
        "MB"@
    } else if e == 3 {
        "GB"@
    } else if e == 4 {
        "TB"@
    } else {
        "UB"@
    }
}

/// The unit label packed into the record's 4-byte field: the label's ASCII
/// bytes, zero-padded on the right.
pub open spec fn unit_bytes_spec(e: u32) -> Seq<u8> {
    let label = unit_label_spec(e);
    Seq::new(4, |i: int| if i < label.len() { label[i] as u8 } else { 0u8 })
}

/// The four powers `base^1..=base^4` all fit in `u64` when `base <= 65535`,
/// and agree with the products a caller computes; from base 2 on they form
/// a strictly increasing ladder.
pub proof fn lemma_pow4_bounds(base: u64)
    requires
        base <= 65535,
    ensures
        pow_spec(base as int, 1) == base,
        pow_spec(base as int, 2) == base * base,
        pow_spec(base as int, 3) == base * base * base,
        pow_spec(base as int, 4) == base * base * base * base,
        base * base * base * base <= u64::MAX,
        2 <= base ==> base < base * base < base * base * base < base * base * base * base,
{
    assert(pow_spec(base as int, 1) == base * pow_spec(base as int, 0));
    assert(pow_spec(base as int, 2) == base * pow_spec(base as int, 1));
    assert(pow_spec(base as int, 3) == base * pow_spec(base as int, 2));
    assert(pow_spec(base as int, 4) == base * pow_spec(base as int, 3));
    assert((base * base) * base == base * (base * base)) by (nonlinear_arith);
    assert(((base * base) * base) * base == base * (base * (base * base)))
        by (nonlinear_arith);
    assert(base * base * base * base <= 65535u64 * 65535 * 65535 * 65535)
        by (nonlinear_arith)
        requires
            base <= 65535,
    ;
    if 2 <= base {
        assert(base < base * base < base * base * base < base * base * base * base)
            by (nonlinear_arith)
            requires
                2 <= base,
        ;
    }
}

/// The exponent is monotonically non-decreasing in the magnitude, and the
/// zero magnitude always maps to exponent 0.
pub proof fn lemma_exponent_monotone(m1: u64, m2: u64, base: u64)
    requires
        2 <= base <= 65535,
        m1 <= m2,
    ensures
        exp_of(m1, base) <= exp_of(m2, base),
        exp_of(0, base) == 0,
{
    lemma_pow4_bounds(base);
}

/// Round trip through the scaler with base 1024: as long as the magnitude
/// stays below `1024^5`, the scaled value for the magnitude's own exponent
/// fits the fixed-point encoding, i.e. lies in `[0, 10240)`. (At `1024^5`
/// itself the scaled value reaches exactly 10240.)
pub proof fn lemma_scale_round_trip(m: u64)
    requires
        m < 0x4000000000000u64,
    ensures
        0 <= scale_of(m, exp_of(m, 1024), 1024) < 10240,
{
    lemma_pow4_bounds(1024);
    let e = exp_of(m, 1024);
    let p = pow_spec(1024, e as nat);
    assert((m as int) * 10 < 10240 * p);
    vstd::arithmetic::div_mod::lemma_fundamental_div_mod(m as int * 10, p);
    let q = (m as int * 10) / p;
    assert(0 <= q < 10240) by (nonlinear_arith)
        requires
            p > 0,
            m as int * 10 < 10240 * p,
            0 <= m as int * 10,
            m as int * 10 == p * q + (m as int * 10) % p,
            0 <= (m as int * 10) % p < p,
    ;
}

} // verus!
