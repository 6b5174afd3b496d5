//! Amounts of money. The application computes them as IEEE-754 binary64
//! values; here an amount is held by the bit pattern of that value together
//! with its rendering to two decimals, and the comparisons and conversions
//! that the tray needs are stated over the bit pattern.

use vstd::prelude::*;
use vstd::arithmetic::power2::*;
use vstd::bits::*;
use vstd::arithmetic::div_mod::{lemma_div_denominator, lemma_div_is_ordered, lemma_div_multiples_vanish, lemma_div_nonincreasing};
use vstd::arithmetic::mul::{lemma_mul_inequality, lemma_mul_is_associative, lemma_mul_is_commutative};
use crate::text::{decimal, decimal_text};

verus! {

/// An amount of money: the bits of its binary64 value, and that value
/// rendered with two decimals (as `format!("{:.2}", value)` renders it).
#[derive(Clone, Debug)]
pub struct Amount {
    pub bits: u64,
    pub shown: String,
}

/// What an amount denotes: the bits of its value and its rendering.
pub struct AmountView {
    pub bits: u64,
    pub shown: Seq<char>,
}

impl View for Amount {
    type V = AmountView;

    open spec fn view(&self) -> AmountView {
        AmountView { bits: self.bits, shown: self.shown@ }
    }
}

/// What an optional amount denotes.
pub open spec fn maybe_view(amount: Option<Amount>) -> Option<AmountView> {
    match amount {
        Some(a) => Some(a@),
        None => None,
    }
}

/// The three figures that the service reports for one currency.
#[derive(Clone, Debug)]
pub struct Balance {
    pub total: Amount,
    pub granted: Amount,
    pub topped_up: Amount,
}

/// What a balance denotes.
pub struct BalanceView {
    pub total: AmountView,
    pub granted: AmountView,
    pub topped_up: AmountView,
}

impl View for Balance {
    type V = BalanceView;

    open spec fn view(&self) -> BalanceView {
        BalanceView { total: self.total@, granted: self.granted@, topped_up: self.topped_up@ }
    }
}

/// The low 52 bits of a binary64 value: its fraction field.
pub const FRACTION_MASK: u64 = 0xF_FFFF_FFFF_FFFF;

/// The low 63 bits of a binary64 value: everything but the sign.
pub const MAGNITUDE_MASK: u64 = 0x7FFF_FFFF_FFFF_FFFF;

/// The biased exponent field of a binary64 value.
pub open spec fn exponent_field(bits: u64) -> u64 {
    (bits >> 52u64) & 0x7FFu64
}

/// The fraction field of a binary64 value.
pub open spec fn fraction_field(bits: u64) -> u64 {
    bits & FRACTION_MASK
}

/// Whether the sign bit is set.
pub open spec fn sign_set(bits: u64) -> bool {
    bits >> 63u64 == 1u64
}

/// Whether the bits encode a NaN.
pub open spec fn is_nan(bits: u64) -> bool {
    exponent_field(bits) == 0x7FFu64 && fraction_field(bits) != 0u64
}

/// An integer that orders binary64 values as `<` on them does: the bits for a
/// non-negative value, minus the magnitude bits for a negative one (so that
/// both zeros get 0). NaN, which is unordered, has none.
pub open spec fn order_rank(bits: u64) -> Option<int> {
    if is_nan(bits) {
        None
    } else if sign_set(bits) {
        Some(-((bits & MAGNITUDE_MASK) as int))
    } else {
        Some(bits as int)
    }
}

/// `<` on the binary64 values with these bits: false whenever either is NaN.
pub open spec fn float_lt(a: u64, b: u64) -> bool {
    match (order_rank(a), order_rank(b)) {
        (Some(x), Some(y)) => x < y,
        _ => false,
    }
}

/// `value.max(0.0) as u64` for the binary64 value with these bits: NaN,
/// negative values and values below one give 0; the integer part is kept
/// otherwise, and values of 2^64 and more (infinity too) give `u64::MAX`.
pub open spec fn whole_units(bits: u64) -> u64 {
    let e = exponent_field(bits) as int;
    let m = fraction_field(bits) as int + pow2(52) as int;
    if is_nan(bits) || sign_set(bits) {
        0
    } else if e == 0x7FF {
        u64::MAX
    } else if e < 1023 {
        0
    } else if e >= 1023 + 64 {
        u64::MAX
    } else if e >= 1075 {
        (m * (pow2((e - 1075) as nat) as int)) as u64
    } else {
        (m / (pow2((1075 - e) as nat) as int)) as u64
    }
}

fn nan_bits(bits: u64) -> (nan: bool)
    ensures
        nan == is_nan(bits),
{
    ((bits >> 52u64) & 0x7FFu64) == 0x7FFu64 && (bits & FRACTION_MASK) != 0u64
}

fn rank_bits(bits: u64) -> (rank: i64)
    requires
        !is_nan(bits),
    ensures
        order_rank(bits) == Some(rank as int),
{
    if bits >> 63u64 == 1u64 {
        let magnitude = bits & MAGNITUDE_MASK;
        assert(magnitude <= 0x7FFF_FFFF_FFFF_FFFFu64) by (bit_vector)
            requires
                magnitude == bits & 0x7FFF_FFFF_FFFF_FFFFu64,
        ;
        -(magnitude as i64)
    } else {
        assert(bits <= 0x7FFF_FFFF_FFFF_FFFFu64) by (bit_vector)
            requires
                bits >> 63u64 != 1u64,
        ;
        bits as i64
    }
}

/// `a < b` on the binary64 values with these bits.
pub fn less_than(a: u64, b: u64) -> (lt: bool)
    ensures
        lt == float_lt(a, b),
{
    if nan_bits(a) || nan_bits(b) {
        false
    } else {
        rank_bits(a) < rank_bits(b)
    }
}

impl Amount {
    /// Whether this amount is below `limit` (`<` on the two values).
    pub fn is_below(&self, limit: &Amount) -> (below: bool)
        ensures
            below == float_lt(self.bits, limit.bits),
    {
        less_than(self.bits, limit.bits)
    }
}

proof fn lemma_mantissa_shift_fits(m: u64, s: nat)
    requires
        m < 0x20_0000_0000_0000u64,
        s <= 11,
    ensures
        m * pow2(s) <= u64::MAX,
{
    lemma2_to64();
    if s < 11 {
        lemma_pow2_strictly_increases(s, 11);
    }
    let p = pow2(s);
    assert(m * p <= u64::MAX) by (nonlinear_arith)
        requires
            m < 0x20_0000_0000_0000,
            p <= 2048,
    ;
}

/// `value.max(0.0) as u64` for the binary64 value with these bits.
pub fn whole_units_of(bits: u64) -> (units: u64)
    ensures
        units == whole_units(bits),
{
    let e = (bits >> 52u64) & 0x7FFu64;
    let f = bits & FRACTION_MASK;
    if nan_bits(bits) || bits >> 63u64 == 1u64 {
        0
    } else if e == 0x7FFu64 {
        u64::MAX
    } else if e < 1023 {
        0
    } else if e >= 1023 + 64 {
        u64::MAX
    } else {
        let m = f | 0x10_0000_0000_0000u64;
        assert(m == f + 0x10_0000_0000_0000u64 && m < 0x20_0000_0000_0000u64) by (bit_vector)
            requires
                f == bits & 0xF_FFFF_FFFF_FFFFu64,
                m == f | 0x10_0000_0000_0000u64,
        ;
        proof {
            lemma2_to64();
            lemma2_to64_rest();
        }
        if e >= 1075 {
            let shift = e - 1075;
            proof {
                lemma_mantissa_shift_fits(m, shift as nat);
                lemma_u64_shl_is_mul(m, shift);
            }
            m << shift
        } else {
            let shift = 1075 - e;
            proof {
                lemma_u64_shr_is_div(m, shift);
            }
            m >> shift
        }
    }
}

/// The label drawn on the tray icon for an amount: its whole units when
/// they are at most 99, and `OK` above that.
pub open spec fn icon_text(bits: u64) -> Seq<char> {
    if whole_units(bits) <= 99 {
        decimal(whole_units(bits) as nat)
    } else {
        "OK"@
    }
}

/// The label drawn on the tray icon for the binary64 value with these bits.
pub fn icon_label(bits: u64) -> (label: String)
    ensures
        label@ == icon_text(bits),
{
    let units = whole_units_of(bits);
    if units <= 99 {
        decimal_text(units)
    } else {
        String::from_str("OK")
    }
}

/// No amount is below itself.
pub proof fn lemma_float_lt_irreflexive(a: u64)
    ensures
        !float_lt(a, a),
{
}

/// Being below is transitive.
pub proof fn lemma_float_lt_transitive(a: u64, b: u64, c: u64)
    requires
        float_lt(a, b),
        float_lt(b, c),
    ensures
        float_lt(a, c),
{
}

/// NaN is neither below nor above anything.
pub proof fn lemma_nan_unordered(a: u64, b: u64)
    requires
        is_nan(a),
    ensures
        !float_lt(a, b),
        !float_lt(b, a),
{
}

/// The two zeros are not below each other, nor below or above the same
/// amounts.
pub proof fn lemma_signed_zeros_equal(b: u64)
    ensures
        !float_lt(0x8000_0000_0000_0000u64, 0u64),
        !float_lt(0u64, 0x8000_0000_0000_0000u64),
        float_lt(0x8000_0000_0000_0000u64, b) == float_lt(0u64, b),
        float_lt(b, 0x8000_0000_0000_0000u64) == float_lt(b, 0u64),
{
    let z: u64 = 0x8000_0000_0000_0000u64;
    assert(z >> 63u64 == 1u64 && z & 0x7FFF_FFFF_FFFF_FFFFu64 == 0u64 && (z >> 52u64) & 0x7FFu64 == 0x000u64) by (bit_vector)
        requires
            z == 0x8000_0000_0000_0000u64,
    ;
    assert(0u64 >> 63u64 == 0u64 && (0u64 >> 52u64) & 0x7FFu64 == 0u64) by (bit_vector);
}

/// The integer part of `m * 2^(e - 1075)`, written with one division.
pub open spec fn scaled_floor(e: int, m: int) -> int {
    (m * (pow2((e - 1023) as nat) as int)) / (pow2(52) as int)
}

proof fn lemma_branch_is_scaled(e: int, m: int)
    requires
        1023 <= e <= 1086,
        0 <= m < 0x20_0000_0000_0000,
    ensures
        0 <= scaled_floor(e, m) <= u64::MAX,
        (if e >= 1075 {
            m * (pow2((e - 1075) as nat) as int)
        } else {
            m / (pow2((1075 - e) as nat) as int)
        }) == scaled_floor(e, m),
{
    let big = pow2(52) as int;
    lemma_pow2_pos(52);
    if e >= 1075 {
        let p = pow2((e - 1075) as nat) as int;
        lemma_pow2_adds((e - 1075) as nat, 52);
        assert(pow2((e - 1023) as nat) as int == p * big);
        lemma_mul_is_associative(m, p, big);
        lemma_mul_is_commutative(m * p, big);
        lemma_div_multiples_vanish(m * p, big);
        lemma_mantissa_shift_fits(m as u64, (e - 1075) as nat);
        lemma_pow2_pos((e - 1075) as nat);
        assert(m * p >= 0) by (nonlinear_arith)
            requires
                m >= 0,
                p > 0,
        ;
    } else {
        let p = pow2((e - 1023) as nat) as int;
        let q = pow2((1075 - e) as nat) as int;
        lemma_pow2_adds((e - 1023) as nat, (1075 - e) as nat);
        assert(big == p * q);
        lemma_pow2_pos((e - 1023) as nat);
        lemma_pow2_pos((1075 - e) as nat);
        assert(m * p >= 0) by (nonlinear_arith)
            requires
                m >= 0,
                p > 0,
        ;
        lemma_div_denominator(m * p, p, q);
        lemma_mul_is_commutative(m, p);
        lemma_div_multiples_vanish(m, p);
        lemma_div_nonincreasing(m, q);
        assert(m / q >= 0) by (nonlinear_arith)
            requires
                m >= 0,
                q > 0,
        ;
    }
}

proof fn lemma_positive_bits(bits: u64)
    requires
        !sign_set(bits),
    ensures
        bits as int == (exponent_field(bits) as int) * 0x10_0000_0000_0000 + fraction_field(bits) as int,
        fraction_field(bits) < 0x10_0000_0000_0000,
        exponent_field(bits) <= 0x7FF,
{
    assert(bits == ((bits >> 52u64) & 0x7FFu64) * 0x10_0000_0000_0000u64 + (bits & 0xF_FFFF_FFFF_FFFFu64)
        && (bits & 0xF_FFFF_FFFF_FFFFu64) < 0x10_0000_0000_0000u64
        && ((bits >> 52u64) & 0x7FFu64) <= 0x7FFu64) by (bit_vector)
        requires
            bits >> 63u64 != 1u64,
    ;
}

/// A larger amount never shows fewer whole units: if `a < b` then the
/// integer part of `a` (clamped at zero) is at most that of `b`.
pub proof fn lemma_whole_units_monotone(a: u64, b: u64)
    requires
        float_lt(a, b),
    ensures
        whole_units(a) <= whole_units(b),
{
    if whole_units(a) == 0 {
        return;
    }
    lemma2_to64();
    lemma2_to64_rest();
    lemma_positive_bits(a);
    lemma_positive_bits(b);
    let ea = exponent_field(a) as int;
    let eb = exponent_field(b) as int;
    let fa = fraction_field(a) as int;
    let fb = fraction_field(b) as int;
    assert(ea <= eb);
    assert(ea == eb ==> fa < fb);
    if eb == 0x7FF || eb >= 1023 + 64 || ea >= 1023 + 64 {
        return;
    }
    let ma = fa + pow2(52) as int;
    let mb = fb + pow2(52) as int;
    lemma_branch_is_scaled(ea, ma);
    lemma_branch_is_scaled(eb, mb);
    let pa = pow2((ea - 1023) as nat) as int;
    let pb = pow2((eb - 1023) as nat) as int;
    lemma_pow2_pos((ea - 1023) as nat);
    if ea == eb {
        lemma_mul_inequality(ma, mb, pa);
    } else {
        lemma_mul_inequality(ma, pow2(53) as int, pa);
        lemma_pow2_adds(53, (ea - 1023) as nat);
        lemma_pow2_adds(52, (eb - 1023) as nat);
        if ea - 1023 + 53 < eb - 1023 + 52 {
            lemma_pow2_strictly_increases((ea - 1023 + 53) as nat, (eb - 1023 + 52) as nat);
        }
        lemma_mul_is_commutative(pow2(52) as int, pb);
        lemma_mul_inequality(pow2(52) as int, mb, pb);
        lemma_mul_is_commutative(pow2(53) as int, pa);
    }
    lemma_div_is_ordered(ma * pa, mb * pb, pow2(52) as int);
    assert(whole_units(a) as int == scaled_floor(ea, ma));
    assert(whole_units(b) as int == scaled_floor(eb, mb));
}

} // verus!
