//! The decimal arithmetic that the ledger relies on, done by `rust_decimal`.
//!
//! Each function here hands its operands to `rust_decimal::Decimal` and takes
//! the result back as an [`Amount`]. Their contracts are not proved: they say
//! what the `rust_decimal` operations compute.

use crate::amount::{
    lemma_canonical_unique, lemma_pow10_add, lemma_pow10_positive, magnitude_limit, pow10, Amount,
    AmountView,
};
use vstd::arithmetic::div_mod::{
    lemma_div_multiples_vanish, lemma_div_multiples_vanish_quotient, lemma_mod_multiples_basic,
    lemma_truncate_middle,
};
use rust_decimal::Decimal;
use vstd::prelude::*;

verus! {

/// What `Decimal::checked_add` returns for two operands, where the sum is
/// not exact: rounded to fewer digits, or `None` on overflow.
pub uninterp spec fn decimal_sum(a: AmountView, b: AmountView) -> Option<AmountView>;

/// What `Decimal::checked_sub` returns for two operands, where the
/// difference is not exact: rounded to fewer digits, or `None` on overflow.
pub uninterp spec fn decimal_difference(a: AmountView, b: AmountView) -> Option<AmountView>;

/// The view of an optional amount.
pub open spec fn view_of(r: Option<Amount>) -> Option<AmountView> {
    match r {
        Some(x) => Some(x@),
        None => None,
    }
}

/// The larger of the two scales.
pub open spec fn larger_scale(a: AmountView, b: AmountView) -> nat {
    if a.scale >= b.scale {
        a.scale
    } else {
        b.scale
    }
}

/// The signed magnitudes, both brought to the larger scale, added up.
pub open spec fn aligned_sum(a: AmountView, b: AmountView) -> int {
    let s = larger_scale(a, b);
    a.signed() * pow10((s - a.scale) as nat) + b.signed() * pow10((s - b.scale) as nat)
}

/// The operands can be brought to one scale without leaving 128 bits: the
/// scales are equal, or both magnitudes fit 64 bits and the scales are at
/// most 19 apart.
pub open spec fn alignable(a: AmountView, b: AmountView) -> bool {
    ||| a.scale == b.scale
    ||| {
        &&& a.magnitude < 0x1_0000_0000_0000_0000
        &&& b.magnitude < 0x1_0000_0000_0000_0000
        &&& a.scale <= b.scale + 19
        &&& b.scale <= a.scale + 19
    }
}

/// The sum of `a` and `b` is computed without rounding: one of them is zero,
/// or they can be aligned and their sum at the larger scale fits 96 bits.
pub open spec fn sum_is_exact(a: AmountView, b: AmountView) -> bool {
    ||| a.magnitude == 0
    ||| b.magnitude == 0
    ||| (alignable(a, b) && -magnitude_limit() < aligned_sum(a, b) < magnitude_limit())
}

/// The sum of `a` and `b` where it is exact: the other operand where one is
/// zero, else the aligned sum at the larger scale.
pub open spec fn exact_sum(a: AmountView, b: AmountView) -> AmountView {
    if a.magnitude == 0 {
        b.unsigned_zero()
    } else if b.magnitude == 0 {
        a
    } else {
        let total = aligned_sum(a, b);
        AmountView {
            negative: total < 0,
            magnitude: (if total < 0 { -total } else { total }) as nat,
            scale: larger_scale(a, b),
        }
    }
}

/// The sum of two amounts: exact where it can be, else what `rust_decimal`
/// makes of it.
pub open spec fn checked_sum(a: AmountView, b: AmountView) -> Option<AmountView> {
    if sum_is_exact(a, b) {
        Some(exact_sum(a, b))
    } else {
        decimal_sum(a, b)
    }
}

/// The difference of two amounts: exact where the sum of `a` and the negated
/// `b` is, else what `rust_decimal` makes of it.
pub open spec fn checked_difference(a: AmountView, b: AmountView) -> Option<AmountView> {
    if sum_is_exact(a, b.negated()) {
        Some(exact_sum(a, b.negated()))
    } else {
        decimal_difference(a, b)
    }
}

/// `m / q` rounded to the nearest integer, a tie going to the even one.
pub open spec fn round_half_even(m: nat, q: nat) -> nat {
    let d = m / q;
    let r = m % q;
    if 2 * r > q || (2 * r == q && d % 2 == 1) {
        d + 1
    } else {
        d
    }
}

/// The amount rounded to at most `dp` digits after the point, ties to even.
/// An amount that has no more digits than that keeps its scale.
pub open spec fn rounded(a: AmountView, dp: nat) -> AmountView {
    if a.scale <= dp {
        a.unsigned_zero()
    } else {
        (AmountView {
            negative: a.negative,
            magnitude: round_half_even(a.magnitude, pow10((a.scale - dp) as nat)),
            scale: dp,
        }).unsigned_zero()
    }
}

/// `r` is `a` with its trailing zeros stripped: the same number, in the one
/// canonical form.
pub open spec fn is_normal_form(r: AmountView, a: AmountView) -> bool {
    &&& r.wf()
    &&& r.is_canonical()
    &&& r.scale <= a.scale
    &&& r.negative == (a.negative && a.magnitude != 0)
    &&& r.magnitude * pow10((a.scale - r.scale) as nat) == a.magnitude
}

/// The canonical form of `a`: plain `0` for a zero, else `a` with its
/// trailing zeros stripped as far as the scale allows.
pub open spec fn normal_form(a: AmountView) -> AmountView
    decreases a.scale,
{
    if a.magnitude == 0 {
        AmountView { negative: false, magnitude: 0, scale: 0 }
    } else if a.scale > 0 && a.magnitude % 10 == 0 {
        normal_form(
            AmountView { magnitude: a.magnitude / 10, scale: (a.scale - 1) as nat, ..a },
        )
    } else {
        a
    }
}

/// A worth in units, rounded to a multiple of `10^-dp`, ties to even.
pub open spec fn round_units(u: int, dp: nat) -> int {
    let q = pow10((28 - dp) as nat);
    if u >= 0 {
        (round_half_even(u as nat, q) * q) as int
    } else {
        -(round_half_even((-u) as nat, q) * q)
    }
}

/// A normal form is worth what the amount is worth.
pub proof fn lemma_normal_form_units(r: AmountView, a: AmountView)
    requires
        a.wf(),
        is_normal_form(r, a),
    ensures
        r.units() == a.units(),
{
    let d = (a.scale - r.scale) as nat;
    lemma_pow10_add(d, (28 - a.scale) as nat);
    let pd = pow10(d) as int;
    let pa = pow10((28 - a.scale) as nat) as int;
    assert(pow10((28 - r.scale) as nat) == pd * pa);
    let m = r.magnitude as int;
    assert(m * (pd * pa) == (m * pd) * pa) by (nonlinear_arith);
    assert((-m) * (pd * pa) == (-(m * pd)) * pa) by (nonlinear_arith);
}

/// The canonical form is a normal form.
pub proof fn lemma_normal_form_is_normal(a: AmountView)
    requires
        a.wf(),
    ensures
        is_normal_form(normal_form(a), a),
    decreases a.scale,
{
    if a.magnitude == 0 {
        assert(0 * pow10(a.scale) == 0) by (nonlinear_arith);
    } else if a.scale > 0 && a.magnitude % 10 == 0 {
        let next = AmountView { magnitude: a.magnitude / 10, scale: (a.scale - 1) as nat, ..a };
        lemma_normal_form_is_normal(next);
        let r = normal_form(next);
        let p = pow10((next.scale - r.scale) as nat) as int;
        let m = r.magnitude as int;
        assert(pow10((a.scale - r.scale) as nat) == 10 * p);
        assert(m * (10 * p) == 10 * (m * p)) by (nonlinear_arith);
    } else {
        assert(pow10(0) == 1);
        assert(a.magnitude * 1 == a.magnitude);
    }
}

/// An amount has one normal form only.
pub proof fn lemma_normal_form_unique(r: AmountView, a: AmountView)
    requires
        a.wf(),
        is_normal_form(r, a),
    ensures
        r == normal_form(a),
{
    let c = normal_form(a);
    lemma_normal_form_is_normal(a);
    lemma_normal_form_units(r, a);
    lemma_normal_form_units(c, a);
    lemma_canonical_unique(r, c);
}

/// An exact sum is well formed.
pub proof fn lemma_exact_sum_wf(a: AmountView, b: AmountView)
    requires
        a.wf(),
        b.wf(),
        sum_is_exact(a, b),
    ensures
        exact_sum(a, b).wf(),
{
}

/// Changing the sign of an amount changes the sign of its worth.
pub proof fn lemma_negated_units(a: AmountView)
    ensures
        a.negated().units() == -a.units(),
{
    let p = pow10((28 - a.scale) as nat) as int;
    let m = a.magnitude as int;
    assert((-m) * p == -(m * p)) by (nonlinear_arith);
}

/// An exact sum is worth the two operands together.
pub proof fn lemma_exact_sum_units(a: AmountView, b: AmountView)
    requires
        a.wf(),
        b.wf(),
    ensures
        exact_sum(a, b).units() == a.units() + b.units(),
{
    if a.magnitude == 0 {
        assert(a.signed() == 0);
        assert(a.units() == 0) by (nonlinear_arith)
            requires
                a.units() == a.signed() * pow10((28 - a.scale) as nat),
                a.signed() == 0,
        ;
        assert(b.unsigned_zero().units() == b.units());
    } else if b.magnitude == 0 {
        assert(b.signed() == 0);
        assert(b.units() == 0) by (nonlinear_arith)
            requires
                b.units() == b.signed() * pow10((28 - b.scale) as nat),
                b.signed() == 0,
        ;
    } else {
        let s = larger_scale(a, b);
        let p = pow10((28 - s) as nat) as int;
        let pa = pow10((s - a.scale) as nat) as int;
        let pb = pow10((s - b.scale) as nat) as int;
        lemma_pow10_add((s - a.scale) as nat, (28 - s) as nat);
        lemma_pow10_add((s - b.scale) as nat, (28 - s) as nat);
        let x = a.signed();
        let y = b.signed();
        let total = aligned_sum(a, b);
        assert(exact_sum(a, b).signed() == total);
        assert((x * pa + y * pb) * p == x * (pa * p) + y * (pb * p)) by (nonlinear_arith);
    }
}

/// Scaling the dividend and the divisor alike leaves the rounded quotient.
proof fn lemma_round_half_even_scaled(m: nat, q: nat, k: nat)
    requires
        q > 0,
        k > 0,
    ensures
        round_half_even(m * k, q * k) == round_half_even(m, q),
{
    let mi = m as int;
    let qi = q as int;
    let ki = k as int;
    lemma_div_multiples_vanish_quotient(ki, mi, qi);
    lemma_truncate_middle(mi, ki, qi);
    assert(mi * ki == ki * mi) by (nonlinear_arith);
    assert(qi * ki == ki * qi) by (nonlinear_arith);
    assert((mi * ki) / (qi * ki) == mi / qi);
    assert((mi * ki) % (qi * ki) == ki * (mi % qi));
    let r = mi % qi;
    assert(2 * (ki * r) > qi * ki <==> 2 * r > qi) by (nonlinear_arith)
        requires
            ki > 0,
    ;
    assert(2 * (ki * r) == qi * ki <==> 2 * r == qi) by (nonlinear_arith)
        requires
            ki > 0,
    ;
}

/// A multiple of the divisor rounds to its quotient.
proof fn lemma_round_half_even_multiple(m: nat, q: nat)
    requires
        q > 0,
    ensures
        round_half_even(m * q, q) == m,
{
    lemma_div_multiples_vanish(m as int, q as int);
    lemma_mod_multiples_basic(m as int, q as int);
    assert(m * q == q * m) by (nonlinear_arith);
}

/// Rounding an amount rounds its worth.
pub proof fn lemma_rounded_units(a: AmountView, dp: nat)
    requires
        a.wf(),
        dp <= 28,
    ensures
        rounded(a, dp).units() == round_units(a.units(), dp),
{
    let m = a.magnitude;
    let q = pow10((28 - dp) as nat);
    lemma_pow10_positive((28 - dp) as nat);
    let k = pow10((28 - a.scale) as nat);
    lemma_pow10_positive((28 - a.scale) as nat);
    assert(m * k >= 0) by (nonlinear_arith)
        requires
            m >= 0,
            k > 0,
    ;
    assert(a.units() == (if a.negative { -(m * k) } else { (m * k) as int })) by (nonlinear_arith)
        requires
            a.units() == a.signed() * k,
            a.signed() == (if a.negative { -(m as int) } else { m as int }),
    ;
    let magnitude_units = (m * k) as nat;
    if a.scale <= dp {
        let e = pow10((dp - a.scale) as nat);
        lemma_pow10_add((dp - a.scale) as nat, (28 - dp) as nat);
        assert(k == e * q);
        assert(m * (e * q) == (m * e) * q) by (nonlinear_arith);
        lemma_round_half_even_multiple(m * e, q);
        assert(round_half_even(magnitude_units, q) * q == magnitude_units);
        assert(rounded(a, dp).units() == a.units()) by {
            if m == 0 {
                assert(a.unsigned_zero().signed() == 0);
                assert(a.unsigned_zero().units() == 0) by (nonlinear_arith)
                    requires
                        a.unsigned_zero().units() == a.unsigned_zero().signed() * k,
                        a.unsigned_zero().signed() == 0,
                ;
            }
        }
        if m == 0 {
            assert(round_half_even(0, q) == 0);
        }
    } else {
        let e = pow10((a.scale - dp) as nat);
        lemma_pow10_positive((a.scale - dp) as nat);
        lemma_pow10_add((a.scale - dp) as nat, (28 - a.scale) as nat);
        assert(q == e * k);
        lemma_round_half_even_scaled(m, e, k);
        let n = round_half_even(m, e);
        assert(round_half_even(magnitude_units, q) == n);
        let r = rounded(a, dp);
        assert(r.magnitude == n);
        assert(r.scale == dp);
        assert(r.units() == (if a.negative { -(n * q) } else { (n * q) as int })) by (nonlinear_arith)
            requires
                r.units() == r.signed() * q,
                r.signed() == (if r.negative { -(n as int) } else { n as int }),
                r.negative == (a.negative && n != 0),
        ;
        if m == 0 {
            assert(round_half_even(0, q) == 0);
        }
        if a.negative && m * k == 0 {
            assert(n == 0);
        }
    }
}

/// A rounded amount is well formed.
pub proof fn lemma_rounded_wf(a: AmountView, dp: nat)
    requires
        a.wf(),
        dp <= 28,
    ensures
        rounded(a, dp).wf(),
{
    if a.scale > dp {
        let e = pow10((a.scale - dp) as nat);
        lemma_pow10_positive((a.scale - dp - 1) as nat);
        assert(e == 10 * pow10((a.scale - dp - 1) as nat));
        assert(e >= 10);
        let m = a.magnitude as int;
        let ei = e as int;
        assert(m / ei <= m / 10) by {
            vstd::arithmetic::div_mod::lemma_div_is_ordered_by_denominator(m, 10, ei);
        }
    }
}

/// Calls `Decimal::checked_add`. The contract claims what `rust_decimal`
/// does on its short paths: a zero operand gives the other operand back;
/// operands of one scale are added as they stand; operands whose magnitudes
/// fit 64 bits and whose scales are at most 19 apart are aligned in 128-bit
/// arithmetic; and a result that fits 96 bits is returned as it is, at the
/// larger scale, a zero without sign. Elsewhere the result is whatever
/// `checked_add` returns for these operands, `None` on overflow.
#[verifier::external_body]
pub(crate) fn checked_add(a: Amount, b: Amount) -> (r: Option<Amount>)
    requires
        a@.wf(),
        b@.wf(),
    ensures
        sum_is_exact(a@, b@) ==> view_of(r) == Some(exact_sum(a@, b@)),
        !sum_is_exact(a@, b@) ==> view_of(r) == decimal_sum(a@, b@),
        r is Some ==> r.unwrap()@.wf(),
{
    let x = Decimal::from_parts(a.lo, a.mid, a.hi, a.negative, a.scale);
    let y = Decimal::from_parts(b.lo, b.mid, b.hi, b.negative, b.scale);
    match x.checked_add(y) {
        Some(d) => {
            let u = d.unpack();
            Some(Amount { lo: u.lo, mid: u.mid, hi: u.hi, negative: u.negative, scale: u.scale })
        },
        None => None,
    }
}

/// Calls `Decimal::checked_sub`, which `rust_decimal` computes as it does
/// a sum, with the sign of the second operand turned. The contract claims:
/// where the sum of `a` and the negated `b` is exact, the result is that
/// sum; elsewhere it is whatever `checked_sub` returns for these operands,
/// `None` on overflow.
#[verifier::external_body]
pub(crate) fn checked_sub(a: Amount, b: Amount) -> (r: Option<Amount>)
    requires
        a@.wf(),
        b@.wf(),
    ensures
        sum_is_exact(a@, b@.negated()) ==> view_of(r) == Some(exact_sum(a@, b@.negated())),
        !sum_is_exact(a@, b@.negated()) ==> view_of(r) == decimal_difference(a@, b@),
        r is Some ==> r.unwrap()@.wf(),
{
    let x = Decimal::from_parts(a.lo, a.mid, a.hi, a.negative, a.scale);
    let y = Decimal::from_parts(b.lo, b.mid, b.hi, b.negative, b.scale);
    match x.checked_sub(y) {
        Some(d) => {
            let u = d.unpack();
            Some(Amount { lo: u.lo, mid: u.mid, hi: u.hi, negative: u.negative, scale: u.scale })
        },
        None => None,
    }
}

/// Calls `Decimal::round_dp`, which rounds half to even. The contract claims
/// that the result is [`rounded`]: an amount of at most `dp` digits after
/// the point comes back as it is, any other with its magnitude divided by
/// the power of ten in excess and rounded, at scale `dp`; a zero comes back
/// without sign.
#[verifier::external_body]
pub(crate) fn round_dp(a: Amount, dp: u32) -> (r: Amount)
    requires
        a@.wf(),
    ensures
        r@ == rounded(a@, dp as nat),
        r@.wf(),
{
    let u = Decimal::from_parts(a.lo, a.mid, a.hi, a.negative, a.scale).round_dp(dp).unpack();
    Amount { lo: u.lo, mid: u.mid, hi: u.hi, negative: u.negative, scale: u.scale }
}

/// Calls `Decimal::normalize`, which strips trailing zeros and turns `-0`
/// into `0`. The contract claims that the result is a normal form of `a`:
/// the same number, with no trailing zero left after the point, and plain
/// `0` for a zero.
#[verifier::external_body]
pub(crate) fn normalize(a: Amount) -> (r: Amount)
    requires
        a@.wf(),
    ensures
        is_normal_form(r@, a@),
{
    let u = Decimal::from_parts(a.lo, a.mid, a.hi, a.negative, a.scale).normalize().unpack();
    Amount { lo: u.lo, mid: u.mid, hi: u.hi, negative: u.negative, scale: u.scale }
}

/// Calls `<` of `Decimal`, which orders by numeric value. The contract
/// claims that the result says whether `a` is worth less than `b`.
#[verifier::external_body]
pub(crate) fn less_than(a: Amount, b: Amount) -> (r: bool)
    requires
        a@.wf(),
        b@.wf(),
    ensures
        r == (a@.units() < b@.units()),
{
    let x = Decimal::from_parts(a.lo, a.mid, a.hi, a.negative, a.scale);
    let y = Decimal::from_parts(b.lo, b.mid, b.hi, b.negative, b.scale);
    x < y
}

} // verus!
