//! Decimal amounts of money and their mathematical model.
//!
//! An [`Amount`] is a sign, a 96-bit magnitude and a scale: it stands for the
//! number `±magnitude / 10^scale`. Contracts speak of amounts through their
//! view, and of their worth through [`AmountView::units`], an integer count
//! of the smallest step that any amount can express.

use vstd::prelude::*;

verus! {

/// The largest scale of an amount: the number of digits after the point.
pub const MAX_SCALE: u32 = 28;

/// Ten to the power `n`.
pub open spec fn pow10(n: nat) -> nat
    decreases n,
{
    if n == 0 {
        1
    } else {
        10 * pow10((n - 1) as nat)
    }
}

/// A power of ten is positive.
pub proof fn lemma_pow10_positive(n: nat)
    ensures
        pow10(n) > 0,
    decreases n,
{
    if n > 0 {
        lemma_pow10_positive((n - 1) as nat);
    }
}

/// Powers of ten multiply by adding their exponents.
pub proof fn lemma_pow10_add(a: nat, b: nat)
    ensures
        pow10(a + b) == pow10(a) * pow10(b),
    decreases a,
{
    if a == 0 {
        assert(pow10(0) == 1);
        assert(pow10(a + b) == 1 * pow10(b));
    } else {
        lemma_pow10_add((a - 1) as nat, b);
        let x = pow10((a - 1) as nat);
        let y = pow10(b);
        assert(pow10(a + b) == 10 * pow10((a - 1 + b) as nat));
        assert(pow10(a) == 10 * x);
        assert(10 * (x * y) == (10 * x) * y) by (nonlinear_arith);
    }
}

/// A positive power of ten is a multiple of ten.
pub proof fn lemma_pow10_multiple_of_ten(m: int, n: nat)
    requires
        n > 0,
    ensures
        (m * pow10(n)) % 10 == 0,
{
    let x = pow10((n - 1) as nat);
    assert(pow10(n) == 10 * x);
    assert(m * (10 * x) == (m * x) * 10) by (nonlinear_arith);
    vstd::arithmetic::div_mod::lemma_mod_multiples_basic(m * x, 10);
}

/// The first magnitude that no amount can hold: two to the power 96.
pub open spec fn magnitude_limit() -> nat {
    0x1_0000_0000_0000_0000_0000_0000
}

/// The mathematical content of an [`Amount`].
pub struct AmountView {
    pub negative: bool,
    pub magnitude: nat,
    pub scale: nat,
}

impl AmountView {
    /// The magnitude fits 96 bits and the scale is at most 28.
    pub open spec fn wf(self) -> bool {
        self.magnitude < magnitude_limit() && self.scale <= 28
    }

    /// The magnitude with its sign.
    pub open spec fn signed(self) -> int {
        if self.negative {
            -(self.magnitude as int)
        } else {
            self.magnitude as int
        }
    }

    /// The worth of the amount, counted in steps of `10^-28`.
    pub open spec fn units(self) -> int {
        self.signed() * pow10((28 - self.scale) as nat)
    }

    /// The same amount, with the sign of a zero cleared.
    pub open spec fn unsigned_zero(self) -> AmountView {
        if self.magnitude == 0 {
            AmountView { negative: false, ..self }
        } else {
            self
        }
    }

    /// The amount of opposite sign.
    pub open spec fn negated(self) -> AmountView {
        AmountView { negative: !self.negative, ..self }
    }

    /// No trailing zero is left to strip, and a zero is plain `0`.
    pub open spec fn is_canonical(self) -> bool {
        &&& self.magnitude == 0 ==> !self.negative && self.scale == 0
        &&& self.scale > 0 ==> self.magnitude % 10 != 0
    }
}

/// Two well-formed amounts in canonical form that are worth the same are
/// the same: the canonical form of a number is unique.
pub proof fn lemma_canonical_unique(a: AmountView, b: AmountView)
    requires
        a.wf(),
        b.wf(),
        a.is_canonical(),
        b.is_canonical(),
        a.units() == b.units(),
    ensures
        a == b,
{
    let pa = pow10((28 - a.scale) as nat) as int;
    let pb = pow10((28 - b.scale) as nat) as int;
    lemma_pow10_positive((28 - a.scale) as nat);
    lemma_pow10_positive((28 - b.scale) as nat);
    let ma = a.magnitude as int;
    let mb = b.magnitude as int;
    // Signs and zeros agree.
    assert(ma == 0 <==> mb == 0) by (nonlinear_arith)
        requires
            pa > 0,
            pb > 0,
            ma >= 0,
            mb >= 0,
            a.signed() * pa == b.signed() * pb,
            a.signed() == ma || a.signed() == -ma,
            b.signed() == mb || b.signed() == -mb,
    ;
    if ma != 0 {
        assert(a.negative == b.negative) by (nonlinear_arith)
            requires
                pa > 0,
                pb > 0,
                ma > 0,
                mb > 0,
                a.signed() * pa == b.signed() * pb,
                a.signed() == (if a.negative { -ma } else { ma }),
                b.signed() == (if b.negative { -mb } else { mb }),
        ;
        assert(ma * pa == mb * pb) by (nonlinear_arith)
            requires
                a.negative == b.negative,
                a.signed() * pa == b.signed() * pb,
                a.signed() == (if a.negative { -ma } else { ma }),
                b.signed() == (if b.negative { -mb } else { mb }),
        ;
        if a.scale < b.scale {
            lemma_scaled_magnitudes(ma, a.scale, mb, b.scale);
        } else if b.scale < a.scale {
            lemma_scaled_magnitudes(mb, b.scale, ma, a.scale);
        } else {
            assert(ma == mb) by (nonlinear_arith)
                requires
                    ma * pa == mb * pa,
                    pa > 0,
            ;
        }
    }
}

/// Where two magnitudes at different scales are worth the same, the one at
/// the larger scale ends in a zero.
proof fn lemma_scaled_magnitudes(m1: int, s1: nat, m2: int, s2: nat)
    requires
        s1 < s2 <= 28,
        m1 * pow10((28 - s1) as nat) == m2 * pow10((28 - s2) as nat),
    ensures
        m2 % 10 == 0,
{
    let d = (s2 - s1) as nat;
    let rest = pow10((28 - s2) as nat) as int;
    lemma_pow10_positive((28 - s2) as nat);
    lemma_pow10_add(d, (28 - s2) as nat);
    assert(pow10((28 - s1) as nat) == pow10(d) * rest);
    let pd = pow10(d) as int;
    assert(m2 == m1 * pd) by (nonlinear_arith)
        requires
            m1 * (pd * rest) == m2 * rest,
            rest > 0,
    ;
    lemma_pow10_multiple_of_ten(m1, d);
}

/// A decimal amount: `lo`, `mid` and `hi` are the three 32-bit words of the
/// magnitude, least significant first.
#[derive(Clone, Copy, Debug, PartialEq, Eq, Structural, Hash)]
pub struct Amount {
    pub(crate) lo: u32,
    pub(crate) mid: u32,
    pub(crate) hi: u32,
    pub(crate) negative: bool,
    pub(crate) scale: u32,
}

impl View for Amount {
    type V = AmountView;

    closed spec fn view(&self) -> AmountView {
        AmountView {
            negative: self.negative,
            magnitude: (self.lo + self.mid * 0x1_0000_0000 + self.hi * 0x1_0000_0000_0000_0000) as nat,
            scale: self.scale as nat,
        }
    }
}

impl Amount {
    /// The scale is in range: the invariant that every amount keeps.
    #[verifier::type_invariant]
    pub closed spec fn well_formed(self) -> bool {
        self.scale <= MAX_SCALE
    }

    /// The view of a well-formed amount is well formed.
    pub proof fn lemma_view_wf(self)
        requires
            self.well_formed(),
        ensures
            self@.wf(),
    {
    }

    /// Amounts with the same view are the same amount.
    pub proof fn lemma_view_injective(self, other: Amount)
        requires
            self@ == other@,
        ensures
            self == other,
    {
        assert(self@.magnitude == other@.magnitude);
        assert(self@.scale == other@.scale);
        assert(self@.negative == other@.negative);
    }

    /// Whether the sign is negative; a zero may carry that sign too.
    pub fn is_sign_negative(&self) -> (r: bool)
        ensures
            r == self@.negative,
    {
        self.negative
    }

    /// The parts of the amount: the three words of the magnitude, least
    /// significant first, the sign and the scale.
    pub fn into_parts(self) -> (r: (u32, u32, u32, bool, u32))
        ensures
            r.0 + r.1 * 0x1_0000_0000 + r.2 * 0x1_0000_0000_0000_0000 == self@.magnitude,
            r.3 == self@.negative,
            r.4 == self@.scale,
            r.4 <= 28,
    {
        proof {
            use_type_invariant(&self);
        }
        (self.lo, self.mid, self.hi, self.negative, self.scale)
    }

    /// The amount zero, with scale 0.
    pub fn zero() -> (r: Amount)
        ensures
            r@ == (AmountView { negative: false, magnitude: 0, scale: 0 }),
    {
        Amount { lo: 0, mid: 0, hi: 0, negative: false, scale: 0 }
    }

    /// The amount made of the given parts, or `None` where the scale
    /// exceeds 28.
    pub fn from_parts(lo: u32, mid: u32, hi: u32, negative: bool, scale: u32) -> (r: Option<Amount>)
        ensures
            r is Some <==> scale <= 28,
            r is Some ==> r.unwrap()@ == (AmountView {
                negative,
                magnitude: (lo + mid * 0x1_0000_0000 + hi * 0x1_0000_0000_0000_0000) as nat,
                scale: scale as nat,
            }),
    {
        if scale <= MAX_SCALE {
            Some(Amount { lo, mid, hi, negative, scale })
        } else {
            None
        }
    }
}

} // verus!
