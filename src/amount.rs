//! Exact decimal amounts of money, held as fixed-point integers.

use vstd::prelude::*;

verus! {

/// Number of decimal places that an [`Amount`] carries.
pub const SCALE: u32 = 28;

/// Ten to the power `n`.
pub open spec fn pow10(n: nat) -> int
    decreases n,
{
    if n == 0 {
        1
    } else {
        10 * pow10((n - 1) as nat)
    }
}

/// Whether an integer fits in the representation of an [`Amount`].
pub open spec fn in_range(v: int) -> bool {
    i128::MIN <= v <= i128::MAX
}

/// The number of units of `10^-SCALE` that the decimal `mantissa * 10^-scale`
/// stands for.
pub open spec fn scaled(mantissa: int, scale: nat) -> int {
    mantissa * pow10((SCALE - scale) as nat)
}

/// Every power of ten is at least one.
pub proof fn lemma_pow10_positive(n: nat)
    ensures
        pow10(n) >= 1,
    decreases n,
{
    if n > 0 {
        lemma_pow10_positive((n - 1) as nat);
    }
}

/// Scaling up by a power of ten never makes a value smaller in magnitude.
proof fn lemma_scale_grows(x: int, n: nat)
    ensures
        x >= 0 ==> x * pow10(n) >= x,
        x < 0 ==> x * pow10(n) <= x,
{
    lemma_pow10_positive(n);
    let p = pow10(n);
    assert(x >= 0 ==> x * p >= x) by (nonlinear_arith)
        requires
            p >= 1,
    ;
    assert(x < 0 ==> x * p <= x) by (nonlinear_arith)
        requires
            p >= 1,
    ;
}

/// An exact decimal amount of money: a whole number of units of `10^-SCALE`.
/// The value may be negative.
#[derive(Clone, Copy, Debug, PartialEq, Eq, Structural)]
pub struct Amount {
    /// The number of units of `10^-SCALE`.
    pub units: i128,
}

impl View for Amount {
    type V = int;

    open spec fn view(&self) -> int {
        self.units as int
    }
}

impl Amount {
    /// The amount zero.
    pub fn zero() -> (r: Amount)
        ensures
            r@ == 0,
    {
        Amount { units: 0 }
    }

    /// The decimal `mantissa * 10^-scale`, or `None` where `scale` exceeds
    /// [`SCALE`] or the value does not fit.
    pub fn from_parts(mantissa: i128, scale: u32) -> (r: Option<Amount>)
        ensures
            r is Some <==> scale <= SCALE && in_range(scaled(mantissa as int, scale as nat)),
            r matches Some(a) ==> a@ == scaled(mantissa as int, scale as nat),
    {
        if scale > SCALE {
            return None;
        }
        let mut m: i128 = mantissa;
        let mut s: u32 = scale;
        while s < SCALE
            invariant
                scale <= s <= SCALE,
                m as int * pow10((SCALE - s) as nat) == scaled(mantissa as int, scale as nat),
            decreases SCALE - s,
        {
            let ghost k = (SCALE - s - 1) as nat;
            proof {
                assert(pow10((SCALE - s) as nat) == 10 * pow10(k));
                assert(m as int * pow10((SCALE - s) as nat) == (m as int * 10) * pow10(k))
                    by (nonlinear_arith)
                    requires
                        pow10((SCALE - s) as nat) == 10 * pow10(k),
                ;
            }
            match m.checked_mul(10) {
                Some(next) => {
                    m = next;
                },
                None => {
                    proof {
                        lemma_scale_grows(m as int * 10, k);
                    }
                    return None;
                },
            }
            s = s + 1;
        }
        Some(Amount { units: m })
    }

    /// The decimal `num * 10^-scale`.
    pub fn new(num: i64, scale: u32) -> (r: Amount)
        requires
            scale <= SCALE,
            in_range(scaled(num as int, scale as nat)),
        ensures
            r@ == scaled(num as int, scale as nat),
    {
        match Amount::from_parts(num as i128, scale) {
            Some(a) => a,
            None => Amount::zero(),
        }
    }

    /// The shortest decimal form of this amount: a mantissa and a scale at
    /// most [`SCALE`], with no trailing zero in the mantissa unless the scale
    /// is zero.
    pub fn to_parts(&self) -> (r: (i128, u32))
        ensures
            r.1 <= SCALE,
            scaled(r.0 as int, r.1 as nat) == self@,
            r.1 == 0 || r.0 % 10 != 0,
    {
        let mut m: i128 = self.units;
        let mut s: u32 = SCALE;
        while s > 0 && m % 10 == 0
            invariant
                s <= SCALE,
                scaled(m as int, s as nat) == self@,
            decreases s,
        {
            let ghost k = (SCALE - s) as nat;
            let q: i128 = m / 10;
            proof {
                assert(pow10(k + 1) == 10 * pow10(k));
                assert(q as int * pow10(k + 1) == m as int * pow10(k)) by (nonlinear_arith)
                    requires
                        pow10(k + 1) == 10 * pow10(k),
                        q as int * 10 == m as int,
                ;
            }
            m = q;
            s = s - 1;
        }
        (m, s)
    }
}

} // verus!
