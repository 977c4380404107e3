//! IEEE 754 binary64 numbers as bit patterns, with the order of their values.

use vstd::arithmetic::power2::*;
use vstd::prelude::*;

verus! {

/// Bit 63, the sign.
pub const SIGN_BIT: u64 = 0x8000_0000_0000_0000;

/// Bits 62 to 0: exponent and fraction.
pub const MAGNITUDE_MASK: u64 = 0x7FFF_FFFF_FFFF_FFFF;

/// The magnitude of an infinity: all eleven exponent bits, no fraction bit.
/// A larger magnitude is a NaN.
pub const INFINITY_BITS: u64 = 0x7FF0_0000_0000_0000;

/// Two to the 52nd: one more than the largest fraction.
pub const FRACTION_MODULUS: u64 = 0x0010_0000_0000_0000;

/// A binary64 number, held as its 64-bit pattern.
#[derive(Debug, Clone, Copy)]
pub struct Binary64 {
    pub bits: u64,
}

/// What a bit pattern denotes.
pub enum Value {
    /// Not a number.
    Nan,
    /// Plus or minus infinity.
    Infinite { negative: bool },
    /// A finite number, given as that number times two to the 1074th, which is
    /// an integer for every finite binary64. Both zeros give 0.
    Finite { scaled: int },
}

impl Value {
    /// The number zero.
    pub open spec fn zero() -> Value {
        Value::Finite { scaled: 0 }
    }

    /// Less than or equal, as the standard orders values: false whenever a NaN
    /// takes part.
    pub open spec fn le(self, other: Value) -> bool {
        match (self, other) {
            (Value::Nan, _) => false,
            (_, Value::Nan) => false,
            (Value::Infinite { negative }, Value::Infinite { negative: other_negative }) => negative
                || !other_negative,
            (Value::Infinite { negative }, Value::Finite { .. }) => negative,
            (Value::Finite { .. }, Value::Infinite { negative }) => !negative,
            (Value::Finite { scaled }, Value::Finite { scaled: other_scaled }) => scaled
                <= other_scaled,
        }
    }

    /// The number with the opposite sign. A NaN stays a NaN.
    pub open spec fn neg(self) -> Value {
        match self {
            Value::Nan => Value::Nan,
            Value::Infinite { negative } => Value::Infinite { negative: !negative },
            Value::Finite { scaled } => Value::Finite { scaled: -scaled },
        }
    }

    /// The absolute value. A NaN stays a NaN.
    pub open spec fn abs(self) -> Value {
        match self {
            Value::Nan => Value::Nan,
            Value::Infinite { .. } => Value::Infinite { negative: false },
            Value::Finite { scaled } => Value::Finite { scaled: if scaled < 0 { -scaled } else { scaled } },
        }
    }
}

/// The number that a finite magnitude stands for, times two to the 1074th.
/// With exponent field `e` and fraction `f` this is `f` for a subnormal
/// (`e == 0`) and `(2^52 + f) * 2^(e - 1)` otherwise.
pub open spec fn scaled_magnitude(magnitude: nat) -> nat {
    let e = magnitude / (FRACTION_MODULUS as nat);
    let f = magnitude % (FRACTION_MODULUS as nat);
    if e == 0 {
        f
    } else {
        ((FRACTION_MODULUS + f) * pow2((e - 1) as nat)) as nat
    }
}

impl Binary64 {
    /// Whether the sign bit is set.
    pub open spec fn negative(self) -> bool {
        self.bits >= SIGN_BIT
    }

    /// The pattern without its sign bit.
    pub open spec fn magnitude(self) -> nat {
        (self.bits % SIGN_BIT) as nat
    }

    /// The pattern with the sign bit flipped.
    pub open spec fn opposite(self) -> Binary64 {
        Binary64 {
            bits: if self.bits >= SIGN_BIT {
                (self.bits - SIGN_BIT) as u64
            } else {
                (self.bits + SIGN_BIT) as u64
            },
        }
    }

    /// The larger of two numbers, passing over a NaN: if one is a NaN the
    /// result is the other. Of two equal values (the two zeros are equal) it
    /// is `other`.
    pub open spec fn larger(self, other: Binary64) -> Binary64 {
        if self@ is Nan {
            other
        } else if other@ is Nan {
            self
        } else if self@.le(other@) {
            other
        } else {
            self
        }
    }
}

impl View for Binary64 {
    type V = Value;

    open spec fn view(&self) -> Value {
        if self.magnitude() > INFINITY_BITS {
            Value::Nan
        } else if self.magnitude() == INFINITY_BITS {
            Value::Infinite { negative: self.negative() }
        } else if self.negative() {
            Value::Finite { scaled: -(scaled_magnitude(self.magnitude()) as int) }
        } else {
            Value::Finite { scaled: scaled_magnitude(self.magnitude()) as int }
        }
    }
}

/// Among finite magnitudes, a larger pattern stands for a larger number.
pub proof fn lemma_scaled_magnitude_increases(a: nat, b: nat)
    requires
        a < b < INFINITY_BITS,
    ensures
        scaled_magnitude(a) < scaled_magnitude(b),
{
    let m = FRACTION_MODULUS as nat;
    let ea = a / m;
    let fa = a % m;
    let eb = b / m;
    let fb = b % m;
    assert(ea <= eb && (ea == eb ==> fa < fb) && fa < m && fb < m) by (nonlinear_arith)
        requires
            a < b,
            m == 0x0010_0000_0000_0000,
            ea == a / m,
            fa == a % m,
            eb == b / m,
            fb == b % m,
    ;
    if ea == eb {
        if ea > 0 {
            let p = pow2((ea - 1) as nat);
            lemma_pow2_pos((ea - 1) as nat);
            assert((m + fa) * p < (m + fb) * p) by (nonlinear_arith)
                requires
                    fa < fb,
                    p > 0,
            ;
        }
    } else {
        // The numbers of one exponent field all lie below those of the next.
        let q = pow2((eb - 1) as nat);
        lemma_pow2_pos((eb - 1) as nat);
        assert(m * q <= (m + fb) * q) by (nonlinear_arith)
            requires
                q > 0,
        ;
        if ea == 0 {
            assert(m * 1 <= m * q) by (nonlinear_arith)
                requires
                    q >= 1,
            ;
        } else {
            let p = pow2((ea - 1) as nat);
            lemma_pow2_pos((ea - 1) as nat);
            lemma_pow2_unfold(ea);
            if ea < eb - 1 {
                lemma_pow2_strictly_increases(ea, (eb - 1) as nat);
            }
            assert((m + fa) * p < m * q) by (nonlinear_arith)
                requires
                    fa < m,
                    p > 0,
                    2 * p <= q,
            ;
        }
    }
}

/// The view keeps everything but the payload of a NaN and the sign of zero:
/// two patterns with the same value, not a NaN, are the same pattern or are
/// the two zeros.
pub proof fn lemma_value_determines_bits(a: Binary64, b: Binary64)
    requires
        a@ == b@,
        !(a@ is Nan),
    ensures
        a.bits == b.bits || a@ == Value::zero(),
{
    let ma = a.magnitude();
    let mb = b.magnitude();
    if ma < INFINITY_BITS && mb < INFINITY_BITS {
        if ma < mb {
            lemma_scaled_magnitude_increases(ma, mb);
        }
        if mb < ma {
            lemma_scaled_magnitude_increases(mb, ma);
        }
        if 0 < ma {
            lemma_scaled_magnitude_increases(0, ma);
        }
    }
}

/// On values that are not NaN, `le` is a total order.
pub proof fn lemma_le_is_total_order(a: Value, b: Value, c: Value)
    requires
        !(a is Nan),
        !(b is Nan),
        !(c is Nan),
    ensures
        a.le(a),
        a.le(b) || b.le(a),
        a.le(b) && b.le(a) ==> a == b,
        a.le(b) && b.le(c) ==> a.le(c),
{
}

/// Whether `x` is a positive normal number within half a unit in its last
/// place of the fraction `num / den`.
pub open spec fn approximates(x: Binary64, num: nat, den: nat) -> bool {
    let e = x.bits as nat / (FRACTION_MODULUS as nat);
    let unit = pow2((e - 1) as nat);
    let error = den * scaled_magnitude(x.bits as nat) - num * pow2(1074);
    &&& 0 < e < 2047
    &&& den > 0
    &&& -(den * unit) <= 2 * error <= den * unit
}

/// A number with exponent field `e` and significand `m` approximates
/// `num / den` when `m / 2^(1075 - e)` does so to half a unit of `m`.
pub proof fn lemma_approximates(x: Binary64, num: nat, den: nat, e: nat, m: nat)
    requires
        0 < e < 2047,
        e <= 1075,
        FRACTION_MODULUS <= m < 2 * FRACTION_MODULUS,
        x.bits == e * FRACTION_MODULUS + (m - FRACTION_MODULUS),
        den > 0,
        -(den as int) <= 2 * (den * m - num * pow2((1075 - e) as nat)) <= den,
    ensures
        approximates(x, num, den),
{
    let modulus = FRACTION_MODULUS as nat;
    let f = (m - modulus) as nat;
    assert((e * modulus + f) / modulus == e && (e * modulus + f) % modulus == f)
        by (nonlinear_arith)
        requires
            f < modulus,
    ;
    let unit = pow2((e - 1) as nat);
    let lift = pow2((1075 - e) as nat);
    lemma_pow2_pos((e - 1) as nat);
    lemma_pow2_adds((1075 - e) as nat, (e - 1) as nat);
    assert(pow2(1074) == lift * unit);
    assert(scaled_magnitude(x.bits as nat) == m * unit);
    let error = den * (m * unit) - num * (lift * unit);
    assert(-(den * unit) <= 2 * error <= den * unit) by (nonlinear_arith)
        requires
            error == den * (m * unit) - num * (lift * unit),
            -(den as int) <= 2 * (den * m - num * lift) <= den,
            unit > 0,
    ;
}

impl Binary64 {
    /// The number with the given bit pattern.
    pub fn from_bits(bits: u64) -> (r: Binary64)
        ensures
            r.bits == bits,
    {
        Binary64 { bits }
    }

    /// The bit pattern.
    pub fn to_bits(self) -> (r: u64)
        ensures
            r == self.bits,
    {
        self.bits
    }

    /// Positive zero, the all-zero pattern.
    pub fn zero() -> (r: Binary64)
        ensures
            r.bits == 0,
            r@ == Value::zero(),
    {
        Binary64 { bits: 0 }
    }

    /// Whether this is a NaN.
    pub fn is_nan(self) -> (r: bool)
        ensures
            r == (self@ is Nan),
    {
        let bits: u64 = self.bits;
        assert(bits & 0x7FFF_FFFF_FFFF_FFFF == bits % 0x8000_0000_0000_0000) by (bit_vector);
        (bits & MAGNITUDE_MASK) > INFINITY_BITS
    }

    /// The number with the opposite sign: the same pattern with the sign bit
    /// flipped.
    pub fn neg(self) -> (r: Binary64)
        ensures
            r == self.opposite(),
            r@ == self@.neg(),
    {
        let bits: u64 = self.bits;
        assert(bits ^ 0x8000_0000_0000_0000 == if bits >= 0x8000_0000_0000_0000 {
            (bits - 0x8000_0000_0000_0000) as u64
        } else {
            (bits + 0x8000_0000_0000_0000) as u64
        }) by (bit_vector);
        Binary64 { bits: bits ^ SIGN_BIT }
    }

    /// The absolute value: the same pattern with the sign bit cleared.
    pub fn abs(self) -> (r: Binary64)
        ensures
            r.bits == self.bits % SIGN_BIT,
            r@ == self@.abs(),
    {
        let bits: u64 = self.bits;
        assert(bits & 0x7FFF_FFFF_FFFF_FFFF == bits % 0x8000_0000_0000_0000) by (bit_vector);
        Binary64 { bits: bits & MAGNITUDE_MASK }
    }

    /// Whether `self <= other` holds of the two values. This is false when
    /// either is a NaN, and the two zeros count as equal.
    pub fn le(self, other: Binary64) -> (r: bool)
        ensures
            r == self@.le(other@),
    {
        let a: u64 = self.abs().bits;
        let b: u64 = other.abs().bits;
        if a > INFINITY_BITS || b > INFINITY_BITS {
            return false;
        }
        proof {
            if a < b && b < INFINITY_BITS {
                lemma_scaled_magnitude_increases(a as nat, b as nat);
            }
            if b < a && a < INFINITY_BITS {
                lemma_scaled_magnitude_increases(b as nat, a as nat);
            }
            if 0 < a && a < INFINITY_BITS {
                lemma_scaled_magnitude_increases(0, a as nat);
            }
            if 0 < b && b < INFINITY_BITS {
                lemma_scaled_magnitude_increases(0, b as nat);
            }
        }
        if self.bits >= SIGN_BIT {
            if other.bits >= SIGN_BIT {
                b <= a
            } else {
                true
            }
        } else {
            if other.bits >= SIGN_BIT {
                a == 0 && b == 0
            } else {
                a <= b
            }
        }
    }

    /// The larger of two numbers, passing over a NaN.
    pub fn max(self, other: Binary64) -> (r: Binary64)
        ensures
            r == self.larger(other),
    {
        if self.is_nan() {
            other
        } else if other.is_nan() {
            self
        } else if self.le(other) {
            other
        } else {
            self
        }
    }
}

} // verus!
