//! Binary floating-point values carried by their bit patterns.
//!
//! The library never computes with floating-point numbers, but it decides on them: it compares
//! them, asks whether they are finite, and takes minima. All of that is a question about the bits,
//! so a value is its IEEE 754 interchange encoding and its order is the order of a signed key.
use vstd::arithmetic::power2::{lemma_pow2_adds, lemma_pow2_pos, lemma_pow2_strictly_increases, lemma_pow2_unfold, pow2};
use vstd::prelude::*;

verus! {

/// Weight of the sign bit of a binary64 encoding.
pub const SIGN64: u64 = 0x8000_0000_0000_0000;

/// Magnitude of a binary64 infinity; larger magnitudes are NaNs.
pub const INFINITE64: u64 = 0x7ff0_0000_0000_0000;

/// Weight of the sign bit of a binary32 encoding.
pub const SIGN32: u32 = 0x8000_0000;

/// Magnitude of a binary32 infinity; larger magnitudes are NaNs.
pub const INFINITE32: u32 = 0x7f80_0000;

/// A binary64 value by its encoding.
#[derive(Clone, Copy, Debug, PartialEq, Eq, Hash, Structural)]
pub struct Real64 {
    pub bits: u64,
}

/// A binary32 value by its encoding.
#[derive(Clone, Copy, Debug, PartialEq, Eq, Hash, Structural)]
pub struct Real32 {
    pub bits: u32,
}

impl Real64 {
    /// The encoding without its sign bit.
    pub open spec fn magnitude(self) -> int {
        if self.bits >= SIGN64 {
            self.bits - SIGN64
        } else {
            self.bits as int
        }
    }

    /// The signed magnitude: numeric order of two numbers is the order of their keys, and both
    /// zeros have the key zero.
    pub open spec fn key(self) -> int {
        if self.bits >= SIGN64 {
            -self.magnitude()
        } else {
            self.magnitude()
        }
    }

    /// Whether the value is not a number.
    pub open spec fn nan(self) -> bool {
        self.magnitude() > INFINITE64
    }

    /// Whether the value is neither an infinity nor a NaN.
    pub open spec fn finite(self) -> bool {
        self.magnitude() < INFINITE64
    }

    /// `self < other` as numbers; false when either is a NaN.
    pub open spec fn below(self, other: Real64) -> bool {
        !self.nan() && !other.nan() && self.key() < other.key()
    }

    /// `self <= other` as numbers; false when either is a NaN.
    pub open spec fn at_most(self, other: Real64) -> bool {
        !self.nan() && !other.nan() && self.key() <= other.key()
    }

    /// `self == other` as numbers; false when either is a NaN, true of the two zeros.
    pub open spec fn same(self, other: Real64) -> bool {
        !self.nan() && !other.nan() && self.key() == other.key()
    }

    /// The smaller number; a NaN gives way to the other argument.
    pub open spec fn smaller(self, other: Real64) -> Real64 {
        if self.nan() {
            other
        } else if other.nan() || self.key() <= other.key() {
            self
        } else {
            other
        }
    }

    /// The larger number; a NaN gives way to the other argument.
    pub open spec fn larger(self, other: Real64) -> Real64 {
        if self.nan() {
            other
        } else if other.nan() || self.key() >= other.key() {
            self
        } else {
            other
        }
    }

    pub fn from_bits(bits: u64) -> (r: Real64)
        ensures
            r.bits == bits,
    {
        Real64 { bits }
    }

    /// Positive zero.
    pub fn zero() -> (r: Real64)
        ensures
            r.bits == 0,
            r.key() == 0,
            r.finite(),
    {
        Real64 { bits: 0 }
    }

    fn raw_magnitude(self) -> (r: u64)
        ensures
            r == self.magnitude(),
    {
        if self.bits >= SIGN64 {
            self.bits - SIGN64
        } else {
            self.bits
        }
    }

    pub fn is_nan(self) -> (r: bool)
        ensures
            r == self.nan(),
    {
        self.raw_magnitude() > INFINITE64
    }

    pub fn is_finite(self) -> (r: bool)
        ensures
            r == self.finite(),
    {
        self.raw_magnitude() < INFINITE64
    }

    /// Compares the signed keys, whatever the values are.
    fn key_below(self, other: Real64) -> (r: bool)
        ensures
            r == (self.key() < other.key()),
    {
        let a: u64 = self.raw_magnitude();
        let b: u64 = other.raw_magnitude();
        if self.bits >= SIGN64 {
            if other.bits >= SIGN64 {
                b < a
            } else {
                a > 0 || b > 0
            }
        } else {
            other.bits < SIGN64 && a < b
        }
    }

    pub fn lt(self, other: Real64) -> (r: bool)
        ensures
            r == self.below(other),
    {
        !self.is_nan() && !other.is_nan() && self.key_below(other)
    }

    pub fn le(self, other: Real64) -> (r: bool)
        ensures
            r == self.at_most(other),
    {
        !self.is_nan() && !other.is_nan() && !other.key_below(self)
    }

    pub fn eq_value(self, other: Real64) -> (r: bool)
        ensures
            r == self.same(other),
    {
        !self.is_nan() && !other.is_nan() && !self.key_below(other) && !other.key_below(self)
    }

    pub fn min(self, other: Real64) -> (r: Real64)
        ensures
            r == self.smaller(other),
    {
        if self.is_nan() {
            other
        } else if other.is_nan() || !other.key_below(self) {
            self
        } else {
            other
        }
    }

    pub fn max(self, other: Real64) -> (r: Real64)
        ensures
            r == self.larger(other),
    {
        if self.is_nan() {
            other
        } else if other.is_nan() || !self.key_below(other) {
            self
        } else {
            other
        }
    }
}

impl Real32 {
    /// The encoding without its sign bit.
    pub open spec fn magnitude(self) -> int {
        if self.bits >= SIGN32 {
            self.bits - SIGN32
        } else {
            self.bits as int
        }
    }

    /// The signed magnitude, ordered as the numbers are.
    pub open spec fn key(self) -> int {
        if self.bits >= SIGN32 {
            -self.magnitude()
        } else {
            self.magnitude()
        }
    }

    /// Whether the value is not a number.
    pub open spec fn nan(self) -> bool {
        self.magnitude() > INFINITE32
    }

    /// Whether the value is neither an infinity nor a NaN.
    pub open spec fn finite(self) -> bool {
        self.magnitude() < INFINITE32
    }

    /// `self < other` as numbers; false when either is a NaN.
    pub open spec fn below(self, other: Real32) -> bool {
        !self.nan() && !other.nan() && self.key() < other.key()
    }

    /// `self <= other` as numbers; false when either is a NaN.
    pub open spec fn at_most(self, other: Real32) -> bool {
        !self.nan() && !other.nan() && self.key() <= other.key()
    }

    /// `self == other` as numbers; false when either is a NaN, true of the two zeros.
    pub open spec fn same(self, other: Real32) -> bool {
        !self.nan() && !other.nan() && self.key() == other.key()
    }

    /// The smaller number; a NaN gives way to the other argument.
    pub open spec fn smaller(self, other: Real32) -> Real32 {
        if self.nan() {
            other
        } else if other.nan() || self.key() <= other.key() {
            self
        } else {
            other
        }
    }

    pub fn from_bits(bits: u32) -> (r: Real32)
        ensures
            r.bits == bits,
    {
        Real32 { bits }
    }

    /// Positive zero.
    pub fn zero() -> (r: Real32)
        ensures
            r.bits == 0,
            r.key() == 0,
            r.finite(),
    {
        Real32 { bits: 0 }
    }

    /// Positive infinity.
    pub fn infinity() -> (r: Real32)
        ensures
            r.bits == INFINITE32,
    {
        Real32 { bits: INFINITE32 }
    }

    fn raw_magnitude(self) -> (r: u32)
        ensures
            r == self.magnitude(),
    {
        if self.bits >= SIGN32 {
            self.bits - SIGN32
        } else {
            self.bits
        }
    }

    pub fn is_nan(self) -> (r: bool)
        ensures
            r == self.nan(),
    {
        self.raw_magnitude() > INFINITE32
    }

    pub fn is_finite(self) -> (r: bool)
        ensures
            r == self.finite(),
    {
        self.raw_magnitude() < INFINITE32
    }

    /// Compares the signed keys, whatever the values are.
    fn key_below(self, other: Real32) -> (r: bool)
        ensures
            r == (self.key() < other.key()),
    {
        let a: u32 = self.raw_magnitude();
        let b: u32 = other.raw_magnitude();
        if self.bits >= SIGN32 {
            if other.bits >= SIGN32 {
                b < a
            } else {
                a > 0 || b > 0
            }
        } else {
            other.bits < SIGN32 && a < b
        }
    }

    pub fn lt(self, other: Real32) -> (r: bool)
        ensures
            r == self.below(other),
    {
        !self.is_nan() && !other.is_nan() && self.key_below(other)
    }

    pub fn le(self, other: Real32) -> (r: bool)
        ensures
            r == self.at_most(other),
    {
        !self.is_nan() && !other.is_nan() && !other.key_below(self)
    }

    pub fn eq_value(self, other: Real32) -> (r: bool)
        ensures
            r == self.same(other),
    {
        !self.is_nan() && !other.is_nan() && !self.key_below(other) && !other.key_below(self)
    }

    pub fn min(self, other: Real32) -> (r: Real32)
        ensures
            r == self.smaller(other),
    {
        if self.is_nan() {
            other
        } else if other.is_nan() || !other.key_below(self) {
            self
        } else {
            other
        }
    }
}

/// The integer nearest to `n / d`, an exact half going to the even neighbour.
pub open spec fn nearest_even(n: int, d: int) -> int {
    let q = n / d;
    let r = n % d;
    if 2 * r > d || (2 * r == d && q % 2 == 1) {
        q + 1
    } else {
        q
    }
}

/// The encoding of the binary floating-point number nearest to the positive integer `n`, whose
/// leading bit has the weight `2^e`, in a format with `p` stored significand bits and bias `b`.
///
/// A significand that rounds up to the next power of two carries into the exponent by itself.
pub open spec fn encoded_integer(n: int, e: nat, p: nat, b: nat) -> int {
    let significand = if e <= p {
        n * pow2((p - e) as nat)
    } else {
        nearest_even(n, pow2((e - p) as nat) as int)
    };
    (b + e - 1) * pow2(p) + significand
}

/// `e` is the position of the leading bit of `n`.
pub open spec fn leading_bit(n: int, e: nat) -> bool {
    pow2(e) <= n < pow2(e + 1)
}

/// `r` is the binary64 number nearest to `n`.
pub open spec fn encodes64(n: int, r: Real64) -> bool {
    if n == 0 {
        r.bits == 0
    } else {
        exists|e: nat| #[trigger] leading_bit(n, e) && r.bits == encoded_integer(n, e, 52, 1023)
    }
}

/// The binary64 number nearest to a natural number.
pub open spec fn nearest64(n: int) -> Real64 {
    choose|r: Real64| encodes64(n, r)
}

/// The binary32 number nearest to a natural number.
pub open spec fn nearest32(n: int) -> Real32 {
    choose|r: Real32| encodes32(n, r)
}

/// The leading bit of a positive integer has one position.
pub proof fn lemma_leading_bit_unique(n: int, e: nat, f: nat)
    requires
        leading_bit(n, e),
        leading_bit(n, f),
    ensures
        e == f,
{
    if e < f {
        if e + 1 < f {
            lemma_pow2_strictly_increases(e + 1, f);
        }
    } else if f < e {
        if f + 1 < e {
            lemma_pow2_strictly_increases(f + 1, e);
        }
    }
}

/// `r` is the binary32 number nearest to `n`.
pub open spec fn encodes32(n: int, r: Real32) -> bool {
    if n == 0 {
        r.bits == 0
    } else {
        exists|e: nat| #[trigger] leading_bit(n, e) && r.bits == encoded_integer(n, e, 23, 127)
    }
}

/// `2^k`.
fn power_of_two(k: u32) -> (r: u64)
    requires
        k < 64,
    ensures
        r == pow2(k as nat),
{
    let mut r: u64 = 1;
    let mut i: u32 = 0;
    proof {
        lemma_pow2(0);
    }
    while i < k
        invariant
            i <= k < 64,
            r == pow2(i as nat),
        decreases k - i,
    {
        proof {
            lemma_pow2_unfold((i + 1) as nat);
            lemma_pow2_below_word((i + 1) as nat);
        }
        r = r * 2;
        i = i + 1;
    }
    r
}

/// Powers of two with an exponent under 64 fit in a 64-bit word.
proof fn lemma_pow2_below_word(k: nat)
    requires
        k < 64,
    ensures
        1 <= pow2(k) <= 0x8000_0000_0000_0000,
{
    lemma_pow2_pos(k);
    vstd::arithmetic::power2::lemma2_to64();
    vstd::arithmetic::power2::lemma2_to64_rest();
    if k < 63 {
        lemma_pow2_strictly_increases(k, 63);
    }
}

proof fn lemma_pow2(k: nat)
    ensures
        pow2(0) == 1,
        pow2(k) >= 1,
{
    vstd::arithmetic::power2::lemma2_to64();
    lemma_pow2_pos(k);
}

/// The position of the leading bit of a positive integer.
fn leading_position(n: u64) -> (e: u32)
    requires
        n > 0,
    ensures
        e < 64,
        leading_bit(n as int, e as nat),
{
    let mut e: u32 = 0;
    let mut weight: u64 = 1;
    proof {
        lemma_pow2(0);
    }
    while n / 2 >= weight
        invariant
            e < 64,
            1 <= weight <= n,
            weight == pow2(e as nat),
        decreases n - weight,
    {
        proof {
            lemma_pow2_unfold((e + 1) as nat);
            if e == 63 {
                vstd::arithmetic::power2::lemma2_to64_rest();
            }
        }
        weight = weight * 2;
        e = e + 1;
    }
    proof {
        lemma_pow2_unfold((e + 1) as nat);
    }
    e
}

impl Real64 {
    /// The number nearest to an unsigned integer, an exact half going to the even neighbour.
    pub fn from_u64(n: u64) -> (r: Real64)
        ensures
            encodes64(n as int, r),
            r == nearest64(n as int),
            r.bits <= 1087 * 0x10_0000_0000_0000,
    {
        if n == 0 {
            proof {
                assert(encodes64(0, Real64 { bits: 0 }));
            }
            return Real64 { bits: 0 };
        }
        let e: u32 = leading_position(n);
        proof {
            vstd::arithmetic::power2::lemma2_to64();
            vstd::arithmetic::power2::lemma2_to64_rest();
        }
        let significand: u64 = if e <= 52 {
            let scale: u64 = power_of_two(52 - e);
            proof {
                lemma_pow2_adds((e + 1) as nat, (52 - e) as nat);
                assert(n * scale <= pow2((e + 1) as nat) * scale) by (nonlinear_arith)
                    requires
                        n <= pow2((e + 1) as nat),
                ;
            }
            n * scale
        } else {
            let d: u64 = power_of_two(e - 52);
            proof {
                lemma_pow2_pos((e - 52) as nat);
                lemma_pow2_adds(53, (e - 52) as nat);
                assert(n / d < pow2(53)) by (nonlinear_arith)
                    requires
                        n < pow2((e + 1) as nat),
                        pow2((e + 1) as nat) == pow2(53) * d,
                        d > 0,
                ;
            }
            round_quotient(n, d)
        };
        proof {
            assert(e <= 63);
            assert(significand <= 0x20_0000_0000_0000);
        }
        let bits: u64 = (1022 + e as u64) * 0x10_0000_0000_0000 + significand;
        proof {
            assert(bits == encoded_integer(n as int, e as nat, 52, 1023));
            assert(encodes64(n as int, Real64 { bits }));
            let r = nearest64(n as int);
            let f = choose|f: nat| #[trigger]
                leading_bit(n as int, f) && r.bits == encoded_integer(n as int, f, 52, 1023);
            lemma_leading_bit_unique(n as int, e as nat, f);
        }
        Real64 { bits }
    }
}

impl Real32 {
    /// The number nearest to an unsigned integer, an exact half going to the even neighbour.
    pub fn from_u32(n: u32) -> (r: Real32)
        ensures
            encodes32(n as int, r),
            r == nearest32(n as int),
    {
        if n == 0 {
            proof {
                assert(encodes32(0, Real32 { bits: 0 }));
            }
            return Real32 { bits: 0 };
        }
        let e: u32 = leading_position(n as u64);
        proof {
            vstd::arithmetic::power2::lemma2_to64();
            vstd::arithmetic::power2::lemma2_to64_rest();
            if e > 31 {
                if e > 32 {
                    lemma_pow2_strictly_increases(32, e as nat);
                }
                assert(false);
            }
        }
        let wide: u64 = n as u64;
        let significand: u64 = if e <= 23 {
            let scale: u64 = power_of_two(23 - e);
            proof {
                lemma_pow2_adds((e + 1) as nat, (23 - e) as nat);
                assert(wide * scale <= pow2((e + 1) as nat) * scale) by (nonlinear_arith)
                    requires
                        wide <= pow2((e + 1) as nat),
                ;
            }
            wide * scale
        } else {
            let d: u64 = power_of_two(e - 23);
            proof {
                lemma_pow2_pos((e - 23) as nat);
                lemma_pow2_adds(24, (e - 23) as nat);
                assert(wide / d <= pow2(24)) by (nonlinear_arith)
                    requires
                        wide < pow2((e + 1) as nat),
                        pow2((e + 1) as nat) == pow2(24) * d,
                        d > 0,
                ;
            }
            round_quotient(wide, d)
        };
        let bits: u64 = (126 + e as u64) * 0x80_0000 + significand;
        proof {
            assert(bits == encoded_integer(n as int, e as nat, 23, 127));
            assert(encodes32(n as int, Real32 { bits: bits as u32 }));
            let r = nearest32(n as int);
            let f = choose|f: nat| #[trigger]
                leading_bit(n as int, f) && r.bits == encoded_integer(n as int, f, 23, 127);
            lemma_leading_bit_unique(n as int, e as nat, f);
        }
        Real32 { bits: bits as u32 }
    }
}

/// The integer nearest to `n / d`.
fn round_quotient(n: u64, d: u64) -> (r: u64)
    requires
        0 < d <= 0x8000_0000_0000_0000,
        n / d < u64::MAX,
    ensures
        r == nearest_even(n as int, d as int),
        r <= n / d + 1,
{
    let q: u64 = n / d;
    let r: u64 = n % d;
    let half: u64 = d - r;
    if r > half || (r == half && q % 2 == 1) {
        q + 1
    } else {
        q
    }
}

/// A significand doubled until its leading bit has the weight of binary32's, with the exponent that
/// keeps the product of both the same.
pub open spec fn normalized(significand: int, exponent: int) -> (int, int)
    decreases 0x100_0000 - significand,
{
    if significand <= 0 || significand >= 0x80_0000 {
        (significand, exponent)
    } else {
        normalized(2 * significand, exponent - 1)
    }
}

/// The binary64 magnitude of the number with a finite binary32 magnitude.
pub open spec fn widened_magnitude(magnitude: int) -> int {
    let exponent = magnitude / 0x80_0000;
    let fraction = magnitude % 0x80_0000;
    if exponent > 0 {
        (exponent + 896) * 0x10_0000_0000_0000 + fraction * 0x2000_0000
    } else if fraction == 0 {
        0
    } else {
        let (significand, scale) = normalized(fraction, 897);
        scale * 0x10_0000_0000_0000 + (significand - 0x80_0000) * 0x2000_0000
    }
}

/// The binary64 encoding of a finite binary32 number.
pub open spec fn widened(x: Real32) -> Real64 {
    let magnitude = widened_magnitude(x.magnitude());
    Real64 {
        bits: if x.bits >= SIGN32 {
            (magnitude + SIGN64) as u64
        } else {
            magnitude as u64
        },
    }
}

impl Real32 {
    /// The same number in binary64.
    pub fn widen(self) -> (r: Real64)
        requires
            self.finite(),
        ensures
            r == widened(self),
            r.finite(),
    {
        let magnitude: u64 = self.raw_magnitude() as u64;
        let exponent: u64 = magnitude / 0x80_0000;
        let fraction: u64 = magnitude % 0x80_0000;
        let mut wide: u64 = 0;
        if exponent > 0 {
            wide = (exponent + 896) * 0x10_0000_0000_0000 + fraction * 0x2000_0000;
        } else if fraction > 0 {
            let mut significand: u64 = fraction;
            let mut scale: u64 = 897;
            proof {
                vstd::arithmetic::power2::lemma2_to64();
            }
            while significand < 0x80_0000
                invariant
                    0 < significand < 0x100_0000,
                    normalized(significand as int, scale as int) == normalized(
                        fraction as int,
                        897,
                    ),
                    873 <= scale <= 897,
                    significand >= pow2((897 - scale) as nat),
                decreases 0x100_0000 - significand,
            {
                proof {
                    lemma_pow2_unfold((898 - scale) as nat);
                    if scale == 873 {
                        vstd::arithmetic::power2::lemma2_to64();
                    }
                }
                significand = significand * 2;
                scale = scale - 1;
            }
            wide = scale * 0x10_0000_0000_0000 + (significand - 0x80_0000) * 0x2000_0000;
        }
        if self.bits >= SIGN32 {
            Real64 { bits: wide + SIGN64 }
        } else {
            Real64 { bits: wide }
        }
    }
}

} // verus!
