//! The values that an animation can move: what it asks of their type.

use vstd::prelude::*;

verus! {

/// The quotient of `a` by a positive `b`, rounded toward zero.
pub open spec fn trunc_div(a: int, b: int) -> int {
    if a >= 0 {
        a / b
    } else {
        -((-a) / b)
    }
}

/// `v` times the fraction `num / den`, rounded toward zero.
pub open spec fn scale_of(v: int, num: nat, den: nat) -> int {
    trunc_div(v * num, den as int)
}

/// A type of values that can be animated.
///
/// Each value stands for an integer, and the type holds every integer from `lowest()`
/// to `highest()`. The operations say what they compute over those integers; each
/// returns `None` exactly where the result is not one of the type's values.
pub trait Number: Copy + Sized {
    /// The integer that the value stands for.
    spec fn value(self) -> int;

    /// The least integer that the type holds.
    spec fn lowest() -> int;

    /// The greatest integer that the type holds.
    spec fn highest() -> int;

    /// Every value lies within the type's limits, and so do zero and one.
    proof fn lemma_limits(self)
        ensures
            Self::lowest() <= self.value() <= Self::highest(),
            Self::lowest() <= 0,
            1 <= Self::highest(),
    ;

    /// The additive identity.
    fn zero() -> (r: Self)
        ensures
            r.value() == 0,
    ;

    /// The multiplicative identity.
    fn one() -> (r: Self)
        ensures
            r.value() == 1,
    ;

    /// The sum, where the type holds it.
    fn try_add(self, rhs: Self) -> (r: Option<Self>)
        ensures
            r is Some <==> Self::lowest() <= self.value() + rhs.value() <= Self::highest(),
            r matches Some(s) ==> s.value() == self.value() + rhs.value(),
    ;

    /// The difference, where the type holds it.
    fn try_sub(self, rhs: Self) -> (r: Option<Self>)
        ensures
            r is Some <==> Self::lowest() <= self.value() - rhs.value() <= Self::highest(),
            r matches Some(s) ==> s.value() == self.value() - rhs.value(),
    ;

    /// The value times the fraction `num / den`, rounded toward zero, where `den` is
    /// not zero and the type holds the result.
    fn try_scale(self, num: u64, den: u64) -> (r: Option<Self>)
        ensures
            r is Some <==> den > 0 && Self::lowest() <= scale_of(self.value(), num as nat, den as nat)
                <= Self::highest(),
            r matches Some(s) ==> s.value() == scale_of(self.value(), num as nat, den as nat),
    ;

    /// Whether the value is `bound` or more.
    fn at_least(self, bound: Self) -> (b: bool)
        ensures
            b == (self.value() >= bound.value()),
    ;
}

/// The product of two 64-bit numbers fits in 128 bits.
proof fn lemma_product_fits(a: u64, b: u64)
    ensures
        0 <= a * b <= u128::MAX,
{
    assert(0 <= a * b <= 0xffff_ffff_ffff_ffff * 0xffff_ffff_ffff_ffff) by (nonlinear_arith)
        requires
            0 <= a <= 0xffff_ffff_ffff_ffff,
            0 <= b <= 0xffff_ffff_ffff_ffff,
    ;
}

/// `magnitude * num / den`, rounded down.
fn scale_magnitude(magnitude: u64, num: u64, den: u64) -> (q: u128)
    requires
        den > 0,
    ensures
        q == (magnitude * num) / (den as int),
{
    proof {
        lemma_product_fits(magnitude, num);
    }
    (magnitude as u128 * num as u128) / den as u128
}

/// A signed value times `num / den`, rounded toward zero, where the result lies from
/// `lo` to `hi`.
fn scale_signed(v: i64, num: u64, den: u64, lo: i64, hi: i64) -> (r: Option<i64>)
    requires
        lo <= 0 <= hi,
    ensures
        r is Some <==> den > 0 && lo <= scale_of(v as int, num as nat, den as nat) <= hi,
        r matches Some(s) ==> s == scale_of(v as int, num as nat, den as nat),
{
    if den == 0 {
        return None;
    }
    if v >= 0 {
        let q: u128 = scale_magnitude(v as u64, num, den);
        assert(v * num >= 0) by (nonlinear_arith)
            requires
                v >= 0,
                num >= 0,
        ;
        if q <= hi as u128 {
            Some(q as i64)
        } else {
            None
        }
    } else {
        let magnitude: u64 = (-(v as i128)) as u64;
        let q: u128 = scale_magnitude(magnitude, num, den);
        assert((-v) * num == -(v * num)) by (nonlinear_arith);
        assert((-v) * num >= 0) by (nonlinear_arith)
            requires
                v < 0,
                num >= 0,
        ;
        if q <= (-(lo as i128)) as u128 {
            Some((-(q as i128)) as i64)
        } else {
            None
        }
    }
}

/// An unsigned value times `num / den`, rounded down, where the result is at most `hi`.
fn scale_unsigned(v: u64, num: u64, den: u64, hi: u64) -> (r: Option<u64>)
    ensures
        r is Some <==> den > 0 && scale_of(v as int, num as nat, den as nat) <= hi,
        r matches Some(s) ==> s == scale_of(v as int, num as nat, den as nat),
{
    if den == 0 {
        return None;
    }
    let q: u128 = scale_magnitude(v, num, den);
    assert(v * num >= 0) by (nonlinear_arith)
        requires
            v >= 0,
            num >= 0,
    ;
    if q <= hi as u128 {
        Some(q as u64)
    } else {
        None
    }
}

/// A wide signed number as a 64-bit one, where it lies from `lo` to `hi`.
fn narrow_signed(wide: i128, lo: i64, hi: i64) -> (r: Option<i64>)
    ensures
        r is Some <==> lo <= wide <= hi,
        r matches Some(s) ==> s == wide,
{
    if lo as i128 <= wide && wide <= hi as i128 {
        Some(wide as i64)
    } else {
        None
    }
}

/// A wide signed number as an unsigned 64-bit one, where it lies from zero to `hi`.
fn narrow_unsigned(wide: i128, hi: u64) -> (r: Option<u64>)
    ensures
        r is Some <==> 0 <= wide <= hi,
        r matches Some(s) ==> s == wide,
{
    if 0 <= wide && wide <= hi as i128 {
        Some(wide as u64)
    } else {
        None
    }
}

impl Number for isize {
    open spec fn value(self) -> int {
        self as int
    }

    open spec fn lowest() -> int {
        isize::MIN as int
    }

    open spec fn highest() -> int {
        isize::MAX as int
    }

    proof fn lemma_limits(self) {
    }

    fn zero() -> isize {
        0
    }

    fn one() -> isize {
        1
    }

    fn try_add(self, rhs: isize) -> Option<isize> {
        match narrow_signed(self as i128 + rhs as i128, isize::MIN as i64, isize::MAX as i64) {
            Some(s) => Some(s as isize),
            None => None,
        }
    }

    fn try_sub(self, rhs: isize) -> Option<isize> {
        match narrow_signed(self as i128 - rhs as i128, isize::MIN as i64, isize::MAX as i64) {
            Some(s) => Some(s as isize),
            None => None,
        }
    }

    fn try_scale(self, num: u64, den: u64) -> Option<isize> {
        match scale_signed(self as i64, num, den, isize::MIN as i64, isize::MAX as i64) {
            Some(s) => Some(s as isize),
            None => None,
        }
    }

    fn at_least(self, bound: isize) -> bool {
        self >= bound
    }
}

impl Number for i8 {
    open spec fn value(self) -> int {
        self as int
    }

    open spec fn lowest() -> int {
        i8::MIN as int
    }

    open spec fn highest() -> int {
        i8::MAX as int
    }

    proof fn lemma_limits(self) {
    }

    fn zero() -> i8 {
        0
    }

    fn one() -> i8 {
        1
    }

    fn try_add(self, rhs: i8) -> Option<i8> {
        match narrow_signed(self as i128 + rhs as i128, i8::MIN as i64, i8::MAX as i64) {
            Some(s) => Some(s as i8),
            None => None,
        }
    }

    fn try_sub(self, rhs: i8) -> Option<i8> {
        match narrow_signed(self as i128 - rhs as i128, i8::MIN as i64, i8::MAX as i64) {
            Some(s) => Some(s as i8),
            None => None,
        }
    }

    fn try_scale(self, num: u64, den: u64) -> Option<i8> {
        match scale_signed(self as i64, num, den, i8::MIN as i64, i8::MAX as i64) {
            Some(s) => Some(s as i8),
            None => None,
        }
    }

    fn at_least(self, bound: i8) -> bool {
        self >= bound
    }
}

impl Number for i16 {
    open spec fn value(self) -> int {
        self as int
    }

    open spec fn lowest() -> int {
        i16::MIN as int
    }

    open spec fn highest() -> int {
        i16::MAX as int
    }

    proof fn lemma_limits(self) {
    }

    fn zero() -> i16 {
        0
    }

    fn one() -> i16 {
        1
    }

    fn try_add(self, rhs: i16) -> Option<i16> {
        match narrow_signed(self as i128 + rhs as i128, i16::MIN as i64, i16::MAX as i64) {
            Some(s) => Some(s as i16),
            None => None,
        }
    }

    fn try_sub(self, rhs: i16) -> Option<i16> {
        match narrow_signed(self as i128 - rhs as i128, i16::MIN as i64, i16::MAX as i64) {
            Some(s) => Some(s as i16),
            None => None,
        }
    }

    fn try_scale(self, num: u64, den: u64) -> Option<i16> {
        match scale_signed(self as i64, num, den, i16::MIN as i64, i16::MAX as i64) {
            Some(s) => Some(s as i16),
            None => None,
        }
    }

    fn at_least(self, bound: i16) -> bool {
        self >= bound
    }
}

impl Number for i32 {
    open spec fn value(self) -> int {
        self as int
    }

    open spec fn lowest() -> int {
        i32::MIN as int
    }

    open spec fn highest() -> int {
        i32::MAX as int
    }

    proof fn lemma_limits(self) {
    }

    fn zero() -> i32 {
        0
    }

    fn one() -> i32 {
        1
    }

    fn try_add(self, rhs: i32) -> Option<i32> {
        match narrow_signed(self as i128 + rhs as i128, i32::MIN as i64, i32::MAX as i64) {
            Some(s) => Some(s as i32),
            None => None,
        }
    }

    fn try_sub(self, rhs: i32) -> Option<i32> {
        match narrow_signed(self as i128 - rhs as i128, i32::MIN as i64, i32::MAX as i64) {
            Some(s) => Some(s as i32),
            None => None,
        }
    }

    fn try_scale(self, num: u64, den: u64) -> Option<i32> {
        match scale_signed(self as i64, num, den, i32::MIN as i64, i32::MAX as i64) {
            Some(s) => Some(s as i32),
            None => None,
        }
    }

    fn at_least(self, bound: i32) -> bool {
        self >= bound
    }
}

impl Number for i64 {
    open spec fn value(self) -> int {
        self as int
    }

    open spec fn lowest() -> int {
        i64::MIN as int
    }

    open spec fn highest() -> int {
        i64::MAX as int
    }

    proof fn lemma_limits(self) {
    }

    fn zero() -> i64 {
        0
    }

    fn one() -> i64 {
        1
    }

    fn try_add(self, rhs: i64) -> Option<i64> {
        match narrow_signed(self as i128 + rhs as i128, i64::MIN as i64, i64::MAX as i64) {
            Some(s) => Some(s as i64),
            None => None,
        }
    }

    fn try_sub(self, rhs: i64) -> Option<i64> {
        match narrow_signed(self as i128 - rhs as i128, i64::MIN as i64, i64::MAX as i64) {
            Some(s) => Some(s as i64),
            None => None,
        }
    }

    fn try_scale(self, num: u64, den: u64) -> Option<i64> {
        match scale_signed(self as i64, num, den, i64::MIN as i64, i64::MAX as i64) {
            Some(s) => Some(s as i64),
            None => None,
        }
    }

    fn at_least(self, bound: i64) -> bool {
        self >= bound
    }
}

impl Number for usize {
    open spec fn value(self) -> int {
        self as int
    }

    open spec fn lowest() -> int {
        0
    }

    open spec fn highest() -> int {
        usize::MAX as int
    }

    proof fn lemma_limits(self) {
    }

    fn zero() -> usize {
        0
    }

    fn one() -> usize {
        1
    }

    fn try_add(self, rhs: usize) -> Option<usize> {
        match narrow_unsigned(self as i128 + rhs as i128, usize::MAX as u64) {
            Some(s) => Some(s as usize),
            None => None,
        }
    }

    fn try_sub(self, rhs: usize) -> Option<usize> {
        match narrow_unsigned(self as i128 - rhs as i128, usize::MAX as u64) {
            Some(s) => Some(s as usize),
            None => None,
        }
    }

    fn try_scale(self, num: u64, den: u64) -> Option<usize> {
        match scale_unsigned(self as u64, num, den, usize::MAX as u64) {
            Some(s) => Some(s as usize),
            None => None,
        }
    }

    fn at_least(self, bound: usize) -> bool {
        self >= bound
    }
}

impl Number for u8 {
    open spec fn value(self) -> int {
        self as int
    }

    open spec fn lowest() -> int {
        0
    }

    open spec fn highest() -> int {
        u8::MAX as int
    }

    proof fn lemma_limits(self) {
    }

    fn zero() -> u8 {
        0
    }

    fn one() -> u8 {
        1
    }

    fn try_add(self, rhs: u8) -> Option<u8> {
        match narrow_unsigned(self as i128 + rhs as i128, u8::MAX as u64) {
            Some(s) => Some(s as u8),
            None => None,
        }
    }

    fn try_sub(self, rhs: u8) -> Option<u8> {
        match narrow_unsigned(self as i128 - rhs as i128, u8::MAX as u64) {
            Some(s) => Some(s as u8),
            None => None,
        }
    }

    fn try_scale(self, num: u64, den: u64) -> Option<u8> {
        match scale_unsigned(self as u64, num, den, u8::MAX as u64) {
            Some(s) => Some(s as u8),
            None => None,
        }
    }

    fn at_least(self, bound: u8) -> bool {
        self >= bound
    }
}

impl Number for u16 {
    open spec fn value(self) -> int {
        self as int
    }

    open spec fn lowest() -> int {
        0
    }

    open spec fn highest() -> int {
        u16::MAX as int
    }

    proof fn lemma_limits(self) {
    }

    fn zero() -> u16 {
        0
    }

    fn one() -> u16 {
        1
    }

    fn try_add(self, rhs: u16) -> Option<u16> {
        match narrow_unsigned(self as i128 + rhs as i128, u16::MAX as u64) {
            Some(s) => Some(s as u16),
            None => None,
        }
    }

    fn try_sub(self, rhs: u16) -> Option<u16> {
        match narrow_unsigned(self as i128 - rhs as i128, u16::MAX as u64) {
            Some(s) => Some(s as u16),
            None => None,
        }
    }

    fn try_scale(self, num: u64, den: u64) -> Option<u16> {
        match scale_unsigned(self as u64, num, den, u16::MAX as u64) {
            Some(s) => Some(s as u16),
            None => None,
        }
    }

    fn at_least(self, bound: u16) -> bool {
        self >= bound
    }
}

impl Number for u32 {
    open spec fn value(self) -> int {
        self as int
    }

    open spec fn lowest() -> int {
        0
    }

    open spec fn highest() -> int {
        u32::MAX as int
    }

    proof fn lemma_limits(self) {
    }

    fn zero() -> u32 {
        0
    }

    fn one() -> u32 {
        1
    }

    fn try_add(self, rhs: u32) -> Option<u32> {
        match narrow_unsigned(self as i128 + rhs as i128, u32::MAX as u64) {
            Some(s) => Some(s as u32),
            None => None,
        }
    }

    fn try_sub(self, rhs: u32) -> Option<u32> {
        match narrow_unsigned(self as i128 - rhs as i128, u32::MAX as u64) {
            Some(s) => Some(s as u32),
            None => None,
        }
    }

    fn try_scale(self, num: u64, den: u64) -> Option<u32> {
        match scale_unsigned(self as u64, num, den, u32::MAX as u64) {
            Some(s) => Some(s as u32),
            None => None,
        }
    }

    fn at_least(self, bound: u32) -> bool {
        self >= bound
    }
}

impl Number for u64 {
    open spec fn value(self) -> int {
        self as int
    }

    open spec fn lowest() -> int {
        0
    }

    open spec fn highest() -> int {
        u64::MAX as int
    }

    proof fn lemma_limits(self) {
    }

    fn zero() -> u64 {
        0
    }

    fn one() -> u64 {
        1
    }

    fn try_add(self, rhs: u64) -> Option<u64> {
        match narrow_unsigned(self as i128 + rhs as i128, u64::MAX as u64) {
            Some(s) => Some(s as u64),
            None => None,
        }
    }

    fn try_sub(self, rhs: u64) -> Option<u64> {
        match narrow_unsigned(self as i128 - rhs as i128, u64::MAX as u64) {
            Some(s) => Some(s as u64),
            None => None,
        }
    }

    fn try_scale(self, num: u64, den: u64) -> Option<u64> {
        match scale_unsigned(self as u64, num, den, u64::MAX as u64) {
            Some(s) => Some(s as u64),
            None => None,
        }
    }

    fn at_least(self, bound: u64) -> bool {
        self >= bound
    }
}

} // verus!
