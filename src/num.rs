//! The numeric capability that the statistics are computed with.
use vstd::prelude::*;

verus! {

/// Quotient of `a` by `b`, rounded toward zero.
pub open spec fn trunc_div(a: int, b: int) -> int {
    if (a < 0) == (b < 0) {
        abs(a) / abs(b)
    } else {
        -(abs(a) / abs(b))
    }
}

/// Absolute value.
pub open spec fn abs(a: int) -> int {
    if a < 0 { -a } else { a }
}

/// A quotient rounded toward zero by a positive divisor lies between zero
/// and the dividend.
pub proof fn lemma_trunc_div_bounded(a: int, b: int)
    requires
        b > 0,
    ensures
        a >= 0 ==> 0 <= trunc_div(a, b) <= a,
        a < 0 ==> a <= trunc_div(a, b) <= 0,
{
    vstd::arithmetic::div_mod::lemma_div_pos_is_pos(abs(a), b);
    vstd::arithmetic::div_mod::lemma_div_is_ordered_by_denominator(abs(a), 1, b);
}

/// Euclidean division by a negative divisor is the negated quotient by its
/// absolute value, for a dividend that is not negative.
proof fn lemma_div_by_negative(a: int, b: int)
    requires
        a >= 0,
        b < 0,
    ensures
        a / b == -(a / -b),
{
    let q1 = a / b;
    let r1 = a % b;
    let q2 = a / -b;
    let r2 = a % -b;
    vstd::arithmetic::div_mod::lemma_fundamental_div_mod(a, b);
    vstd::arithmetic::div_mod::lemma_fundamental_div_mod(a, -b);
    vstd::arithmetic::div_mod::lemma_mod_bound(a, -b);
    assert(0 <= r1 < -b);
    assert(q1 == -q2) by (nonlinear_arith)
        requires
            a == b * q1 + r1,
            a == (-b) * q2 + r2,
            0 <= r1 < -b,
            0 <= r2 < -b,
    ;
}

/// Whether `v` is a value of `T`.
pub open spec fn fits<T: NumExt>(v: int) -> bool {
    T::lowest() <= v <= T::highest()
}

/// An integer type that statistics can be computed in.
pub trait NumExt: Copy + Sized {
    /// The mathematical value of an element.
    spec fn value(self) -> int;

    /// The smallest value the type holds.
    spec fn lowest() -> int;

    /// The largest value the type holds.
    spec fn highest() -> int;

    /// Every element lies in the type's range, and its value determines it.
    proof fn lemma_value(x: Self, y: Self)
        ensures
            Self::lowest() <= x.value() <= Self::highest(),
            Self::lowest() <= 0 < Self::highest(),
            x.value() == y.value() ==> x == y,
    ;

    /// Zero.
    fn zero() -> (r: Self)
        ensures
            r.value() == 0,
    ;

    /// `self + rhs`, which must be a value of the type.
    fn add(self, rhs: Self) -> (r: Self)
        requires
            Self::lowest() <= self.value() + rhs.value() <= Self::highest(),
        ensures
            r.value() == self.value() + rhs.value(),
    ;

    /// `self - rhs`, which must be a value of the type.
    fn sub(self, rhs: Self) -> (r: Self)
        requires
            Self::lowest() <= self.value() - rhs.value() <= Self::highest(),
        ensures
            r.value() == self.value() - rhs.value(),
    ;

    /// `self * rhs`, which must be a value of the type.
    fn mul(self, rhs: Self) -> (r: Self)
        requires
            Self::lowest() <= self.value() * rhs.value() <= Self::highest(),
        ensures
            r.value() == self.value() * rhs.value(),
    ;

    /// `self / rhs`, rounded toward zero; the quotient must be a value of
    /// the type.
    fn div(self, rhs: Self) -> (r: Self)
        requires
            rhs.value() != 0,
            Self::lowest() <= trunc_div(self.value(), rhs.value()) <= Self::highest(),
        ensures
            r.value() == trunc_div(self.value(), rhs.value()),
    ;

    /// `self + rhs`, or `None` when the sum is not a value of the type.
    fn try_add(self, rhs: Self) -> (r: Option<Self>)
        ensures
            r is Some <==> Self::lowest() <= self.value() + rhs.value() <= Self::highest(),
            r is Some ==> r->0.value() == self.value() + rhs.value(),
    ;

    /// `self - rhs`, or `None` when the difference is not a value of the
    /// type.
    fn try_sub(self, rhs: Self) -> (r: Option<Self>)
        ensures
            r is Some <==> Self::lowest() <= self.value() - rhs.value() <= Self::highest(),
            r is Some ==> r->0.value() == self.value() - rhs.value(),
    ;

    /// `self * rhs`, or `None` when the product is not a value of the type.
    fn try_mul(self, rhs: Self) -> (r: Option<Self>)
        ensures
            r is Some <==> Self::lowest() <= self.value() * rhs.value() <= Self::highest(),
            r is Some ==> r->0.value() == self.value() * rhs.value(),
    ;

    /// `n` as an element, or `None` when the type cannot hold it.
    fn from_usize(n: usize) -> (r: Option<Self>)
        ensures
            r is Some <==> n <= Self::highest(),
            r is Some ==> r->0.value() == n,
    ;
}

/// A numeric type with a binary minimum and maximum.
pub trait MinMax: NumExt {
    /// The smaller of `self` and `other`.
    fn min(self, other: Self) -> (r: Self)
        ensures
            r.value() == vstd::math::min(self.value(), other.value()),
    ;

    /// The larger of `self` and `other`.
    fn max(self, other: Self) -> (r: Self)
        ensures
            r.value() == vstd::math::max(self.value(), other.value()),
    ;
}

impl NumExt for i8 {
    open spec fn value(self) -> int {
        self as int
    }

    open spec fn lowest() -> int {
        i8::MIN as int
    }

    open spec fn highest() -> int {
        i8::MAX as int
    }

    proof fn lemma_value(x: Self, y: Self) {
    }

    fn zero() -> (r: Self) {
        0
    }

    fn add(self, rhs: Self) -> (r: Self) {
        self + rhs
    }

    fn sub(self, rhs: Self) -> (r: Self) {
        self - rhs
    }

    fn mul(self, rhs: Self) -> (r: Self) {
        self * rhs
    }

    fn div(self, rhs: Self) -> (r: Self) {
        proof {
            if self >= 0 && rhs < 0 {
                lemma_div_by_negative(self as int, rhs as int);
            } else if self < 0 && rhs < 0 {
                lemma_div_by_negative(-self, rhs as int);
            }
        }
        self / rhs
    }

    fn try_add(self, rhs: Self) -> (r: Option<Self>) {
        i8::checked_add(self, rhs)
    }

    fn try_sub(self, rhs: Self) -> (r: Option<Self>) {
        i8::checked_sub(self, rhs)
    }

    fn try_mul(self, rhs: Self) -> (r: Option<Self>) {
        i8::checked_mul(self, rhs)
    }

    fn from_usize(n: usize) -> (r: Option<Self>) {
        i8_from_usize(n)
    }
}

impl MinMax for i8 {
    fn min(self, other: Self) -> (r: Self) {
        if self <= other {
            self
        } else {
            other
        }
    }

    fn max(self, other: Self) -> (r: Self) {
        if self >= other {
            self
        } else {
            other
        }
    }
}

/// Relies on `num_traits::FromPrimitive::from_usize` for `i8`: `Some(n)`
/// exactly when `n` is at most `i8::MAX`.
#[verifier::external_body]
fn i8_from_usize(n: usize) -> (r: Option<i8>)
    ensures
        r is Some <==> n <= i8::MAX,
        r is Some ==> r->0 == n,
{
    <i8 as num_traits::FromPrimitive>::from_usize(n)
}

impl NumExt for i16 {
    open spec fn value(self) -> int {
        self as int
    }

    open spec fn lowest() -> int {
        i16::MIN as int
    }

    open spec fn highest() -> int {
        i16::MAX as int
    }

    proof fn lemma_value(x: Self, y: Self) {
    }

    fn zero() -> (r: Self) {
        0
    }

    fn add(self, rhs: Self) -> (r: Self) {
        self + rhs
    }

    fn sub(self, rhs: Self) -> (r: Self) {
        self - rhs
    }

    fn mul(self, rhs: Self) -> (r: Self) {
        self * rhs
    }

    fn div(self, rhs: Self) -> (r: Self) {
        proof {
            if self >= 0 && rhs < 0 {
                lemma_div_by_negative(self as int, rhs as int);
            } else if self < 0 && rhs < 0 {
                lemma_div_by_negative(-self, rhs as int);
            }
        }
        self / rhs
    }

    fn try_add(self, rhs: Self) -> (r: Option<Self>) {
        i16::checked_add(self, rhs)
    }

    fn try_sub(self, rhs: Self) -> (r: Option<Self>) {
        i16::checked_sub(self, rhs)
    }

    fn try_mul(self, rhs: Self) -> (r: Option<Self>) {
        i16::checked_mul(self, rhs)
    }

    fn from_usize(n: usize) -> (r: Option<Self>) {
        i16_from_usize(n)
    }
}

impl MinMax for i16 {
    fn min(self, other: Self) -> (r: Self) {
        if self <= other {
            self
        } else {
            other
        }
    }

    fn max(self, other: Self) -> (r: Self) {
        if self >= other {
            self
        } else {
            other
        }
    }
}

/// Relies on `num_traits::FromPrimitive::from_usize` for `i16`: `Some(n)`
/// exactly when `n` is at most `i16::MAX`.
#[verifier::external_body]
fn i16_from_usize(n: usize) -> (r: Option<i16>)
    ensures
        r is Some <==> n <= i16::MAX,
        r is Some ==> r->0 == n,
{
    <i16 as num_traits::FromPrimitive>::from_usize(n)
}

impl NumExt for i32 {
    open spec fn value(self) -> int {
        self as int
    }

    open spec fn lowest() -> int {
        i32::MIN as int
    }

    open spec fn highest() -> int {
        i32::MAX as int
    }

    proof fn lemma_value(x: Self, y: Self) {
    }

    fn zero() -> (r: Self) {
        0
    }

    fn add(self, rhs: Self) -> (r: Self) {
        self + rhs
    }

    fn sub(self, rhs: Self) -> (r: Self) {
        self - rhs
    }

    fn mul(self, rhs: Self) -> (r: Self) {
        self * rhs
    }

    fn div(self, rhs: Self) -> (r: Self) {
        proof {
            if self >= 0 && rhs < 0 {
                lemma_div_by_negative(self as int, rhs as int);
            } else if self < 0 && rhs < 0 {
                lemma_div_by_negative(-self, rhs as int);
            }
        }
        self / rhs
    }

    fn try_add(self, rhs: Self) -> (r: Option<Self>) {
        i32::checked_add(self, rhs)
    }

    fn try_sub(self, rhs: Self) -> (r: Option<Self>) {
        i32::checked_sub(self, rhs)
    }

    fn try_mul(self, rhs: Self) -> (r: Option<Self>) {
        i32::checked_mul(self, rhs)
    }

    fn from_usize(n: usize) -> (r: Option<Self>) {
        i32_from_usize(n)
    }
}

impl MinMax for i32 {
    fn min(self, other: Self) -> (r: Self) {
        if self <= other {
            self
        } else {
            other
        }
    }

    fn max(self, other: Self) -> (r: Self) {
        if self >= other {
            self
        } else {
            other
        }
    }
}

/// Relies on `num_traits::FromPrimitive::from_usize` for `i32`: `Some(n)`
/// exactly when `n` is at most `i32::MAX`.
#[verifier::external_body]
fn i32_from_usize(n: usize) -> (r: Option<i32>)
    ensures
        r is Some <==> n <= i32::MAX,
        r is Some ==> r->0 == n,
{
    <i32 as num_traits::FromPrimitive>::from_usize(n)
}

impl NumExt for i64 {
    open spec fn value(self) -> int {
        self as int
    }

    open spec fn lowest() -> int {
        i64::MIN as int
    }

    open spec fn highest() -> int {
        i64::MAX as int
    }

    proof fn lemma_value(x: Self, y: Self) {
    }

    fn zero() -> (r: Self) {
        0
    }

    fn add(self, rhs: Self) -> (r: Self) {
        self + rhs
    }

    fn sub(self, rhs: Self) -> (r: Self) {
        self - rhs
    }

    fn mul(self, rhs: Self) -> (r: Self) {
        self * rhs
    }

    fn div(self, rhs: Self) -> (r: Self) {
        proof {
            if self >= 0 && rhs < 0 {
                lemma_div_by_negative(self as int, rhs as int);
            } else if self < 0 && rhs < 0 {
                lemma_div_by_negative(-self, rhs as int);
            }
        }
        self / rhs
    }

    fn try_add(self, rhs: Self) -> (r: Option<Self>) {
        i64::checked_add(self, rhs)
    }

    fn try_sub(self, rhs: Self) -> (r: Option<Self>) {
        i64::checked_sub(self, rhs)
    }

    fn try_mul(self, rhs: Self) -> (r: Option<Self>) {
        i64::checked_mul(self, rhs)
    }

    fn from_usize(n: usize) -> (r: Option<Self>) {
        i64_from_usize(n)
    }
}

impl MinMax for i64 {
    fn min(self, other: Self) -> (r: Self) {
        if self <= other {
            self
        } else {
            other
        }
    }

    fn max(self, other: Self) -> (r: Self) {
        if self >= other {
            self
        } else {
            other
        }
    }
}

/// Relies on `num_traits::FromPrimitive::from_usize` for `i64`: `Some(n)`
/// exactly when `n` is at most `i64::MAX`.
#[verifier::external_body]
fn i64_from_usize(n: usize) -> (r: Option<i64>)
    ensures
        r is Some <==> n <= i64::MAX,
        r is Some ==> r->0 == n,
{
    <i64 as num_traits::FromPrimitive>::from_usize(n)
}

impl NumExt for i128 {
    open spec fn value(self) -> int {
        self as int
    }

    open spec fn lowest() -> int {
        i128::MIN as int
    }

    open spec fn highest() -> int {
        i128::MAX as int
    }

    proof fn lemma_value(x: Self, y: Self) {
    }

    fn zero() -> (r: Self) {
        0
    }

    fn add(self, rhs: Self) -> (r: Self) {
        self + rhs
    }

    fn sub(self, rhs: Self) -> (r: Self) {
        self - rhs
    }

    fn mul(self, rhs: Self) -> (r: Self) {
        self * rhs
    }

    fn div(self, rhs: Self) -> (r: Self) {
        proof {
            if self >= 0 && rhs < 0 {
                lemma_div_by_negative(self as int, rhs as int);
            } else if self < 0 && rhs < 0 {
                lemma_div_by_negative(-self, rhs as int);
            }
        }
        self / rhs
    }

    fn try_add(self, rhs: Self) -> (r: Option<Self>) {
        i128::checked_add(self, rhs)
    }

    fn try_sub(self, rhs: Self) -> (r: Option<Self>) {
        i128::checked_sub(self, rhs)
    }

    fn try_mul(self, rhs: Self) -> (r: Option<Self>) {
        i128::checked_mul(self, rhs)
    }

    fn from_usize(n: usize) -> (r: Option<Self>) {
        i128_from_usize(n)
    }
}

impl MinMax for i128 {
    fn min(self, other: Self) -> (r: Self) {
        if self <= other {
            self
        } else {
            other
        }
    }

    fn max(self, other: Self) -> (r: Self) {
        if self >= other {
            self
        } else {
            other
        }
    }
}

/// Relies on `num_traits::FromPrimitive::from_usize` for `i128`: `Some(n)`
/// exactly when `n` is at most `i128::MAX`.
#[verifier::external_body]
fn i128_from_usize(n: usize) -> (r: Option<i128>)
    ensures
        r is Some <==> n <= i128::MAX,
        r is Some ==> r->0 == n,
{
    <i128 as num_traits::FromPrimitive>::from_usize(n)
}

impl NumExt for u8 {
    open spec fn value(self) -> int {
        self as int
    }

    open spec fn lowest() -> int {
        u8::MIN as int
    }

    open spec fn highest() -> int {
        u8::MAX as int
    }

    proof fn lemma_value(x: Self, y: Self) {
    }

    fn zero() -> (r: Self) {
        0
    }

    fn add(self, rhs: Self) -> (r: Self) {
        self + rhs
    }

    fn sub(self, rhs: Self) -> (r: Self) {
        self - rhs
    }

    fn mul(self, rhs: Self) -> (r: Self) {
        self * rhs
    }

    fn div(self, rhs: Self) -> (r: Self) {
        self / rhs
    }

    fn try_add(self, rhs: Self) -> (r: Option<Self>) {
        u8::checked_add(self, rhs)
    }

    fn try_sub(self, rhs: Self) -> (r: Option<Self>) {
        u8::checked_sub(self, rhs)
    }

    fn try_mul(self, rhs: Self) -> (r: Option<Self>) {
        u8::checked_mul(self, rhs)
    }

    fn from_usize(n: usize) -> (r: Option<Self>) {
        u8_from_usize(n)
    }
}

impl MinMax for u8 {
    fn min(self, other: Self) -> (r: Self) {
        if self <= other {
            self
        } else {
            other
        }
    }

    fn max(self, other: Self) -> (r: Self) {
        if self >= other {
            self
        } else {
            other
        }
    }
}

/// Relies on `num_traits::FromPrimitive::from_usize` for `u8`: `Some(n)`
/// exactly when `n` is at most `u8::MAX`.
#[verifier::external_body]
fn u8_from_usize(n: usize) -> (r: Option<u8>)
    ensures
        r is Some <==> n <= u8::MAX,
        r is Some ==> r->0 == n,
{
    <u8 as num_traits::FromPrimitive>::from_usize(n)
}

impl NumExt for u16 {
    open spec fn value(self) -> int {
        self as int
    }

    open spec fn lowest() -> int {
        u16::MIN as int
    }

    open spec fn highest() -> int {
        u16::MAX as int
    }

    proof fn lemma_value(x: Self, y: Self) {
    }

    fn zero() -> (r: Self) {
        0
    }

    fn add(self, rhs: Self) -> (r: Self) {
        self + rhs
    }

    fn sub(self, rhs: Self) -> (r: Self) {
        self - rhs
    }

    fn mul(self, rhs: Self) -> (r: Self) {
        self * rhs
    }

    fn div(self, rhs: Self) -> (r: Self) {
        self / rhs
    }

    fn try_add(self, rhs: Self) -> (r: Option<Self>) {
        u16::checked_add(self, rhs)
    }

    fn try_sub(self, rhs: Self) -> (r: Option<Self>) {
        u16::checked_sub(self, rhs)
    }

    fn try_mul(self, rhs: Self) -> (r: Option<Self>) {
        u16::checked_mul(self, rhs)
    }

    fn from_usize(n: usize) -> (r: Option<Self>) {
        u16_from_usize(n)
    }
}

impl MinMax for u16 {
    fn min(self, other: Self) -> (r: Self) {
        if self <= other {
            self
        } else {
            other
        }
    }

    fn max(self, other: Self) -> (r: Self) {
        if self >= other {
            self
        } else {
            other
        }
    }
}

/// Relies on `num_traits::FromPrimitive::from_usize` for `u16`: `Some(n)`
/// exactly when `n` is at most `u16::MAX`.
#[verifier::external_body]
fn u16_from_usize(n: usize) -> (r: Option<u16>)
    ensures
        r is Some <==> n <= u16::MAX,
        r is Some ==> r->0 == n,
{
    <u16 as num_traits::FromPrimitive>::from_usize(n)
}

impl NumExt for u32 {
    open spec fn value(self) -> int {
        self as int
    }

    open spec fn lowest() -> int {
        u32::MIN as int
    }

    open spec fn highest() -> int {
        u32::MAX as int
    }

    proof fn lemma_value(x: Self, y: Self) {
    }

    fn zero() -> (r: Self) {
        0
    }

    fn add(self, rhs: Self) -> (r: Self) {
        self + rhs
    }

    fn sub(self, rhs: Self) -> (r: Self) {
        self - rhs
    }

    fn mul(self, rhs: Self) -> (r: Self) {
        self * rhs
    }

    fn div(self, rhs: Self) -> (r: Self) {
        self / rhs
    }

    fn try_add(self, rhs: Self) -> (r: Option<Self>) {
        u32::checked_add(self, rhs)
    }

    fn try_sub(self, rhs: Self) -> (r: Option<Self>) {
        u32::checked_sub(self, rhs)
    }

    fn try_mul(self, rhs: Self) -> (r: Option<Self>) {
        u32::checked_mul(self, rhs)
    }

    fn from_usize(n: usize) -> (r: Option<Self>) {
        u32_from_usize(n)
    }
}

impl MinMax for u32 {
    fn min(self, other: Self) -> (r: Self) {
        if self <= other {
            self
        } else {
            other
        }
    }

    fn max(self, other: Self) -> (r: Self) {
        if self >= other {
            self
        } else {
            other
        }
    }
}

/// Relies on `num_traits::FromPrimitive::from_usize` for `u32`: `Some(n)`
/// exactly when `n` is at most `u32::MAX`.
#[verifier::external_body]
fn u32_from_usize(n: usize) -> (r: Option<u32>)
    ensures
        r is Some <==> n <= u32::MAX,
        r is Some ==> r->0 == n,
{
    <u32 as num_traits::FromPrimitive>::from_usize(n)
}

impl NumExt for u64 {
    open spec fn value(self) -> int {
        self as int
    }

    open spec fn lowest() -> int {
        u64::MIN as int
    }

    open spec fn highest() -> int {
        u64::MAX as int
    }

    proof fn lemma_value(x: Self, y: Self) {
    }

    fn zero() -> (r: Self) {
        0
    }

    fn add(self, rhs: Self) -> (r: Self) {
        self + rhs
    }

    fn sub(self, rhs: Self) -> (r: Self) {
        self - rhs
    }

    fn mul(self, rhs: Self) -> (r: Self) {
        self * rhs
    }

    fn div(self, rhs: Self) -> (r: Self) {
        self / rhs
    }

    fn try_add(self, rhs: Self) -> (r: Option<Self>) {
        u64::checked_add(self, rhs)
    }

    fn try_sub(self, rhs: Self) -> (r: Option<Self>) {
        u64::checked_sub(self, rhs)
    }

    fn try_mul(self, rhs: Self) -> (r: Option<Self>) {
        u64::checked_mul(self, rhs)
    }

    fn from_usize(n: usize) -> (r: Option<Self>) {
        u64_from_usize(n)
    }
}

impl MinMax for u64 {
    fn min(self, other: Self) -> (r: Self) {
        if self <= other {
            self
        } else {
            other
        }
    }

    fn max(self, other: Self) -> (r: Self) {
        if self >= other {
            self
        } else {
            other
        }
    }
}

/// Relies on `num_traits::FromPrimitive::from_usize` for `u64`: `Some(n)`
/// exactly when `n` is at most `u64::MAX`.
#[verifier::external_body]
fn u64_from_usize(n: usize) -> (r: Option<u64>)
    ensures
        r is Some <==> n <= u64::MAX,
        r is Some ==> r->0 == n,
{
    <u64 as num_traits::FromPrimitive>::from_usize(n)
}

impl NumExt for u128 {
    open spec fn value(self) -> int {
        self as int
    }

    open spec fn lowest() -> int {
        u128::MIN as int
    }

    open spec fn highest() -> int {
        u128::MAX as int
    }

    proof fn lemma_value(x: Self, y: Self) {
    }

    fn zero() -> (r: Self) {
        0
    }

    fn add(self, rhs: Self) -> (r: Self) {
        self + rhs
    }

    fn sub(self, rhs: Self) -> (r: Self) {
        self - rhs
    }

    fn mul(self, rhs: Self) -> (r: Self) {
        self * rhs
    }

    fn div(self, rhs: Self) -> (r: Self) {
        self / rhs
    }

    fn try_add(self, rhs: Self) -> (r: Option<Self>) {
        u128::checked_add(self, rhs)
    }

    fn try_sub(self, rhs: Self) -> (r: Option<Self>) {
        u128::checked_sub(self, rhs)
    }

    fn try_mul(self, rhs: Self) -> (r: Option<Self>) {
        u128::checked_mul(self, rhs)
    }

    fn from_usize(n: usize) -> (r: Option<Self>) {
        u128_from_usize(n)
    }
}

impl MinMax for u128 {
    fn min(self, other: Self) -> (r: Self) {
        if self <= other {
            self
        } else {
            other
        }
    }

    fn max(self, other: Self) -> (r: Self) {
        if self >= other {
            self
        } else {
            other
        }
    }
}

/// Relies on `num_traits::FromPrimitive::from_usize` for `u128`: `Some(n)`
/// exactly when `n` is at most `u128::MAX`.
#[verifier::external_body]
fn u128_from_usize(n: usize) -> (r: Option<u128>)
    ensures
        r is Some <==> n <= u128::MAX,
        r is Some ==> r->0 == n,
{
    <u128 as num_traits::FromPrimitive>::from_usize(n)
}

} // verus!
