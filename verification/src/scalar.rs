//! The element types of matrices: integers with checked arithmetic.

use vstd::prelude::*;

verus! {

/// Division of integers that rounds towards zero, for a divisor other than
/// zero.
pub open spec fn quotient(a: int, b: int) -> int {
    if a >= 0 && b > 0 {
        a / b
    } else if a < 0 && b < 0 {
        (-a) / (-b)
    } else if a < 0 {
        -((-a) / b)
    } else {
        -(a / (-b))
    }
}

/// The arithmetic interface that every element type of a matrix satisfies.
///
/// An element stands for a mathematical integer, its `value`. The operations
/// are checked: each returns `None` exactly when the mathematical result is
/// not a value of the type.
pub trait Scalar: Copy + Sized {
    /// The mathematical integer that the element stands for.
    spec fn value(self) -> int;

    /// Whether `v` is the value of some element of the type.
    spec fn representable(v: int) -> bool;

    /// The value of an element is representable, and it determines the
    /// element.
    proof fn lemma_value(a: Self, b: Self)
        ensures
            Self::representable(a.value()),
            a.value() == b.value() ==> a == b,
    ;

    /// Every value of the type fits 64 bits.
    proof fn lemma_representable(v: int)
        ensures
            Self::representable(v) ==> i64::MIN <= v <= i64::MAX,
    ;

    /// The additive identity.
    fn zero() -> (r: Self)
        ensures
            r.value() == 0,
    ;

    /// The multiplicative identity.
    fn one() -> (r: Self)
        ensures
            r.value() == 1,
    ;

    /// The sum, if the type has it.
    fn checked_add(self, rhs: Self) -> (r: Option<Self>)
        ensures
            r.is_some() <==> Self::representable(self.value() + rhs.value()),
            r.is_some() ==> r.unwrap().value() == self.value() + rhs.value(),
    ;

    /// The difference, if the type has it.
    fn checked_sub(self, rhs: Self) -> (r: Option<Self>)
        ensures
            r.is_some() <==> Self::representable(self.value() - rhs.value()),
            r.is_some() ==> r.unwrap().value() == self.value() - rhs.value(),
    ;

    /// The product, if the type has it.
    fn checked_mul(self, rhs: Self) -> (r: Option<Self>)
        ensures
            r.is_some() <==> Self::representable(self.value() * rhs.value()),
            r.is_some() ==> r.unwrap().value() == self.value() * rhs.value(),
    ;

    /// The quotient rounded towards zero, if the divisor is not zero and the
    /// type has it.
    fn checked_div(self, rhs: Self) -> (r: Option<Self>)
        ensures
            r.is_some() <==> rhs.value() != 0 && Self::representable(
                quotient(self.value(), rhs.value()),
            ),
            r.is_some() ==> r.unwrap().value() == quotient(self.value(), rhs.value()),
    ;

    /// Whether the two elements are equal.
    fn same(self, rhs: Self) -> (r: bool)
        ensures
            r == (self.value() == rhs.value()),
    ;

    /// Whether the element is smaller than `rhs`.
    fn less(self, rhs: Self) -> (r: bool)
        ensures
            r == (self.value() < rhs.value()),
    ;

    /// The value as a 64-bit integer.
    fn to_i64(self) -> (r: i64)
        ensures
            r == self.value(),
    ;

    /// The element of the given value, if there is one.
    fn from_i64(v: i64) -> (r: Option<Self>)
        ensures
            r.is_some() <==> Self::representable(v as int),
            r.is_some() ==> r.unwrap().value() == v,
    ;
}

/// The additive identity of `i32` as `num::zero` returns it, which is `0`.
#[verifier::external_body]
fn num_zero_i32() -> (r: i32)
    ensures
        r == 0,
{
    num::zero::<i32>()
}

/// The multiplicative identity of `i32` as `num::one` returns it, which is `1`.
#[verifier::external_body]
fn num_one_i32() -> (r: i32)
    ensures
        r == 1,
{
    num::one::<i32>()
}

impl Scalar for i32 {
    open spec fn value(self) -> int {
        self as int
    }

    open spec fn representable(v: int) -> bool {
        i32::MIN <= v <= i32::MAX
    }

    proof fn lemma_value(a: Self, b: Self) {
    }

    proof fn lemma_representable(v: int) {
    }

    fn zero() -> (r: Self) {
        num_zero_i32()
    }

    fn one() -> (r: Self) {
        num_one_i32()
    }

    fn checked_add(self, rhs: Self) -> (r: Option<Self>) {
        i32::checked_add(self, rhs)
    }

    fn checked_sub(self, rhs: Self) -> (r: Option<Self>) {
        i32::checked_sub(self, rhs)
    }

    fn checked_mul(self, rhs: Self) -> (r: Option<Self>) {
        i32::checked_mul(self, rhs)
    }

    fn checked_div(self, rhs: Self) -> (r: Option<Self>) {
        i32::checked_div(self, rhs)
    }

    fn same(self, rhs: Self) -> (r: bool) {
        self == rhs
    }

    fn less(self, rhs: Self) -> (r: bool) {
        self < rhs
    }

    fn to_i64(self) -> (r: i64) {
        self as i64
    }

    fn from_i64(v: i64) -> (r: Option<Self>) {
        if -2147483648 <= v && v <= 2147483647 {
            Some(v as i32)
        } else {
            None
        }
    }
}

/// The additive identity of `i8` as `num::zero` returns it, which is `0`.
#[verifier::external_body]
fn num_zero_i8() -> (r: i8)
    ensures
        r == 0,
{
    num::zero::<i8>()
}

/// The multiplicative identity of `i8` as `num::one` returns it, which is `1`.
#[verifier::external_body]
fn num_one_i8() -> (r: i8)
    ensures
        r == 1,
{
    num::one::<i8>()
}

impl Scalar for i8 {
    open spec fn value(self) -> int {
        self as int
    }

    open spec fn representable(v: int) -> bool {
        i8::MIN <= v <= i8::MAX
    }

    proof fn lemma_value(a: Self, b: Self) {
    }

    proof fn lemma_representable(v: int) {
    }

    fn zero() -> (r: Self) {
        num_zero_i8()
    }

    fn one() -> (r: Self) {
        num_one_i8()
    }

    fn checked_add(self, rhs: Self) -> (r: Option<Self>) {
        i8::checked_add(self, rhs)
    }

    fn checked_sub(self, rhs: Self) -> (r: Option<Self>) {
        i8::checked_sub(self, rhs)
    }

    fn checked_mul(self, rhs: Self) -> (r: Option<Self>) {
        i8::checked_mul(self, rhs)
    }

    fn checked_div(self, rhs: Self) -> (r: Option<Self>) {
        i8::checked_div(self, rhs)
    }

    fn same(self, rhs: Self) -> (r: bool) {
        self == rhs
    }

    fn less(self, rhs: Self) -> (r: bool) {
        self < rhs
    }

    fn to_i64(self) -> (r: i64) {
        self as i64
    }

    fn from_i64(v: i64) -> (r: Option<Self>) {
        if -128 <= v && v <= 127 {
            Some(v as i8)
        } else {
            None
        }
    }
}

/// The additive identity of `i16` as `num::zero` returns it, which is `0`.
#[verifier::external_body]
fn num_zero_i16() -> (r: i16)
    ensures
        r == 0,
{
    num::zero::<i16>()
}

/// The multiplicative identity of `i16` as `num::one` returns it, which is `1`.
#[verifier::external_body]
fn num_one_i16() -> (r: i16)
    ensures
        r == 1,
{
    num::one::<i16>()
}

impl Scalar for i16 {
    open spec fn value(self) -> int {
        self as int
    }

    open spec fn representable(v: int) -> bool {
        i16::MIN <= v <= i16::MAX
    }

    proof fn lemma_value(a: Self, b: Self) {
    }

    proof fn lemma_representable(v: int) {
    }

    fn zero() -> (r: Self) {
        num_zero_i16()
    }

    fn one() -> (r: Self) {
        num_one_i16()
    }

    fn checked_add(self, rhs: Self) -> (r: Option<Self>) {
        i16::checked_add(self, rhs)
    }

    fn checked_sub(self, rhs: Self) -> (r: Option<Self>) {
        i16::checked_sub(self, rhs)
    }

    fn checked_mul(self, rhs: Self) -> (r: Option<Self>) {
        i16::checked_mul(self, rhs)
    }

    fn checked_div(self, rhs: Self) -> (r: Option<Self>) {
        i16::checked_div(self, rhs)
    }

    fn same(self, rhs: Self) -> (r: bool) {
        self == rhs
    }

    fn less(self, rhs: Self) -> (r: bool) {
        self < rhs
    }

    fn to_i64(self) -> (r: i64) {
        self as i64
    }

    fn from_i64(v: i64) -> (r: Option<Self>) {
        if -32768 <= v && v <= 32767 {
            Some(v as i16)
        } else {
            None
        }
    }
}

/// The additive identity of `u8` as `num::zero` returns it, which is `0`.
#[verifier::external_body]
fn num_zero_u8() -> (r: u8)
    ensures
        r == 0,
{
    num::zero::<u8>()
}

/// The multiplicative identity of `u8` as `num::one` returns it, which is `1`.
#[verifier::external_body]
fn num_one_u8() -> (r: u8)
    ensures
        r == 1,
{
    num::one::<u8>()
}

impl Scalar for u8 {
    open spec fn value(self) -> int {
        self as int
    }

    open spec fn representable(v: int) -> bool {
        u8::MIN <= v <= u8::MAX
    }

    proof fn lemma_value(a: Self, b: Self) {
    }

    proof fn lemma_representable(v: int) {
    }

    fn zero() -> (r: Self) {
        num_zero_u8()
    }

    fn one() -> (r: Self) {
        num_one_u8()
    }

    fn checked_add(self, rhs: Self) -> (r: Option<Self>) {
        u8::checked_add(self, rhs)
    }

    fn checked_sub(self, rhs: Self) -> (r: Option<Self>) {
        u8::checked_sub(self, rhs)
    }

    fn checked_mul(self, rhs: Self) -> (r: Option<Self>) {
        u8::checked_mul(self, rhs)
    }

    fn checked_div(self, rhs: Self) -> (r: Option<Self>) {
        u8::checked_div(self, rhs)
    }

    fn same(self, rhs: Self) -> (r: bool) {
        self == rhs
    }

    fn less(self, rhs: Self) -> (r: bool) {
        self < rhs
    }

    fn to_i64(self) -> (r: i64) {
        self as i64
    }

    fn from_i64(v: i64) -> (r: Option<Self>) {
        if 0 <= v && v <= 255 {
            Some(v as u8)
        } else {
            None
        }
    }
}

/// The additive identity of `u16` as `num::zero` returns it, which is `0`.
#[verifier::external_body]
fn num_zero_u16() -> (r: u16)
    ensures
        r == 0,
{
    num::zero::<u16>()
}

/// The multiplicative identity of `u16` as `num::one` returns it, which is `1`.
#[verifier::external_body]
fn num_one_u16() -> (r: u16)
    ensures
        r == 1,
{
    num::one::<u16>()
}

impl Scalar for u16 {
    open spec fn value(self) -> int {
        self as int
    }

    open spec fn representable(v: int) -> bool {
        u16::MIN <= v <= u16::MAX
    }

    proof fn lemma_value(a: Self, b: Self) {
    }

    proof fn lemma_representable(v: int) {
    }

    fn zero() -> (r: Self) {
        num_zero_u16()
    }

    fn one() -> (r: Self) {
        num_one_u16()
    }

    fn checked_add(self, rhs: Self) -> (r: Option<Self>) {
        u16::checked_add(self, rhs)
    }

    fn checked_sub(self, rhs: Self) -> (r: Option<Self>) {
        u16::checked_sub(self, rhs)
    }

    fn checked_mul(self, rhs: Self) -> (r: Option<Self>) {
        u16::checked_mul(self, rhs)
    }

    fn checked_div(self, rhs: Self) -> (r: Option<Self>) {
        u16::checked_div(self, rhs)
    }

    fn same(self, rhs: Self) -> (r: bool) {
        self == rhs
    }

    fn less(self, rhs: Self) -> (r: bool) {
        self < rhs
    }

    fn to_i64(self) -> (r: i64) {
        self as i64
    }

    fn from_i64(v: i64) -> (r: Option<Self>) {
        if 0 <= v && v <= 65535 {
            Some(v as u16)
        } else {
            None
        }
    }
}

/// The additive identity of `u32` as `num::zero` returns it, which is `0`.
#[verifier::external_body]
fn num_zero_u32() -> (r: u32)
    ensures
        r == 0,
{
    num::zero::<u32>()
}

/// The multiplicative identity of `u32` as `num::one` returns it, which is `1`.
#[verifier::external_body]
fn num_one_u32() -> (r: u32)
    ensures
        r == 1,
{
    num::one::<u32>()
}

impl Scalar for u32 {
    open spec fn value(self) -> int {
        self as int
    }

    open spec fn representable(v: int) -> bool {
        u32::MIN <= v <= u32::MAX
    }

    proof fn lemma_value(a: Self, b: Self) {
    }

    proof fn lemma_representable(v: int) {
    }

    fn zero() -> (r: Self) {
        num_zero_u32()
    }

    fn one() -> (r: Self) {
        num_one_u32()
    }

    fn checked_add(self, rhs: Self) -> (r: Option<Self>) {
        u32::checked_add(self, rhs)
    }

    fn checked_sub(self, rhs: Self) -> (r: Option<Self>) {
        u32::checked_sub(self, rhs)
    }

    fn checked_mul(self, rhs: Self) -> (r: Option<Self>) {
        u32::checked_mul(self, rhs)
    }

    fn checked_div(self, rhs: Self) -> (r: Option<Self>) {
        u32::checked_div(self, rhs)
    }

    fn same(self, rhs: Self) -> (r: bool) {
        self == rhs
    }

    fn less(self, rhs: Self) -> (r: bool) {
        self < rhs
    }

    fn to_i64(self) -> (r: i64) {
        self as i64
    }

    fn from_i64(v: i64) -> (r: Option<Self>) {
        if 0 <= v && v <= 4294967295 {
            Some(v as u32)
        } else {
            None
        }
    }
}

} // verus!
