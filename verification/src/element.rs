//! The numbers a kernel multiplies and adds.
use vstd::prelude::*;

verus! {

/// A number that a kernel can accumulate: it has a zero, a sum and a product.
pub trait Element: Copy {
    /// The value an accumulation without a bias starts from.
    spec fn zero_spec() -> Self;

    spec fn plus_spec(self, other: Self) -> Self;

    spec fn times_spec(self, other: Self) -> Self;

    fn zero() -> (r: Self)
        ensures
            r == Self::zero_spec(),
    ;

    fn plus(self, other: Self) -> (r: Self)
        ensures
            r == self.plus_spec(other),
    ;

    fn times(self, other: Self) -> (r: Self)
        ensures
            r == self.times_spec(other),
    ;
}

/// 32-bit integers wrap around, as they do on a device.
impl Element for i32 {
    open spec fn zero_spec() -> i32 {
        0
    }

    open spec fn plus_spec(self, other: i32) -> i32 {
        self.wrapping_add(other)
    }

    open spec fn times_spec(self, other: i32) -> i32 {
        self.wrapping_mul(other)
    }

    fn zero() -> (r: i32)
        ensures
            r == 0,
    {
        0
    }

    fn plus(self, other: i32) -> (r: i32)
        ensures
            r == self.wrapping_add(other),
    {
        self.wrapping_add(other)
    }

    fn times(self, other: i32) -> (r: i32)
        ensures
            r == self.wrapping_mul(other),
    {
        self.wrapping_mul(other)
    }
}

/// 64-bit integers wrap around, as they do on a device.
impl Element for i64 {
    open spec fn zero_spec() -> i64 {
        0
    }

    open spec fn plus_spec(self, other: i64) -> i64 {
        self.wrapping_add(other)
    }

    open spec fn times_spec(self, other: i64) -> i64 {
        self.wrapping_mul(other)
    }

    fn zero() -> (r: i64)
        ensures
            r == 0,
    {
        0
    }

    fn plus(self, other: i64) -> (r: i64)
        ensures
            r == self.wrapping_add(other),
    {
        self.wrapping_add(other)
    }

    fn times(self, other: i64) -> (r: i64)
        ensures
            r == self.wrapping_mul(other),
    {
        self.wrapping_mul(other)
    }
}

/// A number that stands for an integer, up to multiples of a modulus: sums and products are those
/// of the integers, brought back into one range of as many integers as the modulus.
pub trait Modular: Element {
    spec fn modulus() -> int;

    /// The least integer in the range.
    spec fn least() -> int;

    spec fn value(self) -> int;

    proof fn zero_value()
        ensures
            Self::modulus() > 0,
            Self::zero_spec().value() == 0,
    ;

    proof fn value_in_range(self)
        ensures
            Self::least() <= self.value() < Self::least() + Self::modulus(),
    ;

    proof fn plus_value(self, other: Self)
        ensures
            (self.plus_spec(other).value() - (self.value() + other.value())) % Self::modulus() == 0,
    ;

    proof fn times_value(self, other: Self)
        ensures
            (self.times_spec(other).value() - self.value() * other.value()) % Self::modulus() == 0,
    ;
}

impl Modular for i32 {
    open spec fn modulus() -> int {
        0x1_0000_0000
    }

    open spec fn least() -> int {
        i32::MIN as int
    }

    open spec fn value(self) -> int {
        self as int
    }

    proof fn zero_value() {
    }

    proof fn value_in_range(self) {
    }

    proof fn plus_value(self, other: i32) {
    }

    proof fn times_value(self, other: i32) {
    }
}

impl Modular for i64 {
    open spec fn modulus() -> int {
        0x1_0000_0000_0000_0000
    }

    open spec fn least() -> int {
        i64::MIN as int
    }

    open spec fn value(self) -> int {
        self as int
    }

    proof fn zero_value() {
    }

    proof fn value_in_range(self) {
    }

    proof fn plus_value(self, other: i64) {
    }

    proof fn times_value(self, other: i64) {
    }
}

/// A 32-bit integer stands for itself, up to multiples of two to the 32nd.
pub proof fn law_i32_stands_for_itself(a: i32)
    ensures
        a.value() == a,
        <i32 as Modular>::least() == i32::MIN,
        <i32 as Modular>::modulus() == 0x1_0000_0000,
        <i32 as Element>::zero_spec() == 0,
{
}

/// A 64-bit integer stands for itself, up to multiples of two to the 64th.
pub proof fn law_i64_stands_for_itself(a: i64)
    ensures
        a.value() == a,
        <i64 as Modular>::least() == i64::MIN,
        <i64 as Modular>::modulus() == 0x1_0000_0000_0000_0000,
        <i64 as Element>::zero_spec() == 0,
{
}

} // verus!
