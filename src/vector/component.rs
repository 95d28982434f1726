//! Numeric kinds that a vector component can have.

use vstd::prelude::*;

verus! {

/// An integer type that can serve as the component of a vector.
///
/// Every component kind is a subrange of `-32768..=65535` that contains zero,
/// so that a component widens losslessly into an `i32`.
pub trait Component: Copy + Sized {
    /// Smallest value representable by a component of this kind
    spec fn min_value() -> int;

    /// Largest value representable by a component of this kind
    spec fn max_value() -> int;

    /// The mathematical value of a component
    spec fn value(self) -> int;

    /// Every component lies within the range of its kind.
    proof fn lemma_in_range(self)
        ensures
            Self::min_value() <= self.value() <= Self::max_value(),
    ;

    /// A component is determined by its value.
    proof fn lemma_value_injective(self, other: Self)
        ensures
            self.value() == other.value() ==> self == other,
    ;

    /// The ranges of all component kinds are small and contain zero.
    proof fn lemma_range()
        ensures
            -32768 <= Self::min_value() <= 0 < Self::max_value() <= 65535,
            Self::max_value() - Self::min_value() <= 65535,
    ;

    /// Widen a component into an `i32`.
    fn to_i32(self) -> (r: i32)
        ensures
            r as int == self.value(),
    ;

    /// Narrow an `i32` that lies in the range of this kind into a component.
    fn from_i32(v: i32) -> (r: Self)
        requires
            Self::min_value() <= v <= Self::max_value(),
        ensures
            r.value() == v as int,
    ;
}

impl Component for i8 {
    open spec fn min_value() -> int {
        i8::MIN as int
    }

    open spec fn max_value() -> int {
        i8::MAX as int
    }

    open spec fn value(self) -> int {
        self as int
    }

    proof fn lemma_in_range(self) {
    }

    proof fn lemma_value_injective(self, other: Self) {
    }

    proof fn lemma_range() {
    }

    fn to_i32(self) -> (r: i32) {
        self as i32
    }

    fn from_i32(v: i32) -> (r: Self) {
        v as i8
    }
}

impl Component for i16 {
    open spec fn min_value() -> int {
        i16::MIN as int
    }

    open spec fn max_value() -> int {
        i16::MAX as int
    }

    open spec fn value(self) -> int {
        self as int
    }

    proof fn lemma_in_range(self) {
    }

    proof fn lemma_value_injective(self, other: Self) {
    }

    proof fn lemma_range() {
    }

    fn to_i32(self) -> (r: i32) {
        self as i32
    }

    fn from_i32(v: i32) -> (r: Self) {
        v as i16
    }
}

impl Component for u8 {
    open spec fn min_value() -> int {
        0
    }

    open spec fn max_value() -> int {
        u8::MAX as int
    }

    open spec fn value(self) -> int {
        self as int
    }

    proof fn lemma_in_range(self) {
    }

    proof fn lemma_value_injective(self, other: Self) {
    }

    proof fn lemma_range() {
    }

    fn to_i32(self) -> (r: i32) {
        self as i32
    }

    fn from_i32(v: i32) -> (r: Self) {
        v as u8
    }
}

impl Component for u16 {
    open spec fn min_value() -> int {
        0
    }

    open spec fn max_value() -> int {
        u16::MAX as int
    }

    open spec fn value(self) -> int {
        self as int
    }

    proof fn lemma_in_range(self) {
    }

    proof fn lemma_value_injective(self, other: Self) {
    }

    proof fn lemma_range() {
    }

    fn to_i32(self) -> (r: i32) {
        self as i32
    }

    fn from_i32(v: i32) -> (r: Self) {
        v as u16
    }
}

} // verus!
