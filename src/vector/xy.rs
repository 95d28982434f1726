//! 2-dimensional vectors (X, Y)

use super::{Component, Vector};
use vstd::prelude::*;

verus! {

/// 2-dimensional vectors (X, Y)
pub trait Vector2D: Vector {
    /// Instantiate from X and Y components
    fn new(x: Self::Component, y: Self::Component) -> (r: Self)
        ensures
            r.values() == seq![x.value(), y.value()],
    ;
}

/// 2-dimensional XY vector
#[derive(Copy, Clone, Debug, Default, PartialEq, Eq)]
pub struct Xy<C> {
    /// X component
    pub x: C,
    /// Y component
    pub y: C,
}

/// 2-dimensional XY vector of `i8` values
pub type I8x2 = Xy<i8>;

/// 2-dimensional XY vector of `i16` values
pub type I16x2 = Xy<i16>;

/// 2-dimensional XY vector of `u8` values
pub type U8x2 = Xy<u8>;

/// 2-dimensional XY vector of `u16` values
pub type U16x2 = Xy<u16>;

impl<C: Component> Xy<C> {
    /// Instantiate from X and Y components
    pub fn new(x: C, y: C) -> (r: Self)
        ensures
            r.x == x,
            r.y == y,
    {
        Xy { x, y }
    }

    /// Obtain an array of the components, in axis order
    pub fn to_array(&self) -> (r: [C; 2])
        ensures
            r@ == seq![self.x, self.y],
    {
        [self.x, self.y]
    }

    /// Multiply each component by `n` in place.
    ///
    /// The products must fit the component kind.
    pub fn mul_assign(&mut self, n: C)
        requires
            C::min_value() <= old(self).x.value() * n.value() <= C::max_value(),
            C::min_value() <= old(self).y.value() * n.value() <= C::max_value(),
        ensures
            final(self).x.value() == old(self).x.value() * n.value(),
            final(self).y.value() == old(self).y.value() * n.value(),
    {
        let k = n.to_i32();
        proof {
            C::lemma_range();
        }
        let x = self.x.to_i32() as i64 * k as i64;
        let y = self.y.to_i32() as i64 * k as i64;
        self.x = C::from_i32(x as i32);
        self.y = C::from_i32(y as i32);
    }
}

impl<C: Component> Vector2D for Xy<C> {
    fn new(x: C, y: C) -> (r: Self) {
        Xy { x, y }
    }
}

impl<C: Component> From<(C, C)> for Xy<C> {
    fn from(vector: (C, C)) -> (r: Self) {
        Xy { x: vector.0, y: vector.1 }
    }
}

impl<C: Component> vstd::std_specs::convert::FromSpecImpl<(C, C)> for Xy<C> {
    open spec fn obeys_from_spec() -> bool {
        true
    }

    open spec fn from_spec(vector: (C, C)) -> Xy<C> {
        Xy { x: vector.0, y: vector.1 }
    }
}

impl<C: Component> Vector for Xy<C> {
    type Component = C;

    open spec fn axes() -> nat {
        2
    }

    open spec fn values(&self) -> Seq<int> {
        seq![self.x.value(), self.y.value()]
    }

    proof fn lemma_axes() {
    }

    proof fn lemma_values(&self) {
        self.x.lemma_in_range();
        self.y.lemma_in_range();
    }

    proof fn lemma_values_injective(&self, other: &Self) {
        if self.values() == other.values() {
            assert(self.values()[0] == other.values()[0]);
            assert(self.values()[1] == other.values()[1]);
            self.x.lemma_value_injective(other.x);
            self.y.lemma_value_injective(other.y);
        }
    }

    fn axis_count() -> (r: usize) {
        2
    }

    fn from_slice(slice: &[C]) -> (r: Self) {
        let r = Xy { x: slice[0], y: slice[1] };
        assert(r.values() =~= slice@.map_values(|c: C| c.value()));
        r
    }

    fn get(self, index: usize) -> (r: Option<C>) {
        if index == 0 {
            Some(self.x)
        } else if index == 1 {
            Some(self.y)
        } else {
            None
        }
    }
}

} // verus!
