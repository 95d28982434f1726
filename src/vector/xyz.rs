//! 3-dimensional vectors (X, Y, Z)

use super::{Component, Vector};
use vstd::prelude::*;

verus! {

/// 3-dimensional vectors (X, Y, Z)
pub trait Vector3D: Vector {
    /// Instantiate from X, Y and Z components
    fn new(x: Self::Component, y: Self::Component, z: Self::Component) -> (r: Self)
        ensures
            r.values() == seq![x.value(), y.value(), z.value()],
    ;
}

/// 3-dimensional XYZ vector
#[derive(Copy, Clone, Debug, Default, PartialEq, Eq)]
pub struct Xyz<C> {
    /// X component
    pub x: C,
    /// Y component
    pub y: C,
    /// Z component
    pub z: C,
}

/// 3-dimensional XYZ vector of `i8` values
pub type I8x3 = Xyz<i8>;

/// 3-dimensional XYZ vector of `i16` values
pub type I16x3 = Xyz<i16>;

/// 3-dimensional XYZ vector of `u8` values
pub type U8x3 = Xyz<u8>;

/// 3-dimensional XYZ vector of `u16` values
pub type U16x3 = Xyz<u16>;

impl<C: Component> Xyz<C> {
    /// Instantiate from X, Y and Z components
    pub fn new(x: C, y: C, z: C) -> (r: Self)
        ensures
            r.x == x,
            r.y == y,
            r.z == z,
    {
        Xyz { x, y, z }
    }

    /// Obtain an array of the components, in axis order
    pub fn to_array(&self) -> (r: [C; 3])
        ensures
            r@ == seq![self.x, self.y, self.z],
    {
        [self.x, self.y, self.z]
    }
}

impl<C: Component> Vector3D for Xyz<C> {
    fn new(x: C, y: C, z: C) -> (r: Self) {
        Xyz { x, y, z }
    }
}

impl<C: Component> From<(C, C, C)> for Xyz<C> {
    fn from(vector: (C, C, C)) -> (r: Self) {
        Xyz { x: vector.0, y: vector.1, z: vector.2 }
    }
}

impl<C: Component> vstd::std_specs::convert::FromSpecImpl<(C, C, C)> for Xyz<C> {
    open spec fn obeys_from_spec() -> bool {
        true
    }

    open spec fn from_spec(vector: (C, C, C)) -> Xyz<C> {
        Xyz { x: vector.0, y: vector.1, z: vector.2 }
    }
}

impl<C: Component> Vector for Xyz<C> {
    type Component = C;

    open spec fn axes() -> nat {
        3
    }

    open spec fn values(&self) -> Seq<int> {
        seq![self.x.value(), self.y.value(), self.z.value()]
    }

    proof fn lemma_axes() {
    }

    proof fn lemma_values(&self) {
        self.x.lemma_in_range();
        self.y.lemma_in_range();
        self.z.lemma_in_range();
    }

    proof fn lemma_values_injective(&self, other: &Self) {
        if self.values() == other.values() {
            assert(self.values()[0] == other.values()[0]);
            assert(self.values()[1] == other.values()[1]);
            assert(self.values()[2] == other.values()[2]);
            self.x.lemma_value_injective(other.x);
            self.y.lemma_value_injective(other.y);
            self.z.lemma_value_injective(other.z);
        }
    }

    fn axis_count() -> (r: usize) {
        3
    }

    fn from_slice(slice: &[C]) -> (r: Self) {
        let r = Xyz { x: slice[0], y: slice[1], z: slice[2] };
        assert(r.values() =~= slice@.map_values(|c: C| c.value()));
        r
    }

    fn get(self, index: usize) -> (r: Option<C>) {
        if index == 0 {
            Some(self.x)
        } else if index == 1 {
            Some(self.y)
        } else if index == 2 {
            Some(self.z)
        } else {
            None
        }
    }
}

} // verus!
