//! Algebraic vector types with a fixed number of axes (two or three) and an
//! integer component kind, useful for representing accelerometer readings or
//! values computed from them.
//!
//! All arithmetic here is exact: sums are taken in a wide integer type, means
//! are divided toward zero (the narrowing a float-to-integer cast performs),
//! and distances are reported squared so that no rounding takes place.

use vstd::prelude::*;

pub mod component;
pub mod xy;
pub mod xyz;

pub use self::component::Component;
pub use self::xy::{Vector2D, Xy, I16x2, I8x2, U16x2, U8x2};
pub use self::xyz::{Vector3D, Xyz, I16x3, I8x3, U16x3, U8x3};

verus! {

/// Sum of axis `axis` over the first `k` vectors of `vs`.
pub open spec fn axis_sum(vs: Seq<Seq<int>>, axis: int, k: nat) -> int
    decreases k,
{
    if k == 0 {
        0
    } else {
        axis_sum(vs, axis, (k - 1) as nat) + vs[k - 1][axis]
    }
}

/// Integer division that rounds toward zero.
pub open spec fn div_toward_zero(n: int, d: int) -> int {
    if n >= 0 {
        n / d
    } else {
        -((-n) / d)
    }
}

/// Arithmetic mean of `vs`, axis by axis, rounded toward zero; the zero
/// vector when `vs` is empty.
pub open spec fn mean_of(vs: Seq<Seq<int>>, axes: nat) -> Seq<int> {
    Seq::new(
        axes,
        |a: int|
            if vs.len() == 0 {
                0
            } else {
                div_toward_zero(axis_sum(vs, a, vs.len()), vs.len() as int)
            },
    )
}

/// Sum of the squared differences of `a` and `b` over their first `n` axes.
pub open spec fn partial_squares(a: Seq<int>, b: Seq<int>, n: nat) -> int
    decreases n,
{
    if n == 0 {
        0
    } else {
        partial_squares(a, b, (n - 1) as nat) + (a[n - 1] - b[n - 1]) * (a[n - 1] - b[n - 1])
    }
}

/// Squared Euclidean distance between two points.
pub open spec fn squared_distance(a: Seq<int>, b: Seq<int>) -> int {
    partial_squares(a, b, a.len())
}

/// Squared Euclidean norm of a vector.
pub open spec fn squared_norm(a: Seq<int>) -> int {
    squared_distance(a, Seq::new(a.len(), |i: int| 0))
}

/// The component values of each vector of `vs`.
pub open spec fn values_of<V: Vector>(vs: Seq<V>) -> Seq<Seq<int>> {
    vs.map_values(|v: V| v.values())
}

/// Vectors with integer components
pub trait Vector: Copy + Sized {
    /// Type representing measured acceleration for a particular axis
    type Component: Component;

    /// Number of axes
    spec fn axes() -> nat;

    /// The values of the components, in axis order
    spec fn values(&self) -> Seq<int>;

    /// A vector type has two or three axes.
    proof fn lemma_axes()
        ensures
            2 <= Self::axes() <= 3,
    ;

    /// A vector holds one value per axis, each in the range of its kind.
    proof fn lemma_values(&self)
        ensures
            self.values().len() == Self::axes(),
            forall|i: int|
                0 <= i < Self::axes() ==> Self::Component::min_value() <= #[trigger] self.values()[i]
                    <= Self::Component::max_value(),
    ;

    /// A vector is determined by its values.
    proof fn lemma_values_injective(&self, other: &Self)
        ensures
            self.values() == other.values() ==> *self == *other,
    ;

    /// Number of axes
    fn axis_count() -> (r: usize)
        ensures
            r == Self::axes(),
    ;

    /// Instantiate a vector from a slice of components.
    ///
    /// The slice must hold exactly one component per axis.
    fn from_slice(slice: &[Self::Component]) -> (r: Self)
        requires
            slice@.len() == Self::axes(),
        ensures
            r.values() == slice@.map_values(|c: Self::Component| c.value()),
    ;

    /// Get the component value for a particular index
    fn get(self, index: usize) -> (r: Option<Self::Component>)
        ensures
            r is Some <==> index < Self::axes(),
            r matches Some(c) ==> c.value() == self.values()[index as int],
    ;

    /// Iterate over the components of a vector
    fn iter(&self) -> (r: Iter<Self>)
        ensures
            r.spec_vector() == *self,
            r.spec_position() == 0,
    {
        Iter { vector: *self, position: 0 }
    }

    /// Compute arithmetic mean of the components of a slice of vectors,
    /// returning a vector consisting of the arithmetic means of its
    /// components, rounded toward zero (the zero vector for no vectors).
    fn mean(vectors: &[Self]) -> (r: Self)
        ensures
            r.values() == mean_of(vectors@.map_values(|v: Self| v.values()), Self::axes()),
    {
        let axes = Self::axis_count();
        proof {
            Self::lemma_axes();
            Self::Component::lemma_range();
        }
        let ghost vs = vectors@.map_values(|v: Self| v.values());
        let mut sums: Vec<i128> = Vec::new();
        while sums.len() < axes
            invariant
                sums@.len() <= axes,
                forall|j: int| 0 <= j < sums@.len() ==> sums@[j] == 0,
            decreases axes - sums@.len(),
        {
            sums.push(0);
        }
        let n = vectors.len();
        let mut k: usize = 0;
        while k < n
            invariant
                k <= n,
                n == vectors@.len(),
                vs == vectors@.map_values(|v: Self| v.values()),
                axes == Self::axes(),
                2 <= axes <= 3,
                -32768 <= Self::Component::min_value() <= 0 < Self::Component::max_value() <= 65535,
                sums@.len() == axes,
                forall|j: int| 0 <= j < axes ==> sums@[j] == axis_sum(vs, j, k as nat),
                forall|j: int| 0 <= j < axes ==> -(k * 32768) <= #[trigger] sums@[j] <= k * 65535,
            decreases n - k,
        {
            let v = vectors[k];
            proof {
                v.lemma_values();
            }
            let mut j: usize = 0;
            while j < axes
                invariant
                    k < n,
                    n == vectors@.len(),
                    v == vectors@[k as int],
                    vs == vectors@.map_values(|v: Self| v.values()),
                    axes == Self::axes(),
                    j <= axes,
                    v.values().len() == axes,
                    forall|i: int|
                        0 <= i < axes ==> Self::Component::min_value() <= #[trigger] v.values()[i]
                            <= Self::Component::max_value(),
                    -32768 <= Self::Component::min_value() <= 0 < Self::Component::max_value() <= 65535,
                    sums@.len() == axes,
                    forall|i: int| 0 <= i < j ==> sums@[i] == axis_sum(vs, i, (k + 1) as nat),
                    forall|i: int| j <= i < axes ==> sums@[i] == axis_sum(vs, i, k as nat),
                    forall|i: int| 0 <= i < j ==> -((k + 1) * 32768) <= #[trigger] sums@[i] <= (k + 1) * 65535,
                    forall|i: int| j <= i < axes ==> -(k * 32768) <= #[trigger] sums@[i] <= k * 65535,
                decreases axes - j,
            {
                let c = v.get(j).unwrap();
                let x = c.to_i32() as i128;
                proof {
                    assert(vs[k as int] == v.values());
                }
                let s = sums[j] + x;
                sums.set(j, s);
                j += 1;
            }
            k += 1;
        }
        let mut comps: Vec<Self::Component> = Vec::new();
        let mut j: usize = 0;
        while j < axes
            invariant
                n == vectors@.len(),
                vs == vectors@.map_values(|v: Self| v.values()),
                vs.len() == n,
                axes == Self::axes(),
                j <= axes,
                comps@.len() == j,
                sums@.len() == axes,
                forall|i: int| 0 <= i < axes ==> sums@[i] == axis_sum(vs, i, n as nat),
                forall|i: int| 0 <= i < axes ==> -(n * 32768) <= #[trigger] sums@[i] <= n * 65535,
                forall|i: int| 0 <= i < j ==> #[trigger] comps@[i].value() == mean_of(vs, Self::axes())[i],
            decreases axes - j,
        {
            let s = sums[j];
            let m: i128 = if n == 0 {
                0
            } else if s >= 0 {
                s / (n as i128)
            } else {
                -((-s) / (n as i128))
            };
            proof {
                Self::Component::lemma_range();
                if n > 0 {
                    assert forall|i: int| 0 <= i < n implies Self::Component::min_value() <= #[trigger] vs[i][j as int]
                        <= Self::Component::max_value() by {
                        vectors@[i].lemma_values();
                    }
                    lemma_axis_sum_bounds(
                        vs,
                        j as int,
                        n as nat,
                        Self::Component::min_value(),
                        Self::Component::max_value(),
                    );
                    lemma_div_toward_zero_bounds(
                        s as int,
                        n as int,
                        Self::Component::min_value(),
                        Self::Component::max_value(),
                    );
                }
                Self::Component::lemma_range();
            }
            comps.push(Self::Component::from_i32(m as i32));
            j += 1;
        }
        let r = Self::from_slice(comps.as_slice());
        assert(r.values() =~= mean_of(vs, Self::axes()));
        r
    }

    /// Compute the squared distance between two vectors
    fn distance_squared(self, other: Self) -> (r: u64)
        ensures
            r == squared_distance(self.values(), other.values()),
            r < 0x4_0000_0000,
    {
        let axes = Self::axis_count();
        proof {
            Self::lemma_axes();
            Self::Component::lemma_range();
            self.lemma_values();
            other.lemma_values();
        }
        let mut sum: u64 = 0;
        let mut j: usize = 0;
        while j < axes
            invariant
                axes == Self::axes(),
                2 <= axes <= 3,
                j <= axes,
                self.values().len() == axes,
                other.values().len() == axes,
                forall|i: int|
                    0 <= i < axes ==> Self::Component::min_value() <= #[trigger] self.values()[i]
                        <= Self::Component::max_value(),
                forall|i: int|
                    0 <= i < axes ==> Self::Component::min_value() <= #[trigger] other.values()[i]
                        <= Self::Component::max_value(),
                Self::Component::max_value() - Self::Component::min_value() <= 65535,
                sum == partial_squares(self.values(), other.values(), j as nat),
                sum <= j * 0x1_0000_0000,
            decreases axes - j,
        {
            let a = self.get(j).unwrap().to_i32();
            let b = other.get(j).unwrap().to_i32();
            let d = a - b;
            proof {
                assert(d * d <= 65535 * 65535) by (nonlinear_arith)
                    requires
                        -65535 <= d <= 65535,
                ;
                assert(d * d >= 0) by (nonlinear_arith);
            }
            let sq = (d as i64 * d as i64) as u64;
            sum = sum + sq;
            j += 1;
        }
        sum
    }

    /// Compute the squared magnitude of a vector
    fn magnitude_squared(self) -> (r: u64)
        ensures
            r == squared_norm(self.values()),
    {
        let axes = Self::axis_count();
        proof {
            Self::lemma_axes();
            Self::Component::lemma_range();
            self.lemma_values();
        }
        let ghost zeros = Seq::new(self.values().len(), |i: int| 0int);
        let mut sum: u64 = 0;
        let mut j: usize = 0;
        while j < axes
            invariant
                axes == Self::axes(),
                2 <= axes <= 3,
                j <= axes,
                self.values().len() == axes,
                zeros == Seq::new(self.values().len(), |i: int| 0int),
                forall|i: int|
                    0 <= i < axes ==> Self::Component::min_value() <= #[trigger] self.values()[i]
                        <= Self::Component::max_value(),
                -32768 <= Self::Component::min_value() <= 0 < Self::Component::max_value() <= 65535,
                sum == partial_squares(self.values(), zeros, j as nat),
                sum <= j * 0x1_0000_0000,
            decreases axes - j,
        {
            let a = self.get(j).unwrap().to_i32();
            proof {
                assert(a * a <= 65535 * 65535) by (nonlinear_arith)
                    requires
                        -65535 <= a <= 65535,
                ;
                assert(a * a >= 0) by (nonlinear_arith);
            }
            let sq = (a as i64 * a as i64) as u64;
            sum = sum + sq;
            j += 1;
        }
        sum
    }
}

/// Iterator over the components of a vector, in axis order
pub struct Iter<V> {
    /// The vector being iterated over
    vector: V,
    /// Iteration position within the vector
    position: usize,
}

impl<V> Iter<V> {
    /// The vector being iterated over
    pub closed spec fn spec_vector(&self) -> V {
        self.vector
    }

    /// The index of the next component to produce
    pub closed spec fn spec_position(&self) -> nat {
        self.position as nat
    }
}

impl<V: Vector> Iter<V> {
    /// Produce the next component, or `None` once every axis has been seen.
    pub fn next(&mut self) -> (r: Option<V::Component>)
        ensures
            final(self).spec_vector() == old(self).spec_vector(),
            old(self).spec_position() < V::axes() ==> {
                &&& final(self).spec_position() == old(self).spec_position() + 1
                &&& r matches Some(c) && c.value() == old(self).spec_vector().values()[old(self).spec_position() as int]
            },
            old(self).spec_position() >= V::axes() ==> {
                &&& final(self).spec_position() == old(self).spec_position()
                &&& r is None
            },
    {
        let item = self.vector.get(self.position);
        proof {
            V::lemma_axes();
        }
        if item.is_some() {
            self.position = self.position + 1;
        }
        item
    }
}

/// The mean of any number (at least one) of copies of a vector is that
/// vector, exactly.
pub proof fn lemma_mean_of_copies<V: Vector>(v: V, n: nat)
    requires
        n >= 1,
    ensures
        mean_of(Seq::new(n, |i: int| v).map_values(|w: V| w.values()), V::axes()) == v.values(),
{
    let vs = Seq::new(n, |i: int| v).map_values(|w: V| w.values());
    v.lemma_values();
    assert forall|a: int| 0 <= a < V::axes() implies #[trigger] mean_of(vs, V::axes())[a]
        == v.values()[a] by {
        let x = v.values()[a];
        lemma_axis_sum_constant(vs, a, n, x);
        if x >= 0 {
            vstd::arithmetic::div_mod::lemma_div_by_multiple(x, n as int);
            assert(n * x == x * n) by (nonlinear_arith);
        } else {
            vstd::arithmetic::div_mod::lemma_div_by_multiple(-x, n as int);
            assert(-(n * x) == (-x) * n) by (nonlinear_arith);
            assert(n * x < 0) by (nonlinear_arith)
                requires
                    n >= 1,
                    x < 0,
            ;
        }
    }
    assert(mean_of(vs, V::axes()) =~= v.values());
}

/// A sum of `k` equal values is `k` times that value.
proof fn lemma_axis_sum_constant(vs: Seq<Seq<int>>, axis: int, k: nat, x: int)
    requires
        k <= vs.len(),
        forall|i: int| 0 <= i < vs.len() ==> #[trigger] vs[i][axis] == x,
    ensures
        axis_sum(vs, axis, k) == k * x,
    decreases k,
{
    if k > 0 {
        let p = (k - 1) as nat;
        lemma_axis_sum_constant(vs, axis, p, x);
        assert(vs[p as int][axis] == x);
        assert(k * x == p * x + x) by (nonlinear_arith)
            requires
                p == k - 1,
        ;
    } else {
        assert(k * x == 0) by (nonlinear_arith)
            requires
                k == 0,
        ;
    }
}

/// Bounds on a sum of values that each lie in `lo..=hi`.
proof fn lemma_axis_sum_bounds(vs: Seq<Seq<int>>, axis: int, k: nat, lo: int, hi: int)
    requires
        k <= vs.len(),
        forall|i: int| 0 <= i < vs.len() ==> lo <= #[trigger] vs[i][axis] <= hi,
    ensures
        k * lo <= axis_sum(vs, axis, k) <= k * hi,
    decreases k,
{
    if k > 0 {
        let p = (k - 1) as nat;
        lemma_axis_sum_bounds(vs, axis, p, lo, hi);
        assert(axis_sum(vs, axis, k) == axis_sum(vs, axis, p) + vs[p as int][axis]);
        assert(lo <= vs[p as int][axis] <= hi);
        assert(k * lo == p * lo + lo) by (nonlinear_arith)
            requires
                p == k - 1,
        ;
        assert(k * hi == p * hi + hi) by (nonlinear_arith)
            requires
                p == k - 1,
        ;
    } else {
        assert(k * lo == 0 && k * hi == 0) by (nonlinear_arith)
            requires
                k == 0,
        ;
    }
}

/// Dividing a sum of `d` values in `lo..=hi` by `d`, toward zero, gives a
/// value in `lo..=hi` again.
proof fn lemma_div_toward_zero_bounds(s: int, d: int, lo: int, hi: int)
    requires
        d > 0,
        lo <= 0 <= hi,
        d * lo <= s <= d * hi,
    ensures
        lo <= div_toward_zero(s, d) <= hi,
{
    if s >= 0 {
        vstd::arithmetic::div_mod::lemma_div_is_ordered(s, d * hi, d);
        vstd::arithmetic::div_mod::lemma_div_by_multiple(hi, d);
        assert(d * hi == hi * d) by (nonlinear_arith);
        vstd::arithmetic::div_mod::lemma_div_pos_is_pos(s, d);
    } else {
        assert(-s <= d * (-lo)) by (nonlinear_arith)
            requires
                d * lo <= s,
        ;
        vstd::arithmetic::div_mod::lemma_div_is_ordered(-s, d * (-lo), d);
        vstd::arithmetic::div_mod::lemma_div_by_multiple(-lo, d);
        assert(d * (-lo) == (-lo) * d) by (nonlinear_arith);
        vstd::arithmetic::div_mod::lemma_div_pos_is_pos(-s, d);
    }
}

} // verus!
