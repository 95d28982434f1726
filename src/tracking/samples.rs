//! Collection of acceleration data samples with support for performing
//! various kinds of statistical analysis on them.
//!
//! The trimmed mean keeps the samples whose distance from the untrimmed mean
//! is under three standard deviations. The variance is the sum of squared
//! distances divided by `L - 1`, where `L` is the capacity of the buffer,
//! also while fewer than `L` samples are held. The comparison is made on
//! squares, exactly, so no square root is taken; when the variance is zero,
//! every sample is kept.

use crate::vector::{lemma_mean_of_copies, mean_of, squared_distance, values_of, Vector};
use vstd::prelude::*;

verus! {

/// Sum of the squared distances of the first `k` of `vs` from `center`.
pub open spec fn spread(vs: Seq<Seq<int>>, center: Seq<int>, k: nat) -> int
    decreases k,
{
    if k == 0 {
        0
    } else {
        spread(vs, center, (k - 1) as nat) + squared_distance(vs[k - 1], center)
    }
}

/// The untrimmed mean of some samples.
pub open spec fn center_of<V: Vector>(samples: Seq<V>) -> Seq<int> {
    mean_of(values_of(samples), V::axes())
}

/// Sum of the squared distances of the samples from their untrimmed mean.
pub open spec fn total_spread<V: Vector>(samples: Seq<V>) -> int {
    spread(values_of(samples), center_of(samples), samples.len())
}

/// The three-sigma rule, on squares. With the variance taken as
/// `total / (capacity - 1)`, a sample at squared distance `d2` from the mean
/// lies within three standard deviations when `d2 < 9 * total / (capacity - 1)`;
/// every sample does when the variance is zero.
pub open spec fn within_three_sigma(d2: int, total: int, capacity: int) -> bool {
    total == 0 || (capacity - 1) * d2 < 9 * total
}

/// Whether a sample is kept by the trimmed mean over `samples`, in a buffer
/// of the given capacity.
pub open spec fn is_inlier<V: Vector>(samples: Seq<V>, capacity: int) -> spec_fn(V) -> bool {
    |v: V|
        within_three_sigma(
            squared_distance(v.values(), center_of(samples)),
            total_spread(samples),
            capacity,
        )
}

/// The samples that the trimmed mean keeps, in buffer order.
pub open spec fn inliers<V: Vector>(samples: Seq<V>, capacity: int) -> Seq<V> {
    samples.filter(is_inlier(samples, capacity))
}

/// The slot of a ring buffer of the given capacity that the next sample goes
/// to: the end while the buffer is not full, the write position after.
pub open spec fn next_slot(len: nat, position: nat, capacity: nat) -> int {
    if len < capacity {
        len as int
    } else {
        position as int
    }
}

/// The contents of a ring buffer of the given capacity after one more sample:
/// appended while the buffer is not full, written over the oldest sample (at
/// the write position) after.
pub open spec fn ring_push<V>(samples: Seq<V>, position: nat, capacity: nat, v: V) -> Seq<V> {
    if samples.len() < capacity {
        samples.push(v)
    } else {
        samples.update(position as int, v)
    }
}

/// Contents and write position of a ring buffer of the given capacity after
/// the given updates, starting from an empty buffer.
pub open spec fn ring_after<V>(updates: Seq<V>, capacity: nat) -> (Seq<V>, nat)
    decreases updates.len(),
{
    if updates.len() == 0 {
        (Seq::empty(), 0)
    } else {
        let (held, position) = ring_after(updates.drop_last(), capacity);
        (ring_push(held, position, capacity, updates.last()), (position + 1) % capacity)
    }
}

/// Ring buffer for accelerometer data samples, of capacity `L`
pub struct Samples<V, const L: usize> {
    /// Internal sample buffer
    buffer: Vec<V>,
    /// Position within our internal sample buffer
    position: usize,
}

impl<V: Vector, const L: usize> Samples<V, L> {
    /// The samples currently held, in slot order.
    pub closed spec fn spec_samples(&self) -> Seq<V> {
        self.buffer@
    }

    /// The slot that the next sample goes to once the buffer is full.
    pub closed spec fn spec_position(&self) -> nat {
        self.position as nat
    }

    /// Well-formedness: at most `L` samples are held, and until the buffer
    /// is full the write position is the number of samples held.
    pub open spec fn wf(&self) -> bool {
        &&& self.spec_samples().len() <= L
        &&& L > 0 ==> self.spec_position() < L
        &&& self.spec_samples().len() < L ==> self.spec_position() == self.spec_samples().len()
    }

    /// Create an empty set of samples
    pub fn new() -> (r: Self)
        ensures
            r.wf(),
            r.spec_samples() == Seq::<V>::empty(),
            r.spec_position() == 0,
    {
        Samples { buffer: Vec::new(), position: 0 }
    }

    /// Number of samples currently held
    pub fn len(&self) -> (r: usize)
        ensures
            r == self.spec_samples().len(),
    {
        self.buffer.len()
    }

    /// Update the internal sample buffer with the given sample: it is
    /// appended while the buffer is not full, and replaces the oldest sample
    /// afterwards.
    pub fn update(&mut self, sample: V)
        requires
            old(self).wf(),
            L > 0,
        ensures
            final(self).wf(),
            final(self).spec_samples() == ring_push(
                old(self).spec_samples(),
                old(self).spec_position(),
                L as nat,
                sample,
            ),
            0 <= next_slot(old(self).spec_samples().len(), old(self).spec_position(), L as nat)
                < final(self).spec_samples().len(),
            final(self).spec_samples()[next_slot(
                old(self).spec_samples().len(),
                old(self).spec_position(),
                L as nat,
            )] == sample,
            final(self).spec_position() == (old(self).spec_position() + 1) % (L as nat),
    {
        if self.buffer.len() < L {
            self.buffer.push(sample);
        } else {
            self.buffer.set(self.position, sample);
        }
        proof {
            vstd::arithmetic::div_mod::lemma_mod_bound((self.position + 1) as int, L as int);
            if self.position + 1 < L {
                vstd::arithmetic::div_mod::lemma_small_mod((self.position + 1) as nat, L as nat);
            }
        }
        self.position = (self.position + 1) % L;
    }

    /// Compute arithmetic mean of the samples held (rounded toward zero, and
    /// the zero vector when there are none).
    ///
    /// This method does not cull outliers.
    pub fn mean(&self) -> (r: V)
        ensures
            r.values() == center_of(self.spec_samples()),
    {
        V::mean(self.buffer.as_slice())
    }

    /// Iterate over the raw samples currently in the buffer.
    ///
    /// Iteration order is slot order, not necessarily correlated to recency.
    pub fn iter(&self) -> (r: &[V])
        ensures
            r@ == self.spec_samples(),
    {
        self.buffer.as_slice()
    }

    /// Create a "trimmed" iterator which skips over statistical outliers
    pub fn iter_trimmed(&self) -> (r: IterTrimmed<'_, V>)
        requires
            self.wf(),
        ensures
            r.wf(),
            r.spec_samples() == self.spec_samples(),
            r.spec_capacity() == L,
            r.spec_position() == 0,
    {
        let mean = self.mean();
        let n = self.buffer.len();
        let ghost vs = values_of(self.buffer@);
        let mut total: u128 = 0;
        let mut k: usize = 0;
        while k < n
            invariant
                n == self.buffer@.len(),
                vs == values_of(self.buffer@),
                mean.values() == center_of(self.buffer@),
                k <= n,
                total == spread(vs, mean.values(), k as nat),
                total <= k * 0x4_0000_0000,
            decreases n - k,
        {
            let d2 = self.buffer[k].distance_squared(mean);
            total = total + d2 as u128;
            k += 1;
        }
        IterTrimmed { samples: self.buffer.as_slice(), position: 0, mean, total, capacity: L }
    }

    /// Compute a "trimmed" mean which culls outliers before computing the
    /// mean: the mean of the samples within three standard deviations of the
    /// untrimmed mean (the variance divided by `L - 1`), rounded toward zero.
    /// When no sample is kept, this is the zero vector.
    pub fn trimmed_mean(&self) -> (r: V)
        requires
            self.wf(),
        ensures
            r.values() == mean_of(values_of(inliers(self.spec_samples(), L as int)), V::axes()),
    {
        let ghost s = self.spec_samples();
        let ghost p = is_inlier(s, L as int);
        let mut it = self.iter_trimmed();
        let mut kept: Vec<V> = Vec::new();
        loop
            invariant
                it.wf(),
                it.spec_samples() == s,
                s == self.spec_samples(),
                p == is_inlier(s, L as int),
                it.spec_capacity() == L,
                it.spec_position() <= s.len(),
                kept@ == s.take(it.spec_position() as int).filter(p),
            ensures
                kept@ == inliers(s, L as int),
            decreases s.len() - it.spec_position(),
        {
            let ghost before = it.spec_position();
                match it.next() {
                Some(v) => {
                    proof {
                        let j = (it.spec_position() - 1) as nat;
                        lemma_filter_skip(s, p, before, j);
                        lemma_filter_step(s, p, j);
                    }
                    kept.push(v);
                },
                None => {
                    proof {
                        lemma_filter_skip(s, p, before, s.len());
                        assert(s.take(s.len() as int) =~= s);
                    }
                    break ;
                },
            }
        }
        V::mean(kept.as_slice())
    }
}

impl<V: Vector, const L: usize> Default for Samples<V, L> {
    /// An empty set of samples
    fn default() -> (r: Self)
        ensures
            r.wf(),
            r.spec_samples() == Seq::<V>::empty(),
            r.spec_position() == 0,
    {
        Self::new()
    }
}

/// A "trimmed" iterator over the sample buffer which skips outliers
pub struct IterTrimmed<'a, V> {
    /// The samples being iterated over
    samples: &'a [V],
    /// Index of the next sample to consider
    position: usize,
    /// Arithmetic mean of the samples
    mean: V,
    /// Sum of the squared distances of the samples from their mean
    total: u128,
    /// Capacity of the buffer the samples come from
    capacity: usize,
}

impl<'a, V: Vector> IterTrimmed<'a, V> {
    /// The samples being iterated over
    pub closed spec fn spec_samples(&self) -> Seq<V> {
        self.samples@
    }

    /// Index of the next sample to consider
    pub closed spec fn spec_position(&self) -> nat {
        self.position as nat
    }

    /// Capacity of the buffer the samples come from
    pub closed spec fn spec_capacity(&self) -> int {
        self.capacity as int
    }

    /// The untrimmed mean of the samples, as computed when iteration began
    pub closed spec fn spec_mean(&self) -> V {
        self.mean
    }

    /// The sum of the squared distances from the mean, as computed when
    /// iteration began
    pub closed spec fn spec_total(&self) -> int {
        self.total as int
    }

    /// Well-formedness: the position lies within the samples, and the
    /// statistics match the samples.
    pub open spec fn wf(&self) -> bool {
        &&& self.spec_position() <= self.spec_samples().len()
        &&& self.spec_samples().len() <= self.spec_capacity()
        &&& self.spec_mean().values() == center_of(self.spec_samples())
        &&& self.spec_total() == total_spread(self.spec_samples())
        &&& self.spec_total() <= self.spec_samples().len() * 0x4_0000_0000
    }

    /// Produce the next sample that lies within three standard deviations of
    /// the mean, skipping the others.
    pub fn next(&mut self) -> (r: Option<V>)
        requires
            old(self).wf(),
        ensures
            final(self).wf(),
            final(self).spec_samples() == old(self).spec_samples(),
            final(self).spec_capacity() == old(self).spec_capacity(),
            old(self).spec_position() <= final(self).spec_position(),
            final(self).spec_position() <= final(self).spec_samples().len(),
            match r {
                Some(v) => {
                    &&& old(self).spec_position() < final(self).spec_position()
                    &&& v == old(self).spec_samples()[final(self).spec_position() - 1]
                    &&& is_inlier(old(self).spec_samples(), old(self).spec_capacity())(v)
                    &&& forall|i: int|
                        old(self).spec_position() <= i < final(self).spec_position() - 1 ==> !is_inlier(
                            old(self).spec_samples(),
                            old(self).spec_capacity(),
                        )(#[trigger] old(self).spec_samples()[i])
                },
                None => {
                    &&& final(self).spec_position() == old(self).spec_samples().len()
                    &&& forall|i: int|
                        old(self).spec_position() <= i < final(self).spec_position() ==> !is_inlier(
                            old(self).spec_samples(),
                            old(self).spec_capacity(),
                        )(#[trigger] old(self).spec_samples()[i])
                },
            },
    {
        let ghost s = self.samples@;
        let ghost p = is_inlier(s, self.capacity as int);
        let ghost start = self.position;
        while self.position < self.samples.len()
            invariant
                self.wf(),
                self.samples@ == s,
                s == old(self).samples@,
                self.capacity == old(self).capacity,
                p == is_inlier(s, self.capacity as int),
                start == old(self).position,
                start <= self.position,
                forall|i: int| start <= i < self.position ==> !p(#[trigger] s[i]),
            decreases s.len() - self.position,
        {
            let sample = self.samples[self.position];
            self.position = self.position + 1;
            let d2 = sample.distance_squared(self.mean);
            let scale = (self.capacity - 1) as u128;
            proof {
                let n = s.len();
                assert(scale * d2 < 0x1_0000_0000_0000_0000 * 0x4_0000_0000) by (nonlinear_arith)
                    requires
                        scale < 0x1_0000_0000_0000_0000,
                        d2 < 0x4_0000_0000,
                ;
                assert(self.total <= 0x1_0000_0000_0000_0000 * 0x4_0000_0000) by (nonlinear_arith)
                    requires
                        self.total <= n * 0x4_0000_0000,
                        n <= 0x1_0000_0000_0000_0000,
                ;
            }
            if self.total == 0 || scale * (d2 as u128) < 9 * self.total {
                return Some(sample);
            }
        }
        None
    }
}

/// The trimmed mean of samples that all equal one vector is that vector,
/// exactly, whatever the capacity of the buffer.
pub proof fn lemma_trimmed_mean_of_constant<V: Vector>(samples: Seq<V>, v: V, capacity: int)
    requires
        samples.len() >= 1,
        forall|i: int| 0 <= i < samples.len() ==> #[trigger] samples[i] == v,
    ensures
        mean_of(values_of(inliers(samples, capacity)), V::axes()) == v.values(),
{
    let n = samples.len();
    assert(samples =~= Seq::new(n, |i: int| v));
    lemma_mean_of_copies(v, n);
    let vs = values_of(samples);
    let center = center_of(samples);
    assert(center == v.values());
    lemma_spread_of_copies(vs, center, n);
    let p = is_inlier(samples, capacity);
    assert forall|i: int| 0 <= i < n implies #[trigger] p(samples[i]) by {}
    lemma_filter_keeps_all(samples, p, n);
    assert(samples.take(n as int) =~= samples);
}

/// After `n` updates of an empty ring buffer of capacity `c`, it holds
/// `min(n, c)` samples, its write position is `n % c`, and slot `i` holds the
/// latest update written at an index congruent to `i` modulo `c`: the oldest
/// updates are the ones evicted.
pub proof fn lemma_ring_holds_latest<V>(updates: Seq<V>, capacity: nat)
    requires
        capacity > 0,
    ensures
        ring_after(updates, capacity).1 == updates.len() % capacity,
        ring_after(updates, capacity).0.len() == if updates.len() < capacity {
            updates.len()
        } else {
            capacity
        },
        forall|i: int|
            0 <= i < ring_after(updates, capacity).0.len() ==> #[trigger] ring_after(
                updates,
                capacity,
            ).0[i] == updates[i + capacity * ((updates.len() - 1 - i) / (capacity as int))],
    decreases updates.len(),
{
    let n = updates.len();
    let c = capacity as int;
    if n == 0 {
        vstd::arithmetic::div_mod::lemma_small_mod(0, capacity);
    } else {
        let prev = updates.drop_last();
        lemma_ring_holds_latest(prev, capacity);
        let (held, position) = ring_after(prev, capacity);
        let m = n - 1;
        lemma_next_position(m, c);
        vstd::arithmetic::div_mod::lemma_mod_bound(m, c);
        if m < c {
            vstd::arithmetic::div_mod::lemma_small_mod(m as nat, capacity);
            assert forall|i: int| 0 <= i < n implies #[trigger] ring_after(updates, capacity).0[i]
                == updates[i + c * ((n - 1 - i) / c)] by {
                vstd::arithmetic::div_mod::lemma_basic_div(n - 1 - i, c);
                if i < m {
                    vstd::arithmetic::div_mod::lemma_basic_div(m - 1 - i, c);
                }
            }
        } else {
            assert(held.len() == c);
            assert forall|i: int| 0 <= i < c implies #[trigger] ring_after(updates, capacity).0[i]
                == updates[i + c * ((n - 1 - i) / c)] by {
                lemma_latest_index(m, i, c);
                if i != position {
                    let x = m - 1 - i;
                    vstd::arithmetic::div_mod::lemma_fundamental_div_mod(x, c);
                    vstd::arithmetic::div_mod::lemma_mod_bound(x, c);
                    vstd::arithmetic::div_mod::lemma_div_pos_is_pos(x, c);
                    assert(0 <= c * (x / c)) by (nonlinear_arith)
                        requires
                            c > 0,
                            x / c >= 0,
                    ;
                    assert(held[i] == prev[i + c * (x / c)]);
                }
            }
        }
    }
}

/// Advancing a position taken modulo `c` by one.
proof fn lemma_next_position(m: int, c: int)
    requires
        c > 0,
        m >= 0,
    ensures
        (m % c + 1) % c == (m + 1) % c,
{
    let q = m / c;
    let r = m % c;
    vstd::arithmetic::div_mod::lemma_fundamental_div_mod(m, c);
    vstd::arithmetic::div_mod::lemma_mod_bound(m, c);
    if r + 1 < c {
        vstd::arithmetic::div_mod::lemma_small_mod((r + 1) as nat, c as nat);
        assert(m + 1 == q * c + (r + 1)) by (nonlinear_arith)
            requires
                m == c * q + r,
        ;
        vstd::arithmetic::div_mod::lemma_fundamental_div_mod_converse_mod(m + 1, c, q, r + 1);
    } else {
        vstd::arithmetic::div_mod::lemma_mod_self_0(c);
        assert(m + 1 == (q + 1) * c + 0) by (nonlinear_arith)
            requires
                m == c * q + r,
                r + 1 == c,
        ;
        vstd::arithmetic::div_mod::lemma_fundamental_div_mod_converse_mod(m + 1, c, q + 1, 0);
    }
}

/// Where the latest index congruent to `i` below `m + 1` lies, compared
/// with the one below `m`.
proof fn lemma_latest_index(m: int, i: int, c: int)
    requires
        c > 0,
        0 <= i < c,
        c <= m,
    ensures
        i == m % c ==> i + c * ((m - i) / c) == m,
        i != m % c ==> (m - i) / c == (m - 1 - i) / c,
{
    let q = m / c;
    let r = m % c;
    vstd::arithmetic::div_mod::lemma_fundamental_div_mod(m, c);
    vstd::arithmetic::div_mod::lemma_mod_bound(m, c);
    assert(m == q * c + r) by (nonlinear_arith)
        requires
            m == c * q + r,
    ;
    if r == i {
        vstd::arithmetic::div_mod::lemma_fundamental_div_mod_converse_div(m - i, c, q, 0);
        assert(c * q == q * c) by (nonlinear_arith);
    } else if r > i {
        vstd::arithmetic::div_mod::lemma_fundamental_div_mod_converse_div(m - i, c, q, r - i);
        vstd::arithmetic::div_mod::lemma_fundamental_div_mod_converse_div(m - 1 - i, c, q, r - i - 1);
    } else {
        assert(m - i == (q - 1) * c + (c + r - i)) by (nonlinear_arith)
            requires
                m == q * c + r,
        ;
        assert(m - 1 - i == (q - 1) * c + (c + r - i - 1)) by (nonlinear_arith)
            requires
                m == q * c + r,
        ;
        vstd::arithmetic::div_mod::lemma_fundamental_div_mod_converse_div(m - i, c, q - 1, c + r - i);
        vstd::arithmetic::div_mod::lemma_fundamental_div_mod_converse_div(
            m - 1 - i,
            c,
            q - 1,
            c + r - i - 1,
        );
    }
}

/// Samples equal to the center have no spread.
proof fn lemma_spread_of_copies(vs: Seq<Seq<int>>, center: Seq<int>, k: nat)
    requires
        k <= vs.len(),
        forall|i: int| 0 <= i < vs.len() ==> #[trigger] vs[i] == center,
    ensures
        spread(vs, center, k) == 0,
    decreases k,
{
    if k > 0 {
        lemma_spread_of_copies(vs, center, (k - 1) as nat);
        assert(vs[k - 1] == center);
        lemma_no_distance(center, center.len());
    }
}

/// A point is at distance zero from itself.
proof fn lemma_no_distance(a: Seq<int>, n: nat)
    ensures
        crate::vector::partial_squares(a, a, n) == 0,
    decreases n,
{
    if n > 0 {
        lemma_no_distance(a, (n - 1) as nat);
    }
}

/// Filtering elements that all pass keeps them all.
proof fn lemma_filter_keeps_all<A>(s: Seq<A>, p: spec_fn(A) -> bool, k: nat)
    requires
        k <= s.len(),
        forall|i: int| 0 <= i < s.len() ==> #[trigger] p(s[i]),
    ensures
        s.take(k as int).filter(p) == s.take(k as int),
    decreases k,
{
    if k > 0 {
        let j = (k - 1) as nat;
        lemma_filter_keeps_all(s, p, j);
        lemma_filter_step(s, p, j);
        assert(s.take(j as int).push(s[j as int]) =~= s.take(k as int));
    } else {
        reveal(Seq::filter);
    }
}

/// Filtering one more element of a sequence adds it when it passes.
proof fn lemma_filter_step<A>(s: Seq<A>, p: spec_fn(A) -> bool, k: nat)
    requires
        k < s.len(),
    ensures
        s.take(k + 1int).filter(p) == if p(s[k as int]) {
            s.take(k as int).filter(p).push(s[k as int])
        } else {
            s.take(k as int).filter(p)
        },
{
    reveal(Seq::filter);
    assert(s.take(k + 1int).drop_last() =~= s.take(k as int));
}

/// Filtering elements that do not pass adds nothing.
proof fn lemma_filter_skip<A>(s: Seq<A>, p: spec_fn(A) -> bool, a: nat, b: nat)
    requires
        a <= b <= s.len(),
        forall|i: int| a <= i < b ==> !p(#[trigger] s[i]),
    ensures
        s.take(b as int).filter(p) == s.take(a as int).filter(p),
    decreases b - a,
{
    if a < b {
        let c = (b - 1) as nat;
        lemma_filter_skip(s, p, a, c);
        lemma_filter_step(s, p, c);
    }
}

} // verus!
