use vstd::prelude::*;
use crate::scalar::{max_spec, min_spec, Scalar};

verus! {

/// Every component equal to `v`, over `n` indices.
pub open spec fn fill_vals<S: Scalar>(n: usize, v: S) -> Seq<S> {
    Seq::new(n as nat, |i: int| v)
}

/// Every component equal to the scalar zero, over `n` indices.
pub open spec fn origin_vals<S: Scalar>(n: usize) -> Seq<S> {
    fill_vals(n, S::zero_spec())
}

/// Component-wise sum.
pub open spec fn add_vals<S: Scalar>(a: Seq<S>, b: Seq<S>) -> Seq<S> {
    Seq::new(a.len(), |i: int| a[i].add_spec(b[i]))
}

/// Component-wise difference.
pub open spec fn sub_vals<S: Scalar>(a: Seq<S>, b: Seq<S>) -> Seq<S> {
    Seq::new(a.len(), |i: int| a[i].sub_spec(b[i]))
}

/// Component-wise minimum.
pub open spec fn min_vals<S: Scalar>(a: Seq<S>, b: Seq<S>) -> Seq<S> {
    Seq::new(a.len(), |i: int| min_spec(a[i], b[i]))
}

/// Component-wise maximum.
pub open spec fn max_vals<S: Scalar>(a: Seq<S>, b: Seq<S>) -> Seq<S> {
    Seq::new(a.len(), |i: int| max_spec(a[i], b[i]))
}

/// Every component multiplied by `k` on the left.
pub open spec fn scale_vals<S: Scalar>(k: S, a: Seq<S>) -> Seq<S> {
    Seq::new(a.len(), |i: int| k.mul_spec(a[i]))
}

/// Holds when `t` records a left-to-right reduction of `s` by `f` starting
/// from `init`: `t[0]` is `init` and each `t[i + 1]` is a possible result of
/// `f(t[i], s[i])`.
pub open spec fn fold_trace_ok<S, F: Fn(S, S) -> S>(f: F, s: Seq<S>, init: S, t: Seq<S>) -> bool {
    &&& t.len() == s.len() + 1
    &&& t[0] == init
    &&& forall|i: int| 0 <= i < s.len() ==> call_ensures(f, (t[i], s[i]), #[trigger] t[i + 1])
}

/// Holds when `r` is a possible left-to-right reduction of `s` by `f`,
/// starting from `init`: index order, lowest first.
pub open spec fn fold_rel<S, F: Fn(S, S) -> S>(f: F, s: Seq<S>, init: S, r: S) -> bool {
    exists|t: Seq<S>| #[trigger] fold_trace_ok(f, s, init, t) && t.last() == r
}

/// The sum of the squares of the components, reduced left to right from zero.
pub open spec fn sq_len_spec<S: Scalar>(s: Seq<S>) -> S
    decreases s.len(),
{
    if s.len() == 0 {
        S::zero_spec()
    } else {
        sq_len_spec(s.drop_last()).add_spec(s.last().mul_spec(s.last()))
    }
}

/// A fixed-dimension tuple of homogeneous numeric components. Implementors
/// supply the three primitives (`gen`, `val`, `val_mut`) together with the
/// spec-level model `vals` and its two structural facts; every other
/// operation is derived once, here, from those primitives.
pub trait Coordinate: Sized + Copy + Clone + PartialEq + core::fmt::Debug {
    /// The numeric type of each component.
    type Scalar: Scalar;

    /// The number of components.
    const DIM: usize;

    /// The components as a mathematical sequence; the model every contract
    /// speaks of.
    spec fn vals(self) -> Seq<Self::Scalar>;

    /// A coordinate always has exactly `DIM` components.
    proof fn lemma_dim(self)
        ensures
            self.vals().len() == Self::DIM,
    ;

    /// Coordinates with the same components are the same value.
    proof fn lemma_extensional(a: Self, b: Self)
        requires
            a.vals() =~= b.vals(),
        ensures
            a == b,
    ;

    /// Builds a coordinate by invoking `val_fn` once per index, in index
    /// order, over `0..DIM`.
    fn gen<F: Fn(usize) -> Self::Scalar>(val_fn: F) -> (r: Self)
        requires
            forall|i: usize| i < Self::DIM ==> #[trigger] call_requires(val_fn, (i,)),
        ensures
            r.vals().len() == Self::DIM,
            forall|i: int|
                0 <= i < Self::DIM ==> call_ensures(val_fn, (i as usize,), #[trigger] r.vals()[i]),
    ;

    /// The component at index `i`.
    fn val(&self, i: usize) -> (r: Self::Scalar)
        requires
            i < Self::DIM,
        ensures
            r == self.vals()[i as int],
    ;

    /// The component at index `i`, exposed for in-place mutation.
    fn val_mut(&mut self, i: usize) -> (r: &mut Self::Scalar)
        requires
            i < Self::DIM,
        ensures
            *r == old(self).vals()[i as int],
            final(self).vals() == old(self).vals().update(i as int, *final(r)),
    ;

    /// The coordinate with every component equal to the scalar zero.
    fn new_origin() -> (r: Self)
        ensures
            r.vals() == origin_vals::<Self::Scalar>(Self::DIM),
    {
        Self::new_from_value(Self::Scalar::zero())
    }

    /// The coordinate with every component equal to `v`.
    fn new_from_value(v: Self::Scalar) -> (r: Self)
        ensures
            r.vals() == fill_vals(Self::DIM, v),
    {
        let fill = |_i: usize| -> (out: Self::Scalar)
            ensures
                out == v,
            { v };
        let r = Self::gen(fill);
        proof {
            r.lemma_dim();
            assert(r.vals() =~= fill_vals(Self::DIM, v));
        }
        r
    }

    /// A new coordinate whose component at each index `i` is
    /// `func(self.val(i), other.val(i))`.
    fn component_wise<F: Fn(Self::Scalar, Self::Scalar) -> Self::Scalar + Copy>(
        &self,
        other: &Self,
        func: F,
    ) -> (r: Self)
        requires
            forall|i: int|
                0 <= i < Self::DIM ==> call_requires(
                    func,
                    (#[trigger] self.vals()[i], other.vals()[i]),
                ),
        ensures
            r.vals().len() == Self::DIM,
            forall|i: int|
                0 <= i < Self::DIM ==> call_ensures(
                    func,
                    (self.vals()[i], other.vals()[i]),
                    #[trigger] r.vals()[i],
                ),
    {
        proof {
            self.lemma_dim();
            other.lemma_dim();
        }
        let at = |i: usize| -> (out: Self::Scalar)
            requires
                i < Self::DIM,
                self.vals().len() == Self::DIM,
                other.vals().len() == Self::DIM,
                call_requires(func, (self.vals()[i as int], other.vals()[i as int])),
            ensures
                call_ensures(func, (self.vals()[i as int], other.vals()[i as int]), out),
            { func(self.val(i), other.val(i)) };
        Self::gen(at)
    }

    /// Whether `func` holds of every pair of components at matching indices;
    /// evaluated in increasing index order, stopping at the first failure,
    /// and vacuously true when `DIM` is zero.
    fn all_comp<F: Fn(Self::Scalar, Self::Scalar) -> bool>(&self, other: &Self, func: F) -> (r:
        bool)
        requires
            forall|i: int|
                0 <= i < Self::DIM ==> call_requires(
                    func,
                    (#[trigger] self.vals()[i], other.vals()[i]),
                ),
        ensures
            r ==> forall|i: int|
                0 <= i < Self::DIM ==> call_ensures(
                    func,
                    (#[trigger] self.vals()[i], other.vals()[i]),
                    true,
                ),
            !r ==> exists|i: int|
                0 <= i < Self::DIM && call_ensures(
                    func,
                    (#[trigger] self.vals()[i], other.vals()[i]),
                    false,
                ),
    {
        proof {
            self.lemma_dim();
            other.lemma_dim();
        }
        let mut bln = true;
        let mut i: usize = 0;
        while bln && i < Self::DIM
            invariant
                i <= Self::DIM,
                self.vals().len() == Self::DIM,
                other.vals().len() == Self::DIM,
                forall|j: int|
                    0 <= j < Self::DIM ==> call_requires(
                        func,
                        (#[trigger] self.vals()[j], other.vals()[j]),
                    ),
                bln ==> forall|j: int|
                    0 <= j < i ==> call_ensures(
                        func,
                        (#[trigger] self.vals()[j], other.vals()[j]),
                        true,
                    ),
                !bln ==> exists|j: int|
                    0 <= j < i && call_ensures(
                        func,
                        (#[trigger] self.vals()[j], other.vals()[j]),
                        false,
                    ),
            decreases Self::DIM - i,
        {
            bln = func(self.val(i), other.val(i));
            i += 1;
        }
        bln
    }

    /// The per-axis minima of the axis-aligned bounding box holding both
    /// coordinates.
    fn min_of_bounds(&self, other: &Self) -> (r: Self)
        ensures
            r.vals() == min_vals(self.vals(), other.vals()),
    {
        proof {
            self.lemma_dim();
            other.lemma_dim();
        }
        let smaller = |l: Self::Scalar, m: Self::Scalar| -> (out: Self::Scalar)
            ensures
                out == min_spec(l, m),
            {
                if l.le(m) {
                    l
                } else {
                    m
                }
            };
        let r = self.component_wise(other, smaller);
        proof {
            assert(r.vals() =~= min_vals(self.vals(), other.vals()));
        }
        r
    }

    /// The per-axis maxima of the axis-aligned bounding box holding both
    /// coordinates.
    fn max_of_bounds(&self, other: &Self) -> (r: Self)
        ensures
            r.vals() == max_vals(self.vals(), other.vals()),
    {
        proof {
            self.lemma_dim();
            other.lemma_dim();
        }
        let larger = |l: Self::Scalar, m: Self::Scalar| -> (out: Self::Scalar)
            ensures
                out == max_spec(l, m),
            {
                if l.le(m) {
                    m
                } else {
                    l
                }
            };
        let r = self.component_wise(other, larger);
        proof {
            assert(r.vals() =~= max_vals(self.vals(), other.vals()));
        }
        r
    }

    /// Component-wise sum.
    fn add(&self, other: &Self) -> (r: Self)
        ensures
            r.vals() == add_vals(self.vals(), other.vals()),
    {
        proof {
            self.lemma_dim();
            other.lemma_dim();
        }
        let plus = |l: Self::Scalar, m: Self::Scalar| -> (out: Self::Scalar)
            ensures
                out == l.add_spec(m),
            { l.add(m) };
        let r = self.component_wise(other, plus);
        proof {
            assert(r.vals() =~= add_vals(self.vals(), other.vals()));
        }
        r
    }

    /// The components of `self` relative to `other`: an alias of `sub`, named
    /// for reading distance computations.
    fn comp(&self, other: &Self) -> (r: Self)
        ensures
            r.vals() == sub_vals(self.vals(), other.vals()),
    {
        self.sub(other)
    }

    /// Component-wise difference.
    fn sub(&self, other: &Self) -> (r: Self)
        ensures
            r.vals() == sub_vals(self.vals(), other.vals()),
    {
        proof {
            self.lemma_dim();
            other.lemma_dim();
        }
        let minus = |l: Self::Scalar, m: Self::Scalar| -> (out: Self::Scalar)
            ensures
                out == l.sub_spec(m),
            { l.sub(m) };
        let r = self.component_wise(other, minus);
        proof {
            assert(r.vals() =~= sub_vals(self.vals(), other.vals()));
        }
        r
    }

    /// Every component multiplied by `k` on the left.
    fn mult(&self, k: Self::Scalar) -> (r: Self)
        ensures
            r.vals() == scale_vals(k, self.vals()),
    {
        proof {
            self.lemma_dim();
        }
        let by_k = |v: Self::Scalar| -> (out: Self::Scalar)
            ensures
                out == k.mul_spec(v),
            { k.mul(v) };
        let r = self.map(by_k);
        proof {
            assert(r.vals() =~= scale_vals(k, self.vals()));
        }
        r
    }

    /// A new coordinate whose component at each index `i` is
    /// `transform(self.val(i))`.
    fn map<F: Fn(Self::Scalar) -> Self::Scalar + Copy>(&self, transform: F) -> (r: Self)
        requires
            forall|i: int|
                0 <= i < Self::DIM ==> call_requires(transform, (#[trigger] self.vals()[i],)),
        ensures
            r.vals().len() == Self::DIM,
            forall|i: int|
                0 <= i < Self::DIM ==> call_ensures(
                    transform,
                    (self.vals()[i],),
                    #[trigger] r.vals()[i],
                ),
    {
        proof {
            self.lemma_dim();
        }
        let at = |i: usize| -> (out: Self::Scalar)
            requires
                i < Self::DIM,
                self.vals().len() == Self::DIM,
                call_requires(transform, (self.vals()[i as int],)),
            ensures
                call_ensures(transform, (self.vals()[i as int],), out),
            { transform(self.val(i)) };
        Self::gen(at)
    }

    /// Reduces the components left to right, index `0` to `DIM - 1`:
    /// `total = func(total, self.val(i))`, starting from `start_val`.
    fn fold<F: Fn(Self::Scalar, Self::Scalar) -> Self::Scalar>(
        &self,
        start_val: Self::Scalar,
        func: F,
    ) -> (r: Self::Scalar)
        requires
            forall|acc: Self::Scalar, v: Self::Scalar| #[trigger] call_requires(func, (acc, v)),
        ensures
            fold_rel(func, self.vals(), start_val, r),
    {
        proof {
            self.lemma_dim();
        }
        let mut total = start_val;
        let mut i: usize = 0;
        let ghost mut trace: Seq<Self::Scalar> = seq![start_val];
        while i < Self::DIM
            invariant
                i <= Self::DIM,
                self.vals().len() == Self::DIM,
                forall|acc: Self::Scalar, v: Self::Scalar| #[trigger] call_requires(func, (acc, v)),
                trace.len() == i + 1,
                trace[0] == start_val,
                trace[i as int] == total,
                forall|j: int|
                    0 <= j < i ==> call_ensures(
                        func,
                        (trace[j], self.vals()[j]),
                        #[trigger] trace[j + 1],
                    ),
            decreases Self::DIM - i,
        {
            total = func(total, self.val(i));
            i += 1;
            proof {
                trace = trace.push(total);
            }
        }
        proof {
            assert(fold_trace_ok(func, self.vals(), start_val, trace));
            assert(trace.last() == total);
        }
        total
    }

    /// The sum of the squares of the components: the squared length, kept in
    /// scalar space so that no square root is asked of the scalar type.
    fn square_length(&self) -> (r: Self::Scalar)
        ensures
            r == sq_len_spec(self.vals()),
    {
        let sq = |acc: Self::Scalar, v: Self::Scalar| -> (out: Self::Scalar)
            ensures
                out == acc.add_spec(v.mul_spec(v)),
            { acc.add(v.mul(v)) };
        let r = self.fold(Self::Scalar::zero(), sq);
        proof {
            lemma_fold_rel_sq_len(sq, self.vals(), r);
        }
        r
    }

    /// The squared Euclidean distance between `self` and `other`.
    fn square_distance(&self, other: &Self) -> (r: Self::Scalar)
        ensures
            r == sq_len_spec(sub_vals(self.vals(), other.vals())),
    {
        self.comp(other).square_length()
    }
}

/// A reduction by a function that always returns the sum-of-squares step is
/// exactly the sum of squares.
proof fn lemma_fold_rel_sq_len<S: Scalar, F: Fn(S, S) -> S>(f: F, s: Seq<S>, r: S)
    requires
        fold_rel(f, s, S::zero_spec(), r),
        forall|acc: S, v: S, out: S|
            call_ensures(f, (acc, v), out) ==> out == acc.add_spec(v.mul_spec(v)),
    ensures
        r == sq_len_spec(s),
{
    let t = choose|t: Seq<S>| #[trigger] fold_trace_ok(f, s, S::zero_spec(), t) && t.last() == r;
    lemma_trace_prefix_sq_len(f, s, t, s.len() as int);
    assert(s.take(s.len() as int) =~= s);
}

/// Along a reduction trace of the sum-of-squares step, every intermediate
/// value is the sum of squares of the prefix reduced so far.
proof fn lemma_trace_prefix_sq_len<S: Scalar, F: Fn(S, S) -> S>(f: F, s: Seq<S>, t: Seq<S>, i: int)
    requires
        fold_trace_ok(f, s, S::zero_spec(), t),
        forall|acc: S, v: S, out: S|
            call_ensures(f, (acc, v), out) ==> out == acc.add_spec(v.mul_spec(v)),
        0 <= i <= s.len(),
    ensures
        t[i] == sq_len_spec(s.take(i)),
    decreases i,
{
    if i == 0 {
        assert(s.take(0) =~= Seq::<S>::empty());
    } else {
        lemma_trace_prefix_sq_len(f, s, t, i - 1);
        assert(s.take(i).drop_last() =~= s.take(i - 1));
        assert(s.take(i).last() == s[i - 1]);
        assert(call_ensures(f, (t[i - 1], s[i - 1]), t[i - 1 + 1]));
    }
}

} // verus!
