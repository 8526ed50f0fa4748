use vstd::prelude::*;
use vstd::wrapping::i64_specs;

verus! {

/// The numeric contract shared by all components of a coordinate: a zero
/// value, total addition, subtraction and multiplication, and a total
/// ordering for the bounding-box extrema. Each executable operation is
/// pinned to a spec-level counterpart, and every implementor proves the
/// algebraic facts that the derived coordinate operations rely on.
pub trait Scalar: Sized + Copy + Clone + PartialEq + core::fmt::Debug {
    /// The zero value, the additive identity.
    spec fn zero_spec() -> Self;

    /// What `add` returns.
    spec fn add_spec(self, other: Self) -> Self;

    /// What `sub` returns.
    spec fn sub_spec(self, other: Self) -> Self;

    /// What `mul` returns.
    spec fn mul_spec(self, other: Self) -> Self;

    /// The ordering used by the bounding-box extrema.
    spec fn le_spec(self, other: Self) -> bool;

    fn zero() -> (r: Self)
        ensures
            r == Self::zero_spec(),
    ;

    fn add(self, other: Self) -> (r: Self)
        ensures
            r == self.add_spec(other),
    ;

    fn sub(self, other: Self) -> (r: Self)
        ensures
            r == self.sub_spec(other),
    ;

    fn mul(self, other: Self) -> (r: Self)
        ensures
            r == self.mul_spec(other),
    ;

    fn le(self, other: Self) -> (r: bool)
        ensures
            r == self.le_spec(other),
    ;

    /// Subtraction undoes addition.
    proof fn lemma_add_sub(a: Self, b: Self)
        ensures
            a.add_spec(b).sub_spec(b) == a,
    ;

    /// Zero is the additive identity.
    proof fn lemma_zero_add(a: Self)
        ensures
            Self::zero_spec().add_spec(a) == a,
            a.add_spec(Self::zero_spec()) == a,
    ;

    /// Subtracting a value from itself yields zero.
    proof fn lemma_sub_self(a: Self)
        ensures
            a.sub_spec(a) == Self::zero_spec(),
    ;

    /// Zero absorbs multiplication on the left.
    proof fn lemma_zero_mul(a: Self)
        ensures
            Self::zero_spec().mul_spec(a) == Self::zero_spec(),
    ;

    /// The ordering is total and antisymmetric.
    proof fn lemma_le_total(a: Self, b: Self)
        ensures
            a.le_spec(b) || b.le_spec(a),
            a.le_spec(b) && b.le_spec(a) ==> a == b,
    ;
}

/// The smaller of two scalars under the trait's ordering.
pub open spec fn min_spec<S: Scalar>(a: S, b: S) -> S {
    if a.le_spec(b) {
        a
    } else {
        b
    }
}

/// The larger of two scalars under the trait's ordering.
pub open spec fn max_spec<S: Scalar>(a: S, b: S) -> S {
    if a.le_spec(b) {
        b
    } else {
        a
    }
}

/// Machine integers satisfy the scalar contract with wrapping arithmetic,
/// which keeps every operation total.
impl Scalar for i64 {
    open spec fn zero_spec() -> i64 {
        0i64
    }

    open spec fn add_spec(self, other: i64) -> i64 {
        i64_specs::wrapping_add(self, other)
    }

    open spec fn sub_spec(self, other: i64) -> i64 {
        i64_specs::wrapping_sub(self, other)
    }

    open spec fn mul_spec(self, other: i64) -> i64 {
        i64_specs::wrapping_mul(self, other)
    }

    open spec fn le_spec(self, other: i64) -> bool {
        self <= other
    }

    fn zero() -> (r: i64) {
        0
    }

    fn add(self, other: i64) -> (r: i64) {
        self.wrapping_add(other)
    }

    fn sub(self, other: i64) -> (r: i64) {
        self.wrapping_sub(other)
    }

    fn mul(self, other: i64) -> (r: i64) {
        self.wrapping_mul(other)
    }

    fn le(self, other: i64) -> (r: bool) {
        self <= other
    }

    proof fn lemma_add_sub(a: i64, b: i64) {
    }

    proof fn lemma_zero_add(a: i64) {
    }

    proof fn lemma_sub_self(a: i64) {
    }

    proof fn lemma_zero_mul(a: i64) {
    }

    proof fn lemma_le_total(a: i64, b: i64) {
    }
}

/// One is a multiplicative identity of the wrapping `i64` scalar.
pub proof fn lemma_i64_one_mul_identity()
    ensures
        forall|v: i64| #[trigger] (1i64).mul_spec(v) == v,
{
    assert forall|v: i64| #[trigger] (1i64).mul_spec(v) == v by {
        lemma_i64_one_mul(v);
    }
}

proof fn lemma_i64_one_mul(v: i64)
    ensures
        (1i64).mul_spec(v) == v,
{
    assert(1 * v == v);
    if v >= 0 {
        vstd::arithmetic::div_mod::lemma_small_mod(v as nat, 0x1_0000_0000_0000_0000nat);
    } else {
        assert((v as int) % 0x1_0000_0000_0000_0000 == v + 0x1_0000_0000_0000_0000) by (nonlinear_arith)
            requires
                -0x8000_0000_0000_0000 <= v < 0,
        ;
    }
}

} // verus!
