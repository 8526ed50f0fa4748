use vstd::prelude::*;
use crate::coordinate::{
    add_vals, max_vals, min_vals, origin_vals, scale_vals, sq_len_spec, sub_vals, Coordinate,
};
use crate::scalar::Scalar;

verus! {

/// Adding a coordinate and then subtracting it returns the original: with
/// `sum` the result of `a.add(b)` and `back` the result of `sum.sub(b)`,
/// `back` is `a` again.
pub proof fn lemma_add_sub_inverse<C: Coordinate>(a: C, b: C, sum: C, back: C)
    requires
        sum.vals() == add_vals(a.vals(), b.vals()),
        back.vals() == sub_vals(sum.vals(), b.vals()),
    ensures
        back == a,
{
    a.lemma_dim();
    b.lemma_dim();
    assert forall|i: int| 0 <= i < a.vals().len() implies back.vals()[i] == a.vals()[i] by {
        <C::Scalar as Scalar>::lemma_add_sub(a.vals()[i], b.vals()[i]);
    }
    assert(back.vals() =~= a.vals());
    C::lemma_extensional(back, a);
}

/// The origin is the identity element for addition: with `zeroes` the result
/// of `new_origin()` and `sum` the result of `zeroes.add(a)`, `sum` is `a`.
pub proof fn lemma_origin_add_identity<C: Coordinate>(zeroes: C, a: C, sum: C)
    requires
        zeroes.vals() == origin_vals::<C::Scalar>(C::DIM),
        sum.vals() == add_vals(zeroes.vals(), a.vals()),
    ensures
        sum == a,
{
    a.lemma_dim();
    zeroes.lemma_dim();
    assert forall|i: int| 0 <= i < a.vals().len() implies sum.vals()[i] == a.vals()[i] by {
        <C::Scalar as Scalar>::lemma_zero_add(a.vals()[i]);
    }
    assert(sum.vals() =~= a.vals());
    C::lemma_extensional(sum, a);
}

/// Scaling by a multiplicative identity changes nothing: with `scaled` the
/// result of `a.mult(k)` for a `k` that fixes every scalar, `scaled` is `a`.
pub proof fn lemma_scale_identity<C: Coordinate>(a: C, k: C::Scalar, scaled: C)
    requires
        forall|v: C::Scalar| #[trigger] k.mul_spec(v) == v,
        scaled.vals() == scale_vals(k, a.vals()),
    ensures
        scaled == a,
{
    a.lemma_dim();
    assert(scaled.vals() =~= a.vals());
    C::lemma_extensional(scaled, a);
}

/// Over the wrapping `i64` scalar, scaling by one changes nothing: with
/// `scaled` the result of `a.mult(1)`, `scaled` is `a`.
pub proof fn lemma_scale_one_i64<C: Coordinate<Scalar = i64>>(a: C, scaled: C)
    requires
        scaled.vals() == scale_vals(1i64, a.vals()),
    ensures
        scaled == a,
{
    crate::scalar::lemma_i64_one_mul_identity();
    lemma_scale_identity(a, 1i64, scaled);
}

/// Scaling by the scalar zero gives the origin: with `scaled` the result of
/// `a.mult(zero)` and `zeroes` the result of `new_origin()`, the two are the
/// same coordinate.
pub proof fn lemma_scale_zero<C: Coordinate>(a: C, scaled: C, zeroes: C)
    requires
        scaled.vals() == scale_vals(<C::Scalar as Scalar>::zero_spec(), a.vals()),
        zeroes.vals() == origin_vals::<C::Scalar>(C::DIM),
    ensures
        scaled == zeroes,
{
    a.lemma_dim();
    zeroes.lemma_dim();
    assert forall|i: int| 0 <= i < a.vals().len() implies scaled.vals()[i] == zeroes.vals()[i] by {
        <C::Scalar as Scalar>::lemma_zero_mul(a.vals()[i]);
    }
    assert(scaled.vals() =~= zeroes.vals());
    C::lemma_extensional(scaled, zeroes);
}

/// The squared distance from a coordinate to itself is zero: what
/// `a.square_distance(&a)` returns is the scalar zero.
pub proof fn lemma_square_distance_self<C: Coordinate>(a: C)
    ensures
        sq_len_spec(sub_vals(a.vals(), a.vals())) == <C::Scalar as Scalar>::zero_spec(),
{
    a.lemma_dim();
    let d = sub_vals(a.vals(), a.vals());
    assert forall|i: int| 0 <= i < d.len() implies d[i]
        == <C::Scalar as Scalar>::zero_spec() by {
        <C::Scalar as Scalar>::lemma_sub_self(a.vals()[i]);
    }
    lemma_sq_len_zeroes(d);
}

/// The sum of squares of all-zero components is zero.
proof fn lemma_sq_len_zeroes<S: Scalar>(s: Seq<S>)
    requires
        forall|i: int| 0 <= i < s.len() ==> s[i] == S::zero_spec(),
    ensures
        sq_len_spec(s) == S::zero_spec(),
    decreases s.len(),
{
    if s.len() == 0 {
    } else {
        lemma_sq_len_zeroes(s.drop_last());
        S::lemma_zero_mul(S::zero_spec());
        S::lemma_zero_add(S::zero_spec());
    }
}

/// The bounding-box minimum does not depend on the order of its arguments:
/// `a.min_of_bounds(&b)` and `b.min_of_bounds(&a)` are the same coordinate.
pub proof fn lemma_min_of_bounds_symmetric<C: Coordinate>(a: C, b: C, ab: C, ba: C)
    requires
        ab.vals() == min_vals(a.vals(), b.vals()),
        ba.vals() == min_vals(b.vals(), a.vals()),
    ensures
        ab == ba,
{
    a.lemma_dim();
    b.lemma_dim();
    assert forall|i: int| 0 <= i < a.vals().len() implies ab.vals()[i] == ba.vals()[i] by {
        <C::Scalar as Scalar>::lemma_le_total(a.vals()[i], b.vals()[i]);
    }
    assert(ab.vals() =~= ba.vals());
    C::lemma_extensional(ab, ba);
}

/// The bounding-box maximum does not depend on the order of its arguments:
/// `a.max_of_bounds(&b)` and `b.max_of_bounds(&a)` are the same coordinate.
pub proof fn lemma_max_of_bounds_symmetric<C: Coordinate>(a: C, b: C, ab: C, ba: C)
    requires
        ab.vals() == max_vals(a.vals(), b.vals()),
        ba.vals() == max_vals(b.vals(), a.vals()),
    ensures
        ab == ba,
{
    a.lemma_dim();
    b.lemma_dim();
    assert forall|i: int| 0 <= i < a.vals().len() implies ab.vals()[i] == ba.vals()[i] by {
        <C::Scalar as Scalar>::lemma_le_total(a.vals()[i], b.vals()[i]);
    }
    assert(ab.vals() =~= ba.vals());
    C::lemma_extensional(ab, ba);
}

} // verus!
