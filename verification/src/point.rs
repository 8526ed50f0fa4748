use vstd::prelude::*;
use crate::coordinate::Coordinate;
use crate::scalar::Scalar;

verus! {

/// A two-dimensional point over any scalar type: the smallest concrete
/// coordinate, carrying its components in plain fields.
#[derive(Copy, Clone, PartialOrd, PartialEq, Debug)]
pub struct Pt<T: Scalar> {
    pub x: T,
    pub y: T,
}

impl<T: Scalar> Coordinate for Pt<T> {
    type Scalar = T;

    const DIM: usize = 2;

    open spec fn vals(self) -> Seq<T> {
        seq![self.x, self.y]
    }

    proof fn lemma_dim(self) {
    }

    proof fn lemma_extensional(a: Self, b: Self) {
        assert(a.vals()[0] == b.vals()[0]);
        assert(a.vals()[1] == b.vals()[1]);
    }

    fn gen<F: Fn(usize) -> T>(val_fn: F) -> (r: Self) {
        let r = Pt { x: val_fn(0), y: val_fn(1) };
        proof {
            assert(r.vals()[0] == r.x);
            assert(r.vals()[1] == r.y);
        }
        r
    }

    fn val(&self, i: usize) -> (r: T) {
        if i == 0 {
            self.x
        } else {
            self.y
        }
    }

    fn val_mut(&mut self, i: usize) -> (r: &mut T) {
        if i == 0 {
            &mut self.x
        } else {
            &mut self.y
        }
    }
}

} // verus!
