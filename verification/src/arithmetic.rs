//! Real numbers that elements stand for, and what it means that the backend computes with them
//! exactly.
//!
//! The contracts say of each element which operation it came out of. Under an arithmetic that does
//! not round, this fixes the number that the element stands for.

use crate::backend::{
    is_affine, is_below, is_conversion, is_difference, is_exponential, is_largest, is_logarithm,
    is_magnitude, is_mean, is_negation, is_product, is_quotient, is_reciprocal, is_square, is_sum,
    is_total,
};
use crate::dtype::DType;
use vstd::prelude::*;

verus! {

/// The sum of numbers.
pub open spec fn sum(xs: Seq<real>) -> real
    decreases xs.len(),
{
    if xs.len() == 0 {
        0real
    } else {
        sum(xs.drop_last()) + xs.last()
    }
}

/// The magnitude of a number.
pub open spec fn magnitude(x: real) -> real {
    if x < 0real {
        -x
    } else {
        x
    }
}

/// The numbers that elements stand for, with the exponential function and the natural logarithm.
pub struct Arithmetic {
    /// The number that an element of a type stands for.
    pub value: spec_fn(DType, int) -> real,
    /// The exponential function.
    pub exp: spec_fn(real) -> real,
    /// The natural logarithm.
    pub ln: spec_fn(real) -> real,
}

impl Arithmetic {
    /// The number that an element stands for.
    pub open spec fn of(self, d: DType, x: int) -> real {
        (self.value)(d, x)
    }

    /// The numbers that elements stand for.
    pub open spec fn all(self, d: DType, xs: Seq<int>) -> Seq<real> {
        Seq::new(xs.len(), |i: int| self.of(d, xs[i]))
    }

    /// The exponential of each element in row `i` of a matrix with `c` columns.
    pub open spec fn exponentials(self, d: DType, xs: Seq<int>, c: int, i: int) -> Seq<real> {
        Seq::new(c as nat, |j: int| (self.exp)(self.of(d, xs[i * c + j])))
    }

    /// The softmax of row `i` at column `j`: the exponential of the element there, divided by the
    /// sum of the exponentials in the row.
    pub open spec fn softmax(self, d: DType, xs: Seq<int>, c: int, i: int, j: int) -> real {
        (self.exp)(self.of(d, xs[i * c + j])) / sum(self.exponentials(d, xs, c, i))
    }

    /// Whether the exponential function turns sums into products and grows, the natural logarithm
    /// is its inverse, and an integer stands for itself, as does the element whose bits are zero.
    pub open spec fn is_sound(self) -> bool {
        &&& forall|x: real| (0real < #[trigger] (self.exp)(x))
        &&& forall|x: real, y: real| #[trigger] (self.exp)(x + y) == (self.exp)(x) * (self.exp)(y)
        &&& forall|x: real, y: real|
            x < y ==> #[trigger] (self.exp)(x) < #[trigger] (self.exp)(y)
        &&& forall|x: real| #[trigger] (self.ln)((self.exp)(x)) == x
        &&& forall|y: real| 0real < y ==> (self.exp)(#[trigger] (self.ln)(y)) == y
        &&& forall|d: DType, x: int| d.is_int() ==> #[trigger] self.of(d, x) == x as real
        &&& forall|d: DType| #[trigger] self.of(d, 0) == 0real
    }

    /// Whether a number stays what it is when it is written in another type that is not an integer.
    pub open spec fn keeps_numbers(self) -> bool {
        forall|from: DType, to: DType, x: int, r: int|
            !to.is_int() && #[trigger] is_conversion(from, to, x, r) ==> self.of(to, r) == self.of(
                from,
                x,
            )
    }

    /// Whether means of elements of a type are exact.
    pub open spec fn averages_in(self, d: DType) -> bool {
        forall|xs: Seq<int>, r: int|
            xs.len() > 0 && #[trigger] is_mean(d, xs, r) ==> self.of(d, r) * (xs.len() as real)
                == sum(self.all(d, xs))
    }

    /// Whether differences, sums, products, quotients and what is made of them are exact in a type.
    pub open spec fn calculates_in(self, d: DType) -> bool {
        &&& forall|x: int, y: int, r: int| #[trigger]
            is_difference(d, x, y, r) ==> self.of(d, r) == self.of(d, x) - self.of(d, y)
        &&& forall|x: int, y: int, r: int| #[trigger]
            is_sum(d, x, y, r) ==> self.of(d, r) == self.of(d, x) + self.of(d, y)
        &&& forall|x: int, y: int, r: int| #[trigger]
            is_product(d, x, y, r) ==> self.of(d, r) == self.of(d, x) * self.of(d, y)
        &&& forall|x: int, y: int, r: int| #[trigger]
            is_quotient(d, x, y, r) && self.of(d, y) != 0real ==> self.of(d, r) == self.of(d, x)
                / self.of(d, y)
        &&& forall|x: int, mul: int, add: int, r: int| #[trigger]
            is_affine(d, x, mul, add, r) ==> self.of(d, r) == self.of(d, x) * (mul as real) + (
            add as real)
        &&& forall|x: int, r: int| #[trigger]
            is_square(d, x, r) ==> self.of(d, r) == self.of(d, x) * self.of(d, x)
        &&& forall|x: int, r: int| #[trigger]
            is_magnitude(d, x, r) ==> self.of(d, r) == magnitude(self.of(d, x))
        &&& forall|x: int, r: int| #[trigger]
            is_negation(d, x, r) ==> self.of(d, r) == -self.of(d, x)
        &&& forall|x: int, r: int| #[trigger]
            is_reciprocal(d, x, r) && self.of(d, x) != 0real ==> self.of(d, r) == 1real / self.of(
                d,
                x,
            )
        &&& forall|x: int, y: int, r: bool| #[trigger]
            is_below(d, x, y, r) ==> (r <==> self.of(d, x) < self.of(d, y))
        &&& forall|xs: Seq<int>, r: int| #[trigger]
            is_total(d, xs, r) ==> self.of(d, r) == sum(self.all(d, xs))
        &&& forall|xs: Seq<int>, r: int, i: int| #[trigger]
            is_largest(d, xs, r) && 0 <= i < xs.len() ==> self.of(d, #[trigger] xs[i]) <= self.of(
                d,
                r,
            )
        &&& forall|x: int, r: int| #[trigger]
            is_logarithm(d, x, r) && 0real < self.of(d, x) ==> self.of(d, r) == (self.ln)(
                self.of(d, x),
            )
    }

    /// Whether the exponentials of numbers that are not positive are exact in a type. Nothing is
    /// said of larger exponentials, for which the type may have no room.
    pub open spec fn raises_in(self, d: DType) -> bool {
        forall|x: int, r: int|
            self.of(d, x) <= 0real && #[trigger] is_exponential(d, x, r) ==> self.of(d, r) == (
            self.exp)(self.of(d, x))
    }

    /// Whether all exponentials are exact in a type.
    pub open spec fn raises_all_in(self, d: DType) -> bool {
        forall|x: int, r: int| #[trigger]
            is_exponential(d, x, r) ==> self.of(d, r) == (self.exp)(self.of(d, x))
    }
}

/// Equal numbers have equal sums.
pub proof fn lemma_sum_same(xs: Seq<real>, ys: Seq<real>)
    requires
        xs.len() == ys.len(),
        forall|i: int| 0 <= i < xs.len() ==> #[trigger] xs[i] == ys[i],
    ensures
        sum(xs) == sum(ys),
{
    assert(xs =~= ys);
}

/// The sum of numbers that are all multiplied with the same factor.
pub proof fn lemma_sum_scaled(xs: Seq<real>, ys: Seq<real>, k: real)
    requires
        xs.len() == ys.len(),
        forall|i: int| 0 <= i < xs.len() ==> #[trigger] ys[i] == xs[i] * k,
    ensures
        sum(ys) == sum(xs) * k,
    decreases xs.len(),
{
    if xs.len() > 0 {
        let (us, vs) = (xs.drop_last(), ys.drop_last());
        assert forall|i: int| 0 <= i < us.len() implies #[trigger] vs[i] == us[i] * k by {
            assert(ys[i] == xs[i] * k);
        }
        lemma_sum_scaled(us, vs, k);
        assert(ys.last() == xs.last() * k);
        assert((sum(us) + xs.last()) * k == sum(us) * k + xs.last() * k) by (nonlinear_arith);
    } else {
        assert(0real * k == 0real) by (nonlinear_arith);
    }
}

/// The sum of the sums of numbers in two sequences.
pub proof fn lemma_sum_added(xs: Seq<real>, ys: Seq<real>, zs: Seq<real>)
    requires
        xs.len() == zs.len(),
        ys.len() == zs.len(),
        forall|i: int| 0 <= i < zs.len() ==> #[trigger] zs[i] == xs[i] + ys[i],
    ensures
        sum(zs) == sum(xs) + sum(ys),
    decreases xs.len(),
{
    if xs.len() > 0 {
        let (us, vs, ws) = (xs.drop_last(), ys.drop_last(), zs.drop_last());
        assert forall|i: int| 0 <= i < ws.len() implies #[trigger] ws[i] == us[i] + vs[i] by {
            assert(zs[i] == xs[i] + ys[i]);
        }
        lemma_sum_added(us, vs, ws);
        assert(zs.last() == xs.last() + ys.last());
    }
}

/// The sum of numbers in two sequences, one after the other.
pub proof fn lemma_sum_joined(xs: Seq<real>, ys: Seq<real>)
    ensures
        sum(xs + ys) == sum(xs) + sum(ys),
    decreases ys.len(),
{
    if ys.len() == 0 {
        assert(xs + ys =~= xs);
    } else {
        assert((xs + ys).drop_last() =~= xs + ys.drop_last());
        lemma_sum_joined(xs, ys.drop_last());
    }
}

/// Numbers that are not negative have a sum that none of them exceeds.
pub proof fn lemma_sum_covers(xs: Seq<real>)
    requires
        forall|i: int| 0 <= i < xs.len() ==> 0real <= #[trigger] xs[i],
    ensures
        0real <= sum(xs),
        forall|i: int| 0 <= i < xs.len() ==> #[trigger] xs[i] <= sum(xs),
    decreases xs.len(),
{
    if xs.len() > 0 {
        let us = xs.drop_last();
        assert forall|i: int| 0 <= i < us.len() implies 0real <= #[trigger] us[i] by {
            assert(0real <= xs[i]);
        }
        lemma_sum_covers(us);
        assert(0real <= xs[xs.len() - 1]);
        assert forall|i: int| 0 <= i < xs.len() implies #[trigger] xs[i] <= sum(xs) by {
            if i < us.len() {
                assert(us[i] <= sum(us));
            }
        }
    }
}

/// Positive numbers have a sum that exceeds each of two or more.
pub proof fn lemma_sum_exceeds(xs: Seq<real>, i: int)
    requires
        forall|k: int| 0 <= k < xs.len() ==> 0real < #[trigger] xs[k],
        0 <= i < xs.len(),
        xs.len() > 1,
    ensures
        xs[i] < sum(xs),
{
    let us = xs.drop_last();
    assert forall|k: int| 0 <= k < us.len() implies 0real <= #[trigger] us[k] by {
        assert(0real < xs[k]);
    }
    lemma_sum_covers(us);
    assert(0real < xs[xs.len() - 1]);
    if i < us.len() {
        assert(us[i] <= sum(us));
    } else {
        assert(0real < xs[0]);
        assert(us[0] <= sum(us));
    }
}

/// The sum of equal numbers.
pub proof fn lemma_sum_constant(xs: Seq<real>, k: real)
    requires
        forall|i: int| 0 <= i < xs.len() ==> #[trigger] xs[i] == k,
    ensures
        sum(xs) == k * (xs.len() as real),
    decreases xs.len(),
{
    if xs.len() > 0 {
        let us = xs.drop_last();
        assert forall|i: int| 0 <= i < us.len() implies #[trigger] us[i] == k by {
            assert(xs[i] == k);
        }
        lemma_sum_constant(us, k);
        assert(xs[xs.len() - 1] == k);
        let n = us.len() as real;
        assert(xs.len() as real == n + 1real);
        assert(k * n + k == k * (n + 1real)) by (nonlinear_arith);
    } else {
        assert(k * 0real == 0real) by (nonlinear_arith);
    }
}

} // verus!
