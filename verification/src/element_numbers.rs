//! What the element-wise losses and the logistic function are as real numbers.
//!
//! The laws are stated for an arithmetic that does not round in the types that are computed with.
//! They hold whatever dimensions the tensors have.

use crate::arithmetic::{lemma_sum_same, magnitude, sum, Arithmetic};
use crate::backend::{
    is_affine, is_below, is_conversion, is_difference, is_exponential, is_logarithm, is_magnitude,
    is_mean, is_negation, is_product, is_reciprocal, is_square, is_sum,
};
use crate::dtype::DType;
use crate::loss::{
    are_binary_entropies, are_huber, binary_cross_entropy_with_logit, huber, is_binary_entropy,
    is_half_square, is_huber, is_huber_terms, is_linear_term, is_squared_error, mse, HuberTerms,
};
use crate::model::{
    count, each1, each2, layout_dims, layout_start, scalar_value, shape_dims, storage_dtype,
    storage_values, tensor_dims, tensor_dtype, tensor_values,
};
use crate::rows::converted;
use crate::shape::stretch;
use crate::sigmoid::{
    is_sigmoid, is_slope, sigmoid, sigmoid_gradient, sigmoid_gradient_pass, sigmoid_pass,
};
use candle_core::scalar::Scalar;
use candle_core::{CpuStorage, Layout, Shape, Tensor};
use vstd::prelude::*;

verus! {

/// Whether a tensor has elements, as many as its dimensions say.
pub open spec fn is_filled(t: Tensor) -> bool {
    tensor_values(t).len() == count(tensor_dims(t)) && tensor_values(t).len() > 0
}

/// The mean of numbers.
pub open spec fn mean(xs: Seq<real>) -> real {
    sum(xs) / (xs.len() as real)
}

proof fn lemma_mean(a: Arithmetic, d: DType, xs: Seq<int>, r: int, vs: Seq<real>)
    requires
        a.averages_in(d),
        is_mean(d, xs, r),
        xs.len() > 0,
        vs.len() == xs.len(),
        forall|i: int| 0 <= i < xs.len() ==> a.of(d, #[trigger] xs[i]) == vs[i],
    ensures
        a.of(d, r) == mean(vs),
{
    assert forall|i: int| 0 <= i < vs.len() implies #[trigger] a.all(d, xs)[i] == vs[i] by {
        assert(a.of(d, xs[i]) == vs[i]);
    }
    lemma_sum_same(a.all(d, xs), vs);
    let (v, n, t) = (a.of(d, r), xs.len() as real, sum(vs));
    assert(v == t / n) by (nonlinear_arith)
        requires
            v * n == t,
            n > 0real,
    ;
}

/// The squared differences of elements.
pub open spec fn squared_errors(a: Arithmetic, d: DType, xs: Seq<int>, ys: Seq<int>) -> Seq<real> {
    Seq::new(
        xs.len(),
        |i: int| (a.of(d, xs[i]) - a.of(d, ys[i])) * (a.of(d, xs[i]) - a.of(d, ys[i])),
    )
}

/// The mean squared error is the mean over the elements of the squares of their differences.
pub proof fn law_mse(a: Arithmetic, inp: &Tensor, target: &Tensor, o: Tensor)
    requires
        a.calculates_in(tensor_dtype(*inp)),
        a.averages_in(tensor_dtype(*inp)),
        is_filled(*inp),
        call_ensures(mse, (inp, target), Ok(o)),
    ensures
        tensor_values(o).len() == 1,
        tensor_values(*target).len() == tensor_values(*inp).len(),
        tensor_dtype(*target) == tensor_dtype(*inp),
        a.of(tensor_dtype(*inp), tensor_values(o)[0]) == mean(
            squared_errors(a, tensor_dtype(*inp), tensor_values(*inp), tensor_values(*target)),
        ),
{
    let d = tensor_dtype(*inp);
    let (xs, ys) = (tensor_values(*inp), tensor_values(*target));
    let squares = choose|squares: Seq<int>|
        {
            &&& each2(|x: int, y: int, z: int| is_squared_error(d, x, y, z), xs, ys, squares)
            &&& #[trigger] is_mean(d, squares, tensor_values(o)[0])
        };
    let vs = squared_errors(a, d, xs, ys);
    assert forall|i: int| 0 <= i < xs.len() implies a.of(d, #[trigger] squares[i]) == vs[i] by {
        assert(is_squared_error(d, xs[i], ys[i], squares[i]));
        let e = choose|e: int| #[trigger]
            is_difference(d, xs[i], ys[i], e) && is_square(d, e, squares[i]);
        assert(is_square(d, e, squares[i]));
    }
    lemma_mean(a, d, squares, tensor_values(o)[0], vs);
}

/// The mean squared error depends on the elements only, not on the dimensions of the tensors.
pub proof fn law_mse_of_other_dimensions(
    a: Arithmetic,
    inp: &Tensor,
    target: &Tensor,
    o: Tensor,
    inp2: &Tensor,
    target2: &Tensor,
    o2: Tensor,
)
    requires
        a.calculates_in(tensor_dtype(*inp)),
        a.averages_in(tensor_dtype(*inp)),
        is_filled(*inp),
        is_filled(*inp2),
        tensor_dtype(*inp2) == tensor_dtype(*inp),
        tensor_values(*inp2) == tensor_values(*inp),
        tensor_values(*target2) == tensor_values(*target),
        call_ensures(mse, (inp, target), Ok(o)),
        call_ensures(mse, (inp2, target2), Ok(o2)),
    ensures
        a.of(tensor_dtype(*inp), tensor_values(o2)[0]) == a.of(
            tensor_dtype(*inp),
            tensor_values(o)[0],
        ),
{
    law_mse(a, inp, target, o);
    law_mse(a, inp2, target2, o2);
}

/// The logistic function.
pub open spec fn logistic(a: Arithmetic, x: real) -> real {
    1real / (1real + (a.exp)(-x))
}

proof fn lemma_sigmoid(a: Arithmetic, d: DType, x: int, r: int)
    requires
        a.is_sound(),
        a.calculates_in(d),
        a.raises_all_in(d),
        is_sigmoid(d, x, r),
    ensures
        a.of(d, r) == logistic(a, a.of(d, x)),
        0real < a.of(d, r) < 1real,
{
    let (n, e, s) = choose|n: int, e: int, s: int|
        {
            &&& #[trigger] is_negation(d, x, n)
            &&& #[trigger] is_exponential(d, n, e)
            &&& #[trigger] is_affine(d, e, 1, 1, s)
            &&& is_reciprocal(d, s, r)
        };
    assert(is_reciprocal(d, s, r));
    let (ve, vs, vr) = (a.of(d, e), a.of(d, s), a.of(d, r));
    assert(ve == (a.exp)(-a.of(d, x)));
    assert(vs == ve * (1 as real) + (1 as real));
    assert(vs == 1real + ve) by (nonlinear_arith)
        requires
            vs == ve * (1 as real) + (1 as real),
    ;
    assert(0real < ve);
    assert(0real < 1real / vs < 1real) by (nonlinear_arith)
        requires
            vs > 1real,
    ;
}

/// The logistic function of each element `x` is `1 / (1 + exp(-x))`.
pub proof fn law_sigmoid(a: Arithmetic, t: &Tensor, o: Tensor, i: int)
    requires
        a.is_sound(),
        a.calculates_in(tensor_dtype(*t)),
        a.raises_all_in(tensor_dtype(*t)),
        0 <= i < tensor_values(*t).len(),
        call_ensures(sigmoid, (t,), Ok(o)),
    ensures
        tensor_dims(o) == tensor_dims(*t),
        tensor_values(o).len() == tensor_values(*t).len(),
        a.of(tensor_dtype(*t), tensor_values(o)[i]) == logistic(
            a,
            a.of(tensor_dtype(*t), tensor_values(*t)[i]),
        ),
{
    let d = tensor_dtype(*t);
    assert(is_sigmoid(d, tensor_values(*t)[i], tensor_values(o)[i]));
    lemma_sigmoid(a, d, tensor_values(*t)[i], tensor_values(o)[i]);
}

/// The gradient of the logistic function is its value, times one less the value, times the gradient
/// that came back.
pub proof fn law_sigmoid_gradient(a: Arithmetic, res: &Tensor, grad: &Tensor, o: Tensor, i: int)
    requires
        a.calculates_in(tensor_dtype(*res)),
        tensor_dtype(*grad) == tensor_dtype(*res),
        0 <= i < tensor_values(*res).len(),
        call_ensures(sigmoid_gradient, (res, grad), Ok(o)),
    ensures
        tensor_values(o).len() == tensor_values(*res).len(),
        a.of(tensor_dtype(*res), tensor_values(o)[i]) == a.of(
            tensor_dtype(*res),
            tensor_values(*grad)[i],
        ) * (a.of(tensor_dtype(*res), tensor_values(*res)[i]) * (1real - a.of(
            tensor_dtype(*res),
            tensor_values(*res)[i],
        ))),
{
    let d = tensor_dtype(*res);
    let (y, g, r) = (tensor_values(*res)[i], tensor_values(*grad)[i], tensor_values(o)[i]);
    assert(is_slope(d, y, g, r));
    lemma_slope(a, d, y, g, r);
}

/// What the backend is handed for the logistic function is `1 / (1 + exp(-x))` for each element
/// `x`.
pub proof fn law_sigmoid_pass(
    a: Arithmetic,
    s: &CpuStorage,
    l: &Layout,
    p: (CpuStorage, Shape),
    i: int,
)
    requires
        a.is_sound(),
        a.calculates_in(storage_dtype(*s)),
        a.raises_all_in(storage_dtype(*s)),
        0 <= i < count(layout_dims(*l)),
        call_ensures(sigmoid_pass, (s, l), Ok(p)),
    ensures
        shape_dims(p.1) == layout_dims(*l),
        storage_dtype(p.0) == storage_dtype(*s),
        storage_values(p.0).len() == count(layout_dims(*l)),
        a.of(storage_dtype(*s), storage_values(p.0)[i]) == logistic(
            a,
            a.of(storage_dtype(*s), storage_values(*s)[layout_start(*l) + i]),
        ),
{
    let d = storage_dtype(*s);
    let x = stretch(*s, *l)[i];
    assert(is_sigmoid(d, x, storage_values(p.0)[i]));
    lemma_sigmoid(a, d, x, storage_values(p.0)[i]);
}

/// What the backend is handed for the gradient of the logistic function is its value, times one
/// less the value, times the gradient that came back.
pub proof fn law_sigmoid_gradient_pass(
    a: Arithmetic,
    arg: &Tensor,
    res: &Tensor,
    grad: &Tensor,
    o: Tensor,
    i: int,
)
    requires
        a.calculates_in(tensor_dtype(*res)),
        tensor_dtype(*grad) == tensor_dtype(*res),
        0 <= i < tensor_values(*res).len(),
        call_ensures(sigmoid_gradient_pass, (arg, res, grad), Ok(Some(o))),
    ensures
        tensor_values(o).len() == tensor_values(*res).len(),
        a.of(tensor_dtype(*res), tensor_values(o)[i]) == a.of(
            tensor_dtype(*res),
            tensor_values(*grad)[i],
        ) * (a.of(tensor_dtype(*res), tensor_values(*res)[i]) * (1real - a.of(
            tensor_dtype(*res),
            tensor_values(*res)[i],
        ))),
{
    let d = tensor_dtype(*res);
    let (y, g, r) = (tensor_values(*res)[i], tensor_values(*grad)[i], tensor_values(o)[i]);
    assert(is_slope(d, y, g, r));
    lemma_slope(a, d, y, g, r);
}

proof fn lemma_slope(a: Arithmetic, d: DType, y: int, g: int, r: int)
    requires
        a.calculates_in(d),
        is_slope(d, y, g, r),
    ensures
        a.of(d, r) == a.of(d, g) * (a.of(d, y) * (1real - a.of(d, y))),
{
    let (n, s) = choose|n: int, s: int|
        {
            &&& #[trigger] is_affine(d, y, -1, 1, n)
            &&& #[trigger] is_product(d, n, y, s)
            &&& is_product(d, g, s, r)
        };
    assert(is_product(d, g, s, r));
    let (vy, vn) = (a.of(d, y), a.of(d, n));
    assert(vn == vy * ((-1) as real) + (1 as real));
    assert(vn * vy == vy * (1real - vy)) by (nonlinear_arith)
        requires
            vn == vy * ((-1) as real) + (1 as real),
    ;
}

/// The binary cross-entropy of a logit `x` under a label `y`, where `s` is the logistic function of
/// `x`: `y * ln s + (1 - y) * ln (1 - s)`, negated.
pub open spec fn binary_entropy(a: Arithmetic, x: real, y: real) -> real {
    -(y * (a.ln)(logistic(a, x)) + (1real - y) * (a.ln)(1real - logistic(a, x)))
}

/// The binary cross-entropies of logits of one type under labels of another.
pub open spec fn binary_entropies_of(
    a: Arithmetic,
    dx: DType,
    dy: DType,
    xs: Seq<int>,
    ys: Seq<int>,
) -> Seq<real> {
    Seq::new(xs.len(), |i: int| binary_entropy(a, a.of(dx, xs[i]), a.of(dy, ys[i])))
}

proof fn lemma_binary_entropy(a: Arithmetic, d: DType, x: int, p: int, y: int, r: int)
    requires
        a.is_sound(),
        a.calculates_in(d),
        a.raises_all_in(d),
        is_sigmoid(d, x, p),
        is_binary_entropy(d, d, p, y, r),
    ensures
        a.of(d, r) == binary_entropy(a, a.of(d, x), a.of(d, y)),
{
    lemma_sigmoid(a, d, x, p);
    let (lp, left, ny, q, lq, right, total) = choose|
        lp: int,
        left: int,
        ny: int,
        q: int,
        lq: int,
        right: int,
        total: int,
    |
        {
            &&& is_logarithm(d, p, lp)
            &&& #[trigger] is_product(d, y, lp, left)
            &&& is_affine(d, y, -1, 1, ny)
            &&& #[trigger] is_affine(d, p, -1, 1, q)
            &&& is_logarithm(d, q, lq)
            &&& #[trigger] is_product(d, ny, lq, right)
            &&& #[trigger] is_sum(d, left, right, total)
            &&& is_negation(d, total, r)
        };
    assert(is_logarithm(d, p, lp) && is_affine(d, y, -1, 1, ny) && is_affine(d, p, -1, 1, q));
    assert(is_logarithm(d, q, lq) && is_negation(d, total, r));
    let (vy, vn, vp, vq) = (a.of(d, y), a.of(d, ny), a.of(d, p), a.of(d, q));
    assert(vn == vy * ((-1) as real) + (1 as real));
    assert(vq == vp * ((-1) as real) + (1 as real));
    assert(vn == 1real - vy) by (nonlinear_arith)
        requires
            vn == vy * ((-1) as real) + (1 as real),
    ;
    assert(vq == 1real - vp) by (nonlinear_arith)
        requires
            vq == vp * ((-1) as real) + (1 as real),
    ;
}

/// Whether what leads to the binary cross-entropy is exact.
pub open spec fn exact_entropies(a: Arithmetic, d: DType) -> bool {
    &&& a.is_sound()
    &&& a.keeps_numbers()
    &&& a.calculates_in(d)
    &&& a.raises_all_in(d)
    &&& a.averages_in(d)
}

/// The binary cross-entropy with logits is the mean over the elements of
/// `-(y * ln s(x) + (1 - y) * ln (1 - s(x)))`, where `s(x)` is `1 / (1 + exp(-x))`.
pub proof fn law_binary_cross_entropy(a: Arithmetic, inp: &Tensor, target: &Tensor, o: Tensor)
    requires
        exact_entropies(a, tensor_dtype(*inp)),
        is_filled(*inp),
        !tensor_dtype(*inp).is_int(),
        call_ensures(binary_cross_entropy_with_logit, (inp, target), Ok(o)),
    ensures
        tensor_values(o).len() == 1,
        tensor_values(*target).len() == tensor_values(*inp).len(),
        a.of(tensor_dtype(*inp), tensor_values(o)[0]) == mean(
            binary_entropies_of(
                a,
                tensor_dtype(*inp),
                tensor_dtype(*target),
                tensor_values(*inp),
                tensor_values(*target),
            ),
        ),
{
    let (d, dt) = (tensor_dtype(*inp), tensor_dtype(*target));
    let (xs, ys) = (tensor_values(*inp), tensor_values(*target));
    let (probs, labels, losses) = choose|probs: Seq<int>, labels: Seq<int>, losses: Seq<int>|
        {
            &&& each1(|x: int, y: int| is_sigmoid(d, x, y), xs, probs)
            &&& each1(|x: int, y: int| converted(dt, d, x, y), ys, labels)
            &&& #[trigger] are_binary_entropies(d, d, probs, labels, losses)
            &&& is_mean(d, losses, tensor_values(o)[0])
        };
    let vs = binary_entropies_of(a, d, dt, xs, ys);
    assert forall|i: int| 0 <= i < xs.len() implies a.of(d, #[trigger] losses[i]) == vs[i] by {
        assert(is_binary_entropy(d, d, probs[i], labels[i], losses[i]));
        assert(is_sigmoid(d, xs[i], probs[i]));
        assert(converted(dt, d, ys[i], labels[i]));
        lemma_binary_entropy(a, d, xs[i], probs[i], labels[i], losses[i]);
    }
    lemma_mean(a, d, losses, tensor_values(o)[0], vs);
}

/// The binary cross-entropy depends on the elements only, not on the dimensions of the tensors.
pub proof fn law_binary_cross_entropy_of_other_dimensions(
    a: Arithmetic,
    inp: &Tensor,
    target: &Tensor,
    o: Tensor,
    inp2: &Tensor,
    target2: &Tensor,
    o2: Tensor,
)
    requires
        exact_entropies(a, tensor_dtype(*inp)),
        is_filled(*inp),
        is_filled(*inp2),
        !tensor_dtype(*inp).is_int(),
        tensor_dtype(*inp2) == tensor_dtype(*inp),
        tensor_dtype(*target2) == tensor_dtype(*target),
        tensor_values(*inp2) == tensor_values(*inp),
        tensor_values(*target2) == tensor_values(*target),
        call_ensures(binary_cross_entropy_with_logit, (inp, target), Ok(o)),
        call_ensures(binary_cross_entropy_with_logit, (inp2, target2), Ok(o2)),
    ensures
        a.of(tensor_dtype(*inp), tensor_values(o2)[0]) == a.of(
            tensor_dtype(*inp),
            tensor_values(o)[0],
        ),
{
    law_binary_cross_entropy(a, inp, target, o);
    law_binary_cross_entropy(a, inp2, target2, o2);
}

/// The Huber loss of a difference `e` under a threshold: half the square of `e` where its magnitude
/// is below the threshold, and elsewhere the threshold times what the magnitude exceeds half the
/// threshold by.
pub open spec fn huber_error(e: real, delta: real) -> real {
    if magnitude(e) < delta {
        e * e / 2real
    } else {
        delta * (magnitude(e) - delta / 2real)
    }
}

/// The Huber losses of the differences of elements.
pub open spec fn huber_errors(
    a: Arithmetic,
    d: DType,
    xs: Seq<int>,
    ys: Seq<int>,
    delta: real,
) -> Seq<real> {
    Seq::new(xs.len(), |i: int| huber_error(a.of(d, xs[i]) - a.of(d, ys[i]), delta))
}

/// Whether what leads to the Huber loss is exact: in double precision for what is taken from the
/// threshold, and in the type of the elements.
pub open spec fn exact_huber(a: Arithmetic, d: DType) -> bool {
    &&& a.is_sound()
    &&& a.keeps_numbers()
    &&& a.calculates_in(DType::F64)
    &&& a.calculates_in(d)
    &&& a.averages_in(d)
}

proof fn lemma_huber_terms(a: Arithmetic, d: DType, delta: int, t: HuberTerms)
    requires
        exact_huber(a, d),
        !d.is_int(),
        is_huber_terms(d, delta, t),
    ensures
        a.of(d, t.delta) == a.of(DType::F64, delta),
        a.of(d, t.half) == 1real / 2real,
        a.of(d, t.offset) == a.of(DType::F64, delta) * a.of(DType::F64, delta) / 2real,
{
    let f = DType::F64;
    let (two, half, square, offset) = choose|two: int, half: int, square: int, offset: int|
        {
            &&& is_conversion(DType::I64, f, 2, two)
            &&& #[trigger] is_reciprocal(f, two, half)
            &&& #[trigger] is_product(f, delta, delta, square)
            &&& #[trigger] is_product(f, square, half, offset)
            &&& converted(f, d, delta, t.delta)
            &&& converted(f, d, half, t.half)
            &&& converted(f, d, offset, t.offset)
        };
    assert(is_conversion(DType::I64, f, 2, two));
    assert(a.of(DType::I64, 2) == 2 as real);
    assert(a.of(f, two) == 2real);
    assert(converted(f, d, offset, t.offset));
    let (s, h) = (a.of(f, square), a.of(f, half));
    assert(s * h == s / 2real) by (nonlinear_arith)
        requires
            h == 1real / 2real,
    ;
}

proof fn lemma_huber(a: Arithmetic, d: DType, delta: int, t: HuberTerms, x: int, y: int, r: int)
    requires
        exact_huber(a, d),
        !d.is_int(),
        is_huber_terms(d, delta, t),
        is_huber(d, t, x, y, r),
    ensures
        a.of(d, r) == huber_error(a.of(d, x) - a.of(d, y), a.of(DType::F64, delta)),
{
    lemma_huber_terms(a, d, delta, t);
    let (diff, size, below) = choose|diff: int, size: int, below: bool|
        {
            &&& #[trigger] is_difference(d, x, y, diff)
            &&& is_magnitude(d, diff, size)
            &&& #[trigger] is_below(d, size, t.delta, below)
            &&& if below {
                is_half_square(d, t, diff, r)
            } else {
                is_linear_term(d, t, size, r)
            }
        };
    assert(is_magnitude(d, diff, size));
    let (e, g, v) = (a.of(d, diff), a.of(DType::F64, delta), a.of(d, r));
    if below {
        let square = choose|square: int| #[trigger]
            is_product(d, diff, diff, square) && is_product(d, square, t.half, r);
        assert(is_product(d, square, t.half, r));
        assert(v == (e * e) * (1real / 2real));
        assert(v == e * e / 2real) by (nonlinear_arith)
            requires
                v == (e * e) * (1real / 2real),
        ;
    } else {
        let scaled = choose|scaled: int| #[trigger]
            is_product(d, size, t.delta, scaled) && is_difference(d, scaled, t.offset, r);
        assert(is_difference(d, scaled, t.offset, r));
        let m = magnitude(e);
        assert(v == m * g - g * g / 2real);
        assert(v == g * (m - g / 2real)) by (nonlinear_arith)
            requires
                v == m * g - g * g / 2real,
        ;
    }
}

/// The Huber loss under a threshold `delta` is the mean over the elements of half the square of
/// their difference where its magnitude is below `delta`, and of `delta` times what the magnitude
/// exceeds half of `delta` by elsewhere.
pub proof fn law_huber(a: Arithmetic, inp: &Tensor, target: &Tensor, delta: Scalar, o: Tensor)
    requires
        exact_huber(a, tensor_dtype(*inp)),
        is_filled(*inp),
        !tensor_dtype(*inp).is_int(),
        call_ensures(huber, (inp, target, delta), Ok(o)),
    ensures
        tensor_values(o).len() == 1,
        tensor_values(*target).len() == tensor_values(*inp).len(),
        tensor_dtype(*target) == tensor_dtype(*inp),
        a.of(tensor_dtype(*inp), tensor_values(o)[0]) == mean(
            huber_errors(
                a,
                tensor_dtype(*inp),
                tensor_values(*inp),
                tensor_values(*target),
                a.of(DType::F64, scalar_value(delta)),
            ),
        ),
{
    let d = tensor_dtype(*inp);
    let (xs, ys) = (tensor_values(*inp), tensor_values(*target));
    let threshold = scalar_value(delta);
    let (t, losses) = choose|t: HuberTerms, losses: Seq<int>|
        {
            &&& is_huber_terms(d, threshold, t)
            &&& #[trigger] are_huber(d, t, xs, ys, losses)
            &&& is_mean(d, losses, tensor_values(o)[0])
        };
    let vs = huber_errors(a, d, xs, ys, a.of(DType::F64, threshold));
    assert forall|i: int| 0 <= i < xs.len() implies a.of(d, #[trigger] losses[i]) == vs[i] by {
        assert(is_huber(d, t, xs[i], ys[i], losses[i]));
        lemma_huber(a, d, threshold, t, xs[i], ys[i], losses[i]);
    }
    lemma_mean(a, d, losses, tensor_values(o)[0], vs);
}

/// The Huber loss depends on the elements and the threshold only, not on the dimensions of the
/// tensors.
pub proof fn law_huber_of_other_dimensions(
    a: Arithmetic,
    inp: &Tensor,
    target: &Tensor,
    delta: Scalar,
    o: Tensor,
    inp2: &Tensor,
    target2: &Tensor,
    o2: Tensor,
)
    requires
        exact_huber(a, tensor_dtype(*inp)),
        is_filled(*inp),
        is_filled(*inp2),
        !tensor_dtype(*inp).is_int(),
        tensor_dtype(*inp2) == tensor_dtype(*inp),
        tensor_values(*inp2) == tensor_values(*inp),
        tensor_values(*target2) == tensor_values(*target),
        call_ensures(huber, (inp, target, delta), Ok(o)),
        call_ensures(huber, (inp2, target2, delta), Ok(o2)),
    ensures
        a.of(tensor_dtype(*inp), tensor_values(o2)[0]) == a.of(
            tensor_dtype(*inp),
            tensor_values(o)[0],
        ),
{
    law_huber(a, inp, target, delta, o);
    law_huber(a, inp2, target2, delta, o2);
}

/// The two terms of the Huber loss agree where the magnitude of a difference is the threshold, so
/// the loss does not jump there.
pub proof fn law_huber_terms_meet(
    a: Arithmetic,
    inp: &Tensor,
    target: &Tensor,
    delta: Scalar,
    o: Tensor,
)
    requires
        exact_huber(a, tensor_dtype(*inp)),
        is_filled(*inp),
        !tensor_dtype(*inp).is_int(),
        tensor_values(*inp).len() == 1,
        magnitude(
            a.of(tensor_dtype(*inp), tensor_values(*inp)[0]) - a.of(
                tensor_dtype(*inp),
                tensor_values(*target)[0],
            ),
        ) == a.of(DType::F64, scalar_value(delta)),
        call_ensures(huber, (inp, target, delta), Ok(o)),
    ensures
        a.of(tensor_dtype(*inp), tensor_values(o)[0]) == a.of(DType::F64, scalar_value(delta))
            * a.of(DType::F64, scalar_value(delta)) / 2real,
{
    law_huber(a, inp, target, delta, o);
    let d = tensor_dtype(*inp);
    let (xs, ys) = (tensor_values(*inp), tensor_values(*target));
    let g = a.of(DType::F64, scalar_value(delta));
    let vs = huber_errors(a, d, xs, ys, g);
    assert(vs.drop_last().len() == 0);
    assert(sum(vs.drop_last()) == 0real);
    assert(sum(vs) == vs[0]);
    assert(vs[0] == g * (g - g / 2real));
    assert((g * (g - g / 2real)) / 1real == g * g / 2real) by (nonlinear_arith);
}

} // verus!
