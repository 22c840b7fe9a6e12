//! What the losses are as real numbers: for each result that a loss gives, the number that it
//! stands for, in terms of the numbers that the arguments hold.
//!
//! The laws are stated for an arithmetic that does not round in the types that are computed with.

use crate::arithmetic::{
    lemma_sum_added, lemma_sum_constant, lemma_sum_covers, lemma_sum_exceeds, lemma_sum_joined,
    lemma_sum_same, lemma_sum_scaled, sum, Arithmetic,
};
use crate::backend::{
    is_affine, is_conversion, is_difference, is_exponential, is_logarithm, is_mean, is_product,
    is_quotient, is_sum,
};
use crate::dtype::DType;
use crate::label::{lemma_labels_accepted, lemma_place};
use crate::loss::{cross_entropy, nll, picks};
use crate::model::{
    count, layout_dims, layout_start, lemma_count, row, shape_dims, storage_dtype, storage_values,
    tensor_contiguous, tensor_dims, tensor_dtype, tensor_on_cpu, tensor_values,
};
use crate::outcomes::is_float;
use crate::row_op::{
    backward, backward_pass, forward, forward_pass, gradient_pass, row_gradients, row_losses,
};
use crate::rows::{
    converted, cross_entropy_rows_cpu_bwd, cross_entropy_rows_cpu_fwd, gradient_element,
    is_no_number, own_logit, precision, precision_of, row_gradient, row_gradients_of, row_loss,
    row_losses_of, softmax_of, Precision, Softmax,
};
use crate::shape::stretch;
use crate::steps::{step_gradients, step_losses};
use candle_core::{CpuStorage, Layout, Shape, Tensor};
use vstd::prelude::*;

verus! {

/// The elements of a matrix that labels name, one in each row, as numbers.
pub open spec fn named(a: Arithmetic, d: DType, xs: Seq<int>, c: int, labels: Seq<int>) -> Seq<
    real,
> {
    Seq::new(labels.len(), |i: int| a.of(d, xs[i * c + labels[i]]))
}

/// Whether each label names a column, and is not the largest number of its type.
pub open spec fn name_columns(labels: Tensor, c: int) -> bool {
    forall|i: int|
        0 <= i < tensor_values(labels).len() ==> 0 <= #[trigger] tensor_values(labels)[i] < c
            && tensor_values(labels)[i] != largest_label(tensor_dtype(labels))
}

/// Whether a tensor holds a matrix of `b` rows and `c` columns.
pub open spec fn is_matrix(t: Tensor, b: usize, c: usize) -> bool {
    tensor_dims(t) == seq![b, c] && tensor_values(t).len() == b * c
}

/// Whether a tensor holds a vector of `b` elements.
pub open spec fn is_vector(t: Tensor, b: usize) -> bool {
    tensor_dims(t) == seq![b] && tensor_values(t).len() == b
}

/// The negative log likelihood of `b` labels is -1/b times the sum of the log probabilities that
/// they name.
pub proof fn law_nll(a: Arithmetic, inp: &Tensor, target: &Tensor, b: usize, c: usize, o: Tensor)
    requires
        a.is_sound(),
        a.calculates_in(tensor_dtype(*inp)),
        a.averages_in(tensor_dtype(*inp)),
        is_matrix(*inp, b, c),
        is_vector(*target, b),
        b > 0,
        name_columns(*target, c as int),
        tensor_on_cpu(*inp) || (tensor_contiguous(*inp) && tensor_contiguous(*target)),
        call_ensures(nll, (inp, target), Ok(o)),
    ensures
        tensor_values(o).len() == 1,
        a.of(tensor_dtype(*inp), tensor_values(o)[0]) == (-1real / (b as real)) * sum(
            named(
                a,
                tensor_dtype(*inp),
                tensor_values(*inp),
                c as int,
                tensor_values(*target),
            ),
        ),
{
    let d = tensor_dtype(*inp);
    let (xs, ls) = (tensor_values(*inp), tensor_values(*target));
    let r = tensor_values(o)[0];
    let picked = picks(*inp, *target);
    let mean = choose|mean: int|
        {
            &&& is_mean(d, picked, mean)
            &&& #[trigger] is_affine(d, mean, -1, 0, r)
        };
    assert forall|i: int| 0 <= i < b implies #[trigger] a.all(d, picked)[i] == named(
        a,
        d,
        xs,
        c as int,
        ls,
    )[i] by {
        lemma_place(i, ls[i], b as int, c as int);
    }
    lemma_sum_same(a.all(d, picked), named(a, d, xs, c as int, ls));
    let (s, n, m, v) = (sum(named(a, d, xs, c as int, ls)), b as real, a.of(d, mean), a.of(d, r));
    assert(m * n == s);
    assert(v == m * ((-1) as real) + (0 as real));
    assert(v == (-1real / n) * s) by (nonlinear_arith)
        requires
            m * n == s,
            v == m * ((-1) as real) + (0 as real),
            n > 0real,
    ;
}

/// The negative log likelihood is not negative where no log probability that a label names is
/// positive.
pub proof fn law_nll_not_negative(
    a: Arithmetic,
    inp: &Tensor,
    target: &Tensor,
    b: usize,
    c: usize,
    o: Tensor,
)
    requires
        a.is_sound(),
        a.calculates_in(tensor_dtype(*inp)),
        a.averages_in(tensor_dtype(*inp)),
        is_matrix(*inp, b, c),
        is_vector(*target, b),
        b > 0,
        name_columns(*target, c as int),
        tensor_on_cpu(*inp) || (tensor_contiguous(*inp) && tensor_contiguous(*target)),
        call_ensures(nll, (inp, target), Ok(o)),
        forall|i: int|
            0 <= i < b ==> a.of(
                tensor_dtype(*inp),
                tensor_values(*inp)[i * c + #[trigger] tensor_values(*target)[i]],
            ) <= 0real,
    ensures
        0real <= a.of(tensor_dtype(*inp), tensor_values(o)[0]),
{
    law_nll(a, inp, target, b, c, o);
    let d = tensor_dtype(*inp);
    let (xs, ls) = (tensor_values(*inp), tensor_values(*target));
    let ns = named(a, d, xs, c as int, ls);
    let ps = Seq::new(ns.len(), |i: int| ns[i] * (-1real));
    assert forall|i: int| 0 <= i < ps.len() implies 0real <= #[trigger] ps[i] by {
        assert(a.of(d, xs[i * c + ls[i]]) <= 0real);
    }
    lemma_sum_covers(ps);
    lemma_sum_scaled(ns, ps, -1real);
    let (t, n, v) = (sum(ns), b as real, a.of(d, tensor_values(o)[0]));
    assert(0real <= v) by (nonlinear_arith)
        requires
            v == (-1real / n) * t,
            0real <= t * (-1real),
            n > 0real,
    ;
}

/// A batch and the batch joined with itself have the same negative log likelihood.
pub proof fn law_nll_of_doubled_batch(
    a: Arithmetic,
    inp: &Tensor,
    target: &Tensor,
    b: usize,
    c: usize,
    o: Tensor,
    inp2: &Tensor,
    target2: &Tensor,
    b2: usize,
    o2: Tensor,
)
    requires
        a.is_sound(),
        a.calculates_in(tensor_dtype(*inp)),
        a.averages_in(tensor_dtype(*inp)),
        is_matrix(*inp, b, c),
        is_vector(*target, b),
        is_matrix(*inp2, b2, c),
        is_vector(*target2, b2),
        b > 0,
        b2 == 2 * b,
        tensor_dtype(*inp2) == tensor_dtype(*inp),
        tensor_values(*inp2) == tensor_values(*inp) + tensor_values(*inp),
        tensor_values(*target2) == tensor_values(*target) + tensor_values(*target),
        name_columns(*target, c as int),
        name_columns(*target2, c as int),
        tensor_on_cpu(*inp),
        tensor_on_cpu(*inp2),
        call_ensures(nll, (inp, target), Ok(o)),
        call_ensures(nll, (inp2, target2), Ok(o2)),
    ensures
        a.of(tensor_dtype(*inp), tensor_values(o2)[0]) == a.of(
            tensor_dtype(*inp),
            tensor_values(o)[0],
        ),
{
    law_nll(a, inp, target, b, c, o);
    law_nll(a, inp2, target2, b2, c, o2);
    let d = tensor_dtype(*inp);
    let (xs, ls) = (tensor_values(*inp), tensor_values(*target));
    let (xs2, ls2) = (tensor_values(*inp2), tensor_values(*target2));
    let m = c as int;
    let (ns, ns2) = (named(a, d, xs, m, ls), named(a, d, xs2, m, ls2));
    assert forall|i: int| 0 <= i < ns2.len() implies #[trigger] ns2[i] == (ns + ns)[i] by {
        if i < b {
            lemma_place(i, ls[i], b as int, m);
            assert(ls2[i] == ls[i]);
        } else {
            let k = i - b;
            lemma_place(k, ls[k], b as int, m);
            assert(ls2[i] == ls[k]);
            assert(i * m == b * m + k * m) by (nonlinear_arith)
                requires
                    i == b + k,
            ;
        }
    }
    lemma_sum_same(ns2, ns + ns);
    lemma_sum_joined(ns, ns);
    let (t, n, n2) = (sum(ns), b as real, b2 as real);
    assert((-1real / n2) * (t + t) == (-1real / n) * t) by (nonlinear_arith)
        requires
            n2 == n + n,
            n > 0real,
    ;
}

/// Whether the exponentials, totals and other results that lead to row losses are exact: in double
/// precision on the processor, and in single or double precision elsewhere.
pub open spec fn exact_rows(a: Arithmetic, on_cpu: bool) -> bool {
    &&& a.is_sound()
    &&& a.keeps_numbers()
    &&& a.calculates_in(DType::F64)
    &&& a.raises_in(DType::F64)
    &&& !on_cpu ==> a.calculates_in(DType::F32) && a.raises_in(DType::F32)
}

proof fn lemma_softmax(a: Arithmetic, t: Precision, xs: Seq<int>, p: Softmax)
    requires
        a.is_sound(),
        a.keeps_numbers(),
        a.calculates_in(t.wide),
        a.raises_in(t.wide),
        !t.wide.is_int(),
        xs.len() > 0,
        softmax_of(t, xs, p),
    ensures
        p.wide.len() == xs.len(),
        p.exps.len() == xs.len(),
        forall|j: int|
            0 <= j < xs.len() ==> a.of(t.wide, #[trigger] p.wide[j]) == a.of(t.dtype, xs[j]),
        forall|j: int|
            0 <= j < xs.len() ==> a.of(t.wide, #[trigger] p.exps[j]) * (a.exp)(a.of(t.wide, p.max))
                == (a.exp)(a.of(t.dtype, xs[j])),
        0real < a.of(t.wide, p.total),
        a.of(t.wide, p.total) * (a.exp)(a.of(t.wide, p.max)) == sum(
            a.exponentials(t.dtype, xs, xs.len() as int, 0),
        ),
{
    let max = a.of(t.wide, p.max);
    let es = a.all(t.wide, p.exps);
    assert forall|j: int| 0 <= j < xs.len() implies a.of(t.wide, #[trigger] p.wide[j]) == a.of(
        t.dtype,
        xs[j],
    ) by {
        assert(converted(t.dtype, t.wide, xs[j], p.wide[j]));
    }
    assert forall|j: int| 0 <= j < xs.len() implies a.of(t.wide, #[trigger] p.exps[j]) * (a.exp)(
        max,
    ) == (a.exp)(a.of(t.dtype, xs[j])) && 0real < es[j] by {
        assert(a.of(t.wide, p.wide[j]) == a.of(t.dtype, xs[j]));
        assert(is_difference(t.wide, p.wide[j], p.max, p.shifted[j]));
        assert(is_exponential(t.wide, p.shifted[j], p.exps[j]));
        let s = a.of(t.wide, p.shifted[j]);
        assert(a.of(t.wide, p.wide[j]) <= max);
        assert(s <= 0real);
        assert((a.exp)(s + max) == (a.exp)(s) * (a.exp)(max));
        assert(s + max == a.of(t.dtype, xs[j]));
    }
    let zs = a.exponentials(t.dtype, xs, xs.len() as int, 0);
    assert forall|j: int| 0 <= j < zs.len() implies #[trigger] zs[j] == es[j] * (a.exp)(max) by {
        assert(a.of(t.wide, p.exps[j]) * (a.exp)(max) == (a.exp)(a.of(t.dtype, xs[j])));
        assert(0 * xs.len() + j == j);
    }
    lemma_sum_scaled(es, zs, (a.exp)(max));
    assert forall|j: int| 0 <= j < es.len() implies 0real <= #[trigger] es[j] by {
        assert(0real < a.of(t.wide, p.exps[j]));
    }
    lemma_sum_covers(es);
    assert(0real < a.of(t.wide, p.exps[0]));
    assert(es[0] <= sum(es));
}

proof fn lemma_row_loss(a: Arithmetic, t: Precision, xs: Seq<int>, label: int, r: int)
    requires
        a.is_sound(),
        a.keeps_numbers(),
        a.calculates_in(t.wide),
        a.raises_in(t.wide),
        !t.wide.is_int(),
        !t.dtype.is_int(),
        0 <= label < xs.len(),
        row_loss(t, xs, label, r),
    ensures
        a.of(t.dtype, r) == (a.ln)(sum(a.exponentials(t.dtype, xs, xs.len() as int, 0))) - a.of(
            t.dtype,
            xs[label],
        ),
{
    let (p, log, total, own, loss) = choose|p: Softmax, log: int, total: int, own: int, loss: int|
        {
            &&& #[trigger] softmax_of(t, xs, p)
            &&& #[trigger] is_logarithm(t.wide, p.total, log)
            &&& #[trigger] is_sum(t.wide, p.max, log, total)
            &&& own_logit(t, p, label, own)
            &&& #[trigger] is_difference(t.wide, total, own, loss)
            &&& converted(t.wide, t.dtype, loss, r)
        };
    lemma_softmax(a, t, xs, p);
    let (max, l, z) = (
        a.of(t.wide, p.max),
        a.of(t.wide, log),
        sum(a.exponentials(t.dtype, xs, xs.len() as int, 0)),
    );
    assert((a.exp)(l) == a.of(t.wide, p.total));
    assert((a.exp)(l + max) == (a.exp)(l) * (a.exp)(max));
    assert((a.ln)((a.exp)(l + max)) == l + max);
    assert((a.ln)(z) == l + max);
    assert(own == p.wide[label]);
}

/// The cross-entropy of row `i` of a matrix under a label: the logarithm of the sum of the
/// exponentials in the row, less the element that the label names.
pub open spec fn cross_entropy_of_row(
    a: Arithmetic,
    d: DType,
    xs: Seq<int>,
    c: int,
    i: int,
    label: int,
) -> real {
    (a.ln)(sum(a.exponentials(d, xs, c, i))) - a.of(d, xs[i * c + label])
}

proof fn lemma_row_exponentials(a: Arithmetic, d: DType, xs: Seq<int>, b: int, c: int, i: int)
    requires
        0 <= i < b,
        0 < c,
        xs.len() == b * c,
    ensures
        row(xs, c, i).len() == c,
        forall|j: int| 0 <= j < c ==> #[trigger] row(xs, c, i)[j] == xs[i * c + j],
        a.exponentials(d, row(xs, c, i), c, 0) == a.exponentials(d, xs, c, i),
{
    lemma_place(i, 0, b, c);
    let rs = row(xs, c, i);
    assert forall|j: int| 0 <= j < c implies #[trigger] rs[j] == xs[i * c + j] by {
        lemma_place(i, j, b, c);
    }
    let (us, vs) = (a.exponentials(d, rs, c, 0), a.exponentials(d, xs, c, i));
    assert forall|j: int| 0 <= j < c implies #[trigger] us[j] == vs[j] by {
        assert(0 * c + j == j) by (nonlinear_arith);
        assert(rs[j] == xs[i * c + j]);
    }
    assert(us =~= vs);
}

proof fn lemma_row_losses(
    a: Arithmetic,
    on_cpu: bool,
    d: DType,
    xs: Seq<int>,
    b: int,
    c: int,
    ls: Seq<int>,
    rs: Seq<int>,
    i: int,
)
    requires
        exact_rows(a, on_cpu),
        d.is_row_float(),
        0 <= i < b,
        0 < c,
        xs.len() == b * c,
        ls.len() == b,
        0 <= ls[i] < c,
        row_losses_of(precision(on_cpu, d), xs, c, ls, rs),
    ensures
        a.of(d, rs[i]) == cross_entropy_of_row(a, d, xs, c, i, ls[i]),
{
    let t = precision(on_cpu, d);
    lemma_row_exponentials(a, d, xs, b, c, i);
    assert(row_loss(t, row(xs, c, i), ls[i], rs[i]));
    lemma_row_loss(a, t, row(xs, c, i), ls[i], rs[i]);
}

/// The loss of a row is the logarithm of the sum of the exponentials of its logits, less the logit
/// that the label names. On the processor each label names one.
pub proof fn law_row_losses(
    a: Arithmetic,
    inp: &Tensor,
    target: &Tensor,
    b: usize,
    c: usize,
    o: Tensor,
    i: int,
)
    requires
        exact_rows(a, tensor_on_cpu(*inp)),
        is_matrix(*inp, b, c),
        is_vector(*target, b),
        0 <= i < b,
        tensor_on_cpu(*inp) || (0 <= tensor_values(*target)[i] < c && c <= 0xffff_ffff),
        call_ensures(row_losses, (inp, target), Ok(o)),
    ensures
        tensor_dims(o) == seq![b],
        tensor_values(o).len() == b,
        0 <= tensor_values(*target)[i] < c,
        a.of(tensor_dtype(*inp), tensor_values(o)[i]) == cross_entropy_of_row(
            a,
            tensor_dtype(*inp),
            tensor_values(*inp),
            c as int,
            i,
            tensor_values(*target)[i],
        ),
{
    if tensor_on_cpu(*inp) {
        lemma_labels_accepted(tensor_values(*target), c);
    }
    lemma_row_losses(
        a,
        tensor_on_cpu(*inp),
        tensor_dtype(*inp),
        tensor_values(*inp),
        b as int,
        c as int,
        tensor_values(*target),
        tensor_values(o),
        i,
    );
}

/// The cross-entropy of each row.
pub open spec fn cross_entropies(
    a: Arithmetic,
    d: DType,
    xs: Seq<int>,
    c: int,
    labels: Seq<int>,
) -> Seq<real> {
    Seq::new(labels.len(), |i: int| cross_entropy_of_row(a, d, xs, c, i, labels[i]))
}

/// Whether each label names one of `c` columns.
pub open spec fn name_classes(labels: Seq<int>, c: int) -> bool {
    forall|i: int| 0 <= i < labels.len() ==> 0 <= #[trigger] labels[i] < c
}

/// The cross-entropy of `b` rows is 1/b times the sum, over the rows, of the logarithm of the sum
/// of the exponentials of a row's logits, less the logit that the row's label names. On the
/// processor each label names one.
pub proof fn law_cross_entropy(
    a: Arithmetic,
    inp: &Tensor,
    target: &Tensor,
    b: usize,
    c: usize,
    o: Tensor,
)
    requires
        exact_rows(a, tensor_on_cpu(*inp)),
        a.averages_in(tensor_dtype(*inp)),
        is_matrix(*inp, b, c),
        is_vector(*target, b),
        b > 0,
        tensor_on_cpu(*inp) || (name_classes(tensor_values(*target), c as int) && c
            <= 0xffff_ffff),
        call_ensures(cross_entropy, (inp, target), Ok(o)),
    ensures
        tensor_values(o).len() == 1,
        name_classes(tensor_values(*target), c as int),
        a.of(tensor_dtype(*inp), tensor_values(o)[0]) == (1real / (b as real)) * sum(
            cross_entropies(
                a,
                tensor_dtype(*inp),
                tensor_values(*inp),
                c as int,
                tensor_values(*target),
            ),
        ),
{
    let d = tensor_dtype(*inp);
    let (xs, ls) = (tensor_values(*inp), tensor_values(*target));
    let r = tensor_values(o)[0];
    if tensor_on_cpu(*inp) {
        lemma_labels_accepted(ls, c);
    }
    let losses = choose|losses: Seq<int>|
        {
            &&& #[trigger] row_losses_of(precision_of(*inp), xs, c as int, ls, losses)
            &&& is_mean(d, losses, r)
        };
    let (us, vs) = (a.all(d, losses), cross_entropies(a, d, xs, c as int, ls));
    assert forall|i: int| 0 <= i < b implies #[trigger] us[i] == vs[i] by {
        assert(0 <= ls[i] < c);
        lemma_row_losses(a, tensor_on_cpu(*inp), d, xs, b as int, c as int, ls, losses, i);
    }
    lemma_sum_same(us, vs);
    let (t, n, v) = (sum(vs), b as real, a.of(d, r));
    assert(v == (1real / n) * t) by (nonlinear_arith)
        requires
            v * n == t,
            n > 0real,
    ;
}

proof fn lemma_row_gradient(
    a: Arithmetic,
    t: Precision,
    xs: Seq<int>,
    label: int,
    g: int,
    rs: Seq<int>,
    j: int,
)
    requires
        a.is_sound(),
        a.keeps_numbers(),
        a.calculates_in(t.wide),
        a.raises_in(t.wide),
        !t.wide.is_int(),
        !t.dtype.is_int(),
        0 <= j < xs.len(),
        row_gradient(t, xs, label, g, rs),
    ensures
        a.of(t.dtype, rs[j]) == (a.softmax(t.dtype, xs, xs.len() as int, 0, j) - (if j == label {
            1real
        } else {
            0real
        })) * a.of(t.dtype, g),
{
    let (p, wide_grad) = choose|p: Softmax, wide_grad: int|
        {
            &&& #[trigger] softmax_of(t, xs, p)
            &&& #[trigger] converted(t.dtype, t.wide, g, wide_grad)
            &&& rs.len() == xs.len()
            &&& forall|j: int|
                0 <= j < rs.len() ==> gradient_element(
                    t,
                    p,
                    j == label,
                    j,
                    wide_grad,
                    #[trigger] rs[j],
                )
        };
    lemma_softmax(a, t, xs, p);
    assert(gradient_element(t, p, j == label, j, wide_grad, rs[j]));
    let (q, s, w) = choose|q: int, s: int, w: int|
        {
            &&& #[trigger] is_quotient(t.wide, p.exps[j], p.total, q)
            &&& if j == label {
                is_affine(t.wide, q, 1, -1, s)
            } else {
                s == q
            }
            &&& #[trigger] is_product(t.wide, s, wide_grad, w)
            &&& converted(t.wide, t.dtype, w, rs[j])
        };
    let m = (a.exp)(a.of(t.wide, p.max));
    let (e, total) = (a.of(t.wide, p.exps[j]), a.of(t.wide, p.total));
    let (ej, z) = (
        (a.exp)(a.of(t.dtype, xs[j])),
        sum(a.exponentials(t.dtype, xs, xs.len() as int, 0)),
    );
    assert(0 * xs.len() + j == j);
    assert(e / total == ej / z) by (nonlinear_arith)
        requires
            e * m == ej,
            total * m == z,
            total > 0real,
            m > 0real,
    ;
    let (vq, vs) = (a.of(t.wide, q), a.of(t.wide, s));
    if j == label {
        assert(vs == vq * (1 as real) + ((-1) as real));
        assert(vs == vq - 1real) by (nonlinear_arith)
            requires
                vs == vq * (1 as real) + ((-1) as real),
        ;
    }
    assert(a.of(t.wide, wide_grad) == a.of(t.dtype, g));
    assert(a.of(t.dtype, rs[j]) == vs * a.of(t.dtype, g));
}

proof fn lemma_row_gradients(
    a: Arithmetic,
    on_cpu: bool,
    d: DType,
    xs: Seq<int>,
    b: int,
    c: int,
    ls: Seq<int>,
    gs: Seq<int>,
    rs: Seq<int>,
    i: int,
    j: int,
)
    requires
        exact_rows(a, on_cpu),
        d.is_row_float(),
        0 <= i < b,
        0 <= j < c,
        xs.len() == b * c,
        ls.len() == b,
        row_gradients_of(precision(on_cpu, d), xs, c, ls, gs, rs),
    ensures
        rs.len() == b * c,
        a.of(d, rs[i * c + j]) == (a.softmax(d, xs, c, i, j) - (if j == ls[i] {
            1real
        } else {
            0real
        })) * a.of(d, gs[i]),
{
    let t = precision(on_cpu, d);
    lemma_row_exponentials(a, d, xs, b, c, i);
    lemma_row_exponentials(a, d, rs, b, c, i);
    assert(row_gradient(t, row(xs, c, i), ls[i], gs[i], row(rs, c, i)));
    lemma_row_gradient(a, t, row(xs, c, i), ls[i], gs[i], row(rs, c, i), j);
    assert(0 * c + j == j) by (nonlinear_arith);
    assert(row(xs, c, i)[j] == xs[i * c + j]);
    assert(row(rs, c, i)[j] == rs[i * c + j]);
}

/// Element `j` of the gradient of row `i` is the softmax of the row's logits there, less one where
/// the row's label names the column, times the gradient of the row's loss.
pub proof fn law_row_gradients(
    a: Arithmetic,
    inp: &Tensor,
    target: &Tensor,
    grad: &Tensor,
    b: usize,
    c: usize,
    o: Tensor,
    i: int,
    j: int,
)
    requires
        exact_rows(a, tensor_on_cpu(*inp)),
        is_matrix(*inp, b, c),
        is_vector(*target, b),
        0 <= i < b,
        0 <= j < c,
        tensor_on_cpu(*inp) || c <= 0xffff_ffff,
        call_ensures(row_gradients, (inp, target, grad), Ok(o)),
    ensures
        is_matrix(o, b, c),
        a.of(tensor_dtype(*inp), tensor_values(o)[i * c + j]) == (a.softmax(
            tensor_dtype(*inp),
            tensor_values(*inp),
            c as int,
            i,
            j,
        ) - (if j == tensor_values(*target)[i] {
            1real
        } else {
            0real
        })) * a.of(tensor_dtype(*inp), tensor_values(*grad)[i]),
{
    lemma_row_gradients(
        a,
        tensor_on_cpu(*inp),
        tensor_dtype(*inp),
        tensor_values(*inp),
        b as int,
        c as int,
        tensor_values(*target),
        tensor_values(*grad),
        tensor_values(o),
        i,
        j,
    );
}

/// What the backend is handed when it differentiates row losses is, at each place of the gradient
/// of the logits, the softmax of the row's logits, less one where the row's label names the column,
/// times the gradient of the row's loss.
pub proof fn law_backward_pass(
    a: Arithmetic,
    inp: &Tensor,
    target: &Tensor,
    res: &Tensor,
    grad: &Tensor,
    b: usize,
    c: usize,
    o: Tensor,
    l: Option<Tensor>,
    i: int,
    j: int,
)
    requires
        exact_rows(a, tensor_on_cpu(*inp)),
        is_matrix(*inp, b, c),
        is_vector(*target, b),
        0 <= i < b,
        0 <= j < c,
        tensor_on_cpu(*inp) || c <= 0xffff_ffff,
        call_ensures(backward_pass, (inp, target, res, grad), Ok((Some(o), l))),
    ensures
        l is None,
        is_matrix(o, b, c),
        tensor_dtype(o) == tensor_dtype(*inp),
        tensor_on_cpu(o) == tensor_on_cpu(*inp),
        a.of(tensor_dtype(*inp), tensor_values(o)[i * c + j]) == (a.softmax(
            tensor_dtype(*inp),
            tensor_values(*inp),
            c as int,
            i,
            j,
        ) - (if j == tensor_values(*target)[i] {
            1real
        } else {
            0real
        })) * a.of(tensor_dtype(*inp), tensor_values(*grad)[i]),
{
    lemma_row_gradients(
        a,
        tensor_on_cpu(*inp),
        tensor_dtype(*inp),
        tensor_values(*inp),
        b as int,
        c as int,
        tensor_values(*target),
        tensor_values(*grad),
        tensor_values(o),
        i,
        j,
    );
}

/// The cross-entropy of logits is the negative log likelihood of their log-softmax.
pub proof fn law_cross_entropy_is_nll_of_log_softmax(
    a: Arithmetic,
    inp: &Tensor,
    scores: &Tensor,
    target: &Tensor,
    b: usize,
    c: usize,
    o: Tensor,
    q: Tensor,
)
    requires
        exact_rows(a, true),
        a.averages_in(tensor_dtype(*inp)),
        a.calculates_in(tensor_dtype(*scores)),
        a.averages_in(tensor_dtype(*scores)),
        is_matrix(*inp, b, c),
        is_matrix(*scores, b, c),
        is_vector(*target, b),
        b > 0,
        name_columns(*target, c as int),
        tensor_on_cpu(*inp),
        tensor_on_cpu(*scores),
        forall|i: int, j: int|
            #![trigger tensor_values(*scores)[i * c + j]]
            0 <= i < b && 0 <= j < c ==> a.of(
                tensor_dtype(*scores),
                tensor_values(*scores)[i * c + j],
            ) == (a.ln)(
                a.softmax(tensor_dtype(*inp), tensor_values(*inp), c as int, i, j),
            ),
        call_ensures(cross_entropy, (inp, target), Ok(o)),
        call_ensures(nll, (scores, target), Ok(q)),
    ensures
        a.of(tensor_dtype(*inp), tensor_values(o)[0]) == a.of(
            tensor_dtype(*scores),
            tensor_values(q)[0],
        ),
{
    law_cross_entropy(a, inp, target, b, c, o);
    law_nll(a, scores, target, b, c, q);
    let d = tensor_dtype(*inp);
    let (xs, ls) = (tensor_values(*inp), tensor_values(*target));
    let ns = named(a, tensor_dtype(*scores), tensor_values(*scores), c as int, ls);
    let cs = cross_entropies(a, d, xs, c as int, ls);
    assert forall|i: int| 0 <= i < b implies #[trigger] cs[i] == ns[i] * (-1real) by {
        let l = ls[i];
        assert(0 <= l < c);
        let k = tensor_values(*scores)[i * c + l];
        assert(a.of(tensor_dtype(*scores), k) == (a.ln)(a.softmax(d, xs, c as int, i, l)));
        lemma_exponentials_positive(a, d, xs, c as int, i);
        lemma_ln_of_quotient(
            a,
            a.of(d, xs[i * c + l]),
            sum(a.exponentials(d, xs, c as int, i)),
        );
    }
    lemma_sum_scaled(ns, cs, -1real);
    let (u, v, n) = (sum(cs), sum(ns), b as real);
    assert((1real / n) * u == (-1real / n) * v) by (nonlinear_arith)
        requires
            u == v * (-1real),
            n > 0real,
    ;
}

proof fn lemma_exponentials_positive(a: Arithmetic, d: DType, xs: Seq<int>, c: int, i: int)
    requires
        a.is_sound(),
        c > 0,
    ensures
        forall|j: int| 0 <= j < c ==> 0real < #[trigger] a.exponentials(d, xs, c, i)[j],
        0real < sum(a.exponentials(d, xs, c, i)),
{
    let es = a.exponentials(d, xs, c, i);
    assert forall|j: int| 0 <= j < es.len() implies 0real < #[trigger] es[j] by {
        assert(0real < (a.exp)(a.of(d, xs[i * c + j])));
    }
    lemma_sum_covers(es);
    assert(0real < es[0]);
    assert(es[0] <= sum(es));
}

proof fn lemma_ln_of_quotient(a: Arithmetic, x: real, z: real)
    requires
        a.is_sound(),
        0real < z,
    ensures
        (a.ln)((a.exp)(x) / z) == x - (a.ln)(z),
{
    let l = (a.ln)(z);
    assert((a.exp)(l) == z);
    assert((a.exp)((x - l) + l) == (a.exp)(x - l) * (a.exp)(l));
    assert((x - l) + l == x);
    let (e, f) = ((a.exp)(x - l), (a.exp)(x));
    assert(f / z == e) by (nonlinear_arith)
        requires
            f == e * z,
            0real < z,
    ;
    assert((a.ln)((a.exp)(x - l)) == x - l);
}

/// The loss of a row of two or more logits is positive.
pub proof fn law_row_losses_positive(
    a: Arithmetic,
    inp: &Tensor,
    target: &Tensor,
    b: usize,
    c: usize,
    o: Tensor,
    i: int,
)
    requires
        exact_rows(a, tensor_on_cpu(*inp)),
        is_matrix(*inp, b, c),
        is_vector(*target, b),
        0 <= i < b,
        c > 1,
        tensor_on_cpu(*inp) || (0 <= tensor_values(*target)[i] < c && c <= 0xffff_ffff),
        call_ensures(row_losses, (inp, target), Ok(o)),
    ensures
        0real < a.of(tensor_dtype(*inp), tensor_values(o)[i]),
{
    law_row_losses(a, inp, target, b, c, o, i);
    lemma_positive_row(
        a,
        tensor_dtype(*inp),
        tensor_values(*inp),
        c as int,
        i,
        tensor_values(*target)[i],
    );
}

proof fn lemma_positive_row(a: Arithmetic, d: DType, xs: Seq<int>, c: int, i: int, label: int)
    requires
        a.is_sound(),
        c > 1,
        0 <= label < c,
    ensures
        0real < cross_entropy_of_row(a, d, xs, c, i, label),
{
    let es = a.exponentials(d, xs, c, i);
    lemma_exponentials_positive(a, d, xs, c, i);
    lemma_sum_exceeds(es, label);
    let (x, l) = (a.of(d, xs[i * c + label]), (a.ln)(sum(es)));
    assert((a.exp)(l) == sum(es));
    assert((a.exp)(x) == es[label]);
    if l <= x {
        if l < x {
            assert((a.exp)(l) < (a.exp)(x));
        }
        assert(false);
    }
}

/// The cross-entropy of two or more classes is positive.
pub proof fn law_cross_entropy_positive(
    a: Arithmetic,
    inp: &Tensor,
    target: &Tensor,
    b: usize,
    c: usize,
    o: Tensor,
)
    requires
        exact_rows(a, tensor_on_cpu(*inp)),
        a.averages_in(tensor_dtype(*inp)),
        is_matrix(*inp, b, c),
        is_vector(*target, b),
        b > 0,
        c > 1,
        tensor_on_cpu(*inp) || (name_classes(tensor_values(*target), c as int) && c
            <= 0xffff_ffff),
        call_ensures(cross_entropy, (inp, target), Ok(o)),
    ensures
        0real < a.of(tensor_dtype(*inp), tensor_values(o)[0]),
{
    law_cross_entropy(a, inp, target, b, c, o);
    let d = tensor_dtype(*inp);
    let (xs, ls) = (tensor_values(*inp), tensor_values(*target));
    let cs = cross_entropies(a, d, xs, c as int, ls);
    assert forall|i: int| 0 <= i < b implies 0real < #[trigger] cs[i] by {
        assert(0 <= ls[i] < c);
        lemma_positive_row(a, d, xs, c as int, i, ls[i]);
    }
    assert(0real < cs[0]);
    assert forall|i: int| 0 <= i < cs.len() implies 0real <= #[trigger] cs[i] by {
        assert(0real < cs[i]);
    }
    lemma_sum_covers(cs);
    assert(cs[0] <= sum(cs));
    let (t, n, v) = (sum(cs), b as real, a.of(d, tensor_values(o)[0]));
    assert(0real < v) by (nonlinear_arith)
        requires
            v == (1real / n) * t,
            0real < t,
            n > 0real,
    ;
}

/// The cross-entropy of rows that hold `c` equal logits each is the logarithm of `c`.
pub proof fn law_cross_entropy_of_equal_logits(
    a: Arithmetic,
    inp: &Tensor,
    target: &Tensor,
    b: usize,
    c: usize,
    o: Tensor,
)
    requires
        exact_rows(a, tensor_on_cpu(*inp)),
        a.averages_in(tensor_dtype(*inp)),
        is_matrix(*inp, b, c),
        is_vector(*target, b),
        b > 0,
        c > 0,
        forall|i: int, j: int|
            #![trigger tensor_values(*inp)[i * c + j]]
            0 <= i < b && 0 <= j < c ==> tensor_values(*inp)[i * c + j] == tensor_values(*inp)[i
                * c],
        tensor_on_cpu(*inp) || (name_classes(tensor_values(*target), c as int) && c
            <= 0xffff_ffff),
        call_ensures(cross_entropy, (inp, target), Ok(o)),
    ensures
        a.of(tensor_dtype(*inp), tensor_values(o)[0]) == (a.ln)(c as real),
{
    law_cross_entropy(a, inp, target, b, c, o);
    let d = tensor_dtype(*inp);
    let (xs, ls) = (tensor_values(*inp), tensor_values(*target));
    let cs = cross_entropies(a, d, xs, c as int, ls);
    let k = (a.ln)(c as real);
    assert forall|i: int| 0 <= i < b implies #[trigger] cs[i] == k by {
        assert(0 <= ls[i] < c);
        let x = a.of(d, xs[i * c]);
        let es = a.exponentials(d, xs, c as int, i);
        assert forall|j: int| 0 <= j < es.len() implies #[trigger] es[j] == (a.exp)(x) by {
            assert(xs[i * c + j] == xs[i * c]);
        }
        lemma_sum_constant(es, (a.exp)(x));
        assert((a.exp)(k) == c as real);
        assert((a.exp)(x + k) == (a.exp)(x) * (a.exp)(k));
        assert((a.ln)((a.exp)(x + k)) == x + k);
        assert(xs[i * c + ls[i]] == xs[i * c]);
    }
    lemma_sum_constant(cs, k);
    let (n, v) = (b as real, a.of(d, tensor_values(o)[0]));
    assert(v == k) by (nonlinear_arith)
        requires
            v == (1real / n) * (k * n),
            n > 0real,
    ;
}

/// A number that is added to all logits of a row does not change the row's loss.
pub proof fn law_row_losses_shifted(
    a: Arithmetic,
    inp: &Tensor,
    moved: &Tensor,
    target: &Tensor,
    b: usize,
    c: usize,
    o: Tensor,
    q: Tensor,
    i: int,
    k: real,
)
    requires
        exact_rows(a, true),
        is_matrix(*inp, b, c),
        is_matrix(*moved, b, c),
        is_vector(*target, b),
        0 <= i < b,
        tensor_on_cpu(*inp),
        tensor_on_cpu(*moved),
        forall|j: int|
            #![trigger tensor_values(*moved)[i * c + j]]
            0 <= j < c ==> a.of(tensor_dtype(*moved), tensor_values(*moved)[i * c + j]) == a.of(
                tensor_dtype(*inp),
                tensor_values(*inp)[i * c + j],
            ) + k,
        call_ensures(row_losses, (inp, target), Ok(o)),
        call_ensures(row_losses, (moved, target), Ok(q)),
    ensures
        a.of(tensor_dtype(*moved), tensor_values(q)[i]) == a.of(
            tensor_dtype(*inp),
            tensor_values(o)[i],
        ),
{
    law_row_losses(a, inp, target, b, c, o, i);
    law_row_losses(a, moved, target, b, c, q, i);
    let (d, e) = (tensor_dtype(*inp), tensor_dtype(*moved));
    let (xs, ys) = (tensor_values(*inp), tensor_values(*moved));
    let (us, vs) = (a.exponentials(d, xs, c as int, i), a.exponentials(e, ys, c as int, i));
    assert forall|j: int| 0 <= j < us.len() implies #[trigger] vs[j] == us[j] * (a.exp)(k) by {
        let x = a.of(d, xs[i * c + j]);
        assert(a.of(e, ys[i * c + j]) == x + k);
        assert((a.exp)(x + k) == (a.exp)(x) * (a.exp)(k));
    }
    lemma_sum_scaled(us, vs, (a.exp)(k));
    lemma_exponentials_positive(a, d, xs, c as int, i);
    let l = (a.ln)(sum(us));
    assert((a.exp)(l) == sum(us));
    assert((a.exp)(l + k) == (a.exp)(l) * (a.exp)(k));
    assert((a.ln)((a.exp)(l + k)) == l + k);
    let label = tensor_values(*target)[i];
    assert(a.of(e, ys[i * c + label]) == a.of(d, xs[i * c + label]) + k);
}

/// The elements of the gradient of a row, as numbers.
pub open spec fn gradient_of_row(a: Arithmetic, d: DType, rs: Seq<int>, c: int, i: int) -> Seq<
    real,
> {
    Seq::new(c as nat, |j: int| a.of(d, rs[i * c + j]))
}

/// The elements of the gradient of a row add up to zero where the row's label names a class.
pub proof fn law_row_gradients_add_up_to_zero(
    a: Arithmetic,
    inp: &Tensor,
    target: &Tensor,
    grad: &Tensor,
    b: usize,
    c: usize,
    o: Tensor,
    i: int,
)
    requires
        exact_rows(a, tensor_on_cpu(*inp)),
        is_matrix(*inp, b, c),
        is_vector(*target, b),
        0 <= i < b,
        tensor_on_cpu(*inp) || (0 <= tensor_values(*target)[i] < c && c <= 0xffff_ffff),
        call_ensures(row_gradients, (inp, target, grad), Ok(o)),
    ensures
        sum(gradient_of_row(a, tensor_dtype(*inp), tensor_values(o), c as int, i)) == 0real,
{
    let d = tensor_dtype(*inp);
    let (xs, ls, rs) = (tensor_values(*inp), tensor_values(*target), tensor_values(o));
    if tensor_on_cpu(*inp) {
        lemma_labels_accepted(ls, c);
    }
    let label = ls[i];
    assert(0 <= label < c);
    let g = a.of(d, tensor_values(*grad)[i]);
    let (gs, es) = (gradient_of_row(a, d, rs, c as int, i), a.exponentials(d, xs, c as int, i));
    let z = sum(es);
    lemma_exponentials_positive(a, d, xs, c as int, i);
    let hots = Seq::new(
        c as nat,
        |j: int|
            if j == label {
                -g
            } else {
                0real
            },
    );
    let softs = Seq::new(c as nat, |j: int| es[j] * (g / z));
    assert forall|j: int| 0 <= j < c implies #[trigger] gs[j] == softs[j] + hots[j] by {
        law_row_gradients(a, inp, target, grad, b, c, o, i, j);
        let (e, h) = (
            es[j],
            if j == label {
                1real
            } else {
                0real
            },
        );
        assert((e / z - h) * g == e * (g / z) - h * g) by (nonlinear_arith)
            requires
                0real < z,
        ;
        assert(h * g == if j == label {
            g
        } else {
            0real
        }) by (nonlinear_arith)
            requires
                h == if j == label {
                    1real
                } else {
                    0real
                },
        ;
    }
    lemma_sum_added(softs, hots, gs);
    lemma_sum_scaled(es, softs, g / z);
    lemma_sum_of_one(hots, label, -g);
    assert(z * (g / z) == g) by (nonlinear_arith)
        requires
            0real < z,
    ;
}

/// The sum of numbers of which at most one is not zero.
proof fn lemma_sum_of_one(xs: Seq<real>, k: int, v: real)
    requires
        0 <= k < xs.len(),
        xs[k] == v,
        forall|i: int| 0 <= i < xs.len() && i != k ==> #[trigger] xs[i] == 0real,
    ensures
        sum(xs) == v,
    decreases xs.len(),
{
    let us = xs.drop_last();
    if k == us.len() {
        assert forall|i: int| 0 <= i < us.len() implies #[trigger] us[i] == 0real by {
            assert(xs[i] == 0real);
        }
        lemma_sum_constant(us, 0real);
        assert(0real * (us.len() as real) == 0real) by (nonlinear_arith);
    } else {
        assert(us[k] == v);
        assert forall|i: int| 0 <= i < us.len() && i != k implies #[trigger] us[i] == 0real by {
            assert(xs[i] == 0real);
        }
        lemma_sum_of_one(us, k, v);
        assert(xs[xs.len() - 1] == 0real);
    }
}

/// Where the gradient of a row's loss is positive, the gradient of the row is negative at the
/// column that its label names and positive at the others, if there are two or more.
pub proof fn law_row_gradients_have_signs(
    a: Arithmetic,
    inp: &Tensor,
    target: &Tensor,
    grad: &Tensor,
    b: usize,
    c: usize,
    o: Tensor,
    i: int,
    j: int,
)
    requires
        exact_rows(a, tensor_on_cpu(*inp)),
        is_matrix(*inp, b, c),
        is_vector(*target, b),
        0 <= i < b,
        0 <= j < c,
        c > 1,
        tensor_on_cpu(*inp) || c <= 0xffff_ffff,
        0real < a.of(tensor_dtype(*inp), tensor_values(*grad)[i]),
        call_ensures(row_gradients, (inp, target, grad), Ok(o)),
    ensures
        j == tensor_values(*target)[i] ==> a.of(tensor_dtype(*inp), tensor_values(o)[i * c + j])
            < 0real,
        j != tensor_values(*target)[i] ==> 0real < a.of(
            tensor_dtype(*inp),
            tensor_values(o)[i * c + j],
        ),
{
    law_row_gradients(a, inp, target, grad, b, c, o, i, j);
    let d = tensor_dtype(*inp);
    let xs = tensor_values(*inp);
    let es = a.exponentials(d, xs, c as int, i);
    lemma_exponentials_positive(a, d, xs, c as int, i);
    lemma_sum_exceeds(es, j);
    let (e, z, g) = (es[j], sum(es), a.of(d, tensor_values(*grad)[i]));
    assert(0real < e);
    assert(0real < e / z < 1real) by (nonlinear_arith)
        requires
            0real < e < z,
    ;
    let q = e / z;
    assert((q - 1real) * g < 0real && 0real < (q - 0real) * g) by (nonlinear_arith)
        requires
            0real < q < 1real,
            0real < g,
    ;
}

/// Whether `xs` holds what a storage holds under a layout of given dimensions that reads row by
/// row.
pub open spec fn is_read(xs: Seq<int>, s: CpuStorage, l: Layout, dims: Seq<usize>) -> bool {
    &&& layout_dims(l) == dims
    &&& layout_start(l) + xs.len() <= storage_values(s).len()
    &&& xs == storage_values(s).subrange(layout_start(l) as int, layout_start(l) + xs.len())
}

proof fn lemma_stretch(xs: Seq<int>, s: CpuStorage, l: Layout, dims: Seq<usize>)
    requires
        is_read(xs, s, l, dims),
        count(dims) == xs.len(),
    ensures
        stretch(s, l) == xs,
{
    assert(stretch(s, l) =~= xs);
}

/// The loss of a row of logits in a storage is the logarithm of the sum of the exponentials of the
/// row, less the logit that the label names.
pub proof fn law_forward(
    a: Arithmetic,
    s1: &CpuStorage,
    l1: &Layout,
    s2: &CpuStorage,
    l2: &Layout,
    b: usize,
    c: usize,
    xs: Seq<int>,
    ls: Seq<int>,
    p: (CpuStorage, Shape),
    i: int,
)
    requires
        exact_rows(a, true),
        xs.len() == b * c,
        ls.len() == b,
        is_read(xs, *s1, *l1, seq![b, c]),
        is_read(ls, *s2, *l2, seq![b]),
        0 <= i < b,
        call_ensures(forward, (s1, l1, s2, l2), Ok(p)),
    ensures
        shape_dims(p.1) == seq![b],
        storage_dtype(p.0) == storage_dtype(*s1),
        storage_values(p.0).len() == b,
        0 <= ls[i] < c,
        a.of(storage_dtype(*s1), storage_values(p.0)[i]) == cross_entropy_of_row(
            a,
            storage_dtype(*s1),
            xs,
            c as int,
            i,
            ls[i],
        ),
{
    lemma_count(b, c);
    lemma_stretch(xs, *s1, *l1, seq![b, c]);
    lemma_stretch(ls, *s2, *l2, seq![b]);
    lemma_labels_accepted(ls, c);
    lemma_row_losses(
        a,
        true,
        storage_dtype(*s1),
        xs,
        b as int,
        c as int,
        ls,
        storage_values(p.0),
        i,
    );
}

/// What the backend is handed for the row losses is, for each row, the logarithm of the sum of the
/// exponentials of its logits, less the logit that the label names.
pub proof fn law_forward_pass(
    a: Arithmetic,
    s1: &CpuStorage,
    l1: &Layout,
    s2: &CpuStorage,
    l2: &Layout,
    b: usize,
    c: usize,
    xs: Seq<int>,
    ls: Seq<int>,
    p: (CpuStorage, Shape),
    i: int,
)
    requires
        exact_rows(a, true),
        xs.len() == b * c,
        ls.len() == b,
        is_read(xs, *s1, *l1, seq![b, c]),
        is_read(ls, *s2, *l2, seq![b]),
        0 <= i < b,
        call_ensures(forward_pass, (s1, l1, s2, l2), Ok(p)),
    ensures
        shape_dims(p.1) == seq![b],
        storage_dtype(p.0) == storage_dtype(*s1),
        storage_values(p.0).len() == b,
        0 <= ls[i] < c,
        a.of(storage_dtype(*s1), storage_values(p.0)[i]) == cross_entropy_of_row(
            a,
            storage_dtype(*s1),
            xs,
            c as int,
            i,
            ls[i],
        ),
{
    lemma_count(b, c);
    lemma_stretch(xs, *s1, *l1, seq![b, c]);
    lemma_stretch(ls, *s2, *l2, seq![b]);
    lemma_labels_accepted(ls, c);
    lemma_row_losses(
        a,
        true,
        storage_dtype(*s1),
        xs,
        b as int,
        c as int,
        ls,
        storage_values(p.0),
        i,
    );
}

/// The gradient of a row of logits in a storage is at each place the softmax of the row, less one
/// where the row's label names the column, times the gradient of the row's loss.
pub proof fn law_backward(
    a: Arithmetic,
    s1: &CpuStorage,
    l1: &Layout,
    s2: &CpuStorage,
    l2: &Layout,
    s3: &CpuStorage,
    l3: &Layout,
    b: usize,
    c: usize,
    xs: Seq<int>,
    ls: Seq<int>,
    gs: Seq<int>,
    p: (CpuStorage, Shape),
    i: int,
    j: int,
)
    requires
        exact_rows(a, true),
        xs.len() == b * c,
        ls.len() == b,
        gs.len() == b,
        is_read(xs, *s1, *l1, seq![b, c]),
        is_read(ls, *s2, *l2, seq![b]),
        is_read(gs, *s3, *l3, seq![b]),
        0 <= i < b,
        0 <= j < c,
        call_ensures(backward, (s1, l1, s2, l2, s3, l3), Ok(p)),
    ensures
        shape_dims(p.1) == seq![b, c],
        storage_dtype(p.0) == storage_dtype(*s1),
        storage_values(p.0).len() == b * c,
        a.of(storage_dtype(*s1), storage_values(p.0)[i * c + j]) == (a.softmax(
            storage_dtype(*s1),
            xs,
            c as int,
            i,
            j,
        ) - (if j == ls[i] {
            1real
        } else {
            0real
        })) * a.of(storage_dtype(*s1), gs[i]),
{
    lemma_count(b, c);
    lemma_stretch(xs, *s1, *l1, seq![b, c]);
    lemma_stretch(ls, *s2, *l2, seq![b]);
    lemma_stretch(gs, *s3, *l3, seq![b]);
    lemma_row_gradients(
        a,
        true,
        storage_dtype(*s1),
        xs,
        b as int,
        c as int,
        ls,
        gs,
        storage_values(p.0),
        i,
        j,
    );
}

/// What the backend is handed for the row gradients is, at each place, the softmax of the row's
/// logits, less one where the row's label names the column, times the gradient of the row's loss.
pub proof fn law_gradient_pass(
    a: Arithmetic,
    s1: &CpuStorage,
    l1: &Layout,
    s2: &CpuStorage,
    l2: &Layout,
    s3: &CpuStorage,
    l3: &Layout,
    b: usize,
    c: usize,
    xs: Seq<int>,
    ls: Seq<int>,
    gs: Seq<int>,
    p: (CpuStorage, Shape),
    i: int,
    j: int,
)
    requires
        exact_rows(a, true),
        xs.len() == b * c,
        ls.len() == b,
        gs.len() == b,
        is_read(xs, *s1, *l1, seq![b, c]),
        is_read(ls, *s2, *l2, seq![b]),
        is_read(gs, *s3, *l3, seq![b]),
        0 <= i < b,
        0 <= j < c,
        call_ensures(gradient_pass, (s1, l1, s2, l2, s3, l3), Ok(p)),
    ensures
        shape_dims(p.1) == seq![b, c],
        storage_dtype(p.0) == storage_dtype(*s1),
        storage_values(p.0).len() == b * c,
        a.of(storage_dtype(*s1), storage_values(p.0)[i * c + j]) == (a.softmax(
            storage_dtype(*s1),
            xs,
            c as int,
            i,
            j,
        ) - (if j == ls[i] {
            1real
        } else {
            0real
        })) * a.of(storage_dtype(*s1), gs[i]),
{
    lemma_count(b, c);
    lemma_stretch(xs, *s1, *l1, seq![b, c]);
    lemma_stretch(ls, *s2, *l2, seq![b]);
    lemma_stretch(gs, *s3, *l3, seq![b]);
    lemma_row_gradients(
        a,
        true,
        storage_dtype(*s1),
        xs,
        b as int,
        c as int,
        ls,
        gs,
        storage_values(p.0),
        i,
        j,
    );
}

/// From labels that are indices already, the loss of a row is the same: the logarithm of the sum of
/// the exponentials of its logits, less the logit that the label names.
pub proof fn law_rows_forward(
    a: Arithmetic,
    s: &CpuStorage,
    l: &Layout,
    target: &[usize],
    b: usize,
    c: usize,
    xs: Seq<int>,
    p: (CpuStorage, Shape),
    i: int,
)
    requires
        exact_rows(a, true),
        is_float(storage_dtype(*s)),
        xs.len() == b * c,
        is_read(xs, *s, *l, seq![b, c]),
        target@.len() == b,
        0 <= i < b,
        target@[i] < c,
        call_ensures(cross_entropy_rows_cpu_fwd, (s, l, target), Ok(p)),
    ensures
        shape_dims(p.1) == seq![b],
        storage_dtype(p.0) == storage_dtype(*s),
        storage_values(p.0).len() == b,
        a.of(storage_dtype(*s), storage_values(p.0)[i]) == cross_entropy_of_row(
            a,
            storage_dtype(*s),
            xs,
            c as int,
            i,
            target@[i] as int,
        ),
{
    lemma_count(b, c);
    lemma_stretch(xs, *s, *l, seq![b, c]);
    lemma_row_losses(
        a,
        true,
        storage_dtype(*s),
        xs,
        b as int,
        c as int,
        target@.map_values(|t: usize| t as int),
        storage_values(p.0),
        i,
    );
}

/// From labels that are indices already, the gradient of a row is the same: at each place the
/// softmax of its logits, less one where the label names the column, times the gradient of its
/// loss.
pub proof fn law_rows_backward(
    a: Arithmetic,
    s: &CpuStorage,
    l: &Layout,
    target: &[usize],
    s3: &CpuStorage,
    l3: &Layout,
    b: usize,
    c: usize,
    xs: Seq<int>,
    gs: Seq<int>,
    p: (CpuStorage, Shape),
    i: int,
    j: int,
)
    requires
        exact_rows(a, true),
        is_float(storage_dtype(*s)),
        xs.len() == b * c,
        gs.len() == b,
        is_read(xs, *s, *l, seq![b, c]),
        is_read(gs, *s3, *l3, seq![b]),
        target@.len() == b,
        0 <= i < b,
        0 <= j < c,
        call_ensures(cross_entropy_rows_cpu_bwd, (s, l, target, s3, l3), Ok(p)),
    ensures
        shape_dims(p.1) == seq![b, c],
        storage_dtype(p.0) == storage_dtype(*s),
        storage_values(p.0).len() == b * c,
        a.of(storage_dtype(*s), storage_values(p.0)[i * c + j]) == (a.softmax(
            storage_dtype(*s),
            xs,
            c as int,
            i,
            j,
        ) - (if j == target@[i] {
            1real
        } else {
            0real
        })) * a.of(storage_dtype(*s), gs[i]),
{
    lemma_count(b, c);
    lemma_stretch(xs, *s, *l, seq![b, c]);
    lemma_stretch(gs, *s3, *l3, seq![b]);
    lemma_row_gradients(
        a,
        true,
        storage_dtype(*s),
        xs,
        b as int,
        c as int,
        target@.map_values(|t: usize| t as int),
        gs,
        storage_values(p.0),
        i,
        j,
    );
}

/// Step by step, the loss of a row is the same: the logarithm of the sum of the exponentials of its
/// logits, less the logit that the label names.
pub proof fn law_step_losses(
    a: Arithmetic,
    inp: &Tensor,
    target: &Tensor,
    b: usize,
    c: usize,
    o: Tensor,
    i: int,
)
    requires
        exact_rows(a, tensor_on_cpu(*inp)),
        is_float(tensor_dtype(*inp)),
        is_matrix(*inp, b, c),
        is_vector(*target, b),
        0 <= i < b,
        0 <= tensor_values(*target)[i] < c,
        c <= 0xffff_ffff,
        call_ensures(step_losses, (inp, target), Ok(o)),
    ensures
        tensor_dims(o) == seq![b],
        tensor_dtype(o) == tensor_dtype(*inp),
        tensor_values(o).len() == b,
        a.of(tensor_dtype(*inp), tensor_values(o)[i]) == cross_entropy_of_row(
            a,
            tensor_dtype(*inp),
            tensor_values(*inp),
            c as int,
            i,
            tensor_values(*target)[i],
        ),
{
    lemma_row_losses(
        a,
        tensor_on_cpu(*inp),
        tensor_dtype(*inp),
        tensor_values(*inp),
        b as int,
        c as int,
        tensor_values(*target),
        tensor_values(o),
        i,
    );
}

/// Step by step, the gradient of a row is the same: at each place the softmax of its logits, less
/// one where the label names the column, times the gradient of its loss.
pub proof fn law_step_gradients(
    a: Arithmetic,
    inp: &Tensor,
    target: &Tensor,
    grad: &Tensor,
    b: usize,
    c: usize,
    o: Tensor,
    i: int,
    j: int,
)
    requires
        exact_rows(a, tensor_on_cpu(*inp)),
        is_float(tensor_dtype(*inp)),
        is_matrix(*inp, b, c),
        is_vector(*target, b),
        0 <= i < b,
        0 <= j < c,
        c <= 0xffff_ffff,
        call_ensures(step_gradients, (inp, target, grad), Ok(o)),
    ensures
        is_matrix(o, b, c),
        tensor_dtype(o) == tensor_dtype(*inp),
        a.of(tensor_dtype(*inp), tensor_values(o)[i * c + j]) == (a.softmax(
            tensor_dtype(*inp),
            tensor_values(*inp),
            c as int,
            i,
            j,
        ) - (if j == tensor_values(*target)[i] {
            1real
        } else {
            0real
        })) * a.of(tensor_dtype(*inp), tensor_values(*grad)[i]),
{
    lemma_row_gradients(
        a,
        tensor_on_cpu(*inp),
        tensor_dtype(*inp),
        tensor_values(*inp),
        b as int,
        c as int,
        tensor_values(*target),
        tensor_values(*grad),
        tensor_values(o),
        i,
        j,
    );
}

/// Elements that stand for no number.
pub struct NoNumbers {
    /// Whether an element of a type stands for no number.
    pub lost: spec_fn(DType, int) -> bool,
}

impl NoNumbers {
    /// Whether zero divided by zero is no number, and neither is what is computed from no number.
    pub open spec fn spread(self) -> bool {
        &&& forall|d: DType, zero: int, r: int| #[trigger]
            is_quotient(d, zero, zero, r) && is_conversion(DType::I64, d, 0, zero) ==> (self.lost)(
                d,
                r,
            )
        &&& forall|d: DType, x: int, y: int, r: int| #[trigger]
            is_difference(d, x, y, r) && (self.lost)(d, y) ==> (self.lost)(d, r)
        &&& forall|from: DType, to: DType, x: int, r: int| #[trigger]
            is_conversion(from, to, x, r) && !to.is_int() && (self.lost)(from, x) ==> (self.lost)(
                to,
                r,
            )
        &&& forall|d: DType, xs: Seq<int>, r: int, i: int| #[trigger]
            is_mean(d, xs, r) && 0 <= i < xs.len() && (self.lost)(d, #[trigger] xs[i]) ==> (
            self.lost)(d, r)
    }
}

proof fn lemma_lost_row(n: NoNumbers, t: Precision, xs: Seq<int>, label: int, r: int)
    requires
        n.spread(),
        !t.wide.is_int(),
        !t.dtype.is_int(),
        !(0 <= label < xs.len()),
        row_loss(t, xs, label, r),
    ensures
        (n.lost)(t.dtype, r),
{
    let (p, log, total, own, loss) = choose|p: Softmax, log: int, total: int, own: int, loss: int|
        {
            &&& #[trigger] softmax_of(t, xs, p)
            &&& #[trigger] is_logarithm(t.wide, p.total, log)
            &&& #[trigger] is_sum(t.wide, p.max, log, total)
            &&& own_logit(t, p, label, own)
            &&& #[trigger] is_difference(t.wide, total, own, loss)
            &&& converted(t.wide, t.dtype, loss, r)
        };
    assert(is_no_number(t.wide, own));
    let zero = choose|zero: int| #[trigger]
        converted(DType::I64, t.wide, 0, zero) && is_quotient(t.wide, zero, zero, own);
    assert(is_conversion(DType::I64, t.wide, 0, zero));
    assert(is_quotient(t.wide, zero, zero, own));
}

/// On an accelerator, the loss of a row whose label names no class is no number.
pub proof fn law_row_losses_of_unknown_class(
    n: NoNumbers,
    inp: &Tensor,
    target: &Tensor,
    b: usize,
    c: usize,
    o: Tensor,
    i: int,
)
    requires
        n.spread(),
        !tensor_on_cpu(*inp),
        is_matrix(*inp, b, c),
        is_vector(*target, b),
        c <= 0xffff_ffff,
        0 <= i < b,
        tensor_values(*target)[i] >= c,
        call_ensures(row_losses, (inp, target), Ok(o)),
    ensures
        (n.lost)(tensor_dtype(*inp), tensor_values(o)[i]),
{
    let t = precision_of(*inp);
    let (xs, ls, rs) = (tensor_values(*inp), tensor_values(*target), tensor_values(o));
    assert(row_loss(t, row(xs, c as int, i), ls[i], rs[i]));
    lemma_place(i, 0, b as int, c as int);
    lemma_lost_row(n, t, row(xs, c as int, i), ls[i], rs[i]);
}

/// On an accelerator, the cross-entropy is no number where a label names no class.
pub proof fn law_cross_entropy_of_unknown_class(
    n: NoNumbers,
    inp: &Tensor,
    target: &Tensor,
    b: usize,
    c: usize,
    o: Tensor,
    i: int,
)
    requires
        n.spread(),
        !tensor_on_cpu(*inp),
        is_matrix(*inp, b, c),
        is_vector(*target, b),
        c <= 0xffff_ffff,
        0 <= i < b,
        tensor_values(*target)[i] >= c,
        call_ensures(cross_entropy, (inp, target), Ok(o)),
    ensures
        (n.lost)(tensor_dtype(*inp), tensor_values(o)[0]),
{
    let t = precision_of(*inp);
    let (xs, ls) = (tensor_values(*inp), tensor_values(*target));
    let losses = choose|losses: Seq<int>|
        {
            &&& #[trigger] row_losses_of(t, xs, c as int, ls, losses)
            &&& is_mean(t.dtype, losses, tensor_values(o)[0])
        };
    assert(row_loss(t, row(xs, c as int, i), ls[i], losses[i]));
    lemma_place(i, 0, b as int, c as int);
    lemma_lost_row(n, t, row(xs, c as int, i), ls[i], losses[i]);
    assert((n.lost)(t.dtype, losses[i]));
}

/// The labels that name no class on the processor: the largest number of a type picks zero in place
/// of a log probability, so that the negative log likelihood of `b` labels is -1/b times the sum of
/// the log probabilities that the others name.
pub proof fn law_nll_of_largest_labels(
    a: Arithmetic,
    inp: &Tensor,
    target: &Tensor,
    b: usize,
    c: usize,
    o: Tensor,
)
    requires
        a.is_sound(),
        a.calculates_in(tensor_dtype(*inp)),
        a.averages_in(tensor_dtype(*inp)),
        is_matrix(*inp, b, c),
        is_vector(*target, b),
        b > 0,
        tensor_on_cpu(*inp),
        forall|i: int|
            0 <= i < b ==> 0 <= #[trigger] tensor_values(*target)[i] < c || tensor_values(
                *target,
            )[i] == largest_label(tensor_dtype(*target)),
        call_ensures(nll, (inp, target), Ok(o)),
    ensures
        a.of(tensor_dtype(*inp), tensor_values(o)[0]) == (-1real / (b as real)) * sum(
            Seq::new(
                b as nat,
                |i: int|
                    if tensor_values(*target)[i] == largest_label(tensor_dtype(*target)) {
                        0real
                    } else {
                        a.of(
                            tensor_dtype(*inp),
                            tensor_values(*inp)[i * c + tensor_values(*target)[i]],
                        )
                    },
            ),
        ),
{
    let d = tensor_dtype(*inp);
    let (xs, ls) = (tensor_values(*inp), tensor_values(*target));
    let r = tensor_values(o)[0];
    let picked = picks(*inp, *target);
    let ns = Seq::new(
        b as nat,
        |i: int|
            if tensor_values(*target)[i] == largest_label(tensor_dtype(*target)) {
                0real
            } else {
                a.of(
                    tensor_dtype(*inp),
                    tensor_values(*inp)[i * c + tensor_values(*target)[i]],
                )
            },
    );
    let mean = choose|mean: int|
        {
            &&& is_mean(d, picked, mean)
            &&& #[trigger] is_affine(d, mean, -1, 0, r)
        };
    assert(is_mean(d, picked, mean));
    assert forall|i: int| 0 <= i < b implies #[trigger] a.all(d, picked)[i] == ns[i] by {
        assert(0 <= ls[i] < c || ls[i] == largest_label(tensor_dtype(*target)));
        if ls[i] != largest_label(tensor_dtype(*target)) {
            lemma_place(i, ls[i], b as int, c as int);
        }
    }
    lemma_sum_same(a.all(d, picked), ns);
    let (s, n, m, v) = (sum(ns), b as real, a.of(d, mean), a.of(d, r));
    assert(v == m * ((-1) as real) + (0 as real));
    assert(v == (-1real / n) * s) by (nonlinear_arith)
        requires
            m * n == s,
            v == m * ((-1) as real) + (0 as real),
            n > 0real,
    ;
}

/// The largest number that a label of a type can be.
pub open spec fn largest_label(d: DType) -> int {
    if d == DType::U8 {
        255
    } else if d == DType::U32 {
        0xffff_ffff
    } else {
        0x7fff_ffff_ffff_ffff
    }
}

} // verus!
