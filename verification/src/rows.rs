//! The cross-entropy of each row of a matrix of logits, and its gradient.
//!
//! On the processor the numbers are computed in double precision whatever the element type is, and
//! converted back at the end; on an accelerator that is done for double precision only, and single
//! precision serves for the other types. The largest logit of a row is taken off before
//! exponentials are formed, so that none of them overflows.

use crate::backend::{
    affine, as_column, convert, dtype, gather, integers, is_affine, is_conversion, is_difference,
    is_exponential, is_largest, is_logarithm, is_product, is_quotient, is_sum, is_total, load,
    on_cpu, row_maxima, row_totals, stored_dtype, stored_len, unload,
};
use crate::dtype::DType;
use crate::error::{from_backend, ErrorOf, Fault, LossError};
use crate::label::{lemma_place, one_hot, signed};
use crate::model::{
    carries, each1, each2, formed_like, layout_dims, lemma_count, row, shape_dims, spread,
    storage_dtype, storage_values, tensor_contiguous, tensor_dims, tensor_dtype, tensor_fresh,
    tensor_on_cpu, tensor_values,
};
use crate::shape::{contiguous_offsets, reads_stretch, stretch, within};
use candle_core::{CpuStorage, Layout, Shape, Tensor};
use vstd::prelude::*;
use vstd::slice::*;

verus! {

/// Whether `r` is `x` in another element type, or `x` itself where the type is the same.
pub open spec fn converted(from: DType, to: DType, x: int, r: int) -> bool {
    if from == to {
        r == x
    } else {
        is_conversion(from, to, x, r)
    }
}

/// The element types of a computation.
pub struct Precision {
    /// The type of the logits and of what comes out.
    pub dtype: DType,
    /// The type that is computed with.
    pub wide: DType,
}

/// The type that row losses are computed with.
pub open spec fn wide_of(on_cpu: bool, dtype: DType) -> DType {
    if on_cpu || dtype == DType::F64 {
        DType::F64
    } else {
        DType::F32
    }
}

/// The element types of row losses, on the processor or on an accelerator.
pub open spec fn precision(on_cpu: bool, dtype: DType) -> Precision {
    Precision { dtype, wide: wide_of(on_cpu, dtype) }
}

/// The element types of the row losses of logits.
pub open spec fn precision_of(inp: Tensor) -> Precision {
    precision(tensor_on_cpu(inp), tensor_dtype(inp))
}

/// The type that the row losses of logits are computed with.
fn wide_dtype(x: &Tensor) -> (r: DType)
    ensures
        r == precision_of(*x).wide,
{
    match dtype(x) {
        DType::F64 => DType::F64,
        _ if on_cpu(x) => DType::F64,
        _ => DType::F32,
    }
}

/// What is computed on the way to the softmax of a row.
pub struct Softmax {
    /// The logits in the wide type.
    pub wide: Seq<int>,
    /// The largest of them.
    pub max: int,
    /// Each logit less the largest.
    pub shifted: Seq<int>,
    /// The exponentials of those differences.
    pub exps: Seq<int>,
    /// The sum of the exponentials.
    pub total: int,
}

/// Whether the parts of a softmax come from the logits of a row.
pub open spec fn softmax_of(t: Precision, logits: Seq<int>, p: Softmax) -> bool {
    &&& each1(|x: int, y: int| converted(t.dtype, t.wide, x, y), logits, p.wide)
    &&& is_largest(t.wide, p.wide, p.max)
    &&& each1(|x: int, y: int| is_difference(t.wide, x, p.max, y), p.wide, p.shifted)
    &&& each1(|x: int, y: int| is_exponential(t.wide, x, y), p.shifted, p.exps)
    &&& is_total(t.wide, p.exps, p.total)
}

/// Whether `r` is what the backend may give for zero divided by zero.
pub open spec fn is_no_number(dtype: DType, r: int) -> bool {
    exists|zero: int|
        #[trigger] converted(DType::I64, dtype, 0, zero) && is_quotient(dtype, zero, zero, r)
}

/// Whether `r` is the logit of a label. Zero divided by zero, which is no number, stands for that
/// of a label that names no class.
pub open spec fn own_logit(t: Precision, p: Softmax, label: int, r: int) -> bool {
    if 0 <= label < p.wide.len() {
        r == p.wide[label]
    } else {
        is_no_number(t.wide, r)
    }
}

/// Whether `r` is the cross-entropy of a row under a label: the largest logit, plus the logarithm
/// of the sum of the exponentials, less the logit of the label.
pub open spec fn row_loss(t: Precision, logits: Seq<int>, label: int, r: int) -> bool {
    exists|p: Softmax, log: int, sum: int, own: int, loss: int|
        {
            &&& #[trigger] softmax_of(t, logits, p)
            &&& #[trigger] is_logarithm(t.wide, p.total, log)
            &&& #[trigger] is_sum(t.wide, p.max, log, sum)
            &&& own_logit(t, p, label, own)
            &&& #[trigger] is_difference(t.wide, sum, own, loss)
            &&& converted(t.wide, t.dtype, loss, r)
        }
}

/// Whether each element of `losses` is the cross-entropy of a row.
pub open spec fn row_losses_of(
    t: Precision,
    logits: Seq<int>,
    c: int,
    labels: Seq<int>,
    losses: Seq<int>,
) -> bool {
    &&& losses.len() == labels.len()
    &&& forall|i: int|
        0 <= i < losses.len() ==> row_loss(
            t,
            row(logits, c, i),
            labels[i],
            #[trigger] losses[i],
        )
}

/// Whether `r` is an element of the gradient of a row: its softmax, less one in the column that the
/// label names, times the gradient of the row's loss.
pub open spec fn gradient_element(
    t: Precision,
    p: Softmax,
    hot: bool,
    j: int,
    grad: int,
    r: int,
) -> bool {
    exists|q: int, s: int, w: int|
        {
            &&& #[trigger] is_quotient(t.wide, p.exps[j], p.total, q)
            &&& if hot {
                is_affine(t.wide, q, 1, -1, s)
            } else {
                s == q
            }
            &&& #[trigger] is_product(t.wide, s, grad, w)
            &&& converted(t.wide, t.dtype, w, r)
        }
}

/// Whether `rs` is the gradient of a row's cross-entropy under a label, where `grad` is the
/// gradient of the loss.
pub open spec fn row_gradient(
    t: Precision,
    logits: Seq<int>,
    label: int,
    grad: int,
    rs: Seq<int>,
) -> bool {
    exists|p: Softmax, wide_grad: int|
        {
            &&& #[trigger] softmax_of(t, logits, p)
            &&& #[trigger] converted(t.dtype, t.wide, grad, wide_grad)
            &&& rs.len() == logits.len()
            &&& forall|j: int|
                0 <= j < rs.len() ==> gradient_element(
                    t,
                    p,
                    j == label,
                    j,
                    wide_grad,
                    #[trigger] rs[j],
                )
        }
}

/// Whether `rs` holds the gradient of each row.
pub open spec fn row_gradients_of(
    t: Precision,
    logits: Seq<int>,
    c: int,
    labels: Seq<int>,
    grads: Seq<int>,
    rs: Seq<int>,
) -> bool {
    &&& rs.len() == labels.len() * c
    &&& forall|i: int|
        0 <= i < labels.len() ==> row_gradient(
            t,
            row(logits, c, i),
            labels[i],
            grads[i],
            #[trigger] row(rs, c, i),
        )
}

proof fn lemma_row_each1(
    f: spec_fn(int, int) -> bool,
    xs: Seq<int>,
    ys: Seq<int>,
    b: int,
    c: int,
    i: int,
)
    requires
        0 <= i < b,
        0 < c,
        xs.len() == b * c,
        each1(f, xs, ys),
    ensures
        each1(f, row(xs, c, i), row(ys, c, i)),
        row(xs, c, i).len() == c,
{
    lemma_place(i, 0, b, c);
    let (rx, ry) = (row(xs, c, i), row(ys, c, i));
    assert forall|j: int| 0 <= j < c implies f(rx[j], #[trigger] ry[j]) by {
        assert(ry[j] == ys[i * c + j]);
    }
}

proof fn lemma_row_spread(
    f: spec_fn(int, int, int) -> bool,
    xs: Seq<int>,
    ws: Seq<int>,
    ys: Seq<int>,
    b: usize,
    c: usize,
    i: int,
)
    requires
        0 <= i < b,
        0 < c,
        each2(f, xs, spread(seq![b, c], seq![b, 1], ws), ys),
    ensures
        each1(|x: int, y: int| f(x, ws[i], y), row(xs, c as int, i), row(ys, c as int, i)),
{
    lemma_count(b, c);
    lemma_place(i, 0, b as int, c as int);
    let over = spread(seq![b, c], seq![b, 1], ws);
    let (rx, ry) = (row(xs, c as int, i), row(ys, c as int, i));
    assert forall|j: int| 0 <= j < c implies f(rx[j], ws[i], #[trigger] ry[j]) by {
        lemma_place(i, j, b as int, c as int);
        let k = i * c + j;
        assert(ry[j] == ys[k]);
        assert(over[k] == ws[i]);
    }
}

/// The tensors that hold the parts of the softmax of each row.
pub(crate) struct SoftmaxTensors {
    pub(crate) wide: Tensor,
    pub(crate) max: Tensor,
    pub(crate) exps: Tensor,
    pub(crate) total: Tensor,
    /// The logits less their largest.
    pub(crate) shifted: Ghost<Seq<int>>,
}

impl SoftmaxTensors {
    /// The parts of the softmax of one row.
    pub(crate) open spec fn of_row(&self, c: int, i: int) -> Softmax {
        Softmax {
            wide: row(tensor_values(self.wide), c, i),
            max: tensor_values(self.max)[i],
            shifted: row(self.shifted@, c, i),
            exps: row(tensor_values(self.exps), c, i),
            total: tensor_values(self.total)[i],
        }
    }

    /// Whether the tensors hold the parts of the softmax of each row of the logits.
    pub(crate) open spec fn of_logits(&self, x: Tensor, b: usize, c: usize) -> bool {
        &&& tensor_dims(self.wide) == seq![b, c]
        &&& tensor_dims(self.max) == seq![b, 1]
        &&& tensor_dims(self.exps) == seq![b, c]
        &&& tensor_dims(self.total) == seq![b, 1]
        &&& tensor_dtype(self.wide) == precision_of(x).wide
        &&& tensor_dtype(self.max) == precision_of(x).wide
        &&& tensor_dtype(self.exps) == precision_of(x).wide
        &&& tensor_dtype(self.total) == precision_of(x).wide
        &&& tensor_on_cpu(self.wide) == tensor_on_cpu(x)
        &&& tensor_on_cpu(self.max) == tensor_on_cpu(x)
        &&& tensor_on_cpu(self.exps) == tensor_on_cpu(x)
        &&& tensor_on_cpu(self.total) == tensor_on_cpu(x)
        &&& tensor_contiguous(self.wide)
        &&& tensor_values(self.wide).len() == b * c
        &&& tensor_values(self.max).len() == b
        &&& tensor_values(self.exps).len() == b * c
        &&& tensor_values(self.total).len() == b
        &&& carries(self.max, x)
        &&& forall|i: int|
            0 <= i < b ==> softmax_of(
                precision_of(x),
                row(tensor_values(x), c as int, i),
                #[trigger] self.of_row(c as int, i),
            )
    }
}

/// Whether a tensor is a matrix of logits that the row losses compute with.
pub(crate) open spec fn is_logits(x: Tensor, b: usize, c: usize) -> bool {
    &&& tensor_dims(x) == seq![b, c]
    &&& tensor_dtype(x).is_row_float()
    &&& tensor_contiguous(x)
    &&& tensor_on_cpu(x) ==> tensor_fresh(x) || c > 1
    &&& b > 0
    &&& c > 0
}

/// The parts of the softmax of each row.
pub(crate) fn softmax_tensors(x: &Tensor, b: usize, c: usize) -> (r: Result<
    SoftmaxTensors,
    LossError,
>)
    requires
        is_logits(*x, b, c),
    ensures
        tensor_on_cpu(*x) ==> r is Ok,
        r matches Err(e) ==> e is Backend,
        r matches Ok(p) ==> p.of_logits(*x, b, c),
{
    proof {
        lemma_count(b, c);
        lemma_count(b, 1);
        assert(b * c > 0) by (nonlinear_arith)
            requires
                b > 0,
                c > 0,
        ;
    }
    let wide = from_backend(convert(x, wide_dtype(x)))?;
    let max = from_backend(row_maxima(&wide))?;
    let shifted = from_backend(wide.broadcast_sub(&max))?;
    let exps = from_backend(shifted.exp())?;
    let total = from_backend(row_totals(&exps))?;
    let ghost s = tensor_values(shifted);
    let p = SoftmaxTensors { wide, max, exps, total, shifted: Ghost(s) };
    proof {
        let t = precision_of(*x);
        let (n, m) = (b as int, c as int);
        let conv = |x: int, y: int| converted(t.dtype, t.wide, x, y);
        assert(each1(conv, tensor_values(*x), tensor_values(p.wide)));
        assert forall|i: int| 0 <= i < b implies softmax_of(
            t,
            row(tensor_values(*x), m, i),
            #[trigger] p.of_row(m, i),
        ) by {
            lemma_row_each1(conv, tensor_values(*x), tensor_values(p.wide), n, m, i);
            lemma_row_spread(
                |x: int, y: int, z: int| is_difference(t.wide, x, y, z),
                tensor_values(p.wide),
                tensor_values(p.max),
                s,
                b,
                c,
                i,
            );
            lemma_row_each1(
                |x: int, y: int| is_exponential(t.wide, x, y),
                s,
                tensor_values(p.exps),
                n,
                m,
                i,
            );
            assert(is_largest(t.wide, row(tensor_values(p.wide), m, i), tensor_values(p.max)[i]));
            assert(is_total(t.wide, row(tensor_values(p.exps), m, i), tensor_values(p.total)[i]));
        }
    }
    Ok(p)
}

/// Whether a column holds the logit of each row's label.
pub(crate) open spec fn are_own_logits(
    x: Tensor,
    p: SoftmaxTensors,
    own: Tensor,
    labels: Seq<int>,
    b: usize,
    c: usize,
) -> bool {
    &&& tensor_dims(own) == seq![b, 1]
    &&& tensor_dtype(own) == precision_of(x).wide
    &&& tensor_on_cpu(own) == tensor_on_cpu(x)
    &&& tensor_values(own).len() == b
    &&& forall|i: int|
        0 <= i < b ==> own_logit(
            precision_of(x),
            p.of_row(c as int, i),
            labels[i],
            #[trigger] tensor_values(own)[i],
        )
}

/// The cross-entropy of each row, as a column, from the parts of the softmax and the logits of the
/// labels.
pub(crate) fn losses_column(
    x: &Tensor,
    p: &SoftmaxTensors,
    own: &Tensor,
    labels: Ghost<Seq<int>>,
    b: usize,
    c: usize,
) -> (r: Result<Tensor, LossError>)
    requires
        is_logits(*x, b, c),
        p.of_logits(*x, b, c),
        labels@.len() == b,
        are_own_logits(*x, *p, *own, labels@, b, c),
    ensures
        tensor_on_cpu(*x) ==> r is Ok,
        r matches Err(e) ==> e is Backend,
        r matches Ok(o) ==> tensor_dims(o) == seq![b, 1] && tensor_dtype(o) == tensor_dtype(*x)
            && tensor_on_cpu(o) == tensor_on_cpu(*x) && carries(o, *x) && row_losses_of(
            precision_of(*x),
            tensor_values(*x),
            c as int,
            labels@,
            tensor_values(o),
        ),
{
    proof {
        lemma_count(b, 1);
    }
    let log = from_backend(p.total.log())?;
    let sum = from_backend(p.max.add(&log))?;
    let loss = from_backend(sum.sub(own))?;
    let out = from_backend(convert(&loss, dtype(x)))?;
    proof {
        let t = precision_of(*x);
        let (xs, rs) = (tensor_values(*x), tensor_values(out));
        assert forall|i: int| 0 <= i < b implies row_loss(
            t,
            row(xs, c as int, i),
            labels@[i],
            #[trigger] rs[i],
        ) by {
            let q = p.of_row(c as int, i);
            assert(softmax_of(t, row(xs, c as int, i), q));
            assert(own_logit(t, q, labels@[i], tensor_values(*own)[i]));
            assert(is_logarithm(t.wide, q.total, tensor_values(log)[i]));
            assert(is_sum(t.wide, q.max, tensor_values(log)[i], tensor_values(sum)[i]));
            assert(is_difference(
                t.wide,
                tensor_values(sum)[i],
                tensor_values(*own)[i],
                tensor_values(loss)[i],
            ));
            assert(converted(t.wide, t.dtype, tensor_values(loss)[i], rs[i]));
        }
    }
    Ok(out)
}

/// What is wrong with the layout of the logits.
pub open spec fn rows_fault(l: Layout) -> Option<Fault> {
    if layout_dims(l).len() != 2 {
        Some(ErrorOf::InputRank { dims: layout_dims(l) })
    } else if !reads_stretch(l) {
        Some(ErrorOf::InputStrided)
    } else {
        None
    }
}

/// Whether labels name columns of the matrix that a layout reads, one for each row.
pub open spec fn labels_rows(l: Layout, target: Seq<usize>) -> bool {
    &&& layout_dims(l)[1] > 0
    &&& target.len() == layout_dims(l)[0]
    &&& forall|i: int| 0 <= i < target.len() ==> #[trigger] target[i] < layout_dims(l)[1]
}

/// A vector of integers that has no elements, on the processor.
pub(crate) fn no_integers() -> (r: Result<Tensor, LossError>)
    ensures
        r is Ok,
        r matches Ok(o) ==> tensor_dims(o) == seq![0usize] && tensor_dtype(o) == DType::I64
            && tensor_on_cpu(o) && tensor_fresh(o) && tensor_values(o).len() == 0,
{
    proof {
        lemma_count(0, 0);
    }
    let dims: Vec<usize> = vec![0];
    assert(dims@ =~= seq![0usize]);
    from_backend(integers(Vec::new(), dims))
}

/// A storage without elements.
pub(crate) fn nothing(dtype: DType) -> (r: Result<CpuStorage, LossError>)
    ensures
        r matches Err(e) ==> e is Backend,
        r is Ok <==> !dtype.is_stored_only(),
        r matches Ok(s) ==> storage_dtype(s) == dtype && storage_values(s).len() == 0,
{
    let none = no_integers()?;
    let converted = from_backend(convert(&none, dtype))?;
    from_backend(unload(&converted))
}

/// The cross-entropy of each row of the logits that a storage holds under a layout.
pub fn cross_entropy_rows_cpu_fwd(inp: &CpuStorage, inp_l: &Layout, target: &[usize]) -> (r: Result<
    (CpuStorage, Shape),
    LossError,
>)
    requires
        storage_dtype(*inp).is_row_float(),
        rows_fault(*inp_l) is None ==> within(*inp, *inp_l) && labels_rows(*inp_l, target@),
    ensures
        r matches Ok(p) ==> rows_fault(*inp_l) is None && storage_dtype(p.0) == storage_dtype(*inp)
            && shape_dims(p.1) == seq![layout_dims(*inp_l)[0]] && row_losses_of(
            precision(true, storage_dtype(*inp)),
            stretch(*inp, *inp_l),
            layout_dims(*inp_l)[1] as int,
            target@.map_values(|t: usize| t as int),
            storage_values(p.0),
        ),
        r matches Err(e) ==> rows_fault(*inp_l) == Some(e@),
{
    let dims = inp_l.dims();
    if dims.len() != 2 {
        return Err(ErrorOf::InputRank { dims: slice_to_vec(dims) });
    }
    let b_sz: usize = dims[0];
    let n_classes: usize = dims[1];
    if contiguous_offsets(inp_l).is_none() {
        return Err(ErrorOf::InputStrided);
    }
    proof {
        lemma_count(b_sz, n_classes);
        assert(dims@ =~= seq![b_sz, n_classes]);
    }
    let shape = Shape::from_dims(vec![b_sz].as_slice());
    if b_sz == 0 {
        return Ok((nothing(stored_dtype(inp))?, shape));
    }
    let len: usize = stored_len(inp);
    assert(b_sz * n_classes > 0) by (nonlinear_arith)
        requires
            b_sz > 0,
            n_classes > 0,
    ;
    assert(b_sz * n_classes <= len);
    let x = from_backend(load(inp, inp_l))?;
    assert(tensor_values(x) =~= stretch(*inp, *inp_l));
    proof {
        lemma_count(b_sz, 1);
        assert(n_classes <= b_sz * n_classes) by (nonlinear_arith)
            requires
                b_sz > 0,
                n_classes > 0,
        ;
    }
    let p = softmax_tensors(&x, b_sz, n_classes)?;
    let column = from_backend(integers(signed(target, n_classes), vec![b_sz, 1]))?;
    let own = from_backend(gather(&p.wide, &column))?;
    let ghost labels = target@.map_values(|t: usize| t as int);
    proof {
        let c = n_classes as int;
        assert forall|i: int| 0 <= i < b_sz implies own_logit(
            precision_of(x),
            p.of_row(c, i),
            labels[i],
            #[trigger] tensor_values(own)[i],
        ) by {
            lemma_place(i, 0, b_sz as int, c);
            assert(tensor_values(column)[i] == target@[i]);
            assert(p.of_row(c, i).wide == row(tensor_values(p.wide), c, i));
        }
    }
    let losses = losses_column(&x, &p, &own, Ghost(labels), b_sz, n_classes)?;
    let out = from_backend(unload(&losses))?;
    Ok((out, shape))
}

/// The softmax of each row.
pub(crate) fn probabilities(x: &Tensor, p: &SoftmaxTensors, b: usize, c: usize) -> (r: Result<
    Tensor,
    LossError,
>)
    requires
        is_logits(*x, b, c),
        p.of_logits(*x, b, c),
    ensures
        tensor_on_cpu(*x) ==> r is Ok,
        r matches Err(e) ==> e is Backend,
        r matches Ok(o) ==> are_probabilities(*x, *p, o, b, c),
{
    proof {
        lemma_count(b, c);
    }
    let probs = from_backend(p.exps.broadcast_div(&p.total))?;
    proof {
        let t = precision_of(*x);
        assert forall|i: int, j: int| 0 <= i < b && 0 <= j < c implies is_quotient(
            t.wide,
            p.of_row(c as int, i).exps[j],
            p.of_row(c as int, i).total,
            #[trigger] row(tensor_values(probs), c as int, i)[j],
        ) by {
            lemma_row_spread(
                |x: int, y: int, z: int| is_quotient(t.wide, x, y, z),
                tensor_values(p.exps),
                tensor_values(p.total),
                tensor_values(probs),
                b,
                c,
                i,
            );
            lemma_place(i, j, b as int, c as int);
        }
    }
    Ok(probs)
}

/// Whether a matrix holds the softmax of each row.
pub(crate) open spec fn are_probabilities(
    x: Tensor,
    p: SoftmaxTensors,
    probs: Tensor,
    b: usize,
    c: usize,
) -> bool {
    &&& tensor_dims(probs) == seq![b, c]
    &&& tensor_dtype(probs) == precision_of(x).wide
    &&& tensor_on_cpu(probs) == tensor_on_cpu(x)
    &&& tensor_values(probs).len() == b * c
    &&& forall|i: int, j: int|
        0 <= i < b && 0 <= j < c ==> is_quotient(
            precision_of(x).wide,
            p.of_row(c as int, i).exps[j],
            p.of_row(c as int, i).total,
            #[trigger] row(tensor_values(probs), c as int, i)[j],
        )
}

/// Whether `slopes` is `probs` less one in each row at the column that the row's label names.
pub(crate) open spec fn are_slopes(
    wide: DType,
    probs: Seq<int>,
    labels: Seq<int>,
    c: int,
    slopes: Seq<int>,
) -> bool {
    &&& slopes.len() == probs.len()
    &&& forall|i: int, j: int|
        0 <= i < labels.len() && 0 <= j < c ==> if j == labels[i] {
            is_affine(wide, row(probs, c, i)[j], 1, -1, #[trigger] row(slopes, c, i)[j])
        } else {
            row(slopes, c, i)[j] == row(probs, c, i)[j]
        }
}

/// The gradient of each row, from the softmax less one at the labels and the gradients of the rows'
/// losses.
pub(crate) fn gradient_matrix(
    x: &Tensor,
    p: &SoftmaxTensors,
    probs: &Tensor,
    slopes: &Tensor,
    labels: Ghost<Seq<int>>,
    grad: &Tensor,
    b: usize,
    c: usize,
) -> (r: Result<Tensor, LossError>)
    requires
        is_logits(*x, b, c),
        p.of_logits(*x, b, c),
        are_probabilities(*x, *p, *probs, b, c),
        labels@.len() == b,
        formed_like(*slopes, *probs),
        are_slopes(
            precision_of(*x).wide,
            tensor_values(*probs),
            labels@,
            c as int,
            tensor_values(*slopes),
        ),
        tensor_dims(*grad) == seq![b],
        tensor_dtype(*grad) == tensor_dtype(*x),
        tensor_on_cpu(*grad) == tensor_on_cpu(*x),
        tensor_values(*grad).len() == b,
    ensures
        tensor_on_cpu(*x) ==> r is Ok,
        r matches Err(e) ==> e is Backend,
        r matches Ok(o) ==> formed_like(o, *x) && row_gradients_of(
            precision_of(*x),
            tensor_values(*x),
            c as int,
            labels@,
            tensor_values(*grad),
            tensor_values(o),
        ),
{
    proof {
        lemma_count(b, c);
        lemma_count(b, 1);
        assert(b * c > 0) by (nonlinear_arith)
            requires
                b > 0,
                c > 0,
        ;
        assert(seq![b].push(1) =~= seq![b, 1]);
    }
    let wide_grad = from_backend(convert(grad, wide_dtype(x)))?;
    let column = from_backend(as_column(&wide_grad))?;
    let product = from_backend(slopes.broadcast_mul(&column))?;
    let out = from_backend(convert(&product, dtype(x)))?;
    proof {
        let t = precision_of(*x);
        let (xs, gs, rs) = (tensor_values(*x), tensor_values(*grad), tensor_values(out));
        let (n, m) = (b as int, c as int);
        let conv = |x: int, y: int| converted(t.wide, t.dtype, x, y);
        assert(each1(conv, tensor_values(product), rs));
        assert forall|i: int| 0 <= i < b implies row_gradient(
            t,
            row(xs, m, i),
            labels@[i],
            gs[i],
            #[trigger] row(rs, m, i),
        ) by {
            let q = p.of_row(m, i);
            let g = tensor_values(column)[i];
            assert(softmax_of(t, row(xs, m, i), q));
            assert(converted(t.dtype, t.wide, gs[i], g)) by {
                if t.dtype != t.wide {
                    assert(is_conversion(t.dtype, t.wide, gs[i], tensor_values(wide_grad)[i]));
                }
            }
            lemma_row_spread(
                |x: int, y: int, z: int| is_product(t.wide, x, y, z),
                tensor_values(*slopes),
                tensor_values(column),
                tensor_values(product),
                b,
                c,
                i,
            );
            lemma_row_each1(conv, tensor_values(product), rs, n, m, i);
            let rr = row(rs, m, i);
            lemma_place(i, 0, n, m);
            assert(q.wide.len() == m);
            assert(rr.len() == row(xs, m, i).len());
            assert forall|j: int| 0 <= j < m implies gradient_element(
                t,
                q,
                j == labels@[i],
                j,
                g,
                #[trigger] rr[j],
            ) by {
                let s = row(tensor_values(*slopes), m, i)[j];
                let w = row(tensor_values(product), m, i)[j];
                assert(is_quotient(
                    t.wide,
                    q.exps[j],
                    q.total,
                    row(tensor_values(*probs), m, i)[j],
                ));
                assert(is_product(t.wide, s, g, w));
                assert(converted(t.wide, t.dtype, w, rr[j]));
            }
        }
    }
    Ok(out)
}

/// The softmax less one in each row at the column that a label names.
fn slopes_of(probs: &Tensor, target: &[usize], b: usize, c: usize) -> (r: Result<Tensor, LossError>)
    requires
        tensor_dims(*probs) == seq![b, c],
        tensor_dtype(*probs) == DType::F64,
        tensor_on_cpu(*probs),
        tensor_values(*probs).len() == b * c,
        target@.len() == b,
        0 < b * c <= usize::MAX,
    ensures
        r is Ok,
        r matches Ok(o) ==> formed_like(o, *probs) && are_slopes(
            DType::F64,
            tensor_values(*probs),
            target@.map_values(|t: usize| t as int),
            c as int,
            tensor_values(o),
        ),
{
    proof {
        lemma_count(b, c);
    }
    let reduced = from_backend(affine(probs, 1, -1))?;
    let mask = from_backend(integers(one_hot(target, c), vec![b, c]))?;
    let slopes = from_backend(mask.where_cond(&reduced, probs))?;
    proof {
        let labels = target@.map_values(|t: usize| t as int);
        let (n, m) = (b as int, c as int);
        let (ps, ss) = (tensor_values(*probs), tensor_values(slopes));
        assert forall|i: int, j: int| 0 <= i < labels.len() && 0 <= j < m implies if j
            == labels[i] {
            is_affine(DType::F64, row(ps, m, i)[j], 1, -1, #[trigger] row(ss, m, i)[j])
        } else {
            row(ss, m, i)[j] == row(ps, m, i)[j]
        } by {
            lemma_place(i, j, n, m);
            let k = i * m + j;
            assert(tensor_values(mask)[k] == if j == target@[i] {
                1int
            } else {
                0int
            });
            assert(is_affine(DType::F64, ps[k], 1, -1, tensor_values(reduced)[k]));
            assert(row(ss, m, i)[j] == ss[k]);
            assert(row(ps, m, i)[j] == ps[k]);
        }
    }
    Ok(slopes)
}

/// What is wrong with the layouts of the logits and of the gradient.
pub open spec fn gradient_fault(l: Layout, grad: Layout) -> Option<Fault> {
    if layout_dims(l).len() != 2 {
        Some(ErrorOf::InputRank { dims: layout_dims(l) })
    } else if layout_dims(grad) != seq![layout_dims(l)[0]] {
        Some(ErrorOf::GradShape { expected: layout_dims(l)[0], dims: layout_dims(grad) })
    } else if !reads_stretch(l) {
        Some(ErrorOf::InputStrided)
    } else if !reads_stretch(grad) {
        Some(ErrorOf::GradStrided)
    } else {
        None
    }
}

/// The gradient of each row of the logits that a storage holds under a layout.
pub fn cross_entropy_rows_cpu_bwd(
    inp: &CpuStorage,
    inp_l: &Layout,
    target: &[usize],
    grad_res: &CpuStorage,
    grad_res_l: &Layout,
) -> (r: Result<(CpuStorage, Shape), LossError>)
    requires
        storage_dtype(*inp).is_row_float(),
        storage_dtype(*grad_res) == storage_dtype(*inp),
        gradient_fault(*inp_l, *grad_res_l) is None ==> within(*inp, *inp_l) && within(
            *grad_res,
            *grad_res_l,
        ) && labels_rows(*inp_l, target@),
    ensures
        r matches Ok(p) ==> gradient_fault(*inp_l, *grad_res_l) is None && storage_dtype(p.0)
            == storage_dtype(*inp) && shape_dims(p.1) == layout_dims(*inp_l) && row_gradients_of(
            precision(true, storage_dtype(*inp)),
            stretch(*inp, *inp_l),
            layout_dims(*inp_l)[1] as int,
            target@.map_values(|t: usize| t as int),
            stretch(*grad_res, *grad_res_l),
            storage_values(p.0),
        ),
        r matches Err(e) ==> gradient_fault(*inp_l, *grad_res_l) == Some(e@),
{
    let dims = inp_l.dims();
    if dims.len() != 2 {
        return Err(ErrorOf::InputRank { dims: slice_to_vec(dims) });
    }
    let b_sz: usize = dims[0];
    let n_classes: usize = dims[1];
    let grad_dims = grad_res_l.dims();
    if grad_dims.len() != 1 || grad_dims[0] != b_sz {
        return Err(ErrorOf::GradShape { expected: b_sz, dims: slice_to_vec(grad_dims) });
    }
    assert(grad_dims@ =~= seq![b_sz]);
    if contiguous_offsets(inp_l).is_none() {
        return Err(ErrorOf::InputStrided);
    }
    if contiguous_offsets(grad_res_l).is_none() {
        return Err(ErrorOf::GradStrided);
    }
    proof {
        lemma_count(b_sz, n_classes);
        assert(dims@ =~= seq![b_sz, n_classes]);
    }
    let shape = Shape::from_dims(dims);
    if b_sz == 0 {
        assert(0 * n_classes == 0);
        return Ok((nothing(stored_dtype(inp))?, shape));
    }
    let len: usize = stored_len(inp);
    assert(b_sz * n_classes > 0) by (nonlinear_arith)
        requires
            b_sz > 0,
            n_classes > 0,
    ;
    assert(b_sz * n_classes <= len);
    let x = from_backend(load(inp, inp_l))?;
    let g = from_backend(load(grad_res, grad_res_l))?;
    assert(tensor_values(x) =~= stretch(*inp, *inp_l));
    assert(tensor_values(g) =~= stretch(*grad_res, *grad_res_l));
    let p = softmax_tensors(&x, b_sz, n_classes)?;
    let probs = probabilities(&x, &p, b_sz, n_classes)?;
    let slopes = slopes_of(&probs, target, b_sz, n_classes)?;
    let ghost labels = target@.map_values(|t: usize| t as int);
    let grads = gradient_matrix(&x, &p, &probs, &slopes, Ghost(labels), &g, b_sz, n_classes)?;
    let out = from_backend(unload(&grads))?;
    Ok((out, shape))
}

} // verus!
