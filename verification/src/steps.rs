//! The row losses and their gradients step by step, wherever the tensors lie.
//!
//! Here the backend keeps what it needs to differentiate each step. Labels are read by an
//! accelerator, which does not say whether one of them names no class: such a label is replaced
//! before it is used, and its row has a loss that is no number.

use crate::backend::{
    affine, as_column, convert, dtype, gather, integers, is_affine, is_quotient, move_to, scatter,
};
use crate::dtype::DType;
use crate::error::{from_backend, LossError};
use crate::label::lemma_place;
use crate::model::{
    both_on_cpu, carries, count, formed_like, is_proper, lemma_count, row, tensor_contiguous,
    tensor_dims, tensor_dtype, tensor_on_cpu, tensor_values,
};
use crate::rows::{
    are_slopes, converted, gradient_matrix, is_no_number, losses_column, own_logit, precision_of,
    probabilities, row_gradients_of, row_losses_of, softmax_tensors,
};
use candle_core::Tensor;
use vstd::prelude::*;

verus! {

/// Zero as often as it is asked for.
fn zeros(n: usize) -> (r: Vec<i64>)
    ensures
        r@.len() == n,
        forall|i: int| 0 <= i < n ==> #[trigger] r@[i] == 0,
{
    let mut r: Vec<i64> = Vec::new();
    while r.len() < n
        invariant
            r@.len() <= n,
            forall|i: int| 0 <= i < r@.len() ==> #[trigger] r@[i] == 0,
        decreases n - r@.len(),
    {
        r.push(0);
    }
    r
}

/// Labels with which the rows of a matrix can be read.
struct SafeLabels {
    /// 1 where the row's label names a class, and 0 elsewhere.
    mask: Tensor,
    /// The row's label, or 0 where it names no class.
    column: Tensor,
}

impl SafeLabels {
    /// Whether the labels stand for those of `b` rows with `c` columns.
    spec fn stand_for(&self, labels: Seq<int>, on_cpu: bool, b: usize, c: usize) -> bool {
        &&& tensor_dims(self.mask) == seq![b, 1]
        &&& tensor_dims(self.column) == seq![b, 1]
        &&& tensor_dtype(self.mask) == DType::U8
        &&& tensor_dtype(self.column) == DType::U32
        &&& tensor_on_cpu(self.mask) == on_cpu
        &&& tensor_on_cpu(self.column) == on_cpu
        &&& tensor_contiguous(self.column)
        &&& tensor_values(self.mask).len() == b
        &&& tensor_values(self.column).len() == b
        &&& forall|i: int|
            0 <= i < b ==> is_proper(DType::U32, #[trigger] tensor_values(self.column)[i], c as int)
        &&& forall|i: int|
            0 <= i < b && #[trigger] tensor_values(self.mask)[i] != 0 ==> tensor_values(
                self.column,
            )[i] == labels[i]
        &&& forall|i: int|
            0 <= i < b && #[trigger] tensor_values(self.mask)[i] == 0 ==> labels[i] >= c
                || labels[i] >= u32::MAX
    }
}

/// Whether a tensor holds a label for each of `b` rows.
spec fn is_target(target: Tensor, b: usize) -> bool {
    &&& tensor_dims(target) == seq![b]
    &&& tensor_dtype(target) == DType::U32
    &&& tensor_contiguous(target)
    &&& tensor_values(target).len() == b
}

/// Labels with which rows of `c` columns can be read.
fn safe_labels(target: &Tensor, b: usize, c: usize) -> (r: Result<SafeLabels, LossError>)
    requires
        is_target(*target, b),
        b > 0,
        c > 0,
    ensures
        tensor_on_cpu(*target) ==> r is Ok,
        r matches Err(e) ==> e is Backend,
        r matches Ok(s) ==> s.stand_for(tensor_values(*target), tensor_on_cpu(*target), b, c),
{
    let ghost none = Seq::<usize>::empty();
    proof {
        lemma_count(b, 1);
        assert(seq![b].push(1) =~= seq![b, 1]);
    }
    let bound: i64 = if c < u32::MAX as usize {
        c as i64
    } else {
        u32::MAX as i64
    };
    let dims: Vec<usize> = Vec::new();
    assert(dims@ =~= none);
    let wide_bound = from_backend(integers(vec![bound], dims))?;
    let near_bound = from_backend(convert(&wide_bound, DType::U32))?;
    let bound_there = from_backend(move_to(&near_bound, target))?;
    let wide_zeros = from_backend(integers(zeros(b), vec![b, 1]))?;
    let near_zeros = from_backend(convert(&wide_zeros, DType::U32))?;
    let zeros_there = from_backend(move_to(&near_zeros, target))?;
    // Labels of this type are not negative.
    let _ = dtype(target);
    let given = from_backend(as_column(target))?;
    let mask = from_backend(given.broadcast_lt(&bound_there))?;
    let column = from_backend(mask.where_cond(&given, &zeros_there))?;
    proof {
        assert(tensor_values(wide_bound)[0] == bound);
        assert(tensor_values(bound_there)[0] == bound);
        assert forall|i: int| 0 <= i < b implies #[trigger] tensor_values(zeros_there)[i] == 0 by {
            assert(tensor_values(wide_zeros)[i] == 0);
        }
        assert forall|i: int| 0 <= i < b implies (#[trigger] tensor_values(mask)[i] != 0
            <==> tensor_values(*target)[i] < bound) by {
            assert(tensor_values(given)[i] == tensor_values(*target)[i]);
        }
        assert forall|i: int| 0 <= i < b implies is_proper(
            DType::U32,
            #[trigger] tensor_values(column)[i],
            c as int,
        ) by {
            assert(tensor_values(mask)[i] != 0 <==> tensor_values(*target)[i] < bound);
            assert(tensor_values(zeros_there)[i] == 0);
        }
    }
    Ok(SafeLabels { mask, column })
}

/// A column that holds in each row what the backend gives for zero divided by zero.
fn no_numbers(b: usize, like: &Tensor) -> (r: Result<Tensor, LossError>)
    requires
        b > 0,
        tensor_dtype(*like) == DType::F32 || tensor_dtype(*like) == DType::F64,
    ensures
        tensor_on_cpu(*like) ==> r is Ok,
        r matches Err(e) ==> e is Backend,
        r matches Ok(o) ==> tensor_dims(o) == seq![b, 1] && tensor_dtype(o) == tensor_dtype(*like)
            && tensor_on_cpu(o) == tensor_on_cpu(*like) && tensor_values(o).len() == b
            && forall|i: int|
            0 <= i < b ==> is_no_number(tensor_dtype(*like), #[trigger] tensor_values(o)[i]),
{
    proof {
        lemma_count(b, 1);
    }
    let integer = from_backend(integers(zeros(b), vec![b, 1]))?;
    let zero = from_backend(convert(&integer, dtype(like)))?;
    let quotient = from_backend(zero.broadcast_div(&zero))?;
    let out = from_backend(move_to(&quotient, like))?;
    proof {
        let d = tensor_dtype(*like);
        assert forall|i: int| 0 <= i < b implies is_no_number(
            d,
            #[trigger] tensor_values(out)[i],
        ) by {
            let z = tensor_values(zero)[i];
            assert(tensor_values(integer)[i] == 0);
            assert(converted(DType::I64, d, 0, z));
            assert(i / 1 == i);
            assert(is_quotient(d, z, z, tensor_values(quotient)[i]));
        }
    }
    Ok(out)
}

/// Whether logits and labels can be computed with step by step. On the processor a single column is
/// left out, whose stride may be zero.
pub open spec fn steps_apply(inp: Tensor, target: Tensor) -> bool {
    &&& tensor_dims(inp).len() == 2
    &&& tensor_dims(inp)[0] > 0
    &&& tensor_dims(inp)[1] > 0
    &&& count(tensor_dims(inp)) <= usize::MAX
    &&& tensor_dims(target) == seq![tensor_dims(inp)[0]]
    &&& tensor_dtype(inp).is_row_float()
    &&& tensor_dtype(target) == DType::U32
    &&& tensor_contiguous(inp)
    &&& tensor_contiguous(target)
    &&& tensor_on_cpu(inp) ==> tensor_dims(inp)[1] > 1
}

/// Whether each of as many classes can be named by a label.
pub open spec fn labels_suffice(inp: Tensor) -> bool {
    tensor_dims(inp)[1] <= u32::MAX
}

/// The labels, or, where they cannot name each class, those that a mask lets through.
spec fn used_labels(inp: Tensor, labels: Seq<int>, mask: Seq<int>) -> Seq<int> {
    if labels_suffice(inp) {
        labels
    } else {
        Seq::new(
            labels.len(),
            |i: int|
                if mask[i] != 0 {
                    labels[i]
                } else {
                    -1
                },
        )
    }
}

/// The loss of each row of the logits. It is no number for a label that names no class.
pub fn step_losses(inp: &Tensor, target: &Tensor) -> (r: Result<Tensor, LossError>)
    requires
        steps_apply(*inp, *target),
    ensures
        tensor_on_cpu(*inp) != tensor_on_cpu(*target) ==> r is Err,
        both_on_cpu(*inp, *target) ==> r is Ok,
        r matches Err(e) ==> e is Backend,
        r matches Ok(o) ==> tensor_dims(o) == seq![tensor_dims(*inp)[0]] && tensor_dtype(o)
            == tensor_dtype(*inp) && tensor_on_cpu(o) == tensor_on_cpu(*inp) && carries(o, *inp)
            && (labels_suffice(*inp) ==> row_losses_of(
            precision_of(*inp),
            tensor_values(*inp),
            tensor_dims(*inp)[1] as int,
            tensor_values(*target),
            tensor_values(o),
        )),
{
    let dims = inp.dims();
    let b: usize = dims[0];
    let c: usize = dims[1];
    // There is a label for each row.
    let _ = target.dims();
    proof {
        assert(dims@ =~= seq![b, c]);
        lemma_count(b, c);
        lemma_count(b, 1);
        assert(b * c > 0) by (nonlinear_arith)
            requires
                b > 0,
                c > 0,
        ;
    }
    let labels = safe_labels(target, b, c)?;
    let p = softmax_tensors(inp, b, c)?;
    let picked = from_backend(gather(&p.wide, &labels.column))?;
    let none = no_numbers(b, &p.wide)?;
    let own = from_backend(labels.mask.where_cond(&picked, &none))?;
    let ghost used = used_labels(*inp, tensor_values(*target), tensor_values(labels.mask));
    proof {
        let t = precision_of(*inp);
        let m = c as int;
        assert forall|i: int| 0 <= i < b implies own_logit(
            t,
            p.of_row(m, i),
            used[i],
            #[trigger] tensor_values(own)[i],
        ) by {
            lemma_place(i, 0, b as int, m);
            assert(is_proper(DType::U32, tensor_values(labels.column)[i], m));
            assert(tensor_values(picked)[i] == row(
                tensor_values(p.wide),
                m,
                i,
            )[tensor_values(labels.column)[i]]);
            if tensor_values(labels.mask)[i] == 0 {
                assert(is_no_number(t.wide, tensor_values(none)[i]));
            }
        }
    }
    let column = losses_column(inp, &p, &own, Ghost(used), b, c)?;
    from_backend(column.flatten_all())
}

/// The gradient of the logits, where `grad` holds the gradients of the rows' losses. For a label
/// that names no class nothing is taken off the softmax.
pub fn step_gradients(inp: &Tensor, target: &Tensor, grad: &Tensor) -> (r: Result<
    Tensor,
    LossError,
>)
    requires
        steps_apply(*inp, *target),
        tensor_dims(*grad) == tensor_dims(*target),
        tensor_dtype(*grad) == tensor_dtype(*inp),
        tensor_on_cpu(*grad) == tensor_on_cpu(*inp),
    ensures
        tensor_on_cpu(*inp) != tensor_on_cpu(*target) ==> r is Err,
        both_on_cpu(*inp, *target) ==> r is Ok,
        r matches Err(e) ==> e is Backend,
        r matches Ok(o) ==> formed_like(o, *inp) && (labels_suffice(*inp) ==> row_gradients_of(
            precision_of(*inp),
            tensor_values(*inp),
            tensor_dims(*inp)[1] as int,
            tensor_values(*target),
            tensor_values(*grad),
            tensor_values(o),
        )),
{
    let dims = inp.dims();
    let b: usize = dims[0];
    let c: usize = dims[1];
    // There is a label and a gradient for each row.
    let _ = (target.dims(), grad.dims());
    proof {
        assert(dims@ =~= seq![b, c]);
        lemma_count(b, c);
        lemma_count(b, 1);
        assert(b * c > 0) by (nonlinear_arith)
            requires
                b > 0,
                c > 0,
        ;
    }
    let labels = safe_labels(target, b, c)?;
    let p = softmax_tensors(inp, b, c)?;
    let quotients = probabilities(inp, &p, b, c)?;
    let probs = from_backend(quotients.contiguous())?;
    let own = from_backend(gather(&probs, &labels.column))?;
    let reduced = from_backend(affine(&own, 1, -1))?;
    let source = from_backend(labels.mask.where_cond(&reduced, &own))?;
    let slopes = from_backend(scatter(&probs, &labels.column, &source))?;
    let ghost used = used_labels(*inp, tensor_values(*target), tensor_values(labels.mask));
    proof {
        let w = precision_of(*inp).wide;
        let (n, m) = (b as int, c as int);
        let (ps, ss) = (tensor_values(probs), tensor_values(slopes));
        assert forall|i: int, j: int| 0 <= i < used.len() && 0 <= j < m implies if j == used[i] {
            is_affine(w, row(ps, m, i)[j], 1, -1, #[trigger] row(ss, m, i)[j])
        } else {
            row(ss, m, i)[j] == row(ps, m, i)[j]
        } by {
            lemma_place(i, j, n, m);
            let k = i * m + j;
            let l = tensor_values(labels.column)[i];
            assert(is_proper(DType::U32, l, m));
            assert(tensor_values(own)[i] == row(ps, m, i)[l]);
            assert(is_affine(w, tensor_values(own)[i], 1, -1, tensor_values(reduced)[i]));
            assert(row(ss, m, i)[j] == ss[k]);
            assert(row(ps, m, i)[j] == ps[k]);
            if tensor_values(labels.mask)[i] == 0 {
                assert(used[i] < 0 || used[i] >= m);
                assert(tensor_values(source)[i] == row(ps, m, i)[l]);
            } else {
                assert(used[i] == l);
            }
        }
        assert(are_slopes(w, ps, used, m, ss));
    }
    gradient_matrix(inp, &p, &probs, &slopes, Ghost(used), grad, b, c)
}

} // verus!
