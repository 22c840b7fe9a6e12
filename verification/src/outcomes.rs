//! When a loss is computed, what form it has, and what is reported when it is not computed.

use crate::backend::{is_affine, is_mean};
use crate::dtype::DType;
use crate::error::{error_text, into_backend, ErrorOf, LossError};
use crate::label::{
    check_target_i64_index, check_target_index, labels_fault, lemma_labels_accepted, target_indices,
};
use crate::laws::law_first_bad_label;
use crate::loss::{
    are_both_integer, binary_cross_entropy_with_logit, checked_huber, checked_mse, checked_nll,
    cross_entropy, holds_integers, huber, mse, nll, nll_dims, picks, prepare, target_use,
    validate_cross_entropy_target_dtype, TargetUse,
};
use crate::model::{
    count, countable, layout_contiguous, layout_dims, layout_start, lemma_count,
    lemma_vector_countable, remembers, storage_dtype, storage_values, tensor_contiguous,
    tensor_dims, tensor_dtype, tensor_on_cpu, tensor_on_metal, tensor_values,
};
use crate::row_op::{
    backward, backward_pass, forward, forward_pass, gradient_pass, row_gradients, row_losses,
};
use crate::shape::{cross_entropy_dims, stretch};
use crate::sigmoid::{sigmoid, sigmoid_gradient, sigmoid_gradient_pass};
use crate::steps::{step_gradients, step_losses};
use crate::text::{bracketed, decimal, signed_decimal};
use candle_core::scalar::Scalar;
use candle_core::{CpuStorage, Error, Layout, Shape, Tensor};
use vstd::prelude::*;

verus! {

/// Whether a type is one of the floating-point types that the row losses compute with.
pub open spec fn is_float(d: DType) -> bool {
    d == DType::F64 || d == DType::F32 || d == DType::F16 || d == DType::BF16
}

/// Whether a type is one of those that labels may have.
pub open spec fn may_label(d: DType) -> bool {
    d == DType::U8 || d == DType::U32 || d == DType::I64
}

/// Whether a type is one that candle can store but not compute with.
pub open spec fn is_packed(d: DType) -> bool {
    d == DType::F6E2M3 || d == DType::F6E3M2 || d == DType::F4 || d == DType::F8E8M0
}

/// Whether logits are a matrix with columns, and the target a vector with a label for each row.
pub open spec fn dims_fit(inp: Seq<usize>, target: Seq<usize>) -> bool {
    inp.len() == 2 && target.len() == 1 && inp[0] == target[0] && inp[1] > 0
}

/// On the processor, the cross-entropy is computed if and only if the logits are a matrix of
/// floating-point numbers with columns, and the target a vector of `U8`, `U32` or `I64` that holds
/// for each row the number of a column.
pub proof fn law_cross_entropy_computed(
    inp: &Tensor,
    target: &Tensor,
    r: Result<Tensor, LossError>,
)
    requires
        tensor_on_cpu(*inp),
        tensor_on_cpu(*target),
        call_ensures(cross_entropy, (inp, target), r),
    ensures
        r is Ok <==> dims_fit(tensor_dims(*inp), tensor_dims(*target)) && may_label(
            tensor_dtype(*target),
        ) && is_float(tensor_dtype(*inp)) && forall|i: int|
            0 <= i < tensor_values(*target).len() ==> 0 <= #[trigger] tensor_values(*target)[i]
                < tensor_dims(*inp)[1],
{
    lemma_labels_accepted(tensor_values(*target), tensor_dims(*inp)[1]);
}

/// The cross-entropy of logits on one device under labels on another is not computed.
pub proof fn law_cross_entropy_in_one_place(
    inp: &Tensor,
    target: &Tensor,
    r: Result<Tensor, LossError>,
)
    requires
        tensor_on_cpu(*inp) != tensor_on_cpu(*target),
        call_ensures(cross_entropy, (inp, target), r),
    ensures
        r is Err,
{
}

/// On an accelerator, the cross-entropy is computed only of a matrix of floating-point numbers with
/// columns, not in double precision by way of Metal, under a vector of `U8` or `U32`.
pub proof fn law_cross_entropy_on_accelerator(
    inp: &Tensor,
    target: &Tensor,
    r: Result<Tensor, LossError>,
)
    requires
        !tensor_on_cpu(*inp),
        call_ensures(cross_entropy, (inp, target), r),
    ensures
        r is Ok ==> dims_fit(tensor_dims(*inp), tensor_dims(*target)) && (tensor_dtype(*target)
            == DType::U8 || tensor_dtype(*target) == DType::U32) && is_float(tensor_dtype(*inp))
            && !(tensor_on_metal(*inp) && tensor_dtype(*inp) == DType::F64),
{
}

/// What the cross-entropy reports of the form of its arguments: the first of their faults.
pub proof fn law_cross_entropy_reports_form(inp: &Tensor, target: &Tensor, e: LossError)
    requires
        call_ensures(cross_entropy, (inp, target), Err(e)),
    ensures
        tensor_dims(*inp).len() != 2 ==> e is NotMatrix,
        tensor_dims(*inp).len() == 2 && tensor_dims(*target).len() != 1 ==> (
        e matches ErrorOf::TargetRank { dims } && dims@ == tensor_dims(*target)),
        tensor_dims(*inp).len() == 2 && tensor_dims(*target).len() == 1 && tensor_dims(*inp)[0]
            != tensor_dims(*target)[0] ==> (e matches ErrorOf::BatchSize { inp: m, target: n } && m
            == tensor_dims(*inp)[0] && n == tensor_dims(*target)[0]),
        tensor_dims(*inp).len() == 2 && tensor_dims(*target).len() == 1 && tensor_dims(*inp)[0]
            == tensor_dims(*target)[0] && tensor_dims(*inp)[1] == 0 ==> e is NoClasses,
        dims_fit(tensor_dims(*inp), tensor_dims(*target)) && !may_label(tensor_dtype(*target)) ==> (
        e matches ErrorOf::LabelDType { dtype } && dtype == tensor_dtype(*target)),
        dims_fit(tensor_dims(*inp), tensor_dims(*target)) && may_label(tensor_dtype(*target)) ==> (
        e is Backend) || (e is AcceleratorI64 && !tensor_on_cpu(*target) && tensor_dtype(*target)
            == DType::I64),
        dims_fit(tensor_dims(*inp), tensor_dims(*target)) && tensor_dtype(*target) == DType::I64
            && !tensor_on_cpu(*target) && tensor_contiguous(*inp) && tensor_contiguous(*target)
            ==> e is AcceleratorI64,
{
}

/// What is said of a label that names none of `c` classes.
pub open spec fn label_text(label: int, c: usize) -> Seq<char> {
    if label < 0 {
        "target index "@ + signed_decimal(label) + " is negative"@
    } else if label > usize::MAX {
        "target index "@ + signed_decimal(label) + " cannot be cast to usize"@
    } else {
        "target index "@ + decimal(label as nat) + " is out of bounds for "@ + decimal(c as nat)
            + " classes"@
    }
}

/// On the processor, the cross-entropy reports the first label that names no class.
pub proof fn law_cross_entropy_reports_label(inp: &Tensor, target: &Tensor, e: LossError, i: int)
    requires
        tensor_on_cpu(*inp),
        tensor_on_cpu(*target),
        dims_fit(tensor_dims(*inp), tensor_dims(*target)),
        may_label(tensor_dtype(*target)),
        is_float(tensor_dtype(*inp)),
        0 <= i < tensor_values(*target).len(),
        i64::MIN <= tensor_values(*target)[i] <= i64::MAX,
        !(0 <= tensor_values(*target)[i] < tensor_dims(*inp)[1]),
        forall|j: int|
            0 <= j < i ==> 0 <= #[trigger] tensor_values(*target)[j] < tensor_dims(*inp)[1],
        call_ensures(cross_entropy, (inp, target), Err(e)),
    ensures
        e matches ErrorOf::Backend(b) && error_text(b) == label_text(
            tensor_values(*target)[i],
            tensor_dims(*inp)[1],
        ),
{
    law_first_bad_label(tensor_values(*target), tensor_dims(*inp)[1], i);
}

/// On the processor, the cross-entropy reports logits that are no floating-point numbers, where the
/// labels are right.
pub proof fn law_cross_entropy_reports_type(inp: &Tensor, target: &Tensor, e: LossError)
    requires
        tensor_on_cpu(*inp),
        tensor_on_cpu(*target),
        dims_fit(tensor_dims(*inp), tensor_dims(*target)),
        may_label(tensor_dtype(*target)),
        !is_float(tensor_dtype(*inp)),
        tensor_contiguous(*inp) || !is_packed(tensor_dtype(*inp)),
        forall|j: int|
            0 <= j < tensor_values(*target).len() ==> 0 <= #[trigger] tensor_values(*target)[j]
                < tensor_dims(*inp)[1],
        call_ensures(cross_entropy, (inp, target), Err(e)),
    ensures
        e matches ErrorOf::Backend(b) && error_text(b)
            == "unsupported input dtype for cross_entropy "@ + dtype_name(tensor_dtype(*inp)),
{
    lemma_labels_accepted(tensor_values(*target), tensor_dims(*inp)[1]);
}

/// A loss is a single number without dimensions, of the type of the logits and where they lie, and
/// leads back to them when it is differentiated.
pub proof fn law_cross_entropy_form(inp: &Tensor, target: &Tensor, o: Tensor)
    requires
        call_ensures(cross_entropy, (inp, target), Ok(o)),
    ensures
        tensor_dims(o).len() == 0,
        tensor_values(o).len() == 1,
        tensor_dtype(o) == tensor_dtype(*inp),
        tensor_on_cpu(o) == tensor_on_cpu(*inp),
        remembers(o, *inp),
        forall|x: Tensor| #[trigger] remembers(*inp, x) ==> remembers(o, x),
{
}

/// What the cross-entropy reads is what it was given: logits and labels are handed on with the same
/// elements, stored row by row, and labels of `U8` become `U32` on an accelerator.
pub proof fn law_prepare(inp: &Tensor, target: &Tensor, p: (Tensor, Tensor))
    requires
        call_ensures(prepare, (inp, target), Ok(p)),
    ensures
        dims_fit(tensor_dims(*inp), tensor_dims(*target)),
        may_label(tensor_dtype(*target)),
        !tensor_on_cpu(*target) ==> tensor_dtype(*target) != DType::I64,
        tensor_dims(p.0) == tensor_dims(*inp),
        tensor_dims(p.1) == tensor_dims(*target),
        tensor_values(p.0) == tensor_values(*inp),
        tensor_values(p.1) == tensor_values(*target),
        tensor_dtype(p.0) == tensor_dtype(*inp),
        tensor_dtype(p.1) == if !tensor_on_cpu(*target) && tensor_dtype(*target) == DType::U8 {
            DType::U32
        } else {
            tensor_dtype(*target)
        },
        tensor_on_cpu(p.0) == tensor_on_cpu(*inp),
        tensor_on_cpu(p.1) == tensor_on_cpu(*target),
        tensor_contiguous(p.0),
        tensor_contiguous(p.1),
        remembers(p.0, *inp),
        remembers(p.1, *target),
{
}

/// Labels are `U8`, `U32` or `I64`, and others are reported with their type.
pub proof fn law_label_types(target: &Tensor, r: Result<(), LossError>)
    requires
        call_ensures(validate_cross_entropy_target_dtype, (target,), r),
    ensures
        r is Ok <==> may_label(tensor_dtype(*target)),
        r matches Err(e) ==> (e matches ErrorOf::LabelDType { dtype } && dtype == tensor_dtype(
            *target,
        )),
{
}

/// The processor takes labels as they are; an accelerator takes `U32` as it is and `U8` widened,
/// and nothing else.
pub proof fn law_label_use(on_cpu: bool, dtype: DType, r: Result<TargetUse, LossError>)
    requires
        call_ensures(target_use, (on_cpu, dtype), r),
    ensures
        r is Ok <==> on_cpu || dtype == DType::U32 || dtype == DType::U8,
        r matches Ok(u) ==> (u is Widen <==> !on_cpu && dtype == DType::U8),
        r matches Err(e) ==> if dtype == DType::I64 {
            e is AcceleratorI64
        } else {
            e matches ErrorOf::AcceleratorLabelDType { dtype: d } && d == dtype
        },
{
}

/// A label is accepted if and only if it names one of the classes, and stays what it is.
pub proof fn law_label_index(idx: usize, c: usize, r: Result<usize, LossError>)
    requires
        call_ensures(check_target_index, (idx, c), r),
    ensures
        r is Ok <==> idx < c,
        r matches Ok(i) ==> i == idx,
        r matches Err(e) ==> (e matches ErrorOf::LabelOutOfBounds { label, n_classes } && label
            == idx && n_classes == c),
{
}

/// A signed label is accepted if and only if it names one of the classes, and stays what it is.
pub proof fn law_signed_label_index(idx: i64, c: usize, r: Result<usize, LossError>)
    requires
        call_ensures(check_target_i64_index, (idx, c), r),
    ensures
        r is Ok <==> 0 <= idx < c,
        r matches Ok(i) ==> i == idx,
        r matches Err(e) ==> if idx < 0 {
            e matches ErrorOf::LabelNegative { label } && label == idx
        } else if idx > usize::MAX {
            e matches ErrorOf::LabelTooLarge { label } && label == idx
        } else {
            e matches ErrorOf::LabelOutOfBounds { label, n_classes } && label == idx && n_classes
                == c
        },
{
}

/// On the processor, row losses are computed if and only if the logits are a matrix of
/// floating-point numbers with columns, the target a vector of `U8`, `U32` or `I64` that holds for
/// each row the number of a column, and both are stored row by row.
pub proof fn law_row_losses_computed(inp: &Tensor, target: &Tensor, r: Result<Tensor, LossError>)
    requires
        tensor_on_cpu(*inp),
        tensor_on_cpu(*target),
        call_ensures(row_losses, (inp, target), r),
    ensures
        r is Ok <==> dims_fit(tensor_dims(*inp), tensor_dims(*target)) && may_label(
            tensor_dtype(*target),
        ) && is_float(tensor_dtype(*inp)) && tensor_contiguous(*inp) && tensor_contiguous(*target)
            && forall|i: int|
            0 <= i < tensor_values(*target).len() ==> 0 <= #[trigger] tensor_values(*target)[i]
                < tensor_dims(*inp)[1],
        r matches Ok(o) ==> tensor_dims(o) == seq![tensor_dims(*inp)[0]] && tensor_dtype(o)
            == tensor_dtype(*inp) && tensor_on_cpu(o) && remembers(o, *inp),
{
    lemma_labels_accepted(tensor_values(*target), tensor_dims(*inp)[1]);
}

/// On the processor, row gradients are computed wherever row losses are, for a vector that holds a
/// number of the type of the logits for each row, and for nothing else.
pub proof fn law_row_gradients_computed(
    inp: &Tensor,
    target: &Tensor,
    grad: &Tensor,
    r: Result<Tensor, LossError>,
)
    requires
        tensor_on_cpu(*inp),
        tensor_on_cpu(*target),
        tensor_on_cpu(*grad),
        call_ensures(row_gradients, (inp, target, grad), r),
    ensures
        r is Ok <==> dims_fit(tensor_dims(*inp), tensor_dims(*target)) && may_label(
            tensor_dtype(*target),
        ) && is_float(tensor_dtype(*inp)) && tensor_contiguous(*inp) && tensor_contiguous(*target)
            && tensor_dims(*grad) == seq![tensor_dims(*inp)[0]] && tensor_dtype(*grad)
            == tensor_dtype(*inp) && forall|i: int|
            0 <= i < tensor_values(*target).len() ==> 0 <= #[trigger] tensor_values(*target)[i]
                < tensor_dims(*inp)[1],
        r matches Ok(o) ==> tensor_dims(o) == tensor_dims(*inp) && tensor_dtype(o) == tensor_dtype(
            *inp,
        ) && tensor_on_cpu(o),
{
    lemma_labels_accepted(tensor_values(*target), tensor_dims(*inp)[1]);
}

/// What the backend is handed on the processor when it asks for gradients: one of the logits
/// wherever row gradients are computed, and none of the labels.
pub proof fn law_backward_pass_computed(
    inp: &Tensor,
    target: &Tensor,
    res: &Tensor,
    grad: &Tensor,
    r: Result<Tensor, LossError>,
    q: Result<(Option<Tensor>, Option<Tensor>), Error>,
)
    requires
        tensor_on_cpu(*inp),
        tensor_on_cpu(*target),
        tensor_on_cpu(*grad),
        call_ensures(row_gradients, (inp, target, grad), r),
        call_ensures(backward_pass, (inp, target, res, grad), q),
    ensures
        q is Ok <==> r is Ok,
        q matches Ok(p) ==> p.0 is Some && p.1 is None,
{
}

/// What the negative log likelihood reports of the dimensions of its arguments: the first of their
/// faults.
pub proof fn law_nll_reports_form(inp: &Tensor, target: &Tensor, r: Result<Tensor, LossError>)
    requires
        call_ensures(nll, (inp, target), r),
    ensures
        r is Ok ==> tensor_dims(*inp).len() == 2 && tensor_dims(*target).len() == 1 && tensor_dims(
            *inp,
        )[0] == tensor_dims(*target)[0] && tensor_on_cpu(*inp) == tensor_on_cpu(*target),
        r matches Err(e) ==> if tensor_dims(*target).len() != 1 {
            e matches ErrorOf::TargetRank { dims } && dims@ == tensor_dims(*target)
        } else if tensor_dims(*inp).len() != 2 {
            e matches ErrorOf::ScoresRank { dims } && dims@ == tensor_dims(*inp)
        } else if tensor_dims(*inp)[0] != tensor_dims(*target)[0] {
            e matches ErrorOf::BatchSize { inp: m, target: n } && m == tensor_dims(*inp)[0] && n
                == tensor_dims(*target)[0]
        } else {
            e is Backend
        },
{
}

/// On the processor, the negative log likelihood is computed of log probabilities and labels of the
/// right dimensions that are stored row by row, where each label is `U8`, `U32` or `I64` and names
/// a column.
pub proof fn law_nll_computed(inp: &Tensor, target: &Tensor, r: Result<Tensor, LossError>)
    requires
        tensor_on_cpu(*inp),
        tensor_on_cpu(*target),
        tensor_dims(*inp).len() == 2,
        tensor_dims(*target).len() == 1,
        tensor_dims(*inp)[0] == tensor_dims(*target)[0],
        tensor_contiguous(*inp),
        tensor_contiguous(*target),
        may_label(tensor_dtype(*target)),
        !is_packed(tensor_dtype(*inp)),
        !is_integer(tensor_dtype(*inp)),
        forall|i: int|
            0 <= i < tensor_dims(*inp)[0] ==> 0 <= #[trigger] tensor_values(*target)[i]
                < tensor_dims(*inp)[1],
        call_ensures(nll, (inp, target), r),
    ensures
        r is Ok,
{
}

/// On the processor, the negative log likelihood is not computed of what is not stored row by row,
/// under labels of another type than `U8`, `U32` and `I64`, or under one that is neither the number
/// of a column nor negative nor the largest number of its type.
pub proof fn law_nll_not_computed(inp: &Tensor, target: &Tensor, r: Result<Tensor, LossError>)
    requires
        tensor_on_cpu(*inp),
        tensor_on_cpu(*target),
        tensor_dims(*inp).len() == 2,
        call_ensures(nll, (inp, target), r),
        !tensor_contiguous(*inp) || !tensor_contiguous(*target) || !may_label(tensor_dtype(*target))
            || exists|i: int|
            0 <= i < tensor_dims(*inp)[0] && tensor_dims(*inp)[1]
                <= #[trigger] tensor_values(*target)[i] <= usize::MAX && tensor_values(*target)[i]
                != (if tensor_dtype(*target) == DType::U8 {
                255int
            } else if tensor_dtype(*target) == DType::U32 {
                0xffff_ffff
            } else {
                0x7fff_ffff_ffff_ffff
            }),
    ensures
        r is Err,
{
}

/// On a processor of 64 bits, the negative log likelihood is not computed under a negative label.
pub proof fn law_nll_not_computed_of_negative_label(
    inp: &Tensor,
    target: &Tensor,
    r: Result<Tensor, LossError>,
    i: int,
)
    requires
        usize::MAX == u64::MAX,
        tensor_on_cpu(*inp),
        tensor_on_cpu(*target),
        tensor_dims(*inp).len() == 2,
        tensor_dims(*inp)[1] <= i64::MAX,
        0 <= i < tensor_dims(*inp)[0],
        i64::MIN <= tensor_values(*target)[i] < 0,
        call_ensures(nll, (inp, target), r),
    ensures
        r is Err,
{
    let label = tensor_values(*target)[i] as i64;
    assert(label as u64 >= 0x8000_0000_0000_0000) by (bit_vector)
        requires
            label < 0,
    ;
    assert(label as usize == label as u64);
}

/// The negative log likelihood is a single number without dimensions, of the type of the log
/// probabilities and where they lie, and leads back to them when it is differentiated.
pub proof fn law_nll_form(inp: &Tensor, target: &Tensor, o: Tensor)
    requires
        call_ensures(nll, (inp, target), Ok(o)),
    ensures
        tensor_dims(o).len() == 0,
        tensor_values(o).len() == 1,
        tensor_dtype(o) == tensor_dtype(*inp),
        tensor_on_cpu(o) == tensor_on_cpu(*inp),
        remembers(o, *inp),
        forall|x: Tensor| #[trigger] remembers(*inp, x) ==> remembers(o, x),
{
}

/// The negative log likelihood of no labels is, on the processor, the negated mean of nothing.
pub proof fn law_nll_of_nothing(inp: &Tensor, target: &Tensor, o: Tensor)
    requires
        tensor_on_cpu(*inp),
        tensor_dims(*inp)[0] == 0,
        call_ensures(nll, (inp, target), Ok(o)),
    ensures
        exists|m: int|
            is_mean(tensor_dtype(*inp), Seq::<int>::empty(), m) && #[trigger] is_affine(
                tensor_dtype(*inp),
                m,
                -1,
                0,
                tensor_values(o)[0],
            ),
{
    assert(picks(*inp, *target) =~= Seq::<int>::empty());
}

/// Whether two tensors can be computed with element by element on the processor.
pub open spec fn elements_fit(inp: Tensor, target: Tensor) -> bool {
    &&& tensor_dims(inp) == tensor_dims(target)
    &&& count(tensor_dims(inp)) == 0 || tensor_dtype(inp) == tensor_dtype(target)
    &&& !is_packed(tensor_dtype(inp))
    &&& count(tensor_dims(inp)) == 0 || tensor_dims(inp).len() <= 8 || countable(tensor_dims(inp))
}

/// On the processor, the mean squared error is computed if and only if both tensors have the same
/// dimensions and, unless there are no elements, the same type, with which the backend computes.
/// Elsewhere tensors of other dimensions or other types are refused too.
pub proof fn law_mse_computed(inp: &Tensor, target: &Tensor, r: Result<Tensor, LossError>)
    requires
        call_ensures(mse, (inp, target), r),
    ensures
        tensor_on_cpu(*inp) && tensor_on_cpu(*target) ==> (r is Ok <==> elements_fit(
            *inp,
            *target,
        )),
        r is Ok ==> tensor_dims(*inp) == tensor_dims(*target),
        r is Ok && count(tensor_dims(*inp)) > 0 ==> tensor_dtype(*inp) == tensor_dtype(*target)
            && tensor_on_cpu(*inp) == tensor_on_cpu(*target),
{
}

/// On the processor, the Huber loss is computed if and only if both tensors have the same
/// dimensions and, unless there are no elements, the same type, with which the backend computes.
/// Tensors of other dimensions are reported with them, wherever they lie.
pub proof fn law_huber_computed(
    inp: &Tensor,
    target: &Tensor,
    delta: Scalar,
    r: Result<Tensor, LossError>,
)
    requires
        call_ensures(huber, (inp, target, delta), r),
    ensures
        tensor_on_cpu(*inp) && tensor_on_cpu(*target) ==> (r is Ok <==> elements_fit(
            *inp,
            *target,
        )),
        r is Ok ==> tensor_dims(*inp) == tensor_dims(*target),
        r is Ok && count(tensor_dims(*inp)) > 0 ==> tensor_dtype(*inp) == tensor_dtype(*target)
            && tensor_on_cpu(*inp) == tensor_on_cpu(*target),
        tensor_dims(*inp) != tensor_dims(*target) ==> (r matches Err(e) && (
        e matches ErrorOf::ShapeMismatch { inp: m, target: n } && m@ == tensor_dims(*inp) && n@
            == tensor_dims(*target))),
{
}

/// On the processor, the binary cross-entropy is computed if and only if the logits are
/// floating-point numbers and the labels have the same dimensions and, unless there are no
/// elements, are `U32` or of the type of the logits.
pub proof fn law_binary_cross_entropy_computed(
    inp: &Tensor,
    target: &Tensor,
    r: Result<Tensor, LossError>,
)
    requires
        call_ensures(binary_cross_entropy_with_logit, (inp, target), r),
    ensures
        tensor_on_cpu(*inp) && tensor_on_cpu(*target) ==> (r is Ok <==> is_float(
            tensor_dtype(*inp),
        ) && tensor_dims(*inp) == tensor_dims(*target) && !is_packed(tensor_dtype(*target)) && (
        count(tensor_dims(*inp)) == 0 || ((tensor_dtype(*target) == DType::U32 || tensor_dtype(
            *target,
        ) == tensor_dtype(*inp)) && (tensor_dims(*inp).len() <= 8 || countable(
            tensor_dims(*inp),
        ))))),
        r is Ok ==> tensor_dims(*inp) == tensor_dims(*target),
        r is Ok && count(tensor_dims(*inp)) > 0 ==> (tensor_dtype(*target) == DType::U32
            || tensor_dtype(*target) == tensor_dtype(*inp)) && tensor_on_cpu(*inp) == tensor_on_cpu(
            *target,
        ),
        tensor_on_cpu(*inp) && !is_float(tensor_dtype(*inp)) ==> (r matches Err(e) && (
        e matches ErrorOf::SigmoidDType { dtype } && dtype == tensor_dtype(*inp))),
{
}

/// The mean squared error is a single number without dimensions, of the type of the input and where
/// it lies, and leads back to it and, where there are elements, to the target.
pub proof fn law_mse_form(inp: &Tensor, target: &Tensor, o: Tensor)
    requires
        call_ensures(mse, (inp, target), Ok(o)),
    ensures
        tensor_dims(o).len() == 0,
        tensor_values(o).len() == 1,
        tensor_dtype(o) == tensor_dtype(*inp),
        tensor_on_cpu(o) == tensor_on_cpu(*inp),
        remembers(o, *inp),
        forall|x: Tensor| #[trigger] remembers(*inp, x) ==> remembers(o, x),
        count(tensor_dims(*inp)) > 0 ==> remembers(o, *target) && forall|x: Tensor| #[trigger]
            remembers(*target, x) ==> remembers(o, x),
{
}

/// The Huber loss is a single number without dimensions, of the type of the input and where it
/// lies, and leads back to it and, where there are elements, to the target.
pub proof fn law_huber_form(inp: &Tensor, target: &Tensor, delta: Scalar, o: Tensor)
    requires
        call_ensures(huber, (inp, target, delta), Ok(o)),
    ensures
        tensor_dims(o).len() == 0,
        tensor_values(o).len() == 1,
        tensor_dtype(o) == tensor_dtype(*inp),
        tensor_on_cpu(o) == tensor_on_cpu(*inp),
        remembers(o, *inp),
        forall|x: Tensor| #[trigger] remembers(*inp, x) ==> remembers(o, x),
        count(tensor_dims(*inp)) > 0 ==> remembers(o, *target) && forall|x: Tensor| #[trigger]
            remembers(*target, x) ==> remembers(o, x),
{
}

/// The binary cross-entropy is a single number without dimensions. It has the type of the labels,
/// or that of the logits where the labels are `U32`, lies where the labels lie, and leads back to
/// them and, where there are elements, to the logits.
pub proof fn law_binary_cross_entropy_form(inp: &Tensor, target: &Tensor, o: Tensor)
    requires
        call_ensures(binary_cross_entropy_with_logit, (inp, target), Ok(o)),
    ensures
        tensor_dims(o).len() == 0,
        tensor_values(o).len() == 1,
        tensor_dtype(o) == if tensor_dtype(*target) == DType::U32 {
            tensor_dtype(*inp)
        } else {
            tensor_dtype(*target)
        },
        tensor_on_cpu(o) == tensor_on_cpu(*target),
        remembers(o, *target),
        forall|x: Tensor| #[trigger] remembers(*target, x) ==> remembers(o, x),
        count(tensor_dims(*target)) > 0 ==> remembers(o, *inp) && forall|x: Tensor| #[trigger]
            remembers(*inp, x) ==> remembers(o, x),
{
}

/// The mean squared error of tensors without elements is the mean of nothing.
pub proof fn law_mse_of_nothing(inp: &Tensor, target: &Tensor, o: Tensor)
    requires
        tensor_values(*inp).len() == 0,
        call_ensures(mse, (inp, target), Ok(o)),
    ensures
        is_mean(tensor_dtype(*inp), Seq::<int>::empty(), tensor_values(o)[0]),
{
    let squares = choose|squares: Seq<int>|
        squares.len() == 0 && #[trigger] is_mean(
            tensor_dtype(*inp),
            squares,
            tensor_values(o)[0],
        );
    assert(squares =~= Seq::<int>::empty());
}

/// The Huber loss of tensors without elements is the mean of nothing.
pub proof fn law_huber_of_nothing(inp: &Tensor, target: &Tensor, delta: Scalar, o: Tensor)
    requires
        tensor_values(*inp).len() == 0,
        call_ensures(huber, (inp, target, delta), Ok(o)),
    ensures
        is_mean(tensor_dtype(*inp), Seq::<int>::empty(), tensor_values(o)[0]),
{
    let losses = choose|losses: Seq<int>|
        losses.len() == 0 && #[trigger] is_mean(tensor_dtype(*inp), losses, tensor_values(o)[0]);
    assert(losses =~= Seq::<int>::empty());
}

/// The binary cross-entropy of tensors without elements is the mean of nothing.
pub proof fn law_binary_cross_entropy_of_nothing(inp: &Tensor, target: &Tensor, o: Tensor)
    requires
        tensor_values(*inp).len() == 0,
        call_ensures(binary_cross_entropy_with_logit, (inp, target), Ok(o)),
    ensures
        is_mean(tensor_dtype(o), Seq::<int>::empty(), tensor_values(o)[0]),
{
    let losses = choose|losses: Seq<int>|
        losses.len() == 0 && #[trigger] is_mean(tensor_dtype(o), losses, tensor_values(o)[0]);
    assert(losses =~= Seq::<int>::empty());
}

/// The cross-entropy of no rows is the mean of nothing.
pub proof fn law_cross_entropy_of_nothing(inp: &Tensor, target: &Tensor, o: Tensor)
    requires
        tensor_on_cpu(*inp) || tensor_dims(*inp)[1] <= 0xffff_ffff,
        tensor_values(*target).len() == 0,
        call_ensures(cross_entropy, (inp, target), Ok(o)),
    ensures
        is_mean(tensor_dtype(*inp), Seq::<int>::empty(), tensor_values(o)[0]),
{
    let losses = choose|losses: Seq<int>|
        losses.len() == 0 && #[trigger] is_mean(tensor_dtype(*inp), losses, tensor_values(o)[0]);
    assert(losses =~= Seq::<int>::empty());
}

/// The dimensions of logits and target are accepted if and only if they fit, and handed on; of
/// others the first fault is reported.
pub proof fn law_cross_entropy_dims(
    inp: &Layout,
    target: &Layout,
    r: Result<(usize, usize), LossError>,
)
    requires
        call_ensures(cross_entropy_dims, (inp, target), r),
    ensures
        r is Ok <==> dims_fit(layout_dims(*inp), layout_dims(*target)),
        r matches Ok(p) ==> p.0 == layout_dims(*inp)[0] && p.1 == layout_dims(*inp)[1],
        r matches Err(e) ==> if layout_dims(*target).len() != 1 {
            e matches ErrorOf::TargetRank { dims } && dims@ == layout_dims(*target)
        } else if layout_dims(*inp).len() != 2 {
            e matches ErrorOf::InputRank { dims } && dims@ == layout_dims(*inp)
        } else if layout_dims(*inp)[0] != layout_dims(*target)[0] {
            e matches ErrorOf::BatchSize { inp: m, target: n } && m == layout_dims(*inp)[0] && n
                == layout_dims(*target)[0]
        } else {
            e is NoClasses
        },
{
}

/// Whether a layout of `b` elements in one dimension reads a storage element after element, inside
/// the storage.
pub open spec fn reads_vector(s: CpuStorage, l: Layout, b: usize) -> bool {
    &&& layout_dims(l) == seq![b]
    &&& layout_contiguous(l)
    &&& layout_start(l) + b <= storage_values(s).len()
    &&& storage_values(s).len() <= isize::MAX
}

/// Labels that a storage holds element after element are accepted if and only if they are `U8`,
/// `U32` or `I64` and each names a class; they stay what they are and in order.
pub proof fn law_target_indices(
    s: &CpuStorage,
    l: &Layout,
    b: usize,
    c: usize,
    r: Result<Vec<usize>, LossError>,
)
    requires
        reads_vector(*s, *l, b),
        call_ensures(target_indices, (s, l, b, c), r),
    ensures
        r is Ok <==> may_label(storage_dtype(*s)) && forall|i: int|
            0 <= i < b ==> 0 <= #[trigger] storage_values(*s)[layout_start(*l) + i] < c,
        r matches Ok(v) ==> v@.len() == b && forall|i: int|
            0 <= i < b ==> #[trigger] v@[i] == storage_values(*s)[layout_start(*l) + i],
        r matches Err(e) ==> !may_label(storage_dtype(*s)) ==> (
        e matches ErrorOf::TargetStorage { dtype } && dtype == storage_dtype(*s)),
{
    let all = stretch(*s, *l);
    lemma_count(b, 0);
    lemma_vector_countable(seq![b]);
    lemma_labels_accepted(all, c);
    if r is Ok {
        let v = r->Ok_0;
        assert forall|i: int| 0 <= i < b implies #[trigger] v@[i] == storage_values(
            *s,
        )[layout_start(*l) + i] by {
            assert(v@.map_values(|x: usize| x as int)[i] == all[i]);
        }
        assert forall|i: int| 0 <= i < b implies 0 <= #[trigger] storage_values(*s)[layout_start(
            *l,
        ) + i] < c by {
            assert(v@[i] == storage_values(*s)[layout_start(*l) + i]);
        }
    }
    if may_label(storage_dtype(*s)) && forall|i: int|
        0 <= i < b ==> 0 <= #[trigger] storage_values(*s)[layout_start(*l) + i] < c {
        assert forall|i: int| 0 <= i < all.len() implies 0 <= #[trigger] all[i] < c by {
            assert(0 <= storage_values(*s)[layout_start(*l) + i] < c);
        }
    }
}

/// On the processor, the logistic function is computed of floating-point numbers and reported for
/// other types.
pub proof fn law_sigmoid_computed(t: &Tensor, r: Result<Tensor, LossError>)
    requires
        tensor_on_cpu(*t),
        call_ensures(sigmoid, (t,), r),
    ensures
        r is Ok <==> is_float(tensor_dtype(*t)),
        r matches Ok(o) ==> tensor_dims(o) == tensor_dims(*t) && tensor_dtype(o) == tensor_dtype(*t)
            && tensor_on_cpu(o) && remembers(o, *t),
        r matches Err(e) ==> (e matches ErrorOf::SigmoidDType { dtype } && dtype == tensor_dtype(
            *t,
        )),
{
}

/// Integers are left out by the losses that check for them, and these give for all else what the
/// others give.
pub proof fn law_checked_losses(
    inp: &Tensor,
    target: &Tensor,
    delta: Scalar,
    n: Option<Result<Tensor, LossError>>,
    m: Option<Result<Tensor, LossError>>,
    h: Option<Result<Tensor, LossError>>,
)
    requires
        call_ensures(checked_nll, (inp, target), n),
        call_ensures(checked_mse, (inp, target), m),
        call_ensures(checked_huber, (inp, target, delta), h),
    ensures
        n is None <==> tensor_dims(*target).len() == 1 && tensor_dims(*inp).len() == 2
            && tensor_dims(*inp)[0] == tensor_dims(*target)[0] && tensor_on_cpu(*inp) && is_integer(
            tensor_dtype(*inp),
        ),
        m is None <==> tensor_on_cpu(*inp) && tensor_on_cpu(*target) && is_integer(
            tensor_dtype(*inp),
        ) && tensor_dtype(*inp) == tensor_dtype(*target),
        h is None <==> tensor_on_cpu(*inp) && tensor_on_cpu(*target) && is_integer(
            tensor_dtype(*inp),
        ) && tensor_dtype(*inp) == tensor_dtype(*target),
        n matches Some(r) ==> call_ensures(nll, (inp, target), r),
        m matches Some(r) ==> call_ensures(mse, (inp, target), r),
        h matches Some(r) ==> call_ensures(huber, (inp, target, delta), r),
{
}

/// Whether a type is one of the integer types.
pub open spec fn is_integer(d: DType) -> bool {
    d == DType::U8 || d == DType::U32 || d == DType::I16 || d == DType::I32 || d == DType::I64
}

/// What is said of dimensions and numbers of rows that do not fit.
pub proof fn law_messages_on_dimensions(e: LossError, x: Error)
    requires
        call_ensures(into_backend, (e,), x),
    ensures
        e matches ErrorOf::TargetRank { dims } ==> error_text(x)
            == "the target tensor should have a single dimension ("@ + bracketed(dims@) + ")"@,
        e matches ErrorOf::ScoresRank { dims } ==> error_text(x)
            == "the target tensor should have two dimensions ("@ + bracketed(dims@) + ")"@,
        e matches ErrorOf::InputRank { dims } ==> error_text(x)
            == "the input tensor should have two dimensions ("@ + bracketed(dims@) + ")"@,
        e is NotMatrix ==> error_text(x) == "cross_entropy expects an input tensor of rank 2"@,
        e matches ErrorOf::BatchSize { inp, target } ==> error_text(x)
            == "batch size mismatch between inp ("@ + decimal(inp as nat) + ") and target ("@
            + decimal(target as nat) + ")"@,
        e is NoClasses ==> error_text(x) == "cross_entropy expects at least one class"@,
        e matches ErrorOf::GradShape { expected, dims } ==> error_text(x)
            == "grad_res should have shape ["@ + decimal(expected as nat) + "], got "@ + bracketed(
            dims@,
        ),
        e matches ErrorOf::ShapeMismatch { inp, target } ==> error_text(x)
            == "input and target must have the same shape, got inp: "@ + bracketed(inp@)
            + ", target: "@ + bracketed(target@),
{
}

/// What is said of labels and of types.
pub proof fn law_messages_on_labels_and_types(e: LossError, x: Error)
    requires
        call_ensures(into_backend, (e,), x),
    ensures
        e matches ErrorOf::LabelOutOfBounds { label, n_classes } ==> error_text(x)
            == "target index "@ + decimal(label as nat) + " is out of bounds for "@ + decimal(
            n_classes as nat,
        ) + " classes"@,
        e matches ErrorOf::LabelNegative { label } ==> error_text(x) == "target index "@
            + signed_decimal(label as int) + " is negative"@,
        e matches ErrorOf::LabelTooLarge { label } ==> error_text(x) == "target index "@
            + signed_decimal(label as int) + " cannot be cast to usize"@,
        e matches ErrorOf::LabelDType { dtype } ==> error_text(x)
            == "cross_entropy target dtype must be U8, U32, or I64, got "@ + dtype_name(dtype),
        e is AcceleratorI64 ==> error_text(x)
            == "cross_entropy target dtype I64 is not supported on CUDA/Metal; "@
            + "use U32 or U8 targets"@,
        e matches ErrorOf::InputDType { dtype } ==> error_text(x)
            == "unsupported input dtype for cross_entropy "@ + dtype_name(dtype),
        e matches ErrorOf::TargetStorage { dtype } ==> error_text(x)
            == "unsupported target dtype for cross_entropy "@ + dtype_name(dtype),
        e matches ErrorOf::BackwardDType { inp, grad } ==> error_text(x)
            == "unsupported dtype for cross_entropy backward "@ + dtype_name(inp) + " "@
            + dtype_name(grad),
        e matches ErrorOf::Backend(b) ==> error_text(x) == error_text(b),
{
    let whole =
        "cross_entropy target dtype I64 is not supported on CUDA/Metal; use U32 or U8 targets";
    reveal_strlit(
        "cross_entropy target dtype I64 is not supported on CUDA/Metal; use U32 or U8 targets",
    );
    reveal_strlit("cross_entropy target dtype I64 is not supported on CUDA/Metal; ");
    reveal_strlit("use U32 or U8 targets");
    assert(whole@ =~= "cross_entropy target dtype I64 is not supported on CUDA/Metal; "@
        + "use U32 or U8 targets"@);
}

/// The name of a type.
pub open spec fn dtype_name(d: DType) -> Seq<char> {
    match d {
        DType::U8 => "U8"@,
        DType::U32 => "U32"@,
        DType::I16 => "I16"@,
        DType::I32 => "I32"@,
        DType::I64 => "I64"@,
        DType::BF16 => "BF16"@,
        DType::F16 => "F16"@,
        DType::F32 => "F32"@,
        DType::F64 => "F64"@,
        DType::F8E4M3 => "F8E4M3"@,
        DType::F6E2M3 => "F6E2M3"@,
        DType::F6E3M2 => "F6E3M2"@,
        DType::F4 => "F4"@,
        DType::F8E8M0 => "F8E8M0"@,
    }
}

/// What is said of dimensions of logits and target that do not fit.
pub open spec fn dims_text(inp: Seq<usize>, target: Seq<usize>) -> Seq<char> {
    if target.len() != 1 {
        "the target tensor should have a single dimension ("@ + bracketed(target) + ")"@
    } else if inp.len() != 2 {
        "the input tensor should have two dimensions ("@ + bracketed(inp) + ")"@
    } else if inp[0] != target[0] {
        "batch size mismatch between inp ("@ + decimal(inp[0] as nat) + ") and target ("@ + decimal(
            target[0] as nat,
        ) + ")"@
    } else {
        "cross_entropy expects at least one class"@
    }
}

/// Whether an error is one of the backend that carries a text.
pub open spec fn carries_text(e: LossError, text: Seq<char>) -> bool {
    e matches ErrorOf::Backend(b) && error_text(b) == text
}

/// What row losses report on the processor: the first fault among the dimensions, the storage and
/// the type of the target, the labels, and the type and the storage of the logits.
pub proof fn law_row_losses_report(inp: &Tensor, target: &Tensor, e: LossError)
    requires
        tensor_on_cpu(*inp),
        tensor_on_cpu(*target),
        call_ensures(row_losses, (inp, target), Err(e)),
    ensures
        !dims_fit(tensor_dims(*inp), tensor_dims(*target)) ==> carries_text(
            e,
            dims_text(tensor_dims(*inp), tensor_dims(*target)),
        ),
        dims_fit(tensor_dims(*inp), tensor_dims(*target)) && !tensor_contiguous(*target)
            ==> carries_text(e, "target has to be contiguous"@),
        dims_fit(tensor_dims(*inp), tensor_dims(*target)) && tensor_contiguous(*target)
            && !may_label(tensor_dtype(*target)) ==> carries_text(
            e,
            "unsupported target dtype for cross_entropy "@ + dtype_name(tensor_dtype(*target)),
        ),
        dims_fit(tensor_dims(*inp), tensor_dims(*target)) && tensor_contiguous(*target)
            && may_label(tensor_dtype(*target)) && (forall|i: int|
            0 <= i < tensor_values(*target).len() ==> 0 <= #[trigger] tensor_values(*target)[i]
                < tensor_dims(*inp)[1]) ==> carries_text(
            e,
            if !is_float(tensor_dtype(*inp)) {
                "unsupported input dtype for cross_entropy "@ + dtype_name(tensor_dtype(*inp))
            } else {
                "input has to be contiguous"@
            },
        ),
{
    lemma_labels_accepted(tensor_values(*target), tensor_dims(*inp)[1]);
}

/// What row gradients report on the processor: the first fault among the dimensions, the storage
/// and the type of the target, the labels, the types, the dimensions of the gradient, and the
/// storage of the logits.
pub proof fn law_row_gradients_report(inp: &Tensor, target: &Tensor, grad: &Tensor, e: LossError)
    requires
        tensor_on_cpu(*inp),
        tensor_on_cpu(*target),
        tensor_on_cpu(*grad),
        tensor_contiguous(*grad) || !is_packed(tensor_dtype(*grad)),
        call_ensures(row_gradients, (inp, target, grad), Err(e)),
    ensures
        !dims_fit(tensor_dims(*inp), tensor_dims(*target)) ==> carries_text(
            e,
            dims_text(tensor_dims(*inp), tensor_dims(*target)),
        ),
        dims_fit(tensor_dims(*inp), tensor_dims(*target)) && !tensor_contiguous(*target)
            ==> carries_text(e, "target has to be contiguous"@),
        dims_fit(tensor_dims(*inp), tensor_dims(*target)) && tensor_contiguous(*target)
            && !may_label(tensor_dtype(*target)) ==> carries_text(
            e,
            "unsupported target dtype for cross_entropy "@ + dtype_name(tensor_dtype(*target)),
        ),
        dims_fit(tensor_dims(*inp), tensor_dims(*target)) && tensor_contiguous(*target)
            && may_label(tensor_dtype(*target)) && (forall|i: int|
            0 <= i < tensor_values(*target).len() ==> 0 <= #[trigger] tensor_values(*target)[i]
                < tensor_dims(*inp)[1]) ==> carries_text(
            e,
            if !is_float(tensor_dtype(*inp)) || tensor_dtype(*grad) != tensor_dtype(*inp) {
                "unsupported dtype for cross_entropy backward "@ + dtype_name(tensor_dtype(*inp))
                    + " "@ + dtype_name(tensor_dtype(*grad))
            } else if tensor_dims(*grad) != seq![tensor_dims(*inp)[0]] {
                "grad_res should have shape ["@ + decimal(tensor_dims(*inp)[0] as nat) + "], got "@
                    + bracketed(tensor_dims(*grad))
            } else {
                "input has to be contiguous"@
            },
        ),
{
    lemma_labels_accepted(tensor_values(*target), tensor_dims(*inp)[1]);
}

/// What row losses and row gradients report of a label on the processor: the first that names no
/// class.
pub proof fn law_rows_report_label(
    inp: &Tensor,
    target: &Tensor,
    grad: &Tensor,
    e: LossError,
    f: LossError,
    i: int,
)
    requires
        tensor_on_cpu(*inp),
        tensor_on_cpu(*target),
        tensor_on_cpu(*grad),
        tensor_contiguous(*grad),
        dims_fit(tensor_dims(*inp), tensor_dims(*target)),
        may_label(tensor_dtype(*target)),
        tensor_contiguous(*target),
        0 <= i < tensor_values(*target).len(),
        i64::MIN <= tensor_values(*target)[i] <= i64::MAX,
        !(0 <= tensor_values(*target)[i] < tensor_dims(*inp)[1]),
        forall|j: int|
            0 <= j < i ==> 0 <= #[trigger] tensor_values(*target)[j] < tensor_dims(*inp)[1],
        call_ensures(row_losses, (inp, target), Err(e)),
        call_ensures(row_gradients, (inp, target, grad), Err(f)),
    ensures
        carries_text(e, label_text(tensor_values(*target)[i], tensor_dims(*inp)[1])),
        carries_text(f, label_text(tensor_values(*target)[i], tensor_dims(*inp)[1])),
{
    law_first_bad_label(tensor_values(*target), tensor_dims(*inp)[1], i);
}

/// What row losses report on an accelerator: the first fault among the dimensions, the storage and
/// the types. Left out are logits whose number a machine word cannot say.
pub proof fn law_row_losses_report_on_accelerator(
    inp: &Tensor,
    target: &Tensor,
    r: Result<Tensor, LossError>,
)
    requires
        !tensor_on_cpu(*inp),
        !tensor_on_cpu(*target),
        countable(tensor_dims(*inp)),
        call_ensures(row_losses, (inp, target), r),
    ensures
        !dims_fit(tensor_dims(*inp), tensor_dims(*target)) ==> (r matches Err(e) && carries_text(
            e,
            dims_text(tensor_dims(*inp), tensor_dims(*target)),
        )),
        dims_fit(tensor_dims(*inp), tensor_dims(*target)) && !(tensor_contiguous(*inp)
            && tensor_contiguous(*target)) ==> (r matches Err(e) && carries_text(
            e,
            if tensor_on_metal(*inp) {
                "Non contiguous cross_entropy is not implemented for Metal"@
            } else {
                "Non contiguous cross_entropy is not implemented for CUDA"@
            },
        )),
        dims_fit(tensor_dims(*inp), tensor_dims(*target)) && tensor_contiguous(*inp)
            && tensor_contiguous(*target) && tensor_on_metal(*inp) && !(tensor_dtype(*target)
            == DType::U32 && is_float(tensor_dtype(*inp)) && tensor_dtype(*inp) != DType::F64) ==> (
        r matches Err(e) && carries_text(
            e,
            "cross_entropy is not implemented for "@ + dtype_name(tensor_dtype(*inp)) + " "@
                + dtype_name(tensor_dtype(*target)),
        )),
        dims_fit(tensor_dims(*inp), tensor_dims(*target)) && tensor_contiguous(*inp)
            && tensor_contiguous(*target) && !tensor_on_metal(*inp) && tensor_dtype(*target)
            != DType::U32 ==> (r matches Err(e) && carries_text(
            e,
            "CUDA cross_entropy target must be U32"@,
        )),
        dims_fit(tensor_dims(*inp), tensor_dims(*target)) && tensor_contiguous(*inp)
            && tensor_contiguous(*target) && !tensor_on_metal(*inp) && tensor_dtype(*target)
            == DType::U32 && !is_float(tensor_dtype(*inp)) ==> (r matches Err(e) && carries_text(
            e,
            "unsupported dtype for cross_entropy "@ + dtype_name(tensor_dtype(*inp)),
        )),
{
}

/// Whether the elements are integers is told by their type.
pub proof fn law_holds_integers(t: &Tensor, u: &Tensor, r: bool, q: bool)
    requires
        call_ensures(holds_integers, (t,), r),
        call_ensures(are_both_integer, (t, u), q),
    ensures
        r <==> is_integer(tensor_dtype(*t)),
        q <==> tensor_on_cpu(*t) && tensor_on_cpu(*u) && is_integer(tensor_dtype(*t))
            && tensor_dtype(*t) == tensor_dtype(*u),
{
}

/// The dimensions of log probabilities and target are accepted if and only if they are a matrix and
/// a vector of as many rows.
pub proof fn law_nll_dims(inp: &Tensor, target: &Tensor, r: Result<usize, LossError>)
    requires
        call_ensures(nll_dims, (inp, target), r),
    ensures
        r is Ok <==> tensor_dims(*inp).len() == 2 && tensor_dims(*target).len() == 1 && tensor_dims(
            *inp,
        )[0] == tensor_dims(*target)[0],
        r matches Ok(b) ==> b == tensor_dims(*inp)[0],
{
}

/// Whether a layout of `b` rows and `c` columns reads a storage row by row, inside the storage.
pub open spec fn reads_matrix(s: CpuStorage, l: Layout, b: usize, c: usize) -> bool {
    &&& layout_dims(l) == seq![b, c]
    &&& layout_start(l) + b * c <= storage_values(s).len()
    &&& storage_values(s).len() <= isize::MAX
}

/// Row losses of logits in a storage are computed if and only if these are floating-point numbers
/// read row by row, there are columns, and the labels are `U8`, `U32` or `I64`, each the number of
/// a column. What the backend is handed is the same.
pub proof fn law_forward_computed(
    s1: &CpuStorage,
    l1: &Layout,
    s2: &CpuStorage,
    l2: &Layout,
    b: usize,
    c: usize,
    r: Result<(CpuStorage, Shape), LossError>,
    q: Result<(CpuStorage, Shape), Error>,
)
    requires
        reads_matrix(*s1, *l1, b, c),
        reads_vector(*s2, *l2, b),
        call_ensures(forward, (s1, l1, s2, l2), r),
        call_ensures(forward_pass, (s1, l1, s2, l2), q),
    ensures
        r is Ok <==> c > 0 && is_float(storage_dtype(*s1)) && layout_contiguous(*l1) && may_label(
            storage_dtype(*s2),
        ) && forall|i: int|
            0 <= i < b ==> 0 <= #[trigger] storage_values(*s2)[layout_start(*l2) + i] < c,
        q is Ok <==> r is Ok,
{
    lemma_accepted(*s1, *l1, *s2, *l2, b, c);
}

proof fn lemma_accepted(
    s1: CpuStorage,
    l1: Layout,
    s2: CpuStorage,
    l2: Layout,
    b: usize,
    c: usize,
)
    requires
        reads_matrix(s1, l1, b, c),
        reads_vector(s2, l2, b),
    ensures
        count(seq![b, c]) == b * c,
        count(seq![b]) == b,
        c > 0 ==> countable(seq![b, c]),
        countable(seq![b]),
        labels_fault(stretch(s2, l2), c) is None <==> forall|i: int|
            0 <= i < b ==> 0 <= #[trigger] storage_values(s2)[layout_start(l2) + i] < c,
{
    let all = stretch(s2, l2);
    lemma_count(b, c);
    lemma_vector_countable(seq![b]);
    lemma_vector_countable(seq![c]);
    assert(seq![b, c].drop_first() =~= seq![c]);
    lemma_labels_accepted(all, c);
    if labels_fault(all, c) is None {
        assert forall|i: int| 0 <= i < b implies 0 <= #[trigger] storage_values(s2)[layout_start(l2)
            + i] < c by {
            assert(0 <= all[i] < c);
        }
    }
    if forall|i: int| 0 <= i < b ==> 0 <= #[trigger] storage_values(s2)[layout_start(l2) + i] < c {
        assert forall|i: int| 0 <= i < all.len() implies 0 <= #[trigger] all[i] < c by {
            assert(0 <= storage_values(s2)[layout_start(l2) + i] < c);
        }
    }
}

/// Row gradients of logits in a storage are computed if and only if row losses are and a number of
/// the type of the logits is given for each row. What the backend is handed is the same.
pub proof fn law_backward_computed(
    s1: &CpuStorage,
    l1: &Layout,
    s2: &CpuStorage,
    l2: &Layout,
    s3: &CpuStorage,
    l3: &Layout,
    b: usize,
    c: usize,
    r: Result<(CpuStorage, Shape), LossError>,
    q: Result<(CpuStorage, Shape), Error>,
)
    requires
        reads_matrix(*s1, *l1, b, c),
        reads_vector(*s2, *l2, b),
        reads_vector(*s3, *l3, b),
        call_ensures(backward, (s1, l1, s2, l2, s3, l3), r),
        call_ensures(gradient_pass, (s1, l1, s2, l2, s3, l3), q),
    ensures
        r is Ok <==> c > 0 && is_float(storage_dtype(*s1)) && layout_contiguous(*l1) && may_label(
            storage_dtype(*s2),
        ) && storage_dtype(*s3) == storage_dtype(*s1) && forall|i: int|
            0 <= i < b ==> 0 <= #[trigger] storage_values(*s2)[layout_start(*l2) + i] < c,
        q is Ok <==> r is Ok,
{
    lemma_accepted(*s1, *l1, *s2, *l2, b, c);
}

/// Logits and labels are prepared on the processor if and only if their dimensions fit, the labels
/// are `U8`, `U32` or `I64`, and the logits are stored row by row or can be; elsewhere at least
/// where both are stored row by row already and the labels are `U32`.
pub proof fn law_prepare_computed(
    inp: &Tensor,
    target: &Tensor,
    r: Result<(Tensor, Tensor), LossError>,
)
    requires
        call_ensures(prepare, (inp, target), r),
    ensures
        tensor_on_cpu(*inp) && tensor_on_cpu(*target) ==> (r is Ok <==> dims_fit(
            tensor_dims(*inp),
            tensor_dims(*target),
        ) && may_label(tensor_dtype(*target)) && (tensor_contiguous(*inp) || !is_packed(
            tensor_dtype(*inp),
        ))),
        dims_fit(tensor_dims(*inp), tensor_dims(*target)) && tensor_contiguous(*inp)
            && tensor_contiguous(*target) && tensor_dtype(*target) == DType::U32 ==> r is Ok,
{
}

/// On the processor, row losses and row gradients are computed step by step of each matrix of
/// floating-point numbers with two columns or more that is stored row by row, under a vector of
/// `U32`, whatever numbers it holds.
pub proof fn law_steps_computed(
    inp: &Tensor,
    target: &Tensor,
    grad: &Tensor,
    r: Result<Tensor, LossError>,
    q: Result<Tensor, LossError>,
)
    requires
        tensor_on_cpu(*inp),
        tensor_on_cpu(*target),
        call_ensures(step_losses, (inp, target), r),
        call_ensures(step_gradients, (inp, target, grad), q),
    ensures
        r is Ok,
        q is Ok,
        r matches Ok(o) ==> remembers(o, *inp) && tensor_on_cpu(o),
{
}

/// On the processor, the gradient of the logistic function is computed if and only if its value and
/// the gradient that came back have the same dimensions, not more than eight of them unless there
/// are no elements, the value is of floating-point numbers and, unless there are no elements, the
/// gradient is of their type. It has the form of the gradient that came back.
pub proof fn law_sigmoid_gradient_computed(
    arg: &Tensor,
    res: &Tensor,
    grad: &Tensor,
    r: Result<Tensor, LossError>,
    q: Result<Option<Tensor>, Error>,
)
    requires
        tensor_on_cpu(*res),
        tensor_on_cpu(*grad),
        call_ensures(sigmoid_gradient, (res, grad), r),
        call_ensures(sigmoid_gradient_pass, (arg, res, grad), q),
    ensures
        r is Ok <==> is_float(tensor_dtype(*res)) && tensor_dims(*res) == tensor_dims(*grad) && (
        count(tensor_dims(*res)) == 0 || (tensor_dtype(*grad) == tensor_dtype(*res) && tensor_dims(
            *res,
        ).len() <= 8)),
        q is Ok <==> r is Ok,
        q matches Ok(p) ==> p is Some,
        r matches Ok(o) ==> tensor_dims(o) == tensor_dims(*grad) && tensor_dtype(o) == tensor_dtype(
            *grad,
        ) && tensor_on_cpu(o),
{
}

} // verus!
