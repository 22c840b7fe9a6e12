//! The losses.

use crate::backend::{
    affine, as_column, binary_works, carries_pair, convert, dtype, gather, gather_works, integers,
    is_affine, is_below, is_conversion, is_difference, is_logarithm, is_magnitude, is_mean,
    is_negation, is_product, is_reciprocal, is_square, is_sum, move_to, number, on_cpu, on_integers,
    pair_refused, readable,
};
use crate::dtype::DType;
use crate::error::{found_in_op, from_backend, ErrorOf, Fault, LossError};
use crate::label::labels_fault;
use crate::launch::is_metal_float;
use crate::model::{
    both_contiguous, both_on_cpu, carries, count, countable, each1, each2, formed_like, is_proper,
    lemma_count, picked, row, scalar_value, tensor_contiguous, tensor_dims, tensor_dtype,
    tensor_on_cpu, tensor_on_metal, tensor_values,
};
use crate::renewal::{is_empty_like, renewed};
use crate::row_op::{labels_reach, remembers_rows, row_losses};
use crate::rows::{converted, precision_of, row_losses_of};
use crate::shape::{checked_count, cross_entropy_dims, dims_fault, has_no_elements, same_dims};
use crate::sigmoid::{is_sigmoid, sigmoid};
use candle_core::scalar::Scalar;
use candle_core::Tensor;
use vstd::prelude::*;
use vstd::slice::*;

verus! {

/// Whether a tensor has the dimensions and the element type of a loss over tensors like `t`.
pub open spec fn is_scalar_like(o: Tensor, t: Tensor) -> bool {
    &&& tensor_dims(o) == Seq::<usize>::empty()
    &&& tensor_dtype(o) == tensor_dtype(t)
    &&& tensor_on_cpu(o) == tensor_on_cpu(t)
    &&& tensor_values(o).len() == 1
}

/// Whether the processor can store a tensor's elements anew, row by row.
pub open spec fn movable(t: Tensor) -> bool {
    tensor_contiguous(t) || !tensor_dtype(t).is_stored_only()
}

/// Accepts the element types that class labels may have.
pub fn validate_cross_entropy_target_dtype(target: &Tensor) -> (r: Result<(), LossError>)
    ensures
        r is Ok <==> tensor_dtype(*target).is_label(),
        r matches Err(e) ==> e@ == (ErrorOf::<Seq<usize>, Seq<char>>::LabelDType {
            dtype: tensor_dtype(*target),
        }),
{
    match dtype(target) {
        DType::U8 | DType::U32 | DType::I64 => Ok(()),
        dtype => Err(ErrorOf::LabelDType { dtype }),
    }
}

/// In which form labels are handed to the row losses.
#[derive(Clone, Copy, Debug, PartialEq, Eq, Structural)]
pub enum TargetUse {
    /// As they are.
    Keep,
    /// As `U32`.
    Widen,
}

/// What keeps labels of an element type from being used where they lie.
pub open spec fn use_fault(on_cpu: bool, dtype: DType) -> Option<Fault> {
    if on_cpu || dtype == DType::U32 || dtype == DType::U8 {
        None
    } else if dtype == DType::I64 {
        Some(ErrorOf::AcceleratorI64)
    } else {
        Some(ErrorOf::AcceleratorLabelDType { dtype })
    }
}

/// The element type in which labels reach the row losses.
pub open spec fn used_dtype(on_cpu: bool, dtype: DType) -> DType {
    if !on_cpu && dtype == DType::U8 {
        DType::U32
    } else {
        dtype
    }
}

/// How labels are used where they lie. The processor checks each label, whatever its type. The
/// kernels of an accelerator read `U32`, to which `U8` is widened without loss. A 64-bit label
/// might be wrapped into the number of a class, and is refused.
pub fn target_use(on_cpu: bool, dtype: DType) -> (r: Result<TargetUse, LossError>)
    ensures
        r matches Ok(u) ==> use_fault(on_cpu, dtype) is None && (u == TargetUse::Widen <==> !on_cpu
            && dtype == DType::U8),
        r matches Err(e) ==> use_fault(on_cpu, dtype) == Some(e@),
{
    match (on_cpu, dtype) {
        (true, _) | (false, DType::U32) => Ok(TargetUse::Keep),
        (false, DType::U8) => Ok(TargetUse::Widen),
        (false, DType::I64) => Err(ErrorOf::AcceleratorI64),
        (false, dtype) => Err(ErrorOf::AcceleratorLabelDType { dtype }),
    }
}

/// What is wrong with logits and target before anything is read from them.
pub open spec fn form_fault(inp: Tensor, target: Tensor) -> Option<Fault> {
    if tensor_dims(inp).len() != 2 {
        Some(ErrorOf::NotMatrix)
    } else if dims_fault(tensor_dims(inp), tensor_dims(target)) is Some {
        dims_fault(tensor_dims(inp), tensor_dims(target))
    } else if !tensor_dtype(target).is_label() {
        Some(ErrorOf::LabelDType { dtype: tensor_dtype(target) })
    } else {
        None
    }
}

/// Whether two tensors hold logits and labels in the form that the row losses read.
pub open spec fn is_prepared(inp: Tensor, target: Tensor, p: (Tensor, Tensor)) -> bool {
    &&& formed_like(p.0, inp)
    &&& tensor_on_metal(p.0) == tensor_on_metal(inp)
    &&& tensor_contiguous(p.0)
    &&& tensor_values(p.0) == tensor_values(inp)
    &&& tensor_dims(p.1) == tensor_dims(target)
    &&& tensor_dtype(p.1) == used_dtype(tensor_on_cpu(target), tensor_dtype(target))
    &&& tensor_on_cpu(p.1) == tensor_on_cpu(target)
    &&& tensor_contiguous(p.1)
    &&& tensor_values(p.1) == tensor_values(target)
    &&& carries(p.0, inp)
    &&& carries(p.1, target)
}

/// Logits and labels in the form that the row losses read.
pub fn prepare(inp: &Tensor, target: &Tensor) -> (r: Result<(Tensor, Tensor), LossError>)
    ensures
        r matches Ok(p) ==> form_fault(*inp, *target) is None && use_fault(
            tensor_on_cpu(*target),
            tensor_dtype(*target),
        ) is None && is_prepared(*inp, *target, p),
        r matches Err(e) ==> match form_fault(*inp, *target) {
            Some(f) => e@ == f,
            None => (e is Backend) || use_fault(tensor_on_cpu(*target), tensor_dtype(*target))
                == Some(e@),
        },
        both_on_cpu(*inp, *target) && form_fault(*inp, *target) is None ==> (r is Ok <==> movable(
            *inp,
        )),
        form_fault(*inp, *target) is None && both_contiguous(*inp, *target) ==> match use_fault(
            tensor_on_cpu(*target),
            tensor_dtype(*target),
        ) {
            Some(f) => r matches Err(e) && e@ == f,
            None => r is Ok || tensor_dtype(*target) == DType::U8,
        },
{
    if inp.dims().len() != 2 {
        return Err(ErrorOf::NotMatrix);
    }
    let (b_sz, n_classes) = cross_entropy_dims(inp.layout(), target.layout())?;
    validate_cross_entropy_target_dtype(target)?;
    proof {
        lemma_count(b_sz, n_classes);
        assert(b_sz > 0 ==> b_sz * n_classes > 0) by (nonlinear_arith)
            requires
                n_classes > 0,
        ;
    }
    let inp = from_backend(inp.contiguous())?;
    let target = from_backend(target.contiguous())?;
    let target = match target_use(on_cpu(&target), dtype(&target))? {
        TargetUse::Keep => target,
        TargetUse::Widen => {
            let anew = readable_anew(&target)?;
            let labels = match &anew {
                Some(t) => t,
                None => &target,
            };
            from_backend(convert(labels, DType::U32))?
        },
    };
    Ok((inp, target))
}

/// What keeps the cross-entropy of logits from being computed where they lie, though their form and
/// that of the target are right.
pub open spec fn content_fault(inp: Tensor, target: Tensor) -> Option<Fault> {
    if tensor_on_cpu(inp) {
        if labels_fault(tensor_values(target), tensor_dims(inp)[1]) is Some {
            labels_fault(tensor_values(target), tensor_dims(inp)[1])
        } else if !tensor_dtype(inp).is_row_float() {
            Some(ErrorOf::InputDType { dtype: tensor_dtype(inp) })
        } else {
            None
        }
    } else if tensor_on_metal(inp) {
        if !countable(tensor_dims(inp)) {
            Some(ErrorOf::MetalStrided)
        } else if !is_metal_float(tensor_dtype(inp)) {
            Some(ErrorOf::MetalDType { inp: tensor_dtype(inp), target: DType::U32 })
        } else {
            None
        }
    } else if !countable(tensor_dims(inp)) {
        Some(ErrorOf::CudaStrided)
    } else if !tensor_dtype(inp).is_row_float() {
        Some(ErrorOf::CudaDType { dtype: tensor_dtype(inp) })
    } else {
        None
    }
}

/// Whether nothing can keep logits and labels of the right form from being prepared.
pub open spec fn prepares(inp: Tensor, target: Tensor) -> bool {
    if both_on_cpu(inp, target) {
        movable(inp)
    } else {
        both_contiguous(inp, target) && tensor_dtype(target) == DType::U32
    }
}

/// Whether a number is the cross-entropy of logits under labels: the mean of the rows' losses.
pub open spec fn is_cross_entropy(inp: Tensor, target: Tensor, r: int) -> bool {
    exists|losses: Seq<int>|
        {
            &&& #[trigger] row_losses_of(
                precision_of(inp),
                tensor_values(inp),
                tensor_dims(inp)[1] as int,
                tensor_values(target),
                losses,
            )
            &&& is_mean(tensor_dtype(inp), losses, r)
        }
}

/// Whether a tensor remembers, as far as the logits or the labels take part in differentiation,
/// that it is the mean of what `CrossEntropyRows` makes of them or of copies of them.
pub open spec fn remembers_cross_entropy(inp: Tensor, target: Tensor, o: Tensor) -> bool {
    exists|logits: Tensor, labels: Tensor, losses: Tensor|
        {
            &&& carries(logits, inp)
            &&& carries(labels, target)
            &&& #[trigger] remembers_rows(losses, logits, labels)
            &&& carries(o, losses)
        }
}

/// Whether a tensor is the cross-entropy of logits, and remembers them.
pub open spec fn holds_cross_entropy(inp: Tensor, target: Tensor, o: Tensor) -> bool {
    &&& is_scalar_like(o, inp)
    &&& labels_reach(inp) ==> is_cross_entropy(inp, target, tensor_values(o)[0])
    &&& carries(o, inp)
    &&& tensor_on_cpu(inp) ==> remembers_cross_entropy(inp, target, o)
}

/// The cross-entropy loss.
///
/// * `inp`: the logits, of dimensions `N, C`, where `N` is the batch size and `C` the number of
///   classes.
/// * `target`: the labels, of dimension `N`; `U8`, `U32` or, on the processor, `I64`.
///
/// The result is a single number, the mean over the batch. On the processor a label that names no
/// class is refused; on an accelerator the result is then no number. There the losses of the rows
/// are computed step by step. A fused kernel can be launched in place of the steps on what
/// `prepare` gives, in the way that `launch` says.
pub fn cross_entropy(inp: &Tensor, target: &Tensor) -> (r: Result<Tensor, LossError>)
    ensures
        tensor_on_cpu(*inp) != tensor_on_cpu(*target) ==> r is Err,
        both_on_cpu(*inp, *target) ==> (r is Ok <==> form_fault(*inp, *target) is None
            && content_fault(*inp, *target) is None),
        r matches Ok(o) ==> form_fault(*inp, *target) is None && use_fault(
            tensor_on_cpu(*target),
            tensor_dtype(*target),
        ) is None && content_fault(*inp, *target) is None && holds_cross_entropy(*inp, *target, o),
        r matches Err(e) ==> match form_fault(*inp, *target) {
            Some(f) => e@ == f,
            None => (e is Backend) || use_fault(tensor_on_cpu(*target), tensor_dtype(*target))
                == Some(e@),
        },
        form_fault(*inp, *target) is None && both_contiguous(*inp, *target) ==> (use_fault(
            tensor_on_cpu(*target),
            tensor_dtype(*target),
        ) matches Some(f) ==> (r matches Err(e) && e@ == f)),
        form_fault(*inp, *target) is None && prepares(*inp, *target) && tensor_on_cpu(*inp)
            == tensor_on_cpu(*target) ==> (content_fault(*inp, *target) matches Some(f) ==> (
        r matches Err(e) && e@ == found_in_op(f))),
{
    let (logits, labels) = prepare(inp, target)?;
    let losses = row_losses(&logits, &labels)?;
    from_backend(losses.mean_all())
}

/// What is wrong with the dimensions of log probabilities and target.
pub open spec fn nll_fault(inp: Seq<usize>, target: Seq<usize>) -> Option<Fault> {
    if target.len() != 1 {
        Some(ErrorOf::TargetRank { dims: target })
    } else if inp.len() != 2 {
        Some(ErrorOf::ScoresRank { dims: inp })
    } else if inp[0] != target[0] {
        Some(ErrorOf::BatchSize { inp: inp[0], target: target[0] })
    } else {
        None
    }
}

/// The log probability that each row's label picks.
pub open spec fn picks(inp: Tensor, target: Tensor) -> Seq<int> {
    Seq::new(
        tensor_dims(inp)[0] as nat,
        |i: int|
            picked(
                tensor_dtype(target),
                tensor_values(target)[i],
                row(tensor_values(inp), tensor_dims(inp)[1] as int, i),
            ),
    )
}

/// Whether a number is the negative log likelihood of labels: the mean of the log probabilities
/// that they pick, negated.
pub open spec fn is_nll(inp: Tensor, target: Tensor, r: int) -> bool {
    exists|mean: int|
        {
            &&& is_mean(tensor_dtype(inp), picks(inp, target), mean)
            &&& #[trigger] is_affine(tensor_dtype(inp), mean, -1, 0, r)
        }
}

/// The batch size of log probabilities and target.
pub fn nll_dims(inp: &Tensor, target: &Tensor) -> (r: Result<usize, LossError>)
    ensures
        r matches Ok(b) ==> nll_fault(tensor_dims(*inp), tensor_dims(*target)) is None && b
            == tensor_dims(*inp)[0] && tensor_dims(*target) == seq![b],
        r matches Err(e) ==> nll_fault(tensor_dims(*inp), tensor_dims(*target)) == Some(e@),
{
    let target_dims = target.dims();
    if target_dims.len() != 1 {
        return Err(ErrorOf::TargetRank { dims: slice_to_vec(target_dims) });
    }
    let b_sz: usize = target_dims[0];
    let inp_dims = inp.dims();
    if inp_dims.len() != 2 {
        return Err(ErrorOf::ScoresRank { dims: slice_to_vec(inp_dims) });
    }
    let inp_b_sz: usize = inp_dims[0];
    if inp_b_sz != b_sz {
        return Err(ErrorOf::BatchSize { inp: inp_b_sz, target: b_sz });
    }
    assert(target_dims@ =~= seq![b_sz]);
    Ok(b_sz)
}

/// Whether the negative log likelihood would be computed with integers.
pub open spec fn nll_on_integers(inp: Tensor, target: Tensor) -> bool {
    &&& nll_fault(tensor_dims(inp), tensor_dims(target)) is None
    &&& tensor_on_cpu(inp)
    &&& tensor_dtype(inp).is_int()
}

/// Whether each label names a class, and none of them is the one that names none.
pub open spec fn labels_proper(inp: Tensor, target: Tensor) -> bool {
    forall|i: int|
        0 <= i < tensor_dims(inp)[0] ==> is_proper(
            tensor_dtype(target),
            #[trigger] tensor_values(target)[i],
            tensor_dims(inp)[1] as int,
        )
}

/// A vector or a matrix that has no elements and is stored row by row, stored anew; `None` for
/// others, which can be read as they are.
fn readable_anew(t: &Tensor) -> (r: Result<Option<Tensor>, LossError>)
    requires
        tensor_dims(*t).len() == 1 || tensor_dims(*t).len() == 2,
    ensures
        r matches Err(e) ==> (e is Backend) && (tensor_on_cpu(*t) ==> tensor_dtype(
            *t,
        ).is_stored_only()),
        r matches Ok(Some(o)) ==> is_empty_like(o, *t) && tensor_contiguous(*t) && tensor_values(o)
            == tensor_values(*t) && carries(o, *t),
        r matches Ok(None) ==> tensor_contiguous(*t) ==> readable(*t),
{
    let dims = t.dims();
    if !has_no_elements(dims) {
        return Ok(None);
    }
    let ghost (b, c) = (dims@[0], dims@[1]);
    proof {
        lemma_count(b, c);
        lemma_count(c, 0);
        if dims@.len() == 1 {
            assert(dims@ =~= seq![b]);
            assert(dims@.drop_first() =~= Seq::<usize>::empty());
        } else {
            assert(dims@ =~= seq![b, c]);
            assert(dims@.drop_first() =~= seq![c]);
            assert(seq![c].drop_first() =~= Seq::<usize>::empty());
            assert(countable(seq![c].drop_first()));
        }
        assert(countable(dims@.drop_first()));
    }
    if !t.layout().is_contiguous() {
        return Ok(None);
    }
    let o = renewed(t)?;
    assert(tensor_values(o) =~= tensor_values(*t));
    Ok(Some(o))
}

/// The negative log likelihood loss.
///
/// * `inp`: the log probabilities, of dimensions `N, C`, where `N` is the batch size and `C` the
///   number of classes.
/// * `target`: the labels, of dimension `N`; `U8`, `U32` or `I64`. The largest number of the type
///   picks zero in place of a log probability.
///
/// The result is a single number, the mean over the batch. What an accelerator gives for labels
/// that name no class is not said.
pub fn nll(inp: &Tensor, target: &Tensor) -> (r: Result<Tensor, LossError>)
    requires
        !nll_on_integers(*inp, *target),
    ensures
        r matches Err(e) ==> match nll_fault(tensor_dims(*inp), tensor_dims(*target)) {
            Some(f) => e@ == f,
            None => e is Backend,
        },
        tensor_on_cpu(*inp) != tensor_on_cpu(*target) ==> r is Err,
        both_on_cpu(*inp, *target) ==> (r is Ok <==> nll_fault(
            tensor_dims(*inp),
            tensor_dims(*target),
        ) is None && gather_works(*inp, *target)),
        r matches Ok(o) ==> nll_fault(tensor_dims(*inp), tensor_dims(*target)) is None
            && is_scalar_like(o, *inp) && (tensor_on_cpu(*inp) || (both_contiguous(*inp, *target)
            && labels_proper(*inp, *target)) ==> is_nll(*inp, *target, tensor_values(o)[0]))
            && carries(o, *inp),
{
    let b_sz: usize = nll_dims(inp, target)?;
    assert(tensor_dims(*target).push(1) =~= seq![b_sz, 1]);
    let new_inp = readable_anew(inp)?;
    let new_target = readable_anew(target)?;
    let scores = match &new_inp {
        Some(t) => t,
        None => inp,
    };
    let labels = match &new_target {
        Some(t) => t,
        None => target,
    };
    let column = from_backend(as_column(labels))?;
    proof {
        lemma_count(b_sz, 1);
    }
    let own = from_backend(gather(scores, &column))?;
    proof {
        if tensor_on_cpu(*inp) || (both_contiguous(*inp, *target) && labels_proper(*inp, *target)) {
            assert(tensor_values(own) =~= picks(*inp, *target));
        }
    }
    let mean = from_backend(own.mean_all())?;
    from_backend(affine(&mean, -1, 0))
}

/// The negative log likelihood loss, or `None` where it would be computed with integers.
pub fn checked_nll(inp: &Tensor, target: &Tensor) -> (r: Option<Result<Tensor, LossError>>)
    ensures
        r is None <==> nll_on_integers(*inp, *target),
        r matches Some(q) ==> call_ensures(nll, (inp, target), q),
{
    match nll_dims(inp, target) {
        Ok(_) if on_cpu(inp) && holds_integers(inp) => None,
        _ => Some(nll(inp, target)),
    }
}

/// Whether the elements of a tensor are integers.
pub fn holds_integers(t: &Tensor) -> (r: bool)
    ensures
        r == tensor_dtype(*t).is_int(),
{
    match dtype(t) {
        DType::U8 | DType::U32 | DType::I16 | DType::I32 | DType::I64 => true,
        _ => false,
    }
}

/// Whether `r` is the square of the difference of two elements.
pub open spec fn is_squared_error(dtype: DType, x: int, y: int, r: int) -> bool {
    exists|d: int| #[trigger] is_difference(dtype, x, y, d) && is_square(dtype, d, r)
}

/// Whether a number is the mean squared error: the mean of the squared differences.
pub open spec fn is_mse(inp: Tensor, target: Tensor, r: int) -> bool {
    exists|squares: Seq<int>|
        {
            &&& each2(
                |x: int, y: int, z: int| is_squared_error(tensor_dtype(inp), x, y, z),
                tensor_values(inp),
                tensor_values(target),
                squares,
            )
            &&& #[trigger] is_mean(tensor_dtype(inp), squares, r)
        }
}

/// Whether an element-wise loss would be computed with integers.
pub open spec fn errors_on_integers(inp: Tensor, target: Tensor) -> bool {
    &&& both_on_cpu(inp, target)
    &&& tensor_dims(inp) == tensor_dims(target)
    &&& count(tensor_dims(inp)) > 0
    &&& tensor_dtype(inp) == tensor_dtype(target)
    &&& tensor_dtype(inp).is_int()
}

/// Whether two tensors have more dimensions than the processor walks through.
pub open spec fn too_deep(inp: Tensor, target: Tensor) -> bool {
    &&& both_on_cpu(inp, target)
    &&& tensor_dims(inp) == tensor_dims(target)
    &&& count(tensor_dims(inp)) > 0
    &&& tensor_dims(inp).len() > 8
}

/// What keeps two tensors that have too many dimensions from being computed with as vectors.
pub open spec fn depth_fault(inp: Tensor, target: Tensor) -> Option<Fault> {
    if too_deep(inp, target) && !countable(tensor_dims(inp)) {
        Some(ErrorOf::TooManyDims { dims: tensor_dims(inp) })
    } else {
        None
    }
}

/// Whether a tensor holds the elements of another one, in as many places and in the same memory.
pub open spec fn holds_same(o: Tensor, t: Tensor) -> bool {
    &&& count(tensor_dims(o)) == count(tensor_dims(t))
    &&& tensor_dtype(o) == tensor_dtype(t)
    &&& tensor_on_cpu(o) == tensor_on_cpu(t)
    &&& tensor_values(o) == tensor_values(t)
}

/// Two tensors that have too many dimensions as vectors; `None` for others.
fn leveled(inp: &Tensor, target: &Tensor) -> (r: Result<Option<(Tensor, Tensor)>, LossError>)
    ensures
        r matches Ok(None) ==> !too_deep(*inp, *target),
        r matches Ok(Some(p)) ==> too_deep(*inp, *target) && depth_fault(*inp, *target) is None
            && holds_same(p.0, *inp) && holds_same(p.1, *target) && tensor_dims(p.0) == tensor_dims(
            p.1,
        ) && tensor_dims(p.0).len() == 1 && carries(p.0, *inp) && carries(p.1, *target),
        r matches Err(e) ==> too_deep(*inp, *target) && match depth_fault(*inp, *target) {
            Some(f) => e@ == f,
            None => (e is Backend) && (tensor_dtype(*inp).is_stored_only() || tensor_dtype(
                *target,
            ).is_stored_only()),
        },
{
    let dims = inp.dims();
    if !on_cpu(inp) || !on_cpu(target) || dims.len() <= 8 || has_no_elements(dims) || !same_dims(
        dims,
        target.dims(),
    ) {
        return Ok(None);
    }
    if checked_count(dims).is_none() {
        return Err(ErrorOf::TooManyDims { dims: slice_to_vec(dims) });
    }
    let a = from_backend(inp.flatten_all())?;
    let b = from_backend(target.flatten_all())?;
    proof {
        lemma_count(tensor_dims(a)[0], 0);
    }
    Ok(Some((a, b)))
}

/// Whether the processor computes an element-wise loss.
pub open spec fn errors_work(inp: Tensor, target: Tensor) -> bool {
    &&& tensor_dims(inp) == tensor_dims(target)
    &&& binary_works(inp, target)
    &&& !tensor_dtype(inp).is_stored_only()
}

/// Whether an element-wise loss is refused wherever the tensors lie.
pub open spec fn errors_refused(inp: Tensor, target: Tensor) -> bool {
    tensor_dims(inp) != tensor_dims(target) || pair_refused(inp, target)
}

/// The mean squared error of tensors that do not have too many dimensions.
fn mse_of(inp: &Tensor, target: &Tensor) -> (r: Result<Tensor, LossError>)
    requires
        !errors_on_integers(*inp, *target),
        !too_deep(*inp, *target),
    ensures
        r matches Err(e) ==> e is Backend,
        errors_refused(*inp, *target) ==> r is Err,
        both_on_cpu(*inp, *target) ==> (r is Ok <==> errors_work(*inp, *target)),
        r matches Ok(o) ==> is_scalar_like(o, *inp) && is_mse(*inp, *target, tensor_values(o)[0])
            && carries_pair(o, *inp, *target),
{
    let diff = from_backend(inp.sub(target))?;
    if has_no_elements(inp.dims()) {
        let none = renewed(inp)?;
        assert(tensor_values(none).len() == tensor_values(*target).len());
        return from_backend(none.mean_all());
    }
    let squares = from_backend(diff.sqr())?;
    proof {
        let d = tensor_dtype(*inp);
        let (xs, ys, rs) = (tensor_values(*inp), tensor_values(*target), tensor_values(squares));
        assert forall|i: int| 0 <= i < rs.len() implies is_squared_error(
            d,
            xs[i],
            ys[i],
            #[trigger] rs[i],
        ) by {
            assert(is_difference(d, xs[i], ys[i], tensor_values(diff)[i]));
        }
    }
    from_backend(squares.mean_all())
}

/// The mean squared error loss.
///
/// The result is a single number, the mean over all elements. Tensors of more dimensions than the
/// processor walks through are computed with as vectors.
pub fn mse(inp: &Tensor, target: &Tensor) -> (r: Result<Tensor, LossError>)
    requires
        !errors_on_integers(*inp, *target),
    ensures
        r matches Err(e) ==> match depth_fault(*inp, *target) {
            Some(f) => e@ == f,
            None => e is Backend,
        },
        errors_refused(*inp, *target) ==> r is Err,
        both_on_cpu(*inp, *target) ==> (r is Ok <==> errors_work(*inp, *target) && depth_fault(
            *inp,
            *target,
        ) is None),
        r matches Ok(o) ==> is_scalar_like(o, *inp) && is_mse(*inp, *target, tensor_values(o)[0])
            && carries_pair(o, *inp, *target),
{
    match leveled(inp, target)? {
        Some((a, b)) => mse_of(&a, &b),
        None => mse_of(inp, target),
    }
}

/// Whether two tensors on the processor hold integers of the same type.
pub open spec fn both_integer(inp: Tensor, target: Tensor) -> bool {
    &&& both_on_cpu(inp, target)
    &&& tensor_dtype(inp).is_int()
    &&& tensor_dtype(inp) == tensor_dtype(target)
}

/// Whether two tensors on the processor hold integers of the same type.
pub fn are_both_integer(inp: &Tensor, target: &Tensor) -> (r: bool)
    ensures
        r == both_integer(*inp, *target),
{
    on_cpu(inp) && on_cpu(target) && holds_integers(inp) && dtype(inp) == dtype(target)
}

/// The mean squared error loss, or `None` for integers of the same type.
pub fn checked_mse(inp: &Tensor, target: &Tensor) -> (r: Option<Result<Tensor, LossError>>)
    ensures
        r is None <==> both_integer(*inp, *target),
        r matches Some(q) ==> call_ensures(mse, (inp, target), q),
{
    if are_both_integer(inp, target) {
        None
    } else {
        Some(mse(inp, target))
    }
}

/// Whether `r` is the binary cross-entropy of a probability `p` under a label `y`, where `dp` and
/// `dy` are their element types: `y * log p + (1 - y) * log (1 - p)`, negated.
pub open spec fn is_binary_entropy(dp: DType, dy: DType, p: int, y: int, r: int) -> bool {
    exists|lp: int, left: int, ny: int, q: int, lq: int, right: int, sum: int|
        {
            &&& is_logarithm(dp, p, lp)
            &&& #[trigger] is_product(dy, y, lp, left)
            &&& is_affine(dy, y, -1, 1, ny)
            &&& #[trigger] is_affine(dp, p, -1, 1, q)
            &&& is_logarithm(dp, q, lq)
            &&& #[trigger] is_product(dy, ny, lq, right)
            &&& #[trigger] is_sum(dy, left, right, sum)
            &&& is_negation(dy, sum, r)
        }
}

/// Whether `rs` holds the binary cross-entropy of each probability in `ps` under its label in `ys`.
pub open spec fn are_binary_entropies(
    dp: DType,
    dy: DType,
    ps: Seq<int>,
    ys: Seq<int>,
    rs: Seq<int>,
) -> bool {
    each2(|p: int, y: int, z: int| is_binary_entropy(dp, dy, p, y, z), ps, ys, rs)
}

/// The element type in which the labels of the binary cross-entropy are used: `U32` becomes that of
/// the logits.
pub open spec fn binary_label_dtype(inp: Tensor, target: Tensor) -> DType {
    if tensor_dtype(target) == DType::U32 {
        tensor_dtype(inp)
    } else {
        tensor_dtype(target)
    }
}

/// Whether a number is the binary cross-entropy of logits: the mean over the elements, each taken
/// from the logistic function of a logit and its label.
pub open spec fn is_binary_cross_entropy(inp: Tensor, target: Tensor, r: int) -> bool {
    let (dp, dy) = (tensor_dtype(inp), binary_label_dtype(inp, target));
    exists|probs: Seq<int>, labels: Seq<int>, losses: Seq<int>|
        {
            &&& each1(|x: int, y: int| is_sigmoid(dp, x, y), tensor_values(inp), probs)
            &&& each1(
                |x: int, y: int| converted(tensor_dtype(target), dy, x, y),
                tensor_values(target),
                labels,
            )
            &&& #[trigger] are_binary_entropies(dp, dy, probs, labels, losses)
            &&& is_mean(dy, losses, r)
        }
}

/// The binary cross-entropy of each probability.
fn binary_entropies(probs: &Tensor, target: &Tensor) -> (r: Result<Tensor, LossError>)
    requires
        tensor_on_cpu(*probs) ==> !tensor_dtype(*probs).is_int(),
        !too_deep(*target, *probs),
    ensures
        r matches Err(e) ==> e is Backend,
        errors_refused(*target, *probs) ==> r is Err,
        both_on_cpu(*probs, *target) && !tensor_dtype(*probs).is_stored_only() ==> (r is Ok
            <==> tensor_dims(*probs) == tensor_dims(*target) && binary_works(*target, *probs)),
        r matches Ok(o) ==> formed_like(o, *target) && are_binary_entropies(
            tensor_dtype(*probs),
            tensor_dtype(*target),
            tensor_values(*probs),
            tensor_values(*target),
            tensor_values(o),
        ) && !on_integers(o) && carries_pair(o, *target, *probs),
{
    let log = from_backend(probs.log())?;
    let left = from_backend(target.mul(&log))?;
    let rest = from_backend(affine(target, -1, 1))?;
    let others = from_backend(affine(probs, -1, 1))?;
    let other_log = from_backend(others.log())?;
    let right = from_backend(rest.mul(&other_log))?;
    let sum = from_backend(left.add(&right))?;
    let out = from_backend(sum.neg())?;
    proof {
        let (dp, dy) = (tensor_dtype(*probs), tensor_dtype(*target));
        let (ps, ys, rs) = (tensor_values(*probs), tensor_values(*target), tensor_values(out));
        assert forall|i: int| 0 <= i < rs.len() implies is_binary_entropy(
            dp,
            dy,
            ps[i],
            ys[i],
            #[trigger] rs[i],
        ) by {
            assert(is_logarithm(dp, ps[i], tensor_values(log)[i]));
            assert(is_product(dy, ys[i], tensor_values(log)[i], tensor_values(left)[i]));
            assert(is_affine(dy, ys[i], -1, 1, tensor_values(rest)[i]));
            assert(is_affine(dp, ps[i], -1, 1, tensor_values(others)[i]));
            assert(is_logarithm(dp, tensor_values(others)[i], tensor_values(other_log)[i]));
            assert(is_product(
                dy,
                tensor_values(rest)[i],
                tensor_values(other_log)[i],
                tensor_values(right)[i],
            ));
            assert(is_sum(
                dy,
                tensor_values(left)[i],
                tensor_values(right)[i],
                tensor_values(sum)[i],
            ));
            assert(is_negation(dy, tensor_values(sum)[i], rs[i]));
        }
    }
    Ok(out)
}

/// Whether the processor computes the binary cross-entropy of logits whose element type it computes
/// with.
pub open spec fn binary_labels_work(inp: Tensor, target: Tensor) -> bool {
    &&& tensor_dims(inp) == tensor_dims(target)
    &&& count(tensor_dims(inp)) == 0 || binary_label_dtype(inp, target) == tensor_dtype(inp)
    &&& !tensor_dtype(target).is_stored_only()
}

/// Whether the binary cross-entropy is refused wherever the tensors lie.
pub open spec fn binary_labels_refused(inp: Tensor, target: Tensor) -> bool {
    ||| tensor_dims(inp) != tensor_dims(target)
    ||| count(tensor_dims(inp)) > 0 && (tensor_on_cpu(inp) != tensor_on_cpu(target)
        || binary_label_dtype(inp, target) != tensor_dtype(inp))
}

/// Whether a tensor is the binary cross-entropy of logits.
pub open spec fn holds_binary_cross_entropy(inp: Tensor, target: Tensor, o: Tensor) -> bool {
    &&& tensor_dims(o) == Seq::<usize>::empty()
    &&& tensor_dtype(o) == binary_label_dtype(inp, target)
    &&& tensor_on_cpu(o) == tensor_on_cpu(target)
    &&& tensor_values(o).len() == 1
    &&& is_binary_cross_entropy(inp, target, tensor_values(o)[0])
}

/// The labels of the binary cross-entropy in the element type in which they are used.
fn binary_labels(inp: &Tensor, target: &Tensor) -> (r: Result<Tensor, LossError>)
    requires
        readable(*target),
    ensures
        r matches Err(e) ==> e is Backend,
        both_on_cpu(*inp, *target) && tensor_dtype(*inp).is_row_float() ==> r is Ok,
        r matches Ok(o) ==> tensor_dims(o) == tensor_dims(*target) && tensor_dtype(o)
            == binary_label_dtype(*inp, *target) && tensor_on_cpu(o) == tensor_on_cpu(*target)
            && readable(o) && carries(o, *target) && each1(
            |x: int, y: int| converted(tensor_dtype(*target), tensor_dtype(o), x, y),
            tensor_values(*target),
            tensor_values(o),
        ),
{
    let used = match dtype(target) {
        DType::U32 => dtype(inp),
        dtype => dtype,
    };
    from_backend(convert(target, used))
}

/// The binary cross-entropy of tensors that do not have too many dimensions.
fn binary_cross_entropy_of(inp: &Tensor, target: &Tensor) -> (r: Result<Tensor, LossError>)
    requires
        tensor_on_cpu(*inp) ==> tensor_dtype(*inp).is_row_float(),
        !too_deep(*inp, *target),
    ensures
        r matches Err(e) ==> e is Backend,
        binary_labels_refused(*inp, *target) ==> r is Err,
        both_on_cpu(*inp, *target) ==> (r is Ok <==> binary_labels_work(*inp, *target)),
        r matches Ok(o) ==> holds_binary_cross_entropy(*inp, *target, o) && carries_pair(
            o,
            *target,
            *inp,
        ),
{
    let probs = sigmoid(inp)?;
    if has_no_elements(target.dims()) {
        let none = renewed(target)?;
        let labels = binary_labels(inp, &none)?;
        let _ = binary_entropies(&probs, &labels)?;
        assert(tensor_values(none) =~= tensor_values(*target));
        assert(are_binary_entropies(
            tensor_dtype(*inp),
            tensor_dtype(labels),
            tensor_values(probs),
            tensor_values(labels),
            tensor_values(labels),
        ));
        return from_backend(labels.mean_all());
    }
    let labels = binary_labels(inp, target)?;
    let losses = binary_entropies(&probs, &labels)?;
    from_backend(losses.mean_all())
}

/// The binary cross-entropy with logit loss.
///
/// * `inp`: the logits, of dimensions `N, C`, where `N` is the batch size and `C` the number of
///   categories.
/// * `target`: the labels, of the same dimensions; `U32`, or of the type of the logits.
///
/// The result is a single number, the mean over all elements. Tensors of more dimensions than the
/// processor walks through are computed with as vectors.
pub fn binary_cross_entropy_with_logit(inp: &Tensor, target: &Tensor) -> (r: Result<
    Tensor,
    LossError,
>)
    ensures
        r matches Err(e) ==> if tensor_on_cpu(*inp) && !tensor_dtype(*inp).is_row_float() {
            e@ == (ErrorOf::<Seq<usize>, Seq<char>>::SigmoidDType { dtype: tensor_dtype(*inp) })
        } else {
            match depth_fault(*inp, *target) {
                Some(f) => e@ == f,
                None => e is Backend,
            }
        },
        binary_labels_refused(*inp, *target) ==> r is Err,
        tensor_on_cpu(*inp) && !tensor_dtype(*inp).is_row_float() ==> r is Err,
        both_on_cpu(*inp, *target) ==> (r is Ok <==> tensor_dtype(*inp).is_row_float()
            && binary_labels_work(*inp, *target) && depth_fault(*inp, *target) is None),
        r matches Ok(o) ==> holds_binary_cross_entropy(*inp, *target, o) && carries_pair(
            o,
            *target,
            *inp,
        ),
{
    if on_cpu(inp) {
        match dtype(inp) {
            DType::BF16 | DType::F16 | DType::F32 | DType::F64 => {},
            dtype => {
                return Err(ErrorOf::SigmoidDType { dtype });
            },
        }
    }
    match leveled(inp, target)? {
        Some((a, b)) => binary_cross_entropy_of(&a, &b),
        None => binary_cross_entropy_of(inp, target),
    }
}

/// The numbers that the Huber loss takes from its threshold.
pub struct HuberTerms {
    /// The threshold.
    pub delta: int,
    /// One half.
    pub half: int,
    /// Half the square of the threshold.
    pub offset: int,
}

/// Whether the terms of the Huber loss come from a threshold: they are computed in double precision
/// and converted to the element type.
pub open spec fn is_huber_terms(dtype: DType, delta: int, t: HuberTerms) -> bool {
    exists|two: int, half: int, square: int, offset: int|
        {
            &&& is_conversion(DType::I64, DType::F64, 2, two)
            &&& #[trigger] is_reciprocal(DType::F64, two, half)
            &&& #[trigger] is_product(DType::F64, delta, delta, square)
            &&& #[trigger] is_product(DType::F64, square, half, offset)
            &&& converted(DType::F64, dtype, delta, t.delta)
            &&& converted(DType::F64, dtype, half, t.half)
            &&& converted(DType::F64, dtype, offset, t.offset)
        }
}

/// Whether `r` is half the square of a difference.
pub open spec fn is_half_square(dtype: DType, t: HuberTerms, diff: int, r: int) -> bool {
    exists|square: int|
        #[trigger] is_product(dtype, diff, diff, square) && is_product(dtype, square, t.half, r)
}

/// Whether `r` is the threshold times the magnitude of a difference, less half the square of the
/// threshold.
pub open spec fn is_linear_term(dtype: DType, t: HuberTerms, size: int, r: int) -> bool {
    exists|scaled: int|
        #[trigger] is_product(dtype, size, t.delta, scaled) && is_difference(
            dtype,
            scaled,
            t.offset,
            r,
        )
}

/// Whether `r` is the Huber loss of two elements: the squared term where the magnitude of their
/// difference is found below the threshold, and the linear term elsewhere.
pub open spec fn is_huber(dtype: DType, t: HuberTerms, x: int, y: int, r: int) -> bool {
    exists|diff: int, size: int, below: bool|
        {
            &&& #[trigger] is_difference(dtype, x, y, diff)
            &&& is_magnitude(dtype, diff, size)
            &&& #[trigger] is_below(dtype, size, t.delta, below)
            &&& if below {
                is_half_square(dtype, t, diff, r)
            } else {
                is_linear_term(dtype, t, size, r)
            }
        }
}

/// Whether `rs` holds the Huber loss of each pair of elements.
pub open spec fn are_huber(
    dtype: DType,
    t: HuberTerms,
    xs: Seq<int>,
    ys: Seq<int>,
    rs: Seq<int>,
) -> bool {
    each2(|x: int, y: int, z: int| is_huber(dtype, t, x, y, z), xs, ys, rs)
}

/// Whether a number is the Huber loss: the mean over the elements.
pub open spec fn is_huber_loss(inp: Tensor, target: Tensor, delta: int, r: int) -> bool {
    exists|t: HuberTerms, losses: Seq<int>|
        {
            &&& is_huber_terms(tensor_dtype(inp), delta, t)
            &&& #[trigger] are_huber(
                tensor_dtype(inp),
                t,
                tensor_values(inp),
                tensor_values(target),
                losses,
            )
            &&& is_mean(tensor_dtype(inp), losses, r)
        }
}

/// A number as a tensor of the element type of another tensor, and where that lies.
fn constant_like(value: &Tensor, like: &Tensor) -> (r: Result<Tensor, LossError>)
    requires
        tensor_on_cpu(*value),
        tensor_dtype(*value) == DType::F64,
        readable(*value),
    ensures
        r matches Err(e) ==> e is Backend,
        tensor_on_cpu(*like) ==> (r is Ok <==> !tensor_dtype(*like).is_stored_only()),
        r matches Ok(o) ==> tensor_dims(o) == tensor_dims(*value) && tensor_dtype(o)
            == tensor_dtype(*like) && tensor_on_cpu(o) == tensor_on_cpu(*like)
            && tensor_values(*value).len() == tensor_values(o).len() && (tensor_values(*value).len()
            == 1 ==> converted(
            DType::F64,
            tensor_dtype(*like),
            tensor_values(*value)[0],
            tensor_values(o)[0],
        )),
{
    let typed = from_backend(convert(value, dtype(like)))?;
    from_backend(move_to(&typed, like))
}

/// The tensors that hold the terms of the Huber loss.
struct HuberTensors {
    delta: Tensor,
    half: Tensor,
    offset: Tensor,
}

impl HuberTensors {
    /// The terms that the tensors hold.
    spec fn terms(&self) -> HuberTerms {
        HuberTerms {
            delta: tensor_values(self.delta)[0],
            half: tensor_values(self.half)[0],
            offset: tensor_values(self.offset)[0],
        }
    }

    /// Whether each tensor is a single number of the element type of another, and where that lies.
    spec fn formed_for(&self, like: Tensor) -> bool {
        &&& is_scalar_like(self.delta, like)
        &&& is_scalar_like(self.half, like)
        &&& is_scalar_like(self.offset, like)
    }
}

/// The terms of the Huber loss for a threshold.
fn huber_terms(delta: Scalar, like: &Tensor) -> (r: Result<HuberTensors, LossError>)
    ensures
        r matches Err(e) ==> e is Backend,
        tensor_on_cpu(*like) ==> (r is Ok <==> !tensor_dtype(*like).is_stored_only()),
        r matches Ok(t) ==> t.formed_for(*like) && is_huber_terms(
            tensor_dtype(*like),
            scalar_value(delta),
            t.terms(),
        ),
{
    let ghost none = Seq::<usize>::empty();
    assert(count(none) == 1);
    let dims: Vec<usize> = Vec::new();
    assert(dims@ =~= none);
    let wide = from_backend(number(delta))?;
    let two = from_backend(integers(vec![2], dims))?;
    let wide_two = from_backend(convert(&two, DType::F64))?;
    let wide_half = from_backend(wide_two.recip())?;
    let square = from_backend(wide.mul(&wide))?;
    let wide_offset = from_backend(square.mul(&wide_half))?;
    proof {
        assert(tensor_values(two)[0] == 2);
        assert(is_conversion(DType::I64, DType::F64, 2, tensor_values(wide_two)[0]));
        assert(is_reciprocal(DType::F64, tensor_values(wide_two)[0], tensor_values(wide_half)[0]));
        assert(is_product(
            DType::F64,
            scalar_value(delta),
            scalar_value(delta),
            tensor_values(square)[0],
        ));
        assert(is_product(
            DType::F64,
            tensor_values(square)[0],
            tensor_values(wide_half)[0],
            tensor_values(wide_offset)[0],
        ));
    }
    let delta = constant_like(&wide, like)?;
    let half = constant_like(&wide_half, like)?;
    let offset = constant_like(&wide_offset, like)?;
    Ok(HuberTensors { delta, half, offset })
}

/// What is wrong with the dimensions of input and target of the Huber loss.
pub open spec fn huber_fault(inp: Seq<usize>, target: Seq<usize>) -> Option<Fault> {
    if inp != target {
        Some(ErrorOf::ShapeMismatch { inp, target })
    } else {
        None
    }
}

/// The Huber loss of tensors of the same dimensions that do not have too many of them.
fn huber_of(inp: &Tensor, target: &Tensor, delta: Scalar) -> (r: Result<Tensor, LossError>)
    requires
        tensor_dims(*inp) == tensor_dims(*target),
        !errors_on_integers(*inp, *target),
        !too_deep(*inp, *target),
    ensures
        r matches Err(e) ==> e is Backend,
        errors_refused(*inp, *target) ==> r is Err,
        both_on_cpu(*inp, *target) ==> (r is Ok <==> errors_work(*inp, *target)),
        r matches Ok(o) ==> is_scalar_like(o, *inp) && is_huber_loss(
            *inp,
            *target,
            scalar_value(delta),
            tensor_values(o)[0],
        ) && carries_pair(o, *inp, *target),
{
    let diff = from_backend(inp.sub(target))?;
    let terms = huber_terms(delta, inp)?;
    if has_no_elements(inp.dims()) {
        let none = renewed(inp)?;
        assert(are_huber(
            tensor_dtype(*inp),
            terms.terms(),
            tensor_values(*inp),
            tensor_values(*target),
            tensor_values(none),
        ));
        return from_backend(none.mean_all());
    }
    let size = from_backend(diff.abs())?;
    let mask = from_backend(size.broadcast_lt(&terms.delta))?;
    let square = from_backend(diff.mul(&diff))?;
    let squared = from_backend(square.broadcast_mul(&terms.half))?;
    let scaled = from_backend(size.broadcast_mul(&terms.delta))?;
    let linear = from_backend(scaled.broadcast_sub(&terms.offset))?;
    let losses = from_backend(mask.where_cond(&squared, &linear))?;
    proof {
        let d = tensor_dtype(*inp);
        let t = terms.terms();
        let (xs, ys, rs) = (tensor_values(*inp), tensor_values(*target), tensor_values(losses));
        assert forall|i: int| 0 <= i < rs.len() implies is_huber(
            d,
            t,
            xs[i],
            ys[i],
            #[trigger] rs[i],
        ) by {
            let (df, sz) = (tensor_values(diff)[i], tensor_values(size)[i]);
            assert(is_difference(d, xs[i], ys[i], df));
            assert(is_magnitude(d, df, sz));
            let below = tensor_values(mask)[i] == 1;
            assert(is_below(d, sz, t.delta, below));
            assert(is_product(d, df, df, tensor_values(square)[i]));
            assert(is_product(d, tensor_values(square)[i], t.half, tensor_values(squared)[i]));
            assert(is_product(d, sz, t.delta, tensor_values(scaled)[i]));
            assert(is_difference(d, tensor_values(scaled)[i], t.offset, tensor_values(linear)[i]));
        }
        assert(are_huber(d, t, xs, ys, rs));
    }
    from_backend(losses.mean_all())
}

/// The Huber loss, which joins the squared and the absolute error.
///
/// * Where the magnitude of an element's error is less than `delta`, half its square counts.
/// * Elsewhere `delta` times the magnitude counts, less half the square of `delta`.
///
/// The result is a single number, the mean over all elements. Tensors of more dimensions than the
/// processor walks through are computed with as vectors.
pub fn huber(inp: &Tensor, target: &Tensor, delta: Scalar) -> (r: Result<Tensor, LossError>)
    requires
        !errors_on_integers(*inp, *target),
    ensures
        r matches Err(e) ==> match huber_fault(tensor_dims(*inp), tensor_dims(*target)) {
            Some(f) => e@ == f,
            None => match depth_fault(*inp, *target) {
                Some(f) => e@ == f,
                None => e is Backend,
            },
        },
        errors_refused(*inp, *target) ==> r is Err,
        both_on_cpu(*inp, *target) ==> (r is Ok <==> errors_work(*inp, *target) && depth_fault(
            *inp,
            *target,
        ) is None),
        r matches Ok(o) ==> huber_fault(tensor_dims(*inp), tensor_dims(*target)) is None
            && is_scalar_like(o, *inp) && is_huber_loss(
            *inp,
            *target,
            scalar_value(delta),
            tensor_values(o)[0],
        ) && carries_pair(o, *inp, *target),
{
    if !same_dims(inp.dims(), target.dims()) {
        return Err(
            ErrorOf::ShapeMismatch {
                inp: slice_to_vec(inp.dims()),
                target: slice_to_vec(target.dims()),
            },
        );
    }
    match leveled(inp, target)? {
        Some((a, b)) => huber_of(&a, &b, delta),
        None => huber_of(inp, target, delta),
    }
}

/// The Huber loss, or `None` for integers of the same type.
pub fn checked_huber(inp: &Tensor, target: &Tensor, delta: Scalar) -> (r: Option<
    Result<Tensor, LossError>,
>)
    ensures
        r is None <==> both_integer(*inp, *target),
        r matches Some(q) ==> call_ensures(huber, (inp, target, delta), q),
{
    if are_both_integer(inp, target) {
        None
    } else {
        Some(huber(inp, target, delta))
    }
}

} // verus!
