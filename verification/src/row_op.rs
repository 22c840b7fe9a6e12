//! The row losses and their gradients as operations that the tensor backend runs and
//! differentiates.

use crate::backend::{dtype, move_to, on_cpu, on_metal, readable, stored_dtype};
use crate::dtype::DType;
use crate::error::{
    error_text, found_in_op, from_backend, into_backend, message_of, ErrorOf, Fault, LossError,
};
use crate::label::{labels_fault, target_fault, target_indices};
use crate::launch::{backward_dims, grad_dims_fault, is_metal_float, reads_plainly};
use crate::model::{
    both_contiguous, both_on_cpu, carries, count, countable, formed_like, layout_contiguous,
    layout_dims, lemma_count, lemma_vector_countable, shape_dims, storage_dtype, storage_values,
    tensor_contiguous, tensor_dims, tensor_dtype, tensor_fresh, tensor_on_cpu, tensor_on_metal,
    tensor_values,
};
use crate::rows::{
    cross_entropy_rows_cpu_bwd, cross_entropy_rows_cpu_fwd, gradient_fault, no_integers, precision,
    precision_of, row_gradients_of, row_losses_of, rows_fault,
};
use crate::shape::{
    contiguous_offsets, cross_entropy_dims, dims_fault, fits_storage, has_no_elements,
    reads_stretch, stretch, within,
};
use crate::steps::{labels_suffice, step_gradients, step_losses};
use candle_core::{CpuStorage, CustomOp2, CustomOp3, Error, Layout, Shape, Tensor};
use vstd::prelude::*;

verus! {

/// What keeps the row losses from being computed: the first of the rules that the logits and the
/// target break.
pub open spec fn forward_fault(s1: CpuStorage, l1: Layout, s2: CpuStorage, l2: Layout) -> Option<
    Fault,
> {
    let (inp, target) = (layout_dims(l1), layout_dims(l2));
    if dims_fault(inp, target) is Some {
        dims_fault(inp, target)
    } else if target_fault(s2, l2, inp[0], inp[1]) is Some {
        target_fault(s2, l2, inp[0], inp[1])
    } else if !storage_dtype(s1).is_row_float() {
        Some(ErrorOf::InputDType { dtype: storage_dtype(s1) })
    } else if rows_fault(l1) is Some {
        rows_fault(l1)
    } else if !within(s1, l1) {
        Some(ErrorOf::OutOfStorage)
    } else {
        None
    }
}

/// Whether a storage and a shape hold the loss of each row.
pub open spec fn holds_row_losses(
    s1: CpuStorage,
    l1: Layout,
    s2: CpuStorage,
    l2: Layout,
    p: (CpuStorage, Shape),
) -> bool {
    &&& storage_dtype(p.0) == storage_dtype(s1)
    &&& shape_dims(p.1) == seq![layout_dims(l1)[0]]
    &&& row_losses_of(
        precision(true, storage_dtype(s1)),
        stretch(s1, l1),
        layout_dims(l1)[1] as int,
        stretch(s2, l2),
        storage_values(p.0),
    )
}

/// The loss of each row of the logits in the first storage, under the labels in the second.
pub fn forward(s1: &CpuStorage, l1: &Layout, s2: &CpuStorage, l2: &Layout) -> (r: Result<
    (CpuStorage, Shape),
    LossError,
>)
    ensures
        r matches Ok(p) ==> forward_fault(*s1, *l1, *s2, *l2) is None && holds_row_losses(
            *s1,
            *l1,
            *s2,
            *l2,
            p,
        ),
        r matches Err(e) ==> forward_fault(*s1, *l1, *s2, *l2) == Some(e@),
{
    let (b_sz, n_classes) = cross_entropy_dims(l1, l2)?;
    let target = target_indices(s2, l2, b_sz, n_classes)?;
    match stored_dtype(s1) {
        DType::BF16 | DType::F16 | DType::F32 | DType::F64 => {},
        dtype => {
            return Err(ErrorOf::InputDType { dtype });
        },
    }
    if !fits_storage(s1, l1) {
        return Err(ErrorOf::OutOfStorage);
    }
    cross_entropy_rows_cpu_fwd(s1, l1, &target)
}

/// Whether the backend is given the row losses, or an error that says what keeps them from being
/// computed.
pub open spec fn forward_outcome(
    s1: CpuStorage,
    l1: Layout,
    s2: CpuStorage,
    l2: Layout,
    r: Result<(CpuStorage, Shape), Error>,
) -> bool {
    match r {
        Ok(p) => forward_fault(s1, l1, s2, l2) is None && holds_row_losses(s1, l1, s2, l2, p),
        Err(e) => match forward_fault(s1, l1, s2, l2) {
            Some(f) => error_text(e) == message_of(f),
            None => false,
        },
    }
}

/// What keeps the row gradients from being computed: the first of the rules that the logits, the
/// target and the gradient break.
pub open spec fn backward_fault(
    s1: CpuStorage,
    l1: Layout,
    s2: CpuStorage,
    l2: Layout,
    s3: CpuStorage,
    l3: Layout,
) -> Option<Fault> {
    let (inp, target) = (layout_dims(l1), layout_dims(l2));
    if dims_fault(inp, target) is Some {
        dims_fault(inp, target)
    } else if target_fault(s2, l2, inp[0], inp[1]) is Some {
        target_fault(s2, l2, inp[0], inp[1])
    } else if !storage_dtype(s1).is_row_float() || storage_dtype(s3) != storage_dtype(s1) {
        Some(ErrorOf::BackwardDType { inp: storage_dtype(s1), grad: storage_dtype(s3) })
    } else if gradient_fault(l1, l3) is Some {
        gradient_fault(l1, l3)
    } else if !within(s1, l1) || !within(s3, l3) {
        Some(ErrorOf::OutOfStorage)
    } else {
        None
    }
}

/// Whether a storage and a shape hold the gradient of each row.
pub open spec fn holds_row_gradients(
    s1: CpuStorage,
    l1: Layout,
    s2: CpuStorage,
    l2: Layout,
    s3: CpuStorage,
    l3: Layout,
    p: (CpuStorage, Shape),
) -> bool {
    &&& storage_dtype(p.0) == storage_dtype(s1)
    &&& shape_dims(p.1) == layout_dims(l1)
    &&& row_gradients_of(
        precision(true, storage_dtype(s1)),
        stretch(s1, l1),
        layout_dims(l1)[1] as int,
        stretch(s2, l2),
        stretch(s3, l3),
        storage_values(p.0),
    )
}

/// The gradient of each row of the logits in the first storage, under the labels in the second,
/// where the third holds the gradients of the rows' losses.
pub fn backward(
    s1: &CpuStorage,
    l1: &Layout,
    s2: &CpuStorage,
    l2: &Layout,
    s3: &CpuStorage,
    l3: &Layout,
) -> (r: Result<(CpuStorage, Shape), LossError>)
    ensures
        r matches Ok(p) ==> backward_fault(*s1, *l1, *s2, *l2, *s3, *l3) is None
            && holds_row_gradients(*s1, *l1, *s2, *l2, *s3, *l3, p),
        r matches Err(e) ==> backward_fault(*s1, *l1, *s2, *l2, *s3, *l3) == Some(e@),
{
    let (b_sz, n_classes) = cross_entropy_dims(l1, l2)?;
    let target = target_indices(s2, l2, b_sz, n_classes)?;
    let grad = stored_dtype(s3);
    match stored_dtype(s1) {
        DType::BF16 if grad == DType::BF16 => {},
        DType::F16 if grad == DType::F16 => {},
        DType::F32 if grad == DType::F32 => {},
        DType::F64 if grad == DType::F64 => {},
        inp => {
            return Err(ErrorOf::BackwardDType { inp, grad });
        },
    }
    let grad_dims = l3.dims();
    if grad_dims.len() == 1 && grad_dims[0] == b_sz {
        assert(grad_dims@ =~= seq![b_sz]);
        let read = contiguous_offsets(l1).is_some() && contiguous_offsets(l3).is_some();
        if read && !(fits_storage(s1, l1) && fits_storage(s3, l3)) {
            return Err(ErrorOf::OutOfStorage);
        }
    }
    cross_entropy_rows_cpu_bwd(s1, l1, &target, s3, l3)
}

/// Whether the backend is given the row gradients, or an error that says what keeps them from being
/// computed.
pub open spec fn backward_outcome(
    s1: CpuStorage,
    l1: Layout,
    s2: CpuStorage,
    l2: Layout,
    s3: CpuStorage,
    l3: Layout,
    r: Result<(CpuStorage, Shape), Error>,
) -> bool {
    match r {
        Ok(p) => backward_fault(s1, l1, s2, l2, s3, l3) is None && holds_row_gradients(
            s1,
            l1,
            s2,
            l2,
            s3,
            l3,
            p,
        ),
        Err(e) => match backward_fault(s1, l1, s2, l2, s3, l3) {
            Some(f) => error_text(e) == message_of(f),
            None => false,
        },
    }
}

/// The operation that takes logits and labels to the cross-entropy of each row.
pub struct CrossEntropyRows;

/// The operation that takes logits, labels and the gradient of each row's loss to the gradient of
/// the logits.
pub struct CrossEntropyRowsBackward;

impl CustomOp2 for CrossEntropyRows {
    fn name(&self) -> (r: &'static str)
        ensures
            r@ == "cross-entropy-rows"@,
    {
        "cross-entropy-rows"
    }

    fn cpu_fwd(&self, s1: &CpuStorage, l1: &Layout, s2: &CpuStorage, l2: &Layout) -> (r: Result<
        (CpuStorage, Shape),
        Error,
    >)
        ensures
            forward_outcome(*s1, *l1, *s2, *l2, r),
    {
        match forward(s1, l1, s2, l2) {
            Ok(p) => Ok(p),
            Err(e) => Err(into_backend(e)),
        }
    }

    fn bwd(&self, arg1: &Tensor, arg2: &Tensor, _res: &Tensor, grad_res: &Tensor) -> (r: Result<
        (Option<Tensor>, Option<Tensor>),
        Error,
    >)
        ensures
            !same_place(*arg1, *arg2, *grad_res) ==> r is Err,
            r matches Ok(p) ==> gradients_fault(*arg1, *arg2, *grad_res) is None && p.1 is None && (
            p.0 matches Some(o) && is_gradient(*arg1, *arg2, *grad_res, o)),
            all_on_cpu(*arg1, *arg2, *grad_res) && (r is Err) ==> gradients_fault(
                *arg1,
                *arg2,
                *grad_res,
            ) is Some,
            same_place(*arg1, *arg2, *grad_res) && storable(*grad_res) ==> match gradients_fault(
                *arg1,
                *arg2,
                *grad_res,
            ) {
                Some(f) => r matches Err(e) && error_text(e) == message_of(f),
                None => true,
            },
    {
        match gradients_anew(arg1, arg2, grad_res) {
            Ok(grad) => Ok((Some(grad), None)),
            Err(e) => Err(into_backend(e)),
        }
    }
}

impl CustomOp3 for CrossEntropyRowsBackward {
    fn name(&self) -> (r: &'static str)
        ensures
            r@ == "cross-entropy-rows-bwd"@,
    {
        "cross-entropy-rows-bwd"
    }

    fn cpu_fwd(
        &self,
        s1: &CpuStorage,
        l1: &Layout,
        s2: &CpuStorage,
        l2: &Layout,
        s3: &CpuStorage,
        l3: &Layout,
    ) -> (r: Result<(CpuStorage, Shape), Error>)
        ensures
            backward_outcome(*s1, *l1, *s2, *l2, *s3, *l3, r),
    {
        match backward(s1, l1, s2, l2, s3, l3) {
            Ok(p) => Ok(p),
            Err(e) => Err(into_backend(e)),
        }
    }
}

/// Whether a storage and a layout are those of a tensor.
pub open spec fn reads(t: Tensor, s: CpuStorage, l: Layout) -> bool {
    &&& layout_dims(l) == tensor_dims(t)
    &&& layout_contiguous(l) == tensor_contiguous(t)
    &&& storage_dtype(s) == tensor_dtype(t)
    &&& storage_values(s).len() <= isize::MAX
    &&& tensor_contiguous(t) ==> within(s, l) && stretch(s, l) == tensor_values(t)
}

/// Whether a tensor is made of what an operation gave, or the operation's error handed on.
pub open spec fn handed_on(
    p: Result<(CpuStorage, Shape), Error>,
    r: Result<Tensor, Error>,
) -> bool {
    match (p, r) {
        (Ok(q), Ok(o)) => {
            &&& tensor_dims(o) == shape_dims(q.1)
            &&& tensor_dtype(o) == storage_dtype(q.0)
            &&& tensor_on_cpu(o)
            &&& tensor_contiguous(o)
            &&& tensor_fresh(o)
            &&& tensor_values(o) == storage_values(q.0)
        },
        (Err(e), Err(f)) => error_text(f) == error_text(e),
        _ => false,
    }
}

/// Whether a result is what the backend makes of the row losses for two tensors on the processor.
pub open spec fn forward_ran(inp: Tensor, target: Tensor, r: Result<Tensor, Error>) -> bool {
    exists|
        s1: CpuStorage,
        l1: Layout,
        s2: CpuStorage,
        l2: Layout,
        p: Result<(CpuStorage, Shape), Error>,
    |
        {
            &&& reads(inp, s1, l1)
            &&& reads(target, s2, l2)
            &&& #[trigger] forward_outcome(s1, l1, s2, l2, p)
            &&& handed_on(p, r)
        }
}

/// Whether a result is what the backend makes of the row gradients for three tensors on the
/// processor.
pub open spec fn backward_ran(
    inp: Tensor,
    target: Tensor,
    grad: Tensor,
    r: Result<Tensor, Error>,
) -> bool {
    exists|
        s1: CpuStorage,
        l1: Layout,
        s2: CpuStorage,
        l2: Layout,
        s3: CpuStorage,
        l3: Layout,
        p: Result<(CpuStorage, Shape), Error>,
    |
        {
            &&& reads(inp, s1, l1)
            &&& reads(target, s2, l2)
            &&& reads(grad, s3, l3)
            &&& #[trigger] backward_outcome(s1, l1, s2, l2, s3, l3, p)
            &&& handed_on(p, r)
        }
}

/// Whether a tensor was made by `CrossEntropyRows` from logits and labels, and remembers the
/// operation and both of them for differentiation as far as one of them takes part in it: its
/// gradient is then asked of `CrossEntropyRows::bwd`.
pub uninterp spec fn remembers_rows(o: Tensor, inp: Tensor, target: Tensor) -> bool;

/// Calls `Tensor::apply_op2` with `CrossEntropyRows`. On the processor it runs the operation's
/// `cpu_fwd` on the storages and layouts of the two tensors and makes a tensor of what that gives,
/// which remembers the operation for differentiation. It fails elsewhere, as the operation has no
/// other forward pass, and where the tensors lie in different places.
#[verifier::external_body]
fn run_forward(inp: &Tensor, target: &Tensor) -> (r: Result<Tensor, Error>)
    ensures
        both_on_cpu(*inp, *target) ==> forward_ran(*inp, *target, r),
        !both_on_cpu(*inp, *target) ==> r is Err,
        r matches Ok(o) ==> remembers_rows(o, *inp, *target) && carries(o, *inp) && carries(
            o,
            *target,
        ),
{
    inp.apply_op2(target, CrossEntropyRows)
}

/// Calls `Tensor::apply_op3_no_bwd` with `CrossEntropyRowsBackward`. On the processor it runs the
/// operation's `cpu_fwd` on the storages and layouts of the three tensors and makes a tensor of
/// what that gives. It fails elsewhere, as the operation has no other forward pass, and where the
/// tensors lie in different places.
#[verifier::external_body]
fn run_backward(inp: &Tensor, target: &Tensor, grad: &Tensor) -> (r: Result<Tensor, Error>)
    ensures
        both_on_cpu(*inp, *target) && tensor_on_cpu(*grad) ==> backward_ran(
            *inp,
            *target,
            *grad,
            r,
        ),
        !both_on_cpu(*inp, *target) || !tensor_on_cpu(*grad) ==> r is Err,
{
    inp.apply_op3_no_bwd(target, grad, &CrossEntropyRowsBackward)
}

/// What keeps the loss of each row of a tensor from being computed on the processor.
pub open spec fn rows_tensor_fault(inp: Tensor, target: Tensor) -> Option<Fault> {
    let (dims, n) = (tensor_dims(inp), tensor_dims(inp)[1]);
    if dims_fault(dims, tensor_dims(target)) is Some {
        dims_fault(dims, tensor_dims(target))
    } else if !tensor_contiguous(target) {
        Some(ErrorOf::TargetStrided)
    } else if !tensor_dtype(target).is_label() {
        Some(ErrorOf::TargetStorage { dtype: tensor_dtype(target) })
    } else if labels_fault(tensor_values(target), n) is Some {
        labels_fault(tensor_values(target), n)
    } else if !tensor_dtype(inp).is_row_float() {
        Some(ErrorOf::InputDType { dtype: tensor_dtype(inp) })
    } else if !tensor_contiguous(inp) {
        Some(ErrorOf::InputStrided)
    } else {
        None
    }
}

proof fn lemma_reads_stretch(t: Tensor, s: CpuStorage, l: Layout)
    requires
        reads(t, s, l),
        tensor_dims(t).len() == 1 || tensor_dims(t).len() == 2,
    ensures
        reads_stretch(l) <==> tensor_contiguous(t),
        tensor_dims(t).len() == 1 ==> count(layout_dims(l)) == tensor_dims(t)[0],
{
    let dims = layout_dims(l);
    let (b, c) = (dims[0], dims[1]);
    if dims.len() == 1 {
        lemma_count(b, 0);
        assert(dims =~= seq![b]);
        assert(dims.drop_first() =~= Seq::<usize>::empty());
        assert(countable(dims.drop_first()));
    } else {
        lemma_count(b, c);
        lemma_count(c, 0);
        assert(dims =~= seq![b, c]);
        assert(dims.drop_first() =~= seq![c]);
        assert(seq![c].drop_first() =~= Seq::<usize>::empty());
        assert(countable(seq![c].drop_first()));
        assert(countable(dims.drop_first()));
    }
}

proof fn lemma_forward_fault(
    inp: Tensor,
    target: Tensor,
    s1: CpuStorage,
    l1: Layout,
    s2: CpuStorage,
    l2: Layout,
)
    requires
        reads(inp, s1, l1),
        reads(target, s2, l2),
    ensures
        forward_fault(s1, l1, s2, l2) == rows_tensor_fault(inp, target),
{
    if dims_fault(tensor_dims(inp), tensor_dims(target)) is None {
        lemma_reads_stretch(inp, s1, l1);
        lemma_reads_stretch(target, s2, l2);
    }
}

/// What keeps the loss of each row of a tensor from being computed on an accelerator.
pub open spec fn rows_device_fault(inp: Tensor, target: Tensor) -> Option<Fault> {
    let (a, b) = (tensor_dtype(inp), tensor_dtype(target));
    if dims_fault(tensor_dims(inp), tensor_dims(target)) is Some {
        dims_fault(tensor_dims(inp), tensor_dims(target))
    } else if !(countable(tensor_dims(inp)) && both_contiguous(inp, target)) {
        if tensor_on_metal(inp) {
            Some(ErrorOf::MetalStrided)
        } else {
            Some(ErrorOf::CudaStrided)
        }
    } else if tensor_on_metal(inp) {
        if !is_metal_float(a) || b != DType::U32 {
            Some(ErrorOf::MetalDType { inp: a, target: b })
        } else {
            None
        }
    } else if b != DType::U32 {
        Some(ErrorOf::CudaLabelDType)
    } else if !a.is_row_float() {
        Some(ErrorOf::CudaDType { dtype: a })
    } else {
        None
    }
}

/// The number of rows of logits whose losses can be computed on an accelerator.
fn device_rows(inp: &Tensor, target: &Tensor) -> (r: Result<usize, LossError>)
    ensures
        r matches Ok(b) ==> rows_device_fault(*inp, *target) is None && b == tensor_dims(*inp)[0],
        r matches Err(e) ==> rows_device_fault(*inp, *target) == Some(e@),
{
    let (b_sz, _) = cross_entropy_dims(inp.layout(), target.layout())?;
    proof {
        lemma_vector_countable(tensor_dims(*target));
    }
    let plain = reads_plainly(inp.layout()) && reads_plainly(target.layout());
    let (a, b) = (dtype(inp), dtype(target));
    if on_metal(inp) {
        if !plain {
            return Err(ErrorOf::MetalStrided);
        }
        match (a, b) {
            (DType::F32, DType::U32) | (DType::F16, DType::U32) | (DType::BF16, DType::U32) => {},
            (inp, target) => {
                return Err(ErrorOf::MetalDType { inp, target });
            },
        }
    } else {
        if !plain {
            return Err(ErrorOf::CudaStrided);
        }
        if b != DType::U32 {
            return Err(ErrorOf::CudaLabelDType);
        }
        match a {
            DType::BF16 | DType::F16 | DType::F32 | DType::F64 => {},
            dtype => {
                return Err(ErrorOf::CudaDType { dtype });
            },
        }
    }
    Ok(b_sz)
}

/// What keeps the loss of each row of a tensor from being computed where it lies.
pub open spec fn losses_fault(inp: Tensor, target: Tensor) -> Option<Fault> {
    if tensor_on_cpu(inp) {
        rows_tensor_fault(inp, target)
    } else {
        rows_device_fault(inp, target)
    }
}

/// Whether the losses of logits can be told from their numbers: on an accelerator a label has 32
/// bits, and cannot name each of more classes.
pub open spec fn labels_reach(inp: Tensor) -> bool {
    tensor_on_cpu(inp) || labels_suffice(inp)
}

/// Whether a tensor holds the loss of each row, and remembers the logits. On the processor it
/// remembers that `CrossEntropyRows` made it.
pub open spec fn are_row_losses(inp: Tensor, target: Tensor, o: Tensor) -> bool {
    &&& tensor_dims(o) == seq![tensor_dims(inp)[0]]
    &&& tensor_dtype(o) == tensor_dtype(inp)
    &&& tensor_on_cpu(o) == tensor_on_cpu(inp)
    &&& readable(o)
    &&& carries(o, inp)
    &&& tensor_on_cpu(inp) ==> remembers_rows(o, inp, target)
    &&& labels_reach(inp) ==> row_losses_of(
        precision_of(inp),
        tensor_values(inp),
        tensor_dims(inp)[1] as int,
        tensor_values(target),
        tensor_values(o),
    )
}

/// The loss of each row of the logits, from the operation.
fn losses_from_op(inp: &Tensor, target: &Tensor) -> (r: Result<Tensor, LossError>)
    ensures
        !both_on_cpu(*inp, *target) ==> r is Err,
        r matches Ok(o) ==> rows_tensor_fault(*inp, *target) is None && are_row_losses(
            *inp,
            *target,
            o,
        ) && tensor_fresh(o),
        r matches Err(e) ==> e is Backend,
        both_on_cpu(*inp, *target) ==> (r matches Err(e) ==> match rows_tensor_fault(
            *inp,
            *target,
        ) {
            Some(f) => e@ == found_in_op(f),
            None => false,
        }),
{
    let ran = run_forward(inp, target);
    proof {
        if both_on_cpu(*inp, *target) {
            let (s1, l1, s2, l2, p) = choose|
                s1: CpuStorage,
                l1: Layout,
                s2: CpuStorage,
                l2: Layout,
                p: Result<(CpuStorage, Shape), Error>,
            |
                {
                    &&& reads(*inp, s1, l1)
                    &&& reads(*target, s2, l2)
                    &&& #[trigger] forward_outcome(s1, l1, s2, l2, p)
                    &&& handed_on(p, ran)
                };
            lemma_forward_fault(*inp, *target, s1, l1, s2, l2);
        }
    }
    from_backend(ran)
}

/// The losses of logits without rows, which are computed on the processor and brought back.
fn losses_of_no_rows(inp: &Tensor, target: &Tensor) -> (r: Result<Tensor, LossError>)
    requires
        !tensor_on_cpu(*inp),
        rows_device_fault(*inp, *target) is None,
        tensor_dims(*inp)[0] == 0,
    ensures
        r matches Ok(o) ==> are_row_losses(*inp, *target, o),
        r matches Err(e) ==> e is Backend,
{
    let here = no_integers()?;
    let logits = from_backend(move_to(inp, &here))?;
    let labels = from_backend(move_to(target, &here))?;
    // Without rows there is no label that could be refused.
    let _ = target.dims();
    proof {
        lemma_count(0, 0);
        assert(tensor_dims(*target) =~= seq![0usize]);
    }
    let losses = losses_from_op(&logits, &labels)?;
    from_backend(move_to(&losses, inp))
}

/// The loss of each row of the logits. On an accelerator the losses are computed step by step.
pub fn row_losses(inp: &Tensor, target: &Tensor) -> (r: Result<Tensor, LossError>)
    ensures
        tensor_on_cpu(*inp) != tensor_on_cpu(*target) ==> r is Err,
        both_on_cpu(*inp, *target) ==> (r is Ok <==> losses_fault(*inp, *target) is None),
        tensor_on_cpu(*inp) == tensor_on_cpu(*target) ==> (losses_fault(*inp, *target) matches Some(
            f,
        ) ==> (r matches Err(e) && e@ == found_in_op(f))),
        r matches Ok(o) ==> losses_fault(*inp, *target) is None && are_row_losses(*inp, *target, o),
        r matches Err(e) ==> e is Backend,
{
    if on_cpu(inp) || on_cpu(target) {
        return losses_from_op(inp, target);
    }
    match device_rows(inp, target) {
        Ok(b_sz) => {
            if b_sz == 0 {
                losses_of_no_rows(inp, target)
            } else {
                proof {
                    lemma_count(b_sz, 0);
                    assert(tensor_dims(*target) =~= seq![b_sz]);
                }
                step_losses(inp, target)
            }
        },
        Err(e) => Err(ErrorOf::Backend(into_backend(e))),
    }
}

/// What keeps the gradient of the logits from being computed on the processor.
pub open spec fn gradients_tensor_fault(inp: Tensor, target: Tensor, grad: Tensor) -> Option<
    Fault,
> {
    let (dims, n) = (tensor_dims(inp), tensor_dims(inp)[1]);
    if dims_fault(dims, tensor_dims(target)) is Some {
        dims_fault(dims, tensor_dims(target))
    } else if !tensor_contiguous(target) {
        Some(ErrorOf::TargetStrided)
    } else if !tensor_dtype(target).is_label() {
        Some(ErrorOf::TargetStorage { dtype: tensor_dtype(target) })
    } else if labels_fault(tensor_values(target), n) is Some {
        labels_fault(tensor_values(target), n)
    } else if !tensor_dtype(inp).is_row_float() || tensor_dtype(grad) != tensor_dtype(inp) {
        Some(ErrorOf::BackwardDType { inp: tensor_dtype(inp), grad: tensor_dtype(grad) })
    } else if tensor_dims(grad) != seq![dims[0]] {
        Some(ErrorOf::GradShape { expected: dims[0], dims: tensor_dims(grad) })
    } else if !tensor_contiguous(inp) {
        Some(ErrorOf::InputStrided)
    } else {
        None
    }
}

proof fn lemma_backward_fault(
    inp: Tensor,
    target: Tensor,
    grad: Tensor,
    s1: CpuStorage,
    l1: Layout,
    s2: CpuStorage,
    l2: Layout,
    s3: CpuStorage,
    l3: Layout,
)
    requires
        reads(inp, s1, l1),
        reads(target, s2, l2),
        reads(grad, s3, l3),
        tensor_contiguous(grad) || tensor_dims(grad).len() != 1,
    ensures
        backward_fault(s1, l1, s2, l2, s3, l3) == gradients_tensor_fault(inp, target, grad),
{
    if dims_fault(tensor_dims(inp), tensor_dims(target)) is None {
        lemma_reads_stretch(inp, s1, l1);
        lemma_reads_stretch(target, s2, l2);
        if tensor_dims(grad).len() == 1 {
            lemma_reads_stretch(grad, s3, l3);
        }
    }
}

/// Whether all of three tensors lie in the memory of the processor.
pub open spec fn all_on_cpu(a: Tensor, b: Tensor, c: Tensor) -> bool {
    both_on_cpu(a, b) && tensor_on_cpu(c)
}

/// Whether three tensors lie in the memory of the processor, or all of them elsewhere.
pub open spec fn same_place(a: Tensor, b: Tensor, c: Tensor) -> bool {
    tensor_on_cpu(a) == tensor_on_cpu(b) && tensor_on_cpu(b) == tensor_on_cpu(c)
}

/// What keeps the gradient of the logits from being computed on an accelerator.
pub open spec fn gradients_device_fault(inp: Tensor, target: Tensor, grad: Tensor) -> Option<
    Fault,
> {
    let dims = (tensor_dims(inp), tensor_dims(target), tensor_dims(grad));
    let (a, b, c) = (tensor_dtype(inp), tensor_dtype(target), tensor_dtype(grad));
    if grad_dims_fault(dims.0, dims.1, dims.2) is Some {
        grad_dims_fault(dims.0, dims.1, dims.2)
    } else if !(countable(dims.0) && both_contiguous(inp, target)) {
        if tensor_on_metal(inp) {
            Some(ErrorOf::MetalBackwardStrided)
        } else {
            Some(ErrorOf::CudaBackwardStrided)
        }
    } else if tensor_on_metal(inp) {
        if !is_metal_float(a) || b != DType::U32 || c != a {
            Some(ErrorOf::MetalBackwardDType { inp: a, target: b, grad: c })
        } else {
            None
        }
    } else if b != DType::U32 {
        Some(ErrorOf::CudaLabelDType)
    } else if !a.is_row_float() || c != a {
        Some(ErrorOf::CudaBackwardDType { inp: a, grad: c })
    } else {
        None
    }
}

/// The number of rows of logits whose gradient can be computed on an accelerator.
fn device_gradient_rows(inp: &Tensor, target: &Tensor, grad: &Tensor) -> (r: Result<
    usize,
    LossError,
>)
    ensures
        r matches Ok(b) ==> gradients_device_fault(*inp, *target, *grad) is None && b
            == tensor_dims(*inp)[0],
        r matches Err(e) ==> gradients_device_fault(*inp, *target, *grad) == Some(e@),
{
    let (b_sz, _) = backward_dims(inp.layout(), target.layout(), grad.layout())?;
    proof {
        lemma_vector_countable(tensor_dims(*target));
    }
    let plain = reads_plainly(inp.layout()) && reads_plainly(target.layout());
    let (a, b, c) = (dtype(inp), dtype(target), dtype(grad));
    if on_metal(inp) {
        if !plain {
            return Err(ErrorOf::MetalBackwardStrided);
        }
        match (a, b, c) {
            (DType::F32, DType::U32, DType::F32) => {},
            (DType::F16, DType::U32, DType::F16) => {},
            (DType::BF16, DType::U32, DType::BF16) => {},
            (inp, target, grad) => {
                return Err(ErrorOf::MetalBackwardDType { inp, target, grad });
            },
        }
    } else {
        if !plain {
            return Err(ErrorOf::CudaBackwardStrided);
        }
        if b != DType::U32 {
            return Err(ErrorOf::CudaLabelDType);
        }
        match a {
            DType::BF16 if c == DType::BF16 => {},
            DType::F16 if c == DType::F16 => {},
            DType::F32 if c == DType::F32 => {},
            DType::F64 if c == DType::F64 => {},
            inp => {
                return Err(ErrorOf::CudaBackwardDType { inp, grad: c });
            },
        }
    }
    Ok(b_sz)
}

/// What keeps the gradient of the logits from being computed where they lie.
pub open spec fn gradients_fault(inp: Tensor, target: Tensor, grad: Tensor) -> Option<Fault> {
    if tensor_on_cpu(inp) {
        gradients_tensor_fault(inp, target, grad)
    } else {
        gradients_device_fault(inp, target, grad)
    }
}

/// Whether a tensor is the gradient of the logits, where `grad` holds the gradients of the rows'
/// losses.
pub open spec fn is_gradient(inp: Tensor, target: Tensor, grad: Tensor, o: Tensor) -> bool {
    &&& formed_like(o, inp)
    &&& labels_reach(inp) ==> row_gradients_of(
        precision_of(inp),
        tensor_values(inp),
        tensor_dims(inp)[1] as int,
        tensor_values(target),
        tensor_values(grad),
        tensor_values(o),
    )
}

/// The gradient of the logits, from the operation, where `grad` is stored element after element if
/// it is a vector.
fn gradients_from_op(inp: &Tensor, target: &Tensor, grad: &Tensor) -> (r: Result<Tensor, LossError>)
    requires
        tensor_contiguous(*grad) || tensor_dims(*grad).len() != 1,
    ensures
        !all_on_cpu(*inp, *target, *grad) ==> r is Err,
        r matches Ok(o) ==> gradients_tensor_fault(*inp, *target, *grad) is None && is_gradient(
            *inp,
            *target,
            *grad,
            o,
        ),
        r matches Err(e) ==> e is Backend,
        all_on_cpu(*inp, *target, *grad) ==> (r matches Err(e) ==> match gradients_tensor_fault(
            *inp,
            *target,
            *grad,
        ) {
            Some(f) => e@ == found_in_op(f),
            None => false,
        }),
{
    let ran = run_backward(inp, target, grad);
    proof {
        if all_on_cpu(*inp, *target, *grad) {
            let (s1, l1, s2, l2, s3, l3, p) = choose|
                s1: CpuStorage,
                l1: Layout,
                s2: CpuStorage,
                l2: Layout,
                s3: CpuStorage,
                l3: Layout,
                p: Result<(CpuStorage, Shape), Error>,
            |
                {
                    &&& reads(*inp, s1, l1)
                    &&& reads(*target, s2, l2)
                    &&& reads(*grad, s3, l3)
                    &&& #[trigger] backward_outcome(s1, l1, s2, l2, s3, l3, p)
                    &&& handed_on(p, ran)
                };
            lemma_backward_fault(*inp, *target, *grad, s1, l1, s2, l2, s3, l3);
        }
    }
    from_backend(ran)
}

/// The gradient of logits without rows, which is computed on the processor and brought back.
fn gradients_of_no_rows(inp: &Tensor, target: &Tensor, grad: &Tensor) -> (r: Result<
    Tensor,
    LossError,
>)
    requires
        !tensor_on_cpu(*inp),
        gradients_device_fault(*inp, *target, *grad) is None,
        tensor_contiguous(*grad),
        tensor_dims(*inp)[0] == 0,
    ensures
        r matches Ok(o) ==> is_gradient(*inp, *target, *grad, o),
        r matches Err(e) ==> e is Backend,
{
    let here = no_integers()?;
    let logits = from_backend(move_to(inp, &here))?;
    let labels = from_backend(move_to(target, &here))?;
    let slopes = from_backend(move_to(grad, &here))?;
    // Without rows there is no label that could be refused.
    let _ = target.dims();
    proof {
        lemma_count(0, 0);
        assert(tensor_dims(*target) =~= seq![0usize]);
    }
    let grads = gradients_from_op(&logits, &labels, &slopes)?;
    from_backend(move_to(&grads, inp))
}

/// The gradient of the logits, where `grad` is stored element after element if it is a vector.
fn gradients_as_stored(inp: &Tensor, target: &Tensor, grad: &Tensor) -> (r: Result<
    Tensor,
    LossError,
>)
    requires
        tensor_contiguous(*grad) || tensor_dims(*grad).len() != 1,
    ensures
        !same_place(*inp, *target, *grad) ==> r is Err,
        all_on_cpu(*inp, *target, *grad) ==> (r is Ok <==> gradients_fault(
            *inp,
            *target,
            *grad,
        ) is None),
        same_place(*inp, *target, *grad) ==> (gradients_fault(*inp, *target, *grad) matches Some(f)
            ==> (r matches Err(e) && e@ == found_in_op(f))),
        r matches Ok(o) ==> gradients_fault(*inp, *target, *grad) is None && is_gradient(
            *inp,
            *target,
            *grad,
            o,
        ),
        r matches Err(e) ==> e is Backend,
{
    if on_cpu(inp) || on_cpu(target) || on_cpu(grad) {
        return gradients_from_op(inp, target, grad);
    }
    match device_gradient_rows(inp, target, grad) {
        Ok(b_sz) => {
            if b_sz == 0 {
                gradients_of_no_rows(inp, target, grad)
            } else {
                assert(tensor_dims(*target) =~= seq![b_sz]);
                step_gradients(inp, target, grad)
            }
        },
        Err(e) => Err(ErrorOf::Backend(into_backend(e))),
    }
}

/// Whether the backend can store a tensor's elements anew, wherever it lies.
pub open spec fn storable(t: Tensor) -> bool {
    tensor_contiguous(t) || (tensor_on_cpu(t) && !tensor_dtype(t).is_stored_only())
}

/// The gradient of the logits, where `grad` holds the gradients of the rows' losses, however they
/// are stored.
fn gradients_anew(inp: &Tensor, target: &Tensor, grad: &Tensor) -> (r: Result<Tensor, LossError>)
    ensures
        !same_place(*inp, *target, *grad) ==> r is Err,
        all_on_cpu(*inp, *target, *grad) && (r is Err) ==> gradients_fault(
            *inp,
            *target,
            *grad,
        ) is Some,
        same_place(*inp, *target, *grad) && storable(*grad) ==> (gradients_fault(
            *inp,
            *target,
            *grad,
        ) matches Some(f) ==> (r matches Err(e) && e@ == found_in_op(f))),
        r matches Ok(o) ==> gradients_fault(*inp, *target, *grad) is None && is_gradient(
            *inp,
            *target,
            *grad,
            o,
        ),
        r matches Err(e) ==> e is Backend,
{
    let dims = grad.dims();
    if has_no_elements(dims) {
        if dims.len() != 1 {
            return gradients_as_stored(inp, target, grad);
        }
        proof {
            lemma_count(dims@[0], 0);
            assert(dims@ =~= seq![dims@[0]]);
        }
    }
    let grad_res = from_backend(grad.contiguous())?;
    gradients_as_stored(inp, target, &grad_res)
}

/// The gradient of the logits, where `grad` holds the gradients of the rows' losses. On an
/// accelerator it is computed step by step.
pub fn row_gradients(inp: &Tensor, target: &Tensor, grad: &Tensor) -> (r: Result<Tensor, LossError>)
    ensures
        !same_place(*inp, *target, *grad) ==> r is Err,
        all_on_cpu(*inp, *target, *grad) && (r is Err) ==> gradients_fault(
            *inp,
            *target,
            *grad,
        ) is Some,
        same_place(*inp, *target, *grad) && storable(*grad) ==> (gradients_fault(
            *inp,
            *target,
            *grad,
        ) matches Some(f) ==> (r matches Err(e) && e@ == found_in_op(f))),
        r matches Ok(o) ==> gradients_fault(*inp, *target, *grad) is None && is_gradient(
            *inp,
            *target,
            *grad,
            o,
        ),
        r matches Err(e) ==> e is Backend,
{
    match backward_pass(inp, target, grad, grad) {
        Ok((Some(o), _)) => Ok(o),
        // The pass gives a gradient wherever it succeeds.
        Ok((None, _)) => Err(ErrorOf::NotEmpty),
        Err(e) => Err(ErrorOf::Backend(e)),
    }
}

/// What the backward pass of the row losses hands to the backend, from the logits, the labels, the
/// losses and the gradients of the losses: the gradient of the logits, and none of the labels.
pub fn backward_pass(arg1: &Tensor, arg2: &Tensor, res: &Tensor, grad_res: &Tensor) -> (r: Result<
    (Option<Tensor>, Option<Tensor>),
    Error,
>)
    ensures
        !same_place(*arg1, *arg2, *grad_res) ==> r is Err,
        r matches Ok(p) ==> gradients_fault(*arg1, *arg2, *grad_res) is None && p.1 is None && (
        p.0 matches Some(o) && is_gradient(*arg1, *arg2, *grad_res, o)),
        all_on_cpu(*arg1, *arg2, *grad_res) && (r is Err) ==> gradients_fault(
            *arg1,
            *arg2,
            *grad_res,
        ) is Some,
        same_place(*arg1, *arg2, *grad_res) && storable(*grad_res) ==> match gradients_fault(
            *arg1,
            *arg2,
            *grad_res,
        ) {
            Some(f) => r matches Err(e) && error_text(e) == message_of(f),
            None => true,
        },
{
    CrossEntropyRows.bwd(arg1, arg2, res, grad_res)
}

/// What the forward pass of the row losses hands to the backend.
pub fn forward_pass(s1: &CpuStorage, l1: &Layout, s2: &CpuStorage, l2: &Layout) -> (r: Result<
    (CpuStorage, Shape),
    Error,
>)
    ensures
        forward_outcome(*s1, *l1, *s2, *l2, r),
{
    CrossEntropyRows.cpu_fwd(s1, l1, s2, l2)
}

/// What the forward pass of the row gradients hands to the backend.
pub fn gradient_pass(
    s1: &CpuStorage,
    l1: &Layout,
    s2: &CpuStorage,
    l2: &Layout,
    s3: &CpuStorage,
    l3: &Layout,
) -> (r: Result<(CpuStorage, Shape), Error>)
    ensures
        backward_outcome(*s1, *l1, *s2, *l2, *s3, *l3, r),
{
    CrossEntropyRowsBackward.cpu_fwd(s1, l1, s2, l2, s3, l3)
}

} // verus!
