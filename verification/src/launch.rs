//! How the kernels of an accelerator are launched: which kernel computes the row losses or their
//! gradients, and on what.

use crate::dtype::DType;
use crate::error::{ErrorOf, Fault, LossError};
use crate::model::{count, countable, layout_contiguous, layout_dims, layout_start, lemma_count};
use crate::shape::{checked_count, cross_entropy_dims, dims_fault};
use candle_core::Layout;
use vstd::prelude::*;
use vstd::slice::*;

verus! {

/// Whether the elements under a layout can be counted and are read row by row.
pub open spec fn is_plain(l: Layout) -> bool {
    countable(layout_dims(l)) && layout_contiguous(l)
}

/// Whether the elements under a layout can be counted and are read row by row.
pub(crate) fn reads_plainly(l: &Layout) -> (r: bool)
    ensures
        r == is_plain(*l),
{
    checked_count(l.dims()).is_some() && l.is_contiguous()
}

/// The number of threads of a block: a power of two, one thread for each class where there are from
/// 32 to 1024 of them, and no fewer or more than that.
pub open spec fn block_size_of(n_classes: nat) -> nat {
    if n_classes <= 32 {
        32
    } else if n_classes <= 64 {
        64
    } else if n_classes <= 128 {
        128
    } else if n_classes <= 256 {
        256
    } else if n_classes <= 512 {
        512
    } else {
        1024
    }
}

/// The number of threads of a block.
pub fn block_size(n_classes: usize) -> (r: u32)
    ensures
        r == block_size_of(n_classes as nat),
{
    let wanted: u32 = if n_classes < 1024 {
        n_classes as u32
    } else {
        1024
    };
    let mut size: u32 = 32;
    while size < wanted
        invariant
            size == 32 || size == 64 || size == 128 || size == 256 || size == 512 || size == 1024,
            size == 32 || size < 2 * wanted,
            wanted <= 1024,
        decreases 1024 - size,
    {
        size = size * 2;
    }
    size
}

/// The kernel that computes row losses from logits of an element type.
pub open spec fn forward_kernel(dtype: DType) -> Seq<char> {
    match dtype {
        DType::BF16 => "cross_entropy_fwd_bf16"@,
        DType::F16 => "cross_entropy_fwd_f16"@,
        DType::F32 => "cross_entropy_fwd_f32"@,
        _ => "cross_entropy_fwd_f64"@,
    }
}

/// The kernel that computes row gradients from logits of an element type.
pub open spec fn backward_kernel(dtype: DType) -> Seq<char> {
    match dtype {
        DType::BF16 => "cross_entropy_bwd_bf16"@,
        DType::F16 => "cross_entropy_bwd_f16"@,
        DType::F32 => "cross_entropy_bwd_f32"@,
        _ => "cross_entropy_bwd_f64"@,
    }
}

/// What is wrong with the dimensions of logits, target and gradient.
pub open spec fn grad_dims_fault(inp: Seq<usize>, target: Seq<usize>, grad: Seq<usize>) -> Option<
    Fault,
> {
    if dims_fault(inp, target) is Some {
        dims_fault(inp, target)
    } else if grad != seq![inp[0]] {
        Some(ErrorOf::GradShape { expected: inp[0], dims: grad })
    } else {
        None
    }
}

/// The number of rows and of classes of the logits, where the gradient holds one number per row.
pub fn backward_dims(inp: &Layout, target: &Layout, grad: &Layout) -> (r: Result<
    (usize, usize),
    LossError,
>)
    ensures
        r matches Ok(p) ==> grad_dims_fault(
            layout_dims(*inp),
            layout_dims(*target),
            layout_dims(*grad),
        ) is None && layout_dims(*inp) == seq![p.0, p.1],
        r matches Err(e) ==> grad_dims_fault(
            layout_dims(*inp),
            layout_dims(*target),
            layout_dims(*grad),
        ) == Some(e@),
{
    let (b_sz, n_classes) = cross_entropy_dims(inp, target)?;
    let dims = grad.dims();
    if dims.len() != 1 || dims[0] != b_sz {
        return Err(ErrorOf::GradShape { expected: b_sz, dims: slice_to_vec(dims) });
    }
    assert(dims@ =~= seq![b_sz]);
    Ok((b_sz, n_classes))
}

/// The launch of a CUDA kernel: one block for each row of the logits.
pub struct CudaLaunch {
    /// The kernel's name.
    pub kernel: &'static str,
    /// The element type of the logits and of the output.
    pub dtype: DType,
    /// The number of blocks.
    pub grid: u32,
    /// The number of threads of a block.
    pub block: u32,
    /// The number of logits.
    pub elements: usize,
    /// The number of classes.
    pub n_classes: usize,
    /// Where the logits start in their storage.
    pub inp_start: usize,
    /// Where the labels start in their storage.
    pub target_start: usize,
    /// The number of elements of the output.
    pub outputs: usize,
}

impl CudaLaunch {
    /// Whether the launch reads the logits and labels under two layouts.
    pub open spec fn covers(&self, l1: Layout, dtype: DType, l2: Layout) -> bool {
        &&& self.dtype == dtype
        &&& self.grid == layout_dims(l1)[0] as u32
        &&& self.block == block_size_of(layout_dims(l1)[1] as nat)
        &&& self.elements == count(layout_dims(l1))
        &&& self.n_classes == layout_dims(l1)[1]
        &&& self.inp_start == layout_start(l1)
        &&& self.target_start == layout_start(l2)
    }
}

/// What keeps a CUDA kernel from computing the row losses of logits of the type `inp`, under labels
/// of the type `target`.
pub open spec fn cuda_forward_fault(l1: Layout, inp: DType, l2: Layout, target: DType) -> Option<
    Fault,
> {
    if dims_fault(layout_dims(l1), layout_dims(l2)) is Some {
        dims_fault(layout_dims(l1), layout_dims(l2))
    } else if !(is_plain(l1) && is_plain(l2)) {
        Some(ErrorOf::CudaStrided)
    } else if target != DType::U32 {
        Some(ErrorOf::CudaLabelDType)
    } else if !inp.is_row_float() {
        Some(ErrorOf::CudaDType { dtype: inp })
    } else {
        None
    }
}

/// The launch of the CUDA kernel that computes the row losses.
pub fn cuda_forward(l1: &Layout, inp: DType, l2: &Layout, target: DType) -> (r: Result<
    CudaLaunch,
    LossError,
>)
    ensures
        r matches Ok(c) ==> cuda_forward_fault(*l1, inp, *l2, target) is None && c.covers(
            *l1,
            inp,
            *l2,
        ) && c.kernel@ == forward_kernel(inp) && c.outputs == layout_dims(*l1)[0],
        r matches Err(e) ==> cuda_forward_fault(*l1, inp, *l2, target) == Some(e@),
{
    let (b_sz, n_classes) = cross_entropy_dims(l1, l2)?;
    if !(reads_plainly(l1) && reads_plainly(l2)) {
        return Err(ErrorOf::CudaStrided);
    }
    if target != DType::U32 {
        return Err(ErrorOf::CudaLabelDType);
    }
    let kernel = match inp {
        DType::BF16 => "cross_entropy_fwd_bf16",
        DType::F16 => "cross_entropy_fwd_f16",
        DType::F32 => "cross_entropy_fwd_f32",
        DType::F64 => "cross_entropy_fwd_f64",
        dtype => {
            return Err(ErrorOf::CudaDType { dtype });
        },
    };
    Ok(cuda_launch(kernel, l1, inp, l2, b_sz, n_classes, b_sz))
}

fn cuda_launch(
    kernel: &'static str,
    l1: &Layout,
    dtype: DType,
    l2: &Layout,
    b_sz: usize,
    n_classes: usize,
    outputs: usize,
) -> (r: CudaLaunch)
    requires
        layout_dims(*l1) == seq![b_sz, n_classes],
        countable(layout_dims(*l1)),
    ensures
        r.covers(*l1, dtype, *l2),
        r.kernel == kernel,
        r.outputs == outputs,
{
    proof {
        lemma_count(b_sz, n_classes);
    }
    let grid: u32 = #[verifier::truncate]
    (b_sz as u32);
    CudaLaunch {
        kernel,
        dtype,
        grid,
        block: block_size(n_classes),
        elements: b_sz * n_classes,
        n_classes,
        inp_start: l1.start_offset(),
        target_start: l2.start_offset(),
        outputs,
    }
}

/// What keeps a CUDA kernel from computing the row gradients.
pub open spec fn cuda_backward_fault(
    l1: Layout,
    inp: DType,
    l2: Layout,
    target: DType,
    l3: Layout,
    grad: DType,
) -> Option<Fault> {
    let dims = (layout_dims(l1), layout_dims(l2), layout_dims(l3));
    if grad_dims_fault(dims.0, dims.1, dims.2) is Some {
        grad_dims_fault(dims.0, dims.1, dims.2)
    } else if !(is_plain(l1) && is_plain(l2) && is_plain(l3)) {
        Some(ErrorOf::CudaBackwardStrided)
    } else if target != DType::U32 {
        Some(ErrorOf::CudaLabelDType)
    } else if !inp.is_row_float() || grad != inp {
        Some(ErrorOf::CudaBackwardDType { inp, grad })
    } else {
        None
    }
}

/// The launch of the CUDA kernel that computes the row gradients, and where the gradient of the
/// losses starts in its storage.
pub fn cuda_backward(
    l1: &Layout,
    inp: DType,
    l2: &Layout,
    target: DType,
    l3: &Layout,
    grad: DType,
) -> (r: Result<(CudaLaunch, usize), LossError>)
    ensures
        r matches Ok(c) ==> cuda_backward_fault(*l1, inp, *l2, target, *l3, grad) is None
            && c.0.covers(*l1, inp, *l2) && c.0.kernel@ == backward_kernel(inp) && c.0.outputs
            == count(layout_dims(*l1)) && c.1 == layout_start(*l3),
        r matches Err(e) ==> cuda_backward_fault(*l1, inp, *l2, target, *l3, grad) == Some(e@),
{
    let (b_sz, n_classes) = backward_dims(l1, l2, l3)?;
    if !(reads_plainly(l1) && reads_plainly(l2) && reads_plainly(l3)) {
        return Err(ErrorOf::CudaBackwardStrided);
    }
    if target != DType::U32 {
        return Err(ErrorOf::CudaLabelDType);
    }
    let kernel = match inp {
        DType::BF16 if grad == DType::BF16 => "cross_entropy_bwd_bf16",
        DType::F16 if grad == DType::F16 => "cross_entropy_bwd_f16",
        DType::F32 if grad == DType::F32 => "cross_entropy_bwd_f32",
        DType::F64 if grad == DType::F64 => "cross_entropy_bwd_f64",
        inp => {
            return Err(ErrorOf::CudaBackwardDType { inp, grad });
        },
    };
    proof {
        lemma_count(b_sz, n_classes);
    }
    Ok((cuda_launch(kernel, l1, inp, l2, b_sz, n_classes, b_sz * n_classes), l3.start_offset()))
}

/// Whether the Metal kernels compute with an element type.
pub open spec fn is_metal_float(dtype: DType) -> bool {
    dtype == DType::F32 || dtype == DType::F16 || dtype == DType::BF16
}

/// Where the elements under a layout start, in bytes.
pub open spec fn start_in_bytes(l: Layout, dtype: DType) -> int {
    layout_start(l) * dtype.bytes()
}

fn checked_start(l: &Layout, dtype: DType) -> (r: Result<usize, LossError>)
    ensures
        r matches Ok(n) ==> n == start_in_bytes(*l, dtype),
        r matches Err(e) ==> start_in_bytes(*l, dtype) > usize::MAX && e@
            == ErrorOf::<Seq<usize>, Seq<char>>::OutOfStorage,
{
    match l.start_offset().checked_mul(dtype.size_in_bytes()) {
        Some(n) => Ok(n),
        None => Err(ErrorOf::OutOfStorage),
    }
}

/// The launch of a Metal kernel.
pub struct MetalLaunch {
    /// The kernel's name.
    pub kernel: &'static str,
    /// The number of logits.
    pub elements: usize,
    /// The number of classes.
    pub n_classes: usize,
    /// Where the logits start in their buffer, in bytes.
    pub inp_start: usize,
    /// Where the labels start in their buffer, in bytes.
    pub target_start: usize,
    /// The number of elements of the output.
    pub outputs: usize,
}

impl MetalLaunch {
    /// Whether the launch reads the logits and labels under two layouts.
    pub open spec fn covers(&self, l1: Layout, inp: DType, l2: Layout) -> bool {
        &&& self.elements == count(layout_dims(l1))
        &&& self.n_classes == layout_dims(l1)[1]
        &&& self.inp_start == start_in_bytes(l1, inp)
        &&& self.target_start == start_in_bytes(l2, DType::U32)
    }
}

/// What keeps a Metal kernel from computing the row losses.
pub open spec fn metal_forward_fault(l1: Layout, inp: DType, l2: Layout, target: DType) -> Option<
    Fault,
> {
    if dims_fault(layout_dims(l1), layout_dims(l2)) is Some {
        dims_fault(layout_dims(l1), layout_dims(l2))
    } else if !(is_plain(l1) && is_plain(l2)) {
        Some(ErrorOf::MetalStrided)
    } else if !is_metal_float(inp) || target != DType::U32 {
        Some(ErrorOf::MetalDType { inp, target })
    } else if start_in_bytes(l1, inp) > usize::MAX || start_in_bytes(l2, target) > usize::MAX {
        Some(ErrorOf::OutOfStorage)
    } else {
        None
    }
}

/// The launch of the Metal kernel that computes the row losses.
pub fn metal_forward(l1: &Layout, inp: DType, l2: &Layout, target: DType) -> (r: Result<
    MetalLaunch,
    LossError,
>)
    ensures
        r matches Ok(m) ==> metal_forward_fault(*l1, inp, *l2, target) is None && m.covers(
            *l1,
            inp,
            *l2,
        ) && m.kernel@ == forward_kernel(inp) && m.outputs == layout_dims(*l1)[0],
        r matches Err(e) ==> metal_forward_fault(*l1, inp, *l2, target) == Some(e@),
{
    let (b_sz, n_classes) = cross_entropy_dims(l1, l2)?;
    if !(reads_plainly(l1) && reads_plainly(l2)) {
        return Err(ErrorOf::MetalStrided);
    }
    let kernel = match (inp, target) {
        (DType::F32, DType::U32) => "cross_entropy_fwd_f32",
        (DType::F16, DType::U32) => "cross_entropy_fwd_f16",
        (DType::BF16, DType::U32) => "cross_entropy_fwd_bf16",
        (inp, target) => {
            return Err(ErrorOf::MetalDType { inp, target });
        },
    };
    proof {
        lemma_count(b_sz, n_classes);
    }
    let inp_start: usize = checked_start(l1, inp)?;
    let target_start: usize = checked_start(l2, target)?;
    Ok(
        MetalLaunch {
            kernel,
            elements: b_sz * n_classes,
            n_classes,
            inp_start,
            target_start,
            outputs: b_sz,
        },
    )
}

/// What keeps a Metal kernel from computing the row gradients.
pub open spec fn metal_backward_fault(
    l1: Layout,
    inp: DType,
    l2: Layout,
    target: DType,
    l3: Layout,
    grad: DType,
) -> Option<Fault> {
    let dims = (layout_dims(l1), layout_dims(l2), layout_dims(l3));
    if grad_dims_fault(dims.0, dims.1, dims.2) is Some {
        grad_dims_fault(dims.0, dims.1, dims.2)
    } else if !(is_plain(l1) && is_plain(l2) && is_plain(l3)) {
        Some(ErrorOf::MetalBackwardStrided)
    } else if !is_metal_float(inp) || target != DType::U32 || grad != inp {
        Some(ErrorOf::MetalBackwardDType { inp, target, grad })
    } else if start_in_bytes(l1, inp) > usize::MAX || start_in_bytes(l2, target) > usize::MAX
        || start_in_bytes(l3, grad) > usize::MAX {
        Some(ErrorOf::OutOfStorage)
    } else {
        None
    }
}

/// The launch of the Metal kernel that computes the row gradients, and where the gradient of the
/// losses starts in its buffer, in bytes.
pub fn metal_backward(
    l1: &Layout,
    inp: DType,
    l2: &Layout,
    target: DType,
    l3: &Layout,
    grad: DType,
) -> (r: Result<(MetalLaunch, usize), LossError>)
    ensures
        r matches Ok(m) ==> metal_backward_fault(*l1, inp, *l2, target, *l3, grad) is None
            && m.0.covers(*l1, inp, *l2) && m.0.kernel@ == backward_kernel(inp) && m.0.outputs
            == count(layout_dims(*l1)) && m.1 == start_in_bytes(*l3, grad),
        r matches Err(e) ==> metal_backward_fault(*l1, inp, *l2, target, *l3, grad) == Some(e@),
{
    let (b_sz, n_classes) = backward_dims(l1, l2, l3)?;
    if !(reads_plainly(l1) && reads_plainly(l2) && reads_plainly(l3)) {
        return Err(ErrorOf::MetalBackwardStrided);
    }
    let kernel = match (inp, target, grad) {
        (DType::F32, DType::U32, DType::F32) => "cross_entropy_bwd_f32",
        (DType::F16, DType::U32, DType::F16) => "cross_entropy_bwd_f16",
        (DType::BF16, DType::U32, DType::BF16) => "cross_entropy_bwd_bf16",
        (inp, target, grad) => {
            return Err(ErrorOf::MetalBackwardDType { inp, target, grad });
        },
    };
    proof {
        lemma_count(b_sz, n_classes);
    }
    let inp_start: usize = checked_start(l1, inp)?;
    let target_start: usize = checked_start(l2, target)?;
    let grad_start: usize = checked_start(l3, grad)?;
    let elements: usize = b_sz * n_classes;
    Ok(
        (
            MetalLaunch { kernel, elements, n_classes, inp_start, target_start, outputs: elements },
            grad_start,
        ),
    )
}

} // verus!
