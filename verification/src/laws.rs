//! What holds of the losses as a whole.

use crate::backend::{gather_works, is_difference, is_logarithm, is_sum};
use crate::dtype::DType;
use crate::error::{found_in_op, message_of, ErrorOf, Fault, LossError};
use crate::label::{label_fault, labels_fault, lemma_labels_accepted, lemma_place};
use crate::launch::{
    block_size_of, cuda_backward, cuda_backward_fault, cuda_forward, cuda_forward_fault, is_plain,
    metal_backward, metal_backward_fault, metal_forward, metal_forward_fault, start_in_bytes,
    CudaLaunch, MetalLaunch,
};
use crate::loss::{
    content_fault, form_fault, is_cross_entropy, is_nll, is_prepared, nll_fault, picks, use_fault,
};
use crate::model::{
    count, countable, formed_like, layout_contiguous, layout_dims, layout_start, lemma_count,
    lemma_vector_countable, no_label, row, tensor_contiguous, tensor_dims, tensor_dtype,
    tensor_on_cpu, tensor_on_metal, tensor_values,
};
use crate::row_op::{
    gradients_device_fault, gradients_fault, is_gradient, losses_fault, rows_device_fault,
};
use crate::rows::{
    converted, own_logit, row_gradient, row_gradients_of, row_loss, row_losses_of, softmax_of,
    Precision, Softmax,
};
use crate::shape::dims_fault;
use crate::text::{bracketed, decimal, digit, joined, signed_decimal};
use candle_core::{Layout, Tensor};
use vstd::arithmetic::power2::{lemma2_to64, pow2};
use vstd::prelude::*;

verus! {

/// What is reported of labels is what is wrong with the first of them that names no class.
pub proof fn law_first_bad_label(labels: Seq<int>, n: usize, i: int)
    requires
        0 <= i < labels.len(),
        !(0 <= labels[i] < n),
        forall|j: int| 0 <= j < i ==> 0 <= #[trigger] labels[j] < n,
    ensures
        labels_fault(labels, n) == label_fault(labels[i], n),
    decreases labels.len(),
{
    let init = labels.drop_last();
    if i < init.len() {
        assert(forall|j: int| 0 <= j < i ==> #[trigger] init[j] == labels[j]);
        law_first_bad_label(init, n, i);
    } else {
        assert forall|j: int| 0 <= j < init.len() implies 0 <= #[trigger] init[j] < n by {
            assert(init[j] == labels[j]);
        }
        lemma_labels_accepted(init, n);
    }
}

/// The type of the labels does not matter to the cross-entropy on the processor: labels of two
/// types that hold the same numbers are accepted or refused alike, and have the same losses.
pub proof fn law_label_type(inp: Tensor, a: Tensor, b: Tensor, r: int)
    requires
        tensor_dtype(a).is_label(),
        tensor_dtype(b).is_label(),
        tensor_dims(a) == tensor_dims(b),
        tensor_values(a) == tensor_values(b),
    ensures
        form_fault(inp, a) == form_fault(inp, b),
        content_fault(inp, a) == content_fault(inp, b),
        is_cross_entropy(inp, a, r) <==> is_cross_entropy(inp, b, r),
{
}

/// The labels that reach the kernels of an accelerator are `U32` and hold the numbers of the
/// target; 64-bit labels, which could be wrapped on the way, do not reach them.
pub proof fn law_accelerator_labels(inp: Tensor, target: Tensor, p: (Tensor, Tensor))
    requires
        !tensor_on_cpu(target),
        form_fault(inp, target) is None,
        use_fault(tensor_on_cpu(target), tensor_dtype(target)) is None,
        is_prepared(inp, target, p),
    ensures
        tensor_dtype(target) != DType::I64,
        tensor_dtype(p.1) == DType::U32,
        tensor_values(p.1) == tensor_values(target),
{
}

/// What is prepared for an accelerator is accepted by the CUDA kernels wherever they compute with
/// the type of the logits.
pub proof fn law_prepared_suits_cuda(
    inp: Tensor,
    target: Tensor,
    p: (Tensor, Tensor),
    l1: Layout,
    l2: Layout,
)
    requires
        !tensor_on_cpu(target),
        form_fault(inp, target) is None,
        use_fault(tensor_on_cpu(target), tensor_dtype(target)) is None,
        is_prepared(inp, target, p),
        layout_dims(l1) == tensor_dims(p.0),
        layout_dims(l2) == tensor_dims(p.1),
        is_plain(l1),
        is_plain(l2),
    ensures
        cuda_forward_fault(l1, tensor_dtype(p.0), l2, tensor_dtype(p.1)) is None <==> tensor_dtype(
            inp,
        ).is_row_float(),
{
}

/// Logits and labels whose row losses are computed have row gradients, for each gradient of the
/// losses that has their form.
pub proof fn law_backward_follows_forward(inp: Tensor, target: Tensor, grad: Tensor)
    requires
        losses_fault(inp, target) is None,
        tensor_dims(grad) == seq![tensor_dims(inp)[0]],
        tensor_dtype(grad) == tensor_dtype(inp),
    ensures
        gradients_fault(inp, target, grad) is None,
{
}

/// An accelerator computes row losses step by step where its fused kernel would be launched, and
/// refuses the others for the same reason. Left out for Metal are logits and labels that start
/// where a machine word cannot say in bytes.
pub proof fn law_steps_agree_with_launch(inp: Tensor, target: Tensor, l1: Layout, l2: Layout)
    requires
        layout_dims(l1) == tensor_dims(inp),
        layout_dims(l2) == tensor_dims(target),
        layout_contiguous(l1) == tensor_contiguous(inp),
        layout_contiguous(l2) == tensor_contiguous(target),
        start_in_bytes(l1, tensor_dtype(inp)) <= usize::MAX,
        start_in_bytes(l2, tensor_dtype(target)) <= usize::MAX,
    ensures
        rows_device_fault(inp, target) == if tensor_on_metal(inp) {
            metal_forward_fault(l1, tensor_dtype(inp), l2, tensor_dtype(target))
        } else {
            cuda_forward_fault(l1, tensor_dtype(inp), l2, tensor_dtype(target))
        },
{
    if tensor_dims(target).len() == 1 {
        lemma_vector_countable(tensor_dims(target));
    }
}

/// An accelerator computes row gradients step by step where its fused kernel would be launched on
/// them and on a gradient of the losses that is stored element after element, and refuses the
/// others for the same reason. Left out for Metal are tensors that start where a machine word
/// cannot say in bytes.
pub proof fn law_gradient_steps_agree_with_launch(
    inp: Tensor,
    target: Tensor,
    grad: Tensor,
    l1: Layout,
    l2: Layout,
    l3: Layout,
)
    requires
        layout_dims(l1) == tensor_dims(inp),
        layout_dims(l2) == tensor_dims(target),
        layout_dims(l3) == tensor_dims(grad),
        layout_contiguous(l1) == tensor_contiguous(inp),
        layout_contiguous(l2) == tensor_contiguous(target),
        layout_contiguous(l3),
        start_in_bytes(l1, tensor_dtype(inp)) <= usize::MAX,
        start_in_bytes(l2, tensor_dtype(target)) <= usize::MAX,
        start_in_bytes(l3, tensor_dtype(grad)) <= usize::MAX,
    ensures
        gradients_device_fault(inp, target, grad) == if tensor_on_metal(inp) {
            metal_backward_fault(
                l1,
                tensor_dtype(inp),
                l2,
                tensor_dtype(target),
                l3,
                tensor_dtype(grad),
            )
        } else {
            cuda_backward_fault(
                l1,
                tensor_dtype(inp),
                l2,
                tensor_dtype(target),
                l3,
                tensor_dtype(grad),
            )
        },
{
    if tensor_dims(target).len() == 1 {
        lemma_vector_countable(tensor_dims(target));
    }
    if tensor_dims(grad).len() == 1 {
        lemma_vector_countable(tensor_dims(grad));
    }
}

/// Of double-precision logits, an accelerator computes what the processor computes.
pub proof fn law_double_precision_everywhere(
    near: Tensor,
    far: Tensor,
    near_target: Tensor,
    far_target: Tensor,
    r: int,
)
    requires
        tensor_on_cpu(near),
        !tensor_on_cpu(far),
        tensor_dtype(near) == DType::F64,
        tensor_dtype(far) == DType::F64,
        tensor_dims(near) == tensor_dims(far),
        tensor_values(near) == tensor_values(far),
        tensor_values(near_target) == tensor_values(far_target),
    ensures
        is_cross_entropy(near, near_target, r) <==> is_cross_entropy(far, far_target, r),
{
}

/// Which label it is that names no class does not matter to the loss of a row.
pub proof fn law_no_class_alike(t: Precision, logits: Seq<int>, a: int, b: int, r: int)
    requires
        !(0 <= a < logits.len()),
        !(0 <= b < logits.len()),
    ensures
        row_loss(t, logits, a, r) <==> row_loss(t, logits, b, r),
{
    if row_loss(t, logits, a, r) {
        lemma_no_class(t, logits, a, b, r);
    }
    if row_loss(t, logits, b, r) {
        lemma_no_class(t, logits, b, a, r);
    }
}

proof fn lemma_no_class(t: Precision, logits: Seq<int>, a: int, b: int, r: int)
    requires
        !(0 <= a < logits.len()),
        !(0 <= b < logits.len()),
        row_loss(t, logits, a, r),
    ensures
        row_loss(t, logits, b, r),
{
    let (p, log, sum, own, loss) = choose|p: Softmax, log: int, sum: int, own: int, loss: int|
        {
            &&& #[trigger] softmax_of(t, logits, p)
            &&& #[trigger] is_logarithm(t.wide, p.total, log)
            &&& #[trigger] is_sum(t.wide, p.max, log, sum)
            &&& own_logit(t, p, a, own)
            &&& #[trigger] is_difference(t.wide, sum, own, loss)
            &&& converted(t.wide, t.dtype, loss, r)
        };
    assert(own_logit(t, p, b, own));
}

/// Where a CUDA kernel computes the row losses, another computes the row gradients, for each
/// gradient of the losses that has their form.
pub proof fn law_cuda_backward_follows_forward(
    l1: Layout,
    inp: DType,
    l2: Layout,
    target: DType,
    l3: Layout,
)
    requires
        cuda_forward_fault(l1, inp, l2, target) is None,
        layout_dims(l3) == seq![layout_dims(l1)[0]],
        is_plain(l3),
    ensures
        cuda_backward_fault(l1, inp, l2, target, l3, inp) is None,
{
}

/// Where a Metal kernel computes the row losses, another computes the row gradients, for each
/// gradient of the losses that has their form.
pub proof fn law_metal_backward_follows_forward(
    l1: Layout,
    inp: DType,
    l2: Layout,
    target: DType,
    l3: Layout,
)
    requires
        metal_forward_fault(l1, inp, l2, target) is None,
        layout_dims(l3) == seq![layout_dims(l1)[0]],
        is_plain(l3),
        start_in_bytes(l3, inp) <= usize::MAX,
    ensures
        metal_backward_fault(l1, inp, l2, target, l3, inp) is None,
{
}

/// Whatever the Metal kernels compute, the CUDA kernels compute too.
pub proof fn law_metal_within_cuda(l1: Layout, inp: DType, l2: Layout, target: DType)
    requires
        metal_forward_fault(l1, inp, l2, target) is None,
    ensures
        cuda_forward_fault(l1, inp, l2, target) is None,
{
}

/// The number of threads of a block is the least power of two, from 32 on, that gives each of up to
/// 1024 classes a thread.
pub proof fn law_block_size(n_classes: nat)
    ensures
        exists|k: nat| 5 <= k <= 10 && block_size_of(n_classes) == #[trigger] pow2(k),
        n_classes <= 1024 ==> n_classes <= block_size_of(n_classes),
        block_size_of(n_classes) > 32 ==> block_size_of(n_classes) < 2 * n_classes,
{
    lemma2_to64();
    let k: nat = if n_classes <= 32 {
        5
    } else if n_classes <= 64 {
        6
    } else if n_classes <= 128 {
        7
    } else if n_classes <= 256 {
        8
    } else if n_classes <= 512 {
        9
    } else {
        10
    };
    assert(block_size_of(n_classes) == pow2(k));
}

/// Whether a kernel's name is made of a prefix and the name of a floating-point type.
pub open spec fn is_kernel(name: Seq<char>, prefix: Seq<char>, d: DType) -> bool {
    ||| d == DType::BF16 && name == prefix + "bf16"@
    ||| d == DType::F16 && name == prefix + "f16"@
    ||| d == DType::F32 && name == prefix + "f32"@
    ||| d == DType::F64 && name == prefix + "f64"@
}

/// A CUDA kernel for row losses is launched on a matrix of floating-point numbers with columns and
/// a label of the type `U32` for each row, both read row by row from where they start, with a block
/// of threads for each row and room for a number for each row.
pub proof fn law_cuda_forward(
    l1: &Layout,
    inp: DType,
    l2: &Layout,
    target: DType,
    b: usize,
    c: usize,
    r: Result<CudaLaunch, LossError>,
)
    requires
        layout_dims(*l1) == seq![b, c],
        layout_dims(*l2) == seq![b],
        b * c <= usize::MAX,
        call_ensures(cuda_forward, (l1, inp, l2, target), r),
    ensures
        r is Ok <==> c > 0 && layout_contiguous(*l1) && layout_contiguous(*l2) && target
            == DType::U32 && (inp == DType::BF16 || inp == DType::F16 || inp == DType::F32 || inp
            == DType::F64),
        r matches Ok(p) ==> {
            &&& is_kernel(p.kernel@, "cross_entropy_fwd_"@, inp)
            &&& p.dtype == inp
            &&& b <= u32::MAX ==> p.grid == b
            &&& p.elements == b * c
            &&& p.n_classes == c
            &&& p.inp_start == layout_start(*l1)
            &&& p.target_start == layout_start(*l2)
            &&& p.outputs == b
            &&& c <= 1024 ==> c <= p.block
            &&& 32 <= p.block <= 1024
            &&& c > 512 ==> p.block == 1024
            &&& p.block > 32 ==> p.block < 2 * c
            &&& exists|k: nat| p.block == #[trigger] pow2(k)
        },
        r matches Err(e) ==> if c == 0 {
            e is NoClasses
        } else if !(layout_contiguous(*l1) && layout_contiguous(*l2)) {
            e is CudaStrided
        } else if target != DType::U32 {
            e is CudaLabelDType
        } else {
            e matches ErrorOf::CudaDType { dtype } && dtype == inp
        },
{
    lemma_launched(*l1, *l2, b, c);
    law_block_size(c as nat);
    lemma_kernel_names();
}

/// A CUDA kernel for row gradients is launched on what one for row losses is launched on and a
/// number of the type of the logits for each row, with room for as many numbers as there are
/// logits.
pub proof fn law_cuda_backward(
    l1: &Layout,
    inp: DType,
    l2: &Layout,
    target: DType,
    l3: &Layout,
    grad: DType,
    b: usize,
    c: usize,
    r: Result<(CudaLaunch, usize), LossError>,
)
    requires
        layout_dims(*l1) == seq![b, c],
        layout_dims(*l2) == seq![b],
        layout_dims(*l3) == seq![b],
        b * c <= usize::MAX,
        call_ensures(cuda_backward, (l1, inp, l2, target, l3, grad), r),
    ensures
        r is Ok <==> c > 0 && layout_contiguous(*l1) && layout_contiguous(*l2) && layout_contiguous(
            *l3,
        ) && target == DType::U32 && (inp == DType::BF16 || inp == DType::F16 || inp == DType::F32
            || inp == DType::F64) && grad == inp,
        r matches Ok(p) ==> {
            &&& is_kernel(p.0.kernel@, "cross_entropy_bwd_"@, inp)
            &&& p.0.dtype == inp
            &&& b <= u32::MAX ==> p.0.grid == b
            &&& p.0.elements == b * c
            &&& p.0.n_classes == c
            &&& p.0.inp_start == layout_start(*l1)
            &&& p.0.target_start == layout_start(*l2)
            &&& p.0.outputs == b * c
            &&& p.1 == layout_start(*l3)
            &&& c <= 1024 ==> c <= p.0.block
            &&& 32 <= p.0.block <= 1024
            &&& c > 512 ==> p.0.block == 1024
            &&& p.0.block > 32 ==> p.0.block < 2 * c
            &&& exists|k: nat| p.0.block == #[trigger] pow2(k)
        },
        r matches Err(e) ==> if c == 0 {
            e is NoClasses
        } else if !(layout_contiguous(*l1) && layout_contiguous(*l2) && layout_contiguous(*l3)) {
            e is CudaBackwardStrided
        } else if target != DType::U32 {
            e is CudaLabelDType
        } else {
            e matches ErrorOf::CudaBackwardDType { inp: m, grad: n } && m == inp && n == grad
        },
{
    lemma_launched(*l1, *l2, b, c);
    lemma_vector_countable(seq![b]);
    law_block_size(c as nat);
    lemma_kernel_names();
}

/// A Metal kernel for row losses is launched on what one of CUDA is launched on, but for double
/// precision; where things start is said in bytes.
pub proof fn law_metal_forward(
    l1: &Layout,
    inp: DType,
    l2: &Layout,
    target: DType,
    b: usize,
    c: usize,
    r: Result<MetalLaunch, LossError>,
)
    requires
        layout_dims(*l1) == seq![b, c],
        layout_dims(*l2) == seq![b],
        b * c <= usize::MAX,
        layout_start(*l1) * 4 <= usize::MAX,
        layout_start(*l2) * 4 <= usize::MAX,
        call_ensures(metal_forward, (l1, inp, l2, target), r),
    ensures
        r is Ok <==> c > 0 && layout_contiguous(*l1) && layout_contiguous(*l2) && target
            == DType::U32 && (inp == DType::BF16 || inp == DType::F16 || inp == DType::F32),
        r matches Ok(p) ==> {
            &&& is_kernel(p.kernel@, "cross_entropy_fwd_"@, inp)
            &&& p.elements == b * c
            &&& p.n_classes == c
            &&& inp == DType::F32 ==> p.inp_start == layout_start(*l1) * 4
            &&& inp != DType::F32 ==> p.inp_start == layout_start(*l1) * 2
            &&& p.target_start == layout_start(*l2) * 4
            &&& p.outputs == b
        },
        r matches Err(e) ==> if c == 0 {
            e is NoClasses
        } else if !(layout_contiguous(*l1) && layout_contiguous(*l2)) {
            e is MetalStrided
        } else {
            e matches ErrorOf::MetalDType { inp: m, target: n } && m == inp && n == target
        },
{
    lemma_launched(*l1, *l2, b, c);
    lemma_kernel_names();
}

/// A Metal kernel for row gradients is launched on what one of CUDA is launched on, but for double
/// precision; where things start is said in bytes.
pub proof fn law_metal_backward(
    l1: &Layout,
    inp: DType,
    l2: &Layout,
    target: DType,
    l3: &Layout,
    grad: DType,
    b: usize,
    c: usize,
    r: Result<(MetalLaunch, usize), LossError>,
)
    requires
        layout_dims(*l1) == seq![b, c],
        layout_dims(*l2) == seq![b],
        layout_dims(*l3) == seq![b],
        b * c <= usize::MAX,
        layout_start(*l1) * 4 <= usize::MAX,
        layout_start(*l2) * 4 <= usize::MAX,
        layout_start(*l3) * 4 <= usize::MAX,
        call_ensures(metal_backward, (l1, inp, l2, target, l3, grad), r),
    ensures
        r is Ok <==> c > 0 && layout_contiguous(*l1) && layout_contiguous(*l2) && layout_contiguous(
            *l3,
        ) && target == DType::U32 && (inp == DType::BF16 || inp == DType::F16 || inp == DType::F32)
            && grad == inp,
        r matches Ok(p) ==> {
            &&& is_kernel(p.0.kernel@, "cross_entropy_bwd_"@, inp)
            &&& p.0.elements == b * c
            &&& p.0.n_classes == c
            &&& inp == DType::F32 ==> p.0.inp_start == layout_start(*l1) * 4 && p.1 == layout_start(
                *l3,
            ) * 4
            &&& inp != DType::F32 ==> p.0.inp_start == layout_start(*l1) * 2 && p.1 == layout_start(
                *l3,
            ) * 2
            &&& p.0.target_start == layout_start(*l2) * 4
            &&& p.0.outputs == b * c
        },
        r matches Err(e) ==> if c == 0 {
            e is NoClasses
        } else if !(layout_contiguous(*l1) && layout_contiguous(*l2) && layout_contiguous(*l3)) {
            e is MetalBackwardStrided
        } else {
            e matches ErrorOf::MetalBackwardDType { inp: m, target: n, grad: k } && m == inp && n
                == target && k == grad
        },
{
    lemma_launched(*l1, *l2, b, c);
    lemma_vector_countable(seq![b]);
    lemma_kernel_names();
}

proof fn lemma_launched(l1: Layout, l2: Layout, b: usize, c: usize)
    requires
        b * c <= usize::MAX,
        layout_dims(l1) == seq![b, c],
        layout_dims(l2) == seq![b],
    ensures
        count(seq![b, c]) == b * c,
        countable(seq![b, c]),
        countable(seq![b]),
        dims_fault(layout_dims(l1), layout_dims(l2)) is None <==> c > 0,
{
    lemma_count(b, c);
    lemma_vector_countable(seq![b]);
    lemma_vector_countable(seq![c]);
    assert(seq![b, c].drop_first() =~= seq![c]);
}

proof fn lemma_kernel_names()
    ensures
        "cross_entropy_fwd_bf16"@ == "cross_entropy_fwd_"@ + "bf16"@,
        "cross_entropy_fwd_f16"@ == "cross_entropy_fwd_"@ + "f16"@,
        "cross_entropy_fwd_f32"@ == "cross_entropy_fwd_"@ + "f32"@,
        "cross_entropy_fwd_f64"@ == "cross_entropy_fwd_"@ + "f64"@,
        "cross_entropy_bwd_bf16"@ == "cross_entropy_bwd_"@ + "bf16"@,
        "cross_entropy_bwd_f16"@ == "cross_entropy_bwd_"@ + "f16"@,
        "cross_entropy_bwd_f32"@ == "cross_entropy_bwd_"@ + "f32"@,
        "cross_entropy_bwd_f64"@ == "cross_entropy_bwd_"@ + "f64"@,
{
    reveal_strlit("cross_entropy_fwd_");
    reveal_strlit("cross_entropy_bwd_");
    reveal_strlit("bf16");
    reveal_strlit("f16");
    reveal_strlit("f32");
    reveal_strlit("f64");
    reveal_strlit("cross_entropy_fwd_bf16");
    reveal_strlit("cross_entropy_fwd_f16");
    reveal_strlit("cross_entropy_fwd_f32");
    reveal_strlit("cross_entropy_fwd_f64");
    reveal_strlit("cross_entropy_bwd_bf16");
    reveal_strlit("cross_entropy_bwd_f16");
    reveal_strlit("cross_entropy_bwd_f32");
    reveal_strlit("cross_entropy_bwd_f64");
    assert("cross_entropy_fwd_bf16"@ =~= "cross_entropy_fwd_"@ + "bf16"@);
    assert("cross_entropy_fwd_f16"@ =~= "cross_entropy_fwd_"@ + "f16"@);
    assert("cross_entropy_fwd_f32"@ =~= "cross_entropy_fwd_"@ + "f32"@);
    assert("cross_entropy_fwd_f64"@ =~= "cross_entropy_fwd_"@ + "f64"@);
    assert("cross_entropy_bwd_bf16"@ =~= "cross_entropy_bwd_"@ + "bf16"@);
    assert("cross_entropy_bwd_f16"@ =~= "cross_entropy_bwd_"@ + "f16"@);
    assert("cross_entropy_bwd_f32"@ =~= "cross_entropy_bwd_"@ + "f32"@);
    assert("cross_entropy_bwd_f64"@ =~= "cross_entropy_bwd_"@ + "f64"@);
}

/// The number that decimal digits spell.
pub open spec fn spelled(s: Seq<char>) -> int
    decreases s.len(),
{
    if s.len() == 0 {
        0
    } else {
        spelled(s.drop_last()) * 10 + (s.last() as int - '0' as int)
    }
}

/// A number in decimal notation is made of digits that spell it, and does not begin with a zero
/// unless it is zero.
pub proof fn law_decimal_spells_number(n: nat)
    ensures
        spelled(decimal(n)) == n,
        decimal(n).len() > 0,
        forall|i: int| 0 <= i < decimal(n).len() ==> '0' <= #[trigger] decimal(n)[i] <= '9',
        n > 0 ==> decimal(n)[0] != '0',
    decreases n,
{
    let s = decimal(n);
    let last = digit(n % 10);
    assert(last as int == '0' as int + n % 10);
    if n < 10 {
        assert(n % 10 == n);
        assert(s.drop_last() =~= Seq::<char>::empty());
        assert(spelled(s.drop_last()) == 0);
    } else {
        law_decimal_spells_number(n / 10);
        assert(s.drop_last() =~= decimal(n / 10));
        assert(n / 10 > 0);
        assert forall|i: int| 0 <= i < s.len() implies '0' <= #[trigger] s[i] <= '9' by {
            if i < s.len() - 1 {
                assert(s[i] == decimal(n / 10)[i]);
            }
        }
        assert(s[0] == decimal(n / 10)[0]);
    }
}

/// A negative number in decimal notation is a minus sign and the digits of its magnitude.
pub proof fn law_signed_decimal_spells_number(i: int)
    ensures
        i < 0 ==> signed_decimal(i)[0] == '-' && spelled(signed_decimal(i).drop_first()) == -i,
        i >= 0 ==> spelled(signed_decimal(i)) == i,
{
    if i < 0 {
        reveal_strlit("-");
        law_decimal_spells_number((-i) as nat);
        assert(signed_decimal(i).drop_first() =~= decimal((-i) as nat));
    } else {
        law_decimal_spells_number(i as nat);
    }
}

/// A list is written in square brackets, its numbers in order with a comma and a space between two.
pub proof fn law_list_is_bracketed(xs: Seq<usize>, x: usize)
    ensures
        bracketed(Seq::<usize>::empty()) == "["@ + "]"@,
        bracketed(seq![x]) == "["@ + decimal(x as nat) + "]"@,
        xs.len() > 0 ==> bracketed(xs.push(x)) == bracketed(xs).drop_last() + ", "@ + decimal(
            x as nat,
        ) + "]"@,
{
    reveal_strlit("]");
    assert("["@ + Seq::<char>::empty() + "]"@ =~= "["@ + "]"@);
    if xs.len() > 0 {
        assert(xs.push(x).drop_last() =~= xs);
        assert(bracketed(xs).drop_last() =~= "["@ + joined(xs));
        assert(bracketed(xs.push(x)) =~= "["@ + joined(xs) + ", "@ + decimal(x as nat) + "]"@);
    }
}

/// The negative log likelihood reads, in each row, the element that the cross-entropy reads: that
/// of the label. The largest number of a label's type is left out, for which the negative log
/// likelihood reads none.
pub proof fn law_same_element_read(inp: Tensor, target: Tensor, i: int)
    requires
        form_fault(inp, target) is None,
        labels_fault(tensor_values(target), tensor_dims(inp)[1]) is None,
        tensor_values(target).len() == tensor_dims(target)[0],
        0 <= i < tensor_dims(inp)[0],
        tensor_values(target)[i] != no_label(tensor_dtype(target)),
    ensures
        picks(inp, target)[i] == row(
            tensor_values(inp),
            tensor_dims(inp)[1] as int,
            i,
        )[tensor_values(target)[i]],
{
    lemma_labels_accepted(tensor_values(target), tensor_dims(inp)[1]);
    assert(0 <= tensor_values(target)[i] < tensor_dims(inp)[1]);
}

/// Logits and labels whose cross-entropy is computed on the processor have a negative log
/// likelihood too, where both are stored row by row.
pub proof fn law_nll_takes_what_cross_entropy_takes(inp: Tensor, target: Tensor)
    requires
        tensor_on_cpu(inp),
        form_fault(inp, target) is None,
        content_fault(inp, target) is None,
        tensor_contiguous(inp),
        tensor_contiguous(target),
        tensor_values(target).len() == tensor_dims(target)[0],
    ensures
        nll_fault(tensor_dims(inp), tensor_dims(target)) is None,
        gather_works(inp, target),
{
    lemma_labels_accepted(tensor_values(target), tensor_dims(inp)[1]);
}

/// The log probabilities of other classes do not matter to the negative log likelihood: where two
/// tensors agree on the elements that the labels name, whatever else they hold, it is computed for
/// both or for neither, and is the same.
pub proof fn law_other_classes_do_not_matter(a: Tensor, b: Tensor, target: Tensor, r: int)
    requires
        nll_fault(tensor_dims(a), tensor_dims(target)) is None,
        tensor_dims(a) == tensor_dims(b),
        tensor_dtype(a) == tensor_dtype(b),
        tensor_contiguous(a) == tensor_contiguous(b),
        forall|i: int|
            0 <= i < tensor_dims(a)[0] ==> 0 <= #[trigger] tensor_values(target)[i] < tensor_dims(
                a,
            )[1],
        forall|i: int|
            0 <= i < tensor_dims(a)[0] ==> row(tensor_values(a), tensor_dims(a)[1] as int, i)[(
            #[trigger] tensor_values(target)[i])] == row(
                tensor_values(b),
                tensor_dims(a)[1] as int,
                i,
            )[tensor_values(target)[i]],
    ensures
        gather_works(a, target) <==> gather_works(b, target),
        is_nll(a, target, r) <==> is_nll(b, target, r),
{
    assert(picks(a, target) =~= picks(b, target));
}

/// How logits and labels are stored does not matter to the cross-entropy: views that hold the same
/// elements are accepted or refused alike, and have the same loss.
pub proof fn law_storage_does_not_matter(
    inp: Tensor,
    target: Tensor,
    inp_view: Tensor,
    target_view: Tensor,
    r: int,
)
    requires
        formed_like(inp_view, inp),
        tensor_on_metal(inp_view) == tensor_on_metal(inp),
        formed_like(target_view, target),
        tensor_values(inp_view) == tensor_values(inp),
        tensor_values(target_view) == tensor_values(target),
    ensures
        form_fault(inp_view, target_view) == form_fault(inp, target),
        content_fault(inp_view, target_view) == content_fault(inp, target),
        is_cross_entropy(inp_view, target_view, r) <==> is_cross_entropy(inp, target, r),
{
}

/// How the gradient of the rows' losses is stored does not matter to the gradient of the logits.
pub proof fn law_gradient_storage_does_not_matter(
    inp: Tensor,
    target: Tensor,
    grad: Tensor,
    grad_view: Tensor,
    o: Tensor,
)
    requires
        formed_like(grad_view, grad),
        tensor_values(grad_view) == tensor_values(grad),
    ensures
        gradients_fault(inp, target, grad_view) == gradients_fault(inp, target, grad),
        is_gradient(inp, target, grad_view, o) <==> is_gradient(inp, target, grad, o),
{
}

/// The loss of a row is that of the same row under the same label in any other batch: where each
/// row `k` of a second batch is row `from[k]` of the first, the losses of the first are, in that
/// order, losses of the second. So losses are permuted as rows and labels are.
pub proof fn law_losses_follow_rows(
    t: Precision,
    c: int,
    xs: Seq<int>,
    ls: Seq<int>,
    rs: Seq<int>,
    ys: Seq<int>,
    ms: Seq<int>,
    from: Seq<int>,
)
    requires
        row_losses_of(t, xs, c, ls, rs),
        from.len() == ms.len(),
        forall|k: int| 0 <= k < from.len() ==> 0 <= #[trigger] from[k] < ls.len(),
        forall|k: int|
            0 <= k < from.len() ==> row(ys, c, k) == row(xs, c, #[trigger] from[k]) && ms[k]
                == ls[from[k]],
    ensures
        row_losses_of(t, ys, c, ms, from.map_values(|i: int| rs[i])),
{
    let ss = from.map_values(|i: int| rs[i]);
    assert forall|k: int| 0 <= k < ss.len() implies row_loss(
        t,
        row(ys, c, k),
        ms[k],
        #[trigger] ss[k],
    ) by {
        assert(row_loss(t, row(xs, c, from[k]), ls[from[k]], rs[from[k]]));
    }
}

/// The gradient of a row is that of the same row under the same label and the same gradient of its
/// loss in any other batch.
pub proof fn law_gradients_follow_rows(
    t: Precision,
    c: int,
    xs: Seq<int>,
    ls: Seq<int>,
    gs: Seq<int>,
    rs: Seq<int>,
    ys: Seq<int>,
    ms: Seq<int>,
    hs: Seq<int>,
    ss: Seq<int>,
    from: Seq<int>,
)
    requires
        row_gradients_of(t, xs, c, ls, gs, rs),
        from.len() == ms.len(),
        ss.len() == ms.len() * c,
        forall|k: int| 0 <= k < from.len() ==> 0 <= #[trigger] from[k] < ls.len(),
        forall|k: int|
            0 <= k < from.len() ==> row(ys, c, k) == row(xs, c, #[trigger] from[k]) && ms[k]
                == ls[from[k]] && hs[k] == gs[from[k]] && row(ss, c, k) == row(rs, c, from[k]),
    ensures
        row_gradients_of(t, ys, c, ms, hs, ss),
{
    assert forall|k: int| 0 <= k < ms.len() implies row_gradient(
        t,
        row(ys, c, k),
        ms[k],
        hs[k],
        #[trigger] row(ss, c, k),
    ) by {
        let i = from[k];
        assert(row_gradient(t, row(xs, c, i), ls[i], gs[i], row(rs, c, i)));
    }
}

/// What a caller reads in the message of a fault that an operation found is what the fault says.
pub proof fn law_message_kept(f: Fault)
    ensures
        message_of(found_in_op(f)) == message_of(f),
{
}

/// The row losses of two batches put together are the losses of the one and of the other: no row
/// bears on another.
pub proof fn law_losses_of_joined_batches(
    t: Precision,
    c: int,
    xs: Seq<int>,
    ls: Seq<int>,
    rs: Seq<int>,
    ys: Seq<int>,
    ms: Seq<int>,
    ss: Seq<int>,
)
    requires
        0 < c,
        xs.len() == ls.len() * c,
        ys.len() == ms.len() * c,
        rs.len() == ls.len(),
        ss.len() == ms.len(),
    ensures
        row_losses_of(t, xs + ys, c, ls + ms, rs + ss) <==> row_losses_of(t, xs, c, ls, rs)
            && row_losses_of(t, ys, c, ms, ss),
{
    let (n, m) = (ls.len() as int, ms.len() as int);
    let (all, labels, losses) = (xs + ys, ls + ms, rs + ss);
    assert forall|i: int| 0 <= i < n implies row(all, c, i) == row(xs, c, i) && labels[i] == ls[i]
        && losses[i] == rs[i] by {
        lemma_row_of_first(xs, ys, n, c, i);
    }
    assert forall|i: int| 0 <= i < m implies #[trigger] row(all, c, n + i) == row(ys, c, i)
        && labels[n + i] == ms[i] && losses[n + i] == ss[i] by {
        lemma_row_of_second(xs, ys, n, m, c, i);
    }
    if row_losses_of(t, all, c, labels, losses) {
        assert forall|i: int| 0 <= i < rs.len() implies row_loss(
            t,
            row(xs, c, i),
            ls[i],
            #[trigger] rs[i],
        ) by {
            assert(losses[i] == rs[i]);
        }
        assert forall|i: int| 0 <= i < ss.len() implies row_loss(
            t,
            row(ys, c, i),
            ms[i],
            #[trigger] ss[i],
        ) by {
            assert(row(all, c, n + i) == row(ys, c, i));
            assert(losses[n + i] == ss[i]);
        }
    }
    if row_losses_of(t, xs, c, ls, rs) && row_losses_of(t, ys, c, ms, ss) {
        assert forall|i: int| 0 <= i < losses.len() implies row_loss(
            t,
            row(all, c, i),
            labels[i],
            #[trigger] losses[i],
        ) by {
            if i < n {
                assert(losses[i] == rs[i]);
            } else {
                assert(row(all, c, n + (i - n)) == row(ys, c, i - n));
                assert(losses[i] == ss[i - n]);
            }
        }
    }
}

/// The row gradients of two batches put together are the gradients of the one and of the other.
pub proof fn law_gradients_of_joined_batches(
    t: Precision,
    c: int,
    xs: Seq<int>,
    ls: Seq<int>,
    gs: Seq<int>,
    rs: Seq<int>,
    ys: Seq<int>,
    ms: Seq<int>,
    hs: Seq<int>,
    ss: Seq<int>,
)
    requires
        0 < c,
        xs.len() == ls.len() * c,
        ys.len() == ms.len() * c,
        gs.len() == ls.len(),
        hs.len() == ms.len(),
        rs.len() == xs.len(),
        ss.len() == ys.len(),
    ensures
        row_gradients_of(t, xs + ys, c, ls + ms, gs + hs, rs + ss) <==> row_gradients_of(
            t,
            xs,
            c,
            ls,
            gs,
            rs,
        ) && row_gradients_of(t, ys, c, ms, hs, ss),
{
    let (n, m) = (ls.len() as int, ms.len() as int);
    let (all, labels, grads, out) = (xs + ys, ls + ms, gs + hs, rs + ss);
    assert((n + m) * c == n * c + m * c) by (nonlinear_arith);
    assert forall|i: int| 0 <= i < n implies #[trigger] row(all, c, i) == row(xs, c, i) && row(
        out,
        c,
        i,
    ) == row(rs, c, i) by {
        lemma_row_of_first(xs, ys, n, c, i);
        lemma_row_of_first(rs, ss, n, c, i);
    }
    assert forall|i: int| 0 <= i < m implies #[trigger] row(all, c, n + i) == row(ys, c, i) && row(
        out,
        c,
        n + i,
    ) == row(ss, c, i) by {
        lemma_row_of_second(xs, ys, n, m, c, i);
        lemma_row_of_second(rs, ss, n, m, c, i);
    }
    if row_gradients_of(t, all, c, labels, grads, out) {
        assert forall|i: int| 0 <= i < n implies row_gradient(
            t,
            row(xs, c, i),
            ls[i],
            gs[i],
            #[trigger] row(rs, c, i),
        ) by {
            assert(row(all, c, i) == row(xs, c, i));
            assert(row_gradient(t, row(all, c, i), labels[i], grads[i], row(out, c, i)));
        }
        assert forall|i: int| 0 <= i < m implies row_gradient(
            t,
            row(ys, c, i),
            ms[i],
            hs[i],
            #[trigger] row(ss, c, i),
        ) by {
            assert(row(all, c, n + i) == row(ys, c, i));
            assert(row_gradient(
                t,
                row(all, c, n + i),
                labels[n + i],
                grads[n + i],
                row(out, c, n + i),
            ));
        }
    }
    if row_gradients_of(t, xs, c, ls, gs, rs) && row_gradients_of(t, ys, c, ms, hs, ss) {
        assert forall|i: int| 0 <= i < labels.len() implies row_gradient(
            t,
            row(all, c, i),
            labels[i],
            grads[i],
            #[trigger] row(out, c, i),
        ) by {
            if i < n {
                assert(row(all, c, i) == row(xs, c, i));
                assert(row_gradient(t, row(xs, c, i), ls[i], gs[i], row(rs, c, i)));
            } else {
                let j = i - n;
                assert(row(all, c, n + j) == row(ys, c, j));
                assert(row_gradient(t, row(ys, c, j), ms[j], hs[j], row(ss, c, j)));
            }
        }
    }
}

proof fn lemma_row_of_first(xs: Seq<int>, ys: Seq<int>, n: int, c: int, i: int)
    requires
        0 <= i < n,
        0 < c,
        xs.len() == n * c,
    ensures
        row(xs + ys, c, i) == row(xs, c, i),
{
    lemma_place(i, 0, n, c);
    assert(row(xs + ys, c, i) =~= row(xs, c, i));
}

proof fn lemma_row_of_second(xs: Seq<int>, ys: Seq<int>, n: int, m: int, c: int, i: int)
    requires
        0 <= n,
        0 <= i < m,
        0 < c,
        xs.len() == n * c,
        ys.len() == m * c,
    ensures
        row(xs + ys, c, n + i) == row(ys, c, i),
{
    lemma_place(i, 0, m, c);
    assert((n + i) * c == n * c + i * c) by (nonlinear_arith);
    assert(row(xs + ys, c, n + i) =~= row(ys, c, i));
}

} // verus!
