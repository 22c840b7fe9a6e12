//! The logistic function.

use crate::backend::{
    affine, binary_works, dtype, is_affine, is_exponential, is_negation, is_product, is_reciprocal,
    load, on_cpu, on_integers, stored_dtype, unload,
};
use crate::dtype::DType;
use crate::error::{error_text, from_backend, into_backend, message_of, ErrorOf, Fault, LossError};
use crate::model::{
    both_on_cpu, carries, count, each1, each2, formed_like, layout_dims, shape_dims, storage_dtype,
    storage_values, tensor_dims, tensor_dtype, tensor_on_cpu, tensor_values,
};
use crate::row_op::{handed_on, reads};
use crate::rows::nothing;
use crate::shape::{
    checked_count, contiguous_offsets, fits_storage, has_no_elements, reads_stretch, stretch,
    within,
};
use candle_core::{CpuStorage, CustomOp1, Error, Layout, Shape, Tensor};
use vstd::prelude::*;
use vstd::slice::*;

verus! {

/// Whether `r` is the logistic function of `x`: the reciprocal of one more than the exponential of
/// its negation.
pub open spec fn is_sigmoid(dtype: DType, x: int, r: int) -> bool {
    exists|n: int, e: int, s: int|
        {
            &&& #[trigger] is_negation(dtype, x, n)
            &&& #[trigger] is_exponential(dtype, n, e)
            &&& #[trigger] is_affine(dtype, e, 1, 1, s)
            &&& is_reciprocal(dtype, s, r)
        }
}

/// The logistic function of each element, step by step.
fn sigmoid_steps(x: &Tensor) -> (r: Result<Tensor, LossError>)
    requires
        !on_integers(*x),
    ensures
        tensor_on_cpu(*x) ==> (r is Ok <==> count(tensor_dims(*x)) == 0 || !tensor_dtype(
            *x,
        ).is_stored_only()),
        r matches Err(e) ==> e is Backend,
        r matches Ok(o) ==> formed_like(o, *x) && carries(o, *x) && each1(
            |a: int, b: int| is_sigmoid(tensor_dtype(*x), a, b),
            tensor_values(*x),
            tensor_values(o),
        ),
{
    let negated = from_backend(x.neg())?;
    let exps = from_backend(negated.exp())?;
    let sums = from_backend(affine(&exps, 1, 1))?;
    let out = from_backend(sums.recip())?;
    proof {
        let d = tensor_dtype(*x);
        let (xs, rs) = (tensor_values(*x), tensor_values(out));
        assert forall|i: int| 0 <= i < rs.len() implies is_sigmoid(d, xs[i], #[trigger] rs[i]) by {
            assert(is_reciprocal(d, tensor_values(sums)[i], rs[i]));
            assert(is_affine(d, tensor_values(exps)[i], 1, 1, tensor_values(sums)[i]));
            assert(is_exponential(d, tensor_values(negated)[i], tensor_values(exps)[i]));
            assert(is_negation(d, xs[i], tensor_values(negated)[i]));
        }
    }
    Ok(out)
}

/// What keeps the logistic function of the elements that a layout reads from being computed.
pub open spec fn sigmoid_fault(s: CpuStorage, l: Layout) -> Option<Fault> {
    if !storage_dtype(s).is_row_float() {
        Some(ErrorOf::SigmoidDType { dtype: storage_dtype(s) })
    } else if !reads_stretch(l) {
        Some(ErrorOf::SigmoidStrided)
    } else if !within(s, l) {
        Some(ErrorOf::OutOfStorage)
    } else {
        None
    }
}

/// Whether a storage and a shape hold the logistic function of each element.
pub open spec fn holds_sigmoid(s: CpuStorage, l: Layout, p: (CpuStorage, Shape)) -> bool {
    &&& storage_dtype(p.0) == storage_dtype(s)
    &&& shape_dims(p.1) == layout_dims(l)
    &&& each1(
        |a: int, b: int| is_sigmoid(storage_dtype(s), a, b),
        stretch(s, l),
        storage_values(p.0),
    )
}

/// The logistic function of each element that a layout reads from a storage.
fn sigmoid_elements(s: &CpuStorage, l: &Layout) -> (r: Result<(CpuStorage, Shape), LossError>)
    ensures
        r matches Ok(p) ==> sigmoid_fault(*s, *l) is None && holds_sigmoid(*s, *l, p),
        r matches Err(e) ==> sigmoid_fault(*s, *l) == Some(e@),
{
    let dtype = stored_dtype(s);
    match dtype {
        DType::BF16 | DType::F16 | DType::F32 | DType::F64 => {},
        dtype => {
            return Err(ErrorOf::SigmoidDType { dtype });
        },
    }
    let (o1, o2) = match contiguous_offsets(l) {
        Some(o) => o,
        None => {
            return Err(ErrorOf::SigmoidStrided);
        },
    };
    if !fits_storage(s, l) {
        return Err(ErrorOf::OutOfStorage);
    }
    let shape = Shape::from_dims(l.dims());
    if o1 == o2 {
        return Ok((nothing(dtype)?, shape));
    }
    let x = from_backend(load(s, l))?;
    assert(tensor_values(x) =~= stretch(*s, *l));
    let y = sigmoid_steps(&x)?;
    let out = from_backend(unload(&y))?;
    Ok((out, shape))
}

/// Whether the backend is given the logistic function of each element, or an error that says what
/// keeps it from being computed.
pub open spec fn sigmoid_outcome(
    s: CpuStorage,
    l: Layout,
    r: Result<(CpuStorage, Shape), Error>,
) -> bool {
    match r {
        Ok(p) => sigmoid_fault(s, l) is None && holds_sigmoid(s, l, p),
        Err(e) => match sigmoid_fault(s, l) {
            Some(f) => error_text(e) == message_of(f),
            None => false,
        },
    }
}

/// Whether `r` is the gradient of the logistic function at a place where its value is `y`, times
/// the gradient that came back: `g * ((1 - y) * y)`.
pub open spec fn is_slope(dtype: DType, y: int, g: int, r: int) -> bool {
    exists|n: int, s: int|
        {
            &&& #[trigger] is_affine(dtype, y, -1, 1, n)
            &&& #[trigger] is_product(dtype, n, y, s)
            &&& is_product(dtype, g, s, r)
        }
}

/// What is wrong with the value of the logistic function whose gradient is asked for.
pub open spec fn gradient_fault(res: Tensor) -> Option<Fault> {
    if !tensor_dtype(res).is_row_float() {
        Some(ErrorOf::SigmoidDType { dtype: tensor_dtype(res) })
    } else if tensor_on_cpu(res) && tensor_dims(res).len() > 8 && count(tensor_dims(res)) > 0 {
        Some(ErrorOf::TooManyDims { dims: tensor_dims(res) })
    } else {
        None
    }
}

/// Whether the processor computes the gradient of the logistic function.
pub open spec fn gradient_works(res: Tensor, grad_res: Tensor) -> bool {
    &&& gradient_fault(res) is None
    &&& tensor_dims(grad_res) == tensor_dims(res)
    &&& binary_works(grad_res, res)
}

/// The gradient of the logistic function, from its value and the gradient that came back.
pub fn sigmoid_gradient(res: &Tensor, grad_res: &Tensor) -> (r: Result<Tensor, LossError>)
    ensures
        both_on_cpu(*res, *grad_res) ==> (r is Ok <==> gradient_works(*res, *grad_res)),
        r matches Ok(o) ==> formed_like(o, *grad_res) && (tensor_dtype(*grad_res) == tensor_dtype(
            *res,
        ) ==> each2(
            |y: int, g: int, z: int| is_slope(tensor_dtype(*res), y, g, z),
            tensor_values(*res),
            tensor_values(*grad_res),
            tensor_values(o),
        )),
        r matches Err(e) ==> match gradient_fault(*res) {
            Some(f) => e@ == f,
            None => e is Backend,
        },
{
    match dtype(res) {
        DType::BF16 | DType::F16 | DType::F32 | DType::F64 => {},
        dtype => {
            return Err(ErrorOf::SigmoidDType { dtype });
        },
    }
    let dims = res.dims();
    if on_cpu(res) && dims.len() > 8 && !has_no_elements(dims) {
        return Err(ErrorOf::TooManyDims { dims: slice_to_vec(dims) });
    }
    let rest = from_backend(affine(res, -1, 1))?;
    let slope = from_backend(rest.mul(res))?;
    let out = from_backend(grad_res.mul(&slope))?;
    proof {
        let d = tensor_dtype(*res);
        let (ys, gs, rs) = (tensor_values(*res), tensor_values(*grad_res), tensor_values(out));
        if tensor_dtype(*grad_res) == d {
            assert forall|i: int| 0 <= i < rs.len() implies is_slope(
                d,
                ys[i],
                gs[i],
                #[trigger] rs[i],
            ) by {
                assert(is_product(d, gs[i], tensor_values(slope)[i], rs[i]));
                assert(is_product(d, tensor_values(rest)[i], ys[i], tensor_values(slope)[i]));
                assert(is_affine(d, ys[i], -1, 1, tensor_values(rest)[i]));
            }
        }
    }
    Ok(out)
}

/// The operation that takes each element to its logistic function.
pub struct Sigmoid;

impl CustomOp1 for Sigmoid {
    fn name(&self) -> (r: &'static str)
        ensures
            r@ == "sigmoid"@,
    {
        "sigmoid"
    }

    fn cpu_fwd(&self, storage: &CpuStorage, layout: &Layout) -> (r: Result<
        (CpuStorage, Shape),
        Error,
    >)
        ensures
            sigmoid_outcome(*storage, *layout, r),
    {
        match sigmoid_elements(storage, layout) {
            Ok(p) => Ok(p),
            Err(e) => Err(into_backend(e)),
        }
    }

    fn bwd(&self, _arg: &Tensor, res: &Tensor, grad_res: &Tensor) -> (r: Result<
        Option<Tensor>,
        Error,
    >)
        ensures
            both_on_cpu(*res, *grad_res) ==> (r is Ok <==> gradient_works(*res, *grad_res)),
            r matches Ok(p) ==> (p matches Some(o) && formed_like(o, *grad_res) && (tensor_dtype(
                *grad_res,
            ) == tensor_dtype(*res) ==> each2(
                |y: int, g: int, z: int| is_slope(tensor_dtype(*res), y, g, z),
                tensor_values(*res),
                tensor_values(*grad_res),
                tensor_values(o),
            ))),
    {
        match sigmoid_gradient(res, grad_res) {
            Ok(grad) => Ok(Some(grad)),
            Err(e) => Err(into_backend(e)),
        }
    }
}

/// Whether a result is what the backend makes of the logistic function of a tensor on the
/// processor.
pub open spec fn sigmoid_ran(t: Tensor, r: Result<Tensor, Error>) -> bool {
    exists|s: CpuStorage, l: Layout, p: Result<(CpuStorage, Shape), Error>|
        {
            &&& reads(t, s, l)
            &&& #[trigger] sigmoid_outcome(s, l, p)
            &&& handed_on(p, r)
        }
}

/// Calls `Tensor::apply_op1` with `Sigmoid`. On the processor it runs the operation's `cpu_fwd` on
/// the tensor's storage and layout and makes a tensor of what that gives, which remembers the
/// operation for differentiation.
#[verifier::external_body]
fn run_sigmoid(t: &Tensor) -> (r: Result<Tensor, Error>)
    requires
        tensor_on_cpu(*t),
    ensures
        sigmoid_ran(*t, r),
        r matches Ok(o) ==> carries(o, *t),
{
    t.apply_op1(Sigmoid)
}

/// The logistic function of each element. On the processor it is differentiated by way of its
/// value, which loses nothing where exponentials are large.
pub fn sigmoid(t: &Tensor) -> (r: Result<Tensor, LossError>)
    ensures
        tensor_on_cpu(*t) ==> (r is Ok <==> tensor_dtype(*t).is_row_float()),
        r matches Ok(o) ==> formed_like(o, *t) && carries(o, *t) && each1(
            |a: int, b: int| is_sigmoid(tensor_dtype(*t), a, b),
            tensor_values(*t),
            tensor_values(o),
        ),
        r matches Err(e) ==> if tensor_on_cpu(*t) {
            e@ == (ErrorOf::<Seq<usize>, Seq<char>>::SigmoidDType { dtype: tensor_dtype(*t) })
        } else {
            e is Backend
        },
{
    if !on_cpu(t) {
        return sigmoid_steps(t);
    }
    match dtype(t) {
        DType::BF16 | DType::F16 | DType::F32 | DType::F64 => {},
        dtype => {
            return Err(ErrorOf::SigmoidDType { dtype });
        },
    }
    if has_no_elements(t.dims()) {
        return sigmoid_steps(t);
    }
    let x = from_backend(t.contiguous())?;
    if checked_count(x.dims()).is_none() {
        return sigmoid_steps(&x);
    }
    let ran = run_sigmoid(&x);
    proof {
        let (s, l, p) = choose|s: CpuStorage, l: Layout, p: Result<(CpuStorage, Shape), Error>|
            {
                &&& reads(x, s, l)
                &&& #[trigger] sigmoid_outcome(s, l, p)
                &&& handed_on(p, ran)
            };
        assert(sigmoid_fault(s, l) is None);
    }
    from_backend(ran)
}

/// What the forward pass of the logistic function hands to the backend.
pub fn sigmoid_pass(s: &CpuStorage, l: &Layout) -> (r: Result<(CpuStorage, Shape), Error>)
    ensures
        sigmoid_outcome(*s, *l, r),
{
    Sigmoid.cpu_fwd(s, l)
}

/// What the backward pass of the logistic function hands to the backend, from the function's
/// argument and value and the gradient that came back.
pub fn sigmoid_gradient_pass(arg: &Tensor, res: &Tensor, grad_res: &Tensor) -> (r: Result<
    Option<Tensor>,
    Error,
>)
    ensures
        both_on_cpu(*res, *grad_res) ==> (r is Ok <==> gradient_works(*res, *grad_res)),
        r matches Ok(p) ==> (p matches Some(o) && formed_like(o, *grad_res) && (tensor_dtype(
            *grad_res,
        ) == tensor_dtype(*res) ==> each2(
            |y: int, g: int, z: int| is_slope(tensor_dtype(*res), y, g, z),
            tensor_values(*res),
            tensor_values(*grad_res),
            tensor_values(o),
        ))),
{
    Sigmoid.bwd(arg, res, grad_res)
}

} // verus!
