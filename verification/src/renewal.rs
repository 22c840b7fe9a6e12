//! Tensors without elements, stored anew.
//!
//! A view without elements may start past the end of its storage, where most operations of the
//! backend stop. Such a view is replaced before it is read.

use crate::backend::{convert, dtype, integers, move_to, on_cpu, stored_dtype};
use crate::error::{error_text, from_backend, into_backend, message_of, ErrorOf, LossError};
use crate::model::{
    carries, count, formed_like, layout_dims, shape_dims, storage_dtype, storage_values,
    tensor_contiguous, tensor_dims, tensor_dtype, tensor_fresh, tensor_on_cpu, tensor_values,
};
use crate::row_op::{handed_on, reads};
use crate::rows::{no_integers, nothing};
use crate::shape::has_no_elements;
use candle_core::{CpuStorage, CustomOp1, Error, Layout, Shape, Tensor};
use vstd::prelude::*;
use vstd::slice::*;

verus! {

/// Whether a storage without elements and the shape of a layout without elements are given, or an
/// error where the layout has elements or the backend only stores elements of the type.
pub open spec fn renewal_outcome(
    s: CpuStorage,
    l: Layout,
    r: Result<(CpuStorage, Shape), Error>,
) -> bool {
    &&& r is Ok <==> count(layout_dims(l)) == 0 && !storage_dtype(s).is_stored_only()
    &&& match r {
        Ok(p) => {
            &&& storage_dtype(p.0) == storage_dtype(s)
            &&& shape_dims(p.1) == layout_dims(l)
            &&& storage_values(p.0).len() == 0
        },
        Err(e) => count(layout_dims(l)) > 0 ==> error_text(e) == message_of(ErrorOf::NotEmpty),
    }
}

/// The operation that stores a tensor without elements anew.
pub struct Renewal;

impl CustomOp1 for Renewal {
    fn name(&self) -> (r: &'static str)
        ensures
            r@ == "renewal"@,
    {
        "renewal"
    }

    fn cpu_fwd(&self, storage: &CpuStorage, layout: &Layout) -> (r: Result<
        (CpuStorage, Shape),
        Error,
    >)
        ensures
            renewal_outcome(*storage, *layout, r),
    {
        let dims = layout.dims();
        if !has_no_elements(dims) {
            let e: LossError = ErrorOf::NotEmpty;
            return Err(into_backend(e));
        }
        match nothing(stored_dtype(storage)) {
            Ok(none) => Ok((none, Shape::from_dims(dims))),
            Err(e) => Err(into_backend(e)),
        }
    }

    fn bwd(&self, _arg: &Tensor, _res: &Tensor, grad_res: &Tensor) -> (r: Result<
        Option<Tensor>,
        Error,
    >)
        ensures
            r matches Ok(p) ==> (p matches Some(o) && is_empty_like(o, *grad_res)),
            tensor_on_cpu(*grad_res) ==> (r is Ok <==> count(tensor_dims(*grad_res)) == 0
                && !tensor_dtype(*grad_res).is_stored_only()),
    {
        if !has_no_elements(grad_res.dims()) {
            let e: LossError = ErrorOf::NotEmpty;
            return Err(into_backend(e));
        }
        match empty_like(grad_res) {
            Ok(grad) => Ok(Some(grad)),
            Err(e) => Err(into_backend(e)),
        }
    }
}

/// Whether a tensor without elements has the form of another one and is stored by itself.
pub open spec fn is_empty_like(o: Tensor, t: Tensor) -> bool {
    &&& formed_like(o, t)
    &&& count(tensor_dims(o)) == 0
    &&& tensor_contiguous(o)
    &&& tensor_fresh(o)
    &&& tensor_values(o).len() == 0
}

/// A new tensor without elements, of the form of another one.
fn empty_like(t: &Tensor) -> (r: Result<Tensor, LossError>)
    requires
        count(tensor_dims(*t)) == 0,
    ensures
        r matches Err(e) ==> e is Backend,
        r matches Ok(o) ==> is_empty_like(o, *t),
        tensor_on_cpu(*t) ==> (r is Ok <==> !tensor_dtype(*t).is_stored_only()),
{
    let none = from_backend(integers(Vec::new(), slice_to_vec(t.dims())))?;
    let typed = from_backend(convert(&none, dtype(t)))?;
    from_backend(move_to(&typed, t))
}

/// Whether a result is what the backend makes of the renewal of a tensor on the processor.
pub open spec fn renewal_ran(t: Tensor, r: Result<Tensor, Error>) -> bool {
    exists|s: CpuStorage, l: Layout, p: Result<(CpuStorage, Shape), Error>|
        {
            &&& reads(t, s, l)
            &&& #[trigger] renewal_outcome(s, l, p)
            &&& handed_on(p, r)
        }
}

/// Calls `Tensor::apply_op1` with `Renewal`. On the processor it runs the operation's `cpu_fwd` on
/// the tensor's storage and layout and makes a tensor of what that gives, which remembers the
/// operation for differentiation.
#[verifier::external_body]
fn run_renewal(t: &Tensor) -> (r: Result<Tensor, Error>)
    requires
        tensor_on_cpu(*t),
    ensures
        renewal_ran(*t, r),
        r matches Ok(o) ==> carries(o, *t),
{
    t.apply_op1(Renewal)
}

/// A tensor without elements, stored anew, which remembers where it came from. One that lies
/// elsewhere is brought to the processor and back.
pub(crate) fn renewed(t: &Tensor) -> (r: Result<Tensor, LossError>)
    requires
        count(tensor_dims(*t)) == 0,
    ensures
        r matches Err(e) ==> e is Backend,
        r matches Ok(o) ==> is_empty_like(o, *t) && carries(o, *t),
        tensor_on_cpu(*t) ==> (r is Ok <==> !tensor_dtype(*t).is_stored_only()),
{
    if on_cpu(t) {
        return from_backend(run_renewal(t));
    }
    let here = no_integers()?;
    let near = from_backend(move_to(t, &here))?;
    let anew = from_backend(run_renewal(&near))?;
    from_backend(move_to(&anew, t))
}

} // verus!
