//! What the losses ask of the tensor backend, and what is believed of its answers.
//!
//! Floating-point arithmetic is not modelled. Where an operation computes with elements, a relation
//! says which operation an element came out of and which elements went into it. Such a relation
//! holds of every number that the operation may give: it does not say that two processors, or two
//! builds of the backend, give the same one.
//!
//! What an operation makes of tensors remembers them for differentiation, as far as they take part
//! in it: `carries` says of a result which tensors it leads back to. How the backend then
//! differentiates is not modelled.
//!
//! A tensor is taken to lie inside its storage, which is the duty of whoever makes one from a
//! storage. Left aside are also views whose elements, or those under some of their dimensions, a
//! machine word cannot count: the backend stops on them.

use crate::dtype::DType;
use crate::model::{
    both_on_cpu, carries, count, countable, each1, each2, formed_like, is_proper, layout_contiguous,
    layout_dims, layout_start, pickable, picked, remembers, row, scalar_value, shape_dims, spread,
    spreads, storage_dtype, storage_values, tensor_contiguous, tensor_dims, tensor_dtype,
    tensor_fresh, tensor_on_cpu, tensor_on_metal, tensor_values,
};
use candle_core::backend::BackendStorage;
use candle_core::scalar::Scalar;
use candle_core::DType as Kind;
use candle_core::{CpuStorage, Device, Error, Layout, Shape, Storage, Tensor};
use vstd::prelude::*;

verus! {

/// Whether `r` is what the backend may give for `x - y`.
pub uninterp spec fn is_difference(dtype: DType, x: int, y: int, r: int) -> bool;

/// Whether `r` is what the backend may give for `x + y`.
pub uninterp spec fn is_sum(dtype: DType, x: int, y: int, r: int) -> bool;

/// Whether `r` is what the backend may give for `x * y`.
pub uninterp spec fn is_product(dtype: DType, x: int, y: int, r: int) -> bool;

/// Whether `r` is what the backend may give for `x / y`.
pub uninterp spec fn is_quotient(dtype: DType, x: int, y: int, r: int) -> bool;

/// Whether `r` is what the backend may give for `x * mul + add`.
pub uninterp spec fn is_affine(dtype: DType, x: int, mul: int, add: int, r: int) -> bool;

/// Whether `r` is what the backend may give for the square of `x`.
pub uninterp spec fn is_square(dtype: DType, x: int, r: int) -> bool;

/// Whether `r` is what the backend may give for the absolute value of `x`.
pub uninterp spec fn is_magnitude(dtype: DType, x: int, r: int) -> bool;

/// Whether `r` is what the backend may give for `-x`.
pub uninterp spec fn is_negation(dtype: DType, x: int, r: int) -> bool;

/// Whether `r` is what the backend may give for the exponential of `x`.
pub uninterp spec fn is_exponential(dtype: DType, x: int, r: int) -> bool;

/// Whether `r` is what the backend may give for the natural logarithm of `x`.
pub uninterp spec fn is_logarithm(dtype: DType, x: int, r: int) -> bool;

/// Whether `r` is what the backend may give for `1 / x`.
pub uninterp spec fn is_reciprocal(dtype: DType, x: int, r: int) -> bool;

/// Whether `r` is what the backend may give for `x` in another element type.
pub uninterp spec fn is_conversion(from: DType, to: DType, x: int, r: int) -> bool;

/// Whether `r` is what the backend may give for the largest of the elements.
pub uninterp spec fn is_largest(dtype: DType, xs: Seq<int>, r: int) -> bool;

/// Whether `r` is what the backend may give for the sum of the elements.
pub uninterp spec fn is_total(dtype: DType, xs: Seq<int>, r: int) -> bool;

/// Whether `r` is what the backend may give for the mean of the elements.
pub uninterp spec fn is_mean(dtype: DType, xs: Seq<int>, r: int) -> bool;

/// Whether `r` is what the backend may answer to `x < y`.
pub uninterp spec fn is_below(dtype: DType, x: int, y: int, r: bool) -> bool;

/// Whether an operation on a tensor computes with integers, where it would stop on an overflow or
/// is not there at all.
pub open spec fn on_integers(t: Tensor) -> bool {
    tensor_on_cpu(t) && count(tensor_dims(t)) > 0 && tensor_dtype(t).is_int()
}

/// Whether an operation on two tensors of the same dimensions computes with integers, where it
/// would stop on an overflow, or walks through more dimensions than it can.
pub open spec fn pair_stops(a: Tensor, b: Tensor) -> bool {
    &&& both_on_cpu(a, b)
    &&& count(tensor_dims(a)) > 0
    &&& tensor_dtype(a) == tensor_dtype(b)
    &&& !tensor_dtype(a).is_stored_only()
    &&& tensor_dtype(a).is_int() || tensor_dims(a).len() > 8
}

/// Whether an operation on two tensors is refused wherever they lie: they have elements, but not in
/// the same place or not of the same type.
pub open spec fn pair_refused(a: Tensor, b: Tensor) -> bool {
    &&& count(tensor_dims(a)) > 0
    &&& tensor_on_cpu(a) != tensor_on_cpu(b) || tensor_dtype(a) != tensor_dtype(b)
}

/// Whether the result of an operation on two tensors carries both of them; where there are no
/// elements it is the first.
pub open spec fn carries_pair(o: Tensor, a: Tensor, b: Tensor) -> bool {
    carries(o, a) && (count(tensor_dims(a)) > 0 ==> carries(o, b))
}

/// Whether a tensor can be read: it has elements, or is not a view that may start past the end of
/// its storage.
pub open spec fn readable(t: Tensor) -> bool {
    count(tensor_dims(t)) > 0 || tensor_fresh(t)
}

/// Whether the processor computes an operation on the elements of a tensor.
pub open spec fn unary_works(t: Tensor) -> bool {
    count(tensor_dims(t)) == 0 || !tensor_dtype(t).is_stored_only()
}

/// Whether the processor computes an operation on the elements of two tensors whose dimensions fit.
pub open spec fn binary_works(a: Tensor, b: Tensor) -> bool {
    count(tensor_dims(a)) == 0 || (tensor_dtype(a) == tensor_dtype(b)
        && !tensor_dtype(a).is_stored_only())
}

/// Whether the processor compares the elements of two tensors whose dimensions fit.
pub open spec fn compare_works(a: Tensor, b: Tensor) -> bool {
    tensor_dtype(a) == tensor_dtype(b) && !tensor_dtype(a).is_stored_only()
}

/// Whether the processor chooses between the elements of two tensors of the same dimensions.
pub open spec fn select_works(mask: Tensor, a: Tensor, b: Tensor) -> bool {
    tensor_dtype(mask).is_int() && compare_works(a, b)
}

/// Whether the processor finds the largest element of each row.
pub open spec fn maxima_work(t: Tensor) -> bool {
    count(tensor_dims(t)) > 0 && !tensor_dtype(t).is_stored_only()
}

/// Whether the processor picks an element from each row of a matrix.
pub open spec fn gather_works(t: Tensor, labels: Tensor) -> bool {
    &&& tensor_contiguous(t)
    &&& tensor_contiguous(labels)
    &&& tensor_dtype(labels).is_label()
    &&& !tensor_dtype(t).is_stored_only()
    &&& forall|i: int|
        0 <= i < tensor_dims(t)[0] ==> pickable(
            tensor_dtype(labels),
            #[trigger] tensor_values(labels)[i],
            tensor_dims(t)[1] as int,
        )
}

/// `Tensor::dims` gives the dimensions, whose product is the number of elements.
pub assume_specification[ Tensor::dims ](t: &Tensor) -> (r: &[usize])
    ensures
        r@ == tensor_dims(*t),
        tensor_values(*t).len() == count(r@),
;

/// `Tensor::layout` gives the layout under which the tensor reads its storage.
pub assume_specification[ Tensor::layout ](t: &Tensor) -> (r: &Layout)
    ensures
        layout_dims(*r) == tensor_dims(*t),
        layout_contiguous(*r) == tensor_contiguous(*t),
;

/// Calls `Tensor::dtype` and writes the element type as a `DType`. Elements of the type `U32` are
/// numbers of 32 bits without a sign.
#[verifier::external_body]
pub(crate) fn dtype(t: &Tensor) -> (r: DType)
    ensures
        r == tensor_dtype(*t),
        r == DType::U32 ==> forall|i: int|
            0 <= i < tensor_values(*t).len() ==> 0 <= #[trigger] tensor_values(*t)[i] <= u32::MAX,
{
    match t.dtype() {
        Kind::U8 => DType::U8, Kind::U32 => DType::U32,
        Kind::I16 => DType::I16, Kind::I32 => DType::I32, Kind::I64 => DType::I64,
        Kind::BF16 => DType::BF16, Kind::F16 => DType::F16,
        Kind::F32 => DType::F32, Kind::F64 => DType::F64,
        Kind::F8E4M3 => DType::F8E4M3, Kind::F6E2M3 => DType::F6E2M3,
        Kind::F6E3M2 => DType::F6E3M2, Kind::F4 => DType::F4,
        _ => DType::F8E8M0,
    }
}

/// Calls `Device::is_cpu` on the place where a tensor lies.
#[verifier::external_body]
pub(crate) fn on_cpu(t: &Tensor) -> (r: bool)
    ensures
        r == tensor_on_cpu(*t),
{
    t.device().is_cpu()
}

/// Calls `Device::is_metal` on the place where a tensor lies.
#[verifier::external_body]
pub(crate) fn on_metal(t: &Tensor) -> (r: bool)
    ensures
        r == tensor_on_metal(*t),
{
    t.device().is_metal()
}

/// `Tensor::contiguous` keeps all but the order in memory, which becomes row by row. A tensor that
/// is stored so already is handed back. On the processor it fails only where elements of a type
/// that is merely stored would have to be moved. Where there are no elements but rows, it would
/// look for the rows past the end of the storage.
pub assume_specification[ Tensor::contiguous ](t: &Tensor) -> (r: Result<Tensor, Error>)
    requires
        tensor_contiguous(*t) || count(tensor_dims(*t)) > 0 || tensor_dims(*t)[0] == 0,
    ensures
        tensor_contiguous(*t) ==> r is Ok,
        tensor_on_cpu(*t) ==> (r is Ok <==> tensor_contiguous(*t)
            || !tensor_dtype(*t).is_stored_only()),
        r matches Ok(o) ==> formed_like(o, *t) && tensor_on_metal(o) == tensor_on_metal(*t)
            && tensor_contiguous(o) && tensor_values(o) == tensor_values(*t) && remembers(o, *t)
            && carries(o, *t),
;

/// `Tensor::flatten_all` makes a vector of the elements, row by row. On the processor it fails only
/// where elements of a type that is merely stored would have to be moved.
pub assume_specification[ Tensor::flatten_all ](t: &Tensor) -> (r: Result<Tensor, Error>)
    requires
        0 < count(tensor_dims(*t)) <= usize::MAX,
    ensures
        tensor_on_cpu(*t) ==> (r is Ok <==> tensor_contiguous(*t) || tensor_dims(*t).len() == 1
            || !tensor_dtype(*t).is_stored_only()),
        r matches Ok(o) ==> tensor_dims(o) == seq![count(tensor_dims(*t)) as usize] && tensor_dtype(
            o,
        ) == tensor_dtype(*t) && tensor_on_cpu(o) == tensor_on_cpu(*t) && tensor_values(o)
            == tensor_values(*t) && carries(o, *t),
;

/// Calls `Tensor::unsqueeze` to make a vector the only column of a matrix.
#[verifier::external_body]
pub(crate) fn as_column(t: &Tensor) -> (r: Result<Tensor, Error>)
    requires
        tensor_dims(*t).len() == 1,
    ensures
        r is Ok,
        r matches Ok(o) ==> tensor_dims(o) == tensor_dims(*t).push(1) && tensor_dtype(o)
            == tensor_dtype(*t) && tensor_on_cpu(o) == tensor_on_cpu(*t) && tensor_contiguous(o)
            == tensor_contiguous(*t) && tensor_values(o) == tensor_values(*t) && (tensor_fresh(*t)
            ==> tensor_fresh(o)) && carries(o, *t),
{
    t.unsqueeze(1)
}

/// Calls `Tensor::gather` along the rows of a matrix, with a column that holds one label per row.
/// Where both are contiguous, a label that names an element of its row picks that element. On the
/// processor both have to be contiguous, and each label has to name an element of its row or to be
/// the largest number of its type, for which the result holds zero. What an accelerator gives for
/// other labels is not said.
#[verifier::external_body]
pub(crate) fn gather(t: &Tensor, labels: &Tensor) -> (r: Result<Tensor, Error>)
    requires
        tensor_dims(*t).len() == 2,
        tensor_dims(*labels) == seq![tensor_dims(*t)[0], 1],
        tensor_contiguous(*t) ==> readable(*t),
        tensor_contiguous(*labels) ==> readable(*labels),
    ensures
        tensor_on_cpu(*t) != tensor_on_cpu(*labels) ==> r is Err,
        both_on_cpu(*t, *labels) ==> (r is Ok <==> gather_works(*t, *labels)),
        r matches Ok(o) ==> tensor_dims(o) == tensor_dims(*labels) && tensor_dtype(o)
            == tensor_dtype(*t) && tensor_on_cpu(o) == tensor_on_cpu(*t) && tensor_contiguous(o)
            && tensor_fresh(o) && carries(o, *t) && (tensor_on_cpu(*t) ==> tensor_values(o)
            == Seq::new(
            tensor_dims(*t)[0] as nat,
            |i: int|
                picked(
                    tensor_dtype(*labels),
                    tensor_values(*labels)[i],
                    row(tensor_values(*t), tensor_dims(*t)[1] as int, i),
                ),
        )),
        r matches Ok(o) ==> tensor_contiguous(*t) && tensor_contiguous(*labels) ==> tensor_values(
            o,
        ).len() == tensor_dims(*t)[0] && forall|i: int|
            0 <= i < tensor_dims(*t)[0] && is_proper(
                tensor_dtype(*labels),
                tensor_values(*labels)[i],
                tensor_dims(*t)[1] as int,
            ) ==> #[trigger] tensor_values(o)[i] == row(
                tensor_values(*t),
                tensor_dims(*t)[1] as int,
                i,
            )[tensor_values(*labels)[i]],
{
    t.gather(labels, 1)
}

/// Calls `Tensor::scatter` along the rows of a matrix, with a column that holds one label per row
/// and another that holds what to put in place of the element that the label names.
#[verifier::external_body]
pub(crate) fn scatter(t: &Tensor, labels: &Tensor, source: &Tensor) -> (r: Result<Tensor, Error>)
    requires
        tensor_dims(*t).len() == 2,
        count(tensor_dims(*t)) > 0,
        tensor_dims(*labels) == seq![tensor_dims(*t)[0], 1],
        tensor_dims(*source) == seq![tensor_dims(*t)[0], 1],
        tensor_dtype(*labels).is_label(),
        tensor_dtype(*t).is_row_float(),
        tensor_dtype(*source) == tensor_dtype(*t),
        tensor_contiguous(*labels),
        tensor_contiguous(*source),
        forall|i: int|
            0 <= i < tensor_dims(*t)[0] ==> is_proper(
                tensor_dtype(*labels),
                #[trigger] tensor_values(*labels)[i],
                tensor_dims(*t)[1] as int,
            ),
    ensures
        both_on_cpu(*t, *labels) && tensor_on_cpu(*source) ==> r is Ok,
        r matches Ok(o) ==> formed_like(o, *t) && tensor_values(o) == Seq::new(
            tensor_values(*t).len(),
            |k: int|
                if k % tensor_dims(*t)[1] as int == tensor_values(*labels)[k
                    / tensor_dims(*t)[1] as int] {
                    tensor_values(*source)[k / tensor_dims(*t)[1] as int]
                } else {
                    tensor_values(*t)[k]
                },
        ),
{
    t.scatter(labels, source, 1)
}

/// Calls `Tensor::to_dtype`. A tensor that has the type already is handed back. From `U8` to `U32`
/// each number stays what it is, and on the processor so does, from `I64`, each that `U32` can
/// hold. The processor does not convert the types that are merely stored.
#[verifier::external_body]
pub(crate) fn convert(t: &Tensor, dtype: DType) -> (r: Result<Tensor, Error>)
    requires
        readable(*t),
    ensures
        tensor_on_cpu(*t) ==> (r is Ok <==> tensor_dtype(*t) == dtype || (!tensor_dtype(
            *t,
        ).is_stored_only() && !dtype.is_stored_only())),
        r matches Ok(o) ==> {
            &&& carries(o, *t)
            &&& tensor_dims(o) == tensor_dims(*t)
            &&& tensor_dtype(o) == dtype
            &&& tensor_on_cpu(o) == tensor_on_cpu(*t)
            &&& tensor_contiguous(*t) ==> tensor_contiguous(o)
            &&& tensor_fresh(*t) || tensor_dtype(*t) != dtype ==> tensor_fresh(o)
            &&& tensor_dtype(*t) == dtype || (tensor_dtype(*t) == DType::U8 && dtype == DType::U32)
                ==> tensor_values(o) == tensor_values(*t)
            &&& tensor_on_cpu(*t) && tensor_dtype(*t) == DType::I64 && dtype == DType::U32
                ==> each1(
                |x: int, y: int| 0 <= x <= u32::MAX ==> y == x,
                tensor_values(*t),
                tensor_values(o),
            )
            &&& tensor_dtype(*t) != dtype ==> each1(
                |x: int, y: int| is_conversion(tensor_dtype(*t), dtype, x, y),
                tensor_values(*t),
                tensor_values(o),
            )
        },
{
    t.to_dtype(match dtype {
        DType::U8 => Kind::U8, DType::U32 => Kind::U32,
        DType::I16 => Kind::I16, DType::I32 => Kind::I32, DType::I64 => Kind::I64,
        DType::BF16 => Kind::BF16, DType::F16 => Kind::F16,
        DType::F32 => Kind::F32, DType::F64 => Kind::F64,
        DType::F8E4M3 => Kind::F8E4M3, DType::F6E2M3 => Kind::F6E2M3,
        DType::F6E3M2 => Kind::F6E3M2, DType::F4 => Kind::F4,
        DType::F8E8M0 => Kind::F8E8M0,
    })
}

/// Calls `Tensor::to_device` with the place where another tensor lies.
#[verifier::external_body]
pub(crate) fn move_to(t: &Tensor, like: &Tensor) -> (r: Result<Tensor, Error>)
    ensures
        both_on_cpu(*t, *like) ==> r is Ok,
        r matches Ok(o) ==> tensor_dims(o) == tensor_dims(*t) && tensor_dtype(o) == tensor_dtype(*t)
            && tensor_on_cpu(o) == tensor_on_cpu(*like) && tensor_contiguous(o)
            == tensor_contiguous(*t) && tensor_values(o) == tensor_values(*t) && (tensor_fresh(*t)
            ==> tensor_fresh(o)) && carries(o, *t),
{
    t.to_device(like.device())
}

/// `Tensor::sub` subtracts element from element. Like the other operations on two tensors, it walks
/// through at most eight dimensions on the processor, and hands the first tensor back where there
/// are no elements.
pub assume_specification[ Tensor::sub ](a: &Tensor, b: &Tensor) -> (r: Result<Tensor, Error>)
    requires
        tensor_dims(*a) == tensor_dims(*b) ==> !pair_stops(*a, *b),
    ensures
        tensor_dims(*a) != tensor_dims(*b) ==> r is Err,
        pair_refused(*a, *b) ==> r is Err,
        both_on_cpu(*a, *b) && tensor_dims(*a) == tensor_dims(*b) ==> (r is Ok <==> binary_works(
            *a,
            *b,
        )),
        r matches Ok(o) ==> formed_like(o, *a) && carries_pair(o, *a, *b) && each2(
            |x: int, y: int, z: int| is_difference(tensor_dtype(*a), x, y, z),
            tensor_values(*a),
            tensor_values(*b),
            tensor_values(o),
        ),
;

/// `Tensor::add` adds element to element.
pub assume_specification[ Tensor::add ](a: &Tensor, b: &Tensor) -> (r: Result<Tensor, Error>)
    requires
        tensor_dims(*a) == tensor_dims(*b) ==> !pair_stops(*a, *b),
    ensures
        tensor_dims(*a) != tensor_dims(*b) ==> r is Err,
        pair_refused(*a, *b) ==> r is Err,
        both_on_cpu(*a, *b) && tensor_dims(*a) == tensor_dims(*b) ==> (r is Ok <==> binary_works(
            *a,
            *b,
        )),
        r matches Ok(o) ==> formed_like(o, *a) && carries_pair(o, *a, *b) && each2(
            |x: int, y: int, z: int| is_sum(tensor_dtype(*a), x, y, z),
            tensor_values(*a),
            tensor_values(*b),
            tensor_values(o),
        ),
;

/// `Tensor::mul` multiplies element with element.
pub assume_specification[ Tensor::mul ](a: &Tensor, b: &Tensor) -> (r: Result<Tensor, Error>)
    requires
        tensor_dims(*a) == tensor_dims(*b) ==> !pair_stops(*a, *b),
    ensures
        tensor_dims(*a) != tensor_dims(*b) ==> r is Err,
        pair_refused(*a, *b) ==> r is Err,
        both_on_cpu(*a, *b) && tensor_dims(*a) == tensor_dims(*b) ==> (r is Ok <==> binary_works(
            *a,
            *b,
        )),
        r matches Ok(o) ==> formed_like(o, *a) && carries_pair(o, *a, *b) && each2(
            |x: int, y: int, z: int| is_product(tensor_dtype(*a), x, y, z),
            tensor_values(*a),
            tensor_values(*b),
            tensor_values(o),
        ),
;

/// `Tensor::broadcast_sub` spreads the second tensor over the first and subtracts.
pub assume_specification[ Tensor::broadcast_sub ](a: &Tensor, b: &Tensor) -> (r: Result<
    Tensor,
    Error,
>)
    requires
        spreads(tensor_dims(*a), tensor_dims(*b)),
        !pair_stops(*a, *b),
    ensures
        both_on_cpu(*a, *b) ==> (r is Ok <==> binary_works(*a, *b)),
        r matches Ok(o) ==> formed_like(o, *a) && carries_pair(o, *a, *b) && each2(
            |x: int, y: int, z: int| is_difference(tensor_dtype(*a), x, y, z),
            tensor_values(*a),
            spread(tensor_dims(*a), tensor_dims(*b), tensor_values(*b)),
            tensor_values(o),
        ),
;

/// `Tensor::broadcast_mul` spreads the second tensor over the first and multiplies.
pub assume_specification[ Tensor::broadcast_mul ](a: &Tensor, b: &Tensor) -> (r: Result<
    Tensor,
    Error,
>)
    requires
        spreads(tensor_dims(*a), tensor_dims(*b)),
        !pair_stops(*a, *b),
    ensures
        both_on_cpu(*a, *b) ==> (r is Ok <==> binary_works(*a, *b)),
        r matches Ok(o) ==> formed_like(o, *a) && carries_pair(o, *a, *b) && each2(
            |x: int, y: int, z: int| is_product(tensor_dtype(*a), x, y, z),
            tensor_values(*a),
            spread(tensor_dims(*a), tensor_dims(*b), tensor_values(*b)),
            tensor_values(o),
        ),
;

/// `Tensor::broadcast_div` spreads the second tensor over the first and divides.
pub assume_specification[ Tensor::broadcast_div ](a: &Tensor, b: &Tensor) -> (r: Result<
    Tensor,
    Error,
>)
    requires
        spreads(tensor_dims(*a), tensor_dims(*b)),
        !pair_stops(*a, *b),
    ensures
        both_on_cpu(*a, *b) ==> (r is Ok <==> binary_works(*a, *b)),
        r matches Ok(o) ==> formed_like(o, *a) && carries_pair(o, *a, *b) && each2(
            |x: int, y: int, z: int| is_quotient(tensor_dtype(*a), x, y, z),
            tensor_values(*a),
            spread(tensor_dims(*a), tensor_dims(*b), tensor_values(*b)),
            tensor_values(o),
        ),
;

/// `Tensor::broadcast_lt` spreads the second tensor over the first and compares: the result holds 1
/// where the backend finds the first below the second, and 0 elsewhere. Of integers the answer is
/// exact. On the processor it walks through at most eight dimensions.
pub assume_specification[ Tensor::broadcast_lt ](a: &Tensor, b: &Tensor) -> (r: Result<
    Tensor,
    Error,
>)
    requires
        spreads(tensor_dims(*a), tensor_dims(*b)),
        tensor_on_cpu(*a) ==> tensor_dims(*a).len() <= 8,
    ensures
        both_on_cpu(*a, *b) ==> (r is Ok <==> compare_works(*a, *b)),
        r matches Ok(o) ==> tensor_dims(o) == tensor_dims(*a) && tensor_dtype(o) == DType::U8
            && tensor_on_cpu(o) == tensor_on_cpu(*a) && each2(
            |x: int, y: int, z: int|
                (z == 0 || z == 1) && is_below(tensor_dtype(*a), x, y, z == 1) && (tensor_dtype(
                    *a,
                ).is_int() ==> (z == 1 <==> x < y)),
            tensor_values(*a),
            spread(tensor_dims(*a), tensor_dims(*b), tensor_values(*b)),
            tensor_values(o),
        ),
;

/// `Tensor::where_cond` takes each element from the second tensor where the first holds another
/// number than zero, and from the third elsewhere. On the processor it walks through at most eight
/// dimensions.
pub assume_specification[ Tensor::where_cond ](mask: &Tensor, a: &Tensor, b: &Tensor) -> (r: Result<
    Tensor,
    Error,
>)
    requires
        tensor_on_cpu(*mask) ==> tensor_dims(*mask).len() <= 8,
        readable(*mask),
        readable(*a),
        readable(*b),
    ensures
        tensor_dims(*mask) != tensor_dims(*a) || tensor_dims(*mask) != tensor_dims(*b) ==> r is Err,
        tensor_on_cpu(*mask) && both_on_cpu(*a, *b) && tensor_dims(*mask) == tensor_dims(*a)
            && tensor_dims(*mask) == tensor_dims(*b) ==> (r is Ok <==> select_works(*mask, *a, *b)),
        r matches Ok(o) ==> formed_like(o, *a) && tensor_contiguous(o) && tensor_fresh(o)
            && carries(o, *a) && carries(o, *b) && tensor_values(o) == Seq::new(
            tensor_values(*mask).len(),
            |i: int|
                if tensor_values(*mask)[i] != 0 {
                    tensor_values(*a)[i]
                } else {
                    tensor_values(*b)[i]
                },
        ),
;

/// Calls `Tensor::affine`, which multiplies each element with a number and adds another; here the
/// two are integers, which the backend's numbers hold exactly.
#[verifier::external_body]
pub(crate) fn affine(t: &Tensor, mul: i32, add: i32) -> (r: Result<Tensor, Error>)
    requires
        !on_integers(*t),
    ensures
        tensor_on_cpu(*t) ==> (r is Ok <==> unary_works(*t)),
        r matches Ok(o) ==> formed_like(o, *t) && carries(o, *t) && each1(
            |x: int, y: int| is_affine(tensor_dtype(*t), x, mul as int, add as int, y),
            tensor_values(*t),
            tensor_values(o),
        ),
{
    t.affine(mul.into(), add.into())
}

/// `Tensor::sqr` squares each element.
pub assume_specification[ Tensor::sqr ](t: &Tensor) -> (r: Result<Tensor, Error>)
    requires
        !on_integers(*t),
    ensures
        tensor_on_cpu(*t) ==> (r is Ok <==> unary_works(*t)),
        r matches Ok(o) ==> formed_like(o, *t) && carries(o, *t) && each1(
            |x: int, y: int| is_square(tensor_dtype(*t), x, y),
            tensor_values(*t),
            tensor_values(o),
        ),
;

/// `Tensor::abs` takes each element's absolute value.
pub assume_specification[ Tensor::abs ](t: &Tensor) -> (r: Result<Tensor, Error>)
    requires
        !on_integers(*t),
    ensures
        tensor_on_cpu(*t) ==> (r is Ok <==> unary_works(*t)),
        r matches Ok(o) ==> formed_like(o, *t) && carries(o, *t) && each1(
            |x: int, y: int| is_magnitude(tensor_dtype(*t), x, y),
            tensor_values(*t),
            tensor_values(o),
        ),
;

/// `Tensor::neg` negates each element.
pub assume_specification[ Tensor::neg ](t: &Tensor) -> (r: Result<Tensor, Error>)
    requires
        !on_integers(*t),
    ensures
        tensor_on_cpu(*t) ==> (r is Ok <==> unary_works(*t)),
        r matches Ok(o) ==> formed_like(o, *t) && carries(o, *t) && each1(
            |x: int, y: int| is_negation(tensor_dtype(*t), x, y),
            tensor_values(*t),
            tensor_values(o),
        ),
;

/// `Tensor::exp` takes each element's exponential.
pub assume_specification[ Tensor::exp ](t: &Tensor) -> (r: Result<Tensor, Error>)
    requires
        !on_integers(*t),
    ensures
        tensor_on_cpu(*t) ==> (r is Ok <==> unary_works(*t)),
        r matches Ok(o) ==> formed_like(o, *t) && carries(o, *t) && each1(
            |x: int, y: int| is_exponential(tensor_dtype(*t), x, y),
            tensor_values(*t),
            tensor_values(o),
        ),
;

/// `Tensor::log` takes each element's natural logarithm.
pub assume_specification[ Tensor::log ](t: &Tensor) -> (r: Result<Tensor, Error>)
    requires
        !on_integers(*t),
    ensures
        tensor_on_cpu(*t) ==> (r is Ok <==> unary_works(*t)),
        r matches Ok(o) ==> formed_like(o, *t) && carries(o, *t) && each1(
            |x: int, y: int| is_logarithm(tensor_dtype(*t), x, y),
            tensor_values(*t),
            tensor_values(o),
        ),
;

/// `Tensor::recip` takes each element's reciprocal.
pub assume_specification[ Tensor::recip ](t: &Tensor) -> (r: Result<Tensor, Error>)
    requires
        !on_integers(*t),
    ensures
        tensor_on_cpu(*t) ==> (r is Ok <==> unary_works(*t)),
        r matches Ok(o) ==> formed_like(o, *t) && carries(o, *t) && each1(
            |x: int, y: int| is_reciprocal(tensor_dtype(*t), x, y),
            tensor_values(*t),
            tensor_values(o),
        ),
;

/// `Tensor::mean_all` adds all elements up and divides by their number: the result is a single
/// number without dimensions.
pub assume_specification[ Tensor::mean_all ](t: &Tensor) -> (r: Result<Tensor, Error>)
    requires
        !on_integers(*t),
        readable(*t),
    ensures
        tensor_on_cpu(*t) ==> (r is Ok <==> !tensor_dtype(*t).is_stored_only()),
        r matches Ok(o) ==> tensor_dims(o) == Seq::<usize>::empty() && tensor_dtype(o)
            == tensor_dtype(*t) && tensor_on_cpu(o) == tensor_on_cpu(*t) && tensor_values(o).len()
            == 1 && is_mean(tensor_dtype(*t), tensor_values(*t), tensor_values(o)[0])
            && carries(o, *t),
;

/// Calls `Tensor::max_keepdim` along the rows of a matrix. On the processor it fails where there is
/// no element, and divides by the stride of the columns, which can be zero where there is one
/// column. An accelerator divides by the number of rows.
#[verifier::external_body]
pub(crate) fn row_maxima(t: &Tensor) -> (r: Result<Tensor, Error>)
    requires
        tensor_dims(*t).len() == 2,
        tensor_dims(*t)[0] > 0,
        tensor_on_cpu(*t) ==> tensor_fresh(*t) || tensor_dims(*t)[1] > 1,
    ensures
        tensor_on_cpu(*t) ==> (r is Ok <==> maxima_work(*t)),
        r matches Ok(o) ==> tensor_dims(o) == seq![tensor_dims(*t)[0], 1] && tensor_dtype(o)
            == tensor_dtype(*t) && tensor_on_cpu(o) == tensor_on_cpu(*t) && tensor_values(o).len()
            == tensor_dims(*t)[0] && carries(o, *t) && (forall|i: int|
            0 <= i < tensor_dims(*t)[0] ==> is_largest(
                tensor_dtype(*t),
                row(tensor_values(*t), tensor_dims(*t)[1] as int, i),
                #[trigger] tensor_values(o)[i],
            )),
{
    t.max_keepdim(1)
}

/// Calls `Tensor::sum_keepdim` along the rows of a matrix. An accelerator divides by the number of
/// rows.
#[verifier::external_body]
pub(crate) fn row_totals(t: &Tensor) -> (r: Result<Tensor, Error>)
    requires
        tensor_dims(*t).len() == 2,
        tensor_dims(*t)[0] > 0,
        !on_integers(*t),
        readable(*t),
    ensures
        tensor_on_cpu(*t) ==> (r is Ok <==> !tensor_dtype(*t).is_stored_only()),
        r matches Ok(o) ==> tensor_dims(o) == seq![tensor_dims(*t)[0], 1] && tensor_dtype(o)
            == tensor_dtype(*t) && tensor_on_cpu(o) == tensor_on_cpu(*t) && tensor_values(o).len()
            == tensor_dims(*t)[0] && carries(o, *t) && (forall|i: int|
            0 <= i < tensor_dims(*t)[0] ==> is_total(
                tensor_dtype(*t),
                row(tensor_values(*t), tensor_dims(*t)[1] as int, i),
                #[trigger] tensor_values(o)[i],
            )),
{
    t.sum_keepdim(1)
}

/// Calls `Tensor::from_vec` on the processor.
#[verifier::external_body]
pub(crate) fn integers(values: Vec<i64>, dims: Vec<usize>) -> (r: Result<Tensor, Error>)
    requires
        values.len() == count(dims@),
    ensures
        r is Ok,
        r matches Ok(o) ==> tensor_dims(o) == dims@ && tensor_dtype(o) == DType::I64
            && tensor_on_cpu(o) && tensor_contiguous(o) && tensor_fresh(o) && tensor_values(o)
            == values@.map_values(|v: i64| v as int),
{
    Tensor::from_vec(values, dims, &Device::Cpu)
}

/// Calls `Tensor::new` on the processor with the double-precision number that a scalar holds.
#[verifier::external_body]
pub(crate) fn number(s: Scalar) -> (r: Result<Tensor, Error>)
    ensures
        r is Ok,
        r matches Ok(o) ==> tensor_dims(o) == Seq::<usize>::empty() && tensor_dtype(o)
            == DType::F64 && tensor_on_cpu(o) && tensor_contiguous(o) && tensor_values(o) == seq![
            scalar_value(s),
        ],
{
    Tensor::new(s.to_f64(), &Device::Cpu)
}

/// `Layout::dims` gives the dimensions.
pub assume_specification[ Layout::dims ](l: &Layout) -> (r: &[usize])
    ensures
        r@ == layout_dims(*l),
;

/// `Layout::start_offset` gives the position of the first element.
pub assume_specification[ Layout::start_offset ](l: &Layout) -> (r: usize)
    ensures
        r == layout_start(*l),
;

/// `Layout::is_contiguous` says whether the elements are read row by row. It multiplies the
/// dimensions up from the last one.
pub assume_specification[ Layout::is_contiguous ](l: &Layout) -> (r: bool)
    requires
        countable(layout_dims(*l)),
    ensures
        r == layout_contiguous(*l),
;

/// `Shape::from_dims` makes a shape of the dimensions it is given.
pub assume_specification[ Shape::from_dims ](dims: &[usize]) -> (r: Shape)
    ensures
        shape_dims(r) == dims@,
;

/// The class labels that a storage holds.
pub enum Labels<'a> {
    U8(&'a [u8]),
    U32(&'a [u32]),
    I64(&'a [i64]),
    /// The elements are of a type that labels do not have.
    Other,
}

impl Labels<'_> {
    /// The labels as integers.
    pub open spec fn numbers(&self) -> Seq<int> {
        match *self {
            Labels::U8(v) => v@.map_values(|x: u8| x as int),
            Labels::U32(v) => v@.map_values(|x: u32| x as int),
            Labels::I64(v) => v@.map_values(|x: i64| x as int),
            Labels::Other => Seq::empty(),
        }
    }
}

/// Calls `CpuStorage::dtype` and writes the element type as a `DType`.
#[verifier::external_body]
pub(crate) fn stored_dtype(s: &CpuStorage) -> (r: DType)
    ensures
        r == storage_dtype(*s),
{
    match s.dtype() {
        Kind::U8 => DType::U8, Kind::U32 => DType::U32,
        Kind::I16 => DType::I16, Kind::I32 => DType::I32, Kind::I64 => DType::I64,
        Kind::BF16 => DType::BF16, Kind::F16 => DType::F16,
        Kind::F32 => DType::F32, Kind::F64 => DType::F64,
        Kind::F8E4M3 => DType::F8E4M3, Kind::F6E2M3 => DType::F6E2M3,
        Kind::F6E3M2 => DType::F6E3M2, Kind::F4 => DType::F4,
        _ => DType::F8E8M0,
    }
}

/// Reads the variants of `CpuStorage` that hold labels.
#[verifier::external_body]
pub(crate) fn labels(s: &CpuStorage) -> (r: Labels<'_>)
    ensures
        r is U8 <==> storage_dtype(*s) == DType::U8,
        r is U32 <==> storage_dtype(*s) == DType::U32,
        r is I64 <==> storage_dtype(*s) == DType::I64,
        !(r is Other) ==> r.numbers() == storage_values(*s),
{
    match s {
        CpuStorage::U8(v) => Labels::U8(v),
        CpuStorage::U32(v) => Labels::U32(v),
        CpuStorage::I64(v) => Labels::I64(v),
        _ => Labels::Other,
    }
}

/// Reads the length of the vector that a `CpuStorage` holds. A vector takes at most `isize::MAX`
/// bytes, so it has no more elements than that.
#[verifier::external_body]
pub(crate) fn stored_len(s: &CpuStorage) -> (r: usize)
    ensures
        r == storage_values(*s).len(),
        r <= isize::MAX,
{
    match s {
        CpuStorage::U8(v) | CpuStorage::F6E2M3(v) | CpuStorage::F6E3M2(v) => v.len(),
        CpuStorage::F4(v) | CpuStorage::F8E8M0(v) => v.len(),
        CpuStorage::U32(v) => v.len(),
        CpuStorage::I16(v) => v.len(),
        CpuStorage::I32(v) => v.len(),
        CpuStorage::I64(v) => v.len(),
        CpuStorage::BF16(v) => v.len(),
        CpuStorage::F16(v) => v.len(),
        CpuStorage::F32(v) => v.len(),
        CpuStorage::F64(v) => v.len(),
        CpuStorage::F8E4M3(v) => v.len(),
    }
}

/// Calls `CpuStorage::to_dtype` with the type that the storage has, which copies the elements that
/// the layout reads, and makes a tensor of the copy.
#[verifier::external_body]
pub(crate) fn load(s: &CpuStorage, l: &Layout) -> (r: Result<Tensor, Error>)
    requires
        layout_contiguous(*l),
        layout_start(*l) + count(layout_dims(*l)) <= storage_values(*s).len(),
    ensures
        r is Ok <==> !storage_dtype(*s).is_stored_only(),
        r matches Ok(o) ==> tensor_dims(o) == layout_dims(*l) && tensor_dtype(o) == storage_dtype(
            *s,
        ) && tensor_on_cpu(o) && tensor_contiguous(o) && tensor_fresh(o) && tensor_values(o)
            == storage_values(*s).subrange(
            layout_start(*l) as int,
            layout_start(*l) + count(layout_dims(*l)),
        ),
{
    s.to_dtype(l, s.dtype()).map(|s| Tensor::from((Storage::Cpu(s), l.shape())))
}

/// Calls `CpuStorage::to_dtype` on the storage of a tensor with the type that it has, which copies
/// the tensor's elements.
#[verifier::external_body]
pub(crate) fn unload(t: &Tensor) -> (r: Result<CpuStorage, Error>)
    requires
        tensor_on_cpu(*t),
        readable(*t),
    ensures
        r is Ok <==> !tensor_dtype(*t).is_stored_only(),
        r matches Ok(o) ==> storage_dtype(o) == tensor_dtype(*t) && storage_values(o)
            == tensor_values(*t),
{
    let (storage, layout) = t.storage_and_layout();
    match &*storage {
        Storage::Cpu(s) => s.to_dtype(layout, s.dtype()),
        _ => Err(Error::UnwrapNone),
    }
}

} // verus!
