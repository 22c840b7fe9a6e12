//! How the contracts speak of tensors: dimensions, elements, rows, and what is known of them.

use crate::dtype::DType;
use candle_core::scalar::Scalar;
use candle_core::{CpuStorage, Layout, Shape, Tensor};
use vstd::prelude::*;

verus! {

/// Declares `candle_core::Tensor`: a tensor of the backend, which the contracts know by the names
/// below.
#[verifier::external_type_specification]
#[verifier::external_body]
pub struct ExTensor(candle_core::Tensor);

/// Declares `candle_core::Layout`: where in a storage the elements of a tensor lie.
#[verifier::external_type_specification]
#[verifier::external_body]
pub struct ExLayout(candle_core::Layout);

/// Declares `candle_core::Shape`: the dimensions of a tensor.
#[verifier::external_type_specification]
#[verifier::external_body]
pub struct ExShape(candle_core::Shape);

/// Declares `candle_core::CpuStorage`: elements of one type in the memory of the processor.
#[verifier::external_type_specification]
#[verifier::external_body]
pub struct ExCpuStorage(candle_core::CpuStorage);

/// Declares `candle_core::scalar::Scalar`: a single number of any element type.
#[verifier::external_type_specification]
#[verifier::external_body]
pub struct ExScalar(candle_core::scalar::Scalar);

/// The dimensions of a tensor.
pub uninterp spec fn tensor_dims(t: Tensor) -> Seq<usize>;

/// The type of a tensor's elements.
pub uninterp spec fn tensor_dtype(t: Tensor) -> DType;

/// Whether a tensor lies in the memory of the processor rather than on an accelerator.
pub uninterp spec fn tensor_on_cpu(t: Tensor) -> bool;

/// Whether a tensor lies on an accelerator that is driven by way of Metal.
pub uninterp spec fn tensor_on_metal(t: Tensor) -> bool;

/// Whether a tensor's elements are stored one after the other, row by row.
pub uninterp spec fn tensor_contiguous(t: Tensor) -> bool;

/// The elements of a tensor, row by row: integers as themselves, floating-point numbers as the
/// integers that their bits spell. A variable that is overwritten while a loss is computed from it
/// is not modelled.
pub uninterp spec fn tensor_values(t: Tensor) -> Seq<int>;

/// Whether a tensor's elements are all that its storage holds, row by row, with the strides that
/// its dimensions give.
pub uninterp spec fn tensor_fresh(t: Tensor) -> bool;

/// Whether a tensor is another one, or was made from it by operations that the tensor remembers for
/// differentiation, as far as the other takes part in it.
pub uninterp spec fn remembers(o: Tensor, t: Tensor) -> bool;

/// The type of the elements in a storage.
pub uninterp spec fn storage_dtype(s: CpuStorage) -> DType;

/// The elements in a storage, in the encoding of `tensor_values`.
pub uninterp spec fn storage_values(s: CpuStorage) -> Seq<int>;

/// The dimensions of a layout.
pub uninterp spec fn layout_dims(l: Layout) -> Seq<usize>;

/// Whether a layout reads its elements one after the other, row by row.
pub uninterp spec fn layout_contiguous(l: Layout) -> bool;

/// The position in the storage of a layout's first element.
pub uninterp spec fn layout_start(l: Layout) -> usize;

/// The dimensions of a shape.
pub uninterp spec fn shape_dims(s: Shape) -> Seq<usize>;

/// The number that a scalar holds, as the integer that its bits spell in double precision.
pub uninterp spec fn scalar_value(s: Scalar) -> int;

/// The number of elements of a tensor with these dimensions.
pub open spec fn count(dims: Seq<usize>) -> nat
    decreases dims.len(),
{
    if dims.len() == 0 {
        1
    } else {
        dims.first() as nat * count(dims.drop_first())
    }
}

/// Whether the number of elements under each dimension can be written as a machine word.
pub open spec fn countable(dims: Seq<usize>) -> bool
    decreases dims.len(),
{
    dims.len() == 0 || (count(dims) <= usize::MAX && countable(dims.drop_first()))
}

/// The number of elements of a vector and of a matrix.
pub proof fn lemma_count(b: usize, c: usize)
    ensures
        count(Seq::<usize>::empty()) == 1,
        count(seq![b]) == b,
        count(seq![b, c]) == b * c,
{
    let none = Seq::<usize>::empty();
    assert(count(none) == 1);
    assert(seq![b].drop_first() =~= none && seq![c].drop_first() =~= none);
    assert(count(seq![b]) == b * count(none));
    assert(count(seq![c]) == c * count(none));
    assert(seq![b, c].drop_first() =~= seq![c]);
    assert(count(seq![b, c]) == b * count(seq![c]));
}

/// The elements of a vector can be counted.
pub proof fn lemma_vector_countable(dims: Seq<usize>)
    requires
        dims.len() == 1,
    ensures
        countable(dims),
{
    lemma_count(dims[0], 0);
    assert(dims =~= seq![dims[0]]);
    assert(dims.drop_first() =~= Seq::<usize>::empty());
    assert(countable(dims.drop_first()));
}

/// Whether a tensor has the dimensions, the element type and the place of another.
pub open spec fn formed_like(o: Tensor, t: Tensor) -> bool {
    &&& tensor_dims(o) == tensor_dims(t)
    &&& tensor_dtype(o) == tensor_dtype(t)
    &&& tensor_on_cpu(o) == tensor_on_cpu(t)
}

/// Whether a tensor remembers another one, and with it all that the other remembers.
pub open spec fn carries(o: Tensor, t: Tensor) -> bool {
    remembers(o, t) && forall|x: Tensor| #[trigger] remembers(t, x) ==> remembers(o, x)
}

/// Whether two tensors lie in the memory of the processor.
pub open spec fn both_on_cpu(a: Tensor, b: Tensor) -> bool {
    tensor_on_cpu(a) && tensor_on_cpu(b)
}

/// Whether two tensors are both stored row by row.
pub open spec fn both_contiguous(a: Tensor, b: Tensor) -> bool {
    tensor_contiguous(a) && tensor_contiguous(b)
}

/// Whether each element of `ys` stands in a relation to the element of `xs` at its place.
pub open spec fn each1(f: spec_fn(int, int) -> bool, xs: Seq<int>, ys: Seq<int>) -> bool {
    &&& xs.len() == ys.len()
    &&& forall|i: int| 0 <= i < ys.len() ==> f(xs[i], #[trigger] ys[i])
}

/// Whether each element of `ys` stands in a relation to the elements of `xs` and `ws` at its place.
pub open spec fn each2(
    f: spec_fn(int, int, int) -> bool,
    xs: Seq<int>,
    ws: Seq<int>,
    ys: Seq<int>,
) -> bool {
    &&& xs.len() == ys.len()
    &&& ws.len() == ys.len()
    &&& forall|i: int| 0 <= i < ys.len() ==> f(xs[i], ws[i], #[trigger] ys[i])
}

/// Row `i` of a matrix with `c` columns.
pub open spec fn row(xs: Seq<int>, c: int, i: int) -> Seq<int> {
    xs.subrange(i * c, i * c + c)
}

/// Whether a tensor of the second dimensions can be spread over one of the first: a single number
/// over all elements, or a column over the rows of a matrix.
pub open spec fn spreads(dims: Seq<usize>, over: Seq<usize>) -> bool {
    over == Seq::<usize>::empty() || (dims.len() == 2 && over == seq![dims[0], 1])
}

/// The elements of a single number or of a column, each repeated where it is spread.
pub open spec fn spread(dims: Seq<usize>, over: Seq<usize>, ws: Seq<int>) -> Seq<int> {
    Seq::new(
        count(dims),
        |k: int|
            if over.len() == 0 {
                ws[0]
            } else {
                ws[k / dims[1] as int]
            },
    )
}

/// The class that a label names to the backend: a number that is no index is cut down to one.
pub open spec fn label_index(label: int) -> int {
    if 0 <= label <= usize::MAX {
        label
    } else {
        (label as i64) as usize as int
    }
}

/// The label that names no class: the largest number of its type.
pub open spec fn no_label(dtype: DType) -> int {
    if dtype == DType::U8 {
        u8::MAX as int
    } else if dtype == DType::U32 {
        u32::MAX as int
    } else {
        i64::MAX as int
    }
}

/// The element of a row that a label picks; the label that names no class picks zero.
pub open spec fn picked(dtype: DType, label: int, xs: Seq<int>) -> int {
    if label == no_label(dtype) {
        0
    } else {
        xs[label_index(label)]
    }
}

/// Whether a label names one of `c` classes, and is not the one that names none.
pub open spec fn is_proper(dtype: DType, label: int, c: int) -> bool {
    0 <= label < c && label != no_label(dtype)
}

/// Whether a label can be looked up in a row of `c` elements.
pub open spec fn pickable(dtype: DType, label: int, c: int) -> bool {
    label == no_label(dtype) || label_index(label) < c
}

} // verus!
