//! The dimensions that the row losses accept, and the elements that a layout reads.

use crate::backend::stored_len;
use crate::error::{ErrorOf, Fault, LossError};
use crate::model::{count, countable, layout_contiguous, layout_dims, layout_start, storage_values};
use candle_core::{CpuStorage, Layout};
use vstd::prelude::*;
use vstd::slice::*;

verus! {

proof fn lemma_countable_tail(dims: Seq<usize>, i: int)
    requires
        0 <= i <= dims.len(),
        countable(dims),
    ensures
        countable(dims.skip(i)),
        i < dims.len() ==> count(dims.skip(i)) <= usize::MAX,
    decreases i,
{
    if i == 0 {
        assert(dims.skip(0) =~= dims);
    } else {
        lemma_countable_tail(dims, i - 1);
        let before = dims.skip(i - 1);
        assert(before.drop_first() =~= dims.skip(i));
        assert(before.len() > 0 && countable(before));
    }
}

/// The number of elements under the dimensions, or `None` where it cannot be written as a machine
/// word, for these dimensions or for those after any of them.
pub fn checked_count(dims: &[usize]) -> (r: Option<usize>)
    ensures
        r is Some <==> countable(dims@),
        r matches Some(n) ==> n == count(dims@),
{
    let mut n: usize = 1;
    let mut i: usize = dims.len();
    assert(dims@.skip(i as int) =~= Seq::<usize>::empty());
    while i > 0
        invariant
            i <= dims.len(),
            n == count(dims@.skip(i as int)),
            countable(dims@.skip(i as int)),
        decreases i,
    {
        let ghost rest = dims@.skip(i as int);
        let ghost whole = dims@.skip(i - 1);
        assert(whole.drop_first() =~= rest);
        assert(whole.first() == dims@[i - 1]);
        match dims[i - 1].checked_mul(n) {
            Some(m) => {
                n = m;
            },
            None => {
                proof {
                    if countable(dims@) {
                        lemma_countable_tail(dims@, i - 1);
                    }
                }
                return None;
            },
        }
        i = i - 1;
    }
    assert(dims@.skip(0) =~= dims@);
    Some(n)
}

proof fn lemma_no_count(dims: Seq<usize>, i: int)
    requires
        0 <= i < dims.len(),
        dims[i] == 0,
    ensures
        count(dims) == 0,
    decreases dims.len(),
{
    let rest = dims.drop_first();
    if i > 0 {
        assert(rest[i - 1] == dims[i]);
        lemma_no_count(rest, i - 1);
    }
    let (d, n) = (dims.first() as int, count(rest) as int);
    assert(d * n == 0) by (nonlinear_arith)
        requires
            d == 0 || n == 0,
    ;
}

proof fn lemma_some_count(dims: Seq<usize>)
    requires
        forall|i: int| 0 <= i < dims.len() ==> #[trigger] dims[i] > 0,
    ensures
        count(dims) > 0,
    decreases dims.len(),
{
    if dims.len() > 0 {
        let rest = dims.drop_first();
        assert forall|i: int| 0 <= i < rest.len() implies #[trigger] rest[i] > 0 by {
            assert(rest[i] == dims[i + 1]);
        }
        lemma_some_count(rest);
        let (d, n) = (dims[0] as int, count(rest) as int);
        assert(d * n > 0) by (nonlinear_arith)
            requires
                d > 0,
                n > 0,
        ;
    }
}

/// Whether there is no element under the dimensions.
pub fn has_no_elements(dims: &[usize]) -> (r: bool)
    ensures
        r <==> count(dims@) == 0,
{
    let mut i: usize = 0;
    while i < dims.len()
        invariant
            i <= dims@.len(),
            forall|k: int| 0 <= k < i ==> #[trigger] dims@[k] > 0,
        decreases dims@.len() - i,
    {
        if dims[i] == 0 {
            proof {
                lemma_no_count(dims@, i as int);
            }
            return true;
        }
        i = i + 1;
    }
    proof {
        lemma_some_count(dims@);
    }
    false
}

/// Whether two lists of dimensions are the same.
pub fn same_dims(a: &[usize], b: &[usize]) -> (r: bool)
    ensures
        r <==> a@ == b@,
{
    if a.len() != b.len() {
        return false;
    }
    let mut i: usize = 0;
    while i < a.len()
        invariant
            a@.len() == b@.len(),
            i <= a@.len(),
            forall|k: int| 0 <= k < i ==> #[trigger] a@[k] == b@[k],
        decreases a@.len() - i,
    {
        if a[i] != b[i] {
            return false;
        }
        i = i + 1;
    }
    assert(a@ =~= b@);
    true
}

/// Whether a layout reads one stretch of its storage, row by row.
pub open spec fn reads_stretch(l: Layout) -> bool {
    &&& countable(layout_dims(l))
    &&& layout_contiguous(l)
    &&& layout_start(l) + count(layout_dims(l)) <= usize::MAX
}

/// The end of the stretch of storage that a layout reads.
pub open spec fn stretch_end(l: Layout) -> int {
    layout_start(l) + count(layout_dims(l))
}

/// The elements that a layout reads from a storage.
pub open spec fn stretch(s: CpuStorage, l: Layout) -> Seq<int> {
    Seq::new(count(layout_dims(l)), |i: int| storage_values(s)[layout_start(l) + i])
}

/// Whether a storage holds all elements that a layout reads.
pub open spec fn within(s: CpuStorage, l: Layout) -> bool {
    count(layout_dims(l)) == 0 || stretch_end(l) <= storage_values(s).len()
}

/// Whether a storage holds all elements that a layout reads; meant for layouts that read a stretch.
pub fn fits_storage(s: &CpuStorage, l: &Layout) -> (r: bool)
    ensures
        r <==> !reads_stretch(*l) || within(*s, *l),
{
    match contiguous_offsets(l) {
        Some((o1, o2)) => o1 == o2 || o2 <= stored_len(s),
        None => true,
    }
}

/// The stretch of storage that a layout reads, or `None` where it does not read one.
pub fn contiguous_offsets(l: &Layout) -> (r: Option<(usize, usize)>)
    ensures
        r is Some <==> reads_stretch(*l),
        r matches Some((o1, o2)) ==> o1 == layout_start(*l) && o2 == stretch_end(*l),
{
    match checked_count(l.dims()) {
        Some(n) => {
            if !l.is_contiguous() {
                return None;
            }
            let o1: usize = l.start_offset();
            match o1.checked_add(n) {
                Some(o2) => Some((o1, o2)),
                None => None,
            }
        },
        None => None,
    }
}

/// What is wrong with the dimensions of logits and target: the first of the rules that they break.
pub open spec fn dims_fault(inp: Seq<usize>, target: Seq<usize>) -> Option<Fault> {
    if target.len() != 1 {
        Some(ErrorOf::TargetRank { dims: target })
    } else if inp.len() != 2 {
        Some(ErrorOf::InputRank { dims: inp })
    } else if inp[0] != target[0] {
        Some(ErrorOf::BatchSize { inp: inp[0], target: target[0] })
    } else if inp[1] == 0 {
        Some(ErrorOf::NoClasses)
    } else {
        None
    }
}

/// The number of rows and of classes of the logits: there is one label for each row and at least
/// one class.
pub fn cross_entropy_dims(inp: &Layout, target: &Layout) -> (r: Result<(usize, usize), LossError>)
    ensures
        r matches Ok(p) ==> dims_fault(layout_dims(*inp), layout_dims(*target)) is None
            && layout_dims(*inp) == seq![p.0, p.1] && layout_dims(*target) == seq![p.0] && p.1 > 0,
        r matches Err(e) ==> dims_fault(layout_dims(*inp), layout_dims(*target)) == Some(e@),
{
    let target_dims = target.dims();
    if target_dims.len() != 1 {
        return Err(ErrorOf::TargetRank { dims: slice_to_vec(target_dims) });
    }
    let b_sz: usize = target_dims[0];
    let inp_dims = inp.dims();
    if inp_dims.len() != 2 {
        return Err(ErrorOf::InputRank { dims: slice_to_vec(inp_dims) });
    }
    let inp_b_sz: usize = inp_dims[0];
    let n_classes: usize = inp_dims[1];
    if inp_b_sz != b_sz {
        return Err(ErrorOf::BatchSize { inp: inp_b_sz, target: b_sz });
    }
    if n_classes == 0 {
        return Err(ErrorOf::NoClasses);
    }
    assert(layout_dims(*inp) =~= seq![inp_b_sz, n_classes]);
    assert(layout_dims(*target) =~= seq![b_sz]);
    Ok((inp_b_sz, n_classes))
}

} // verus!
