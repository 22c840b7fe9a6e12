//! Class labels: which are accepted, and the places in a matrix that they name.

use crate::backend::{labels, stored_dtype, Labels};
use crate::error::{ErrorOf, Fault, LossError};
use crate::model::{count, layout_dims, layout_start, storage_dtype, storage_values};
use crate::shape::{contiguous_offsets, fits_storage, reads_stretch, stretch, within};
use candle_core::{CpuStorage, Layout};
use vstd::prelude::*;
use vstd::slice::*;

verus! {

/// What is wrong with a label, where there are `n` classes.
pub open spec fn label_fault(label: int, n: usize) -> Option<Fault> {
    if label < 0 {
        Some(ErrorOf::LabelNegative { label: label as i64 })
    } else if label > usize::MAX {
        Some(ErrorOf::LabelTooLarge { label: label as i64 })
    } else if label >= n {
        Some(ErrorOf::LabelOutOfBounds { label: label as usize, n_classes: n })
    } else {
        None
    }
}

/// What is wrong with the first label that names no class.
pub open spec fn labels_fault(labels: Seq<int>, n: usize) -> Option<Fault>
    decreases labels.len(),
{
    if labels.len() == 0 {
        None
    } else {
        match labels_fault(labels.drop_last(), n) {
            Some(f) => Some(f),
            None => label_fault(labels.last(), n),
        }
    }
}

/// Labels are accepted if and only if each of them names a class.
pub proof fn lemma_labels_accepted(labels: Seq<int>, n: usize)
    ensures
        labels_fault(labels, n) is None <==> forall|i: int|
            0 <= i < labels.len() ==> 0 <= #[trigger] labels[i] < n,
    decreases labels.len(),
{
    if labels.len() > 0 {
        let init = labels.drop_last();
        lemma_labels_accepted(init, n);
        if labels_fault(labels, n) is None {
            assert forall|i: int| 0 <= i < labels.len() implies 0 <= #[trigger] labels[i] < n by {
                if i < init.len() {
                    assert(labels[i] == init[i]);
                }
            }
        }
        if forall|i: int| 0 <= i < labels.len() ==> 0 <= #[trigger] labels[i] < n {
            assert forall|i: int| 0 <= i < init.len() implies 0 <= #[trigger] init[i] < n by {
                assert(labels[i] == init[i]);
            }
            assert(0 <= labels[labels.len() - 1] < n);
        }
    }
}

proof fn lemma_fault_of_prefix(labels: Seq<int>, k: int, n: usize)
    requires
        0 <= k <= labels.len(),
        labels_fault(labels.take(k), n) is Some,
    ensures
        labels_fault(labels, n) == labels_fault(labels.take(k), n),
    decreases labels.len() - k,
{
    if k == labels.len() {
        assert(labels.take(k) =~= labels);
    } else {
        assert(labels.take(k + 1).drop_last() =~= labels.take(k));
        lemma_fault_of_prefix(labels, k + 1, n);
    }
}

/// A label as the index of its class.
pub fn check_target_index(idx: usize, n_classes: usize) -> (r: Result<usize, LossError>)
    ensures
        r matches Ok(i) ==> label_fault(idx as int, n_classes) is None && i == idx,
        r matches Err(e) ==> label_fault(idx as int, n_classes) == Some(e@),
{
    if idx >= n_classes {
        return Err(ErrorOf::LabelOutOfBounds { label: idx, n_classes });
    }
    Ok(idx)
}

/// A signed label as the index of its class.
pub fn check_target_i64_index(idx: i64, n_classes: usize) -> (r: Result<usize, LossError>)
    ensures
        r matches Ok(i) ==> label_fault(idx as int, n_classes) is None && i == idx,
        r matches Err(e) ==> label_fault(idx as int, n_classes) == Some(e@),
{
    if idx < 0 {
        return Err(ErrorOf::LabelNegative { label: idx });
    }
    match usize::try_from(idx) {
        Ok(i) => check_target_index(i, n_classes),
        Err(_) => Err(ErrorOf::LabelTooLarge { label: idx }),
    }
}

/// What is wrong with the labels that a storage holds under a layout.
pub open spec fn target_fault(s: CpuStorage, l: Layout, b_sz: usize, n_classes: usize) -> Option<
    Fault,
> {
    if !reads_stretch(l) {
        Some(ErrorOf::TargetStrided)
    } else if count(layout_dims(l)) != b_sz {
        Some(ErrorOf::TargetCount { expected: b_sz, got: count(layout_dims(l)) as usize })
    } else if !storage_dtype(s).is_label() {
        Some(ErrorOf::TargetStorage { dtype: storage_dtype(s) })
    } else if !within(s, l) {
        Some(ErrorOf::OutOfStorage)
    } else {
        labels_fault(stretch(s, l), n_classes)
    }
}

/// The labels that a storage holds under a layout, as the indices of their classes.
pub fn target_indices(
    storage: &CpuStorage,
    layout: &Layout,
    b_sz: usize,
    n_classes: usize,
) -> (r: Result<Vec<usize>, LossError>)
    ensures
        r matches Ok(v) ==> target_fault(*storage, *layout, b_sz, n_classes) is None && v@.len()
            == b_sz && v@.map_values(|x: usize| x as int) == stretch(*storage, *layout) && (
        forall|i: int| 0 <= i < v@.len() ==> #[trigger] v@[i] < n_classes),
        r matches Err(e) ==> target_fault(*storage, *layout, b_sz, n_classes) == Some(e@),
{
    let (o1, o2) = match contiguous_offsets(layout) {
        None => {
            return Err(ErrorOf::TargetStrided);
        },
        Some(o) => o,
    };
    if o2 - o1 != b_sz {
        return Err(ErrorOf::TargetCount { expected: b_sz, got: o2 - o1 });
    }
    let held = labels(storage);
    if let Labels::Other = held {
        return Err(ErrorOf::TargetStorage { dtype: stored_dtype(storage) });
    }
    if !fits_storage(storage, layout) {
        return Err(ErrorOf::OutOfStorage);
    }
    let ghost all = stretch(*storage, *layout);
    let mut v: Vec<usize> = Vec::new();
    let mut i: usize = 0;
    while i < b_sz
        invariant
            i <= b_sz,
            o1 + b_sz == o2,
            b_sz == 0 || o2 <= storage_values(*storage).len(),
            !(held is Other),
            held.numbers() == storage_values(*storage),
            o1 == layout_start(*layout),
            all.len() == b_sz,
            all == stretch(*storage, *layout),
            target_fault(*storage, *layout, b_sz, n_classes) == labels_fault(all, n_classes),
            v@.len() == i,
            labels_fault(all.take(i as int), n_classes) is None,
            forall|j: int| 0 <= j < i ==> #[trigger] v@[j] == all[j] && v@[j] < n_classes,
        decreases b_sz - i,
    {
        let ghost before = all.take(i as int);
        let ghost upto = all.take(i + 1);
        assert(upto.drop_last() =~= before);
        assert(upto.last() == all[i as int]);
        assert(all[i as int] == held.numbers()[o1 + i]);
        let checked = match held {
            Labels::U8(xs) => check_target_index(xs[o1 + i] as usize, n_classes),
            Labels::U32(xs) => check_target_index(xs[o1 + i] as usize, n_classes),
            Labels::I64(xs) => check_target_i64_index(xs[o1 + i], n_classes),
            Labels::Other => Ok(0),
        };
        match checked {
            Ok(index) => {
                v.push(index);
            },
            Err(e) => {
                proof {
                    assert(labels_fault(upto, n_classes) == Some(e@));
                    lemma_fault_of_prefix(all, i + 1, n_classes);
                }
                return Err(e);
            },
        }
        i = i + 1;
    }
    assert(all.take(b_sz as int) =~= all);
    assert(v@.map_values(|x: usize| x as int) =~= all);
    Ok(v)
}

/// Whether a matrix with `c` columns holds 1 in each row at the column that the row's label names,
/// and 0 elsewhere.
pub open spec fn is_one_hot(mask: Seq<int>, target: Seq<usize>, c: int) -> bool {
    &&& mask.len() == target.len() * c
    &&& forall|i: int, j: int|
        #![trigger mask[i * c + j]]
        0 <= i < target.len() && 0 <= j < c ==> mask[i * c + j] == if j == target[i] {
            1int
        } else {
            0int
        }
}

/// The matrix that holds 1 in each row at the column that the row's label names.
pub(crate) fn one_hot(target: &[usize], n_classes: usize) -> (r: Vec<i64>)
    requires
        target@.len() * n_classes <= usize::MAX,
    ensures
        is_one_hot(r@.map_values(|x: i64| x as int), target@, n_classes as int),
{
    let mut mask: Vec<i64> = Vec::new();
    let ghost c = n_classes as int;
    let mut i: usize = 0;
    while i < target.len()
        invariant
            i <= target@.len(),
            c == n_classes,
            mask@.len() == i * c,
            forall|p: int, j: int|
                #![trigger mask@[p * c + j]]
                0 <= p < i && 0 <= j < c ==> mask@[p * c + j] == if j == target@[p] {
                    1int
                } else {
                    0int
                },
        decreases target@.len() - i,
    {
        let mut j: usize = 0;
        let ghost done = mask@;
        while j < n_classes
            invariant
                i < target@.len(),
                j <= n_classes,
                c == n_classes,
                done.len() == i * c,
                mask@.len() == i * c + j,
                forall|k: int| 0 <= k < done.len() ==> #[trigger] mask@[k] == done[k],
                forall|q: int|
                    0 <= q < j ==> #[trigger] mask@[i * c + q] == if q == target@[i as int] {
                        1int
                    } else {
                        0int
                    },
            decreases n_classes - j,
        {
            let hot = j == target[i];
            mask.push(if hot { 1 } else { 0 });
            j = j + 1;
        }
        assert forall|p: int, q: int|
            #![trigger mask@[p * c + q]]
            0 <= p < i + 1 && 0 <= q < c implies mask@[p * c + q] == if q == target@[p] {
            1int
        } else {
            0int
        } by {
            if p < i {
                lemma_place(p, q, i as int, c);
                assert(mask@[p * c + q] == done[p * c + q]);
            }
        }
        assert((i + 1) * c == i * c + c) by (nonlinear_arith);
        i = i + 1;
    }
    let ghost m = mask@.map_values(|x: i64| x as int);
    assert forall|p: int, q: int|
        #![trigger m[p * c + q]]
        0 <= p < target@.len() && 0 <= q < c implies m[p * c + q] == if q == target@[p] {
        1int
    } else {
        0int
    } by {
        lemma_place(p, q, target@.len() as int, c);
        assert(m[p * c + q] == mask@[p * c + q]);
    }
    mask
}

/// A place in a matrix lies in its row, and the row in the matrix.
pub proof fn lemma_place(i: int, j: int, b: int, c: int)
    requires
        0 <= i < b,
        0 <= j < c,
    ensures
        0 <= i * c,
        i * c + j < i * c + c <= b * c,
        (i * c + j) / c == i,
        (i * c + j) % c == j,
{
    assert(0 <= i * c) by (nonlinear_arith)
        requires
            0 <= i,
            0 < c,
    ;
    assert(i * c + c <= b * c) by (nonlinear_arith)
        requires
            0 <= i < b,
            0 < c,
    ;
    vstd::arithmetic::div_mod::lemma_fundamental_div_mod_converse(i * c + j, c, i, j);
}

/// Labels as signed numbers.
pub(crate) fn signed(target: &[usize], n_classes: usize) -> (r: Vec<i64>)
    requires
        n_classes <= isize::MAX,
        forall|i: int| 0 <= i < target@.len() ==> #[trigger] target@[i] < n_classes,
    ensures
        r@.len() == target@.len(),
        forall|i: int| 0 <= i < r@.len() ==> #[trigger] r@[i] == target@[i],
{
    let mut r: Vec<i64> = Vec::new();
    let mut i: usize = 0;
    while i < target.len()
        invariant
            i <= target@.len(),
            n_classes <= isize::MAX,
            forall|k: int| 0 <= k < target@.len() ==> #[trigger] target@[k] < n_classes,
            r@.len() == i,
            forall|k: int| 0 <= k < i ==> #[trigger] r@[k] == target@[k],
        decreases target@.len() - i,
    {
        r.push(target[i] as i64);
        i = i + 1;
    }
    r
}

} // verus!
