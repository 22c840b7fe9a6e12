use candle_core::{Layout, Shape};
use candle_loss::dtype::DType;
use candle_loss::error::{ErrorOf, LossError};
use candle_loss::launch::{
    block_size, cuda_backward, cuda_forward, metal_backward, metal_forward,
};

fn text<T>(r: Result<T, LossError>) -> String {
    match r {
        Ok(_) => panic!("expected an error"),
        Err(e) => e.message().unwrap(),
    }
}

fn turned() -> Layout {
    Layout::new(Shape::from_dims(&[4, 3]), vec![1, 4], 0)
}

#[test]
fn blocks_have_a_power_of_two_of_threads() {
    for (n_classes, size) in [
        (1, 32),
        (32, 32),
        (33, 64),
        (37, 64),
        (128, 128),
        (129, 256),
        (512, 512),
        (513, 1024),
        (1024, 1024),
        (1025, 1024),
        (2049, 1024),
        (usize::MAX, 1024),
    ] {
        assert_eq!(block_size(n_classes), size);
    }
}

#[test]
fn cuda_losses_are_launched_row_by_row() {
    let l1 = Layout::contiguous_with_offset((4, 300), 7);
    let l2 = Layout::contiguous_with_offset(4, 2);
    for (dtype, kernel) in [
        (DType::BF16, "cross_entropy_fwd_bf16"),
        (DType::F16, "cross_entropy_fwd_f16"),
        (DType::F32, "cross_entropy_fwd_f32"),
        (DType::F64, "cross_entropy_fwd_f64"),
    ] {
        let launch = cuda_forward(&l1, dtype, &l2, DType::U32).ok().unwrap();
        assert_eq!(launch.kernel, kernel);
        assert_eq!(launch.dtype, dtype);
        assert_eq!((launch.grid, launch.block), (4, 512));
        assert_eq!((launch.elements, launch.n_classes), (1200, 300));
        assert_eq!((launch.inp_start, launch.target_start), (7, 2));
        assert_eq!(launch.outputs, 4);
    }
}

#[test]
fn cuda_gradients_are_launched_row_by_row() {
    let l1 = Layout::contiguous_with_offset((4, 3), 7);
    let l2 = Layout::contiguous_with_offset(4, 2);
    let l3 = Layout::contiguous_with_offset(4, 5);
    for (dtype, kernel) in [
        (DType::BF16, "cross_entropy_bwd_bf16"),
        (DType::F16, "cross_entropy_bwd_f16"),
        (DType::F32, "cross_entropy_bwd_f32"),
        (DType::F64, "cross_entropy_bwd_f64"),
    ] {
        let r = cuda_backward(&l1, dtype, &l2, DType::U32, &l3, dtype);
        let (launch, grad_start) = r.ok().unwrap();
        assert_eq!(launch.kernel, kernel);
        assert_eq!((launch.grid, launch.block), (4, 32));
        assert_eq!((launch.elements, launch.outputs), (12, 12));
        assert_eq!((launch.inp_start, launch.target_start, grad_start), (7, 2, 5));
    }
}

#[test]
fn metal_kernels_are_given_bytes() {
    let l1 = Layout::contiguous_with_offset((4, 3), 7);
    let l2 = Layout::contiguous_with_offset(4, 2);
    let l3 = Layout::contiguous_with_offset(4, 5);
    for (dtype, forward, backward, bytes) in [
        (DType::BF16, "cross_entropy_fwd_bf16", "cross_entropy_bwd_bf16", 2),
        (DType::F16, "cross_entropy_fwd_f16", "cross_entropy_bwd_f16", 2),
        (DType::F32, "cross_entropy_fwd_f32", "cross_entropy_bwd_f32", 4),
    ] {
        let launch = metal_forward(&l1, dtype, &l2, DType::U32).ok().unwrap();
        assert_eq!(launch.kernel, forward);
        assert_eq!((launch.elements, launch.n_classes, launch.outputs), (12, 3, 4));
        assert_eq!((launch.inp_start, launch.target_start), (7 * bytes, 8));
        let r = metal_backward(&l1, dtype, &l2, DType::U32, &l3, dtype);
        let (launch, grad_start) = r.ok().unwrap();
        assert_eq!(launch.kernel, backward);
        assert_eq!((launch.elements, launch.n_classes, launch.outputs), (12, 3, 12));
        assert_eq!((launch.inp_start, launch.target_start), (7 * bytes, 8));
        assert_eq!(grad_start, 5 * bytes);
    }
    let far = Layout::contiguous_with_offset((4, 3), usize::MAX - 20);
    let r = metal_forward(&far, DType::F32, &l2, DType::U32);
    assert!(matches!(r, Err(ErrorOf::OutOfStorage)));
}

#[test]
fn cuda_launches_report_what_kernels_cannot_read() {
    let (l1, l2) = (Layout::contiguous((4, 3)), Layout::contiguous(4));
    let (f, u) = (DType::F32, DType::U32);
    assert_eq!(
        text(cuda_forward(&l1, f, &Layout::contiguous(5), u)),
        "batch size mismatch between inp (4) and target (5)"
    );
    assert_eq!(
        text(cuda_forward(&turned(), f, &l2, u)),
        "Non contiguous cross_entropy is not implemented for CUDA"
    );
    assert_eq!(
        text(cuda_forward(&l1, f, &l2, DType::U8)),
        "CUDA cross_entropy target must be U32"
    );
    assert_eq!(
        text(cuda_forward(&l1, DType::I64, &l2, u)),
        "unsupported dtype for cross_entropy I64"
    );
    assert_eq!(
        text(cuda_backward(&l1, f, &l2, u, &Layout::contiguous((4, 1)), f)),
        "grad_res should have shape [4], got [4, 1]"
    );
    assert_eq!(
        text(cuda_backward(&turned(), f, &l2, u, &l2, f)),
        "Non contiguous cross_entropy backward is not implemented for CUDA"
    );
    assert_eq!(
        text(cuda_backward(&l1, f, &l2, DType::I64, &l2, f)),
        "CUDA cross_entropy target must be U32"
    );
    assert_eq!(
        text(cuda_backward(&l1, f, &l2, u, &l2, DType::F16)),
        "unsupported dtype for cross_entropy bwd F32 F16"
    );
}

#[test]
fn metal_launches_report_what_kernels_cannot_read() {
    let (l1, l2) = (Layout::contiguous((4, 3)), Layout::contiguous(4));
    let (f, u) = (DType::F32, DType::U32);
    assert_eq!(
        text(metal_forward(&l1, f, &Layout::contiguous((4, 1)), u)),
        "the target tensor should have a single dimension ([4, 1])"
    );
    assert_eq!(
        text(metal_forward(&turned(), f, &l2, u)),
        "Non contiguous cross_entropy is not implemented for Metal"
    );
    assert_eq!(
        text(metal_forward(&l1, DType::F64, &l2, u)),
        "cross_entropy is not implemented for F64 U32"
    );
    assert_eq!(
        text(metal_forward(&l1, f, &l2, DType::U8)),
        "cross_entropy is not implemented for F32 U8"
    );
    assert_eq!(
        text(metal_backward(&l1, f, &l2, u, &Layout::contiguous(3), f)),
        "grad_res should have shape [4], got [3]"
    );
    assert_eq!(
        text(metal_backward(&turned(), f, &l2, u, &l2, f)),
        "Non contiguous cross_entropy backward is not implemented for Metal"
    );
    assert_eq!(
        text(metal_backward(&l1, f, &l2, u, &l2, DType::F16)),
        "cross_entropy backward is not implemented for F32 U32 F16"
    );
}

#[test]
fn cuda_computes_what_metal_computes_and_gradients_follow_losses() {
    let (l1, l2) = (Layout::contiguous((4, 3)), Layout::contiguous(4));
    let types = [
        DType::U8,
        DType::U32,
        DType::I64,
        DType::BF16,
        DType::F16,
        DType::F32,
        DType::F64,
        DType::F8E4M3,
    ];
    for inp in types {
        for target in types {
            let cuda = cuda_forward(&l1, inp, &l2, target).is_ok();
            let metal = metal_forward(&l1, inp, &l2, target).is_ok();
            assert!(!metal || cuda);
            assert_eq!(cuda_backward(&l1, inp, &l2, target, &l2, inp).is_ok(), cuda);
            assert_eq!(metal_backward(&l1, inp, &l2, target, &l2, inp).is_ok(), metal);
        }
    }
}
