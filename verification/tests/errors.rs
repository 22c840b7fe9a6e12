use candle_core::backend::BackendStorage;
use candle_core::scalar::Scalar;
use candle_core::{
    CpuStorage, CustomOp1, CustomOp2, CustomOp3, DType, Device, Layout, Shape, Tensor,
};
use candle_loss::dtype::DType as Kind;
use candle_loss::error::{into_backend, ErrorOf, LossError};
use candle_loss::label::{check_target_i64_index, check_target_index, target_indices};
use candle_loss::loss::{self, TargetUse};
use candle_loss::row_op::{self, CrossEntropyRows, CrossEntropyRowsBackward};
use candle_loss::sigmoid::{sigmoid, sigmoid_gradient, Sigmoid};

fn text<T>(r: Result<T, LossError>) -> String {
    match r {
        Ok(_) => panic!("expected an error"),
        Err(e) => into_backend(e).to_string(),
    }
}

fn zeros(dims: &[usize], dtype: DType) -> Tensor {
    Tensor::zeros(dims, dtype, &Device::Cpu).unwrap()
}

fn vector(values: Vec<u32>) -> Tensor {
    let n = values.len();
    Tensor::from_vec(values, n, &Device::Cpu).unwrap()
}

fn strided(rows: usize, cols: usize) -> Layout {
    Layout::new(Shape::from_dims(&[rows, cols]), vec![1, rows], 0)
}

#[test]
fn nll_reports_dimensions() {
    let matrix = zeros(&[2, 3], DType::F32);
    assert_eq!(
        text(loss::nll(&matrix, &zeros(&[2, 1], DType::U32))),
        "the target tensor should have a single dimension ([2, 1])"
    );
    assert_eq!(
        text(loss::nll(&zeros(&[2], DType::F32), &vector(vec![0, 1]))),
        "the target tensor should have two dimensions ([2])"
    );
    assert_eq!(
        text(loss::nll(&matrix, &vector(vec![0, 1, 2]))),
        "batch size mismatch between inp (2) and target (3)"
    );
}

#[test]
fn nll_refuses_what_cannot_be_picked() {
    let matrix = zeros(&[2, 3], DType::F32);
    assert!(matches!(
        loss::nll(&matrix, &vector(vec![0, 3])),
        Err(ErrorOf::Backend(_))
    ));
    assert!(loss::nll(&matrix, &zeros(&[2], DType::F32)).is_err());
    let turned = zeros(&[3, 2], DType::F32).t().unwrap();
    assert!(loss::nll(&turned, &vector(vec![0, 1])).is_err());
    let negative = Tensor::new(&[0i64, -1], &Device::Cpu).unwrap();
    assert!(loss::nll(&matrix, &negative).is_err());
}

#[test]
fn cross_entropy_reports_form() {
    let matrix = zeros(&[2, 3], DType::F32);
    let labels = vector(vec![0, 1]);
    assert!(matches!(
        loss::cross_entropy(&zeros(&[2], DType::F32), &labels),
        Err(ErrorOf::NotMatrix)
    ));
    assert_eq!(
        text(loss::cross_entropy(&zeros(&[2], DType::F32), &labels)),
        "cross_entropy expects an input tensor of rank 2"
    );
    assert_eq!(
        text(loss::cross_entropy(&matrix, &zeros(&[], DType::U32))),
        "the target tensor should have a single dimension ([])"
    );
    assert_eq!(
        text(loss::cross_entropy(&zeros(&[4, 3], DType::F32), &labels)),
        "batch size mismatch between inp (4) and target (2)"
    );
    assert_eq!(
        text(loss::cross_entropy(&zeros(&[2, 0], DType::F32), &labels)),
        "cross_entropy expects at least one class"
    );
    assert_eq!(
        text(loss::cross_entropy(&matrix, &zeros(&[2], DType::F64))),
        "cross_entropy target dtype must be U8, U32, or I64, got F64"
    );
    assert!(loss::validate_cross_entropy_target_dtype(&labels).is_ok());
}

#[test]
fn cross_entropy_reports_the_first_bad_label() {
    let matrix = zeros(&[3, 3], DType::F32);
    assert_eq!(
        text(loss::cross_entropy(&matrix, &vector(vec![2, 7, 9]))),
        "target index 7 is out of bounds for 3 classes"
    );
    let labels = Tensor::new(&[0i64, i64::MIN, 9], &Device::Cpu).unwrap();
    let found = loss::cross_entropy(&matrix, &labels);
    assert!(matches!(found, Err(ErrorOf::Backend(_))));
    assert_eq!(
        text(loss::cross_entropy(&matrix, &labels)),
        "target index -9223372036854775808 is negative"
    );
    // The labels are read before the type of the logits matters.
    let bytes = zeros(&[3, 3], DType::U8);
    assert_eq!(
        text(loss::cross_entropy(&bytes, &vector(vec![0, 1, 3]))),
        "target index 3 is out of bounds for 3 classes"
    );
    assert_eq!(
        text(loss::cross_entropy(&bytes, &vector(vec![0, 1, 2]))),
        "unsupported input dtype for cross_entropy U8"
    );
}

#[test]
fn labels_are_used_as_the_place_asks() {
    for kind in [Kind::U8, Kind::U32, Kind::I64, Kind::F32] {
        assert!(matches!(loss::target_use(true, kind), Ok(TargetUse::Keep)));
    }
    assert!(matches!(loss::target_use(false, Kind::U32), Ok(TargetUse::Keep)));
    assert!(matches!(loss::target_use(false, Kind::U8), Ok(TargetUse::Widen)));
    assert_eq!(
        text(loss::target_use(false, Kind::I64)),
        "cross_entropy target dtype I64 is not supported on CUDA/Metal; use U32 or U8 targets"
    );
    assert_eq!(
        text(loss::target_use(false, Kind::F16)),
        "unsupported cross_entropy target dtype F16"
    );
}

#[test]
fn prepared_tensors_are_contiguous_and_equal() {
    let turned = Tensor::new(&[[1f32, 4.], [2., 5.], [3., 6.]], &Device::Cpu)
        .unwrap()
        .t()
        .unwrap();
    let (logits, labels) = loss::prepare(&turned, &vector(vec![0, 1])).unwrap();
    assert!(logits.is_contiguous());
    assert_eq!(
        logits.to_vec2::<f32>().unwrap(),
        vec![vec![1., 2., 3.], vec![4., 5., 6.]]
    );
    assert_eq!(labels.to_vec1::<u32>().unwrap(), vec![0, 1]);
}

#[test]
fn single_labels() {
    assert_eq!(check_target_index(2, 3).unwrap(), 2);
    assert_eq!(
        text(check_target_index(3, 3)),
        "target index 3 is out of bounds for 3 classes"
    );
    assert_eq!(check_target_i64_index(0, 1).unwrap(), 0);
    assert_eq!(text(check_target_i64_index(-5, 3)), "target index -5 is negative");
    assert_eq!(
        text(check_target_i64_index(4294967296, 4294967296)),
        "target index 4294967296 is out of bounds for 4294967296 classes"
    );
}

#[test]
fn stored_labels() {
    let storage = CpuStorage::U32(vec![9, 1, 0, 2, 9]);
    let inner = Layout::contiguous_with_offset(3, 1);
    assert_eq!(target_indices(&storage, &inner, 3, 3).unwrap(), vec![1, 0, 2]);
    let bytes = CpuStorage::U8(vec![9, 1, 0, 2, 9]);
    assert_eq!(target_indices(&bytes, &inner, 3, 3).unwrap(), vec![1, 0, 2]);
    let signed = CpuStorage::I64(vec![-9, 1, 0, 2, -9]);
    assert_eq!(target_indices(&signed, &inner, 3, 3).unwrap(), vec![1, 0, 2]);

    let every_other = Layout::new(Shape::from_dims(&[2]), vec![2], 0);
    assert_eq!(
        text(target_indices(&storage, &every_other, 2, 3)),
        "target has to be contiguous"
    );
    assert_eq!(
        text(target_indices(&storage, &inner, 2, 3)),
        "target has an unexpected number of elements, expected 2, got 3"
    );
    assert_eq!(
        text(target_indices(&CpuStorage::F32(vec![0.; 4]), &inner, 3, 3)),
        "unsupported target dtype for cross_entropy F32"
    );
    assert_eq!(
        text(target_indices(&CpuStorage::U8(vec![0; 3]), &inner, 3, 3)),
        "layout reaches past the end of its storage"
    );
}

#[test]
fn row_losses_report_layouts() {
    let op = CrossEntropyRows;
    assert_eq!(op.name(), "cross-entropy-rows");
    let logits = CpuStorage::F32(vec![0.; 6]);
    let labels = CpuStorage::U32(vec![0, 1]);
    let (l1, l2) = (Layout::contiguous((2, 3)), Layout::contiguous(2));

    let (losses, shape) = op.cpu_fwd(&logits, &l1, &labels, &l2).unwrap();
    assert_eq!(shape.dims(), &[2]);
    assert_eq!(losses.dtype(), DType::F32);
    let held = losses.as_slice::<f32>().unwrap();
    assert_eq!(held.len(), 2);
    assert!((held[0] - 3f32.ln()).abs() < 1e-6);

    let fails = |s1: &CpuStorage, l1: &Layout, s2: &CpuStorage, l2: &Layout| {
        op.cpu_fwd(s1, l1, s2, l2).err().unwrap().to_string()
    };
    assert_eq!(
        fails(&logits, &Layout::contiguous(6), &labels, &l2),
        "the input tensor should have two dimensions ([6])"
    );
    assert_eq!(fails(&logits, &strided(2, 3), &labels, &l2), "input has to be contiguous");
    assert_eq!(
        fails(&CpuStorage::F32(vec![0.; 5]), &l1, &labels, &l2),
        "layout reaches past the end of its storage"
    );
    assert_eq!(
        fails(&CpuStorage::I64(vec![0; 6]), &l1, &labels, &l2),
        "unsupported input dtype for cross_entropy I64"
    );
    assert_eq!(
        fails(&logits, &l1, &CpuStorage::F64(vec![0.; 2]), &l2),
        "unsupported target dtype for cross_entropy F64"
    );
    assert!(op.cuda_fwd(&candle_core::CudaStorage, &l1, &candle_core::CudaStorage, &l2).is_err());
}

#[test]
fn row_gradients_report_layouts() {
    let op = CrossEntropyRowsBackward;
    assert_eq!(op.name(), "cross-entropy-rows-bwd");
    let logits = CpuStorage::F64(vec![9., 0., 0., 0., 0.]);
    let labels = CpuStorage::U8(vec![0, 1]);
    let grad = CpuStorage::F64(vec![9., 2., 4.]);
    let l1 = Layout::contiguous_with_offset((2, 2), 1);
    let l2 = Layout::contiguous(2);
    let l3 = Layout::contiguous_with_offset(2, 1);

    let (out, shape) = op.cpu_fwd(&logits, &l1, &labels, &l2, &grad, &l3).unwrap();
    assert_eq!(shape.dims(), &[2, 2]);
    assert_eq!(out.as_slice::<f64>().unwrap(), &[-1., 1., 2., -2.]);

    let fails = |l1: &Layout, grad: &CpuStorage, l3: &Layout| {
        op.cpu_fwd(&logits, l1, &labels, &l2, grad, l3)
            .err()
            .unwrap()
            .to_string()
    };
    assert_eq!(
        fails(&l1, &CpuStorage::F32(vec![0.; 3]), &l3),
        "unsupported dtype for cross_entropy backward F64 F32"
    );
    assert_eq!(
        fails(&l1, &grad, &Layout::contiguous((2, 1))),
        "grad_res should have shape [2], got [2, 1]"
    );
    assert_eq!(
        fails(&l1, &CpuStorage::F64(vec![0.]), &Layout::contiguous(3)),
        "grad_res should have shape [2], got [3]"
    );
    assert_eq!(fails(&strided(2, 2), &grad, &l3), "input has to be contiguous");
    let every_other = Layout::new(Shape::from_dims(&[2]), vec![2], 0);
    assert_eq!(fails(&l1, &grad, &every_other), "grad_res has to be contiguous");
    assert_eq!(
        fails(&l1, &CpuStorage::F64(vec![0.; 2]), &l3),
        "layout reaches past the end of its storage"
    );
    assert_eq!(
        text(row_op::backward(&logits, &l1, &labels, &Layout::contiguous(1), &grad, &l3)),
        "batch size mismatch between inp (2) and target (1)"
    );
}

#[test]
fn tensors_reach_the_operations_as_they_are() {
    let matrix = zeros(&[2, 3], DType::F32);
    let labels = vector(vec![0, 1]);
    let turned = zeros(&[3, 2], DType::F32).t().unwrap();
    assert_eq!(text(row_op::row_losses(&turned, &labels)), "input has to be contiguous");
    let every_other = vector(vec![0, 9, 1, 9]).reshape((2, 2)).unwrap();
    let every_other = every_other.narrow(1, 0, 1).unwrap().squeeze(1).unwrap();
    assert_eq!(text(row_op::row_losses(&matrix, &every_other)), "target has to be contiguous");
    assert_eq!(
        text(row_op::row_losses(&matrix, &zeros(&[2], DType::F32))),
        "unsupported target dtype for cross_entropy F32"
    );
    assert_eq!(
        text(row_op::row_gradients(&matrix, &labels, &zeros(&[2], DType::F64))),
        "unsupported dtype for cross_entropy backward F32 F64"
    );
    assert_eq!(
        text(row_op::row_gradients(&matrix, &labels, &zeros(&[3], DType::F32))),
        "grad_res should have shape [2], got [3]"
    );
    let losses = row_op::row_losses(&matrix, &labels).unwrap();
    assert!(row_op::row_gradients(&matrix, &labels, &losses).is_ok());
}

#[test]
fn sigmoid_reports_types_and_layouts() {
    assert_eq!(
        text(sigmoid(&zeros(&[2], DType::U32))),
        "unsupported dtype U32 for op sigmoid"
    );
    let bytes = zeros(&[2], DType::U8);
    assert_eq!(
        text(sigmoid_gradient(&bytes, &bytes)),
        "unsupported dtype U8 for op sigmoid"
    );
    let y = zeros(&[2], DType::F32);
    assert!(matches!(
        sigmoid_gradient(&y, &zeros(&[3], DType::F32)),
        Err(ErrorOf::Backend(_))
    ));

    let op = Sigmoid;
    assert_eq!(op.name(), "sigmoid");
    let fails = |s: &CpuStorage, l: &Layout| op.cpu_fwd(s, l).err().unwrap().to_string();
    assert_eq!(
        fails(&CpuStorage::I64(vec![0]), &Layout::contiguous(1)),
        "unsupported dtype I64 for op sigmoid"
    );
    let storage = CpuStorage::F32(vec![0.; 6]);
    assert_eq!(fails(&storage, &strided(2, 3)), "sigmoid input has to be contiguous");
    assert_eq!(
        fails(&storage, &Layout::contiguous(7)),
        "layout reaches past the end of its storage"
    );
}

#[test]
fn element_wise_losses_report_shapes_and_types() {
    let x = zeros(&[2, 3], DType::F32);
    assert_eq!(
        text(loss::huber(&x, &zeros(&[3], DType::F32), Scalar::from(1f64))),
        "input and target must have the same shape, got inp: [2, 3], target: [3]"
    );
    let wide = zeros(&[2, 3], DType::F64);
    let turned = zeros(&[3, 2], DType::F32);
    let backend = |r: Result<Tensor, LossError>| matches!(r, Err(ErrorOf::Backend(_)));
    assert!(backend(loss::huber(&x, &wide, Scalar::from(1f64))));
    assert!(backend(loss::mse(&x, &wide)));
    assert!(backend(loss::mse(&x, &turned)));
    assert!(backend(loss::binary_cross_entropy_with_logit(&x, &wide)));
    assert!(backend(loss::binary_cross_entropy_with_logit(&x, &turned)));
    assert!(backend(loss::binary_cross_entropy_with_logit(&x, &zeros(&[2, 3], DType::I64))));
    assert_eq!(
        text(loss::binary_cross_entropy_with_logit(&zeros(&[2], DType::I64), &x)),
        "unsupported dtype I64 for op sigmoid"
    );
}

#[test]
fn element_types_have_the_backend_names_and_sizes() {
    for (kind, dtype) in [
        (Kind::U8, DType::U8),
        (Kind::U32, DType::U32),
        (Kind::I16, DType::I16),
        (Kind::I32, DType::I32),
        (Kind::I64, DType::I64),
        (Kind::BF16, DType::BF16),
        (Kind::F16, DType::F16),
        (Kind::F32, DType::F32),
        (Kind::F64, DType::F64),
        (Kind::F8E4M3, DType::F8E4M3),
        (Kind::F6E2M3, DType::F6E2M3),
        (Kind::F6E3M2, DType::F6E3M2),
        (Kind::F4, DType::F4),
        (Kind::F8E8M0, DType::F8E8M0),
    ] {
        assert_eq!(kind.name(), format!("{dtype:?}"));
        assert_eq!(kind.size_in_bytes(), dtype.size_in_bytes());
    }
}

#[test]
fn backend_errors_print_themselves() {
    let err = loss::mse(&zeros(&[2], DType::F32), &zeros(&[3], DType::F32)).err().unwrap();
    assert!(err.message().is_none());
    assert!(into_backend(err).to_string().contains("shape mismatch"));
    let err = loss::cross_entropy(&zeros(&[2], DType::F32), &vector(vec![0])).err().unwrap();
    assert_eq!(err.message().unwrap(), "cross_entropy expects an input tensor of rank 2");
}
