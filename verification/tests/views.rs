use candle_core::scalar::Scalar;
use candle_core::{CpuStorage, CustomOp1, DType, Device, Layout, Tensor, Var};
use candle_loss::error::{into_backend, ErrorOf, LossError};
use candle_loss::loss;
use candle_loss::renewal::Renewal;
use candle_loss::row_op::row_gradients;
use candle_loss::sigmoid::{sigmoid, sigmoid_gradient};

fn ok<T>(r: Result<T, LossError>) -> candle_core::Result<T> {
    r.map_err(into_backend)
}

fn text<T>(r: Result<T, LossError>) -> String {
    match r {
        Ok(_) => panic!("expected an error"),
        Err(e) => into_backend(e).to_string(),
    }
}

fn value(t: &Tensor) -> candle_core::Result<f64> {
    t.to_dtype(DType::F64)?.to_scalar::<f64>()
}

/// A matrix without rows that starts past the end of its storage.
fn rowless(dtype: DType) -> candle_core::Result<Tensor> {
    Tensor::zeros((0, 5), dtype, &Device::Cpu)?.narrow(1, 2, 3)
}

/// A vector without elements that starts past the end of its storage.
fn no_labels() -> candle_core::Result<Tensor> {
    let table = Tensor::new(&[[0u32, 1], [1, 0]], &Device::Cpu)?;
    table.narrow(0, 2, 0)?.narrow(1, 1, 1)?.squeeze(1)
}

fn delta() -> Scalar {
    Scalar::from(1f64)
}

#[test]
fn views_without_elements_have_losses() -> candle_core::Result<()> {
    let plain = Tensor::zeros((0, 3), DType::F32, &Device::Cpu)?;
    for scores in [&plain, &rowless(DType::F32)?] {
        for labels in [&no_labels()?, &Tensor::zeros(0, DType::I64, &Device::Cpu)?] {
            assert!(value(&ok(loss::nll(scores, labels))?)?.is_nan());
            assert!(value(&ok(loss::cross_entropy(scores, labels))?)?.is_nan());
        }
        for target in [&plain, &rowless(DType::F32)?] {
            assert!(value(&ok(loss::mse(scores, target))?)?.is_nan());
            assert!(value(&ok(loss::huber(scores, target, delta()))?)?.is_nan());
            let out = ok(loss::binary_cross_entropy_with_logit(scores, target))?;
            assert!(value(&out)?.is_nan());
        }
        let labels = rowless(DType::U32)?;
        let out = ok(loss::binary_cross_entropy_with_logit(scores, &labels))?;
        assert!(value(&out)?.is_nan());
        assert_eq!(out.dtype(), DType::F32);
    }
    let wider = Tensor::zeros((0, 5), DType::F32, &Device::Cpu)?;
    assert!(loss::mse(&rowless(DType::F32)?, &wider).is_err());
    Ok(())
}

#[test]
fn losses_without_elements_are_differentiable() -> candle_core::Result<()> {
    let x = Var::zeros((0, 5), DType::F64, &Device::Cpu)?;
    let view = x.as_tensor().narrow(1, 2, 3)?;
    let y = Tensor::zeros((0, 3), DType::F64, &Device::Cpu)?;
    for out in [loss::mse(&view, &y), loss::huber(&view, &y, delta())] {
        let grads = ok(out)?.backward()?;
        assert_eq!(grads.get(x.as_tensor()).unwrap().dims(), &[0, 5]);
    }
    let labels = Tensor::zeros(0, DType::U32, &Device::Cpu)?;
    let grads = ok(loss::nll(x.as_tensor(), &labels))?.backward()?;
    assert_eq!(grads.get(x.as_tensor()).unwrap().dims(), &[0, 5]);
    Ok(())
}

#[test]
fn scores_without_elements_have_to_be_stored_row_by_row() -> candle_core::Result<()> {
    let turned = Tensor::zeros((3, 0), DType::F32, &Device::Cpu)?.t()?;
    assert!(!turned.is_contiguous());
    assert!(matches!(loss::nll(&turned, &no_labels()?), Err(ErrorOf::Backend(_))));
    // A row without classes has nothing that a label could pick.
    let classless = Tensor::zeros((2, 0), DType::F32, &Device::Cpu)?;
    let labels = Tensor::new(&[0u32, 0], &Device::Cpu)?;
    assert!(loss::nll(&classless, &labels).is_err());
    let labels = Tensor::new(&[u32::MAX, u32::MAX], &Device::Cpu)?;
    assert_eq!(value(&ok(loss::nll(&classless, &labels))?)?, 0.);
    Ok(())
}

#[test]
fn views_of_three_dimensions_without_elements() -> candle_core::Result<()> {
    let cube = Tensor::zeros((2, 2, 2), DType::F32, &Device::Cpu)?;
    let view = cube.narrow(1, 2, 0)?.narrow(2, 1, 1)?;
    assert_eq!(ok(sigmoid(&view))?.dims(), &[2, 0, 1]);
    assert!(value(&ok(loss::mse(&view, &view))?)?.is_nan());
    assert!(value(&ok(loss::huber(&view, &view, delta()))?)?.is_nan());

    let logits = Tensor::zeros((2, 3), DType::F32, &Device::Cpu)?;
    let labels = Tensor::new(&[0u32, 1], &Device::Cpu)?;
    assert_eq!(
        text(row_gradients(&logits, &labels, &view)),
        "grad_res should have shape [2], got [2, 0, 1]"
    );
    Ok(())
}

#[test]
fn renewal_is_for_tensors_without_elements() -> candle_core::Result<()> {
    let op = Renewal;
    assert_eq!(op.name(), "renewal");
    let (storage, shape) =
        op.cpu_fwd(&CpuStorage::F32(vec![]), &Layout::contiguous_with_offset((0, 3), 9))?;
    assert_eq!(storage.as_slice::<f32>()?.len(), 0);
    assert_eq!(shape.dims(), &[0, 3]);
    let r = op.cpu_fwd(&CpuStorage::F32(vec![1.]), &Layout::contiguous(1));
    assert_eq!(r.err().unwrap().to_string(), "tensor should have no elements");
    let one = Tensor::zeros(1, DType::F32, &Device::Cpu)?;
    let r = op.bwd(&one, &one, &one);
    assert_eq!(r.err().unwrap().to_string(), "tensor should have no elements");
    let none = rowless(DType::F16)?;
    let grad = op.bwd(&none, &none, &none)?.unwrap();
    assert_eq!((grad.dims(), grad.dtype()), (&[0usize, 3][..], DType::F16));
    Ok(())
}

/// Two tensors of nine dimensions, the second with its axes reversed.
fn deep() -> candle_core::Result<(Tensor, Tensor)> {
    let x = Tensor::arange(0f64, 512., &Device::Cpu)?.affine(1. / 512., 0.)?;
    let x = x.reshape(&[2usize; 9][..])?;
    let y = x.permute([8, 7, 6, 5, 4, 3, 2, 1, 0].as_slice())?;
    Ok((x, y))
}

#[test]
fn tensors_of_many_dimensions_are_computed_with_as_vectors() -> candle_core::Result<()> {
    let (x, y) = deep()?;
    let (a, b) = (x.flatten_all()?, y.flatten_all()?);
    let near = |p: Result<Tensor, LossError>, q: Result<Tensor, LossError>| {
        let (p, q) = (value(&ok(p)?)?, value(&ok(q)?)?);
        candle_core::Result::Ok((p - q).abs() < 1e-15 && p > 0.)
    };
    assert!(near(loss::mse(&x, &y), loss::mse(&a, &b))?);
    let delta = || Scalar::from(0.25f64);
    assert!(near(loss::huber(&x, &y, delta()), loss::huber(&a, &b, delta()))?);
    let p = loss::binary_cross_entropy_with_logit(&x, &y);
    assert!(near(p, loss::binary_cross_entropy_with_logit(&a, &b))?);
    let labels = (&y * 512.)?.to_dtype(DType::U32)?;
    assert!(loss::binary_cross_entropy_with_logit(&x, &labels).is_ok());

    Ok(())
}

#[test]
fn many_dimensions_and_other_faults() -> candle_core::Result<()> {
    let (x, y) = deep()?;
    let single = y.to_dtype(DType::F32)?;
    assert!(matches!(loss::mse(&x, &single), Err(ErrorOf::Backend(_))));
    assert!(matches!(loss::huber(&x, &single, delta()), Err(ErrorOf::Backend(_))));
    let ints = x.to_dtype(DType::I64)?;
    assert_eq!(
        text(loss::binary_cross_entropy_with_logit(&ints, &y)),
        "unsupported dtype I64 for op sigmoid"
    );
    assert!(ok(sigmoid(&x)).is_ok());
    assert_eq!(
        text(sigmoid_gradient(&x, &x)),
        "tensor should have at most eight dimensions ([2, 2, 2, 2, 2, 2, 2, 2, 2])"
    );
    let empty = Tensor::zeros(&[0usize, 1, 1, 1, 1, 1, 1, 1, 1][..], DType::F32, &Device::Cpu)?;
    assert!(value(&ok(loss::huber(&empty, &empty, delta()))?)?.is_nan());
    assert!(ok(sigmoid_gradient(&empty, &empty)).is_ok());
    // More elements than a machine word can count, though only one is stored.
    let vast = Tensor::zeros(&[1usize; 9][..], DType::F32, &Device::Cpu)?;
    let vast = vast.broadcast_as(&[1usize << 32, 1 << 32, 1, 1, 1, 1, 1, 1, 1][..])?;
    let message = "tensor should have at most eight dimensions \
        ([4294967296, 4294967296, 1, 1, 1, 1, 1, 1, 1])";
    assert_eq!(text(loss::mse(&vast, &vast)), message);
    assert_eq!(text(loss::huber(&vast, &vast, delta())), message);
    Ok(())
}

#[test]
fn storage_does_not_matter_to_gradients() -> candle_core::Result<()> {
    let logits = Tensor::new(&[[1f64, 2.], [0., -1.]], &Device::Cpu)?;
    let labels = Tensor::new(&[1u32, 0], &Device::Cpu)?;
    let pairs = Tensor::new(&[[3f64, 9.], [4., 9.]], &Device::Cpu)?;
    let strided = pairs.narrow(1, 0, 1)?.squeeze(1)?;
    let plain = Tensor::new(&[3f64, 4.], &Device::Cpu)?;
    assert!(!strided.is_contiguous());
    assert_eq!(
        ok(row_gradients(&logits, &labels, &strided))?.to_vec2::<f64>()?,
        ok(row_gradients(&logits, &labels, &plain))?.to_vec2::<f64>()?
    );
    Ok(())
}

#[test]
fn other_classes_do_not_matter_to_nll() -> candle_core::Result<()> {
    let labels = Tensor::new(&[1u32, 0], &Device::Cpu)?;
    let a = Tensor::new(&[[1f64, -2.], [-3., 4.]], &Device::Cpu)?;
    let b = Tensor::new(&[[f64::NAN, -2.], [-3., f64::INFINITY]], &Device::Cpu)?;
    assert_eq!(value(&ok(loss::nll(&a, &labels))?)?, 2.5);
    assert_eq!(value(&ok(loss::nll(&b, &labels))?)?, 2.5);
    Ok(())
}

#[test]
fn losses_are_permuted_as_rows_are() -> candle_core::Result<()> {
    let x = Tensor::new(&[[1f64, 2.], [0., -1.], [5., 3.]], &Device::Cpu)?;
    let labels = Tensor::new(&[1u32, 0, 1], &Device::Cpu)?;
    let order = Tensor::new(&[2u32, 0, 1, 0], &Device::Cpu)?;
    let losses = ok(candle_loss::row_op::row_losses(&x, &labels))?;
    let moved = ok(candle_loss::row_op::row_losses(
        &x.index_select(&order, 0)?,
        &labels.index_select(&order, 0)?,
    ))?;
    assert_eq!(
        moved.to_vec1::<f64>()?,
        losses.index_select(&order, 0)?.to_vec1::<f64>()?
    );
    Ok(())
}
