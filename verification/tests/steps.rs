use candle_core::{DType, Device, Tensor, Var};
use candle_loss::error::{into_backend, LossError};
use candle_loss::loss;
use candle_loss::row_op::{row_gradients, row_losses};
use candle_loss::steps::{step_gradients, step_losses};

fn ok<T>(r: Result<T, LossError>) -> candle_core::Result<T> {
    r.map_err(into_backend)
}

fn values(t: &Tensor) -> candle_core::Result<Vec<f64>> {
    t.to_dtype(DType::F64)?.flatten_all()?.to_vec1::<f64>()
}

fn assert_close(actual: &[f64], expected: &[f64], tol: f64) {
    assert_eq!(actual.len(), expected.len());
    for (a, e) in actual.iter().zip(expected.iter()) {
        assert!((a - e).abs() <= tol, "expected {e}, got {a}");
    }
}

fn logits(dtype: DType) -> candle_core::Result<Tensor> {
    let rows = [[1f64, 2., 0.], [0., -1., 1.], [40., -40., 3.5]];
    Tensor::new(&rows, &Device::Cpu)?.to_dtype(dtype)
}

#[test]
fn steps_give_the_losses_of_the_operation() -> candle_core::Result<()> {
    let target = Tensor::new(&[1u32, 2, 0], &Device::Cpu)?;
    for dtype in [DType::F64, DType::F32, DType::F16, DType::BF16] {
        let x = logits(dtype)?;
        let steps = ok(step_losses(&x, &target))?;
        let rows = ok(row_losses(&x, &target))?;
        assert_eq!(steps.dims(), &[3]);
        assert_eq!(steps.dtype(), dtype);
        assert_eq!(values(&steps)?, values(&rows)?);
    }
    let x = logits(DType::F64)?;
    let steps = values(&ok(step_losses(&x, &target))?)?;
    assert_close(&steps, &[0.40760596444438, 0.40760596444438, 0.], 1e-12);
    Ok(())
}

#[test]
fn steps_give_the_gradients_of_the_operation() -> candle_core::Result<()> {
    let target = Tensor::new(&[1u32, 2, 1], &Device::Cpu)?;
    for dtype in [DType::F64, DType::F32, DType::F16, DType::BF16] {
        let x = logits(dtype)?;
        let grad = Tensor::new(&[1f64, 0.5, -2.], &Device::Cpu)?.to_dtype(dtype)?;
        let steps = ok(step_gradients(&x, &target, &grad))?;
        let rows = ok(row_gradients(&x, &target, &grad))?;
        assert_eq!(steps.dims(), &[3, 3]);
        assert_eq!(steps.dtype(), dtype);
        assert_eq!(values(&steps)?, values(&rows)?);
    }
    Ok(())
}

#[test]
fn steps_are_differentiated_to_the_gradients_of_the_operation() -> candle_core::Result<()> {
    for n_classes in [2usize, 3, 33, 257] {
        let xs = (0..3 * n_classes)
            .map(|i| ((i * 17 + 5) % 23) as f64 * 0.13 - 1.5)
            .collect::<Vec<_>>();
        let labels = vec![0u32, (n_classes / 2) as u32, (n_classes - 1) as u32];
        let x = Var::from_vec(xs, (3, n_classes), &Device::Cpu)?;
        let target = Tensor::from_vec(labels, 3, &Device::Cpu)?;
        let steps = ok(step_losses(x.as_tensor(), &target))?.mean_all()?;
        let fused = ok(loss::cross_entropy(x.as_tensor(), &target))?;
        assert_eq!(values(&steps)?, values(&fused)?);
        let steps = steps.backward()?;
        let fused = fused.backward()?;
        let steps = steps.get(x.as_tensor()).unwrap();
        let fused = fused.get(x.as_tensor()).unwrap();
        assert_close(&values(steps)?, &values(fused)?, 1e-12);
    }
    Ok(())
}

#[test]
fn steps_give_no_number_for_a_label_without_a_class() -> candle_core::Result<()> {
    let x = logits(DType::F32)?;
    let plain = Tensor::new(&[1u32, 2, 0], &Device::Cpu)?;
    let plain = values(&ok(step_losses(&x, &plain))?)?;
    for bad in [3u32, 4, 1000, u32::MAX] {
        let target = Tensor::new(&[1u32, bad, 0], &Device::Cpu)?;
        let losses = ok(step_losses(&x, &target))?;
        assert!(losses.mean_all()?.to_scalar::<f32>()?.is_nan());
        let losses = values(&losses)?;
        assert_eq!(losses[0], plain[0]);
        assert!(losses[1].is_nan());
        assert_eq!(losses[2], plain[2]);
    }
    Ok(())
}

#[test]
fn steps_take_nothing_off_for_a_label_without_a_class() -> candle_core::Result<()> {
    let x = Tensor::new(&[[0f64, 0.], [0., 0.]], &Device::Cpu)?;
    let grad = Tensor::new(&[1f64, 4.], &Device::Cpu)?;
    for bad in [2u32, u32::MAX] {
        let target = Tensor::new(&[bad, 1], &Device::Cpu)?;
        let grads = ok(step_gradients(&x, &target, &grad))?;
        assert_eq!(values(&grads)?, &[0.5, 0.5, 2., -2.]);
    }
    Ok(())
}

#[test]
fn steps_read_the_middle_of_a_tensor() -> candle_core::Result<()> {
    let rows = [[9f32, 9.], [1., 3.], [2., -2.], [9., 9.]];
    let x = Tensor::new(&rows, &Device::Cpu)?.narrow(0, 1, 2)?;
    let target = Tensor::new(&[7u32, 1, 0, 7], &Device::Cpu)?.narrow(0, 1, 2)?;
    let grad = Tensor::new(&[9f32, 1., 2., 9.], &Device::Cpu)?.narrow(0, 1, 2)?;
    let losses = ok(step_losses(&x, &target))?;
    assert_eq!(values(&losses)?, values(&ok(row_losses(&x, &target))?)?);
    let grads = ok(step_gradients(&x, &target, &grad))?;
    assert_eq!(values(&grads)?, values(&ok(row_gradients(&x, &target, &grad))?)?);
    Ok(())
}
