use candle_core::scalar::Scalar;
use candle_core::{DType, Device, Tensor, Var};
use candle_loss::error::{into_backend, LossError};
use candle_loss::loss;
use candle_loss::row_op::{row_gradients, row_losses};
use candle_loss::sigmoid::{sigmoid, sigmoid_gradient};

fn ok<T>(r: Result<T, LossError>) -> candle_core::Result<T> {
    r.map_err(into_backend)
}

fn tensor<const N: usize>(rows: &[[f64; 2]; N]) -> candle_core::Result<Tensor> {
    Tensor::new(rows, &Device::Cpu)
}

fn value(t: &Tensor) -> candle_core::Result<f64> {
    t.to_dtype(DType::F64)?.to_scalar::<f64>()
}

const LN_2: f64 = std::f64::consts::LN_2;

#[test]
fn nll_is_the_negated_mean_of_the_picked() -> candle_core::Result<()> {
    let scores = tensor(&[[-1., -2.], [-3., -4.]])?;
    let target = Tensor::new(&[0u32, 1], &Device::Cpu)?;
    assert_eq!(value(&ok(loss::nll(&scores, &target))?)?, 2.5);
    let target = Tensor::new(&[1i64, 0], &Device::Cpu)?;
    assert_eq!(value(&ok(loss::nll(&scores, &target))?)?, 2.5);
    let target = Tensor::new(&[1u8, 1], &Device::Cpu)?;
    let out = ok(loss::nll(&scores, &target))?;
    assert_eq!(value(&out)?, 3.);
    assert_eq!(out.dims().len(), 0);
    assert_eq!(out.dtype(), DType::F64);
    Ok(())
}

#[test]
fn nll_picks_zero_for_the_largest_label() -> candle_core::Result<()> {
    let scores = tensor(&[[-1., -2.], [-3., -4.]])?;
    let target = Tensor::new(&[255u8, 1], &Device::Cpu)?;
    assert_eq!(value(&ok(loss::nll(&scores, &target))?)?, 2.);
    let target = Tensor::new(&[0, u32::MAX], &Device::Cpu)?;
    assert_eq!(value(&ok(loss::nll(&scores, &target))?)?, 0.5);
    Ok(())
}

#[test]
fn nll_of_an_empty_batch_is_not_a_number() -> candle_core::Result<()> {
    let scores = Tensor::zeros((0, 3), DType::F32, &Device::Cpu)?;
    let target = Tensor::zeros(0, DType::U32, &Device::Cpu)?;
    assert!(value(&ok(loss::nll(&scores, &target))?)?.is_nan());
    Ok(())
}

#[test]
fn checked_losses_leave_integers_out() -> candle_core::Result<()> {
    let a = Tensor::new(&[[1i64, 2]], &Device::Cpu)?;
    let b = Tensor::new(&[[1i64, 5]], &Device::Cpu)?;
    let target = Tensor::new(&[0u32], &Device::Cpu)?;
    assert!(loss::checked_nll(&a, &target).is_none());
    assert!(loss::checked_mse(&a, &b).is_none());
    assert!(loss::checked_huber(&a, &b, Scalar::from(1f64)).is_none());
    assert!(loss::checked_nll(&a, &a).is_some());

    let x = tensor(&[[1., 3.]])?;
    let y = tensor(&[[0., 1.]])?;
    assert_eq!(value(&ok(loss::checked_nll(&x, &target).unwrap())?)?, -1.);
    assert_eq!(value(&ok(loss::checked_mse(&x, &y).unwrap())?)?, 2.5);
    let delta = Scalar::from(10f64);
    assert_eq!(value(&ok(loss::checked_huber(&x, &y, delta).unwrap())?)?, 1.25);
    Ok(())
}

#[test]
fn mse_is_the_mean_of_squared_errors() -> candle_core::Result<()> {
    let x = tensor(&[[1., 3.], [0., -2.]])?;
    let y = tensor(&[[0., 1.], [0., 1.]])?;
    let out = ok(loss::mse(&x, &y))?;
    assert_eq!(value(&out)?, 3.5);
    assert_eq!(out.dims().len(), 0);
    for dtype in [DType::BF16, DType::F16, DType::F32] {
        let out = ok(loss::mse(&x.to_dtype(dtype)?, &y.to_dtype(dtype)?))?;
        assert_eq!(out.dtype(), dtype);
        assert_eq!(value(&out)?, 3.5);
    }
    Ok(())
}

#[test]
fn cross_entropy_of_equal_logits_is_the_logarithm_of_their_number() -> candle_core::Result<()> {
    let logits = tensor(&[[7., 7.], [-3., -3.]])?;
    let target = Tensor::new(&[0u32, 1], &Device::Cpu)?;
    assert!((value(&ok(loss::cross_entropy(&logits, &target))?)? - LN_2).abs() < 1e-15);
    let one = Tensor::new(&[[5f64], [-2.]], &Device::Cpu)?;
    let target = Tensor::new(&[0u32, 0], &Device::Cpu)?;
    assert_eq!(value(&ok(loss::cross_entropy(&one, &target))?)?, 0.);
    Ok(())
}

#[test]
fn cross_entropy_does_not_overflow() -> candle_core::Result<()> {
    let logits = tensor(&[[1e6, 0.], [-1e6, 0.]])?;
    let target = Tensor::new(&[0u32, 1], &Device::Cpu)?;
    assert_eq!(value(&ok(loss::cross_entropy(&logits, &target))?)?, 0.);
    let target = Tensor::new(&[1u32, 0], &Device::Cpu)?;
    assert_eq!(value(&ok(loss::cross_entropy(&logits, &target))?)?, 1e6);
    Ok(())
}

#[test]
fn cross_entropy_keeps_the_element_type() -> candle_core::Result<()> {
    let logits = tensor(&[[2., 2.], [4., 4.]])?;
    let target = Tensor::new(&[0u32, 1], &Device::Cpu)?;
    for (dtype, close) in [
        (DType::BF16, 1e-2),
        (DType::F16, 1e-3),
        (DType::F32, 1e-7),
        (DType::F64, 1e-15),
    ] {
        let out = ok(loss::cross_entropy(&logits.to_dtype(dtype)?, &target))?;
        assert_eq!(out.dtype(), dtype);
        assert_eq!(out.dims().len(), 0);
        assert!((value(&out)? - LN_2).abs() < close);
    }
    Ok(())
}

#[test]
fn cross_entropy_reads_strided_tensors() -> candle_core::Result<()> {
    let logits = Tensor::new(&[[1f64, 2., 0.], [0., -1., 1.]], &Device::Cpu)?;
    let target = Tensor::new(&[1u32, 2], &Device::Cpu)?;
    let expected = value(&ok(loss::cross_entropy(&logits, &target))?)?;
    assert!((expected - 0.4076059644443803).abs() < 1e-15);

    let turned = logits.t()?.contiguous()?.t()?;
    assert!(!turned.is_contiguous());
    let pairs = Tensor::new(&[[1u32, 7], [2, 7]], &Device::Cpu)?;
    let column = pairs.narrow(1, 0, 1)?.squeeze(1)?;
    assert!(!column.is_contiguous());
    assert_eq!(value(&ok(loss::cross_entropy(&turned, &column))?)?, expected);
    Ok(())
}

#[test]
fn cross_entropy_reads_the_middle_of_a_tensor() -> candle_core::Result<()> {
    let logits = tensor(&[[9., 9.], [0., 3.], [3., 0.], [9., 9.]])?;
    let target = Tensor::new(&[5u32, 1, 0, 5], &Device::Cpu)?;
    let inner = ok(loss::cross_entropy(
        &logits.narrow(0, 1, 2)?,
        &target.narrow(0, 1, 2)?,
    ))?;
    let whole = ok(loss::cross_entropy(
        &tensor(&[[0., 3.], [3., 0.]])?,
        &Tensor::new(&[1u32, 0], &Device::Cpu)?,
    ))?;
    assert_eq!(value(&inner)?, value(&whole)?);
    Ok(())
}

#[test]
fn cross_entropy_of_an_empty_batch_is_not_a_number() -> candle_core::Result<()> {
    let logits = Var::zeros((0, 3), DType::F32, &Device::Cpu)?;
    let target = Tensor::zeros(0, DType::I64, &Device::Cpu)?;
    let out = ok(loss::cross_entropy(logits.as_tensor(), &target))?;
    assert!(value(&out)?.is_nan());
    let grads = out.backward()?;
    assert_eq!(grads.get(logits.as_tensor()).unwrap().dims(), &[0, 3]);

    let turned = Tensor::zeros((3, 0), DType::F64, &Device::Cpu)?.t()?;
    let target = Tensor::zeros(0, DType::U32, &Device::Cpu)?;
    assert!(value(&ok(loss::cross_entropy(&turned, &target))?)?.is_nan());

    let narrowed = Tensor::zeros((0, 5), DType::F32, &Device::Cpu)?.narrow(1, 2, 3)?;
    let target = Tensor::zeros(0, DType::U8, &Device::Cpu)?;
    assert!(value(&ok(loss::cross_entropy(&narrowed, &target))?)?.is_nan());
    Ok(())
}

#[test]
fn label_types_have_the_same_losses() -> candle_core::Result<()> {
    let logits = Tensor::new(&[[1f32, 2., 0.], [0., -1., 1.]], &Device::Cpu)?;
    let a = ok(row_losses(&logits, &Tensor::new(&[2u8, 0], &Device::Cpu)?))?;
    let b = ok(row_losses(&logits, &Tensor::new(&[2u32, 0], &Device::Cpu)?))?;
    let c = ok(row_losses(&logits, &Tensor::new(&[2i64, 0], &Device::Cpu)?))?;
    assert_eq!(a.to_vec1::<f32>()?, b.to_vec1::<f32>()?);
    assert_eq!(a.to_vec1::<f32>()?, c.to_vec1::<f32>()?);
    Ok(())
}

#[test]
fn joined_batches_have_the_losses_and_gradients_of_their_parts() -> candle_core::Result<()> {
    let x = tensor(&[[1., 2.], [0., -1.]])?;
    let y = tensor(&[[4., 0.5]])?;
    let s = Tensor::new(&[1u32, 0], &Device::Cpu)?;
    let t = Tensor::new(&[1u32], &Device::Cpu)?;
    let xy = Tensor::cat(&[&x, &y], 0)?;
    let st = Tensor::cat(&[&s, &t], 0)?;
    let parts = Tensor::cat(&[&ok(row_losses(&x, &s))?, &ok(row_losses(&y, &t))?], 0)?;
    let joined = ok(row_losses(&xy, &st))?;
    assert_eq!(joined.dims(), &[3]);
    assert_eq!(joined.to_vec1::<f64>()?, parts.to_vec1::<f64>()?);

    let g = Tensor::new(&[0.5f64, 2.], &Device::Cpu)?;
    let h = Tensor::new(&[-1f64], &Device::Cpu)?;
    let gh = Tensor::cat(&[&g, &h], 0)?;
    let first = ok(row_gradients(&x, &s, &g))?;
    let second = ok(row_gradients(&y, &t, &h))?;
    let joined = ok(row_gradients(&xy, &st, &gh))?;
    assert_eq!(
        joined.to_vec2::<f64>()?,
        Tensor::cat(&[&first, &second], 0)?.to_vec2::<f64>()?
    );
    Ok(())
}

#[test]
fn gradients_are_softmax_less_one_at_the_label() -> candle_core::Result<()> {
    let logits = tensor(&[[3., 3.], [0., 0.]])?;
    let target = Tensor::new(&[0u32, 1], &Device::Cpu)?;
    let grad = Tensor::new(&[2f64, -4.], &Device::Cpu)?;
    let out = ok(row_gradients(&logits, &target, &grad))?;
    assert_eq!(out.to_vec2::<f64>()?, vec![vec![-1., 1.], vec![-2., 2.]]);

    let spread = Tensor::new(2f64, &Device::Cpu)?.broadcast_as(2)?;
    let out = ok(row_gradients(&logits, &target, &spread))?;
    assert_eq!(out.to_vec2::<f64>()?, vec![vec![-1., 1.], vec![1., -1.]]);

    for dtype in [DType::BF16, DType::F16, DType::F32] {
        let out = ok(row_gradients(
            &logits.to_dtype(dtype)?,
            &target,
            &grad.to_dtype(dtype)?,
        ))?;
        assert_eq!(out.dtype(), dtype);
        let out = out.to_dtype(DType::F64)?.to_vec2::<f64>()?;
        assert_eq!(out, vec![vec![-1., 1.], vec![-2., 2.]]);
    }
    Ok(())
}

#[test]
fn binary_cross_entropy_at_zero_is_the_logarithm_of_two() -> candle_core::Result<()> {
    let logits = tensor(&[[0., 0.]])?;
    let target = tensor(&[[0., 1.]])?;
    let out = ok(loss::binary_cross_entropy_with_logit(&logits, &target))?;
    assert!((value(&out)? - LN_2).abs() < 1e-15);
    assert_eq!(out.dims().len(), 0);
    Ok(())
}

#[test]
fn binary_cross_entropy_takes_u32_labels() -> candle_core::Result<()> {
    let logits = tensor(&[[0.3, -1.2], [2., 0.7]])?;
    let floats = tensor(&[[0., 1.], [1., 0.]])?;
    let labels = Tensor::new(&[[0u32, 1], [1, 0]], &Device::Cpu)?;
    let a = ok(loss::binary_cross_entropy_with_logit(&logits, &floats))?;
    let b = ok(loss::binary_cross_entropy_with_logit(&logits, &labels))?;
    assert_eq!(value(&a)?, value(&b)?);
    assert_eq!(b.dtype(), DType::F64);
    let half = logits.to_dtype(DType::F16)?;
    let c = ok(loss::binary_cross_entropy_with_logit(&half, &labels))?;
    assert_eq!(c.dtype(), DType::F16);
    assert!((value(&a)? - value(&c)?).abs() < 1e-2);
    Ok(())
}

#[test]
fn binary_cross_entropy_is_differentiable_at_unlikely_logits() -> candle_core::Result<()> {
    let logits = Var::new(&[[-46f32]], &Device::Cpu)?;
    let target = Tensor::new(&[[1f32]], &Device::Cpu)?;
    let out = ok(loss::binary_cross_entropy_with_logit(logits.as_tensor(), &target))?;
    assert!((value(&out)? - 46.).abs() < 1e-4);
    let grads = out.backward()?;
    let grad = grads.get(logits.as_tensor()).unwrap().to_vec2::<f32>()?;
    assert!((grad[0][0] + 1.).abs() < 1e-5);
    Ok(())
}

#[test]
fn sigmoid_of_each_element() -> candle_core::Result<()> {
    let x = tensor(&[[0., 800.], [-800., 0.]])?;
    let expected = vec![vec![0.5, 1.], vec![0., 0.5]];
    assert_eq!(ok(sigmoid(&x))?.to_vec2::<f64>()?, expected);
    let turned = tensor(&[[0., -800.], [800., 0.]])?.t()?;
    assert_eq!(ok(sigmoid(&turned))?.to_vec2::<f64>()?, expected);
    let empty = Tensor::zeros((0, 2), DType::F32, &Device::Cpu)?;
    assert_eq!(ok(sigmoid(&empty))?.dims(), &[0, 2]);

    let y = tensor(&[[0.5, 0.25]])?;
    let g = tensor(&[[4., 16.]])?;
    assert_eq!(ok(sigmoid_gradient(&y, &g))?.to_vec2::<f64>()?, vec![vec![1., 3.]]);
    Ok(())
}

#[test]
fn huber_joins_squares_and_magnitudes() -> candle_core::Result<()> {
    let x = tensor(&[[0.5, 3.], [-3., 1.]])?;
    let y = tensor(&[[0., 0.], [0., 0.]])?;
    // 0.125, 2.5, 2.5 and 0.5
    let out = ok(loss::huber(&x, &y, Scalar::from(1f64)))?;
    assert_eq!(value(&out)?, 1.40625);
    assert_eq!(out.dims().len(), 0);
    // 0.125, 4, 4 and 0.5
    assert_eq!(value(&ok(loss::huber(&x, &y, Scalar::from(2f64)))?)?, 2.15625);
    for dtype in [DType::BF16, DType::F16, DType::F32] {
        let (x, y) = (x.to_dtype(dtype)?, y.to_dtype(dtype)?);
        let out = ok(loss::huber(&x, &y, Scalar::from(1f64)))?;
        assert_eq!(out.dtype(), dtype);
        assert!((value(&out)? - 1.40625).abs() < 1e-2);
    }
    Ok(())
}

#[test]
fn huber_is_differentiable() -> candle_core::Result<()> {
    let x = Var::new(&[0.5f64, 3.], &Device::Cpu)?;
    let y = Tensor::new(&[0f64, 0.], &Device::Cpu)?;
    let out = ok(loss::huber(x.as_tensor(), &y, Scalar::from(1f64)))?;
    let grads = out.backward()?;
    let grad = grads.get(x.as_tensor()).unwrap().to_vec1::<f64>()?;
    assert_eq!(grad, vec![0.25, 0.5]);
    Ok(())
}

#[test]
fn nll_and_cross_entropy_read_the_same_elements() -> candle_core::Result<()> {
    let logits = Tensor::new(&[[1f64, 2., 0.], [0., -1., 1.]], &Device::Cpu)?;
    for a in 0..3u8 {
        for b in 0..3u8 {
            let target = Tensor::new(&[a, b], &Device::Cpu)?;
            let total = logits.exp()?.sum_keepdim(1)?.log()?;
            let scores = logits.broadcast_sub(&total)?;
            let nll = value(&ok(loss::nll(&scores, &target))?)?;
            let cross_entropy = value(&ok(loss::cross_entropy(&logits, &target))?)?;
            assert!((nll - cross_entropy).abs() < 1e-14);
        }
    }
    Ok(())
}
