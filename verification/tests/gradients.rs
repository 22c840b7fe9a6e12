use candle_core::scalar::Scalar;
use candle_core::{DType, Device, Tensor, Var};
use candle_loss::error::{into_backend, LossError};
use candle_loss::loss;

fn ok<T>(r: Result<T, LossError>) -> candle_core::Result<T> {
    r.map_err(into_backend)
}

fn values(t: &Tensor) -> candle_core::Result<Vec<f64>> {
    t.to_dtype(DType::F64)?.flatten_all()?.to_vec1::<f64>()
}

fn assert_close(actual: &[f64], expected: &[f64], tol: f64) {
    assert_eq!(actual.len(), expected.len());
    for (a, e) in actual.iter().zip(expected.iter()) {
        assert!((a - e).abs() <= tol, "expected {e}, got {a}");
    }
}

#[test]
fn element_wise_losses_are_differentiated_by_both_arguments() -> candle_core::Result<()> {
    let x = Var::new(&[[1f64, 3.], [0., -2.]], &Device::Cpu)?;
    let y = Var::new(&[[0f64, 1.], [0., 1.]], &Device::Cpu)?;
    let (x, y) = (x.as_tensor(), y.as_tensor());

    let grads = ok(loss::mse(x, y))?.backward()?;
    assert_eq!(values(grads.get(x).unwrap())?, &[0.5, 1., 0., -1.5]);
    assert_eq!(values(grads.get(y).unwrap())?, &[-0.5, -1., 0., 1.5]);

    let grads = ok(loss::huber(x, y, Scalar::from(2f64)))?.backward()?;
    assert_eq!(values(grads.get(x).unwrap())?, &[0.25, 0.5, 0., -0.5]);
    assert_eq!(values(grads.get(y).unwrap())?, &[-0.25, -0.5, 0., 0.5]);

    let grads = ok(loss::binary_cross_entropy_with_logit(x, y))?.backward()?;
    let p = values(x)?
        .iter()
        .map(|x| 1. / (1. + (-x).exp()))
        .collect::<Vec<_>>();
    let slopes = p
        .iter()
        .zip(values(y)?)
        .map(|(p, y)| (p - y) / 4.)
        .collect::<Vec<_>>();
    assert_close(&values(grads.get(x).unwrap())?, &slopes, 1e-12);
    let slopes = values(x)?.iter().map(|x| -x / 4.).collect::<Vec<_>>();
    assert_close(&values(grads.get(y).unwrap())?, &slopes, 1e-12);
    Ok(())
}

#[test]
fn nll_is_differentiated_by_the_scores() -> candle_core::Result<()> {
    let x = Var::new(&[[-1f64, -2.], [-3., -4.]], &Device::Cpu)?;
    let target = Tensor::new(&[0u32, 1], &Device::Cpu)?;
    let grads = ok(loss::nll(x.as_tensor(), &target))?.backward()?;
    assert_eq!(values(grads.get(x.as_tensor()).unwrap())?, &[-0.5, 0., 0., -0.5]);
    Ok(())
}

#[test]
fn losses_of_views_lead_back_to_what_is_viewed() -> candle_core::Result<()> {
    let x = Var::new(&[[1f64, 3.], [0., -2.]], &Device::Cpu)?;
    let view = x.as_tensor().t()?;
    let y = Tensor::zeros((2, 2), DType::F64, &Device::Cpu)?;
    let grads = ok(loss::mse(&view, &y))?.backward()?;
    assert_eq!(values(grads.get(x.as_tensor()).unwrap())?, &[0.5, 1.5, 0., -1.]);
    let target = Tensor::new(&[0u32, 1], &Device::Cpu)?;
    let grads = ok(loss::cross_entropy(&view, &target))?.backward()?;
    let p = 1. / (1. + (-1f64).exp());
    let q = 1. / (1. + 5f64.exp());
    let slopes = [(p - 1.) / 2., (1. - q) / 2., (1. - p) / 2., (q - 1.) / 2.];
    assert_close(&values(grads.get(x.as_tensor()).unwrap())?, &slopes, 1e-12);
    Ok(())
}
