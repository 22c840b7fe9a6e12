use candle_core::scalar::Scalar;
use candle_core::test_utils::{to_vec0_round, to_vec2_round};
use candle_core::{Device, Tensor, Var};
use candle_loss::error::{into_backend, LossError};
use candle_loss::loss;

fn ok<T>(r: Result<T, LossError>) -> candle_core::Result<T> {
    r.map_err(into_backend)
}

fn log_softmax(logits: &Tensor) -> candle_core::Result<Tensor> {
    let shifted = logits.broadcast_sub(&logits.max_keepdim(1)?)?;
    let total = shifted.exp()?.sum_keepdim(1)?;
    shifted.broadcast_sub(&total.log()?)
}

/* Equivalent python code:
import torch
import torch.nn.functional as F
input = torch.tensor([
    [ 1.1050,  0.3013, -1.5394, -2.1528, -0.8634],
    [ 1.0730, -0.9419, -0.1670, -0.6582,  0.5061],
    [ 0.8318,  1.1154, -0.3610,  0.5351,  1.0830]])

target = torch.tensor([1, 0, 4])
print(F.nll_loss(F.log_softmax(input, dim=1), target))
print(F.cross_entropy(input, target))
*/
#[test]
fn nll_and_cross_entropy() -> candle_core::Result<()> {
    let cpu = Device::Cpu;
    let input = Tensor::new(
        &[
            [1.1050f32, 0.3013, -1.5394, -2.1528, -0.8634],
            [1.0730, -0.9419, -0.1670, -0.6582, 0.5061],
            [0.8318, 1.1154, -0.3610, 0.5351, 1.0830],
        ],
        &cpu,
    )?;
    let target = Tensor::new(&[1u32, 0, 4], &cpu)?;

    let log_softmax = log_softmax(&input)?;
    let loss = ok(loss::nll(&log_softmax, &target))?;
    assert_eq!(to_vec0_round(&loss, 4)?, 1.1312);
    let loss = ok(loss::cross_entropy(&input, &target))?;
    assert_eq!(to_vec0_round(&loss, 4)?, 1.1312);
    Ok(())
}

#[test]
fn cross_entropy_backward() -> candle_core::Result<()> {
    let cpu = Device::Cpu;
    let input = Var::new(&[[1f32, 2., 0.], [0., -1., 1.]], &cpu)?;
    let target = Tensor::new(&[1u32, 2], &cpu)?;

    let loss = ok(loss::cross_entropy(input.as_tensor(), &target))?;
    assert_eq!(to_vec0_round(&loss, 4)?, 0.4076);

    let grads = loss.backward()?;
    let grad = grads.get(input.as_tensor()).unwrap();
    assert_eq!(
        to_vec2_round(grad, 4)?,
        &[[0.1224, -0.1674, 0.045], [0.1224, 0.045, -0.1674]]
    );
    Ok(())
}

fn assert_cross_entropy_err(input: &Tensor, target: &Tensor, expected: &str) {
    let err = loss::cross_entropy(input, target)
        .expect_err("cross_entropy should reject invalid targets");
    let msg = into_backend(err).to_string();
    assert!(
        msg.contains(expected),
        "expected error containing {expected:?}, got {msg:?}"
    );
}

#[test]
fn cross_entropy_target_dtypes() -> candle_core::Result<()> {
    let cpu = Device::Cpu;
    let input = Tensor::new(&[[1f32, 2., 0.], [0., -1., 1.]], &cpu)?;

    let target = Tensor::new(&[1u8, 2], &cpu)?;
    let loss = ok(loss::cross_entropy(&input, &target))?;
    assert_eq!(to_vec0_round(&loss, 4)?, 0.4076);

    let target = Tensor::new(&[1i64, 2], &cpu)?;
    let loss = ok(loss::cross_entropy(&input, &target))?;
    assert_eq!(to_vec0_round(&loss, 4)?, 0.4076);

    Ok(())
}

#[test]
fn cross_entropy_rejects_invalid_targets() -> candle_core::Result<()> {
    let cpu = Device::Cpu;
    let input = Tensor::new(&[[1f32, 2., 0.], [0., -1., 1.]], &cpu)?;

    let target = Tensor::new(&[1f32, 2.], &cpu)?;
    assert_cross_entropy_err(&input, &target, "target dtype");

    let target = Tensor::new(&[1u32, 3], &cpu)?;
    assert_cross_entropy_err(&input, &target, "target index 3 is out of bounds");

    let target = Tensor::new(&[1i64, -1], &cpu)?;
    assert_cross_entropy_err(&input, &target, "target index -1 is negative");

    let target = Tensor::new(&[1i64, u32::MAX as i64 + 1], &cpu)?;
    assert_cross_entropy_err(&input, &target, "target index 4294967296 is out of bounds");

    Ok(())
}

/* Equivalent python code:
import torch
import torch.nn.functional as F

inp = torch.Tensor([[ 2.3611, -0.8813, -0.5006, -0.2178],
        [ 0.0419,  0.0763, -1.0457, -1.6692],
        [-1.0494,  0.8111,  1.5723,  1.2315],
        [ 1.3081,  0.6641,  1.1802, -0.2547],
        [ 0.5292,  0.7636,  0.3692, -0.8318]])

target = torch.Tensor([[0., 1., 0., 0.],
        [0., 1., 0., 0.],
        [0., 0., 0., 1.],
        [1., 0., 0., 0.],
        [0., 0., 1., 0.]])

print(F.binary_cross_entropy_with_logits(inp, target))
*/
#[test]
fn binary_cross_entropy_with_logit() -> candle_core::Result<()> {
    let cpu = Device::Cpu;

    let inp = [
        [2.3611f32, -0.8813, -0.5006, -0.2178],
        [0.0419, 0.0763, -1.0457, -1.6692],
        [-1.0494, 0.8111, 1.5723, 1.2315],
        [1.3081, 0.6641, 1.1802, -0.2547],
        [0.5292, 0.7636, 0.3692, -0.8318],
    ];

    let target = [
        [0.0f32, 1., 0., 0.],
        [0., 1., 0., 0.],
        [0., 0., 0., 1.],
        [1., 0., 0., 0.],
        [0., 0., 1., 0.],
    ];

    let inp = Tensor::new(&inp, &cpu)?;
    let target = Tensor::new(&target, &cpu)?;

    let loss = ok(loss::binary_cross_entropy_with_logit(&inp, &target))?;

    assert_eq!(to_vec0_round(&loss, 4)?, 0.8224);
    Ok(())
}

/* Equivalent python code:
import torch
import torch.nn.functional as F

inp = torch.Tensor([[ 2.3611, -0.8813, -0.5006, -0.2178],
        [ 0.0419,  0.0763, -1.0457, -1.6692],
        [-1.0494,  0.8111,  1.5723,  1.2315],
        [ 1.3081,  0.6641,  1.1802, -0.2547],
        [ 0.5292,  0.7636,  0.3692, -0.8318]])

target = torch.Tensor([[0., 1., 0., 0.],
        [0., 1., 0., 0.],
        [0., 0., 0., 1.],
        [1., 0., 0., 0.],
        [0., 0., 1., 0.]])

print(F.huber_loss(inp, target))
print(F.huber_loss(inp,target,delta=0.88))
*/
#[test]
fn huber_loss() -> candle_core::Result<()> {
    let cpu = Device::Cpu;
    let inp = [
        [2.3611f32, -0.8813, -0.5006, -0.2178],
        [0.0419, 0.0763, -1.0457, -1.6692],
        [-1.0494, 0.8111, 1.5723, 1.2315],
        [1.3081, 0.6641, 1.1802, -0.2547],
        [0.5292, 0.7636, 0.3692, -0.8318],
    ];

    let target = [
        [0.0f32, 1., 0., 0.],
        [0., 1., 0., 0.],
        [0., 0., 0., 1.],
        [1., 0., 0., 0.],
        [0., 0., 1., 0.],
    ];

    let inp = Tensor::new(&inp, &cpu)?;
    let target = Tensor::new(&target, &cpu)?;
    let loss = ok(loss::huber(&inp, &target, Scalar::from(1.0f64)))?;
    assert_eq!(to_vec0_round(&loss, 4)?, 0.4734);
    let loss = ok(loss::huber(&inp, &target, Scalar::from(0.88f64)))?;
    assert_eq!(to_vec0_round(&loss, 4)?, 0.4483);
    Ok(())
}
