use candle_core::scalar::Scalar;
use candle_core::{CpuStorage, DType, Device, Shape, Storage, Tensor};
use candle_loss::error::{into_backend, LossError};
use candle_loss::loss;
use candle_loss::sigmoid::sigmoid;

fn text<T>(r: Result<T, LossError>) -> String {
    match r {
        Ok(_) => panic!("expected an error"),
        Err(e) => into_backend(e).to_string(),
    }
}

/// Tensors of the types that the backend only stores.
fn stored_only(dims: &[usize]) -> Vec<Tensor> {
    let n = dims.iter().product();
    let bytes = vec![0u8; n];
    [
        CpuStorage::F6E2M3(bytes.clone()),
        CpuStorage::F6E3M2(bytes.clone()),
        CpuStorage::F4(bytes.clone()),
        CpuStorage::F8E8M0(bytes),
    ]
    .into_iter()
    .map(|s| Tensor::from((Storage::Cpu(s), Shape::from_dims(dims))))
    .collect()
}

#[test]
fn stored_types_are_refused() -> candle_core::Result<()> {
    let labels = Tensor::new(&[0u32, 1], &Device::Cpu)?;
    let floats = Tensor::zeros((2, 3), DType::F32, &Device::Cpu)?;
    for x in stored_only(&[2, 3]) {
        let name = format!("{:?}", x.dtype());
        assert!(loss::nll(&x, &labels).is_err());
        assert!(loss::mse(&x, &x).is_err());
        assert!(loss::huber(&x, &x, Scalar::from(1f64)).is_err());
        assert!(loss::binary_cross_entropy_with_logit(&floats, &x).is_err());
        assert_eq!(
            text(loss::cross_entropy(&x, &labels)),
            format!("unsupported input dtype for cross_entropy {name}")
        );
        assert_eq!(text(sigmoid(&x)), format!("unsupported dtype {name} for op sigmoid"));
        assert_eq!(
            text(loss::cross_entropy(&floats, &x.narrow(0, 0, 1)?.squeeze(0)?.narrow(0, 0, 2)?)),
            format!("cross_entropy target dtype must be U8, U32, or I64, got {name}")
        );
        assert!(loss::cross_entropy(&x.t()?, &Tensor::new(&[0u32, 1, 1], &Device::Cpu)?).is_err());
    }
    for x in stored_only(&[0, 3]) {
        let floats = Tensor::zeros((0, 3), DType::F32, &Device::Cpu)?;
        assert!(loss::mse(&x, &floats).is_err());
        assert!(loss::huber(&x, &x, Scalar::from(1f64)).is_err());
        assert!(loss::binary_cross_entropy_with_logit(&floats, &x).is_err());
        assert!(loss::mse(&floats, &x).is_ok());
    }
    Ok(())
}

#[test]
fn eight_bit_floats_are_computed_with() -> candle_core::Result<()> {
    let x = Tensor::new(&[[1f32, 2.], [4., 0.]], &Device::Cpu)?.to_dtype(DType::F8E4M3)?;
    let y = Tensor::new(&[[1f32, 0.], [0., 0.]], &Device::Cpu)?.to_dtype(DType::F8E4M3)?;
    let value = |t: Tensor| t.to_dtype(DType::F32)?.to_scalar::<f32>();
    let out = loss::mse(&x, &y).map_err(into_backend)?;
    assert_eq!(out.dtype(), DType::F8E4M3);
    assert_eq!(value(out)?, 5.);
    // 0, 1.5, 3.5 and 0
    let out = loss::huber(&x, &y, Scalar::from(1f64)).map_err(into_backend)?;
    assert_eq!(value(out)?, 1.25);
    let labels = Tensor::new(&[1u32, 0], &Device::Cpu)?;
    assert_eq!(value(loss::nll(&x, &labels).map_err(into_backend)?)?, -3.);
    assert_eq!(
        text(loss::cross_entropy(&x, &labels)),
        "unsupported input dtype for cross_entropy F8E4M3"
    );
    Ok(())
}

#[test]
fn empty_tensors_of_any_types_have_a_loss() -> candle_core::Result<()> {
    let empty = |dtype| Tensor::zeros((0, 2), dtype, &Device::Cpu);
    let types = [
        DType::U8,
        DType::U32,
        DType::I16,
        DType::I32,
        DType::I64,
        DType::BF16,
        DType::F16,
        DType::F32,
        DType::F64,
        DType::F8E4M3,
    ];
    for a in types {
        for b in types {
            let (x, y) = (empty(a)?, empty(b)?);
            let out = loss::mse(&x, &y).map_err(into_backend)?;
            assert_eq!(out.dtype(), a);
            let out = loss::huber(&x, &y, Scalar::from(1f64)).map_err(into_backend)?;
            assert_eq!(out.dtype(), a);
        }
        let out = loss::binary_cross_entropy_with_logit(&empty(DType::F32)?, &empty(a)?);
        let out = out.map_err(into_backend)?;
        assert_eq!(out.dtype(), if a == DType::U32 { DType::F32 } else { a });
    }
    Ok(())
}
