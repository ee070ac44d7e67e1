use kernel_harness::error::{Buffer, HarnessError};
use kernel_harness::marshal::{device_int, device_long};
use kernel_harness::registry::{plan_linear_forward, LinearCall, LinearKernel};
use kernel_harness::shape::WorkloadShape;

#[test]
fn linear_family_has_three_variants() {
    assert_eq!(LinearKernel::from_id(1), Ok(LinearKernel::Naive));
    assert_eq!(LinearKernel::from_id(2), Ok(LinearKernel::Tiled));
    assert_eq!(LinearKernel::from_id(3), Ok(LinearKernel::Library));
    for id in [0, 4, -1, 100, i32::MIN, i32::MAX] {
        assert_eq!(LinearKernel::from_id(id), Err(HarnessError::UnsupportedKernel));
    }
}

#[test]
fn linear_identifiers_round_trip() {
    for kernel in [LinearKernel::Naive, LinearKernel::Tiled, LinearKernel::Library] {
        assert_eq!(LinearKernel::from_id(kernel.id()), Ok(kernel));
    }
    for id in 1..=3 {
        assert_eq!(LinearKernel::from_id(id).unwrap().id(), id);
    }
}

#[test]
fn plan_carries_the_shape_as_device_integers() {
    let shape = WorkloadShape::new(8, 1024, 768, 3072).unwrap();
    let plan = plan_linear_forward(
        2,
        shape.output_len(),
        shape.input_len(),
        shape.weight_len(),
        shape.bias_len(),
        &shape,
        16,
    );
    assert_eq!(
        plan,
        Ok(LinearCall {
            kernel: LinearKernel::Tiled,
            batch: 8,
            seq_len: 1024,
            channels: 768,
            out_channels: 3072,
            tuning: 16,
        })
    );
}

#[test]
fn plan_accepts_an_absent_bias() {
    let shape = WorkloadShape::new(2, 2, 2, 2).unwrap();
    let plan = plan_linear_forward(1, 8, 8, 4, 0, &shape, 4).unwrap();
    assert_eq!(plan.kernel, LinearKernel::Naive);
    assert_eq!((plan.batch, plan.seq_len, plan.channels, plan.out_channels, plan.tuning), (2, 2, 2, 2, 4));
}

#[test]
fn unsupported_kernel_is_refused_before_anything_else() {
    let shape = WorkloadShape::new(2, 2, 2, 2).unwrap();
    assert_eq!(plan_linear_forward(0, 8, 8, 4, 2, &shape, 16), Err(HarnessError::UnsupportedKernel));
    assert_eq!(plan_linear_forward(4, 8, 8, 4, 2, &shape, 16), Err(HarnessError::UnsupportedKernel));
    // the identifier is looked at before the buffers and the sizes
    assert_eq!(plan_linear_forward(7, 1, 1, 1, 1, &shape, usize::MAX), Err(HarnessError::UnsupportedKernel));
}

#[test]
fn plan_refuses_mismatched_buffers() {
    let shape = WorkloadShape::new(2, 2, 2, 2).unwrap();
    assert_eq!(
        plan_linear_forward(1, 8, 7, 4, 2, &shape, 16),
        Err(HarnessError::LengthMismatch(Buffer::Input))
    );
    assert_eq!(
        plan_linear_forward(1, 8, 8, 5, 2, &shape, 16),
        Err(HarnessError::LengthMismatch(Buffer::Weight))
    );
    assert_eq!(
        plan_linear_forward(1, 8, 8, 4, 1, &shape, 16),
        Err(HarnessError::LengthMismatch(Buffer::Bias))
    );
    assert_eq!(
        plan_linear_forward(1, 9, 8, 4, 2, &shape, 16),
        Err(HarnessError::LengthMismatch(Buffer::Output))
    );
    // buffers are looked at before the sizes
    assert_eq!(
        plan_linear_forward(1, 9, 8, 4, 2, &shape, usize::MAX),
        Err(HarnessError::LengthMismatch(Buffer::Output))
    );
}

#[test]
fn plan_refuses_sizes_beyond_the_device_integer() {
    let shape = WorkloadShape::new(2, 2, 2, 2).unwrap();
    assert_eq!(
        plan_linear_forward(1, 8, 8, 4, 2, &shape, i32::MAX as usize + 1),
        Err(HarnessError::DimensionTooLarge)
    );
    assert!(plan_linear_forward(1, 8, 8, 4, 2, &shape, i32::MAX as usize).is_ok());
    let wide = i32::MAX as usize + 1;
    let shape = WorkloadShape::new(wide, 1, 1, 1).unwrap();
    assert_eq!(
        plan_linear_forward(1, wide, wide, 1, 1, &shape, 16),
        Err(HarnessError::DimensionTooLarge)
    );
}

#[test]
fn device_integers_keep_the_value() {
    assert_eq!(device_int(0), Ok(0));
    assert_eq!(device_int(16), Ok(16));
    assert_eq!(device_int(i32::MAX as usize), Ok(i32::MAX));
    assert_eq!(device_int(i32::MAX as usize + 1), Err(HarnessError::DimensionTooLarge));
    assert_eq!(device_int(usize::MAX), Err(HarnessError::DimensionTooLarge));
    assert_eq!(device_long(0), Ok(0));
    assert_eq!(device_long(1048576), Ok(1048576));
    assert_eq!(device_long(1usize << 40), Ok(1i64 << 40));
    assert_eq!(device_long(i64::MAX as usize), Ok(i64::MAX));
    assert_eq!(device_long(usize::MAX), Err(HarnessError::DimensionTooLarge));
}
