use kernel_harness::error::{Buffer, HarnessError};
use kernel_harness::optimizer::{
    check_optimizer_buffers, plan_optimizer_step, OptimizerCall, OptimizerKernel, OptimizerSession,
};

const N: usize = 1048576;

#[test]
fn optimizer_family_has_two_variants() {
    assert_eq!(OptimizerKernel::from_id(1), Ok(OptimizerKernel::Naive));
    assert_eq!(OptimizerKernel::from_id(2), Ok(OptimizerKernel::Fused));
    for id in [0, 3, -1, i32::MAX, i32::MIN] {
        assert_eq!(OptimizerKernel::from_id(id), Err(HarnessError::UnsupportedKernel));
    }
    assert_eq!(OptimizerKernel::Naive.id(), 1);
    assert_eq!(OptimizerKernel::Fused.id(), 2);
    for kernel in [OptimizerKernel::Naive, OptimizerKernel::Fused] {
        assert_eq!(OptimizerKernel::from_id(kernel.id()), Ok(kernel));
    }
}

#[test]
fn plan_carries_step_and_count() {
    assert_eq!(
        plan_optimizer_step(1, N, N, N, N, 10, N),
        Ok(OptimizerCall { kernel: OptimizerKernel::Naive, step: 10, num_parameters: 1048576 })
    );
    assert_eq!(
        plan_optimizer_step(2, N, N, N, N, 1, N),
        Ok(OptimizerCall { kernel: OptimizerKernel::Fused, step: 1, num_parameters: 1048576 })
    );
}

#[test]
fn plan_refusals_come_in_order() {
    assert_eq!(plan_optimizer_step(3, 0, 0, 0, 0, 0, 0), Err(HarnessError::UnsupportedKernel));
    assert_eq!(plan_optimizer_step(1, 0, 0, 0, 0, 0, 0), Err(HarnessError::EmptyDimension));
    assert_eq!(
        plan_optimizer_step(1, 3, 4, 4, 4, 0, 4),
        Err(HarnessError::LengthMismatch(Buffer::Params))
    );
    assert_eq!(
        plan_optimizer_step(1, 4, 3, 3, 3, 0, 4),
        Err(HarnessError::LengthMismatch(Buffer::Grads))
    );
    assert_eq!(
        plan_optimizer_step(1, 4, 4, 5, 3, 0, 4),
        Err(HarnessError::LengthMismatch(Buffer::FirstMoment))
    );
    assert_eq!(
        plan_optimizer_step(1, 4, 4, 4, 3, 0, 4),
        Err(HarnessError::LengthMismatch(Buffer::SecondMoment))
    );
    assert_eq!(plan_optimizer_step(1, 4, 4, 4, 4, 0, 4), Err(HarnessError::InvalidStep));
    assert_eq!(plan_optimizer_step(1, 4, 4, 4, 4, -1, 4), Err(HarnessError::InvalidStep));
    let huge = usize::MAX;
    assert_eq!(
        plan_optimizer_step(1, huge, huge, huge, huge, 1, huge),
        Err(HarnessError::DimensionTooLarge)
    );
    assert_eq!(check_optimizer_buffers(4, 4, 4, 4, 4), Ok(()));
    assert_eq!(check_optimizer_buffers(0, 0, 0, 0, 0), Err(HarnessError::EmptyDimension));
}

#[test]
fn session_counts_steps_from_one() {
    let mut session = OptimizerSession::new(N);
    assert_eq!(session.issued(), 0);
    assert_eq!(session.num_parameters(), N);
    for t in 1..=5 {
        let kernel_id = if t % 2 == 1 { 1 } else { 2 };
        let call = session.next_call(kernel_id, N, N, N, N).unwrap();
        assert_eq!(call.step, t);
        assert_eq!(call.num_parameters, 1048576);
        assert_eq!(call.kernel.id(), kernel_id);
        assert_eq!(session.issued(), t);
    }
}

#[test]
fn refused_call_does_not_advance_the_step() {
    let mut session = OptimizerSession::new(4);
    assert_eq!(session.next_call(1, 4, 4, 4, 4).map(|c| c.step), Ok(1));
    assert_eq!(session.next_call(9, 4, 4, 4, 4), Err(HarnessError::UnsupportedKernel));
    assert_eq!(session.issued(), 1);
    assert_eq!(
        session.next_call(1, 4, 4, 4, 5),
        Err(HarnessError::LengthMismatch(Buffer::SecondMoment))
    );
    assert_eq!(session.issued(), 1);
    assert_eq!(session.next_call(2, 4, 4, 4, 4).map(|c| c.step), Ok(2));
    assert_eq!(session.issued(), 2);
    let mut empty = OptimizerSession::new(0);
    assert_eq!(empty.next_call(1, 0, 0, 0, 0), Err(HarnessError::EmptyDimension));
    assert_eq!(empty.issued(), 0);
}
