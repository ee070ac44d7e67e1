use kernel_harness::compare::{Comparison, MatchPolicy};
use kernel_harness::driver::{Action, CandidateReport, Event, Stage, VerificationDriver};
use kernel_harness::error::{Buffer, HarnessError};
use kernel_harness::registry::{LinearCall, LinearKernel};
use kernel_harness::shape::WorkloadShape;

fn small_shape() -> WorkloadShape {
    WorkloadShape::new(2, 2, 2, 2).unwrap()
}

fn small_workload() -> Event {
    Event::Workload { inp: vec![1; 8], weight: vec![3; 4], bias: vec![4; 2] }
}

fn call_for(kernel: LinearKernel) -> LinearCall {
    LinearCall { kernel, batch: 2, seq_len: 2, channels: 2, out_channels: 2, tuning: 16 }
}

/// Steps a fresh driver up to the first call.
fn driver_at_first_call(candidates: Vec<i32>, policy: MatchPolicy) -> (VerificationDriver, Action) {
    let driver = VerificationDriver::new(small_shape(), candidates, 16, policy);
    let (driver, _) = driver.advance(small_workload());
    driver.advance(Event::Proceed)
}

#[test]
fn pass_over_three_candidates_runs_every_stage_in_order() {
    let driver = VerificationDriver::new(small_shape(), vec![1, 2, 3], 16, MatchPolicy::Exact);
    assert_eq!(driver.stage(), Stage::GenerateWorkload);
    assert!(driver.reports().is_empty());
    assert_eq!(driver.failure(), None);

    let (driver, action) = driver.advance(Event::Proceed);
    assert_eq!(action, Action::Generate { input_len: 8, weight_len: 4, bias_len: 2 });
    assert_eq!(driver.stage(), Stage::GenerateWorkload);

    let (driver, action) = driver.advance(small_workload());
    assert_eq!(action, Action::Proceed);
    assert_eq!(driver.stage(), Stage::ComputeReference);

    let (mut driver, mut action) = driver.advance(Event::Proceed);
    assert_eq!(driver.reference(), &vec![10i128; 8]);
    let kernels = [LinearKernel::Naive, LinearKernel::Tiled, LinearKernel::Library];
    for (done, kernel) in kernels.iter().enumerate() {
        assert_eq!(action, Action::Invoke(call_for(*kernel)));
        assert_eq!(driver.stage(), Stage::InvokeCandidate);
        assert_eq!(driver.reports().len(), done);

        let (next, next_action) = driver.advance(Event::KernelOutput(vec![10; 8]));
        assert_eq!(next_action, Action::Proceed);
        assert_eq!(next.stage(), Stage::Compare);

        let (next, next_action) = next.advance(Event::Proceed);
        driver = next;
        action = next_action;
    }
    assert_eq!(action, Action::Finished);
    assert_eq!(driver.stage(), Stage::Report);
    assert_eq!(driver.failure(), None);
    assert_eq!(
        driver.reports(),
        &vec![
            CandidateReport { kernel_id: 1, outcome: Comparison::Pass },
            CandidateReport { kernel_id: 2, outcome: Comparison::Pass },
            CandidateReport { kernel_id: 3, outcome: Comparison::Pass },
        ]
    );
}

#[test]
fn mismatch_is_a_finding_and_the_sweep_goes_on() {
    let (driver, action) = driver_at_first_call(vec![1, 2], MatchPolicy::Exact);
    assert_eq!(action, Action::Invoke(call_for(LinearKernel::Naive)));
    let mut wrong = vec![10i128; 8];
    wrong[5] = 12;
    let (driver, _) = driver.advance(Event::KernelOutput(wrong));
    let (driver, action) = driver.advance(Event::Proceed);
    assert_eq!(action, Action::Invoke(call_for(LinearKernel::Tiled)));
    assert_eq!(driver.failure(), None);
    let (driver, _) = driver.advance(Event::KernelOutput(vec![10; 8]));
    let (driver, action) = driver.advance(Event::Proceed);
    assert_eq!(action, Action::Finished);
    assert_eq!(driver.failure(), None);
    assert_eq!(
        driver.reports(),
        &vec![
            CandidateReport {
                kernel_id: 1,
                outcome: Comparison::Mismatch { index: 5, reference: 10, candidate: 12, difference: 2 },
            },
            CandidateReport { kernel_id: 2, outcome: Comparison::Pass },
        ]
    );
}

#[test]
fn unsupported_candidate_ends_the_pass_without_a_call() {
    let (driver, action) = driver_at_first_call(vec![7, 1], MatchPolicy::Exact);
    assert_eq!(action, Action::Finished);
    assert_eq!(driver.stage(), Stage::Report);
    assert_eq!(driver.failure(), Some(HarnessError::UnsupportedKernel));
    assert!(driver.reports().is_empty());
    assert_eq!(driver.reference(), &vec![10i128; 8]);

    // after a registered candidate, too
    let (driver, _) = driver_at_first_call(vec![1, 0, 2], MatchPolicy::Exact);
    let (driver, _) = driver.advance(Event::KernelOutput(vec![10; 8]));
    let (driver, action) = driver.advance(Event::Proceed);
    assert_eq!(action, Action::Finished);
    assert_eq!(driver.failure(), Some(HarnessError::UnsupportedKernel));
    assert_eq!(driver.reports(), &vec![CandidateReport { kernel_id: 1, outcome: Comparison::Pass }]);
}

#[test]
fn device_fault_ends_the_pass_with_its_code() {
    let (driver, _) = driver_at_first_call(vec![1, 2], MatchPolicy::Exact);
    let (driver, action) = driver.advance(Event::KernelFault(700));
    assert_eq!(action, Action::Finished);
    assert_eq!(driver.stage(), Stage::Report);
    assert_eq!(driver.failure(), Some(HarnessError::DeviceFault(700)));
    assert!(driver.reports().is_empty());
}

#[test]
fn workload_that_does_not_fit_ends_the_pass() {
    let driver = VerificationDriver::new(small_shape(), vec![1], 16, MatchPolicy::Exact);
    let (driver, action) =
        driver.advance(Event::Workload { inp: vec![1; 8], weight: vec![3; 5], bias: vec![4; 2] });
    assert_eq!(action, Action::Finished);
    assert_eq!(driver.stage(), Stage::Report);
    assert_eq!(driver.failure(), Some(HarnessError::LengthMismatch(Buffer::Weight)));
}

#[test]
fn candidate_output_of_the_wrong_length_ends_the_pass() {
    let (driver, _) = driver_at_first_call(vec![1, 2], MatchPolicy::Exact);
    let (driver, action) = driver.advance(Event::KernelOutput(vec![10; 7]));
    assert_eq!(action, Action::Proceed);
    let (driver, action) = driver.advance(Event::Proceed);
    assert_eq!(action, Action::Finished);
    assert_eq!(driver.failure(), Some(HarnessError::LengthMismatch(Buffer::Output)));
    assert!(driver.reports().is_empty());
}

#[test]
fn events_out_of_turn_end_the_pass() {
    let driver = VerificationDriver::new(small_shape(), vec![1], 16, MatchPolicy::Exact);
    let (driver, action) = driver.advance(Event::KernelOutput(vec![10; 8]));
    assert_eq!(action, Action::Finished);
    assert_eq!(driver.failure(), Some(HarnessError::OutOfOrder));

    let driver = VerificationDriver::new(small_shape(), vec![1], 16, MatchPolicy::Exact);
    let (driver, _) = driver.advance(small_workload());
    let (driver, action) = driver.advance(small_workload());
    assert_eq!(action, Action::Finished);
    assert_eq!(driver.failure(), Some(HarnessError::OutOfOrder));

    let (driver, _) = driver_at_first_call(vec![1], MatchPolicy::Exact);
    let (driver, action) = driver.advance(Event::Proceed);
    assert_eq!(action, Action::Finished);
    assert_eq!(driver.failure(), Some(HarnessError::OutOfOrder));

    let (driver, _) = driver_at_first_call(vec![1], MatchPolicy::Exact);
    let (driver, _) = driver.advance(Event::KernelOutput(vec![10; 8]));
    let (driver, action) = driver.advance(Event::KernelFault(1));
    assert_eq!(action, Action::Finished);
    assert_eq!(driver.failure(), Some(HarnessError::OutOfOrder));
}

#[test]
fn report_stage_is_terminal() {
    let (driver, _) = driver_at_first_call(vec![], MatchPolicy::Exact);
    assert_eq!(driver.stage(), Stage::Report);
    assert_eq!(driver.failure(), None);
    let (driver, action) = driver.advance(Event::KernelOutput(vec![1, 2, 3]));
    assert_eq!(action, Action::Finished);
    let (driver, action) = driver.advance(small_workload());
    assert_eq!(action, Action::Finished);
    let (driver, action) = driver.advance(Event::Proceed);
    assert_eq!(action, Action::Finished);
    assert_eq!(driver.stage(), Stage::Report);
    assert_eq!(driver.failure(), None);
    assert!(driver.reports().is_empty());
}

#[test]
fn tolerant_policy_accepts_rounded_device_output() {
    let shape = WorkloadShape::new(1, 1, 4, 1).unwrap();
    let driver = VerificationDriver::new(shape, vec![3], 8, MatchPolicy::Tolerant);
    let (driver, _) =
        driver.advance(Event::Workload { inp: vec![1000; 4], weight: vec![500; 4], bias: vec![] });
    let (driver, action) = driver.advance(Event::Proceed);
    assert_eq!(
        action,
        Action::Invoke(LinearCall {
            kernel: LinearKernel::Library,
            batch: 1,
            seq_len: 1,
            channels: 4,
            out_channels: 1,
            tuning: 8
        })
    );
    assert_eq!(driver.reference(), &vec![2_000_000i128]);
    let (driver, _) = driver.advance(Event::KernelOutput(vec![2_001_999]));
    let (driver, action) = driver.advance(Event::Proceed);
    assert_eq!(action, Action::Finished);
    assert_eq!(driver.reports(), &vec![CandidateReport { kernel_id: 3, outcome: Comparison::Pass }]);
}
