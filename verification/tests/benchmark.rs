use kernel_harness::bench::{BenchAction, BenchmarkDriver};
use kernel_harness::error::{Buffer, HarnessError};
use kernel_harness::registry::{LinearCall, LinearKernel};
use kernel_harness::shape::WorkloadShape;
use kernel_harness::stats::{sorted_samples, summarize, within_order_of_magnitude, TimingStats};

fn small_run(kernel_id: i32, iterations: usize, warmup: bool) -> Result<BenchmarkDriver, HarnessError> {
    let shape = WorkloadShape::new(2, 2, 2, 2).unwrap();
    BenchmarkDriver::new(kernel_id, 8, 8, 4, 2, &shape, 16, iterations, warmup)
}

fn small_call(kernel: LinearKernel) -> LinearCall {
    LinearCall { kernel, batch: 2, seq_len: 2, channels: 2, out_channels: 2, tuning: 16 }
}

#[test]
fn warmup_is_run_once_and_not_timed() {
    let mut run = small_run(1, 3, true).unwrap();
    assert_eq!(run.next_action(), BenchAction::Warmup(small_call(LinearKernel::Naive)));
    assert_eq!(run.summary(), None);
    run = run.record(9_000_000);
    assert!(run.samples().is_empty());
    for (done, elapsed) in [120u64, 100, 110].iter().enumerate() {
        assert_eq!(run.next_action(), BenchAction::Timed(small_call(LinearKernel::Naive)));
        assert_eq!(run.samples().len(), done);
        run = run.record(*elapsed);
    }
    assert_eq!(run.next_action(), BenchAction::Finished);
    assert_eq!(run.samples(), &vec![120u64, 100, 110]);
    assert_eq!(
        run.summary(),
        Some(TimingStats { count: 3, min: 100, max: 120, mean: 110, median: 110 })
    );
}

#[test]
fn run_without_warmup_times_from_the_first_invocation() {
    let mut run = small_run(3, 2, false).unwrap();
    assert_eq!(run.next_action(), BenchAction::Timed(small_call(LinearKernel::Library)));
    run = run.record(5);
    run = run.record(7);
    assert_eq!(run.next_action(), BenchAction::Finished);
    // a finished run takes no more samples
    run = run.record(1000);
    assert_eq!(run.samples(), &vec![5u64, 7]);
    assert_eq!(run.next_action(), BenchAction::Finished);
}

#[test]
fn run_of_zero_iterations_is_finished_after_the_warmup() {
    let run = small_run(2, 0, true).unwrap();
    assert_eq!(run.next_action(), BenchAction::Warmup(small_call(LinearKernel::Tiled)));
    let run = run.record(3);
    assert_eq!(run.next_action(), BenchAction::Finished);
    assert_eq!(run.summary(), None);
    let run = small_run(2, 0, false).unwrap();
    assert_eq!(run.next_action(), BenchAction::Finished);
}

#[test]
fn benchmark_refuses_what_dispatch_refuses() {
    assert_eq!(small_run(0, 10, true).err(), Some(HarnessError::UnsupportedKernel));
    assert_eq!(small_run(4, 10, false).err(), Some(HarnessError::UnsupportedKernel));
    let shape = WorkloadShape::new(2, 2, 2, 2).unwrap();
    assert_eq!(
        BenchmarkDriver::new(1, 8, 8, 4, 3, &shape, 16, 10, true).err(),
        Some(HarnessError::LengthMismatch(Buffer::Bias))
    );
    assert_eq!(
        BenchmarkDriver::new(1, 8, 8, 4, 2, &shape, usize::MAX, 10, true).err(),
        Some(HarnessError::DimensionTooLarge)
    );
}

#[test]
fn statistics_of_a_run() {
    assert_eq!(summarize(&[]), None);
    assert_eq!(summarize(&[42]), Some(TimingStats { count: 1, min: 42, max: 42, mean: 42, median: 42 }));
    assert_eq!(
        summarize(&[5, 1, 4, 2]),
        Some(TimingStats { count: 4, min: 1, max: 5, mean: 3, median: 3 })
    );
    assert_eq!(
        summarize(&[9, 1, 2, 3, 100]),
        Some(TimingStats { count: 5, min: 1, max: 100, mean: 23, median: 3 })
    );
    // the mean and the even median round down
    assert_eq!(
        summarize(&[1, 2]),
        Some(TimingStats { count: 2, min: 1, max: 2, mean: 1, median: 1 })
    );
    // sums beyond 64 bits
    assert_eq!(
        summarize(&[u64::MAX, u64::MAX, u64::MAX - 3]),
        Some(TimingStats {
            count: 3,
            min: u64::MAX - 3,
            max: u64::MAX,
            mean: u64::MAX - 1,
            median: u64::MAX
        })
    );
}

#[test]
fn sorted_samples_are_ascending_and_complete() {
    assert_eq!(sorted_samples(&[]), Vec::<u64>::new());
    assert_eq!(sorted_samples(&[3, 1, 2]), vec![1, 2, 3]);
    assert_eq!(sorted_samples(&[5, 5, 1, 5, 0, 1]), vec![0, 1, 1, 5, 5, 5]);
    assert_eq!(sorted_samples(&[1, 2, 3, 4]), vec![1, 2, 3, 4]);
    assert_eq!(sorted_samples(&[4, 3, 2, 1]), vec![1, 2, 3, 4]);
}

#[test]
fn samples_within_an_order_of_magnitude() {
    assert!(within_order_of_magnitude(&[]));
    assert!(within_order_of_magnitude(&[0]));
    assert!(within_order_of_magnitude(&[100, 120, 110, 1000]));
    assert!(!within_order_of_magnitude(&[100, 120, 110, 1001]));
    assert!(!within_order_of_magnitude(&[0, 1]));
    assert!(within_order_of_magnitude(&[0, 0]));
    assert!(within_order_of_magnitude(&[u64::MAX, u64::MAX / 10 + 1]));
    assert!(!within_order_of_magnitude(&[u64::MAX, u64::MAX / 10]));
}
