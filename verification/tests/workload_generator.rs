use kernel_harness::error::HarnessError;
use kernel_harness::generator::{make_random_signed, make_random_unit};
use rand::rngs::StdRng;
use rand::SeedableRng;

#[test]
fn signed_buffer_lies_in_the_closed_interval() {
    let mut rng = StdRng::seed_from_u64(7);
    let values = make_random_signed(&mut rng, 10_000, 1000).unwrap();
    assert_eq!(values.len(), 10_000);
    assert!(values.iter().all(|v| -1000 <= *v && *v <= 1000));
    assert!(values.iter().any(|v| *v < 0));
    assert!(values.iter().any(|v| *v > 0));
    let tiny = make_random_signed(&mut rng, 1000, 1).unwrap();
    assert!(tiny.iter().all(|v| -1 <= *v && *v <= 1));
    assert!(tiny.contains(&-1) && tiny.contains(&0) && tiny.contains(&1));
}

#[test]
fn unit_buffer_lies_in_the_half_open_interval() {
    let mut rng = StdRng::seed_from_u64(11);
    let values = make_random_unit(&mut rng, 10_000, 1000).unwrap();
    assert_eq!(values.len(), 10_000);
    assert!(values.iter().all(|v| 0 <= *v && *v < 1000));
    assert!(values.iter().any(|v| *v != values[0]));
    let zeros = make_random_unit(&mut rng, 50, 1).unwrap();
    assert_eq!(zeros, vec![0; 50]);
}

#[test]
fn same_seed_gives_the_same_workload() {
    let mut first = StdRng::seed_from_u64(42);
    let mut second = StdRng::seed_from_u64(42);
    let a = make_random_signed(&mut first, 256, 1 << 20).unwrap();
    let b = make_random_signed(&mut second, 256, 1 << 20).unwrap();
    assert_eq!(a, b);
    // one generator threaded through successive buffers keeps advancing
    let c = make_random_signed(&mut first, 256, 1 << 20).unwrap();
    assert_ne!(a, c);
}

#[test]
fn empty_buffer_and_refused_amplitude() {
    let mut rng = StdRng::seed_from_u64(1);
    assert_eq!(make_random_signed(&mut rng, 0, 10), Ok(Vec::new()));
    assert_eq!(make_random_unit(&mut rng, 0, 10), Ok(Vec::new()));
    assert_eq!(make_random_signed(&mut rng, 4, 0), Err(HarnessError::OutOfRange));
    assert_eq!(make_random_unit(&mut rng, 4, 0), Err(HarnessError::OutOfRange));
    assert_eq!(make_random_signed(&mut rng, 4, -3), Err(HarnessError::OutOfRange));
    assert_eq!(make_random_signed(&mut rng, 4, i32::MAX).map(|v| v.len()), Ok(4));
}
