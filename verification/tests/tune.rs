use fusion_core::device::DeviceId;
use fusion_core::error::FusionError;
use fusion_core::tune::{select_fastest, AutotuneCache, AutotuneKey};

#[test]
fn the_smallest_latency_wins() {
    assert_eq!(select_fastest(&vec![Some(30), Some(10), Some(20)]), Some(1));
    assert_eq!(select_fastest(&vec![Some(5), Some(10), Some(20)]), Some(0));
    assert_eq!(select_fastest(&vec![Some(30), Some(10), Some(9)]), Some(2));
    assert_eq!(select_fastest(&vec![Some(u64::MAX), Some(0)]), Some(1));
}

#[test]
fn equal_latencies_go_to_the_candidate_declared_first() {
    assert_eq!(select_fastest(&vec![Some(10), Some(10), Some(10)]), Some(0));
    assert_eq!(select_fastest(&vec![Some(20), Some(10), Some(10)]), Some(1));
    assert_eq!(select_fastest(&vec![Some(0), Some(0)]), Some(0));
}

#[test]
fn failed_measurements_are_passed_over() {
    assert_eq!(select_fastest(&vec![None, Some(5), None]), Some(1));
    assert_eq!(select_fastest(&vec![None, None, Some(u64::MAX)]), Some(2));
    assert_eq!(select_fastest(&vec![Some(7), None, None]), Some(0));
}

#[test]
fn no_winner_without_a_measurement() {
    assert_eq!(select_fastest(&vec![None, None, None]), None);
    assert_eq!(select_fastest(&vec![]), None);
}

#[test]
fn a_decision_is_written_once() {
    let device = DeviceId::new(0, 0);
    let mut cache = AutotuneCache::new();
    assert_eq!(cache.lookup(&device, &AutotuneKey::new(3, &[128, 128])), None);
    assert_eq!(cache.record(device, AutotuneKey::new(3, &[128, 128]), 1), 1);
    assert_eq!(cache.lookup(&device, &AutotuneKey::new(3, &[128, 128])), Some(1));
    assert_eq!(cache.record(device, AutotuneKey::new(3, &[128, 128]), 2), 1);
    assert_eq!(cache.record(device, AutotuneKey::new(3, &[128, 128]), 0), 1);
    assert_eq!(cache.lookup(&device, &AutotuneKey::new(3, &[128, 128])), Some(1));
}

#[test]
fn decisions_are_kept_apart_by_device_count_and_shape() {
    let first = DeviceId::new(0, 0);
    let second = DeviceId::new(0, 1);
    let family = DeviceId::new(1, 0);
    let mut cache = AutotuneCache::new();
    assert_eq!(cache.record(first, AutotuneKey::new(3, &[128, 128]), 1), 1);
    assert_eq!(cache.lookup(&second, &AutotuneKey::new(3, &[128, 128])), None);
    assert_eq!(cache.lookup(&family, &AutotuneKey::new(3, &[128, 128])), None);
    assert_eq!(cache.lookup(&first, &AutotuneKey::new(4, &[128, 128])), None);
    assert_eq!(cache.lookup(&first, &AutotuneKey::new(3, &[128])), None);
    assert_eq!(cache.lookup(&first, &AutotuneKey::new(3, &[128, 64])), None);
    assert_eq!(cache.lookup(&first, &AutotuneKey::new(3, &[])), None);
    assert_eq!(cache.record(second, AutotuneKey::new(3, &[128, 128]), 2), 2);
    assert_eq!(cache.record(first, AutotuneKey::new(3, &[]), 0), 0);
    assert_eq!(cache.lookup(&first, &AutotuneKey::new(3, &[128, 128])), Some(1));
    assert_eq!(cache.lookup(&second, &AutotuneKey::new(3, &[128, 128])), Some(2));
    assert_eq!(cache.lookup(&first, &AutotuneKey::new(3, &[])), Some(0));
}

#[test]
fn a_key_is_its_count_and_shape() {
    let key = AutotuneKey::new(2, &[4, 5]);
    assert_eq!(key.num_operations(), 2);
    assert_eq!(key.shape(), &vec![4, 5]);
    assert!(key.matches(&AutotuneKey::new(2, &[4, 5])));
    assert!(key.matches(&key.clone()));
    assert!(!key.matches(&AutotuneKey::new(2, &[5, 4])));
    assert!(!key.matches(&AutotuneKey::new(1, &[4, 5])));
    let degenerate = AutotuneKey::new(0, &[]);
    assert!(degenerate.shape().is_empty());
    assert!(degenerate.matches(&AutotuneKey::new(0, &[])));
}

#[test]
fn a_trial_fails_exactly_when_nothing_was_measured() {
    let device = DeviceId::new(0, 0);
    let mut cache = AutotuneCache::new();
    let verdict = cache.conclude_trial(device, AutotuneKey::new(2, &[8]), &vec![None, None, None]);
    assert_eq!(verdict, Err(FusionError::BenchmarkFailed));
    assert_eq!(cache.lookup(&device, &AutotuneKey::new(2, &[8])), None);
    let verdict =
        cache.conclude_trial(device, AutotuneKey::new(2, &[8]), &vec![None, None, Some(9)]);
    assert_eq!(verdict, Ok(2));
    assert_eq!(cache.lookup(&device, &AutotuneKey::new(2, &[8])), Some(2));
}

#[test]
fn a_trial_keeps_a_decision_already_held_and_reports_a_corrupt_one() {
    let device = DeviceId::new(0, 0);
    let mut cache = AutotuneCache::new();
    assert_eq!(cache.record(device, AutotuneKey::new(2, &[8]), 1), 1);
    let verdict =
        cache.conclude_trial(device, AutotuneKey::new(2, &[8]), &vec![Some(1), Some(5), Some(5)]);
    assert_eq!(verdict, Ok(1));
    assert_eq!(cache.record(device, AutotuneKey::new(3, &[8]), 3), 3);
    let verdict =
        cache.conclude_trial(device, AutotuneKey::new(3, &[8]), &vec![Some(1), Some(5), Some(5)]);
    assert_eq!(verdict, Err(FusionError::CorruptCache(3)));
    let verdict = cache.conclude_trial(device, AutotuneKey::new(3, &[8]), &vec![None, None, None]);
    assert_eq!(verdict, Err(FusionError::BenchmarkFailed));
    assert_eq!(cache.lookup(&device, &AutotuneKey::new(3, &[8])), Some(3));
}
