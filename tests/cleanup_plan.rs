use sensor_retention::batch::{delete_keys_of, plan_batches, DeleteKey, RecordKey};
use sensor_retention::cleanup::{
    plan_cleanup, retention_limit, CleanupReport, ConfigError, DELETE_BATCH_LIMIT,
};
use sensor_retention::retention::trim;

fn key(ts: u64) -> RecordKey<String> {
    RecordKey { sensor_id: Some("sensor-1".to_string()), timestamp: Some(ts.to_string()) }
}

/// `n` readings, most recent first: timestamps n, n-1, ..., 1.
fn readings(n: u64) -> Vec<RecordKey<String>> {
    (1..=n).rev().map(key).collect()
}

fn timestamps(batch: &[DeleteKey<String>]) -> Vec<String> {
    batch.iter().map(|k| k.timestamp.clone()).collect()
}

#[test]
fn trim_returns_tail_past_limit() {
    let mut s: Vec<u32> = vec![50, 40, 30, 20, 10];
    let removed = trim(&mut s, 2);
    assert_eq!(removed, vec![30, 20, 10]);
    assert_eq!(s, vec![50, 40]);
}

#[test]
fn trim_within_limit_removes_nothing() {
    let mut s: Vec<u32> = vec![3, 2, 1];
    assert!(trim(&mut s, 3).is_empty());
    assert!(trim(&mut s, 10).is_empty());
    assert_eq!(s, vec![3, 2, 1]);
}

#[test]
fn trim_to_zero_removes_everything() {
    let mut s: Vec<u32> = vec![3, 2, 1];
    assert_eq!(trim(&mut s, 0), vec![3, 2, 1]);
    assert!(s.is_empty());
}

#[test]
fn trim_empty_sequence() {
    let mut s: Vec<u32> = Vec::new();
    assert!(trim(&mut s, 0).is_empty());
}

#[test]
fn cleanup_of_130_over_100() {
    let plan = plan_cleanup(readings(130), 100, DELETE_BATCH_LIMIT);
    assert_eq!(plan.batches.len(), 2);
    assert_eq!(plan.batches[0].len(), 25);
    assert_eq!(plan.batches[1].len(), 5);
    // The oldest 30 readings (timestamps 30 down to 1) are deleted.
    let first = timestamps(&plan.batches[0]);
    assert_eq!(first[0], "30");
    assert_eq!(timestamps(&plan.batches[1]), vec!["5", "4", "3", "2", "1"]);
    assert_eq!(plan.report.found, 130);
    assert_eq!(plan.report.deleted, 30);
    assert_eq!(plan.report.remaining, 100);
    assert_eq!(
        plan.report.message(),
        "Cleanup complete. Deleted 30 old readings. 100 readings remain."
    );
}

#[test]
fn cleanup_of_80_under_100() {
    let plan = plan_cleanup(readings(80), 100, DELETE_BATCH_LIMIT);
    assert!(plan.batches.is_empty());
    assert_eq!(plan.report.deleted, 0);
    assert_eq!(plan.report.remaining, 80);
    assert_eq!(plan.report.message(), "No cleanup needed. Current count: 80");
}

#[test]
fn cleanup_of_exactly_100() {
    let plan = plan_cleanup(readings(100), 100, DELETE_BATCH_LIMIT);
    assert!(plan.batches.is_empty());
    assert_eq!(plan.report.deleted, 0);
    assert_eq!(plan.report.message(), "No cleanup needed. Current count: 100");
}

#[test]
fn cleanup_of_nothing() {
    let plan = plan_cleanup(Vec::<RecordKey<String>>::new(), 0, DELETE_BATCH_LIMIT);
    assert!(plan.batches.is_empty());
    assert_eq!(plan.report.message(), "No cleanup needed. Current count: 0");
}

#[test]
fn second_run_finds_nothing_to_delete() {
    let mut all = readings(130);
    trim(&mut all, 100);
    let again = plan_cleanup(all, 100, DELETE_BATCH_LIMIT);
    assert!(again.batches.is_empty());
    assert_eq!(again.report.deleted, 0);
    assert_eq!(again.report.message(), "No cleanup needed. Current count: 100");
}

#[test]
fn batches_number_ceil_of_surplus_over_bound() {
    for (k, bound, expected) in [(0u64, 25usize, 0usize), (1, 25, 1), (25, 25, 1), (26, 25, 2), (51, 25, 3), (7, 1, 7), (7, 3, 3)] {
        let batches = plan_batches(readings(k), bound);
        assert_eq!(batches.len(), expected, "surplus {} bound {}", k, bound);
        let all: Vec<String> = batches.iter().flat_map(|b| timestamps(b)).collect();
        let want: Vec<String> = (1..=k).rev().map(|t| t.to_string()).collect();
        assert_eq!(all, want);
        assert!(batches.iter().all(|b| !b.is_empty() && b.len() <= bound));
    }
}

#[test]
fn malformed_keys_are_left_out() {
    let mut s = readings(6);
    s[1].timestamp = None;
    s[4].sensor_id = None;
    let batches = plan_batches(s, 4);
    assert_eq!(batches.len(), 2);
    assert_eq!(timestamps(&batches[0]), vec!["6", "4", "3"]);
    assert_eq!(timestamps(&batches[1]), vec!["1"]);
}

#[test]
fn chunk_without_complete_keys_makes_no_batch() {
    let mut s = readings(5);
    s[0].timestamp = None;
    s[1].sensor_id = None;
    let batches = plan_batches(s, 2);
    assert_eq!(batches.len(), 2);
    assert_eq!(timestamps(&batches[0]), vec!["3", "2"]);
    assert_eq!(timestamps(&batches[1]), vec!["1"]);
}

#[test]
fn malformed_surplus_still_counts_in_report() {
    let mut s = readings(103);
    s[101].timestamp = None;
    let plan = plan_cleanup(s, 100, DELETE_BATCH_LIMIT);
    assert_eq!(plan.batches.len(), 1);
    assert_eq!(timestamps(&plan.batches[0]), vec!["3", "1"]);
    assert_eq!(plan.report.deleted, 3);
}

#[test]
fn delete_keys_keep_both_halves() {
    let keys = delete_keys_of(vec![
        RecordKey { sensor_id: Some(7u32), timestamp: Some(1000u32) },
        RecordKey { sensor_id: None, timestamp: Some(999) },
    ]);
    assert_eq!(keys.len(), 1);
    assert_eq!(keys[0].sensor_id, 7);
    assert_eq!(keys[0].timestamp, 1000);
}

#[test]
fn report_text_for_counts() {
    assert_eq!(
        CleanupReport::new(1234567, 1000).message(),
        "Cleanup complete. Deleted 1233567 old readings. 1000 readings remain."
    );
    assert_eq!(CleanupReport::new(9, 10).message(), "No cleanup needed. Current count: 9");
    let r = CleanupReport::new(10, 0);
    assert_eq!((r.found, r.deleted, r.remaining), (10, 10, 0));
    assert_eq!(r.message(), "Cleanup complete. Deleted 10 old readings. 0 readings remain.");
}

#[test]
fn retention_limit_from_text() {
    assert_eq!(retention_limit("100"), Ok(100));
    assert_eq!(retention_limit("+7"), Ok(7));
    assert_eq!(retention_limit("0"), Ok(0));
    assert_eq!(retention_limit("2147483647"), Ok(2147483647));
    assert_eq!(retention_limit("2147483648"), Err(ConfigError::NotANumber));
    assert_eq!(retention_limit("-5"), Err(ConfigError::Negative));
    assert_eq!(retention_limit(""), Err(ConfigError::NotANumber));
    assert_eq!(retention_limit("ten"), Err(ConfigError::NotANumber));
    assert_eq!(retention_limit(" 10"), Err(ConfigError::NotANumber));
    assert_eq!(retention_limit("-"), Err(ConfigError::NotANumber));
}
