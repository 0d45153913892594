use stream_stats::labels::event_labels;
use stream_stats::labels::event_labels_date;
use stream_stats::labels::storage_size_labels;
use stream_stats::labels::storage_size_labels_date;
use stream_stats::stats::StreamMetrics;

fn manager() -> StreamMetrics {
    StreamMetrics::new().expect("registry accepts the family descriptors")
}

#[test]
fn label_tuples_keep_their_fixed_order() {
    assert_eq!(event_labels("app-logs", "json"), ["app-logs", "json"]);
    assert_eq!(storage_size_labels("app-logs"), ["data", "app-logs", "parquet"]);
    assert_eq!(
        event_labels_date("app-logs", "json", "2024-01-01"),
        ["app-logs", "json", "2024-01-01"]
    );
    assert_eq!(
        storage_size_labels_date("app-logs", "2024-01-01"),
        ["data", "app-logs", "parquet", "2024-01-01"]
    );
}

#[test]
fn ingest_scenario_counts_events_and_bytes() {
    let mut m = manager();
    m.record_ingest("app-logs", "json", "2024-01-01", 100);
    m.record_ingest("app-logs", "json", "2024-01-01", 200);
    m.record_ingest("app-logs", "json", "2024-01-01", 50);
    let stats = m.get_current_stats("app-logs", "json").expect("stream is live");
    assert_eq!(stats.lifetime_stats.events, 3);
    assert_eq!(stats.lifetime_stats.ingestion, 350);
    assert_eq!(stats.current_stats.events, 3);
    assert_eq!(stats.current_stats.ingestion, 350);
    assert_eq!(stats.deleted_stats.events, 0);

    let drift = m.record_deletion("app-logs", "json", 1, 100);
    assert!(drift.is_none() || drift.unwrap().storage_clamped);
    let after = m.get_current_stats("app-logs", "json").expect("still live");
    assert_eq!(after.current_stats.events, 2);
    assert_eq!(after.current_stats.ingestion, 350);
    assert_eq!(after.deleted_stats.events, 1);
    assert_eq!(after.lifetime_stats.events, 3);
}

#[test]
fn deletion_clamps_at_zero_instead_of_wrapping() {
    let mut m = manager();
    m.record_ingest("clamped", "json", "2024-01-01", 10);
    let drift = m.record_deletion("clamped", "json", 1, 1000).expect("drift is reported");
    assert!(!drift.events_clamped);
    assert!(drift.storage_clamped);
    let stats = m.get_current_stats("clamped", "json").expect("still live");
    assert_eq!(stats.current_stats.storage, 0);
    assert_eq!(stats.deleted_stats.events, 1);
    assert_eq!(stats.deleted_stats.storage, 1000);

    let drift2 = m.record_deletion("clamped", "json", 100, 0).expect("drift is reported");
    assert!(drift2.events_clamped);
    let stats2 = m.get_current_stats("clamped", "json").expect("still live");
    assert_eq!(stats2.current_stats.events, 0);
}

#[test]
fn delete_stream_then_stats_is_not_found() {
    let mut m = manager();
    m.record_ingest("app-logs", "json", "2024-01-01", 100);
    assert!(m.get_current_stats("app-logs", "json").is_some());
    m.delete_stats("app-logs", "json").expect("whole counter set existed");
    assert_eq!(m.get_current_stats("app-logs", "json"), None);
}

#[test]
fn delete_covers_every_observed_date_partition() {
    let mut m = manager();
    m.record_ingest("app-logs", "json", "2024-01-01", 100);
    m.record_ingest("app-logs", "json", "2024-01-02", 100);
    m.record_ingest("app-logs", "json", "2024-01-03", 100);
    m.delete_stats("app-logs", "json").expect("all partitions removed cleanly");
    assert_eq!(m.get_current_stats("app-logs", "json"), None);
}

#[test]
fn revival_after_delete_is_zero_based() {
    let mut m = manager();
    m.record_ingest("app-logs", "json", "2024-01-01", 400);
    m.record_ingest("app-logs", "json", "2024-01-01", 400);
    m.delete_stats("app-logs", "json").expect("clean teardown");
    m.record_ingest("app-logs", "json", "2024-01-02", 7);
    let stats = m.get_current_stats("app-logs", "json").expect("revived");
    assert_eq!(stats.lifetime_stats.events, 1);
    assert_eq!(stats.lifetime_stats.ingestion, 7);
    assert_eq!(stats.current_stats.events, 1);
    assert_eq!(stats.deleted_stats.events, 0);
}

#[test]
fn teardown_of_unknown_stream_reports_survivors() {
    let mut m = manager();
    let err = m.delete_stats("never-seen", "json").expect_err("nothing to remove");
    assert!(!err.surviving.is_empty());
}

#[test]
fn streams_are_accounted_independently() {
    let mut m = manager();
    m.record_ingest("a", "json", "2024-01-01", 10);
    m.record_ingest("b", "json", "2024-01-01", 20);
    m.delete_stats("a", "json").expect("clean teardown");
    assert_eq!(m.get_current_stats("a", "json"), None);
    let b = m.get_current_stats("b", "json").expect("untouched");
    assert_eq!(b.lifetime_stats.ingestion, 20);
    assert_eq!(b.current_stats.events, 1);
}

#[test]
fn formats_share_storage_but_not_event_series() {
    let mut m = manager();
    m.record_ingest("s", "json", "2024-01-01", 10);
    m.record_ingest("s", "parquet", "2024-01-01", 30);
    let json_stats = m.get_current_stats("s", "json").expect("live");
    let parquet_stats = m.get_current_stats("s", "parquet").expect("live");
    assert_eq!(json_stats.current_stats.events, 1);
    assert_eq!(parquet_stats.current_stats.events, 1);
    assert_eq!(json_stats.current_stats.ingestion, 10);
    assert_eq!(parquet_stats.current_stats.ingestion, 30);
}

#[test]
fn reading_stats_does_not_change_them() {
    let mut m = manager();
    m.record_ingest("s", "json", "2024-01-01", 10);
    let first = m.get_current_stats("s", "json").expect("live");
    let second = m.get_current_stats("s", "json").expect("still live");
    assert_eq!(first, second);
}

#[test]
fn byte_counters_saturate_at_the_registry_ceiling() {
    let mut m = manager();
    let huge = i64::MAX as u64;
    m.record_ingest("big", "json", "2024-01-01", huge);
    m.record_ingest("big", "json", "2024-01-01", huge);
    let stats = m.get_current_stats("big", "json").expect("live");
    assert_eq!(stats.lifetime_stats.events, 2);
    assert_eq!(stats.lifetime_stats.ingestion, huge);
    assert_eq!(stats.current_stats.ingestion, huge);
}

#[test]
fn unknown_stream_reads_as_not_found_not_zero() {
    let mut m = manager();
    assert_eq!(m.get_current_stats("ghost", "json"), None);
}

#[test]
fn registry_accepts_the_fixed_descriptors() {
    assert!(StreamMetrics::new().is_some());
}

#[test]
fn deleting_one_format_hides_the_stream_whose_storage_it_shared() {
    let mut m = manager();
    m.record_ingest("s", "json", "2024-01-01", 10);
    m.record_ingest("s", "parquet", "2024-01-01", 30);
    m.delete_stats("s", "json").expect("clean teardown of the json series");
    assert_eq!(m.get_current_stats("s", "json"), None);
    assert_eq!(m.get_current_stats("s", "parquet"), None);
    m.record_ingest("s", "parquet", "2024-01-02", 5);
    let revived = m.get_current_stats("s", "parquet").expect("revived");
    assert_eq!(revived.current_stats.events, 2);
    assert_eq!(revived.current_stats.storage, 0);
}
