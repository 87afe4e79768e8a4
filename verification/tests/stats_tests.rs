use fz_stream_common::compression_stats::{
    CompressionStatsCollector, CompressionStatsConfig, CompressionTrialResult,
};
use fz_stream_common::events::EventType;

fn enabled_config(retention_seconds: u64) -> CompressionStatsConfig {
    CompressionStatsConfig { enabled: true, verbose_logging: false, retention_seconds }
}

fn trial(method: &str, size: usize) -> CompressionTrialResult {
    CompressionTrialResult {
        method: method.to_string(),
        compressed_size: size,
        saving_permille: 0,
    }
}

#[test]
fn config_default_is_disabled_with_an_hour_of_retention() {
    let c = CompressionStatsConfig::default();
    assert!(!c.enabled);
    assert!(!c.verbose_logging);
    assert_eq!(c.retention_seconds, 3600);
}

#[test]
fn three_swap_records_aggregate_exactly() {
    let mut col = CompressionStatsCollector::new(enabled_config(3600));
    col.record_at(EventType::Swap, 100, 90, 110, 90, Vec::new(), 50, "lz4".to_string(), 10);
    col.record_at(EventType::Swap, 200, 180, 220, 180, Vec::new(), 100, "lz4".to_string(), 11);
    col.record_at(EventType::Swap, 300, 270, 330, 270, Vec::new(), 150, "lz4".to_string(), 12);

    let agg = col.get_aggregated_stats();
    assert_eq!(agg.len(), 1);
    let entry = &agg[0];
    assert_eq!(entry.event_type, EventType::Swap);
    assert_eq!(entry.total_events, 3);
    assert_eq!(entry.avg_struct_size, 200);
    assert_eq!(entry.total_bytes_saved, 300);
    // every record saved half: 500 thousandths each
    assert_eq!(entry.avg_compression_ratio_permille, 500);
    assert_eq!(entry.last_updated, 12);
    // no candidate list was ever supplied, so the first record's codec name
    // stands
    assert_eq!(entry.best_compression_method, "lz4");
}

#[test]
fn entries_are_kept_per_event_type() {
    let mut col = CompressionStatsCollector::new(enabled_config(3600));
    col.record_at(EventType::Swap, 100, 0, 0, 0, Vec::new(), 40, "a".to_string(), 1);
    col.record_at(EventType::Trade, 100, 0, 0, 0, Vec::new(), 90, "b".to_string(), 2);
    col.record_at(EventType::Swap, 100, 0, 0, 0, Vec::new(), 60, "a".to_string(), 3);

    let agg = col.get_aggregated_stats();
    assert_eq!(agg.len(), 2);
    let swap = agg.iter().find(|e| e.event_type == EventType::Swap).unwrap();
    let trade = agg.iter().find(|e| e.event_type == EventType::Trade).unwrap();
    assert_eq!(swap.total_events, 2);
    assert_eq!(swap.total_bytes_saved, 60 + 40);
    assert_eq!(trade.total_events, 1);
    assert_eq!(trade.total_bytes_saved, 10);
}

#[test]
fn negative_saving_is_recorded_but_not_summed() {
    let mut col = CompressionStatsCollector::new(enabled_config(3600));
    col.record_at(EventType::Swap, 100, 0, 0, 0, Vec::new(), 150, "z".to_string(), 1);
    let agg = col.get_aggregated_stats();
    assert_eq!(agg[0].total_bytes_saved, 0);
    assert_eq!(agg[0].avg_compression_ratio_permille, -500);
    let recent = col.get_recent_stats(EventType::Swap, 10);
    assert_eq!(recent.len(), 1);
    assert_eq!(recent[0].total_saving, -50);
    assert_eq!(recent[0].total_ratio_permille, -500);
}

#[test]
fn zero_struct_size_defaults_to_zero_ratio() {
    let mut col = CompressionStatsCollector::new(enabled_config(3600));
    col.record_at(EventType::Swap, 0, 0, 0, 0, Vec::new(), 10, "z".to_string(), 1);
    let recent = col.get_recent_stats(EventType::Swap, 10);
    assert_eq!(recent[0].total_ratio_permille, 0);
    assert_eq!(recent[0].total_saving, -10);
}

#[test]
fn best_method_is_smallest_with_first_occurrence_winning_ties() {
    let mut col = CompressionStatsCollector::new(enabled_config(3600));
    let trials = vec![
        trial("lz4-fast", 500),
        trial("zstd-fast", 300),
        trial("zstd-high", 300),
        trial("lz4-high", 450),
    ];
    col.record_at(EventType::Swap, 1000, 0, 0, 0, trials, 300, "zstd-fast".to_string(), 1);
    let agg = col.get_aggregated_stats();
    assert_eq!(agg[0].best_compression_method, "zstd-fast");
}

#[test]
fn total_events_and_saved_bytes_never_decrease() {
    let mut col = CompressionStatsCollector::new(enabled_config(3600));
    let mut last_events = 0u64;
    let mut last_saved = 0u64;
    let finals = [50usize, 150, 70, 100, 20];
    for (i, f) in finals.iter().enumerate() {
        col.record_at(
            EventType::Swap,
            100,
            0,
            0,
            0,
            Vec::new(),
            *f,
            "c".to_string(),
            i as u64,
        );
        let agg = col.get_aggregated_stats();
        assert!(agg[0].total_events > last_events);
        assert!(agg[0].total_bytes_saved >= last_saved);
        last_events = agg[0].total_events;
        last_saved = agg[0].total_bytes_saved;
    }
    assert_eq!(last_events, 5);
    assert_eq!(last_saved, 50 + 30 + 80);
}

#[test]
fn retention_prunes_on_insert() {
    let mut col = CompressionStatsCollector::new(enabled_config(100));
    col.record_at(EventType::Swap, 10, 0, 0, 0, Vec::new(), 5, "a".to_string(), 1000);
    // 99 seconds later: the first record is still inside the window
    col.record_at(EventType::Swap, 10, 0, 0, 0, Vec::new(), 5, "a".to_string(), 1099);
    assert_eq!(col.get_recent_stats(EventType::Swap, 10).len(), 2);
    // at exactly the retention age, the first record drops out
    col.record_at(EventType::Swap, 10, 0, 0, 0, Vec::new(), 5, "a".to_string(), 1100);
    let recent = col.get_recent_stats(EventType::Swap, 10);
    assert_eq!(recent.len(), 2);
    assert_eq!(recent[0].timestamp, 1100);
    assert_eq!(recent[1].timestamp, 1099);
}

#[test]
fn explicit_cleanup_prunes_the_log_only() {
    let mut col = CompressionStatsCollector::new(enabled_config(100));
    col.record_at(EventType::Swap, 10, 0, 0, 0, Vec::new(), 5, "a".to_string(), 1000);
    col.record_at(EventType::Trade, 10, 0, 0, 0, Vec::new(), 5, "a".to_string(), 1050);
    col.cleanup_expired_at(1120);
    assert_eq!(col.get_recent_stats(EventType::Swap, 10).len(), 0);
    assert_eq!(col.get_recent_stats(EventType::Trade, 10).len(), 1);
    // aggregates are untouched by pruning
    assert_eq!(col.get_aggregated_stats().len(), 2);
}

#[test]
fn recent_stats_are_newest_first_and_limited() {
    let mut col = CompressionStatsCollector::new(enabled_config(10_000));
    for t in 1..=5u64 {
        col.record_at(EventType::Swap, 10, 0, 0, 0, Vec::new(), 5, "a".to_string(), t);
        col.record_at(EventType::Trade, 10, 0, 0, 0, Vec::new(), 5, "a".to_string(), t);
    }
    let recent = col.get_recent_stats(EventType::Swap, 3);
    assert_eq!(recent.len(), 3);
    assert_eq!(recent[0].timestamp, 5);
    assert_eq!(recent[1].timestamp, 4);
    assert_eq!(recent[2].timestamp, 3);
    assert!(recent.iter().all(|r| r.event_type == EventType::Swap));
}

#[test]
fn recorded_fields_are_kept_verbatim() {
    let mut col = CompressionStatsCollector::new(enabled_config(3600));
    let trials = vec![trial("zstd", 40), trial("lz4", 60)];
    col.record_at(EventType::Custom(7), 100, 80, 120, 80, trials, 40, "zstd".to_string(), 55);
    let recent = col.get_recent_stats(EventType::Custom(7), 1);
    assert_eq!(recent.len(), 1);
    let r = &recent[0];
    assert_eq!(r.event_type, EventType::Custom(7));
    assert_eq!(r.struct_size, 100);
    assert_eq!(r.bincode_size, 80);
    assert_eq!(r.json_size, 120);
    assert_eq!(r.serialized_size, 80);
    assert_eq!(r.final_compressed_size, 40);
    assert_eq!(r.used_compression, "zstd");
    assert_eq!(r.total_saving, 60);
    assert_eq!(r.total_ratio_permille, 600);
    assert_eq!(r.timestamp, 55);
    assert_eq!(r.compression_results.len(), 2);
    assert_eq!(r.compression_results[0].method, "zstd");
    assert_eq!(r.compression_results[0].compressed_size, 40);
    assert_eq!(r.compression_results[1].method, "lz4");
}

#[test]
fn disabled_collector_does_nothing_and_returns_empty() {
    let mut col = CompressionStatsCollector::new(CompressionStatsConfig {
        enabled: false,
        verbose_logging: true,
        retention_seconds: 3600,
    });
    assert!(!col.is_enabled());
    for t in 0..5u64 {
        col.record_at(EventType::Swap, 100, 0, 0, 0, Vec::new(), 50, "a".to_string(), t);
    }
    col.record_compression_stats(EventType::Swap, 100, 0, 0, 0, Vec::new(), 50, "a".to_string());
    col.cleanup_expired_stats();
    assert!(col.get_aggregated_stats().is_empty());
    assert!(col.get_recent_stats(EventType::Swap, 10).is_empty());
}

#[test]
fn update_config_can_enable_a_collector() {
    let mut col = CompressionStatsCollector::new(CompressionStatsConfig::default());
    assert!(!col.is_enabled());
    col.update_config(enabled_config(60));
    assert!(col.is_enabled());
    col.record_at(EventType::Swap, 10, 0, 0, 0, Vec::new(), 4, "a".to_string(), 1);
    assert_eq!(col.get_aggregated_stats().len(), 1);
}

#[test]
fn wall_clock_recording_counts_events() {
    let mut col = CompressionStatsCollector::new(enabled_config(3600));
    col.record_compression_stats(
        EventType::Swap,
        100,
        90,
        110,
        90,
        Vec::new(),
        50,
        "lz4".to_string(),
    );
    let agg = col.get_aggregated_stats();
    assert_eq!(agg.len(), 1);
    assert_eq!(agg[0].total_events, 1);
    assert_eq!(agg[0].total_bytes_saved, 50);
}

#[test]
fn incremental_mean_truncates_toward_zero_per_step() {
    let mut col = CompressionStatsCollector::new(enabled_config(3600));
    // sizes 1 and 2: (1*0 + 1)/1 = 1, then (1*1 + 2)/2 = 1
    col.record_at(EventType::Swap, 1, 0, 0, 0, Vec::new(), 1, "a".to_string(), 1);
    col.record_at(EventType::Swap, 2, 0, 0, 0, Vec::new(), 2, "a".to_string(), 2);
    let agg = col.get_aggregated_stats();
    assert_eq!(agg[0].avg_struct_size, 1);
}
