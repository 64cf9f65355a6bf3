use std::time::{SystemTime, UNIX_EPOCH};
use xtrade::metrics::{ConnectionQualityLevel, MetricsCollector};

#[test]
fn test_metrics_collector() {
    let mut collector = MetricsCollector::new(100);

    let now = SystemTime::now()
        .duration_since(UNIX_EPOCH)
        .unwrap()
        .as_millis() as u64;

    collector.record_message_latency(now - 10);
    collector.record_message_latency(now - 20);
    collector.record_message_latency(now - 15);

    let (p50, p95, p99) = collector.calculate_percentiles();
    assert!(p50 > 0);
    assert!(p95 >= p50);
    assert!(p99 >= p95);
}

#[test]
fn percentiles_of_fixed_latencies() {
    let mut collector = MetricsCollector::new_at(100, 1_000);
    for lat in [30u64, 10, 20, 40, 50] {
        collector.record_message_latency_at(10_000 - lat, 10_000);
    }
    let (p50, p95, p99) = collector.calculate_percentiles();
    // sorted: 10 20 30 40 50; indices len*50/100=2, len*95/100=4, len*99/100=4
    assert_eq!(p50, 30);
    assert_eq!(p95, 50);
    assert_eq!(p99, 50);
    assert_eq!(collector.message_count(), 5);
}

#[test]
fn percentiles_of_empty_collector_are_zero() {
    let collector = MetricsCollector::new_at(10, 0);
    assert_eq!(collector.calculate_percentiles(), (0, 0, 0));
}

#[test]
fn samples_beyond_capacity_drop_oldest() {
    let mut collector = MetricsCollector::new_at(2, 0);
    collector.record_message_latency_at(900, 1_000); // 100
    collector.record_message_latency_at(800, 1_000); // 200
    collector.record_message_latency_at(700, 1_000); // 300, drops 100
    let (p50, _, _) = collector.calculate_percentiles();
    // kept 200, 300: index 1 -> 300
    assert_eq!(p50, 300);
}

#[test]
fn errors_and_reconnects_are_counted() {
    let mut collector = MetricsCollector::new_at(10, 0);
    collector.record_error();
    collector.record_error();
    collector.record_connection_start_at(5_000);
    assert_eq!(collector.error_count(), 2);
    assert_eq!(collector.reconnect_count(), 1);
    assert_eq!(collector.connection_start_ms(), 5_000);
    collector.reset_at(9_000);
    // a reset clears the samples and the message count, not the error count
    assert_eq!(collector.error_count(), 2);
    assert_eq!(collector.message_count(), 0);
    assert_eq!(collector.last_reset_ms(), 9_000);
}

#[test]
fn quiet_connection_is_critical() {
    let mut collector = MetricsCollector::new_at(10, 0);
    collector.record_message_latency_at(1_000, 1_010);
    // nothing for more than 30 seconds
    assert_eq!(collector.calculate_connection_quality_at(40_000), ConnectionQualityLevel::Critical);
    assert!(!collector.is_connection_acceptable_at(40_000));
}

#[test]
fn busy_connection_reaches_the_rate_grades() {
    let mut collector = MetricsCollector::new_at(100, 0);
    // 7000 messages within one minute, 50 ms latency each: over 100 per second
    for i in 0..7_000u64 {
        let now = 100_000 + i * 8;
        collector.record_message_latency_at(now - 50, now);
    }
    let now = 100_000 + 7_000 * 8;
    assert_eq!(collector.calculate_connection_quality_at(now), ConnectionQualityLevel::Fair);
    assert!(collector.is_connection_acceptable_at(now));
    // 31000 messages within one minute: over 500 per second
    let mut busy = MetricsCollector::new_at(100, 0);
    for i in 0..31_000u64 {
        let now = 100_000 + i;
        busy.record_message_latency_at(now - 50, now);
    }
    assert_eq!(busy.calculate_connection_quality_at(131_000), ConnectionQualityLevel::Good);
}

#[test]
fn messages_older_than_a_minute_leave_the_rate_window() {
    let mut collector = MetricsCollector::new_at(100, 0);
    for i in 0..7_000u64 {
        collector.record_message_latency_at(1_000 + i, 1_000 + i);
    }
    // one more message 61 seconds later drops all the earlier times
    collector.record_message_latency_at(69_000, 69_000);
    assert_eq!(collector.last_message_time(), 69_000);
    assert_eq!(collector.calculate_connection_quality_at(69_000), ConnectionQualityLevel::Poor);
}
