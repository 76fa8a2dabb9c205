use auroradb::enterprise::monitoring::{
    Alert, AlertCategory, AlertSeverity, IntelligentAlertingSystem, Metric, MetricsCollector, MetricsConfig, TimeRange,
};
use auroradb::text::StringMap;

fn alert(id: &str, at: i64) -> Alert {
    Alert::new(id, AlertSeverity::Warning, format!("alert {}", id), AlertCategory::Performance, at)
}

#[test]
fn alerts_recorded_and_acknowledged() {
    let mut system = IntelligentAlertingSystem::new();
    system.record_alerts(&vec![alert("high_cpu_usage", 1), alert("high_memory_usage", 2)]);
    let active = system.get_active_alerts();
    assert_eq!(active.len(), 2);
    assert_eq!(active[0].id, "high_cpu_usage");
    assert!(!active[0].acknowledged);
    system.acknowledge_alert_at("high_cpu_usage", "admin", 10);
    let active = system.get_active_alerts();
    assert!(active[0].acknowledged);
    assert_eq!(active[0].acknowledged_by.as_deref(), Some("admin"));
    assert_eq!(active[0].acknowledged_at, Some(10));
    assert!(!active[1].acknowledged);
    system.acknowledge_alert("missing", "admin");
    assert_eq!(system.get_active_alerts().len(), 2);
}

#[test]
fn alert_with_same_id_replaces_the_active_one() {
    let mut system = IntelligentAlertingSystem::new();
    system.record_alerts(&vec![alert("high_cpu_usage", 1)]);
    system.record_alerts(&vec![alert("high_cpu_usage", 5)]);
    let active = system.get_active_alerts();
    assert_eq!(active.len(), 1);
    assert_eq!(active[0].created_at, 5);
}

#[test]
fn many_alerts_stay_in_force() {
    let mut system = IntelligentAlertingSystem::new();
    let batch: Vec<Alert> = (0..1200).map(|i| alert(&format!("a{}", i), i)).collect();
    system.record_alerts(&batch);
    assert_eq!(system.get_active_alerts().len(), 1200);
}

fn metric(name: &str, value: f64) -> Metric {
    Metric { name: name.to_string(), value_bits: value.to_bits(), dimensions: StringMap::new(), timestamp: 0 }
}

fn metrics_config(retention_days: u32) -> MetricsConfig {
    MetricsConfig {
        collection_interval_seconds: 60,
        retention_days,
        dimensional_metrics_enabled: true,
        custom_metrics_enabled: true,
    }
}

#[test]
fn metrics_recorded_and_queried_by_range() {
    let mut collector = MetricsCollector::new(metrics_config(1));
    collector.record_metric_at(metric("cpu_usage", 10.0), 1_000);
    collector.record_metric_at(metric("cpu_usage", 20.0), 2_000);
    collector.record_metric_at(metric("memory_usage", 50.0), 2_500);
    collector.record_metric_at(metric("cpu_usage", 30.0), 3_000);
    let points = collector.get_metrics("cpu_usage", &TimeRange { start: 1_500, end: 3_000 });
    let values: Vec<f64> = points.iter().map(|p| f64::from_bits(p.value_bits)).collect();
    assert_eq!(values, vec![20.0, 30.0]);
    assert_eq!(points[0].timestamp, 2_000);
    assert!(collector.get_metrics("disk_usage", &TimeRange { start: 0, end: 10_000 }).is_empty());
}

#[test]
fn metrics_older_than_retention_are_dropped() {
    let day: i64 = 86_400_000;
    let mut collector = MetricsCollector::new(metrics_config(1));
    collector.record_metric_at(metric("cpu_usage", 1.0), 0);
    collector.record_metric_at(metric("cpu_usage", 2.0), day);
    collector.record_metric_at(metric("cpu_usage", 3.0), day + 1);
    let points = collector.get_metrics("cpu_usage", &TimeRange { start: i64::MIN, end: i64::MAX });
    let times: Vec<i64> = points.iter().map(|p| p.timestamp).collect();
    assert_eq!(times, vec![day, day + 1]);
}
