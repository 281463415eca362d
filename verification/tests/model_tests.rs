use chrono::{DateTime, Duration, TimeZone, Utc};
use simple_performance_dashboard::clock::Timestamp;
use simple_performance_dashboard::ieee::{Double, Single};
use simple_performance_dashboard::interpolation::{interpolate_data_value, Interpolation};
use simple_performance_dashboard::model::{
    AppState, CpuMetrics, GpuMetrics, MemoryMetrics, MetricValue, MotherboardMetrics,
    StorageMetrics, ToF64, UiState,
};

fn single(x: f32) -> Single {
    Single::from_bits(x.to_bits())
}

fn number(s: Option<Single>) -> Option<f32> {
    s.map(|v| f32::from_bits(v.to_bits()))
}

fn wide(d: Double) -> f64 {
    f64::from_bits(d.to_bits())
}

fn plot(points: Vec<(Double, Double)>) -> Vec<(f64, f64)> {
    points.into_iter().map(|(seconds, value)| (wide(seconds), wide(value))).collect()
}

fn timestamp(t: DateTime<Utc>) -> Timestamp {
    Timestamp::new(t.timestamp(), t.timestamp_subsec_nanos()).expect("a time of this era")
}

#[test]
fn test_metric_value_default() {
    let metric: MetricValue<Single> = MetricValue::default();
    assert!(metric.current.is_none());
    assert!(metric.session_min.is_none());
    assert!(metric.session_max.is_none());
    assert!(metric.history.is_empty());
}

#[test]
fn test_metric_value_single_update() {
    let mut metric = MetricValue::default();
    metric.update(single(50.0f32));

    assert_eq!(number(metric.current), Some(50.0));
    assert_eq!(number(metric.session_min), Some(50.0));
    assert_eq!(number(metric.session_max), Some(50.0));
    assert_eq!(metric.history.len(), 1);
}

#[test]
fn test_metric_value_multiple_updates() {
    let mut metric = MetricValue::default();

    metric.update(single(50.0f32));
    metric.update(single(30.0f32));
    metric.update(single(70.0f32));
    metric.update(single(40.0f32));

    assert_eq!(number(metric.current), Some(40.0));
    assert_eq!(number(metric.session_min), Some(30.0));
    assert_eq!(number(metric.session_max), Some(70.0));
    assert_eq!(metric.history.len(), 4);
}

#[test]
fn test_metric_value_min_max_tracking() {
    let mut metric = MetricValue::default();

    metric.update(single(10.0f32));
    assert_eq!(number(metric.session_min), Some(10.0));
    assert_eq!(number(metric.session_max), Some(10.0));

    metric.update(single(20.0f32));
    assert_eq!(number(metric.session_min), Some(10.0));
    assert_eq!(number(metric.session_max), Some(20.0));

    metric.update(single(15.0f32));
    assert_eq!(number(metric.session_min), Some(10.0));
    assert_eq!(number(metric.session_max), Some(20.0));

    metric.update(single(5.0f32));
    assert_eq!(number(metric.session_min), Some(5.0));
    assert_eq!(number(metric.session_max), Some(20.0));

    metric.update(single(25.0f32));
    assert_eq!(number(metric.session_min), Some(5.0));
    assert_eq!(number(metric.session_max), Some(25.0));
}

#[test]
fn test_metric_value_boolean() {
    let mut metric = MetricValue::default();

    metric.update(false);
    assert_eq!(metric.current, Some(false));
    assert_eq!(metric.session_min, Some(false));
    assert_eq!(metric.session_max, Some(false));

    metric.update(true);
    assert_eq!(metric.current, Some(true));
    assert_eq!(metric.session_min, Some(false));
    assert_eq!(metric.session_max, Some(true));

    metric.update(false);
    assert_eq!(metric.current, Some(false));
    assert_eq!(metric.session_min, Some(false));
    assert_eq!(metric.session_max, Some(true));
}

#[test]
fn test_metric_value_history_ordering() {
    let mut metric = MetricValue::default();

    metric.update(single(10.0f32));
    metric.update(single(20.0f32));
    metric.update(single(30.0f32));

    assert_eq!(metric.history.len(), 3);

    let timestamps: Vec<(i64, u32)> =
        metric.history.iter().map(|(t, _)| (t.secs(), t.subsec_nanos())).collect();
    for i in 1..timestamps.len() {
        assert!(timestamps[i] >= timestamps[i - 1]);
    }

    let values: Vec<f32> = metric.history.iter().map(|(_, v)| f32::from_bits(v.to_bits())).collect();
    assert_eq!(values, vec![10.0, 20.0, 30.0]);
}

#[test]
fn test_to_f64_trait() {
    assert_eq!(wide(single(42.5f32).to_f64()), 42.5);
    assert_eq!(wide((100u32).to_f64()), 100.0);
    assert_eq!(wide((1000u64).to_f64()), 1000.0);
    assert_eq!(wide(true.to_f64()), 1.0);
    assert_eq!(wide(false.to_f64()), 0.0);
}

#[test]
fn test_metric_value_plot_data() {
    let mut metric = MetricValue::default();
    let session_start = Utc.with_ymd_and_hms(2023, 1, 1, 0, 0, 0).unwrap();

    let timestamp1 = session_start + Duration::seconds(10);
    let timestamp2 = session_start + Duration::seconds(20);
    let timestamp3 = session_start + Duration::seconds(30);

    metric.history.push_back((timestamp(timestamp1), single(50.0f32)));
    metric.history.push_back((timestamp(timestamp2), single(75.0f32)));
    metric.history.push_back((timestamp(timestamp3), single(25.0f32)));

    let plot_data = plot(metric.get_plot_data(timestamp(session_start)));

    assert_eq!(plot_data.len(), 3);
    assert_eq!(plot_data[0], (10.0, 50.0));
    assert_eq!(plot_data[1], (20.0, 75.0));
    assert_eq!(plot_data[2], (30.0, 25.0));
}

#[test]
fn test_cpu_metrics_default() {
    let cpu = CpuMetrics::default();
    assert!(cpu.utilization.current.is_none());
    assert!(cpu.clock_speed.current.is_none());
    assert!(cpu.core_voltage.current.is_none());
    assert!(cpu.power_consumption.current.is_none());
    assert!(cpu.package_temperature.current.is_none());
    assert!(cpu.hotspot_temperature.current.is_none());
    assert!(cpu.thermal_throttling.current.is_none());
}

#[test]
fn test_gpu_metrics_default() {
    let gpu = GpuMetrics::default();
    assert!(gpu.utilization.current.is_none());
    assert!(gpu.clock_speed.current.is_none());
    assert!(gpu.memory_utilization.current.is_none());
    assert!(gpu.core_voltage.current.is_none());
    assert!(gpu.power_consumption.current.is_none());
    assert!(gpu.package_temperature.current.is_none());
    assert!(gpu.hotspot_temperature.current.is_none());
    assert!(gpu.thermal_throttling.current.is_none());
}

#[test]
fn test_memory_metrics_default() {
    let memory = MemoryMetrics::default();
    assert!(memory.utilization_mb.current.is_none());
    assert!(memory.clock_speed.current.is_none());
    assert!(memory.temperature.current.is_none());
}

#[test]
fn test_storage_metrics_default() {
    let storage = StorageMetrics::default();
    assert!(storage.read_speed.current.is_none());
    assert!(storage.write_speed.current.is_none());
    assert!(storage.temperature.current.is_none());
}

#[test]
fn test_motherboard_metrics_default() {
    let motherboard = MotherboardMetrics::default();
    assert!(motherboard.chipset_temperature.current.is_none());
    assert!(motherboard.chassis_temperature.current.is_none());
    assert!(motherboard.aio_pump_speed.current.is_none());
    assert!(motherboard.chassis_fan_speed.current.is_none());
    assert!(motherboard.chipset_fan_speed.current.is_none());
}

#[test]
fn test_ui_state_default() {
    let ui_state = UiState::default();
    assert!(ui_state.cpu_section_expanded);
    assert!(ui_state.gpu_section_expanded);
    assert!(ui_state.memory_section_expanded);
    assert!(ui_state.storage_section_expanded);
    assert!(ui_state.motherboard_section_expanded);
}

#[test]
fn test_app_state_default() {
    let app_state = AppState::default();
    assert_eq!(app_state.polling_interval_ms, 1000);
    assert!(app_state.ui_state.cpu_section_expanded);
    assert!(!app_state.has_cpu_data());
    assert!(!app_state.has_gpu_data());
    assert!(!app_state.has_memory_data());
    assert!(!app_state.has_storage_data());
    assert!(!app_state.has_motherboard_data());
}

#[test]
fn test_app_state_new() {
    let app_state = AppState::new(500);
    assert_eq!(app_state.polling_interval_ms, 500);
    assert!(!app_state.has_cpu_data());
}

#[test]
fn test_app_state_new_shared() {
    let shared_state = AppState::new_shared(2000);
    let state = shared_state.read();
    assert_eq!(state.polling_interval_ms, 2000);
}

#[test]
fn a_new_shared_state_holds_a_new_state() {
    let shared_state = AppState::new_shared(250);
    let state = shared_state.read();
    assert_eq!(state.polling_interval_ms, 250);
    assert!(!state.has_cpu_data());
    assert!(!state.has_gpu_data());
    assert!(!state.has_memory_data());
    assert!(!state.has_storage_data());
    assert!(!state.has_motherboard_data());
    assert!(state.cpu.utilization.history.is_empty());
    assert!(state.ui_state.cpu_section_expanded);
    assert!(state.ui_state.motherboard_section_expanded);
}

#[test]
fn test_has_cpu_data() {
    let mut app_state = AppState::default();
    assert!(!app_state.has_cpu_data());

    app_state.cpu.utilization.update(single(50.0));
    assert!(app_state.has_cpu_data());

    let mut app_state2 = AppState::default();
    app_state2.cpu.clock_speed.update(3000);
    assert!(app_state2.has_cpu_data());

    let mut app_state3 = AppState::default();
    app_state3.cpu.package_temperature.update(single(65.0));
    assert!(app_state3.has_cpu_data());
}

#[test]
fn test_has_gpu_data() {
    let mut app_state = AppState::default();
    assert!(!app_state.has_gpu_data());

    app_state.gpu.clock_speed.update(1500);
    assert!(app_state.has_gpu_data());

    let mut app_state2 = AppState::default();
    app_state2.gpu.package_temperature.update(single(70.0));
    assert!(app_state2.has_gpu_data());
}

#[test]
fn test_has_memory_data() {
    let mut app_state = AppState::default();
    assert!(!app_state.has_memory_data());

    app_state.memory.utilization_mb.update(8192);
    assert!(app_state.has_memory_data());

    let mut app_state2 = AppState::default();
    app_state2.memory.clock_speed.update(3200);
    assert!(app_state2.has_memory_data());

    let mut app_state3 = AppState::default();
    app_state3.memory.temperature.update(single(45.0));
    assert!(app_state3.has_memory_data());
}

#[test]
fn test_has_storage_data() {
    let mut app_state = AppState::default();
    assert!(!app_state.has_storage_data());

    app_state.storage.read_speed.update(single(500.0));
    assert!(app_state.has_storage_data());

    let mut app_state2 = AppState::default();
    app_state2.storage.write_speed.update(single(300.0));
    assert!(app_state2.has_storage_data());

    let mut app_state3 = AppState::default();
    app_state3.storage.temperature.update(single(40.0));
    assert!(app_state3.has_storage_data());
}

#[test]
fn test_has_motherboard_data() {
    let mut app_state = AppState::default();
    assert!(!app_state.has_motherboard_data());

    app_state.motherboard.chipset_temperature.update(single(55.0));
    assert!(app_state.has_motherboard_data());

    let mut app_state2 = AppState::default();
    app_state2.motherboard.chassis_temperature.update(single(35.0));
    assert!(app_state2.has_motherboard_data());

    let mut app_state3 = AppState::default();
    app_state3.motherboard.aio_pump_speed.update(2500);
    assert!(app_state3.has_motherboard_data());

    let mut app_state4 = AppState::default();
    app_state4.motherboard.chassis_fan_speed.update(1200);
    assert!(app_state4.has_motherboard_data());

    let mut app_state5 = AppState::default();
    app_state5.motherboard.chipset_fan_speed.update(800);
    assert!(app_state5.has_motherboard_data());
}

#[test]
fn test_shared_app_state_concurrent_access() {
    let shared_state = AppState::new_shared(1000);

    let state1 = shared_state.read();
    let state2 = shared_state.read();
    assert_eq!(state1.polling_interval_ms, state2.polling_interval_ms);
    drop(state1);
    drop(state2);

    {
        let mut state = shared_state.write();
        state.cpu.utilization.update(single(75.0));
    }

    let state = shared_state.read();
    assert_eq!(number(state.cpu.utilization.current), Some(75.0));
}

#[test]
fn test_metric_edge_cases() {
    let mut metric = MetricValue::default();

    metric.update(single(0.0f32));
    assert_eq!(number(metric.current), Some(0.0));
    assert_eq!(number(metric.session_min), Some(0.0));
    assert_eq!(number(metric.session_max), Some(0.0));

    metric.update(single(-10.0f32));
    assert_eq!(number(metric.current), Some(-10.0));
    assert_eq!(number(metric.session_min), Some(-10.0));
    assert_eq!(number(metric.session_max), Some(0.0));

    metric.update(single(f32::MAX));
    assert_eq!(number(metric.current), Some(f32::MAX));
    assert_eq!(number(metric.session_min), Some(-10.0));
    assert_eq!(number(metric.session_max), Some(f32::MAX));
}

#[test]
fn test_session_start_timing() {
    let before = Utc::now();
    let app_state = AppState::new(1000);
    let after = Utc::now();

    let start = (app_state.session_start.secs(), app_state.session_start.subsec_nanos());
    assert!(start >= (before.timestamp(), before.timestamp_subsec_nanos()));
    assert!(start <= (after.timestamp(), after.timestamp_subsec_nanos()));
}

#[test]
fn every_channel_of_a_domain_counts_as_data() {
    let mut state = AppState::default();
    state.cpu.thermal_throttling.update(false);
    assert!(state.has_cpu_data());
    assert!(!state.has_gpu_data());

    state.gpu.utilization.update(single(3.0));
    assert!(state.has_gpu_data());

    let mut other = AppState::default();
    other.gpu.memory_utilization.update(12);
    assert!(other.has_gpu_data());
    other.cpu.core_voltage.update(single(1.1));
    assert!(other.has_cpu_data());
}

#[test]
fn data_stays_present_when_later_cycles_miss_the_channel() {
    let mut state = AppState::default();
    state.storage.temperature.update(single(40.0));
    assert!(state.has_storage_data());
    for _ in 0..3 {
        state.cpu.utilization.update(single(10.0));
        state.storage.temperature.update_if(None);
        assert!(state.has_storage_data());
    }
    assert_eq!(state.storage.temperature.history.len(), 1);
    assert_eq!(number(state.storage.temperature.current), Some(40.0));
}

#[test]
fn a_not_a_number_sample_tightens_no_bound() {
    let mut metric = MetricValue::default();
    metric.update(single(5.0));
    metric.update(single(f32::NAN));
    assert!(number(metric.current).unwrap().is_nan());
    assert_eq!(number(metric.session_min), Some(5.0));
    assert_eq!(number(metric.session_max), Some(5.0));
    metric.update(single(-1.0));
    assert_eq!(number(metric.session_min), Some(-1.0));
    assert_eq!(metric.history.len(), 3);
}

#[test]
fn record_keeps_the_given_time_and_duplicates_stay_in_order() {
    let at = Timestamp::new(1_700_000_000, 250).unwrap();
    let mut metric = MetricValue::default();
    metric.record(at, 7u32);
    metric.record(at, 3u32);
    assert_eq!(metric.history.len(), 2);
    assert_eq!(metric.history[0], (at, 7));
    assert_eq!(metric.history[1], (at, 3));
    assert_eq!(metric.current, Some(3));
    assert_eq!(metric.session_min, Some(3));
    assert_eq!(metric.session_max, Some(7));
}

#[test]
fn plot_data_of_an_empty_series_is_empty_and_repeatable() {
    let origin = Timestamp::new(0, 0).unwrap();
    let mut metric: MetricValue<u64> = MetricValue::default();
    assert!(metric.get_plot_data(origin).is_empty());
    assert!(metric.get_history_for_plot(origin).is_empty());

    metric.record(Timestamp::new(5, 0).unwrap(), 9);
    metric.record(Timestamp::new(5, 999_999_999).unwrap(), 8);
    metric.record(Timestamp::new(7, 1).unwrap(), 1);
    let first = metric.get_plot_data(origin);
    let second = metric.get_plot_data(origin);
    assert_eq!(first, second);
    assert_eq!(plot(first), vec![(5.0, 9.0), (5.999999999, 8.0), (7.000000001, 1.0)]);
    assert_eq!(second.len(), metric.history.len());
    assert_eq!(metric.history.len(), 3);

    let flat = plot(metric.get_history_for_plot(origin));
    assert_eq!(flat, vec![(5.0, 0.0), (5.999999999, 0.0), (7.000000001, 0.0)]);

    let later = Timestamp::new(10, 0).unwrap();
    assert_eq!(
        plot(metric.get_plot_data(later)),
        vec![(-5.0, 9.0), (-4.000000001, 8.0), (-2.999999999, 1.0)]
    );
}

#[test]
fn plot_data_carries_fractions_of_a_second() {
    let origin = Utc.with_ymd_and_hms(2023, 1, 1, 0, 0, 0).unwrap();
    let mut metric = MetricValue::default();
    metric.history.push_back((timestamp(origin + Duration::milliseconds(1500)), single(50.0f32)));
    metric.history.push_back((timestamp(origin + Duration::milliseconds(2250)), single(51.0f32)));
    metric.history.push_back((timestamp(origin - Duration::milliseconds(250)), single(52.0f32)));
    assert_eq!(
        plot(metric.get_plot_data(timestamp(origin))),
        vec![(1.5, 50.0), (2.25, 51.0), (-0.25, 52.0)]
    );
}

#[test]
fn plot_data_feeds_the_lookup_of_values() {
    let origin = Timestamp::new(1_000, 0).unwrap();
    let mut metric = MetricValue::default();
    metric.record(Timestamp::new(1_010, 0).unwrap(), single(50.0));
    metric.record(Timestamp::new(1_020, 0).unwrap(), single(100.0));
    metric.record(Timestamp::new(1_030, 0).unwrap(), single(75.0));
    let points = metric.get_plot_data(origin);
    let at = |t: f64| interpolate_data_value(&points, Double::from_bits(t.to_bits()));
    assert_eq!(at(20.0), Some(Interpolation::Sample(Double::from_bits(100.0f64.to_bits()))));
    assert_eq!(at(35.0), Some(Interpolation::Sample(Double::from_bits(75.0f64.to_bits()))));
    assert_eq!(
        at(15.0),
        Some(Interpolation::Blend {
            t1: Double::from_bits(10.0f64.to_bits()),
            v1: Double::from_bits(50.0f64.to_bits()),
            t2: Double::from_bits(20.0f64.to_bits()),
            v2: Double::from_bits(100.0f64.to_bits()),
        })
    );
}

#[test]
fn a_hundred_updates_keep_the_bounds_around_the_current_value() {
    let shared = AppState::new_shared(10);
    for i in 0..100u32 {
        {
            let mut state = shared.write();
            state.cpu.utilization.update(single(((i * 37) % 100) as f32));
        }
        let state = shared.read();
        let series = &state.cpu.utilization;
        let min = number(series.session_min).unwrap();
        let max = number(series.session_max).unwrap();
        let current = number(series.current).unwrap();
        assert!(min <= max);
        assert!(min <= current && current <= max);
        assert_eq!(series.history.len(), (i + 1) as usize);
        let last = series.history.back().unwrap();
        assert_eq!(f32::from_bits(last.1.to_bits()), current);
    }
}
