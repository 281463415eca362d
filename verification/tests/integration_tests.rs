use chrono::Utc;
use simple_performance_dashboard::clock::Timestamp;
use simple_performance_dashboard::hardware::HardwarePoller;
use simple_performance_dashboard::ieee::Single;
use simple_performance_dashboard::logger::AppLogger;
use simple_performance_dashboard::model::AppState;

fn single(x: f32) -> Single {
    Single::from_bits(x.to_bits())
}

fn number(s: Option<Single>) -> Option<f32> {
    s.map(|v| f32::from_bits(v.to_bits()))
}

fn now() -> (i64, u32) {
    let now = Utc::now();
    (now.timestamp(), now.timestamp_subsec_nanos())
}

fn pair(t: Timestamp) -> (i64, u32) {
    (t.secs(), t.subsec_nanos())
}

#[test]
fn test_end_to_end_data_flow() {
    let state = AppState::new_shared(100);
    let mut poller = HardwarePoller::new(state.clone(), 100);
    let mut logger = AppLogger::new("test.log");

    for _ in 0..3 {
        poller.poll_hardware(&mut logger);
    }

    let app_state = state.read();

    assert!(app_state.cpu.utilization.current.is_some());
    assert!(app_state.memory.utilization_mb.current.is_some());
    assert!(app_state.cpu.utilization.history.len() >= 3);

    if app_state.cpu.utilization.current.is_some() {
        assert!(app_state.cpu.utilization.session_min.is_some());
        assert!(app_state.cpu.utilization.session_max.is_some());
    }
}

#[test]
fn test_data_availability_detection() {
    let mut state = AppState::default();

    assert!(!state.has_cpu_data());
    assert!(!state.has_gpu_data());
    assert!(!state.has_memory_data());
    assert!(!state.has_storage_data());
    assert!(!state.has_motherboard_data());

    state.cpu.utilization.update(single(50.0));
    assert!(state.has_cpu_data());

    state.gpu.clock_speed.update(1500);
    assert!(state.has_gpu_data());

    state.memory.utilization_mb.update(8192);
    assert!(state.has_memory_data());

    state.storage.read_speed.update(single(500.0));
    assert!(state.has_storage_data());

    state.motherboard.chipset_temperature.update(single(55.0));
    assert!(state.has_motherboard_data());
}

#[test]
fn test_metric_history_and_plotting() {
    let (secs, nanos) = now();
    let session_start = Timestamp::new(secs, nanos).unwrap();
    let state = AppState::new_shared(100);

    {
        let mut app_state = state.write();
        app_state.cpu.utilization.update(single(25.0));
        app_state.cpu.utilization.update(single(50.0));
        app_state.cpu.utilization.update(single(75.0));
    }

    let app_state = state.read();
    let plot_data: Vec<(f64, f64)> = app_state
        .cpu
        .utilization
        .get_plot_data(session_start)
        .into_iter()
        .map(|(seconds, value)| (f64::from_bits(seconds.to_bits()), f64::from_bits(value.to_bits())))
        .collect();

    assert_eq!(plot_data.len(), 3);

    assert_eq!(plot_data[0].1, 25.0);
    assert_eq!(plot_data[1].1, 50.0);
    assert_eq!(plot_data[2].1, 75.0);

    if plot_data.len() >= 2 {
        assert!(plot_data[0].0 <= plot_data[1].0);
        if plot_data.len() >= 3 {
            assert!(plot_data[1].0 <= plot_data[2].0);
        }
    }
}

#[test]
fn test_session_timing_consistency() {
    let before_creation = now();
    let state = AppState::new(1000);
    let after_creation = now();

    assert!(pair(state.session_start) >= before_creation);
    assert!(pair(state.session_start) <= after_creation);

    let before_shared = now();
    let shared_state = AppState::new_shared(500);
    let after_shared = now();

    let shared_app_state = shared_state.read();
    assert!(pair(shared_app_state.session_start) >= before_shared);
    assert!(pair(shared_app_state.session_start) <= after_shared);
}

#[test]
fn test_metric_value_bounds_and_types() {
    let mut state = AppState::default();

    state.cpu.utilization.update(single(87.5));
    state.cpu.core_voltage.update(single(1.35));
    state.cpu.package_temperature.update(single(65.2));

    state.cpu.clock_speed.update(3400);
    state.memory.utilization_mb.update(16384);
    state.motherboard.aio_pump_speed.update(2500);

    state.cpu.thermal_throttling.update(false);
    state.gpu.thermal_throttling.update(true);

    assert_eq!(number(state.cpu.utilization.current), Some(87.5));
    assert_eq!(number(state.cpu.core_voltage.current), Some(1.35));
    assert_eq!(number(state.cpu.package_temperature.current), Some(65.2));
    assert_eq!(state.cpu.clock_speed.current, Some(3400));
    assert_eq!(state.memory.utilization_mb.current, Some(16384));
    assert_eq!(state.motherboard.aio_pump_speed.current, Some(2500));
    assert_eq!(state.cpu.thermal_throttling.current, Some(false));
    assert_eq!(state.gpu.thermal_throttling.current, Some(true));
}

#[test]
fn test_ui_state_consistency() {
    let state = AppState::default();

    assert!(state.ui_state.cpu_section_expanded);
    assert!(state.ui_state.gpu_section_expanded);
    assert!(state.ui_state.memory_section_expanded);
    assert!(state.ui_state.storage_section_expanded);
    assert!(state.ui_state.motherboard_section_expanded);

    let shared_state = AppState::new_shared(1000);
    let shared_app_state = shared_state.read();
    assert!(shared_app_state.ui_state.cpu_section_expanded);
    assert!(shared_app_state.ui_state.gpu_section_expanded);
    assert!(shared_app_state.ui_state.memory_section_expanded);
    assert!(shared_app_state.ui_state.storage_section_expanded);
    assert!(shared_app_state.ui_state.motherboard_section_expanded);
}

#[test]
fn test_polling_interval_configuration() {
    let intervals = [100, 500, 1000, 2000, 5000];

    for &interval in &intervals {
        let state = AppState::new(interval);
        assert_eq!(state.polling_interval_ms, interval);

        let shared_state = AppState::new_shared(interval);
        let shared_app_state = shared_state.read();
        assert_eq!(shared_app_state.polling_interval_ms, interval);
    }
}

#[test]
fn test_metric_min_max_tracking_comprehensive() {
    let mut state = AppState::default();

    let cpu_values = [45.0, 80.0, 30.0, 95.0, 60.0];
    for &value in &cpu_values {
        state.cpu.utilization.update(single(value));
    }

    assert_eq!(number(state.cpu.utilization.session_min), Some(30.0));
    assert_eq!(number(state.cpu.utilization.session_max), Some(95.0));
    assert_eq!(number(state.cpu.utilization.current), Some(60.0));

    let memory_values = [4096, 8192, 2048, 12288, 6144];
    for &value in &memory_values {
        state.memory.utilization_mb.update(value);
    }

    assert_eq!(state.memory.utilization_mb.session_min, Some(2048));
    assert_eq!(state.memory.utilization_mb.session_max, Some(12288));
    assert_eq!(state.memory.utilization_mb.current, Some(6144));

    state.cpu.thermal_throttling.update(false);
    state.cpu.thermal_throttling.update(true);
    state.cpu.thermal_throttling.update(false);

    assert_eq!(state.cpu.thermal_throttling.session_min, Some(false));
    assert_eq!(state.cpu.thermal_throttling.session_max, Some(true));
    assert_eq!(state.cpu.thermal_throttling.current, Some(false));
}

#[test]
fn test_application_state_lifecycle() {
    let state = AppState::new_shared(1000);
    assert_eq!(state.read().polling_interval_ms, 1000);

    let mut poller = HardwarePoller::new(state.clone(), 1000);
    let mut logger = AppLogger::new("test.log");

    poller.poll_hardware(&mut logger);

    {
        let app_state = state.read();
        assert!(app_state.cpu.utilization.current.is_some());
        assert!(app_state.memory.utilization_mb.current.is_some());
    }

    for _ in 0..5 {
        poller.poll_hardware(&mut logger);
    }

    {
        let app_state = state.read();
        assert!(app_state.cpu.utilization.history.len() >= 6);
        assert!(app_state.memory.utilization_mb.history.len() >= 6);
    }

    {
        let app_state = state.read();

        let has_cpu = app_state.has_cpu_data();
        let has_memory = app_state.has_memory_data();
        let has_gpu = app_state.has_gpu_data();
        let has_storage = app_state.has_storage_data();
        let has_motherboard = app_state.has_motherboard_data();

        assert!(has_cpu);
        assert!(has_memory);

        let _all_sections = [has_cpu, has_memory, has_gpu, has_storage, has_motherboard];
    }
}
