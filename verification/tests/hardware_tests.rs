use simple_performance_dashboard::hardware::{
    apply_cpu_readings, apply_gpu_readings, apply_memory_readings, apply_motherboard_sensors,
    cpu_temperature, HardwareError, HardwarePoller, HardwareResult,
};
use simple_performance_dashboard::ieee::Single;
use simple_performance_dashboard::logger::AppLogger;
use simple_performance_dashboard::model::{AppState, SharedAppState};
use simple_performance_dashboard::sensors::Sensor;

fn create_test_state() -> SharedAppState {
    AppState::new_shared(100)
}

fn single(x: f32) -> Single {
    Single::from_bits(x.to_bits())
}

fn number(s: Single) -> f32 {
    f32::from_bits(s.to_bits())
}

fn sensor(label: &str, temperature: f32) -> Sensor {
    Sensor { label: label.to_string(), temperature: single(temperature) }
}

#[test]
fn test_hardware_poller_creation() {
    let state = create_test_state();
    let poller = HardwarePoller::new(state.clone(), 500);

    assert_eq!(poller.polling_interval_ms(), 500);
}

#[test]
fn test_hardware_error_display() {
    let sensor_error = HardwareError::SensorUnavailable("CPU Temperature".to_string());
    let read_error = HardwareError::ReadFailure("Permission denied".to_string());

    assert_eq!(sensor_error.to_string(), "Sensor unavailable: CPU Temperature");
    assert_eq!(read_error.to_string(), "Read failure: Permission denied");
}

#[test]
fn test_hardware_error_debug() {
    let sensor_error = HardwareError::SensorUnavailable("GPU Clock".to_string());
    let debug_output = format!("{:?}", sensor_error);
    assert!(debug_output.contains("SensorUnavailable"));
    assert!(debug_output.contains("GPU Clock"));
}

#[test]
fn test_update_cpu_metrics_basic() {
    let state = create_test_state();
    let mut poller = HardwarePoller::new(state.clone(), 1000);

    let result = poller.update_cpu_metrics();
    assert!(result.is_ok());

    let app_state = state.read();
    assert!(app_state.cpu.utilization.current.is_some());
}

#[test]
fn test_update_gpu_metrics_basic() {
    let state = create_test_state();
    let mut poller = HardwarePoller::new(state.clone(), 1000);

    let result = poller.update_gpu_metrics();
    assert!(result.is_ok());
}

#[test]
fn test_update_memory_metrics_basic() {
    let state = create_test_state();
    let mut poller = HardwarePoller::new(state.clone(), 1000);

    let result = poller.update_memory_metrics();
    assert!(result.is_ok());

    let app_state = state.read();
    assert!(app_state.memory.utilization_mb.current.is_some());
}

#[test]
fn test_update_storage_metrics_basic() {
    let state = create_test_state();
    let mut poller = HardwarePoller::new(state.clone(), 1000);

    let result = poller.update_storage_metrics();
    assert!(result.is_ok());
    assert!(!state.read().has_storage_data());
}

#[test]
fn test_update_motherboard_metrics_basic() {
    let state = create_test_state();
    let mut poller = HardwarePoller::new(state.clone(), 1000);

    let result = poller.update_motherboard_metrics();
    assert!(result.is_ok());
}

#[test]
fn test_poll_hardware_comprehensive() {
    let state = create_test_state();
    let mut poller = HardwarePoller::new(state.clone(), 1000);
    let mut logger = AppLogger::new("test.log");

    poller.poll_hardware(&mut logger);

    let app_state = state.read();

    assert!(app_state.cpu.utilization.current.is_some());
    assert!(app_state.memory.utilization_mb.current.is_some());

    if let Some(cpu_util) = app_state.cpu.utilization.current {
        let cpu_util = number(cpu_util);
        assert!(cpu_util >= 0.0 && cpu_util <= 100.0);
    }

    if let Some(mem_util) = app_state.memory.utilization_mb.current {
        assert!(mem_util > 0);
    }
    assert_eq!(logger.entries.len(), 1);
}

#[test]
fn test_get_cpu_temperature() {
    let state = create_test_state();
    let poller = HardwarePoller::new(state, 1000);

    let temp = poller.get_cpu_temperature();

    if let Some(temperature) = temp {
        let temperature = number(temperature);
        assert!(temperature > -50.0 && temperature < 150.0);
    }
}

#[test]
fn test_get_gpu_temperature() {
    let state = create_test_state();
    let poller = HardwarePoller::new(state, 1000);

    let temp = poller.get_gpu_temperature();

    if let Some(temperature) = temp {
        let temperature = number(temperature);
        assert!(temperature > -50.0 && temperature < 150.0);
    }
}

#[test]
fn test_get_memory_temperature() {
    let state = create_test_state();
    let poller = HardwarePoller::new(state, 1000);

    let temp = poller.get_memory_temperature();

    if let Some(temperature) = temp {
        let temperature = number(temperature);
        assert!(temperature > -50.0 && temperature < 150.0);
    }
}

#[test]
fn test_multiple_polling_cycles() {
    let state = create_test_state();
    let mut poller = HardwarePoller::new(state.clone(), 1000);
    let mut logger = AppLogger::new("test.log");

    poller.poll_hardware(&mut logger);
    poller.poll_hardware(&mut logger);
    poller.poll_hardware(&mut logger);

    let app_state = state.read();

    assert!(app_state.cpu.utilization.history.len() >= 3);

    if app_state.cpu.utilization.current.is_some() {
        assert!(app_state.cpu.utilization.session_min.is_some());
        assert!(app_state.cpu.utilization.session_max.is_some());
    }
}

#[test]
fn test_metric_bounds_validation() {
    let state = create_test_state();
    let mut poller = HardwarePoller::new(state.clone(), 1000);
    let mut logger = AppLogger::new("test.log");

    poller.poll_hardware(&mut logger);

    let app_state = state.read();

    if let Some(cpu_util) = app_state.cpu.utilization.current {
        let cpu_util = number(cpu_util);
        assert!(
            cpu_util >= 0.0 && cpu_util <= 100.0,
            "CPU utilization should be between 0-100%, got: {}",
            cpu_util
        );
    }

    if let Some(mem_util) = app_state.memory.utilization_mb.current {
        assert!(mem_util > 0, "Memory utilization should be positive, got: {}", mem_util);
    }

    if let Some(cpu_freq) = app_state.cpu.clock_speed.current {
        assert!(cpu_freq > 0, "CPU frequency should be positive, got: {}", cpu_freq);
    }

    if let Some(cpu_temp) = app_state.cpu.package_temperature.current {
        let cpu_temp = number(cpu_temp);
        assert!(
            cpu_temp > -50.0 && cpu_temp < 150.0,
            "CPU temperature should be reasonable, got: {}°C",
            cpu_temp
        );
    }
}

#[test]
fn test_hardware_result_ok() {
    let result: HardwareResult<i32> = Ok(42);
    assert!(result.is_ok());
    assert_eq!(result.unwrap(), 42);
}

#[test]
fn test_hardware_result_err() {
    let result: HardwareResult<i32> = Err(HardwareError::SensorUnavailable("test".to_string()));
    assert!(result.is_err());

    match result {
        Err(HardwareError::SensorUnavailable(msg)) => assert_eq!(msg, "test"),
        _ => panic!("Expected SensorUnavailable error"),
    }
}

#[test]
fn test_polling_interval_consistency() {
    let intervals = [100, 500, 1000, 2000, 5000];

    for &interval_ms in &intervals {
        let state = create_test_state();
        let poller = HardwarePoller::new(state, interval_ms);
        assert_eq!(poller.polling_interval_ms(), interval_ms);
    }
}

#[test]
fn test_system_refresh_calls() {
    let state = create_test_state();
    let mut poller = HardwarePoller::new(state, 1000);
    let mut logger = AppLogger::new("test.log");

    for _ in 0..5 {
        poller.poll_hardware(&mut logger);
    }

    assert!(true);
}

#[test]
fn test_error_handling_robustness() {
    let state = create_test_state();
    let mut poller = HardwarePoller::new(state.clone(), 1000);
    let mut logger = AppLogger::new("test.log");

    let _cpu_result = poller.update_cpu_metrics();
    let _gpu_result = poller.update_gpu_metrics();
    let _memory_result = poller.update_memory_metrics();
    let _storage_result = poller.update_storage_metrics();
    let _motherboard_result = poller.update_motherboard_metrics();

    poller.poll_hardware(&mut logger);

    let app_state = state.read();
    assert_eq!(app_state.polling_interval_ms, 100);
}

#[test]
fn the_package_sensor_is_preferred_for_the_processor() {
    let sensors = vec![
        sensor("gpu edge", 40.0),
        sensor("cpu fan zone", 31.0),
        sensor("k10temp cpu tctl", 55.5),
        sensor("cpu package id 0", 60.0),
    ];
    assert_eq!(cpu_temperature(&sensors).map(number), Some(55.5));

    let fallback = vec![sensor("nvme composite", 35.0), sensor("acpi cpu zone", 44.0)];
    assert_eq!(cpu_temperature(&fallback).map(number), Some(44.0));

    let none = vec![sensor("nvme composite", 35.0), sensor("package only", 44.0)];
    assert_eq!(cpu_temperature(&none), None);
    assert_eq!(cpu_temperature(&Vec::new()), None);
}

#[test]
fn processor_readings_reach_their_channels_only() {
    let mut state = AppState::default();
    apply_cpu_readings(&mut state, single(12.5), Some(3400), Some(single(61.0)));
    assert_eq!(state.cpu.utilization.current.map(number), Some(12.5));
    assert_eq!(state.cpu.clock_speed.current, Some(3400));
    assert_eq!(state.cpu.package_temperature.current.map(number), Some(61.0));
    assert!(state.cpu.core_voltage.current.is_none());
    assert!(!state.has_gpu_data());
    assert!(!state.has_memory_data());

    apply_cpu_readings(&mut state, single(20.0), Some(0), None);
    assert_eq!(state.cpu.utilization.history.len(), 2);
    assert_eq!(state.cpu.clock_speed.history.len(), 1);
    assert_eq!(state.cpu.clock_speed.current, Some(3400));
    assert_eq!(state.cpu.package_temperature.history.len(), 1);

    apply_cpu_readings(&mut state, single(21.0), None, None);
    assert_eq!(state.cpu.clock_speed.history.len(), 1);

    apply_cpu_readings(&mut state, single(22.0), Some(0x1_0000_0000 + 7), None);
    assert_eq!(state.cpu.clock_speed.current, Some(7));
    apply_cpu_readings(&mut state, single(22.0), Some(0x3_0000_0000), None);
    assert_eq!(state.cpu.clock_speed.history.len(), 2);
}

#[test]
fn graphics_and_memory_readings_reach_their_channels_only() {
    let mut state = AppState::default();
    apply_gpu_readings(&mut state, None);
    assert!(!state.has_gpu_data());
    apply_gpu_readings(&mut state, Some(single(70.0)));
    assert_eq!(state.gpu.package_temperature.current.map(number), Some(70.0));
    apply_gpu_readings(&mut state, Some(single(71.0)));
    assert_eq!(state.gpu.package_temperature.history.len(), 2);

    apply_memory_readings(&mut state, 8 * 1024 * 1024 * 1024 + 1_048_575, None);
    assert_eq!(state.memory.utilization_mb.current, Some(8192));
    assert!(state.memory.temperature.current.is_none());
    apply_memory_readings(&mut state, 1_048_575, Some(single(45.0)));
    assert_eq!(state.memory.utilization_mb.current, Some(0));
    assert_eq!(state.memory.utilization_mb.session_max, Some(8192));
    assert_eq!(state.memory.temperature.current.map(number), Some(45.0));
    assert!(!state.has_cpu_data());
}

#[test]
fn mainboard_sensors_are_recorded_in_order() {
    let mut state = AppState::default();
    let sensors = vec![
        sensor("chipset", 50.0),
        sensor("case front", 30.0),
        sensor("cpu package", 60.0),
        sensor("motherboard system zone", 48.0),
        sensor("system fan header", 29.0),
        sensor("pch chipset chassis", 52.0),
    ];
    apply_motherboard_sensors(&mut state, &sensors);

    let chipset: Vec<f32> =
        state.motherboard.chipset_temperature.history.iter().map(|e| number(e.1)).collect();
    let chassis: Vec<f32> =
        state.motherboard.chassis_temperature.history.iter().map(|e| number(e.1)).collect();
    assert_eq!(chipset, vec![50.0, 48.0, 52.0]);
    assert_eq!(chassis, vec![30.0, 29.0]);
    assert_eq!(state.motherboard.chipset_temperature.current.map(number), Some(52.0));
    assert_eq!(state.motherboard.chipset_temperature.session_min.map(number), Some(48.0));
    assert_eq!(state.motherboard.chipset_temperature.session_max.map(number), Some(52.0));
    assert_eq!(state.motherboard.chassis_temperature.session_min.map(number), Some(29.0));
    assert!(state.motherboard.aio_pump_speed.current.is_none());
    assert!(!state.has_cpu_data());

    apply_motherboard_sensors(&mut state, &Vec::new());
    assert_eq!(state.motherboard.chipset_temperature.history.len(), 3);
}

#[test]
fn a_polling_cycle_on_a_state_samples_load_and_memory() {
    let mut poller = HardwarePoller::new(create_test_state(), 10);
    let mut logger = AppLogger::new("test.log");
    let mut state = AppState::default();
    for cycle in 1..=5 {
        poller.poll_state(&mut state, &mut logger);
        assert_eq!(state.cpu.utilization.history.len(), cycle);
        assert_eq!(state.memory.utilization_mb.history.len(), cycle);
        assert!(state.cpu.utilization.current.is_some());
        assert!(state.memory.utilization_mb.current.is_some());
    }
    assert!(!state.has_storage_data());
    assert!(state.cpu.core_voltage.current.is_none());
    assert!(state.gpu.utilization.current.is_none());
    assert_eq!(logger.entries.len(), 1);

    let mut other = AppState::default();
    assert!(poller.write_cpu_metrics(&mut other).is_ok());
    assert_eq!(other.cpu.utilization.history.len(), 1);
    assert!(!other.has_memory_data());
    assert!(poller.write_memory_metrics(&mut other).is_ok());
    assert_eq!(other.memory.utilization_mb.history.len(), 1);
    assert!(poller.write_storage_metrics(&mut other).is_ok());
    assert!(!other.has_storage_data());
    assert!(poller.write_gpu_metrics(&mut other).is_ok());
    assert!(poller.write_motherboard_metrics(&mut other).is_ok());
    assert_eq!(other.cpu.utilization.history.len(), 1);
}
