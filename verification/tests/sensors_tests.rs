use simple_performance_dashboard::ieee::Single;
use simple_performance_dashboard::sensors::{
    clock_sample, first_frequency, first_temperature, read_sensors, Sensor, SensorClass, BYTES_PER_MB,
};

fn single(x: f32) -> Single {
    Single::from_bits(x.to_bits())
}

fn number(s: Single) -> f32 {
    f32::from_bits(s.to_bits())
}

fn sensor(label: &str, temperature: f32) -> Sensor {
    Sensor { label: label.to_string(), temperature: single(temperature) }
}

#[test]
fn labels_are_kept_in_lowercase() {
    let made = Sensor::new("CPU Package id 0", single(61.5));
    assert_eq!(made.label, "cpu package id 0");
    assert_eq!(number(made.temperature), 61.5);
    assert_eq!(Sensor::new("ÄCPI Thermal", single(1.0)).label, "äcpi thermal");
    assert_eq!(Sensor::new("", single(1.0)).label, "");
}

#[test]
fn classes_go_by_what_the_label_contains() {
    assert!(SensorClass::CpuPackage.matches("cpu package id 0"));
    assert!(SensorClass::CpuPackage.matches("k10temp cpu tctl"));
    assert!(SensorClass::CpuPackage.matches("tdie of cpu"));
    assert!(!SensorClass::CpuPackage.matches("package id 0"));
    assert!(!SensorClass::CpuPackage.matches("cpu fan"));
    assert!(!SensorClass::CpuPackage.matches("CPU PACKAGE"));

    assert!(SensorClass::Cpu.matches("acpi cpu zone"));
    assert!(!SensorClass::Cpu.matches("c p u"));

    assert!(SensorClass::Processor.matches("coretemp core 3"));
    assert!(SensorClass::Processor.matches("package id 0"));
    assert!(SensorClass::Processor.matches("cpu"));
    assert!(!SensorClass::Processor.matches("nvme composite"));

    assert!(SensorClass::Gpu.matches("amdgpu edge"));
    assert!(SensorClass::Gpu.matches("integrated graphics"));
    assert!(SensorClass::Gpu.matches("video memory"));
    assert!(!SensorClass::Gpu.matches("g p u"));

    assert!(SensorClass::Memory.matches("memory junction"));
    assert!(SensorClass::Memory.matches("spd5118 dimm 1"));
    assert!(SensorClass::Memory.matches("vram"));
    assert!(!SensorClass::Memory.matches("nvme"));

    assert!(SensorClass::Chipset.matches("pch chipset"));
    assert!(SensorClass::Chipset.matches("motherboard"));
    assert!(!SensorClass::Chipset.matches("mainboard"));

    assert!(SensorClass::Chassis.matches("chassis intake"));
    assert!(SensorClass::Chassis.matches("case"));
    assert!(SensorClass::Chassis.matches("system zone"));
    assert!(!SensorClass::Chassis.matches(""));
}

#[test]
fn the_first_named_sensor_gives_the_reading() {
    let sensors = vec![
        sensor("nvme composite", 35.0),
        sensor("amdgpu edge", 41.0),
        sensor("coretemp core 0", 50.0),
        sensor("gpu junction", 47.0),
        sensor("cpu package", 55.0),
    ];
    assert_eq!(first_temperature(&sensors, SensorClass::Gpu).map(number), Some(41.0));
    assert_eq!(first_temperature(&sensors, SensorClass::Processor).map(number), Some(50.0));
    assert_eq!(first_temperature(&sensors, SensorClass::Cpu).map(number), Some(55.0));
    assert_eq!(first_temperature(&sensors, SensorClass::CpuPackage).map(number), Some(55.0));
    assert_eq!(first_temperature(&sensors, SensorClass::Memory), None);
    assert_eq!(first_temperature(&Vec::new(), SensorClass::Gpu), None);
}

#[test]
fn clock_samples_are_the_low_32_bits_when_not_zero() {
    assert_eq!(clock_sample(None), None);
    assert_eq!(clock_sample(Some(0)), None);
    assert_eq!(clock_sample(Some(3400)), Some(3400));
    assert_eq!(clock_sample(Some(0xffff_ffff)), Some(0xffff_ffff));
    assert_eq!(clock_sample(Some(0x1_0000_0000)), None);
    assert_eq!(clock_sample(Some(0x1_0000_0001)), Some(1));
    assert_eq!(BYTES_PER_MB, 1_048_576);
}

#[test]
fn listed_components_are_read_as_they_are() {
    let components = sysinfo::Components::new_with_refreshed_list();
    let sensors = read_sensors(&components);
    assert_eq!(sensors.len(), components.list().len());
    for (sensor, component) in sensors.iter().zip(components.list()) {
        assert_eq!(sensor.label, component.label().to_lowercase());
        assert_eq!(sensor.temperature.to_bits(), component.temperature().to_bits());
    }
}

#[test]
fn the_first_processor_stands_for_the_clock() {
    assert_eq!(first_frequency(&vec![3400, 2800, 1200]), Some(3400));
    assert_eq!(first_frequency(&vec![0]), Some(0));
    assert_eq!(first_frequency(&Vec::new()), None);
}
