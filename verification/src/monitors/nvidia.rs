//! The monitor for NVIDIA graphics processors, through the NVIDIA management
//! library.

use vstd::prelude::*;
use crate::hardware::HardwareError;
use crate::logger::{error_message, AppLogger, LogLevel};
use crate::hardware_detection::{GpuVendor, HardwareInfo, HardwareMonitor};
use crate::ieee::{rounded_whole, Single};
use crate::model::{AppState, Channel, SharedAppState, StateWriteGuard};
use crate::sensors::BYTES_PER_MB;

verus! {

/// A session with the NVIDIA management library.
#[verifier::external_type_specification]
#[verifier::external_body]
pub struct ExNvml(nvml_wrapper::Nvml);

/// An error of the NVIDIA management library.
#[verifier::external_type_specification]
#[verifier::external_body]
pub struct ExNvmlError(nvml_wrapper::error::NvmlError);

/// A graphics processor, as the NVIDIA management library hands it out.
#[verifier::external_type_specification]
#[verifier::external_body]
pub struct ExDevice<'nvml>(nvml_wrapper::Device<'nvml>);

/// Starts a session, by `Nvml::init`. Whether it succeeds depends on the
/// machine: the library and a driver have to be there.
#[verifier::external_body]
pub(crate) fn nvml_init() -> (session: Result<nvml_wrapper::Nvml, nvml_wrapper::error::NvmlError>) {
    nvml_wrapper::Nvml::init()
}

/// The text of an error, as its `Display` writes it.
#[verifier::external_body]
fn nvml_error_text(error: &nvml_wrapper::error::NvmlError) -> (text: String) {
    error.to_string()
}

/// How many graphics processors there are, by `Nvml::device_count`; absent
/// where the library reports an error.
#[verifier::external_body]
fn device_count(nvml: &nvml_wrapper::Nvml) -> (count: Option<u32>) {
    nvml.device_count().ok()
}

/// The first graphics processor, by `Nvml::device_by_index` at index 0;
/// absent where the library reports an error.
#[verifier::external_body]
fn first_device<'nvml>(nvml: &'nvml nvml_wrapper::Nvml) -> (device: Option<
    nvml_wrapper::Device<'nvml>,
>) {
    nvml.device_by_index(0).ok()
}

/// The load of the graphics processor in percent: the field `gpu` of what
/// `Device::utilization_rates` returns; absent on an error.
#[verifier::external_body]
fn device_utilization(device: &nvml_wrapper::Device<'_>) -> (percent: Option<u32>) {
    device.utilization_rates().ok().map(|rates| rates.gpu)
}

/// The graphics clock in MHz, by `Device::clock_info` for the graphics
/// domain; absent on an error.
#[verifier::external_body]
fn device_graphics_clock(device: &nvml_wrapper::Device<'_>) -> (mhz: Option<u32>) {
    device.clock_info(nvml_wrapper::enum_wrappers::device::Clock::Graphics).ok()
}

/// The memory in use in bytes: the field `used` of what `Device::memory_info`
/// returns; absent on an error.
#[verifier::external_body]
fn device_used_memory(device: &nvml_wrapper::Device<'_>) -> (bytes: Option<u64>) {
    device.memory_info().ok().map(|info| info.used)
}

/// The temperature of the die in whole degrees Celsius, by
/// `Device::temperature` for the sensor of the die; absent on an error.
#[verifier::external_body]
fn device_temperature(device: &nvml_wrapper::Device<'_>) -> (celsius: Option<u32>) {
    device.temperature(nvml_wrapper::enum_wrappers::device::TemperatureSensor::Gpu).ok()
}

/// The power draw in milliwatts, by `Device::power_usage`; absent on an error.
#[verifier::external_body]
fn device_power_usage(device: &nvml_wrapper::Device<'_>) -> (milliwatts: Option<u32>) {
    device.power_usage().ok()
}

/// Whether the set of reasons for throttling is empty: `is_empty` of what
/// `Device::current_throttle_reasons` returns; absent on an error.
#[verifier::external_body]
fn device_throttle_reasons_empty(device: &nvml_wrapper::Device<'_>) -> (empty: Option<bool>) {
    device.current_throttle_reasons().ok().map(|reasons| reasons.is_empty())
}

/// What the management library reports of a graphics processor in one cycle.
/// Each reading is absent where the library had none.
#[derive(Debug, Clone, Copy)]
pub struct NvidiaReadings {
    /// Load, in percent.
    pub utilization: Option<u32>,
    /// Graphics clock, in MHz.
    pub clock: Option<u32>,
    /// Memory in use, in bytes.
    pub used_memory: Option<u64>,
    /// Temperature of the die, in whole degrees Celsius.
    pub temperature: Option<u32>,
    /// Power draw, in milliwatts.
    pub power_usage: Option<u32>,
    /// Whether there is no reason for throttling.
    pub throttle_reasons_empty: Option<bool>,
}

impl NvidiaReadings {
    /// The load sample: the percentage as a floating-point number.
    pub open spec fn utilization_sample(self) -> Option<Single> {
        match self.utilization {
            Some(percent) => Some(Single::nearest_to(percent as int, 1)),
            None => None,
        }
    }

    /// The memory sample: the bytes in use, in whole megabytes.
    pub open spec fn memory_sample(self) -> Option<u64> {
        match self.used_memory {
            Some(bytes) => Some(bytes / BYTES_PER_MB),
            None => None,
        }
    }

    /// The temperature sample: the degrees as a floating-point number.
    pub open spec fn temperature_sample(self) -> Option<Single> {
        match self.temperature {
            Some(celsius) => Some(Single::nearest_to(celsius as int, 1)),
            None => None,
        }
    }

    /// The power sample: the milliwatts as a floating-point number, divided
    /// by one thousand.
    pub open spec fn power_sample(self) -> Option<Single> {
        match self.power_usage {
            Some(milliwatts) => Some(Single::nearest_to(rounded_whole(milliwatts as int), 1000)),
            None => None,
        }
    }

    /// The throttling sample: whether there is a reason for throttling.
    pub open spec fn throttling_sample(self) -> Option<bool> {
        match self.throttle_reasons_empty {
            Some(empty) => Some(!empty),
            None => None,
        }
    }
}

/// The channels that the NVIDIA monitor writes.
pub open spec fn nvidia_channels() -> Set<Channel> {
    set![
        Channel::GpuUtilization,
        Channel::GpuClockSpeed,
        Channel::GpuMemoryUtilization,
        Channel::GpuPackageTemperature,
        Channel::GpuPowerConsumption,
        Channel::GpuThermalThrottling,
    ]
}

/// Whether `after` is `before` with the readings of a cycle written to its
/// graphics channels: each channel takes the sample of its reading where
/// there is one. Nothing else changes.
pub open spec fn written_by_nvidia(after: AppState, before: AppState, readings: NvidiaReadings) -> bool {
    &&& after.gpu.utilization@.is_update_if(before.gpu.utilization@, readings.utilization_sample())
    &&& after.gpu.clock_speed@.is_update_if(before.gpu.clock_speed@, readings.clock)
    &&& after.gpu.memory_utilization@.is_update_if(
        before.gpu.memory_utilization@,
        readings.memory_sample(),
    )
    &&& after.gpu.package_temperature@.is_update_if(
        before.gpu.package_temperature@,
        readings.temperature_sample(),
    )
    &&& after.gpu.power_consumption@.is_update_if(
        before.gpu.power_consumption@,
        readings.power_sample(),
    )
    &&& after.gpu.thermal_throttling@.is_update_if(
        before.gpu.thermal_throttling@,
        readings.throttling_sample(),
    )
    &&& after.same_except(&before, nvidia_channels())
    &&& after.retains(&before)
}

/// Writes the readings of a cycle to the graphics channels of `state`.
pub fn apply_nvidia_readings(state: &mut AppState, readings: &NvidiaReadings)
    ensures
        written_by_nvidia(*final(state), *old(state), *readings),
{
    if let Some(percent) = readings.utilization {
        state.gpu.utilization.update(Single::from_u32(percent));
    }
    state.gpu.clock_speed.update_if(readings.clock);
    if let Some(bytes) = readings.used_memory {
        state.gpu.memory_utilization.update(bytes / 1024 / 1024);
    }
    if let Some(celsius) = readings.temperature {
        state.gpu.package_temperature.update(Single::from_u32(celsius));
    }
    if let Some(milliwatts) = readings.power_usage {
        state.gpu.power_consumption.update(Single::from_thousandths(milliwatts));
    }
    if let Some(empty) = readings.throttle_reasons_empty {
        state.gpu.thermal_throttling.update(!empty);
    }
}

/// The monitor for NVIDIA graphics processors.
pub struct NvidiaMonitor {
    nvml: Option<nvml_wrapper::Nvml>,
    initialized: bool,
}

impl NvidiaMonitor {
    /// A monitor that is not initialized yet.
    pub fn new() -> (monitor: Self)
        ensures
            !monitor.is_initialized(),
    {
        NvidiaMonitor { nvml: None, initialized: false }
    }

    /// Takes the readings of the first graphics processor; none where the
    /// library counts no processor or does not hand out the first.
    fn read(nvml: &nvml_wrapper::Nvml) -> (readings: Option<NvidiaReadings>) {
        match device_count(nvml) {
            Some(count) => {
                if count > 0 {
                    match first_device(nvml) {
                        Some(device) => Some(
                            NvidiaReadings {
                                utilization: device_utilization(&device),
                                clock: device_graphics_clock(&device),
                                used_memory: device_used_memory(&device),
                                temperature: device_temperature(&device),
                                power_usage: device_power_usage(&device),
                                throttle_reasons_empty: device_throttle_reasons_empty(&device),
                            },
                        ),
                        None => None,
                    }
                } else {
                    None
                }
            },
            None => None,
        }
    }
}

impl HardwareMonitor for NvidiaMonitor {
    closed spec fn is_initialized(&self) -> bool {
        self.initialized
    }

    /// An NVIDIA graphics processor was found.
    open spec fn supports(&self, info: &HardwareInfo) -> bool {
        info.has_gpu(GpuVendor::NVIDIA)
    }

    /// Success leaves the monitor initialized and logs that it is. A failure
    /// leaves it as it was, says that the library is not available, with the
    /// library's text, and logs that text as an error.
    open spec fn initializes(
        &self,
        before: &Self,
        outcome: Result<(), HardwareError>,
        log_before: Seq<(LogLevel, Seq<char>)>,
        log_after: Seq<(LogLevel, Seq<char>)>,
    ) -> bool {
        match outcome {
            Ok(_) => {
                &&& self.is_initialized()
                &&& log_after == log_before.push(
                    (LogLevel::Info, "NVIDIA NVML initialized successfully"@),
                )
            },
            Err(HardwareError::SensorUnavailable(text)) => {
                &&& *self == *before
                &&& log_after == log_before.push(
                    (LogLevel::Error, error_message("Failed to initialize NVIDIA NVML"@, text@)),
                )
            },
            Err(_) => false,
        }
    }

    /// The update succeeds and leaves the monitor as it was. The state is
    /// left as it was, or, by an initialized monitor, with the readings of
    /// one cycle written to its graphics channels.
    open spec fn updates(
        &self,
        before: &Self,
        state_before: AppState,
        state_after: AppState,
        outcome: Result<(), HardwareError>,
    ) -> bool {
        &&& outcome is Ok
        &&& *self == *before
        &&& {
            ||| state_after == state_before
            ||| before.is_initialized() && exists|readings: NvidiaReadings| #[trigger]
                written_by_nvidia(state_after, state_before, readings)
        }
    }

    /// Starts a session with the management library. Where that fails, the
    /// monitor stays as it was and the failure carries the library's text.
    fn initialize(&mut self, logger: &mut AppLogger) -> (outcome: Result<(), HardwareError>) {
        match nvml_init() {
            Ok(session) => {
                self.nvml = Some(session);
                self.initialized = true;
                logger.log_info("NVIDIA NVML initialized successfully");
                Ok(())
            },
            Err(error) => {
                let text = nvml_error_text(&error);
                logger.log_error("Failed to initialize NVIDIA NVML", text.as_str());
                Err(HardwareError::SensorUnavailable(text))
            },
        }
    }

    /// When initialized: takes the readings of the first graphics processor
    /// and writes them. Always succeeds; a reading that the library does not
    /// give is left out, and nothing changes outside the graphics channels
    /// of the monitor.
    fn update_state(&mut self, state: &mut AppState) -> (outcome: Result<(), HardwareError>)
        ensures
            outcome is Ok,
            *final(self) == *old(self),
            final(state).same_except(old(state), nvidia_channels()),
    {
        let outcome = Ok(());
        if self.initialized {
            if let Some(nvml) = &self.nvml {
                if let Some(readings) = NvidiaMonitor::read(nvml) {
                    apply_nvidia_readings(state, &readings);
                    assert(written_by_nvidia(*state, *old(state), readings));
                }
            }
        }
        assert(self.updates(old(self), *old(state), *state, outcome));
        outcome
    }

    /// Takes exclusive access to `shared` and updates the state under it.
    /// Always succeeds.
    fn update_metrics(&mut self, shared: &SharedAppState) -> (outcome: Result<(), HardwareError>)
        ensures
            outcome is Ok,
    {
        let mut guard = StateWriteGuard::acquire(shared);
        self.update_state(guard.state())
    }

    fn supports_hardware(&self, info: &HardwareInfo) -> (supported: bool) {
        info.has_gpu_vendor(GpuVendor::NVIDIA)
    }
}

} // verus!
