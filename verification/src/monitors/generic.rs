//! The fallback monitor: processor, memory and temperature samples from the
//! platform-neutral system-information facility.

use vstd::prelude::*;
use crate::hardware::HardwareError;
use crate::logger::{AppLogger, LogLevel};
use crate::hardware_detection::{HardwareInfo, HardwareMonitor};
use crate::ieee::Single;
use crate::model::{AppState, Channel, SharedAppState, StateWriteGuard};
use crate::sensors::{
    clock_sample, clock_sample_of, first_cpu_frequency, first_reading, first_temperature,
    global_cpu_usage, listed, new_components, new_system, read_sensors, refresh_components,
    refresh_system, sensors_of, used_memory, Sensor, SensorClass, BYTES_PER_MB,
};

verus! {

/// What the fallback monitor reads in one cycle.
#[derive(Debug, Clone)]
pub struct GenericReadings {
    /// Load over all processors, in percent.
    pub cpu_usage: Single,
    /// Clock of the first processor, in MHz, where a processor is listed.
    pub cpu_frequency: Option<u64>,
    /// Temperature of the processor, where a sensor is named for it.
    pub cpu_temperature: Option<Single>,
    /// Memory in use, in bytes.
    pub used_memory: u64,
    /// Temperature of the memory, where a sensor is named for it.
    pub memory_temperature: Option<Single>,
    /// Temperature of the graphics processor, where a sensor is named for it.
    pub gpu_temperature: Option<Single>,
}

impl GenericReadings {
    /// The readings of a cycle, from the numbers of the system snapshot and
    /// the sensors: each temperature is that of the first sensor named for it.
    pub fn from_sensors(
        cpu_usage: Single,
        cpu_frequency: Option<u64>,
        used_memory: u64,
        sensors: &Vec<Sensor>,
    ) -> (readings: GenericReadings)
        ensures
            readings.cpu_usage == cpu_usage,
            readings.cpu_frequency == cpu_frequency,
            readings.used_memory == used_memory,
            readings.cpu_temperature == first_reading(listed(sensors@), SensorClass::Processor),
            readings.memory_temperature == first_reading(listed(sensors@), SensorClass::Memory),
            readings.gpu_temperature == first_reading(listed(sensors@), SensorClass::Gpu),
    {
        GenericReadings {
            cpu_usage,
            cpu_frequency,
            cpu_temperature: first_temperature(sensors, SensorClass::Processor),
            used_memory,
            memory_temperature: first_temperature(sensors, SensorClass::Memory),
            gpu_temperature: first_temperature(sensors, SensorClass::Gpu),
        }
    }
}

/// The channels that the fallback monitor writes.
pub open spec fn generic_channels() -> Set<Channel> {
    set![
        Channel::CpuUtilization,
        Channel::CpuClockSpeed,
        Channel::CpuPackageTemperature,
        Channel::MemoryUtilization,
        Channel::MemoryTemperature,
        Channel::GpuPackageTemperature,
    ]
}

/// The sample that a temperature reading gives to a channel: the reading
/// itself while the channel has no current value, and none once it has one, so
/// that a value written by a vendor's monitor is never overwritten.
pub open spec fn guarded(present: bool, reading: Option<Single>) -> Option<Single> {
    if present {
        None
    } else {
        reading
    }
}

/// Whether `after` is `before` with the readings of a cycle written to it.
///
/// The load and the memory in use, in whole megabytes, are always written;
/// the clock where its sample exists; each temperature where a sensor gave
/// one and its channel has no current value yet. Nothing else changes.
pub open spec fn written_by_generic(after: AppState, before: AppState, readings: GenericReadings) -> bool {
    &&& after.cpu.utilization@.is_update_of(before.cpu.utilization@, readings.cpu_usage)
    &&& after.cpu.clock_speed@.is_update_if(
        before.cpu.clock_speed@,
        clock_sample_of(readings.cpu_frequency),
    )
    &&& after.cpu.package_temperature@.is_update_if(
        before.cpu.package_temperature@,
        guarded(before.cpu.package_temperature.present(), readings.cpu_temperature),
    )
    &&& after.memory.utilization_mb@.is_update_of(
        before.memory.utilization_mb@,
        readings.used_memory / BYTES_PER_MB,
    )
    &&& after.memory.temperature@.is_update_if(
        before.memory.temperature@,
        guarded(before.memory.temperature.present(), readings.memory_temperature),
    )
    &&& after.gpu.package_temperature@.is_update_if(
        before.gpu.package_temperature@,
        guarded(before.gpu.package_temperature.present(), readings.gpu_temperature),
    )
    &&& after.same_except(&before, generic_channels())
    &&& after.retains(&before)
}

/// Writes the readings of a cycle to `state`.
pub fn apply_generic_readings(state: &mut AppState, readings: &GenericReadings)
    ensures
        written_by_generic(*final(state), *old(state), *readings),
{
    state.cpu.utilization.update(readings.cpu_usage);
    state.cpu.clock_speed.update_if(clock_sample(readings.cpu_frequency));
    if state.cpu.package_temperature.current.is_none() {
        state.cpu.package_temperature.update_if(readings.cpu_temperature);
    }
    state.memory.utilization_mb.update(readings.used_memory / 1024 / 1024);
    if state.memory.temperature.current.is_none() {
        state.memory.temperature.update_if(readings.memory_temperature);
    }
    if state.gpu.package_temperature.current.is_none() {
        state.gpu.package_temperature.update_if(readings.gpu_temperature);
    }
}

/// The fallback monitor. It applies to every machine.
pub struct GenericMonitor {
    system: sysinfo::System,
    components: sysinfo::Components,
    initialized: bool,
}

impl GenericMonitor {
    /// A monitor that is not initialized yet.
    pub fn new() -> (monitor: Self)
        ensures
            !monitor.is_initialized(),
    {
        GenericMonitor { system: new_system(), components: new_components(), initialized: false }
    }

    /// The component list that the monitor reads.
    pub closed spec fn components(&self) -> sysinfo::Components {
        self.components
    }

    /// Whether `readings` can be what the monitor reads as it stands: each
    /// temperature is that of the first listed component named for it.
    pub open spec fn took(&self, readings: GenericReadings) -> bool {
        &&& readings.cpu_temperature == first_reading(
            sensors_of(self.components()),
            SensorClass::Processor,
        )
        &&& readings.memory_temperature == first_reading(
            sensors_of(self.components()),
            SensorClass::Memory,
        )
        &&& readings.gpu_temperature == first_reading(sensors_of(self.components()), SensorClass::Gpu)
    }

    /// Takes the readings of a cycle from the snapshot and the component list
    /// as they are.
    pub fn read(&self) -> (readings: GenericReadings)
        ensures
            self.took(readings),
    {
        let sensors = read_sensors(&self.components);
        GenericReadings::from_sensors(
            global_cpu_usage(&self.system),
            first_cpu_frequency(&self.system),
            used_memory(&self.system),
            &sensors,
        )
    }
}

impl HardwareMonitor for GenericMonitor {
    closed spec fn is_initialized(&self) -> bool {
        self.initialized
    }

    open spec fn supports(&self, info: &HardwareInfo) -> bool {
        true
    }

    /// The call succeeds, leaves the monitor initialized and logs that it
    /// is.
    open spec fn initializes(
        &self,
        before: &Self,
        outcome: Result<(), HardwareError>,
        log_before: Seq<(LogLevel, Seq<char>)>,
        log_after: Seq<(LogLevel, Seq<char>)>,
    ) -> bool {
        &&& outcome is Ok
        &&& self.is_initialized()
        &&& log_after == log_before.push(
            (LogLevel::Info, "Generic monitor initialized using sysinfo"@),
        )
    }

    /// The update succeeds. An initialized monitor writes the readings of
    /// one cycle, whose temperatures are those of the components that it
    /// lists after the update; a monitor that is not initialized changes
    /// nothing.
    open spec fn updates(
        &self,
        before: &Self,
        state_before: AppState,
        state_after: AppState,
        outcome: Result<(), HardwareError>,
    ) -> bool {
        &&& outcome is Ok
        &&& self.is_initialized() == before.is_initialized()
        &&& if before.is_initialized() {
            exists|readings: GenericReadings|
                {
                    &&& #[trigger] written_by_generic(state_after, state_before, readings)
                    &&& self.took(readings)
                }
        } else {
            *self == *before && state_after == state_before
        }
    }

    /// Loads the snapshot and the components, logs that the monitor is
    /// initialized, and always succeeds.
    fn initialize(&mut self, logger: &mut AppLogger) -> (outcome: Result<(), HardwareError>)
        ensures
            outcome is Ok,
    {
        refresh_system(&mut self.system);
        refresh_components(&mut self.components);
        self.initialized = true;
        logger.log_info("Generic monitor initialized using sysinfo");
        Ok(())
    }

    /// When initialized: reloads the snapshot and the components, takes the
    /// readings and writes them: the load and the memory in use get one
    /// sample each, and nothing changes outside the channels of the monitor.
    /// Always succeeds.
    fn update_state(&mut self, state: &mut AppState) -> (outcome: Result<(), HardwareError>)
        ensures
            outcome is Ok,
            old(self).is_initialized() ==> {
                &&& final(state).cpu.utilization@.history.len() == old(state).cpu.utilization@.history.len() + 1
                &&& final(state).memory.utilization_mb@.history.len() == old(state).memory.utilization_mb@.history.len() + 1
                &&& final(state).cpu.utilization.present()
                &&& final(state).memory.utilization_mb.present()
                &&& final(state).same_except(old(state), generic_channels())
            },
    {
        let outcome = Ok(());
        if self.initialized {
            refresh_system(&mut self.system);
            refresh_components(&mut self.components);
            let readings = self.read();
            apply_generic_readings(state, &readings);
            assert(written_by_generic(*state, *old(state), readings) && self.took(readings));
        }
        assert(self.updates(old(self), *old(state), *state, outcome));
        outcome
    }

    /// Takes exclusive access to `shared` and updates the state under it.
    /// Always succeeds.
    fn update_metrics(&mut self, shared: &SharedAppState) -> (outcome: Result<(), HardwareError>)
        ensures
            outcome is Ok,
    {
        let mut guard = StateWriteGuard::acquire(shared);
        self.update_state(guard.state())
    }

    fn supports_hardware(&self, info: &HardwareInfo) -> (supported: bool) {
        true
    }
}

} // verus!
