//! Direct polling of the system-information facility, and the errors of
//! hardware sampling.

use vstd::prelude::*;
use vstd::string::StringExecFns;
use crate::ieee::Single;
use crate::laws::law_updates_extend;
use crate::logger::AppLogger;
use crate::model::{AppState, Channel, SharedAppState, StateWriteGuard};
use crate::sensors::{
    clock_sample, clock_sample_of, first_cpu_frequency, first_reading, first_temperature,
    global_cpu_usage, listed, new_components, new_system, read_sensors, refresh_components,
    refresh_system, sensors_of, used_memory, Sensor, SensorClass, BYTES_PER_MB,
};

verus! {

/// Why a sample could not be had.
#[derive(Debug, Clone)]
pub enum HardwareError {
    /// The named sensor does not exist or cannot be reached.
    SensorUnavailable(String),
    /// Reading failed, for the reason given.
    ReadFailure(String),
}

/// The outcome of an operation on hardware.
pub type HardwareResult<T> = Result<T, HardwareError>;

impl HardwareError {
    /// The text of the error: `Sensor unavailable: ` and the sensor's name, or
    /// `Read failure: ` and the reason.
    pub open spec fn text(&self) -> Seq<char> {
        match self {
            HardwareError::SensorUnavailable(sensor) => "Sensor unavailable: "@ + sensor@,
            HardwareError::ReadFailure(reason) => "Read failure: "@ + reason@,
        }
    }

    /// The error as text.
    pub fn to_string(&self) -> (text: String)
        ensures
            text@ == self.text(),
    {
        match self {
            HardwareError::SensorUnavailable(sensor) => {
                String::from_str("Sensor unavailable: ").concat(sensor.as_str())
            },
            HardwareError::ReadFailure(reason) => {
                String::from_str("Read failure: ").concat(reason.as_str())
            },
        }
    }
}

/// The temperature of the processor among `sensors`: that of the first
/// sensor named for the processor package, or else of the first named for the
/// processor at all.
pub open spec fn cpu_reading(sensors: Seq<(Seq<char>, Single)>) -> Option<Single> {
    match first_reading(sensors, SensorClass::CpuPackage) {
        Some(temperature) => Some(temperature),
        None => first_reading(sensors, SensorClass::Cpu),
    }
}

/// The temperature of the processor among `sensors`.
pub fn cpu_temperature(sensors: &Vec<Sensor>) -> (reading: Option<Single>)
    ensures
        reading == cpu_reading(listed(sensors@)),
{
    match first_temperature(sensors, SensorClass::CpuPackage) {
        Some(temperature) => Some(temperature),
        None => first_temperature(sensors, SensorClass::Cpu),
    }
}

/// The mainboard channel that a sensor with a lowercase label feeds: the
/// chipset's where the label names the chipset, else the chassis's where it
/// names the chassis, else none.
pub open spec fn board_channel(label: Seq<char>) -> Option<SensorClass> {
    if SensorClass::Chipset.names(label) {
        Some(SensorClass::Chipset)
    } else if SensorClass::Chassis.names(label) {
        Some(SensorClass::Chassis)
    } else {
        None
    }
}

/// The readings, in order, of those of the first `n` sensors that feed the
/// mainboard channel `target`.
pub open spec fn board_readings(sensors: Seq<(Seq<char>, Single)>, target: SensorClass, n: int) -> Seq<
    Single,
>
    decreases n,
{
    if n <= 0 {
        Seq::empty()
    } else if board_channel(sensors[n - 1].0) == Some(target) {
        board_readings(sensors, target, n - 1).push(sensors[n - 1].1)
    } else {
        board_readings(sensors, target, n - 1)
    }
}

/// Whether `after` is `before` with the processor readings of a cycle
/// written: the load always, the clock where its sample exists, the
/// temperature where a sensor gave one. Nothing else changes.
pub open spec fn written_cpu(
    after: AppState,
    before: AppState,
    usage: Single,
    frequency: Option<u64>,
    temperature: Option<Single>,
) -> bool {
    &&& after.cpu.utilization@.is_update_of(before.cpu.utilization@, usage)
    &&& after.cpu.clock_speed@.is_update_if(before.cpu.clock_speed@, clock_sample_of(frequency))
    &&& after.cpu.package_temperature@.is_update_if(before.cpu.package_temperature@, temperature)
    &&& after.same_except(
        &before,
        set![Channel::CpuUtilization, Channel::CpuClockSpeed, Channel::CpuPackageTemperature],
    )
    &&& after.retains(&before)
}

/// Whether `after` is `before` with the graphics reading of a cycle written:
/// the temperature where a sensor gave one. Nothing else changes.
pub open spec fn written_gpu(after: AppState, before: AppState, temperature: Option<Single>) -> bool {
    &&& after.gpu.package_temperature@.is_update_if(before.gpu.package_temperature@, temperature)
    &&& after.same_except(&before, set![Channel::GpuPackageTemperature])
    &&& after.retains(&before)
}

/// Whether `after` is `before` with the memory readings of a cycle written:
/// the memory in use, in whole megabytes, always, and the temperature where
/// a sensor gave one. Nothing else changes.
pub open spec fn written_memory(
    after: AppState,
    before: AppState,
    used_bytes: u64,
    temperature: Option<Single>,
) -> bool {
    &&& after.memory.utilization_mb@.is_update_of(
        before.memory.utilization_mb@,
        used_bytes / BYTES_PER_MB,
    )
    &&& after.memory.temperature@.is_update_if(before.memory.temperature@, temperature)
    &&& after.same_except(&before, set![Channel::MemoryUtilization, Channel::MemoryTemperature])
    &&& after.retains(&before)
}

/// Whether `after` is `before` with the mainboard readings of a cycle
/// written: every sensor that feeds the chipset's or the chassis's channel
/// is recorded there, in the order of the sensors. Nothing else changes.
pub open spec fn written_board(after: AppState, before: AppState, sensors: Seq<(Seq<char>, Single)>) -> bool {
    &&& after.motherboard.chipset_temperature@.is_updates_of(
        before.motherboard.chipset_temperature@,
        board_readings(sensors, SensorClass::Chipset, sensors.len() as int),
    )
    &&& after.motherboard.chassis_temperature@.is_updates_of(
        before.motherboard.chassis_temperature@,
        board_readings(sensors, SensorClass::Chassis, sensors.len() as int),
    )
    &&& after.same_except(
        &before,
        set![Channel::ChipsetTemperature, Channel::ChassisTemperature],
    )
    &&& after.retains(&before)
}

/// Writes the processor readings of a cycle.
pub fn apply_cpu_readings(
    state: &mut AppState,
    usage: Single,
    frequency: Option<u64>,
    temperature: Option<Single>,
)
    ensures
        written_cpu(*final(state), *old(state), usage, frequency, temperature),
{
    state.cpu.utilization.update(usage);
    state.cpu.clock_speed.update_if(clock_sample(frequency));
    state.cpu.package_temperature.update_if(temperature);
}

/// Writes the graphics reading of a cycle.
pub fn apply_gpu_readings(state: &mut AppState, temperature: Option<Single>)
    ensures
        written_gpu(*final(state), *old(state), temperature),
{
    state.gpu.package_temperature.update_if(temperature);
}

/// Writes the memory readings of a cycle.
pub fn apply_memory_readings(state: &mut AppState, used_bytes: u64, temperature: Option<Single>)
    ensures
        written_memory(*final(state), *old(state), used_bytes, temperature),
{
    state.memory.utilization_mb.update(used_bytes / 1024 / 1024);
    state.memory.temperature.update_if(temperature);
}

/// Writes the mainboard readings of a cycle.
pub fn apply_motherboard_sensors(state: &mut AppState, sensors: &Vec<Sensor>)
    ensures
        written_board(*final(state), *old(state), listed(sensors@)),
{
    let ghost before = *state;
    let ghost touched = set![Channel::ChipsetTemperature, Channel::ChassisTemperature];
    proof {
        let chipset = before.motherboard.chipset_temperature@;
        let chassis = before.motherboard.chassis_temperature@;
        assert(chipset.history.subrange(0, chipset.history.len() as int) =~= chipset.history);
        assert(chassis.history.subrange(0, chassis.history.len() as int) =~= chassis.history);
    }
    let mut i: usize = 0;
    while i < sensors.len()
        invariant
            i <= sensors@.len(),
            state.motherboard.chipset_temperature@.is_updates_of(
                before.motherboard.chipset_temperature@,
                board_readings(listed(sensors@), SensorClass::Chipset, i as int),
            ),
            state.motherboard.chassis_temperature@.is_updates_of(
                before.motherboard.chassis_temperature@,
                board_readings(listed(sensors@), SensorClass::Chassis, i as int),
            ),
            state.same_except(&before, touched),
            state.retains(&before),
            touched == set![Channel::ChipsetTemperature, Channel::ChassisTemperature],
        decreases sensors@.len() - i,
    {
        let ghost middle = *state;
        let label = sensors[i].label.as_str();
        let temperature = sensors[i].temperature;
        if SensorClass::Chipset.matches(label) {
            state.motherboard.chipset_temperature.update(temperature);
            proof {
                law_updates_extend(
                    before.motherboard.chipset_temperature@,
                    middle.motherboard.chipset_temperature@,
                    state.motherboard.chipset_temperature@,
                    board_readings(listed(sensors@), SensorClass::Chipset, i as int),
                    temperature,
                );
            }
        } else if SensorClass::Chassis.matches(label) {
            state.motherboard.chassis_temperature.update(temperature);
            proof {
                law_updates_extend(
                    before.motherboard.chassis_temperature@,
                    middle.motherboard.chassis_temperature@,
                    state.motherboard.chassis_temperature@,
                    board_readings(listed(sensors@), SensorClass::Chassis, i as int),
                    temperature,
                );
            }
        }
        proof {
            assert forall|channel: Channel| !touched.contains(channel) implies #[trigger] state.series(
                channel,
            ) == before.series(channel) by {
                assert(middle.series(channel) == before.series(channel));
            }
        }
        i += 1;
    }
}

/// The channels that the poller feeds.
pub open spec fn polled_channels() -> Set<Channel> {
    set![
        Channel::CpuUtilization,
        Channel::CpuClockSpeed,
        Channel::CpuPackageTemperature,
        Channel::GpuPackageTemperature,
        Channel::MemoryUtilization,
        Channel::MemoryTemperature,
        Channel::ChipsetTemperature,
        Channel::ChassisTemperature,
    ]
}

/// Polls the system-information facility and writes what it reads to a
/// shared state.
pub struct HardwarePoller {
    state: SharedAppState,
    system: sysinfo::System,
    components: sysinfo::Components,
    polling_interval_ms: u64,
}

impl HardwarePoller {
    /// The component list that the poller reads.
    pub closed spec fn components(&self) -> sysinfo::Components {
        self.components
    }

    /// The sampling interval, in milliseconds.
    pub closed spec fn interval_ms(&self) -> u64 {
        self.polling_interval_ms
    }

    /// A poller for `state` that is meant to poll every `polling_interval_ms`
    /// milliseconds.
    pub fn new(state: SharedAppState, polling_interval_ms: u64) -> (poller: Self)
        ensures
            poller.interval_ms() == polling_interval_ms,
    {
        HardwarePoller {
            state,
            system: new_system(),
            components: new_components(),
            polling_interval_ms,
        }
    }

    /// The sampling interval, in milliseconds.
    pub fn polling_interval_ms(&self) -> (interval: u64)
        ensures
            interval == self.interval_ms(),
    {
        self.polling_interval_ms
    }

    /// Writes the processor samples to `state`: the load and the clock of
    /// the snapshot, and the temperature of the processor among the listed
    /// components. The load gets one sample. Always succeeds.
    pub fn write_cpu_metrics(&self, state: &mut AppState) -> (outcome: HardwareResult<()>)
        ensures
            outcome is Ok,
            exists|usage: Single, frequency: Option<u64>| #[trigger]
                written_cpu(
                    *final(state),
                    *old(state),
                    usage,
                    frequency,
                    cpu_reading(sensors_of(self.components())),
                ),
            final(state).cpu.utilization@.history.len() == old(state).cpu.utilization@.history.len()
                + 1,
            final(state).cpu.utilization.present(),
    {
        let usage = global_cpu_usage(&self.system);
        let frequency = first_cpu_frequency(&self.system);
        let temperature = self.get_cpu_temperature();
        apply_cpu_readings(state, usage, frequency, temperature);
        assert(written_cpu(*state, *old(state), usage, frequency, temperature));
        Ok(())
    }

    /// Writes the graphics samples to `state`: the temperature of the
    /// graphics processor among the listed components. Always succeeds.
    pub fn write_gpu_metrics(&self, state: &mut AppState) -> (outcome: HardwareResult<()>)
        ensures
            outcome is Ok,
            written_gpu(
                *final(state),
                *old(state),
                first_reading(sensors_of(self.components()), SensorClass::Gpu),
            ),
    {
        let temperature = self.get_gpu_temperature();
        apply_gpu_readings(state, temperature);
        Ok(())
    }

    /// Writes the memory samples to `state`: the memory in use of the
    /// snapshot, and the temperature of the memory among the listed
    /// components. The memory in use gets one sample. Always succeeds.
    pub fn write_memory_metrics(&self, state: &mut AppState) -> (outcome: HardwareResult<()>)
        ensures
            outcome is Ok,
            exists|used_bytes: u64| #[trigger]
                written_memory(
                    *final(state),
                    *old(state),
                    used_bytes,
                    first_reading(sensors_of(self.components()), SensorClass::Memory),
                ),
            final(state).memory.utilization_mb@.history.len() == old(state).memory.utilization_mb@.history.len() + 1,
            final(state).memory.utilization_mb.present(),
    {
        let used_bytes = used_memory(&self.system);
        let temperature = self.get_memory_temperature();
        apply_memory_readings(state, used_bytes, temperature);
        assert(written_memory(*state, *old(state), used_bytes, temperature));
        Ok(())
    }

    /// Writes the storage samples to `state`: none, as the
    /// system-information facility has none. Always succeeds.
    pub fn write_storage_metrics(&self, state: &mut AppState) -> (outcome: HardwareResult<()>)
        ensures
            outcome is Ok,
            *final(state) == *old(state),
    {
        Ok(())
    }

    /// Writes the mainboard samples to `state`: the readings of the listed
    /// components that feed the chipset's or the chassis's channel. Always
    /// succeeds.
    pub fn write_motherboard_metrics(&self, state: &mut AppState) -> (outcome: HardwareResult<()>)
        ensures
            outcome is Ok,
            written_board(*final(state), *old(state), sensors_of(self.components())),
    {
        let sensors = read_sensors(&self.components);
        apply_motherboard_sensors(state, &sensors);
        Ok(())
    }

    /// Writes the samples of every group to `state`: processor, graphics,
    /// memory, storage and mainboard, in this order. A group that fails is
    /// logged and the others are written all the same; as no group can fail,
    /// nothing is logged.
    pub fn write_all(&self, state: &mut AppState, logger: &mut AppLogger)
        ensures
            final(state).cpu.utilization@.history.len() == old(state).cpu.utilization@.history.len()
                + 1,
            final(state).memory.utilization_mb@.history.len() == old(state).memory.utilization_mb@.history.len() + 1,
            final(state).cpu.utilization.present(),
            final(state).memory.utilization_mb.present(),
            final(state).same_except(old(state), polled_channels()),
            final(state).retains(old(state)),
            final(logger).records() == old(logger).records(),
            final(logger).log_file_path == old(logger).log_file_path,
    {
        let ghost start = *state;
        if let Err(failure) = self.write_cpu_metrics(state) {
            logger.log_error("Failed to update CPU metrics", failure.to_string().as_str());
        }
        let ghost after_cpu = *state;
        if let Err(failure) = self.write_gpu_metrics(state) {
            logger.log_error("Failed to update GPU metrics", failure.to_string().as_str());
        }
        let ghost after_gpu = *state;
        if let Err(failure) = self.write_memory_metrics(state) {
            logger.log_error("Failed to update memory metrics", failure.to_string().as_str());
        }
        let ghost after_memory = *state;
        if let Err(failure) = self.write_storage_metrics(state) {
            logger.log_error("Failed to update storage metrics", failure.to_string().as_str());
        }
        if let Err(failure) = self.write_motherboard_metrics(state) {
            logger.log_error("Failed to update motherboard metrics", failure.to_string().as_str());
        }
        proof {
            assert forall|channel: Channel| !polled_channels().contains(channel) implies #[trigger] state.series(
                channel,
            ) == start.series(channel) by {
                assert(after_cpu.series(channel) == start.series(channel));
                assert(after_gpu.series(channel) == after_cpu.series(channel));
                assert(after_memory.series(channel) == after_gpu.series(channel));
                assert(state.series(channel) == after_memory.series(channel));
            }
            assert(after_gpu.series(Channel::CpuUtilization) == after_cpu.series(
                Channel::CpuUtilization,
            ));
            assert(after_memory.series(Channel::CpuUtilization) == after_gpu.series(
                Channel::CpuUtilization,
            ));
            assert(state.series(Channel::CpuUtilization) == after_memory.series(
                Channel::CpuUtilization,
            ));
            assert(state.series(Channel::MemoryUtilization) == after_memory.series(
                Channel::MemoryUtilization,
            ));
        }
    }

    /// One polling cycle on `state`: reloads the system snapshot and the
    /// components, then writes the samples of every group. The processor
    /// load and the memory in use get one sample each, nothing changes
    /// outside the channels that the poller feeds, and nothing is logged.
    pub fn poll_state(&mut self, state: &mut AppState, logger: &mut AppLogger)
        ensures
            final(state).cpu.utilization@.history.len() == old(state).cpu.utilization@.history.len()
                + 1,
            final(state).memory.utilization_mb@.history.len() == old(state).memory.utilization_mb@.history.len() + 1,
            final(state).cpu.utilization.present(),
            final(state).memory.utilization_mb.present(),
            final(state).same_except(old(state), polled_channels()),
            final(state).retains(old(state)),
            final(logger).records() == old(logger).records(),
            final(logger).log_file_path == old(logger).log_file_path,
            final(self).interval_ms() == old(self).interval_ms(),
    {
        refresh_system(&mut self.system);
        refresh_components(&mut self.components);
        self.write_all(state, logger);
    }

    /// One polling cycle on the shared state: reloads the system snapshot
    /// and the components, takes exclusive access and writes the samples of
    /// every group to the state under it, as [`HardwarePoller::poll_state`]
    /// does. Nothing is logged.
    pub fn poll_hardware(&mut self, logger: &mut AppLogger)
        ensures
            final(self).interval_ms() == old(self).interval_ms(),
            final(logger).records() == old(logger).records(),
            final(logger).log_file_path == old(logger).log_file_path,
    {
        refresh_system(&mut self.system);
        refresh_components(&mut self.components);
        let mut guard = StateWriteGuard::acquire(&self.state);
        self.write_all(guard.state(), logger);
    }

    /// Takes exclusive access and writes the processor samples, as
    /// [`HardwarePoller::write_cpu_metrics`] does. Always succeeds.
    pub fn update_cpu_metrics(&mut self) -> (outcome: HardwareResult<()>)
        ensures
            outcome is Ok,
            *final(self) == *old(self),
    {
        let mut guard = StateWriteGuard::acquire(&self.state);
        self.write_cpu_metrics(guard.state())
    }

    /// Takes exclusive access and writes the graphics samples, as
    /// [`HardwarePoller::write_gpu_metrics`] does. Always succeeds.
    pub fn update_gpu_metrics(&mut self) -> (outcome: HardwareResult<()>)
        ensures
            outcome is Ok,
            *final(self) == *old(self),
    {
        let mut guard = StateWriteGuard::acquire(&self.state);
        self.write_gpu_metrics(guard.state())
    }

    /// Takes exclusive access and writes the memory samples, as
    /// [`HardwarePoller::write_memory_metrics`] does. Always succeeds.
    pub fn update_memory_metrics(&mut self) -> (outcome: HardwareResult<()>)
        ensures
            outcome is Ok,
            *final(self) == *old(self),
    {
        let mut guard = StateWriteGuard::acquire(&self.state);
        self.write_memory_metrics(guard.state())
    }

    /// Takes exclusive access and writes the storage samples, as
    /// [`HardwarePoller::write_storage_metrics`] does: none. Always succeeds.
    pub fn update_storage_metrics(&mut self) -> (outcome: HardwareResult<()>)
        ensures
            outcome is Ok,
            *final(self) == *old(self),
    {
        let mut guard = StateWriteGuard::acquire(&self.state);
        self.write_storage_metrics(guard.state())
    }

    /// Takes exclusive access and writes the mainboard samples, as
    /// [`HardwarePoller::write_motherboard_metrics`] does. Always succeeds.
    pub fn update_motherboard_metrics(&mut self) -> (outcome: HardwareResult<()>)
        ensures
            outcome is Ok,
            *final(self) == *old(self),
    {
        let mut guard = StateWriteGuard::acquire(&self.state);
        self.write_motherboard_metrics(guard.state())
    }

    /// The temperature of the processor, where a listed component is named
    /// for it.
    pub fn get_cpu_temperature(&self) -> (reading: Option<Single>)
        ensures
            reading == cpu_reading(sensors_of(self.components())),
    {
        let sensors = read_sensors(&self.components);
        cpu_temperature(&sensors)
    }

    /// The temperature of the graphics processor, where a listed component
    /// is named for it.
    pub fn get_gpu_temperature(&self) -> (reading: Option<Single>)
        ensures
            reading == first_reading(sensors_of(self.components()), SensorClass::Gpu),
    {
        let sensors = read_sensors(&self.components);
        first_temperature(&sensors, SensorClass::Gpu)
    }

    /// The temperature of the memory, where a listed component is named for
    /// it.
    pub fn get_memory_temperature(&self) -> (reading: Option<Single>)
        ensures
            reading == first_reading(sensors_of(self.components()), SensorClass::Memory),
    {
        let sensors = read_sensors(&self.components);
        first_temperature(&sensors, SensorClass::Memory)
    }
}

} // verus!
