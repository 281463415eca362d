//! Readings of the system-information facility, as plain values, and the
//! rules that pick a temperature by the label of its sensor.

use vstd::prelude::*;
use crate::ieee::Single;
use crate::text::{contains, contains_text, lowercase_of, to_lowercase};

verus! {

/// The system snapshot of `sysinfo`. Nothing is known of what it holds.
#[verifier::external_type_specification]
#[verifier::external_body]
pub struct ExSystem(sysinfo::System);

/// One component of `sysinfo`: a temperature sensor with its label. The
/// component list dereferences to a slice of these.
#[verifier::external_type_specification]
#[verifier::external_body]
pub struct ExComponent(sysinfo::Component);

/// The component list of `sysinfo`: temperature sensors with their labels.
#[verifier::external_type_specification]
#[verifier::external_body]
pub struct ExComponents(sysinfo::Components);

/// The label and the temperature of each listed component, in the order of
/// the list.
pub uninterp spec fn component_list(components: sysinfo::Components) -> Seq<(Seq<char>, Single)>;

/// A snapshot with everything loaded, by `System::new_all`.
#[verifier::external_body]
pub(crate) fn new_system() -> (system: sysinfo::System) {
    sysinfo::System::new_all()
}

/// The components that the machine lists, by
/// `Components::new_with_refreshed_list`.
#[verifier::external_body]
pub(crate) fn new_components() -> (components: sysinfo::Components) {
    sysinfo::Components::new_with_refreshed_list()
}

/// Reloads the snapshot, by `System::refresh_all`. Nothing is claimed of what
/// it holds afterwards.
#[verifier::external_body]
pub(crate) fn refresh_system(system: &mut sysinfo::System) {
    system.refresh_all();
}

/// Reads the listed components again, by `Components::refresh`. Nothing is
/// claimed of what the list holds afterwards.
#[verifier::external_body]
pub(crate) fn refresh_components(components: &mut sysinfo::Components) {
    components.refresh();
}

/// How many components are listed: the length of `Components::list`.
#[verifier::external_body]
pub(crate) fn component_count(components: &sysinfo::Components) -> (count: usize)
    ensures
        count == component_list(*components).len(),
{
    components.list().len()
}

/// The label of the component at `index`, by `Component::label`.
#[verifier::external_body]
pub(crate) fn component_label(components: &sysinfo::Components, index: usize) -> (label: String)
    requires
        index < component_list(*components).len(),
    ensures
        label@ == component_list(*components)[index as int].0,
{
    components.list()[index].label().to_string()
}

/// The temperature of the component at `index`, in degrees Celsius, by
/// `Component::temperature`; kept as the encoding of the number returned.
#[verifier::external_body]
pub(crate) fn component_temperature(components: &sysinfo::Components, index: usize) -> (temperature:
    Single)
    requires
        index < component_list(*components).len(),
    ensures
        temperature == component_list(*components)[index as int].1,
{
    Single { bits: components.list()[index].temperature().to_bits() }
}

/// The load over all processors, in percent, by `System::global_cpu_usage`;
/// kept as the encoding of the number returned. It depends on the machine.
#[verifier::external_body]
pub(crate) fn global_cpu_usage(system: &sysinfo::System) -> (usage: Single) {
    Single { bits: system.global_cpu_usage().to_bits() }
}

/// The clock of every listed processor in MHz, in the order of the list, by
/// `Cpu::frequency` on each item of `System::cpus`. It depends on the
/// machine.
#[verifier::external_body]
pub(crate) fn cpu_frequencies(system: &sysinfo::System) -> (frequencies: Vec<u64>) {
    system.cpus().iter().map(|cpu| cpu.frequency()).collect()
}

/// The first of the clocks of the processors, which stands for them all;
/// none where no processor is listed.
pub fn first_frequency(frequencies: &Vec<u64>) -> (frequency: Option<u64>)
    ensures
        frequency == if frequencies@.len() > 0 {
            Some(frequencies@[0])
        } else {
            None
        },
{
    if frequencies.len() > 0 {
        Some(frequencies[0])
    } else {
        None
    }
}

/// The clock of the first listed processor in MHz; absent when no processor
/// is listed.
pub(crate) fn first_cpu_frequency(system: &sysinfo::System) -> (frequency: Option<u64>) {
    first_frequency(&cpu_frequencies(system))
}

/// The memory in use, in bytes, by `System::used_memory`. It depends on the
/// machine.
#[verifier::external_body]
pub(crate) fn used_memory(system: &sysinfo::System) -> (bytes: u64) {
    system.used_memory()
}

/// Bytes in one megabyte, as memory sizes are reported.
pub const BYTES_PER_MB: u64 = 1024 * 1024;

/// The clock sample that a reported frequency gives: its low 32 bits, and
/// none where those are zero or no frequency was reported.
pub open spec fn clock_sample_of(frequency: Option<u64>) -> Option<u32> {
    match frequency {
        Some(f) => if f % 0x1_0000_0000 > 0 {
            Some((f % 0x1_0000_0000) as u32)
        } else {
            None
        },
        None => None,
    }
}

/// The clock sample that a reported frequency gives.
pub fn clock_sample(frequency: Option<u64>) -> (sample: Option<u32>)
    ensures
        sample == clock_sample_of(frequency),
{
    match frequency {
        Some(f) => {
            let mhz: u32 = (f % 0x1_0000_0000) as u32;
            if mhz > 0 {
                Some(mhz)
            } else {
                None
            }
        },
        None => None,
    }
}

/// A temperature sensor: its label in lowercase and its reading in degrees
/// Celsius.
#[derive(Debug, Clone)]
pub struct Sensor {
    pub label: String,
    pub temperature: Single,
}

impl Sensor {
    /// The sensor with the label `label`, put in lowercase, and the reading
    /// `temperature`.
    pub fn new(label: &str, temperature: Single) -> (sensor: Sensor)
        ensures
            sensor.label@ == lowercase_of(label@),
            sensor.temperature == temperature,
    {
        Sensor { label: to_lowercase(label), temperature }
    }
}

/// What a sensor measures, as far as its label tells.
#[derive(Debug, Clone, Copy, PartialEq, Eq, Structural)]
pub enum SensorClass {
    /// The processor package: `cpu` together with `package`, `tctl` or `tdie`.
    CpuPackage,
    /// The processor: `cpu`.
    Cpu,
    /// Anything of the processor: `cpu`, `core` or `package`.
    Processor,
    /// The graphics processor: `gpu`, `graphics` or `video`.
    Gpu,
    /// The memory: `memory`, `ram` or `dimm`.
    Memory,
    /// The chipset: `chipset` or `motherboard`.
    Chipset,
    /// The chassis: `chassis`, `case` or `system`.
    Chassis,
}

impl SensorClass {
    /// Whether a lowercase label names a sensor of the class.
    pub open spec fn names(self, label: Seq<char>) -> bool {
        match self {
            SensorClass::CpuPackage => contains_text(label, "cpu"@) && (contains_text(
                label,
                "package"@,
            ) || contains_text(label, "tctl"@) || contains_text(label, "tdie"@)),
            SensorClass::Cpu => contains_text(label, "cpu"@),
            SensorClass::Processor => contains_text(label, "cpu"@) || contains_text(label, "core"@)
                || contains_text(label, "package"@),
            SensorClass::Gpu => contains_text(label, "gpu"@) || contains_text(label, "graphics"@)
                || contains_text(label, "video"@),
            SensorClass::Memory => contains_text(label, "memory"@) || contains_text(label, "ram"@)
                || contains_text(label, "dimm"@),
            SensorClass::Chipset => contains_text(label, "chipset"@) || contains_text(
                label,
                "motherboard"@,
            ),
            SensorClass::Chassis => contains_text(label, "chassis"@) || contains_text(
                label,
                "case"@,
            ) || contains_text(label, "system"@),
        }
    }

    /// Whether a lowercase label names a sensor of the class.
    pub fn matches(self, label: &str) -> (named: bool)
        ensures
            named == self.names(label@),
    {
        match self {
            SensorClass::CpuPackage => contains(label, "cpu") && (contains(label, "package")
                || contains(label, "tctl") || contains(label, "tdie")),
            SensorClass::Cpu => contains(label, "cpu"),
            SensorClass::Processor => contains(label, "cpu") || contains(label, "core") || contains(
                label,
                "package",
            ),
            SensorClass::Gpu => contains(label, "gpu") || contains(label, "graphics") || contains(
                label,
                "video",
            ),
            SensorClass::Memory => contains(label, "memory") || contains(label, "ram") || contains(
                label,
                "dimm",
            ),
            SensorClass::Chipset => contains(label, "chipset") || contains(label, "motherboard"),
            SensorClass::Chassis => contains(label, "chassis") || contains(label, "case")
                || contains(label, "system"),
        }
    }
}

/// The labels and readings of `sensors`, as plain values.
pub open spec fn listed(sensors: Seq<Sensor>) -> Seq<(Seq<char>, Single)> {
    Seq::new(sensors.len(), |i: int| (sensors[i].label@, sensors[i].temperature))
}

/// The index of the first of the first `n` sensors that `class` names, if
/// any. A sensor is its lowercase label and its reading.
pub open spec fn first_named(sensors: Seq<(Seq<char>, Single)>, class: SensorClass, n: int) -> Option<
    int,
>
    decreases n,
{
    if n <= 0 {
        None
    } else {
        match first_named(sensors, class, n - 1) {
            Some(i) => Some(i),
            None => if class.names(sensors[n - 1].0) {
                Some(n - 1)
            } else {
                None
            },
        }
    }
}

/// The reading of the first sensor that `class` names, if any.
pub open spec fn first_reading(sensors: Seq<(Seq<char>, Single)>, class: SensorClass) -> Option<
    Single,
> {
    match first_named(sensors, class, sensors.len() as int) {
        Some(i) => Some(sensors[i].1),
        None => None,
    }
}

/// Once found among the first `n`, an index is the one found among any more.
pub proof fn lemma_first_named_stays(
    sensors: Seq<(Seq<char>, Single)>,
    class: SensorClass,
    n: int,
    m: int,
)
    requires
        0 <= n <= m,
        first_named(sensors, class, n) is Some,
    ensures
        first_named(sensors, class, m) == first_named(sensors, class, n),
    decreases m - n,
{
    if n < m {
        lemma_first_named_stays(sensors, class, n, m - 1);
    }
}

/// The reading of the first sensor that `class` names, if any.
pub fn first_temperature(sensors: &Vec<Sensor>, class: SensorClass) -> (reading: Option<Single>)
    ensures
        reading == first_reading(listed(sensors@), class),
{
    let mut i: usize = 0;
    while i < sensors.len()
        invariant
            i <= sensors@.len(),
            first_named(listed(sensors@), class, i as int) is None,
        decreases sensors@.len() - i,
    {
        if class.matches(sensors[i].label.as_str()) {
            proof {
                lemma_first_named_stays(
                    listed(sensors@),
                    class,
                    i as int + 1,
                    sensors@.len() as int,
                );
            }
            return Some(sensors[i].temperature);
        }
        i += 1;
    }
    None
}

/// The sensors that `components` lists: each with its label in lowercase and
/// its reading, in the order of the list.
pub open spec fn sensors_of(components: sysinfo::Components) -> Seq<(Seq<char>, Single)> {
    Seq::new(
        component_list(components).len(),
        |i: int| (lowercase_of(component_list(components)[i].0), component_list(components)[i].1),
    )
}

/// Reads every listed component as a sensor.
pub fn read_sensors(components: &sysinfo::Components) -> (sensors: Vec<Sensor>)
    ensures
        listed(sensors@) == sensors_of(*components),
{
    let count = component_count(components);
    let mut sensors: Vec<Sensor> = Vec::new();
    let mut i: usize = 0;
    while i < count
        invariant
            i <= count,
            count == component_list(*components).len(),
            sensors@.len() == i,
            forall|k: int|
                0 <= k < i ==> (#[trigger] sensors@[k]).label@ == sensors_of(*components)[k].0
                    && sensors@[k].temperature == sensors_of(*components)[k].1,
        decreases count - i,
    {
        let label = component_label(components, i);
        let temperature = component_temperature(components, i);
        sensors.push(Sensor::new(label.as_str(), temperature));
        i += 1;
    }
    proof {
        assert(listed(sensors@) =~= sensors_of(*components));
    }
    sensors
}

} // verus!
