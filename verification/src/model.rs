//! The telemetry state: one time series per sensor channel, grouped by
//! hardware domain.

use std::collections::VecDeque;
use std::sync::Arc;
use vstd::prelude::*;
use crate::clock::Timestamp;
use crate::ieee::{Double, Single};

verus! {

/// A value that a channel can hold: copied freely and ordered by an integer rank.
///
/// `ordered` is false for values that compare with nothing (a floating-point
/// "not a number"); among the others, `rank` decides the order.
pub trait Sample: Copy {
    /// Whether the value takes part in comparisons.
    spec fn ordered(self) -> bool;

    /// The position of the value in the order of its type.
    spec fn rank(self) -> int;

    /// `self < other`.
    fn less_than(&self, other: &Self) -> (b: bool)
        ensures
            b == (self.ordered() && other.ordered() && self.rank() < other.rank()),
    ;
}

/// `a < b`: both values are ordered and `a` ranks lower.
pub open spec fn below<T: Sample>(a: T, b: T) -> bool {
    a.ordered() && b.ordered() && a.rank() < b.rank()
}

impl Sample for u32 {
    open spec fn ordered(self) -> bool {
        true
    }

    open spec fn rank(self) -> int {
        self as int
    }

    fn less_than(&self, other: &Self) -> (b: bool) {
        *self < *other
    }
}

impl Sample for u64 {
    open spec fn ordered(self) -> bool {
        true
    }

    open spec fn rank(self) -> int {
        self as int
    }

    fn less_than(&self, other: &Self) -> (b: bool) {
        *self < *other
    }
}

impl Sample for bool {
    open spec fn ordered(self) -> bool {
        true
    }

    open spec fn rank(self) -> int {
        if self {
            1
        } else {
            0
        }
    }

    fn less_than(&self, other: &Self) -> (b: bool) {
        !*self && *other
    }
}

impl Sample for Single {
    open spec fn ordered(self) -> bool {
        !self.is_nan()
    }

    open spec fn rank(self) -> int {
        Single::rank(self)
    }

    fn less_than(&self, other: &Self) -> (b: bool) {
        self.lt(*other)
    }
}

/// A value that a plot can show: it projects onto a double-precision number.
pub trait ToF64 {
    /// The number that stands for the value on the axis of a plot.
    spec fn plotted(&self) -> Double;

    /// The number that stands for the value on the axis of a plot.
    fn to_f64(&self) -> (number: Double)
        ensures
            number == self.plotted(),
    ;
}

impl ToF64 for Single {
    /// The same number, in double precision.
    open spec fn plotted(&self) -> Double {
        Double::widened(*self)
    }

    fn to_f64(&self) -> (number: Double) {
        Double::from_single(*self)
    }
}

impl ToF64 for u32 {
    /// The integer itself.
    open spec fn plotted(&self) -> Double {
        Double::nearest_to_int(*self as int)
    }

    fn to_f64(&self) -> (number: Double) {
        Double::from_u32(*self)
    }
}

impl ToF64 for u64 {
    /// The number nearest to the integer.
    open spec fn plotted(&self) -> Double {
        Double::nearest_to_int(*self as int)
    }

    fn to_f64(&self) -> (number: Double) {
        Double::from_u64(*self)
    }
}

impl ToF64 for bool {
    /// One for `true`, zero for `false`.
    open spec fn plotted(&self) -> Double {
        Double::of_bool(*self)
    }

    fn to_f64(&self) -> (number: Double) {
        Double::from_bool(*self)
    }
}

/// The lower of a running minimum and a new value; the new value seeds an
/// absent minimum and replaces a present one only when it is strictly below it.
pub open spec fn tightened_min<T: Sample>(min: Option<T>, value: T) -> T {
    match min {
        Some(m) => if below(value, m) {
            value
        } else {
            m
        },
        None => value,
    }
}

/// The higher of a running maximum and a new value; the new value seeds an
/// absent maximum and replaces a present one only when it is strictly above it.
pub open spec fn tightened_max<T: Sample>(max: Option<T>, value: T) -> T {
    match max {
        Some(m) => if below(m, value) {
            value
        } else {
            m
        },
        None => value,
    }
}

/// What a [`MetricValue`] holds, as mathematical values.
pub struct MetricView<T> {
    pub current: Option<T>,
    pub session_min: Option<T>,
    pub session_max: Option<T>,
    pub history: Seq<(Timestamp, T)>,
}

impl<T: Sample> MetricView<T> {
    /// A series that no sample has reached yet.
    pub open spec fn empty() -> MetricView<T> {
        MetricView { current: None, session_min: None, session_max: None, history: Seq::empty() }
    }

    /// The series after one more sample `value`, taken at `at`.
    pub open spec fn record(self, at: Timestamp, value: T) -> MetricView<T> {
        MetricView {
            current: Some(value),
            session_min: Some(tightened_min(self.session_min, value)),
            session_max: Some(tightened_max(self.session_max, value)),
            history: self.history.push((at, value)),
        }
    }

    /// Whether `self` is `before` with one more sample `value`, taken at some time.
    pub open spec fn is_update_of(self, before: MetricView<T>, value: T) -> bool {
        &&& self.current == Some(value)
        &&& self.session_min == Some(tightened_min(before.session_min, value))
        &&& self.session_max == Some(tightened_max(before.session_max, value))
        &&& self.history.len() == before.history.len() + 1
        &&& self.history.drop_last() == before.history
        &&& self.history.last().1 == value
    }

    /// Whether `self` is `before` with `sample` recorded at some time, where
    /// there is a sample, and `before` itself where there is none.
    pub open spec fn is_update_if(self, before: MetricView<T>, sample: Option<T>) -> bool {
        match sample {
            Some(value) => self.is_update_of(before, value),
            None => self == before,
        }
    }

    /// The minimum after recording `values` in order over a minimum `min`.
    pub open spec fn min_after(min: Option<T>, values: Seq<T>) -> Option<T>
        decreases values.len(),
    {
        if values.len() == 0 {
            min
        } else {
            Some(tightened_min(Self::min_after(min, values.drop_last()), values.last()))
        }
    }

    /// The maximum after recording `values` in order over a maximum `max`.
    pub open spec fn max_after(max: Option<T>, values: Seq<T>) -> Option<T>
        decreases values.len(),
    {
        if values.len() == 0 {
            max
        } else {
            Some(tightened_max(Self::max_after(max, values.drop_last()), values.last()))
        }
    }

    /// Whether `self` is `before` with the samples `values` recorded in
    /// order, each at some time.
    pub open spec fn is_updates_of(self, before: MetricView<T>, values: Seq<T>) -> bool {
        &&& self.history.len() == before.history.len() + values.len()
        &&& self.history.subrange(0, before.history.len() as int) == before.history
        &&& forall|k: int|
            0 <= k < values.len() ==> (#[trigger] self.history[before.history.len() + k]).1
                == values[k]
        &&& self.current == if values.len() > 0 {
            Some(values.last())
        } else {
            before.current
        }
        &&& self.session_min == Self::min_after(before.session_min, values)
        &&& self.session_max == Self::max_after(before.session_max, values)
    }

    /// The series that results from recording `samples` in order, starting
    /// from an empty series.
    pub open spec fn replay(samples: Seq<(Timestamp, T)>) -> MetricView<T>
        decreases samples.len(),
    {
        if samples.len() == 0 {
            Self::empty()
        } else {
            Self::replay(samples.drop_last()).record(samples.last().0, samples.last().1)
        }
    }

    /// The bounds and the current value agree: neither is the maximum below
    /// the minimum, nor the current value outside them, and all three are
    /// present exactly when the history is not empty, whose last entry then
    /// holds the current value.
    pub open spec fn consistent(self) -> bool {
        &&& self.current is Some <==> self.history.len() > 0
        &&& self.session_min is Some <==> self.history.len() > 0
        &&& self.session_max is Some <==> self.history.len() > 0
        &&& self.history.len() > 0 ==> {
            &&& self.current == Some(self.history.last().1)
            &&& !below(self.session_max->0, self.session_min->0)
            &&& !below(self.current->0, self.session_min->0)
            &&& !below(self.session_max->0, self.current->0)
        }
    }
}

impl<T: Sample + ToF64> MetricView<T> {
    /// The points that [`MetricValue::get_plot_data`] produces: for each
    /// history entry, the seconds from `origin` to its time, with their
    /// fraction, and its value, both as double-precision numbers. The seconds
    /// are the number nearest to the nanoseconds between the two times,
    /// divided by one thousand million.
    pub open spec fn plot_points(self, origin: Timestamp) -> Seq<(Double, Double)> {
        Seq::new(
            self.history.len(),
            |i: int|
                (
                    Double::nearest_to_billionths(self.history[i].0.nanos_since(origin)),
                    self.history[i].1.plotted(),
                ),
        )
    }
}

/// One channel: its last sample, the bounds of the session and every sample
/// since the start, oldest first.
#[derive(Debug, Clone)]
pub struct MetricValue<T> {
    pub current: Option<T>,
    pub session_min: Option<T>,
    pub session_max: Option<T>,
    pub history: VecDeque<(Timestamp, T)>,
}

impl<T> View for MetricValue<T> {
    type V = MetricView<T>;

    open spec fn view(&self) -> MetricView<T> {
        MetricView {
            current: self.current,
            session_min: self.session_min,
            session_max: self.session_max,
            history: self.history@,
        }
    }
}

impl<T: Sample> Default for MetricValue<T> {
    /// A channel that no sample has reached.
    fn default() -> (metric: Self)
        ensures
            metric@ == MetricView::<T>::empty(),
            metric@.consistent(),
    {
        MetricValue { current: None, session_min: None, session_max: None, history: VecDeque::new() }
    }
}

impl<T: Sample> MetricValue<T> {
    /// Records `value` as sampled at `timestamp`: it becomes the current value,
    /// tightens the session bounds and is appended to the history.
    pub fn record(&mut self, timestamp: Timestamp, value: T)
        ensures
            final(self)@ == old(self)@.record(timestamp, value),
            old(self)@.consistent() ==> final(self)@.consistent(),
    {
        self.current = Some(value);
        let new_min = match self.session_min {
            Some(min) => if value.less_than(&min) {
                value
            } else {
                min
            },
            None => value,
        };
        self.session_min = Some(new_min);
        let new_max = match self.session_max {
            Some(max) => if max.less_than(&value) {
                value
            } else {
                max
            },
            None => value,
        };
        self.session_max = Some(new_max);
        self.history.push_back((timestamp, value));
    }

    /// Records `value` as sampled now.
    pub fn update(&mut self, value: T)
        ensures
            final(self)@.is_update_of(old(self)@, value),
            old(self)@.consistent() ==> final(self)@.consistent(),
    {
        let timestamp = Timestamp::now();
        self.record(timestamp, value);
        proof {
            assert(self@.history.drop_last() =~= old(self)@.history);
        }
    }

    /// Records `sample` as sampled now, where there is one.
    pub fn update_if(&mut self, sample: Option<T>)
        ensures
            final(self)@.is_update_if(old(self)@, sample),
    {
        if let Some(value) = sample {
            self.update(value);
        }
    }

    /// The times of the history as plot points whose values are all zero.
    pub fn get_history_for_plot(&self, session_start: Timestamp) -> (points: Vec<(Double, Double)>)
        ensures
            points@.len() == self@.history.len(),
            forall|k: int|
                0 <= k < points@.len() ==> (#[trigger] points@[k]).0
                    == Double::nearest_to_billionths(
                    self@.history[k].0.nanos_since(session_start),
                ) && points@[k].1.bits == 0,
    {
        let mut points: Vec<(Double, Double)> = Vec::new();
        let mut i: usize = 0;
        while i < self.history.len()
            invariant
                i <= self.history.len(),
                points@.len() == i,
                forall|k: int|
                    0 <= k < i ==> (#[trigger] points@[k]).0 == Double::nearest_to_billionths(
                        self.history@[k].0.nanos_since(session_start),
                    ) && points@[k].1.bits == 0,
            decreases self.history.len() - i,
        {
            let entry = &self.history[i];
            let seconds = Double::from_billionths(entry.0.elapsed_nanos(&session_start));
            points.push((seconds, Double::from_bits(0)));
            i += 1;
        }
        points
    }
}

impl<T: Sample + ToF64> MetricValue<T> {
    /// The history as plot points: seconds since `session_start`, and the
    /// value. The history is not changed, and the same history gives the same
    /// points.
    pub fn get_plot_data(&self, session_start: Timestamp) -> (points: Vec<(Double, Double)>)
        ensures
            points@ == self@.plot_points(session_start),
            points@.len() == self@.history.len(),
    {
        let mut points: Vec<(Double, Double)> = Vec::new();
        let mut i: usize = 0;
        while i < self.history.len()
            invariant
                i <= self.history.len(),
                points@.len() == i,
                forall|k: int|
                    0 <= k < i ==> #[trigger] points@[k] == self@.plot_points(session_start)[k],
            decreases self.history.len() - i,
        {
            let entry = &self.history[i];
            let seconds = Double::from_billionths(entry.0.elapsed_nanos(&session_start));
            points.push((seconds, entry.1.to_f64()));
            i += 1;
        }
        proof {
            assert(points@ =~= self@.plot_points(session_start));
        }
        points
    }
}

/// Processor channels.
#[derive(Debug, Clone)]
pub struct CpuMetrics {
    /// Load, in percent.
    pub utilization: MetricValue<Single>,
    /// Clock, in MHz.
    pub clock_speed: MetricValue<u32>,
    /// Core voltage, in volts.
    pub core_voltage: MetricValue<Single>,
    /// Power draw, in watts.
    pub power_consumption: MetricValue<Single>,
    /// Package temperature, in degrees Celsius.
    pub package_temperature: MetricValue<Single>,
    /// Hotspot temperature, in degrees Celsius.
    pub hotspot_temperature: MetricValue<Single>,
    /// Whether thermal throttling is active.
    pub thermal_throttling: MetricValue<bool>,
}

/// Graphics channels.
#[derive(Debug, Clone)]
pub struct GpuMetrics {
    /// Load, in percent.
    pub utilization: MetricValue<Single>,
    /// Clock, in MHz.
    pub clock_speed: MetricValue<u32>,
    /// Memory in use, in MB.
    pub memory_utilization: MetricValue<u64>,
    /// Core voltage, in volts.
    pub core_voltage: MetricValue<Single>,
    /// Power draw, in watts.
    pub power_consumption: MetricValue<Single>,
    /// Package temperature, in degrees Celsius.
    pub package_temperature: MetricValue<Single>,
    /// Hotspot temperature, in degrees Celsius.
    pub hotspot_temperature: MetricValue<Single>,
    /// Whether thermal throttling is active.
    pub thermal_throttling: MetricValue<bool>,
}

/// Memory channels.
#[derive(Debug, Clone)]
pub struct MemoryMetrics {
    /// Memory in use, in MB.
    pub utilization_mb: MetricValue<u64>,
    /// Clock, in MHz.
    pub clock_speed: MetricValue<u32>,
    /// Temperature, in degrees Celsius.
    pub temperature: MetricValue<Single>,
}

/// Storage channels.
#[derive(Debug, Clone)]
pub struct StorageMetrics {
    /// Read rate, in MB/s.
    pub read_speed: MetricValue<Single>,
    /// Write rate, in MB/s.
    pub write_speed: MetricValue<Single>,
    /// Temperature, in degrees Celsius.
    pub temperature: MetricValue<Single>,
}

/// Mainboard channels.
#[derive(Debug, Clone)]
pub struct MotherboardMetrics {
    /// Chipset temperature, in degrees Celsius.
    pub chipset_temperature: MetricValue<Single>,
    /// Chassis temperature, in degrees Celsius.
    pub chassis_temperature: MetricValue<Single>,
    /// Pump speed, in RPM.
    pub aio_pump_speed: MetricValue<u32>,
    /// Chassis fan speed, in RPM.
    pub chassis_fan_speed: MetricValue<u32>,
    /// Chipset fan speed, in RPM.
    pub chipset_fan_speed: MetricValue<u32>,
}

impl<T> MetricValue<T> {
    /// Whether a sample has reached the channel.
    pub open spec fn present(&self) -> bool {
        self.current is Some
    }

    /// Whether the channel still has a current value if `before` had one.
    pub open spec fn retains(&self, before: &MetricValue<T>) -> bool {
        before.present() ==> self.present()
    }

    /// Whether a sample has reached the channel.
    pub fn has_current(&self) -> (b: bool)
        ensures
            b == self.present(),
    {
        self.current.is_some()
    }
}

impl CpuMetrics {
    /// Whether any processor channel has a current value.
    pub open spec fn has_data(&self) -> bool {
        ||| self.utilization.present()
        ||| self.clock_speed.present()
        ||| self.core_voltage.present()
        ||| self.power_consumption.present()
        ||| self.package_temperature.present()
        ||| self.hotspot_temperature.present()
        ||| self.thermal_throttling.present()
    }

    /// Whether no processor channel has lost its current value since `before`.
    pub open spec fn retains(&self, before: &CpuMetrics) -> bool {
        &&& self.utilization.retains(&before.utilization)
        &&& self.clock_speed.retains(&before.clock_speed)
        &&& self.core_voltage.retains(&before.core_voltage)
        &&& self.power_consumption.retains(&before.power_consumption)
        &&& self.package_temperature.retains(&before.package_temperature)
        &&& self.hotspot_temperature.retains(&before.hotspot_temperature)
        &&& self.thermal_throttling.retains(&before.thermal_throttling)
    }

    /// Whether every processor channel is untouched.
    pub open spec fn untouched(&self) -> bool {
        &&& self.utilization@ == MetricView::<Single>::empty()
        &&& self.clock_speed@ == MetricView::<u32>::empty()
        &&& self.core_voltage@ == MetricView::<Single>::empty()
        &&& self.power_consumption@ == MetricView::<Single>::empty()
        &&& self.package_temperature@ == MetricView::<Single>::empty()
        &&& self.hotspot_temperature@ == MetricView::<Single>::empty()
        &&& self.thermal_throttling@ == MetricView::<bool>::empty()
    }
}

impl Default for CpuMetrics {
    /// Channels that no sample has reached.
    fn default() -> (metrics: Self)
        ensures
            metrics.untouched(),
    {
        CpuMetrics {
            utilization: MetricValue::default(),
            clock_speed: MetricValue::default(),
            core_voltage: MetricValue::default(),
            power_consumption: MetricValue::default(),
            package_temperature: MetricValue::default(),
            hotspot_temperature: MetricValue::default(),
            thermal_throttling: MetricValue::default(),
        }
    }
}

impl GpuMetrics {
    /// Whether any graphics channel has a current value.
    pub open spec fn has_data(&self) -> bool {
        ||| self.utilization.present()
        ||| self.clock_speed.present()
        ||| self.memory_utilization.present()
        ||| self.core_voltage.present()
        ||| self.power_consumption.present()
        ||| self.package_temperature.present()
        ||| self.hotspot_temperature.present()
        ||| self.thermal_throttling.present()
    }

    /// Whether no graphics channel has lost its current value since `before`.
    pub open spec fn retains(&self, before: &GpuMetrics) -> bool {
        &&& self.utilization.retains(&before.utilization)
        &&& self.clock_speed.retains(&before.clock_speed)
        &&& self.memory_utilization.retains(&before.memory_utilization)
        &&& self.core_voltage.retains(&before.core_voltage)
        &&& self.power_consumption.retains(&before.power_consumption)
        &&& self.package_temperature.retains(&before.package_temperature)
        &&& self.hotspot_temperature.retains(&before.hotspot_temperature)
        &&& self.thermal_throttling.retains(&before.thermal_throttling)
    }

    /// Whether every graphics channel is untouched.
    pub open spec fn untouched(&self) -> bool {
        &&& self.utilization@ == MetricView::<Single>::empty()
        &&& self.clock_speed@ == MetricView::<u32>::empty()
        &&& self.memory_utilization@ == MetricView::<u64>::empty()
        &&& self.core_voltage@ == MetricView::<Single>::empty()
        &&& self.power_consumption@ == MetricView::<Single>::empty()
        &&& self.package_temperature@ == MetricView::<Single>::empty()
        &&& self.hotspot_temperature@ == MetricView::<Single>::empty()
        &&& self.thermal_throttling@ == MetricView::<bool>::empty()
    }
}

impl Default for GpuMetrics {
    /// Channels that no sample has reached.
    fn default() -> (metrics: Self)
        ensures
            metrics.untouched(),
    {
        GpuMetrics {
            utilization: MetricValue::default(),
            clock_speed: MetricValue::default(),
            memory_utilization: MetricValue::default(),
            core_voltage: MetricValue::default(),
            power_consumption: MetricValue::default(),
            package_temperature: MetricValue::default(),
            hotspot_temperature: MetricValue::default(),
            thermal_throttling: MetricValue::default(),
        }
    }
}

impl MemoryMetrics {
    /// Whether any memory channel has a current value.
    pub open spec fn has_data(&self) -> bool {
        ||| self.utilization_mb.present()
        ||| self.clock_speed.present()
        ||| self.temperature.present()
    }

    /// Whether no memory channel has lost its current value since `before`.
    pub open spec fn retains(&self, before: &MemoryMetrics) -> bool {
        &&& self.utilization_mb.retains(&before.utilization_mb)
        &&& self.clock_speed.retains(&before.clock_speed)
        &&& self.temperature.retains(&before.temperature)
    }

    /// Whether every memory channel is untouched.
    pub open spec fn untouched(&self) -> bool {
        &&& self.utilization_mb@ == MetricView::<u64>::empty()
        &&& self.clock_speed@ == MetricView::<u32>::empty()
        &&& self.temperature@ == MetricView::<Single>::empty()
    }
}

impl Default for MemoryMetrics {
    /// Channels that no sample has reached.
    fn default() -> (metrics: Self)
        ensures
            metrics.untouched(),
    {
        MemoryMetrics {
            utilization_mb: MetricValue::default(),
            clock_speed: MetricValue::default(),
            temperature: MetricValue::default(),
        }
    }
}

impl StorageMetrics {
    /// Whether any storage channel has a current value.
    pub open spec fn has_data(&self) -> bool {
        ||| self.read_speed.present()
        ||| self.write_speed.present()
        ||| self.temperature.present()
    }

    /// Whether no storage channel has lost its current value since `before`.
    pub open spec fn retains(&self, before: &StorageMetrics) -> bool {
        &&& self.read_speed.retains(&before.read_speed)
        &&& self.write_speed.retains(&before.write_speed)
        &&& self.temperature.retains(&before.temperature)
    }

    /// Whether every storage channel is untouched.
    pub open spec fn untouched(&self) -> bool {
        &&& self.read_speed@ == MetricView::<Single>::empty()
        &&& self.write_speed@ == MetricView::<Single>::empty()
        &&& self.temperature@ == MetricView::<Single>::empty()
    }
}

impl Default for StorageMetrics {
    /// Channels that no sample has reached.
    fn default() -> (metrics: Self)
        ensures
            metrics.untouched(),
    {
        StorageMetrics {
            read_speed: MetricValue::default(),
            write_speed: MetricValue::default(),
            temperature: MetricValue::default(),
        }
    }
}

impl MotherboardMetrics {
    /// Whether any mainboard channel has a current value.
    pub open spec fn has_data(&self) -> bool {
        ||| self.chipset_temperature.present()
        ||| self.chassis_temperature.present()
        ||| self.aio_pump_speed.present()
        ||| self.chassis_fan_speed.present()
        ||| self.chipset_fan_speed.present()
    }

    /// Whether no mainboard channel has lost its current value since `before`.
    pub open spec fn retains(&self, before: &MotherboardMetrics) -> bool {
        &&& self.chipset_temperature.retains(&before.chipset_temperature)
        &&& self.chassis_temperature.retains(&before.chassis_temperature)
        &&& self.aio_pump_speed.retains(&before.aio_pump_speed)
        &&& self.chassis_fan_speed.retains(&before.chassis_fan_speed)
        &&& self.chipset_fan_speed.retains(&before.chipset_fan_speed)
    }

    /// Whether every mainboard channel is untouched.
    pub open spec fn untouched(&self) -> bool {
        &&& self.chipset_temperature@ == MetricView::<Single>::empty()
        &&& self.chassis_temperature@ == MetricView::<Single>::empty()
        &&& self.aio_pump_speed@ == MetricView::<u32>::empty()
        &&& self.chassis_fan_speed@ == MetricView::<u32>::empty()
        &&& self.chipset_fan_speed@ == MetricView::<u32>::empty()
    }
}

impl Default for MotherboardMetrics {
    /// Channels that no sample has reached.
    fn default() -> (metrics: Self)
        ensures
            metrics.untouched(),
    {
        MotherboardMetrics {
            chipset_temperature: MetricValue::default(),
            chassis_temperature: MetricValue::default(),
            aio_pump_speed: MetricValue::default(),
            chassis_fan_speed: MetricValue::default(),
            chipset_fan_speed: MetricValue::default(),
        }
    }
}

/// Which sections a display shows expanded. The telemetry state carries the
/// flags and never reads them.
#[derive(Debug, Clone)]
pub struct UiState {
    pub cpu_section_expanded: bool,
    pub gpu_section_expanded: bool,
    pub memory_section_expanded: bool,
    pub storage_section_expanded: bool,
    pub motherboard_section_expanded: bool,
}

impl Default for UiState {
    /// Every section expanded.
    fn default() -> (ui: Self)
        ensures
            ui.cpu_section_expanded,
            ui.gpu_section_expanded,
            ui.memory_section_expanded,
            ui.storage_section_expanded,
            ui.motherboard_section_expanded,
    {
        UiState {
            cpu_section_expanded: true,
            gpu_section_expanded: true,
            memory_section_expanded: true,
            storage_section_expanded: true,
            motherboard_section_expanded: true,
        }
    }
}

/// The channels of a state, by name.
#[derive(Debug, Clone, Copy, PartialEq, Eq, Structural)]
pub enum Channel {
    CpuUtilization,
    CpuClockSpeed,
    CpuCoreVoltage,
    CpuPowerConsumption,
    CpuPackageTemperature,
    CpuHotspotTemperature,
    CpuThermalThrottling,
    GpuUtilization,
    GpuClockSpeed,
    GpuMemoryUtilization,
    GpuCoreVoltage,
    GpuPowerConsumption,
    GpuPackageTemperature,
    GpuHotspotTemperature,
    GpuThermalThrottling,
    MemoryUtilization,
    MemoryClockSpeed,
    MemoryTemperature,
    StorageReadSpeed,
    StorageWriteSpeed,
    StorageTemperature,
    ChipsetTemperature,
    ChassisTemperature,
    AioPumpSpeed,
    ChassisFanSpeed,
    ChipsetFanSpeed,
}

/// What a channel holds, whatever the type of its samples.
pub enum Series {
    Real(MetricView<Single>),
    Count(MetricView<u32>),
    Size(MetricView<u64>),
    Flag(MetricView<bool>),
}

/// The sampling interval of a state made by `default`, in milliseconds.
pub const DEFAULT_POLLING_INTERVAL_MS: u64 = 1000;

/// The state of one monitoring session.
#[derive(Debug, Clone)]
pub struct AppState {
    pub cpu: CpuMetrics,
    pub gpu: GpuMetrics,
    pub memory: MemoryMetrics,
    pub storage: StorageMetrics,
    pub motherboard: MotherboardMetrics,
    /// The sampling interval, in milliseconds.
    pub polling_interval_ms: u64,
    /// When the session began.
    pub session_start: Timestamp,
    pub ui_state: UiState,
}

impl Default for AppState {
    /// An untouched state with the default sampling interval.
    fn default() -> (state: Self)
        ensures
            state.untouched(),
            state.polling_interval_ms == DEFAULT_POLLING_INTERVAL_MS,
            state.ui_state.cpu_section_expanded,
            state.ui_state.gpu_section_expanded,
            state.ui_state.memory_section_expanded,
            state.ui_state.storage_section_expanded,
            state.ui_state.motherboard_section_expanded,
    {
        AppState::new(DEFAULT_POLLING_INTERVAL_MS)
    }
}

impl AppState {
    /// Whether no sample has reached any channel.
    pub open spec fn untouched(&self) -> bool {
        &&& self.cpu.untouched()
        &&& self.gpu.untouched()
        &&& self.memory.untouched()
        &&& self.storage.untouched()
        &&& self.motherboard.untouched()
    }

    /// Whether no channel has lost its current value since `before`, and the
    /// interval and the start of the session are those of `before`.
    pub open spec fn retains(&self, before: &AppState) -> bool {
        &&& self.cpu.retains(&before.cpu)
        &&& self.gpu.retains(&before.gpu)
        &&& self.memory.retains(&before.memory)
        &&& self.storage.retains(&before.storage)
        &&& self.motherboard.retains(&before.motherboard)
        &&& self.polling_interval_ms == before.polling_interval_ms
        &&& self.session_start == before.session_start
    }

    /// What the channel named `channel` holds.
    pub open spec fn series(&self, channel: Channel) -> Series {
        match channel {
            Channel::CpuUtilization => Series::Real(self.cpu.utilization@),
            Channel::CpuClockSpeed => Series::Count(self.cpu.clock_speed@),
            Channel::CpuCoreVoltage => Series::Real(self.cpu.core_voltage@),
            Channel::CpuPowerConsumption => Series::Real(self.cpu.power_consumption@),
            Channel::CpuPackageTemperature => Series::Real(self.cpu.package_temperature@),
            Channel::CpuHotspotTemperature => Series::Real(self.cpu.hotspot_temperature@),
            Channel::CpuThermalThrottling => Series::Flag(self.cpu.thermal_throttling@),
            Channel::GpuUtilization => Series::Real(self.gpu.utilization@),
            Channel::GpuClockSpeed => Series::Count(self.gpu.clock_speed@),
            Channel::GpuMemoryUtilization => Series::Size(self.gpu.memory_utilization@),
            Channel::GpuCoreVoltage => Series::Real(self.gpu.core_voltage@),
            Channel::GpuPowerConsumption => Series::Real(self.gpu.power_consumption@),
            Channel::GpuPackageTemperature => Series::Real(self.gpu.package_temperature@),
            Channel::GpuHotspotTemperature => Series::Real(self.gpu.hotspot_temperature@),
            Channel::GpuThermalThrottling => Series::Flag(self.gpu.thermal_throttling@),
            Channel::MemoryUtilization => Series::Size(self.memory.utilization_mb@),
            Channel::MemoryClockSpeed => Series::Count(self.memory.clock_speed@),
            Channel::MemoryTemperature => Series::Real(self.memory.temperature@),
            Channel::StorageReadSpeed => Series::Real(self.storage.read_speed@),
            Channel::StorageWriteSpeed => Series::Real(self.storage.write_speed@),
            Channel::StorageTemperature => Series::Real(self.storage.temperature@),
            Channel::ChipsetTemperature => Series::Real(self.motherboard.chipset_temperature@),
            Channel::ChassisTemperature => Series::Real(self.motherboard.chassis_temperature@),
            Channel::AioPumpSpeed => Series::Count(self.motherboard.aio_pump_speed@),
            Channel::ChassisFanSpeed => Series::Count(self.motherboard.chassis_fan_speed@),
            Channel::ChipsetFanSpeed => Series::Count(self.motherboard.chipset_fan_speed@),
        }
    }

    /// Whether everything but the channels in `touched` is as in `before`:
    /// the other channels, the interval, the start of the session and the
    /// display flags.
    pub open spec fn same_except(&self, before: &AppState, touched: Set<Channel>) -> bool {
        &&& forall|channel: Channel|
            !touched.contains(channel) ==> #[trigger] self.series(channel) == before.series(channel)
        &&& self.polling_interval_ms == before.polling_interval_ms
        &&& self.session_start == before.session_start
        &&& self.ui_state == before.ui_state
    }

    /// An untouched state that samples every `polling_interval_ms`
    /// milliseconds, its session starting now.
    pub fn new(polling_interval_ms: u64) -> (state: Self)
        ensures
            state.untouched(),
            state.polling_interval_ms == polling_interval_ms,
            state.ui_state.cpu_section_expanded,
            state.ui_state.gpu_section_expanded,
            state.ui_state.memory_section_expanded,
            state.ui_state.storage_section_expanded,
            state.ui_state.motherboard_section_expanded,
    {
        AppState {
            cpu: CpuMetrics::default(),
            gpu: GpuMetrics::default(),
            memory: MemoryMetrics::default(),
            storage: StorageMetrics::default(),
            motherboard: MotherboardMetrics::default(),
            polling_interval_ms,
            session_start: Timestamp::now(),
            ui_state: UiState::default(),
        }
    }

    /// Whether any processor channel has a current value.
    pub fn has_cpu_data(&self) -> (b: bool)
        ensures
            b == self.cpu.has_data(),
    {
        self.cpu.utilization.has_current() || self.cpu.clock_speed.has_current()
            || self.cpu.core_voltage.has_current() || self.cpu.power_consumption.has_current()
            || self.cpu.package_temperature.has_current()
            || self.cpu.hotspot_temperature.has_current()
            || self.cpu.thermal_throttling.has_current()
    }

    /// Whether any graphics channel has a current value.
    pub fn has_gpu_data(&self) -> (b: bool)
        ensures
            b == self.gpu.has_data(),
    {
        self.gpu.utilization.has_current() || self.gpu.clock_speed.has_current()
            || self.gpu.memory_utilization.has_current() || self.gpu.core_voltage.has_current()
            || self.gpu.power_consumption.has_current()
            || self.gpu.package_temperature.has_current()
            || self.gpu.hotspot_temperature.has_current()
            || self.gpu.thermal_throttling.has_current()
    }

    /// Whether any memory channel has a current value.
    pub fn has_memory_data(&self) -> (b: bool)
        ensures
            b == self.memory.has_data(),
    {
        self.memory.utilization_mb.has_current() || self.memory.clock_speed.has_current()
            || self.memory.temperature.has_current()
    }

    /// Whether any storage channel has a current value.
    pub fn has_storage_data(&self) -> (b: bool)
        ensures
            b == self.storage.has_data(),
    {
        self.storage.read_speed.has_current() || self.storage.write_speed.has_current()
            || self.storage.temperature.has_current()
    }

    /// Whether any mainboard channel has a current value.
    pub fn has_motherboard_data(&self) -> (b: bool)
        ensures
            b == self.motherboard.has_data(),
    {
        self.motherboard.chipset_temperature.has_current()
            || self.motherboard.chassis_temperature.has_current()
            || self.motherboard.aio_pump_speed.has_current()
            || self.motherboard.chassis_fan_speed.has_current()
            || self.motherboard.chipset_fan_speed.has_current()
    }
}

/// The reader-writer lock of `parking_lot`, generic over its raw lock as
/// `lock_api` declares it. Nothing is known of what a lock holds.
#[verifier::external_type_specification]
#[verifier::external_body]
#[verifier::reject_recursive_types(R)]
#[verifier::reject_recursive_types(T)]
pub struct ExRwLock<R, T: ?Sized>(parking_lot::lock_api::RwLock<R, T>);

/// The raw lock behind `parking_lot::RwLock`.
#[verifier::external_type_specification]
#[verifier::external_body]
pub struct ExRawRwLock(parking_lot::RawRwLock);

/// The state of a session behind a reader-writer lock, shared between the one
/// writer that samples and any number of readers.
pub type SharedAppState = Arc<parking_lot::RwLock<AppState>>;

/// Exclusive access to a shared state, for as long as the value lives.
///
/// Holds the write guard of `parking_lot::RwLock`, whose type names a trait of
/// `lock_api` in its bounds and so cannot be declared to the verifier.
#[verifier::external_body]
pub struct StateWriteGuard<'a> {
    guard: parking_lot::RwLockWriteGuard<'a, AppState>,
}

impl<'a> StateWriteGuard<'a> {
    /// Waits for exclusive access to `shared`.
    ///
    /// Calls `RwLock::write`, which blocks until no reader and no other writer
    /// holds the lock. Nothing is claimed of the state that it finds.
    #[verifier::external_body]
    pub(crate) fn acquire(shared: &'a SharedAppState) -> (guard: StateWriteGuard<'a>) {
        StateWriteGuard { guard: shared.write() }
    }

    /// The state under the lock.
    ///
    /// Dereferences the guard. Other writers may have changed the state since
    /// it was last seen, so nothing is claimed of it.
    #[verifier::external_body]
    pub(crate) fn state(&mut self) -> (state: &mut AppState) {
        &mut *self.guard
    }
}

impl AppState {
    /// Whether the state is as [`AppState::new`] makes it for the interval
    /// `polling_interval_ms`: no sample has reached any channel, and every
    /// section is shown expanded.
    pub open spec fn is_new(&self, polling_interval_ms: u64) -> bool {
        &&& self.untouched()
        &&& self.polling_interval_ms == polling_interval_ms
        &&& self.ui_state.cpu_section_expanded
        &&& self.ui_state.gpu_section_expanded
        &&& self.ui_state.memory_section_expanded
        &&& self.ui_state.storage_section_expanded
        &&& self.ui_state.motherboard_section_expanded
    }

    /// A new state behind a lock, ready to be shared: the lock is made of a
    /// state as [`AppState::new`] makes it for the interval.
    pub fn new_shared(polling_interval_ms: u64) -> (shared: SharedAppState)
        ensures
            exists|state: AppState|
                *shared == #[trigger] lock_of(state) && state.is_new(polling_interval_ms),
    {
        let state = AppState::new(polling_interval_ms);
        assert(state.is_new(polling_interval_ms));
        Arc::new(lock(state))
    }
}

/// The lock that `RwLock::new` makes of a state. It says what a lock was made
/// of, not what it holds at a later time.
pub uninterp spec fn lock_of(state: AppState) -> parking_lot::RwLock<AppState>;

/// Puts `state` behind a lock, by `RwLock::new`, whose result is made of its
/// argument and an unlocked raw lock, and of nothing else.
#[verifier::external_body]
pub(crate) fn lock(state: AppState) -> (locked: parking_lot::RwLock<AppState>)
    ensures
        locked == lock_of(state),
{
    parking_lot::RwLock::new(state)
}

} // verus!
