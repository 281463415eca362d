//! The monitor for Apple silicon.

use vstd::prelude::*;
use vstd::string::StringExecFns;
use crate::hardware::HardwareError;
use crate::logger::{AppLogger, LogLevel};
use crate::hardware_detection::{CpuVendor, GpuVendor, HardwareInfo, HardwareMonitor, Platform};
use crate::model::{AppState, SharedAppState, StateWriteGuard};

verus! {

/// The monitor for Apple silicon. No platform framework is bundled for it, so
/// it never initializes and never writes a sample.
pub struct AppleMonitor {
    initialized: bool,
}

impl AppleMonitor {
    /// A monitor that is not initialized yet.
    pub fn new() -> (monitor: Self)
        ensures
            !monitor.is_initialized(),
    {
        AppleMonitor { initialized: false }
    }
}

impl HardwareMonitor for AppleMonitor {
    closed spec fn is_initialized(&self) -> bool {
        self.initialized
    }

    /// The platform is macOS, and the processor or a graphics processor is
    /// Apple's.
    open spec fn supports(&self, info: &HardwareInfo) -> bool {
        (info.cpu_vendor == CpuVendor::Apple || info.has_gpu(GpuVendor::Apple)) && info.platform
            == Platform::MacOS
    }

    /// The call fails with the reason that support is not there; the
    /// monitor stays as it was, and nothing is logged.
    open spec fn initializes(
        &self,
        before: &Self,
        outcome: Result<(), HardwareError>,
        log_before: Seq<(LogLevel, Seq<char>)>,
        log_after: Seq<(LogLevel, Seq<char>)>,
    ) -> bool {
        &&& *self == *before
        &&& log_after == log_before
        &&& outcome matches Err(HardwareError::SensorUnavailable(reason)) && reason@ == "Apple support not available on this platform"@
    }

    /// The update succeeds and changes neither the monitor nor the state.
    open spec fn updates(
        &self,
        before: &Self,
        state_before: AppState,
        state_after: AppState,
        outcome: Result<(), HardwareError>,
    ) -> bool {
        &&& outcome is Ok
        &&& *self == *before
        &&& state_after == state_before
    }

    /// Fails: support for it is not part of the library.
    fn initialize(&mut self, logger: &mut AppLogger) -> (outcome: Result<(), HardwareError>) {
        Err(HardwareError::SensorUnavailable(String::from_str("Apple support not available on this platform")))
    }

    /// Does nothing and succeeds.
    fn update_state(&mut self, state: &mut AppState) -> (outcome: Result<(), HardwareError>) {
        let outcome = Ok(());
        assert(self.updates(old(self), *old(state), *state, outcome));
        outcome
    }

    /// Takes exclusive access to `shared` and updates the state under it.
    /// Always succeeds.
    fn update_metrics(&mut self, shared: &SharedAppState) -> (outcome: Result<(), HardwareError>)
        ensures
            outcome is Ok,
    {
        let mut guard = StateWriteGuard::acquire(shared);
        self.update_state(guard.state())
    }

    fn supports_hardware(&self, info: &HardwareInfo) -> (supported: bool) {
        (info.cpu_vendor == CpuVendor::Apple || info.has_gpu_vendor(GpuVendor::Apple))
            && info.platform == Platform::MacOS
    }
}

} // verus!
