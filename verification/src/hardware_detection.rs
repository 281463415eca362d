//! What hardware the process runs on: platform, processor vendor and graphics
//! vendors. Detection never fails; what cannot be found out is `Unknown`, or
//! absent from the list.

use vstd::prelude::*;
use crate::hardware::HardwareError;
use crate::logger::{AppLogger, LogLevel};
use crate::model::{AppState, SharedAppState, StateWriteGuard};
use crate::monitors::nvidia::nvml_init;
use crate::text::str_eq;

verus! {

#[derive(Debug, Clone, Copy, PartialEq, Eq, Structural)]
pub enum CpuVendor {
    Intel,
    AMD,
    Apple,
    Unknown,
}

#[derive(Debug, Clone, Copy, PartialEq, Eq, Structural)]
pub enum GpuVendor {
    NVIDIA,
    AMD,
    Intel,
    Apple,
    Unknown,
}

#[derive(Debug, Clone, Copy, PartialEq, Eq, Structural)]
pub enum Platform {
    Windows,
    MacOS,
    Linux,
    Unknown,
}

/// The hardware that was detected.
#[derive(Debug, Clone)]
pub struct HardwareInfo {
    pub cpu_vendor: CpuVendor,
    pub gpu_vendors: Vec<GpuVendor>,
    pub platform: Platform,
}

impl HardwareInfo {
    /// Whether a graphics processor of `vendor` was found.
    pub open spec fn has_gpu(&self, vendor: GpuVendor) -> bool {
        self.gpu_vendors@.contains(vendor)
    }

    /// Whether a graphics processor of `vendor` was found.
    pub fn has_gpu_vendor(&self, vendor: GpuVendor) -> (found: bool)
        ensures
            found == self.has_gpu(vendor),
    {
        let mut i: usize = 0;
        while i < self.gpu_vendors.len()
            invariant
                i <= self.gpu_vendors@.len(),
                forall|k: int| 0 <= k < i ==> self.gpu_vendors@[k] != vendor,
            decreases self.gpu_vendors@.len() - i,
        {
            if self.gpu_vendors[i] == vendor {
                return true;
            }
            i += 1;
        }
        false
    }
}

/// The platform that an operating system name stands for. The names are
/// those of `std::env::consts::OS`.
pub open spec fn platform_of(os: Seq<char>) -> Platform {
    if os == "windows"@ {
        Platform::Windows
    } else if os == "macos"@ {
        Platform::MacOS
    } else if os == "linux"@ {
        Platform::Linux
    } else {
        Platform::Unknown
    }
}

/// Whether an architecture name is one of the x86 family. The names are those
/// of `std::env::consts::ARCH`.
pub open spec fn is_x86(arch: Seq<char>) -> bool {
    arch == "x86"@ || arch == "x86_64"@
}

/// Whether the names describe Apple silicon: a 64-bit ARM processor under macOS.
pub open spec fn is_apple_silicon(os: Seq<char>, arch: Seq<char>) -> bool {
    arch == "aarch64"@ && os == "macos"@
}

/// The processor vendor, from the target's names and the vendor string of the
/// processor, where one was read.
///
/// Apple silicon is Apple. On the x86 family the vendor string decides:
/// `GenuineIntel` is Intel, `AuthenticAMD` is AMD. Everything else is unknown.
pub open spec fn cpu_vendor_of(os: Seq<char>, arch: Seq<char>, vendor: Option<Seq<char>>) -> CpuVendor {
    if is_apple_silicon(os, arch) {
        CpuVendor::Apple
    } else if is_x86(arch) && vendor == Some("GenuineIntel"@) {
        CpuVendor::Intel
    } else if is_x86(arch) && vendor == Some("AuthenticAMD"@) {
        CpuVendor::AMD
    } else {
        CpuVendor::Unknown
    }
}

/// The graphics vendors that the platform itself implies: an Apple graphics
/// processor on Apple silicon, nothing elsewhere.
pub open spec fn platform_gpu_vendors(os: Seq<char>, arch: Seq<char>) -> Seq<GpuVendor> {
    if is_apple_silicon(os, arch) {
        seq![GpuVendor::Apple]
    } else {
        Seq::empty()
    }
}

/// The graphics vendors, from the target's names and whether the NVIDIA
/// management library could be started: what the platform implies, and only
/// where that is nothing, NVIDIA if its library answers.
pub open spec fn gpu_vendors_of(os: Seq<char>, arch: Seq<char>, nvml_answers: bool) -> Seq<GpuVendor> {
    if platform_gpu_vendors(os, arch).len() > 0 {
        platform_gpu_vendors(os, arch)
    } else if nvml_answers {
        seq![GpuVendor::NVIDIA]
    } else {
        Seq::empty()
    }
}

/// The operating system names differ from one another.
proof fn lemma_os_names_differ()
    ensures
        "windows"@ != "macos"@,
        "linux"@ != "macos"@,
        "windows"@ != "linux"@,
{
    reveal_strlit("windows");
    reveal_strlit("macos");
    reveal_strlit("linux");
    assert("windows"@.len() == 7);
    assert("macos"@.len() == 5);
    assert("linux"@[0] == 'l');
    assert("macos"@[0] == 'm');
    assert("linux"@.len() == 5);
}

/// The vendor string that the processor reports through `cpuid`, if it
/// reports one.
///
/// Calls `raw_cpuid::CpuId::new`, `get_vendor_info` on it and `as_str` on
/// what that returns. The answer depends on the machine; nothing is claimed
/// of it.
#[verifier::external_body]
fn cpuid_vendor_string() -> (vendor: Option<String>) {
    raw_cpuid::CpuId::new().get_vendor_info().map(|info| info.as_str().to_string())
}

/// Detects hardware.
pub struct HardwareDetector;

impl HardwareDetector {
    /// Detects the hardware of a target named by `os` and `arch`, asking the
    /// processor for its vendor string on the x86 family, and the NVIDIA
    /// management library where the platform implies no graphics vendor.
    pub fn detect(os: &str, arch: &str) -> (info: HardwareInfo)
        ensures
            info.platform == platform_of(os@),
            exists|vendor: Option<Seq<char>>|
                info.cpu_vendor == #[trigger] cpu_vendor_of(os@, arch@, vendor),
            !is_x86(arch@) ==> info.cpu_vendor == cpu_vendor_of(os@, arch@, None),
            exists|nvml: bool| info.gpu_vendors@ == #[trigger] gpu_vendors_of(os@, arch@, nvml),
            is_apple_silicon(os@, arch@) ==> info.gpu_vendors@ == seq![GpuVendor::Apple],
    {
        let platform = Self::detect_platform(os);
        let cpu_vendor = Self::detect_cpu_vendor(os, arch);
        let gpu_vendors = Self::detect_gpu_vendors(os, arch);
        HardwareInfo { cpu_vendor, gpu_vendors, platform }
    }

    /// The platform that `os` names.
    pub fn detect_platform(os: &str) -> (platform: Platform)
        ensures
            platform == platform_of(os@),
    {
        if str_eq(os, "windows") {
            Platform::Windows
        } else if str_eq(os, "macos") {
            Platform::MacOS
        } else if str_eq(os, "linux") {
            Platform::Linux
        } else {
            Platform::Unknown
        }
    }

    /// The processor vendor of a target, given the vendor string that the
    /// processor reported.
    pub fn cpu_vendor_from(os: &str, arch: &str, vendor: Option<&str>) -> (cpu_vendor: CpuVendor)
        ensures
            cpu_vendor == cpu_vendor_of(
                os@,
                arch@,
                match vendor {
                    Some(v) => Some(v@),
                    None => None,
                },
            ),
    {
        if str_eq(arch, "aarch64") && str_eq(os, "macos") {
            return CpuVendor::Apple;
        }
        if str_eq(arch, "x86") || str_eq(arch, "x86_64") {
            if let Some(v) = vendor {
                if str_eq(v, "GenuineIntel") {
                    return CpuVendor::Intel;
                }
                if str_eq(v, "AuthenticAMD") {
                    return CpuVendor::AMD;
                }
            }
        }
        CpuVendor::Unknown
    }

    /// The processor vendor of a target. The processor is asked for its
    /// vendor string only on the x86 family.
    pub fn detect_cpu_vendor(os: &str, arch: &str) -> (cpu_vendor: CpuVendor)
        ensures
            exists|vendor: Option<Seq<char>>|
                cpu_vendor == #[trigger] cpu_vendor_of(os@, arch@, vendor),
            !is_x86(arch@) ==> cpu_vendor == cpu_vendor_of(os@, arch@, None),
    {
        let vendor = Self::get_cpu_vendor_string(arch);
        let cpu_vendor = match &vendor {
            Some(v) => Self::cpu_vendor_from(os, arch, Some(v.as_str())),
            None => Self::cpu_vendor_from(os, arch, None),
        };
        proof {
            let witness = match vendor {
                Some(v) => Some(v@),
                None => None,
            };
            assert(cpu_vendor == cpu_vendor_of(os@, arch@, witness));
        }
        cpu_vendor
    }

    /// The vendor string of the processor: read through `cpuid` on the x86
    /// family, absent elsewhere.
    pub fn get_cpu_vendor_string(arch: &str) -> (vendor: Option<String>)
        ensures
            !is_x86(arch@) ==> vendor is None,
    {
        if str_eq(arch, "x86") || str_eq(arch, "x86_64") {
            cpuid_vendor_string()
        } else {
            None
        }
    }

    /// The graphics vendors of a target, given whether the NVIDIA management
    /// library answered.
    pub fn gpu_vendors_from(os: &str, arch: &str, nvml_answers: bool) -> (vendors: Vec<GpuVendor>)
        ensures
            vendors@ == gpu_vendors_of(os@, arch@, nvml_answers),
    {
        let mut vendors: Vec<GpuVendor> = Vec::new();
        if str_eq(os, "windows") {
            let mut found = Self::detect_windows_gpus();
            vendors.append(&mut found);
        } else if str_eq(os, "macos") {
            let mut found = Self::detect_macos_gpus(arch);
            vendors.append(&mut found);
        } else if str_eq(os, "linux") {
            let mut found = Self::detect_linux_gpus();
            vendors.append(&mut found);
        }
        if vendors.len() == 0 && nvml_answers {
            vendors.push(GpuVendor::NVIDIA);
        }
        proof {
            lemma_os_names_differ();
            assert(vendors@ =~= gpu_vendors_of(os@, arch@, nvml_answers));
        }
        vendors
    }

    /// The graphics vendors of a target. The NVIDIA management library is
    /// asked only where the platform implies no vendor.
    pub fn detect_gpu_vendors(os: &str, arch: &str) -> (vendors: Vec<GpuVendor>)
        ensures
            exists|nvml: bool| vendors@ == #[trigger] gpu_vendors_of(os@, arch@, nvml),
            is_apple_silicon(os@, arch@) ==> vendors@ == seq![GpuVendor::Apple],
    {
        let implied = Self::gpu_vendors_from(os, arch, false);
        if implied.len() > 0 {
            assert(implied@ == gpu_vendors_of(os@, arch@, false));
            implied
        } else {
            let by_api = Self::detect_gpus_by_api();
            let answers = by_api.len() > 0;
            assert(by_api@ == gpu_vendors_of(os@, arch@, answers));
            by_api
        }
    }

    /// Windows implies no graphics vendor.
    pub fn detect_windows_gpus() -> (vendors: Vec<GpuVendor>)
        ensures
            vendors@.len() == 0,
    {
        Vec::new()
    }

    /// macOS implies an Apple graphics processor on 64-bit ARM, and nothing else.
    pub fn detect_macos_gpus(arch: &str) -> (vendors: Vec<GpuVendor>)
        ensures
            vendors@ == if arch@ == "aarch64"@ {
                seq![GpuVendor::Apple]
            } else {
                Seq::empty()
            },
    {
        let mut vendors: Vec<GpuVendor> = Vec::new();
        if str_eq(arch, "aarch64") {
            vendors.push(GpuVendor::Apple);
        }
        vendors
    }

    /// Linux implies no graphics vendor.
    pub fn detect_linux_gpus() -> (vendors: Vec<GpuVendor>)
        ensures
            vendors@.len() == 0,
    {
        Vec::new()
    }

    /// The graphics vendors whose management library answers: NVIDIA or none.
    pub fn detect_gpus_by_api() -> (vendors: Vec<GpuVendor>)
        ensures
            vendors@ == seq![GpuVendor::NVIDIA] || vendors@ == Seq::<GpuVendor>::empty(),
    {
        let mut vendors: Vec<GpuVendor> = Vec::new();
        if nvml_init().is_ok() {
            vendors.push(GpuVendor::NVIDIA);
        }
        vendors
    }
}

/// A source of samples for some hardware.
pub trait HardwareMonitor: Sized {
    /// Whether the monitor has been initialized with success.
    spec fn is_initialized(&self) -> bool;

    /// Whether the monitor applies to the hardware described by `info`.
    spec fn supports(&self, info: &HardwareInfo) -> bool;

    /// What one call of `initialize` makes of a monitor and a log: whether
    /// `self` and `log_after` are what the call leaves of `before` and
    /// `log_before` when it returns `outcome`.
    spec fn initializes(
        &self,
        before: &Self,
        outcome: Result<(), HardwareError>,
        log_before: Seq<(LogLevel, Seq<char>)>,
        log_after: Seq<(LogLevel, Seq<char>)>,
    ) -> bool;

    /// What one update makes of a monitor and a state: whether `self` and
    /// `state_after` are what the update leaves of `before` and
    /// `state_before` when it returns `outcome`.
    spec fn updates(
        &self,
        before: &Self,
        state_before: AppState,
        state_after: AppState,
        outcome: Result<(), HardwareError>,
    ) -> bool;

    /// Prepares the monitor, and logs what the monitor has to say of it.
    /// Success leaves the monitor initialized; a failure leaves it as
    /// initialized as it was.
    fn initialize(&mut self, logger: &mut AppLogger) -> (outcome: Result<(), HardwareError>)
        ensures
            final(self).initializes(
                old(self),
                outcome,
                old(logger).records(),
                final(logger).records(),
            ),
            outcome is Ok ==> final(self).is_initialized(),
            outcome is Err ==> final(self).is_initialized() == old(self).is_initialized(),
            final(logger).log_file_path == old(logger).log_file_path,
    ;

    /// Takes samples and writes them to `state`. A monitor that is not
    /// initialized does nothing, stays as it is and succeeds. No update takes
    /// a current value away from a channel.
    fn update_state(&mut self, state: &mut AppState) -> (outcome: Result<(), HardwareError>)
        ensures
            final(self).updates(old(self), *old(state), *final(state), outcome),
            final(self).is_initialized() == old(self).is_initialized(),
            !old(self).is_initialized() ==> outcome is Ok && *final(self) == *old(self)
                && *final(state) == *old(state),
            final(state).retains(old(state)),
    ;

    /// Takes exclusive access to `shared` and updates the state under it, as
    /// [`HardwareMonitor::update_state`] does.
    fn update_metrics(&mut self, shared: &SharedAppState) -> (outcome: Result<(), HardwareError>)
        ensures
            final(self).is_initialized() == old(self).is_initialized(),
            !old(self).is_initialized() ==> outcome is Ok && *final(self) == *old(self),
    {
        let mut guard = StateWriteGuard::acquire(shared);
        self.update_state(guard.state())
    }

    /// Whether the monitor applies to the hardware described by `info`.
    fn supports_hardware(&self, info: &HardwareInfo) -> (supported: bool)
        ensures
            supported == self.supports(info),
    ;
}

} // verus!
