//! The monitors, one per kind of hardware, and the registry that drives them.

pub mod amd;
pub mod apple;
pub mod generic;
pub mod intel;
pub mod nvidia;

use vstd::prelude::*;
use vstd::string::StringExecFns;
use crate::hardware::HardwareError;
use crate::hardware_detection::{HardwareInfo, HardwareMonitor};
use crate::logger::{error_message, AppLogger, LogLevel};
use crate::model::{AppState, SharedAppState, StateWriteGuard};
use crate::monitors::amd::AmdMonitor;
use crate::monitors::apple::AppleMonitor;
use crate::monitors::generic::GenericMonitor;
use crate::monitors::intel::IntelMonitor;
use crate::monitors::nvidia::NvidiaMonitor;

verus! {

/// The entry that is logged when a monitor fails in an activity named by
/// `activity`: an error whose context is the activity, a colon and the text
/// of the failure, and whose error is that text again.
pub open spec fn failure_entry(activity: Seq<char>, failure: Seq<char>) -> (LogLevel, Seq<char>) {
    (LogLevel::Error, error_message(activity + ": "@ + failure, failure))
}

/// Logs the failure of a monitor.
fn log_failure(logger: &mut AppLogger, activity: &str, failure: &HardwareError)
    ensures
        final(logger).records() == old(logger).records().push(
            failure_entry(activity@, failure.text()),
        ),
        final(logger).log_file_path == old(logger).log_file_path,
{
    let text = failure.to_string();
    let context = String::from_str(activity).concat(": ").concat(text.as_str());
    logger.log_error(context.as_str(), text.as_str());
}

/// The monitors of a session, in the order in which they were registered.
pub struct MonitorRegistry<M: HardwareMonitor> {
    monitors: Vec<M>,
}

/// The activity that is logged with a failed initialization.
pub open spec fn initialization_activity() -> Seq<char> {
    "Failed to initialize monitor"@
}

/// The activity that is logged with a failed update.
pub open spec fn update_activity() -> Seq<char> {
    "Monitor update failed"@
}

/// The entries that are logged for the first `n` updates with the outcomes
/// `outcomes`: one for each failure, in order.
pub open spec fn update_failures(outcomes: Seq<Result<(), HardwareError>>, n: int) -> Seq<
    (LogLevel, Seq<char>),
>
    decreases n,
{
    if n <= 0 {
        Seq::empty()
    } else if outcomes[n - 1] is Err {
        update_failures(outcomes, n - 1).push(
            failure_entry(update_activity(), outcomes[n - 1]->Err_0.text()),
        )
    } else {
        update_failures(outcomes, n - 1)
    }
}

/// The entries of the first `n` updates do not depend on later outcomes.
pub proof fn lemma_update_failures_extend(
    shorter: Seq<Result<(), HardwareError>>,
    longer: Seq<Result<(), HardwareError>>,
    n: int,
)
    requires
        0 <= n <= shorter.len() <= longer.len(),
        forall|k: int| 0 <= k < n ==> shorter[k] == longer[k],
    ensures
        update_failures(shorter, n) == update_failures(longer, n),
    decreases n,
{
    if n > 0 {
        lemma_update_failures_extend(shorter, longer, n - 1);
    }
}

impl<M: HardwareMonitor> MonitorRegistry<M> {
    /// The registered monitors, in order.
    pub closed spec fn monitors(&self) -> Seq<M> {
        self.monitors@
    }

    /// Whether `after` is `before` initialized for `info` with the outcomes
    /// `outcomes`, the log running through `logs`: the monitor at index `i`
    /// finds the log as `logs[i]` and leaves it as `logs[i + 1]`. Every
    /// monitor that applies is as its own `initialize` leaves it, the log as
    /// that call leaves it, `own[i]`, and then one entry more for a failure;
    /// every other monitor is as it was, and so is the log.
    pub open spec fn initialized_as(
        after: Seq<M>,
        before: Seq<M>,
        info: &HardwareInfo,
        outcomes: Seq<Result<(), HardwareError>>,
        logs: Seq<Seq<(LogLevel, Seq<char>)>>,
        own: Seq<Seq<(LogLevel, Seq<char>)>>,
    ) -> bool {
        &&& after.len() == before.len()
        &&& outcomes.len() == before.len()
        &&& own.len() == before.len()
        &&& logs.len() == before.len() + 1
        &&& forall|i: int|
            0 <= i < before.len() ==> if (#[trigger] before[i]).supports(info) {
                &&& after[i].initializes(&before[i], outcomes[i], logs[i], own[i])
                &&& logs[i + 1] == if outcomes[i] is Err {
                    own[i].push(
                        failure_entry(initialization_activity(), outcomes[i]->Err_0.text()),
                    )
                } else {
                    own[i]
                }
            } else {
                &&& after[i] == before[i]
                &&& logs[i + 1] == logs[i]
            }
    }

    /// Whether `after` and `log_after` are what initializing `before` for
    /// `info` makes of them and of `log_before`: every monitor that applies
    /// is initialized by its own `initialize`, in order and whether or not an
    /// earlier one failed, each failure is logged right after the monitor's
    /// own entries, and no other monitor is touched.
    pub open spec fn initialization_of(
        after: Seq<M>,
        before: Seq<M>,
        info: &HardwareInfo,
        log_before: Seq<(LogLevel, Seq<char>)>,
        log_after: Seq<(LogLevel, Seq<char>)>,
    ) -> bool {
        exists|
            outcomes: Seq<Result<(), HardwareError>>,
            logs: Seq<Seq<(LogLevel, Seq<char>)>>,
            own: Seq<Seq<(LogLevel, Seq<char>)>>,
        |
            {
                &&& #[trigger] Self::initialized_as(after, before, info, outcomes, logs, own)
                &&& logs[0] == log_before
                &&& logs[before.len() as int] == log_after
            }
    }

    /// Whether `after` is `before` after one update of each monitor, in
    /// order, through the states `states` and with the outcomes `outcomes`:
    /// the update of the monitor at index `i` takes the state from
    /// `states[i]` to `states[i + 1]`.
    pub open spec fn updated_as(
        after: Seq<M>,
        before: Seq<M>,
        states: Seq<AppState>,
        outcomes: Seq<Result<(), HardwareError>>,
    ) -> bool {
        &&& after.len() == before.len()
        &&& outcomes.len() == before.len()
        &&& states.len() == before.len() + 1
        &&& forall|i: int|
            0 <= i < before.len() ==> (#[trigger] after[i]).updates(
                &before[i],
                states[i],
                states[i + 1],
                outcomes[i],
            )
    }

    /// Whether `after`, `state_after` and `log_after` are what one cycle
    /// makes of `before`, `state_before` and `log_before`: every monitor is
    /// updated once, in order, each on the state that the one before it
    /// left, whether or not an earlier one failed, and the log grows by one
    /// entry for each failure, in order.
    pub open spec fn cycle_of(
        after: Seq<M>,
        before: Seq<M>,
        state_before: AppState,
        state_after: AppState,
        log_before: Seq<(LogLevel, Seq<char>)>,
        log_after: Seq<(LogLevel, Seq<char>)>,
    ) -> bool {
        exists|states: Seq<AppState>, outcomes: Seq<Result<(), HardwareError>>|
            {
                &&& #[trigger] Self::updated_as(after, before, states, outcomes)
                &&& states[0] == state_before
                &&& states[before.len() as int] == state_after
                &&& log_after == log_before + update_failures(outcomes, before.len() as int)
            }
    }

    /// A registry without monitors.
    pub fn new() -> (registry: Self)
        ensures
            registry.monitors().len() == 0,
    {
        MonitorRegistry { monitors: Vec::new() }
    }

    /// Registers `monitor` after the monitors that are there.
    pub fn register(&mut self, monitor: M)
        ensures
            final(self).monitors() == old(self).monitors().push(monitor),
    {
        self.monitors.push(monitor);
    }

    /// How many monitors are registered.
    pub fn len(&self) -> (count: usize)
        ensures
            count == self.monitors().len(),
    {
        self.monitors.len()
    }

    /// Initializes every monitor that applies to `hardware_info`, in order,
    /// each by its own `initialize`, whether or not an earlier one failed.
    ///
    /// A monitor that does not apply is not touched. Each failure is logged
    /// as an error with its text, after what the monitor itself has logged,
    /// and the call succeeds.
    pub fn initialize_for_hardware(
        &mut self,
        hardware_info: &HardwareInfo,
        logger: &mut AppLogger,
    ) -> (outcome: Result<(), HardwareError>)
        ensures
            outcome is Ok,
            Self::initialization_of(
                final(self).monitors(),
                old(self).monitors(),
                hardware_info,
                old(logger).records(),
                final(logger).records(),
            ),
            final(self).monitors().len() == old(self).monitors().len(),
            forall|i: int|
                0 <= i < old(self).monitors().len() && (#[trigger] old(self).monitors()[i]).is_initialized()
                    ==> final(self).monitors()[i].is_initialized(),
            final(logger).log_file_path == old(logger).log_file_path,
    {
        let ghost before = self.monitors@;
        let ghost mut outcomes: Seq<Result<(), HardwareError>> = Seq::empty();
        let ghost mut logs: Seq<Seq<(LogLevel, Seq<char>)>> = seq![logger.records()];
        let ghost mut own: Seq<Seq<(LogLevel, Seq<char>)>> = Seq::empty();
        let mut i: usize = 0;
        while i < self.monitors.len()
            invariant
                i <= self.monitors@.len(),
                self.monitors@.len() == before.len(),
                outcomes.len() == i,
                own.len() == i,
                logs.len() == i + 1,
                logs[0] == old(logger).records(),
                logs[i as int] == logger.records(),
                forall|k: int| i <= k < before.len() ==> self.monitors@[k] == before[k],
                forall|k: int|
                    0 <= k < i ==> if (#[trigger] before[k]).supports(hardware_info) {
                        &&& self.monitors@[k].initializes(&before[k], outcomes[k], logs[k], own[k])
                        &&& logs[k + 1] == if outcomes[k] is Err {
                            own[k].push(
                                failure_entry(initialization_activity(), outcomes[k]->Err_0.text()),
                            )
                        } else {
                            own[k]
                        }
                    } else {
                        &&& self.monitors@[k] == before[k]
                        &&& logs[k + 1] == logs[k]
                    },
                forall|k: int|
                    0 <= k < i && (#[trigger] before[k]).is_initialized()
                        ==> self.monitors@[k].is_initialized(),
                logger.log_file_path == old(logger).log_file_path,
            decreases self.monitors@.len() - i,
        {
            let ghost earlier = outcomes;
            let ghost passed = logs;
            let ghost owned = own;
            if self.monitors[i].supports_hardware(hardware_info) {
                let result = self.monitors[i].initialize(logger);
                proof {
                    outcomes = earlier.push(result);
                    own = owned.push(logger.records());
                }
                if let Err(failure) = result {
                    log_failure(logger, "Failed to initialize monitor", &failure);
                }
            } else {
                proof {
                    outcomes = earlier.push(Ok(()));
                    own = owned.push(logger.records());
                }
            }
            proof {
                logs = passed.push(logger.records());
                assert forall|k: int| 0 <= k < i + 1 implies if (#[trigger] before[k]).supports(
                    hardware_info,
                ) {
                    &&& self.monitors@[k].initializes(&before[k], outcomes[k], logs[k], own[k])
                    &&& logs[k + 1] == if outcomes[k] is Err {
                        own[k].push(
                            failure_entry(initialization_activity(), outcomes[k]->Err_0.text()),
                        )
                    } else {
                        own[k]
                    }
                } else {
                    &&& self.monitors@[k] == before[k]
                    &&& logs[k + 1] == logs[k]
                } by {
                    if k < i {
                        assert(logs[k] == passed[k]);
                        assert(logs[k + 1] == passed[k + 1]);
                        assert(outcomes[k] == earlier[k]);
                        assert(own[k] == owned[k]);
                    }
                }
            }
            i += 1;
        }
        proof {
            assert(Self::initialized_as(
                self.monitors@,
                before,
                hardware_info,
                outcomes,
                logs,
                own,
            ));
        }
        Ok(())
    }

    /// One cycle on `state`: updates every monitor once, in order, whether
    /// or not it applies to the hardware and whether or not an earlier one
    /// failed, each on the state that the one before it left.
    ///
    /// Each failure is logged as an error with its text, in order, and the
    /// call succeeds. No monitor changes whether it is initialized, one that
    /// is not stays as it is, and no channel loses its current value.
    pub fn update_all_states(&mut self, state: &mut AppState, logger: &mut AppLogger) -> (outcome:
        Result<(), HardwareError>)
        ensures
            outcome is Ok,
            Self::cycle_of(
                final(self).monitors(),
                old(self).monitors(),
                *old(state),
                *final(state),
                old(logger).records(),
                final(logger).records(),
            ),
            final(self).monitors().len() == old(self).monitors().len(),
            forall|i: int|
                0 <= i < old(self).monitors().len() ==> (#[trigger] final(self).monitors()[i]).is_initialized()
                    == old(self).monitors()[i].is_initialized(),
            forall|i: int|
                0 <= i < old(self).monitors().len() && !(#[trigger] old(self).monitors()[i]).is_initialized()
                    ==> final(self).monitors()[i] == old(self).monitors()[i],
            final(state).retains(old(state)),
            final(logger).log_file_path == old(logger).log_file_path,
    {
        let ghost before = self.monitors@;
        let ghost logged = logger.records();
        let ghost mut outcomes: Seq<Result<(), HardwareError>> = Seq::empty();
        let ghost mut states: Seq<AppState> = seq![*state];
        let mut i: usize = 0;
        assert(logger.records() =~= logged + update_failures(outcomes, 0));
        while i < self.monitors.len()
            invariant
                i <= self.monitors@.len(),
                self.monitors@.len() == before.len(),
                outcomes.len() == i,
                states.len() == i + 1,
                states[0] == *old(state),
                states[i as int] == *state,
                forall|k: int| i <= k < before.len() ==> self.monitors@[k] == before[k],
                forall|k: int|
                    0 <= k < i ==> (#[trigger] self.monitors@[k]).updates(
                        &before[k],
                        states[k],
                        states[k + 1],
                        outcomes[k],
                    ),
                forall|k: int|
                    0 <= k < i ==> (#[trigger] self.monitors@[k]).is_initialized()
                        == before[k].is_initialized(),
                forall|k: int|
                    0 <= k < i && !(#[trigger] before[k]).is_initialized() ==> self.monitors@[k]
                        == before[k],
                state.retains(old(state)),
                logger.records() == logged + update_failures(outcomes, i as int),
                logger.log_file_path == old(logger).log_file_path,
            decreases self.monitors@.len() - i,
        {
            let ghost earlier = outcomes;
            let ghost passed = states;
            let result = self.monitors[i].update_state(state);
            proof {
                outcomes = earlier.push(result);
                states = passed.push(*state);
            }
            if let Err(failure) = result {
                log_failure(logger, "Monitor update failed", &failure);
            }
            proof {
                lemma_update_failures_extend(earlier, outcomes, i as int);
                assert(logger.records() =~= logged + update_failures(outcomes, i as int + 1));
                assert forall|k: int| 0 <= k < i + 1 implies (#[trigger] self.monitors@[k]).updates(
                    &before[k],
                    states[k],
                    states[k + 1],
                    outcomes[k],
                ) by {
                    if k < i {
                        assert(states[k] == passed[k]);
                        assert(states[k + 1] == passed[k + 1]);
                        assert(outcomes[k] == earlier[k]);
                    }
                }
            }
            i += 1;
        }
        proof {
            assert(Self::updated_as(self.monitors@, before, states, outcomes));
        }
        Ok(())
    }

    /// One cycle on the shared state: takes exclusive access to `shared`
    /// and updates every monitor on the state under it, as
    /// [`MonitorRegistry::update_all_states`] does. Failures are logged, and
    /// the call succeeds.
    pub fn update_all_metrics(&mut self, shared: &SharedAppState, logger: &mut AppLogger) -> (outcome:
        Result<(), HardwareError>)
        ensures
            outcome is Ok,
            final(self).monitors().len() == old(self).monitors().len(),
            forall|i: int|
                0 <= i < old(self).monitors().len() ==> (#[trigger] final(self).monitors()[i]).is_initialized()
                    == old(self).monitors()[i].is_initialized(),
            forall|i: int|
                0 <= i < old(self).monitors().len() && !(#[trigger] old(self).monitors()[i]).is_initialized()
                    ==> final(self).monitors()[i] == old(self).monitors()[i],
            final(logger).log_file_path == old(logger).log_file_path,
    {
        let mut guard = StateWriteGuard::acquire(shared);
        self.update_all_states(guard.state(), logger)
    }
}

/// Any of the monitors that the library knows.
pub enum Probe {
    Nvidia(NvidiaMonitor),
    Amd(AmdMonitor),
    Intel(IntelMonitor),
    Apple(AppleMonitor),
    Generic(GenericMonitor),
}

impl HardwareMonitor for Probe {
    open spec fn is_initialized(&self) -> bool {
        match self {
            Probe::Nvidia(monitor) => monitor.is_initialized(),
            Probe::Amd(monitor) => monitor.is_initialized(),
            Probe::Intel(monitor) => monitor.is_initialized(),
            Probe::Apple(monitor) => monitor.is_initialized(),
            Probe::Generic(monitor) => monitor.is_initialized(),
        }
    }

    open spec fn supports(&self, info: &HardwareInfo) -> bool {
        match self {
            Probe::Nvidia(monitor) => monitor.supports(info),
            Probe::Amd(monitor) => monitor.supports(info),
            Probe::Intel(monitor) => monitor.supports(info),
            Probe::Apple(monitor) => monitor.supports(info),
            Probe::Generic(monitor) => monitor.supports(info),
        }
    }

    /// The monitor inside is of the same kind as before, and it and the log
    /// are what its own `initialize` makes of them.
    open spec fn initializes(
        &self,
        before: &Self,
        outcome: Result<(), HardwareError>,
        log_before: Seq<(LogLevel, Seq<char>)>,
        log_after: Seq<(LogLevel, Seq<char>)>,
    ) -> bool {
        match (self, before) {
            (Probe::Nvidia(after), Probe::Nvidia(earlier)) => after.initializes(
                earlier,
                outcome,
                log_before,
                log_after,
            ),
            (Probe::Amd(after), Probe::Amd(earlier)) => after.initializes(
                earlier,
                outcome,
                log_before,
                log_after,
            ),
            (Probe::Intel(after), Probe::Intel(earlier)) => after.initializes(
                earlier,
                outcome,
                log_before,
                log_after,
            ),
            (Probe::Apple(after), Probe::Apple(earlier)) => after.initializes(
                earlier,
                outcome,
                log_before,
                log_after,
            ),
            (Probe::Generic(after), Probe::Generic(earlier)) => after.initializes(
                earlier,
                outcome,
                log_before,
                log_after,
            ),
            _ => false,
        }
    }

    /// The monitor inside is of the same kind as before, and it and the
    /// state are what its own update makes of them.
    open spec fn updates(
        &self,
        before: &Self,
        state_before: AppState,
        state_after: AppState,
        outcome: Result<(), HardwareError>,
    ) -> bool {
        match (self, before) {
            (Probe::Nvidia(after), Probe::Nvidia(earlier)) => after.updates(
                earlier,
                state_before,
                state_after,
                outcome,
            ),
            (Probe::Amd(after), Probe::Amd(earlier)) => after.updates(
                earlier,
                state_before,
                state_after,
                outcome,
            ),
            (Probe::Intel(after), Probe::Intel(earlier)) => after.updates(
                earlier,
                state_before,
                state_after,
                outcome,
            ),
            (Probe::Apple(after), Probe::Apple(earlier)) => after.updates(
                earlier,
                state_before,
                state_after,
                outcome,
            ),
            (Probe::Generic(after), Probe::Generic(earlier)) => after.updates(
                earlier,
                state_before,
                state_after,
                outcome,
            ),
            _ => false,
        }
    }

    /// Initializes the monitor inside.
    fn initialize(&mut self, logger: &mut AppLogger) -> (outcome: Result<(), HardwareError>) {
        let outcome = match self {
            Probe::Nvidia(monitor) => monitor.initialize(logger),
            Probe::Amd(monitor) => monitor.initialize(logger),
            Probe::Intel(monitor) => monitor.initialize(logger),
            Probe::Apple(monitor) => monitor.initialize(logger),
            Probe::Generic(monitor) => monitor.initialize(logger),
        };
        assert(self.initializes(old(self), outcome, old(logger).records(), logger.records()));
        outcome
    }

    /// Updates `state` by the monitor inside. No monitor of the library
    /// fails here.
    fn update_state(&mut self, state: &mut AppState) -> (outcome: Result<(), HardwareError>)
        ensures
            outcome is Ok,
    {
        let outcome = match self {
            Probe::Nvidia(monitor) => monitor.update_state(state),
            Probe::Amd(monitor) => monitor.update_state(state),
            Probe::Intel(monitor) => monitor.update_state(state),
            Probe::Apple(monitor) => monitor.update_state(state),
            Probe::Generic(monitor) => monitor.update_state(state),
        };
        assert(self.updates(old(self), *old(state), *state, outcome));
        outcome
    }

    /// Takes exclusive access to `shared` and updates the state under it.
    /// Always succeeds.
    fn update_metrics(&mut self, shared: &SharedAppState) -> (outcome: Result<(), HardwareError>)
        ensures
            outcome is Ok,
    {
        let mut guard = StateWriteGuard::acquire(shared);
        self.update_state(guard.state())
    }

    fn supports_hardware(&self, info: &HardwareInfo) -> (supported: bool) {
        match self {
            Probe::Nvidia(monitor) => monitor.supports_hardware(info),
            Probe::Amd(monitor) => monitor.supports_hardware(info),
            Probe::Intel(monitor) => monitor.supports_hardware(info),
            Probe::Apple(monitor) => monitor.supports_hardware(info),
            Probe::Generic(monitor) => monitor.supports_hardware(info),
        }
    }
}

impl MonitorRegistry<Probe> {
    /// Registers one monitor of every kind, none of them initialized: for
    /// NVIDIA, AMD, Intel and Apple hardware, and the fallback last, which
    /// applies to every hardware.
    pub fn register_all_monitors(&mut self)
        ensures
            forall|info: HardwareInfo| #[trigger]
                final(self).monitors()[old(self).monitors().len() as int + 4].supports(&info),
            final(self).monitors().len() == old(self).monitors().len() + 5,
            final(self).monitors().subrange(0, old(self).monitors().len() as int) == old(self).monitors(),
            final(self).monitors()[old(self).monitors().len() as int + 0] is Nvidia,
            final(self).monitors()[old(self).monitors().len() as int + 1] is Amd,
            final(self).monitors()[old(self).monitors().len() as int + 2] is Intel,
            final(self).monitors()[old(self).monitors().len() as int + 3] is Apple,
            final(self).monitors()[old(self).monitors().len() as int + 4] is Generic,
            forall|i: int|
                old(self).monitors().len() <= i < final(self).monitors().len() ==> !(
                #[trigger] final(self).monitors()[i]).is_initialized(),
    {
        self.register(Probe::Nvidia(NvidiaMonitor::new()));
        self.register(Probe::Amd(AmdMonitor::new()));
        self.register(Probe::Intel(IntelMonitor::new()));
        self.register(Probe::Apple(AppleMonitor::new()));
        self.register(Probe::Generic(GenericMonitor::new()));
        proof {
            assert(self.monitors().subrange(0, old(self).monitors().len() as int) =~= old(self).monitors());
        }
    }
}

/// Where a poller stands: constructed, or sampling.
#[derive(Debug, Clone, Copy, PartialEq, Eq, Structural)]
pub enum PollerPhase {
    /// Constructed and not started.
    Idle,
    /// Started. A running poller never leaves this phase.
    Running,
}

/// Drives a registry against a shared state, cycle by cycle. The caller owns
/// the cadence: it sleeps between cycles for as long as each cycle asks.
pub struct Poller<M: HardwareMonitor> {
    registry: MonitorRegistry<M>,
    state: SharedAppState,
    polling_interval_ms: u64,
    phase: PollerPhase,
}

impl<M: HardwareMonitor> Poller<M> {
    /// The phase of the poller.
    pub closed spec fn phase_of(&self) -> PollerPhase {
        self.phase
    }

    /// The sampling interval, in milliseconds.
    pub closed spec fn interval_ms(&self) -> u64 {
        self.polling_interval_ms
    }

    /// The monitors of the poller's registry, in order.
    pub closed spec fn monitors(&self) -> Seq<M> {
        self.registry.monitors()
    }

    /// An idle poller that will drive `registry` against `state` every
    /// `polling_interval_ms` milliseconds.
    pub fn new(state: SharedAppState, registry: MonitorRegistry<M>, polling_interval_ms: u64) -> (poller:
        Self)
        ensures
            poller.phase_of() == PollerPhase::Idle,
            poller.interval_ms() == polling_interval_ms,
            poller.monitors() == registry.monitors(),
    {
        Poller { registry, state, polling_interval_ms, phase: PollerPhase::Idle }
    }

    /// The phase of the poller.
    pub fn phase(&self) -> (phase: PollerPhase)
        ensures
            phase == self.phase_of(),
    {
        self.phase
    }

    /// Starts the poller: an idle poller initializes its registry for
    /// `hardware_info`, once, and runs from then on; a running poller is left
    /// as it is.
    pub fn start(&mut self, hardware_info: &HardwareInfo, logger: &mut AppLogger)
        ensures
            final(self).phase_of() == PollerPhase::Running,
            final(self).interval_ms() == old(self).interval_ms(),
            final(self).monitors().len() == old(self).monitors().len(),
            old(self).phase_of() == PollerPhase::Running ==> final(self).monitors() == old(self).monitors() && final(logger).records() == old(logger).records(),
            old(self).phase_of() == PollerPhase::Idle ==> MonitorRegistry::<M>::initialization_of(
                final(self).monitors(),
                old(self).monitors(),
                hardware_info,
                old(logger).records(),
                final(logger).records(),
            ),
            forall|i: int|
                0 <= i < old(self).monitors().len() && (#[trigger] old(self).monitors()[i]).is_initialized()
                    ==> final(self).monitors()[i].is_initialized(),
            final(logger).log_file_path == old(logger).log_file_path,
    {
        match self.phase {
            PollerPhase::Idle => {
                let _ = self.registry.initialize_for_hardware(hardware_info, logger);
                self.phase = PollerPhase::Running;
            },
            PollerPhase::Running => {},
        }
    }

    /// One cycle on `state`. A running poller runs one cycle of its registry
    /// on the state and returns the milliseconds to sleep before the next
    /// cycle; failures of monitors are logged and never stop it. An idle
    /// poller does nothing and returns nothing.
    pub fn run_cycle_on(&mut self, state: &mut AppState, logger: &mut AppLogger) -> (sleep_ms: Option<
        u64,
    >)
        ensures
            final(self).phase_of() == old(self).phase_of(),
            final(self).interval_ms() == old(self).interval_ms(),
            sleep_ms == match old(self).phase_of() {
                PollerPhase::Idle => None,
                PollerPhase::Running => Some(old(self).interval_ms()),
            },
            final(self).monitors().len() == old(self).monitors().len(),
            old(self).phase_of() == PollerPhase::Idle ==> final(self).monitors() == old(self).monitors() && *final(state) == *old(state) && final(logger).records() == old(logger).records(),
            old(self).phase_of() == PollerPhase::Running ==> MonitorRegistry::<M>::cycle_of(
                final(self).monitors(),
                old(self).monitors(),
                *old(state),
                *final(state),
                old(logger).records(),
                final(logger).records(),
            ),
            forall|i: int|
                0 <= i < old(self).monitors().len() ==> (#[trigger] final(self).monitors()[i]).is_initialized()
                    == old(self).monitors()[i].is_initialized(),
            final(state).retains(old(state)),
            final(logger).log_file_path == old(logger).log_file_path,
    {
        match self.phase {
            PollerPhase::Idle => None,
            PollerPhase::Running => {
                let _ = self.registry.update_all_states(state, logger);
                Some(self.polling_interval_ms)
            },
        }
    }

    /// One cycle on the shared state of the poller: a running poller takes
    /// exclusive access and runs one cycle of its registry on the state under
    /// it, as [`Poller::run_cycle_on`] does, and returns the milliseconds to
    /// sleep before the next cycle. An idle poller does nothing and returns
    /// nothing.
    pub fn run_cycle(&mut self, logger: &mut AppLogger) -> (sleep_ms: Option<u64>)
        ensures
            final(self).phase_of() == old(self).phase_of(),
            final(self).interval_ms() == old(self).interval_ms(),
            sleep_ms == match old(self).phase_of() {
                PollerPhase::Idle => None,
                PollerPhase::Running => Some(old(self).interval_ms()),
            },
            final(self).monitors().len() == old(self).monitors().len(),
            old(self).phase_of() == PollerPhase::Idle ==> final(self).monitors() == old(self).monitors() && final(logger).records() == old(logger).records(),
            forall|i: int|
                0 <= i < old(self).monitors().len() ==> (#[trigger] final(self).monitors()[i]).is_initialized()
                    == old(self).monitors()[i].is_initialized(),
            final(logger).log_file_path == old(logger).log_file_path,
    {
        match self.phase {
            PollerPhase::Idle => None,
            PollerPhase::Running => {
                let mut guard = StateWriteGuard::acquire(&self.state);
                let _ = self.registry.update_all_states(guard.state(), logger);
                Some(self.polling_interval_ms)
            },
        }
    }
}

} // verus!
