//! Health checks in the style of Kubernetes probes: liveness, readiness and
//! startup, per-component checks for the LLM service and storage, and the
//! statistics of the probes that were run.
//!
//! Running a component's check is asynchronous work done by the application;
//! it hands the outcomes to `HealthSystem`, which decides what each probe
//! answers and keeps the counters.

use vstd::prelude::*;
use std::time::Duration;
use crate::text::{chars_of, string_of, extend_chars};
use crate::llm::bump;

verus! {

/// Milliseconds since the Unix epoch on the system clock (chrono
/// `Utc::now().timestamp_millis()`). The clock decides the value, so nothing
/// is stated of it.
#[verifier::external_body]
pub(crate) fn clock_millis() -> (t: i64) {
    chrono::Utc::now().timestamp_millis()
}

/// Whole seconds since the Unix epoch for a clock reading in milliseconds;
/// a reading before the epoch counts as 0.
pub open spec fn epoch_seconds(ms: int) -> nat {
    if ms < 0 {
        0
    } else {
        (ms / 1000) as nat
    }
}

fn seconds_of(ms: i64) -> (s: u64)
    ensures
        s as nat == epoch_seconds(ms as int),
{
    if ms < 0 {
        0
    } else {
        (ms / 1000) as u64
    }
}

// ---------------------------------------------------------------------------
// Probes
// ---------------------------------------------------------------------------

/// The kind of a probe.
#[derive(Debug, Clone, Copy, PartialEq, Eq, Structural)]
pub enum ProbeType {
    /// Is the process alive?
    Liveness,
    /// Is the system ready for traffic?
    Readiness,
    /// Has the system started?
    Startup,
}

/// The answer of a probe.
#[derive(Debug, Clone)]
pub struct ProbeResult {
    /// Which probe answered.
    pub probe_type: ProbeType,
    /// Whether it passed.
    pub success: bool,
    /// 200 when it passed, 503 when it failed.
    pub status_code: u16,
    /// `OK`, or why it failed.
    pub message: String,
    /// When it answered, in milliseconds since the Unix epoch.
    pub timestamp_ms: i64,
    /// How long it took, in milliseconds (0 for a failure).
    pub duration_ms: u64,
}

impl ProbeResult {
    /// A passed probe.
    pub fn success(probe_type: ProbeType, duration_ms: u64) -> (r: ProbeResult)
        ensures
            r.probe_type == probe_type,
            r.success,
            r.status_code == 200,
            r.message@ == "OK"@,
            r.duration_ms == duration_ms,
    {
        ProbeResult {
            probe_type,
            success: true,
            status_code: 200,
            message: string_of(chars_of("OK").as_slice()),
            timestamp_ms: clock_millis(),
            duration_ms,
        }
    }

    /// A failed probe with its reason.
    pub fn failure(probe_type: ProbeType, message: String) -> (r: ProbeResult)
        ensures
            r.probe_type == probe_type,
            !r.success,
            r.status_code == 503,
            r.message@ == message@,
            r.duration_ms == 0,
    {
        ProbeResult {
            probe_type,
            success: false,
            status_code: 503,
            message,
            timestamp_ms: clock_millis(),
            duration_ms: 0,
        }
    }
}

// ---------------------------------------------------------------------------
// Component checks
// ---------------------------------------------------------------------------

/// The health of a component, or of the whole system.
#[derive(Debug, Clone, Copy, PartialEq, Eq, Structural)]
pub enum HealthStatus {
    /// Working normally.
    Healthy,
    /// Working, with reduced service.
    Degraded,
    /// Not working.
    Unhealthy,
    /// Not checked yet.
    Unknown,
}

impl HealthStatus {
    /// Healthy and degraded components still serve.
    pub fn is_available(&self) -> (r: bool)
        ensures
            r == (*self == HealthStatus::Healthy || *self == HealthStatus::Degraded),
    {
        match self {
            HealthStatus::Healthy => true,
            HealthStatus::Degraded => true,
            _ => false,
        }
    }
}

/// The outcome of checking one component.
#[derive(Debug, Clone)]
pub struct HealthCheckResult {
    /// The component's name.
    pub component: String,
    /// Its status.
    pub status: HealthStatus,
    /// How long the check took, in milliseconds.
    pub latency_ms: u64,
    /// Why it is not healthy, if it is not.
    pub message: Option<String>,
}

/// The check of an LLM service: degraded until the service is configured.
#[derive(Debug, Clone)]
pub struct LlmHealthCheck {
    /// The service's name, which is also the component's name.
    pub service_name: String,
    /// The service's endpoint, when known.
    pub endpoint: Option<String>,
    /// Whether the service has been configured.
    pub is_configured: bool,
}

impl LlmHealthCheck {
    /// A check for a service that is not configured yet.
    pub fn new(service_name: String) -> (r: LlmHealthCheck)
        ensures
            r.service_name@ == service_name@,
            r.endpoint is None,
            !r.is_configured,
    {
        LlmHealthCheck { service_name, endpoint: None, is_configured: false }
    }

    /// Records whether the service is configured.
    pub fn set_configured(&mut self, configured: bool)
        ensures
            final(self).is_configured == configured,
            final(self).service_name == old(self).service_name,
            final(self).endpoint == old(self).endpoint,
    {
        self.is_configured = configured;
    }

    /// The component's name.
    pub fn name(&self) -> (r: &str)
        ensures
            r@ == self.service_name@,
    {
        self.service_name.as_str()
    }

    /// The check: degraded with latency 0 while unconfigured, otherwise
    /// healthy with the measured latency.
    pub fn check(&self, latency_ms: u64) -> (r: HealthCheckResult)
        ensures
            r.component@ == self.service_name@,
            self.is_configured ==> r.status == HealthStatus::Healthy && r.latency_ms == latency_ms
                && r.message is None,
            !self.is_configured ==> r.status == HealthStatus::Degraded && r.latency_ms == 0
                && r.message is Some && r.message->0@ == "LLM service not configured"@,
    {
        let component = self.service_name.clone();
        if !self.is_configured {
            HealthCheckResult {
                component,
                status: HealthStatus::Degraded,
                latency_ms: 0,
                message: Some(string_of(chars_of("LLM service not configured").as_slice())),
            }
        } else {
            HealthCheckResult { component, status: HealthStatus::Healthy, latency_ms, message: None }
        }
    }
}

/// The check of a storage backend: unhealthy while it is unavailable.
#[derive(Debug, Clone)]
pub struct StorageHealthCheck {
    /// The kind of storage, which is also the component's name.
    pub storage_type: String,
    /// Whether the storage is available.
    pub is_available: bool,
    /// When the storage was last written, in seconds since the Unix epoch
    /// (0 before the first write).
    pub last_write: u64,
}

impl StorageHealthCheck {
    /// A check for available storage that has not been written yet.
    pub fn new(storage_type: String) -> (r: StorageHealthCheck)
        ensures
            r.storage_type@ == storage_type@,
            r.is_available,
            r.last_write == 0,
    {
        StorageHealthCheck { storage_type, is_available: true, last_write: 0 }
    }

    /// Records whether the storage is available.
    pub fn set_available(&mut self, available: bool)
        ensures
            final(self).is_available == available,
            final(self).storage_type == old(self).storage_type,
            final(self).last_write == old(self).last_write,
    {
        self.is_available = available;
    }

    /// Records a write now, in seconds since the Unix epoch by the system clock.
    pub fn record_write(&mut self)
        ensures
            exists|ms: int| final(self).last_write == epoch_seconds(ms),
            final(self).storage_type == old(self).storage_type,
            final(self).is_available == old(self).is_available,
    {
        let ms = clock_millis();
        self.last_write = seconds_of(ms);
    }

    /// The component's name.
    pub fn name(&self) -> (r: &str)
        ensures
            r@ == self.storage_type@,
    {
        self.storage_type.as_str()
    }

    /// The check: unhealthy while unavailable, otherwise healthy with the
    /// measured latency.
    pub fn check(&self, latency_ms: u64) -> (r: HealthCheckResult)
        ensures
            r.component@ == self.storage_type@,
            self.is_available ==> r.status == HealthStatus::Healthy && r.latency_ms == latency_ms
                && r.message is None,
            !self.is_available ==> r.status == HealthStatus::Unhealthy && r.latency_ms == 0
                && r.message is Some && r.message->0@ == "Storage unavailable"@,
    {
        let component = self.storage_type.clone();
        if !self.is_available {
            HealthCheckResult {
                component,
                status: HealthStatus::Unhealthy,
                latency_ms: 0,
                message: Some(string_of(chars_of("Storage unavailable").as_slice())),
            }
        } else {
            HealthCheckResult { component, status: HealthStatus::Healthy, latency_ms, message: None }
        }
    }
}

// ---------------------------------------------------------------------------
// Configuration and statistics
// ---------------------------------------------------------------------------

/// Settings of the health system.
#[derive(Debug, Clone)]
pub struct HealthSystemConfig {
    /// Seconds between periodic checks.
    pub check_interval_secs: u64,
    /// Milliseconds a check may take.
    pub check_timeout_ms: u64,
    /// Results kept per component.
    pub history_size: usize,
    /// Consecutive failures before a component counts as unhealthy.
    pub failure_threshold: u32,
    /// Whether the HTTP endpoints are served.
    pub enable_http_endpoints: bool,
    /// The port of the HTTP endpoints.
    pub http_port: u16,
    /// Whether detailed metrics are collected.
    pub enable_metrics: bool,
}

impl Default for HealthSystemConfig {
    fn default() -> (r: HealthSystemConfig)
        ensures
            r.check_interval_secs == 30,
            r.check_timeout_ms == 5000,
            r.history_size == 10,
            r.failure_threshold == 3,
            r.enable_http_endpoints,
            r.http_port == 7799,
            r.enable_metrics,
    {
        HealthSystemConfig {
            check_interval_secs: 30,
            check_timeout_ms: 5000,
            history_size: 10,
            failure_threshold: 3,
            enable_http_endpoints: true,
            http_port: 7799,
            enable_metrics: true,
        }
    }
}

/// A snapshot of the health system's counters and flags.
#[derive(Debug, Clone)]
pub struct HealthSystemStatsSnapshot {
    /// Liveness probes run.
    pub liveness_checks: u64,
    /// Readiness probes run.
    pub readiness_checks: u64,
    /// Full health checks run.
    pub health_checks: u64,
    /// Probes failed because of a component.
    pub failures: u64,
    /// Seconds since the system was created.
    pub uptime_secs: u64,
    /// Whether the system is ready.
    pub is_ready: bool,
    /// Whether the system has started.
    pub is_started: bool,
}

// ---------------------------------------------------------------------------
// Check builder
// ---------------------------------------------------------------------------

/// Builds the description of a health check: its priority, dependencies,
/// which probes it gates and its timeout.
pub struct HealthCheckBuilder {
    name: String,
    priority: i32,
    dependencies: Vec<String>,
    required_for_readiness: bool,
    required_for_liveness: bool,
    timeout: Option<Duration>,
}

impl HealthCheckBuilder {
    /// The name of the check being built.
    pub closed spec fn name_view(&self) -> Seq<char> {
        self.name@
    }

    /// Its priority (higher is more important).
    pub closed spec fn priority_view(&self) -> i32 {
        self.priority
    }

    /// The names of the checks it depends on, in the order they were added.
    pub closed spec fn dependencies_view(&self) -> Seq<Seq<char>> {
        self.dependencies@.map_values(|d: String| d@)
    }

    /// Whether it gates readiness.
    pub closed spec fn readiness_view(&self) -> bool {
        self.required_for_readiness
    }

    /// Whether it gates liveness.
    pub closed spec fn liveness_view(&self) -> bool {
        self.required_for_liveness
    }

    /// Its timeout, if one was set.
    pub closed spec fn timeout_view(&self) -> Option<Duration> {
        self.timeout
    }

    /// A check with priority 0, no dependencies, required for readiness and
    /// not for liveness, and no timeout of its own.
    pub fn new(name: String) -> (r: HealthCheckBuilder)
        ensures
            r.name_view() == name@,
            r.priority_view() == 0,
            r.dependencies_view() == Seq::<Seq<char>>::empty(),
            r.readiness_view(),
            !r.liveness_view(),
            r.timeout_view() is None,
    {
        let r = HealthCheckBuilder {
            name,
            priority: 0,
            dependencies: Vec::new(),
            required_for_readiness: true,
            required_for_liveness: false,
            timeout: None,
        };
        assert(r.dependencies_view() =~= Seq::<Seq<char>>::empty());
        r
    }

    /// Sets the priority.
    pub fn priority(self, priority: i32) -> (r: HealthCheckBuilder)
        ensures
            r.priority_view() == priority,
            r.name_view() == self.name_view(),
            r.dependencies_view() == self.dependencies_view(),
            r.readiness_view() == self.readiness_view(),
            r.liveness_view() == self.liveness_view(),
            r.timeout_view() == self.timeout_view(),
    {
        let mut b = self;
        b.priority = priority;
        b
    }

    /// Adds a dependency at the end of the list.
    pub fn depends_on(self, dep: String) -> (r: HealthCheckBuilder)
        ensures
            r.dependencies_view() == self.dependencies_view().push(dep@),
            r.name_view() == self.name_view(),
            r.priority_view() == self.priority_view(),
            r.readiness_view() == self.readiness_view(),
            r.liveness_view() == self.liveness_view(),
            r.timeout_view() == self.timeout_view(),
    {
        let mut b = self;
        b.dependencies.push(dep);
        assert(b.dependencies_view() =~= self.dependencies_view().push(dep@));
        b
    }

    /// Sets whether the check gates readiness.
    pub fn required_for_readiness(self, required: bool) -> (r: HealthCheckBuilder)
        ensures
            r.readiness_view() == required,
            r.name_view() == self.name_view(),
            r.priority_view() == self.priority_view(),
            r.dependencies_view() == self.dependencies_view(),
            r.liveness_view() == self.liveness_view(),
            r.timeout_view() == self.timeout_view(),
    {
        let mut b = self;
        b.required_for_readiness = required;
        b
    }

    /// Sets whether the check gates liveness.
    pub fn required_for_liveness(self, required: bool) -> (r: HealthCheckBuilder)
        ensures
            r.liveness_view() == required,
            r.name_view() == self.name_view(),
            r.priority_view() == self.priority_view(),
            r.dependencies_view() == self.dependencies_view(),
            r.readiness_view() == self.readiness_view(),
            r.timeout_view() == self.timeout_view(),
    {
        let mut b = self;
        b.required_for_liveness = required;
        b
    }

    /// Sets the timeout.
    pub fn timeout(self, timeout: Duration) -> (r: HealthCheckBuilder)
        ensures
            r.timeout_view() == Some(timeout),
            r.name_view() == self.name_view(),
            r.priority_view() == self.priority_view(),
            r.dependencies_view() == self.dependencies_view(),
            r.readiness_view() == self.readiness_view(),
            r.liveness_view() == self.liveness_view(),
    {
        let mut b = self;
        b.timeout = Some(timeout);
        b
    }

    /// The name of the check.
    pub fn name(&self) -> (r: &str)
        ensures
            r@ == self.name_view(),
    {
        self.name.as_str()
    }

    /// The priority of the check.
    pub fn get_priority(&self) -> (r: i32)
        ensures
            r == self.priority_view(),
    {
        self.priority
    }

    /// Whether the check gates readiness.
    pub fn is_required_for_readiness(&self) -> (r: bool)
        ensures
            r == self.readiness_view(),
    {
        self.required_for_readiness
    }

    /// Whether the check gates liveness.
    pub fn is_required_for_liveness(&self) -> (r: bool)
        ensures
            r == self.liveness_view(),
    {
        self.required_for_liveness
    }
}

// ---------------------------------------------------------------------------
// The health system
// ---------------------------------------------------------------------------

/// A check registered with the health system, with the probes it gates.
#[derive(Debug, Clone)]
pub struct RegisteredCheck {
    /// The component's name.
    pub name: String,
    /// Whether an unhealthy outcome fails the readiness probe.
    pub required_for_readiness: bool,
    /// Whether an unhealthy outcome fails the liveness probe.
    pub required_for_liveness: bool,
}

/// Whether a registered check gates the liveness probe (`liveness`) or the
/// readiness probe (otherwise).
pub open spec fn gates(c: RegisteredCheck, liveness: bool) -> bool {
    if liveness {
        c.required_for_liveness
    } else {
        c.required_for_readiness
    }
}

/// Whether check `i` fails a probe: it gates the probe and its outcome was
/// unhealthy.
pub open spec fn fails_probe(
    checks: Seq<RegisteredCheck>,
    outcomes: Seq<Option<HealthStatus>>,
    i: int,
    liveness: bool,
) -> bool {
    gates(checks[i], liveness) && outcomes[i] == Some(HealthStatus::Unhealthy)
}

/// Whether `i` is the first registered check that fails the probe.
pub open spec fn first_failing(
    checks: Seq<RegisteredCheck>,
    outcomes: Seq<Option<HealthStatus>>,
    i: int,
    liveness: bool,
) -> bool {
    &&& 0 <= i < checks.len()
    &&& fails_probe(checks, outcomes, i, liveness)
    &&& forall|j: int| 0 <= j < i ==> !#[trigger] fails_probe(checks, outcomes, j, liveness)
}

/// Whether no registered check fails the probe.
pub open spec fn none_failing(
    checks: Seq<RegisteredCheck>,
    outcomes: Seq<Option<HealthStatus>>,
    liveness: bool,
) -> bool {
    forall|j: int| 0 <= j < checks.len() ==> !#[trigger] fails_probe(checks, outcomes, j, liveness)
}

/// The central health system: its flags, registered checks and counters.
///
/// The application runs the component checks (asynchronous work) and hands
/// their outcomes to the probes, which decide the answer.
pub struct HealthSystem {
    config: HealthSystemConfig,
    checks: Vec<RegisteredCheck>,
    started: bool,
    ready: bool,
    startup_ms: i64,
    liveness_checks: u64,
    readiness_checks: u64,
    health_checks: u64,
    failures: u64,
}

/// Whole seconds from `start_ms` to `now_ms` (milliseconds since the Unix
/// epoch), 0 when the clock reads earlier than the start, at most `u64::MAX`.
pub open spec fn uptime_from(now_ms: int, start_ms: int) -> u64 {
    if now_ms < start_ms {
        0
    } else if (now_ms - start_ms) / 1000 > u64::MAX {
        u64::MAX
    } else {
        ((now_ms - start_ms) / 1000) as u64
    }
}

impl HealthSystem {
    /// The configuration.
    pub closed spec fn config_view(&self) -> HealthSystemConfig {
        self.config
    }

    /// The registered checks, in registration order.
    pub closed spec fn checks_view(&self) -> Seq<RegisteredCheck> {
        self.checks@
    }

    /// Whether the system has started.
    pub closed spec fn started_view(&self) -> bool {
        self.started
    }

    /// Whether the system has been marked ready.
    pub closed spec fn ready_view(&self) -> bool {
        self.ready
    }

    /// When the system was created, in milliseconds since the Unix epoch.
    pub closed spec fn startup_view(&self) -> i64 {
        self.startup_ms
    }

    /// The counters: liveness probes, readiness probes, health checks and
    /// component failures.
    pub closed spec fn counters_view(&self) -> (u64, u64, u64, u64) {
        (self.liveness_checks, self.readiness_checks, self.health_checks, self.failures)
    }

    /// A system that has neither started nor is ready, with no checks and all
    /// counters at 0.
    pub fn new(config: HealthSystemConfig) -> (r: HealthSystem)
        ensures
            r.config_view() == config,
            r.checks_view() == Seq::<RegisteredCheck>::empty(),
            !r.started_view(),
            !r.ready_view(),
            r.counters_view() == (0u64, 0u64, 0u64, 0u64),
    {
        let r = HealthSystem {
            config,
            checks: Vec::new(),
            started: false,
            ready: false,
            startup_ms: clock_millis(),
            liveness_checks: 0,
            readiness_checks: 0,
            health_checks: 0,
            failures: 0,
        };
        assert(r.checks_view() =~= Seq::<RegisteredCheck>::empty());
        r
    }

    /// Marks the system as started.
    pub fn mark_started(&mut self)
        ensures
            final(self).started_view(),
            final(self).ready_view() == old(self).ready_view(),
            final(self).checks_view() == old(self).checks_view(),
            final(self).counters_view() == old(self).counters_view(),
            final(self).config_view() == old(self).config_view(),
    {
        self.started = true;
    }

    /// Marks the system as ready.
    pub fn mark_ready(&mut self)
        ensures
            final(self).ready_view(),
            final(self).started_view() == old(self).started_view(),
            final(self).checks_view() == old(self).checks_view(),
            final(self).counters_view() == old(self).counters_view(),
            final(self).config_view() == old(self).config_view(),
    {
        self.ready = true;
    }

    /// Marks the system as not ready.
    pub fn mark_not_ready(&mut self)
        ensures
            !final(self).ready_view(),
            final(self).started_view() == old(self).started_view(),
            final(self).checks_view() == old(self).checks_view(),
            final(self).counters_view() == old(self).counters_view(),
            final(self).config_view() == old(self).config_view(),
    {
        self.ready = false;
    }

    /// Registers a check under its name; a check registered earlier under the
    /// same name is replaced in place.
    pub fn register_extended(
        &mut self,
        name: String,
        required_for_readiness: bool,
        required_for_liveness: bool,
    )
        ensures
            ({
                let c = RegisteredCheck { name, required_for_readiness, required_for_liveness };
                let old_checks = old(self).checks_view();
                if exists|i: int| 0 <= i < old_checks.len() && #[trigger] old_checks[i].name@ == name@ {
                    exists|i: int|
                        0 <= i < old_checks.len() && #[trigger] old_checks[i].name@ == name@
                            && final(self).checks_view() == old_checks.update(i, c)
                } else {
                    final(self).checks_view() == old_checks.push(c)
                }
            }),
            final(self).started_view() == old(self).started_view(),
            final(self).ready_view() == old(self).ready_view(),
            final(self).counters_view() == old(self).counters_view(),
            final(self).config_view() == old(self).config_view(),
    {
        let mut i: usize = 0;
        while i < self.checks.len()
            invariant
                i <= self.checks.len(),
                self.checks@ == old(self).checks@,
                self.started == old(self).started,
                self.ready == old(self).ready,
                self.config == old(self).config,
                self.liveness_checks == old(self).liveness_checks,
                self.readiness_checks == old(self).readiness_checks,
                self.health_checks == old(self).health_checks,
                self.failures == old(self).failures,
                forall|j: int| 0 <= j < i ==> #[trigger] self.checks@[j].name@ != name@,
            decreases self.checks.len() - i,
        {
            if crate::text::chars_equal(
                chars_of(self.checks[i].name.as_str()).as_slice(),
                chars_of(name.as_str()).as_slice(),
            ) {
                let c = RegisteredCheck { name, required_for_readiness, required_for_liveness };
                let ghost idx = i as int;
                self.checks.set(i, c);
                assert(old(self).checks@[idx].name@ == c.name@);
                return;
            }
            i = i + 1;
        }
        let c = RegisteredCheck { name, required_for_readiness, required_for_liveness };
        self.checks.push(c);
    }

    /// The registered checks, in registration order.
    pub fn registered_checks(&self) -> (r: &Vec<RegisteredCheck>)
        ensures
            r@ == self.checks_view(),
    {
        &self.checks
    }

    /// Finds the first check that fails a probe, given the outcome of each
    /// registered check (`None` where it was not run).
    fn find_failing(&self, outcomes: &[Option<HealthStatus>], liveness: bool) -> (r: Option<usize>)
        requires
            outcomes@.len() == self.checks@.len(),
        ensures
            match r {
                Some(i) => first_failing(self.checks@, outcomes@, i as int, liveness),
                None => none_failing(self.checks@, outcomes@, liveness),
            },
    {
        let mut i: usize = 0;
        while i < self.checks.len()
            invariant
                i <= self.checks.len(),
                outcomes@.len() == self.checks@.len(),
                forall|j: int| 0 <= j < i ==> !#[trigger] fails_probe(self.checks@, outcomes@, j, liveness),
            decreases self.checks.len() - i,
        {
            let gated = if liveness {
                self.checks[i].required_for_liveness
            } else {
                self.checks[i].required_for_readiness
            };
            let unhealthy = match outcomes[i] {
                Some(HealthStatus::Unhealthy) => true,
                _ => false,
            };
            if gated && unhealthy {
                return Some(i);
            }
            i = i + 1;
        }
        None
    }

    /// The liveness probe, given the outcome of each registered check.
    ///
    /// Fails with `System not started` before the system has started;
    /// otherwise fails with `Component <name> is unhealthy` for the first
    /// check that gates liveness and came out unhealthy (counting a failure);
    /// otherwise passes.
    pub fn liveness_probe(&mut self, outcomes: &[Option<HealthStatus>], duration_ms: u64) -> (r: ProbeResult)
        requires
            outcomes@.len() == old(self).checks_view().len(),
        ensures
            r.probe_type == ProbeType::Liveness,
            r.success == (old(self).started_view() && none_failing(
                old(self).checks_view(),
                outcomes@,
                true,
            )),
            !old(self).started_view() ==> r.message@ == "System not started"@,
            old(self).started_view() ==> forall|i: int|
                first_failing(old(self).checks_view(), outcomes@, i, true) ==> r.message@
                    == "Component "@ + old(self).checks_view()[i].name@ + " is unhealthy"@,
            r.success ==> r.duration_ms == duration_ms,
            final(self).counters_view() == (
                bump(old(self).counters_view().0),
                old(self).counters_view().1,
                old(self).counters_view().2,
                if !r.success && old(self).started_view() {
                    bump(old(self).counters_view().3)
                } else {
                    old(self).counters_view().3
                },
            ),
            final(self).checks_view() == old(self).checks_view(),
            final(self).started_view() == old(self).started_view(),
            final(self).ready_view() == old(self).ready_view(),
            final(self).config_view() == old(self).config_view(),
    {
        self.liveness_checks = self.liveness_checks.wrapping_add(1);
        if !self.started {
            return ProbeResult::failure(
                ProbeType::Liveness,
                string_of(chars_of("System not started").as_slice()),
            );
        }
        match self.find_failing(outcomes, true) {
            Some(i) => {
                self.failures = self.failures.wrapping_add(1);
                let mut m = chars_of("Component ");
                extend_chars(&mut m, chars_of(self.checks[i].name.as_str()).as_slice());
                extend_chars(&mut m, chars_of(" is unhealthy").as_slice());
                proof {
                    assert forall|k: int| first_failing(old(self).checks_view(), outcomes@, k, true)
                        implies k == i as int by {
                        if k < i {
                            assert(!fails_probe(self.checks@, outcomes@, k, true));
                        } else if k > i {
                            assert(!fails_probe(self.checks@, outcomes@, i as int, true));
                        }
                    }
                }
                ProbeResult::failure(ProbeType::Liveness, string_of(m.as_slice()))
            },
            None => ProbeResult::success(ProbeType::Liveness, duration_ms),
        }
    }

    /// The readiness probe, given the outcome of each registered check.
    ///
    /// Fails with `System not started` before the system has started, with
    /// `System not ready` while it is not ready; otherwise fails with
    /// `Component <name> is not ready` for the first check that gates
    /// readiness and came out unhealthy (counting a failure); otherwise passes.
    pub fn readiness_probe(&mut self, outcomes: &[Option<HealthStatus>], duration_ms: u64) -> (r: ProbeResult)
        requires
            outcomes@.len() == old(self).checks_view().len(),
        ensures
            r.probe_type == ProbeType::Readiness,
            r.success == (old(self).started_view() && old(self).ready_view() && none_failing(
                old(self).checks_view(),
                outcomes@,
                false,
            )),
            !old(self).started_view() ==> r.message@ == "System not started"@,
            old(self).started_view() && !old(self).ready_view() ==> r.message@ == "System not ready"@,
            old(self).started_view() && old(self).ready_view() ==> forall|i: int|
                first_failing(old(self).checks_view(), outcomes@, i, false) ==> r.message@
                    == "Component "@ + old(self).checks_view()[i].name@ + " is not ready"@,
            r.success ==> r.duration_ms == duration_ms,
            final(self).counters_view() == (
                old(self).counters_view().0,
                bump(old(self).counters_view().1),
                old(self).counters_view().2,
                if !r.success && old(self).started_view() && old(self).ready_view() {
                    bump(old(self).counters_view().3)
                } else {
                    old(self).counters_view().3
                },
            ),
            final(self).checks_view() == old(self).checks_view(),
            final(self).started_view() == old(self).started_view(),
            final(self).ready_view() == old(self).ready_view(),
            final(self).config_view() == old(self).config_view(),
    {
        self.readiness_checks = self.readiness_checks.wrapping_add(1);
        if !self.started {
            return ProbeResult::failure(
                ProbeType::Readiness,
                string_of(chars_of("System not started").as_slice()),
            );
        }
        if !self.ready {
            return ProbeResult::failure(
                ProbeType::Readiness,
                string_of(chars_of("System not ready").as_slice()),
            );
        }
        match self.find_failing(outcomes, false) {
            Some(i) => {
                self.failures = self.failures.wrapping_add(1);
                let mut m = chars_of("Component ");
                extend_chars(&mut m, chars_of(self.checks[i].name.as_str()).as_slice());
                extend_chars(&mut m, chars_of(" is not ready").as_slice());
                proof {
                    assert forall|k: int| first_failing(old(self).checks_view(), outcomes@, k, false)
                        implies k == i as int by {
                        if k < i {
                            assert(!fails_probe(self.checks@, outcomes@, k, false));
                        } else if k > i {
                            assert(!fails_probe(self.checks@, outcomes@, i as int, false));
                        }
                    }
                }
                ProbeResult::failure(ProbeType::Readiness, string_of(m.as_slice()))
            },
            None => ProbeResult::success(ProbeType::Readiness, duration_ms),
        }
    }

    /// The startup probe: passes once the system has started, otherwise fails
    /// with `System still starting`.
    pub fn startup_probe(&self, duration_ms: u64) -> (r: ProbeResult)
        ensures
            r.probe_type == ProbeType::Startup,
            r.success == self.started_view(),
            r.success ==> r.duration_ms == duration_ms,
            !r.success ==> r.message@ == "System still starting"@,
    {
        if self.started {
            ProbeResult::success(ProbeType::Startup, duration_ms)
        } else {
            ProbeResult::failure(
                ProbeType::Startup,
                string_of(chars_of("System still starting").as_slice()),
            )
        }
    }

    /// Seconds since the system was created, by the system clock (0 if the
    /// clock went back).
    fn uptime_secs(&self) -> (r: u64)
        ensures
            exists|now: i64| r == uptime_from(now as int, self.startup_view() as int),
    {
        let now = clock_millis();
        if now < self.startup_ms {
            assert(0u64 == uptime_from(now as int, self.startup_view() as int));
            0
        } else {
            let d: i128 = (now as i128) - (self.startup_ms as i128);
            let s: i128 = d / 1000;
            if s > (u64::MAX as i128) {
                assert(u64::MAX == uptime_from(now as int, self.startup_view() as int));
                u64::MAX
            } else {
                assert((s as u64) == uptime_from(now as int, self.startup_view() as int));
                s as u64
            }
        }
    }

    /// A full health check, given the outcome of every component check and
    /// the overall status the checker derived from them.
    pub fn health_check(&mut self, status: HealthStatus, components: Vec<HealthCheckResult>) -> (r: HealthReport)
        ensures
            r.status == status,
            r.components@ == components@,
            r.is_ready == old(self).ready_view(),
            exists|now: i64| r.uptime_secs == uptime_from(now as int, old(self).startup_view() as int),
            final(self).startup_view() == old(self).startup_view(),
            final(self).counters_view() == (
                old(self).counters_view().0,
                old(self).counters_view().1,
                bump(old(self).counters_view().2),
                old(self).counters_view().3,
            ),
            final(self).checks_view() == old(self).checks_view(),
            final(self).started_view() == old(self).started_view(),
            final(self).ready_view() == old(self).ready_view(),
            final(self).config_view() == old(self).config_view(),
    {
        self.health_checks = self.health_checks.wrapping_add(1);
        let uptime_secs = self.uptime_secs();
        proof {
            let w = choose|now: i64| uptime_secs == uptime_from(now as int, self.startup_view() as int);
            assert(uptime_secs == uptime_from(w as int, old(self).startup_view() as int));
        }
        HealthReport {
            status,
            components,
            uptime_secs,
            is_ready: self.ready,
            timestamp_ms: clock_millis(),
        }
    }

    /// The counters and flags.
    pub fn stats(&self) -> (r: HealthSystemStatsSnapshot)
        ensures
            r.liveness_checks == self.counters_view().0,
            r.readiness_checks == self.counters_view().1,
            r.health_checks == self.counters_view().2,
            r.failures == self.counters_view().3,
            r.is_ready == self.ready_view(),
            r.is_started == self.started_view(),
            exists|now: i64| r.uptime_secs == uptime_from(now as int, self.startup_view() as int),
    {
        HealthSystemStatsSnapshot {
            liveness_checks: self.liveness_checks,
            readiness_checks: self.readiness_checks,
            health_checks: self.health_checks,
            failures: self.failures,
            uptime_secs: self.uptime_secs(),
            is_ready: self.ready,
            is_started: self.started,
        }
    }

    /// The configuration.
    pub fn config(&self) -> (r: &HealthSystemConfig)
        ensures
            *r == self.config_view(),
    {
        &self.config
    }
}

/// The outcome of a full health check.
#[derive(Debug, Clone)]
pub struct HealthReport {
    /// The overall status.
    pub status: HealthStatus,
    /// The outcome of each component check.
    pub components: Vec<HealthCheckResult>,
    /// Seconds since the system was created.
    pub uptime_secs: u64,
    /// Whether the system was ready.
    pub is_ready: bool,
    /// When the check ran, in milliseconds since the Unix epoch.
    pub timestamp_ms: i64,
}

/// The HTTP status that reports a health status: 200 while the system still
/// serves (healthy or degraded), 503 otherwise.
pub open spec fn status_code_of(s: HealthStatus) -> u16 {
    match s {
        HealthStatus::Healthy => 200,
        HealthStatus::Degraded => 200,
        HealthStatus::Unhealthy => 503,
        HealthStatus::Unknown => 503,
    }
}

impl HealthReport {
    /// Whether the system is healthy.
    pub fn is_healthy(&self) -> (r: bool)
        ensures
            r == (self.status == HealthStatus::Healthy),
    {
        self.status == HealthStatus::Healthy
    }

    /// Whether the system still serves (healthy or degraded).
    pub fn is_available(&self) -> (r: bool)
        ensures
            r == (self.status == HealthStatus::Healthy || self.status == HealthStatus::Degraded),
    {
        self.status.is_available()
    }

    /// The HTTP status code of the report.
    pub fn http_status_code(&self) -> (r: u16)
        ensures
            r == status_code_of(self.status),
    {
        match self.status {
            HealthStatus::Healthy => 200,
            HealthStatus::Degraded => 200,
            HealthStatus::Unhealthy => 503,
            HealthStatus::Unknown => 503,
        }
    }
}

// ---------------------------------------------------------------------------
// Responses of the HTTP endpoints
// ---------------------------------------------------------------------------

/// What a health response carries besides its status.
#[derive(Debug, Clone)]
pub enum ResponseData {
    /// Why the system is unhealthy.
    Reason(String),
    /// The message and duration of a probe.
    Probe { message: String, duration_ms: u64 },
    /// The uptime, readiness and number of components of a report.
    Report { uptime_secs: u64, is_ready: bool, components: usize },
}

/// The body of a health endpoint's answer: a status word, the HTTP status,
/// when it was made (milliseconds since the Unix epoch) and its data.
#[derive(Debug, Clone)]
pub struct HealthResponse {
    pub status: String,
    pub code: u16,
    pub timestamp_ms: i64,
    pub data: Option<ResponseData>,
}

/// The word a report's status is answered with.
pub open spec fn status_word(s: HealthStatus) -> Seq<char> {
    match s {
        HealthStatus::Healthy => "healthy"@,
        HealthStatus::Degraded => "degraded"@,
        HealthStatus::Unhealthy => "unhealthy"@,
        HealthStatus::Unknown => "unknown"@,
    }
}

impl HealthResponse {
    /// A healthy answer, made now: `healthy`, 200, no data.
    pub fn healthy() -> (r: HealthResponse)
        ensures
            r.status@ == "healthy"@,
            r.code == 200,
            r.data is None,
    {
        HealthResponse { status: "healthy".to_owned(), code: 200, timestamp_ms: clock_millis(), data: None }
    }

    /// An unhealthy answer, made now: `unhealthy`, 503, and the reason.
    pub fn unhealthy(reason: &str) -> (r: HealthResponse)
        ensures
            r.status@ == "unhealthy"@,
            r.code == 503,
            r.data matches Some(ResponseData::Reason(m)) && m@ == reason@,
    {
        HealthResponse {
            status: "unhealthy".to_owned(),
            code: 503,
            timestamp_ms: clock_millis(),
            data: Some(ResponseData::Reason(reason.to_owned())),
        }
    }

    /// The answer of a probe: `ok` or `fail`, the probe's status code and
    /// time, and its message and duration.
    pub fn from_probe(result: &ProbeResult) -> (r: HealthResponse)
        ensures
            r.status@ == (if result.success { "ok"@ } else { "fail"@ }),
            r.code == result.status_code,
            r.timestamp_ms == result.timestamp_ms,
            r.data matches Some(ResponseData::Probe { message, duration_ms }) && message == result.message
                && duration_ms == result.duration_ms,
    {
        HealthResponse {
            status: if result.success { "ok".to_owned() } else { "fail".to_owned() },
            code: result.status_code,
            timestamp_ms: result.timestamp_ms,
            data: Some(ResponseData::Probe { message: result.message.clone(), duration_ms: result.duration_ms }),
        }
    }

    /// The answer of a report: its status word, HTTP status and time, and
    /// its uptime, readiness and number of components.
    pub fn from_report(report: &HealthReport) -> (r: HealthResponse)
        ensures
            r.status@ == status_word(report.status),
            r.code == status_code_of(report.status),
            r.timestamp_ms == report.timestamp_ms,
            r.data matches Some(ResponseData::Report { uptime_secs, is_ready, components })
                && uptime_secs == report.uptime_secs && is_ready == report.is_ready
                && components == report.components@.len(),
    {
        let word = match report.status {
            HealthStatus::Healthy => "healthy",
            HealthStatus::Degraded => "degraded",
            HealthStatus::Unhealthy => "unhealthy",
            HealthStatus::Unknown => "unknown",
        };
        HealthResponse {
            status: word.to_owned(),
            code: report.http_status_code(),
            timestamp_ms: report.timestamp_ms,
            data: Some(ResponseData::Report {
                uptime_secs: report.uptime_secs,
                is_ready: report.is_ready,
                components: report.components.len(),
            }),
        }
    }
}

/// A report's HTTP status says 200 exactly when the system is available.
pub proof fn law_status_code_matches_availability(s: HealthStatus)
    ensures
        (status_code_of(s) == 200) == (s == HealthStatus::Healthy || s == HealthStatus::Degraded),
        status_code_of(s) == 200 || status_code_of(s) == 503,
{
}

/// A readiness probe can pass only on a system that would also pass the
/// liveness probe on the same outcomes, when every check that gates liveness
/// also gates readiness.
pub proof fn law_ready_implies_live(
    checks: Seq<RegisteredCheck>,
    outcomes: Seq<Option<HealthStatus>>,
)
    requires
        forall|i: int| 0 <= i < checks.len() ==> #[trigger] checks[i].required_for_liveness
            ==> checks[i].required_for_readiness,
        none_failing(checks, outcomes, false),
    ensures
        none_failing(checks, outcomes, true),
{
    assert forall|j: int| 0 <= j < checks.len() implies !#[trigger] fails_probe(checks, outcomes, j, true) by {
        assert(!fails_probe(checks, outcomes, j, false));
        if checks[j].required_for_liveness {
            assert(checks[j].required_for_readiness);
        }
    }
}


/// Only an unhealthy outcome fails a probe: with no check reported
/// unhealthy, no check fails either probe, whatever healthy, degraded or
/// missing outcomes there are; and a check that gates a probe and was
/// reported unhealthy fails it.
pub proof fn law_only_unhealthy_fails(
    checks: Seq<RegisteredCheck>,
    outcomes: Seq<Option<HealthStatus>>,
    liveness: bool,
)
    requires
        outcomes.len() == checks.len(),
    ensures
        (forall|i: int| 0 <= i < outcomes.len() ==> #[trigger] outcomes[i] != Some(HealthStatus::Unhealthy))
            ==> none_failing(checks, outcomes, liveness),
        forall|i: int|
            0 <= i < checks.len() && outcomes[i] == Some(HealthStatus::Unhealthy) && (if liveness {
                checks[i].required_for_liveness
            } else {
                checks[i].required_for_readiness
            }) ==> !none_failing(checks, outcomes, liveness),
        forall|i: int|
            0 <= i < checks.len() && (outcomes[i] == Some(HealthStatus::Degraded) || outcomes[i] == Some(
                HealthStatus::Healthy,
            ) || outcomes[i] is None) ==> !#[trigger] fails_probe(checks, outcomes, i, liveness),
{
    assert forall|i: int|
        0 <= i < checks.len() && outcomes[i] == Some(HealthStatus::Unhealthy) && (if liveness {
            checks[i].required_for_liveness
        } else {
            checks[i].required_for_readiness
        }) implies !none_failing(checks, outcomes, liveness) by {
        assert(fails_probe(checks, outcomes, i, liveness));
    }
}

} // verus!
