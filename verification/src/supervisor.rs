//! The supervisor's decisions: what to start and when, how long to wait
//! before a restart, when to give a service up, and what to report. The
//! supervisor itself starts no process and probes none; it is told what
//! happened and says what to do next.

use vstd::prelude::*;
use crate::signature::elapsed;
use crate::signature::elapsed_ms;
use crate::text::decimal_text;
use crate::text::str_eq;
use crate::text::u64_to_text;

verus! {

/// How a failed service is restarted.
#[derive(Clone, Copy, Debug, PartialEq, Eq, Structural)]
pub struct RestartPolicy {
    pub max_restarts: u32,
    pub restart_delay_ms: u64,
    pub exponential_backoff: bool,
    pub max_restart_delay_ms: u64,
}

/// What a service may use.
#[derive(Clone, Copy, Debug, PartialEq, Eq, Structural)]
pub struct ResourceLimits {
    pub max_memory_mb: u64,
    /// Hundredths of all processor time.
    pub max_cpu_percent: u8,
    pub max_file_descriptors: u32,
}

/// Where a service stands.
#[derive(Clone, Copy, Debug, PartialEq, Eq, Structural, Hash)]
pub enum ServiceState {
    Starting,
    Running,
    Stopping,
    Stopped,
    Failed,
    Restarting,
}

/// What a health probe found.
#[derive(Clone, Copy, Debug, PartialEq, Eq, Structural, Hash)]
pub enum HealthStatus {
    Healthy,
    Unhealthy,
    Unknown,
    Degraded,
}

/// `base` doubled `times` times, stopping at `cap`.
pub open spec fn doubled(base: u64, times: nat, cap: u64) -> u64
    decreases times,
{
    if times == 0 {
        if base > cap {
            cap
        } else {
            base
        }
    } else {
        let before = doubled(base, (times - 1) as nat, cap);
        if before * 2 > cap {
            cap
        } else {
            (before * 2) as u64
        }
    }
}

impl RestartPolicy {
    /// The delay before restart number `attempt`, counted from zero: the
    /// base delay, doubled with every earlier restart where the backoff is
    /// exponential, and at most the largest delay.
    pub open spec fn delay(self, attempt: u32) -> u64 {
        if self.exponential_backoff {
            doubled(self.restart_delay_ms, attempt as nat, self.max_restart_delay_ms)
        } else {
            self.restart_delay_ms
        }
    }

    /// The delay before restart number `attempt`, counted from zero.
    pub fn backoff_delay(&self, attempt: u32) -> (r: u64)
        ensures
            r == self.delay(attempt),
    {
        if !self.exponential_backoff {
            return self.restart_delay_ms;
        }
        let cap = self.max_restart_delay_ms;
        let mut delay: u64 = if self.restart_delay_ms > cap {
            cap
        } else {
            self.restart_delay_ms
        };
        let mut i: u32 = 0;
        while i < attempt
            invariant
                i <= attempt,
                cap == self.max_restart_delay_ms,
                delay == doubled(self.restart_delay_ms, i as nat, cap),
                delay <= cap,
            decreases attempt - i,
        {
            delay = if delay > cap / 2 {
                cap
            } else {
                let twice = delay * 2;
                if twice > cap {
                    cap
                } else {
                    twice
                }
            };
            i += 1;
        }
        delay
    }
}

/// What a supervised service declares.
#[derive(Debug, PartialEq, Eq)]
pub struct ServiceConfig {
    pub name: String,
    pub command: String,
    pub args: Vec<String>,
    pub working_dir: Option<String>,
    pub restart_policy: RestartPolicy,
    pub health_check_url: Option<String>,
    /// Seconds between two health probes.
    pub health_check_interval: u64,
    pub max_restarts: u32,
    pub restart_delay: u64,
    pub priority: u8,
    /// The names of the services that have to run before this one starts.
    pub dependencies: Vec<String>,
    pub environment: Vec<(String, String)>,
    pub resource_limits: ResourceLimits,
}

/// What a `ServiceConfig` holds, as mathematical values.
pub struct ServiceConfigView {
    pub name: Seq<char>,
    pub command: Seq<char>,
    pub args: Seq<Seq<char>>,
    pub working_dir: Option<Seq<char>>,
    pub restart_policy: RestartPolicy,
    pub health_check_url: Option<Seq<char>>,
    pub health_check_interval: u64,
    pub max_restarts: u32,
    pub restart_delay: u64,
    pub priority: u8,
    pub dependencies: Seq<Seq<char>>,
    pub environment: Seq<(Seq<char>, Seq<char>)>,
    pub resource_limits: ResourceLimits,
}

impl DeepView for ServiceConfig {
    type V = ServiceConfigView;

    open spec fn deep_view(&self) -> ServiceConfigView {
        ServiceConfigView {
            name: self.name@,
            command: self.command@,
            args: self.args.deep_view(),
            working_dir: self.working_dir.deep_view(),
            restart_policy: self.restart_policy,
            health_check_url: self.health_check_url.deep_view(),
            health_check_interval: self.health_check_interval,
            max_restarts: self.max_restarts,
            restart_delay: self.restart_delay,
            priority: self.priority,
            dependencies: self.dependencies.deep_view(),
            environment: self.environment.deep_view(),
            resource_limits: self.resource_limits,
        }
    }
}

impl View for ServiceConfig {
    type V = ServiceConfigView;

    open spec fn view(&self) -> ServiceConfigView {
        self.deep_view()
    }
}

/// What the supervisor knows of a service.
#[derive(Clone, Copy, Debug, PartialEq, Eq, Structural)]
pub struct ServiceStatus {
    pub pid: Option<u32>,
    pub status: ServiceState,
    pub start_time: u64,
    pub last_restart: u64,
    pub restart_count: u32,
    pub health_status: HealthStatus,
    pub memory_usage_mb: u64,
    pub cpu_usage_percent: u8,
    pub uptime_seconds: u64,
    pub last_health_check: u64,
}

/// What the supervisor keeps beside a service's status.
#[derive(Clone, Copy, Debug, PartialEq, Eq, Structural)]
pub struct ServiceTrack {
    pub status: ServiceStatus,
    /// When a restart was last attempted.
    pub last_restart_attempt: u64,
    /// How many starts in a row failed.
    pub consecutive_failures: u32,
    /// How many probes in a row found the service unhealthy.
    pub consecutive_unhealthy: u32,
    /// When the window in which restarts are counted began.
    pub window_start: u64,
    /// Set when the service was restarted too often; it is started no more.
    pub unrecoverable: bool,
}

/// A supervised service: what it declares and what is known of it.
#[derive(Debug, PartialEq, Eq)]
pub struct ServiceProcess {
    pub config: ServiceConfig,
    pub track: ServiceTrack,
}

/// What a `ServiceProcess` holds, as mathematical values.
pub struct ServiceProcessView {
    pub config: ServiceConfigView,
    pub track: ServiceTrack,
}

impl DeepView for ServiceProcess {
    type V = ServiceProcessView;

    open spec fn deep_view(&self) -> ServiceProcessView {
        ServiceProcessView { config: self.config@, track: self.track }
    }
}

impl View for ServiceProcess {
    type V = ServiceProcessView;

    open spec fn view(&self) -> ServiceProcessView {
        self.deep_view()
    }
}

/// What the supervisor is set up with.
#[derive(Clone, Copy, Debug, PartialEq, Eq, Structural)]
pub struct SupervisorSettings {
    /// Milliseconds between two rounds of health probes.
    pub probe_interval_ms: u64,
    /// How many unhealthy probes in a row lead to a restart.
    pub unhealthy_threshold: u32,
    /// The length of the window in which restarts are counted.
    pub restart_window_ms: u64,
}

/// What to do about a service that failed.
#[derive(Clone, Copy, Debug, PartialEq, Eq, Structural, Hash)]
pub enum RestartDecision {
    /// The delay of the backoff has not passed; nothing changes.
    Wait,
    /// The service was restarted too often; it is marked unrecoverable.
    GiveUp,
    /// The service is to be started again now.
    Restart,
}

/// The track of a service that was never started.
pub open spec fn fresh_track() -> ServiceTrack {
    ServiceTrack {
        status: ServiceStatus {
            pid: None,
            status: ServiceState::Starting,
            start_time: 0,
            last_restart: 0,
            restart_count: 0,
            health_status: HealthStatus::Unknown,
            memory_usage_mb: 0,
            cpu_usage_percent: 0,
            uptime_seconds: 0,
            last_health_check: 0,
        },
        last_restart_attempt: 0,
        consecutive_failures: 0,
        consecutive_unhealthy: 0,
        window_start: 0,
        unrecoverable: false,
    }
}

impl ServiceTrack {
    /// The track of a service that was never started.
    pub fn fresh() -> (r: ServiceTrack)
        ensures
            r == fresh_track(),
    {
        ServiceTrack {
            status: ServiceStatus {
                pid: None,
                status: ServiceState::Starting,
                start_time: 0,
                last_restart: 0,
                restart_count: 0,
                health_status: HealthStatus::Unknown,
                memory_usage_mb: 0,
                cpu_usage_percent: 0,
                uptime_seconds: 0,
                last_health_check: 0,
            },
            last_restart_attempt: 0,
            consecutive_failures: 0,
            consecutive_unhealthy: 0,
            window_start: 0,
            unrecoverable: false,
        }
    }

    /// The track after the service was started with success.
    pub open spec fn started(self, pid: u32, now: u64) -> ServiceTrack {
        ServiceTrack {
            status: ServiceStatus {
                pid: Some(pid),
                status: ServiceState::Running,
                start_time: now,
                ..self.status
            },
            consecutive_failures: 0,
            consecutive_unhealthy: 0,
            ..self
        }
    }

    /// The track after the service failed: a start that did not succeed, or
    /// a process that ended.
    pub open spec fn failed(self) -> ServiceTrack {
        ServiceTrack {
            status: ServiceStatus { pid: None, status: ServiceState::Failed, ..self.status },
            consecutive_failures: if self.consecutive_failures == u32::MAX {
                self.consecutive_failures
            } else {
                (self.consecutive_failures + 1) as u32
            },
            ..self
        }
    }

    /// How many restarts count at `now`: those of the window that is open,
    /// none once the window has run out.
    pub open spec fn restarts_in_window(self, now: u64, window_ms: u64) -> u32 {
        if elapsed(now, self.window_start) > window_ms {
            0
        } else {
            self.status.restart_count
        }
    }

    /// What to do about the failed service at `now`: wait while the delay of
    /// the backoff has not passed since the last attempt; give up once the
    /// restarts of the window have reached the largest number allowed;
    /// restart otherwise.
    pub open spec fn decision(self, policy: RestartPolicy, now: u64, window_ms: u64) -> RestartDecision {
        if self.unrecoverable {
            RestartDecision::GiveUp
        } else if elapsed(now, self.last_restart_attempt) < policy.delay(
            self.restarts_in_window(now, window_ms),
        ) {
            RestartDecision::Wait
        } else if self.restarts_in_window(now, window_ms) >= policy.max_restarts {
            RestartDecision::GiveUp
        } else {
            RestartDecision::Restart
        }
    }

    /// The track after the decision about the failed service was taken.
    pub open spec fn decided(self, policy: RestartPolicy, now: u64, window_ms: u64) -> ServiceTrack {
        match self.decision(policy, now, window_ms) {
            RestartDecision::Wait => self,
            RestartDecision::GiveUp => ServiceTrack {
                status: ServiceStatus { status: ServiceState::Failed, ..self.status },
                unrecoverable: true,
                ..self
            },
            RestartDecision::Restart => ServiceTrack {
                status: ServiceStatus {
                    status: ServiceState::Restarting,
                    pid: None,
                    restart_count: (self.restarts_in_window(now, window_ms) + 1) as u32,
                    last_restart: now,
                    ..self.status
                },
                last_restart_attempt: now,
                window_start: if elapsed(now, self.window_start) > window_ms {
                    now
                } else {
                    self.window_start
                },
                ..self
            },
        }
    }

    /// The track after a health probe. An unhealthy probe is counted; every
    /// other result but an unknown one ends the count. The service fails
    /// when the count reaches the threshold.
    pub open spec fn probed(self, result: HealthStatus, now: u64, threshold: u32) -> ServiceTrack {
        let unhealthy: u32 = match result {
            HealthStatus::Unhealthy => if self.consecutive_unhealthy == u32::MAX {
                self.consecutive_unhealthy
            } else {
                (self.consecutive_unhealthy + 1) as u32
            },
            HealthStatus::Unknown => self.consecutive_unhealthy,
            _ => 0,
        };
        let seen = ServiceTrack {
            status: ServiceStatus {
                health_status: result,
                last_health_check: if result == HealthStatus::Unknown {
                    self.status.last_health_check
                } else {
                    now
                },
                ..self.status
            },
            consecutive_unhealthy: unhealthy,
            ..self
        };
        if result == HealthStatus::Unhealthy && unhealthy >= threshold && self.status.status
            == ServiceState::Running {
            ServiceTrack { consecutive_unhealthy: 0, ..seen.failed() }
        } else {
            seen
        }
    }

    /// Records that the service was started with success.
    pub fn on_started(&mut self, pid: u32, now: u64)
        ensures
            *final(self) == old(self).started(pid, now),
    {
        self.status.pid = Some(pid);
        self.status.status = ServiceState::Running;
        self.status.start_time = now;
        self.consecutive_failures = 0;
        self.consecutive_unhealthy = 0;
    }

    /// Records that the service failed.
    pub fn on_failed(&mut self)
        ensures
            *final(self) == old(self).failed(),
    {
        self.status.pid = None;
        self.status.status = ServiceState::Failed;
        if self.consecutive_failures < u32::MAX {
            self.consecutive_failures = self.consecutive_failures + 1;
        }
    }

    /// Decides what to do about the failed service, and records it.
    pub fn attempt_restart(&mut self, policy: &RestartPolicy, now: u64, window_ms: u64) -> (r:
        RestartDecision)
        ensures
            r == old(self).decision(*policy, now, window_ms),
            *final(self) == old(self).decided(*policy, now, window_ms),
    {
        if self.unrecoverable {
            self.status.status = ServiceState::Failed;
            return RestartDecision::GiveUp;
        }
        let expired = elapsed_ms(now, self.window_start) > window_ms;
        let counted: u32 = if expired {
            0
        } else {
            self.status.restart_count
        };
        if elapsed_ms(now, self.last_restart_attempt) < policy.backoff_delay(counted) {
            return RestartDecision::Wait;
        }
        if counted >= policy.max_restarts {
            self.status.status = ServiceState::Failed;
            self.unrecoverable = true;
            return RestartDecision::GiveUp;
        }
        self.status.status = ServiceState::Restarting;
        self.status.pid = None;
        self.status.restart_count = counted + 1;
        self.status.last_restart = now;
        self.last_restart_attempt = now;
        if expired {
            self.window_start = now;
        }
        RestartDecision::Restart
    }

    /// Records the result of a health probe. Says whether the service has
    /// failed by it.
    pub fn on_probe(&mut self, result: HealthStatus, now: u64, threshold: u32) -> (r: bool)
        ensures
            *final(self) == old(self).probed(result, now, threshold),
            r == (result == HealthStatus::Unhealthy && old(self).status.status
                == ServiceState::Running && final(self).status.status == ServiceState::Failed),
    {
        let was_running = self.status.status == ServiceState::Running;
        match result {
            HealthStatus::Unhealthy => {
                if self.consecutive_unhealthy < u32::MAX {
                    self.consecutive_unhealthy = self.consecutive_unhealthy + 1;
                }
                self.status.last_health_check = now;
            },
            HealthStatus::Unknown => {},
            _ => {
                self.consecutive_unhealthy = 0;
                self.status.last_health_check = now;
            },
        }
        self.status.health_status = result;
        if result == HealthStatus::Unhealthy && self.consecutive_unhealthy >= threshold
            && was_running {
            self.on_failed();
            self.consecutive_unhealthy = 0;
            true
        } else {
            false
        }
    }
}

/// The restart policy of the default services: up to a thousand restarts,
/// 100 ms at first, doubled up to five seconds.
pub open spec fn default_policy() -> RestartPolicy {
    RestartPolicy {
        max_restarts: 1000,
        restart_delay_ms: 100,
        exponential_backoff: true,
        max_restart_delay_ms: 5000,
    }
}

/// Instance `i` of the detection core among the default services.
pub open spec fn core_service(i: u64) -> ServiceConfigView {
    ServiceConfigView {
        name: "rust-quantum-core-"@ + decimal_text(i as nat),
        command: "cargo"@,
        args: seq!["run"@, "--release"@],
        working_dir: Some("rust-core"@),
        restart_policy: default_policy(),
        health_check_url: Some("http://localhost:"@ + decimal_text((8080 + i) as nat)),
        health_check_interval: 5,
        max_restarts: 1000,
        restart_delay: 100,
        priority: 1,
        dependencies: Seq::empty(),
        environment: seq![
            ("QUANTUM_MODE"@, "1"@),
            ("NEGATIVE_LATENCY"@, "1"@),
            ("REDUNDANCY_LEVEL"@, "10"@),
            ("INSTANCE_ID"@, decimal_text(i as nat)),
        ],
        resource_limits: ResourceLimits {
            max_memory_mb: 2048,
            max_cpu_percent: 50,
            max_file_descriptors: 10000,
        },
    }
}

/// Instance `i` of the event processor among the default services.
pub open spec fn processor_service(i: u64) -> ServiceConfigView {
    ServiceConfigView {
        name: "go-quantum-processor-"@ + decimal_text(i as nat),
        command: "go"@,
        args: seq!["run"@, "main.go"@],
        working_dir: Some("go-services"@),
        restart_policy: default_policy(),
        health_check_url: Some("http://localhost:"@ + decimal_text((9090 + i) as nat)),
        health_check_interval: 5,
        max_restarts: 1000,
        restart_delay: 100,
        priority: 2,
        dependencies: Seq::empty(),
        environment: seq![
            ("QUANTUM_MODE"@, "1"@),
            ("REDUNDANCY_LEVEL"@, "10"@),
            ("INSTANCE_ID"@, decimal_text(i as nat)),
        ],
        resource_limits: ResourceLimits {
            max_memory_mb: 1024,
            max_cpu_percent: 30,
            max_file_descriptors: 5000,
        },
    }
}

/// The query engine among the default services.
pub open spec fn query_service() -> ServiceConfigView {
    ServiceConfigView {
        name: "zig-quantum-query"@,
        command: "zig"@,
        args: seq!["build"@, "run"@],
        working_dir: Some("zig-query"@),
        restart_policy: default_policy(),
        health_check_url: Some("http://localhost:8080/health"@),
        health_check_interval: 5,
        max_restarts: 1000,
        restart_delay: 100,
        priority: 3,
        dependencies: Seq::empty(),
        environment: seq![("QUANTUM_MODE"@, "1"@), ("SIMD_OPTIMIZATION"@, "1"@)],
        resource_limits: ResourceLimits {
            max_memory_mb: 512,
            max_cpu_percent: 20,
            max_file_descriptors: 2000,
        },
    }
}

/// The default service at position `k`: ten instances of the detection
/// core, ten of the event processor, and the query engine.
pub open spec fn default_service(k: int) -> ServiceConfigView {
    if k < 10 {
        core_service(k as u64)
    } else if k < 20 {
        processor_service((k - 10) as u64)
    } else {
        query_service()
    }
}

/// The policy of the default services.
pub fn make_default_policy() -> (r: RestartPolicy)
    ensures
        r == default_policy(),
{
    RestartPolicy {
        max_restarts: 1000,
        restart_delay_ms: 100,
        exponential_backoff: true,
        max_restart_delay_ms: 5000,
    }
}

/// Builds instance `i` of the detection core.
pub fn make_core_service(i: u64) -> (r: ServiceConfig)
    requires
        i < 1000,
    ensures
        r@ == core_service(i),
{
    let mut name = String::from_str("rust-quantum-core-");
    name.append(u64_to_text(i).as_str());
    let mut url = String::from_str("http://localhost:");
    url.append(u64_to_text(8080 + i).as_str());
    let mut args: Vec<String> = Vec::new();
    args.push(String::from_str("run"));
    args.push(String::from_str("--release"));
    let mut environment: Vec<(String, String)> = Vec::new();
    environment.push((String::from_str("QUANTUM_MODE"), String::from_str("1")));
    environment.push((String::from_str("NEGATIVE_LATENCY"), String::from_str("1")));
    environment.push((String::from_str("REDUNDANCY_LEVEL"), String::from_str("10")));
    environment.push((String::from_str("INSTANCE_ID"), u64_to_text(i)));
    let r = ServiceConfig {
        name,
        command: String::from_str("cargo"),
        args,
        working_dir: Some(String::from_str("rust-core")),
        restart_policy: make_default_policy(),
        health_check_url: Some(url),
        health_check_interval: 5,
        max_restarts: 1000,
        restart_delay: 100,
        priority: 1,
        dependencies: Vec::new(),
        environment,
        resource_limits: ResourceLimits {
            max_memory_mb: 2048,
            max_cpu_percent: 50,
            max_file_descriptors: 10000,
        },
    };
    proof {
        assert(r@.args =~= core_service(i).args);
        assert(r@.dependencies =~= core_service(i).dependencies);
        assert(r@.environment =~= core_service(i).environment);
    }
    r
}

/// Builds instance `i` of the event processor.
pub fn make_processor_service(i: u64) -> (r: ServiceConfig)
    requires
        i < 1000,
    ensures
        r@ == processor_service(i),
{
    let mut name = String::from_str("go-quantum-processor-");
    name.append(u64_to_text(i).as_str());
    let mut url = String::from_str("http://localhost:");
    url.append(u64_to_text(9090 + i).as_str());
    let mut args: Vec<String> = Vec::new();
    args.push(String::from_str("run"));
    args.push(String::from_str("main.go"));
    let mut environment: Vec<(String, String)> = Vec::new();
    environment.push((String::from_str("QUANTUM_MODE"), String::from_str("1")));
    environment.push((String::from_str("REDUNDANCY_LEVEL"), String::from_str("10")));
    environment.push((String::from_str("INSTANCE_ID"), u64_to_text(i)));
    let r = ServiceConfig {
        name,
        command: String::from_str("go"),
        args,
        working_dir: Some(String::from_str("go-services")),
        restart_policy: make_default_policy(),
        health_check_url: Some(url),
        health_check_interval: 5,
        max_restarts: 1000,
        restart_delay: 100,
        priority: 2,
        dependencies: Vec::new(),
        environment,
        resource_limits: ResourceLimits {
            max_memory_mb: 1024,
            max_cpu_percent: 30,
            max_file_descriptors: 5000,
        },
    };
    proof {
        assert(r@.args =~= processor_service(i).args);
        assert(r@.dependencies =~= processor_service(i).dependencies);
        assert(r@.environment =~= processor_service(i).environment);
    }
    r
}

/// Builds the query engine.
pub fn make_query_service() -> (r: ServiceConfig)
    ensures
        r@ == query_service(),
{
    let mut args: Vec<String> = Vec::new();
    args.push(String::from_str("build"));
    args.push(String::from_str("run"));
    let mut environment: Vec<(String, String)> = Vec::new();
    environment.push((String::from_str("QUANTUM_MODE"), String::from_str("1")));
    environment.push((String::from_str("SIMD_OPTIMIZATION"), String::from_str("1")));
    let r = ServiceConfig {
        name: String::from_str("zig-quantum-query"),
        command: String::from_str("zig"),
        args,
        working_dir: Some(String::from_str("zig-query")),
        restart_policy: make_default_policy(),
        health_check_url: Some(String::from_str("http://localhost:8080/health")),
        health_check_interval: 5,
        max_restarts: 1000,
        restart_delay: 100,
        priority: 3,
        dependencies: Vec::new(),
        environment,
        resource_limits: ResourceLimits {
            max_memory_mb: 512,
            max_cpu_percent: 20,
            max_file_descriptors: 2000,
        },
    };
    proof {
        assert(r@.args =~= query_service().args);
        assert(r@.dependencies =~= query_service().dependencies);
        assert(r@.environment =~= query_service().environment);
    }
    r
}

/// The position of the first service of this name; the length of the list
/// where there is none.
pub open spec fn service_index(services: Seq<ServiceProcessView>, name: Seq<char>) -> int
    decreases services.len(),
{
    if services.len() == 0 {
        0
    } else if services[0].config.name == name {
        0
    } else {
        1 + service_index(services.drop_first(), name)
    }
}

proof fn lemma_service_index(services: Seq<ServiceProcessView>, name: Seq<char>, i: int)
    requires
        0 <= i <= services.len(),
        forall|j: int| 0 <= j < i ==> services[j].config.name != name,
        i == services.len() || services[i].config.name == name,
    ensures
        service_index(services, name) == i,
    decreases i,
{
    if i > 0 {
        let t = services.drop_first();
        assert forall|j: int| 0 <= j < i - 1 implies t[j].config.name != name by {
            assert(t[j] == services[j + 1]);
        }
        lemma_service_index(t, name, i - 1);
    }
}

/// The services with one more registered: it replaces the service of its
/// name where that one stands, or goes to the end; either way it begins
/// with a fresh track.
pub open spec fn with_service(services: Seq<ServiceProcessView>, config: ServiceConfigView) -> Seq<
    ServiceProcessView,
> {
    let entry = ServiceProcessView { config, track: fresh_track() };
    if service_index(services, config.name) < services.len() {
        services.update(service_index(services, config.name), entry)
    } else {
        services.push(entry)
    }
}

/// The services with the first `n` default services registered.
pub open spec fn with_defaults(services: Seq<ServiceProcessView>, n: int) -> Seq<ServiceProcessView>
    decreases n,
{
    if n <= 0 {
        services
    } else {
        with_service(with_defaults(services, n - 1), default_service(n - 1))
    }
}

/// Whether a service of this name is running.
pub open spec fn is_running(services: Seq<ServiceProcessView>, name: Seq<char>) -> bool {
    service_index(services, name) < services.len() && services[service_index(
        services,
        name,
    )].track.status.status == ServiceState::Running
}

/// Whether every service that a service depends on is running.
pub open spec fn dependencies_running(services: Seq<ServiceProcessView>, dependencies: Seq<Seq<char>>) -> bool {
    forall|i: int| 0 <= i < dependencies.len() ==> is_running(services, #[trigger] dependencies[i])
}

/// A service may be started iff it waits for a start, has not been given
/// up, and every service it depends on is running.
pub open spec fn may_start(services: Seq<ServiceProcessView>, i: int) -> bool {
    &&& services[i].track.status.status == ServiceState::Starting
        || services[i].track.status.status == ServiceState::Restarting
    &&& services[i].track.status.pid is None
    &&& !services[i].track.unrecoverable
    &&& dependencies_running(services, services[i].config.dependencies)
}

/// The names of the first `n` services that may be started, in order.
pub open spec fn startable(services: Seq<ServiceProcessView>, n: int) -> Seq<Seq<char>>
    decreases n,
{
    if n <= 0 {
        Seq::empty()
    } else if may_start(services, n - 1) {
        startable(services, n - 1).push(services[n - 1].config.name)
    } else {
        startable(services, n - 1)
    }
}

/// No dependent starts before its prerequisites run: every service named
/// among those that may be started waits for a start, was not given up, and
/// has every service it depends on running.
pub proof fn lemma_starts_follow_dependencies(services: Seq<ServiceProcessView>, n: int, k: int)
    requires
        0 <= n <= services.len(),
        0 <= k < startable(services, n).len(),
    ensures
        exists|i: int|
            0 <= i < n && #[trigger] services[i].config.name == startable(services, n)[k]
                && may_start(services, i) && dependencies_running(
                services,
                services[i].config.dependencies,
            ),
    decreases n,
{
    if may_start(services, n - 1) && k == startable(services, n).len() - 1 {
        assert(services[n - 1].config.name == startable(services, n)[k]);
    } else {
        lemma_starts_follow_dependencies(services, n - 1, k);
        let i = choose|i: int|
            0 <= i < n - 1 && #[trigger] services[i].config.name == startable(services, n - 1)[k]
                && may_start(services, i);
        assert(services[i].config.name == startable(services, n)[k]);
    }
}

/// Restarts stop at the limit: a failed service whose restarts within the
/// window have reached the largest number allowed is not restarted, and a
/// service that was given up stays given up, whatever the time.
pub proof fn lemma_restarts_stop_at_the_limit(
    track: ServiceTrack,
    policy: RestartPolicy,
    now: u64,
    later: u64,
    window_ms: u64,
)
    ensures
        track.restarts_in_window(now, window_ms) >= policy.max_restarts ==> track.decision(
            policy,
            now,
            window_ms,
        ) != RestartDecision::Restart,
        track.decision(policy, now, window_ms) == RestartDecision::GiveUp ==> track.decided(
            policy,
            now,
            window_ms,
        ).decision(policy, later, window_ms) == RestartDecision::GiveUp,
{
}

/// How many of the first `n` services are in a state.
pub open spec fn count_in_state(services: Seq<ServiceProcessView>, state: ServiceState, n: int) -> nat
    decreases n,
{
    if n <= 0 {
        0
    } else {
        count_in_state(services, state, n - 1) + if services[n - 1].track.status.status == state {
            1nat
        } else {
            0nat
        }
    }
}

/// What the supervisor reports of itself from time to time.
#[derive(Clone, Copy, Debug, PartialEq, Eq, Structural)]
pub struct SupervisorStatus {
    pub total_services: u64,
    pub running_services: u64,
    pub failed_services: u64,
    pub total_restarts: u64,
    pub uptime_ms: u64,
}

/// The state of the supervisor, as mathematical values.
pub struct SupervisorView {
    pub settings: SupervisorSettings,
    pub services: Seq<ServiceProcessView>,
    /// How many restarts were decided so far.
    pub total_restarts: u64,
    /// When the supervisor began.
    pub started_at: u64,
}

/// The supervisor.
pub struct UltraSupervisor {
    settings: SupervisorSettings,
    services: Vec<ServiceProcess>,
    total_restarts: u64,
    started_at: u64,
}

impl View for UltraSupervisor {
    type V = SupervisorView;

    closed spec fn view(&self) -> SupervisorView {
        SupervisorView {
            settings: self.settings,
            services: self.services.deep_view(),
            total_restarts: self.total_restarts,
            started_at: self.started_at,
        }
    }
}

/// The settings that a supervisor begins with: probes every five seconds,
/// a restart after three unhealthy probes in a row, restarts counted over
/// an hour.
pub open spec fn default_settings() -> SupervisorSettings {
    SupervisorSettings {
        probe_interval_ms: 5000,
        unhealthy_threshold: 3,
        restart_window_ms: 3_600_000,
    }
}

/// What became of a failure reported to the supervisor.
#[derive(Clone, Copy, Debug, PartialEq, Eq, Structural, Hash)]
pub enum Supervised {
    /// No service has this name.
    UnknownService,
    /// The report changed nothing that calls for a decision.
    Noted,
    /// The service failed, and this was decided about it.
    Decided(RestartDecision),
}

impl UltraSupervisor {
    /// A supervisor without services that began at `now`.
    pub fn new(now: u64) -> (r: Self)
        ensures
            r@ == (SupervisorView {
                settings: default_settings(),
                services: Seq::empty(),
                total_restarts: 0,
                started_at: now,
            }),
    {
        let r = UltraSupervisor {
            settings: SupervisorSettings {
                probe_interval_ms: 5000,
                unhealthy_threshold: 3,
                restart_window_ms: 3_600_000,
            },
            services: Vec::new(),
            total_restarts: 0,
            started_at: now,
        };
        proof {
            assert(r@.services =~= Seq::empty());
        }
        r
    }

    /// Replaces the settings.
    pub fn configure(&mut self, settings: SupervisorSettings)
        ensures
            final(self)@ == (SupervisorView { settings, ..old(self)@ }),
    {
        self.settings = settings;
    }

    /// Where the service of this name stands.
    pub fn position(&self, name: &str) -> (i: usize)
        ensures
            i as int == service_index(self@.services, name@),
            i <= self@.services.len(),
    {
        let mut i: usize = 0;
        while i < self.services.len()
            invariant
                i <= self.services@.len(),
                forall|j: int| 0 <= j < i ==> self@.services[j].config.name != name@,
            decreases self.services@.len() - i,
        {
            if str_eq(self.services[i].config.name.as_str(), name) {
                proof {
                    lemma_service_index(self@.services, name@, i as int);
                }
                return i;
            }
            i += 1;
        }
        proof {
            lemma_service_index(self@.services, name@, i as int);
        }
        i
    }

    /// Registers a service; it replaces a service of the same name.
    pub fn add_service(&mut self, config: ServiceConfig)
        ensures
            final(self)@ == (SupervisorView {
                services: with_service(old(self)@.services, config@),
                ..old(self)@
            }),
    {
        let i = self.position(config.name.as_str());
        let ghost before = self@.services;
        let entry = ServiceProcess { config, track: ServiceTrack::fresh() };
        if i < self.services.len() {
            self.services[i] = entry;
            proof {
                assert(self@.services =~= before.update(
                    i as int,
                    ServiceProcessView { config: config@, track: fresh_track() },
                ));
            }
        } else {
            self.services.push(entry);
            proof {
                assert(self@.services =~= before.push(
                    ServiceProcessView { config: config@, track: fresh_track() },
                ));
            }
        }
    }

    /// Registers the default services: ten instances of the detection core,
    /// ten of the event processor, and the query engine.
    pub fn initialize_default_services(&mut self)
        ensures
            final(self)@ == (SupervisorView {
                services: with_defaults(old(self)@.services, 21),
                ..old(self)@
            }),
    {
        let mut i: u64 = 0;
        while i < 10
            invariant
                i <= 10,
                self@ == (SupervisorView {
                    services: with_defaults(old(self)@.services, i as int),
                    ..old(self)@
                }),
            decreases 10 - i,
        {
            self.add_service(make_core_service(i));
            i += 1;
        }
        let mut k: u64 = 0;
        while k < 10
            invariant
                k <= 10,
                self@ == (SupervisorView {
                    services: with_defaults(old(self)@.services, 10 + k as int),
                    ..old(self)@
                }),
            decreases 10 - k,
        {
            self.add_service(make_processor_service(k));
            k += 1;
        }
        self.add_service(make_query_service());
    }

    /// How many services are registered.
    pub fn service_count(&self) -> (r: usize)
        ensures
            r == self@.services.len(),
    {
        self.services.len()
    }

    /// What is kept of the service at a position.
    pub fn track_at(&self, i: usize) -> (r: ServiceTrack)
        requires
            i < self@.services.len(),
        ensures
            r == self@.services[i as int].track,
    {
        self.services[i].track
    }

    /// Whether a service of this name is running.
    pub fn is_running(&self, name: &str) -> (r: bool)
        ensures
            r == is_running(self@.services, name@),
    {
        let i = self.position(name);
        i < self.services.len() && self.services[i].track.status.status == ServiceState::Running
    }

    /// Whether the service at a position may be started.
    pub fn may_start(&self, i: usize) -> (r: bool)
        requires
            i < self@.services.len(),
        ensures
            r == may_start(self@.services, i as int),
    {
        let track = self.services[i].track;
        let waiting = track.status.status == ServiceState::Starting || track.status.status
            == ServiceState::Restarting;
        if !waiting || track.status.pid.is_some() || track.unrecoverable {
            return false;
        }
        let mut d: usize = 0;
        while d < self.services[i].config.dependencies.len()
            invariant
                i < self@.services.len(),
                d <= self.services@[i as int].config.dependencies@.len(),
                forall|j: int|
                    0 <= j < d ==> is_running(
                        self@.services,
                        #[trigger] self@.services[i as int].config.dependencies[j],
                    ),
            decreases self.services@[i as int].config.dependencies@.len() - d,
        {
            if !self.is_running(self.services[i].config.dependencies[d].as_str()) {
                proof {
                    assert(!is_running(
                        self@.services,
                        self@.services[i as int].config.dependencies[d as int],
                    ));
                }
                return false;
            }
            d += 1;
        }
        true
    }

    /// The names of the services that may be started now, in the order of
    /// their registration. No service is among them before every service it
    /// depends on is running.
    pub fn services_to_start(&self) -> (r: Vec<String>)
        ensures
            r.deep_view() == startable(self@.services, self@.services.len() as int),
    {
        let mut names: Vec<String> = Vec::new();
        let mut i: usize = 0;
        proof {
            assert(names.deep_view() =~= Seq::<Seq<char>>::empty());
        }
        while i < self.services.len()
            invariant
                i <= self.services@.len(),
                names.deep_view() == startable(self@.services, i as int),
            decreases self.services@.len() - i,
        {
            if self.may_start(i) {
                let ghost before = names.deep_view();
                names.push(self.services[i].config.name.clone());
                proof {
                    assert(names.deep_view() =~= before.push(self@.services[i as int].config.name));
                }
            }
            i += 1;
        }
        names
    }

    /// Records that a service was started with success.
    pub fn service_started(&mut self, name: &str, pid: u32, now: u64) -> (r: bool)
        ensures
            r == (service_index(old(self)@.services, name@) < old(self)@.services.len()),
            !r ==> final(self)@ == old(self)@,
            r ==> final(self)@ == (SupervisorView {
                services: old(self)@.services.update(
                    service_index(old(self)@.services, name@),
                    ServiceProcessView {
                        track: old(self)@.services[service_index(
                            old(self)@.services,
                            name@,
                        )].track.started(pid, now),
                        ..old(self)@.services[service_index(old(self)@.services, name@)]
                    },
                ),
                ..old(self)@
            }),
    {
        let i = self.position(name);
        if i >= self.services.len() {
            return false;
        }
        let ghost before = self@.services;
        self.services[i].track.on_started(pid, now);
        proof {
            assert(self@.services =~= before.update(
                i as int,
                ServiceProcessView {
                    track: before[i as int].track.started(pid, now),
                    ..before[i as int]
                },
            ));
        }
        true
    }

    /// Records that a service failed, by a start that did not succeed or by
    /// a process that ended, and decides at once what to do about it.
    pub fn service_failed(&mut self, name: &str, now: u64) -> (r: Supervised)
        ensures
            service_index(old(self)@.services, name@) >= old(self)@.services.len() ==> r
                == Supervised::UnknownService && final(self)@ == old(self)@,
            service_index(old(self)@.services, name@) < old(self)@.services.len() ==> {
                let i = service_index(old(self)@.services, name@);
                let service = old(self)@.services[i];
                let failed = service.track.failed();
                let policy = service.config.restart_policy;
                let window = old(self)@.settings.restart_window_ms;
                &&& r == Supervised::Decided(failed.decision(policy, now, window))
                &&& final(self)@ == (SupervisorView {
                    services: old(self)@.services.update(
                        i,
                        ServiceProcessView {
                            track: failed.decided(policy, now, window),
                            ..service
                        },
                    ),
                    total_restarts: if failed.decision(policy, now, window)
                        == RestartDecision::Restart && old(self)@.total_restarts < u64::MAX {
                        (old(self)@.total_restarts + 1) as u64
                    } else {
                        old(self)@.total_restarts
                    },
                    ..old(self)@
                })
            },
    {
        let i = self.position(name);
        if i >= self.services.len() {
            return Supervised::UnknownService;
        }
        let ghost before = self@.services;
        let policy = self.services[i].config.restart_policy;
        let window = self.settings.restart_window_ms;
        self.services[i].track.on_failed();
        let decision = self.services[i].track.attempt_restart(&policy, now, window);
        if decision == RestartDecision::Restart && self.total_restarts < u64::MAX {
            self.total_restarts = self.total_restarts + 1;
        }
        proof {
            assert(self@.services =~= before.update(
                i as int,
                ServiceProcessView {
                    track: before[i as int].track.failed().decided(policy, now, window),
                    ..before[i as int]
                },
            ));
        }
        Supervised::Decided(decision)
    }

    /// Takes the decision about a failed service again, as a round of
    /// monitoring does while the service waits out its backoff.
    pub fn retry_service(&mut self, name: &str, now: u64) -> (r: Supervised)
        ensures
            service_index(old(self)@.services, name@) >= old(self)@.services.len() ==> r
                == Supervised::UnknownService && final(self)@ == old(self)@,
            service_index(old(self)@.services, name@) < old(self)@.services.len() ==> {
                let i = service_index(old(self)@.services, name@);
                let service = old(self)@.services[i];
                let policy = service.config.restart_policy;
                let window = old(self)@.settings.restart_window_ms;
                if service.track.status.status == ServiceState::Failed {
                    &&& r == Supervised::Decided(service.track.decision(policy, now, window))
                    &&& final(self)@ == (SupervisorView {
                        services: old(self)@.services.update(
                            i,
                            ServiceProcessView {
                                track: service.track.decided(policy, now, window),
                                ..service
                            },
                        ),
                        total_restarts: if service.track.decision(policy, now, window)
                            == RestartDecision::Restart && old(self)@.total_restarts < u64::MAX {
                            (old(self)@.total_restarts + 1) as u64
                        } else {
                            old(self)@.total_restarts
                        },
                        ..old(self)@
                    })
                } else {
                    r == Supervised::Noted && final(self)@ == old(self)@
                }
            },
    {
        let i = self.position(name);
        if i >= self.services.len() {
            return Supervised::UnknownService;
        }
        if self.services[i].track.status.status != ServiceState::Failed {
            return Supervised::Noted;
        }
        let ghost before = self@.services;
        let policy = self.services[i].config.restart_policy;
        let window = self.settings.restart_window_ms;
        let decision = self.services[i].track.attempt_restart(&policy, now, window);
        if decision == RestartDecision::Restart && self.total_restarts < u64::MAX {
            self.total_restarts = self.total_restarts + 1;
        }
        proof {
            assert(self@.services =~= before.update(
                i as int,
                ServiceProcessView {
                    track: before[i as int].track.decided(policy, now, window),
                    ..before[i as int]
                },
            ));
        }
        Supervised::Decided(decision)
    }

    /// Records the result of a health probe of a service. Where the probe
    /// makes the service fail, it is decided at once what to do about it.
    pub fn probe_result(&mut self, name: &str, result: HealthStatus, now: u64) -> (r: Supervised)
        ensures
            service_index(old(self)@.services, name@) >= old(self)@.services.len() ==> r
                == Supervised::UnknownService && final(self)@ == old(self)@,
            service_index(old(self)@.services, name@) < old(self)@.services.len() ==> {
                let i = service_index(old(self)@.services, name@);
                let service = old(self)@.services[i];
                let probed = service.track.probed(
                    result,
                    now,
                    old(self)@.settings.unhealthy_threshold,
                );
                let policy = service.config.restart_policy;
                let window = old(self)@.settings.restart_window_ms;
                if result == HealthStatus::Unhealthy && service.track.status.status
                    == ServiceState::Running && probed.status.status == ServiceState::Failed {
                    &&& r == Supervised::Decided(probed.decision(policy, now, window))
                    &&& final(self)@ == (SupervisorView {
                        services: old(self)@.services.update(
                            i,
                            ServiceProcessView {
                                track: probed.decided(policy, now, window),
                                ..service
                            },
                        ),
                        total_restarts: if probed.decision(policy, now, window)
                            == RestartDecision::Restart && old(self)@.total_restarts < u64::MAX {
                            (old(self)@.total_restarts + 1) as u64
                        } else {
                            old(self)@.total_restarts
                        },
                        ..old(self)@
                    })
                } else {
                    &&& r == Supervised::Noted
                    &&& final(self)@ == (SupervisorView {
                        services: old(self)@.services.update(
                            i,
                            ServiceProcessView { track: probed, ..service },
                        ),
                        ..old(self)@
                    })
                }
            },
    {
        let i = self.position(name);
        if i >= self.services.len() {
            return Supervised::UnknownService;
        }
        let ghost before = self@.services;
        let threshold = self.settings.unhealthy_threshold;
        let policy = self.services[i].config.restart_policy;
        let window = self.settings.restart_window_ms;
        let failed = self.services[i].track.on_probe(result, now, threshold);
        if failed {
            let decision = self.services[i].track.attempt_restart(&policy, now, window);
            if decision == RestartDecision::Restart && self.total_restarts < u64::MAX {
                self.total_restarts = self.total_restarts + 1;
            }
            proof {
                assert(self@.services =~= before.update(
                    i as int,
                    ServiceProcessView {
                        track: before[i as int].track.probed(result, now, threshold).decided(
                            policy,
                            now,
                            window,
                        ),
                        ..before[i as int]
                    },
                ));
            }
            Supervised::Decided(decision)
        } else {
            proof {
                assert(self@.services =~= before.update(
                    i as int,
                    ServiceProcessView {
                        track: before[i as int].track.probed(result, now, threshold),
                        ..before[i as int]
                    },
                ));
            }
            Supervised::Noted
        }
    }

    /// What the supervisor reports of itself at `now`.
    pub fn status_report(&self, now: u64) -> (r: SupervisorStatus)
        ensures
            r == (SupervisorStatus {
                total_services: self@.services.len() as u64,
                running_services: count_in_state(
                    self@.services,
                    ServiceState::Running,
                    self@.services.len() as int,
                ) as u64,
                failed_services: count_in_state(
                    self@.services,
                    ServiceState::Failed,
                    self@.services.len() as int,
                ) as u64,
                total_restarts: self@.total_restarts,
                uptime_ms: elapsed(now, self@.started_at),
            }),
    {
        let mut running: u64 = 0;
        let mut failed: u64 = 0;
        let mut i: usize = 0;
        while i < self.services.len()
            invariant
                i <= self.services@.len(),
                running == count_in_state(self@.services, ServiceState::Running, i as int),
                failed == count_in_state(self@.services, ServiceState::Failed, i as int),
                running <= i,
                failed <= i,
            decreases self.services@.len() - i,
        {
            match self.services[i].track.status.status {
                ServiceState::Running => {
                    running += 1;
                },
                ServiceState::Failed => {
                    failed += 1;
                },
                _ => {},
            }
            i += 1;
        }
        SupervisorStatus {
            total_services: self.services.len() as u64,
            running_services: running,
            failed_services: failed,
            total_restarts: self.total_restarts,
            uptime_ms: elapsed_ms(now, self.started_at),
        }
    }
}

} // verus!
