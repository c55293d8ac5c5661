use siem_rust_core::compliance::calculate_compliance_summary;
use siem_rust_core::compliance::generate_recommendations;
use siem_rust_core::compliance::get_role_permissions;
use siem_rust_core::compliance::increment_failed_login_attempts;
use siem_rust_core::compliance::validate_password_policy;
use siem_rust_core::compliance::Claims;
use siem_rust_core::compliance::ComplianceStatus;
use siem_rust_core::compliance::PasswordPolicy;
use siem_rust_core::compliance::Permission;
use siem_rust_core::compliance::UserRole;
use siem_rust_core::error::SIEMError;
use siem_rust_core::kernel::sanitize;
use siem_rust_core::kernel::PatternMatchingKernel;
use siem_rust_core::realtime::RealDetectionEngine;
use siem_rust_core::supervisor::make_core_service;
use siem_rust_core::supervisor::HealthStatus;
use siem_rust_core::supervisor::RestartDecision;
use siem_rust_core::supervisor::RestartPolicy;
use siem_rust_core::supervisor::ServiceConfig;
use siem_rust_core::supervisor::ServiceState;
use siem_rust_core::supervisor::Supervised;
use siem_rust_core::supervisor::SupervisorSettings;
use siem_rust_core::supervisor::UltraSupervisor;
use siem_rust_core::text::contains;
use siem_rust_core::text::contains_ignoring_case;
use siem_rust_core::text::ends_with;
use siem_rust_core::text::parse_milli;
use siem_rust_core::text::starts_with;
use siem_rust_core::text::str_eq;
use siem_rust_core::text::str_lt;
use siem_rust_core::text::u64_to_text;

#[test]
fn test_pattern_matching_kernel() {
    let mut kernel = PatternMatchingKernel::new();
    let patterns = vec![
        "UNION SELECT".to_string(),
        "<script>".to_string(),
    ];
    kernel.compile_patterns(&patterns);
    assert_eq!(kernel.compiled_patterns.len(), 2);
}

#[test]
fn kernel_source_is_generated_per_pattern() {
    let mut kernel = PatternMatchingKernel::new();
    assert_eq!(kernel.config.block_size, 256);
    assert_eq!(kernel.config.grid_size, 1024);
    kernel.compile_patterns(&["UNION SELECT".to_string(), "<script>".to_string(), "rm -rf".to_string()]);
    let sql = &kernel.compiled_patterns[0];
    assert_eq!(sql.pattern, "UNION SELECT");
    assert_eq!(sql.match_count, 0);
    assert!(sql.gpu_kernel.starts_with("\n__global__ void pattern_match_UNION_SELECT(const char* events"));
    assert!(sql.gpu_kernel.contains("// SQL Injection detection"));
    assert!(sql.gpu_kernel.ends_with("\n    \n    results[idx] = match;\n}\n"));
    let xss = &kernel.compiled_patterns[1];
    assert!(xss.gpu_kernel.contains("pattern_match__script_("));
    assert!(xss.gpu_kernel.contains("strncmp(event + i, \"<script>\", 8)"));
    let generic = &kernel.compiled_patterns[2];
    assert_eq!(
        kernel.generate_pattern_logic("rm -rf"),
        "\n    // Generic pattern matching\n    if (strstr(event, \"rm -rf\") != NULL) {{\n        match = 1;\n    }}\n"
    );
    assert!(generic.gpu_kernel.contains("pattern_match_rm__rf("));
    assert_eq!(sanitize("a-b c\u{e9}9"), "a_b_c\u{e9}9");
    assert_eq!(
        kernel.generate_gpu_kernel("x"),
        "\n__global__ void pattern_match_x(const char* events, int* results, int event_count) {\n    int idx = blockIdx.x * blockDim.x + threadIdx.x;\n    if (idx >= event_count) return;\n    \n    const char* event = events + idx * MAX_EVENT_LENGTH;\n    int match = 0;\n    \n    // GPU-optimized pattern matching\n    \n    // Generic pattern matching\n    if (strstr(event, \"x\") != NULL) {{\n        match = 1;\n    }}\n\n    \n    results[idx] = match;\n}\n"
    );
}

#[test]
fn counted_pattern_stays_silent_below_its_threshold() {
    let mut engine = RealDetectionEngine::new();
    assert!(engine.add_pattern("test_pattern".to_string(), "test".to_string()).is_ok());
    assert!(engine.set_threshold("test_pattern".to_string(), 5).is_ok());
    let test_data = b"test data with test pattern";
    // the pattern occurs, but it is counted once and its threshold is five
    assert!(engine.process_data(test_data).unwrap().is_empty());
    assert_eq!(engine.get_counters(), vec![("test_pattern".to_string(), 1)]);
    for _ in 0..3 {
        assert!(engine.process_data(test_data).unwrap().is_empty());
    }
    assert_eq!(engine.process_data(test_data).unwrap().len(), 1);
    assert!(engine.reset_counters().is_ok());
    assert!(engine.clear_alerts().is_ok());
}

#[test]
fn test_sql_injection_detection() {
    let mut engine = RealDetectionEngine::new();

    let sql_payload = b"SELECT * FROM users UNION SELECT * FROM passwords";
    let detections = engine.process_data(sql_payload).unwrap();

    // Should detect SQL injection patterns
    assert!(!detections.is_empty());
}

#[test]
fn test_xss_detection() {
    let mut engine = RealDetectionEngine::new();

    let xss_payload = b"<script>alert('XSS')</script>";
    let detections = engine.process_data(xss_payload).unwrap();

    // Should detect XSS patterns
    assert!(!detections.is_empty());
}

#[test]
fn thresholds_hold_alerts_back() {
    let mut engine = RealDetectionEngine::new();
    engine.set_threshold("sql_union".to_string(), 3).unwrap();
    assert!(engine.process_data(b"a UNION SELECT b").unwrap().is_empty());
    assert_eq!(engine.get_counters(), vec![("sql_union".to_string(), 1)]);
    assert!(engine.process_log_data(b"UNION SELECT").unwrap().is_empty());
    assert_eq!(
        engine.process_network_traffic(b"UNION SELECT ../").unwrap(),
        vec![
            "\u{1F6A8} Pattern 'sql_union' exceeded threshold 3 (current: 3)".to_string(),
            "\u{1F6A8} Pattern 'path_traversal' detected".to_string(),
        ]
    );
    // the count starts over after the alert
    assert_eq!(
        engine.get_counters(),
        vec![("sql_union".to_string(), 0), ("path_traversal".to_string(), 1)]
    );
    assert!(engine.process_file_data(b"nothing to see").unwrap().is_empty());
    let metrics = engine.get_performance_metrics();
    assert_eq!(metrics.total_patterns, 9);
    assert_eq!(metrics.active_counters, 2);
    assert_eq!(metrics.total_matches, 1);
    assert!(engine.get_alerts().is_empty());
    engine.reset_counters().unwrap();
    assert!(engine.get_counters().is_empty());
    // a pattern registered again replaces the one of its name
    engine.add_pattern("sql_union".to_string(), "union all".to_string()).unwrap();
    assert!(engine.process_data(b"UNION SELECT").unwrap().is_empty());
    assert_eq!(engine.get_performance_metrics().total_patterns, 9);
}

#[test]
fn test_error_from_string() {
    let err: SIEMError = String::from("custom error").into();
    match err {
        SIEMError::Other(msg) => assert_eq!(msg, "custom error"),
        _ => panic!("Expected SIEMError::Other"),
    }
}

#[test]
fn test_error_display() {
    let err = SIEMError::Config("bad config".to_string());
    let msg = err.message();
    assert!(msg.contains("bad config"));
    assert_eq!(msg, "Configuration error: bad config");
    assert_eq!(SIEMError::Io("disk".to_string()).message(), "IO error: disk");
}

#[test]
fn text_helpers_work_on_bytes() {
    assert!(contains("this is malware in the text", "malware"));
    assert!(!contains("this is malware", "Malware"));
    assert!(contains("anything", ""));
    assert!(contains_ignoring_case("UNION Select", "union SELECT"));
    assert!(contains_ignoring_case("STRASSE \u{c4}pfel", "\u{e4}PFEL"));
    assert!(starts_with("prefix and more", "prefix"));
    assert!(!starts_with("pre", "prefix"));
    assert!(ends_with("some suffix", "suffix"));
    assert!(!ends_with("fix", "suffix"));
    assert!(str_eq("gr\u{fc}n", "gr\u{fc}n"));
    assert!(!str_eq("a", "b"));
    assert!(!str_eq("a", "ab"));
    assert!(str_lt("a", "b"));
    assert!(str_lt("a", "ab"));
    assert!(str_lt("", "a"));
    assert!(!str_lt("b", "a"));
    assert!(!str_lt("same", "same"));
    assert!(str_lt("Z", "a"));
    assert_eq!(u64_to_text(0), "0");
    assert_eq!(u64_to_text(9), "9");
    assert_eq!(u64_to_text(10), "10");
    assert_eq!(u64_to_text(8089), "8089");
    assert_eq!(u64_to_text(u64::MAX), "18446744073709551615");
}

#[test]
fn decimals_are_read_in_thousandths() {
    assert_eq!(parse_milli("0"), Some(0));
    assert_eq!(parse_milli("50"), Some(50_000));
    assert_eq!(parse_milli("-50"), Some(-50_000));
    assert_eq!(parse_milli("+1.5"), Some(1_500));
    assert_eq!(parse_milli("0.85"), Some(850));
    assert_eq!(parse_milli("0.8559"), Some(855));
    assert_eq!(parse_milli("3."), Some(3_000));
    assert_eq!(parse_milli("007.010"), Some(7_010));
    assert_eq!(parse_milli("1000000000000"), Some(1_000_000_000_000_000));
    assert_eq!(parse_milli("1000000000000.001"), None);
    assert_eq!(parse_milli("99999999999999999999999999"), None);
    assert_eq!(parse_milli(""), None);
    assert_eq!(parse_milli("-"), None);
    assert_eq!(parse_milli(".5"), None);
    assert_eq!(parse_milli("1.2.3"), None);
    assert_eq!(parse_milli("12a"), None);
    assert_eq!(parse_milli("1.a"), None);
    assert_eq!(parse_milli(" 1"), None);
    assert_eq!(parse_milli("--1"), None);
}

fn policy(base: u64, exponential: bool, cap: u64, max_restarts: u32) -> RestartPolicy {
    RestartPolicy {
        max_restarts,
        restart_delay_ms: base,
        exponential_backoff: exponential,
        max_restart_delay_ms: cap,
    }
}

#[test]
fn backoff_doubles_up_to_its_cap() {
    let p = policy(100, true, 5000, 10);
    let delays: Vec<u64> = (0..8).map(|attempt| p.backoff_delay(attempt)).collect();
    assert_eq!(delays, vec![100, 200, 400, 800, 1600, 3200, 5000, 5000]);
    assert_eq!(p.backoff_delay(u32::MAX), 5000);
    assert_eq!(policy(100, false, 5000, 10).backoff_delay(7), 100);
    assert_eq!(policy(9000, true, 5000, 10).backoff_delay(0), 5000);
    assert_eq!(policy(0, true, 5000, 10).backoff_delay(40), 0);
    assert_eq!(policy(1, true, u64::MAX, 10).backoff_delay(70), u64::MAX);
}

fn service(name: &str, dependencies: &[&str], max_restarts: u32) -> ServiceConfig {
    let mut config = make_core_service(0);
    config.name = name.to_string();
    config.dependencies = dependencies.iter().map(|d| d.to_string()).collect();
    config.restart_policy = policy(100, true, 1000, max_restarts);
    config
}

#[test]
fn default_services_are_registered() {
    let mut supervisor = UltraSupervisor::new(0);
    supervisor.initialize_default_services();
    assert_eq!(supervisor.service_count(), 21);
    assert_eq!(supervisor.position("rust-quantum-core-0"), 0);
    assert_eq!(supervisor.position("rust-quantum-core-9"), 9);
    assert_eq!(supervisor.position("go-quantum-processor-3"), 13);
    assert_eq!(supervisor.position("zig-quantum-query"), 20);
    assert_eq!(supervisor.position("missing"), 21);
    supervisor.initialize_default_services();
    assert_eq!(supervisor.service_count(), 21);
    let core = make_core_service(7);
    assert_eq!(core.health_check_url, Some("http://localhost:8087".to_string()));
    assert_eq!(core.environment[3], ("INSTANCE_ID".to_string(), "7".to_string()));
    assert_eq!(core.restart_policy.max_restart_delay_ms, 5000);
    assert_eq!(core.resource_limits.max_cpu_percent, 50);
    let report = supervisor.status_report(1_500);
    assert_eq!(report.total_services, 21);
    assert_eq!(report.running_services, 0);
    assert_eq!(report.uptime_ms, 1_500);
    assert_eq!(supervisor.services_to_start().len(), 21);
}

#[test]
fn dependents_wait_for_their_prerequisites() {
    let mut supervisor = UltraSupervisor::new(0);
    supervisor.add_service(service("web", &["db", "cache"], 3));
    supervisor.add_service(service("db", &[], 3));
    supervisor.add_service(service("cache", &["db"], 3));
    supervisor.add_service(service("lost", &["nowhere"], 3));
    assert_eq!(supervisor.services_to_start(), vec!["db".to_string()]);
    assert!(supervisor.service_started("db", 11, 5));
    assert!(!supervisor.service_started("nowhere", 11, 5));
    assert_eq!(supervisor.services_to_start(), vec!["cache".to_string()]);
    assert!(supervisor.service_started("cache", 12, 6));
    assert_eq!(supervisor.services_to_start(), vec!["web".to_string()]);
    assert!(supervisor.service_started("web", 13, 7));
    assert!(supervisor.services_to_start().is_empty());
    let report = supervisor.status_report(10);
    assert_eq!(report.running_services, 3);
    assert_eq!(report.failed_services, 0);
    assert!(supervisor.is_running("web"));
    assert_eq!(supervisor.track_at(0).status.pid, Some(13));
    assert_eq!(supervisor.track_at(0).status.start_time, 7);
}

#[test]
fn failed_services_restart_with_backoff_until_given_up() {
    let mut supervisor = UltraSupervisor::new(0);
    supervisor.add_service(service("db", &[], 2));
    supervisor.service_started("db", 1, 1_000);
    // first failure: the delay of 100 ms since the last attempt (never) has long passed
    assert_eq!(supervisor.service_failed("db", 2_000), Supervised::Decided(RestartDecision::Restart));
    assert_eq!(supervisor.track_at(0).status.status, ServiceState::Restarting);
    assert_eq!(supervisor.track_at(0).status.restart_count, 1);
    assert_eq!(supervisor.services_to_start(), vec!["db".to_string()]);
    // the start fails: second restart waits for 200 ms
    assert_eq!(supervisor.service_failed("db", 2_100), Supervised::Decided(RestartDecision::Wait));
    assert_eq!(supervisor.track_at(0).status.status, ServiceState::Failed);
    assert_eq!(supervisor.retry_service("db", 2_199), Supervised::Decided(RestartDecision::Wait));
    assert_eq!(supervisor.retry_service("db", 2_200), Supervised::Decided(RestartDecision::Restart));
    assert_eq!(supervisor.retry_service("db", 2_300), Supervised::Noted);
    // the third failure is one too many
    assert_eq!(supervisor.service_failed("db", 5_000), Supervised::Decided(RestartDecision::GiveUp));
    assert!(supervisor.track_at(0).unrecoverable);
    assert_eq!(supervisor.retry_service("db", 9_000_000), Supervised::Decided(RestartDecision::GiveUp));
    assert!(supervisor.services_to_start().is_empty());
    assert_eq!(supervisor.service_failed("nowhere", 1), Supervised::UnknownService);
    let report = supervisor.status_report(6_000);
    assert_eq!(report.total_restarts, 2);
    assert_eq!(report.failed_services, 1);
}

#[test]
fn restarts_are_counted_over_a_window() {
    let mut supervisor = UltraSupervisor::new(0);
    supervisor.configure(SupervisorSettings {
        probe_interval_ms: 5000,
        unhealthy_threshold: 3,
        restart_window_ms: 10_000,
    });
    supervisor.add_service(service("db", &[], 1));
    assert_eq!(supervisor.service_failed("db", 1_000), Supervised::Decided(RestartDecision::Restart));
    supervisor.service_started("db", 1, 1_001);
    // within the window a second restart is one too many; after it, the count starts over
    assert_eq!(supervisor.service_failed("db", 11_001), Supervised::Decided(RestartDecision::Restart));
    assert_eq!(supervisor.track_at(0).status.restart_count, 1);
    supervisor.service_started("db", 2, 11_002);
    assert_eq!(supervisor.service_failed("db", 12_000), Supervised::Decided(RestartDecision::GiveUp));
}

#[test]
fn three_unhealthy_probes_in_a_row_fail_a_service() {
    let mut supervisor = UltraSupervisor::new(0);
    supervisor.add_service(service("web", &[], 5));
    supervisor.service_started("web", 1, 0);
    assert_eq!(supervisor.probe_result("web", HealthStatus::Unhealthy, 10), Supervised::Noted);
    assert_eq!(supervisor.probe_result("web", HealthStatus::Unhealthy, 20), Supervised::Noted);
    assert_eq!(supervisor.probe_result("web", HealthStatus::Healthy, 30), Supervised::Noted);
    assert_eq!(supervisor.probe_result("web", HealthStatus::Unhealthy, 40), Supervised::Noted);
    assert_eq!(supervisor.probe_result("web", HealthStatus::Unknown, 45), Supervised::Noted);
    assert_eq!(supervisor.probe_result("web", HealthStatus::Unhealthy, 50), Supervised::Noted);
    assert_eq!(supervisor.track_at(0).status.last_health_check, 50);
    assert_eq!(
        supervisor.probe_result("web", HealthStatus::Unhealthy, 1_000),
        Supervised::Decided(RestartDecision::Restart)
    );
    assert_eq!(supervisor.track_at(0).status.status, ServiceState::Restarting);
    assert_eq!(supervisor.track_at(0).status.health_status, HealthStatus::Unhealthy);
    assert_eq!(supervisor.probe_result("web", HealthStatus::Degraded, 1_100), Supervised::Noted);
    assert_eq!(supervisor.probe_result("nowhere", HealthStatus::Healthy, 1), Supervised::UnknownService);
}

#[test]
fn roles_carry_their_permissions() {
    assert_eq!(get_role_permissions(&UserRole::SuperAdmin).len(), 18);
    assert_eq!(get_role_permissions(&UserRole::SecurityAdmin).len(), 11);
    assert_eq!(
        get_role_permissions(&UserRole::ReadOnly),
        vec![Permission::ReadSecurityData, Permission::ExecuteQueries]
    );
    assert!(get_role_permissions(&UserRole::SuperAdmin).contains(&Permission::SystemAdministration));
    assert!(!get_role_permissions(&UserRole::SecurityAdmin).contains(&Permission::ManageUsers));
    assert!(get_role_permissions(&UserRole::ComplianceOfficer).contains(&Permission::ReadAuditLogs));
    assert!(get_role_permissions(&UserRole::IncidentResponder).contains(&Permission::ExecuteResponseActions));
    assert!(!get_role_permissions(&UserRole::SecurityAnalyst).contains(&Permission::ExecuteResponseActions));
    let custom = UserRole::Custom {
        name: "auditor".to_string(),
        permissions: vec![Permission::Custom { name: "peek".to_string(), description: "look".to_string() }],
    };
    assert_eq!(custom.name(), "Custom:auditor");
    assert_eq!(UserRole::SecurityAnalyst.name(), "SecurityAnalyst");
    assert_eq!(get_role_permissions(&custom).len(), 1);
}

#[test]
fn passwords_are_held_against_the_policy() {
    let policy = PasswordPolicy::default();
    assert_eq!(policy.min_length, 12);
    assert_eq!(policy.lockout_threshold, 5);
    let fault = |password: &str| match validate_password_policy(&policy, password) {
        Ok(()) => None,
        Err(e) => Some(e.message()),
    };
    assert_eq!(fault("UltraSIEM2024!"), None);
    assert_eq!(fault("Short1!"), Some("Other error: Password too short".to_string()));
    assert_eq!(fault("ultrasiem2024!"), Some("Other error: Password must contain uppercase letter".to_string()));
    assert_eq!(fault("ULTRASIEM2024!"), Some("Other error: Password must contain lowercase letter".to_string()));
    assert_eq!(fault("UltraSIEMxxxx!"), Some("Other error: Password must contain number".to_string()));
    assert_eq!(fault("UltraSIEM20245"), Some("Other error: Password must contain special character".to_string()));
    let lax = PasswordPolicy { min_length: 3, require_special_chars: false, require_numbers: false, ..policy };
    assert!(validate_password_policy(&lax, "aB\u{e9}").is_ok());
    assert!(validate_password_policy(&lax, "aB").is_err());
}

#[test]
fn accounts_lock_at_the_threshold() {
    let policy = PasswordPolicy::default();
    assert_eq!(increment_failed_login_attempts(0, false, &policy), (1, false));
    assert_eq!(increment_failed_login_attempts(3, false, &policy), (4, false));
    assert_eq!(increment_failed_login_attempts(4, false, &policy), (5, true));
    assert_eq!(increment_failed_login_attempts(0, true, &policy), (1, true));
    assert_eq!(increment_failed_login_attempts(u32::MAX, false, &policy), (u32::MAX, true));
    let claims = Claims {
        sub: "u".to_string(),
        username: "u".to_string(),
        role: "ReadOnly".to_string(),
        permissions: vec![],
        exp: 100,
        iat: 50,
        jti: "j".to_string(),
    };
    assert!(!claims.is_expired(100));
    assert!(claims.is_expired(101));
}

#[test]
fn assessments_are_summed_up() {
    let statuses = vec![
        ComplianceStatus::Compliant,
        ComplianceStatus::Compliant,
        ComplianceStatus::NonCompliant,
        ComplianceStatus::Partial,
        ComplianceStatus::NotApplicable,
        ComplianceStatus::UnderReview,
        ComplianceStatus::Compliant,
    ];
    let summary = calculate_compliance_summary(&statuses);
    assert_eq!(summary.total_requirements, 7);
    assert_eq!(summary.compliant, 3);
    assert_eq!(summary.non_compliant, 1);
    assert_eq!(summary.partial, 1);
    assert_eq!(summary.not_applicable, 1);
    assert_eq!(summary.compliance_permille, 428);
    assert_eq!(
        generate_recommendations(&summary),
        vec![
            "Improve overall compliance posture".to_string(),
            "Address non-compliant requirements immediately".to_string(),
            "Complete partially compliant requirements".to_string(),
        ]
    );
    let all = calculate_compliance_summary(&vec![ComplianceStatus::Compliant; 9]);
    assert_eq!(all.compliance_permille, 1000);
    assert!(generate_recommendations(&all).is_empty());
    assert_eq!(calculate_compliance_summary(&vec![]).compliance_permille, 0);
}

#[test]
fn rules_are_exported_one_to_a_line() {
    let mut engine = RealDetectionEngine::new();
    engine.set_threshold("sql_drop".to_string(), 12).unwrap();
    let text = engine.export_rules().unwrap();
    let lines: Vec<&str> = text.split('\n').collect();
    assert_eq!(lines.len(), 9);
    assert_eq!(lines[0], "sql_union: UNION SELECT (threshold: 0)");
    assert_eq!(lines[1], "sql_drop: DROP TABLE (threshold: 12)");
    assert_eq!(lines[8], "remote_file: http:// (threshold: 0)");
    assert!(!text.ends_with('\n'));
}

#[test]
fn rules_are_imported_line_for_line() {
    let mut engine = RealDetectionEngine::new();
    let before = engine.export_rules().unwrap();
    let text = "  alpha : evil.exe  (threshold: 3)\r\nno rule here\nbeta: a:b (threshold: 7))\ngamma: y (threshold: +4)\ndelta: z (threshold: -1)\nepsilon: w (threshold: 4294967296)\nzeta: (threshold: 1) v (threshold: 2)\nsql_drop: DROP (threshold: 5)\n";
    assert!(engine.import_rules(text).is_ok());
    let after = engine.export_rules().unwrap();
    let lines: Vec<&str> = after.split('\n').collect();
    assert_eq!(lines.len(), 9 + 4);
    // a rule of a known name replaces the pattern where it stands
    assert_eq!(lines[1], "sql_drop: DROP (threshold: 5)");
    assert_eq!(lines[9], "alpha: evil.exe (threshold: 3)");
    assert_eq!(lines[10], "beta: a:b (threshold: 7)");
    assert_eq!(lines[11], "gamma: y (threshold: 4)");
    assert_eq!(lines[12], "zeta: (threshold: 1) v (threshold: 2)");
    assert_ne!(before, after);
}

#[test]
fn exported_rules_come_back_as_they_were() {
    let mut first = RealDetectionEngine::new();
    first.add_pattern("own".to_string(), "needle in hay".to_string()).unwrap();
    first.set_threshold("own".to_string(), 4_294_967_295).unwrap();
    let text = first.export_rules().unwrap();
    let mut second = RealDetectionEngine::new();
    second.import_rules(&text).unwrap();
    assert_eq!(second.export_rules().unwrap(), text);
}

#[test]
fn imported_threshold_holds_the_alert_back() {
    let mut engine = RealDetectionEngine::new();
    engine.import_rules("probe: nmap (threshold: 2)").unwrap();
    assert!(engine.process_data(b"nmap -sS").unwrap().is_empty());
    let alerts = engine.process_data(b"nmap -sV").unwrap();
    assert_eq!(alerts.len(), 1);
    assert!(alerts[0].contains("probe"));
    assert!(alerts[0].contains("exceeded threshold 2"));
}

#[test]
fn numbers_are_read_as_decimal_digits() {
    use_parse("0", Some(0));
    use_parse("+17", Some(17));
    use_parse("007", Some(7));
    use_parse("4294967295", Some(4_294_967_295));
    use_parse("4294967296", None);
    use_parse("", None);
    use_parse("+", None);
    use_parse("-3", None);
    use_parse("1 ", None);
    use_parse("١", None);
}

fn use_parse(text: &str, expected: Option<u32>) {
    assert_eq!(siem_rust_core::ruletext::parse_unsigned(text), expected);
    assert_eq!(text.parse::<u32>().ok(), expected);
}

#[test]
fn marks_and_endings_are_found_from_the_right() {
    assert_eq!(siem_rust_core::ruletext::find_char("a:b:c", ':'), 1);
    assert_eq!(siem_rust_core::ruletext::find_char("abc", ':'), 3);
    assert_eq!(siem_rust_core::ruletext::find_last("x(t)y(t)z", "(t)"), Some(5));
    assert_eq!(siem_rust_core::ruletext::find_last("xyz", "(t)"), None);
    assert_eq!(siem_rust_core::ruletext::find_last("é(t)", "(t)"), Some(1));
    assert_eq!(siem_rust_core::ruletext::strip_end("12)))", ')'), "12");
    assert_eq!(siem_rust_core::ruletext::strip_end(")))", ')'), "");
    assert_eq!(siem_rust_core::ruletext::strip_end("1)2", ')'), "1)2");
}
