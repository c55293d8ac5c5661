use siem_rust_core::correlation::CorrelationCondition;
use siem_rust_core::correlation::CorrelationRule;
use siem_rust_core::detection::AdvancedThreatConfig;
use siem_rust_core::detection::AdvancedThreatDetectionEngine;
use siem_rust_core::detection::FeatureSpec;
use siem_rust_core::dispatcher::Dispatcher;
use siem_rust_core::dispatcher::DispatcherConfig;
use siem_rust_core::dispatcher::DropReason;
use siem_rust_core::dispatcher::SubmitResult;
use siem_rust_core::incident::ActionFailure;
use siem_rust_core::incident::IncidentSeverity;
use siem_rust_core::incident::IncidentStatus;
use siem_rust_core::incident::ResponseAction;
use siem_rust_core::model::DetectorKind;
use siem_rust_core::model::RawEvent;
use siem_rust_core::model::SourceKind;
use siem_rust_core::model::ThreatCategory;
use siem_rust_core::model::ThreatSeverity;
use siem_rust_core::orchestrator::IncidentResponseEngine;
use siem_rust_core::pipeline::default_alert_config;
use siem_rust_core::pipeline::default_soar_config;
use siem_rust_core::pipeline::UltraSIEMCore;
use siem_rust_core::response::ResponseCondition;
use siem_rust_core::response::ResponseRule;

const NOW: u64 = 1_700_000_000_000;

fn event(id: &str, message: &str, source_ip: &str, user_id: &str, attributes: &[(&str, &str)]) -> RawEvent {
    RawEvent {
        id: id.to_string(),
        timestamp: NOW * 1_000_000,
        source_kind: SourceKind::HostLog,
        source_id: "host-1".to_string(),
        source_ip: source_ip.to_string(),
        destination_ip: "".to_string(),
        user_id: user_id.to_string(),
        action: "".to_string(),
        message: message.to_string(),
        attributes: attributes.iter().map(|(k, v)| (k.to_string(), v.to_string())).collect(),
    }
}

fn core_with(detection: AdvancedThreatDetectionEngine, orchestrator: IncidentResponseEngine) -> UltraSIEMCore {
    let dispatcher = Dispatcher::new(DispatcherConfig {
        worker_count: 4,
        shard_queue_capacity: 100,
        dedup_window_ms: 60_000,
        dedup_capacity: 100,
    })
    .unwrap();
    UltraSIEMCore::assemble(dispatcher, detection, orchestrator)
}

fn bare_orchestrator() -> IncidentResponseEngine {
    IncidentResponseEngine::new(default_alert_config(), default_soar_config())
}

#[test]
fn sql_injection_signature_opens_an_incident() {
    let mut core = UltraSIEMCore::new(NOW);
    let out = core.process_single_event(
        event("e1", "UNION SELECT * FROM users", "10.0.0.1", "u1", &[]),
        NOW,
    );
    assert!(matches!(out.submitted, SubmitResult::Ack { .. }));
    assert_eq!(out.findings.len(), 1);
    assert_eq!(out.findings[0].category, ThreatCategory::SQLInjection);
    assert_eq!(out.findings[0].detector_kind, DetectorKind::Signature);
    assert_eq!(core.response().incident_count(), 1);
    let incident = core.response().incident_at(0);
    assert_eq!(incident.severity, IncidentSeverity::High);
    assert_eq!(incident.category, ThreatCategory::SQLInjection);
    assert_eq!(incident.status, IncidentStatus::Open);
    assert_eq!(incident.sla_deadline, NOW + 2 * 60 * 60 * 1000);
    assert_eq!(incident.source_ip, "10.0.0.1");
    assert_eq!(incident.user_id, "u1");
    // the default rule for incidents of severity High fired: one action
    assert_eq!(incident.response_actions.len(), 1);
    assert!(incident.response_actions[0].success);
    assert_eq!(out.incidents.len(), 1);
    assert_eq!(&out.incidents[0], incident);
    assert!(out.requests.is_empty());
}

#[test]
fn test_event_processing_leaves_benign_events_alone() {
    let mut core = UltraSIEMCore::new(NOW);
    let out = core.process_single_event(event("e1", "User login successful", "10.0.0.1", "u1", &[]), NOW);
    assert!(out.findings.is_empty());
    let out = core.process_single_event(
        event("e2", "<script>alert('xss')</script>", "10.0.0.1", "u1", &[]),
        NOW,
    );
    assert_eq!(out.findings.len(), 1);
    assert_eq!(out.findings[0].category, ThreatCategory::XSS);
    assert_eq!(core.response().incident_count(), 1);
}

#[test]
fn brute_force_correlation_fires_on_the_fifth_event() {
    let mut detection = AdvancedThreatDetectionEngine::new(AdvancedThreatConfig::default(), NOW);
    detection
        .add_correlation_rule(CorrelationRule {
            id: "brute_force".to_string(),
            name: "Brute force".to_string(),
            description: "five failed logins".to_string(),
            conditions: vec![CorrelationCondition {
                event_type: "brute_force".to_string(),
                source_pattern: None,
                target_pattern: None,
                min_count: 5,
                max_count: None,
            }],
            time_window: 300_000,
            severity: ThreatSeverity::High,
            enabled: true,
            ordered: false,
            priority: 0,
            cooldown_ms: 300_000,
            category: Some(ThreatCategory::BruteForce),
        })
        .unwrap();
    let mut core = core_with(detection, bare_orchestrator());
    for i in 0..4u64 {
        let mut e = event(&format!("e{}", i), &format!("attempt {}", i), "10.0.0.2", "u2", &[("category", "brute_force")]);
        e.timestamp = (NOW + i * 60_000) * 1_000_000;
        let out = core.process_single_event(e, NOW + i * 60_000);
        assert!(out.findings.is_empty());
        assert_eq!(core.response().incident_count(), 0);
    }
    let mut fifth = event("e4", "attempt 4", "10.0.0.2", "u2", &[("category", "brute_force")]);
    fifth.timestamp = (NOW + 299_000) * 1_000_000;
    let out = core.process_single_event(fifth, NOW + 299_000);
    assert_eq!(out.findings.len(), 1);
    assert_eq!(out.findings[0].detector_kind, DetectorKind::Correlation);
    assert_eq!(out.findings[0].source_event_ids.len(), 5);
    assert_eq!(core.response().incident_count(), 1);
    let incident = core.response().incident_at(0);
    assert_eq!(incident.severity, IncidentSeverity::High);
    assert_eq!(incident.category, ThreatCategory::BruteForce);
    assert_eq!(incident.findings.len(), 1);
}

#[test]
fn behavioral_anomaly_waits_for_warm_up() {
    let mut detection = AdvancedThreatDetectionEngine::new(AdvancedThreatConfig::default(), NOW);
    detection.set_anomaly_params(10, 2000, 100);
    detection.add_feature(FeatureSpec { name: "bytes_out".to_string(), attribute: "bytes".to_string() });
    let mut core = core_with(detection, bare_orchestrator());
    for i in 0..9u64 {
        let out = core.process_single_event(
            event(&format!("e{}", i), "transfer", "10.0.0.3", "u3", &[("bytes", "50"), ("seq", &i.to_string())]),
            NOW + i,
        );
        assert!(matches!(out.submitted, SubmitResult::Ack { .. }));
        assert!(out.findings.is_empty());
    }
    let out = core.process_single_event(
        event("e9", "transfer", "10.0.0.3", "u3", &[("bytes", "500"), ("seq", "9")]),
        NOW + 9,
    );
    assert_eq!(out.findings.len(), 1);
    assert_eq!(out.findings[0].detector_kind, DetectorKind::Anomaly);
    assert!(out.findings[0].confidence >= 1000);
    assert_eq!(out.findings[0].confidence, 1000);
    assert_eq!(out.findings[0].finding_id, "e9/anomaly/bytes_out");
}

#[test]
fn whitelisted_source_bypasses_detection() {
    let mut detection = AdvancedThreatDetectionEngine::new(AdvancedThreatConfig::default(), NOW);
    detection.start().unwrap();
    let mut dispatcher = Dispatcher::new(DispatcherConfig::standard()).unwrap();
    dispatcher.add_to_whitelist("10.0.0.1".to_string());
    let mut core = UltraSIEMCore::assemble(dispatcher, detection, bare_orchestrator());
    let out = core.process_single_event(event("e1", "UNION SELECT * FROM users", "10.0.0.1", "u1", &[]), NOW);
    assert_eq!(out.submitted, SubmitResult::Dropped(DropReason::WhitelistedEarly));
    assert!(out.findings.is_empty());
    assert!(out.incidents.is_empty());
    assert_eq!(core.response().incident_count(), 0);
    assert_eq!(core.dispatcher().counters().dropped_whitelisted, 1);

    // the detectors keep a whitelist of their own
    let mut detection = AdvancedThreatDetectionEngine::new(AdvancedThreatConfig::default(), NOW);
    detection.start().unwrap();
    detection.add_to_whitelist("u1".to_string());
    let findings = detection.process_event(&event("e1", "UNION SELECT * FROM users", "10.0.0.1", "u1", &[]), NOW);
    assert!(findings.is_empty());
    assert_eq!(detection.whitelisted_count(), 1);
    detection.remove_from_whitelist("u1");
    assert_eq!(
        detection.process_event(&event("e1", "UNION SELECT * FROM users", "10.0.0.1", "u1", &[]), NOW).len(),
        1
    );
}

#[test]
fn duplicate_event_is_counted_once() {
    let mut core = UltraSIEMCore::new(NOW);
    let first = core.process_single_event(event("e1", "UNION SELECT * FROM users", "10.0.0.1", "u1", &[]), NOW);
    assert_eq!(first.findings.len(), 1);
    let second = core.process_single_event(
        event("e1", "UNION SELECT * FROM users", "10.0.0.1", "u1", &[]),
        NOW + 10_000,
    );
    assert_eq!(second.submitted, SubmitResult::Dropped(DropReason::DuplicateWithinWindow));
    assert!(second.findings.is_empty());
    assert_eq!(core.response().incident_count(), 1);
    assert_eq!(core.response().incident_at(0).findings.len(), 1);
    assert_eq!(core.dispatcher().counters().dropped_duplicate, 1);
}

#[test]
fn executor_timeout_is_recorded_without_retry() {
    let mut orchestrator = bare_orchestrator();
    orchestrator.add_response_rule(ResponseRule {
        id: "block_sql".to_string(),
        name: "Block SQL injection".to_string(),
        description: "".to_string(),
        enabled: true,
        conditions: vec![
            ResponseCondition {
                field: "severity".to_string(),
                operator: "equals".to_string(),
                value: "High".to_string(),
                case_sensitive: true,
            },
            ResponseCondition {
                field: "category".to_string(),
                operator: "equals".to_string(),
                value: "sqlinjection".to_string(),
                case_sensitive: false,
            },
        ],
        actions: vec![ResponseAction::BlockIP { ip: "10.0.0.1".to_string(), duration_seconds: 3600 }],
        priority: 5,
        cooldown_ms: None,
        last_triggered: None,
    });
    let mut detection = AdvancedThreatDetectionEngine::new(AdvancedThreatConfig::default(), NOW);
    detection.start().unwrap();
    let mut core = core_with(detection, orchestrator);
    let out = core.process_single_event(event("e1", "UNION SELECT * FROM users", "10.0.0.1", "u1", &[]), NOW);
    assert_eq!(out.requests.len(), 1);
    assert_eq!(
        out.requests[0].action,
        ResponseAction::BlockIP { ip: "10.0.0.1".to_string(), duration_seconds: 3600 }
    );
    let timeout = out.requests[0].timeout_ms;

    // the executor never answers
    assert_eq!(core.tick(NOW + timeout - 1), 0);
    assert_eq!(core.response().pending_count(), 1);
    assert_eq!(core.tick(NOW + timeout), 1);
    assert_eq!(out.incidents.len(), 1);
    let incident = core.response().get_incident(&out.incidents[0].id).unwrap();
    assert_eq!(incident.response_actions.len(), 1);
    assert!(!incident.response_actions[0].success);
    assert_eq!(incident.response_actions[0].error, Some(ActionFailure::Timeout));
    // nothing is tried again
    assert_eq!(core.tick(NOW + 10 * timeout), 0);
    assert_eq!(core.response().pending_count(), 0);
    // an answer that comes after all is marked as a duplicate outcome
    let late = core.record_action_result(&out.requests[0].action_id, true, None, None, 5, NOW + 11 * timeout);
    assert_eq!(late, siem_rust_core::lifecycle::Recorded::Duplicate);
    let incident = core.response().get_incident(&out.incidents[0].id).unwrap();
    assert_eq!(incident.response_actions.len(), 2);
    assert!(incident.response_actions[1].duplicate);
}

#[test]
fn detectors_report_in_their_fixed_order() {
    let mut detection = AdvancedThreatDetectionEngine::new(AdvancedThreatConfig::default(), NOW);
    detection.start().unwrap();
    detection
        .add_ioc(siem_rust_core::ioc::IOC {
            id: "bad-host".to_string(),
            value: "evil.example".to_string(),
            ioc_type: siem_rust_core::ioc::IocKind::Domain,
            confidence: 950,
            source: "intel".to_string(),
            first_seen: 0,
            last_seen: 0,
            tags: vec![],
        })
        .unwrap();
    let findings = detection.process_event(
        &event("e1", "malware from evil.example: UNION SELECT x FROM y", "10.0.0.1", "u1", &[]),
        NOW,
    );
    let kinds: Vec<(DetectorKind, String)> =
        findings.iter().map(|f| (f.detector_kind, f.matched_rule_ids[0].clone())).collect();
    assert_eq!(
        kinds,
        vec![
            (DetectorKind::Signature, "sql_injection_1".to_string()),
            (DetectorKind::Signature, "malware_1".to_string()),
            (DetectorKind::Ioc, "bad-host".to_string()),
        ]
    );
}

#[test]
fn findings_of_low_confidence_are_dropped() {
    let mut config = AdvancedThreatConfig::default();
    config.false_positive_threshold = 900;
    let mut detection = AdvancedThreatDetectionEngine::new(config, NOW);
    detection.start().unwrap();
    // the signature for cross-site scripting has a confidence of 0.8
    assert!(detection.process_event(&event("e1", "<script>", "10.0.0.1", "u1", &[]), NOW).is_empty());
    assert_eq!(detection.process_event(&event("e2", "a virus", "10.0.0.1", "u1", &[]), NOW).len(), 1);
}
