use siem_rust_core::incident::create_incident_from_threat;
use siem_rust_core::incident::ActionFailure;
use siem_rust_core::incident::IncidentSeverity;
use siem_rust_core::incident::IncidentStatus;
use siem_rust_core::incident::ResponseAction;
use siem_rust_core::incident::SlaPolicy;
use siem_rust_core::lifecycle::IncidentError;
use siem_rust_core::lifecycle::Recorded;
use siem_rust_core::model::DetectorKind;
use siem_rust_core::model::ThreatCategory;
use siem_rust_core::model::ThreatFinding;
use siem_rust_core::model::ThreatSeverity;
use siem_rust_core::orchestrator::should_send_alert;
use siem_rust_core::orchestrator::AlertChannel;
use siem_rust_core::orchestrator::AlertConfig;
use siem_rust_core::orchestrator::IncidentResponseEngine;
use siem_rust_core::orchestrator::Ingested;
use siem_rust_core::orchestrator::SOARConfig;
use siem_rust_core::response::apply_operator;
use siem_rust_core::response::evaluate_condition;
use siem_rust_core::response::permille_to_text;
use siem_rust_core::response::ResponseCondition;
use siem_rust_core::response::ResponseRule;

fn alert_config() -> AlertConfig {
    AlertConfig {
        email_enabled: false,
        email_smtp_server: "".to_string(),
        email_smtp_port: 587,
        email_username: "".to_string(),
        email_password: "".to_string(),
        email_from: "".to_string(),
        email_to: vec![],
        webhook_enabled: false,
        webhook_urls: vec![],
        grafana_enabled: false,
        grafana_url: "".to_string(),
        grafana_api_key: "".to_string(),
        slack_enabled: false,
        slack_webhook_url: "".to_string(),
        teams_enabled: false,
        teams_webhook_url: "".to_string(),
        pagerduty_enabled: false,
        pagerduty_api_key: "".to_string(),
        pagerduty_service_id: "".to_string(),
    }
}

fn soar_config() -> SOARConfig {
    SOARConfig {
        enabled: false,
        platform: "".to_string(),
        api_url: "".to_string(),
        api_key: "".to_string(),
        timeout_seconds: 30,
        retry_attempts: 3,
        custom_headers: vec![],
    }
}

fn threat(id: &str, severity: ThreatSeverity, category: ThreatCategory, confidence: u16) -> ThreatFinding {
    ThreatFinding {
        finding_id: id.to_string(),
        produced_at: 1_640_995_200_000,
        detector_kind: DetectorKind::Signature,
        severity,
        category,
        confidence,
        source_ip: "192.168.1.100".to_string(),
        destination_ip: "10.0.0.1".to_string(),
        user_id: "test_user".to_string(),
        source_event_ids: vec!["event-1".to_string()],
        matched_rule_ids: vec![],
        description: "Test threat".to_string(),
        attributes: vec![],
    }
}

fn rule(id: &str, priority: u8, field: &str, operator: &str, value: &str, action: ResponseAction) -> ResponseRule {
    ResponseRule {
        id: id.to_string(),
        name: format!("rule {}", id),
        description: "test".to_string(),
        enabled: true,
        conditions: vec![ResponseCondition {
            field: field.to_string(),
            operator: operator.to_string(),
            value: value.to_string(),
            case_sensitive: false,
        }],
        actions: vec![action],
        priority,
        cooldown_ms: Some(0),
        last_triggered: None,
    }
}

fn log(message: &str) -> ResponseAction {
    ResponseAction::LogOnly { message: message.to_string() }
}

#[test]
fn test_response_rule_evaluation() {
    let mut engine = IncidentResponseEngine::new(alert_config(), soar_config());
    // Insert a default rule for the test
    engine.add_response_rule(ResponseRule {
        id: "test_critical_severity_log".to_string(),
        name: "Log Critical Severity Incidents".to_string(),
        description: "Log all critical severity incidents for audit.".to_string(),
        enabled: true,
        conditions: vec![ResponseCondition {
            field: "severity".to_string(),
            operator: "equals".to_string(),
            value: "Critical".to_string(),
            case_sensitive: false,
        }],
        actions: vec![ResponseAction::LogOnly { message: "Critical severity incident logged".to_string() }],
        priority: 1,
        cooldown_ms: Some(0),
        last_triggered: None,
    });

    let threat = threat("test_threat", ThreatSeverity::Critical, ThreatCategory::BruteForce, 900);

    let position = match engine.ingest_finding(threat, "incident-1".to_string(), 1_000) {
        Ingested::Created(k) => k,
        other => panic!("unexpected {:?}", other),
    };

    let actions = engine.evaluate_response_rules(position, 1_000);

    assert!(!actions.is_empty());
}

#[test]
fn incident_from_threat_follows_severity() {
    let sla = SlaPolicy::standard();
    let now = 1_700_000_000_000;
    let incident = create_incident_from_threat(
        threat("t1", ThreatSeverity::Critical, ThreatCategory::BruteForce, 900),
        "i1".to_string(),
        now,
        &sla,
    );
    assert_eq!(incident.severity, IncidentSeverity::Critical);
    assert_eq!(incident.status, IncidentStatus::Open);
    assert_eq!(incident.escalation_level, 4);
    assert_eq!(incident.sla_deadline, now + 30 * 60 * 1000);
    assert_eq!(incident.title, "BruteForce - Test threat");
    assert_eq!(incident.description, "Test threat");
    assert_eq!(incident.findings.len(), 1);
    assert_eq!(incident.created_at, now);
    assert!(!incident.false_positive);

    for (severity, allowance, level) in [
        (ThreatSeverity::Low, 24 * 3_600_000u64, 1u8),
        (ThreatSeverity::Medium, 8 * 3_600_000, 2),
        (ThreatSeverity::High, 2 * 3_600_000, 3),
    ] {
        let i = create_incident_from_threat(threat("t", severity, ThreatCategory::Other, 1), "i".to_string(), 5, &sla);
        assert_eq!(i.sla_deadline, 5 + allowance);
        assert_eq!(i.escalation_level, level);
    }
    assert_eq!(sla.deadline_for(IncidentSeverity::Emergency, 0), 15 * 60 * 1000);
    assert_eq!(sla.deadline_for(IncidentSeverity::Low, u64::MAX), u64::MAX);
}

#[test]
fn findings_merge_within_the_window() {
    let mut engine = IncidentResponseEngine::new(alert_config(), soar_config());
    let first = engine.ingest_finding(threat("t1", ThreatSeverity::Low, ThreatCategory::XSS, 800), "i1".to_string(), 1_000);
    assert_eq!(first, Ingested::Created(0));
    // same address, user and category within 30 s: merged, severity rises to the highest
    let second = engine.ingest_finding(threat("t2", ThreatSeverity::High, ThreatCategory::XSS, 900), "i2".to_string(), 31_000);
    assert_eq!(second, Ingested::Merged(0));
    let third = engine.ingest_finding(threat("t3", ThreatSeverity::Medium, ThreatCategory::XSS, 900), "i3".to_string(), 20_000);
    assert_eq!(third, Ingested::Merged(0));
    let incident = engine.get_incident("i1").unwrap();
    assert_eq!(incident.severity, IncidentSeverity::High);
    assert_eq!(incident.escalation_level, 3);
    assert_eq!(incident.sla_deadline, 1_000 + 2 * 3_600_000);
    assert_eq!(incident.updated_at, 20_000);
    let ids: Vec<&str> = incident.findings.iter().map(|f| f.finding_id.as_str()).collect();
    assert_eq!(ids, vec!["t1", "t2", "t3"]);
    assert_eq!(incident.confidence(), 900);

    // after the window, or for another category, a new incident is opened
    assert_eq!(
        engine.ingest_finding(threat("t4", ThreatSeverity::Low, ThreatCategory::XSS, 800), "i4".to_string(), 31_001),
        Ingested::Created(1)
    );
    assert_eq!(
        engine.ingest_finding(threat("t5", ThreatSeverity::Low, ThreatCategory::DDoS, 800), "i5".to_string(), 31_001),
        Ingested::Created(2)
    );
    assert_eq!(engine.incident_count(), 3);
    assert!(engine.get_incident("nope").is_none());
}

#[test]
fn rules_fire_by_priority_then_identifier() {
    let mut engine = IncidentResponseEngine::new(alert_config(), soar_config());
    engine.add_response_rule(rule("b", 1, "severity", "equals", "high", log("b")));
    engine.add_response_rule(rule("z", 9, "severity", "equals", "HIGH", log("z")));
    engine.add_response_rule(rule("a", 1, "category", "contains", "sql", log("a")));
    engine.add_response_rule(rule("never", 5, "user_id", "starts_with", "admin", log("never")));
    let mut off = rule("off", 7, "severity", "equals", "high", log("off"));
    off.enabled = false;
    engine.add_response_rule(off);
    assert_eq!(engine.rule_count(), 5);

    engine.ingest_finding(threat("t1", ThreatSeverity::High, ThreatCategory::SQLInjection, 850), "i1".to_string(), 10);
    let actions = engine.evaluate_response_rules(0, 10);
    assert_eq!(actions, vec![log("z"), log("a"), log("b")]);
}

#[test]
fn rules_rest_for_their_cooldown() {
    let mut engine = IncidentResponseEngine::new(alert_config(), soar_config());
    let mut r = rule("r", 1, "severity", "equals", "high", log("r"));
    r.cooldown_ms = Some(1_000);
    engine.add_response_rule(r);
    engine.ingest_finding(threat("t1", ThreatSeverity::High, ThreatCategory::XSS, 850), "i1".to_string(), 10);
    assert_eq!(engine.evaluate_response_rules(0, 10).len(), 1);
    assert_eq!(engine.evaluate_response_rules(0, 1_009).len(), 0);
    assert_eq!(engine.evaluate_response_rules(0, 1_010).len(), 1);
}

#[test]
fn conditions_compare_as_told() {
    let incident = create_incident_from_threat(
        threat("t1", ThreatSeverity::High, ThreatCategory::SQLInjection, 850),
        "i1".to_string(),
        0,
        &SlaPolicy::standard(),
    );
    let check = |field: &str, operator: &str, value: &str, case_sensitive: bool| {
        evaluate_condition(
            &ResponseCondition {
                field: field.to_string(),
                operator: operator.to_string(),
                value: value.to_string(),
                case_sensitive,
            },
            &incident,
        )
    };
    assert!(check("severity", "equals", "High", true));
    assert!(!check("severity", "equals", "high", true));
    assert!(check("severity", "equals", "high", false));
    assert!(check("category", "equals", "SQLInjection", true));
    assert!(check("source_ip", "starts_with", "192.168.", true));
    assert!(check("source_ip", "ends_with", ".100", true));
    assert!(!check("source_ip", "ends_with", ".10", true));
    assert!(check("user_id", "contains", "T_US", false));
    assert!(!check("user_id", "contains", "T_US", true));
    assert!(check("confidence", "equals", "0.85", true));
    assert!(check("confidence", "greater_than", "0.8", true));
    assert!(!check("confidence", "greater_than", "0.85", true));
    assert!(check("confidence", "less_than", "0.9", true));
    assert!(!check("confidence", "less_than", "abc", true));
    assert!(!check("severity", "greater_than", "1", true));
    assert!(!check("severity", "matches", "High", true));
    // a condition on a name that is no field is passed over
    assert!(check("hostname", "equals", "anything", true));
}

#[test]
fn operators_and_decimals() {
    assert!(apply_operator("greater_than", "-1.5", "-2"));
    assert!(apply_operator("less_than", "+0.001", "0.002"));
    assert!(!apply_operator("less_than", "1.0009", "1.0001"));
    assert!(!apply_operator("greater_than", "1e3", "1"));
    assert!(!apply_operator("greater_than", ".5", "0"));
    assert!(apply_operator("greater_than", "5.", "4.999"));
    assert!(!apply_operator("greater_than", "1000000000000.001", "1"));
    assert!(apply_operator("greater_than", "1000000000000", "1"));
    assert_eq!(permille_to_text(1000), "1");
    assert_eq!(permille_to_text(0), "0");
    assert_eq!(permille_to_text(900), "0.9");
    assert_eq!(permille_to_text(850), "0.85");
    assert_eq!(permille_to_text(125), "0.125");
    assert_eq!(permille_to_text(5), "0.005");
    assert_eq!(permille_to_text(50), "0.05");
    assert_eq!(permille_to_text(2000), "1");
}

#[test]
fn actions_are_issued_and_recorded() {
    let mut engine = IncidentResponseEngine::new(alert_config(), soar_config());
    engine.ingest_finding(threat("t1", ThreatSeverity::High, ThreatCategory::XSS, 850), "i1".to_string(), 100);
    let requests = engine.execute_response_actions(
        0,
        vec![
            log("noted"),
            ResponseAction::BlockIP { ip: "192.168.1.100".to_string(), duration_seconds: 3600 },
            ResponseAction::DisableAccount { user_id: "test_user".to_string(), reason: "x".to_string() },
            ResponseAction::RestartService { service_name: "web".to_string() },
        ],
        100,
    );
    assert_eq!(requests.len(), 3);
    assert_eq!(requests[0].action_id, "i1:1");
    assert_eq!(requests[0].incident_id, "i1");
    assert_eq!(requests[0].timeout_ms, 30_000);
    assert_eq!(requests[0].issued_at, 100);
    assert_eq!(requests[2].action_id, "i1:3");
    assert_eq!(engine.pending_count(), 3);
    assert!(engine.is_blocked("192.168.1.100", 100 + 3_599_999));
    assert!(!engine.is_blocked("192.168.1.100", 100 + 3_600_000));
    assert!(!engine.is_blocked("192.168.1.101", 100));
    assert!(engine.is_disabled("test_user", 3_600_099));
    assert!(!engine.is_disabled("test_user", 3_600_100));

    // the local action was carried out at once
    let incident = engine.get_incident("i1").unwrap();
    assert_eq!(incident.response_actions.len(), 1);
    assert_eq!(incident.response_actions[0].action_id, "i1:0");
    assert!(incident.response_actions[0].success);
    assert_eq!(incident.response_actions[0].action_type, log("noted"));

    assert_eq!(
        engine.record_action_result("i1:2", false, Some(ActionFailure::Rejected), Some("no".to_string()), 12, 150),
        Recorded::Recorded
    );
    assert_eq!(engine.pending_count(), 2);
    let incident = engine.get_incident("i1").unwrap();
    assert_eq!(incident.response_actions.len(), 2);
    assert_eq!(incident.response_actions[1].error, Some(ActionFailure::Rejected));
    assert_eq!(incident.response_actions[1].error_message, Some("no".to_string()));
    assert_eq!(incident.response_actions[1].execution_time_ms, 12);
    assert_eq!(incident.response_actions[1].timestamp, 150);
    assert!(!incident.response_actions[1].duplicate);

    // a second outcome for the same action is recorded as a duplicate
    assert_eq!(engine.record_action_result("i1:2", true, None, None, 1, 160), Recorded::Duplicate);
    let incident = engine.get_incident("i1").unwrap();
    assert_eq!(incident.response_actions.len(), 3);
    assert!(incident.response_actions[2].duplicate);
    assert_eq!(incident.response_actions[2].action_type, incident.response_actions[1].action_type);

    assert_eq!(engine.record_action_result("i9:9", true, None, None, 1, 160), Recorded::Unknown);

    engine.cleanup_expired_items(3_600_100);
    assert!(!engine.is_blocked("192.168.1.100", 0));
}

#[test]
fn pending_actions_time_out_once() {
    let mut engine = IncidentResponseEngine::new(alert_config(), soar_config());
    engine.add_response_rule(rule(
        "block",
        1,
        "severity",
        "equals",
        "high",
        ResponseAction::BlockIP { ip: "10.0.0.1".to_string(), duration_seconds: 3600 },
    ));
    let out = engine.process_threat_with_id(
        threat("t1", ThreatSeverity::High, ThreatCategory::XSS, 850),
        "i1".to_string(),
        1_000,
    );
    assert_eq!(out.ingested, Ingested::Created(0));
    assert_eq!(out.requests.len(), 1);
    assert_eq!(engine.expire_actions(30_999), 0);
    assert_eq!(engine.expire_actions(31_000), 1);
    assert_eq!(engine.pending_count(), 0);
    let incident = engine.get_incident("i1").unwrap();
    assert_eq!(incident.response_actions.len(), 1);
    assert!(!incident.response_actions[0].success);
    assert_eq!(incident.response_actions[0].error, Some(ActionFailure::Timeout));
    // nothing is tried again
    assert_eq!(engine.expire_actions(100_000), 0);
    assert_eq!(engine.get_incident("i1").unwrap().response_actions.len(), 1);
    // the late answer of the executor is a duplicate
    assert_eq!(engine.record_action_result("i1:0", true, None, None, 5, 100_001), Recorded::Duplicate);
}

#[test]
fn lifecycle_allows_what_it_lists() {
    let all = [
        IncidentStatus::Open,
        IncidentStatus::Investigating,
        IncidentStatus::Contained,
        IncidentStatus::Resolved,
        IncidentStatus::Closed,
        IncidentStatus::FalsePositive,
    ];
    let allowed = |from: IncidentStatus, to: IncidentStatus| match from {
        IncidentStatus::Open => to != IncidentStatus::Open,
        IncidentStatus::Investigating => to != IncidentStatus::Open && to != IncidentStatus::Investigating,
        IncidentStatus::Contained => {
            to == IncidentStatus::Resolved || to == IncidentStatus::Closed || to == IncidentStatus::FalsePositive
        }
        IncidentStatus::Resolved => to == IncidentStatus::Closed,
        IncidentStatus::Closed | IncidentStatus::FalsePositive => false,
    };
    for from in all {
        for to in all {
            assert_eq!(from.can_transition_to(to), allowed(from, to), "{:?} -> {:?}", from, to);
        }
        let terminal = from == IncidentStatus::Closed || from == IncidentStatus::FalsePositive;
        assert_eq!(from.terminal(), terminal);
        assert_eq!(from.settled(), terminal || from == IncidentStatus::Resolved);
    }
}

#[test]
fn status_updates_follow_the_lifecycle() {
    let mut engine = IncidentResponseEngine::new(alert_config(), soar_config());
    engine.ingest_finding(threat("t1", ThreatSeverity::High, ThreatCategory::XSS, 850), "i1".to_string(), 100);
    assert_eq!(engine.update_incident_status("nope", IncidentStatus::Closed, 1), Err(IncidentError::NotFound));
    assert_eq!(engine.update_incident_status("i1", IncidentStatus::Open, 1), Err(IncidentError::InvalidTransition));
    assert_eq!(engine.update_incident_status("i1", IncidentStatus::Investigating, 200), Ok(()));
    assert_eq!(engine.assign_incident("i1", "ann".to_string(), 210), Ok(()));
    assert_eq!(engine.update_incident_status("i1", IncidentStatus::Resolved, 300), Ok(()));
    let incident = engine.get_incident("i1").unwrap();
    assert_eq!(incident.status, IncidentStatus::Resolved);
    assert_eq!(incident.resolved_at, Some(300));
    assert_eq!(incident.updated_at, 300);
    assert_eq!(incident.assigned_to, Some("ann".to_string()));
    assert_eq!(engine.assign_incident("i1", "bob".to_string(), 310), Err(IncidentError::Settled));
    assert_eq!(
        engine.update_incident_status("i1", IncidentStatus::Investigating, 310),
        Err(IncidentError::InvalidTransition)
    );
    assert_eq!(engine.update_incident_status("i1", IncidentStatus::Closed, 400), Ok(()));
    // the time of resolution is that of the first entry
    assert_eq!(engine.get_incident("i1").unwrap().resolved_at, Some(300));
}

#[test]
fn terminal_incidents_take_notes_and_tags_only() {
    let mut engine = IncidentResponseEngine::new(alert_config(), soar_config());
    engine.add_response_rule(rule("log", 1, "severity", "equals", "high", log("x")));
    engine.ingest_finding(threat("t1", ThreatSeverity::High, ThreatCategory::XSS, 850), "i1".to_string(), 100);
    engine.update_incident_status("i1", IncidentStatus::Closed, 200).unwrap();
    let before = engine.get_incident("i1").unwrap();

    assert_eq!(engine.update_incident_status("i1", IncidentStatus::Open, 300), Err(IncidentError::InvalidTransition));
    assert_eq!(engine.mark_false_positive("i1", "late".to_string(), 300), Err(IncidentError::InvalidTransition));
    assert_eq!(engine.assign_incident("i1", "ann".to_string(), 300), Err(IncidentError::Settled));
    // a like finding opens a new incident instead of touching the closed one
    let out = engine.process_threat_with_id(
        threat("t2", ThreatSeverity::Critical, ThreatCategory::XSS, 850),
        "i2".to_string(),
        300,
    );
    assert_eq!(out.ingested, Ingested::Created(1));
    assert_eq!(engine.evaluate_response_rules(0, 400).len(), 0);
    assert_eq!(engine.get_incident("i1").unwrap(), before);

    assert_eq!(engine.add_incident_note("i1", "post mortem".to_string(), 500), Ok(()));
    assert_eq!(engine.add_incident_tag("i1", "xss".to_string()), Ok(()));
    assert_eq!(engine.add_incident_tag("i1", "xss".to_string()), Ok(()));
    let after = engine.get_incident("i1").unwrap();
    assert_eq!(after.notes, vec!["post mortem".to_string()]);
    assert_eq!(after.tags, vec!["xss".to_string()]);
    let mut expected = before;
    expected.notes = after.notes.clone();
    expected.tags = after.tags.clone();
    assert_eq!(after, expected);
    assert_eq!(engine.add_incident_note("nope", "x".to_string(), 1), Err(IncidentError::NotFound));
    assert_eq!(engine.add_incident_tag("nope", "x".to_string()), Err(IncidentError::NotFound));
}

#[test]
fn false_positives_go_under_quarantine() {
    let mut engine = IncidentResponseEngine::new(alert_config(), soar_config());
    engine.ingest_finding(threat("t1", ThreatSeverity::High, ThreatCategory::XSS, 850), "i1".to_string(), 100);
    assert_eq!(engine.mark_false_positive("i1", "test traffic".to_string(), 200), Ok(()));
    let incident = engine.get_incident("i1").unwrap();
    assert!(incident.false_positive);
    assert_eq!(incident.status, IncidentStatus::FalsePositive);
    assert_eq!(incident.notes, vec!["Marked as false positive: test traffic".to_string()]);
    // like findings are suppressed for an hour
    assert_eq!(
        engine.ingest_finding(threat("t2", ThreatSeverity::High, ThreatCategory::XSS, 850), "i2".to_string(), 3_600_199),
        Ingested::Suppressed
    );
    assert_eq!(
        engine.ingest_finding(threat("t3", ThreatSeverity::High, ThreatCategory::DDoS, 850), "i3".to_string(), 300),
        Ingested::Created(1)
    );
    assert_eq!(
        engine.ingest_finding(threat("t4", ThreatSeverity::High, ThreatCategory::XSS, 850), "i4".to_string(), 3_600_200),
        Ingested::Created(2)
    );
    assert_eq!(engine.mark_false_positive("nope", "x".to_string(), 1), Err(IncidentError::NotFound));
}

#[test]
fn alerts_go_out_by_severity() {
    let mut config = alert_config();
    config.email_enabled = true;
    config.webhook_enabled = true;
    config.pagerduty_enabled = true;
    assert!(!should_send_alert(&config, &AlertChannel::Email, IncidentSeverity::Low));
    assert!(should_send_alert(&config, &AlertChannel::Email, IncidentSeverity::Medium));
    assert!(!should_send_alert(&config, &AlertChannel::Webhook, IncidentSeverity::Medium));
    assert!(should_send_alert(&config, &AlertChannel::Webhook, IncidentSeverity::High));
    assert!(!should_send_alert(&config, &AlertChannel::PagerDuty, IncidentSeverity::High));
    assert!(should_send_alert(&config, &AlertChannel::PagerDuty, IncidentSeverity::Critical));
    assert!(!should_send_alert(&config, &AlertChannel::Slack, IncidentSeverity::Emergency));
    assert!(!should_send_alert(&config, &AlertChannel::Grafana, IncidentSeverity::Emergency));
    let engine = IncidentResponseEngine::new(config, soar_config());
    assert!(engine.alerts_on(&AlertChannel::Email, IncidentSeverity::Emergency));
    assert!(!engine.alerts_on(&AlertChannel::Teams, IncidentSeverity::Emergency));
}

#[test]
fn default_rule_logs_high_incidents() {
    let mut engine = IncidentResponseEngine::new(alert_config(), soar_config());
    engine.initialize_default_rules();
    engine.initialize_default_rules();
    assert_eq!(engine.rule_count(), 1);
    engine.ingest_finding(threat("t1", ThreatSeverity::High, ThreatCategory::XSS, 850), "i1".to_string(), 100);
    assert_eq!(engine.evaluate_response_rules(0, 100), vec![log("High severity incident logged")]);
    engine.ingest_finding(threat("t2", ThreatSeverity::Low, ThreatCategory::DDoS, 850), "i2".to_string(), 100);
    assert_eq!(engine.evaluate_response_rules(1, 100).len(), 0);
}

#[test]
fn fresh_incidents_get_random_identifiers() {
    let mut engine = IncidentResponseEngine::new(alert_config(), soar_config());
    let a = engine.process_threat(threat("t1", ThreatSeverity::High, ThreatCategory::XSS, 850), 100);
    let b = engine.process_threat(threat("t2", ThreatSeverity::High, ThreatCategory::DDoS, 850), 100);
    let a = a.incident.unwrap();
    let b = b.incident.unwrap();
    assert_eq!(a.id.len(), 36);
    assert_ne!(a.id, b.id);
    assert_eq!(a.severity, IncidentSeverity::High);
    assert_eq!(a.status, IncidentStatus::Open);
}

#[test]
fn default_alert_configuration_names_its_channels() {
    let config = siem_rust_core::pipeline::default_alert_config();
    assert!(config.email_enabled && config.webhook_enabled && config.grafana_enabled && config.slack_enabled);
    assert!(!config.teams_enabled && !config.pagerduty_enabled);
    assert_eq!(config.email_smtp_server, "smtp.gmail.com");
    assert_eq!(config.email_smtp_port, 587);
    assert_eq!(config.email_to, vec!["admin@company.com".to_string(), "security@company.com".to_string()]);
    assert_eq!(config.webhook_urls.len(), 1);
    assert_eq!(config.grafana_url, "http://localhost:3000");
    assert_eq!(config.teams_webhook_url, "");
}

#[test]
fn default_playbook_configuration_is_switched_off() {
    let config = siem_rust_core::pipeline::default_soar_config();
    assert!(!config.enabled);
    assert_eq!(config.platform, "custom");
    assert_eq!(config.api_url, "http://localhost:8080/api");
    assert_eq!(config.timeout_seconds, 30);
    assert_eq!(config.retry_attempts, 3);
    assert!(config.custom_headers.is_empty());
}

#[test]
fn resolved_incidents_can_only_be_closed() {
    let mut engine = IncidentResponseEngine::new(alert_config(), soar_config());
    engine.ingest_finding(threat("t1", ThreatSeverity::High, ThreatCategory::XSS, 850), "i1".to_string(), 100);
    engine.update_incident_status("i1", IncidentStatus::Resolved, 200).unwrap();
    let resolved = engine.get_incident("i1").unwrap();
    assert_eq!(resolved.resolved_at, Some(200));
    assert!(resolved.is_valid());

    for back in [IncidentStatus::Open, IncidentStatus::Investigating, IncidentStatus::Contained, IncidentStatus::FalsePositive] {
        assert_eq!(engine.update_incident_status("i1", back, 300), Err(IncidentError::InvalidTransition));
    }
    assert_eq!(engine.assign_incident("i1", "ann".to_string(), 300), Err(IncidentError::Settled));
    assert_eq!(engine.get_incident("i1").unwrap(), resolved);

    // a note on a resolved incident touches the note and the time of the last update
    engine.add_incident_note("i1", "root cause found".to_string(), 400).unwrap();
    let noted = engine.get_incident("i1").unwrap();
    let mut expected = resolved.clone();
    expected.notes = vec!["root cause found".to_string()];
    expected.updated_at = 400;
    assert_eq!(noted, expected);

    // the one step that is left keeps the time of resolution
    engine.update_incident_status("i1", IncidentStatus::Closed, 500).unwrap();
    let closed = engine.get_incident("i1").unwrap();
    let mut expected = noted;
    expected.status = IncidentStatus::Closed;
    expected.updated_at = 500;
    assert_eq!(closed, expected);
    assert_eq!(closed.resolved_at, Some(200));

    // an incident that says it is resolved has to say when
    let mut loose = resolved;
    loose.id = "i2".to_string();
    loose.resolved_at = None;
    assert!(!loose.is_valid());
    assert!(engine.store_incident(loose).is_err());
}
