use siem_rust_core::anomaly::MLAnomalyEngine;
use siem_rust_core::correlation::CorrelationCondition;
use siem_rust_core::correlation::CorrelationEngine;
use siem_rust_core::correlation::CorrelationError;
use siem_rust_core::correlation::CorrelationEvent;
use siem_rust_core::correlation::CorrelationRule;
use siem_rust_core::correlation::CorrelationStatus;
use siem_rust_core::ioc::Handled;
use siem_rust_core::ioc::IocError;
use siem_rust_core::ioc::IocKind;
use siem_rust_core::ioc::ThreatDetectionEngine;
use siem_rust_core::ioc::IOC;
use siem_rust_core::model::DetectorKind;
use siem_rust_core::model::RawEvent;
use siem_rust_core::model::SourceKind;
use siem_rust_core::model::ThreatCategory;
use siem_rust_core::model::ThreatSeverity;
use siem_rust_core::signature::MatcherKind;
use siem_rust_core::signature::SignatureError;
use siem_rust_core::signature::SignaturePattern;
use siem_rust_core::signature::YaraSignatureEngine;

fn event(id: &str, message: &str, source_ip: &str, user_id: &str) -> RawEvent {
    RawEvent {
        id: id.to_string(),
        timestamp: 1_640_995_200_000_000_000,
        source_kind: SourceKind::HostLog,
        source_id: "host-1".to_string(),
        source_ip: source_ip.to_string(),
        destination_ip: "10.0.0.9".to_string(),
        user_id: user_id.to_string(),
        action: "query".to_string(),
        message: message.to_string(),
        attributes: vec![],
    }
}

fn signature(id: &str, pattern: &str, matcher: MatcherKind, case_sensitive: bool) -> SignaturePattern {
    SignaturePattern {
        id: id.to_string(),
        name: format!("name of {}", id),
        pattern: pattern.to_string(),
        matcher,
        case_sensitive,
        attribute: None,
        category: ThreatCategory::SQLInjection,
        severity: ThreatSeverity::High,
        description: "Test signature".to_string(),
        enabled: true,
        confidence: 900,
        cooldown_ms: 0,
    }
}

#[test]
fn test_yara_signature_engine() {
    let mut engine = YaraSignatureEngine::new();

    let signature = SignaturePattern {
        id: "test_sql".to_string(),
        name: "Test SQL".to_string(),
        pattern: r"(?i)UNION\s+SELECT".to_string(),
        matcher: MatcherKind::Regex,
        case_sensitive: true,
        attribute: None,
        category: ThreatCategory::SQLInjection,
        severity: ThreatSeverity::High,
        description: "Test signature".to_string(),
        enabled: true,
        confidence: 900,
        cooldown_ms: 0,
    };

    engine.add_signature(signature).unwrap();

    let content = "This is a UNION SELECT attack";
    let matches = engine.match_signatures(content, 1);

    assert_eq!(matches.len(), 1);
    assert_eq!(matches[0].signature_id, "test_sql");
}

#[test]
fn signature_registration_reports_bad_patterns() {
    let mut engine = YaraSignatureEngine::new();
    assert_eq!(
        engine.add_signature(signature("broken", "foo(bar", MatcherKind::Regex, true)),
        Err(SignatureError::InvalidPattern)
    );
    let mut too_sure = signature("sure", "x", MatcherKind::Literal, true);
    too_sure.confidence = 1001;
    assert_eq!(engine.add_signature(too_sure), Err(SignatureError::InvalidConfidence));
    assert_eq!(engine.len(), 0);
    assert_eq!(engine.add_signature(signature("fine", "foo(bar", MatcherKind::Literal, true)), Ok(()));
    assert_eq!(engine.len(), 1);
}

#[test]
fn signatures_fire_in_registration_order() {
    let mut engine = YaraSignatureEngine::new();
    engine.add_signature(signature("zeta", "select", MatcherKind::Literal, false)).unwrap();
    engine.add_signature(signature("alpha", "UNION", MatcherKind::Literal, true)).unwrap();
    engine.add_signature(signature("other", "DROP", MatcherKind::Literal, true)).unwrap();
    let e = event("e1", "UNION SELECT * FROM users", "10.0.0.1", "u1");
    let findings = engine.scan(&e, 5);
    assert_eq!(findings.len(), 2);
    assert_eq!(findings[0].matched_rule_ids, vec!["zeta".to_string()]);
    assert_eq!(findings[1].matched_rule_ids, vec!["alpha".to_string()]);
    assert_eq!(findings[0].finding_id, "e1/sig/zeta");
    assert_eq!(findings[0].source_event_ids, vec!["e1".to_string()]);
    assert_eq!(findings[0].detector_kind, DetectorKind::Signature);
    assert_eq!(findings[0].confidence, 900);
    assert_eq!(findings[0].produced_at, 5);
    assert!(findings[0].is_valid());
}

#[test]
fn replaced_signature_keeps_its_place() {
    let mut engine = YaraSignatureEngine::new();
    engine.add_signature(signature("a", "one", MatcherKind::Literal, true)).unwrap();
    engine.add_signature(signature("b", "two", MatcherKind::Literal, true)).unwrap();
    engine.add_signature(signature("a", "three", MatcherKind::Literal, true)).unwrap();
    assert_eq!(engine.len(), 2);
    assert_eq!(engine.signature_at(0).pattern, "three");
    assert_eq!(engine.signature_at(1).id, "b");
    assert!(engine.remove_signature("a"));
    assert!(!engine.remove_signature("a"));
    assert_eq!(engine.len(), 1);
}

#[test]
fn case_sensitivity_is_per_pattern() {
    let mut engine = YaraSignatureEngine::new();
    engine.add_signature(signature("exact", "union", MatcherKind::Literal, true)).unwrap();
    engine.add_signature(signature("loose", "union", MatcherKind::Literal, false)).unwrap();
    engine.add_signature(signature("rx_exact", "uni.n", MatcherKind::Regex, true)).unwrap();
    engine.add_signature(signature("rx_loose", "uni.n", MatcherKind::Regex, false)).unwrap();
    let findings = engine.scan(&event("e1", "UNION SELECT", "10.0.0.1", "u1"), 0);
    let ids: Vec<String> = findings.iter().map(|f| f.matched_rule_ids[0].clone()).collect();
    assert_eq!(ids, vec!["loose".to_string(), "rx_loose".to_string()]);
}

#[test]
fn empty_message_meets_attribute_patterns_only() {
    let mut engine = YaraSignatureEngine::new();
    engine.add_signature(signature("any", ".*", MatcherKind::Regex, true)).unwrap();
    let mut on_agent = signature("agent", "curl", MatcherKind::Literal, true);
    on_agent.attribute = Some("user_agent".to_string());
    engine.add_signature(on_agent).unwrap();
    let mut e = event("e1", "", "10.0.0.1", "u1");
    e.attributes.push(("user_agent".to_string(), "curl/8".to_string()));
    let findings = engine.scan(&e, 0);
    assert_eq!(findings.len(), 1);
    assert_eq!(findings[0].matched_rule_ids, vec!["agent".to_string()]);
}

#[test]
fn cooldown_suppresses_and_counts() {
    let mut engine = YaraSignatureEngine::new();
    let mut s = signature("sql", "UNION", MatcherKind::Literal, true);
    s.cooldown_ms = 1000;
    engine.add_signature(s).unwrap();
    let e = event("e1", "UNION SELECT", "10.0.0.1", "u1");
    assert_eq!(engine.scan(&e, 10_000).len(), 1);
    assert_eq!(engine.scan(&e, 10_999).len(), 0);
    assert_eq!(engine.suppressed_count(), 1);
    // another user is not held back by the cooldown of the first
    assert_eq!(engine.scan(&event("e2", "UNION SELECT", "10.0.0.1", "u2"), 10_999).len(), 1);
    // the cooldown has run out
    assert_eq!(engine.scan(&e, 11_000).len(), 1);
    assert_eq!(engine.suppressed_count(), 1);
}

#[test]
fn disabled_patterns_are_skipped() {
    let mut engine = YaraSignatureEngine::new();
    let mut s = signature("sql", "UNION", MatcherKind::Literal, true);
    s.enabled = false;
    engine.add_signature(s).unwrap();
    assert_eq!(engine.scan(&event("e1", "UNION", "10.0.0.1", "u1"), 0).len(), 0);
    assert_eq!(engine.match_signatures("UNION", 0).len(), 0);
}

#[test]
fn match_counts_grow_with_matches() {
    let mut engine = YaraSignatureEngine::new();
    engine.add_signature(signature("sql", "UNION", MatcherKind::Literal, true)).unwrap();
    assert_eq!(engine.match_count("sql"), 0);
    engine.match_signatures("UNION", 0);
    engine.match_signatures("nothing", 0);
    engine.match_signatures("a UNION b", 0);
    assert_eq!(engine.match_count("sql"), 2);
    assert_eq!(engine.match_count("other"), 0);
}

fn hash_ioc(id: &str, value: &str, kind: IocKind) -> IOC {
    IOC {
        id: id.to_string(),
        value: value.to_string(),
        ioc_type: kind,
        confidence: 950,
        source: "test".to_string(),
        first_seen: 1,
        last_seen: 2,
        tags: vec!["test".to_string()],
    }
}

#[test]
fn indicators_look_at_their_own_fields() {
    let mut engine = ThreatDetectionEngine::new(0);
    engine.add_ioc(hash_ioc("ip", "10.0.0.9", IocKind::Ip)).unwrap();
    engine.add_ioc(hash_ioc("hash", "abc123", IocKind::Hash)).unwrap();
    engine.add_ioc(hash_ioc("domain", "evil.example", IocKind::Domain)).unwrap();
    engine.add_ioc(hash_ioc("rx", "ev[il]+\\.org", IocKind::Regex)).unwrap();
    assert_eq!(engine.ioc_count(), 4);

    // the address 10.0.0.9 in the message alone is no match for an address indicator,
    // but the event's destination address is
    let e = event("e1", "abc123 visits evil.example and evil.org", "10.0.0.1", "u1");
    let findings = engine.ioc_detection(&e, 7);
    let ids: Vec<String> = findings.iter().map(|f| f.matched_rule_ids[0].clone()).collect();
    assert_eq!(ids, vec!["ip".to_string(), "domain".to_string(), "rx".to_string()]);
    assert_eq!(findings[0].severity, ThreatSeverity::High);
    assert_eq!(findings[0].category, ThreatCategory::Malware);
    assert_eq!(findings[0].description, "IOC detected: 10.0.0.9");
    assert_eq!(findings[0].finding_id, "e1/ioc/ip");
    assert_eq!(findings[0].detector_kind, DetectorKind::Ioc);

    let mut with_hash = event("e2", "nothing", "10.0.0.1", "u1");
    with_hash.destination_ip = "10.0.0.2".to_string();
    with_hash.attributes.push(("sha256".to_string(), "abc123".to_string()));
    let findings = engine.ioc_detection(&with_hash, 7);
    assert_eq!(findings.len(), 1);
    assert_eq!(findings[0].matched_rule_ids, vec!["hash".to_string()]);
}

#[test]
fn indicator_registration_reports_errors() {
    let mut engine = ThreatDetectionEngine::new(0);
    assert_eq!(engine.add_ioc(hash_ioc("rx", "(", IocKind::Regex)), Err(IocError::InvalidPattern));
    let mut sure = hash_ioc("h", "x", IocKind::Hash);
    sure.confidence = 2000;
    assert_eq!(engine.add_ioc(sure), Err(IocError::InvalidConfidence));
    assert_eq!(engine.ioc_count(), 0);
    engine.initialize_default_patterns(5);
    assert_eq!(engine.ioc_count(), 1);
}

#[test]
fn handled_threats_are_counted_unless_passed_over() {
    let mut signatures = YaraSignatureEngine::new();
    signatures.add_signature(signature("sql", "UNION", MatcherKind::Literal, true)).unwrap();
    let mut engine = ThreatDetectionEngine::new(0);
    let finding = signatures.scan(&event("e1", "UNION", "10.0.0.1", "u1"), 3).remove(0);

    assert_eq!(engine.handle_threat(&finding, 10), Handled::Accepted);
    let stats = engine.get_stats();
    assert_eq!(stats.total_threats, 1);
    assert_eq!(stats.high, 1);
    assert_eq!(stats.low, 0);
    assert_eq!(stats.last_updated, 10);

    engine.mark_false_positive(finding.finding_id.clone(), 11);
    assert_eq!(engine.get_stats().false_positives, 1);
    assert_eq!(engine.handle_threat(&finding, 12), Handled::FalsePositive);

    engine.add_to_whitelist("u1".to_string());
    assert_eq!(engine.handle_threat(&finding, 13), Handled::Whitelisted);
    engine.remove_from_whitelist("u1");
    assert!(!engine.is_whitelisted("10.0.0.1", "u1"));
    assert_eq!(engine.get_stats().total_threats, 1);
}

fn login_event(id: &str, timestamp: u64, event_type: &str) -> CorrelationEvent {
    CorrelationEvent {
        id: id.to_string(),
        timestamp,
        event_type: event_type.to_string(),
        source: "10.0.0.2".to_string(),
        target: "10.0.0.9".to_string(),
        user_id: "u2".to_string(),
        severity: ThreatSeverity::Low,
        confidence: 500,
        metadata: vec![],
    }
}

fn counting_rule(id: &str, event_type: &str, min_count: u32, window: u64, cooldown: u64) -> CorrelationRule {
    CorrelationRule {
        id: id.to_string(),
        name: format!("rule {}", id),
        description: "test".to_string(),
        conditions: vec![CorrelationCondition {
            event_type: event_type.to_string(),
            source_pattern: None,
            target_pattern: None,
            min_count,
            max_count: None,
        }],
        time_window: window,
        severity: ThreatSeverity::High,
        enabled: true,
        ordered: false,
        priority: 0,
        cooldown_ms: cooldown,
        category: None,
    }
}

#[test]
fn correlation_fires_at_the_kth_event() {
    let mut engine = CorrelationEngine::new();
    engine.add_correlation_rule(counting_rule("bf", "login_failed", 3, 1000, 0)).unwrap();
    assert_eq!(engine.process_event(login_event("a", 100, "login_failed")).len(), 0);
    assert_eq!(engine.process_event(login_event("x", 150, "login_ok")).len(), 0);
    assert_eq!(engine.process_event(login_event("b", 200, "login_failed")).len(), 0);
    assert_eq!(engine.state_at(0).status, CorrelationStatus::Active);
    let findings = engine.process_event(login_event("c", 300, "login_failed"));
    assert_eq!(findings.len(), 1);
    assert_eq!(
        findings[0].source_event_ids,
        vec!["a".to_string(), "b".to_string(), "c".to_string()]
    );
    assert_eq!(findings[0].detector_kind, DetectorKind::Correlation);
    assert_eq!(findings[0].category, ThreatCategory::APT);
    assert_eq!(findings[0].severity, ThreatSeverity::High);
    assert_eq!(findings[0].confidence, 900);
    assert_eq!(findings[0].finding_id, "c/corr/bf");
    assert_eq!(findings[0].description, "Multi-step attack detected: rule bf");
    assert!(findings[0].is_valid());
    assert_eq!(engine.state_at(0).status, CorrelationStatus::Triggered);
    assert_eq!(engine.state_at(0).last_fired, Some(300));
    assert_eq!(engine.state_at(0).candidates, 3);
}

#[test]
fn correlation_window_slides() {
    let mut engine = CorrelationEngine::new();
    engine.add_correlation_rule(counting_rule("bf", "login_failed", 3, 1000, 0)).unwrap();
    assert_eq!(engine.process_event(login_event("a", 100, "login_failed")).len(), 0);
    assert_eq!(engine.process_event(login_event("b", 200, "login_failed")).len(), 0);
    // the first event has left the window when the third arrives
    assert_eq!(engine.process_event(login_event("c", 1101, "login_failed")).len(), 0);
    let findings = engine.process_event(login_event("d", 1200, "login_failed"));
    assert_eq!(findings.len(), 1);
    assert_eq!(
        findings[0].source_event_ids,
        vec!["b".to_string(), "c".to_string(), "d".to_string()]
    );
}

#[test]
fn correlation_rests_after_firing() {
    let mut engine = CorrelationEngine::new();
    engine.add_correlation_rule(counting_rule("bf", "login_failed", 2, 1000, 500)).unwrap();
    assert_eq!(engine.process_event(login_event("a", 100, "login_failed")).len(), 0);
    assert_eq!(engine.process_event(login_event("b", 200, "login_failed")).len(), 1);
    assert_eq!(engine.process_event(login_event("c", 300, "login_failed")).len(), 0);
    assert_eq!(engine.process_event(login_event("d", 699, "login_failed")).len(), 0);
    assert_eq!(engine.process_event(login_event("e", 700, "login_failed")).len(), 1);
}

#[test]
fn correlation_rules_are_validated_and_ordered() {
    let mut engine = CorrelationEngine::new();
    assert_eq!(
        engine.add_correlation_rule(counting_rule("one", "x", 1, 1000, 0)),
        Err(CorrelationError::InvalidRule)
    );
    let mut upside_down = counting_rule("max", "x", 3, 1000, 0);
    upside_down.conditions[0].max_count = Some(2);
    assert_eq!(engine.add_correlation_rule(upside_down), Err(CorrelationError::InvalidRule));
    let mut none = counting_rule("none", "x", 3, 1000, 0);
    none.conditions.clear();
    assert_eq!(engine.add_correlation_rule(none), Err(CorrelationError::InvalidRule));
    assert_eq!(engine.rule_count(), 0);

    let mut low = counting_rule("b-low", "x", 2, 1000, 0);
    low.priority = 1;
    let mut high = counting_rule("z-high", "x", 2, 1000, 0);
    high.priority = 9;
    let mut low_first = counting_rule("a-low", "x", 2, 1000, 0);
    low_first.priority = 1;
    engine.add_correlation_rule(low).unwrap();
    engine.add_correlation_rule(high).unwrap();
    engine.add_correlation_rule(low_first).unwrap();
    engine.process_event(login_event("a", 1, "x"));
    let findings = engine.process_event(login_event("b", 2, "x"));
    let ids: Vec<String> = findings.iter().map(|f| f.matched_rule_ids[0].clone()).collect();
    assert_eq!(ids, vec!["z-high".to_string(), "a-low".to_string(), "b-low".to_string()]);
}

#[test]
fn correlation_honours_maximum_and_order() {
    let mut engine = CorrelationEngine::new();
    let mut capped = counting_rule("capped", "x", 2, 1000, 0);
    capped.conditions[0].max_count = Some(2);
    engine.add_correlation_rule(capped).unwrap();
    engine.process_event(login_event("a", 1, "x"));
    assert_eq!(engine.process_event(login_event("b", 2, "x")).len(), 1);
    assert_eq!(engine.process_event(login_event("c", 3, "x")).len(), 0);

    let mut ordered = CorrelationEngine::new();
    let mut rule = counting_rule("steps", "scan", 2, 1000, 0);
    rule.ordered = true;
    rule.conditions.push(CorrelationCondition {
        event_type: "login".to_string(),
        source_pattern: Some("10.0".to_string()),
        target_pattern: None,
        min_count: 1,
        max_count: None,
    });
    ordered.add_correlation_rule(rule).unwrap();
    // the login comes with an earlier time than the first scan: out of order
    assert_eq!(ordered.process_event(login_event("s1", 50, "scan")).len(), 0);
    assert_eq!(ordered.process_event(login_event("l1", 40, "login")).len(), 0);
    assert_eq!(ordered.process_event(login_event("s2", 60, "scan")).len(), 0);
}

#[test]
fn correlation_buffer_is_bounded() {
    let mut engine = CorrelationEngine::with_buffer_size(2);
    engine.add_correlation_rule(counting_rule("bf", "x", 3, 1000, 0)).unwrap();
    engine.process_event(login_event("a", 1, "x"));
    engine.process_event(login_event("b", 2, "x"));
    // the buffer holds two events: the third pushes the first out
    assert_eq!(engine.process_event(login_event("c", 3, "x")).len(), 0);
    assert_eq!(engine.buffered(), 2);
    engine.cleanup_expired_correlations(3_600_003);
    assert_eq!(engine.buffered(), 1);
}

#[test]
fn test_new_engine() {
    let engine = MLAnomalyEngine::new(5, 2000, 100);
    assert_eq!(engine.params().min_samples, 5);
    assert_eq!(engine.params().z_threshold, 2000);
    assert_eq!(engine.params().ewma_alpha, 100);
}

#[test]
fn test_update_and_score() {
    let mut engine = MLAnomalyEngine::new(1, 2000, 200);
    engine.update_stats("cpu", 80_000);
    let result = engine.score("cpu", 90_000).unwrap();
    assert!(result.details.iter().any(|(k, _)| k == "z_score"));
    // one sample of 80: mean 80, deviation at its floor of 0.01, so a Z-score of 1000
    assert_eq!(result.score, 1_000_000);
    assert!(result.is_anomaly);
    assert_eq!(result.confidence, 1000);
}

#[test]
fn test_batch_score() {
    let engine = MLAnomalyEngine::new(1, 2000, 200);
    let features = vec![("cpu".to_string(), 85_000), ("mem".to_string(), 92_000)];
    let results = engine.batch_score(&features);
    assert_eq!(results.len(), 2);
    assert_eq!(results[0].as_ref().unwrap().score, 0);
    assert_eq!(results[1].as_ref().unwrap().score, 0);
}

#[test]
fn anomaly_needs_warm_up() {
    let mut engine = MLAnomalyEngine::new(10, 2000, 100);
    for _ in 0..8 {
        let r = engine.observe("bytes", 50_000).unwrap();
        assert!(!r.is_anomaly);
    }
    // the ninth observation is far off, but the warm-up is not over
    let r = engine.observe("bytes", 500_000).unwrap();
    assert!(!r.is_anomaly);
    assert_eq!(r.score, 45_000_000);
}

#[test]
fn anomaly_scores_before_it_learns() {
    let mut engine = MLAnomalyEngine::new(1, 2000, 500);
    assert!(engine.observe("x", 10_000).unwrap().score == 0);
    assert!(engine.observe("x", 20_000).is_some());
    // mean (10 + 20) / 2 = 15, squared deviations 50, variance 25, deviation 5
    // moving average 15
    let r = engine.score("x", 25_000).unwrap();
    assert_eq!(r.details[2], ("mean".to_string(), "15000".to_string()));
    assert_eq!(r.details[3], ("stddev".to_string(), "5000".to_string()));
    assert_eq!(r.details[4], ("ewma".to_string(), "15000".to_string()));
    assert_eq!(r.details[0], ("z_score".to_string(), "2000".to_string()));
    assert_eq!(r.details[1], ("ewma_dev".to_string(), "10000".to_string()));
    assert_eq!(r.score, 10_000);
    // the distance from the moving average, 10, is not above 2.0 * 5
    assert!(!r.is_anomaly);
    assert_eq!(r.confidence, 1000);
    let r = engine.score("x", 25_001).unwrap();
    assert!(r.is_anomaly);
    assert_eq!(engine.profile_count(), 1);
}

#[test]
fn anomaly_rejects_values_out_of_range() {
    let mut engine = MLAnomalyEngine::new(1, 2000, 100);
    assert!(engine.observe("x", 1_000_000_000_001).is_none());
    assert!(engine.score("x", -1_000_000_000_001).is_none());
    assert!(!engine.update_stats("x", i64::MIN));
    assert_eq!(engine.profile_count(), 0);
    assert!(engine.observe("x", -1_000_000_000_000).is_some());
    let r = engine.score("x", 1_000_000_000_000).unwrap();
    assert_eq!(r.details[2].1, "-1000000000000");
    assert_eq!(MLAnomalyEngine::new(1, 1, 5000).params().ewma_alpha, 1000);
}

#[test]
fn statistical_engine_answers_as_a_scorer() {
    let mut engine = MLAnomalyEngine::new(1, 2000, 200);
    engine.update_stats("cpu", 80_000);
    let direct = engine.score("cpu", 90_000).unwrap();
    let through = siem_rust_core::anomaly::AnomalyScorer::score_observation(&engine, "cpu", 90_000).unwrap();
    assert_eq!(direct, through);
    assert!(through.is_anomaly);
    assert_eq!(through.score, 1_000_000);
    // beyond the limit of an observation no verdict is given
    assert!(siem_rust_core::anomaly::AnomalyScorer::score_observation(&engine, "cpu", i64::MAX).is_none());
}
