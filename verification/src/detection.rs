//! The detectors of a worker, run on every event in a fixed order:
//! whitelist, signatures, indicators, anomalies, correlation. What they
//! find is handed on in that order, without the findings whose confidence
//! lies under the threshold for false positives.

use vstd::prelude::*;
use crate::anomaly::AnomalyEngineView;
use crate::behavior::analysis;
use crate::behavior::behavioral_finding;
use crate::behavior::BehavioralAnalysisEngine;
use crate::behavior::BehaviorView;
use crate::behavior::create_behavioral_threat;
use crate::anomaly::in_range;
use crate::anomaly::limited;
use crate::anomaly::MLAnomalyEngine;
use crate::anomaly::MLAnomalyResult;
use crate::anomaly::MLAnomalyResultView;
use crate::anomaly::profile_for;
use crate::anomaly::verdict;
use crate::correlation::CorrelationCondition;
use crate::correlation::CorrelationConditionView;
use crate::correlation::CorrelationError;
use crate::correlation::CorrelationRuleView;
use crate::correlation::CorrelationRule;
use crate::correlation::rule_added;
use crate::correlation::correlated;
use crate::correlation::correlation_output;
use crate::correlation::CorrelationEngine;
use crate::correlation::CorrelationEngineView;
use crate::correlation::DEFAULT_BUFFER_SIZE;
use crate::correlation::CorrelationEvent;
use crate::correlation::CorrelationEventView;
use crate::ioc::ioc_findings;
use crate::ioc::IOC;
use crate::ioc::IocError;
use crate::ioc::with_ioc;
use crate::dispatcher::without_text;
use crate::ioc::ThreatDetectionEngine;
use crate::ioc::DetectionStats;
use crate::ioc::ThreatEngineView;
use crate::lifecycle::has_text;
use crate::model::DetectorKind;
use crate::model::RawEvent;
use crate::model::RawEventView;
use crate::model::ThreatCategory;
use crate::model::ThreatFinding;
use crate::model::ThreatFindingView;
use crate::model::ThreatSeverity;
use crate::signature::MatcherKind;
use crate::signature::registered;
use crate::signature::registrable;
use crate::signature::scan_findings;
use crate::signature::scan_state;
use crate::signature::scanned;
use crate::signature::SignatureEngineView;
use crate::signature::SignatureError;
use crate::signature::SignaturePattern;
use crate::signature::SignaturePatternView;
use crate::signature::YaraSignatureEngine;
use crate::text::parse_milli;
use crate::text::text_milli;

verus! {

/// What the detectors are set up with.
#[derive(Clone, Copy, Debug, PartialEq, Eq, Structural)]
pub struct AdvancedThreatConfig {
    pub signature_enabled: bool,
    pub behavioral_enabled: bool,
    pub anomaly_enabled: bool,
    pub correlation_enabled: bool,
    pub gpu_acceleration: bool,
    /// Findings of a confidence below this, in thousandths, are dropped.
    pub false_positive_threshold: u16,
    pub correlation_window_seconds: u64,
    /// The threshold of the Z-score, in thousandths.
    pub anomaly_sensitivity: u32,
    pub max_events_per_second: u32,
    pub whitelist_enabled: bool,
}

/// The configuration that an engine begins with.
pub open spec fn default_config() -> AdvancedThreatConfig {
    AdvancedThreatConfig {
        signature_enabled: true,
        behavioral_enabled: true,
        anomaly_enabled: true,
        correlation_enabled: true,
        gpu_acceleration: true,
        false_positive_threshold: 700,
        correlation_window_seconds: 300,
        anomaly_sensitivity: 2000,
        max_events_per_second: 1_000_000,
        whitelist_enabled: true,
    }
}

impl Default for AdvancedThreatConfig {
    fn default() -> (r: Self)
        ensures
            r == default_config(),
    {
        AdvancedThreatConfig {
            signature_enabled: true,
            behavioral_enabled: true,
            anomaly_enabled: true,
            correlation_enabled: true,
            gpu_acceleration: true,
            false_positive_threshold: 700,
            correlation_window_seconds: 300,
            anomaly_sensitivity: 2000,
            max_events_per_second: 1_000_000,
            whitelist_enabled: true,
        }
    }
}

/// A feature that the anomaly engine watches: its name, and the attribute
/// of an event that carries its value as a decimal.
#[derive(Debug, PartialEq, Eq)]
pub struct FeatureSpec {
    pub name: String,
    pub attribute: String,
}

/// What a `FeatureSpec` holds, as mathematical values.
pub struct FeatureSpecView {
    pub name: Seq<char>,
    pub attribute: Seq<char>,
}

impl DeepView for FeatureSpec {
    type V = FeatureSpecView;

    open spec fn deep_view(&self) -> FeatureSpecView {
        FeatureSpecView { name: self.name@, attribute: self.attribute@ }
    }
}

impl View for FeatureSpec {
    type V = FeatureSpecView;

    open spec fn view(&self) -> FeatureSpecView {
        self.deep_view()
    }
}

/// The four signatures that an engine can begin with.
pub open spec fn default_signatures() -> Seq<SignaturePatternView> {
    seq![
        SignaturePatternView {
            id: "sql_injection_1"@,
            name: "SQL Injection Detection"@,
            pattern: "(?i)(SELECT|INSERT|UPDATE|DELETE|DROP|CREATE|ALTER|EXEC|UNION|OR|AND).*FROM"@,
            matcher: MatcherKind::Regex,
            case_sensitive: true,
            attribute: None,
            category: ThreatCategory::SQLInjection,
            severity: ThreatSeverity::High,
            description: "Detects SQL injection attempts"@,
            enabled: true,
            confidence: 900,
            cooldown_ms: 0,
        },
        SignaturePatternView {
            id: "xss_1"@,
            name: "XSS Detection"@,
            pattern: "(?i)(<script|javascript:|onload=|onerror=|onclick=)"@,
            matcher: MatcherKind::Regex,
            case_sensitive: true,
            attribute: None,
            category: ThreatCategory::XSS,
            severity: ThreatSeverity::High,
            description: "Detects XSS attempts"@,
            enabled: true,
            confidence: 800,
            cooldown_ms: 0,
        },
        SignaturePatternView {
            id: "brute_force_1"@,
            name: "Brute Force Detection"@,
            pattern: "(?i)(failed login|authentication failure|invalid password)"@,
            matcher: MatcherKind::Regex,
            case_sensitive: true,
            attribute: None,
            category: ThreatCategory::BruteForce,
            severity: ThreatSeverity::Medium,
            description: "Detects brute force attacks"@,
            enabled: true,
            confidence: 700,
            cooldown_ms: 0,
        },
        SignaturePatternView {
            id: "malware_1"@,
            name: "Malware Detection"@,
            pattern: "(?i)(virus|malware|trojan|worm|spyware|ransomware)"@,
            matcher: MatcherKind::Regex,
            case_sensitive: true,
            attribute: None,
            category: ThreatCategory::Malware,
            severity: ThreatSeverity::High,
            description: "Detects malware-related activities"@,
            enabled: true,
            confidence: 900,
            cooldown_ms: 0,
        },
    ]
}

/// A regular expression on the message, case as written, without cooldown.
fn message_signature(
    id: &str,
    name: &str,
    pattern: &str,
    category: ThreatCategory,
    severity: ThreatSeverity,
    description: &str,
    confidence: u16,
) -> (r: SignaturePattern)
    ensures
        r@ == (SignaturePatternView {
            id: id@,
            name: name@,
            pattern: pattern@,
            matcher: MatcherKind::Regex,
            case_sensitive: true,
            attribute: None,
            category,
            severity,
            description: description@,
            enabled: true,
            confidence,
            cooldown_ms: 0,
        }),
{
    SignaturePattern {
        id: String::from_str(id),
        name: String::from_str(name),
        pattern: String::from_str(pattern),
        matcher: MatcherKind::Regex,
        case_sensitive: true,
        attribute: None,
        category,
        severity,
        description: String::from_str(description),
        enabled: true,
        confidence,
        cooldown_ms: 0,
    }
}

/// Builds the four signatures that an engine can begin with.
pub fn make_default_signatures() -> (r: Vec<SignaturePattern>)
    ensures
        r.deep_view() == default_signatures(),
{
    let mut signatures: Vec<SignaturePattern> = Vec::new();
    signatures.push(
        message_signature(
            "sql_injection_1",
            "SQL Injection Detection",
            "(?i)(SELECT|INSERT|UPDATE|DELETE|DROP|CREATE|ALTER|EXEC|UNION|OR|AND).*FROM",
            ThreatCategory::SQLInjection,
            ThreatSeverity::High,
            "Detects SQL injection attempts",
            900,
        ),
    );
    signatures.push(
        message_signature(
            "xss_1",
            "XSS Detection",
            "(?i)(<script|javascript:|onload=|onerror=|onclick=)",
            ThreatCategory::XSS,
            ThreatSeverity::High,
            "Detects XSS attempts",
            800,
        ),
    );
    signatures.push(
        message_signature(
            "brute_force_1",
            "Brute Force Detection",
            "(?i)(failed login|authentication failure|invalid password)",
            ThreatCategory::BruteForce,
            ThreatSeverity::Medium,
            "Detects brute force attacks",
            700,
        ),
    );
    signatures.push(
        message_signature(
            "malware_1",
            "Malware Detection",
            "(?i)(virus|malware|trojan|worm|spyware|ransomware)",
            ThreatCategory::Malware,
            ThreatSeverity::High,
            "Detects malware-related activities",
            900,
        ),
    );
    proof {
        assert(signatures.deep_view() =~= default_signatures());
    }
    signatures
}

/// Whether the first `n` signatures of a list can be registered.
pub open spec fn all_registrable(list: Seq<SignaturePatternView>, n: int) -> bool {
    forall|j: int| 0 <= j < n ==> registrable(#[trigger] list[j])
}

/// How many signatures at the head of a list can be registered one after
/// the other, among its first `n`.
pub open spec fn registrable_prefix(list: Seq<SignaturePatternView>, n: int) -> int
    decreases n,
{
    if n <= 0 {
        0
    } else {
        let k = registrable_prefix(list, n - 1);
        if k == n - 1 && registrable(list[n - 1]) {
            n
        } else {
            k
        }
    }
}

proof fn lemma_registrable_prefix(list: Seq<SignaturePatternView>, k: int, n: int)
    requires
        0 <= k <= n,
        all_registrable(list, k),
        k == n || !registrable(list[k]),
    ensures
        registrable_prefix(list, n) == k,
    decreases n,
{
    if n > 0 {
        if k == n {
            lemma_registrable_prefix(list, k - 1, n - 1);
            assert(registrable(list[n - 1]));
        } else {
            lemma_registrable_prefix(list, k, n - 1);
        }
    }
}

/// The patterns after the first `n` signatures of a list were registered.
pub open spec fn registered_upto(patterns: Seq<SignaturePatternView>, list: Seq<SignaturePatternView>, n: int) -> Seq<
    SignaturePatternView,
>
    decreases n,
{
    if n <= 0 {
        patterns
    } else {
        registered(registered_upto(patterns, list, n - 1), list[n - 1])
    }
}

/// The event as the correlation engine sees it. Its type is the value of
/// the attribute `event_type`, else that of the attribute `category`, else
/// `unknown`.
pub open spec fn correlation_event_of(e: RawEventView) -> CorrelationEventView {
    CorrelationEventView {
        id: e.id,
        timestamp: e.timestamp_ms(),
        event_type: match e.attribute("event_type"@) {
            Some(t) => t,
            None => match e.attribute("category"@) {
                Some(c) => c,
                None => "unknown"@,
            },
        },
        source: e.source_ip,
        target: e.destination_ip,
        user_id: e.user_id,
        severity: ThreatSeverity::Low,
        confidence: 500,
        metadata: Seq::empty(),
    }
}

/// Builds the event as the correlation engine sees it.
pub fn create_correlation_event(event: &RawEvent) -> (r: CorrelationEvent)
    ensures
        r@ == correlation_event_of(event@),
{
    let event_type = match event.attribute("event_type") {
        Some(t) => t.clone(),
        None => match event.attribute("category") {
            Some(c) => c.clone(),
            None => String::from_str("unknown"),
        },
    };
    let r = CorrelationEvent {
        id: event.id.clone(),
        timestamp: event.timestamp_ms(),
        event_type,
        source: event.source_ip.clone(),
        target: event.destination_ip.clone(),
        user_id: event.user_id.clone(),
        severity: ThreatSeverity::Low,
        confidence: 500,
        metadata: Vec::new(),
    };
    proof {
        assert(r@.metadata =~= Seq::empty());
    }
    r
}

/// The name under which the anomaly engine keeps a feature of a user: the
/// feature's name, a colon, and the user.
pub open spec fn feature_key(f: FeatureSpecView, e: RawEventView) -> Seq<char> {
    f.name + ":"@ + e.user_id
}

/// The value that an event carries for a feature: the decimal in the
/// feature's attribute, where the event has the attribute, the attribute
/// holds a decimal, and the decimal is in range.
pub open spec fn feature_value(f: FeatureSpecView, e: RawEventView) -> Option<i64> {
    match e.attribute(f.attribute) {
        None => None,
        Some(text) => match text_milli(text) {
            None => None,
            Some(v) => if in_range(v as i64) {
                Some(v as i64)
            } else {
                None
            },
        },
    }
}

/// The finding for an anomalous observation of a feature.
pub open spec fn anomaly_finding(f: FeatureSpecView, e: RawEventView, result: MLAnomalyResultView, now: u64) -> ThreatFindingView {
    ThreatFindingView {
        finding_id: e.id + "/anomaly/"@ + f.name,
        produced_at: now,
        detector_kind: DetectorKind::Anomaly,
        severity: ThreatSeverity::Medium,
        category: ThreatCategory::Other,
        confidence: result.confidence,
        source_ip: e.source_ip,
        destination_ip: e.destination_ip,
        user_id: e.user_id,
        source_event_ids: seq![e.id],
        matched_rule_ids: seq![f.name],
        description: "Anomaly detected in "@ + f.name,
        attributes: result.details,
    }
}

/// What the anomaly detector leaves behind.
pub struct AnomalyPass {
    pub engine: AnomalyEngineView,
    pub findings: Seq<ThreatFindingView>,
}

/// The anomaly detector on an event, feature by feature: each value that
/// the event carries is scored against the profile as it stood and joins
/// it afterwards; an anomalous value produces a finding.
pub open spec fn anomaly_pass(engine: AnomalyEngineView, features: Seq<FeatureSpecView>, e: RawEventView, now: u64) -> AnomalyPass
    decreases features.len(),
{
    if features.len() == 0 {
        AnomalyPass { engine, findings: Seq::empty() }
    } else {
        let before = anomaly_pass(engine, features.drop_last(), e, now);
        let f = features.last();
        match feature_value(f, e) {
            None => before,
            Some(x) => {
                let result = verdict(
                    profile_for(before.engine.profiles, feature_key(f, e)),
                    x,
                    before.engine.params,
                );
                AnomalyPass {
                    engine: before.engine.learned(feature_key(f, e), x),
                    findings: if result.is_anomaly {
                        before.findings.push(anomaly_finding(f, e, result, now))
                    } else {
                        before.findings
                    },
                }
            },
        }
    }
}

/// The findings of a list whose confidence reaches a threshold, in order.
pub open spec fn confident(findings: Seq<ThreatFindingView>, threshold: u16) -> Seq<ThreatFindingView>
    decreases findings.len(),
{
    if findings.len() == 0 {
        Seq::empty()
    } else {
        let rest = confident(findings.drop_last(), threshold);
        if findings.last().confidence >= threshold {
            rest.push(findings.last())
        } else {
            rest
        }
    }
}

/// The state of the detectors, as mathematical values.
pub struct DetectionView {
    pub config: AdvancedThreatConfig,
    pub signatures: SignatureEngineView,
    pub threats: ThreatEngineView,
    pub behavior: BehaviorView,
    pub anomaly: AnomalyEngineView,
    pub features: Seq<FeatureSpecView>,
    pub correlation: CorrelationEngineView,
    /// How many events the whitelist turned away.
    pub whitelisted: u64,
}

impl DetectionView {
    /// The detectors before anything was registered or seen.
    pub open spec fn fresh(config: AdvancedThreatConfig, now: u64) -> DetectionView {
        DetectionView {
            config,
            signatures: SignatureEngineView {
                patterns: Seq::empty(),
                cooldowns: Seq::empty(),
                match_counts: Map::empty(),
                suppressed: 0,
            },
            threats: ThreatEngineView {
                iocs: Seq::empty(),
                whitelist: Seq::empty(),
                false_positives: Seq::empty(),
                stats: DetectionStats {
                    total_threats: 0,
                    low: 0,
                    medium: 0,
                    high: 0,
                    critical: 0,
                    false_positives: 0,
                    last_updated: now,
                },
            },
            behavior: BehaviorView::blank(limited(100, 2000, 100)),
            anomaly: AnomalyEngineView {
                profiles: Seq::empty(),
                params: limited(10, config.anomaly_sensitivity, 100),
            },
            features: Seq::empty(),
            correlation: CorrelationEngineView {
                rules: Seq::empty(),
                states: Seq::empty(),
                events: Seq::empty(),
                buffer_size: DEFAULT_BUFFER_SIZE,
            },
            whitelisted: 0,
        }
    }
}

/// Whether the whitelist turns an event away.
pub open spec fn turned_away(s: DetectionView, e: RawEventView) -> bool {
    s.config.whitelist_enabled && (has_text(s.threats.whitelist, e.source_ip) || has_text(
        s.threats.whitelist,
        e.user_id,
    ))
}

/// What the behavioral analysis finds in an event: one finding where it
/// calls the behavior out of the ordinary.
pub open spec fn behavior_findings(s: BehaviorView, e: RawEventView, now: u64) -> Seq<ThreatFindingView> {
    match analysis(s, e, now).context {
        Some(c) => seq![behavioral_finding(c, e.id)],
        None => Seq::empty(),
    }
}

/// What the detectors find in an event that the whitelist lets through,
/// before the findings of low confidence are dropped: the findings of the
/// signatures, of the indicators, of the behavioral analysis, of the
/// anomaly engine and of the correlation engine, in this order.
pub open spec fn raw_findings(s: DetectionView, e: RawEventView, now: u64) -> Seq<ThreatFindingView> {
    (if s.config.signature_enabled {
        scan_findings(scan_state(s.signatures.patterns, s.signatures.cooldowns, e, now).fired, e, now)
    } else {
        Seq::empty()
    }) + ioc_findings(s.threats.iocs, e, now) + (if s.config.behavioral_enabled {
        behavior_findings(s.behavior, e, now)
    } else {
        Seq::empty()
    }) + (if s.config.anomaly_enabled {
        anomaly_pass(s.anomaly, s.features, e, now).findings
    } else {
        Seq::empty()
    }) + (if s.config.correlation_enabled {
        correlation_output(s.correlation, correlation_event_of(e))
    } else {
        Seq::empty()
    })
}

/// The findings that the detectors hand on for an event: none for an event
/// that the whitelist turns away, otherwise what they find, without the
/// findings whose confidence lies under the threshold for false positives.
pub open spec fn detect_findings(s: DetectionView, e: RawEventView, now: u64) -> Seq<ThreatFindingView> {
    if turned_away(s, e) {
        Seq::empty()
    } else {
        confident(raw_findings(s, e, now), s.config.false_positive_threshold)
    }
}

/// The detectors after an event: untouched but for a count where the
/// whitelist turned the event away; otherwise each detector that is
/// switched on has seen the event.
pub open spec fn detect_state(s: DetectionView, e: RawEventView, now: u64) -> DetectionView {
    if turned_away(s, e) {
        DetectionView {
            whitelisted: if s.whitelisted == u64::MAX {
                s.whitelisted
            } else {
                (s.whitelisted + 1) as u64
            },
            ..s
        }
    } else {
        DetectionView {
            signatures: if s.config.signature_enabled {
                scanned(s.signatures, e, now)
            } else {
                s.signatures
            },
            behavior: if s.config.behavioral_enabled {
                analysis(s.behavior, e, now).state
            } else {
                s.behavior
            },
            anomaly: if s.config.anomaly_enabled {
                anomaly_pass(s.anomaly, s.features, e, now).engine
            } else {
                s.anomaly
            },
            correlation: if s.config.correlation_enabled {
                correlated(s.correlation, correlation_event_of(e))
            } else {
                s.correlation
            },
            ..s
        }
    }
}

/// Builds the finding for an anomalous observation of a feature.
pub fn make_anomaly_finding(f: &FeatureSpec, e: &RawEvent, result: MLAnomalyResult, now: u64) -> (r:
    ThreatFinding)
    ensures
        r@ == anomaly_finding(f@, e@, result@, now),
{
    let mut finding_id = e.id.clone();
    finding_id.append("/anomaly/");
    finding_id.append(f.name.as_str());
    let mut description = String::from_str("Anomaly detected in ");
    description.append(f.name.as_str());
    let mut source_event_ids: Vec<String> = Vec::new();
    source_event_ids.push(e.id.clone());
    let mut matched_rule_ids: Vec<String> = Vec::new();
    matched_rule_ids.push(f.name.clone());
    let r = ThreatFinding {
        finding_id,
        produced_at: now,
        detector_kind: DetectorKind::Anomaly,
        severity: ThreatSeverity::Medium,
        category: ThreatCategory::Other,
        confidence: result.confidence,
        source_ip: e.source_ip.clone(),
        destination_ip: e.destination_ip.clone(),
        user_id: e.user_id.clone(),
        source_event_ids,
        matched_rule_ids,
        description,
        attributes: result.details,
    };
    proof {
        assert(r@.source_event_ids =~= seq![e@.id]);
        assert(r@.matched_rule_ids =~= seq![f@.name]);
    }
    r
}

/// The value that an event carries for a feature.
pub fn read_feature(f: &FeatureSpec, e: &RawEvent) -> (r: Option<i64>)
    ensures
        r == feature_value(f@, e@),
{
    match e.attribute(f.attribute.as_str()) {
        None => None,
        Some(text) => match parse_milli(text.as_str()) {
            None => None,
            Some(v) => if -1_000_000_000_000 <= v && v <= 1_000_000_000_000 {
                Some(v)
            } else {
                None
            },
        },
    }
}

/// The findings of a list whose confidence reaches a threshold, in order.
pub fn keep_confident(findings: &Vec<ThreatFinding>, threshold: u16) -> (r: Vec<ThreatFinding>)
    ensures
        r.deep_view() == confident(findings.deep_view(), threshold),
{
    let mut kept: Vec<ThreatFinding> = Vec::new();
    let mut i: usize = 0;
    proof {
        assert(findings.deep_view().subrange(0, 0) =~= Seq::<ThreatFindingView>::empty());
        assert(kept.deep_view() =~= Seq::<ThreatFindingView>::empty());
    }
    while i < findings.len()
        invariant
            i <= findings@.len(),
            kept.deep_view() == confident(findings.deep_view().subrange(0, i as int), threshold),
        decreases findings@.len() - i,
    {
        proof {
            assert(findings.deep_view().subrange(0, i as int + 1).drop_last()
                =~= findings.deep_view().subrange(0, i as int));
        }
        if findings[i].confidence >= threshold {
            let ghost before = kept.deep_view();
            kept.push(findings[i].clone());
            proof {
                assert(kept.deep_view() =~= before.push(findings.deep_view()[i as int]));
            }
        }
        i += 1;
    }
    proof {
        assert(findings.deep_view().subrange(0, findings@.len() as int) =~= findings.deep_view());
    }
    kept
}

/// Moves the findings of one list to the end of another.
pub fn append_findings(all: &mut Vec<ThreatFinding>, more: Vec<ThreatFinding>)
    ensures
        final(all).deep_view() == old(all).deep_view() + more.deep_view(),
{
    let ghost before = all.deep_view();
    let ghost added = more.deep_view();
    let mut more = more;
    all.append(&mut more);
    proof {
        assert(all.deep_view() =~= before + added);
    }
}

/// The detectors of a worker.
pub struct AdvancedThreatDetectionEngine {
    config: AdvancedThreatConfig,
    signature_engine: YaraSignatureEngine,
    threat_engine: ThreatDetectionEngine,
    behavioral_engine: BehavioralAnalysisEngine,
    anomaly_engine: MLAnomalyEngine,
    features: Vec<FeatureSpec>,
    correlation_engine: CorrelationEngine,
    whitelisted: u64,
}

impl View for AdvancedThreatDetectionEngine {
    type V = DetectionView;

    closed spec fn view(&self) -> DetectionView {
        DetectionView {
            config: self.config,
            signatures: self.signature_engine@,
            threats: self.threat_engine@,
            behavior: self.behavioral_engine@,
            anomaly: self.anomaly_engine@,
            features: self.features.deep_view(),
            correlation: self.correlation_engine@,
            whitelisted: self.whitelisted,
        }
    }
}

impl AdvancedThreatDetectionEngine {
    /// Every detector keeps its invariant.
    pub closed spec fn wf(&self) -> bool {
        &&& self.signature_engine.wf()
        &&& self.threat_engine.wf()
        &&& self.behavioral_engine@.anomaly.wf()
        &&& self.anomaly_engine@.wf()
        &&& self.correlation_engine@.wf()
    }

    /// Detectors without patterns, indicators, features and rules. The
    /// anomaly engine warms up over ten samples, takes its threshold from
    /// the configuration, and smooths by a tenth.
    pub fn new(config: AdvancedThreatConfig, now: u64) -> (r: Self)
        ensures
            r.wf(),
            r@ == DetectionView::fresh(config, now),
    {
        let r = AdvancedThreatDetectionEngine {
            config,
            signature_engine: YaraSignatureEngine::new(),
            threat_engine: ThreatDetectionEngine::new(now),
            behavioral_engine: BehavioralAnalysisEngine::new(),
            anomaly_engine: MLAnomalyEngine::new(10, config.anomaly_sensitivity, 100),
            features: Vec::new(),
            correlation_engine: CorrelationEngine::new(),
            whitelisted: 0,
        };
        proof {
            assert(r@.features =~= Seq::<FeatureSpecView>::empty());
        }
        r
    }

    /// Replaces the anomaly engine by an empty one that scores as told.
    pub fn set_anomaly_params(&mut self, min_samples: u64, z_threshold: u32, ewma_alpha: u16)
        requires
            old(self).wf(),
        ensures
            final(self).wf(),
            final(self)@ == (DetectionView {
                anomaly: AnomalyEngineView {
                    profiles: Seq::empty(),
                    params: limited(min_samples, z_threshold, ewma_alpha),
                },
                ..old(self)@
            }),
    {
        self.anomaly_engine = MLAnomalyEngine::new(min_samples, z_threshold, ewma_alpha);
    }

    /// Registers the default signatures, one after the other. Stops at the
    /// first that cannot be registered and hands its error on.
    pub fn initialize_default_signatures(&mut self) -> (r: Result<(), SignatureError>)
        requires
            old(self).wf(),
        ensures
            final(self).wf(),
            r is Ok <==> all_registrable(default_signatures(), 4),
            r is Ok ==> final(self)@ == (DetectionView {
                signatures: SignatureEngineView {
                    patterns: registered_upto(
                        old(self)@.signatures.patterns,
                        default_signatures(),
                        4,
                    ),
                    ..old(self)@.signatures
                },
                ..old(self)@
            }),
            r is Err ==> r->Err_0 == SignatureError::InvalidPattern && exists|k: int|
                0 <= k < 4 && all_registrable(default_signatures(), k) && !registrable(
                    #[trigger] default_signatures()[k],
                ) && final(self)@ == (DetectionView {
                    signatures: SignatureEngineView {
                        patterns: registered_upto(
                            old(self)@.signatures.patterns,
                            default_signatures(),
                            k,
                        ),
                        ..old(self)@.signatures
                    },
                    ..old(self)@
                }),
    {
        let signatures = make_default_signatures();
        let mut i: usize = 0;
        proof {
            assert(default_signatures().len() == 4);
            assert(signatures.deep_view().len() == signatures@.len());
        }
        while i < signatures.len()
            invariant
                i <= signatures@.len(),
                signatures.deep_view() == default_signatures(),
                signatures@.len() == 4,
                all_registrable(default_signatures(), i as int),
                self.wf(),
                self@ == (DetectionView {
                    signatures: SignatureEngineView {
                        patterns: registered_upto(
                            old(self)@.signatures.patterns,
                            default_signatures(),
                            i as int,
                        ),
                        ..old(self)@.signatures
                    },
                    ..old(self)@
                }),
            decreases signatures@.len() - i,
        {
            proof {
                assert(signatures.deep_view()[i as int] == signatures@[i as int]@);
            }
            match self.signature_engine.add_signature(signatures[i].clone()) {
                Ok(()) => {},
                Err(e) => {
                    proof {
                        assert(!registrable(default_signatures()[i as int]));
                    }
                    return Err(e);
                },
            }
            i += 1;
        }
        Ok(())
    }

    /// Registers a signature.
    pub fn add_signature(&mut self, signature: SignaturePattern) -> (r: Result<(), SignatureError>)
        requires
            old(self).wf(),
        ensures
            final(self).wf(),
            r is Ok <==> registrable(signature@),
            r is Ok ==> final(self)@ == (DetectionView {
                signatures: SignatureEngineView {
                    patterns: registered(old(self)@.signatures.patterns, signature@),
                    ..old(self)@.signatures
                },
                ..old(self)@
            }),
            r is Err ==> final(self)@ == old(self)@,
    {
        self.signature_engine.add_signature(signature)
    }

    /// Registers an indicator of compromise.
    pub fn add_ioc(&mut self, ioc: IOC) -> (r: Result<(), IocError>)
        requires
            old(self).wf(),
        ensures
            final(self).wf(),
            r is Ok <==> ioc@.registrable(),
            r is Ok ==> final(self)@ == (DetectionView {
                threats: ThreatEngineView {
                    iocs: with_ioc(old(self)@.threats.iocs, ioc@),
                    ..old(self)@.threats
                },
                ..old(self)@
            }),
            r is Err ==> final(self)@ == old(self)@,
    {
        self.threat_engine.add_ioc(ioc)
    }

    /// Registers a correlation rule.
    pub fn add_correlation_rule(&mut self, rule: CorrelationRule) -> (r: Result<(), CorrelationError>)
        requires
            old(self).wf(),
        ensures
            final(self).wf(),
            r is Ok <==> rule@.valid(),
            r is Ok ==> final(self)@ == (DetectionView {
                correlation: rule_added(old(self)@.correlation, rule@),
                ..old(self)@
            }),
            r is Err ==> final(self)@ == old(self)@,
    {
        self.correlation_engine.add_correlation_rule(rule)
    }

    /// Lets the anomaly engine watch one more feature.
    pub fn add_feature(&mut self, feature: FeatureSpec)
        requires
            old(self).wf(),
        ensures
            final(self).wf(),
            final(self)@ == (DetectionView {
                features: old(self)@.features.push(feature@),
                ..old(self)@
            }),
    {
        let ghost before = self.features.deep_view();
        self.features.push(feature);
        proof {
            assert(self.features.deep_view() =~= before.push(feature@));
        }
    }

    /// Puts a source address or a user on the whitelist.
    pub fn add_to_whitelist(&mut self, item: String)
        requires
            old(self).wf(),
        ensures
            final(self).wf(),
            final(self)@ == (DetectionView {
                threats: ThreatEngineView {
                    whitelist: if has_text(old(self)@.threats.whitelist, item@) {
                        old(self)@.threats.whitelist
                    } else {
                        old(self)@.threats.whitelist.push(item@)
                    },
                    ..old(self)@.threats
                },
                ..old(self)@
            }),
    {
        self.threat_engine.add_to_whitelist(item);
    }

    /// Takes a source address or a user off the whitelist.
    pub fn remove_from_whitelist(&mut self, item: &str)
        requires
            old(self).wf(),
        ensures
            final(self).wf(),
            final(self)@ == (DetectionView {
                threats: ThreatEngineView {
                    whitelist: without_text(old(self)@.threats.whitelist, item@),
                    ..old(self)@.threats
                },
                ..old(self)@
            }),
    {
        self.threat_engine.remove_from_whitelist(item);
    }

    /// Whether the whitelist turns an event away.
    pub fn is_whitelisted(&self, event: &RawEvent) -> (r: bool)
        ensures
            r == turned_away(self@, event@),
    {
        self.config.whitelist_enabled && self.threat_engine.is_whitelisted(
            event.source_ip.as_str(),
            event.user_id.as_str(),
        )
    }

    /// How many events the whitelist has turned away; the count stops at
    /// the largest number.
    pub fn whitelisted_count(&self) -> (r: u64)
        ensures
            r == self@.whitelisted,
    {
        self.whitelisted
    }

    /// Runs the anomaly engine on an event, feature by feature.
    pub fn anomaly_detection(&mut self, event: &RawEvent, now: u64) -> (r: Vec<ThreatFinding>)
        requires
            old(self).wf(),
        ensures
            final(self).wf(),
            final(self)@ == (DetectionView {
                anomaly: anomaly_pass(old(self)@.anomaly, old(self)@.features, event@, now).engine,
                ..old(self)@
            }),
            r.deep_view() == anomaly_pass(
                old(self)@.anomaly,
                old(self)@.features,
                event@,
                now,
            ).findings,
    {
        let mut findings: Vec<ThreatFinding> = Vec::new();
        let ghost start = self@.anomaly;
        let ghost features = self@.features;
        let mut i: usize = 0;
        proof {
            assert(features.subrange(0, 0) =~= Seq::<FeatureSpecView>::empty());
            assert(findings.deep_view() =~= Seq::<ThreatFindingView>::empty());
        }
        while i < self.features.len()
            invariant
                i <= self.features@.len(),
                self.wf(),
                start == old(self)@.anomaly,
                features == old(self)@.features,
                self@ == (DetectionView { anomaly: self@.anomaly, ..old(self)@ }),
                self@.anomaly == anomaly_pass(start, features.subrange(0, i as int), event@, now).engine,
                findings.deep_view() == anomaly_pass(
                    start,
                    features.subrange(0, i as int),
                    event@,
                    now,
                ).findings,
            decreases self.features@.len() - i,
        {
            proof {
                assert(features.subrange(0, i as int + 1).drop_last() =~= features.subrange(
                    0,
                    i as int,
                ));
                assert(features.subrange(0, i as int + 1).last() == features[i as int]);
                assert(features[i as int] == self.features@[i as int]@);
            }
            match read_feature(&self.features[i], event) {
                None => {},
                Some(x) => {
                    let mut key = self.features[i].name.clone();
                    key.append(":");
                    key.append(event.user_id.as_str());
                    match self.anomaly_engine.observe(key.as_str(), x) {
                        None => {},
                        Some(result) => {
                            if result.is_anomaly {
                                let ghost before = findings.deep_view();
                                let finding = make_anomaly_finding(
                                    &self.features[i],
                                    event,
                                    result,
                                    now,
                                );
                                findings.push(finding);
                                proof {
                                    assert(findings.deep_view() =~= before.push(finding@));
                                }
                            }
                        },
                    }
                },
            }
            i += 1;
        }
        proof {
            assert(features.subrange(0, features.len() as int) =~= features);
        }
        findings
    }

    /// Runs the detectors on an event, in their fixed order, and hands on
    /// what they found.
    pub fn process_event(&mut self, event: &RawEvent, now: u64) -> (r: Vec<ThreatFinding>)
        requires
            old(self).wf(),
        ensures
            final(self).wf(),
            final(self)@ == detect_state(old(self)@, event@, now),
            r.deep_view() == detect_findings(old(self)@, event@, now),
    {
        if self.is_whitelisted(event) {
            if self.whitelisted < u64::MAX {
                self.whitelisted = self.whitelisted + 1;
            }
            let none: Vec<ThreatFinding> = Vec::new();
            proof {
                assert(none.deep_view() =~= Seq::<ThreatFindingView>::empty());
            }
            return none;
        }
        let mut all: Vec<ThreatFinding> = Vec::new();
        proof {
            assert(all.deep_view() =~= Seq::<ThreatFindingView>::empty());
        }
        if self.config.signature_enabled {
            let found = self.signature_engine.scan(event, now);
            append_findings(&mut all, found);
        }
        let by_indicator = self.threat_engine.ioc_detection(event, now);
        append_findings(&mut all, by_indicator);
        if self.config.behavioral_enabled {
            let ghost so_far = all.deep_view();
            match self.behavioral_engine.analyze_behavior(event, now) {
                Some(context) => {
                    let finding = create_behavioral_threat(&context, event.id.as_str());
                    all.push(finding);
                    proof {
                        assert(all.deep_view() =~= so_far + seq![
                            behavioral_finding(context@, event@.id),
                        ]);
                    }
                },
                None => {
                    proof {
                        assert(all.deep_view() =~= so_far + Seq::<ThreatFindingView>::empty());
                    }
                },
            }
        }
        if self.config.anomaly_enabled {
            let anomalous = self.anomaly_detection(event, now);
            append_findings(&mut all, anomalous);
        }
        if self.config.correlation_enabled {
            let seen = create_correlation_event(event);
            let correlated_findings = self.correlation_engine.process_event(seen);
            append_findings(&mut all, correlated_findings);
        }
        proof {
            assert(all.deep_view() =~= raw_findings(old(self)@, event@, now));
        }
        keep_confident(&all, self.config.false_positive_threshold)
    }
}

/// The rule that takes five failed logins within five minutes for a
/// brute-force attack.
pub open spec fn brute_force_rule() -> CorrelationRuleView {
    CorrelationRuleView {
        id: "brute_force_attack"@,
        name: "Brute Force Attack"@,
        description: "Multiple failed login attempts from same source"@,
        conditions: seq![
            CorrelationConditionView {
                event_type: "login_failed"@,
                source_pattern: None,
                target_pattern: None,
                min_count: 5,
                max_count: None,
            },
        ],
        time_window: 300_000,
        severity: ThreatSeverity::High,
        enabled: true,
        ordered: false,
        priority: 0,
        cooldown_ms: 300_000,
        category: None,
    }
}

/// The rule that takes ten file downloads within ten minutes for an
/// exfiltration of data.
pub open spec fn exfiltration_rule() -> CorrelationRuleView {
    CorrelationRuleView {
        id: "data_exfiltration"@,
        name: "Data Exfiltration"@,
        description: "Multiple large file downloads or data access"@,
        conditions: seq![
            CorrelationConditionView {
                event_type: "file_download"@,
                source_pattern: None,
                target_pattern: None,
                min_count: 10,
                max_count: None,
            },
        ],
        time_window: 600_000,
        severity: ThreatSeverity::Critical,
        enabled: true,
        ordered: false,
        priority: 0,
        cooldown_ms: 600_000,
        category: None,
    }
}

/// A rule of one condition on a type of event, without patterns and
/// without a maximum, that rests for as long as its window after it fired.
fn counting_rule(
    id: &str,
    name: &str,
    description: &str,
    event_type: &str,
    min_count: u32,
    time_window: u64,
    severity: ThreatSeverity,
) -> (r: CorrelationRule)
    ensures
        r@ == (CorrelationRuleView {
            id: id@,
            name: name@,
            description: description@,
            conditions: seq![
                CorrelationConditionView {
                    event_type: event_type@,
                    source_pattern: None,
                    target_pattern: None,
                    min_count,
                    max_count: None,
                },
            ],
            time_window,
            severity,
            enabled: true,
            ordered: false,
            priority: 0,
            cooldown_ms: time_window,
            category: None,
        }),
{
    let mut conditions: Vec<CorrelationCondition> = Vec::new();
    conditions.push(
        CorrelationCondition {
            event_type: String::from_str(event_type),
            source_pattern: None,
            target_pattern: None,
            min_count,
            max_count: None,
        },
    );
    let r = CorrelationRule {
        id: String::from_str(id),
        name: String::from_str(name),
        description: String::from_str(description),
        conditions,
        time_window,
        severity,
        enabled: true,
        ordered: false,
        priority: 0,
        cooldown_ms: time_window,
        category: None,
    };
    proof {
        assert(r@.conditions =~= seq![
            CorrelationConditionView {
                event_type: event_type@,
                source_pattern: None,
                target_pattern: None,
                min_count,
                max_count: None,
            },
        ]);
    }
    r
}

/// The detectors after a start: the default signatures are registered one
/// after the other up to the first that cannot be, and the two default
/// correlation rules where all four signatures could be.
pub open spec fn started(s: DetectionView) -> DetectionView {
    let k = registrable_prefix(default_signatures(), 4);
    let signed = DetectionView {
        signatures: SignatureEngineView {
            patterns: registered_upto(s.signatures.patterns, default_signatures(), k),
            ..s.signatures
        },
        ..s
    };
    if k == 4 {
        DetectionView {
            correlation: rule_added(
                rule_added(s.correlation, brute_force_rule()),
                exfiltration_rule(),
            ),
            ..signed
        }
    } else {
        signed
    }
}

impl AdvancedThreatDetectionEngine {
    /// Registers the two default correlation rules.
    pub fn initialize_correlation_rules(&mut self)
        requires
            old(self).wf(),
        ensures
            final(self).wf(),
            final(self)@ == (DetectionView {
                correlation: rule_added(
                    rule_added(old(self)@.correlation, brute_force_rule()),
                    exfiltration_rule(),
                ),
                ..old(self)@
            }),
    {
        let first = counting_rule(
            "brute_force_attack",
            "Brute Force Attack",
            "Multiple failed login attempts from same source",
            "login_failed",
            5,
            300_000,
            ThreatSeverity::High,
        );
        let second = counting_rule(
            "data_exfiltration",
            "Data Exfiltration",
            "Multiple large file downloads or data access",
            "file_download",
            10,
            600_000,
            ThreatSeverity::Critical,
        );
        proof {
            assert(brute_force_rule().conditions[0].min_count >= 2);
            assert(brute_force_rule().valid());
            assert(exfiltration_rule().conditions[0].min_count >= 2);
            assert(exfiltration_rule().valid());
        }
        let _ = self.correlation_engine.add_correlation_rule(first);
        let _ = self.correlation_engine.add_correlation_rule(second);
    }

    /// Registers the default signatures and, where all of them could be
    /// registered, the default correlation rules.
    pub fn start(&mut self) -> (r: Result<(), SignatureError>)
        requires
            old(self).wf(),
        ensures
            final(self).wf(),
            final(self)@ == started(old(self)@),
            r is Ok <==> all_registrable(default_signatures(), 4),
            r is Err ==> r->Err_0 == SignatureError::InvalidPattern,
    {
        let registered = self.initialize_default_signatures();
        match registered {
            Err(e) => {
                proof {
                    let k = choose|k: int|
                        0 <= k < 4 && all_registrable(default_signatures(), k) && !registrable(
                            #[trigger] default_signatures()[k],
                        ) && self@ == (DetectionView {
                            signatures: SignatureEngineView {
                                patterns: registered_upto(
                                    old(self)@.signatures.patterns,
                                    default_signatures(),
                                    k,
                                ),
                                ..old(self)@.signatures
                            },
                            ..old(self)@
                        });
                    lemma_registrable_prefix(default_signatures(), k, 4);
                }
                Err(e)
            },
            Ok(()) => {
                proof {
                    lemma_registrable_prefix(default_signatures(), 4, 4);
                }
                self.initialize_correlation_rules();
                Ok(())
            },
        }
    }
}

} // verus!
