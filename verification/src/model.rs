//! The shared data model: severities, categories, normalized events and the
//! findings that detectors produce from them.

use vstd::prelude::*;
use crate::text::clone_pairs;
use crate::text::clone_texts;
use crate::text::find_pair;
use crate::text::lookup;

verus! {

/// The largest confidence: thousandths of one.
pub const CONFIDENCE_MAX: u16 = 1000;

/// Nanoseconds in a millisecond.
pub const NANOS_PER_MILLI: u64 = 1_000_000;

/// How severe a single finding is.
#[derive(Clone, Copy, Debug, PartialEq, Eq, Structural, Hash)]
pub enum ThreatSeverity {
    Low,
    Medium,
    High,
    Critical,
}

impl ThreatSeverity {
    /// Position of the level in the order Low < Medium < High < Critical.
    pub open spec fn rank(self) -> nat {
        match self {
            ThreatSeverity::Low => 0,
            ThreatSeverity::Medium => 1,
            ThreatSeverity::High => 2,
            ThreatSeverity::Critical => 3,
        }
    }

    /// The rank as a machine integer.
    pub fn level(self) -> (r: u8)
        ensures
            r as nat == self.rank(),
    {
        match self {
            ThreatSeverity::Low => 0,
            ThreatSeverity::Medium => 1,
            ThreatSeverity::High => 2,
            ThreatSeverity::Critical => 3,
        }
    }

    /// The more severe of two levels.
    pub open spec fn spec_max(self, other: ThreatSeverity) -> ThreatSeverity {
        if self.rank() >= other.rank() {
            self
        } else {
            other
        }
    }

    /// The more severe of two levels.
    pub fn max(self, other: ThreatSeverity) -> (r: ThreatSeverity)
        ensures
            r == self.spec_max(other),
    {
        if self.level() >= other.level() {
            self
        } else {
            other
        }
    }

    /// The level's name as text.
    pub open spec fn name_text(self) -> Seq<char> {
        match self {
            ThreatSeverity::Low => "Low"@,
            ThreatSeverity::Medium => "Medium"@,
            ThreatSeverity::High => "High"@,
            ThreatSeverity::Critical => "Critical"@,
        }
    }

    /// The level's name.
    pub fn name(self) -> (r: String)
        ensures
            r@ == self.name_text(),
    {
        match self {
            ThreatSeverity::Low => String::from_str("Low"),
            ThreatSeverity::Medium => String::from_str("Medium"),
            ThreatSeverity::High => String::from_str("High"),
            ThreatSeverity::Critical => String::from_str("Critical"),
        }
    }
}

/// What kind of attack a finding points to.
#[derive(Clone, Copy, Debug, PartialEq, Eq, Structural, Hash)]
pub enum ThreatCategory {
    Malware,
    Network,
    Authentication,
    Compliance,
    SQLInjection,
    XSS,
    BruteForce,
    InsiderThreat,
    APT,
    DDoS,
    DataExfiltration,
    PrivilegeEscalation,
    LateralMovement,
    Persistence,
    Evasion,
    Other,
}

impl ThreatCategory {
    /// The category's name as text.
    pub open spec fn name_text(self) -> Seq<char> {
        match self {
            ThreatCategory::Malware => "Malware"@,
            ThreatCategory::Network => "Network"@,
            ThreatCategory::Authentication => "Authentication"@,
            ThreatCategory::Compliance => "Compliance"@,
            ThreatCategory::SQLInjection => "SQLInjection"@,
            ThreatCategory::XSS => "XSS"@,
            ThreatCategory::BruteForce => "BruteForce"@,
            ThreatCategory::InsiderThreat => "InsiderThreat"@,
            ThreatCategory::APT => "APT"@,
            ThreatCategory::DDoS => "DDoS"@,
            ThreatCategory::DataExfiltration => "DataExfiltration"@,
            ThreatCategory::PrivilegeEscalation => "PrivilegeEscalation"@,
            ThreatCategory::LateralMovement => "LateralMovement"@,
            ThreatCategory::Persistence => "Persistence"@,
            ThreatCategory::Evasion => "Evasion"@,
            ThreatCategory::Other => "Other"@,
        }
    }

    /// The category's name.
    pub fn name(self) -> (r: String)
        ensures
            r@ == self.name_text(),
    {
        match self {
            ThreatCategory::Malware => String::from_str("Malware"),
            ThreatCategory::Network => String::from_str("Network"),
            ThreatCategory::Authentication => String::from_str("Authentication"),
            ThreatCategory::Compliance => String::from_str("Compliance"),
            ThreatCategory::SQLInjection => String::from_str("SQLInjection"),
            ThreatCategory::XSS => String::from_str("XSS"),
            ThreatCategory::BruteForce => String::from_str("BruteForce"),
            ThreatCategory::InsiderThreat => String::from_str("InsiderThreat"),
            ThreatCategory::APT => String::from_str("APT"),
            ThreatCategory::DDoS => String::from_str("DDoS"),
            ThreatCategory::DataExfiltration => String::from_str("DataExfiltration"),
            ThreatCategory::PrivilegeEscalation => String::from_str("PrivilegeEscalation"),
            ThreatCategory::LateralMovement => String::from_str("LateralMovement"),
            ThreatCategory::Persistence => String::from_str("Persistence"),
            ThreatCategory::Evasion => String::from_str("Evasion"),
            ThreatCategory::Other => String::from_str("Other"),
        }
    }
}

/// Where a normalized event came from.
#[derive(Clone, Copy, Debug, PartialEq, Eq, Structural, Hash)]
pub enum SourceKind {
    HostLog,
    NetworkFlow,
    FileSystem,
    Process,
    Auth,
    Generic,
}

/// Which detector produced a finding.
#[derive(Clone, Copy, Debug, PartialEq, Eq, Structural, Hash)]
pub enum DetectorKind {
    Signature,
    Ioc,
    Anomaly,
    Correlation,
}

/// A normalized event as a source adapter delivers it.
#[derive(Debug, PartialEq, Eq)]
pub struct RawEvent {
    pub id: String,
    /// Nanoseconds since the epoch.
    pub timestamp: u64,
    pub source_kind: SourceKind,
    pub source_id: String,
    pub source_ip: String,
    pub destination_ip: String,
    pub user_id: String,
    pub action: String,
    pub message: String,
    /// Ordered mapping from name to value; the first pair of a name counts.
    pub attributes: Vec<(String, String)>,
}

/// What a `RawEvent` holds, as mathematical values.
pub struct RawEventView {
    pub id: Seq<char>,
    pub timestamp: u64,
    pub source_kind: SourceKind,
    pub source_id: Seq<char>,
    pub source_ip: Seq<char>,
    pub destination_ip: Seq<char>,
    pub user_id: Seq<char>,
    pub action: Seq<char>,
    pub message: Seq<char>,
    pub attributes: Seq<(Seq<char>, Seq<char>)>,
}

impl RawEventView {
    /// The value of the attribute `name`, if the event carries it.
    pub open spec fn attribute(self, name: Seq<char>) -> Option<Seq<char>> {
        lookup(self.attributes, name)
    }

    /// The event's time in milliseconds since the epoch.
    pub open spec fn timestamp_ms(self) -> u64 {
        self.timestamp / NANOS_PER_MILLI
    }
}

impl DeepView for RawEvent {
    type V = RawEventView;

    open spec fn deep_view(&self) -> RawEventView {
        RawEventView {
            id: self.id@,
            timestamp: self.timestamp,
            source_kind: self.source_kind,
            source_id: self.source_id@,
            source_ip: self.source_ip@,
            destination_ip: self.destination_ip@,
            user_id: self.user_id@,
            action: self.action@,
            message: self.message@,
            attributes: self.attributes.deep_view(),
        }
    }
}

impl View for RawEvent {
    type V = RawEventView;

    open spec fn view(&self) -> RawEventView {
        self.deep_view()
    }
}

impl Clone for RawEvent {
    fn clone(&self) -> (r: Self)
        ensures
            r@ == self@,
    {
        RawEvent {
            id: self.id.clone(),
            timestamp: self.timestamp,
            source_kind: self.source_kind,
            source_id: self.source_id.clone(),
            source_ip: self.source_ip.clone(),
            destination_ip: self.destination_ip.clone(),
            user_id: self.user_id.clone(),
            action: self.action.clone(),
            message: self.message.clone(),
            attributes: clone_pairs(&self.attributes),
        }
    }
}

impl RawEvent {
    /// The value of the attribute `name`, if the event carries it.
    pub fn attribute(&self, name: &str) -> (r: Option<&String>)
        ensures
            r.deep_view() == self@.attribute(name@),
    {
        find_pair(&self.attributes, name)
    }

    /// The event's time in milliseconds since the epoch.
    pub fn timestamp_ms(&self) -> (r: u64)
        ensures
            r == self@.timestamp_ms(),
    {
        self.timestamp / NANOS_PER_MILLI
    }
}

/// The verdict of one detector on one or more events.
#[derive(Debug, PartialEq, Eq)]
pub struct ThreatFinding {
    pub finding_id: String,
    /// Milliseconds since the epoch.
    pub produced_at: u64,
    pub detector_kind: DetectorKind,
    pub severity: ThreatSeverity,
    pub category: ThreatCategory,
    /// Thousandths of one, at most `CONFIDENCE_MAX`.
    pub confidence: u16,
    pub source_ip: String,
    pub destination_ip: String,
    pub user_id: String,
    pub source_event_ids: Vec<String>,
    pub matched_rule_ids: Vec<String>,
    pub description: String,
    pub attributes: Vec<(String, String)>,
}

/// What a `ThreatFinding` holds, as mathematical values.
pub struct ThreatFindingView {
    pub finding_id: Seq<char>,
    pub produced_at: u64,
    pub detector_kind: DetectorKind,
    pub severity: ThreatSeverity,
    pub category: ThreatCategory,
    pub confidence: u16,
    pub source_ip: Seq<char>,
    pub destination_ip: Seq<char>,
    pub user_id: Seq<char>,
    pub source_event_ids: Seq<Seq<char>>,
    pub matched_rule_ids: Seq<Seq<char>>,
    pub description: Seq<char>,
    pub attributes: Seq<(Seq<char>, Seq<char>)>,
}

impl ThreatFindingView {
    /// The finding's invariant: a confidence within range, at least one
    /// source event, and at least two where a correlation produced it.
    pub open spec fn wf(self) -> bool {
        &&& self.confidence <= CONFIDENCE_MAX
        &&& self.source_event_ids.len() >= 1
        &&& self.detector_kind == DetectorKind::Correlation ==> self.source_event_ids.len() >= 2
    }
}

impl DeepView for ThreatFinding {
    type V = ThreatFindingView;

    open spec fn deep_view(&self) -> ThreatFindingView {
        ThreatFindingView {
            finding_id: self.finding_id@,
            produced_at: self.produced_at,
            detector_kind: self.detector_kind,
            severity: self.severity,
            category: self.category,
            confidence: self.confidence,
            source_ip: self.source_ip@,
            destination_ip: self.destination_ip@,
            user_id: self.user_id@,
            source_event_ids: self.source_event_ids.deep_view(),
            matched_rule_ids: self.matched_rule_ids.deep_view(),
            description: self.description@,
            attributes: self.attributes.deep_view(),
        }
    }
}

impl View for ThreatFinding {
    type V = ThreatFindingView;

    open spec fn view(&self) -> ThreatFindingView {
        self.deep_view()
    }
}

impl Clone for ThreatFinding {
    fn clone(&self) -> (r: Self)
        ensures
            r@ == self@,
    {
        ThreatFinding {
            finding_id: self.finding_id.clone(),
            produced_at: self.produced_at,
            detector_kind: self.detector_kind,
            severity: self.severity,
            category: self.category,
            confidence: self.confidence,
            source_ip: self.source_ip.clone(),
            destination_ip: self.destination_ip.clone(),
            user_id: self.user_id.clone(),
            source_event_ids: clone_texts(&self.source_event_ids),
            matched_rule_ids: clone_texts(&self.matched_rule_ids),
            description: self.description.clone(),
            attributes: clone_pairs(&self.attributes),
        }
    }
}

impl ThreatFinding {
    /// Whether the finding keeps its invariant.
    pub fn is_valid(&self) -> (r: bool)
        ensures
            r == self@.wf(),
    {
        self.confidence <= CONFIDENCE_MAX && self.source_event_ids.len() >= 1 && (
        self.detector_kind != DetectorKind::Correlation || self.source_event_ids.len() >= 2)
    }
}

} // verus!
