//! Indicators of compromise: known-bad hashes, addresses, domains, URLs
//! and patterns, matched against the fields of an event that each kind
//! looks at; and the engine that keeps them beside whitelist and counts.

use vstd::prelude::*;
use crate::dispatcher::list_has;
use crate::dispatcher::without_text;
use crate::lifecycle::has_text;
use crate::model::CONFIDENCE_MAX;
use crate::model::DetectorKind;
use crate::model::RawEvent;
use crate::model::RawEventView;
use crate::model::ThreatCategory;
use crate::model::ThreatFinding;
use crate::model::ThreatFindingView;
use crate::model::ThreatSeverity;
use crate::orchestrator::key_index;
use crate::orchestrator::list_until;
use crate::orchestrator::listed;
use crate::orchestrator::next_count;
use crate::outside::regex_compiles;
use crate::outside::regex_matches;
use crate::outside::regex_source;
use crate::dispatcher::count_up;
use crate::text::clone_texts;
use crate::text::contains;
use crate::text::contains_text;
use crate::text::str_eq;

verus! {

/// What kind of value an indicator holds.
#[derive(Clone, Copy, Debug, PartialEq, Eq, Structural, Hash)]
pub enum IocKind {
    /// A file hash, looked for in the attributes `hash`, `sha256`, `md5`.
    Hash,
    /// An address, compared with source and destination address.
    Ip,
    /// A domain, looked for in the message.
    Domain,
    /// A URL, looked for in the message.
    Url,
    /// A regular expression, matched against the message.
    Regex,
}

/// An indicator of compromise.
#[derive(Debug, PartialEq, Eq)]
pub struct IOC {
    pub id: String,
    pub value: String,
    pub ioc_type: IocKind,
    /// Thousandths of one.
    pub confidence: u16,
    pub source: String,
    pub first_seen: u64,
    pub last_seen: u64,
    pub tags: Vec<String>,
}

/// What an `IOC` holds, as mathematical values.
pub struct IOCView {
    pub id: Seq<char>,
    pub value: Seq<char>,
    pub ioc_type: IocKind,
    pub confidence: u16,
    pub source: Seq<char>,
    pub first_seen: u64,
    pub last_seen: u64,
    pub tags: Seq<Seq<char>>,
}

impl DeepView for IOC {
    type V = IOCView;

    open spec fn deep_view(&self) -> IOCView {
        IOCView {
            id: self.id@,
            value: self.value@,
            ioc_type: self.ioc_type,
            confidence: self.confidence,
            source: self.source@,
            first_seen: self.first_seen,
            last_seen: self.last_seen,
            tags: self.tags.deep_view(),
        }
    }
}

impl View for IOC {
    type V = IOCView;

    open spec fn view(&self) -> IOCView {
        self.deep_view()
    }
}

impl Clone for IOC {
    fn clone(&self) -> (r: Self)
        ensures
            r@ == self@,
    {
        IOC {
            id: self.id.clone(),
            value: self.value.clone(),
            ioc_type: self.ioc_type,
            confidence: self.confidence,
            source: self.source.clone(),
            first_seen: self.first_seen,
            last_seen: self.last_seen,
            tags: clone_texts(&self.tags),
        }
    }
}

/// Why an indicator was not registered.
#[derive(Clone, Copy, Debug, PartialEq, Eq, Structural, Hash)]
pub enum IocError {
    /// The confidence is above `CONFIDENCE_MAX`.
    InvalidConfidence,
    /// The regular expression does not compile.
    InvalidPattern,
}

impl IOCView {
    /// Whether the indicator can be registered.
    pub open spec fn registrable(self) -> bool {
        &&& self.confidence <= CONFIDENCE_MAX
        &&& self.ioc_type == IocKind::Regex ==> regex_compiles(self.value)
    }

    /// Whether the indicator is present in an event. An address is present
    /// as the event's source or destination address; a hash as the value of
    /// an attribute `hash`, `sha256` or `md5`; a domain or URL where it
    /// occurs in the message; a regular expression where it matches the
    /// message.
    pub open spec fn present_in(self, e: RawEventView) -> bool {
        match self.ioc_type {
            IocKind::Ip => e.source_ip == self.value || e.destination_ip == self.value,
            IocKind::Hash => e.attribute("hash"@) == Some(self.value) || e.attribute("sha256"@)
                == Some(self.value) || e.attribute("md5"@) == Some(self.value),
            IocKind::Domain => contains_text(e.message, self.value),
            IocKind::Url => contains_text(e.message, self.value),
            IocKind::Regex => regex_matches(self.value, e.message),
        }
    }
}

/// The finding that an indicator produces for an event.
pub open spec fn ioc_finding(ioc: IOCView, e: RawEventView, now: u64) -> ThreatFindingView {
    ThreatFindingView {
        finding_id: e.id + "/ioc/"@ + ioc.id,
        produced_at: now,
        detector_kind: DetectorKind::Ioc,
        severity: ThreatSeverity::High,
        category: ThreatCategory::Malware,
        confidence: ioc.confidence,
        source_ip: e.source_ip,
        destination_ip: e.destination_ip,
        user_id: e.user_id,
        source_event_ids: seq![e.id],
        matched_rule_ids: seq![ioc.id],
        description: "IOC detected: "@ + ioc.value,
        attributes: Seq::empty(),
    }
}

/// The findings of the indicators of a list that are present in an event,
/// in the order of the list.
pub open spec fn ioc_findings(iocs: Seq<IOCView>, e: RawEventView, now: u64) -> Seq<ThreatFindingView>
    decreases iocs.len(),
{
    if iocs.len() == 0 {
        Seq::empty()
    } else {
        let rest = ioc_findings(iocs.drop_last(), e, now);
        if iocs.last().present_in(e) {
            rest.push(ioc_finding(iocs.last(), e, now))
        } else {
            rest
        }
    }
}

/// An indicator with the state compiled from it.
pub struct CompiledIoc {
    ioc: IOC,
    regex: Option<regex::Regex>,
}

impl CompiledIoc {
    /// The indicator this was compiled from.
    pub closed spec fn source(&self) -> IOCView {
        self.ioc@
    }

    /// A regular expression carries the matcher compiled from its text.
    pub closed spec fn wf(&self) -> bool {
        &&& self.ioc@.confidence <= CONFIDENCE_MAX
        &&& self.ioc@.ioc_type == IocKind::Regex ==> self.regex is Some && regex_source(
            self.regex->Some_0,
        ) == self.ioc@.value
    }

    /// Compiles an indicator. Fails on a confidence out of range and on a
    /// regular expression that does not compile, and only then.
    pub fn compile(ioc: IOC) -> (r: Result<CompiledIoc, IocError>)
        ensures
            r is Ok <==> ioc@.registrable(),
            r is Ok ==> r->Ok_0.wf() && r->Ok_0.source() == ioc@,
            r is Err ==> r->Err_0 == (if ioc@.confidence > CONFIDENCE_MAX {
                IocError::InvalidConfidence
            } else {
                IocError::InvalidPattern
            }),
    {
        if ioc.confidence > CONFIDENCE_MAX {
            return Err(IocError::InvalidConfidence);
        }
        match ioc.ioc_type {
            IocKind::Regex => match regex::Regex::new(ioc.value.as_str()) {
                Ok(re) => Ok(CompiledIoc { ioc, regex: Some(re) }),
                Err(_) => Err(IocError::InvalidPattern),
            },
            _ => Ok(CompiledIoc { ioc, regex: None }),
        }
    }

    /// Whether an attribute of the event has the indicator's value.
    fn attribute_is(&self, event: &RawEvent, name: &str) -> (r: bool)
        ensures
            r == (event@.attribute(name@) == Some(self.source().value)),
    {
        match event.attribute(name) {
            Some(v) => str_eq(v.as_str(), self.ioc.value.as_str()),
            None => false,
        }
    }

    /// Whether the indicator is present in an event.
    pub fn present_in(&self, event: &RawEvent) -> (r: bool)
        requires
            self.wf(),
        ensures
            r == self.source().present_in(event@),
    {
        match self.ioc.ioc_type {
            IocKind::Ip => str_eq(event.source_ip.as_str(), self.ioc.value.as_str()) || str_eq(
                event.destination_ip.as_str(),
                self.ioc.value.as_str(),
            ),
            IocKind::Hash => self.attribute_is(event, "hash") || self.attribute_is(event, "sha256")
                || self.attribute_is(event, "md5"),
            IocKind::Domain => contains(event.message.as_str(), self.ioc.value.as_str()),
            IocKind::Url => contains(event.message.as_str(), self.ioc.value.as_str()),
            IocKind::Regex => match &self.regex {
                Some(re) => re.is_match(event.message.as_str()),
                None => false,
            },
        }
    }

    /// Builds the finding that the indicator produces for an event.
    pub fn finding(&self, event: &RawEvent, now: u64) -> (r: ThreatFinding)
        ensures
            r@ == ioc_finding(self.source(), event@, now),
    {
        let mut finding_id = event.id.clone();
        finding_id.append("/ioc/");
        finding_id.append(self.ioc.id.as_str());
        let mut description = String::from_str("IOC detected: ");
        description.append(self.ioc.value.as_str());
        let mut source_event_ids: Vec<String> = Vec::new();
        source_event_ids.push(event.id.clone());
        let mut matched_rule_ids: Vec<String> = Vec::new();
        matched_rule_ids.push(self.ioc.id.clone());
        let r = ThreatFinding {
            finding_id,
            produced_at: now,
            detector_kind: DetectorKind::Ioc,
            severity: ThreatSeverity::High,
            category: ThreatCategory::Malware,
            confidence: self.ioc.confidence,
            source_ip: event.source_ip.clone(),
            destination_ip: event.destination_ip.clone(),
            user_id: event.user_id.clone(),
            source_event_ids,
            matched_rule_ids,
            description,
            attributes: Vec::new(),
        };
        proof {
            assert(r@.source_event_ids =~= seq![event@.id]);
            assert(r@.matched_rule_ids =~= seq![self.source().id]);
            assert(r@.attributes =~= Seq::empty());
        }
        r
    }
}

/// The indicators of a list of compiled indicators, in order.
pub open spec fn ioc_sources(iocs: Seq<CompiledIoc>) -> Seq<IOCView> {
    Seq::new(iocs.len(), |i: int| iocs[i].source())
}

/// The position of the first indicator with this identifier; the length of
/// the list where there is none.
pub open spec fn ioc_index(iocs: Seq<IOCView>, id: Seq<char>) -> int
    decreases iocs.len(),
{
    if iocs.len() == 0 {
        0
    } else if iocs[0].id == id {
        0
    } else {
        1 + ioc_index(iocs.drop_first(), id)
    }
}

proof fn lemma_ioc_index(iocs: Seq<IOCView>, id: Seq<char>, i: int)
    requires
        0 <= i <= iocs.len(),
        forall|j: int| 0 <= j < i ==> iocs[j].id != id,
        i == iocs.len() || iocs[i].id == id,
    ensures
        ioc_index(iocs, id) == i,
    decreases i,
{
    if i > 0 {
        let t = iocs.drop_first();
        assert forall|j: int| 0 <= j < i - 1 implies t[j].id != id by {
            assert(t[j] == iocs[j + 1]);
        }
        lemma_ioc_index(t, id, i - 1);
    }
}

/// The list after an indicator was registered: it replaces the indicator of
/// the same identifier where it stands, or goes to the end.
pub open spec fn with_ioc(iocs: Seq<IOCView>, ioc: IOCView) -> Seq<IOCView> {
    if ioc_index(iocs, ioc.id) < iocs.len() {
        iocs.update(ioc_index(iocs, ioc.id), ioc)
    } else {
        iocs.push(ioc)
    }
}

/// What the engine has counted; each count stops at the largest number.
#[derive(Clone, Copy, Debug, PartialEq, Eq, Structural)]
pub struct DetectionStats {
    pub total_threats: u64,
    pub low: u64,
    pub medium: u64,
    pub high: u64,
    pub critical: u64,
    pub false_positives: u64,
    pub last_updated: u64,
}

impl DetectionStats {
    /// The counts after one more threat of a severity was accepted at `now`.
    pub open spec fn counted(self, severity: ThreatSeverity, now: u64) -> DetectionStats {
        DetectionStats {
            total_threats: next_count(self.total_threats),
            low: if severity == ThreatSeverity::Low {
                next_count(self.low)
            } else {
                self.low
            },
            medium: if severity == ThreatSeverity::Medium {
                next_count(self.medium)
            } else {
                self.medium
            },
            high: if severity == ThreatSeverity::High {
                next_count(self.high)
            } else {
                self.high
            },
            critical: if severity == ThreatSeverity::Critical {
                next_count(self.critical)
            } else {
                self.critical
            },
            last_updated: now,
            ..self
        }
    }
}

/// What became of a threat handed to the engine.
#[derive(Clone, Copy, Debug, PartialEq, Eq, Structural, Hash)]
pub enum Handled {
    /// Its source address or user is on the whitelist.
    Whitelisted,
    /// It was marked as a false positive before.
    FalsePositive,
    /// It was counted and is to be published.
    Accepted,
}

/// The state of the threat detection engine, as mathematical values.
pub struct ThreatEngineView {
    /// The indicators in the order of registration.
    pub iocs: Seq<IOCView>,
    pub whitelist: Seq<Seq<char>>,
    /// The threats marked as false positives, each with the time of the
    /// mark.
    pub false_positives: Seq<(Seq<char>, u64)>,
    pub stats: DetectionStats,
}

/// The threat detection engine: indicators, whitelist and counts.
pub struct ThreatDetectionEngine {
    iocs: Vec<CompiledIoc>,
    whitelist: Vec<String>,
    false_positive_history: Vec<(String, u64)>,
    stats: DetectionStats,
}

impl View for ThreatDetectionEngine {
    type V = ThreatEngineView;

    closed spec fn view(&self) -> ThreatEngineView {
        ThreatEngineView {
            iocs: ioc_sources(self.iocs@),
            whitelist: self.whitelist.deep_view(),
            false_positives: self.false_positive_history.deep_view(),
            stats: self.stats,
        }
    }
}

/// The indicator that every engine can begin with.
pub open spec fn default_ioc(now: u64) -> IOCView {
    IOCView {
        id: "malware_hash_1"@,
        value: "a1b2c3d4e5f6789012345678901234567890abcd"@,
        ioc_type: IocKind::Hash,
        confidence: 950,
        source: "threat_intel"@,
        first_seen: now,
        last_seen: now,
        tags: seq!["malware"@, "ransomware"@],
    }
}

impl ThreatDetectionEngine {
    /// Every compiled indicator carries its matcher.
    pub closed spec fn wf(&self) -> bool {
        forall|i: int| 0 <= i < self.iocs@.len() ==> (#[trigger] self.iocs@[i]).wf()
    }

    /// An engine without indicators, with empty whitelist and counts, last
    /// updated at `now`.
    pub fn new(now: u64) -> (r: Self)
        ensures
            r.wf(),
            r@ == (ThreatEngineView {
                iocs: Seq::empty(),
                whitelist: Seq::empty(),
                false_positives: Seq::empty(),
                stats: DetectionStats {
                    total_threats: 0,
                    low: 0,
                    medium: 0,
                    high: 0,
                    critical: 0,
                    false_positives: 0,
                    last_updated: now,
                },
            }),
    {
        let r = ThreatDetectionEngine {
            iocs: Vec::new(),
            whitelist: Vec::new(),
            false_positive_history: Vec::new(),
            stats: DetectionStats {
                total_threats: 0,
                low: 0,
                medium: 0,
                high: 0,
                critical: 0,
                false_positives: 0,
                last_updated: now,
            },
        };
        proof {
            assert(r@.iocs =~= Seq::empty());
            assert(r@.whitelist =~= Seq::empty());
            assert(r@.false_positives =~= Seq::empty());
        }
        r
    }

    /// Registers an indicator, compiling it first. An indicator of the same
    /// identifier is replaced where it stands; a new one goes to the end.
    /// On an error nothing changes.
    pub fn add_ioc(&mut self, ioc: IOC) -> (r: Result<(), IocError>)
        requires
            old(self).wf(),
        ensures
            final(self).wf(),
            r is Ok <==> ioc@.registrable(),
            r is Ok ==> final(self)@ == (ThreatEngineView {
                iocs: with_ioc(old(self)@.iocs, ioc@),
                ..old(self)@
            }),
            r is Err ==> final(self)@ == old(self)@ && r->Err_0 == (if ioc@.confidence
                > CONFIDENCE_MAX {
                IocError::InvalidConfidence
            } else {
                IocError::InvalidPattern
            }),
    {
        let ghost wanted = ioc@;
        let mut i: usize = 0;
        while i < self.iocs.len() && !str_eq(self.iocs[i].ioc.id.as_str(), ioc.id.as_str())
            invariant
                i <= self.iocs@.len(),
                *self == *old(self),
                forall|j: int| 0 <= j < i ==> self@.iocs[j].id != ioc@.id,
            decreases self.iocs@.len() - i,
        {
            i += 1;
        }
        proof {
            lemma_ioc_index(self@.iocs, ioc@.id, i as int);
        }
        match CompiledIoc::compile(ioc) {
            Err(e) => Err(e),
            Ok(compiled) => {
                if i < self.iocs.len() {
                    self.iocs[i] = compiled;
                    proof {
                        assert(self@.iocs =~= old(self)@.iocs.update(i as int, wanted));
                    }
                } else {
                    self.iocs.push(compiled);
                    proof {
                        assert(self@.iocs =~= old(self)@.iocs.push(wanted));
                    }
                }
                Ok(())
            },
        }
    }

    /// Registers the default indicator, first and last seen at `now`.
    pub fn initialize_default_patterns(&mut self, now: u64)
        requires
            old(self).wf(),
        ensures
            final(self).wf(),
            final(self)@ == (ThreatEngineView {
                iocs: with_ioc(old(self)@.iocs, default_ioc(now)),
                ..old(self)@
            }),
    {
        let mut tags: Vec<String> = Vec::new();
        tags.push(String::from_str("malware"));
        tags.push(String::from_str("ransomware"));
        let ioc = IOC {
            id: String::from_str("malware_hash_1"),
            value: String::from_str("a1b2c3d4e5f6789012345678901234567890abcd"),
            ioc_type: IocKind::Hash,
            confidence: 950,
            source: String::from_str("threat_intel"),
            first_seen: now,
            last_seen: now,
            tags,
        };
        proof {
            assert(ioc@.tags =~= default_ioc(now).tags);
        }
        let _ = self.add_ioc(ioc);
    }

    /// How many indicators are registered.
    pub fn ioc_count(&self) -> (r: usize)
        ensures
            r == self@.iocs.len(),
    {
        self.iocs.len()
    }

    /// The findings of the indicators that are present in an event, in the
    /// order of registration.
    pub fn ioc_detection(&self, event: &RawEvent, now: u64) -> (r: Vec<ThreatFinding>)
        requires
            self.wf(),
        ensures
            r.deep_view() == ioc_findings(self@.iocs, event@, now),
    {
        let mut findings: Vec<ThreatFinding> = Vec::new();
        let ghost iocs = self@.iocs;
        let mut i: usize = 0;
        proof {
            assert(iocs.subrange(0, 0) =~= Seq::<IOCView>::empty());
            assert(findings.deep_view() =~= Seq::<ThreatFindingView>::empty());
        }
        while i < self.iocs.len()
            invariant
                i <= self.iocs@.len(),
                self.wf(),
                iocs == self@.iocs,
                findings.deep_view() == ioc_findings(iocs.subrange(0, i as int), event@, now),
            decreases self.iocs@.len() - i,
        {
            proof {
                assert(iocs.subrange(0, i as int + 1).drop_last() =~= iocs.subrange(0, i as int));
                assert(iocs.subrange(0, i as int + 1).last() == iocs[i as int]);
                assert(self.iocs@[i as int].wf());
            }
            if self.iocs[i].present_in(event) {
                let ghost before = findings.deep_view();
                let finding = self.iocs[i].finding(event, now);
                findings.push(finding);
                proof {
                    assert(findings.deep_view() =~= before.push(
                        ioc_finding(iocs[i as int], event@, now),
                    ));
                }
            }
            i += 1;
        }
        proof {
            assert(iocs.subrange(0, iocs.len() as int) =~= iocs);
        }
        findings
    }

    /// Puts a source address or a user on the whitelist.
    pub fn add_to_whitelist(&mut self, item: String)
        requires
            old(self).wf(),
        ensures
            final(self).wf(),
            final(self)@ == (ThreatEngineView {
                whitelist: if has_text(old(self)@.whitelist, item@) {
                    old(self)@.whitelist
                } else {
                    old(self)@.whitelist.push(item@)
                },
                ..old(self)@
            }),
    {
        if !list_has(&self.whitelist, item.as_str()) {
            let ghost before = self.whitelist.deep_view();
            self.whitelist.push(item);
            proof {
                assert(self.whitelist.deep_view() =~= before.push(item@));
            }
        }
    }

    /// Takes a source address or a user off the whitelist.
    pub fn remove_from_whitelist(&mut self, item: &str)
        requires
            old(self).wf(),
        ensures
            final(self).wf(),
            final(self)@ == (ThreatEngineView {
                whitelist: without_text(old(self)@.whitelist, item@),
                ..old(self)@
            }),
    {
        let mut kept: Vec<String> = Vec::new();
        let mut i: usize = 0;
        proof {
            assert(self.whitelist.deep_view().subrange(0, 0) =~= Seq::<Seq<char>>::empty());
            assert(kept.deep_view() =~= Seq::<Seq<char>>::empty());
        }
        while i < self.whitelist.len()
            invariant
                i <= self.whitelist@.len(),
                *self == *old(self),
                kept.deep_view() == without_text(self.whitelist.deep_view().subrange(0, i as int), item@),
            decreases self.whitelist@.len() - i,
        {
            proof {
                assert(self.whitelist.deep_view().subrange(0, i as int + 1).drop_last()
                    =~= self.whitelist.deep_view().subrange(0, i as int));
            }
            if !str_eq(self.whitelist[i].as_str(), item) {
                let ghost before = kept.deep_view();
                kept.push(self.whitelist[i].clone());
                proof {
                    assert(kept.deep_view() =~= before.push(self.whitelist.deep_view()[i as int]));
                }
            }
            i += 1;
        }
        proof {
            assert(self.whitelist.deep_view().subrange(0, self.whitelist@.len() as int)
                =~= self.whitelist.deep_view());
        }
        self.whitelist = kept;
    }

    /// Whether a source address or a user is on the whitelist.
    pub fn is_whitelisted(&self, source_ip: &str, user_id: &str) -> (r: bool)
        ensures
            r == (has_text(self@.whitelist, source_ip@) || has_text(self@.whitelist, user_id@)),
    {
        list_has(&self.whitelist, source_ip) || list_has(&self.whitelist, user_id)
    }

    /// Marks a threat as a false positive at `now`.
    pub fn mark_false_positive(&mut self, threat_id: String, now: u64)
        requires
            old(self).wf(),
        ensures
            final(self).wf(),
            final(self)@ == (ThreatEngineView {
                false_positives: listed(old(self)@.false_positives, threat_id@, now),
                stats: DetectionStats {
                    false_positives: listed(old(self)@.false_positives, threat_id@, now).len() as u64,
                    ..old(self)@.stats
                },
                ..old(self)@
            }),
    {
        list_until(&mut self.false_positive_history, threat_id.as_str(), now);
        self.stats.false_positives = self.false_positive_history.len() as u64;
    }

    /// Handles a threat: one from a whitelisted source or user is passed
    /// over, so is one marked as a false positive; any other is counted.
    pub fn handle_threat(&mut self, threat: &ThreatFinding, now: u64) -> (r: Handled)
        requires
            old(self).wf(),
        ensures
            final(self).wf(),
            r == (if has_text(old(self)@.whitelist, threat@.source_ip) || has_text(
                old(self)@.whitelist,
                threat@.user_id,
            ) {
                Handled::Whitelisted
            } else if key_index(old(self)@.false_positives, threat@.finding_id) < old(self)@.false_positives.len() {
                Handled::FalsePositive
            } else {
                Handled::Accepted
            }),
            r != Handled::Accepted ==> final(self)@ == old(self)@,
            r == Handled::Accepted ==> final(self)@ == (ThreatEngineView {
                stats: old(self)@.stats.counted(threat@.severity, now),
                ..old(self)@
            }),
    {
        if self.is_whitelisted(threat.source_ip.as_str(), threat.user_id.as_str()) {
            return Handled::Whitelisted;
        }
        let mut i: usize = 0;
        while i < self.false_positive_history.len() && !str_eq(
            self.false_positive_history[i].0.as_str(),
            threat.finding_id.as_str(),
        )
            invariant
                i <= self.false_positive_history@.len(),
                forall|j: int| 0 <= j < i ==> self@.false_positives[j].0 != threat@.finding_id,
            decreases self.false_positive_history@.len() - i,
        {
            i += 1;
        }
        proof {
            crate::orchestrator::lemma_key_index_of(self@.false_positives, threat@.finding_id, i as int);
        }
        if i < self.false_positive_history.len() {
            return Handled::FalsePositive;
        }
        self.stats.total_threats = count_up(self.stats.total_threats);
        match threat.severity {
            ThreatSeverity::Low => {
                self.stats.low = count_up(self.stats.low);
            },
            ThreatSeverity::Medium => {
                self.stats.medium = count_up(self.stats.medium);
            },
            ThreatSeverity::High => {
                self.stats.high = count_up(self.stats.high);
            },
            ThreatSeverity::Critical => {
                self.stats.critical = count_up(self.stats.critical);
            },
        }
        self.stats.last_updated = now;
        Handled::Accepted
    }

    /// What the engine has counted.
    pub fn get_stats(&self) -> (r: DetectionStats)
        ensures
            r == self@.stats,
    {
        self.stats
    }
}

} // verus!
