//! Incidents: the externally visible records that findings are absorbed
//! into, with their severity, their lifecycle and the actions taken for them.

use vstd::prelude::*;
use crate::model::ThreatCategory;
use crate::model::ThreatFinding;
use crate::model::ThreatFindingView;
use crate::model::ThreatSeverity;
use crate::text::clone_pairs;
use crate::text::clone_texts;

verus! {

/// How severe an incident is.
#[derive(Clone, Copy, Debug, PartialEq, Eq, Structural, Hash, PartialOrd, Ord)]
pub enum IncidentSeverity {
    Low,
    Medium,
    High,
    Critical,
    Emergency,
}

impl IncidentSeverity {
    /// Position of the level in the order Low < Medium < High < Critical <
    /// Emergency.
    pub open spec fn rank(self) -> nat {
        match self {
            IncidentSeverity::Low => 0,
            IncidentSeverity::Medium => 1,
            IncidentSeverity::High => 2,
            IncidentSeverity::Critical => 3,
            IncidentSeverity::Emergency => 4,
        }
    }

    /// The rank as a machine integer.
    pub fn level(self) -> (r: u8)
        ensures
            r as nat == self.rank(),
    {
        match self {
            IncidentSeverity::Low => 0,
            IncidentSeverity::Medium => 1,
            IncidentSeverity::High => 2,
            IncidentSeverity::Critical => 3,
            IncidentSeverity::Emergency => 4,
        }
    }

    /// The incident severity that stands for a finding's severity.
    pub open spec fn of_threat(severity: ThreatSeverity) -> IncidentSeverity {
        match severity {
            ThreatSeverity::Low => IncidentSeverity::Low,
            ThreatSeverity::Medium => IncidentSeverity::Medium,
            ThreatSeverity::High => IncidentSeverity::High,
            ThreatSeverity::Critical => IncidentSeverity::Critical,
        }
    }

    /// The incident severity that stands for a finding's severity.
    pub fn from_threat(severity: ThreatSeverity) -> (r: IncidentSeverity)
        ensures
            r == IncidentSeverity::of_threat(severity),
            r.rank() == severity.rank(),
    {
        match severity {
            ThreatSeverity::Low => IncidentSeverity::Low,
            ThreatSeverity::Medium => IncidentSeverity::Medium,
            ThreatSeverity::High => IncidentSeverity::High,
            ThreatSeverity::Critical => IncidentSeverity::Critical,
        }
    }

    /// The escalation level of a severity, from 1 to 5.
    pub open spec fn escalation(self) -> u8 {
        match self {
            IncidentSeverity::Low => 1,
            IncidentSeverity::Medium => 2,
            IncidentSeverity::High => 3,
            IncidentSeverity::Critical => 4,
            IncidentSeverity::Emergency => 5,
        }
    }

    /// The escalation level of a severity, from 1 to 5.
    pub fn escalation_level(self) -> (r: u8)
        ensures
            r == self.escalation(),
            1 <= r <= 5,
    {
        match self {
            IncidentSeverity::Low => 1,
            IncidentSeverity::Medium => 2,
            IncidentSeverity::High => 3,
            IncidentSeverity::Critical => 4,
            IncidentSeverity::Emergency => 5,
        }
    }

    /// The level's name as text.
    pub open spec fn name_text(self) -> Seq<char> {
        match self {
            IncidentSeverity::Low => "Low"@,
            IncidentSeverity::Medium => "Medium"@,
            IncidentSeverity::High => "High"@,
            IncidentSeverity::Critical => "Critical"@,
            IncidentSeverity::Emergency => "Emergency"@,
        }
    }

    /// The level's name.
    pub fn name(self) -> (r: String)
        ensures
            r@ == self.name_text(),
    {
        match self {
            IncidentSeverity::Low => String::from_str("Low"),
            IncidentSeverity::Medium => String::from_str("Medium"),
            IncidentSeverity::High => String::from_str("High"),
            IncidentSeverity::Critical => String::from_str("Critical"),
            IncidentSeverity::Emergency => String::from_str("Emergency"),
        }
    }
}

/// Where an incident stands in its lifecycle.
#[derive(Clone, Copy, Debug, PartialEq, Eq, Structural, Hash)]
pub enum IncidentStatus {
    Open,
    Investigating,
    Contained,
    Resolved,
    Closed,
    FalsePositive,
}

impl IncidentStatus {
    /// A terminal state allows no further change but to notes and tags.
    pub open spec fn is_terminal(self) -> bool {
        self == IncidentStatus::Closed || self == IncidentStatus::FalsePositive
    }

    /// A settled incident takes no findings, actions or assignments any
    /// more: it is resolved or in a terminal state.
    pub open spec fn is_settled(self) -> bool {
        self == IncidentStatus::Resolved || self.is_terminal()
    }

    /// Whether the lifecycle allows the step from `self` to `to`.
    pub open spec fn allows(self, to: IncidentStatus) -> bool {
        match self {
            IncidentStatus::Open => to == IncidentStatus::Investigating || to
                == IncidentStatus::Contained || to == IncidentStatus::Resolved || to
                == IncidentStatus::FalsePositive || to == IncidentStatus::Closed,
            IncidentStatus::Investigating => to == IncidentStatus::Contained || to
                == IncidentStatus::Resolved || to == IncidentStatus::FalsePositive || to
                == IncidentStatus::Closed,
            IncidentStatus::Contained => to == IncidentStatus::Resolved || to
                == IncidentStatus::Closed || to == IncidentStatus::FalsePositive,
            IncidentStatus::Resolved => to == IncidentStatus::Closed,
            IncidentStatus::Closed => false,
            IncidentStatus::FalsePositive => false,
        }
    }

    /// Whether the state is terminal.
    pub fn terminal(self) -> (r: bool)
        ensures
            r == self.is_terminal(),
    {
        match self {
            IncidentStatus::Closed => true,
            IncidentStatus::FalsePositive => true,
            _ => false,
        }
    }

    /// Whether the incident is resolved or in a terminal state.
    pub fn settled(self) -> (r: bool)
        ensures
            r == self.is_settled(),
    {
        match self {
            IncidentStatus::Resolved => true,
            IncidentStatus::Closed => true,
            IncidentStatus::FalsePositive => true,
            _ => false,
        }
    }

    /// Whether the lifecycle allows the step from `self` to `to`.
    pub fn can_transition_to(self, to: IncidentStatus) -> (r: bool)
        ensures
            r == self.allows(to),
    {
        match self {
            IncidentStatus::Open => match to {
                IncidentStatus::Open => false,
                _ => true,
            },
            IncidentStatus::Investigating => match to {
                IncidentStatus::Open => false,
                IncidentStatus::Investigating => false,
                _ => true,
            },
            IncidentStatus::Contained => match to {
                IncidentStatus::Resolved => true,
                IncidentStatus::Closed => true,
                IncidentStatus::FalsePositive => true,
                _ => false,
            },
            IncidentStatus::Resolved => match to {
                IncidentStatus::Closed => true,
                _ => false,
            },
            IncidentStatus::Closed => false,
            IncidentStatus::FalsePositive => false,
        }
    }
}

/// What the orchestrator can ask for in response to an incident.
#[derive(Debug, PartialEq, Eq)]
pub enum ResponseAction {
    BlockIP { ip: String, duration_seconds: u64 },
    DisableAccount { user_id: String, reason: String },
    QuarantineFile { file_path: String, hash: String },
    KillProcess { process_id: u32, reason: String },
    RestartService { service_name: String },
    Notify { channel: String, payload: String },
    Webhook { url: String, payload: String },
    ExternalPlaybook { name: String, payload: String },
    RunScript { path: String, args: Vec<String> },
    LogOnly { message: String },
}

/// What a `ResponseAction` holds, as mathematical values.
pub enum ResponseActionView {
    BlockIP { ip: Seq<char>, duration_seconds: u64 },
    DisableAccount { user_id: Seq<char>, reason: Seq<char> },
    QuarantineFile { file_path: Seq<char>, hash: Seq<char> },
    KillProcess { process_id: u32, reason: Seq<char> },
    RestartService { service_name: Seq<char> },
    Notify { channel: Seq<char>, payload: Seq<char> },
    Webhook { url: Seq<char>, payload: Seq<char> },
    ExternalPlaybook { name: Seq<char>, payload: Seq<char> },
    RunScript { path: Seq<char>, args: Seq<Seq<char>> },
    LogOnly { message: Seq<char> },
}

impl ResponseActionView {
    /// Whether the core carries the action out itself; every other action
    /// is handed to an executor.
    pub open spec fn is_local(self) -> bool {
        self is LogOnly
    }
}

impl DeepView for ResponseAction {
    type V = ResponseActionView;

    open spec fn deep_view(&self) -> ResponseActionView {
        match self {
            ResponseAction::BlockIP { ip, duration_seconds } => ResponseActionView::BlockIP {
                ip: ip@,
                duration_seconds: *duration_seconds,
            },
            ResponseAction::DisableAccount { user_id, reason } => ResponseActionView::DisableAccount {
                user_id: user_id@,
                reason: reason@,
            },
            ResponseAction::QuarantineFile { file_path, hash } => ResponseActionView::QuarantineFile {
                file_path: file_path@,
                hash: hash@,
            },
            ResponseAction::KillProcess { process_id, reason } => ResponseActionView::KillProcess {
                process_id: *process_id,
                reason: reason@,
            },
            ResponseAction::RestartService { service_name } => ResponseActionView::RestartService {
                service_name: service_name@,
            },
            ResponseAction::Notify { channel, payload } => ResponseActionView::Notify {
                channel: channel@,
                payload: payload@,
            },
            ResponseAction::Webhook { url, payload } => ResponseActionView::Webhook {
                url: url@,
                payload: payload@,
            },
            ResponseAction::ExternalPlaybook { name, payload } => ResponseActionView::ExternalPlaybook {
                name: name@,
                payload: payload@,
            },
            ResponseAction::RunScript { path, args } => ResponseActionView::RunScript {
                path: path@,
                args: args.deep_view(),
            },
            ResponseAction::LogOnly { message } => ResponseActionView::LogOnly { message: message@ },
        }
    }
}

impl View for ResponseAction {
    type V = ResponseActionView;

    open spec fn view(&self) -> ResponseActionView {
        self.deep_view()
    }
}

impl Clone for ResponseAction {
    fn clone(&self) -> (r: Self)
        ensures
            r@ == self@,
    {
        match self {
            ResponseAction::BlockIP { ip, duration_seconds } => ResponseAction::BlockIP {
                ip: ip.clone(),
                duration_seconds: *duration_seconds,
            },
            ResponseAction::DisableAccount { user_id, reason } => ResponseAction::DisableAccount {
                user_id: user_id.clone(),
                reason: reason.clone(),
            },
            ResponseAction::QuarantineFile { file_path, hash } => ResponseAction::QuarantineFile {
                file_path: file_path.clone(),
                hash: hash.clone(),
            },
            ResponseAction::KillProcess { process_id, reason } => ResponseAction::KillProcess {
                process_id: *process_id,
                reason: reason.clone(),
            },
            ResponseAction::RestartService { service_name } => ResponseAction::RestartService {
                service_name: service_name.clone(),
            },
            ResponseAction::Notify { channel, payload } => ResponseAction::Notify {
                channel: channel.clone(),
                payload: payload.clone(),
            },
            ResponseAction::Webhook { url, payload } => ResponseAction::Webhook {
                url: url.clone(),
                payload: payload.clone(),
            },
            ResponseAction::ExternalPlaybook { name, payload } => ResponseAction::ExternalPlaybook {
                name: name.clone(),
                payload: payload.clone(),
            },
            ResponseAction::RunScript { path, args } => ResponseAction::RunScript {
                path: path.clone(),
                args: clone_texts(args),
            },
            ResponseAction::LogOnly { message } => ResponseAction::LogOnly { message: message.clone() },
        }
    }
}

impl ResponseAction {
    /// Whether the core carries the action out itself.
    pub fn is_local(&self) -> (r: bool)
        ensures
            r == self@.is_local(),
    {
        match self {
            ResponseAction::LogOnly { .. } => true,
            _ => false,
        }
    }
}

/// Why an action did not succeed.
#[derive(Clone, Copy, Debug, PartialEq, Eq, Structural, Hash)]
pub enum ActionFailure {
    /// The executor did not answer in time.
    Timeout,
    /// The executor refused the action.
    Rejected,
    /// The executor tried and failed.
    Failed,
}

/// The recorded outcome of one action.
#[derive(Debug, PartialEq, Eq)]
pub struct ResponseActionResult {
    pub action_id: String,
    pub action_type: ResponseAction,
    pub success: bool,
    pub error: Option<ActionFailure>,
    pub error_message: Option<String>,
    pub execution_time_ms: u64,
    pub timestamp: u64,
    pub metadata: Vec<(String, String)>,
    /// Set where an outcome for the same action was recorded before.
    pub duplicate: bool,
}

/// What a `ResponseActionResult` holds, as mathematical values.
pub struct ResponseActionResultView {
    pub action_id: Seq<char>,
    pub action_type: ResponseActionView,
    pub success: bool,
    pub error: Option<ActionFailure>,
    pub error_message: Option<Seq<char>>,
    pub execution_time_ms: u64,
    pub timestamp: u64,
    pub metadata: Seq<(Seq<char>, Seq<char>)>,
    pub duplicate: bool,
}

impl DeepView for ResponseActionResult {
    type V = ResponseActionResultView;

    open spec fn deep_view(&self) -> ResponseActionResultView {
        ResponseActionResultView {
            action_id: self.action_id@,
            action_type: self.action_type@,
            success: self.success,
            error: self.error,
            error_message: self.error_message.deep_view(),
            execution_time_ms: self.execution_time_ms,
            timestamp: self.timestamp,
            metadata: self.metadata.deep_view(),
            duplicate: self.duplicate,
        }
    }
}

impl View for ResponseActionResult {
    type V = ResponseActionResultView;

    open spec fn view(&self) -> ResponseActionResultView {
        self.deep_view()
    }
}

impl Clone for ResponseActionResult {
    fn clone(&self) -> (r: Self)
        ensures
            r@ == self@,
    {
        let error_message = match &self.error_message {
            Some(m) => Some(m.clone()),
            None => None,
        };
        ResponseActionResult {
            action_id: self.action_id.clone(),
            action_type: self.action_type.clone(),
            success: self.success,
            error: self.error,
            error_message,
            execution_time_ms: self.execution_time_ms,
            timestamp: self.timestamp,
            metadata: clone_pairs(&self.metadata),
            duplicate: self.duplicate,
        }
    }
}

/// A request to an executor to carry out one action.
#[derive(Debug, PartialEq, Eq)]
pub struct ActionRequest {
    pub action_id: String,
    pub incident_id: String,
    pub action: ResponseAction,
    pub timeout_ms: u64,
    pub issued_at: u64,
}

/// What an `ActionRequest` holds, as mathematical values.
pub struct ActionRequestView {
    pub action_id: Seq<char>,
    pub incident_id: Seq<char>,
    pub action: ResponseActionView,
    pub timeout_ms: u64,
    pub issued_at: u64,
}

impl DeepView for ActionRequest {
    type V = ActionRequestView;

    open spec fn deep_view(&self) -> ActionRequestView {
        ActionRequestView {
            action_id: self.action_id@,
            incident_id: self.incident_id@,
            action: self.action@,
            timeout_ms: self.timeout_ms,
            issued_at: self.issued_at,
        }
    }
}

impl View for ActionRequest {
    type V = ActionRequestView;

    open spec fn view(&self) -> ActionRequestView {
        self.deep_view()
    }
}

impl Clone for ActionRequest {
    fn clone(&self) -> (r: Self)
        ensures
            r@ == self@,
    {
        ActionRequest {
            action_id: self.action_id.clone(),
            incident_id: self.incident_id.clone(),
            action: self.action.clone(),
            timeout_ms: self.timeout_ms,
            issued_at: self.issued_at,
        }
    }
}

/// The time an incident of each severity may take to reach a terminal
/// state, in milliseconds.
#[derive(Clone, Copy, Debug, PartialEq, Eq, Structural)]
pub struct SlaPolicy {
    pub low_ms: u64,
    pub medium_ms: u64,
    pub high_ms: u64,
    pub critical_ms: u64,
    pub emergency_ms: u64,
}

impl SlaPolicy {
    /// Low 24 h, Medium 8 h, High 2 h, Critical 30 min, Emergency 15 min.
    pub fn standard() -> (r: SlaPolicy)
        ensures
            r == (SlaPolicy {
                low_ms: 86_400_000,
                medium_ms: 28_800_000,
                high_ms: 7_200_000,
                critical_ms: 1_800_000,
                emergency_ms: 900_000,
            }),
    {
        SlaPolicy {
            low_ms: 86_400_000,
            medium_ms: 28_800_000,
            high_ms: 7_200_000,
            critical_ms: 1_800_000,
            emergency_ms: 900_000,
        }
    }

    /// The time allowed for a severity.
    pub open spec fn allowance(self, severity: IncidentSeverity) -> u64 {
        match severity {
            IncidentSeverity::Low => self.low_ms,
            IncidentSeverity::Medium => self.medium_ms,
            IncidentSeverity::High => self.high_ms,
            IncidentSeverity::Critical => self.critical_ms,
            IncidentSeverity::Emergency => self.emergency_ms,
        }
    }

    /// The deadline of an incident created at `created_at`; it stops at the
    /// largest time that can be written.
    pub open spec fn deadline(self, severity: IncidentSeverity, created_at: u64) -> u64 {
        if created_at + self.allowance(severity) > u64::MAX {
            u64::MAX
        } else {
            (created_at + self.allowance(severity)) as u64
        }
    }

    /// The deadline of an incident created at `created_at`.
    pub fn deadline_for(&self, severity: IncidentSeverity, created_at: u64) -> (r: u64)
        ensures
            r == self.deadline(severity, created_at),
    {
        let allowance = match severity {
            IncidentSeverity::Low => self.low_ms,
            IncidentSeverity::Medium => self.medium_ms,
            IncidentSeverity::High => self.high_ms,
            IncidentSeverity::Critical => self.critical_ms,
            IncidentSeverity::Emergency => self.emergency_ms,
        };
        created_at.saturating_add(allowance)
    }
}

/// The highest severity among findings; `Low` for none.
pub open spec fn max_severity(findings: Seq<ThreatFindingView>) -> ThreatSeverity
    decreases findings.len(),
{
    if findings.len() == 0 {
        ThreatSeverity::Low
    } else {
        max_severity(findings.drop_last()).spec_max(findings.last().severity)
    }
}

/// The highest confidence among findings; zero for none.
pub open spec fn max_confidence(findings: Seq<ThreatFindingView>) -> u16
    decreases findings.len(),
{
    if findings.len() == 0 {
        0
    } else {
        let rest = max_confidence(findings.drop_last());
        if findings.last().confidence > rest {
            findings.last().confidence
        } else {
            rest
        }
    }
}

/// The highest severity is at least that of every finding, and some finding
/// has it.
pub proof fn lemma_max_severity(findings: Seq<ThreatFindingView>)
    ensures
        forall|i: int|
            0 <= i < findings.len() ==> (#[trigger] findings[i]).severity.rank() <= max_severity(
                findings,
            ).rank(),
        findings.len() > 0 ==> exists|i: int|
            0 <= i < findings.len() && (#[trigger] findings[i]).severity == max_severity(findings),
    decreases findings.len(),
{
    if findings.len() > 0 {
        let head = findings.drop_last();
        lemma_max_severity(head);
        assert forall|i: int| 0 <= i < findings.len() implies (#[trigger] findings[i]).severity.rank()
            <= max_severity(findings).rank() by {
            if i < head.len() {
                assert(head[i] == findings[i]);
            }
        }
        if max_severity(findings) == findings.last().severity {
            assert(findings[findings.len() - 1].severity == max_severity(findings));
        } else {
            let i = choose|i: int|
                0 <= i < head.len() && (#[trigger] head[i]).severity == max_severity(head);
            assert(findings[i] == head[i]);
        }
    }
}

/// An incident.
#[derive(Debug, PartialEq, Eq)]
pub struct Incident {
    pub id: String,
    /// Milliseconds since the epoch.
    pub created_at: u64,
    pub updated_at: u64,
    pub resolved_at: Option<u64>,
    pub severity: IncidentSeverity,
    pub status: IncidentStatus,
    pub title: String,
    pub description: String,
    pub source_ip: String,
    pub destination_ip: String,
    pub user_id: String,
    pub category: ThreatCategory,
    pub findings: Vec<ThreatFinding>,
    pub response_actions: Vec<ResponseActionResult>,
    pub assigned_to: Option<String>,
    pub notes: Vec<String>,
    pub tags: Vec<String>,
    pub escalation_level: u8,
    pub sla_deadline: u64,
    pub false_positive: bool,
}

/// What an `Incident` holds, as mathematical values.
pub struct IncidentView {
    pub id: Seq<char>,
    pub created_at: u64,
    pub updated_at: u64,
    pub resolved_at: Option<u64>,
    pub severity: IncidentSeverity,
    pub status: IncidentStatus,
    pub title: Seq<char>,
    pub description: Seq<char>,
    pub source_ip: Seq<char>,
    pub destination_ip: Seq<char>,
    pub user_id: Seq<char>,
    pub category: ThreatCategory,
    pub findings: Seq<ThreatFindingView>,
    pub response_actions: Seq<ResponseActionResultView>,
    pub assigned_to: Option<Seq<char>>,
    pub notes: Seq<Seq<char>>,
    pub tags: Seq<Seq<char>>,
    pub escalation_level: u8,
    pub sla_deadline: u64,
    pub false_positive: bool,
}

impl IncidentView {
    /// The incident's invariant: it holds a finding, its severity is the
    /// highest among its findings, its escalation level goes with its
    /// severity, and once it is resolved or closed it has a time of
    /// resolution.
    pub open spec fn wf(self) -> bool {
        &&& self.findings.len() >= 1
        &&& self.severity == IncidentSeverity::of_threat(max_severity(self.findings))
        &&& self.escalation_level == self.severity.escalation()
        &&& (self.status == IncidentStatus::Resolved || self.status == IncidentStatus::Closed)
            ==> self.resolved_at is Some
    }

    /// Whether `other` differs from this incident in notes and tags at most.
    pub open spec fn same_but_notes_and_tags(self, other: IncidentView) -> bool {
        other == (IncidentView { notes: other.notes, tags: other.tags, ..self })
    }

    /// Whether `other` is what this incident can have become if it was
    /// resolved: it differs in notes, tags and the time of its last update
    /// at most, but for the step to Closed.
    pub open spec fn same_but_for_closing(self, other: IncidentView) -> bool {
        &&& other.status == self.status || other.status == IncidentStatus::Closed
        &&& other == (IncidentView {
            notes: other.notes,
            tags: other.tags,
            updated_at: other.updated_at,
            status: other.status,
            ..self
        })
    }

    /// Whether a finding belongs into this incident: same source address,
    /// user and category, the incident not settled, and the finding no
    /// later than `window_ms` after the incident was created.
    pub open spec fn absorbs(self, f: ThreatFindingView, now: u64, window_ms: u64) -> bool {
        &&& !self.status.is_settled()
        &&& self.source_ip == f.source_ip
        &&& self.user_id == f.user_id
        &&& self.category == f.category
        &&& now >= self.created_at
        &&& now - self.created_at <= window_ms
    }
}

impl DeepView for Incident {
    type V = IncidentView;

    open spec fn deep_view(&self) -> IncidentView {
        IncidentView {
            id: self.id@,
            created_at: self.created_at,
            updated_at: self.updated_at,
            resolved_at: self.resolved_at,
            severity: self.severity,
            status: self.status,
            title: self.title@,
            description: self.description@,
            source_ip: self.source_ip@,
            destination_ip: self.destination_ip@,
            user_id: self.user_id@,
            category: self.category,
            findings: self.findings.deep_view(),
            response_actions: self.response_actions.deep_view(),
            assigned_to: self.assigned_to.deep_view(),
            notes: self.notes.deep_view(),
            tags: self.tags.deep_view(),
            escalation_level: self.escalation_level,
            sla_deadline: self.sla_deadline,
            false_positive: self.false_positive,
        }
    }
}

impl View for Incident {
    type V = IncidentView;

    open spec fn view(&self) -> IncidentView {
        self.deep_view()
    }
}

/// A copy of a list of findings.
pub fn clone_findings(v: &Vec<ThreatFinding>) -> (r: Vec<ThreatFinding>)
    ensures
        r.deep_view() == v.deep_view(),
{
    let mut r: Vec<ThreatFinding> = Vec::new();
    let mut i: usize = 0;
    while i < v.len()
        invariant
            i <= v.len(),
            r.len() == i,
            forall|j: int| 0 <= j < i ==> r@[j]@ == v@[j]@,
        decreases v.len() - i,
    {
        r.push(v[i].clone());
        i += 1;
    }
    proof {
        assert(r.deep_view() =~= v.deep_view());
    }
    r
}

/// A copy of a list of action outcomes.
pub fn clone_results(v: &Vec<ResponseActionResult>) -> (r: Vec<ResponseActionResult>)
    ensures
        r.deep_view() == v.deep_view(),
{
    let mut r: Vec<ResponseActionResult> = Vec::new();
    let mut i: usize = 0;
    while i < v.len()
        invariant
            i <= v.len(),
            r.len() == i,
            forall|j: int| 0 <= j < i ==> r@[j]@ == v@[j]@,
        decreases v.len() - i,
    {
        r.push(v[i].clone());
        i += 1;
    }
    proof {
        assert(r.deep_view() =~= v.deep_view());
    }
    r
}

impl Clone for Incident {
    fn clone(&self) -> (r: Self)
        ensures
            r@ == self@,
    {
        let assigned_to = match &self.assigned_to {
            Some(a) => Some(a.clone()),
            None => None,
        };
        Incident {
            id: self.id.clone(),
            created_at: self.created_at,
            updated_at: self.updated_at,
            resolved_at: self.resolved_at,
            severity: self.severity,
            status: self.status,
            title: self.title.clone(),
            description: self.description.clone(),
            source_ip: self.source_ip.clone(),
            destination_ip: self.destination_ip.clone(),
            user_id: self.user_id.clone(),
            category: self.category,
            findings: clone_findings(&self.findings),
            response_actions: clone_results(&self.response_actions),
            assigned_to,
            notes: clone_texts(&self.notes),
            tags: clone_texts(&self.tags),
            escalation_level: self.escalation_level,
            sla_deadline: self.sla_deadline,
            false_positive: self.false_positive,
        }
    }
}

/// The incident that a first finding opens.
pub open spec fn incident_from(f: ThreatFindingView, id: Seq<char>, now: u64, sla: SlaPolicy) -> IncidentView {
    let severity = IncidentSeverity::of_threat(f.severity);
    IncidentView {
        id,
        created_at: now,
        updated_at: now,
        resolved_at: None,
        severity,
        status: IncidentStatus::Open,
        title: f.category.name_text() + " - "@ + f.description,
        description: f.description,
        source_ip: f.source_ip,
        destination_ip: f.destination_ip,
        user_id: f.user_id,
        category: f.category,
        findings: seq![f],
        response_actions: Seq::empty(),
        assigned_to: None,
        notes: Seq::empty(),
        tags: Seq::empty(),
        escalation_level: severity.escalation(),
        sla_deadline: sla.deadline(severity, now),
        false_positive: false,
    }
}

/// The incident after it absorbed one more finding: the finding goes to the
/// end, the severity rises to the highest, and escalation level and
/// deadline follow the severity.
pub open spec fn incident_with(inc: IncidentView, f: ThreatFindingView, now: u64, sla: SlaPolicy) -> IncidentView {
    let findings = inc.findings.push(f);
    let severity = IncidentSeverity::of_threat(max_severity(findings));
    IncidentView {
        findings,
        severity,
        updated_at: now,
        escalation_level: severity.escalation(),
        sla_deadline: sla.deadline(severity, inc.created_at),
        ..inc
    }
}

/// Opens an incident for a finding, under the identifier given: status
/// Open, the finding's severity, and the deadline that goes with it.
pub fn create_incident_from_threat(threat: ThreatFinding, id: String, now: u64, sla: &SlaPolicy) -> (r:
    Incident)
    ensures
        r@ == incident_from(threat@, id@, now, *sla),
        r@.wf(),
{
    let severity = IncidentSeverity::from_threat(threat.severity);
    let mut title = threat.category.name();
    title.append(" - ");
    title.append(threat.description.as_str());
    let description = threat.description.clone();
    let source_ip = threat.source_ip.clone();
    let destination_ip = threat.destination_ip.clone();
    let user_id = threat.user_id.clone();
    let category = threat.category;
    let ghost f = threat@;
    let mut findings: Vec<ThreatFinding> = Vec::new();
    findings.push(threat);
    let r = Incident {
        id,
        created_at: now,
        updated_at: now,
        resolved_at: None,
        severity,
        status: IncidentStatus::Open,
        title,
        description,
        source_ip,
        destination_ip,
        user_id,
        category,
        findings,
        response_actions: Vec::new(),
        assigned_to: None,
        notes: Vec::new(),
        tags: Vec::new(),
        escalation_level: severity.escalation_level(),
        sla_deadline: sla.deadline_for(severity, now),
        false_positive: false,
    };
    proof {
        assert(r@.findings =~= seq![f]);
        assert(r@.response_actions =~= Seq::empty());
        assert(r@.notes =~= Seq::empty());
        assert(r@.tags =~= Seq::empty());
        assert(seq![f].drop_last() =~= Seq::<ThreatFindingView>::empty());
        assert(max_severity(Seq::<ThreatFindingView>::empty()) == ThreatSeverity::Low);
        assert(seq![f].last() == f);
        assert(max_severity(seq![f]) == f.severity);
    }
    r
}

impl Incident {
    /// Takes one more finding into the incident.
    pub fn absorb(&mut self, threat: ThreatFinding, now: u64, sla: &SlaPolicy)
        requires
            old(self)@.wf(),
        ensures
            final(self)@ == incident_with(old(self)@, threat@, now, *sla),
            final(self)@.wf(),
    {
        let ghost before = self.findings.deep_view();
        let severity = IncidentSeverity::from_threat(threat.severity);
        let raised = if severity.level() > self.severity.level() {
            severity
        } else {
            self.severity
        };
        self.findings.push(threat);
        proof {
            assert(self.findings.deep_view() =~= before.push(threat@));
            assert(before.push(threat@).drop_last() =~= before);
        }
        self.severity = raised;
        self.updated_at = now;
        self.escalation_level = raised.escalation_level();
        self.sla_deadline = sla.deadline_for(raised, self.created_at);
    }

    /// Whether a finding belongs into this incident.
    pub fn absorbs(&self, f: &ThreatFinding, now: u64, window_ms: u64) -> (r: bool)
        ensures
            r == self@.absorbs(f@, now, window_ms),
    {
        !self.status.settled() && self.source_ip == f.source_ip && self.user_id == f.user_id
            && self.category == f.category && now >= self.created_at && now - self.created_at
            <= window_ms
    }

    /// The highest confidence among the incident's findings.
    pub fn confidence(&self) -> (r: u16)
        ensures
            r == max_confidence(self@.findings),
    {
        let mut best: u16 = 0;
        let mut i: usize = 0;
        proof {
            assert(self@.findings.subrange(0, 0) =~= Seq::<ThreatFindingView>::empty());
        }
        while i < self.findings.len()
            invariant
                i <= self.findings@.len(),
                best == max_confidence(self@.findings.subrange(0, i as int)),
            decreases self.findings@.len() - i,
        {
            proof {
                assert(self@.findings.subrange(0, i as int + 1).drop_last()
                    =~= self@.findings.subrange(0, i as int));
            }
            if self.findings[i].confidence > best {
                best = self.findings[i].confidence;
            }
            i += 1;
        }
        proof {
            assert(self@.findings.subrange(0, self@.findings.len() as int) =~= self@.findings);
        }
        best
    }
}

impl Incident {
    /// The highest severity among the incident's findings; `Low` for none.
    pub fn highest_severity(&self) -> (r: ThreatSeverity)
        ensures
            r == max_severity(self@.findings),
    {
        let mut highest = ThreatSeverity::Low;
        let mut i: usize = 0;
        proof {
            assert(self@.findings.subrange(0, 0) =~= Seq::<ThreatFindingView>::empty());
        }
        while i < self.findings.len()
            invariant
                i <= self.findings@.len(),
                highest == max_severity(self@.findings.subrange(0, i as int)),
            decreases self.findings@.len() - i,
        {
            proof {
                assert(self@.findings.subrange(0, i as int + 1).drop_last()
                    =~= self@.findings.subrange(0, i as int));
            }
            highest = highest.max(self.findings[i].severity);
            i += 1;
        }
        proof {
            assert(self@.findings.subrange(0, self@.findings.len() as int) =~= self@.findings);
        }
        highest
    }

    /// Whether the incident keeps its invariant.
    pub fn is_valid(&self) -> (r: bool)
        ensures
            r == self@.wf(),
    {
        let resolved = match self.status {
            IncidentStatus::Resolved => true,
            IncidentStatus::Closed => true,
            _ => false,
        };
        self.findings.len() >= 1 && self.severity == IncidentSeverity::from_threat(
            self.highest_severity(),
        ) && self.escalation_level == self.severity.escalation_level() && (!resolved
            || self.resolved_at.is_some())
    }
}

} // verus!
