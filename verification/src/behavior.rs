//! Behavioral analysis: what each user and each source address has been
//! doing, the risk that follows from it, and the finding for behavior that
//! the anomaly engine calls out of the ordinary.

use vstd::prelude::*;
use crate::anomaly::AnomalyEngineView;
use crate::anomaly::AnomalyParams;
use crate::anomaly::limited;
use crate::anomaly::MLAnomalyEngine;
use crate::anomaly::profile_for;
use crate::anomaly::verdict;
use crate::model::DetectorKind;
use crate::model::RawEvent;
use crate::model::RawEventView;
use crate::model::ThreatCategory;
use crate::model::ThreatFinding;
use crate::model::ThreatFindingView;
use crate::model::ThreatSeverity;
use crate::realtime::find_number;
use crate::realtime::number_of;
use crate::realtime::raised;
use crate::realtime::set_number;
use crate::realtime::with_pair;
use crate::response::permille_text;
use crate::response::permille_to_text;
use crate::signature::elapsed;
use crate::signature::elapsed_ms;
use crate::text::str_eq;

verus! {

/// An hour, in milliseconds.
pub const HOUR_MS: u64 = 3_600_000;

/// A day, in seconds.
pub const DAY_SECONDS: u64 = 86_400;

/// What is kept of a user.
#[derive(Debug, PartialEq, Eq)]
pub struct UserProfile {
    pub user_id: String,
    /// How often the user took each action.
    pub action_patterns: Vec<(String, u32)>,
    /// Thousandths of one.
    pub risk_score: u16,
    pub last_activity: u64,
    pub geo_locations: Vec<String>,
    pub user_agents: Vec<String>,
}

/// What a `UserProfile` holds, as mathematical values.
pub struct UserProfileView {
    pub user_id: Seq<char>,
    pub action_patterns: Seq<(Seq<char>, u32)>,
    pub risk_score: u16,
    pub last_activity: u64,
    pub geo_locations: Seq<Seq<char>>,
    pub user_agents: Seq<Seq<char>>,
}

impl DeepView for UserProfile {
    type V = UserProfileView;

    open spec fn deep_view(&self) -> UserProfileView {
        UserProfileView {
            user_id: self.user_id@,
            action_patterns: self.action_patterns.deep_view(),
            risk_score: self.risk_score,
            last_activity: self.last_activity,
            geo_locations: self.geo_locations.deep_view(),
            user_agents: self.user_agents.deep_view(),
        }
    }
}

impl View for UserProfile {
    type V = UserProfileView;

    open spec fn view(&self) -> UserProfileView {
        self.deep_view()
    }
}

/// What is kept of a source address.
#[derive(Debug, PartialEq, Eq)]
pub struct IPProfile {
    pub ip_address: String,
    pub connection_count: u32,
    pub failed_attempts: u32,
    pub last_seen: u64,
    pub geo_location: Option<String>,
    /// Thousandths of one.
    pub risk_score: u16,
}

/// What an `IPProfile` holds, as mathematical values.
pub struct IPProfileView {
    pub ip_address: Seq<char>,
    pub connection_count: u32,
    pub failed_attempts: u32,
    pub last_seen: u64,
    pub geo_location: Option<Seq<char>>,
    pub risk_score: u16,
}

impl DeepView for IPProfile {
    type V = IPProfileView;

    open spec fn deep_view(&self) -> IPProfileView {
        IPProfileView {
            ip_address: self.ip_address@,
            connection_count: self.connection_count,
            failed_attempts: self.failed_attempts,
            last_seen: self.last_seen,
            geo_location: self.geo_location.deep_view(),
            risk_score: self.risk_score,
        }
    }
}

impl View for IPProfile {
    type V = IPProfileView;

    open spec fn view(&self) -> IPProfileView {
        self.deep_view()
    }
}

/// What is kept of a user's session.
#[derive(Debug, PartialEq, Eq)]
pub struct SessionContext {
    pub session_id: String,
    pub user_id: String,
    pub start_time: u64,
    pub last_activity: u64,
    /// How many actions the session has seen.
    pub actions: u64,
}

/// What a `SessionContext` holds, as mathematical values.
pub struct SessionView {
    pub session_id: Seq<char>,
    pub user_id: Seq<char>,
    pub start_time: u64,
    pub last_activity: u64,
    pub actions: u64,
}

impl DeepView for SessionContext {
    type V = SessionView;

    open spec fn deep_view(&self) -> SessionView {
        SessionView {
            session_id: self.session_id@,
            user_id: self.user_id@,
            start_time: self.start_time,
            last_activity: self.last_activity,
            actions: self.actions,
        }
    }
}

impl View for SessionContext {
    type V = SessionView;

    open spec fn view(&self) -> SessionView {
        self.deep_view()
    }
}

/// How many of the first `n` actions were taken more than ten times.
pub open spec fn frequent_actions(actions: Seq<(Seq<char>, u32)>, n: int) -> nat
    decreases n,
{
    if n <= 0 {
        0
    } else {
        frequent_actions(actions, n - 1) + if actions[n - 1].1 > 10 {
            1nat
        } else {
            0nat
        }
    }
}

/// A risk cut to one, in thousandths.
pub open spec fn capped_risk(risk: int) -> u16 {
    if risk > 1000 {
        1000
    } else {
        risk as u16
    }
}

/// The risk in a user's activity, in thousandths: 0.2 for more than an
/// hour without activity, 0.1 for every action taken more than ten times,
/// 0.3 for more than three locations; one at most.
pub open spec fn user_risk(p: UserProfileView, now: u64) -> u16 {
    capped_risk(
        (if elapsed(now, p.last_activity) > HOUR_MS {
            200int
        } else {
            0int
        }) + 100 * frequent_actions(p.action_patterns, p.action_patterns.len() as int) + (
        if p.geo_locations.len() > 3 {
            300int
        } else {
            0int
        }),
    )
}

/// The risk in a source address, in thousandths: 0.3 for more than a
/// hundred connections, 0.5 for more than five failed attempts.
pub open spec fn ip_risk(p: IPProfileView) -> u16 {
    ((if p.connection_count > 100 {
        300int
    } else {
        0int
    }) + (if p.failed_attempts > 5 {
        500int
    } else {
        0int
    })) as u16
}

/// The risk in a session, in thousandths: 0.2 for a session of more than a
/// day, 0.3 for more than a thousand actions; none without a session.
pub open spec fn session_risk(session: Option<SessionView>, timestamp: u64) -> u16 {
    match session {
        None => 0,
        Some(s) => ((if elapsed(timestamp, s.start_time) > 24 * HOUR_MS {
            200int
        } else {
            0int
        }) + (if s.actions > 1000 {
            300int
        } else {
            0int
        })) as u16,
    }
}

/// The risk of a subject: the mean of the risks in its user's activity, its
/// source address and its session.
pub open spec fn total_risk(user: u16, ip: u16, session: u16) -> u16 {
    ((user + ip + session) / 3) as u16
}

/// The severity that goes with a risk: Critical above 0.8, High above 0.6,
/// Medium above 0.4, Low otherwise.
pub open spec fn severity_of_risk(risk: u16) -> ThreatSeverity {
    if risk > 800 {
        ThreatSeverity::Critical
    } else if risk > 600 {
        ThreatSeverity::High
    } else if risk > 400 {
        ThreatSeverity::Medium
    } else {
        ThreatSeverity::Low
    }
}

/// The severity that goes with a risk.
pub fn risk_severity(risk: u16) -> (r: ThreatSeverity)
    ensures
        r == severity_of_risk(risk),
{
    if risk > 800 {
        ThreatSeverity::Critical
    } else if risk > 600 {
        ThreatSeverity::High
    } else if risk > 400 {
        ThreatSeverity::Medium
    } else {
        ThreatSeverity::Low
    }
}

impl UserProfile {
    /// The risk in the user's activity.
    pub fn calculate_user_risk(&self, now: u64) -> (r: u16)
        ensures
            r == user_risk(self@, now),
            r <= 1000,
    {
        let mut risk: u64 = 0;
        if elapsed_ms(now, self.last_activity) > HOUR_MS {
            risk = 200;
        }
        let mut frequent: u64 = 0;
        let mut i: usize = 0;
        while i < self.action_patterns.len()
            invariant
                i <= self.action_patterns@.len(),
                frequent == frequent_actions(self@.action_patterns, i as int),
                frequent <= i,
            decreases self.action_patterns@.len() - i,
        {
            if self.action_patterns[i].1 > 10 {
                frequent += 1;
            }
            i += 1;
        }
        let by_actions: u64 = if frequent > 10 {
            1000
        } else {
            frequent * 100
        };
        risk = risk + by_actions;
        if self.geo_locations.len() > 3 {
            risk = risk + 300;
        }
        if risk > 1000 {
            1000
        } else {
            risk as u16
        }
    }
}

impl IPProfile {
    /// The risk in the source address.
    pub fn calculate_ip_risk(&self) -> (r: u16)
        ensures
            r == ip_risk(self@),
            r <= 800,
    {
        let mut risk: u16 = 0;
        if self.connection_count > 100 {
            risk = risk + 300;
        }
        if self.failed_attempts > 5 {
            risk = risk + 500;
        }
        risk
    }
}

/// The risk in a session.
pub fn calculate_session_risk(session: Option<&SessionContext>, timestamp: u64) -> (r: u16)
    ensures
        r == session_risk(session.deep_view(), timestamp),
        r <= 500,
{
    match session {
        None => 0,
        Some(s) => {
            let mut risk: u16 = 0;
            if elapsed_ms(timestamp, s.start_time) > 24 * HOUR_MS {
                risk = risk + 200;
            }
            if s.actions > 1000 {
                risk = risk + 300;
            }
            risk
        },
    }
}

/// The behavior that was called out of the ordinary.
#[derive(Debug, PartialEq, Eq)]
pub struct BehavioralContext {
    pub user_id: String,
    pub source_ip: String,
    pub destination_ip: String,
    pub action: String,
    /// Milliseconds since the epoch.
    pub timestamp: u64,
    /// How often the user has taken the action.
    pub frequency: u32,
    /// The anomaly score of the risk, in thousandths.
    pub baseline_deviation: u64,
    /// Thousandths of one.
    pub risk_score: u16,
    pub session_id: String,
    pub user_agent: String,
    pub geo_location: Option<String>,
    pub time_of_day: u8,
    pub day_of_week: u8,
}

/// What a `BehavioralContext` holds, as mathematical values.
pub struct BehavioralContextView {
    pub user_id: Seq<char>,
    pub source_ip: Seq<char>,
    pub destination_ip: Seq<char>,
    pub action: Seq<char>,
    pub timestamp: u64,
    pub frequency: u32,
    pub baseline_deviation: u64,
    pub risk_score: u16,
    pub session_id: Seq<char>,
    pub user_agent: Seq<char>,
    pub geo_location: Option<Seq<char>>,
    pub time_of_day: u8,
    pub day_of_week: u8,
}

impl DeepView for BehavioralContext {
    type V = BehavioralContextView;

    open spec fn deep_view(&self) -> BehavioralContextView {
        BehavioralContextView {
            user_id: self.user_id@,
            source_ip: self.source_ip@,
            destination_ip: self.destination_ip@,
            action: self.action@,
            timestamp: self.timestamp,
            frequency: self.frequency,
            baseline_deviation: self.baseline_deviation,
            risk_score: self.risk_score,
            session_id: self.session_id@,
            user_agent: self.user_agent@,
            geo_location: self.geo_location.deep_view(),
            time_of_day: self.time_of_day,
            day_of_week: self.day_of_week,
        }
    }
}

impl View for BehavioralContext {
    type V = BehavioralContextView;

    open spec fn view(&self) -> BehavioralContextView {
        self.deep_view()
    }
}

/// The finding for behavior out of the ordinary: an insider threat whose
/// severity and confidence follow from the risk.
pub open spec fn behavioral_finding(c: BehavioralContextView, event_id: Seq<char>) -> ThreatFindingView {
    ThreatFindingView {
        finding_id: event_id + "/behavior"@,
        produced_at: c.timestamp,
        detector_kind: DetectorKind::Anomaly,
        severity: severity_of_risk(c.risk_score),
        category: ThreatCategory::InsiderThreat,
        confidence: c.risk_score,
        source_ip: c.source_ip,
        destination_ip: c.destination_ip,
        user_id: c.user_id,
        source_event_ids: seq![event_id],
        matched_rule_ids: seq!["behavior"@],
        description: "Suspicious behavior detected: "@ + c.action + " (risk score: "@
            + permille_text(c.risk_score) + ")"@,
        attributes: Seq::empty(),
    }
}

/// Builds the finding for behavior out of the ordinary.
pub fn create_behavioral_threat(context: &BehavioralContext, event_id: &str) -> (r: ThreatFinding)
    ensures
        r@ == behavioral_finding(context@, event_id@),
{
    let mut finding_id = String::from_str(event_id);
    finding_id.append("/behavior");
    let mut description = String::from_str("Suspicious behavior detected: ");
    description.append(context.action.as_str());
    description.append(" (risk score: ");
    description.append(permille_to_text(context.risk_score).as_str());
    description.append(")");
    let mut source_event_ids: Vec<String> = Vec::new();
    source_event_ids.push(String::from_str(event_id));
    let mut matched_rule_ids: Vec<String> = Vec::new();
    matched_rule_ids.push(String::from_str("behavior"));
    let r = ThreatFinding {
        finding_id,
        produced_at: context.timestamp,
        detector_kind: DetectorKind::Anomaly,
        severity: risk_severity(context.risk_score),
        category: ThreatCategory::InsiderThreat,
        confidence: context.risk_score,
        source_ip: context.source_ip.clone(),
        destination_ip: context.destination_ip.clone(),
        user_id: context.user_id.clone(),
        source_event_ids,
        matched_rule_ids,
        description,
        attributes: Vec::new(),
    };
    proof {
        assert(r@.source_event_ids =~= seq![event_id@]);
        assert(r@.matched_rule_ids =~= seq!["behavior"@]);
        assert(r@.attributes =~= Seq::empty());
    }
    r
}

/// The position of the first profile of this user; the length of the list
/// where there is none.
pub open spec fn user_index(users: Seq<UserProfileView>, user_id: Seq<char>) -> int
    decreases users.len(),
{
    if users.len() == 0 {
        0
    } else if users[0].user_id == user_id {
        0
    } else {
        1 + user_index(users.drop_first(), user_id)
    }
}

/// The position of the first profile of this address; the length of the
/// list where there is none.
pub open spec fn address_index(ips: Seq<IPProfileView>, ip: Seq<char>) -> int
    decreases ips.len(),
{
    if ips.len() == 0 {
        0
    } else if ips[0].ip_address == ip {
        0
    } else {
        1 + address_index(ips.drop_first(), ip)
    }
}

/// The position of the first session of this user; the length of the list
/// where there is none.
pub open spec fn session_index(sessions: Seq<SessionView>, user_id: Seq<char>) -> int
    decreases sessions.len(),
{
    if sessions.len() == 0 {
        0
    } else if sessions[0].user_id == user_id {
        0
    } else {
        1 + session_index(sessions.drop_first(), user_id)
    }
}

proof fn lemma_user_index(users: Seq<UserProfileView>, user_id: Seq<char>, i: int)
    requires
        0 <= i <= users.len(),
        forall|j: int| 0 <= j < i ==> users[j].user_id != user_id,
        i == users.len() || users[i].user_id == user_id,
    ensures
        user_index(users, user_id) == i,
    decreases i,
{
    if i > 0 {
        let t = users.drop_first();
        assert forall|j: int| 0 <= j < i - 1 implies t[j].user_id != user_id by {
            assert(t[j] == users[j + 1]);
        }
        lemma_user_index(t, user_id, i - 1);
    }
}

proof fn lemma_address_index(ips: Seq<IPProfileView>, ip: Seq<char>, i: int)
    requires
        0 <= i <= ips.len(),
        forall|j: int| 0 <= j < i ==> ips[j].ip_address != ip,
        i == ips.len() || ips[i].ip_address == ip,
    ensures
        address_index(ips, ip) == i,
    decreases i,
{
    if i > 0 {
        let t = ips.drop_first();
        assert forall|j: int| 0 <= j < i - 1 implies t[j].ip_address != ip by {
            assert(t[j] == ips[j + 1]);
        }
        lemma_address_index(t, ip, i - 1);
    }
}

proof fn lemma_session_index(sessions: Seq<SessionView>, user_id: Seq<char>, i: int)
    requires
        0 <= i <= sessions.len(),
        forall|j: int| 0 <= j < i ==> sessions[j].user_id != user_id,
        i == sessions.len() || sessions[i].user_id == user_id,
    ensures
        session_index(sessions, user_id) == i,
    decreases i,
{
    if i > 0 {
        let t = sessions.drop_first();
        assert forall|j: int| 0 <= j < i - 1 implies t[j].user_id != user_id by {
            assert(t[j] == sessions[j + 1]);
        }
        lemma_session_index(t, user_id, i - 1);
    }
}

/// The profile that a user seen for the first time begins with.
pub open spec fn blank_user(e: RawEventView) -> UserProfileView {
    UserProfileView {
        user_id: e.user_id,
        action_patterns: Seq::empty(),
        risk_score: 0,
        last_activity: e.timestamp_ms(),
        geo_locations: Seq::empty(),
        user_agents: Seq::empty(),
    }
}

/// How often a profile has the user taking an action, with the event
/// counted in.
pub open spec fn frequency_with(p: UserProfileView, e: RawEventView) -> u32 {
    raised(
        match number_of(p.action_patterns, e.action) {
            Some(n) => n,
            None => 0,
        },
    )
}

/// The profile of a user after an event of the user: the action is counted
/// once more, and the time of the event is that of the last activity.
pub open spec fn user_seen(p: UserProfileView, e: RawEventView) -> UserProfileView {
    UserProfileView {
        action_patterns: with_pair(p.action_patterns, e.action, frequency_with(p, e)),
        last_activity: e.timestamp_ms(),
        ..p
    }
}

/// The profile that a source address seen for the first time begins with.
pub open spec fn blank_address(e: RawEventView) -> IPProfileView {
    IPProfileView {
        ip_address: e.source_ip,
        connection_count: 0,
        failed_attempts: 0,
        last_seen: e.timestamp_ms(),
        geo_location: None,
        risk_score: 0,
    }
}

/// The profile of a source address after an event from it: one more
/// connection, last seen at the time of the event.
pub open spec fn address_seen(p: IPProfileView, e: RawEventView) -> IPProfileView {
    IPProfileView { connection_count: raised(p.connection_count), last_seen: e.timestamp_ms(), ..p }
}

impl UserProfile {
    /// The profile that a user seen for the first time begins with.
    pub fn blank(event: &RawEvent) -> (r: UserProfile)
        ensures
            r@ == blank_user(event@),
    {
        let r = UserProfile {
            user_id: event.user_id.clone(),
            action_patterns: Vec::new(),
            risk_score: 0,
            last_activity: event.timestamp_ms(),
            geo_locations: Vec::new(),
            user_agents: Vec::new(),
        };
        proof {
            assert(r@.action_patterns =~= Seq::empty());
            assert(r@.geo_locations =~= Seq::empty());
            assert(r@.user_agents =~= Seq::empty());
        }
        r
    }

    /// Takes an event of the user in, and says how often the user has taken
    /// its action by now.
    pub fn see(&mut self, event: &RawEvent) -> (frequency: u32)
        ensures
            final(self)@ == user_seen(old(self)@, event@),
            frequency == frequency_with(old(self)@, event@),
    {
        let at = find_number(&self.action_patterns, event.action.as_str());
        let taken: u32 = if at < self.action_patterns.len() {
            self.action_patterns[at].1
        } else {
            0
        };
        let frequency: u32 = if taken == u32::MAX {
            taken
        } else {
            taken + 1
        };
        set_number(&mut self.action_patterns, event.action.as_str(), frequency);
        self.last_activity = event.timestamp_ms();
        frequency
    }
}

impl IPProfile {
    /// The profile that a source address seen for the first time begins
    /// with.
    pub fn blank(event: &RawEvent) -> (r: IPProfile)
        ensures
            r@ == blank_address(event@),
    {
        IPProfile {
            ip_address: event.source_ip.clone(),
            connection_count: 0,
            failed_attempts: 0,
            last_seen: event.timestamp_ms(),
            geo_location: None,
            risk_score: 0,
        }
    }

    /// Takes an event from the address in.
    pub fn see(&mut self, event: &RawEvent)
        ensures
            final(self)@ == address_seen(old(self)@, event@),
    {
        if self.connection_count < u32::MAX {
            self.connection_count = self.connection_count + 1;
        }
        self.last_seen = event.timestamp_ms();
    }
}

/// The state of the behavioral analysis, as mathematical values.
pub struct BehaviorView {
    pub users: Seq<UserProfileView>,
    pub ips: Seq<IPProfileView>,
    pub sessions: Seq<SessionView>,
    pub anomaly: AnomalyEngineView,
}

impl BehaviorView {
    /// The state before anything was seen, with an anomaly engine that
    /// scores by `params`.
    pub open spec fn blank(params: AnomalyParams) -> BehaviorView {
        BehaviorView {
            users: Seq::empty(),
            ips: Seq::empty(),
            sessions: Seq::empty(),
            anomaly: AnomalyEngineView { profiles: Seq::empty(), params },
        }
    }
}

/// What the analysis of one event gives.
pub struct Analysis {
    pub state: BehaviorView,
    pub context: Option<BehavioralContextView>,
}

/// The name under which the anomaly engine keeps the risk of a user.
pub open spec fn risk_key(user_id: Seq<char>) -> Seq<char> {
    "risk:"@ + user_id
}

/// The analysis of an event. The profiles of its user and source address
/// take the event in; the risk of the subject is the mean of the three
/// risks; the anomaly engine scores the risk against the user's earlier
/// risks and lets it join them; and where it calls the risk anomalous, the
/// behavior is handed back.
pub open spec fn analysis(s: BehaviorView, e: RawEventView, now: u64) -> Analysis {
    let u = user_index(s.users, e.user_id);
    let a = address_index(s.ips, e.source_ip);
    let k = session_index(s.sessions, e.user_id);
    let known_user = if u < s.users.len() {
        s.users[u]
    } else {
        blank_user(e)
    };
    let known_address = if a < s.ips.len() {
        s.ips[a]
    } else {
        blank_address(e)
    };
    let user = user_seen(known_user, e);
    let address = address_seen(known_address, e);
    let by_user = user_risk(user, now);
    let by_address = ip_risk(address);
    let by_session = session_risk(
        if k < s.sessions.len() {
            Some(s.sessions[k])
        } else {
            None
        },
        e.timestamp_ms(),
    );
    let risk = total_risk(by_user, by_address, by_session);
    let scored = verdict(
        profile_for(s.anomaly.profiles, risk_key(e.user_id)),
        risk as i64,
        s.anomaly.params,
    );
    let user_after = UserProfileView { risk_score: by_user, ..user };
    let address_after = IPProfileView { risk_score: by_address, ..address };
    Analysis {
        state: BehaviorView {
            users: if u < s.users.len() {
                s.users.update(u, user_after)
            } else {
                s.users.push(user_after)
            },
            ips: if a < s.ips.len() {
                s.ips.update(a, address_after)
            } else {
                s.ips.push(address_after)
            },
            sessions: s.sessions,
            anomaly: s.anomaly.learned(risk_key(e.user_id), risk as i64),
        },
        context: if scored.is_anomaly {
            Some(
                BehavioralContextView {
                    user_id: e.user_id,
                    source_ip: e.source_ip,
                    destination_ip: e.destination_ip,
                    action: e.action,
                    timestamp: e.timestamp_ms(),
                    frequency: frequency_with(known_user, e),
                    baseline_deviation: scored.score,
                    risk_score: risk,
                    session_id: match e.attribute("session_id"@) {
                        Some(t) => t,
                        None => Seq::empty(),
                    },
                    user_agent: match e.attribute("user_agent"@) {
                        Some(t) => t,
                        None => Seq::empty(),
                    },
                    geo_location: address.geo_location,
                    time_of_day: (((e.timestamp_ms() / 1000) % DAY_SECONDS) / 3600) as u8,
                    day_of_week: (((e.timestamp_ms() / 1000) / DAY_SECONDS) % 7) as u8,
                },
            )
        } else {
            None
        },
    }
}

/// The behavioral analysis engine.
pub struct BehavioralAnalysisEngine {
    user_profiles: Vec<UserProfile>,
    ip_profiles: Vec<IPProfile>,
    session_tracker: Vec<SessionContext>,
    anomaly_engine: MLAnomalyEngine,
}

impl View for BehavioralAnalysisEngine {
    type V = BehaviorView;

    closed spec fn view(&self) -> BehaviorView {
        BehaviorView {
            users: self.user_profiles.deep_view(),
            ips: self.ip_profiles.deep_view(),
            sessions: self.session_tracker.deep_view(),
            anomaly: self.anomaly_engine@,
        }
    }
}

impl BehavioralAnalysisEngine {
    /// An engine without profiles. Its anomaly engine warms up over a
    /// hundred samples, with a threshold of two and a smoothing of a tenth.
    pub fn new() -> (r: Self)
        ensures
            r@.anomaly.wf(),
            r@ == BehaviorView::blank(limited(100, 2000, 100)),
    {
        BehavioralAnalysisEngine::with_params(100, 2000, 100)
    }

    /// An engine without profiles whose anomaly engine scores as told.
    pub fn with_params(min_samples: u64, z_threshold: u32, ewma_alpha: u16) -> (r: Self)
        ensures
            r@.anomaly.wf(),
            r@ == BehaviorView::blank(limited(min_samples, z_threshold, ewma_alpha)),
    {
        let r = BehavioralAnalysisEngine {
            user_profiles: Vec::new(),
            ip_profiles: Vec::new(),
            session_tracker: Vec::new(),
            anomaly_engine: MLAnomalyEngine::new(min_samples, z_threshold, ewma_alpha),
        };
        proof {
            assert(r@.users =~= Seq::<UserProfileView>::empty());
            assert(r@.ips =~= Seq::<IPProfileView>::empty());
            assert(r@.sessions =~= Seq::<SessionView>::empty());
        }
        r
    }

    /// Begins to follow a session of a user; it replaces the session that
    /// was followed for the user before.
    pub fn track_session(&mut self, session: SessionContext)
        ensures
            final(self)@ == (BehaviorView {
                sessions: if session_index(old(self)@.sessions, session@.user_id) < old(self)@.sessions.len() {
                    old(self)@.sessions.update(
                        session_index(old(self)@.sessions, session@.user_id),
                        session@,
                    )
                } else {
                    old(self)@.sessions.push(session@)
                },
                ..old(self)@
            }),
    {
        let k = self.session_position(session.user_id.as_str());
        let ghost before = self@.sessions;
        if k < self.session_tracker.len() {
            self.session_tracker[k] = session;
            proof {
                assert(self@.sessions =~= before.update(k as int, session@));
            }
        } else {
            self.session_tracker.push(session);
            proof {
                assert(self@.sessions =~= before.push(session@));
            }
        }
    }

    /// Where the session of a user stands.
    fn session_position(&self, user_id: &str) -> (k: usize)
        ensures
            k as int == session_index(self@.sessions, user_id@),
            k <= self@.sessions.len(),
    {
        let mut k: usize = 0;
        while k < self.session_tracker.len()
            invariant
                k <= self.session_tracker@.len(),
                forall|j: int| 0 <= j < k ==> self@.sessions[j].user_id != user_id@,
            decreases self.session_tracker@.len() - k,
        {
            if str_eq(self.session_tracker[k].user_id.as_str(), user_id) {
                proof {
                    lemma_session_index(self@.sessions, user_id@, k as int);
                }
                return k;
            }
            k += 1;
        }
        proof {
            lemma_session_index(self@.sessions, user_id@, k as int);
        }
        k
    }

    /// Where the profile of a user stands.
    fn user_position(&self, user_id: &str) -> (k: usize)
        ensures
            k as int == user_index(self@.users, user_id@),
            k <= self@.users.len(),
    {
        let mut k: usize = 0;
        while k < self.user_profiles.len()
            invariant
                k <= self.user_profiles@.len(),
                forall|j: int| 0 <= j < k ==> self@.users[j].user_id != user_id@,
            decreases self.user_profiles@.len() - k,
        {
            if str_eq(self.user_profiles[k].user_id.as_str(), user_id) {
                proof {
                    lemma_user_index(self@.users, user_id@, k as int);
                }
                return k;
            }
            k += 1;
        }
        proof {
            lemma_user_index(self@.users, user_id@, k as int);
        }
        k
    }

    /// Where the profile of a source address stands.
    fn address_position(&self, ip: &str) -> (k: usize)
        ensures
            k as int == address_index(self@.ips, ip@),
            k <= self@.ips.len(),
    {
        let mut k: usize = 0;
        while k < self.ip_profiles.len()
            invariant
                k <= self.ip_profiles@.len(),
                forall|j: int| 0 <= j < k ==> self@.ips[j].ip_address != ip@,
            decreases self.ip_profiles@.len() - k,
        {
            if str_eq(self.ip_profiles[k].ip_address.as_str(), ip) {
                proof {
                    lemma_address_index(self@.ips, ip@, k as int);
                }
                return k;
            }
            k += 1;
        }
        proof {
            lemma_address_index(self@.ips, ip@, k as int);
        }
        k
    }

    /// How many users have a profile.
    pub fn user_count(&self) -> (r: usize)
        ensures
            r == self@.users.len(),
    {
        self.user_profiles.len()
    }

    /// Analyzes the behavior that an event shows.
    pub fn analyze_behavior(&mut self, event: &RawEvent, now: u64) -> (r: Option<BehavioralContext>)
        requires
            old(self)@.anomaly.wf(),
        ensures
            final(self)@.anomaly.wf(),
            final(self)@ == analysis(old(self)@, event@, now).state,
            r.deep_view() == analysis(old(self)@, event@, now).context,
    {
        let timestamp = event.timestamp_ms();
        let u = self.user_position(event.user_id.as_str());
        let a = self.address_position(event.source_ip.as_str());
        let k = self.session_position(event.user_id.as_str());
        let ghost before = self@;
        let ghost wanted = analysis(before, event@, now);
        let ghost known_user = if u < before.users.len() {
            before.users[u as int]
        } else {
            blank_user(event@)
        };
        let ghost known_address = if a < before.ips.len() {
            before.ips[a as int]
        } else {
            blank_address(event@)
        };
        let user_known = u < self.user_profiles.len();
        let address_known = a < self.ip_profiles.len();
        let mut user = if user_known {
            self.user_profiles.remove(u)
        } else {
            UserProfile::blank(event)
        };
        let mut address = if address_known {
            self.ip_profiles.remove(a)
        } else {
            IPProfile::blank(event)
        };
        proof {
            assert(user@ == known_user);
            assert(address@ == known_address);
        }
        let frequency = user.see(event);
        address.see(event);
        let by_user = user.calculate_user_risk(now);
        let by_address = address.calculate_ip_risk();
        let by_session = if k < self.session_tracker.len() {
            calculate_session_risk(Some(&self.session_tracker[k]), timestamp)
        } else {
            calculate_session_risk(None, timestamp)
        };
        let risk: u16 = (by_user + by_address + by_session) / 3;
        user.risk_score = by_user;
        address.risk_score = by_address;
        let geo_location = match &address.geo_location {
            Some(g) => Some(g.clone()),
            None => None,
        };
        let ghost user_after = user@;
        let ghost address_after = address@;
        if user_known {
            self.user_profiles.insert(u, user);
            proof {
                assert(self.user_profiles.deep_view() =~= before.users.update(u as int, user_after));
            }
        } else {
            self.user_profiles.push(user);
            proof {
                assert(self.user_profiles.deep_view() =~= before.users.push(user_after));
            }
        }
        if address_known {
            self.ip_profiles.insert(a, address);
            proof {
                assert(self.ip_profiles.deep_view() =~= before.ips.update(a as int, address_after));
            }
        } else {
            self.ip_profiles.push(address);
            proof {
                assert(self.ip_profiles.deep_view() =~= before.ips.push(address_after));
            }
        }
        let mut key = String::from_str("risk:");
        key.append(event.user_id.as_str());
        let scored = self.anomaly_engine.observe(key.as_str(), risk as i64);
        proof {
            assert(self@.users == wanted.state.users);
            assert(self@.ips == wanted.state.ips);
        }
        match scored {
            None => None,
            Some(result) => {
                if !result.is_anomaly {
                    return None;
                }
                let session_id = match event.attribute("session_id") {
                    Some(t) => t.clone(),
                    None => String::new(),
                };
                let user_agent = match event.attribute("user_agent") {
                    Some(t) => t.clone(),
                    None => String::new(),
                };
                let seconds = timestamp / 1000;
                Some(
                    BehavioralContext {
                        user_id: event.user_id.clone(),
                        source_ip: event.source_ip.clone(),
                        destination_ip: event.destination_ip.clone(),
                        action: event.action.clone(),
                        timestamp,
                        frequency,
                        baseline_deviation: result.score,
                        risk_score: risk,
                        session_id,
                        user_agent,
                        geo_location,
                        time_of_day: ((seconds % DAY_SECONDS) / 3600) as u8,
                        day_of_week: ((seconds / DAY_SECONDS) % 7) as u8,
                    },
                )
            },
        }
    }
}

} // verus!
