//! The incident orchestrator: it turns findings into incidents, merges what
//! belongs together, tries the response rules in order, hands actions to
//! executors and records what came of them, and keeps each incident's
//! lifecycle.

use vstd::prelude::*;
use crate::incident::ActionFailure;
use crate::incident::ActionRequest;
use crate::lifecycle::expire_spec;
use crate::lifecycle::IncidentStats;
use crate::lifecycle::selected;
use crate::lifecycle::SelectionView;
use crate::text::contains;
use crate::text::contains_ignoring_case;
use crate::lifecycle::expired_index;
use crate::lifecycle::has_text;
use crate::lifecycle::IncidentError;
use crate::lifecycle::lemma_expired_index;
use crate::lifecycle::lemma_holder_index;
use crate::lifecycle::lemma_index_bounds;
use crate::lifecycle::lemma_pending_index;
use crate::lifecycle::lemma_record;
use crate::lifecycle::lemma_result_index;
use crate::lifecycle::lemma_settle;
use crate::lifecycle::lemma_terminal_kept_transitive;
use crate::lifecycle::listed_at;
use crate::lifecycle::Outcome;
use crate::lifecycle::outcome_record;
use crate::lifecycle::record_spec;
use crate::lifecycle::Recorded;
use crate::lifecycle::result_index;
use crate::lifecycle::settle_spec;
use crate::lifecycle::status_spec;
use crate::lifecycle::timed_out;
use crate::lifecycle::unexpired;
use crate::lifecycle::unexpired_marks;
use crate::lifecycle::with_note;
use crate::lifecycle::with_result;
use crate::lifecycle::with_status;
use crate::lifecycle::with_tag;
use crate::incident::ActionRequestView;
use crate::incident::create_incident_from_threat;
use crate::incident::ResponseAction;
use crate::incident::ResponseActionResult;
use crate::incident::ResponseActionResultView;
use crate::incident::ResponseActionView;
use crate::text::decimal_text;
use crate::text::u64_to_text;
use crate::incident::incident_from;
use crate::incident::incident_with;
use crate::incident::Incident;
use crate::incident::IncidentSeverity;
use crate::incident::IncidentStatus;
use crate::incident::IncidentView;
use crate::incident::SlaPolicy;
use crate::model::ThreatCategory;
use crate::model::ThreatFinding;
use crate::model::ThreatFindingView;
use crate::outside::fresh_uuid;
use crate::response::lemma_rule_order;
use crate::response::make_default_rule;
use crate::response::default_rule;
use crate::response::ResponseRule;
use crate::response::ResponseRuleView;
use crate::response::rules_ordered;
use crate::signature::elapsed;
use crate::signature::elapsed_ms;
use crate::text::fnv1a_from;
use crate::text::hash_more;
use crate::text::str_eq;
use crate::text::FNV_OFFSET;
use vstd::utf8::encode_utf8;

verus! {

/// What the orchestrator is set up with.
#[derive(Clone, Copy, Debug, PartialEq, Eq, Structural)]
pub struct OrchestratorSettings {
    /// How long after an incident was opened a finding still merges into it.
    pub merge_window_ms: u64,
    pub sla: SlaPolicy,
    /// The cooldown of a rule that names none.
    pub cooldown_default_ms: u64,
    /// How long findings like a false positive stay suppressed.
    pub quarantine_ms: u64,
    /// How long an executor has to answer a request.
    pub action_timeout_ms: u64,
    /// How long an account stays on the list of disabled accounts.
    pub disable_account_ms: u64,
}

impl OrchestratorSettings {
    /// A merge window of 30 s, the standard deadlines, no default cooldown,
    /// a quarantine of one hour, 30 s for an executor to answer and one hour
    /// for a disabled account.
    pub open spec fn standard_settings() -> OrchestratorSettings {
        OrchestratorSettings {
            merge_window_ms: 30_000,
            sla: SlaPolicy {
                low_ms: 86_400_000,
                medium_ms: 28_800_000,
                high_ms: 7_200_000,
                critical_ms: 1_800_000,
                emergency_ms: 900_000,
            },
            cooldown_default_ms: 0,
            quarantine_ms: 3_600_000,
            action_timeout_ms: 30_000,
            disable_account_ms: 3_600_000,
        }
    }

    /// The standard settings.
    pub fn standard() -> (r: OrchestratorSettings)
        ensures
            r == OrchestratorSettings::standard_settings(),
    {
        OrchestratorSettings {
            merge_window_ms: 30_000,
            sla: SlaPolicy::standard(),
            cooldown_default_ms: 0,
            quarantine_ms: 3_600_000,
            action_timeout_ms: 30_000,
            disable_account_ms: 3_600_000,
        }
    }
}

/// Where and how alerts go out.
#[derive(Clone, Debug, PartialEq, Eq)]
pub struct AlertConfig {
    pub email_enabled: bool,
    pub email_smtp_server: String,
    pub email_smtp_port: u16,
    pub email_username: String,
    pub email_password: String,
    pub email_from: String,
    pub email_to: Vec<String>,
    pub webhook_enabled: bool,
    pub webhook_urls: Vec<String>,
    pub grafana_enabled: bool,
    pub grafana_url: String,
    pub grafana_api_key: String,
    pub slack_enabled: bool,
    pub slack_webhook_url: String,
    pub teams_enabled: bool,
    pub teams_webhook_url: String,
    pub pagerduty_enabled: bool,
    pub pagerduty_api_key: String,
    pub pagerduty_service_id: String,
}

/// How an outside playbook platform is reached.
#[derive(Clone, Debug, PartialEq, Eq)]
pub struct SOARConfig {
    pub enabled: bool,
    pub platform: String,
    pub api_url: String,
    pub api_key: String,
    pub timeout_seconds: u64,
    pub retry_attempts: u32,
    pub custom_headers: Vec<(String, String)>,
}

/// What an `AlertConfig` holds, as mathematical values.
pub struct AlertConfigView {
    pub email_enabled: bool,
    pub email_smtp_server: Seq<char>,
    pub email_smtp_port: u16,
    pub email_username: Seq<char>,
    pub email_password: Seq<char>,
    pub email_from: Seq<char>,
    pub email_to: Seq<Seq<char>>,
    pub webhook_enabled: bool,
    pub webhook_urls: Seq<Seq<char>>,
    pub grafana_enabled: bool,
    pub grafana_url: Seq<char>,
    pub grafana_api_key: Seq<char>,
    pub slack_enabled: bool,
    pub slack_webhook_url: Seq<char>,
    pub teams_enabled: bool,
    pub teams_webhook_url: Seq<char>,
    pub pagerduty_enabled: bool,
    pub pagerduty_api_key: Seq<char>,
    pub pagerduty_service_id: Seq<char>,
}

impl DeepView for AlertConfig {
    type V = AlertConfigView;

    open spec fn deep_view(&self) -> AlertConfigView {
        AlertConfigView {
            email_enabled: self.email_enabled,
            email_smtp_server: self.email_smtp_server@,
            email_smtp_port: self.email_smtp_port,
            email_username: self.email_username@,
            email_password: self.email_password@,
            email_from: self.email_from@,
            email_to: self.email_to.deep_view(),
            webhook_enabled: self.webhook_enabled,
            webhook_urls: self.webhook_urls.deep_view(),
            grafana_enabled: self.grafana_enabled,
            grafana_url: self.grafana_url@,
            grafana_api_key: self.grafana_api_key@,
            slack_enabled: self.slack_enabled,
            slack_webhook_url: self.slack_webhook_url@,
            teams_enabled: self.teams_enabled,
            teams_webhook_url: self.teams_webhook_url@,
            pagerduty_enabled: self.pagerduty_enabled,
            pagerduty_api_key: self.pagerduty_api_key@,
            pagerduty_service_id: self.pagerduty_service_id@,
        }
    }
}

impl View for AlertConfig {
    type V = AlertConfigView;

    open spec fn view(&self) -> AlertConfigView {
        self.deep_view()
    }
}

/// What a `SOARConfig` holds, as mathematical values.
pub struct SOARConfigView {
    pub enabled: bool,
    pub platform: Seq<char>,
    pub api_url: Seq<char>,
    pub api_key: Seq<char>,
    pub timeout_seconds: u64,
    pub retry_attempts: u32,
    pub custom_headers: Seq<(Seq<char>, Seq<char>)>,
}

impl DeepView for SOARConfig {
    type V = SOARConfigView;

    open spec fn deep_view(&self) -> SOARConfigView {
        SOARConfigView {
            enabled: self.enabled,
            platform: self.platform@,
            api_url: self.api_url@,
            api_key: self.api_key@,
            timeout_seconds: self.timeout_seconds,
            retry_attempts: self.retry_attempts,
            custom_headers: self.custom_headers.deep_view(),
        }
    }
}

impl View for SOARConfig {
    type V = SOARConfigView;

    open spec fn view(&self) -> SOARConfigView {
        self.deep_view()
    }
}

/// A way an alert can take.
#[derive(Clone, Debug, PartialEq, Eq)]
pub enum AlertChannel {
    Email,
    Webhook,
    Grafana,
    Slack,
    Teams,
    PagerDuty,
    Custom { url: String },
}

/// Whether an alert of a severity goes out on a channel: e-mail and Slack
/// from Medium, webhook and Teams from High, PagerDuty from Critical, each
/// only where it is switched on; nothing on any other channel.
pub open spec fn alert_goes(config: AlertConfig, channel: AlertChannel, severity: IncidentSeverity) -> bool {
    match channel {
        AlertChannel::Email => config.email_enabled && severity.rank() >= 1,
        AlertChannel::Slack => config.slack_enabled && severity.rank() >= 1,
        AlertChannel::Webhook => config.webhook_enabled && severity.rank() >= 2,
        AlertChannel::Teams => config.teams_enabled && severity.rank() >= 2,
        AlertChannel::PagerDuty => config.pagerduty_enabled && severity.rank() >= 3,
        AlertChannel::Grafana => false,
        AlertChannel::Custom { .. } => false,
    }
}

/// Whether an alert of a severity goes out on a channel.
pub fn should_send_alert(config: &AlertConfig, channel: &AlertChannel, severity: IncidentSeverity) -> (r:
    bool)
    ensures
        r == alert_goes(*config, *channel, severity),
{
    match channel {
        AlertChannel::Email => config.email_enabled && severity.level() >= 1,
        AlertChannel::Slack => config.slack_enabled && severity.level() >= 1,
        AlertChannel::Webhook => config.webhook_enabled && severity.level() >= 2,
        AlertChannel::Teams => config.teams_enabled && severity.level() >= 2,
        AlertChannel::PagerDuty => config.pagerduty_enabled && severity.level() >= 3,
        AlertChannel::Grafana => false,
        AlertChannel::Custom { .. } => false,
    }
}

/// The first position at which `rule` is tried before the rule standing
/// there; the length of the list where there is none.
pub open spec fn insert_position(rules: Seq<ResponseRuleView>, rule: ResponseRuleView) -> int
    decreases rules.len(),
{
    if rules.len() == 0 {
        0
    } else if rule.before(rules[0]) {
        0
    } else {
        1 + insert_position(rules.drop_first(), rule)
    }
}

/// The position of the first rule with this identifier; the length of the
/// list where there is none.
pub open spec fn rule_index(rules: Seq<ResponseRuleView>, id: Seq<char>) -> int
    decreases rules.len(),
{
    if rules.len() == 0 {
        0
    } else if rules[0].id == id {
        0
    } else {
        1 + rule_index(rules.drop_first(), id)
    }
}

/// The list without the first rule of this identifier.
pub open spec fn rules_without(rules: Seq<ResponseRuleView>, id: Seq<char>) -> Seq<ResponseRuleView> {
    if rule_index(rules, id) < rules.len() {
        rules.remove(rule_index(rules, id))
    } else {
        rules
    }
}

/// The list with `rule` put where the order of trial wants it.
pub open spec fn rules_with(rules: Seq<ResponseRuleView>, rule: ResponseRuleView) -> Seq<ResponseRuleView> {
    rules.insert(insert_position(rules, rule), rule)
}

proof fn lemma_insert_position(rules: Seq<ResponseRuleView>, rule: ResponseRuleView, i: int)
    requires
        0 <= i <= rules.len(),
        forall|j: int| 0 <= j < i ==> !rule.before(rules[j]),
        i == rules.len() || rule.before(rules[i]),
    ensures
        insert_position(rules, rule) == i,
    decreases i,
{
    if i > 0 {
        let t = rules.drop_first();
        assert forall|j: int| 0 <= j < i - 1 implies !rule.before(t[j]) by {
            assert(t[j] == rules[j + 1]);
        }
        lemma_insert_position(t, rule, i - 1);
    }
}

proof fn lemma_rule_index(rules: Seq<ResponseRuleView>, id: Seq<char>, i: int)
    requires
        0 <= i <= rules.len(),
        forall|j: int| 0 <= j < i ==> rules[j].id != id,
        i == rules.len() || rules[i].id == id,
    ensures
        rule_index(rules, id) == i,
    decreases i,
{
    if i > 0 {
        let t = rules.drop_first();
        assert forall|j: int| 0 <= j < i - 1 implies t[j].id != id by {
            assert(t[j] == rules[j + 1]);
        }
        lemma_rule_index(t, id, i - 1);
    }
}

/// Putting a rule where the order wants it keeps the order.
pub proof fn lemma_rules_with_ordered(rules: Seq<ResponseRuleView>, rule: ResponseRuleView, k: int)
    requires
        rules_ordered(rules),
        0 <= k <= rules.len(),
        forall|j: int| 0 <= j < k ==> !rule.before(rules[j]),
        k == rules.len() || rule.before(rules[k]),
    ensures
        rules_ordered(rules.insert(k, rule)),
{
    let after = rules.insert(k, rule);
    assert forall|i: int, j: int| 0 <= i < j < after.len() implies !after[j].before(after[i]) by {
        if j == k {
            assert(after[i] == rules[i]);
        } else if i == k {
            assert(after[j] == rules[j - 1]);
            lemma_rule_order(rules[j - 1], rule, rules[k]);
            if j - 1 > k {
                assert(!rules[j - 1].before(rules[k]));
            }
        } else {
            let a = if i < k {
                i
            } else {
                i - 1
            };
            let b = if j < k {
                j
            } else {
                j - 1
            };
            assert(after[i] == rules[a]);
            assert(after[j] == rules[b]);
        }
    }
}

/// The fingerprint of a source address, a user and a category: the three
/// texts hashed one after the other.
pub open spec fn key_fingerprint(source_ip: Seq<char>, user_id: Seq<char>, category: ThreatCategory) -> u64 {
    fnv1a_from(
        fnv1a_from(fnv1a_from(FNV_OFFSET, encode_utf8(source_ip)), encode_utf8(user_id)),
        encode_utf8(category.name_text()),
    )
}

/// The fingerprint by which findings are told alike: that of their source
/// address, user and category.
pub open spec fn finding_fingerprint(f: ThreatFindingView) -> u64 {
    key_fingerprint(f.source_ip, f.user_id, f.category)
}

/// Computes the fingerprint of a source address, a user and a category.
pub fn fingerprint_of_key(source_ip: &str, user_id: &str, category: ThreatCategory) -> (r: u64)
    ensures
        r == key_fingerprint(source_ip@, user_id@, category),
{
    let h1 = hash_more(FNV_OFFSET, source_ip.as_bytes());
    let h2 = hash_more(h1, user_id.as_bytes());
    let name = category.name();
    hash_more(h2, name.as_str().as_bytes())
}

/// Computes the fingerprint of a finding.
pub fn fingerprint_of(f: &ThreatFinding) -> (r: u64)
    ensures
        r == finding_fingerprint(f@),
{
    fingerprint_of_key(f.source_ip.as_str(), f.user_id.as_str(), f.category)
}

/// Whether a fingerprint is under quarantine at `now`: some entry names it
/// and has not run out.
pub open spec fn quarantined(entries: Seq<(u64, u64)>, fingerprint: u64, now: u64) -> bool {
    exists|i: int| 0 <= i < entries.len() && (#[trigger] entries[i]).0 == fingerprint && now < entries[i].1
}

/// The position of the first incident that absorbs the finding; the length
/// of the list where none does.
pub open spec fn merge_index(incidents: Seq<IncidentView>, f: ThreatFindingView, now: u64, window_ms: u64) -> int
    decreases incidents.len(),
{
    if incidents.len() == 0 {
        0
    } else if incidents[0].absorbs(f, now, window_ms) {
        0
    } else {
        1 + merge_index(incidents.drop_first(), f, now, window_ms)
    }
}

proof fn lemma_merge_index(incidents: Seq<IncidentView>, f: ThreatFindingView, now: u64, window_ms: u64, i: int)
    requires
        0 <= i <= incidents.len(),
        forall|j: int| 0 <= j < i ==> !incidents[j].absorbs(f, now, window_ms),
        i == incidents.len() || incidents[i].absorbs(f, now, window_ms),
    ensures
        merge_index(incidents, f, now, window_ms) == i,
    decreases i,
{
    if i > 0 {
        let t = incidents.drop_first();
        assert forall|j: int| 0 <= j < i - 1 implies !t[j].absorbs(f, now, window_ms) by {
            assert(t[j] == incidents[j + 1]);
        }
        lemma_merge_index(t, f, now, window_ms, i - 1);
    }
}

/// The position of the first incident with this identifier; the length of
/// the list where there is none.
pub open spec fn incident_index(incidents: Seq<IncidentView>, id: Seq<char>) -> int
    decreases incidents.len(),
{
    if incidents.len() == 0 {
        0
    } else if incidents[0].id == id {
        0
    } else {
        1 + incident_index(incidents.drop_first(), id)
    }
}

proof fn lemma_incident_index(incidents: Seq<IncidentView>, id: Seq<char>, i: int)
    requires
        0 <= i <= incidents.len(),
        forall|j: int| 0 <= j < i ==> incidents[j].id != id,
        i == incidents.len() || incidents[i].id == id,
    ensures
        incident_index(incidents, id) == i,
    decreases i,
{
    if i > 0 {
        let t = incidents.drop_first();
        assert forall|j: int| 0 <= j < i - 1 implies t[j].id != id by {
            assert(t[j] == incidents[j + 1]);
        }
        lemma_incident_index(t, id, i - 1);
    }
}

/// Every incident that was in a terminal state is still there and differs
/// in notes and tags at most; every incident that was resolved differs in
/// notes, tags and the time of its last update at most, but for the step to
/// Closed; no incident has gone and none has changed its identifier.
pub open spec fn terminal_kept(before: Seq<IncidentView>, after: Seq<IncidentView>) -> bool {
    &&& before.len() <= after.len()
    &&& forall|i: int| 0 <= i < before.len() ==> (#[trigger] after[i]).id == before[i].id
    &&& forall|i: int|
        0 <= i < before.len() && before[i].status.is_terminal() ==> before[i].same_but_notes_and_tags(
            #[trigger] after[i],
        )
    &&& forall|i: int|
        0 <= i < before.len() && before[i].status == IncidentStatus::Resolved
            ==> before[i].same_but_for_closing(#[trigger] after[i])
}

/// Every incident of the list keeps its invariant.
pub open spec fn incidents_wf(incidents: Seq<IncidentView>) -> bool {
    forall|i: int| 0 <= i < incidents.len() ==> (#[trigger] incidents[i]).wf()
}

/// What became of a finding handed to the orchestrator.
#[derive(Clone, Copy, Debug, PartialEq, Eq, Structural)]
pub enum Ingested {
    /// Findings of its fingerprint are under quarantine; it was dropped.
    Suppressed,
    /// It was merged into the incident at this position.
    Merged(usize),
    /// It opened the incident at this position.
    Created(usize),
}

/// A request that an executor has not answered yet.
#[derive(Debug, PartialEq, Eq)]
pub struct PendingAction {
    pub request: ActionRequest,
    /// The position of the incident the action was issued for.
    pub incident: usize,
}

/// What a `PendingAction` holds, as mathematical values.
pub struct PendingView {
    pub request: ActionRequestView,
    pub incident: usize,
}

impl DeepView for PendingAction {
    type V = PendingView;

    open spec fn deep_view(&self) -> PendingView {
        PendingView { request: self.request@, incident: self.incident }
    }
}

impl View for PendingAction {
    type V = PendingView;

    open spec fn view(&self) -> PendingView {
        self.deep_view()
    }
}

/// The state of the orchestrator, as mathematical values.
pub struct OrchestratorView {
    pub settings: OrchestratorSettings,
    /// The response rules in the order in which they are tried.
    pub rules: Seq<ResponseRuleView>,
    /// Every incident ever opened, oldest first.
    pub incidents: Seq<IncidentView>,
    /// Blocked addresses, each with the time at which the block runs out.
    pub blocked_ips: Seq<(Seq<char>, u64)>,
    /// Disabled accounts, each with the time at which it comes back.
    pub disabled_accounts: Seq<(Seq<char>, u64)>,
    /// The requests that executors have not answered yet, oldest first.
    pub pending: Seq<PendingView>,
    /// Fingerprints under quarantine, each with the time at which it ends.
    pub quarantine: Seq<(u64, u64)>,
    /// How many actions were issued so far.
    pub actions_issued: u64,
}

impl OrchestratorView {
    /// The orchestrator's invariant: every incident keeps its own, the rules
    /// stand in the order of trial, and every pending request belongs to an
    /// incident.
    pub open spec fn wf(self) -> bool {
        &&& incidents_wf(self.incidents)
        &&& rules_ordered(self.rules)
        &&& forall|i: int| 0 <= i < self.pending.len() ==> (#[trigger] self.pending[i]).incident < self.incidents.len()
    }
}

/// What a finding does to the orchestrator: nothing under quarantine;
/// otherwise it goes into the first incident that absorbs it, or opens a new
/// incident at the end, under the identifier `id`.
pub open spec fn ingest_spec(s: OrchestratorView, f: ThreatFindingView, id: Seq<char>, now: u64) -> (
    OrchestratorView,
    Ingested,
) {
    if quarantined(s.quarantine, finding_fingerprint(f), now) {
        (s, Ingested::Suppressed)
    } else {
        let k = merge_index(s.incidents, f, now, s.settings.merge_window_ms);
        if k < s.incidents.len() {
            (
                OrchestratorView {
                    incidents: s.incidents.update(
                        k,
                        incident_with(s.incidents[k], f, now, s.settings.sla),
                    ),
                    ..s
                },
                Ingested::Merged(k as usize),
            )
        } else {
            (
                OrchestratorView {
                    incidents: s.incidents.push(incident_from(f, id, now, s.settings.sla)),
                    ..s
                },
                Ingested::Created(k as usize),
            )
        }
    }
}

/// The rules after they were tried on an incident: each rule that fired
/// remembers `now` as its last trigger.
pub open spec fn rules_marked(rules: Seq<ResponseRuleView>, inc: IncidentView, now: u64, default_cooldown_ms: u64) -> Seq<
    ResponseRuleView,
> {
    Seq::new(
        rules.len(),
        |i: int|
            if rules[i].fires(inc, now, default_cooldown_ms) {
                ResponseRuleView { last_triggered: Some(now), ..rules[i] }
            } else {
                rules[i]
            },
    )
}

/// The actions of the rules that fire for an incident, rule after rule in
/// the order of trial.
pub open spec fn triggered_actions(
    rules: Seq<ResponseRuleView>,
    inc: IncidentView,
    now: u64,
    default_cooldown_ms: u64,
) -> Seq<ResponseActionView>
    decreases rules.len(),
{
    if rules.len() == 0 {
        Seq::empty()
    } else {
        let rest = triggered_actions(rules.drop_last(), inc, now, default_cooldown_ms);
        if rules.last().fires(inc, now, default_cooldown_ms) {
            rest + rules.last().actions
        } else {
            rest
        }
    }
}

/// The identifier of the action issued as number `seq` for an incident.
pub open spec fn action_id_text(incident_id: Seq<char>, seq: u64) -> Seq<char> {
    incident_id + ":"@ + decimal_text(seq as nat)
}

/// The outcome recorded for an action that the core carried out itself.
pub open spec fn local_result(a: ResponseActionView, action_id: Seq<char>, now: u64) -> ResponseActionResultView {
    ResponseActionResultView {
        action_id,
        action_type: a,
        success: true,
        error: None,
        error_message: None,
        execution_time_ms: 0,
        timestamp: now,
        metadata: Seq::empty(),
        duplicate: false,
    }
}

/// A count raised by one, stopping at the largest number.
pub open spec fn next_count(n: u64) -> u64 {
    if n == u64::MAX {
        n
    } else {
        (n + 1) as u64
    }
}

/// A time `span` after `now`, stopping at the largest time.
pub open spec fn time_after(now: u64, span: u64) -> u64 {
    if now + span > u64::MAX {
        u64::MAX
    } else {
        (now + span) as u64
    }
}

/// Seconds as milliseconds, stopping at the largest number.
pub open spec fn seconds_as_ms(seconds: u64) -> u64 {
    if seconds * 1000 > u64::MAX {
        u64::MAX
    } else {
        (seconds * 1000) as u64
    }
}

/// The position of the first entry of a list under this key; the length of
/// the list where there is none.
pub open spec fn key_index(list: Seq<(Seq<char>, u64)>, key: Seq<char>) -> int
    decreases list.len(),
{
    if list.len() == 0 {
        0
    } else if list[0].0 == key {
        0
    } else {
        1 + key_index(list.drop_first(), key)
    }
}

/// A list with `until` set for `key`: in place of the key's entry, or at
/// the end.
pub open spec fn listed(list: Seq<(Seq<char>, u64)>, key: Seq<char>, until: u64) -> Seq<(Seq<char>, u64)> {
    if key_index(list, key) < list.len() {
        list.update(key_index(list, key), (key, until))
    } else {
        list.push((key, until))
    }
}

/// The first position found under a key is the one that no earlier entry
/// shares.
pub proof fn lemma_key_index_of(list: Seq<(Seq<char>, u64)>, key: Seq<char>, i: int)
    requires
        0 <= i <= list.len(),
        forall|j: int| 0 <= j < i ==> list[j].0 != key,
        i == list.len() || list[i].0 == key,
    ensures
        key_index(list, key) == i,
{
    lemma_key_index(list, key, i);
}

proof fn lemma_key_index(list: Seq<(Seq<char>, u64)>, key: Seq<char>, i: int)
    requires
        0 <= i <= list.len(),
        forall|j: int| 0 <= j < i ==> list[j].0 != key,
        i == list.len() || list[i].0 == key,
    ensures
        key_index(list, key) == i,
    decreases i,
{
    if i > 0 {
        let t = list.drop_first();
        assert forall|j: int| 0 <= j < i - 1 implies t[j].0 != key by {
            assert(t[j] == list[j + 1]);
        }
        lemma_key_index(t, key, i - 1);
    }
}

/// The request that goes out for an action of an incident.
pub open spec fn request_for(s: OrchestratorView, k: int, a: ResponseActionView, now: u64) -> ActionRequestView {
    ActionRequestView {
        action_id: action_id_text(s.incidents[k].id, s.actions_issued),
        incident_id: s.incidents[k].id,
        action: a,
        timeout_ms: s.settings.action_timeout_ms,
        issued_at: now,
    }
}

/// What issuing one action for the incident at `k` does. A local action is
/// carried out at once and its outcome recorded with the incident. Any
/// other action becomes a pending request; blocking an address and
/// disabling an account also enter the lists kept of them.
pub open spec fn issue_one(s: OrchestratorView, k: int, a: ResponseActionView, now: u64) -> OrchestratorView {
    let counted = OrchestratorView { actions_issued: next_count(s.actions_issued), ..s };
    if a.is_local() {
        OrchestratorView {
            incidents: s.incidents.update(
                k,
                IncidentView {
                    response_actions: s.incidents[k].response_actions.push(
                        local_result(a, action_id_text(s.incidents[k].id, s.actions_issued), now),
                    ),
                    ..s.incidents[k]
                },
            ),
            ..counted
        }
    } else {
        let asked = OrchestratorView {
            pending: s.pending.push(
                PendingView { request: request_for(s, k, a, now), incident: k as usize },
            ),
            ..counted
        };
        match a {
            ResponseActionView::BlockIP { ip, duration_seconds } => OrchestratorView {
                blocked_ips: listed(
                    s.blocked_ips,
                    ip,
                    time_after(now, seconds_as_ms(duration_seconds)),
                ),
                ..asked
            },
            ResponseActionView::DisableAccount { user_id, reason } => OrchestratorView {
                disabled_accounts: listed(
                    s.disabled_accounts,
                    user_id,
                    time_after(now, s.settings.disable_account_ms),
                ),
                ..asked
            },
            _ => asked,
        }
    }
}

/// What issuing a list of actions does, one after the other.
pub open spec fn issue_all(s: OrchestratorView, k: int, actions: Seq<ResponseActionView>, now: u64) -> OrchestratorView
    decreases actions.len(),
{
    if actions.len() == 0 {
        s
    } else {
        issue_one(issue_all(s, k, actions.drop_last(), now), k, actions.last(), now)
    }
}

/// The requests among pending actions, in order.
pub open spec fn requests_of(pending: Seq<PendingView>) -> Seq<ActionRequestView> {
    Seq::new(pending.len(), |i: int| pending[i].request)
}

/// What the response to the incident at `k` does: the rules are tried in
/// order, those that fire remember it, and their actions are issued. A
/// settled incident gets no response.
pub open spec fn respond_spec(s: OrchestratorView, k: int, now: u64) -> OrchestratorView {
    if s.incidents[k].status.is_settled() {
        s
    } else {
        issue_all(
            OrchestratorView {
                rules: rules_marked(s.rules, s.incidents[k], now, s.settings.cooldown_default_ms),
                ..s
            },
            k,
            triggered_actions(s.rules, s.incidents[k], now, s.settings.cooldown_default_ms),
            now,
        )
    }
}

/// What a finding does to the orchestrator from end to end: it is taken in,
/// and unless it was suppressed the incident it went into gets its response.
pub open spec fn process_spec(s: OrchestratorView, f: ThreatFindingView, id: Seq<char>, now: u64) -> (
    OrchestratorView,
    Ingested,
) {
    let taken = ingest_spec(s, f, id, now);
    match taken.1 {
        Ingested::Suppressed => taken,
        Ingested::Merged(k) => (respond_spec(taken.0, k as int, now), taken.1),
        Ingested::Created(k) => (respond_spec(taken.0, k as int, now), taken.1),
    }
}

/// Whether a list of pending requests is an earlier list with requests
/// added at its end.
pub open spec fn extends(after: Seq<PendingView>, before: Seq<PendingView>) -> bool {
    after.len() >= before.len() && after.subrange(0, before.len() as int) == before
}

/// Issuing an action changes no incident but the one it is issued for, and
/// of that one only the recorded outcomes.
pub proof fn lemma_issue_one(s: OrchestratorView, k: int, a: ResponseActionView, now: u64)
    requires
        s.wf(),
        0 <= k < s.incidents.len(),
        !s.incidents[k].status.is_settled(),
    ensures
        issue_one(s, k, a, now).wf(),
        issue_one(s, k, a, now).incidents.len() == s.incidents.len(),
        issue_one(s, k, a, now).rules == s.rules,
        issue_one(s, k, a, now).settings == s.settings,
        issue_one(s, k, a, now).quarantine == s.quarantine,
        issue_one(s, k, a, now).pending.len() >= s.pending.len(),
        extends(issue_one(s, k, a, now).pending, s.pending),
        forall|i: int|
            0 <= i < s.incidents.len() && i != k ==> issue_one(s, k, a, now).incidents[i]
                == s.incidents[i],
        issue_one(s, k, a, now).incidents[k] == (IncidentView {
            response_actions: issue_one(s, k, a, now).incidents[k].response_actions,
            ..s.incidents[k]
        }),
        terminal_kept(s.incidents, issue_one(s, k, a, now).incidents),
{
    let after = issue_one(s, k, a, now);
    assert(after.pending.subrange(0, s.pending.len() as int) =~= s.pending);
    assert forall|i: int| 0 <= i < after.incidents.len() implies (#[trigger] after.incidents[i]).wf() by {
        if i != k {
            assert(after.incidents[i] == s.incidents[i]);
        }
    }
    assert forall|i: int| 0 <= i < after.pending.len() implies (#[trigger] after.pending[i]).incident
        < after.incidents.len() by {
        if i < s.pending.len() {
            assert(after.pending[i] == s.pending[i]);
        }
    }
}

/// Issuing a list of actions changes no incident but the one they are
/// issued for, and of that one only the recorded outcomes.
pub proof fn lemma_issue_all(s: OrchestratorView, k: int, actions: Seq<ResponseActionView>, now: u64)
    requires
        s.wf(),
        0 <= k < s.incidents.len(),
        !s.incidents[k].status.is_settled(),
    ensures
        issue_all(s, k, actions, now).wf(),
        issue_all(s, k, actions, now).incidents.len() == s.incidents.len(),
        issue_all(s, k, actions, now).rules == s.rules,
        issue_all(s, k, actions, now).settings == s.settings,
        issue_all(s, k, actions, now).quarantine == s.quarantine,
        issue_all(s, k, actions, now).pending.len() >= s.pending.len(),
        extends(issue_all(s, k, actions, now).pending, s.pending),
        forall|i: int|
            0 <= i < s.incidents.len() && i != k ==> issue_all(s, k, actions, now).incidents[i]
                == s.incidents[i],
        issue_all(s, k, actions, now).incidents[k] == (IncidentView {
            response_actions: issue_all(s, k, actions, now).incidents[k].response_actions,
            ..s.incidents[k]
        }),
        terminal_kept(s.incidents, issue_all(s, k, actions, now).incidents),
    decreases actions.len(),
{
    if actions.len() > 0 {
        lemma_issue_all(s, k, actions.drop_last(), now);
        lemma_issue_one(issue_all(s, k, actions.drop_last(), now), k, actions.last(), now);
        let middle = issue_all(s, k, actions.drop_last(), now).pending;
        let last = issue_all(s, k, actions, now).pending;
        assert(last.subrange(0, s.pending.len() as int) =~= middle.subrange(
            0,
            s.pending.len() as int,
        ));
    } else {
        assert(s.pending.subrange(0, s.pending.len() as int) =~= s.pending);
    }
}

/// Marking the rules that fired keeps them in the order of trial.
pub proof fn lemma_rules_marked_ordered(rules: Seq<ResponseRuleView>, inc: IncidentView, now: u64, default_cooldown_ms: u64)
    requires
        rules_ordered(rules),
    ensures
        rules_ordered(rules_marked(rules, inc, now, default_cooldown_ms)),
{
    let marked = rules_marked(rules, inc, now, default_cooldown_ms);
    assert forall|i: int, j: int| 0 <= i < j < marked.len() implies !marked[j].before(marked[i]) by {
        assert(marked[i].id == rules[i].id && marked[i].priority == rules[i].priority);
        assert(marked[j].id == rules[j].id && marked[j].priority == rules[j].priority);
        assert(!rules[j].before(rules[i]));
    }
}

/// What processing a finding gave: what became of the finding, a copy of
/// the incident it went into, and the requests that go out to executors.
pub struct ProcessedThreat {
    pub ingested: Ingested,
    pub incident: Option<Incident>,
    pub requests: Vec<ActionRequest>,
}

/// Sets `until` for `key` in a list of names with expiry times: in place of
/// the key's entry, or at the end.
pub fn list_until(list: &mut Vec<(String, u64)>, key: &str, until: u64)
    ensures
        final(list).deep_view() == listed(old(list).deep_view(), key@, until),
{
    let mut i: usize = 0;
    while i < list.len()
        invariant
            i <= list@.len(),
            *list == *old(list),
            forall|j: int| 0 <= j < i ==> list.deep_view()[j].0 != key@,
        decreases list@.len() - i,
    {
        if str_eq(list[i].0.as_str(), key) {
            proof {
                lemma_key_index(list.deep_view(), key@, i as int);
            }
            let ghost before = list.deep_view();
            list[i] = (String::from_str(key), until);
            proof {
                assert(list.deep_view() =~= before.update(i as int, (key@, until)));
            }
            return ;
        }
        i += 1;
    }
    proof {
        lemma_key_index(list.deep_view(), key@, i as int);
    }
    let ghost before = list.deep_view();
    list.push((String::from_str(key), until));
    proof {
        assert(list.deep_view() =~= before.push((key@, until)));
    }
}

/// The incident orchestrator.
pub struct IncidentResponseEngine {
    config: AlertConfig,
    soar_config: SOARConfig,
    settings: OrchestratorSettings,
    response_rules: Vec<ResponseRule>,
    incidents: Vec<Incident>,
    blocked_ips: Vec<(String, u64)>,
    disabled_accounts: Vec<(String, u64)>,
    pending: Vec<PendingAction>,
    quarantine: Vec<(u64, u64)>,
    actions_issued: u64,
}

impl View for IncidentResponseEngine {
    type V = OrchestratorView;

    closed spec fn view(&self) -> OrchestratorView {
        OrchestratorView {
            settings: self.settings,
            rules: self.response_rules.deep_view(),
            incidents: self.incidents.deep_view(),
            blocked_ips: self.blocked_ips.deep_view(),
            disabled_accounts: self.disabled_accounts.deep_view(),
            pending: self.pending.deep_view(),
            quarantine: self.quarantine@,
            actions_issued: self.actions_issued,
        }
    }
}

impl IncidentResponseEngine {
    /// The alert configuration the engine was made with.
    pub closed spec fn alert_config(&self) -> AlertConfig {
        self.config
    }

    /// How the engine reaches an outside playbook platform.
    pub closed spec fn playbook_config(&self) -> SOARConfig {
        self.soar_config
    }

    /// An orchestrator without rules and incidents, with the standard
    /// settings.
    pub fn new(config: AlertConfig, soar_config: SOARConfig) -> (r: Self)
        ensures
            r@.wf(),
            r.alert_config() == config,
            r.playbook_config() == soar_config,
            r@ == (OrchestratorView {
                settings: OrchestratorSettings::standard_settings(),
                rules: Seq::empty(),
                incidents: Seq::empty(),
                blocked_ips: Seq::empty(),
                disabled_accounts: Seq::empty(),
                pending: Seq::empty(),
                quarantine: Seq::empty(),
                actions_issued: 0,
            }),
    {
        let r = IncidentResponseEngine {
            config,
            soar_config,
            settings: OrchestratorSettings::standard(),
            response_rules: Vec::new(),
            incidents: Vec::new(),
            blocked_ips: Vec::new(),
            disabled_accounts: Vec::new(),
            pending: Vec::new(),
            quarantine: Vec::new(),
            actions_issued: 0,
        };
        proof {
            assert(r@.rules =~= Seq::empty());
            assert(r@.incidents =~= Seq::empty());
            assert(r@.blocked_ips =~= Seq::empty());
            assert(r@.disabled_accounts =~= Seq::empty());
            assert(r@.pending =~= Seq::empty());
        }
        r
    }

    /// Replaces the settings.
    pub fn configure(&mut self, settings: OrchestratorSettings)
        requires
            old(self)@.wf(),
        ensures
            final(self)@ == (OrchestratorView { settings, ..old(self)@ }),
            final(self)@.wf(),
            final(self).alert_config() == old(self).alert_config(),
            final(self).playbook_config() == old(self).playbook_config(),
    {
        self.settings = settings;
    }

    /// The settings in force.
    pub fn settings(&self) -> (r: OrchestratorSettings)
        ensures
            r == self@.settings,
    {
        self.settings
    }

    /// Whether an alert for an incident of this severity goes out on a
    /// channel.
    pub fn alerts_on(&self, channel: &AlertChannel, severity: IncidentSeverity) -> (r: bool)
        ensures
            r == alert_goes(self.alert_config(), *channel, severity),
    {
        should_send_alert(&self.config, channel, severity)
    }

    /// Where the rule of this identifier stands.
    fn rule_position(&self, id: &str) -> (i: usize)
        ensures
            i as int == rule_index(self@.rules, id@),
            i <= self.response_rules@.len(),
    {
        let mut i: usize = 0;
        while i < self.response_rules.len()
            invariant
                i <= self.response_rules@.len(),
                forall|j: int| 0 <= j < i ==> self@.rules[j].id != id@,
            decreases self.response_rules@.len() - i,
        {
            if str_eq(self.response_rules[i].id.as_str(), id) {
                proof {
                    lemma_rule_index(self@.rules, id@, i as int);
                }
                return i;
            }
            i += 1;
        }
        proof {
            lemma_rule_index(self@.rules, id@, i as int);
        }
        i
    }

    /// Registers a response rule where the order of trial wants it; a rule
    /// of the same identifier is taken out first.
    pub fn add_response_rule(&mut self, rule: ResponseRule)
        requires
            old(self)@.wf(),
        ensures
            final(self)@.wf(),
            final(self).alert_config() == old(self).alert_config(),
            final(self).playbook_config() == old(self).playbook_config(),
            final(self)@ == (OrchestratorView {
                rules: rules_with(rules_without(old(self)@.rules, rule@.id), rule@),
                ..old(self)@
            }),
    {
        let i = self.rule_position(rule.id.as_str());
        let found = i < self.response_rules.len();
        if found {
            let _ = self.response_rules.remove(i);
            proof {
                assert(self@.rules =~= old(self)@.rules.remove(i as int));
                assert forall|a: int, b: int| 0 <= a < b < self@.rules.len() implies !self@.rules[b].before(
                    self@.rules[a],
                ) by {
                    let a0 = if a < i {
                        a
                    } else {
                        a + 1
                    };
                    let b0 = if b < i {
                        b
                    } else {
                        b + 1
                    };
                    assert(self@.rules[a] == old(self)@.rules[a0]);
                    assert(self@.rules[b] == old(self)@.rules[b0]);
                }
            }
        }
        let ghost base = self@.rules;
        let mut k: usize = 0;
        while k < self.response_rules.len() && !rule.is_before(&self.response_rules[k])
            invariant
                k <= self.response_rules@.len(),
                self@.rules == base,
                forall|j: int| 0 <= j < k ==> !rule@.before(base[j]),
            decreases self.response_rules@.len() - k,
        {
            k += 1;
        }
        proof {
            lemma_insert_position(base, rule@, k as int);
            lemma_rules_with_ordered(base, rule@, k as int);
        }
        self.response_rules.insert(k, rule);
        proof {
            assert(self@.rules =~= base.insert(k as int, rule@));
        }
    }

    /// Registers the default rule where no rule is registered yet.
    pub fn initialize_default_rules(&mut self)
        requires
            old(self)@.wf(),
        ensures
            final(self)@.wf(),
            final(self).alert_config() == old(self).alert_config(),
            final(self).playbook_config() == old(self).playbook_config(),
            final(self)@ == (OrchestratorView {
                rules: if old(self)@.rules.len() == 0 {
                    seq![default_rule()]
                } else {
                    old(self)@.rules
                },
                ..old(self)@
            }),
    {
        if self.response_rules.len() == 0 {
            let rule = make_default_rule();
            self.response_rules.push(rule);
            proof {
                assert(self@.rules =~= seq![default_rule()]);
            }
        }
    }

    /// How many response rules are registered.
    pub fn rule_count(&self) -> (r: usize)
        ensures
            r == self@.rules.len(),
    {
        self.response_rules.len()
    }

    /// Whether findings of this fingerprint are under quarantine at `now`.
    pub fn is_quarantined(&self, fingerprint: u64, now: u64) -> (r: bool)
        ensures
            r == quarantined(self@.quarantine, fingerprint, now),
    {
        let mut i: usize = 0;
        while i < self.quarantine.len()
            invariant
                i <= self.quarantine@.len(),
                forall|j: int|
                    0 <= j < i ==> !((#[trigger] self.quarantine@[j]).0 == fingerprint && now
                        < self.quarantine@[j].1),
            decreases self.quarantine@.len() - i,
        {
            if self.quarantine[i].0 == fingerprint && now < self.quarantine[i].1 {
                return true;
            }
            i += 1;
        }
        false
    }

    /// Takes a finding in: drops it under quarantine, merges it into the
    /// first incident that absorbs it, or opens an incident under the
    /// identifier given.
    pub fn ingest_finding(&mut self, threat: ThreatFinding, id: String, now: u64) -> (r: Ingested)
        requires
            old(self)@.wf(),
        ensures
            final(self)@.wf(),
            final(self).alert_config() == old(self).alert_config(),
            final(self).playbook_config() == old(self).playbook_config(),
            (final(self)@, r) == ingest_spec(old(self)@, threat@, id@, now),
            terminal_kept(old(self)@.incidents, final(self)@.incidents),
            match r {
                Ingested::Suppressed => true,
                Ingested::Merged(k) => k < final(self)@.incidents.len() && !final(self)@.incidents[k as int].status.is_settled(),
                Ingested::Created(k) => k < final(self)@.incidents.len() && !final(self)@.incidents[k as int].status.is_settled(),
            },
    {
        let fingerprint = fingerprint_of(&threat);
        if self.is_quarantined(fingerprint, now) {
            return Ingested::Suppressed;
        }
        let window = self.settings.merge_window_ms;
        let sla = self.settings.sla;
        let mut k: usize = 0;
        while k < self.incidents.len() && !self.incidents[k].absorbs(&threat, now, window)
            invariant
                k <= self.incidents@.len(),
                *self == *old(self),
                forall|j: int| 0 <= j < k ==> !self@.incidents[j].absorbs(threat@, now, window),
            decreases self.incidents@.len() - k,
        {
            k += 1;
        }
        proof {
            lemma_merge_index(self@.incidents, threat@, now, window, k as int);
        }
        let ghost before = self@.incidents;
        if k < self.incidents.len() {
            self.incidents[k].absorb(threat, now, &sla);
            proof {
                assert(self@.incidents =~= before.update(
                    k as int,
                    incident_with(before[k as int], threat@, now, sla),
                ));
            }
            Ingested::Merged(k)
        } else {
            let incident = create_incident_from_threat(threat, id, now, &sla);
            self.incidents.push(incident);
            proof {
                assert(self@.incidents =~= before.push(incident_from(threat@, id@, now, sla)));
            }
            Ingested::Created(k)
        }
    }

    /// Tries the response rules on the incident at `k`, in the order of
    /// trial: every rule that fires hands in its actions and remembers `now`
    /// as its last trigger. A settled incident gets none.
    pub fn evaluate_response_rules(&mut self, k: usize, now: u64) -> (r: Vec<ResponseAction>)
        requires
            old(self)@.wf(),
            k < old(self)@.incidents.len(),
        ensures
            final(self)@.wf(),
            final(self).alert_config() == old(self).alert_config(),
            final(self).playbook_config() == old(self).playbook_config(),
            old(self)@.incidents[k as int].status.is_settled() ==> final(self)@ == old(self)@
                && r.deep_view() == Seq::<ResponseActionView>::empty(),
            !old(self)@.incidents[k as int].status.is_settled() ==> final(self)@ == (OrchestratorView {
                rules: rules_marked(
                    old(self)@.rules,
                    old(self)@.incidents[k as int],
                    now,
                    old(self)@.settings.cooldown_default_ms,
                ),
                ..old(self)@
            }) && r.deep_view() == triggered_actions(
                old(self)@.rules,
                old(self)@.incidents[k as int],
                now,
                old(self)@.settings.cooldown_default_ms,
            ),
    {
        let mut actions: Vec<ResponseAction> = Vec::new();
        proof {
            assert(actions.deep_view() =~= Seq::<ResponseActionView>::empty());
        }
        if self.incidents[k].status.settled() {
            return actions;
        }
        let default_cooldown = self.settings.cooldown_default_ms;
        let ghost rules = self@.rules;
        let ghost inc = self@.incidents[k as int];
        let mut i: usize = 0;
        proof {
            assert(rules.subrange(0, 0) =~= Seq::<ResponseRuleView>::empty());
        }
        while i < self.response_rules.len()
            invariant
                i <= self.response_rules@.len(),
                k < self.incidents@.len(),
                self.config == old(self).config,
                self.soar_config == old(self).soar_config,
                self.settings == old(self).settings,
                self.incidents == old(self).incidents,
                self.blocked_ips == old(self).blocked_ips,
                self.disabled_accounts == old(self).disabled_accounts,
                self.pending == old(self).pending,
                self.quarantine == old(self).quarantine,
                self.actions_issued == old(self).actions_issued,
                default_cooldown == self.settings.cooldown_default_ms,
                rules == old(self)@.rules,
                inc == old(self)@.incidents[k as int],
                self@.rules.len() == rules.len(),
                forall|j: int|
                    0 <= j < rules.len() ==> self@.rules[j] == (if j < i {
                        rules_marked(rules, inc, now, default_cooldown)[j]
                    } else {
                        rules[j]
                    }),
                actions.deep_view() == triggered_actions(
                    rules.subrange(0, i as int),
                    inc,
                    now,
                    default_cooldown,
                ),
            decreases self.response_rules@.len() - i,
        {
            proof {
                assert(rules.subrange(0, i as int + 1).drop_last() =~= rules.subrange(0, i as int));
                assert(rules.subrange(0, i as int + 1).last() == rules[i as int]);
                assert(self.incidents@[k as int].deep_view() == self@.incidents[k as int]);
                assert(self.response_rules@[i as int].deep_view() == self@.rules[i as int]);
                assert(self@.rules[i as int] == rules[i as int]);
            }
            if self.response_rules[i].fires(&self.incidents[k], now, default_cooldown) {
                let ghost base = actions.deep_view();
                let mut j: usize = 0;
                while j < self.response_rules[i].actions.len()
                    invariant
                        i < self.response_rules@.len(),
                        j <= self.response_rules@[i as int].actions@.len(),
                        actions.deep_view() == base + self.response_rules@[i as int].actions.deep_view().subrange(
                            0,
                            j as int,
                        ),
                    decreases self.response_rules@[i as int].actions@.len() - j,
                {
                    let ghost so_far = actions.deep_view();
                    let a = self.response_rules[i].actions[j].clone();
                    actions.push(a);
                    proof {
                        assert(actions.deep_view() =~= so_far.push(a@));
                        assert(actions.deep_view() =~= base
                            + self.response_rules@[i as int].actions.deep_view().subrange(
                            0,
                            j as int + 1,
                        ));
                    }
                    j += 1;
                }
                let ghost before = self@.rules;
                let ghost element = self.response_rules@[i as int];
                proof {
                    assert(before[i as int] == rules[i as int]);
                    assert(before[i as int] == element.deep_view());
                    assert(element.actions.deep_view().subrange(0, j as int)
                        =~= element.actions.deep_view());
                    assert(actions.deep_view() == base + rules[i as int].actions);
                }
                self.response_rules[i].last_triggered = Some(now);
                proof {
                    assert(self.response_rules@[i as int].deep_view() == (ResponseRuleView {
                        last_triggered: Some(now),
                        ..element.deep_view()
                    }));
                    assert(self@.rules =~= before.update(
                        i as int,
                        ResponseRuleView { last_triggered: Some(now), ..rules[i as int] },
                    ));
                }
            }
            i += 1;
        }
        proof {
            assert(rules.subrange(0, rules.len() as int) =~= rules);
            assert(self@.rules =~= rules_marked(rules, inc, now, default_cooldown));
            lemma_rules_marked_ordered(rules, inc, now, default_cooldown);
        }
        actions
    }

    /// Issues actions for the incident at `k`, one after the other. A local
    /// action is carried out at once and its outcome recorded; any other
    /// becomes a pending request and is handed back for an executor.
    pub fn execute_response_actions(&mut self, k: usize, actions: Vec<ResponseAction>, now: u64) -> (r:
        Vec<ActionRequest>)
        requires
            old(self)@.wf(),
            k < old(self)@.incidents.len(),
            !old(self)@.incidents[k as int].status.is_settled(),
        ensures
            final(self)@.wf(),
            final(self).alert_config() == old(self).alert_config(),
            final(self).playbook_config() == old(self).playbook_config(),
            final(self)@ == issue_all(old(self)@, k as int, actions.deep_view(), now),
            final(self)@.pending.len() >= old(self)@.pending.len(),
            extends(final(self)@.pending, old(self)@.pending),
            r.deep_view() == requests_of(
                final(self)@.pending.subrange(
                    old(self)@.pending.len() as int,
                    final(self)@.pending.len() as int,
                ),
            ),
            terminal_kept(old(self)@.incidents, final(self)@.incidents),
    {
        let mut requests: Vec<ActionRequest> = Vec::new();
        let ghost start = self@;
        let ghost all = actions.deep_view();
        let mut j: usize = 0;
        proof {
            assert(all.subrange(0, 0) =~= Seq::<ResponseActionView>::empty());
            assert(requests.deep_view() =~= requests_of(
                start.pending.subrange(start.pending.len() as int, start.pending.len() as int),
            ));
        }
        while j < actions.len()
            invariant
                j <= actions@.len(),
                all == actions.deep_view(),
                start == old(self)@,
                start.wf(),
                k < start.incidents.len(),
                !start.incidents[k as int].status.is_settled(),
                self.config == old(self).config,
                self.soar_config == old(self).soar_config,
                self@ == issue_all(start, k as int, all.subrange(0, j as int), now),
                self@.pending.len() >= start.pending.len(),
                requests.deep_view() == requests_of(
                    self@.pending.subrange(start.pending.len() as int, self@.pending.len() as int),
                ),
            decreases actions@.len() - j,
        {
            let ghost prev = self@;
            proof {
                assert(all.subrange(0, j as int + 1).drop_last() =~= all.subrange(0, j as int));
                assert(all.subrange(0, j as int + 1).last() == all[j as int]);
                lemma_issue_all(start, k as int, all.subrange(0, j as int), now);
                lemma_issue_one(prev, k as int, all[j as int], now);
            }
            let action = actions[j].clone();
            let mut action_id = self.incidents[k].id.clone();
            action_id.append(":");
            let number = u64_to_text(self.actions_issued);
            action_id.append(number.as_str());
            if self.actions_issued < u64::MAX {
                self.actions_issued = self.actions_issued + 1;
            }
            if action.is_local() {
                let result = ResponseActionResult {
                    action_id,
                    action_type: action,
                    success: true,
                    error: None,
                    error_message: None,
                    execution_time_ms: 0,
                    timestamp: now,
                    metadata: Vec::new(),
                    duplicate: false,
                };
                let ghost before = self.incidents[k as int].response_actions.deep_view();
                let ghost wanted = local_result(
                    all[j as int],
                    action_id_text(prev.incidents[k as int].id, prev.actions_issued),
                    now,
                );
                proof {
                    assert(result@.metadata =~= Seq::empty());
                    assert(result@ == wanted);
                }
                self.incidents[k].response_actions.push(result);
                proof {
                    assert(self.incidents[k as int].response_actions.deep_view() =~= before.push(
                        wanted,
                    ));
                    assert(self@.incidents =~= prev.incidents.update(
                        k as int,
                        IncidentView {
                            response_actions: before.push(wanted),
                            ..prev.incidents[k as int]
                        },
                    ));
                    assert(self@ == issue_one(prev, k as int, all[j as int], now));
                    assert(self@.pending.subrange(
                        start.pending.len() as int,
                        self@.pending.len() as int,
                    ) =~= prev.pending.subrange(
                        start.pending.len() as int,
                        prev.pending.len() as int,
                    ));
                }
            } else {
                match &action {
                    ResponseAction::BlockIP { ip, duration_seconds } => {
                        let span = if *duration_seconds > u64::MAX / 1000 {
                            u64::MAX
                        } else {
                            *duration_seconds * 1000
                        };
                        list_until(&mut self.blocked_ips, ip.as_str(), now.saturating_add(span));
                    },
                    ResponseAction::DisableAccount { user_id, reason } => {
                        let until = now.saturating_add(self.settings.disable_account_ms);
                        list_until(&mut self.disabled_accounts, user_id.as_str(), until);
                    },
                    _ => {},
                }
                let request = ActionRequest {
                    action_id,
                    incident_id: self.incidents[k].id.clone(),
                    action,
                    timeout_ms: self.settings.action_timeout_ms,
                    issued_at: now,
                };
                let ghost wanted = request_for(prev, k as int, all[j as int], now);
                proof {
                    assert(request@ == wanted);
                }
                let ghost pending_before = self.pending.deep_view();
                let ghost requests_before = requests.deep_view();
                self.pending.push(PendingAction { request: request.clone(), incident: k });
                requests.push(request);
                proof {
                    assert(self.pending.deep_view() =~= pending_before.push(
                        PendingView { request: wanted, incident: k },
                    ));
                    assert(self@ == issue_one(prev, k as int, all[j as int], now));
                    assert(requests.deep_view() =~= requests_before.push(wanted));
                    assert(requests.deep_view() =~= requests_of(
                        self@.pending.subrange(
                            start.pending.len() as int,
                            self@.pending.len() as int,
                        ),
                    ));
                }
            }
            j += 1;
        }
        proof {
            assert(all.subrange(0, all.len() as int) =~= all);
            lemma_issue_all(start, k as int, all, now);
        }
        requests
    }

    /// Processes a finding from end to end under the identifier given for a
    /// new incident: takes it in and, unless it was suppressed, gives the
    /// incident it went into its response.
    pub fn process_threat_with_id(&mut self, threat: ThreatFinding, id: String, now: u64) -> (r:
        ProcessedThreat)
        requires
            old(self)@.wf(),
        ensures
            final(self)@.wf(),
            final(self).alert_config() == old(self).alert_config(),
            final(self).playbook_config() == old(self).playbook_config(),
            (final(self)@, r.ingested) == process_spec(old(self)@, threat@, id@, now),
            final(self)@.pending.len() >= old(self)@.pending.len(),
            extends(final(self)@.pending, old(self)@.pending),
            r.requests.deep_view() == requests_of(
                final(self)@.pending.subrange(
                    old(self)@.pending.len() as int,
                    final(self)@.pending.len() as int,
                ),
            ),
            match r.ingested {
                Ingested::Suppressed => r.incident is None,
                Ingested::Merged(k) => k < final(self)@.incidents.len() && r.incident is Some
                    && r.incident->Some_0@ == final(self)@.incidents[k as int],
                Ingested::Created(k) => k < final(self)@.incidents.len() && r.incident is Some
                    && r.incident->Some_0@ == final(self)@.incidents[k as int],
            },
            terminal_kept(old(self)@.incidents, final(self)@.incidents),
    {
        let ingested = self.ingest_finding(threat, id, now);
        let ghost taken = self@;
        let position = match ingested {
            Ingested::Suppressed => None,
            Ingested::Merged(k) => Some(k),
            Ingested::Created(k) => Some(k),
        };
        match position {
            None => {
                let requests: Vec<ActionRequest> = Vec::new();
                proof {
                    assert(self@.pending.subrange(0, old(self)@.pending.len() as int)
                        =~= old(self)@.pending);
                    assert(requests.deep_view() =~= requests_of(
                        self@.pending.subrange(
                            old(self)@.pending.len() as int,
                            self@.pending.len() as int,
                        ),
                    ));
                }
                ProcessedThreat { ingested, incident: None, requests }
            },
            Some(k) => {
                let actions = self.evaluate_response_rules(k, now);
                let requests = self.execute_response_actions(k, actions, now);
                let incident = self.incidents[k].clone();
                proof {
                    assert forall|i: int| 0 <= i < old(self)@.incidents.len() implies (
                    #[trigger] self@.incidents[i]).id == old(self)@.incidents[i].id by {
                        assert(taken.incidents[i].id == old(self)@.incidents[i].id);
                    }
                    assert forall|i: int|
                        0 <= i < old(self)@.incidents.len() && old(self)@.incidents[i].status.is_terminal() implies old(self)@.incidents[i].same_but_notes_and_tags(#[trigger] self@.incidents[i]) by {
                        assert(old(self)@.incidents[i].same_but_notes_and_tags(taken.incidents[i]));
                        assert(taken.incidents[i].status.is_terminal());
                        assert(taken.incidents[i].same_but_notes_and_tags(self@.incidents[i]));
                    }
                }
                ProcessedThreat { ingested, incident: Some(incident), requests }
            },
        }
    }

    /// Processes a finding from end to end; a new incident gets a fresh
    /// random identifier.
    pub fn process_threat(&mut self, threat: ThreatFinding, now: u64) -> (r: ProcessedThreat)
        requires
            old(self)@.wf(),
        ensures
            final(self)@.wf(),
            final(self).alert_config() == old(self).alert_config(),
            final(self).playbook_config() == old(self).playbook_config(),
            exists|id: Seq<char>|
                (final(self)@, r.ingested) == #[trigger] process_spec(old(self)@, threat@, id, now),
            final(self)@.pending.len() >= old(self)@.pending.len(),
            extends(final(self)@.pending, old(self)@.pending),
            r.requests.deep_view() == requests_of(
                final(self)@.pending.subrange(
                    old(self)@.pending.len() as int,
                    final(self)@.pending.len() as int,
                ),
            ),
            match r.ingested {
                Ingested::Suppressed => r.incident is None,
                Ingested::Merged(k) => k < final(self)@.incidents.len() && r.incident is Some
                    && r.incident->Some_0@ == final(self)@.incidents[k as int],
                Ingested::Created(k) => k < final(self)@.incidents.len() && r.incident is Some
                    && r.incident->Some_0@ == final(self)@.incidents[k as int],
            },
            terminal_kept(old(self)@.incidents, final(self)@.incidents),
    {
        let id = fresh_uuid();
        self.process_threat_with_id(threat, id, now)
    }
}

/// The view of an outcome handed in piece by piece.
pub open spec fn outcome_of(
    success: bool,
    error: Option<ActionFailure>,
    error_message: Option<String>,
    execution_time_ms: u64,
) -> Outcome {
    Outcome { success, error, error_message: error_message.deep_view(), execution_time_ms }
}

/// Drops from a list of names with expiry times what has run out at `now`.
pub fn drop_expired(list: &mut Vec<(String, u64)>, now: u64)
    ensures
        final(list).deep_view() == unexpired(old(list).deep_view(), now),
{
    let mut kept: Vec<(String, u64)> = Vec::new();
    let mut i: usize = 0;
    proof {
        assert(list.deep_view().subrange(0, 0) =~= Seq::<(Seq<char>, u64)>::empty());
        assert(kept.deep_view() =~= Seq::<(Seq<char>, u64)>::empty());
    }
    while i < list.len()
        invariant
            i <= list@.len(),
            *list == *old(list),
            kept.deep_view() == unexpired(list.deep_view().subrange(0, i as int), now),
        decreases list@.len() - i,
    {
        proof {
            assert(list.deep_view().subrange(0, i as int + 1).drop_last()
                =~= list.deep_view().subrange(0, i as int));
        }
        if list[i].1 > now {
            let ghost before = kept.deep_view();
            kept.push((list[i].0.clone(), list[i].1));
            proof {
                assert(kept.deep_view() =~= before.push(list.deep_view()[i as int]));
            }
        }
        i += 1;
    }
    proof {
        assert(list.deep_view().subrange(0, list@.len() as int) =~= list.deep_view());
    }
    *list = kept;
}

impl IncidentResponseEngine {
    /// Where the incident of this identifier stands.
    fn incident_position(&self, id: &str) -> (i: usize)
        ensures
            i as int == incident_index(self@.incidents, id@),
            i <= self.incidents@.len(),
    {
        let mut i: usize = 0;
        while i < self.incidents.len()
            invariant
                i <= self.incidents@.len(),
                forall|j: int| 0 <= j < i ==> self@.incidents[j].id != id@,
            decreases self.incidents@.len() - i,
        {
            if str_eq(self.incidents[i].id.as_str(), id) {
                proof {
                    lemma_incident_index(self@.incidents, id@, i as int);
                }
                return i;
            }
            i += 1;
        }
        proof {
            lemma_incident_index(self@.incidents, id@, i as int);
        }
        i
    }

    /// Settles the pending request at `p` with an outcome.
    fn settle_pending(
        &mut self,
        p: usize,
        success: bool,
        error: Option<ActionFailure>,
        error_message: Option<String>,
        execution_time_ms: u64,
        now: u64,
    ) -> (r: Recorded)
        requires
            old(self)@.wf(),
            p < old(self)@.pending.len(),
        ensures
            final(self)@.wf(),
            final(self).alert_config() == old(self).alert_config(),
            final(self).playbook_config() == old(self).playbook_config(),
            (final(self)@, r) == settle_spec(
                old(self)@,
                p as int,
                outcome_of(success, error, error_message, execution_time_ms),
                now,
            ),
            terminal_kept(old(self)@.incidents, final(self)@.incidents),
    {
        let ghost outcome = outcome_of(success, error, error_message, execution_time_ms);
        proof {
            lemma_settle(self@, p as int, outcome, now);
        }
        let ghost pending_before = self.pending.deep_view();
        let settled_request = self.pending.remove(p);
        proof {
            assert(self.pending.deep_view() =~= pending_before.remove(p as int));
            assert(settled_request@ == pending_before[p as int]);
        }
        let k = settled_request.incident;
        if self.incidents[k].status.settled() {
            return Recorded::Settled;
        }
        let record = ResponseActionResult {
            action_id: settled_request.request.action_id,
            action_type: settled_request.request.action,
            success,
            error,
            error_message,
            execution_time_ms,
            timestamp: now,
            metadata: Vec::new(),
            duplicate: false,
        };
        let ghost wanted = outcome_record(
            pending_before[p as int].request.action,
            pending_before[p as int].request.action_id,
            outcome,
            now,
            false,
        );
        proof {
            assert(record@.metadata =~= Seq::empty());
            assert(record@ == wanted);
        }
        let ghost incidents_before = self@.incidents;
        let ghost results_before = self.incidents@[k as int].response_actions.deep_view();
        self.incidents[k].response_actions.push(record);
        proof {
            assert(self.incidents@[k as int].response_actions.deep_view() =~= results_before.push(
                wanted,
            ));
            assert(self@.incidents =~= incidents_before.update(
                k as int,
                with_result(incidents_before[k as int], wanted),
            ));
        }
        Recorded::Recorded
    }

    /// Takes the outcome that an executor reports for an action.
    pub fn record_action_result(
        &mut self,
        action_id: &str,
        success: bool,
        error: Option<ActionFailure>,
        error_message: Option<String>,
        execution_time_ms: u64,
        now: u64,
    ) -> (r: Recorded)
        requires
            old(self)@.wf(),
        ensures
            final(self)@.wf(),
            final(self).alert_config() == old(self).alert_config(),
            final(self).playbook_config() == old(self).playbook_config(),
            (final(self)@, r) == record_spec(
                old(self)@,
                action_id@,
                outcome_of(success, error, error_message, execution_time_ms),
                now,
            ),
            terminal_kept(old(self)@.incidents, final(self)@.incidents),
    {
        let ghost outcome = outcome_of(success, error, error_message, execution_time_ms);
        proof {
            lemma_record(self@, action_id@, outcome, now);
            lemma_index_bounds(self@, action_id@, now);
        }
        let mut p: usize = 0;
        while p < self.pending.len() && !str_eq(
            self.pending[p].request.action_id.as_str(),
            action_id,
        )
            invariant
                p <= self.pending@.len(),
                *self == *old(self),
                forall|j: int| 0 <= j < p ==> self@.pending[j].request.action_id != action_id@,
            decreases self.pending@.len() - p,
        {
            p += 1;
        }
        proof {
            lemma_pending_index(self@.pending, action_id@, p as int);
        }
        if p < self.pending.len() {
            return self.settle_pending(p, success, error, error_message, execution_time_ms, now);
        }
        let mut k: usize = 0;
        let mut at: usize = 0;
        let mut found = false;
        while k < self.incidents.len()
            invariant_except_break
                !found,
            invariant
                k <= self.incidents@.len(),
                *self == *old(self),
                forall|j: int|
                    0 <= j < k ==> result_index(self@.incidents[j].response_actions, action_id@)
                        >= self@.incidents[j].response_actions.len(),
            ensures
                k <= self.incidents@.len(),
                *self == *old(self),
                forall|j: int|
                    0 <= j < k ==> result_index(self@.incidents[j].response_actions, action_id@)
                        >= self@.incidents[j].response_actions.len(),
                found ==> k < self.incidents@.len() && at as int == result_index(
                    self@.incidents[k as int].response_actions,
                    action_id@,
                ) && at < self@.incidents[k as int].response_actions.len(),
                !found ==> k == self.incidents@.len(),
            decreases self.incidents@.len() - k,
        {
            let mut j: usize = 0;
            while j < self.incidents[k].response_actions.len() && !str_eq(
                self.incidents[k].response_actions[j].action_id.as_str(),
                action_id,
            )
                invariant
                    k < self.incidents@.len(),
                    j <= self.incidents@[k as int].response_actions@.len(),
                    forall|m: int|
                        0 <= m < j ==> self@.incidents[k as int].response_actions[m].action_id
                            != action_id@,
                decreases self.incidents@[k as int].response_actions@.len() - j,
            {
                j += 1;
            }
            proof {
                lemma_result_index(self@.incidents[k as int].response_actions, action_id@, j as int);
            }
            if j < self.incidents[k].response_actions.len() {
                at = j;
                found = true;
                break ;
            }
            k += 1;
        }
        proof {
            lemma_holder_index(self@.incidents, action_id@, k as int);
        }
        if !found {
            return Recorded::Unknown;
        }
        if self.incidents[k].status.settled() {
            return Recorded::Settled;
        }
        let record = ResponseActionResult {
            action_id: String::from_str(action_id),
            action_type: self.incidents[k].response_actions[at].action_type.clone(),
            success,
            error,
            error_message,
            execution_time_ms,
            timestamp: now,
            metadata: Vec::new(),
            duplicate: true,
        };
        let ghost wanted = outcome_record(
            self@.incidents[k as int].response_actions[at as int].action_type,
            action_id@,
            outcome,
            now,
            true,
        );
        proof {
            assert(record@.metadata =~= Seq::empty());
            assert(record@ == wanted);
        }
        let ghost incidents_before = self@.incidents;
        let ghost results_before = self.incidents@[k as int].response_actions.deep_view();
        self.incidents[k].response_actions.push(record);
        proof {
            assert(self.incidents@[k as int].response_actions.deep_view() =~= results_before.push(
                wanted,
            ));
            assert(self@.incidents =~= incidents_before.update(
                k as int,
                with_result(incidents_before[k as int], wanted),
            ));
        }
        Recorded::Duplicate
    }

    /// Settles every pending request that has waited its timeout out at
    /// `now` as a failure by timeout, the oldest first, and says how many
    /// there were. Nothing is tried again.
    pub fn expire_actions(&mut self, now: u64) -> (r: usize)
        requires
            old(self)@.wf(),
        ensures
            final(self)@.wf(),
            final(self).alert_config() == old(self).alert_config(),
            final(self).playbook_config() == old(self).playbook_config(),
            final(self)@ == expire_spec(old(self)@, now),
            r == old(self)@.pending.len() - final(self)@.pending.len(),
            expired_index(final(self)@.pending, now) == final(self)@.pending.len(),
            terminal_kept(old(self)@.incidents, final(self)@.incidents),
    {
        let waiting = self.pending.len();
        loop
            invariant
                self@.wf(),
                self.config == old(self).config,
                self.soar_config == old(self).soar_config,
                expire_spec(self@, now) == expire_spec(old(self)@, now),
                self@.pending.len() <= old(self)@.pending.len(),
                waiting == old(self)@.pending.len(),
                terminal_kept(old(self)@.incidents, self@.incidents),
            ensures
                self@.wf(),
                self.config == old(self).config,
                self.soar_config == old(self).soar_config,
                self@ == expire_spec(old(self)@, now),
                self@.pending.len() <= old(self)@.pending.len(),
                waiting == old(self)@.pending.len(),
                expired_index(self@.pending, now) == self@.pending.len(),
                terminal_kept(old(self)@.incidents, self@.incidents),
            decreases self@.pending.len(),
        {
            let mut e: usize = 0;
            while e < self.pending.len() && elapsed_ms(now, self.pending[e].request.issued_at)
                < self.pending[e].request.timeout_ms
                invariant
                    e <= self.pending@.len(),
                    forall|j: int|
                        0 <= j < e ==> elapsed(now, self@.pending[j].request.issued_at)
                            < self@.pending[j].request.timeout_ms,
                decreases self.pending@.len() - e,
            {
                e += 1;
            }
            proof {
                lemma_expired_index(self@.pending, now, e as int);
            }
            if e >= self.pending.len() {
                break ;
            }
            let ghost before = self@;
            proof {
                lemma_settle(before, e as int, timed_out(), now);
            }
            let _ = self.settle_pending(e, false, Some(ActionFailure::Timeout), None, 0, now);
            proof {
                lemma_terminal_kept_transitive(
                    old(self)@.incidents,
                    before.incidents,
                    self@.incidents,
                );
            }
        }
        waiting - self.pending.len()
    }

    /// Moves an incident along its lifecycle.
    pub fn update_incident_status(&mut self, incident_id: &str, status: IncidentStatus, now: u64) -> (r:
        Result<(), IncidentError>)
        requires
            old(self)@.wf(),
        ensures
            final(self)@.wf(),
            final(self).alert_config() == old(self).alert_config(),
            final(self).playbook_config() == old(self).playbook_config(),
            terminal_kept(old(self)@.incidents, final(self)@.incidents),
            incident_index(old(self)@.incidents, incident_id@) >= old(self)@.incidents.len() ==> r
                == Err::<(), IncidentError>(IncidentError::NotFound) && final(self)@ == old(self)@,
            incident_index(old(self)@.incidents, incident_id@) < old(self)@.incidents.len() ==> {
                let k = incident_index(old(self)@.incidents, incident_id@);
                if old(self)@.incidents[k].status.allows(status) {
                    r == Ok::<(), IncidentError>(()) && final(self)@ == status_spec(
                        old(self)@,
                        k,
                        status,
                        now,
                    )
                } else {
                    r == Err::<(), IncidentError>(IncidentError::InvalidTransition) && final(self)@
                        == old(self)@
                }
            },
    {
        let k = self.incident_position(incident_id);
        if k >= self.incidents.len() {
            return Err(IncidentError::NotFound);
        }
        if !self.incidents[k].status.can_transition_to(status) {
            return Err(IncidentError::InvalidTransition);
        }
        let ghost before = self@;
        let resolves = match status {
            IncidentStatus::Resolved => true,
            IncidentStatus::Closed => true,
            _ => false,
        };
        let falsifies = match status {
            IncidentStatus::FalsePositive => true,
            _ => false,
        };
        if falsifies {
            let mark = fingerprint_of_key(
                self.incidents[k].source_ip.as_str(),
                self.incidents[k].user_id.as_str(),
                self.incidents[k].category,
            );
            self.quarantine.push((mark, now.saturating_add(self.settings.quarantine_ms)));
            self.incidents[k].false_positive = true;
        }
        if resolves && self.incidents[k].resolved_at.is_none() {
            self.incidents[k].resolved_at = Some(now);
        }
        self.incidents[k].status = status;
        self.incidents[k].updated_at = now;
        proof {
            assert(self@.incidents =~= before.incidents.update(
                k as int,
                with_status(before.incidents[k as int], status, now),
            ));
            assert(self@ == status_spec(before, k as int, status, now));
        }
        Ok(())
    }

    /// Adds a note to an incident. Notes can be added in every state.
    pub fn add_incident_note(&mut self, incident_id: &str, note: String, now: u64) -> (r: Result<
        (),
        IncidentError,
    >)
        requires
            old(self)@.wf(),
        ensures
            final(self)@.wf(),
            final(self).alert_config() == old(self).alert_config(),
            final(self).playbook_config() == old(self).playbook_config(),
            terminal_kept(old(self)@.incidents, final(self)@.incidents),
            incident_index(old(self)@.incidents, incident_id@) >= old(self)@.incidents.len() ==> r
                == Err::<(), IncidentError>(IncidentError::NotFound) && final(self)@ == old(self)@,
            incident_index(old(self)@.incidents, incident_id@) < old(self)@.incidents.len() ==> r
                == Ok::<(), IncidentError>(()) && final(self)@ == (OrchestratorView {
                incidents: old(self)@.incidents.update(
                    incident_index(old(self)@.incidents, incident_id@),
                    with_note(
                        old(self)@.incidents[incident_index(old(self)@.incidents, incident_id@)],
                        note@,
                        now,
                    ),
                ),
                ..old(self)@
            }),
    {
        let k = self.incident_position(incident_id);
        if k >= self.incidents.len() {
            return Err(IncidentError::NotFound);
        }
        let ghost before = self@;
        let ghost notes_before = self.incidents@[k as int].notes.deep_view();
        if !self.incidents[k].status.terminal() {
            self.incidents[k].updated_at = now;
        }
        self.incidents[k].notes.push(note);
        proof {
            assert(self.incidents@[k as int].notes.deep_view() =~= notes_before.push(note@));
            assert(self@.incidents =~= before.incidents.update(
                k as int,
                with_note(before.incidents[k as int], note@, now),
            ));
        }
        Ok(())
    }

    /// Adds a tag to an incident unless it carries the tag already. Tags
    /// can be added in every state.
    #[verifier::loop_isolation(false)]
    pub fn add_incident_tag(&mut self, incident_id: &str, tag: String) -> (r: Result<(), IncidentError>)
        requires
            old(self)@.wf(),
        ensures
            final(self)@.wf(),
            final(self).alert_config() == old(self).alert_config(),
            final(self).playbook_config() == old(self).playbook_config(),
            terminal_kept(old(self)@.incidents, final(self)@.incidents),
            incident_index(old(self)@.incidents, incident_id@) >= old(self)@.incidents.len() ==> r
                == Err::<(), IncidentError>(IncidentError::NotFound) && final(self)@ == old(self)@,
            incident_index(old(self)@.incidents, incident_id@) < old(self)@.incidents.len() ==> r
                == Ok::<(), IncidentError>(()) && final(self)@ == (OrchestratorView {
                incidents: old(self)@.incidents.update(
                    incident_index(old(self)@.incidents, incident_id@),
                    with_tag(
                        old(self)@.incidents[incident_index(old(self)@.incidents, incident_id@)],
                        tag@,
                    ),
                ),
                ..old(self)@
            }),
    {
        let k = self.incident_position(incident_id);
        if k >= self.incidents.len() {
            return Err(IncidentError::NotFound);
        }
        let ghost before = self@;
        let ghost tags_before = self.incidents@[k as int].tags.deep_view();
        let mut j: usize = 0;
        while j < self.incidents[k].tags.len()
            invariant
                k < self.incidents@.len(),
                *self == *old(self),
                before == old(self)@,
                old(self)@.wf(),
                j <= self.incidents@[k as int].tags@.len(),
                forall|m: int| 0 <= m < j ==> self@.incidents[k as int].tags[m] != tag@,
            decreases self.incidents@[k as int].tags@.len() - j,
        {
            if str_eq(self.incidents[k].tags[j].as_str(), tag.as_str()) {
                proof {
                    assert(self@.incidents[k as int].tags[j as int] == tag@);
                    assert(self@.incidents =~= before.incidents.update(
                        k as int,
                        with_tag(before.incidents[k as int], tag@),
                    ));
                }
                return Ok(());
            }
            j += 1;
        }
        self.incidents[k].tags.push(tag);
        proof {
            assert(self.incidents@[k as int].tags.deep_view() =~= tags_before.push(tag@));
            assert(!has_text(tags_before, tag@));
            assert(self@.incidents =~= before.incidents.update(
                k as int,
                with_tag(before.incidents[k as int], tag@),
            ));
        }
        Ok(())
    }

    /// Assigns an incident to somebody. A settled incident is assigned to
    /// nobody any more.
    pub fn assign_incident(&mut self, incident_id: &str, assigned_to: String, now: u64) -> (r: Result<
        (),
        IncidentError,
    >)
        requires
            old(self)@.wf(),
        ensures
            final(self)@.wf(),
            final(self).alert_config() == old(self).alert_config(),
            final(self).playbook_config() == old(self).playbook_config(),
            terminal_kept(old(self)@.incidents, final(self)@.incidents),
            incident_index(old(self)@.incidents, incident_id@) >= old(self)@.incidents.len() ==> r
                == Err::<(), IncidentError>(IncidentError::NotFound) && final(self)@ == old(self)@,
            incident_index(old(self)@.incidents, incident_id@) < old(self)@.incidents.len() ==> {
                let k = incident_index(old(self)@.incidents, incident_id@);
                if old(self)@.incidents[k].status.is_settled() {
                    r == Err::<(), IncidentError>(IncidentError::Settled) && final(self)@ == old(
                        self,
                    )@
                } else {
                    r == Ok::<(), IncidentError>(()) && final(self)@ == (OrchestratorView {
                        incidents: old(self)@.incidents.update(
                            k,
                            IncidentView {
                                assigned_to: Some(assigned_to@),
                                updated_at: now,
                                ..old(self)@.incidents[k]
                            },
                        ),
                        ..old(self)@
                    })
                }
            },
    {
        let k = self.incident_position(incident_id);
        if k >= self.incidents.len() {
            return Err(IncidentError::NotFound);
        }
        if self.incidents[k].status.settled() {
            return Err(IncidentError::Settled);
        }
        let ghost before = self@;
        self.incidents[k].assigned_to = Some(assigned_to);
        self.incidents[k].updated_at = now;
        proof {
            assert(self@.incidents =~= before.incidents.update(
                k as int,
                IncidentView {
                    assigned_to: Some(assigned_to@),
                    updated_at: now,
                    ..before.incidents[k as int]
                },
            ));
        }
        Ok(())
    }

    /// Marks an incident as a false positive: it takes the step into
    /// FalsePositive where the lifecycle allows it, gets a note with the
    /// reason, and findings of its fingerprint go under quarantine.
    pub fn mark_false_positive(&mut self, incident_id: &str, reason: String, now: u64) -> (r: Result<
        (),
        IncidentError,
    >)
        requires
            old(self)@.wf(),
        ensures
            final(self)@.wf(),
            final(self).alert_config() == old(self).alert_config(),
            final(self).playbook_config() == old(self).playbook_config(),
            terminal_kept(old(self)@.incidents, final(self)@.incidents),
            incident_index(old(self)@.incidents, incident_id@) >= old(self)@.incidents.len() ==> r
                == Err::<(), IncidentError>(IncidentError::NotFound) && final(self)@ == old(self)@,
            incident_index(old(self)@.incidents, incident_id@) < old(self)@.incidents.len() ==> {
                let k = incident_index(old(self)@.incidents, incident_id@);
                let moved = status_spec(old(self)@, k, IncidentStatus::FalsePositive, now);
                if old(self)@.incidents[k].status.allows(IncidentStatus::FalsePositive) {
                    r == Ok::<(), IncidentError>(()) && final(self)@ == (OrchestratorView {
                        incidents: moved.incidents.update(
                            k,
                            IncidentView {
                                notes: moved.incidents[k].notes.push(
                                    "Marked as false positive: "@ + reason@,
                                ),
                                ..moved.incidents[k]
                            },
                        ),
                        ..moved
                    })
                } else {
                    r == Err::<(), IncidentError>(IncidentError::InvalidTransition) && final(self)@
                        == old(self)@
                }
            },
    {
        let k = self.incident_position(incident_id);
        if k >= self.incidents.len() {
            return Err(IncidentError::NotFound);
        }
        if !self.incidents[k].status.can_transition_to(IncidentStatus::FalsePositive) {
            return Err(IncidentError::InvalidTransition);
        }
        let ghost before = self@;
        let ghost moved = status_spec(before, k as int, IncidentStatus::FalsePositive, now);
        let mark = fingerprint_of_key(
            self.incidents[k].source_ip.as_str(),
            self.incidents[k].user_id.as_str(),
            self.incidents[k].category,
        );
        self.quarantine.push((mark, now.saturating_add(self.settings.quarantine_ms)));
        let mut note = String::from_str("Marked as false positive: ");
        note.append(reason.as_str());
        let ghost notes_before = self.incidents@[k as int].notes.deep_view();
        self.incidents[k].false_positive = true;
        self.incidents[k].status = IncidentStatus::FalsePositive;
        self.incidents[k].updated_at = now;
        self.incidents[k].notes.push(note);
        proof {
            assert(self.incidents@[k as int].notes.deep_view() =~= notes_before.push(
                "Marked as false positive: "@ + reason@,
            ));
            assert(self@.incidents =~= moved.incidents.update(
                k as int,
                IncidentView {
                    notes: moved.incidents[k as int].notes.push(
                        "Marked as false positive: "@ + reason@,
                    ),
                    ..moved.incidents[k as int]
                },
            ));
        }
        Ok(())
    }

    /// Drops blocked addresses, disabled accounts and quarantined
    /// fingerprints whose time has run out at `now`.
    pub fn cleanup_expired_items(&mut self, now: u64)
        requires
            old(self)@.wf(),
        ensures
            final(self)@.wf(),
            final(self).alert_config() == old(self).alert_config(),
            final(self).playbook_config() == old(self).playbook_config(),
            final(self)@ == (OrchestratorView {
                blocked_ips: unexpired(old(self)@.blocked_ips, now),
                disabled_accounts: unexpired(old(self)@.disabled_accounts, now),
                quarantine: unexpired_marks(old(self)@.quarantine, now),
                ..old(self)@
            }),
            terminal_kept(old(self)@.incidents, final(self)@.incidents),
    {
        drop_expired(&mut self.blocked_ips, now);
        drop_expired(&mut self.disabled_accounts, now);
        let mut kept: Vec<(u64, u64)> = Vec::new();
        let mut i: usize = 0;
        proof {
            assert(self.quarantine@.subrange(0, 0) =~= Seq::<(u64, u64)>::empty());
        }
        while i < self.quarantine.len()
            invariant
                i <= self.quarantine@.len(),
                self.quarantine == old(self).quarantine,
                kept@ == unexpired_marks(self.quarantine@.subrange(0, i as int), now),
            decreases self.quarantine@.len() - i,
        {
            proof {
                assert(self.quarantine@.subrange(0, i as int + 1).drop_last()
                    =~= self.quarantine@.subrange(0, i as int));
            }
            if self.quarantine[i].1 > now {
                kept.push(self.quarantine[i]);
            }
            i += 1;
        }
        proof {
            assert(self.quarantine@.subrange(0, self.quarantine@.len() as int) =~= self.quarantine@);
        }
        self.quarantine = kept;
    }

    /// Whether an address is blocked at `now`.
    pub fn is_blocked(&self, ip: &str, now: u64) -> (r: bool)
        ensures
            r == listed_at(self@.blocked_ips, ip@, now),
    {
        let mut i: usize = 0;
        while i < self.blocked_ips.len() && !str_eq(self.blocked_ips[i].0.as_str(), ip)
            invariant
                i <= self.blocked_ips@.len(),
                forall|j: int| 0 <= j < i ==> self@.blocked_ips[j].0 != ip@,
            decreases self.blocked_ips@.len() - i,
        {
            i += 1;
        }
        proof {
            lemma_key_index(self@.blocked_ips, ip@, i as int);
        }
        i < self.blocked_ips.len() && now < self.blocked_ips[i].1
    }

    /// Whether an account is disabled at `now`.
    pub fn is_disabled(&self, user_id: &str, now: u64) -> (r: bool)
        ensures
            r == listed_at(self@.disabled_accounts, user_id@, now),
    {
        let mut i: usize = 0;
        while i < self.disabled_accounts.len() && !str_eq(
            self.disabled_accounts[i].0.as_str(),
            user_id,
        )
            invariant
                i <= self.disabled_accounts@.len(),
                forall|j: int| 0 <= j < i ==> self@.disabled_accounts[j].0 != user_id@,
            decreases self.disabled_accounts@.len() - i,
        {
            i += 1;
        }
        proof {
            lemma_key_index(self@.disabled_accounts, user_id@, i as int);
        }
        i < self.disabled_accounts.len() && now < self.disabled_accounts[i].1
    }

    /// A copy of the incident of this identifier.
    pub fn get_incident(&self, incident_id: &str) -> (r: Option<Incident>)
        ensures
            r is Some <==> incident_index(self@.incidents, incident_id@) < self@.incidents.len(),
            r is Some ==> r->Some_0@ == self@.incidents[incident_index(
                self@.incidents,
                incident_id@,
            )],
    {
        let k = self.incident_position(incident_id);
        if k < self.incidents.len() {
            Some(self.incidents[k].clone())
        } else {
            None
        }
    }

    /// How many incidents there are.
    pub fn incident_count(&self) -> (r: usize)
        ensures
            r == self@.incidents.len(),
    {
        self.incidents.len()
    }

    /// The incident at a position, oldest first.
    pub fn incident_at(&self, k: usize) -> (r: &Incident)
        requires
            k < self@.incidents.len(),
        ensures
            r@ == self@.incidents[k as int],
    {
        &self.incidents[k]
    }

    /// How many requests wait for an executor's answer.
    pub fn pending_count(&self) -> (r: usize)
        ensures
            r == self@.pending.len(),
    {
        self.pending.len()
    }
}

/// A way to pick incidents.
pub enum Selection {
    /// All of them.
    All,
    /// Those in a status.
    Status(IncidentStatus),
    /// Those of a severity.
    Severity(IncidentSeverity),
    /// Those that a query finds.
    Query(String),
}

impl DeepView for Selection {
    type V = SelectionView;

    open spec fn deep_view(&self) -> SelectionView {
        match self {
            Selection::All => SelectionView::All,
            Selection::Status(s) => SelectionView::Status(*s),
            Selection::Severity(s) => SelectionView::Severity(*s),
            Selection::Query(q) => SelectionView::Query(q@),
        }
    }
}

impl View for Selection {
    type V = SelectionView;

    open spec fn view(&self) -> SelectionView {
        self.deep_view()
    }
}

impl Selection {
    /// Whether the selection picks an incident.
    pub fn picks(&self, incident: &Incident) -> (r: bool)
        ensures
            r == self@.picks(incident@),
    {
        match self {
            Selection::All => true,
            Selection::Status(s) => incident.status == *s,
            Selection::Severity(s) => incident.severity == *s,
            Selection::Query(q) => contains_ignoring_case(incident.title.as_str(), q.as_str())
                || contains_ignoring_case(incident.description.as_str(), q.as_str()) || contains(
                incident.source_ip.as_str(),
                q.as_str(),
            ) || contains_ignoring_case(incident.user_id.as_str(), q.as_str()),
        }
    }
}

impl IncidentResponseEngine {
    /// Copies of the incidents that a selection picks, oldest first.
    pub fn select_incidents(&self, selection: &Selection) -> (r: Vec<Incident>)
        ensures
            r.deep_view() == selected(self@.incidents, selection@),
    {
        let mut picked: Vec<Incident> = Vec::new();
        let mut i: usize = 0;
        proof {
            assert(self@.incidents.subrange(0, 0) =~= Seq::<IncidentView>::empty());
            assert(picked.deep_view() =~= Seq::<IncidentView>::empty());
        }
        while i < self.incidents.len()
            invariant
                i <= self.incidents@.len(),
                picked.deep_view() == selected(self@.incidents.subrange(0, i as int), selection@),
            decreases self.incidents@.len() - i,
        {
            proof {
                assert(self@.incidents.subrange(0, i as int + 1).drop_last()
                    =~= self@.incidents.subrange(0, i as int));
            }
            if selection.picks(&self.incidents[i]) {
                let ghost before = picked.deep_view();
                picked.push(self.incidents[i].clone());
                proof {
                    assert(picked.deep_view() =~= before.push(self@.incidents[i as int]));
                }
            }
            i += 1;
        }
        proof {
            assert(self@.incidents.subrange(0, self@.incidents.len() as int) =~= self@.incidents);
        }
        picked
    }

    /// How many incidents a selection picks.
    pub fn count_incidents(&self, selection: &Selection) -> (r: usize)
        ensures
            r == selected(self@.incidents, selection@).len(),
    {
        let mut count: usize = 0;
        let mut i: usize = 0;
        proof {
            assert(self@.incidents.subrange(0, 0) =~= Seq::<IncidentView>::empty());
        }
        while i < self.incidents.len()
            invariant
                i <= self.incidents@.len(),
                count == selected(self@.incidents.subrange(0, i as int), selection@).len(),
                count <= i,
            decreases self.incidents@.len() - i,
        {
            proof {
                assert(self@.incidents.subrange(0, i as int + 1).drop_last()
                    =~= self@.incidents.subrange(0, i as int));
            }
            if selection.picks(&self.incidents[i]) {
                count += 1;
            }
            i += 1;
        }
        proof {
            assert(self@.incidents.subrange(0, self@.incidents.len() as int) =~= self@.incidents);
        }
        count
    }

    /// Copies of all incidents, oldest first.
    pub fn get_all_incidents(&self) -> (r: Vec<Incident>)
        ensures
            r.deep_view() == selected(self@.incidents, SelectionView::All),
    {
        self.select_incidents(&Selection::All)
    }

    /// Copies of the incidents in a status, oldest first.
    pub fn get_incidents_by_status(&self, status: IncidentStatus) -> (r: Vec<Incident>)
        ensures
            r.deep_view() == selected(self@.incidents, SelectionView::Status(status)),
    {
        self.select_incidents(&Selection::Status(status))
    }

    /// Copies of the incidents of a severity, oldest first.
    pub fn get_incidents_by_severity(&self, severity: IncidentSeverity) -> (r: Vec<Incident>)
        ensures
            r.deep_view() == selected(self@.incidents, SelectionView::Severity(severity)),
    {
        self.select_incidents(&Selection::Severity(severity))
    }

    /// Copies of the incidents that a query finds, oldest first.
    pub fn search_incidents(&self, query: &str) -> (r: Vec<Incident>)
        ensures
            r.deep_view() == selected(self@.incidents, SelectionView::Query(query@)),
    {
        self.select_incidents(&Selection::Query(String::from_str(query)))
    }

    /// How many incidents there are, how many are open and how many
    /// resolved.
    pub fn get_incident_stats(&self) -> (r: IncidentStats)
        ensures
            r.total_incidents == self@.incidents.len(),
            r.open_incidents == selected(
                self@.incidents,
                SelectionView::Status(IncidentStatus::Open),
            ).len(),
            r.resolved_incidents == selected(
                self@.incidents,
                SelectionView::Status(IncidentStatus::Resolved),
            ).len(),
    {
        IncidentStats {
            total_incidents: self.incidents.len() as u64,
            open_incidents: self.count_incidents(&Selection::Status(IncidentStatus::Open)) as u64,
            resolved_incidents: self.count_incidents(
                &Selection::Status(IncidentStatus::Resolved),
            ) as u64,
        }
    }

    /// Takes an incident made elsewhere into the list. It has to keep its
    /// invariant, and its identifier must be free.
    pub fn store_incident(&mut self, incident: Incident) -> (r: Result<(), IncidentError>)
        requires
            old(self)@.wf(),
        ensures
            final(self)@.wf(),
            final(self).alert_config() == old(self).alert_config(),
            final(self).playbook_config() == old(self).playbook_config(),
            terminal_kept(old(self)@.incidents, final(self)@.incidents),
            r is Ok <==> incident@.wf() && incident_index(old(self)@.incidents, incident@.id)
                >= old(self)@.incidents.len(),
            r is Ok ==> final(self)@ == (OrchestratorView {
                incidents: old(self)@.incidents.push(incident@),
                ..old(self)@
            }),
            r is Err ==> r->Err_0 == IncidentError::Invalid && final(self)@ == old(self)@,
    {
        if !incident.is_valid() {
            return Err(IncidentError::Invalid);
        }
        let k = self.incident_position(incident.id.as_str());
        if k < self.incidents.len() {
            return Err(IncidentError::Invalid);
        }
        let ghost before = self@.incidents;
        self.incidents.push(incident);
        proof {
            assert(self@.incidents =~= before.push(incident@));
        }
        Ok(())
    }
}

/// The incident that a finding went into, as it stands after the response;
/// none for a finding that was suppressed.
pub open spec fn touched(s: OrchestratorView, ingested: Ingested) -> Option<IncidentView> {
    match ingested {
        Ingested::Suppressed => None,
        Ingested::Merged(k) => Some(s.incidents[k as int]),
        Ingested::Created(k) => Some(s.incidents[k as int]),
    }
}

/// What a run of findings leaves behind: the orchestrator's state, and for
/// each finding that was not suppressed the incident it went into, in the
/// order of the findings.
pub struct Run {
    pub state: OrchestratorView,
    pub incidents: Seq<IncidentView>,
}

/// What a run of findings does to the orchestrator, one finding after the
/// other; finding `i` opens its incident, if it opens one, under the
/// identifier `ids[i]`.
pub open spec fn process_run(
    s: OrchestratorView,
    findings: Seq<ThreatFindingView>,
    ids: Seq<Seq<char>>,
    now: u64,
) -> Run
    decreases findings.len(),
{
    if findings.len() == 0 {
        Run { state: s, incidents: Seq::empty() }
    } else {
        let before = process_run(s, findings.drop_last(), ids.drop_last(), now);
        let step = process_spec(before.state, findings.last(), ids.last(), now);
        Run {
            state: step.0,
            incidents: match touched(step.0, step.1) {
                Some(incident) => before.incidents.push(incident),
                None => before.incidents,
            },
        }
    }
}

} // verus!
