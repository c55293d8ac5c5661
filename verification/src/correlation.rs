//! The correlation engine: rules over several events within a time window.
//! A rule fires when each of its conditions has been met by enough events of
//! the window, and then rests for its cooldown.

use vstd::prelude::*;
use vstd::utf8::encode_utf8;
use crate::model::DetectorKind;
use crate::model::ThreatCategory;
use crate::model::ThreatFinding;
use crate::model::ThreatFindingView;
use crate::model::ThreatSeverity;
use crate::signature::elapsed;
use crate::signature::elapsed_ms;
use crate::text::clone_pairs;
use crate::text::contains;
use crate::text::contains_text;
use crate::text::lemma_bytes_lt_irreflexive;
use crate::text::lemma_bytes_lt_transitive;
use crate::text::str_eq;
use crate::text::str_lt;
use crate::text::text_lt;

verus! {

/// The confidence of a finding that a correlation produces.
pub const CORRELATION_CONFIDENCE: u16 = 900;

/// How many events the rolling buffer holds unless told otherwise.
pub const DEFAULT_BUFFER_SIZE: usize = 10_000;

/// How old an event may get before a cleanup drops it: one hour.
pub const EVENT_HORIZON_MS: u64 = 3_600_000;

/// An event as the correlation engine sees it.
#[derive(Debug, PartialEq, Eq)]
pub struct CorrelationEvent {
    pub id: String,
    /// Milliseconds since the epoch.
    pub timestamp: u64,
    pub event_type: String,
    pub source: String,
    pub target: String,
    pub user_id: String,
    pub severity: ThreatSeverity,
    /// Thousandths of one.
    pub confidence: u16,
    pub metadata: Vec<(String, String)>,
}

/// What a `CorrelationEvent` holds, as mathematical values.
pub struct CorrelationEventView {
    pub id: Seq<char>,
    pub timestamp: u64,
    pub event_type: Seq<char>,
    pub source: Seq<char>,
    pub target: Seq<char>,
    pub user_id: Seq<char>,
    pub severity: ThreatSeverity,
    pub confidence: u16,
    pub metadata: Seq<(Seq<char>, Seq<char>)>,
}

impl DeepView for CorrelationEvent {
    type V = CorrelationEventView;

    open spec fn deep_view(&self) -> CorrelationEventView {
        CorrelationEventView {
            id: self.id@,
            timestamp: self.timestamp,
            event_type: self.event_type@,
            source: self.source@,
            target: self.target@,
            user_id: self.user_id@,
            severity: self.severity,
            confidence: self.confidence,
            metadata: self.metadata.deep_view(),
        }
    }
}

impl View for CorrelationEvent {
    type V = CorrelationEventView;

    open spec fn view(&self) -> CorrelationEventView {
        self.deep_view()
    }
}

impl Clone for CorrelationEvent {
    fn clone(&self) -> (r: Self)
        ensures
            r@ == self@,
    {
        CorrelationEvent {
            id: self.id.clone(),
            timestamp: self.timestamp,
            event_type: self.event_type.clone(),
            source: self.source.clone(),
            target: self.target.clone(),
            user_id: self.user_id.clone(),
            severity: self.severity,
            confidence: self.confidence,
            metadata: clone_pairs(&self.metadata),
        }
    }
}

/// One condition of a rule: events of a type, optionally with a text that
/// has to occur in their source or target, and how many of them.
#[derive(Debug, PartialEq, Eq)]
pub struct CorrelationCondition {
    pub event_type: String,
    pub source_pattern: Option<String>,
    pub target_pattern: Option<String>,
    pub min_count: u32,
    pub max_count: Option<u32>,
}

/// What a `CorrelationCondition` holds, as mathematical values.
pub struct CorrelationConditionView {
    pub event_type: Seq<char>,
    pub source_pattern: Option<Seq<char>>,
    pub target_pattern: Option<Seq<char>>,
    pub min_count: u32,
    pub max_count: Option<u32>,
}

impl DeepView for CorrelationCondition {
    type V = CorrelationConditionView;

    open spec fn deep_view(&self) -> CorrelationConditionView {
        CorrelationConditionView {
            event_type: self.event_type@,
            source_pattern: self.source_pattern.deep_view(),
            target_pattern: self.target_pattern.deep_view(),
            min_count: self.min_count,
            max_count: self.max_count,
        }
    }
}

impl View for CorrelationCondition {
    type V = CorrelationConditionView;

    open spec fn view(&self) -> CorrelationConditionView {
        self.deep_view()
    }
}

impl CorrelationConditionView {
    /// Whether an event is one of those the condition counts.
    pub open spec fn matches(self, e: CorrelationEventView) -> bool {
        &&& e.event_type == self.event_type
        &&& self.source_pattern is Some ==> contains_text(e.source, self.source_pattern->Some_0)
        &&& self.target_pattern is Some ==> contains_text(e.target, self.target_pattern->Some_0)
    }
}

impl CorrelationCondition {
    /// Whether an event is one of those the condition counts.
    pub fn matches(&self, e: &CorrelationEvent) -> (r: bool)
        ensures
            r == self@.matches(e@),
    {
        if !str_eq(e.event_type.as_str(), self.event_type.as_str()) {
            return false;
        }
        let source_ok = match &self.source_pattern {
            Some(p) => contains(e.source.as_str(), p.as_str()),
            None => true,
        };
        let target_ok = match &self.target_pattern {
            Some(p) => contains(e.target.as_str(), p.as_str()),
            None => true,
        };
        source_ok && target_ok
    }
}

/// A correlation rule.
#[derive(Debug, PartialEq, Eq)]
pub struct CorrelationRule {
    pub id: String,
    pub name: String,
    pub description: String,
    pub conditions: Vec<CorrelationCondition>,
    /// The size of the window, in milliseconds.
    pub time_window: u64,
    pub severity: ThreatSeverity,
    pub enabled: bool,
    /// Whether the conditions have to be met in their order.
    pub ordered: bool,
    pub priority: u8,
    /// Milliseconds for which the rule rests after it fired.
    pub cooldown_ms: u64,
    /// The category of the rule's findings; an advanced persistent threat
    /// where `None`.
    pub category: Option<ThreatCategory>,
}

/// What a `CorrelationRule` holds, as mathematical values.
pub struct CorrelationRuleView {
    pub id: Seq<char>,
    pub name: Seq<char>,
    pub description: Seq<char>,
    pub conditions: Seq<CorrelationConditionView>,
    pub time_window: u64,
    pub severity: ThreatSeverity,
    pub enabled: bool,
    pub ordered: bool,
    pub priority: u8,
    pub cooldown_ms: u64,
    pub category: Option<ThreatCategory>,
}

impl DeepView for CorrelationRule {
    type V = CorrelationRuleView;

    open spec fn deep_view(&self) -> CorrelationRuleView {
        CorrelationRuleView {
            id: self.id@,
            name: self.name@,
            description: self.description@,
            conditions: self.conditions.deep_view(),
            time_window: self.time_window,
            severity: self.severity,
            enabled: self.enabled,
            ordered: self.ordered,
            priority: self.priority,
            cooldown_ms: self.cooldown_ms,
            category: self.category,
        }
    }
}

impl View for CorrelationRule {
    type V = CorrelationRuleView;

    open spec fn view(&self) -> CorrelationRuleView {
        self.deep_view()
    }
}

/// Whether an event lies in the window of size `window` that ends at
/// `latest`.
pub open spec fn in_window(e: CorrelationEventView, latest: u64, window: u64) -> bool {
    e.timestamp <= latest && latest - e.timestamp <= window
}

/// How many events of the window a condition counts.
pub open spec fn count_in(events: Seq<CorrelationEventView>, c: CorrelationConditionView, latest: u64, window: u64) -> nat
    decreases events.len(),
{
    if events.len() == 0 {
        0
    } else {
        count_in(events.drop_last(), c, latest, window) + if in_window(
            events.last(),
            latest,
            window,
        ) && c.matches(events.last()) {
            1nat
        } else {
            0nat
        }
    }
}

/// The time of the earliest-arrived event of the window that a condition
/// counts.
pub open spec fn first_time(events: Seq<CorrelationEventView>, c: CorrelationConditionView, latest: u64, window: u64) -> Option<
    u64,
>
    decreases events.len(),
{
    if events.len() == 0 {
        None
    } else {
        let rest = first_time(events.drop_last(), c, latest, window);
        if rest is Some {
            rest
        } else if in_window(events.last(), latest, window) && c.matches(events.last()) {
            Some(events.last().timestamp)
        } else {
            None
        }
    }
}

/// Whether a condition is met: it counts at least its minimum and, where it
/// names one, at most its maximum.
pub open spec fn condition_met(c: CorrelationConditionView, events: Seq<CorrelationEventView>, latest: u64, window: u64) -> bool {
    &&& count_in(events, c, latest, window) >= c.min_count
    &&& c.max_count is Some ==> count_in(events, c, latest, window) <= c.max_count->Some_0
}

/// Whether the first events of the conditions come in the conditions'
/// order: that of each condition at or after that of the one before.
pub open spec fn in_order(conditions: Seq<CorrelationConditionView>, events: Seq<CorrelationEventView>, latest: u64, window: u64) -> bool {
    forall|i: int|
        1 <= i < conditions.len() && first_time(events, #[trigger] conditions[i], latest, window)
            is Some && first_time(events, conditions[i - 1], latest, window) is Some ==> first_time(
            events,
            conditions[i],
            latest,
            window,
        )->Some_0 >= first_time(events, conditions[i - 1], latest, window)->Some_0
}

/// Whether some condition of a list counts the event.
pub open spec fn any_matches(conditions: Seq<CorrelationConditionView>, e: CorrelationEventView) -> bool {
    exists|i: int| 0 <= i < conditions.len() && (#[trigger] conditions[i]).matches(e)
}

/// The identifiers of the events of the window that some condition counts,
/// in the order of their arrival.
pub open spec fn matched_ids(events: Seq<CorrelationEventView>, conditions: Seq<CorrelationConditionView>, latest: u64, window: u64) -> Seq<
    Seq<char>,
>
    decreases events.len(),
{
    if events.len() == 0 {
        Seq::empty()
    } else {
        let rest = matched_ids(events.drop_last(), conditions, latest, window);
        if in_window(events.last(), latest, window) && any_matches(conditions, events.last()) {
            rest.push(events.last().id)
        } else {
            rest
        }
    }
}

impl CorrelationRuleView {
    /// A rule can be registered if some condition of it asks for two events
    /// or more, so that what fires it spans several events, and no
    /// condition's maximum lies under its minimum.
    pub open spec fn valid(self) -> bool {
        &&& exists|i: int| 0 <= i < self.conditions.len() && (#[trigger] self.conditions[i]).min_count >= 2
        &&& forall|i: int|
            0 <= i < self.conditions.len() && (#[trigger] self.conditions[i]).max_count is Some
                ==> self.conditions[i].max_count->Some_0 >= self.conditions[i].min_count
    }

    /// Whether the events of the window satisfy the rule: every condition is
    /// met and, for an ordered rule, the conditions are met in their order.
    pub open spec fn satisfied(self, events: Seq<CorrelationEventView>, latest: u64) -> bool {
        &&& forall|i: int|
            0 <= i < self.conditions.len() ==> condition_met(
                #[trigger] self.conditions[i],
                events,
                latest,
                self.time_window,
            )
        &&& self.ordered ==> in_order(self.conditions, events, latest, self.time_window)
    }

    /// Whether this rule is tried before `other`: by higher priority, and
    /// among equal priorities by the smaller identifier.
    pub open spec fn before(self, other: CorrelationRuleView) -> bool {
        self.priority > other.priority || (self.priority == other.priority && text_lt(
            self.id,
            other.id,
        ))
    }

    /// The category under which the rule's findings go.
    pub open spec fn finding_category(self) -> ThreatCategory {
        match self.category {
            Some(c) => c,
            None => ThreatCategory::APT,
        }
    }
}

/// Where a rule stands.
#[derive(Clone, Copy, Debug, PartialEq, Eq, Structural, Hash)]
pub enum CorrelationStatus {
    /// Events of the window count towards the rule.
    Active,
    /// The rule fired and rests.
    Triggered,
    /// No event of the window counts towards the rule.
    Expired,
}

/// What the engine keeps for each rule.
#[derive(Clone, Copy, Debug, PartialEq, Eq, Structural)]
pub struct ActiveCorrelation {
    /// Where the window began when the rule was last looked at.
    pub window_start: u64,
    /// How many events of that window counted towards the rule.
    pub candidates: usize,
    pub status: CorrelationStatus,
    /// When the rule last fired.
    pub last_fired: Option<u64>,
}

impl ActiveCorrelation {
    /// Whether the rule rests at `now`.
    pub open spec fn resting(self, cooldown_ms: u64, now: u64) -> bool {
        self.last_fired is Some && elapsed(now, self.last_fired->Some_0) < cooldown_ms
    }
}

/// A rule fires iff it is enabled, does not rest, and the events of its
/// window satisfy it.
pub open spec fn rule_fires(r: CorrelationRuleView, state: ActiveCorrelation, events: Seq<CorrelationEventView>, now: u64) -> bool {
    r.enabled && !state.resting(r.cooldown_ms, now) && r.satisfied(events, now)
}

/// Where a window of size `window` that ends at `now` begins.
pub open spec fn window_start(now: u64, window: u64) -> u64 {
    if now >= window {
        (now - window) as u64
    } else {
        0
    }
}

/// What the engine keeps for a rule after an event at `now`.
pub open spec fn state_after(r: CorrelationRuleView, state: ActiveCorrelation, events: Seq<CorrelationEventView>, now: u64) -> ActiveCorrelation {
    let candidates = matched_ids(events, r.conditions, now, r.time_window).len();
    if rule_fires(r, state, events, now) {
        ActiveCorrelation {
            window_start: window_start(now, r.time_window),
            candidates: candidates as usize,
            status: CorrelationStatus::Triggered,
            last_fired: Some(now),
        }
    } else {
        ActiveCorrelation {
            window_start: window_start(now, r.time_window),
            candidates: candidates as usize,
            status: if state.resting(r.cooldown_ms, now) {
                CorrelationStatus::Triggered
            } else if candidates > 0 {
                CorrelationStatus::Active
            } else {
                CorrelationStatus::Expired
            },
            last_fired: state.last_fired,
        }
    }
}

/// The rolling buffer after an event arrived: the event at the end, and the
/// oldest events dropped so that at most `capacity` stay.
pub open spec fn buffer_after(events: Seq<CorrelationEventView>, e: CorrelationEventView, capacity: usize) -> Seq<
    CorrelationEventView,
> {
    let all = events.push(e);
    if all.len() > capacity {
        all.subrange(all.len() - capacity, all.len() as int)
    } else {
        all
    }
}

/// The positions of the first `n` rules that fire, in the order of trial.
pub open spec fn fired_upto(
    rules: Seq<CorrelationRuleView>,
    states: Seq<ActiveCorrelation>,
    events: Seq<CorrelationEventView>,
    now: u64,
    n: int,
) -> Seq<int>
    decreases n,
{
    if n <= 0 {
        Seq::empty()
    } else {
        let rest = fired_upto(rules, states, events, now, n - 1);
        if rule_fires(rules[n - 1], states[n - 1], events, now) {
            rest.push(n - 1)
        } else {
            rest
        }
    }
}

/// The finding that a rule produces when an event fires it.
pub open spec fn correlation_finding(
    r: CorrelationRuleView,
    events: Seq<CorrelationEventView>,
    e: CorrelationEventView,
    id: Seq<char>,
) -> ThreatFindingView {
    ThreatFindingView {
        finding_id: id,
        produced_at: e.timestamp,
        detector_kind: DetectorKind::Correlation,
        severity: r.severity,
        category: r.finding_category(),
        confidence: CORRELATION_CONFIDENCE,
        source_ip: e.source,
        destination_ip: e.target,
        user_id: e.user_id,
        source_event_ids: matched_ids(events, r.conditions, e.timestamp, r.time_window),
        matched_rule_ids: seq![r.id],
        description: "Multi-step attack detected: "@ + r.name,
        attributes: Seq::empty(),
    }
}

/// The identifier of the finding that a rule produces when an event fires
/// it: the event's identifier, `/corr/` and the rule's identifier.
pub open spec fn correlation_finding_id(r: CorrelationRuleView, e: CorrelationEventView) -> Seq<char> {
    e.id + "/corr/"@ + r.id
}

/// The findings of the rules that fired, in the order of trial.
pub open spec fn correlation_findings(
    rules: Seq<CorrelationRuleView>,
    fired: Seq<int>,
    events: Seq<CorrelationEventView>,
    e: CorrelationEventView,
) -> Seq<ThreatFindingView> {
    Seq::new(
        fired.len(),
        |j: int|
            correlation_finding(
                rules[fired[j]],
                events,
                e,
                correlation_finding_id(rules[fired[j]], e),
            ),
    )
}

/// The events that a condition counts are among those that some condition
/// counts.
pub proof fn lemma_matched_ids_cover(
    events: Seq<CorrelationEventView>,
    conditions: Seq<CorrelationConditionView>,
    latest: u64,
    window: u64,
    i: int,
)
    requires
        0 <= i < conditions.len(),
    ensures
        matched_ids(events, conditions, latest, window).len() >= count_in(
            events,
            conditions[i],
            latest,
            window,
        ),
    decreases events.len(),
{
    if events.len() > 0 {
        lemma_matched_ids_cover(events.drop_last(), conditions, latest, window, i);
        if in_window(events.last(), latest, window) && conditions[i].matches(events.last()) {
            assert(any_matches(conditions, events.last()));
        }
    }
}

/// A finding of a correlation names two events or more: what fires a valid
/// rule spans at least the two events that one of its conditions asks for.
pub proof fn lemma_correlation_spans_events(
    r: CorrelationRuleView,
    events: Seq<CorrelationEventView>,
    e: CorrelationEventView,
    id: Seq<char>,
)
    requires
        r.valid(),
        r.satisfied(events, e.timestamp),
    ensures
        correlation_finding(r, events, e, id).wf(),
        correlation_finding(r, events, e, id).source_event_ids.len() >= 2,
{
    let i = choose|i: int| 0 <= i < r.conditions.len() && (#[trigger] r.conditions[i]).min_count >= 2;
    assert(condition_met(r.conditions[i], events, e.timestamp, r.time_window));
    lemma_matched_ids_cover(events, r.conditions, e.timestamp, r.time_window, i);
}

/// A rule of one condition that asks for `k` events and names no maximum
/// fires exactly when the `k`-th such event of the window arrives: with the
/// arriving event at the end of the buffer, the rule fires iff the events
/// counted before it and the arriving event, if it counts, make `k` or more.
pub proof fn lemma_fires_at_kth_event(
    r: CorrelationRuleView,
    state: ActiveCorrelation,
    events: Seq<CorrelationEventView>,
    e: CorrelationEventView,
)
    requires
        r.conditions.len() == 1,
        r.conditions[0].max_count is None,
        r.enabled,
        !state.resting(r.cooldown_ms, e.timestamp),
    ensures
        rule_fires(r, state, events.push(e), e.timestamp) <==> count_in(
            events,
            r.conditions[0],
            e.timestamp,
            r.time_window,
        ) + (if r.conditions[0].matches(e) {
            1nat
        } else {
            0nat
        }) >= r.conditions[0].min_count,
{
    let all = events.push(e);
    assert(all.drop_last() =~= events);
    assert(all.last() == e);
    assert(in_window(e, e.timestamp, r.time_window));
    assert(in_order(r.conditions, all, e.timestamp, r.time_window));
    if count_in(all, r.conditions[0], e.timestamp, r.time_window) >= r.conditions[0].min_count {
        assert forall|i: int| 0 <= i < r.conditions.len() implies condition_met(
            #[trigger] r.conditions[i],
            all,
            e.timestamp,
            r.time_window,
        ) by {
            assert(i == 0);
        }
    } else {
        assert(!condition_met(r.conditions[0], all, e.timestamp, r.time_window));
    }
}

/// Whether an event lies in the window of size `window` that ends at
/// `latest`.
pub fn event_in_window(e: &CorrelationEvent, latest: u64, window: u64) -> (r: bool)
    ensures
        r == in_window(e@, latest, window),
{
    e.timestamp <= latest && latest - e.timestamp <= window
}

/// How many events of the window a condition counts.
pub fn count_matching(events: &Vec<CorrelationEvent>, c: &CorrelationCondition, latest: u64, window: u64) -> (n:
    usize)
    ensures
        n == count_in(events.deep_view(), c@, latest, window),
{
    let mut n: usize = 0;
    let mut i: usize = 0;
    proof {
        assert(events.deep_view().subrange(0, 0) =~= Seq::<CorrelationEventView>::empty());
    }
    while i < events.len()
        invariant
            i <= events@.len(),
            n <= i,
            n == count_in(events.deep_view().subrange(0, i as int), c@, latest, window),
        decreases events@.len() - i,
    {
        proof {
            assert(events.deep_view().subrange(0, i as int + 1).drop_last()
                =~= events.deep_view().subrange(0, i as int));
        }
        if event_in_window(&events[i], latest, window) && c.matches(&events[i]) {
            n += 1;
        }
        i += 1;
    }
    proof {
        assert(events.deep_view().subrange(0, events@.len() as int) =~= events.deep_view());
    }
    n
}

/// The time of the earliest-arrived event of the window that a condition
/// counts.
pub fn first_match_time(events: &Vec<CorrelationEvent>, c: &CorrelationCondition, latest: u64, window: u64) -> (r:
    Option<u64>)
    ensures
        r == first_time(events.deep_view(), c@, latest, window),
{
    let mut found: Option<u64> = None;
    let mut i: usize = 0;
    proof {
        assert(events.deep_view().subrange(0, 0) =~= Seq::<CorrelationEventView>::empty());
    }
    while i < events.len()
        invariant
            i <= events@.len(),
            found == first_time(events.deep_view().subrange(0, i as int), c@, latest, window),
        decreases events@.len() - i,
    {
        proof {
            assert(events.deep_view().subrange(0, i as int + 1).drop_last()
                =~= events.deep_view().subrange(0, i as int));
        }
        if found.is_none() && event_in_window(&events[i], latest, window) && c.matches(&events[i]) {
            found = Some(events[i].timestamp);
        }
        i += 1;
    }
    proof {
        assert(events.deep_view().subrange(0, events@.len() as int) =~= events.deep_view());
    }
    found
}

/// Whether a condition is met by the events of the window.
pub fn condition_is_met(c: &CorrelationCondition, events: &Vec<CorrelationEvent>, latest: u64, window: u64) -> (r:
    bool)
    ensures
        r == condition_met(c@, events.deep_view(), latest, window),
{
    let n = count_matching(events, c, latest, window);
    let enough = n as u128 >= c.min_count as u128;
    let within = match c.max_count {
        Some(m) => n as u128 <= m as u128,
        None => true,
    };
    enough && within
}

/// Whether some condition of a list counts the event.
pub fn event_matches_any(conditions: &Vec<CorrelationCondition>, e: &CorrelationEvent) -> (r: bool)
    ensures
        r == any_matches(conditions.deep_view(), e@),
{
    let mut i: usize = 0;
    while i < conditions.len()
        invariant
            i <= conditions@.len(),
            forall|j: int| 0 <= j < i ==> !(#[trigger] conditions.deep_view()[j]).matches(e@),
        decreases conditions@.len() - i,
    {
        if conditions[i].matches(e) {
            proof {
                assert(conditions.deep_view()[i as int].matches(e@));
            }
            return true;
        }
        i += 1;
    }
    false
}

/// The identifiers of the events of the window that some condition counts,
/// in the order of their arrival.
pub fn collect_matched_ids(
    events: &Vec<CorrelationEvent>,
    conditions: &Vec<CorrelationCondition>,
    latest: u64,
    window: u64,
) -> (r: Vec<String>)
    ensures
        r.deep_view() == matched_ids(events.deep_view(), conditions.deep_view(), latest, window),
{
    let mut ids: Vec<String> = Vec::new();
    let mut i: usize = 0;
    proof {
        assert(events.deep_view().subrange(0, 0) =~= Seq::<CorrelationEventView>::empty());
        assert(ids.deep_view() =~= Seq::<Seq<char>>::empty());
    }
    while i < events.len()
        invariant
            i <= events@.len(),
            ids.deep_view() == matched_ids(
                events.deep_view().subrange(0, i as int),
                conditions.deep_view(),
                latest,
                window,
            ),
        decreases events@.len() - i,
    {
        proof {
            assert(events.deep_view().subrange(0, i as int + 1).drop_last()
                =~= events.deep_view().subrange(0, i as int));
        }
        if event_in_window(&events[i], latest, window) && event_matches_any(conditions, &events[i]) {
            let ghost before = ids.deep_view();
            ids.push(events[i].id.clone());
            proof {
                assert(ids.deep_view() =~= before.push(events.deep_view()[i as int].id));
            }
        }
        i += 1;
    }
    proof {
        assert(events.deep_view().subrange(0, events@.len() as int) =~= events.deep_view());
    }
    ids
}

impl CorrelationRule {
    /// Whether the rule can be registered.
    pub fn is_valid(&self) -> (r: bool)
        ensures
            r == self@.valid(),
    {
        let mut spans = false;
        let mut i: usize = 0;
        while i < self.conditions.len()
            invariant
                i <= self.conditions@.len(),
                spans == exists|j: int| 0 <= j < i && (#[trigger] self@.conditions[j]).min_count >= 2,
                forall|j: int|
                    0 <= j < i && (#[trigger] self@.conditions[j]).max_count is Some
                        ==> self@.conditions[j].max_count->Some_0 >= self@.conditions[j].min_count,
            decreases self.conditions@.len() - i,
        {
            let c = &self.conditions[i];
            match c.max_count {
                Some(m) => {
                    if m < c.min_count {
                        proof {
                            assert(self@.conditions[i as int].max_count is Some);
                        }
                        return false;
                    }
                },
                None => {},
            }
            if c.min_count >= 2 {
                proof {
                    assert(self@.conditions[i as int].min_count >= 2);
                }
                spans = true;
            }
            i += 1;
        }
        spans
    }

    /// Whether the events of the window that ends at `latest` satisfy the
    /// rule.
    pub fn is_satisfied(&self, events: &Vec<CorrelationEvent>, latest: u64) -> (r: bool)
        ensures
            r == self@.satisfied(events.deep_view(), latest),
    {
        let mut i: usize = 0;
        while i < self.conditions.len()
            invariant
                i <= self.conditions@.len(),
                forall|j: int|
                    0 <= j < i ==> condition_met(
                        #[trigger] self@.conditions[j],
                        events.deep_view(),
                        latest,
                        self.time_window,
                    ),
            decreases self.conditions@.len() - i,
        {
            if !condition_is_met(&self.conditions[i], events, latest, self.time_window) {
                proof {
                    assert(!condition_met(
                        self@.conditions[i as int],
                        events.deep_view(),
                        latest,
                        self.time_window,
                    ));
                }
                return false;
            }
            i += 1;
        }
        if !self.ordered {
            return true;
        }
        let mut k: usize = 1;
        while k < self.conditions.len()
            invariant
                1 <= k,
                self.ordered,
                forall|j: int|
                    1 <= j < k && j < self.conditions@.len() && first_time(
                        events.deep_view(),
                        #[trigger] self@.conditions[j],
                        latest,
                        self.time_window,
                    ) is Some && first_time(
                        events.deep_view(),
                        self@.conditions[j - 1],
                        latest,
                        self.time_window,
                    ) is Some ==> first_time(
                        events.deep_view(),
                        self@.conditions[j],
                        latest,
                        self.time_window,
                    )->Some_0 >= first_time(
                        events.deep_view(),
                        self@.conditions[j - 1],
                        latest,
                        self.time_window,
                    )->Some_0,
            decreases self.conditions@.len() - k,
        {
            let here = first_match_time(events, &self.conditions[k], latest, self.time_window);
            let before = first_match_time(events, &self.conditions[k - 1], latest, self.time_window);
            match (here, before) {
                (Some(a), Some(b)) => {
                    if a < b {
                        proof {
                            assert(first_time(
                                events.deep_view(),
                                self@.conditions[k as int],
                                latest,
                                self.time_window,
                            ) is Some);
                            assert(first_time(
                                events.deep_view(),
                                self@.conditions[k as int - 1],
                                latest,
                                self.time_window,
                            ) == Some(b));
                            assert(!in_order(
                                self@.conditions,
                                events.deep_view(),
                                latest,
                                self.time_window,
                            ));
                        }
                        return false;
                    }
                },
                _ => {},
            }
            k += 1;
        }
        true
    }

    /// Whether this rule is tried before `other`.
    pub fn is_before(&self, other: &CorrelationRule) -> (r: bool)
        ensures
            r == self@.before(other@),
    {
        self.priority > other.priority || (self.priority == other.priority && str_lt(
            self.id.as_str(),
            other.id.as_str(),
        ))
    }
}

/// Builds the finding that a rule produces when an event fires it, under the
/// identifier given, from the identifiers of the events that counted.
pub fn make_correlation_finding(rule: &CorrelationRule, ids: Vec<String>, e: &CorrelationEvent, id: String) -> (r:
    ThreatFinding)
    ensures
        r@ == (ThreatFindingView {
            finding_id: id@,
            produced_at: e@.timestamp,
            detector_kind: DetectorKind::Correlation,
            severity: rule@.severity,
            category: rule@.finding_category(),
            confidence: CORRELATION_CONFIDENCE,
            source_ip: e@.source,
            destination_ip: e@.target,
            user_id: e@.user_id,
            source_event_ids: ids.deep_view(),
            matched_rule_ids: seq![rule@.id],
            description: "Multi-step attack detected: "@ + rule@.name,
            attributes: Seq::empty(),
        }),
{
    let mut description = String::from_str("Multi-step attack detected: ");
    description.append(rule.name.as_str());
    let mut matched_rule_ids: Vec<String> = Vec::new();
    matched_rule_ids.push(rule.id.clone());
    let category = match rule.category {
        Some(c) => c,
        None => ThreatCategory::APT,
    };
    let r = ThreatFinding {
        finding_id: id,
        produced_at: e.timestamp,
        detector_kind: DetectorKind::Correlation,
        severity: rule.severity,
        category,
        confidence: CORRELATION_CONFIDENCE,
        source_ip: e.source.clone(),
        destination_ip: e.target.clone(),
        user_id: e.user_id.clone(),
        source_event_ids: ids,
        matched_rule_ids,
        description,
        attributes: Vec::new(),
    };
    proof {
        assert(r@.matched_rule_ids =~= seq![rule@.id]);
        assert(r@.attributes =~= Seq::empty());
    }
    r
}

/// Why a rule was not registered.
#[derive(Clone, Copy, Debug, PartialEq, Eq, Structural, Hash)]
pub enum CorrelationError {
    /// No condition of the rule asks for two events or more, or a
    /// condition's maximum lies under its minimum.
    InvalidRule,
}

/// The state of a correlation engine, as mathematical values.
pub struct CorrelationEngineView {
    /// The rules in the order in which they are tried.
    pub rules: Seq<CorrelationRuleView>,
    /// What is kept for each rule, rule for rule.
    pub states: Seq<ActiveCorrelation>,
    /// The rolling buffer of the most recent events, oldest first.
    pub events: Seq<CorrelationEventView>,
    /// How many events the buffer holds at most.
    pub buffer_size: usize,
}

/// Whether a list of rules stands in the order in which rules are tried.
pub open spec fn correlation_rules_ordered(rules: Seq<CorrelationRuleView>) -> bool {
    forall|i: int, j: int| 0 <= i < j < rules.len() ==> !rules[j].before(rules[i])
}

impl CorrelationEngineView {
    /// The engine's invariant: a state for each rule, every rule valid, the
    /// rules in the order of trial, and the buffer within its size.
    pub open spec fn wf(self) -> bool {
        &&& self.states.len() == self.rules.len()
        &&& forall|i: int| 0 <= i < self.rules.len() ==> (#[trigger] self.rules[i]).valid()
        &&& correlation_rules_ordered(self.rules)
        &&& self.events.len() <= self.buffer_size
    }
}

/// The state kept for a rule that was just registered.
pub open spec fn fresh_state() -> ActiveCorrelation {
    ActiveCorrelation {
        window_start: 0,
        candidates: 0,
        status: CorrelationStatus::Expired,
        last_fired: None,
    }
}

/// The position of the first rule with this identifier; the length of the
/// list where there is none.
pub open spec fn correlation_rule_index(rules: Seq<CorrelationRuleView>, id: Seq<char>) -> int
    decreases rules.len(),
{
    if rules.len() == 0 {
        0
    } else if rules[0].id == id {
        0
    } else {
        1 + correlation_rule_index(rules.drop_first(), id)
    }
}

/// The first position at which `rule` is tried before the rule standing
/// there; the length of the list where there is none.
pub open spec fn correlation_insert_position(rules: Seq<CorrelationRuleView>, rule: CorrelationRuleView) -> int
    decreases rules.len(),
{
    if rules.len() == 0 {
        0
    } else if rule.before(rules[0]) {
        0
    } else {
        1 + correlation_insert_position(rules.drop_first(), rule)
    }
}

/// The engine after a valid rule was registered: a rule of the same
/// identifier leaves with its state, and the new rule goes where the order
/// of trial wants it, with a fresh state.
pub open spec fn rule_added(s: CorrelationEngineView, rule: CorrelationRuleView) -> CorrelationEngineView {
    let i = correlation_rule_index(s.rules, rule.id);
    let rules = if i < s.rules.len() {
        s.rules.remove(i)
    } else {
        s.rules
    };
    let states = if i < s.rules.len() {
        s.states.remove(i)
    } else {
        s.states
    };
    let k = correlation_insert_position(rules, rule);
    CorrelationEngineView {
        rules: rules.insert(k, rule),
        states: states.insert(k, fresh_state()),
        ..s
    }
}

proof fn lemma_correlation_rule_index(rules: Seq<CorrelationRuleView>, id: Seq<char>, i: int)
    requires
        0 <= i <= rules.len(),
        forall|j: int| 0 <= j < i ==> rules[j].id != id,
        i == rules.len() || rules[i].id == id,
    ensures
        correlation_rule_index(rules, id) == i,
    decreases i,
{
    if i > 0 {
        let t = rules.drop_first();
        assert forall|j: int| 0 <= j < i - 1 implies t[j].id != id by {
            assert(t[j] == rules[j + 1]);
        }
        lemma_correlation_rule_index(t, id, i - 1);
    }
}

proof fn lemma_correlation_insert_position(rules: Seq<CorrelationRuleView>, rule: CorrelationRuleView, i: int)
    requires
        0 <= i <= rules.len(),
        forall|j: int| 0 <= j < i ==> !rule.before(rules[j]),
        i == rules.len() || rule.before(rules[i]),
    ensures
        correlation_insert_position(rules, rule) == i,
    decreases i,
{
    if i > 0 {
        let t = rules.drop_first();
        assert forall|j: int| 0 <= j < i - 1 implies !rule.before(t[j]) by {
            assert(t[j] == rules[j + 1]);
        }
        lemma_correlation_insert_position(t, rule, i - 1);
    }
}

/// No rule is tried before itself, and the order is transitive.
pub proof fn lemma_correlation_rule_order(a: CorrelationRuleView, b: CorrelationRuleView, c: CorrelationRuleView)
    ensures
        !a.before(a),
        a.before(b) && b.before(c) ==> a.before(c),
        a.before(b) ==> !b.before(a),
{
    lemma_bytes_lt_irreflexive(encode_utf8(a.id));
    if a.before(b) && b.before(c) {
        if a.priority == b.priority && b.priority == c.priority {
            lemma_bytes_lt_transitive(encode_utf8(a.id), encode_utf8(b.id), encode_utf8(c.id));
        }
    }
    if a.before(b) && b.before(a) {
        lemma_bytes_lt_transitive(encode_utf8(a.id), encode_utf8(b.id), encode_utf8(a.id));
    }
}

proof fn lemma_insert_keeps_order(rules: Seq<CorrelationRuleView>, rule: CorrelationRuleView, k: int)
    requires
        correlation_rules_ordered(rules),
        0 <= k <= rules.len(),
        forall|j: int| 0 <= j < k ==> !rule.before(rules[j]),
        k == rules.len() || rule.before(rules[k]),
    ensures
        correlation_rules_ordered(rules.insert(k, rule)),
{
    let after = rules.insert(k, rule);
    assert forall|i: int, j: int| 0 <= i < j < after.len() implies !after[j].before(after[i]) by {
        if j == k {
            assert(after[i] == rules[i]);
        } else if i == k {
            assert(after[j] == rules[j - 1]);
            lemma_correlation_rule_order(rules[j - 1], rule, rules[k]);
            if j - 1 > k {
                assert(!rules[j - 1].before(rules[k]));
            }
        } else {
            let a = if i < k {
                i
            } else {
                i - 1
            };
            let b = if j < k {
                j
            } else {
                j - 1
            };
            assert(after[i] == rules[a]);
            assert(after[j] == rules[b]);
        }
    }
}

/// The events that are no older than the horizon at `now`, in order.
pub open spec fn recent(events: Seq<CorrelationEventView>, now: u64) -> Seq<CorrelationEventView>
    decreases events.len(),
{
    if events.len() == 0 {
        Seq::empty()
    } else {
        let rest = recent(events.drop_last(), now);
        if elapsed(now, events.last().timestamp) <= EVENT_HORIZON_MS {
            rest.push(events.last())
        } else {
            rest
        }
    }
}

proof fn lemma_recent_len(events: Seq<CorrelationEventView>, now: u64)
    ensures
        recent(events, now).len() <= events.len(),
    decreases events.len(),
{
    if events.len() > 0 {
        lemma_recent_len(events.drop_last(), now);
    }
}

/// The engine after an event: the event is in the buffer, and what is kept
/// for each rule follows from the window that ends at the event.
pub open spec fn correlated(s: CorrelationEngineView, e: CorrelationEventView) -> CorrelationEngineView {
    let events = buffer_after(s.events, e, s.buffer_size);
    CorrelationEngineView {
        events,
        states: Seq::new(
            s.states.len(),
            |i: int| state_after(s.rules[i], s.states[i], events, e.timestamp),
        ),
        ..s
    }
}

/// The findings that an event produces: those of the rules that fire on the
/// window that ends at the event, in the order of trial.
pub open spec fn correlation_output(s: CorrelationEngineView, e: CorrelationEventView) -> Seq<ThreatFindingView> {
    let events = buffer_after(s.events, e, s.buffer_size);
    correlation_findings(
        s.rules,
        fired_upto(s.rules, s.states, events, e.timestamp, s.rules.len() as int),
        events,
        e,
    )
}

/// The correlation engine.
pub struct CorrelationEngine {
    rules: Vec<CorrelationRule>,
    states: Vec<ActiveCorrelation>,
    events: Vec<CorrelationEvent>,
    buffer_size: usize,
}

impl View for CorrelationEngine {
    type V = CorrelationEngineView;

    closed spec fn view(&self) -> CorrelationEngineView {
        CorrelationEngineView {
            rules: self.rules.deep_view(),
            states: self.states@,
            events: self.events.deep_view(),
            buffer_size: self.buffer_size,
        }
    }
}

impl CorrelationEngine {
    /// An engine without rules, with a buffer of the default size.
    pub fn new() -> (r: Self)
        ensures
            r@.wf(),
            r@ == (CorrelationEngineView {
                rules: Seq::empty(),
                states: Seq::empty(),
                events: Seq::empty(),
                buffer_size: DEFAULT_BUFFER_SIZE,
            }),
    {
        CorrelationEngine::with_buffer_size(DEFAULT_BUFFER_SIZE)
    }

    /// An engine without rules, with a buffer of the size given.
    pub fn with_buffer_size(buffer_size: usize) -> (r: Self)
        ensures
            r@.wf(),
            r@ == (CorrelationEngineView {
                rules: Seq::empty(),
                states: Seq::empty(),
                events: Seq::empty(),
                buffer_size,
            }),
    {
        let r = CorrelationEngine {
            rules: Vec::new(),
            states: Vec::new(),
            events: Vec::new(),
            buffer_size,
        };
        proof {
            assert(r@.rules =~= Seq::empty());
            assert(r@.events =~= Seq::empty());
        }
        r
    }

    /// Registers a rule where the order of trial wants it; a rule of the
    /// same identifier is taken out first. A rule that is not valid is
    /// refused, and nothing changes.
    pub fn add_correlation_rule(&mut self, rule: CorrelationRule) -> (r: Result<(), CorrelationError>)
        requires
            old(self)@.wf(),
        ensures
            final(self)@.wf(),
            r is Ok <==> rule@.valid(),
            r is Ok ==> final(self)@ == rule_added(old(self)@, rule@),
            r is Err ==> final(self)@ == old(self)@,
    {
        if !rule.is_valid() {
            return Err(CorrelationError::InvalidRule);
        }
        let mut i: usize = 0;
        while i < self.rules.len() && !str_eq(self.rules[i].id.as_str(), rule.id.as_str())
            invariant
                i <= self.rules@.len(),
                *self == *old(self),
                forall|j: int| 0 <= j < i ==> self@.rules[j].id != rule@.id,
            decreases self.rules@.len() - i,
        {
            i += 1;
        }
        proof {
            lemma_correlation_rule_index(self@.rules, rule@.id, i as int);
        }
        if i < self.rules.len() {
            let _ = self.rules.remove(i);
            let _ = self.states.remove(i);
            proof {
                assert(self@.rules =~= old(self)@.rules.remove(i as int));
                assert forall|a: int, b: int| 0 <= a < b < self@.rules.len() implies !self@.rules[b].before(
                    self@.rules[a],
                ) by {
                    let a0 = if a < i {
                        a
                    } else {
                        a + 1
                    };
                    let b0 = if b < i {
                        b
                    } else {
                        b + 1
                    };
                    assert(self@.rules[a] == old(self)@.rules[a0]);
                    assert(self@.rules[b] == old(self)@.rules[b0]);
                }
                assert forall|a: int| 0 <= a < self@.rules.len() implies (#[trigger] self@.rules[a]).valid() by {
                    let a0 = if a < i {
                        a
                    } else {
                        a + 1
                    };
                    assert(self@.rules[a] == old(self)@.rules[a0]);
                }
            }
        }
        let ghost base = self@.rules;
        let mut k: usize = 0;
        while k < self.rules.len() && !rule.is_before(&self.rules[k])
            invariant
                k <= self.rules@.len(),
                self@.rules == base,
                forall|j: int| 0 <= j < k ==> !rule@.before(base[j]),
            decreases self.rules@.len() - k,
        {
            k += 1;
        }
        proof {
            lemma_correlation_insert_position(base, rule@, k as int);
            lemma_insert_keeps_order(base, rule@, k as int);
        }
        self.rules.insert(k, rule);
        self.states.insert(
            k,
            ActiveCorrelation {
                window_start: 0,
                candidates: 0,
                status: CorrelationStatus::Expired,
                last_fired: None,
            },
        );
        proof {
            assert(self@.rules =~= base.insert(k as int, rule@));
            assert forall|a: int| 0 <= a < self@.rules.len() implies (#[trigger] self@.rules[a]).valid() by {
                if a < k {
                    assert(self@.rules[a] == base[a]);
                } else if a > k {
                    assert(self@.rules[a] == base[a - 1]);
                }
            }
        }
        Ok(())
    }

    /// How many rules are registered.
    pub fn rule_count(&self) -> (r: usize)
        ensures
            r == self@.rules.len(),
    {
        self.rules.len()
    }

    /// How many events the buffer holds.
    pub fn buffered(&self) -> (r: usize)
        ensures
            r == self@.events.len(),
    {
        self.events.len()
    }

    /// What is kept for the rule at a position of the order of trial.
    pub fn state_at(&self, i: usize) -> (r: ActiveCorrelation)
        requires
            self@.wf(),
            i < self@.rules.len(),
        ensures
            r == self@.states[i as int],
    {
        self.states[i]
    }

    /// Takes an event in. The event goes to the end of the rolling buffer,
    /// the oldest event leaves where the buffer is over its size, and every
    /// rule is tried, in the order of trial, on the window that ends at the
    /// event. Every rule that fires produces one finding and begins to
    /// rest.
    pub fn process_event(&mut self, event: CorrelationEvent) -> (r: Vec<ThreatFinding>)
        requires
            old(self)@.wf(),
        ensures
            final(self)@.wf(),
            final(self)@ == correlated(old(self)@, event@),
            final(self)@.rules == old(self)@.rules,
            final(self)@.buffer_size == old(self)@.buffer_size,
            final(self)@.events == buffer_after(
                old(self)@.events,
                event@,
                old(self)@.buffer_size,
            ),
            final(self)@.states.len() == old(self)@.states.len(),
            forall|i: int|
                0 <= i < old(self)@.rules.len() ==> (#[trigger] final(self)@.states[i]) == state_after(
                    old(self)@.rules[i],
                    old(self)@.states[i],
                    final(self)@.events,
                    event@.timestamp,
                ),
            r.deep_view() == correlation_findings(
                old(self)@.rules,
                fired_upto(
                    old(self)@.rules,
                    old(self)@.states,
                    final(self)@.events,
                    event@.timestamp,
                    old(self)@.rules.len() as int,
                ),
                final(self)@.events,
                event@,
            ),
            forall|j: int| 0 <= j < r@.len() ==> (#[trigger] r@[j])@.wf(),
    {
        let now = event.timestamp;
        let arrived = event.clone();
        let ghost before = self.events.deep_view();
        self.events.push(event);
        proof {
            assert(self.events.deep_view() =~= before.push(event@));
        }
        if self.events.len() > self.buffer_size {
            let ghost all = self.events.deep_view();
            let _ = self.events.remove(0);
            proof {
                assert(self.events.deep_view() =~= all.subrange(
                    all.len() - self.buffer_size,
                    all.len() as int,
                ));
            }
        }
        let ghost rules = self@.rules;
        let ghost states = self@.states;
        let ghost events = self@.events;
        let mut findings: Vec<ThreatFinding> = Vec::new();
        let mut i: usize = 0;
        proof {
            assert(findings.deep_view() =~= correlation_findings(
                rules,
                Seq::<int>::empty(),
                events,
                event@,
            ));
        }
        while i < self.rules.len()
            invariant
                i <= self.rules@.len(),
                rules == old(self)@.rules,
                states == old(self)@.states,
                old(self)@.wf(),
                self@.rules == rules,
                self@.events == events,
                events == buffer_after(old(self)@.events, event@, old(self)@.buffer_size),
                events.len() <= self.buffer_size,
                self.buffer_size == old(self).buffer_size,
                self.states@.len() == states.len(),
                now == event@.timestamp,
                arrived@ == event@,
                forall|m: int|
                    0 <= m < i ==> (#[trigger] self.states@[m]) == state_after(
                        rules[m],
                        states[m],
                        events,
                        now,
                    ),
                forall|m: int| i <= m < states.len() ==> (#[trigger] self.states@[m]) == states[m],
                findings.deep_view() == correlation_findings(
                    rules,
                    fired_upto(rules, states, events, now, i as int),
                    events,
                    event@,
                ),
                forall|j: int| 0 <= j < findings@.len() ==> (#[trigger] findings@[j])@.wf(),
            decreases self.rules@.len() - i,
        {
            proof {
                assert(self.rules@[i as int].deep_view() == rules[i as int]);
                assert(rules[i as int].valid());
            }
            let state = self.states[i];
            let resting = match state.last_fired {
                Some(t) => elapsed_ms(now, t) < self.rules[i].cooldown_ms,
                None => false,
            };
            let fires = self.rules[i].enabled && !resting && self.rules[i].is_satisfied(
                &self.events,
                now,
            );
            let ids = collect_matched_ids(
                &self.events,
                &self.rules[i].conditions,
                now,
                self.rules[i].time_window,
            );
            let candidates = ids.len();
            let start = if now >= self.rules[i].time_window {
                now - self.rules[i].time_window
            } else {
                0
            };
            if fires {
                let mut id = arrived.id.clone();
                id.append("/corr/");
                id.append(self.rules[i].id.as_str());
                let finding = make_correlation_finding(&self.rules[i], ids, &arrived, id);
                proof {
                    lemma_correlation_spans_events(
                        rules[i as int],
                        events,
                        event@,
                        finding@.finding_id,
                    );
                    assert(finding@ == correlation_finding(
                        rules[i as int],
                        events,
                        event@,
                        correlation_finding_id(rules[i as int], event@),
                    ));
                }
                let ghost found_before = findings.deep_view();
                let ghost fired_before = fired_upto(rules, states, events, now, i as int);
                findings.push(finding);
                proof {
                    assert(findings.deep_view() =~= found_before.push(finding@));
                    assert(findings.deep_view() =~= correlation_findings(
                        rules,
                        fired_before.push(i as int),
                        events,
                        event@,
                    ));
                }
                self.states[i] = ActiveCorrelation {
                    window_start: start,
                    candidates,
                    status: CorrelationStatus::Triggered,
                    last_fired: Some(now),
                };
            } else {
                self.states[i] = ActiveCorrelation {
                    window_start: start,
                    candidates,
                    status: if resting {
                        CorrelationStatus::Triggered
                    } else if candidates > 0 {
                        CorrelationStatus::Active
                    } else {
                        CorrelationStatus::Expired
                    },
                    last_fired: state.last_fired,
                };
            }
            i += 1;
        }
        proof {
            assert(self@.states =~= correlated(old(self)@, event@).states);
        }
        findings
    }

    /// Drops from the buffer the events that are older than the horizon of
    /// one hour at `current_time`.
    pub fn cleanup_expired_correlations(&mut self, current_time: u64)
        requires
            old(self)@.wf(),
        ensures
            final(self)@.wf(),
            final(self)@ == (CorrelationEngineView {
                events: recent(old(self)@.events, current_time),
                ..old(self)@
            }),
    {
        let mut kept: Vec<CorrelationEvent> = Vec::new();
        let mut i: usize = 0;
        proof {
            assert(self.events.deep_view().subrange(0, 0) =~= Seq::<CorrelationEventView>::empty());
            assert(kept.deep_view() =~= Seq::<CorrelationEventView>::empty());
        }
        while i < self.events.len()
            invariant
                i <= self.events@.len(),
                *self == *old(self),
                kept.deep_view() == recent(self.events.deep_view().subrange(0, i as int), current_time),
            decreases self.events@.len() - i,
        {
            proof {
                assert(self.events.deep_view().subrange(0, i as int + 1).drop_last()
                    =~= self.events.deep_view().subrange(0, i as int));
            }
            if elapsed_ms(current_time, self.events[i].timestamp) <= EVENT_HORIZON_MS {
                let ghost before = kept.deep_view();
                kept.push(self.events[i].clone());
                proof {
                    assert(kept.deep_view() =~= before.push(self.events.deep_view()[i as int]));
                }
            }
            i += 1;
        }
        proof {
            assert(self.events.deep_view().subrange(0, self.events@.len() as int)
                =~= self.events.deep_view());
            lemma_recent_len(self.events.deep_view(), current_time);
        }
        self.events = kept;
    }
}

} // verus!
