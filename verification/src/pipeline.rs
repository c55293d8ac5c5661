//! The core put together: the dispatcher in front, the detectors of a
//! worker behind it, and the orchestrator that turns what they find into
//! incidents and requests for action.

use vstd::prelude::*;
use crate::detection::append_findings;
use crate::detection::default_config;
use crate::detection::started;
use crate::detection::AdvancedThreatConfig;
use crate::detection::AdvancedThreatDetectionEngine;
use crate::detection::detect_findings;
use crate::detection::detect_state;
use crate::detection::DetectionView;
use crate::dispatcher::Dispatcher;
use crate::dispatcher::DispatcherConfig;
use crate::dispatcher::DispatcherCounters;
use crate::dispatcher::DispatcherView;
use crate::dispatcher::DropReason;
use crate::dispatcher::entry_for;
use crate::orchestrator::next_count;
use crate::dispatcher::remembers;
use crate::signature::elapsed;
use crate::dispatcher::submit_spec;
use crate::dispatcher::SubmitResult;
use crate::incident::ActionRequest;
use crate::incident::ActionRequestView;
use crate::incident::Incident;
use crate::incident::IncidentStatus;
use crate::incident::IncidentView;
use crate::incident::ActionFailure;
use crate::lifecycle::expire_spec;
use crate::lifecycle::record_spec;
use crate::lifecycle::unexpired;
use crate::lifecycle::unexpired_marks;
use crate::lifecycle::IncidentStats;
use crate::lifecycle::Recorded;
use crate::orchestrator::outcome_of;
use crate::lifecycle::selected;
use crate::lifecycle::SelectionView;
use crate::lifecycle::lemma_terminal_kept_transitive;
use crate::model::RawEvent;
use crate::model::RawEventView;
use crate::model::ThreatFinding;
use crate::model::ThreatFindingView;
use crate::orchestrator::AlertConfig;
use crate::orchestrator::AlertConfigView;
use crate::orchestrator::IncidentResponseEngine;
use crate::orchestrator::OrchestratorSettings;
use crate::orchestrator::OrchestratorView;
use crate::orchestrator::SOARConfig;
use crate::orchestrator::SOARConfigView;
use crate::orchestrator::extends;
use crate::orchestrator::process_run;
use crate::orchestrator::Run;
use crate::orchestrator::process_spec;
use crate::orchestrator::touched;
use crate::response::default_rule;
use crate::orchestrator::requests_of;
use crate::orchestrator::terminal_kept;

verus! {

/// What the detectors leave behind after a run of events.
pub struct DetectionRun {
    pub detectors: DetectionView,
    pub findings: Seq<ThreatFindingView>,
}

/// The detectors on a run of events, one event after the other: each event
/// meets the detectors as the events before it left them.
pub open spec fn detect_run(s: DetectionView, events: Seq<RawEventView>, now: u64) -> DetectionRun
    decreases events.len(),
{
    if events.len() == 0 {
        DetectionRun { detectors: s, findings: Seq::empty() }
    } else {
        let before = detect_run(s, events.drop_last(), now);
        DetectionRun {
            detectors: detect_state(before.detectors, events.last(), now),
            findings: before.findings + detect_findings(before.detectors, events.last(), now),
        }
    }
}

/// What came of an event handed to the core.
pub struct ProcessedEvent {
    /// What the dispatcher did with the event.
    pub submitted: SubmitResult,
    /// What the detectors found, in the order in which they found it.
    pub findings: Vec<ThreatFinding>,
    /// A copy of the incident that each finding went into, finding for
    /// finding; none for a finding that was suppressed.
    pub incidents: Vec<Incident>,
    /// The requests that go out to executors.
    pub requests: Vec<ActionRequest>,
}

/// What a `ProcessedEvent` holds, as mathematical values.
pub struct ProcessedEventView {
    pub submitted: SubmitResult,
    pub findings: Seq<ThreatFindingView>,
    pub incidents: Seq<IncidentView>,
    pub requests: Seq<ActionRequestView>,
}

impl DeepView for ProcessedEvent {
    type V = ProcessedEventView;

    open spec fn deep_view(&self) -> ProcessedEventView {
        ProcessedEventView {
            submitted: self.submitted,
            findings: self.findings.deep_view(),
            incidents: self.incidents.deep_view(),
            requests: self.requests.deep_view(),
        }
    }
}

impl View for ProcessedEvent {
    type V = ProcessedEventView;

    open spec fn view(&self) -> ProcessedEventView {
        self.deep_view()
    }
}

/// The state of the core, as mathematical values.
pub struct CoreView {
    pub dispatch: DispatcherView,
    pub detectors: DetectionView,
    pub orchestrator: OrchestratorView,
}

/// What an event does to the core. The dispatcher decides first; an event
/// that it drops changes nothing behind it. An event that it takes is run
/// through the detectors at once, after every event that still waits in its
/// shard's queue, and what they find goes to the orchestrator in order;
/// finding `i` opens its incident, if it opens one, under the identifier
/// `ids[i]`.
pub open spec fn step_spec(s: CoreView, e: RawEventView, ids: Seq<Seq<char>>, now: u64) -> (
    CoreView,
    ProcessedEventView,
) {
    let taken = submit_spec(s.dispatch, e, now);
    match taken.1 {
        SubmitResult::Dropped(_) => (
            CoreView { dispatch: taken.0, ..s },
            ProcessedEventView {
                submitted: taken.1,
                findings: Seq::empty(),
                incidents: Seq::empty(),
                requests: Seq::empty(),
            },
        ),
        SubmitResult::Ack { shard } => {
            let found = detect_run(s.detectors, taken.0.shards[shard as int], now);
            let out = process_run(s.orchestrator, found.findings, ids, now);
            (
                CoreView {
                    dispatch: DispatcherView {
                        shards: taken.0.shards.update(shard as int, Seq::empty()),
                        ..taken.0
                    },
                    detectors: found.detectors,
                    orchestrator: out.state,
                },
                ProcessedEventView {
                    submitted: taken.1,
                    findings: found.findings,
                    incidents: out.incidents,
                    requests: requests_of(
                        out.state.pending.subrange(
                            s.orchestrator.pending.len() as int,
                            out.state.pending.len() as int,
                        ),
                    ),
                },
            )
        },
    }
}

/// What a batch of events does to the core, one event after the other, and
/// the incidents that their findings went into, in order. The findings of
/// event `i` open their incidents under the identifiers `ids[i]`.
pub open spec fn batch_spec(s: CoreView, events: Seq<RawEventView>, ids: Seq<Seq<Seq<char>>>, now: u64) -> (
    CoreView,
    Seq<IncidentView>,
)
    decreases events.len(),
{
    if events.len() == 0 {
        (s, Seq::empty())
    } else {
        let before = batch_spec(s, events.drop_last(), ids.drop_last(), now);
        let step = step_spec(before.0, events.last(), ids.last(), now);
        (step.0, before.1 + step.1.incidents)
    }
}

/// Replaying an event finds nothing more: an event that the core took is
/// dropped as a duplicate when it is handed in again before the window has
/// passed. That second step is counted, gives no finding, no incident and
/// no request, and leaves detectors and orchestrator as they were.
pub proof fn lemma_replay_finds_nothing(
    s: CoreView,
    e: RawEventView,
    ids: Seq<Seq<char>>,
    more: Seq<Seq<char>>,
    first: u64,
    again: u64,
)
    requires
        s.dispatch.wf(),
        s.dispatch.config.dedup_capacity > 0,
        step_spec(s, e, ids, first).1.submitted is Ack,
        elapsed(again, first) < s.dispatch.config.dedup_window_ms,
    ensures
        ({
            let once = step_spec(s, e, ids, first);
            let twice = step_spec(once.0, e, more, again);
            &&& twice.1 == (ProcessedEventView {
                submitted: SubmitResult::Dropped(DropReason::DuplicateWithinWindow),
                findings: Seq::empty(),
                incidents: Seq::empty(),
                requests: Seq::empty(),
            })
            &&& twice.0.detectors == once.0.detectors
            &&& twice.0.orchestrator == once.0.orchestrator
            &&& twice.0.dispatch.shards == once.0.dispatch.shards
            &&& twice.0.dispatch.counters == (DispatcherCounters {
                dropped_duplicate: next_count(once.0.dispatch.counters.dropped_duplicate),
                ..once.0.dispatch.counters
            })
        }),
{
    let once = step_spec(s, e, ids, first);
    let recent = once.0.dispatch.recent;
    assert(recent == submit_spec(s.dispatch, e, first).0.recent);
    assert(recent.last() == entry_for(e, first));
    assert(remembers(
        recent[recent.len() - 1],
        e,
        again,
        s.dispatch.config.dedup_window_ms,
    ));
}

/// The orchestrator without the blocks, disabled accounts and quarantines
/// that have run out at `now`.
pub open spec fn swept(s: OrchestratorView, now: u64) -> OrchestratorView {
    OrchestratorView {
        blocked_ips: unexpired(s.blocked_ips, now),
        disabled_accounts: unexpired(s.disabled_accounts, now),
        quarantine: unexpired_marks(s.quarantine, now),
        ..s
    }
}

/// The core before it has seen an event: one empty shard under the
/// standard configuration, the detectors after a start, and an orchestrator
/// with the default rule alone.
pub open spec fn fresh_core(now: u64) -> CoreView {
    CoreView {
        dispatch: DispatcherView {
            config: DispatcherConfig::standard_config(),
            whitelist: Seq::empty(),
            shards: seq![Seq::empty()],
            recent: Seq::empty(),
            counters: DispatcherCounters {
                accepted: 0,
                dropped_queue_full: 0,
                dropped_duplicate: 0,
                dropped_whitelisted: 0,
            },
        },
        detectors: started(DetectionView::fresh(default_config(), now)),
        orchestrator: OrchestratorView {
            settings: OrchestratorSettings::standard_settings(),
            rules: seq![default_rule()],
            incidents: Seq::empty(),
            blocked_ips: Seq::empty(),
            disabled_accounts: Seq::empty(),
            pending: Seq::empty(),
            quarantine: Seq::empty(),
            actions_issued: 0,
        },
    }
}

/// The alert configuration that a core begins with: e-mail, webhook,
/// Grafana and Slack switched on, Teams and PagerDuty switched off.
pub open spec fn default_alerts() -> AlertConfigView {
    AlertConfigView {
        email_enabled: true,
        email_smtp_server: "smtp.gmail.com"@,
        email_smtp_port: 587,
        email_username: "alerts@ultra-siem.com"@,
        email_password: ""@,
        email_from: "Ultra SIEM Alerts <alerts@ultra-siem.com>"@,
        email_to: seq!["admin@company.com"@, "security@company.com"@],
        webhook_enabled: true,
        webhook_urls: seq!["https://hooks.slack.com/services/YOUR/SLACK/WEBHOOK"@],
        grafana_enabled: true,
        grafana_url: "http://localhost:3000"@,
        grafana_api_key: ""@,
        slack_enabled: true,
        slack_webhook_url: "https://hooks.slack.com/services/YOUR/SLACK/WEBHOOK"@,
        teams_enabled: false,
        teams_webhook_url: ""@,
        pagerduty_enabled: false,
        pagerduty_api_key: ""@,
        pagerduty_service_id: ""@,
    }
}

/// Builds the alert configuration that a core begins with.
pub fn default_alert_config() -> (r: AlertConfig)
    ensures
        r@ == default_alerts(),
{
    let mut email_to: Vec<String> = Vec::new();
    email_to.push(String::from_str("admin@company.com"));
    email_to.push(String::from_str("security@company.com"));
    let mut webhook_urls: Vec<String> = Vec::new();
    webhook_urls.push(String::from_str("https://hooks.slack.com/services/YOUR/SLACK/WEBHOOK"));
    let r = AlertConfig {
        email_enabled: true,
        email_smtp_server: String::from_str("smtp.gmail.com"),
        email_smtp_port: 587,
        email_username: String::from_str("alerts@ultra-siem.com"),
        email_password: String::from_str(""),
        email_from: String::from_str("Ultra SIEM Alerts <alerts@ultra-siem.com>"),
        email_to,
        webhook_enabled: true,
        webhook_urls,
        grafana_enabled: true,
        grafana_url: String::from_str("http://localhost:3000"),
        grafana_api_key: String::from_str(""),
        slack_enabled: true,
        slack_webhook_url: String::from_str("https://hooks.slack.com/services/YOUR/SLACK/WEBHOOK"),
        teams_enabled: false,
        teams_webhook_url: String::from_str(""),
        pagerduty_enabled: false,
        pagerduty_api_key: String::from_str(""),
        pagerduty_service_id: String::from_str(""),
    };
    proof {
        assert(r@.email_to =~= default_alerts().email_to);
        assert(r@.webhook_urls =~= default_alerts().webhook_urls);
    }
    r
}

/// The playbook configuration that a core begins with: switched off.
pub open spec fn default_playbooks() -> SOARConfigView {
    SOARConfigView {
        enabled: false,
        platform: "custom"@,
        api_url: "http://localhost:8080/api"@,
        api_key: ""@,
        timeout_seconds: 30,
        retry_attempts: 3,
        custom_headers: Seq::empty(),
    }
}

/// Builds the playbook configuration that a core begins with.
pub fn default_soar_config() -> (r: SOARConfig)
    ensures
        r@ == default_playbooks(),
{
    let r = SOARConfig {
        enabled: false,
        platform: String::from_str("custom"),
        api_url: String::from_str("http://localhost:8080/api"),
        api_key: String::from_str(""),
        timeout_seconds: 30,
        retry_attempts: 3,
        custom_headers: Vec::new(),
    };
    proof {
        assert(r@.custom_headers =~= default_playbooks().custom_headers);
    }
    r
}

/// The detection-and-response core.
pub struct UltraSIEMCore {
    dispatcher: Dispatcher,
    advanced_threat_engine: AdvancedThreatDetectionEngine,
    incident_response_engine: IncidentResponseEngine,
}

impl View for UltraSIEMCore {
    type V = CoreView;

    closed spec fn view(&self) -> CoreView {
        CoreView {
            dispatch: self.dispatcher@,
            detectors: self.advanced_threat_engine@,
            orchestrator: self.incident_response_engine@,
        }
    }
}

impl UltraSIEMCore {
    /// Where and how the orchestrator's alerts go out.
    pub closed spec fn alerts(&self) -> AlertConfig {
        self.incident_response_engine.alert_config()
    }

    /// How the orchestrator reaches an outside playbook platform.
    pub closed spec fn playbooks(&self) -> SOARConfig {
        self.incident_response_engine.playbook_config()
    }

    /// Every part keeps its invariant.
    pub closed spec fn wf(&self) -> bool {
        &&& self.dispatcher@.wf()
        &&& self.advanced_threat_engine.wf()
        &&& self.incident_response_engine@.wf()
    }

    /// A core of the parts given.
    pub fn assemble(
        dispatcher: Dispatcher,
        advanced_threat_engine: AdvancedThreatDetectionEngine,
        incident_response_engine: IncidentResponseEngine,
    ) -> (r: Self)
        requires
            dispatcher@.wf(),
            advanced_threat_engine.wf(),
            incident_response_engine@.wf(),
        ensures
            r.wf(),
            r@ == (CoreView {
                dispatch: dispatcher@,
                detectors: advanced_threat_engine@,
                orchestrator: incident_response_engine@,
            }),
            r.alerts() == incident_response_engine.alert_config(),
            r.playbooks() == incident_response_engine.playbook_config(),
    {
        UltraSIEMCore { dispatcher, advanced_threat_engine, incident_response_engine }
    }

    /// A core with one shard, the default configuration of the detectors,
    /// their default signatures and correlation rules as far as a start
    /// registers them, and the default response rule.
    pub fn new(now: u64) -> (r: Self)
        ensures
            r.wf(),
            r@ == fresh_core(now),
            r.alerts()@ == default_alerts(),
            r.playbooks()@ == default_playbooks(),
    {
        let dispatcher = match Dispatcher::new(DispatcherConfig::standard()) {
            Ok(d) => d,
            Err(_) => vstd::pervasive::unreached(),
        };
        let mut detection = AdvancedThreatDetectionEngine::new(AdvancedThreatConfig::default(), now);
        let _ = detection.start();
        let mut orchestrator = IncidentResponseEngine::new(
            default_alert_config(),
            default_soar_config(),
        );
        orchestrator.initialize_default_rules();
        proof {
            assert(dispatcher@.shards =~= seq![Seq::<RawEventView>::empty()]);
        }
        UltraSIEMCore {
            dispatcher,
            advanced_threat_engine: detection,
            incident_response_engine: orchestrator,
        }
    }

    /// The dispatcher.
    pub fn dispatcher(&self) -> (r: &Dispatcher)
        ensures
            r@ == self@.dispatch,
    {
        &self.dispatcher
    }

    /// The detectors.
    pub fn detection(&self) -> (r: &AdvancedThreatDetectionEngine)
        ensures
            r@ == self@.detectors,
    {
        &self.advanced_threat_engine
    }

    /// The orchestrator.
    pub fn response(&self) -> (r: &IncidentResponseEngine)
        ensures
            r@ == self@.orchestrator,
            r.alert_config() == self.alerts(),
            r.playbook_config() == self.playbooks(),
    {
        &self.incident_response_engine
    }

    /// Hands every finding of a list to the orchestrator, in order, and
    /// collects the incidents they went into and the requests that go out.
    fn respond_to(
        &mut self,
        findings: &Vec<ThreatFinding>,
        incidents: &mut Vec<Incident>,
        requests: &mut Vec<ActionRequest>,
        now: u64,
    )
        requires
            old(self).wf(),
            old(incidents)@.len() == 0,
            old(requests)@.len() == 0,
        ensures
            final(self).wf(),
            final(self).alerts() == old(self).alerts(),
            final(self).playbooks() == old(self).playbooks(),
            final(self)@.dispatch == old(self)@.dispatch,
            final(self)@.detectors == old(self)@.detectors,
            exists|ids: Seq<Seq<char>>|
                ids.len() == findings@.len() && (Run {
                    state: final(self)@.orchestrator,
                    incidents: final(incidents).deep_view(),
                }) == #[trigger] process_run(
                    old(self)@.orchestrator,
                    findings.deep_view(),
                    ids,
                    now,
                ),
            final(self)@.orchestrator.pending.len() >= old(self)@.orchestrator.pending.len(),
            final(requests).deep_view() == requests_of(
                final(self)@.orchestrator.pending.subrange(
                    old(self)@.orchestrator.pending.len() as int,
                    final(self)@.orchestrator.pending.len() as int,
                ),
            ),
            terminal_kept(old(self)@.orchestrator.incidents, final(self)@.orchestrator.incidents),
    {
        let mut i: usize = 0;
        let ghost mut ids: Seq<Seq<char>> = Seq::empty();
        let ghost start = self.incident_response_engine@;
        proof {
            assert(findings.deep_view().subrange(0, 0) =~= Seq::<ThreatFindingView>::empty());
            assert(incidents.deep_view() =~= Seq::<IncidentView>::empty());
            assert(requests.deep_view() =~= requests_of(
                start.pending.subrange(start.pending.len() as int, start.pending.len() as int),
            ));
        }
        while i < findings.len()
            invariant
                i <= findings@.len(),
                self.wf(),
                self.alerts() == old(self).alerts(),
                self.playbooks() == old(self).playbooks(),
                self@.dispatch == old(self)@.dispatch,
                self@.detectors == old(self)@.detectors,
                start == old(self)@.orchestrator,
                ids.len() == i,
                (Run { state: self@.orchestrator, incidents: incidents.deep_view() }) == process_run(
                    start,
                    findings.deep_view().subrange(0, i as int),
                    ids,
                    now,
                ),
                self@.orchestrator.pending.len() >= start.pending.len(),
                requests.deep_view() == requests_of(
                    self@.orchestrator.pending.subrange(
                        start.pending.len() as int,
                        self@.orchestrator.pending.len() as int,
                    ),
                ),
                terminal_kept(start.incidents, self@.orchestrator.incidents),
            decreases findings@.len() - i,
        {
            let ghost before = self.incident_response_engine@;
            let ghost asked = requests.deep_view();
            let ghost opened = incidents.deep_view();
            let mut out = self.incident_response_engine.process_threat(findings[i].clone(), now);
            proof {
                lemma_terminal_kept_transitive(
                    start.incidents,
                    before.incidents,
                    self.incident_response_engine@.incidents,
                );
                let after = self.incident_response_engine@;
                let f = findings.deep_view()[i as int];
                let id = choose|id: Seq<char>|
                    (after, out.ingested) == #[trigger] process_spec(before, f, id, now);
                let extended = ids.push(id);
                let head = findings.deep_view().subrange(0, i as int);
                let run = findings.deep_view().subrange(0, i as int + 1);
                assert(run.drop_last() =~= head);
                assert(run.last() == f);
                assert(extended.drop_last() =~= ids);
                assert(extended.last() == id);
                assert(process_run(start, run, extended, now).state == after);
                assert(out.incident.deep_view() == touched(after, out.ingested));
                ids = extended;
            }
            match out.incident {
                Some(incident) => {
                    incidents.push(incident);
                    proof {
                        assert(incidents.deep_view() =~= opened.push(incident@));
                    }
                },
                None => {},
            }
            let ghost added = out.requests.deep_view();
            requests.append(&mut out.requests);
            proof {
                let after = self.incident_response_engine@;
                assert(requests.deep_view() =~= asked + added);
                assert(asked + added =~= requests_of(
                    after.pending.subrange(start.pending.len() as int, after.pending.len() as int),
                )) by {
                    let whole = after.pending.subrange(
                        start.pending.len() as int,
                        after.pending.len() as int,
                    );
                    let first = before.pending.subrange(
                        start.pending.len() as int,
                        before.pending.len() as int,
                    );
                    let second = after.pending.subrange(
                        before.pending.len() as int,
                        after.pending.len() as int,
                    );
                    assert(extends(after.pending, before.pending));
                    assert forall|j: int| 0 <= j < first.len() implies whole[j] == first[j] by {
                        assert(after.pending.subrange(0, before.pending.len() as int)[start.pending.len()
                            + j] == before.pending[start.pending.len() + j]);
                    }
                    assert(whole =~= first + second);
                }
            }
            i += 1;
        }
        proof {
            assert(findings.deep_view().subrange(0, findings@.len() as int) =~= findings.deep_view());
        }
    }

    /// Takes an event through the core. The dispatcher decides first; an
    /// event that it drops reaches no detector and changes nothing behind
    /// the dispatcher. An event that it takes is run through the detectors
    /// at once, with every event that still waits before it in its shard's
    /// queue, and what they find goes to the orchestrator. A new incident
    /// gets a fresh random identifier.
    pub fn process_single_event(&mut self, event: RawEvent, now: u64) -> (r: ProcessedEvent)
        requires
            old(self).wf(),
        ensures
            final(self).wf(),
            final(self).alerts() == old(self).alerts(),
            final(self).playbooks() == old(self).playbooks(),
            exists|ids: Seq<Seq<char>>|
                ids.len() == r.findings@.len() && (final(self)@, r@) == #[trigger] step_spec(
                    old(self)@,
                    event@,
                    ids,
                    now,
                ),
            r.submitted == submit_spec(old(self)@.dispatch, event@, now).1,
            r.submitted is Dropped ==> r.findings@.len() == 0,
            terminal_kept(old(self)@.orchestrator.incidents, final(self)@.orchestrator.incidents),
    {
        let submitted = self.dispatcher.submit(event, now);
        let mut findings: Vec<ThreatFinding> = Vec::new();
        let mut incidents: Vec<Incident> = Vec::new();
        let mut requests: Vec<ActionRequest> = Vec::new();
        let shard = match submitted {
            SubmitResult::Dropped(_) => {
                let r = ProcessedEvent { submitted, findings, incidents, requests };
                proof {
                    let ids = Seq::<Seq<char>>::empty();
                    assert(r@.findings =~= Seq::<ThreatFindingView>::empty());
                    assert(r@.incidents =~= Seq::<IncidentView>::empty());
                    assert(r@.requests =~= Seq::<ActionRequestView>::empty());
                    assert((self@, r@) == step_spec(old(self)@, event@, ids, now));
                }
                return r;
            },
            SubmitResult::Ack { shard } => shard,
        };
        let ghost taken = self.dispatcher@;
        let ghost queue = taken.shards[shard as int];
        let ghost start = self.advanced_threat_engine@;
        let ghost done: int = 0;
        proof {
            crate::dispatcher::lemma_submit_wf(old(self)@.dispatch, event@, now);
            assert(queue.subrange(0, 0) =~= Seq::<RawEventView>::empty());
            assert(findings.deep_view() =~= Seq::<ThreatFindingView>::empty());
            assert(taken.wf());
            assert(shard < taken.shards.len());
            assert(queue.subrange(0, queue.len() as int) =~= queue);
            assert(taken.shards =~= taken.shards.update(
                shard as int,
                queue.subrange(0, queue.len() as int),
            ));
        }
        loop
            invariant
                self.wf(),
                self.alerts() == old(self).alerts(),
                self.playbooks() == old(self).playbooks(),
                taken.wf(),
                shard < taken.shards.len(),
                queue == taken.shards[shard as int],
                0 <= done <= queue.len(),
                self.dispatcher@ == (DispatcherView {
                    shards: taken.shards.update(
                        shard as int,
                        queue.subrange(done, queue.len() as int),
                    ),
                    ..taken
                }),
                self.advanced_threat_engine@ == detect_run(start, queue.subrange(0, done), now).detectors,
                findings.deep_view() == detect_run(start, queue.subrange(0, done), now).findings,
                self.incident_response_engine@ == old(self).incident_response_engine@,
            ensures
                self.wf(),
                self.alerts() == old(self).alerts(),
                self.playbooks() == old(self).playbooks(),
                done == queue.len(),
                self.dispatcher@ == (DispatcherView {
                    shards: taken.shards.update(shard as int, Seq::empty()),
                    ..taken
                }),
                self.advanced_threat_engine@ == detect_run(start, queue, now).detectors,
                findings.deep_view() == detect_run(start, queue, now).findings,
                self.incident_response_engine@ == old(self).incident_response_engine@,
            decreases queue.len() - done,
        {
            let next = self.dispatcher.next_event(shard);
            match next {
                None => {
                    proof {
                        assert(queue.subrange(done, queue.len() as int).len() == 0);
                        assert(queue.subrange(0, done) =~= queue);
                        assert(queue.subrange(done, queue.len() as int) =~= Seq::<
                            RawEventView,
                        >::empty());
                    }
                    break ;
                },
                Some(waiting) => {
                    proof {
                        assert(queue.subrange(done, queue.len() as int)[0] == queue[done]);
                        assert(queue.subrange(0, done + 1).drop_last() =~= queue.subrange(0, done));
                        assert(queue.subrange(0, done + 1).last() == queue[done]);
                        assert(queue.subrange(done, queue.len() as int).drop_first()
                            =~= queue.subrange(done + 1, queue.len() as int));
                        assert(taken.shards.update(
                            shard as int,
                            queue.subrange(done, queue.len() as int),
                        ).update(shard as int, queue.subrange(done + 1, queue.len() as int))
                            =~= taken.shards.update(
                            shard as int,
                            queue.subrange(done + 1, queue.len() as int),
                        ));
                    }
                    let found = self.advanced_threat_engine.process_event(&waiting, now);
                    append_findings(&mut findings, found);
                    proof {
                        done = done + 1;
                    }
                },
            }
        }
        self.respond_to(&findings, &mut incidents, &mut requests, now);
        let r = ProcessedEvent { submitted, findings, incidents, requests };
        proof {
            let ids = choose|ids: Seq<Seq<char>>|
                ids.len() == r.findings@.len() && (Run {
                    state: self@.orchestrator,
                    incidents: r.incidents.deep_view(),
                }) == #[trigger] process_run(
                    old(self)@.orchestrator,
                    r.findings.deep_view(),
                    ids,
                    now,
                );
            assert((self@, r@) == step_spec(old(self)@, event@, ids, now));
        }
        r
    }
}

impl UltraSIEMCore {
    /// Takes a batch of events through the core, one after the other, and
    /// hands back a copy of every incident that a finding went into, in the
    /// order of the findings.
    pub fn process_events_with_response(&mut self, events: Vec<RawEvent>, now: u64) -> (r: Vec<Incident>)
        requires
            old(self).wf(),
        ensures
            final(self).wf(),
            final(self).alerts() == old(self).alerts(),
            final(self).playbooks() == old(self).playbooks(),
            exists|ids: Seq<Seq<Seq<char>>>|
                ids.len() == events@.len() && (final(self)@, r.deep_view()) == #[trigger] batch_spec(
                    old(self)@,
                    events.deep_view(),
                    ids,
                    now,
                ),
            terminal_kept(old(self)@.orchestrator.incidents, final(self)@.orchestrator.incidents),
    {
        let mut incidents: Vec<Incident> = Vec::new();
        let mut i: usize = 0;
        let ghost mut ids: Seq<Seq<Seq<char>>> = Seq::empty();
        proof {
            assert(events.deep_view().subrange(0, 0) =~= Seq::<RawEventView>::empty());
            assert(incidents.deep_view() =~= Seq::<IncidentView>::empty());
        }
        while i < events.len()
            invariant
                i <= events@.len(),
                self.wf(),
                self.alerts() == old(self).alerts(),
                self.playbooks() == old(self).playbooks(),
                ids.len() == i,
                (self@, incidents.deep_view()) == batch_spec(
                    old(self)@,
                    events.deep_view().subrange(0, i as int),
                    ids,
                    now,
                ),
                terminal_kept(old(self)@.orchestrator.incidents, self@.orchestrator.incidents),
            decreases events@.len() - i,
        {
            let ghost before = self@;
            let ghost collected = incidents.deep_view();
            let mut out = self.process_single_event(events[i].clone(), now);
            proof {
                lemma_terminal_kept_transitive(
                    old(self)@.orchestrator.incidents,
                    before.orchestrator.incidents,
                    self@.orchestrator.incidents,
                );
                let e = events.deep_view()[i as int];
                let own = choose|own: Seq<Seq<char>>|
                    own.len() == out.findings@.len() && (self@, out@) == #[trigger] step_spec(
                        before,
                        e,
                        own,
                        now,
                    );
                let extended = ids.push(own);
                let head = events.deep_view().subrange(0, i as int);
                let run = events.deep_view().subrange(0, i as int + 1);
                assert(run.drop_last() =~= head);
                assert(run.last() == e);
                assert(extended.drop_last() =~= ids);
                assert(extended.last() == own);
                assert(batch_spec(old(self)@, run, extended, now) == (
                    self@,
                    collected + out@.incidents,
                ));
                ids = extended;
            }
            let ghost added = out.incidents.deep_view();
            incidents.append(&mut out.incidents);
            proof {
                assert(incidents.deep_view() =~= collected + added);
            }
            i += 1;
        }
        proof {
            assert(events.deep_view().subrange(0, events@.len() as int) =~= events.deep_view());
        }
        incidents
    }

    /// Takes the outcome that an executor reports for an action; dispatcher
    /// and detectors stay as they are.
    pub fn record_action_result(
        &mut self,
        action_id: &str,
        success: bool,
        error: Option<ActionFailure>,
        error_message: Option<String>,
        execution_time_ms: u64,
        now: u64,
    ) -> (r: Recorded)
        requires
            old(self).wf(),
        ensures
            final(self).wf(),
            final(self).alerts() == old(self).alerts(),
            final(self).playbooks() == old(self).playbooks(),
            final(self)@.dispatch == old(self)@.dispatch,
            final(self)@.detectors == old(self)@.detectors,
            (final(self)@.orchestrator, r) == record_spec(
                old(self)@.orchestrator,
                action_id@,
                outcome_of(success, error, error_message, execution_time_ms),
                now,
            ),
            terminal_kept(old(self)@.orchestrator.incidents, final(self)@.orchestrator.incidents),
    {
        self.incident_response_engine.record_action_result(
            action_id,
            success,
            error,
            error_message,
            execution_time_ms,
            now,
        )
    }

    /// What the core does when its ticker strikes at `now`: every pending
    /// request that has waited its timeout out is settled as a failure by
    /// timeout, and the blocks, disabled accounts and quarantines that have
    /// run out are dropped. Says how many requests timed out.
    pub fn tick(&mut self, now: u64) -> (r: usize)
        requires
            old(self).wf(),
        ensures
            final(self).wf(),
            final(self).alerts() == old(self).alerts(),
            final(self).playbooks() == old(self).playbooks(),
            final(self)@.dispatch == old(self)@.dispatch,
            final(self)@.detectors == old(self)@.detectors,
            final(self)@.orchestrator == swept(expire_spec(old(self)@.orchestrator, now), now),
            r == old(self)@.orchestrator.pending.len() - final(self)@.orchestrator.pending.len(),
            terminal_kept(old(self)@.orchestrator.incidents, final(self)@.orchestrator.incidents),
    {
        let ghost before = self.incident_response_engine@.incidents;
        let timed_out = self.incident_response_engine.expire_actions(now);
        let ghost between = self.incident_response_engine@.incidents;
        self.incident_response_engine.cleanup_expired_items(now);
        proof {
            lemma_terminal_kept_transitive(
                before,
                between,
                self.incident_response_engine@.incidents,
            );
        }
        timed_out
    }

    /// How many incidents there are, how many are open and how many
    /// resolved.
    pub fn get_incident_stats(&self) -> (r: IncidentStats)
        ensures
            r.total_incidents == self@.orchestrator.incidents.len(),
            r.open_incidents == selected(
                self@.orchestrator.incidents,
                SelectionView::Status(IncidentStatus::Open),
            ).len(),
            r.resolved_incidents == selected(
                self@.orchestrator.incidents,
                SelectionView::Status(IncidentStatus::Resolved),
            ).len(),
    {
        self.incident_response_engine.get_incident_stats()
    }

    /// Takes the core apart again.
    pub fn into_parts(self) -> (r: (Dispatcher, AdvancedThreatDetectionEngine, IncidentResponseEngine))
        requires
            self.wf(),
        ensures
            self@ == (CoreView { dispatch: r.0@, detectors: r.1@, orchestrator: r.2@ }),
            r.2.alert_config() == self.alerts(),
            r.2.playbook_config() == self.playbooks(),
            r.0@.wf(),
            r.1.wf(),
            r.2@.wf(),
    {
        (self.dispatcher, self.advanced_threat_engine, self.incident_response_engine)
    }
}

} // verus!
