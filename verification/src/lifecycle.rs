//! What happens to incidents after they were opened: outcomes of actions
//! come in or time out, the status moves along the lifecycle, notes and tags
//! are added, and the lists of blocked addresses and disabled accounts are
//! cleared of what has run out.

use vstd::prelude::*;
use crate::incident::ActionFailure;
use crate::incident::IncidentSeverity;
use crate::incident::IncidentStatus;
use crate::text::contains_text;
use crate::text::contains_text_ignoring_case;
use crate::incident::IncidentView;
use crate::incident::ResponseActionResultView;
use crate::incident::ResponseActionView;
use crate::incident::lemma_max_severity;
use crate::orchestrator::key_fingerprint;
use crate::orchestrator::key_index;
use crate::orchestrator::OrchestratorView;
use crate::orchestrator::PendingView;
use crate::orchestrator::terminal_kept;
use crate::orchestrator::time_after;
use crate::signature::elapsed;

verus! {

/// Why an operation on an incident was refused.
#[derive(Clone, Copy, Debug, PartialEq, Eq, Structural, Hash)]
pub enum IncidentError {
    /// No incident has this identifier.
    NotFound,
    /// The lifecycle does not allow the step.
    InvalidTransition,
    /// The incident is resolved or in a terminal state and takes no such
    /// change any more.
    Settled,
    /// The incident does not keep its invariant, or its identifier is taken.
    Invalid,
}

/// What became of an outcome handed to the orchestrator.
#[derive(Clone, Copy, Debug, PartialEq, Eq, Structural, Hash)]
pub enum Recorded {
    /// It answered a pending request and was recorded with the incident.
    Recorded,
    /// An outcome for this action was recorded before; this one was
    /// recorded too, marked as a duplicate.
    Duplicate,
    /// No action of this identifier was ever issued; nothing was recorded.
    Unknown,
    /// The incident is settled; nothing was recorded.
    Settled,
}

/// The position of the first pending request for this action; the length
/// of the list where there is none.
pub open spec fn pending_index(pending: Seq<PendingView>, action_id: Seq<char>) -> int
    decreases pending.len(),
{
    if pending.len() == 0 {
        0
    } else if pending[0].request.action_id == action_id {
        0
    } else {
        1 + pending_index(pending.drop_first(), action_id)
    }
}

/// The position of the first outcome recorded for this action; the length
/// of the list where there is none.
pub open spec fn result_index(results: Seq<ResponseActionResultView>, action_id: Seq<char>) -> int
    decreases results.len(),
{
    if results.len() == 0 {
        0
    } else if results[0].action_id == action_id {
        0
    } else {
        1 + result_index(results.drop_first(), action_id)
    }
}

/// The position of the first incident that holds an outcome for this
/// action; the length of the list where none does.
pub open spec fn holder_index(incidents: Seq<IncidentView>, action_id: Seq<char>) -> int
    decreases incidents.len(),
{
    if incidents.len() == 0 {
        0
    } else if result_index(incidents[0].response_actions, action_id)
        < incidents[0].response_actions.len() {
        0
    } else {
        1 + holder_index(incidents.drop_first(), action_id)
    }
}

/// The position of the first pending request that has waited its timeout
/// out at `now`; the length of the list where none has.
pub open spec fn expired_index(pending: Seq<PendingView>, now: u64) -> int
    decreases pending.len(),
{
    if pending.len() == 0 {
        0
    } else if elapsed(now, pending[0].request.issued_at) >= pending[0].request.timeout_ms {
        0
    } else {
        1 + expired_index(pending.drop_first(), now)
    }
}

pub proof fn lemma_pending_index(pending: Seq<PendingView>, action_id: Seq<char>, i: int)
    requires
        0 <= i <= pending.len(),
        forall|j: int| 0 <= j < i ==> pending[j].request.action_id != action_id,
        i == pending.len() || pending[i].request.action_id == action_id,
    ensures
        pending_index(pending, action_id) == i,
    decreases i,
{
    if i > 0 {
        let t = pending.drop_first();
        assert forall|j: int| 0 <= j < i - 1 implies t[j].request.action_id != action_id by {
            assert(t[j] == pending[j + 1]);
        }
        lemma_pending_index(t, action_id, i - 1);
    }
}

pub proof fn lemma_result_index(results: Seq<ResponseActionResultView>, action_id: Seq<char>, i: int)
    requires
        0 <= i <= results.len(),
        forall|j: int| 0 <= j < i ==> results[j].action_id != action_id,
        i == results.len() || results[i].action_id == action_id,
    ensures
        result_index(results, action_id) == i,
    decreases i,
{
    if i > 0 {
        let t = results.drop_first();
        assert forall|j: int| 0 <= j < i - 1 implies t[j].action_id != action_id by {
            assert(t[j] == results[j + 1]);
        }
        lemma_result_index(t, action_id, i - 1);
    }
}

pub proof fn lemma_holder_index(incidents: Seq<IncidentView>, action_id: Seq<char>, i: int)
    requires
        0 <= i <= incidents.len(),
        forall|j: int|
            0 <= j < i ==> result_index(incidents[j].response_actions, action_id)
                >= incidents[j].response_actions.len(),
        i == incidents.len() || result_index(incidents[i].response_actions, action_id)
            < incidents[i].response_actions.len(),
    ensures
        holder_index(incidents, action_id) == i,
    decreases i,
{
    if i > 0 {
        let t = incidents.drop_first();
        assert forall|j: int| 0 <= j < i - 1 implies result_index(t[j].response_actions, action_id)
            >= t[j].response_actions.len() by {
            assert(t[j] == incidents[j + 1]);
        }
        lemma_holder_index(t, action_id, i - 1);
    }
}

pub proof fn lemma_expired_index(pending: Seq<PendingView>, now: u64, i: int)
    requires
        0 <= i <= pending.len(),
        forall|j: int|
            0 <= j < i ==> elapsed(now, pending[j].request.issued_at)
                < pending[j].request.timeout_ms,
        i == pending.len() || elapsed(now, pending[i].request.issued_at)
            >= pending[i].request.timeout_ms,
    ensures
        expired_index(pending, now) == i,
    decreases i,
{
    if i > 0 {
        let t = pending.drop_first();
        assert forall|j: int| 0 <= j < i - 1 implies elapsed(now, t[j].request.issued_at)
            < t[j].request.timeout_ms by {
            assert(t[j] == pending[j + 1]);
        }
        lemma_expired_index(t, now, i - 1);
    }
}

/// The positions found are positions of the lists searched, or their
/// lengths.
pub proof fn lemma_index_bounds(s: OrchestratorView, action_id: Seq<char>, now: u64)
    ensures
        0 <= pending_index(s.pending, action_id) <= s.pending.len(),
        0 <= holder_index(s.incidents, action_id) <= s.incidents.len(),
        0 <= expired_index(s.pending, now) <= s.pending.len(),
    decreases s.pending.len() + s.incidents.len(),
{
    if s.pending.len() > 0 {
        lemma_index_bounds(
            OrchestratorView { pending: s.pending.drop_first(), ..s },
            action_id,
            now,
        );
    } else if s.incidents.len() > 0 {
        lemma_index_bounds(
            OrchestratorView { incidents: s.incidents.drop_first(), ..s },
            action_id,
            now,
        );
    }
}

/// The outcome of an action as it is recorded.
pub struct Outcome {
    pub success: bool,
    pub error: Option<ActionFailure>,
    pub error_message: Option<Seq<char>>,
    pub execution_time_ms: u64,
}

/// The record of an outcome.
pub open spec fn outcome_record(
    action: ResponseActionView,
    action_id: Seq<char>,
    outcome: Outcome,
    now: u64,
    duplicate: bool,
) -> ResponseActionResultView {
    ResponseActionResultView {
        action_id,
        action_type: action,
        success: outcome.success,
        error: outcome.error,
        error_message: outcome.error_message,
        execution_time_ms: outcome.execution_time_ms,
        timestamp: now,
        metadata: Seq::empty(),
        duplicate,
    }
}

/// An incident with one more recorded outcome.
pub open spec fn with_result(inc: IncidentView, record: ResponseActionResultView) -> IncidentView {
    IncidentView { response_actions: inc.response_actions.push(record), ..inc }
}

/// What settling the pending request at `p` does: the request leaves the
/// list, and its outcome is recorded with its incident unless that one is
/// settled.
pub open spec fn settle_spec(s: OrchestratorView, p: int, outcome: Outcome, now: u64) -> (
    OrchestratorView,
    Recorded,
) {
    let request = s.pending[p].request;
    let k = s.pending[p].incident as int;
    let left = OrchestratorView { pending: s.pending.remove(p), ..s };
    if s.incidents[k].status.is_settled() {
        (left, Recorded::Settled)
    } else {
        (
            OrchestratorView {
                incidents: s.incidents.update(
                    k,
                    with_result(
                        s.incidents[k],
                        outcome_record(request.action, request.action_id, outcome, now, false),
                    ),
                ),
                ..left
            },
            Recorded::Recorded,
        )
    }
}

/// What an outcome for an action does. Where a request for the action is
/// pending, the request is settled. Where none is pending but an outcome
/// for the action was recorded before, this one is recorded with the same
/// incident and marked as a duplicate. Where the action is not known at
/// all, nothing happens. A settled incident records nothing.
pub open spec fn record_spec(s: OrchestratorView, action_id: Seq<char>, outcome: Outcome, now: u64) -> (
    OrchestratorView,
    Recorded,
) {
    let p = pending_index(s.pending, action_id);
    let k = holder_index(s.incidents, action_id);
    if p < s.pending.len() {
        settle_spec(s, p, outcome, now)
    } else if k < s.incidents.len() {
        if s.incidents[k].status.is_settled() {
            (s, Recorded::Settled)
        } else {
            let first = s.incidents[k].response_actions[result_index(
                s.incidents[k].response_actions,
                action_id,
            )];
            (
                OrchestratorView {
                    incidents: s.incidents.update(
                        k,
                        with_result(
                            s.incidents[k],
                            outcome_record(first.action_type, action_id, outcome, now, true),
                        ),
                    ),
                    ..s
                },
                Recorded::Duplicate,
            )
        }
    } else {
        (s, Recorded::Unknown)
    }
}

/// The outcome recorded for a request that nobody answered in time.
pub open spec fn timed_out() -> Outcome {
    Outcome {
        success: false,
        error: Some(ActionFailure::Timeout),
        error_message: None,
        execution_time_ms: 0,
    }
}

/// What the passing of time does to pending requests: one after the other,
/// the first request that has waited its timeout out is settled as a
/// failure by timeout, until none is left that has.
pub open spec fn expire_spec(s: OrchestratorView, now: u64) -> OrchestratorView
    decreases s.pending.len(),
{
    let e = expired_index(s.pending, now);
    if 0 <= e < s.pending.len() {
        expire_spec(settle_spec(s, e, timed_out(), now).0, now)
    } else {
        s
    }
}

/// Settling a pending request keeps the orchestrator's invariant and every
/// incident in a terminal state.
pub proof fn lemma_settle(s: OrchestratorView, p: int, outcome: Outcome, now: u64)
    requires
        s.wf(),
        0 <= p < s.pending.len(),
    ensures
        settle_spec(s, p, outcome, now).0.wf(),
        settle_spec(s, p, outcome, now).0.pending.len() == s.pending.len() - 1,
        settle_spec(s, p, outcome, now).0.incidents.len() == s.incidents.len(),
        terminal_kept(s.incidents, settle_spec(s, p, outcome, now).0.incidents),
{
    let after = settle_spec(s, p, outcome, now).0;
    let k = s.pending[p].incident as int;
    assert(s.pending[p].incident < s.incidents.len());
    assert forall|i: int| 0 <= i < after.pending.len() implies (#[trigger] after.pending[i]).incident
        < after.incidents.len() by {
        if i < p {
            assert(after.pending[i] == s.pending[i]);
        } else {
            assert(after.pending[i] == s.pending[i + 1]);
        }
    }
    assert forall|i: int| 0 <= i < after.incidents.len() implies (#[trigger] after.incidents[i]).wf() by {
        if i != k {
            assert(after.incidents[i] == s.incidents[i]);
        }
    }
}

/// Recording an outcome keeps the orchestrator's invariant and every
/// incident in a terminal state.
pub proof fn lemma_record(s: OrchestratorView, action_id: Seq<char>, outcome: Outcome, now: u64)
    requires
        s.wf(),
    ensures
        record_spec(s, action_id, outcome, now).0.wf(),
        record_spec(s, action_id, outcome, now).0.incidents.len() == s.incidents.len(),
        terminal_kept(s.incidents, record_spec(s, action_id, outcome, now).0.incidents),
{
    let p = pending_index(s.pending, action_id);
    let k = holder_index(s.incidents, action_id);
    lemma_index_bounds(s, action_id, now);
    if p < s.pending.len() {
        lemma_settle(s, p, outcome, now);
    } else if k < s.incidents.len() {
        let after = record_spec(s, action_id, outcome, now).0;
        assert forall|i: int| 0 <= i < after.incidents.len() implies (#[trigger] after.incidents[i]).wf() by {
            if i != k {
                assert(after.incidents[i] == s.incidents[i]);
            }
        }
    }
}

/// An action gets one unmarked outcome at most: once an outcome for it is
/// on record and no request for it is pending, a further outcome changes
/// nothing or is recorded as a duplicate, with one and the same incident.
pub proof fn lemma_second_outcome_is_duplicate(
    s: OrchestratorView,
    action_id: Seq<char>,
    outcome: Outcome,
    now: u64,
)
    requires
        s.wf(),
        pending_index(s.pending, action_id) >= s.pending.len(),
        0 <= holder_index(s.incidents, action_id) < s.incidents.len(),
    ensures
        record_spec(s, action_id, outcome, now).1 == Recorded::Duplicate || record_spec(
            s,
            action_id,
            outcome,
            now,
        ).1 == Recorded::Settled,
        record_spec(s, action_id, outcome, now).1 == Recorded::Settled ==> record_spec(
            s,
            action_id,
            outcome,
            now,
        ).0 == s,
        record_spec(s, action_id, outcome, now).1 == Recorded::Duplicate ==> record_spec(
            s,
            action_id,
            outcome,
            now,
        ).0.incidents[holder_index(s.incidents, action_id)].response_actions.last().duplicate,
{
}

/// An incident's severity is the highest among its findings: no finding is
/// more severe, and one finding is exactly as severe.
pub proof fn lemma_severity_is_highest(s: OrchestratorView, i: int)
    requires
        s.wf(),
        0 <= i < s.incidents.len(),
    ensures
        forall|j: int|
            0 <= j < s.incidents[i].findings.len() ==> (
            #[trigger] s.incidents[i].findings[j]).severity.rank() <= s.incidents[i].severity.rank(),
        exists|j: int|
            0 <= j < s.incidents[i].findings.len() && (
            #[trigger] s.incidents[i].findings[j]).severity.rank() == s.incidents[i].severity.rank(),
{
    assert(s.incidents[i].wf());
    lemma_max_severity(s.incidents[i].findings);
    let j = choose|j: int|
        0 <= j < s.incidents[i].findings.len() && (#[trigger] s.incidents[i].findings[j]).severity
            == crate::incident::max_severity(s.incidents[i].findings);
    assert(s.incidents[i].findings[j].severity.rank() == s.incidents[i].severity.rank());
}

/// What was kept over one step and over the next was kept over both.
pub proof fn lemma_terminal_kept_transitive(a: Seq<IncidentView>, b: Seq<IncidentView>, c: Seq<IncidentView>)
    requires
        terminal_kept(a, b),
        terminal_kept(b, c),
    ensures
        terminal_kept(a, c),
{
    assert forall|i: int| 0 <= i < a.len() implies (#[trigger] c[i]).id == a[i].id by {
        assert(b[i].id == a[i].id);
    }
    assert forall|i: int| 0 <= i < a.len() && a[i].status.is_terminal() implies a[i].same_but_notes_and_tags(
        #[trigger] c[i],
    ) by {
        assert(a[i].same_but_notes_and_tags(b[i]));
        assert(b[i].status.is_terminal());
        assert(b[i].same_but_notes_and_tags(c[i]));
    }
}

/// An incident after a step of its lifecycle: the first step into Resolved
/// or Closed sets the time of resolution, the step into FalsePositive sets
/// the mark of a false positive.
pub open spec fn with_status(inc: IncidentView, to: IncidentStatus, now: u64) -> IncidentView {
    IncidentView {
        status: to,
        updated_at: now,
        resolved_at: if (to == IncidentStatus::Resolved || to == IncidentStatus::Closed)
            && inc.resolved_at is None {
            Some(now)
        } else {
            inc.resolved_at
        },
        false_positive: inc.false_positive || to == IncidentStatus::FalsePositive,
        ..inc
    }
}

/// What a step of the lifecycle does to the orchestrator: the incident
/// takes the step, and a step into FalsePositive puts the fingerprint of
/// the incident's source address, user and category under quarantine.
pub open spec fn status_spec(s: OrchestratorView, k: int, to: IncidentStatus, now: u64) -> OrchestratorView {
    let moved = OrchestratorView {
        incidents: s.incidents.update(k, with_status(s.incidents[k], to, now)),
        ..s
    };
    if to == IncidentStatus::FalsePositive {
        OrchestratorView {
            quarantine: s.quarantine.push(
                (
                    key_fingerprint(
                        s.incidents[k].source_ip,
                        s.incidents[k].user_id,
                        s.incidents[k].category,
                    ),
                    time_after(now, s.settings.quarantine_ms),
                ),
            ),
            ..moved
        }
    } else {
        moved
    }
}

/// An incident with one more note; the time of its last update moves
/// unless it is in a terminal state.
pub open spec fn with_note(inc: IncidentView, note: Seq<char>, now: u64) -> IncidentView {
    IncidentView {
        notes: inc.notes.push(note),
        updated_at: if inc.status.is_terminal() {
            inc.updated_at
        } else {
            now
        },
        ..inc
    }
}

/// Whether a text is among the texts of a list.
pub open spec fn has_text(list: Seq<Seq<char>>, text: Seq<char>) -> bool {
    exists|i: int| 0 <= i < list.len() && #[trigger] list[i] == text
}

/// An incident with a tag, added at the end unless it carries the tag
/// already.
pub open spec fn with_tag(inc: IncidentView, tag: Seq<char>) -> IncidentView {
    if has_text(inc.tags, tag) {
        inc
    } else {
        IncidentView { tags: inc.tags.push(tag), ..inc }
    }
}

/// The entries of a list that have not run out at `now`, in order.
pub open spec fn unexpired(list: Seq<(Seq<char>, u64)>, now: u64) -> Seq<(Seq<char>, u64)>
    decreases list.len(),
{
    if list.len() == 0 {
        Seq::empty()
    } else {
        let rest = unexpired(list.drop_last(), now);
        if list.last().1 > now {
            rest.push(list.last())
        } else {
            rest
        }
    }
}

/// The quarantine entries that have not run out at `now`, in order.
pub open spec fn unexpired_marks(list: Seq<(u64, u64)>, now: u64) -> Seq<(u64, u64)>
    decreases list.len(),
{
    if list.len() == 0 {
        Seq::empty()
    } else {
        let rest = unexpired_marks(list.drop_last(), now);
        if list.last().1 > now {
            rest.push(list.last())
        } else {
            rest
        }
    }
}

/// Whether a name is on a list with a time that has not run out at `now`.
pub open spec fn listed_at(list: Seq<(Seq<char>, u64)>, key: Seq<char>, now: u64) -> bool {
    key_index(list, key) < list.len() && now < list[key_index(list, key)].1
}

/// A way to pick incidents.
pub enum SelectionView {
    /// All of them.
    All,
    /// Those in a status.
    Status(IncidentStatus),
    /// Those of a severity.
    Severity(IncidentSeverity),
    /// Those that a query finds: in title, description or user with case
    /// ignored, or in the source address as written.
    Query(Seq<char>),
}

impl SelectionView {
    /// Whether the selection picks an incident.
    pub open spec fn picks(self, inc: IncidentView) -> bool {
        match self {
            SelectionView::All => true,
            SelectionView::Status(s) => inc.status == s,
            SelectionView::Severity(s) => inc.severity == s,
            SelectionView::Query(q) => contains_text_ignoring_case(inc.title, q)
                || contains_text_ignoring_case(inc.description, q) || contains_text(inc.source_ip, q)
                || contains_text_ignoring_case(inc.user_id, q),
        }
    }
}

/// The incidents that a selection picks, in order.
pub open spec fn selected(incidents: Seq<IncidentView>, selection: SelectionView) -> Seq<IncidentView>
    decreases incidents.len(),
{
    if incidents.len() == 0 {
        Seq::empty()
    } else {
        let rest = selected(incidents.drop_last(), selection);
        if selection.picks(incidents.last()) {
            rest.push(incidents.last())
        } else {
            rest
        }
    }
}

/// How many incidents there are, how many are open and how many resolved.
#[derive(Clone, Copy, Debug, PartialEq, Eq, Structural)]
pub struct IncidentStats {
    pub total_incidents: u64,
    pub open_incidents: u64,
    pub resolved_incidents: u64,
}

} // verus!
