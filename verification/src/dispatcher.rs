//! The dispatcher: the one entry point for events. It turns whitelisted
//! events away, suppresses duplicates seen within a window, and puts every
//! other event into the bounded queue of the shard that its source address
//! selects; a full queue drops the newcomer.

use vstd::prelude::*;
use vstd::utf8::encode_utf8;
use crate::lifecycle::has_text;
use crate::model::RawEvent;
use crate::model::RawEventView;
use crate::model::SourceKind;
use crate::orchestrator::next_count;
use crate::signature::elapsed;
use crate::signature::elapsed_ms;
use crate::text::fnv1a;
use crate::text::fnv1a_from;
use crate::text::hash_bytes;
use crate::text::hash_more;
use crate::text::str_eq;
use crate::text::FNV_OFFSET;

verus! {

/// Why an event was not taken.
#[derive(Clone, Copy, Debug, PartialEq, Eq, Structural, Hash)]
pub enum DropReason {
    /// The queue of the event's shard is full.
    QueueFull,
    /// The same content from the same source was taken within the window.
    DuplicateWithinWindow,
    /// The event's source address or user is on the whitelist.
    WhitelistedEarly,
}

/// What became of a submitted event.
#[derive(Clone, Copy, Debug, PartialEq, Eq, Structural, Hash)]
pub enum SubmitResult {
    /// The event waits in the queue of this shard.
    Ack { shard: usize },
    /// The event was dropped.
    Dropped(DropReason),
}

/// What the dispatcher is set up with.
#[derive(Clone, Copy, Debug, PartialEq, Eq, Structural)]
pub struct DispatcherConfig {
    /// The number of shards; at least one.
    pub worker_count: usize,
    /// How many events the queue of a shard holds.
    pub shard_queue_capacity: usize,
    /// How long a taken event suppresses its duplicates.
    pub dedup_window_ms: u64,
    /// How many taken events are remembered for that.
    pub dedup_capacity: usize,
}

/// What the dispatcher counts; each count stops at the largest number.
#[derive(Clone, Copy, Debug, PartialEq, Eq, Structural)]
pub struct DispatcherCounters {
    pub accepted: u64,
    pub dropped_queue_full: u64,
    pub dropped_duplicate: u64,
    pub dropped_whitelisted: u64,
}

/// A taken event as it is remembered for the suppression of duplicates.
#[derive(Debug, PartialEq, Eq)]
pub struct DedupEntry {
    pub source_kind: SourceKind,
    pub source_id: String,
    pub fingerprint: u64,
    pub seen_at: u64,
}

/// What a `DedupEntry` holds, as mathematical values.
pub struct DedupView {
    pub source_kind: SourceKind,
    pub source_id: Seq<char>,
    pub fingerprint: u64,
    pub seen_at: u64,
}

impl DeepView for DedupEntry {
    type V = DedupView;

    open spec fn deep_view(&self) -> DedupView {
        DedupView {
            source_kind: self.source_kind,
            source_id: self.source_id@,
            fingerprint: self.fingerprint,
            seen_at: self.seen_at,
        }
    }
}

impl View for DedupEntry {
    type V = DedupView;

    open spec fn view(&self) -> DedupView {
        self.deep_view()
    }
}

/// A hash continued over the names and values of attributes, pair by pair.
pub open spec fn hash_pairs(h: u64, pairs: Seq<(Seq<char>, Seq<char>)>) -> u64
    decreases pairs.len(),
{
    if pairs.len() == 0 {
        h
    } else {
        fnv1a_from(
            fnv1a_from(hash_pairs(h, pairs.drop_last()), encode_utf8(pairs.last().0)),
            encode_utf8(pairs.last().1),
        )
    }
}

/// The fingerprint of an event's content: its message, its action and its
/// attributes, hashed one after the other.
pub open spec fn content_fingerprint(e: RawEventView) -> u64 {
    hash_pairs(
        fnv1a_from(fnv1a_from(FNV_OFFSET, encode_utf8(e.message)), encode_utf8(e.action)),
        e.attributes,
    )
}

/// Computes the fingerprint of an event's content.
pub fn fingerprint_event(e: &RawEvent) -> (r: u64)
    ensures
        r == content_fingerprint(e@),
{
    let h1 = hash_more(FNV_OFFSET, e.message.as_str().as_bytes());
    let mut h = hash_more(h1, e.action.as_str().as_bytes());
    let ghost start = h;
    let mut i: usize = 0;
    proof {
        assert(e@.attributes.subrange(0, 0) =~= Seq::<(Seq<char>, Seq<char>)>::empty());
    }
    while i < e.attributes.len()
        invariant
            i <= e.attributes@.len(),
            h == hash_pairs(start, e@.attributes.subrange(0, i as int)),
        decreases e.attributes@.len() - i,
    {
        proof {
            assert(e@.attributes.subrange(0, i as int + 1).drop_last() =~= e@.attributes.subrange(
                0,
                i as int,
            ));
            assert(e@.attributes.subrange(0, i as int + 1).last() == e@.attributes[i as int]);
        }
        let named = hash_more(h, e.attributes[i].0.as_str().as_bytes());
        h = hash_more(named, e.attributes[i].1.as_str().as_bytes());
        i += 1;
    }
    proof {
        assert(e@.attributes.subrange(0, e@.attributes.len() as int) =~= e@.attributes);
    }
    h
}

/// The shard that an event goes to: the hash of its source address, modulo
/// the number of shards.
pub open spec fn shard_of(e: RawEventView, worker_count: usize) -> int {
    (fnv1a(encode_utf8(e.source_ip)) as int) % (worker_count as int)
}

/// Whether an entry remembers the event and is younger than the window.
pub open spec fn remembers(entry: DedupView, e: RawEventView, now: u64, window_ms: u64) -> bool {
    &&& entry.source_kind == e.source_kind
    &&& entry.source_id == e.source_id
    &&& entry.fingerprint == content_fingerprint(e)
    &&& elapsed(now, entry.seen_at) < window_ms
}

/// Whether an event is a duplicate: some remembered event has its source
/// and content and was taken less than the window ago.
pub open spec fn is_duplicate(recent: Seq<DedupView>, e: RawEventView, now: u64, window_ms: u64) -> bool {
    exists|i: int| 0 <= i < recent.len() && remembers(#[trigger] recent[i], e, now, window_ms)
}

/// Whether an event's source address or user is on the whitelist.
pub open spec fn whitelisted(list: Seq<Seq<char>>, e: RawEventView) -> bool {
    has_text(list, e.source_ip) || has_text(list, e.user_id)
}

/// The entries that are younger than the window, in order.
pub open spec fn fresh(recent: Seq<DedupView>, now: u64, window_ms: u64) -> Seq<DedupView>
    decreases recent.len(),
{
    if recent.len() == 0 {
        Seq::empty()
    } else {
        let rest = fresh(recent.drop_last(), now, window_ms);
        if elapsed(now, recent.last().seen_at) < window_ms {
            rest.push(recent.last())
        } else {
            rest
        }
    }
}

/// The entry under which a taken event is remembered.
pub open spec fn entry_for(e: RawEventView, now: u64) -> DedupView {
    DedupView {
        source_kind: e.source_kind,
        source_id: e.source_id,
        fingerprint: content_fingerprint(e),
        seen_at: now,
    }
}

/// The remembered events after one more was taken: what has grown older
/// than the window leaves, then the oldest entry if there is no room, and
/// the new entry goes to the end. A capacity of zero remembers nothing.
pub open spec fn remembered(recent: Seq<DedupView>, e: RawEventView, now: u64, window_ms: u64, capacity: usize) -> Seq<
    DedupView,
> {
    let kept = fresh(recent, now, window_ms);
    if capacity == 0 {
        Seq::empty()
    } else if kept.len() >= capacity {
        kept.subrange(kept.len() - capacity + 1, kept.len() as int).push(entry_for(e, now))
    } else {
        kept.push(entry_for(e, now))
    }
}

pub proof fn lemma_fresh_len(recent: Seq<DedupView>, now: u64, window_ms: u64)
    ensures
        fresh(recent, now, window_ms).len() <= recent.len(),
    decreases recent.len(),
{
    if recent.len() > 0 {
        lemma_fresh_len(recent.drop_last(), now, window_ms);
    }
}

/// The state of the dispatcher, as mathematical values.
pub struct DispatcherView {
    pub config: DispatcherConfig,
    pub whitelist: Seq<Seq<char>>,
    /// The queue of each shard, the next event to leave first.
    pub shards: Seq<Seq<RawEventView>>,
    /// The taken events remembered for the suppression of duplicates.
    pub recent: Seq<DedupView>,
    pub counters: DispatcherCounters,
}

impl DispatcherView {
    /// The dispatcher's invariant: a queue for each shard, at least one
    /// shard, and no queue or memory over its capacity.
    pub open spec fn wf(self) -> bool {
        &&& self.config.worker_count >= 1
        &&& self.shards.len() == self.config.worker_count
        &&& forall|i: int|
            0 <= i < self.shards.len() ==> (#[trigger] self.shards[i]).len()
                <= self.config.shard_queue_capacity
        &&& self.recent.len() <= self.config.dedup_capacity
    }
}

/// What submitting an event does. A whitelisted event is dropped first, a
/// duplicate next, and an event whose shard is full last; each drop is
/// counted and changes nothing else. Any other event goes to the end of its
/// shard's queue, is remembered, and is counted as accepted.
pub open spec fn submit_spec(s: DispatcherView, e: RawEventView, now: u64) -> (DispatcherView, SubmitResult) {
    let shard = shard_of(e, s.config.worker_count);
    if whitelisted(s.whitelist, e) {
        (
            DispatcherView {
                counters: DispatcherCounters {
                    dropped_whitelisted: next_count(s.counters.dropped_whitelisted),
                    ..s.counters
                },
                ..s
            },
            SubmitResult::Dropped(DropReason::WhitelistedEarly),
        )
    } else if is_duplicate(s.recent, e, now, s.config.dedup_window_ms) {
        (
            DispatcherView {
                counters: DispatcherCounters {
                    dropped_duplicate: next_count(s.counters.dropped_duplicate),
                    ..s.counters
                },
                ..s
            },
            SubmitResult::Dropped(DropReason::DuplicateWithinWindow),
        )
    } else if s.shards[shard].len() >= s.config.shard_queue_capacity {
        (
            DispatcherView {
                counters: DispatcherCounters {
                    dropped_queue_full: next_count(s.counters.dropped_queue_full),
                    ..s.counters
                },
                ..s
            },
            SubmitResult::Dropped(DropReason::QueueFull),
        )
    } else {
        (
            DispatcherView {
                shards: s.shards.update(shard, s.shards[shard].push(e)),
                recent: remembered(
                    s.recent,
                    e,
                    now,
                    s.config.dedup_window_ms,
                    s.config.dedup_capacity,
                ),
                counters: DispatcherCounters {
                    accepted: next_count(s.counters.accepted),
                    ..s.counters
                },
                ..s
            },
            SubmitResult::Ack { shard: shard as usize },
        )
    }
}

/// What taking the next event from a shard does: the event at the head of
/// the shard's queue leaves.
pub open spec fn consume_spec(s: DispatcherView, shard: int) -> DispatcherView {
    if 0 <= shard < s.shards.len() && s.shards[shard].len() > 0 {
        DispatcherView { shards: s.shards.update(shard, s.shards[shard].drop_first()), ..s }
    } else {
        s
    }
}

/// The events that leave a queue when `n` events are taken from it one
/// after the other.
pub open spec fn taken(queue: Seq<RawEventView>, n: nat) -> Seq<RawEventView>
    decreases n,
{
    if n == 0 || queue.len() == 0 {
        Seq::empty()
    } else {
        seq![queue[0]] + taken(queue.drop_first(), (n - 1) as nat)
    }
}

/// A shard's queue is first in, first out: the events leave in the order
/// in which they stand in the queue, which is the order in which they were
/// taken in. So do, among them, the events of any one source.
pub proof fn lemma_shard_is_fifo(queue: Seq<RawEventView>, n: nat)
    requires
        n <= queue.len(),
    ensures
        taken(queue, n) == queue.subrange(0, n as int),
    decreases n,
{
    if n == 0 {
        assert(queue.subrange(0, 0) =~= Seq::<RawEventView>::empty());
    } else {
        lemma_shard_is_fifo(queue.drop_first(), (n - 1) as nat);
        assert(seq![queue[0]] + queue.drop_first().subrange(0, n - 1) =~= queue.subrange(0, n as int));
    }
}

/// A queue at its capacity takes one more event only after one was taken
/// from it: an event that is neither whitelisted nor a duplicate is dropped
/// for a full queue while its shard's queue stands at capacity, and is
/// accepted once the event at the head of that queue has left.
pub proof fn lemma_full_queue_takes_after_consumption(s: DispatcherView, e: RawEventView, now: u64)
    requires
        s.wf(),
        !whitelisted(s.whitelist, e),
        !is_duplicate(s.recent, e, now, s.config.dedup_window_ms),
        s.config.shard_queue_capacity > 0,
        s.shards[shard_of(e, s.config.worker_count)].len() == s.config.shard_queue_capacity,
    ensures
        submit_spec(s, e, now).1 == SubmitResult::Dropped(DropReason::QueueFull),
        submit_spec(s, e, now).0.shards == s.shards,
        submit_spec(consume_spec(s, shard_of(e, s.config.worker_count)), e, now).1 == (
        SubmitResult::Ack { shard: shard_of(e, s.config.worker_count) as usize }),
{
    let shard = shard_of(e, s.config.worker_count);
    assert(0 <= shard < s.shards.len());
}

/// Replaying an accepted event within the window is suppressed: submitted
/// again while less than the window has passed, it is dropped as a
/// duplicate and changes no queue.
pub proof fn lemma_replay_is_suppressed(s: DispatcherView, e: RawEventView, first: u64, again: u64)
    requires
        s.wf(),
        s.config.dedup_capacity > 0,
        submit_spec(s, e, first).1 is Ack,
        elapsed(again, first) < s.config.dedup_window_ms,
    ensures
        submit_spec(submit_spec(s, e, first).0, e, again).1 == SubmitResult::Dropped(
            DropReason::DuplicateWithinWindow,
        ),
        submit_spec(submit_spec(s, e, first).0, e, again).0.shards == submit_spec(
            s,
            e,
            first,
        ).0.shards,
{
    let after = submit_spec(s, e, first).0;
    let entry = entry_for(e, first);
    assert(after.recent.last() == entry);
    assert(remembers(after.recent[after.recent.len() - 1], e, again, s.config.dedup_window_ms));
}

/// Submitting keeps the dispatcher's invariant.
pub proof fn lemma_submit_wf(s: DispatcherView, e: RawEventView, now: u64)
    requires
        s.wf(),
    ensures
        submit_spec(s, e, now).0.wf(),
        0 <= shard_of(e, s.config.worker_count) < s.config.worker_count,
{
    let shard = shard_of(e, s.config.worker_count);
    assert(0 <= shard < s.config.worker_count) by (nonlinear_arith)
        requires
            shard == (fnv1a(encode_utf8(e.source_ip)) as int) % (s.config.worker_count as int),
            s.config.worker_count >= 1,
    ;
    lemma_fresh_len(s.recent, now, s.config.dedup_window_ms);
    let after = submit_spec(s, e, now).0;
    assert forall|i: int| 0 <= i < after.shards.len() implies (#[trigger] after.shards[i]).len()
        <= after.config.shard_queue_capacity by {
        if i != shard {
            assert(after.shards[i] == s.shards[i]);
        }
    }
}

/// The dispatcher after a run of submissions, one after the other; event
/// `i` is submitted at `times[i]`.
pub open spec fn submitted_all(s: DispatcherView, events: Seq<RawEventView>, times: Seq<u64>) -> DispatcherView
    decreases events.len(),
{
    if events.len() == 0 {
        s
    } else {
        submit_spec(
            submitted_all(s, events.drop_last(), times.drop_last()),
            events.last(),
            times.last(),
        ).0
    }
}

/// The events of a run of submissions that a shard took in, in the order of
/// their submission.
pub open spec fn entered(s: DispatcherView, events: Seq<RawEventView>, times: Seq<u64>, shard: int) -> Seq<
    RawEventView,
>
    decreases events.len(),
{
    if events.len() == 0 {
        Seq::empty()
    } else {
        let before = submitted_all(s, events.drop_last(), times.drop_last());
        let head = entered(s, events.drop_last(), times.drop_last(), shard);
        if submit_spec(before, events.last(), times.last()).1 == (SubmitResult::Ack {
            shard: shard as usize,
        }) {
            head.push(events.last())
        } else {
            head
        }
    }
}

/// A shard's queue keeps the order of entry: after a run of submissions it
/// holds what it held before and behind that the events of the run that it
/// took in, in the order of their submission. Events leave a queue from its
/// head, so the detectors behind a shard see its events, and among them
/// those of any one source, in the order in which the dispatcher took them.
pub proof fn lemma_queue_keeps_entry_order(
    s: DispatcherView,
    events: Seq<RawEventView>,
    times: Seq<u64>,
    shard: int,
)
    requires
        s.wf(),
        events.len() == times.len(),
        0 <= shard < s.shards.len(),
    ensures
        submitted_all(s, events, times).wf(),
        submitted_all(s, events, times).shards.len() == s.shards.len(),
        submitted_all(s, events, times).shards[shard] == s.shards[shard] + entered(
            s,
            events,
            times,
            shard,
        ),
    decreases events.len(),
{
    if events.len() == 0 {
        assert(s.shards[shard] + Seq::<RawEventView>::empty() =~= s.shards[shard]);
    } else {
        let before = submitted_all(s, events.drop_last(), times.drop_last());
        let head = entered(s, events.drop_last(), times.drop_last(), shard);
        lemma_queue_keeps_entry_order(s, events.drop_last(), times.drop_last(), shard);
        lemma_submit_wf(before, events.last(), times.last());
        let k = shard_of(events.last(), before.config.worker_count);
        let after = submit_spec(before, events.last(), times.last());
        if after.1 is Ack {
            if k == shard {
                assert(after.0.shards[shard] =~= s.shards[shard] + head.push(events.last()));
            } else {
                assert(after.0.shards[shard] == before.shards[shard]);
            }
        }
    }
}

/// Why a dispatcher was not made.
#[derive(Clone, Copy, Debug, PartialEq, Eq, Structural, Hash)]
pub enum DispatcherError {
    /// The configuration asks for no shard at all.
    NoWorkers,
}

/// The queues of a list of shards, as mathematical values.
pub open spec fn queues(shards: Seq<Vec<RawEvent>>) -> Seq<Seq<RawEventView>> {
    Seq::new(shards.len(), |i: int| shards[i].deep_view())
}

/// A list of texts without every text equal to the one given.
pub open spec fn without_text(list: Seq<Seq<char>>, text: Seq<char>) -> Seq<Seq<char>>
    decreases list.len(),
{
    if list.len() == 0 {
        Seq::empty()
    } else {
        let rest = without_text(list.drop_last(), text);
        if list.last() == text {
            rest
        } else {
            rest.push(list.last())
        }
    }
}

/// Whether a text is among the strings of a list.
pub fn list_has(list: &Vec<String>, text: &str) -> (r: bool)
    ensures
        r == has_text(list.deep_view(), text@),
{
    let mut i: usize = 0;
    while i < list.len()
        invariant
            i <= list@.len(),
            forall|j: int| 0 <= j < i ==> list.deep_view()[j] != text@,
        decreases list@.len() - i,
    {
        if str_eq(list[i].as_str(), text) {
            proof {
                assert(list.deep_view()[i as int] == text@);
            }
            return true;
        }
        i += 1;
    }
    false
}

/// A counter raised by one, stopping at the largest number.
pub fn count_up(n: u64) -> (r: u64)
    ensures
        r == next_count(n),
{
    if n == u64::MAX {
        n
    } else {
        n + 1
    }
}

/// The dispatcher.
pub struct Dispatcher {
    config: DispatcherConfig,
    whitelist: Vec<String>,
    shards: Vec<Vec<RawEvent>>,
    recent: Vec<DedupEntry>,
    counters: DispatcherCounters,
}

impl View for Dispatcher {
    type V = DispatcherView;

    closed spec fn view(&self) -> DispatcherView {
        DispatcherView {
            config: self.config,
            whitelist: self.whitelist.deep_view(),
            shards: queues(self.shards@),
            recent: self.recent.deep_view(),
            counters: self.counters,
        }
    }
}

impl DispatcherConfig {
    /// One shard, queues of a million events, a window of a minute and a
    /// memory of a hundred thousand taken events.
    pub open spec fn standard_config() -> DispatcherConfig {
        DispatcherConfig {
            worker_count: 1,
            shard_queue_capacity: 1_000_000,
            dedup_window_ms: 60_000,
            dedup_capacity: 100_000,
        }
    }

    /// The standard configuration.
    pub fn standard() -> (r: DispatcherConfig)
        ensures
            r == DispatcherConfig::standard_config(),
    {
        DispatcherConfig {
            worker_count: 1,
            shard_queue_capacity: 1_000_000,
            dedup_window_ms: 60_000,
            dedup_capacity: 100_000,
        }
    }
}

impl Dispatcher {
    /// A dispatcher with empty queues. A configuration without a shard is
    /// refused.
    pub fn new(config: DispatcherConfig) -> (r: Result<Self, DispatcherError>)
        ensures
            r is Ok <==> config.worker_count >= 1,
            r is Ok ==> r->Ok_0@.wf() && r->Ok_0@ == (DispatcherView {
                config,
                whitelist: Seq::empty(),
                shards: Seq::new(config.worker_count as nat, |i: int| Seq::<RawEventView>::empty()),
                recent: Seq::empty(),
                counters: DispatcherCounters {
                    accepted: 0,
                    dropped_queue_full: 0,
                    dropped_duplicate: 0,
                    dropped_whitelisted: 0,
                },
            }),
    {
        if config.worker_count < 1 {
            return Err(DispatcherError::NoWorkers);
        }
        let mut shards: Vec<Vec<RawEvent>> = Vec::new();
        let mut i: usize = 0;
        while i < config.worker_count
            invariant
                i <= config.worker_count,
                shards@.len() == i,
                forall|j: int| 0 <= j < i ==> (#[trigger] shards@[j])@.len() == 0,
            decreases config.worker_count - i,
        {
            shards.push(Vec::new());
            i += 1;
        }
        let r = Dispatcher {
            config,
            whitelist: Vec::new(),
            shards,
            recent: Vec::new(),
            counters: DispatcherCounters {
                accepted: 0,
                dropped_queue_full: 0,
                dropped_duplicate: 0,
                dropped_whitelisted: 0,
            },
        };
        proof {
            assert(r@.whitelist =~= Seq::empty());
            assert(r@.recent =~= Seq::empty());
            assert forall|j: int| 0 <= j < r@.shards.len() implies (#[trigger] r@.shards[j])
                =~= Seq::<RawEventView>::empty() by {
                assert(r.shards@[j]@.len() == 0);
            }
            assert(r@.shards =~= Seq::new(
                config.worker_count as nat,
                |i: int| Seq::<RawEventView>::empty(),
            ));
        }
        Ok(r)
    }

    /// Puts a source address or a user on the whitelist.
    pub fn add_to_whitelist(&mut self, item: String)
        requires
            old(self)@.wf(),
        ensures
            final(self)@.wf(),
            final(self)@ == (DispatcherView {
                whitelist: if has_text(old(self)@.whitelist, item@) {
                    old(self)@.whitelist
                } else {
                    old(self)@.whitelist.push(item@)
                },
                ..old(self)@
            }),
    {
        if !list_has(&self.whitelist, item.as_str()) {
            let ghost before = self.whitelist.deep_view();
            self.whitelist.push(item);
            proof {
                assert(self.whitelist.deep_view() =~= before.push(item@));
            }
        }
    }

    /// Takes a source address or a user off the whitelist.
    pub fn remove_from_whitelist(&mut self, item: &str)
        requires
            old(self)@.wf(),
        ensures
            final(self)@.wf(),
            final(self)@ == (DispatcherView {
                whitelist: without_text(old(self)@.whitelist, item@),
                ..old(self)@
            }),
    {
        let mut kept: Vec<String> = Vec::new();
        let mut i: usize = 0;
        proof {
            assert(self.whitelist.deep_view().subrange(0, 0) =~= Seq::<Seq<char>>::empty());
            assert(kept.deep_view() =~= Seq::<Seq<char>>::empty());
        }
        while i < self.whitelist.len()
            invariant
                i <= self.whitelist@.len(),
                *self == *old(self),
                kept.deep_view() == without_text(self.whitelist.deep_view().subrange(0, i as int), item@),
            decreases self.whitelist@.len() - i,
        {
            proof {
                assert(self.whitelist.deep_view().subrange(0, i as int + 1).drop_last()
                    =~= self.whitelist.deep_view().subrange(0, i as int));
            }
            if !str_eq(self.whitelist[i].as_str(), item) {
                let ghost before = kept.deep_view();
                kept.push(self.whitelist[i].clone());
                proof {
                    assert(kept.deep_view() =~= before.push(self.whitelist.deep_view()[i as int]));
                }
            }
            i += 1;
        }
        proof {
            assert(self.whitelist.deep_view().subrange(0, self.whitelist@.len() as int)
                =~= self.whitelist.deep_view());
        }
        self.whitelist = kept;
    }

    /// Whether an event's source address or user is on the whitelist.
    pub fn is_whitelisted(&self, event: &RawEvent) -> (r: bool)
        ensures
            r == whitelisted(self@.whitelist, event@),
    {
        list_has(&self.whitelist, event.source_ip.as_str()) || list_has(
            &self.whitelist,
            event.user_id.as_str(),
        )
    }

    /// The shard that an event goes to.
    pub fn shard_for(&self, event: &RawEvent) -> (r: usize)
        requires
            self@.wf(),
        ensures
            r as int == shard_of(event@, self@.config.worker_count),
            r < self@.config.worker_count,
    {
        let h = hash_bytes(event.source_ip.as_str().as_bytes());
        (h % (self.config.worker_count as u64)) as usize
    }

    /// Whether an event is a duplicate of one taken within the window.
    pub fn is_duplicate(&self, event: &RawEvent, now: u64) -> (r: bool)
        ensures
            r == is_duplicate(self@.recent, event@, now, self@.config.dedup_window_ms),
    {
        let fingerprint = fingerprint_event(event);
        let mut i: usize = 0;
        while i < self.recent.len()
            invariant
                i <= self.recent@.len(),
                fingerprint == content_fingerprint(event@),
                forall|j: int|
                    0 <= j < i ==> !remembers(
                        #[trigger] self@.recent[j],
                        event@,
                        now,
                        self@.config.dedup_window_ms,
                    ),
            decreases self.recent@.len() - i,
        {
            let entry = &self.recent[i];
            if entry.source_kind == event.source_kind && entry.fingerprint == fingerprint
                && elapsed_ms(now, entry.seen_at) < self.config.dedup_window_ms && str_eq(
                entry.source_id.as_str(),
                event.source_id.as_str(),
            ) {
                proof {
                    assert(remembers(self@.recent[i as int], event@, now, self@.config.dedup_window_ms));
                }
                return true;
            }
            i += 1;
        }
        false
    }

    /// Remembers a taken event for the suppression of duplicates.
    fn remember(&mut self, event: &RawEvent, now: u64)
        ensures
            final(self).config == old(self).config,
            final(self).whitelist == old(self).whitelist,
            final(self).shards == old(self).shards,
            final(self).counters == old(self).counters,
            final(self).recent.deep_view() == remembered(
                old(self).recent.deep_view(),
                event@,
                now,
                old(self).config.dedup_window_ms,
                old(self).config.dedup_capacity,
            ),
    {
        let window = self.config.dedup_window_ms;
        let capacity = self.config.dedup_capacity;
        let mut kept: Vec<DedupEntry> = Vec::new();
        if capacity == 0 {
            self.recent = kept;
            proof {
                assert(self.recent.deep_view() =~= Seq::<DedupView>::empty());
            }
            return ;
        }
        let mut i: usize = 0;
        proof {
            assert(self.recent.deep_view().subrange(0, 0) =~= Seq::<DedupView>::empty());
            assert(kept.deep_view() =~= Seq::<DedupView>::empty());
        }
        while i < self.recent.len()
            invariant
                i <= self.recent@.len(),
                *self == *old(self),
                kept.deep_view() == fresh(self.recent.deep_view().subrange(0, i as int), now, window),
            decreases self.recent@.len() - i,
        {
            proof {
                assert(self.recent.deep_view().subrange(0, i as int + 1).drop_last()
                    =~= self.recent.deep_view().subrange(0, i as int));
            }
            if elapsed_ms(now, self.recent[i].seen_at) < window {
                let ghost before = kept.deep_view();
                let entry = DedupEntry {
                    source_kind: self.recent[i].source_kind,
                    source_id: self.recent[i].source_id.clone(),
                    fingerprint: self.recent[i].fingerprint,
                    seen_at: self.recent[i].seen_at,
                };
                kept.push(entry);
                proof {
                    assert(kept.deep_view() =~= before.push(self.recent.deep_view()[i as int]));
                }
            }
            i += 1;
        }
        proof {
            assert(self.recent.deep_view().subrange(0, self.recent@.len() as int)
                =~= self.recent.deep_view());
        }
        let ghost all = kept.deep_view();
        if kept.len() >= capacity {
            let surplus = kept.len() - capacity + 1;
            let mut dropped: usize = 0;
            while dropped < surplus
                invariant
                    dropped <= surplus,
                    surplus <= all.len(),
                    kept.deep_view() == all.subrange(dropped as int, all.len() as int),
                decreases surplus - dropped,
            {
                let ghost before = kept.deep_view();
                let _ = kept.remove(0);
                proof {
                    assert(kept.deep_view() =~= before.subrange(1, before.len() as int));
                    assert(kept.deep_view() =~= all.subrange(dropped as int + 1, all.len() as int));
                }
                dropped += 1;
            }
        } else {
            proof {
                assert(all.subrange(0, all.len() as int) =~= all);
            }
        }
        let ghost room = kept.deep_view();
        let entry = DedupEntry {
            source_kind: event.source_kind,
            source_id: event.source_id.clone(),
            fingerprint: fingerprint_event(event),
            seen_at: now,
        };
        kept.push(entry);
        proof {
            assert(kept.deep_view() =~= room.push(entry_for(event@, now)));
        }
        self.recent = kept;
    }

    /// Submits an event. It never waits: the event is taken into the queue
    /// of its shard, or dropped for the whitelist, as a duplicate, or for a
    /// full queue, in this order of precedence.
    pub fn submit(&mut self, event: RawEvent, now: u64) -> (r: SubmitResult)
        requires
            old(self)@.wf(),
        ensures
            final(self)@.wf(),
            (final(self)@, r) == submit_spec(old(self)@, event@, now),
    {
        proof {
            lemma_submit_wf(self@, event@, now);
        }
        if self.is_whitelisted(&event) {
            self.counters.dropped_whitelisted = count_up(self.counters.dropped_whitelisted);
            return SubmitResult::Dropped(DropReason::WhitelistedEarly);
        }
        if self.is_duplicate(&event, now) {
            self.counters.dropped_duplicate = count_up(self.counters.dropped_duplicate);
            return SubmitResult::Dropped(DropReason::DuplicateWithinWindow);
        }
        let shard = self.shard_for(&event);
        if self.shards[shard].len() >= self.config.shard_queue_capacity {
            self.counters.dropped_queue_full = count_up(self.counters.dropped_queue_full);
            return SubmitResult::Dropped(DropReason::QueueFull);
        }
        self.remember(&event, now);
        self.counters.accepted = count_up(self.counters.accepted);
        let ghost before = self@.shards;
        let ghost queue = self.shards@[shard as int].deep_view();
        self.shards[shard].push(event);
        proof {
            assert(self.shards@[shard as int].deep_view() =~= queue.push(event@));
            assert(self@.shards =~= before.update(shard as int, queue.push(event@)));
        }
        SubmitResult::Ack { shard }
    }

    /// Takes the next event from a shard's queue: the one that has waited
    /// longest. `None` where the shard does not exist or its queue is empty.
    pub fn next_event(&mut self, shard: usize) -> (r: Option<RawEvent>)
        requires
            old(self)@.wf(),
        ensures
            final(self)@.wf(),
            final(self)@ == consume_spec(old(self)@, shard as int),
            r is Some <==> shard < old(self)@.shards.len() && old(self)@.shards[shard as int].len() > 0,
            r is Some ==> r->Some_0@ == old(self)@.shards[shard as int][0],
    {
        if shard >= self.shards.len() {
            return None;
        }
        if self.shards[shard].len() == 0 {
            return None;
        }
        let ghost before = self@.shards;
        let ghost queue = self.shards@[shard as int].deep_view();
        let event = self.shards[shard].remove(0);
        proof {
            assert(self.shards@[shard as int].deep_view() =~= queue.drop_first());
            assert(self@.shards =~= before.update(shard as int, queue.drop_first()));
            assert forall|i: int| 0 <= i < self@.shards.len() implies (#[trigger] self@.shards[i]).len()
                <= self@.config.shard_queue_capacity by {
                if i != shard {
                    assert(self@.shards[i] == before[i]);
                }
            }
        }
        Some(event)
    }

    /// How many events wait in a shard's queue; zero for a shard that does
    /// not exist.
    pub fn queue_len(&self, shard: usize) -> (r: usize)
        ensures
            r == (if shard < self@.shards.len() {
                self@.shards[shard as int].len()
            } else {
                0
            }),
    {
        if shard < self.shards.len() {
            self.shards[shard].len()
        } else {
            0
        }
    }

    /// What the dispatcher has counted.
    pub fn counters(&self) -> (r: DispatcherCounters)
        ensures
            r == self@.counters,
    {
        self.counters
    }

    /// The configuration in force.
    pub fn config(&self) -> (r: DispatcherConfig)
        ensures
            r == self@.config,
    {
        self.config
    }
}

} // verus!
