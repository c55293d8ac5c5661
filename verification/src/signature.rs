//! The signature engine: textual patterns compiled once at registration,
//! matched in registration order, with a cooldown for each pattern, source
//! address and user.

use vstd::prelude::*;
use crate::model::CONFIDENCE_MAX;
use crate::model::DetectorKind;
use crate::model::RawEvent;
use crate::model::RawEventView;
use crate::model::ThreatCategory;
use crate::model::ThreatFinding;
use crate::model::ThreatFindingView;
use crate::model::ThreatSeverity;
use crate::outside::counter_entries;
use crate::outside::counters_get;
use crate::outside::counters_insert;
use crate::outside::counters_new;
use crate::outside::regex_compiles;
use crate::outside::regex_matches;
use crate::outside::regex_source;
use crate::text::contains;
use crate::text::contains_ignoring_case;
use crate::text::contains_text;
use crate::text::contains_text_ignoring_case;
use crate::text::str_eq;

verus! {

/// How a pattern's text is read.
#[derive(Clone, Copy, Debug, PartialEq, Eq, Structural, Hash)]
pub enum MatcherKind {
    /// A regular expression.
    Regex,
    /// A literal that has to occur in the text.
    Literal,
}

/// Why a pattern was not registered.
#[derive(Clone, Copy, Debug, PartialEq, Eq, Structural, Hash)]
pub enum SignatureError {
    /// The confidence is above `CONFIDENCE_MAX`.
    InvalidConfidence,
    /// The regular expression does not compile.
    InvalidPattern,
}

/// A signature: a pattern with what a match of it means.
#[derive(Debug, PartialEq, Eq)]
pub struct SignaturePattern {
    pub id: String,
    pub name: String,
    pub pattern: String,
    pub matcher: MatcherKind,
    pub case_sensitive: bool,
    /// The attribute whose value is matched; the message where `None`.
    pub attribute: Option<String>,
    pub category: ThreatCategory,
    pub severity: ThreatSeverity,
    pub description: String,
    pub enabled: bool,
    /// Thousandths of one.
    pub confidence: u16,
    /// Milliseconds during which a repeated match is suppressed.
    pub cooldown_ms: u64,
}

/// What a `SignaturePattern` holds, as mathematical values.
pub struct SignaturePatternView {
    pub id: Seq<char>,
    pub name: Seq<char>,
    pub pattern: Seq<char>,
    pub matcher: MatcherKind,
    pub case_sensitive: bool,
    pub attribute: Option<Seq<char>>,
    pub category: ThreatCategory,
    pub severity: ThreatSeverity,
    pub description: Seq<char>,
    pub enabled: bool,
    pub confidence: u16,
    pub cooldown_ms: u64,
}

impl DeepView for SignaturePattern {
    type V = SignaturePatternView;

    open spec fn deep_view(&self) -> SignaturePatternView {
        SignaturePatternView {
            id: self.id@,
            name: self.name@,
            pattern: self.pattern@,
            matcher: self.matcher,
            case_sensitive: self.case_sensitive,
            attribute: self.attribute.deep_view(),
            category: self.category,
            severity: self.severity,
            description: self.description@,
            enabled: self.enabled,
            confidence: self.confidence,
            cooldown_ms: self.cooldown_ms,
        }
    }
}

impl View for SignaturePattern {
    type V = SignaturePatternView;

    open spec fn view(&self) -> SignaturePatternView {
        self.deep_view()
    }
}

impl Clone for SignaturePattern {
    fn clone(&self) -> (r: Self)
        ensures
            r@ == self@,
    {
        let attribute = match &self.attribute {
            Some(a) => Some(a.clone()),
            None => None,
        };
        SignaturePattern {
            id: self.id.clone(),
            name: self.name.clone(),
            pattern: self.pattern.clone(),
            matcher: self.matcher,
            case_sensitive: self.case_sensitive,
            attribute,
            category: self.category,
            severity: self.severity,
            description: self.description.clone(),
            enabled: self.enabled,
            confidence: self.confidence,
            cooldown_ms: self.cooldown_ms,
        }
    }
}

/// The text handed to the regular-expression compiler: the pattern itself,
/// behind the flag `(?i)` where case is to be ignored.
pub open spec fn regex_text(p: SignaturePatternView) -> Seq<char> {
    if p.case_sensitive {
        p.pattern
    } else {
        "(?i)"@ + p.pattern
    }
}

/// Whether a pattern can be registered.
pub open spec fn registrable(p: SignaturePatternView) -> bool {
    &&& p.confidence <= CONFIDENCE_MAX
    &&& p.matcher == MatcherKind::Regex ==> regex_compiles(regex_text(p))
}

/// Whether the pattern matches a text.
pub open spec fn pattern_matches(p: SignaturePatternView, text: Seq<char>) -> bool {
    match p.matcher {
        MatcherKind::Regex => regex_matches(regex_text(p), text),
        MatcherKind::Literal => if p.case_sensitive {
            contains_text(text, p.pattern)
        } else {
            contains_text_ignoring_case(text, p.pattern)
        },
    }
}

/// The part of an event that a pattern looks at: the named attribute, or the
/// message unless it is empty.
pub open spec fn target_text(p: SignaturePatternView, e: RawEventView) -> Option<Seq<char>> {
    match p.attribute {
        Some(name) => e.attribute(name),
        None => if e.message.len() > 0 {
            Some(e.message)
        } else {
            None
        },
    }
}

/// Whether an enabled pattern matches an event.
pub open spec fn hits(p: SignaturePatternView, e: RawEventView) -> bool {
    &&& p.enabled
    &&& target_text(p, e) is Some
    &&& pattern_matches(p, target_text(p, e)->Some_0)
}

/// Whether an enabled message pattern matches a bare text.
pub open spec fn hits_text(p: SignaturePatternView, text: Seq<char>) -> bool {
    p.enabled && p.attribute is None && pattern_matches(p, text)
}

/// A pattern with the state compiled from it.
pub struct CompiledSignature {
    pattern: SignaturePattern,
    regex: Option<regex::Regex>,
}

impl CompiledSignature {
    /// The pattern this was compiled from.
    pub closed spec fn source(&self) -> SignaturePatternView {
        self.pattern@
    }

    /// A regular expression carries the matcher compiled from its text.
    pub closed spec fn wf(&self) -> bool {
        &&& self.pattern@.confidence <= CONFIDENCE_MAX
        &&& self.pattern@.matcher == MatcherKind::Regex ==> self.regex is Some && regex_source(
            self.regex->Some_0,
        ) == regex_text(self.pattern@)
    }

    /// Compiles a pattern. Fails on a confidence out of range and on a
    /// regular expression that does not compile, and only then.
    pub fn compile(pattern: SignaturePattern) -> (r: Result<CompiledSignature, SignatureError>)
        ensures
            r is Ok <==> registrable(pattern@),
            r is Ok ==> r->Ok_0.wf() && r->Ok_0.source() == pattern@,
            r is Err ==> r->Err_0 == (if pattern@.confidence > CONFIDENCE_MAX {
                SignatureError::InvalidConfidence
            } else {
                SignatureError::InvalidPattern
            }),
    {
        if pattern.confidence > CONFIDENCE_MAX {
            return Err(SignatureError::InvalidConfidence);
        }
        match pattern.matcher {
            MatcherKind::Literal => Ok(CompiledSignature { pattern, regex: None }),
            MatcherKind::Regex => {
                let compiled = if pattern.case_sensitive {
                    regex::Regex::new(pattern.pattern.as_str())
                } else {
                    let mut text = String::from_str("(?i)");
                    text.append(pattern.pattern.as_str());
                    regex::Regex::new(text.as_str())
                };
                match compiled {
                    Ok(re) => Ok(CompiledSignature { pattern, regex: Some(re) }),
                    Err(_) => Err(SignatureError::InvalidPattern),
                }
            },
        }
    }

    /// Whether the pattern matches a text.
    pub fn matches_text(&self, text: &str) -> (r: bool)
        requires
            self.wf(),
        ensures
            r == pattern_matches(self.source(), text@),
    {
        match self.pattern.matcher {
            MatcherKind::Regex => match &self.regex {
                Some(re) => re.is_match(text),
                None => false,
            },
            MatcherKind::Literal => if self.pattern.case_sensitive {
                contains(text, self.pattern.pattern.as_str())
            } else {
                contains_ignoring_case(text, self.pattern.pattern.as_str())
            },
        }
    }

    /// Whether the pattern, if enabled, matches an event.
    pub fn matches_event(&self, event: &RawEvent) -> (r: bool)
        requires
            self.wf(),
        ensures
            r == hits(self.source(), event@),
    {
        if !self.pattern.enabled {
            return false;
        }
        match &self.pattern.attribute {
            Some(name) => match event.attribute(name.as_str()) {
                Some(value) => self.matches_text(value.as_str()),
                None => false,
            },
            None => if event.message.as_str().is_empty() {
                false
            } else {
                self.matches_text(event.message.as_str())
            },
        }
    }

    /// The pattern this was compiled from.
    pub fn pattern(&self) -> (r: &SignaturePattern)
        ensures
            r@ == self.source(),
    {
        &self.pattern
    }
}

/// One match of a signature against a bare text.
#[derive(Debug, PartialEq, Eq)]
pub struct SignatureMatch {
    pub signature_id: String,
    pub signature_name: String,
    pub matched_text: String,
    /// Thousandths of one.
    pub confidence: u16,
    pub timestamp: u64,
}

/// What a `SignatureMatch` holds, as mathematical values.
pub struct SignatureMatchView {
    pub signature_id: Seq<char>,
    pub signature_name: Seq<char>,
    pub matched_text: Seq<char>,
    pub confidence: u16,
    pub timestamp: u64,
}

impl DeepView for SignatureMatch {
    type V = SignatureMatchView;

    open spec fn deep_view(&self) -> SignatureMatchView {
        SignatureMatchView {
            signature_id: self.signature_id@,
            signature_name: self.signature_name@,
            matched_text: self.matched_text@,
            confidence: self.confidence,
            timestamp: self.timestamp,
        }
    }
}

impl View for SignatureMatch {
    type V = SignatureMatchView;

    open spec fn view(&self) -> SignatureMatchView {
        self.deep_view()
    }
}

/// The confidence reported for a match against a bare text.
pub const TEXT_MATCH_CONFIDENCE: u16 = 800;

/// The match that a pattern reports for a text.
pub open spec fn match_of(p: SignaturePatternView, text: Seq<char>, now: u64) -> SignatureMatchView {
    SignatureMatchView {
        signature_id: p.id,
        signature_name: p.name,
        matched_text: text,
        confidence: TEXT_MATCH_CONFIDENCE,
        timestamp: now,
    }
}

/// The matches of a list of patterns against a text, in the patterns' order.
pub open spec fn text_matches(patterns: Seq<SignaturePatternView>, text: Seq<char>, now: u64) -> Seq<
    SignatureMatchView,
>
    decreases patterns.len(),
{
    if patterns.len() == 0 {
        Seq::empty()
    } else {
        let rest = text_matches(patterns.drop_last(), text, now);
        if hits_text(patterns.last(), text) {
            rest.push(match_of(patterns.last(), text, now))
        } else {
            rest
        }
    }
}

/// A count raised by one, stopping at the largest number.
pub open spec fn bumped(counts: Map<Seq<char>, u64>, id: Seq<char>) -> Map<Seq<char>, u64> {
    let before: u64 = if counts.contains_key(id) {
        counts[id]
    } else {
        0
    };
    let after: u64 = if before == u64::MAX {
        before
    } else {
        (before + 1) as u64
    };
    counts.insert(id, after)
}

/// The match counts after a text was matched against a list of patterns.
pub open spec fn counts_after(
    counts: Map<Seq<char>, u64>,
    patterns: Seq<SignaturePatternView>,
    text: Seq<char>,
) -> Map<Seq<char>, u64>
    decreases patterns.len(),
{
    if patterns.len() == 0 {
        counts
    } else {
        let rest = counts_after(counts, patterns.drop_last(), text);
        if hits_text(patterns.last(), text) {
            bumped(rest, patterns.last().id)
        } else {
            rest
        }
    }
}

/// When a pattern last produced a finding for a source address and a user.
#[derive(Debug, PartialEq, Eq)]
pub struct CooldownEntry {
    pub pattern_id: String,
    pub source_ip: String,
    pub user_id: String,
    pub fired_at: u64,
}

/// What a `CooldownEntry` holds, as mathematical values.
pub struct CooldownView {
    pub pattern_id: Seq<char>,
    pub source_ip: Seq<char>,
    pub user_id: Seq<char>,
    pub fired_at: u64,
}

impl DeepView for CooldownEntry {
    type V = CooldownView;

    open spec fn deep_view(&self) -> CooldownView {
        CooldownView {
            pattern_id: self.pattern_id@,
            source_ip: self.source_ip@,
            user_id: self.user_id@,
            fired_at: self.fired_at,
        }
    }
}

impl View for CooldownEntry {
    type V = CooldownView;

    open spec fn view(&self) -> CooldownView {
        self.deep_view()
    }
}

impl CooldownView {
    /// Whether the entry is the one kept for this pattern, address and user.
    pub open spec fn is_for(self, pattern_id: Seq<char>, source_ip: Seq<char>, user_id: Seq<char>) -> bool {
        self.pattern_id == pattern_id && self.source_ip == source_ip && self.user_id == user_id
    }
}

/// The position of the first entry kept for a pattern, address and user;
/// the table's length where there is none.
pub open spec fn cooldown_index(
    table: Seq<CooldownView>,
    pattern_id: Seq<char>,
    source_ip: Seq<char>,
    user_id: Seq<char>,
) -> int
    decreases table.len(),
{
    if table.len() == 0 {
        0
    } else if table[0].is_for(pattern_id, source_ip, user_id) {
        0
    } else {
        1 + cooldown_index(table.drop_first(), pattern_id, source_ip, user_id)
    }
}

/// Milliseconds from `earlier` to `now`; zero where the clock went back.
pub open spec fn elapsed(now: u64, earlier: u64) -> u64 {
    if now >= earlier {
        (now - earlier) as u64
    } else {
        0
    }
}

/// Milliseconds from `earlier` to `now`; zero where the clock went back.
pub fn elapsed_ms(now: u64, earlier: u64) -> (r: u64)
    ensures
        r == elapsed(now, earlier),
{
    if now >= earlier {
        now - earlier
    } else {
        0
    }
}

/// Whether a cooldown is active: the pattern produced a finding for this
/// address and user less than its cooldown ago.
pub open spec fn in_cooldown(table: Seq<CooldownView>, p: SignaturePatternView, e: RawEventView, now: u64) -> bool {
    let i = cooldown_index(table, p.id, e.source_ip, e.user_id);
    i < table.len() && elapsed(now, table[i].fired_at) < p.cooldown_ms
}

/// The table after a pattern produced a finding: its entry for the address
/// and user is set to `now`, or added at the end.
pub open spec fn cooldown_recorded(table: Seq<CooldownView>, p: SignaturePatternView, e: RawEventView, now: u64) -> Seq<
    CooldownView,
> {
    let i = cooldown_index(table, p.id, e.source_ip, e.user_id);
    let entry = CooldownView {
        pattern_id: p.id,
        source_ip: e.source_ip,
        user_id: e.user_id,
        fired_at: now,
    };
    if i < table.len() {
        table.update(i, entry)
    } else {
        table.push(entry)
    }
}

/// A count that stops at the largest number a counter holds.
pub open spec fn capped(n: int) -> int {
    if n > u64::MAX {
        u64::MAX as int
    } else {
        n
    }
}

/// What one scan leaves behind.
pub struct ScanState {
    /// The patterns that produced a finding, in registration order.
    pub fired: Seq<SignaturePatternView>,
    /// The cooldown table after the scan.
    pub cooldowns: Seq<CooldownView>,
    /// How many matches the scan suppressed.
    pub suppressed: nat,
}

/// A scan, pattern by pattern in registration order: a match during an
/// active cooldown is suppressed and counted; any other match produces a
/// finding and starts the cooldown.
pub open spec fn scan_state(
    patterns: Seq<SignaturePatternView>,
    table: Seq<CooldownView>,
    e: RawEventView,
    now: u64,
) -> ScanState
    decreases patterns.len(),
{
    if patterns.len() == 0 {
        ScanState { fired: Seq::empty(), cooldowns: table, suppressed: 0 }
    } else {
        let before = scan_state(patterns.drop_last(), table, e, now);
        let p = patterns.last();
        if !hits(p, e) {
            before
        } else if in_cooldown(before.cooldowns, p, e, now) {
            ScanState { suppressed: before.suppressed + 1, ..before }
        } else {
            ScanState {
                fired: before.fired.push(p),
                cooldowns: cooldown_recorded(before.cooldowns, p, e, now),
                suppressed: before.suppressed,
            }
        }
    }
}

/// The finding that a signature produces for an event.
pub open spec fn signature_finding(p: SignaturePatternView, e: RawEventView, now: u64, id: Seq<char>) -> ThreatFindingView {
    ThreatFindingView {
        finding_id: id,
        produced_at: now,
        detector_kind: DetectorKind::Signature,
        severity: p.severity,
        category: p.category,
        confidence: p.confidence,
        source_ip: e.source_ip,
        destination_ip: e.destination_ip,
        user_id: e.user_id,
        source_event_ids: seq![e.id],
        matched_rule_ids: seq![p.id],
        description: p.description,
        attributes: Seq::empty(),
    }
}

/// The identifier of the finding that a signature produces for an event:
/// the event's identifier, `/sig/` and the pattern's identifier.
pub open spec fn signature_finding_id(p: SignaturePatternView, e: RawEventView) -> Seq<char> {
    e.id + "/sig/"@ + p.id
}

/// The findings that the patterns of a list produce for an event, in order.
pub open spec fn scan_findings(fired: Seq<SignaturePatternView>, e: RawEventView, now: u64) -> Seq<
    ThreatFindingView,
> {
    Seq::new(
        fired.len(),
        |i: int| signature_finding(fired[i], e, now, signature_finding_id(fired[i], e)),
    )
}

/// Builds the finding that a signature produces for an event, under the
/// identifier given.
pub fn make_signature_finding(p: &SignaturePattern, e: &RawEvent, now: u64, id: String) -> (r: ThreatFinding)
    ensures
        r@ == signature_finding(p@, e@, now, id@),
{
    let mut source_event_ids: Vec<String> = Vec::new();
    source_event_ids.push(e.id.clone());
    let mut matched_rule_ids: Vec<String> = Vec::new();
    matched_rule_ids.push(p.id.clone());
    let attributes: Vec<(String, String)> = Vec::new();
    let r = ThreatFinding {
        finding_id: id,
        produced_at: now,
        detector_kind: DetectorKind::Signature,
        severity: p.severity,
        category: p.category,
        confidence: p.confidence,
        source_ip: e.source_ip.clone(),
        destination_ip: e.destination_ip.clone(),
        user_id: e.user_id.clone(),
        source_event_ids,
        matched_rule_ids,
        description: p.description.clone(),
        attributes,
    };
    proof {
        assert(r@.source_event_ids =~= seq![e@.id]);
        assert(r@.matched_rule_ids =~= seq![p@.id]);
        assert(r@.attributes =~= Seq::empty());
    }
    r
}

/// The registered patterns of a list of compiled signatures, in order.
pub open spec fn sources(signatures: Seq<CompiledSignature>) -> Seq<SignaturePatternView> {
    Seq::new(signatures.len(), |i: int| signatures[i].source())
}

/// The position of the first pattern with this identifier; the length of
/// the list where there is none.
pub open spec fn pattern_index(patterns: Seq<SignaturePatternView>, id: Seq<char>) -> int
    decreases patterns.len(),
{
    if patterns.len() == 0 {
        0
    } else if patterns[0].id == id {
        0
    } else {
        1 + pattern_index(patterns.drop_first(), id)
    }
}

/// The list after a pattern was registered: it replaces the pattern of the
/// same identifier where it stands, or goes to the end.
pub open spec fn registered(patterns: Seq<SignaturePatternView>, p: SignaturePatternView) -> Seq<
    SignaturePatternView,
> {
    let i = pattern_index(patterns, p.id);
    if i < patterns.len() {
        patterns.update(i, p)
    } else {
        patterns.push(p)
    }
}

/// The list without the first pattern of this identifier.
pub open spec fn unregistered(patterns: Seq<SignaturePatternView>, id: Seq<char>) -> Seq<SignaturePatternView> {
    let i = pattern_index(patterns, id);
    if i < patterns.len() {
        patterns.remove(i)
    } else {
        patterns
    }
}

/// The state of a signature engine, as mathematical values.
///
/// See `scanned` for what a scan does to it.
pub struct SignatureEngineView {
    /// The registered patterns in registration order.
    pub patterns: Seq<SignaturePatternView>,
    /// When each pattern last produced a finding, by address and user.
    pub cooldowns: Seq<CooldownView>,
    /// How often each pattern matched a bare text.
    pub match_counts: Map<Seq<char>, u64>,
    /// How many matches were suppressed by a cooldown.
    pub suppressed: u64,
}

/// The engine after a scan of an event: the cooldowns of the patterns that
/// fired are set, and the suppressed matches are counted.
pub open spec fn scanned(s: SignatureEngineView, e: RawEventView, now: u64) -> SignatureEngineView {
    SignatureEngineView {
        cooldowns: scan_state(s.patterns, s.cooldowns, e, now).cooldowns,
        suppressed: capped(s.suppressed + scan_state(s.patterns, s.cooldowns, e, now).suppressed) as u64,
        ..s
    }
}

/// The signature engine.
pub struct YaraSignatureEngine {
    signatures: Vec<CompiledSignature>,
    cooldowns: Vec<CooldownEntry>,
    match_cache: dashmap::DashMap<String, u64>,
    suppressed: u64,
}

impl View for YaraSignatureEngine {
    type V = SignatureEngineView;

    closed spec fn view(&self) -> SignatureEngineView {
        SignatureEngineView {
            patterns: sources(self.signatures@),
            cooldowns: self.cooldowns.deep_view(),
            match_counts: counter_entries(self.match_cache),
            suppressed: self.suppressed,
        }
    }
}

proof fn lemma_pattern_index(patterns: Seq<SignaturePatternView>, id: Seq<char>, i: int)
    requires
        0 <= i <= patterns.len(),
        forall|j: int| 0 <= j < i ==> patterns[j].id != id,
        i == patterns.len() || patterns[i].id == id,
    ensures
        pattern_index(patterns, id) == i,
    decreases i,
{
    if i > 0 {
        let t = patterns.drop_first();
        assert forall|j: int| 0 <= j < i - 1 implies t[j].id != id by {
            assert(t[j] == patterns[j + 1]);
        }
        lemma_pattern_index(t, id, i - 1);
    }
}

proof fn lemma_cooldown_index(
    table: Seq<CooldownView>,
    pattern_id: Seq<char>,
    source_ip: Seq<char>,
    user_id: Seq<char>,
    i: int,
)
    requires
        0 <= i <= table.len(),
        forall|j: int| 0 <= j < i ==> !table[j].is_for(pattern_id, source_ip, user_id),
        i == table.len() || table[i].is_for(pattern_id, source_ip, user_id),
    ensures
        cooldown_index(table, pattern_id, source_ip, user_id) == i,
    decreases i,
{
    if i > 0 {
        let t = table.drop_first();
        assert forall|j: int| 0 <= j < i - 1 implies !t[j].is_for(pattern_id, source_ip, user_id) by {
            assert(t[j] == table[j + 1]);
        }
        lemma_cooldown_index(t, pattern_id, source_ip, user_id, i - 1);
    }
}

impl YaraSignatureEngine {
    /// Every compiled signature carries its matcher, and no two share an
    /// identifier.
    pub closed spec fn wf(&self) -> bool {
        &&& forall|i: int| 0 <= i < self.signatures@.len() ==> (#[trigger] self.signatures@[i]).wf()
        &&& ids_distinct(sources(self.signatures@))
    }

    /// A well-formed engine holds each identifier once.
    pub proof fn lemma_ids_distinct(&self)
        requires
            self.wf(),
        ensures
            ids_distinct(self@.patterns),
    {
    }

    /// An engine without patterns.
    pub fn new() -> (r: Self)
        ensures
            r.wf(),
            r@.patterns == Seq::<SignaturePatternView>::empty(),
            r@.cooldowns == Seq::<CooldownView>::empty(),
            r@.match_counts == Map::<Seq<char>, u64>::empty(),
            r@.suppressed == 0,
    {
        let r = YaraSignatureEngine {
            signatures: Vec::new(),
            cooldowns: Vec::new(),
            match_cache: counters_new(),
            suppressed: 0,
        };
        proof {
            assert(r@.patterns =~= Seq::<SignaturePatternView>::empty());
            assert(r@.cooldowns =~= Seq::<CooldownView>::empty());
        }
        r
    }

    /// Where the pattern of this identifier stands.
    fn position(&self, id: &str) -> (i: usize)
        ensures
            i as int == pattern_index(self@.patterns, id@),
            i <= self.signatures@.len(),
    {
        let mut i: usize = 0;
        while i < self.signatures.len()
            invariant
                i <= self.signatures@.len(),
                forall|j: int| 0 <= j < i ==> self@.patterns[j].id != id@,
            decreases self.signatures@.len() - i,
        {
            if str_eq(self.signatures[i].pattern.id.as_str(), id) {
                proof {
                    lemma_pattern_index(self@.patterns, id@, i as int);
                }
                return i;
            }
            i += 1;
        }
        proof {
            lemma_pattern_index(self@.patterns, id@, i as int);
        }
        i
    }

    /// Registers a pattern, compiling it first. A pattern of the same
    /// identifier is replaced where it stands; a new one goes to the end. On
    /// an error nothing changes.
    pub fn add_signature(&mut self, signature: SignaturePattern) -> (r: Result<(), SignatureError>)
        requires
            old(self).wf(),
        ensures
            final(self).wf(),
            r is Ok <==> registrable(signature@),
            r is Ok ==> final(self)@ == (SignatureEngineView {
                patterns: registered(old(self)@.patterns, signature@),
                ..old(self)@
            }),
            r is Err ==> final(self)@ == old(self)@ && r->Err_0 == (if signature@.confidence
                > CONFIDENCE_MAX {
                SignatureError::InvalidConfidence
            } else {
                SignatureError::InvalidPattern
            }),
    {
        let ghost wanted = signature@;
        let i = self.position(signature.id.as_str());
        match CompiledSignature::compile(signature) {
            Err(e) => Err(e),
            Ok(compiled) => {
                proof {
                    lemma_registration_keeps_ids_distinct(old(self)@.patterns, wanted);
                }
                if i < self.signatures.len() {
                    self.signatures[i] = compiled;
                    proof {
                        assert(self@.patterns =~= old(self)@.patterns.update(i as int, wanted));
                    }
                } else {
                    self.signatures.push(compiled);
                    proof {
                        assert(self@.patterns =~= old(self)@.patterns.push(wanted));
                    }
                }
                Ok(())
            },
        }
    }

    /// Unregisters the pattern of this identifier. Says whether there was
    /// one.
    pub fn remove_signature(&mut self, id: &str) -> (r: bool)
        requires
            old(self).wf(),
        ensures
            final(self).wf(),
            r == (pattern_index(old(self)@.patterns, id@) < old(self)@.patterns.len()),
            final(self)@ == (SignatureEngineView {
                patterns: unregistered(old(self)@.patterns, id@),
                ..old(self)@
            }),
    {
        let i = self.position(id);
        proof {
            lemma_pattern_index_is_first(old(self)@.patterns, id@);
        }
        if i < self.signatures.len() {
            let _ = self.signatures.remove(i);
            proof {
                assert(self@.patterns =~= old(self)@.patterns.remove(i as int));
            }
            true
        } else {
            false
        }
    }

    /// How many patterns are registered.
    pub fn len(&self) -> (r: usize)
        ensures
            r == self@.patterns.len(),
    {
        self.signatures.len()
    }

    /// The registered pattern at a position of the registration order.
    pub fn signature_at(&self, i: usize) -> (r: &SignaturePattern)
        requires
            i < self@.patterns.len(),
        ensures
            r@ == self@.patterns[i as int],
    {
        self.signatures[i].pattern()
    }

    /// Counts one more match of a pattern.
    fn bump(&mut self, id: &String)
        ensures
            final(self).signatures == old(self).signatures,
            final(self).cooldowns == old(self).cooldowns,
            final(self).suppressed == old(self).suppressed,
            counter_entries(final(self).match_cache) == bumped(
                counter_entries(old(self).match_cache),
                id@,
            ),
    {
        let before = match counters_get(&self.match_cache, id.as_str()) {
            Some(c) => c,
            None => 0,
        };
        let after = if before == u64::MAX {
            before
        } else {
            before + 1
        };
        counters_insert(&mut self.match_cache, id.clone(), after);
    }

    /// Matches a bare text against the enabled message patterns, in
    /// registration order, and counts each match.
    pub fn match_signatures(&mut self, event: &str, now: u64) -> (r: Vec<SignatureMatch>)
        requires
            old(self).wf(),
        ensures
            final(self).wf(),
            r.deep_view() == text_matches(old(self)@.patterns, event@, now),
            final(self)@ == (SignatureEngineView {
                match_counts: counts_after(old(self)@.match_counts, old(self)@.patterns, event@),
                ..old(self)@
            }),
    {
        let mut matches: Vec<SignatureMatch> = Vec::new();
        let mut i: usize = 0;
        let ghost patterns = self@.patterns;
        proof {
            assert(patterns.subrange(0, 0) =~= Seq::<SignaturePatternView>::empty());
            assert(matches.deep_view() =~= Seq::<SignatureMatchView>::empty());
        }
        while i < self.signatures.len()
            invariant
                i <= self.signatures@.len(),
                self.wf(),
                self.signatures == old(self).signatures,
                self.cooldowns == old(self).cooldowns,
                self.suppressed == old(self).suppressed,
                patterns == old(self)@.patterns,
                patterns == self@.patterns,
                matches.deep_view() == text_matches(patterns.subrange(0, i as int), event@, now),
                counter_entries(self.match_cache) == counts_after(
                    old(self)@.match_counts,
                    patterns.subrange(0, i as int),
                    event@,
                ),
            decreases self.signatures@.len() - i,
        {
            proof {
                assert(patterns.subrange(0, i as int + 1).drop_last() =~= patterns.subrange(
                    0,
                    i as int,
                ));
                assert(patterns.subrange(0, i as int + 1).last() == patterns[i as int]);
                assert(self.signatures@[i as int].wf());
            }
            let hit = self.signatures[i].pattern.enabled && self.signatures[i].pattern.attribute.is_none()
                && self.signatures[i].matches_text(event);
            if hit {
                let id = self.signatures[i].pattern.id.clone();
                let found = SignatureMatch {
                    signature_id: self.signatures[i].pattern.id.clone(),
                    signature_name: self.signatures[i].pattern.name.clone(),
                    matched_text: String::from_str(event),
                    confidence: TEXT_MATCH_CONFIDENCE,
                    timestamp: now,
                };
                let ghost before = matches.deep_view();
                matches.push(found);
                proof {
                    assert(matches.deep_view() =~= before.push(
                        match_of(patterns[i as int], event@, now),
                    ));
                }
                self.bump(&id);
            }
            i += 1;
        }
        proof {
            assert(patterns.subrange(0, patterns.len() as int) =~= patterns);
        }
        matches
    }

    /// How often the pattern of this identifier matched a bare text.
    pub fn match_count(&self, id: &str) -> (r: u64)
        ensures
            r == (if self@.match_counts.contains_key(id@) {
                self@.match_counts[id@]
            } else {
                0
            }),
    {
        match counters_get(&self.match_cache, id) {
            Some(c) => c,
            None => 0,
        }
    }

    /// How many matches a cooldown has suppressed so far; the count stops at
    /// the largest number.
    pub fn suppressed_count(&self) -> (r: u64)
        ensures
            r == self@.suppressed,
    {
        self.suppressed
    }

    /// Where the cooldown entry for a pattern, address and user stands.
    fn cooldown_position(&self, pattern_id: &str, source_ip: &str, user_id: &str) -> (i: usize)
        ensures
            i as int == cooldown_index(self.cooldowns.deep_view(), pattern_id@, source_ip@, user_id@),
            i <= self.cooldowns@.len(),
    {
        let mut i: usize = 0;
        while i < self.cooldowns.len()
            invariant
                i <= self.cooldowns@.len(),
                forall|j: int|
                    0 <= j < i ==> !self.cooldowns.deep_view()[j].is_for(
                        pattern_id@,
                        source_ip@,
                        user_id@,
                    ),
            decreases self.cooldowns@.len() - i,
        {
            let entry = &self.cooldowns[i];
            if str_eq(entry.pattern_id.as_str(), pattern_id) && str_eq(
                entry.source_ip.as_str(),
                source_ip,
            ) && str_eq(entry.user_id.as_str(), user_id) {
                proof {
                    lemma_cooldown_index(
                        self.cooldowns.deep_view(),
                        pattern_id@,
                        source_ip@,
                        user_id@,
                        i as int,
                    );
                }
                return i;
            }
            i += 1;
        }
        proof {
            lemma_cooldown_index(
                self.cooldowns.deep_view(),
                pattern_id@,
                source_ip@,
                user_id@,
                i as int,
            );
        }
        i
    }

    /// Scans an event: every enabled pattern that matches it produces a
    /// finding, in registration order, unless its cooldown for the event's
    /// source address and user is active; such a match is counted as
    /// suppressed.
    pub fn scan(&mut self, event: &RawEvent, now: u64) -> (r: Vec<ThreatFinding>)
        requires
            old(self).wf(),
        ensures
            final(self).wf(),
            r.deep_view() == scan_findings(
                scan_state(old(self)@.patterns, old(self)@.cooldowns, event@, now).fired,
                event@,
                now,
            ),
            final(self)@ == scanned(old(self)@, event@, now),
            final(self)@.patterns == old(self)@.patterns,
            final(self)@.match_counts == old(self)@.match_counts,
            final(self)@.cooldowns == scan_state(
                old(self)@.patterns,
                old(self)@.cooldowns,
                event@,
                now,
            ).cooldowns,
            final(self)@.suppressed == capped(
                old(self)@.suppressed + scan_state(
                    old(self)@.patterns,
                    old(self)@.cooldowns,
                    event@,
                    now,
                ).suppressed,
            ),
    {
        let mut findings: Vec<ThreatFinding> = Vec::new();
        let mut i: usize = 0;
        let ghost patterns = self@.patterns;
        let ghost table = self@.cooldowns;
        proof {
            assert(patterns.subrange(0, 0) =~= Seq::<SignaturePatternView>::empty());
            assert(findings.deep_view() =~= scan_findings(
                Seq::<SignaturePatternView>::empty(),
                event@,
                now,
            ));
        }
        while i < self.signatures.len()
            invariant
                i <= self.signatures@.len(),
                self.wf(),
                self.signatures == old(self).signatures,
                self.match_cache == old(self).match_cache,
                patterns == old(self)@.patterns,
                patterns == self@.patterns,
                table == old(self)@.cooldowns,
                findings.deep_view() == scan_findings(
                    scan_state(patterns.subrange(0, i as int), table, event@, now).fired,
                    event@,
                    now,
                ),
                self.cooldowns.deep_view() == scan_state(
                    patterns.subrange(0, i as int),
                    table,
                    event@,
                    now,
                ).cooldowns,
                self.suppressed == capped(
                    old(self).suppressed + scan_state(
                        patterns.subrange(0, i as int),
                        table,
                        event@,
                        now,
                    ).suppressed,
                ),
            decreases self.signatures@.len() - i,
        {
            let ghost before = scan_state(patterns.subrange(0, i as int), table, event@, now);
            proof {
                assert(patterns.subrange(0, i as int + 1).drop_last() =~= patterns.subrange(
                    0,
                    i as int,
                ));
                assert(patterns.subrange(0, i as int + 1).last() == patterns[i as int]);
                assert(self.signatures@[i as int].wf());
            }
            if self.signatures[i].matches_event(event) {
                let at = self.cooldown_position(
                    self.signatures[i].pattern.id.as_str(),
                    event.source_ip.as_str(),
                    event.user_id.as_str(),
                );
                let cooling = at < self.cooldowns.len() && (if now >= self.cooldowns[at].fired_at {
                    now - self.cooldowns[at].fired_at
                } else {
                    0
                }) < self.signatures[i].pattern.cooldown_ms;
                if cooling {
                    if self.suppressed < u64::MAX {
                        self.suppressed = self.suppressed + 1;
                    }
                } else {
                    let mut id = event.id.clone();
                    id.append("/sig/");
                    id.append(self.signatures[i].pattern.id.as_str());
                    let finding = make_signature_finding(
                        &self.signatures[i].pattern,
                        event,
                        now,
                        id,
                    );
                    let ghost found_before = findings.deep_view();
                    findings.push(finding);
                    proof {
                        assert(findings.deep_view() =~= found_before.push(
                            signature_finding(
                                patterns[i as int],
                                event@,
                                now,
                                signature_finding_id(patterns[i as int], event@),
                            ),
                        ));
                        assert(findings.deep_view() =~= scan_findings(
                            before.fired.push(patterns[i as int]),
                            event@,
                            now,
                        ));
                    }
                    let entry = CooldownEntry {
                        pattern_id: self.signatures[i].pattern.id.clone(),
                        source_ip: event.source_ip.clone(),
                        user_id: event.user_id.clone(),
                        fired_at: now,
                    };
                    let ghost old_table = self.cooldowns.deep_view();
                    if at < self.cooldowns.len() {
                        self.cooldowns[at] = entry;
                        proof {
                            assert(self.cooldowns.deep_view() =~= old_table.update(
                                at as int,
                                entry@,
                            ));
                        }
                    } else {
                        self.cooldowns.push(entry);
                        proof {
                            assert(self.cooldowns.deep_view() =~= old_table.push(entry@));
                        }
                    }
                }
            }
            i += 1;
        }
        proof {
            assert(patterns.subrange(0, patterns.len() as int) =~= patterns);
        }
        findings
    }
}

/// No two patterns of the list share an identifier.
pub open spec fn ids_distinct(patterns: Seq<SignaturePatternView>) -> bool {
    forall|i: int, j: int| 0 <= i < j < patterns.len() ==> patterns[i].id != patterns[j].id
}

proof fn lemma_pattern_index_is_first(patterns: Seq<SignaturePatternView>, id: Seq<char>)
    ensures
        0 <= pattern_index(patterns, id) <= patterns.len(),
        forall|j: int| 0 <= j < pattern_index(patterns, id) ==> patterns[j].id != id,
        pattern_index(patterns, id) < patterns.len() ==> patterns[pattern_index(patterns, id)].id
            == id,
    decreases patterns.len(),
{
    if patterns.len() > 0 && patterns[0].id != id {
        let t = patterns.drop_first();
        lemma_pattern_index_is_first(t, id);
        assert forall|j: int| 0 <= j < pattern_index(patterns, id) implies patterns[j].id != id by {
            if j > 0 {
                assert(t[j - 1] == patterns[j]);
            }
        }
    }
}

/// Registering and unregistering keep the identifiers distinct.
pub proof fn lemma_registration_keeps_ids_distinct(
    patterns: Seq<SignaturePatternView>,
    p: SignaturePatternView,
)
    requires
        ids_distinct(patterns),
    ensures
        ids_distinct(registered(patterns, p)),
        ids_distinct(unregistered(patterns, p.id)),
{
    lemma_pattern_index_is_first(patterns, p.id);
}

proof fn lemma_cooldown_index_is_first(
    table: Seq<CooldownView>,
    pattern_id: Seq<char>,
    source_ip: Seq<char>,
    user_id: Seq<char>,
)
    ensures
        0 <= cooldown_index(table, pattern_id, source_ip, user_id) <= table.len(),
        forall|j: int|
            0 <= j < cooldown_index(table, pattern_id, source_ip, user_id) ==> !table[j].is_for(
                pattern_id,
                source_ip,
                user_id,
            ),
        cooldown_index(table, pattern_id, source_ip, user_id) < table.len() ==> table[cooldown_index(
            table,
            pattern_id,
            source_ip,
            user_id,
        )].is_for(pattern_id, source_ip, user_id),
    decreases table.len(),
{
    if table.len() > 0 && !table[0].is_for(pattern_id, source_ip, user_id) {
        let t = table.drop_first();
        lemma_cooldown_index_is_first(t, pattern_id, source_ip, user_id);
        assert forall|j: int|
            0 <= j < cooldown_index(table, pattern_id, source_ip, user_id) implies !table[j].is_for(
            pattern_id,
            source_ip,
            user_id,
        ) by {
            if j > 0 {
                assert(t[j - 1] == table[j]);
            }
        }
    }
}

/// Recording a finding of one pattern leaves the entries of every other
/// pattern where and as they were.
proof fn lemma_record_keeps_other_entries(
    table: Seq<CooldownView>,
    p: SignaturePatternView,
    e: RawEventView,
    now: u64,
    other_id: Seq<char>,
)
    requires
        p.id != other_id,
        cooldown_index(table, other_id, e.source_ip, e.user_id) < table.len(),
    ensures
        cooldown_index(cooldown_recorded(table, p, e, now), other_id, e.source_ip, e.user_id)
            == cooldown_index(table, other_id, e.source_ip, e.user_id),
        cooldown_recorded(table, p, e, now)[cooldown_index(
            table,
            other_id,
            e.source_ip,
            e.user_id,
        )] == table[cooldown_index(table, other_id, e.source_ip, e.user_id)],
{
    let c = cooldown_index(table, other_id, e.source_ip, e.user_id);
    let after = cooldown_recorded(table, p, e, now);
    lemma_cooldown_index_is_first(table, other_id, e.source_ip, e.user_id);
    lemma_cooldown_index_is_first(table, p.id, e.source_ip, e.user_id);
    assert(after[c] == table[c]);
    assert forall|j: int| 0 <= j < c implies !after[j].is_for(other_id, e.source_ip, e.user_id) by {
    }
    lemma_cooldown_index(after, other_id, e.source_ip, e.user_id, c);
}

/// A scan over patterns of other identifiers leaves a pattern's cooldown
/// entry as it was and produces no finding under that pattern's identifier.
proof fn lemma_scan_keeps_other_entries(
    patterns: Seq<SignaturePatternView>,
    table: Seq<CooldownView>,
    e: RawEventView,
    now: u64,
    other_id: Seq<char>,
)
    requires
        forall|j: int| 0 <= j < patterns.len() ==> patterns[j].id != other_id,
        cooldown_index(table, other_id, e.source_ip, e.user_id) < table.len(),
    ensures
        cooldown_index(
            scan_state(patterns, table, e, now).cooldowns,
            other_id,
            e.source_ip,
            e.user_id,
        ) == cooldown_index(table, other_id, e.source_ip, e.user_id),
        cooldown_index(table, other_id, e.source_ip, e.user_id) < scan_state(
            patterns,
            table,
            e,
            now,
        ).cooldowns.len(),
        scan_state(patterns, table, e, now).cooldowns[cooldown_index(
            table,
            other_id,
            e.source_ip,
            e.user_id,
        )] == table[cooldown_index(table, other_id, e.source_ip, e.user_id)],
        forall|j: int|
            0 <= j < scan_state(patterns, table, e, now).fired.len() ==> scan_state(
                patterns,
                table,
                e,
                now,
            ).fired[j].id != other_id,
    decreases patterns.len(),
{
    lemma_cooldown_index_is_first(table, other_id, e.source_ip, e.user_id);
    if patterns.len() > 0 {
        let head = patterns.drop_last();
        lemma_scan_keeps_other_entries(head, table, e, now, other_id);
        let before = scan_state(head, table, e, now);
        let p = patterns.last();
        if hits(p, e) && !in_cooldown(before.cooldowns, p, e, now) {
            lemma_record_keeps_other_entries(before.cooldowns, p, e, now, other_id);
            lemma_cooldown_index_is_first(before.cooldowns, p.id, e.source_ip, e.user_id);
            assert(cooldown_recorded(before.cooldowns, p, e, now).len() >= before.cooldowns.len());
        }
    }
}

/// No finding during a cooldown: where a registered pattern's cooldown for
/// the event's source address and user is active when a scan begins, the
/// scan produces no finding under that pattern's identifier.
pub proof fn lemma_no_finding_during_cooldown(
    patterns: Seq<SignaturePatternView>,
    table: Seq<CooldownView>,
    e: RawEventView,
    now: u64,
    k: int,
)
    requires
        ids_distinct(patterns),
        0 <= k < patterns.len(),
        in_cooldown(table, patterns[k], e, now),
    ensures
        forall|j: int|
            0 <= j < scan_state(patterns, table, e, now).fired.len() ==> scan_state(
                patterns,
                table,
                e,
                now,
            ).fired[j].id != patterns[k].id,
    decreases patterns.len(),
{
    let head = patterns.drop_last();
    let p = patterns.last();
    let id = patterns[k].id;
    if k == patterns.len() - 1 {
        assert forall|j: int| 0 <= j < head.len() implies head[j].id != id by {
            assert(head[j] == patterns[j]);
        }
        lemma_scan_keeps_other_entries(head, table, e, now, id);
    } else {
        assert(head[k] == patterns[k]);
        assert(ids_distinct(head)) by {
            assert forall|i: int, j: int| 0 <= i < j < head.len() implies head[i].id
                != head[j].id by {
                assert(head[i] == patterns[i]);
                assert(head[j] == patterns[j]);
            }
        }
        lemma_no_finding_during_cooldown(head, table, e, now, k);
    }
}

} // verus!
