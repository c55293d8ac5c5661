//! The real-time detection engine: named byte patterns searched in raw
//! data, with a count for each pattern and an optional threshold at which
//! the count raises an alert and starts over.

use vstd::prelude::*;
use vstd::utf8::encode_utf8;
use crate::error::SIEMError;
use crate::outside::lines_of;
use crate::outside::occurs_at;
use crate::outside::text_lines;
use crate::ruletext::parse_rule;
use crate::ruletext::parsed_rule;
use crate::ruletext::rule_text;
use crate::text::clone_texts;
use crate::text::decimal_text;
use crate::text::str_eq;
use crate::text::u64_to_text;

verus! {

/// Whether a pattern occurs somewhere in the data.
pub open spec fn occurs(data: Seq<u8>, pattern: Seq<char>) -> bool {
    exists|i: int| occurs_at(data, encode_utf8(pattern), i)
}

/// The position of the first pair under this name; the length of the list
/// where there is none.
pub open spec fn name_index<V>(list: Seq<(Seq<char>, V)>, name: Seq<char>) -> int
    decreases list.len(),
{
    if list.len() == 0 {
        0
    } else if list[0].0 == name {
        0
    } else {
        1 + name_index(list.drop_first(), name)
    }
}

/// The list with `value` under `name`: in place of the name's pair, or at
/// the end.
pub open spec fn with_pair<V>(list: Seq<(Seq<char>, V)>, name: Seq<char>, value: V) -> Seq<(Seq<char>, V)> {
    if name_index(list, name) < list.len() {
        list.update(name_index(list, name), (name, value))
    } else {
        list.push((name, value))
    }
}

/// The number kept under a name, if there is one.
pub open spec fn number_of(list: Seq<(Seq<char>, u32)>, name: Seq<char>) -> Option<u32> {
    if name_index(list, name) < list.len() {
        Some(list[name_index(list, name)].1)
    } else {
        None
    }
}

pub proof fn lemma_name_index<V>(list: Seq<(Seq<char>, V)>, name: Seq<char>, i: int)
    requires
        0 <= i <= list.len(),
        forall|j: int| 0 <= j < i ==> list[j].0 != name,
        i == list.len() || list[i].0 == name,
    ensures
        name_index(list, name) == i,
    decreases i,
{
    if i > 0 {
        let t = list.drop_first();
        assert forall|j: int| 0 <= j < i - 1 implies t[j].0 != name by {
            assert(t[j] == list[j + 1]);
        }
        lemma_name_index(t, name, i - 1);
    }
}

/// Where the pair of a name stands in a list of names with numbers.
pub fn find_number(list: &Vec<(String, u32)>, name: &str) -> (i: usize)
    ensures
        i as int == name_index(list.deep_view(), name@),
        i <= list@.len(),
{
    let mut i: usize = 0;
    while i < list.len()
        invariant
            i <= list@.len(),
            forall|j: int| 0 <= j < i ==> list.deep_view()[j].0 != name@,
        decreases list@.len() - i,
    {
        if str_eq(list[i].0.as_str(), name) {
            proof {
                lemma_name_index(list.deep_view(), name@, i as int);
            }
            return i;
        }
        i += 1;
    }
    proof {
        lemma_name_index(list.deep_view(), name@, i as int);
    }
    i
}

/// Puts a number under a name in a list of names with numbers.
pub fn set_number(list: &mut Vec<(String, u32)>, name: &str, value: u32)
    ensures
        final(list).deep_view() == with_pair(old(list).deep_view(), name@, value),
{
    let i = find_number(list, name);
    let ghost before = list.deep_view();
    if i < list.len() {
        list[i] = (String::from_str(name), value);
        proof {
            assert(list.deep_view() =~= before.update(i as int, (name@, value)));
        }
    } else {
        list.push((String::from_str(name), value));
        proof {
            assert(list.deep_view() =~= before.push((name@, value)));
        }
    }
}

/// The alert for a pattern without a threshold.
pub open spec fn detected_text(name: Seq<char>) -> Seq<char> {
    "\u{1F6A8} Pattern '"@ + name + "' detected"@
}

/// The alert for a pattern whose count reached its threshold.
pub open spec fn exceeded_text(name: Seq<char>, threshold: u32, count: u32) -> Seq<char> {
    "\u{1F6A8} Pattern '"@ + name + "' exceeded threshold "@ + decimal_text(threshold as nat)
        + " (current: "@ + decimal_text(count as nat) + ")"@
}

/// A count raised by one, stopping at the largest number.
pub open spec fn raised(count: u32) -> u32 {
    if count == u32::MAX {
        count
    } else {
        (count + 1) as u32
    }
}

/// What a pass over data leaves behind.
pub struct PassState {
    pub counters: Seq<(Seq<char>, u32)>,
    pub alerts: Seq<Seq<char>>,
}

/// A pass over data, pattern by pattern in the order of registration. A
/// pattern that occurs in the data has its count raised. Without a
/// threshold it raises an alert at once; with one it raises an alert when
/// the count has reached the threshold, and the count starts over.
pub open spec fn pass(
    patterns: Seq<(Seq<char>, Seq<char>)>,
    thresholds: Seq<(Seq<char>, u32)>,
    counters: Seq<(Seq<char>, u32)>,
    data: Seq<u8>,
) -> PassState
    decreases patterns.len(),
{
    if patterns.len() == 0 {
        PassState { counters, alerts: Seq::empty() }
    } else {
        let before = pass(patterns.drop_last(), thresholds, counters, data);
        let name = patterns.last().0;
        if !occurs(data, patterns.last().1) {
            before
        } else {
            let count = raised(
                match number_of(before.counters, name) {
                    Some(c) => c,
                    None => 0,
                },
            );
            match number_of(thresholds, name) {
                Some(t) => if count >= t {
                    PassState {
                        counters: with_pair(before.counters, name, 0),
                        alerts: before.alerts.push(exceeded_text(name, t, count)),
                    }
                } else {
                    PassState {
                        counters: with_pair(before.counters, name, count),
                        alerts: before.alerts,
                    }
                },
                None => PassState {
                    counters: with_pair(before.counters, name, count),
                    alerts: before.alerts.push(detected_text(name)),
                },
            }
        }
    }
}

/// The patterns that every engine begins with.
pub open spec fn default_patterns() -> Seq<(Seq<char>, Seq<char>)> {
    seq![
        ("sql_union"@, "UNION SELECT"@),
        ("sql_drop"@, "DROP TABLE"@),
        ("sql_insert"@, "INSERT INTO"@),
        ("xss_script"@, "<script>"@),
        ("xss_javascript"@, "javascript:"@),
        ("cmd_exec"@, "cmd.exe"@),
        ("powershell"@, "powershell.exe"@),
        ("path_traversal"@, "../"@),
        ("remote_file"@, "http://"@),
    ]
}

/// The state of the real-time detection engine, as mathematical values.
pub struct RealDetectionView {
    /// The patterns by name, in the order of registration.
    pub patterns: Seq<(Seq<char>, Seq<char>)>,
    pub thresholds: Seq<(Seq<char>, u32)>,
    pub counters: Seq<(Seq<char>, u32)>,
    pub alerts: Seq<Seq<char>>,
}

/// What the engine can say of itself in numbers.
#[derive(Clone, Copy, Debug, PartialEq, Eq, Structural)]
pub struct DetectionMetrics {
    pub total_patterns: u64,
    pub active_counters: u64,
    /// The sum of all counts; it stops at the largest number.
    pub total_matches: u64,
}

/// The sum of the numbers of a list, stopping at the largest number.
pub open spec fn total_of(list: Seq<(Seq<char>, u32)>) -> u64
    decreases list.len(),
{
    if list.len() == 0 {
        0
    } else if total_of(list.drop_last()) + list.last().1 > u64::MAX {
        u64::MAX
    } else {
        (total_of(list.drop_last()) + list.last().1) as u64
    }
}

/// The threshold of a pattern; nought for a pattern without one.
pub open spec fn threshold_of(thresholds: Seq<(Seq<char>, u32)>, name: Seq<char>) -> u32 {
    match number_of(thresholds, name) {
        Some(t) => t,
        None => 0,
    }
}

/// The first `n` patterns as text, one rule to a line, in the order of
/// registration.
pub open spec fn exported(patterns: Seq<(Seq<char>, Seq<char>)>, thresholds: Seq<(Seq<char>, u32)>, n: int) -> Seq<
    char,
>
    decreases n,
{
    if n <= 0 {
        Seq::empty()
    } else {
        let line = rule_text(
            patterns[n - 1].0,
            patterns[n - 1].1,
            threshold_of(thresholds, patterns[n - 1].0),
        );
        if n == 1 {
            line
        } else {
            exported(patterns, thresholds, n - 1) + "\n"@ + line
        }
    }
}

/// Patterns and thresholds of an engine.
pub struct RuleSet {
    pub patterns: Seq<(Seq<char>, Seq<char>)>,
    pub thresholds: Seq<(Seq<char>, u32)>,
}

/// A rule set after the rules of some lines were taken in, line for line;
/// a line that holds no rule changes nothing.
pub open spec fn imported(rules: RuleSet, lines: Seq<Seq<char>>) -> RuleSet
    decreases lines.len(),
{
    if lines.len() == 0 {
        rules
    } else {
        let before = imported(rules, lines.drop_last());
        match parsed_rule(lines.last()) {
            Some(rule) => RuleSet {
                patterns: with_pair(before.patterns, rule.name, rule.pattern),
                thresholds: with_pair(before.thresholds, rule.name, rule.threshold),
            },
            None => before,
        }
    }
}

/// The real-time detection engine.
pub struct RealDetectionEngine {
    patterns: Vec<(String, String)>,
    thresholds: Vec<(String, u32)>,
    counters: Vec<(String, u32)>,
    alerts: Vec<String>,
}

impl View for RealDetectionEngine {
    type V = RealDetectionView;

    closed spec fn view(&self) -> RealDetectionView {
        RealDetectionView {
            patterns: self.patterns.deep_view(),
            thresholds: self.thresholds.deep_view(),
            counters: self.counters.deep_view(),
            alerts: self.alerts.deep_view(),
        }
    }
}

impl RealDetectionEngine {
    /// An engine with the default patterns, without thresholds, counts and
    /// alerts.
    pub fn new() -> (r: Self)
        ensures
            r@ == (RealDetectionView {
                patterns: default_patterns(),
                thresholds: Seq::empty(),
                counters: Seq::empty(),
                alerts: Seq::empty(),
            }),
    {
        let mut engine = RealDetectionEngine {
            patterns: Vec::new(),
            thresholds: Vec::new(),
            counters: Vec::new(),
            alerts: Vec::new(),
        };
        engine.initialize_patterns();
        proof {
            assert(engine@.thresholds =~= Seq::empty());
            assert(engine@.counters =~= Seq::empty());
            assert(engine@.alerts =~= Seq::empty());
        }
        engine
    }

    /// Replaces the patterns by the default patterns.
    pub fn initialize_patterns(&mut self)
        ensures
            final(self)@ == (RealDetectionView { patterns: default_patterns(), ..old(self)@ }),
    {
        let mut patterns: Vec<(String, String)> = Vec::new();
        patterns.push((String::from_str("sql_union"), String::from_str("UNION SELECT")));
        patterns.push((String::from_str("sql_drop"), String::from_str("DROP TABLE")));
        patterns.push((String::from_str("sql_insert"), String::from_str("INSERT INTO")));
        patterns.push((String::from_str("xss_script"), String::from_str("<script>")));
        patterns.push((String::from_str("xss_javascript"), String::from_str("javascript:")));
        patterns.push((String::from_str("cmd_exec"), String::from_str("cmd.exe")));
        patterns.push((String::from_str("powershell"), String::from_str("powershell.exe")));
        patterns.push((String::from_str("path_traversal"), String::from_str("../")));
        patterns.push((String::from_str("remote_file"), String::from_str("http://")));
        proof {
            assert(patterns.deep_view() =~= default_patterns());
        }
        self.patterns = patterns;
    }

    /// Registers a pattern under a name; a pattern of the same name is
    /// replaced where it stands.
    pub fn add_pattern(&mut self, name: String, pattern: String) -> (r: Result<(), SIEMError>)
        ensures
            r is Ok,
            final(self)@ == (RealDetectionView {
                patterns: with_pair(old(self)@.patterns, name@, pattern@),
                ..old(self)@
            }),
    {
        let mut i: usize = 0;
        while i < self.patterns.len() && !str_eq(self.patterns[i].0.as_str(), name.as_str())
            invariant
                i <= self.patterns@.len(),
                *self == *old(self),
                forall|j: int| 0 <= j < i ==> self@.patterns[j].0 != name@,
            decreases self.patterns@.len() - i,
        {
            i += 1;
        }
        proof {
            lemma_name_index(self@.patterns, name@, i as int);
        }
        let ghost before = self@.patterns;
        if i < self.patterns.len() {
            self.patterns[i] = (name, pattern);
            proof {
                assert(self@.patterns =~= before.update(i as int, (name@, pattern@)));
            }
        } else {
            self.patterns.push((name, pattern));
            proof {
                assert(self@.patterns =~= before.push((name@, pattern@)));
            }
        }
        Ok(())
    }

    /// Sets the threshold of a pattern.
    pub fn set_threshold(&mut self, pattern_name: String, threshold: u32) -> (r: Result<(), SIEMError>)
        ensures
            r is Ok,
            final(self)@ == (RealDetectionView {
                thresholds: with_pair(old(self)@.thresholds, pattern_name@, threshold),
                ..old(self)@
            }),
    {
        set_number(&mut self.thresholds, pattern_name.as_str(), threshold);
        Ok(())
    }

    /// Passes over data: every pattern that occurs in it is counted, and
    /// the alerts that this raises are handed back, in the order of the
    /// patterns' registration.
    pub fn process_data(&mut self, data: &[u8]) -> (r: Result<Vec<String>, SIEMError>)
        ensures
            r is Ok,
            r->Ok_0.deep_view() == pass(
                old(self)@.patterns,
                old(self)@.thresholds,
                old(self)@.counters,
                data@,
            ).alerts,
            final(self)@ == (RealDetectionView {
                counters: pass(
                    old(self)@.patterns,
                    old(self)@.thresholds,
                    old(self)@.counters,
                    data@,
                ).counters,
                ..old(self)@
            }),
    {
        let mut detections: Vec<String> = Vec::new();
        let ghost patterns = self@.patterns;
        let ghost thresholds = self@.thresholds;
        let ghost counters = self@.counters;
        let mut i: usize = 0;
        proof {
            assert(patterns.subrange(0, 0) =~= Seq::<(Seq<char>, Seq<char>)>::empty());
            assert(detections.deep_view() =~= Seq::<Seq<char>>::empty());
        }
        while i < self.patterns.len()
            invariant
                i <= self.patterns@.len(),
                self.patterns == old(self).patterns,
                self.thresholds == old(self).thresholds,
                self.alerts == old(self).alerts,
                patterns == old(self)@.patterns,
                thresholds == old(self)@.thresholds,
                counters == old(self)@.counters,
                self.counters.deep_view() == pass(
                    patterns.subrange(0, i as int),
                    thresholds,
                    counters,
                    data@,
                ).counters,
                detections.deep_view() == pass(
                    patterns.subrange(0, i as int),
                    thresholds,
                    counters,
                    data@,
                ).alerts,
            decreases self.patterns@.len() - i,
        {
            proof {
                assert(patterns.subrange(0, i as int + 1).drop_last() =~= patterns.subrange(
                    0,
                    i as int,
                ));
                assert(patterns.subrange(0, i as int + 1).last() == patterns[i as int]);
                assert(patterns[i as int] == (self.patterns@[i as int].0@, self.patterns@[i as int].1@));
            }
            let found = memchr::memmem::find(data, self.patterns[i].1.as_str().as_bytes());
            if found.is_some() {
                let at = find_number(&self.counters, self.patterns[i].0.as_str());
                let before: u32 = if at < self.counters.len() {
                    self.counters[at].1
                } else {
                    0
                };
                let count: u32 = if before == u32::MAX {
                    before
                } else {
                    before + 1
                };
                let limit = find_number(&self.thresholds, self.patterns[i].0.as_str());
                let ghost alerts_before = detections.deep_view();
                if limit < self.thresholds.len() {
                    let threshold = self.thresholds[limit].1;
                    if count >= threshold {
                        let mut alert = String::from_str("\u{1F6A8} Pattern '");
                        alert.append(self.patterns[i].0.as_str());
                        alert.append("' exceeded threshold ");
                        alert.append(u64_to_text(threshold as u64).as_str());
                        alert.append(" (current: ");
                        alert.append(u64_to_text(count as u64).as_str());
                        alert.append(")");
                        detections.push(alert);
                        proof {
                            assert(detections.deep_view() =~= alerts_before.push(
                                exceeded_text(patterns[i as int].0, threshold, count),
                            ));
                        }
                        set_number(&mut self.counters, self.patterns[i].0.as_str(), 0);
                    } else {
                        set_number(&mut self.counters, self.patterns[i].0.as_str(), count);
                    }
                } else {
                    let mut alert = String::from_str("\u{1F6A8} Pattern '");
                    alert.append(self.patterns[i].0.as_str());
                    alert.append("' detected");
                    detections.push(alert);
                    proof {
                        assert(detections.deep_view() =~= alerts_before.push(
                            detected_text(patterns[i as int].0),
                        ));
                    }
                    set_number(&mut self.counters, self.patterns[i].0.as_str(), count);
                }
            }
            i += 1;
        }
        proof {
            assert(patterns.subrange(0, patterns.len() as int) =~= patterns);
        }
        Ok(detections)
    }

    /// Passes over network traffic.
    pub fn process_network_traffic(&mut self, traffic_data: &[u8]) -> (r: Result<Vec<String>, SIEMError>)
        ensures
            r is Ok,
            r->Ok_0.deep_view() == pass(
                old(self)@.patterns,
                old(self)@.thresholds,
                old(self)@.counters,
                traffic_data@,
            ).alerts,
            final(self)@ == (RealDetectionView {
                counters: pass(
                    old(self)@.patterns,
                    old(self)@.thresholds,
                    old(self)@.counters,
                    traffic_data@,
                ).counters,
                ..old(self)@
            }),
    {
        self.process_data(traffic_data)
    }

    /// Passes over log data.
    pub fn process_log_data(&mut self, log_data: &[u8]) -> (r: Result<Vec<String>, SIEMError>)
        ensures
            r is Ok,
            r->Ok_0.deep_view() == pass(
                old(self)@.patterns,
                old(self)@.thresholds,
                old(self)@.counters,
                log_data@,
            ).alerts,
            final(self)@ == (RealDetectionView {
                counters: pass(
                    old(self)@.patterns,
                    old(self)@.thresholds,
                    old(self)@.counters,
                    log_data@,
                ).counters,
                ..old(self)@
            }),
    {
        self.process_data(log_data)
    }

    /// Passes over the content of a file.
    pub fn process_file_data(&mut self, file_data: &[u8]) -> (r: Result<Vec<String>, SIEMError>)
        ensures
            r is Ok,
            r->Ok_0.deep_view() == pass(
                old(self)@.patterns,
                old(self)@.thresholds,
                old(self)@.counters,
                file_data@,
            ).alerts,
            final(self)@ == (RealDetectionView {
                counters: pass(
                    old(self)@.patterns,
                    old(self)@.thresholds,
                    old(self)@.counters,
                    file_data@,
                ).counters,
                ..old(self)@
            }),
    {
        self.process_data(file_data)
    }

    /// The counts by pattern name, in the order in which the patterns were
    /// first counted.
    pub fn get_counters(&self) -> (r: Vec<(String, u32)>)
        ensures
            r.deep_view() == self@.counters,
    {
        let mut out: Vec<(String, u32)> = Vec::new();
        let mut i: usize = 0;
        proof {
            assert(out.deep_view() =~= self@.counters.subrange(0, 0));
        }
        while i < self.counters.len()
            invariant
                i <= self.counters@.len(),
                out.deep_view() == self@.counters.subrange(0, i as int),
            decreases self.counters@.len() - i,
        {
            let ghost before = out.deep_view();
            out.push((self.counters[i].0.clone(), self.counters[i].1));
            proof {
                assert(out.deep_view() =~= before.push(self@.counters[i as int]));
                assert(out.deep_view() =~= self@.counters.subrange(0, i as int + 1));
            }
            i += 1;
        }
        proof {
            assert(self@.counters.subrange(0, self@.counters.len() as int) =~= self@.counters);
        }
        out
    }

    /// Forgets every count.
    pub fn reset_counters(&mut self) -> (r: Result<(), SIEMError>)
        ensures
            r is Ok,
            final(self)@ == (RealDetectionView { counters: Seq::empty(), ..old(self)@ }),
    {
        self.counters = Vec::new();
        proof {
            assert(self@.counters =~= Seq::empty());
        }
        Ok(())
    }

    /// The alerts kept by the engine.
    pub fn get_alerts(&self) -> (r: Vec<String>)
        ensures
            r.deep_view() == self@.alerts,
    {
        clone_texts(&self.alerts)
    }

    /// Forgets every alert kept by the engine.
    pub fn clear_alerts(&mut self) -> (r: Result<(), SIEMError>)
        ensures
            r is Ok,
            final(self)@ == (RealDetectionView { alerts: Seq::empty(), ..old(self)@ }),
    {
        self.alerts = Vec::new();
        proof {
            assert(self@.alerts =~= Seq::empty());
        }
        Ok(())
    }

    /// The patterns with their thresholds as text, one rule to a line.
    pub fn export_rules(&self) -> (r: Result<String, SIEMError>)
        ensures
            r is Ok,
            r->Ok_0@ == exported(self@.patterns, self@.thresholds, self@.patterns.len() as int),
    {
        let mut out = String::new();
        let mut i: usize = 0;
        proof {
            assert(out@ =~= Seq::<char>::empty());
        }
        while i < self.patterns.len()
            invariant
                i <= self.patterns@.len(),
                out@ == exported(self@.patterns, self@.thresholds, i as int),
            decreases self.patterns@.len() - i,
        {
            let ghost before = out@;
            let name = self.patterns[i].0.as_str();
            let k = find_number(&self.thresholds, name);
            let threshold: u32 = if k < self.thresholds.len() {
                self.thresholds[k].1
            } else {
                0
            };
            proof {
                assert(self@.patterns[i as int].0 == name@);
                assert(self@.thresholds == self.thresholds.deep_view());
                if k < self.thresholds@.len() {
                    assert(self.thresholds.deep_view()[k as int].1 == self.thresholds@[k as int].1);
                }
                assert(threshold == threshold_of(self@.thresholds, name@));
            }
            if i > 0 {
                out.append("\n");
            }
            let ghost start = out@;
            out.append(name);
            out.append(": ");
            out.append(self.patterns[i].1.as_str());
            out.append(" ");
            out.append("(threshold: ");
            out.append(u64_to_text(threshold as u64).as_str());
            out.append(")");
            proof {
                let line = rule_text(name@, self@.patterns[i as int].1, threshold);
                assert(out@ =~= start + line);
                if i == 0 {
                    assert(start + line =~= line);
                }
            }
            i += 1;
        }
        Ok(out)
    }

    /// Takes in the rules that a text holds, line for line: each rule's
    /// pattern is registered under its name and its threshold set. A line
    /// that holds no rule is passed over.
    pub fn import_rules(&mut self, rules_data: &str) -> (r: Result<(), SIEMError>)
        ensures
            r is Ok,
            final(self)@ == (RealDetectionView {
                patterns: imported(
                    RuleSet { patterns: old(self)@.patterns, thresholds: old(self)@.thresholds },
                    lines_of(rules_data@),
                ).patterns,
                thresholds: imported(
                    RuleSet { patterns: old(self)@.patterns, thresholds: old(self)@.thresholds },
                    lines_of(rules_data@),
                ).thresholds,
                ..old(self)@
            }),
    {
        let lines = text_lines(rules_data);
        let ghost start = RuleSet { patterns: self@.patterns, thresholds: self@.thresholds };
        let ghost all = lines.deep_view();
        let mut i: usize = 0;
        proof {
            assert(all.subrange(0, 0) =~= Seq::<Seq<char>>::empty());
        }
        while i < lines.len()
            invariant
                i <= lines@.len(),
                all == lines.deep_view(),
                all == lines_of(rules_data@),
                start == (RuleSet { patterns: old(self)@.patterns, thresholds: old(self)@.thresholds }),
                self@ == (RealDetectionView {
                    patterns: imported(start, all.subrange(0, i as int)).patterns,
                    thresholds: imported(start, all.subrange(0, i as int)).thresholds,
                    ..old(self)@
                }),
            decreases lines@.len() - i,
        {
            proof {
                assert(all.subrange(0, i as int + 1).drop_last() =~= all.subrange(0, i as int));
                assert(all.subrange(0, i as int + 1).last() == lines@[i as int]@);
            }
            match parse_rule(lines[i].as_str()) {
                None => {},
                Some(rule) => {
                    let name = rule.name.clone();
                    let _ = self.add_pattern(name, rule.pattern);
                    let _ = self.set_threshold(rule.name, rule.threshold);
                },
            }
            i += 1;
        }
        proof {
            assert(all.subrange(0, all.len() as int) =~= all);
        }
        Ok(())
    }

    /// How many patterns are registered, how many have a count, and the sum
    /// of the counts.
    pub fn get_performance_metrics(&self) -> (r: DetectionMetrics)
        ensures
            r.total_patterns == self@.patterns.len(),
            r.active_counters == self@.counters.len(),
            r.total_matches == total_of(self@.counters),
    {
        let mut total: u64 = 0;
        let mut i: usize = 0;
        proof {
            assert(self@.counters.subrange(0, 0) =~= Seq::<(Seq<char>, u32)>::empty());
        }
        while i < self.counters.len()
            invariant
                i <= self.counters@.len(),
                total == total_of(self@.counters.subrange(0, i as int)),
            decreases self.counters@.len() - i,
        {
            proof {
                assert(self@.counters.subrange(0, i as int + 1).drop_last()
                    =~= self@.counters.subrange(0, i as int));
            }
            total = total.saturating_add(self.counters[i].1 as u64);
            i += 1;
        }
        proof {
            assert(self@.counters.subrange(0, self@.counters.len() as int) =~= self@.counters);
        }
        DetectionMetrics {
            total_patterns: self.patterns.len() as u64,
            active_counters: self.counters.len() as u64,
            total_matches: total,
        }
    }
}

} // verus!
