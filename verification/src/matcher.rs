//! Pattern matchers on raw bytes: a search that skips ahead by a table
//! built from the pattern, a search that ignores the case of ASCII letters,
//! and the named patterns that they look for.

use vstd::prelude::*;
use crate::outside::occurs_at;
use crate::realtime::lemma_name_index;
use crate::realtime::name_index;
use crate::text::bytes_eq;
use crate::text::str_eq;

verus! {

/// The confidence of a match, in thousandths.
pub const MATCH_CONFIDENCE: u16 = 950;

/// How far the search may skip when `byte` stands in the text under the
/// last position of the pattern, going by the first `n` bytes of the
/// pattern: the distance from the last such byte before the pattern's last
/// position to that position, or the pattern's length where there is none.
pub open spec fn skip_upto(pattern: Seq<u8>, byte: u8, n: int) -> int
    decreases n,
{
    if n <= 0 {
        pattern.len() as int
    } else if n - 1 < pattern.len() - 1 && pattern[n - 1] == byte {
        pattern.len() - 1 - (n - 1)
    } else {
        skip_upto(pattern, byte, n - 1)
    }
}

/// How far the search may skip when `byte` stands in the text under the
/// last position of the pattern.
pub open spec fn skip(pattern: Seq<u8>, byte: u8) -> int {
    skip_upto(pattern, byte, pattern.len() - 1)
}

/// Whether a table holds the skip of every byte.
pub open spec fn is_skip_table(table: Seq<usize>, pattern: Seq<u8>) -> bool {
    &&& table.len() == 256
    &&& forall|b: u8| (#[trigger] table[b as int]) == skip(pattern, b)
}

/// A skip is at least one and at most the pattern's length, and no byte
/// like the one skipped by stands in the stretch that the skip passes over.
proof fn lemma_skip(pattern: Seq<u8>, byte: u8, n: int)
    requires
        pattern.len() >= 1,
        0 <= n <= pattern.len() - 1,
    ensures
        1 <= skip_upto(pattern, byte, n) <= pattern.len(),
        forall|i: int|
            pattern.len() - 1 - skip_upto(pattern, byte, n) < i < n ==> pattern[i] != byte,
    decreases n,
{
    if n > 0 {
        lemma_skip(pattern, byte, n - 1);
    }
}

/// Builds the table of skips for a pattern.
pub fn build_boyer_moore_table(pattern: &[u8]) -> (table: Vec<usize>)
    ensures
        is_skip_table(table@, pattern@),
{
    let m = pattern.len();
    let mut table: Vec<usize> = Vec::new();
    let mut b: usize = 0;
    while b < 256
        invariant
            b <= 256,
            table@.len() == b,
            forall|c: int| 0 <= c < b ==> table@[c] == m,
        decreases 256 - b,
    {
        table.push(m);
        b += 1;
    }
    if m == 0 {
        return table;
    }
    let mut i: usize = 0;
    while i < m - 1
        invariant
            m == pattern@.len(),
            m >= 1,
            i <= m - 1,
            table@.len() == 256,
            forall|c: u8| (#[trigger] table@[c as int]) == skip_upto(pattern@, c, i as int),
        decreases m - 1 - i,
    {
        let byte = pattern[i];
        table[byte as usize] = m - 1 - i;
        i += 1;
    }
    table
}

/// Whether a pattern that is not empty occurs in the data. An empty pattern
/// is found nowhere.
pub open spec fn found_in(data: Seq<u8>, pattern: Seq<u8>) -> bool {
    pattern.len() > 0 && exists|s: int| occurs_at(data, pattern, s)
}

/// The search that skips ahead by a table. With the table of skips built
/// from the pattern it says whether the pattern, which must not be empty,
/// occurs in the text. With any other table it still finds nothing that is
/// not there.
pub fn boyer_moore_search(text: &[u8], pattern: &[u8], bm_table: &[usize]) -> (r: bool)
    ensures
        is_skip_table(bm_table@, pattern@) ==> r == found_in(text@, pattern@),
        r ==> found_in(text@, pattern@),
{
    let m = pattern.len();
    let n = text.len();
    if m == 0 || n == 0 || m > n || bm_table.len() != 256 {
        proof {
            if m > 0 {
                assert forall|s: int| !occurs_at(text@, pattern@, s) || bm_table@.len() != 256 by {}
            }
        }
        return false;
    }
    let ghost valid = is_skip_table(bm_table@, pattern@);
    let mut i: usize = m - 1;
    while i < n
        invariant
            m == pattern@.len(),
            n == text@.len(),
            1 <= m <= n,
            m - 1 <= i,
            bm_table@.len() == 256,
            valid == is_skip_table(bm_table@, pattern@),
            valid ==> forall|s: int| 0 <= s < i - (m - 1) ==> !occurs_at(text@, pattern@, s),
        decreases n + m - i,
    {
        let start = i - (m - 1);
        if bytes_eq(vstd::slice::slice_subrange(text, start, i + 1), pattern) {
            proof {
                assert(occurs_at(text@, pattern@, start as int));
            }
            return true;
        }
        let byte = text[i];
        let told = bm_table[byte as usize];
        let step = if told == 0 {
            1
        } else {
            told
        };
        proof {
            if valid {
                lemma_skip(pattern@, byte, m - 1);
                assert(told == skip(pattern@, byte));
                assert forall|s: int| start <= s < start + step implies !occurs_at(
                    text@,
                    pattern@,
                    s,
                ) by {
                    if s > start && occurs_at(text@, pattern@, s) {
                        let at = m - 1 - (s - start);
                        assert(text@.subrange(s, s + m)[at] == text@[i as int]);
                        assert(pattern@[at] == byte);
                    }
                }
            }
        }
        if step > n - i {
            proof {
                if valid {
                    assert forall|s: int| !occurs_at(text@, pattern@, s) by {
                        if occurs_at(text@, pattern@, s) {
                            assert(s + m <= n);
                        }
                    }
                }
            }
            return false;
        }
        i = i + step;
    }
    proof {
        if valid {
            assert forall|s: int| !occurs_at(text@, pattern@, s) by {
                if occurs_at(text@, pattern@, s) {
                    assert(s + m <= n);
                }
            }
        }
    }
    false
}

/// A named pattern with the table of skips built from it.
pub struct TabledPattern {
    pub name: String,
    pub pattern: Vec<u8>,
    pub table: Vec<usize>,
}

/// The matcher that searches with tables of skips.
pub struct OptimizedPatternMatcher {
    patterns: Vec<TabledPattern>,
}

/// The names and patterns of a list of patterns with tables.
pub open spec fn named_patterns(patterns: Seq<TabledPattern>) -> Seq<(Seq<char>, Seq<u8>)> {
    Seq::new(patterns.len(), |i: int| (patterns[i].name@, patterns[i].pattern@))
}

/// The list with a pattern under a name: in place of the name's pattern, or
/// at the end.
pub open spec fn with_pattern(list: Seq<(Seq<char>, Seq<u8>)>, name: Seq<char>, pattern: Seq<u8>) -> Seq<
    (Seq<char>, Seq<u8>),
> {
    if name_index(list, name) < list.len() {
        list.update(name_index(list, name), (name, pattern))
    } else {
        list.push((name, pattern))
    }
}

/// The list with the first `n` of some patterns added, one after the other.
pub open spec fn with_patterns(list: Seq<(Seq<char>, Seq<u8>)>, more: Seq<(Seq<char>, Seq<u8>)>, n: int) -> Seq<
    (Seq<char>, Seq<u8>),
>
    decreases n,
{
    if n <= 0 {
        list
    } else {
        with_pattern(with_patterns(list, more, n - 1), more[n - 1].0, more[n - 1].1)
    }
}

/// The names of the patterns among the first `n` that occur in the data,
/// in order. A pattern that is empty occurs nowhere.
pub open spec fn matching_names(list: Seq<(Seq<char>, Seq<u8>)>, data: Seq<u8>, n: int) -> Seq<Seq<char>>
    decreases n,
{
    if n <= 0 {
        Seq::empty()
    } else if found_in(data, list[n - 1].1) {
        matching_names(list, data, n - 1).push(list[n - 1].0)
    } else {
        matching_names(list, data, n - 1)
    }
}

/// The names of a list of matches.
pub open spec fn match_names(matches: Seq<(String, u16)>) -> Seq<Seq<char>> {
    Seq::new(matches.len(), |i: int| matches[i].0@)
}

/// The views of a list of named patterns.
pub open spec fn pattern_views(list: Seq<(String, Vec<u8>)>) -> Seq<(Seq<char>, Seq<u8>)> {
    Seq::new(list.len(), |i: int| (list[i].0@, list[i].1@))
}

impl View for OptimizedPatternMatcher {
    type V = Seq<(Seq<char>, Seq<u8>)>;

    closed spec fn view(&self) -> Seq<(Seq<char>, Seq<u8>)> {
        named_patterns(self.patterns@)
    }
}

impl OptimizedPatternMatcher {
    /// Every pattern carries the table of skips built from it.
    pub closed spec fn wf(&self) -> bool {
        forall|i: int|
            0 <= i < self.patterns@.len() ==> is_skip_table(
                (#[trigger] self.patterns@[i]).table@,
                self.patterns@[i].pattern@,
            )
    }

    /// A matcher without patterns.
    pub fn new() -> (r: Self)
        ensures
            r.wf(),
            r@ == Seq::<(Seq<char>, Seq<u8>)>::empty(),
    {
        let r = OptimizedPatternMatcher { patterns: Vec::new() };
        proof {
            assert(r@ =~= Seq::<(Seq<char>, Seq<u8>)>::empty());
        }
        r
    }

    /// Adds a pattern under a name, with its table of skips; a pattern of
    /// the same name is replaced where it stands.
    pub fn add_pattern(&mut self, name: String, pattern: Vec<u8>)
        requires
            old(self).wf(),
        ensures
            final(self).wf(),
            final(self)@ == with_pattern(old(self)@, name@, pattern@),
    {
        let mut i: usize = 0;
        while i < self.patterns.len() && !str_eq(self.patterns[i].name.as_str(), name.as_str())
            invariant
                i <= self.patterns@.len(),
                *self == *old(self),
                forall|j: int| 0 <= j < i ==> self@[j].0 != name@,
            decreases self.patterns@.len() - i,
        {
            i += 1;
        }
        proof {
            lemma_name_index(self@, name@, i as int);
        }
        let table = build_boyer_moore_table(pattern.as_slice());
        let ghost before = self@;
        let entry = TabledPattern { name, pattern, table };
        if i < self.patterns.len() {
            self.patterns[i] = entry;
            proof {
                assert(self@ =~= before.update(i as int, (name@, pattern@)));
            }
        } else {
            self.patterns.push(entry);
            proof {
                assert(self@ =~= before.push((name@, pattern@)));
            }
        }
    }

    /// Adds patterns under their names, one after the other.
    pub fn add_patterns(&mut self, patterns: Vec<(String, Vec<u8>)>)
        requires
            old(self).wf(),
        ensures
            final(self).wf(),
            final(self)@ == with_patterns(
                old(self)@,
                pattern_views(patterns@),
                patterns@.len() as int,
            ),
    {
        let mut i: usize = 0;
        while i < patterns.len()
            invariant
                i <= patterns@.len(),
                self.wf(),
                self@ == with_patterns(old(self)@, pattern_views(patterns@), i as int),
            decreases patterns@.len() - i,
        {
            self.add_pattern(patterns[i].0.clone(), patterns[i].1.clone());
            i += 1;
        }
    }

    /// Builds the table of skips for a pattern.
    pub fn build_boyer_moore_table(&self, pattern: &[u8]) -> (table: Vec<usize>)
        ensures
            is_skip_table(table@, pattern@),
    {
        build_boyer_moore_table(pattern)
    }

    /// The search that skips ahead by a table.
    pub fn boyer_moore_search(&self, text: &[u8], pattern: &[u8], bm_table: &[usize]) -> (r: bool)
        ensures
            is_skip_table(bm_table@, pattern@) ==> r == found_in(text@, pattern@),
            r ==> found_in(text@, pattern@),
    {
        boyer_moore_search(text, pattern, bm_table)
    }

    /// How many patterns the matcher holds.
    pub fn pattern_count(&self) -> (r: usize)
        ensures
            r == self@.len(),
    {
        self.patterns.len()
    }

    /// The patterns that occur in the data, by name and in the order of the
    /// matcher, each with the confidence of a match.
    pub fn detect_threats_simd(&self, data: &[u8]) -> (r: Vec<(String, u16)>)
        requires
            self.wf(),
        ensures
            match_names(r@) == matching_names(self@, data@, self@.len() as int),
            forall|i: int| 0 <= i < r@.len() ==> (#[trigger] r@[i]).1 == MATCH_CONFIDENCE,
    {
        let mut found: Vec<(String, u16)> = Vec::new();
        let mut i: usize = 0;
        proof {
            assert(match_names(found@) =~= Seq::<Seq<char>>::empty());
        }
        while i < self.patterns.len()
            invariant
                i <= self.patterns@.len(),
                self.wf(),
                match_names(found@) == matching_names(self@, data@, i as int),
                forall|k: int| 0 <= k < found@.len() ==> (#[trigger] found@[k]).1 == MATCH_CONFIDENCE,
            decreases self.patterns@.len() - i,
        {
            let entry = &self.patterns[i];
            proof {
                assert(is_skip_table(self.patterns@[i as int].table@, self.patterns@[i as int].pattern@));
            }
            if boyer_moore_search(data, entry.pattern.as_slice(), entry.table.as_slice()) {
                let ghost before = match_names(found@);
                found.push((entry.name.clone(), MATCH_CONFIDENCE));
                proof {
                    assert(match_names(found@) =~= before.push(self@[i as int].0));
                }
            }
            i += 1;
        }
        found
    }

    /// The matches of every event of a batch, event for event.
    pub fn process_events_batch(&self, events: &Vec<Vec<u8>>) -> (r: Vec<Vec<(String, u16)>>)
        requires
            self.wf(),
        ensures
            r@.len() == events@.len(),
            forall|i: int|
                0 <= i < events@.len() ==> match_names((#[trigger] r@[i])@) == matching_names(
                    self@,
                    events@[i]@,
                    self@.len() as int,
                ),
    {
        let mut results: Vec<Vec<(String, u16)>> = Vec::new();
        let mut i: usize = 0;
        while i < events.len()
            invariant
                i <= events@.len(),
                self.wf(),
                results@.len() == i,
                forall|k: int|
                    0 <= k < i ==> match_names((#[trigger] results@[k])@) == matching_names(
                        self@,
                        events@[k]@,
                        self@.len() as int,
                    ),
            decreases events@.len() - i,
        {
            let one = self.detect_threats_simd(events[i].as_slice());
            results.push(one);
            i += 1;
        }
        results
    }
}

/// A byte with an ASCII capital turned into its small letter.
pub open spec fn ascii_lower(b: u8) -> u8 {
    if 65 <= b <= 90 {
        (b + 32) as u8
    } else {
        b
    }
}

/// Whether the pattern stands in the data at an offset, the case of ASCII
/// letters ignored.
pub open spec fn stands_at_ignoring_case(data: Seq<u8>, pattern: Seq<u8>, s: int) -> bool {
    &&& 0 <= s
    &&& s + pattern.len() <= data.len()
    &&& forall|j: int|
        0 <= j < pattern.len() ==> ascii_lower(#[trigger] data[s + j]) == ascii_lower(pattern[j])
}

/// Whether the pattern occurs in the data, the case of ASCII letters
/// ignored.
pub open spec fn occurs_ignoring_case(data: Seq<u8>, pattern: Seq<u8>) -> bool {
    exists|s: int| stands_at_ignoring_case(data, pattern, s)
}

/// A byte with an ASCII capital turned into its small letter.
pub fn to_ascii_lower(b: u8) -> (r: u8)
    ensures
        r == ascii_lower(b),
{
    if 65 <= b && b <= 90 {
        b + 32
    } else {
        b
    }
}

/// Whether the pattern occurs in the data, the case of ASCII letters
/// ignored.
pub fn find_ignoring_case(data: &[u8], pattern: &[u8]) -> (r: bool)
    ensures
        r == occurs_ignoring_case(data@, pattern@),
{
    let m = pattern.len();
    let n = data.len();
    if m > n {
        return false;
    }
    let mut s: usize = 0;
    while s <= n - m
        invariant
            m == pattern@.len(),
            n == data@.len(),
            m <= n,
            s <= n - m + 1,
            forall|t: int| 0 <= t < s ==> !stands_at_ignoring_case(data@, pattern@, t),
        decreases n - m + 1 - s,
    {
        let mut j: usize = 0;
        while j < m && to_ascii_lower(data[s + j]) == to_ascii_lower(pattern[j])
            invariant
                m == pattern@.len(),
                n == data@.len(),
                s + m <= n,
                j <= m,
                forall|k: int|
                    0 <= k < j ==> ascii_lower(#[trigger] data@[s + k]) == ascii_lower(pattern@[k]),
            decreases m - j,
        {
            j += 1;
        }
        if j == m {
            proof {
                assert(stands_at_ignoring_case(data@, pattern@, s as int));
            }
            return true;
        }
        proof {
            assert(ascii_lower(data@[s + j]) != ascii_lower(pattern@[j as int]));
        }
        s += 1;
    }
    false
}

/// The patterns that the parallel matcher looks for.
pub open spec fn web_patterns() -> Seq<Seq<char>> {
    seq!["<script>"@, "javascript:"@, "<iframe"@, "onload="@, "onerror="@]
}

/// The matcher that ignores the case of ASCII letters.
pub struct PatternMatcher {
    patterns: Vec<String>,
}

impl View for PatternMatcher {
    type V = Seq<Seq<char>>;

    closed spec fn view(&self) -> Seq<Seq<char>> {
        self.patterns.deep_view()
    }
}

/// The patterns among the first `n` that occur in the data with the case of
/// ASCII letters ignored, in order.
pub open spec fn loose_matches(patterns: Seq<Seq<char>>, data: Seq<u8>, n: int) -> Seq<Seq<char>>
    decreases n,
{
    if n <= 0 {
        Seq::empty()
    } else if occurs_ignoring_case(data, vstd::utf8::encode_utf8(patterns[n - 1])) {
        loose_matches(patterns, data, n - 1).push(patterns[n - 1])
    } else {
        loose_matches(patterns, data, n - 1)
    }
}

impl PatternMatcher {
    /// A matcher for five patterns of attacks on web pages.
    pub fn new() -> (r: Self)
        ensures
            r@ == web_patterns(),
    {
        let mut patterns: Vec<String> = Vec::new();
        patterns.push(String::from_str("<script>"));
        patterns.push(String::from_str("javascript:"));
        patterns.push(String::from_str("<iframe"));
        patterns.push(String::from_str("onload="));
        patterns.push(String::from_str("onerror="));
        proof {
            assert(patterns.deep_view() =~= web_patterns());
        }
        PatternMatcher { patterns }
    }

    /// The patterns that occur in the data, the case of ASCII letters
    /// ignored, in the matcher's order, each with the confidence of a match.
    pub fn detect_threats_parallel(&self, data: &[u8]) -> (r: Vec<(String, u16)>)
        ensures
            match_names(r@) == loose_matches(self@, data@, self@.len() as int),
            forall|i: int| 0 <= i < r@.len() ==> (#[trigger] r@[i]).1 == MATCH_CONFIDENCE,
    {
        let mut found: Vec<(String, u16)> = Vec::new();
        let mut i: usize = 0;
        proof {
            assert(match_names(found@) =~= Seq::<Seq<char>>::empty());
        }
        while i < self.patterns.len()
            invariant
                i <= self.patterns@.len(),
                match_names(found@) == loose_matches(self@, data@, i as int),
                forall|k: int| 0 <= k < found@.len() ==> (#[trigger] found@[k]).1 == MATCH_CONFIDENCE,
            decreases self.patterns@.len() - i,
        {
            if find_ignoring_case(data, self.patterns[i].as_str().as_bytes()) {
                let ghost before = match_names(found@);
                found.push((self.patterns[i].clone(), MATCH_CONFIDENCE));
                proof {
                    assert(match_names(found@) =~= before.push(self@[i as int]));
                }
            }
            i += 1;
        }
        found
    }
}

} // verus!
