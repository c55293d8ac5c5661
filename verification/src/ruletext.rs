//! Detection rules as text, one rule to a line:
//! `name: pattern (threshold: n)`. A line that does not read as a rule
//! holds none.

use vstd::prelude::*;
use crate::outside::trim_text;
use crate::outside::trimmed_of;
use crate::text::decimal_text;
use crate::text::str_eq;

verus! {

/// What stands before the threshold of a rule.
pub open spec fn threshold_mark() -> Seq<char> {
    "(threshold: "@
}

/// A rule as a line of text.
pub open spec fn rule_text(name: Seq<char>, pattern: Seq<char>, threshold: u32) -> Seq<char> {
    name + ": "@ + pattern + " "@ + threshold_mark() + decimal_text(threshold as nat) + ")"@
}

/// The position of the first `c` in `s`; the length of `s` where there is
/// none.
pub open spec fn first_index(s: Seq<char>, c: char) -> int
    decreases s.len(),
{
    if s.len() == 0 {
        0
    } else if s[0] == c {
        0
    } else {
        1 + first_index(s.drop_first(), c)
    }
}

proof fn lemma_first_index(s: Seq<char>, c: char, i: int)
    requires
        0 <= i <= s.len(),
        forall|j: int| 0 <= j < i ==> s[j] != c,
        i == s.len() || s[i] == c,
    ensures
        first_index(s, c) == i,
    decreases i,
{
    if i > 0 {
        let t = s.drop_first();
        assert forall|j: int| 0 <= j < i - 1 implies t[j] != c by {
            assert(t[j] == s[j + 1]);
        }
        lemma_first_index(t, c, i - 1);
    }
}

/// Finds the first `c` in a text.
pub fn find_char(s: &str, c: char) -> (i: usize)
    ensures
        i as int == first_index(s@, c),
        i <= s@.len(),
{
    let n = s.unicode_len();
    let mut i: usize = 0;
    while i < n
        invariant
            i <= n,
            n == s@.len(),
            forall|j: int| 0 <= j < i ==> s@[j] != c,
        decreases n - i,
    {
        if s.get_char(i) == c {
            proof {
                lemma_first_index(s@, c, i as int);
            }
            return i;
        }
        i += 1;
    }
    proof {
        lemma_first_index(s@, c, i as int);
    }
    i
}

/// `mark` stands in `s` at position `i`.
pub open spec fn stands_at(s: Seq<char>, mark: Seq<char>, i: int) -> bool {
    &&& 0 <= i
    &&& i + mark.len() <= s.len()
    &&& s.subrange(i, i + mark.len()) == mark
}

/// The last position up to `i` at which `mark` stands in `s`; a negative
/// number where there is none.
pub open spec fn last_upto(s: Seq<char>, mark: Seq<char>, i: int) -> int
    decreases i + 1,
{
    if i < 0 {
        -1
    } else if stands_at(s, mark, i) {
        i
    } else {
        last_upto(s, mark, i - 1)
    }
}

/// The last position at which `mark` stands in `s`; a negative number where
/// it stands nowhere.
pub open spec fn last_index(s: Seq<char>, mark: Seq<char>) -> int {
    last_upto(s, mark, s.len() - mark.len())
}

/// Finds the last place at which a mark stands in a text.
pub fn find_last(s: &str, mark: &str) -> (r: Option<usize>)
    requires
        mark@.len() >= 1,
    ensures
        r is Some <==> last_index(s@, mark@) >= 0,
        r is Some ==> r->Some_0 as int == last_index(s@, mark@) && stands_at(
            s@,
            mark@,
            r->Some_0 as int,
        ),
{
    let n = s.unicode_len();
    let k = mark.unicode_len();
    if k > n {
        return None;
    }
    let mut i: usize = n - k + 1;
    while i > 0
        invariant
            n == s@.len(),
            k == mark@.len(),
            1 <= k <= n,
            i <= n - k + 1,
            last_index(s@, mark@) == last_upto(s@, mark@, i - 1),
        decreases i,
    {
        i -= 1;
        if str_eq(s.substring_char(i, i + k), mark) {
            return Some(i);
        }
    }
    None
}

/// A text without the characters `c` at its end.
pub open spec fn stripped(s: Seq<char>, c: char) -> Seq<char>
    decreases s.len(),
{
    if s.len() > 0 && s.last() == c {
        stripped(s.drop_last(), c)
    } else {
        s
    }
}

/// Takes the characters `c` from the end of a text.
pub fn strip_end(s: &str, c: char) -> (r: &str)
    ensures
        r@ == stripped(s@, c),
{
    let mut n = s.unicode_len();
    proof {
        assert(s@.subrange(0, n as int) =~= s@);
    }
    while n > 0 && s.get_char(n - 1) == c
        invariant
            n <= s@.len(),
            stripped(s@, c) == stripped(s@.subrange(0, n as int), c),
        decreases n,
    {
        proof {
            assert(s@.subrange(0, n as int).drop_last() =~= s@.subrange(0, n as int - 1));
        }
        n -= 1;
    }
    s.substring_char(0, n)
}

/// The number that a decimal digit stands for.
pub open spec fn digit_of(c: char) -> Option<u64> {
    if c == '0' {
        Some(0)
    } else if c == '1' {
        Some(1)
    } else if c == '2' {
        Some(2)
    } else if c == '3' {
        Some(3)
    } else if c == '4' {
        Some(4)
    } else if c == '5' {
        Some(5)
    } else if c == '6' {
        Some(6)
    } else if c == '7' {
        Some(7)
    } else if c == '8' {
        Some(8)
    } else if c == '9' {
        Some(9)
    } else {
        None
    }
}

/// Reads a decimal digit.
pub fn read_digit(c: char) -> (r: Option<u64>)
    ensures
        r == digit_of(c),
{
    match c {
        '0' => Some(0),
        '1' => Some(1),
        '2' => Some(2),
        '3' => Some(3),
        '4' => Some(4),
        '5' => Some(5),
        '6' => Some(6),
        '7' => Some(7),
        '8' => Some(8),
        '9' => Some(9),
        _ => None,
    }
}

/// Whether a text holds decimal digits only.
pub open spec fn all_decimal(s: Seq<char>) -> bool {
    forall|i: int| 0 <= i < s.len() ==> digit_of(#[trigger] s[i]) is Some
}

/// The number that a text of decimal digits stands for.
pub open spec fn decimal_value(s: Seq<char>) -> nat
    decreases s.len(),
{
    if s.len() == 0 {
        0
    } else {
        decimal_value(s.drop_last()) * 10 + match digit_of(s.last()) {
            Some(d) => d as nat,
            None => 0,
        }
    }
}

proof fn lemma_value_grows(s: Seq<char>, k: int)
    requires
        0 <= k <= s.len(),
    ensures
        decimal_value(s.subrange(0, k)) <= decimal_value(s),
    decreases s.len() - k,
{
    if k < s.len() {
        assert(s.drop_last().subrange(0, k) =~= s.subrange(0, k));
        lemma_value_grows(s.drop_last(), k);
    } else {
        assert(s.subrange(0, k) =~= s);
    }
}

/// The number that a text stands for: a plus sign or none, then decimal
/// digits, at least one, that stay within 32 bits. Any other text stands
/// for no number.
pub open spec fn unsigned_text(s: Seq<char>) -> Option<u32> {
    let body = if s.len() > 0 && s[0] == '+' {
        s.drop_first()
    } else {
        s
    };
    if body.len() > 0 && all_decimal(body) && decimal_value(body) <= u32::MAX {
        Some(decimal_value(body) as u32)
    } else {
        None
    }
}

/// Reads a number of 32 bits.
pub fn parse_unsigned(s: &str) -> (r: Option<u32>)
    ensures
        r == unsigned_text(s@),
{
    let n = s.unicode_len();
    let start: usize = if n > 0 && s.get_char(0) == '+' {
        1
    } else {
        0
    };
    let ghost body = s@.subrange(start as int, n as int);
    proof {
        if start == 1 {
            assert(body =~= s@.drop_first());
        } else {
            assert(body =~= s@);
        }
    }
    if start == n {
        return None;
    }
    let mut value: u64 = 0;
    let mut i: usize = start;
    proof {
        assert(body.subrange(0, 0) =~= Seq::<char>::empty());
    }
    while i < n
        invariant
            start <= i <= n,
            n == s@.len(),
            body == s@.subrange(start as int, n as int),
            body == (if s@.len() > 0 && s@[0] == '+' {
                s@.drop_first()
            } else {
                s@
            }),
            all_decimal(body.subrange(0, i - start)),
            value == decimal_value(body.subrange(0, i - start)),
            value <= u32::MAX,
        decreases n - i,
    {
        let c = s.get_char(i);
        let ghost head = body.subrange(0, i - start);
        let ghost next = body.subrange(0, i - start + 1);
        proof {
            assert(body[i - start] == c);
            assert(next.drop_last() =~= head);
            assert(next.last() == c);
        }
        match read_digit(c) {
            None => {
                proof {
                    assert(digit_of(body[i - start]) is None);
                }
                return None;
            },
            Some(d) => {
                value = value * 10 + d;
                proof {
                    assert forall|j: int| 0 <= j < next.len() implies digit_of(
                        #[trigger] next[j],
                    ) is Some by {
                        if j < head.len() {
                            assert(next[j] == head[j]);
                        }
                    }
                    assert(value == decimal_value(next));
                }
                if value > 4_294_967_295 {
                    proof {
                        lemma_value_grows(body, i - start + 1);
                    }
                    return None;
                }
            },
        }
        i += 1;
    }
    proof {
        assert(body.subrange(0, n - start) =~= body);
    }
    Some(value as u32)
}

/// A rule read from a line of text.
pub struct ParsedRule {
    pub name: String,
    pub pattern: String,
    pub threshold: u32,
}

/// What a `ParsedRule` holds, as mathematical values.
pub struct ParsedRuleView {
    pub name: Seq<char>,
    pub pattern: Seq<char>,
    pub threshold: u32,
}

impl DeepView for ParsedRule {
    type V = ParsedRuleView;

    open spec fn deep_view(&self) -> ParsedRuleView {
        ParsedRuleView { name: self.name@, pattern: self.pattern@, threshold: self.threshold }
    }
}

impl View for ParsedRule {
    type V = ParsedRuleView;

    open spec fn view(&self) -> ParsedRuleView {
        self.deep_view()
    }
}

/// The rule that a line holds. The name stands before the first colon;
/// the threshold stands behind the last mark of a threshold, with closing
/// brackets after it; the pattern stands between the two. Name and pattern
/// are taken without the white space around them. A line without a colon,
/// without the mark, or with a threshold that is no number holds no rule.
pub open spec fn parsed_rule(line: Seq<char>) -> Option<ParsedRuleView> {
    let colon = first_index(line, ':');
    if colon >= line.len() {
        None
    } else {
        let rest = line.subrange(colon + 1, line.len() as int);
        let mark = last_index(rest, threshold_mark());
        if mark < 0 {
            None
        } else {
            let number = rest.subrange(mark + threshold_mark().len(), rest.len() as int);
            match unsigned_text(stripped(number, ')')) {
                Some(threshold) => Some(
                    ParsedRuleView {
                        name: trimmed_of(line.subrange(0, colon)),
                        pattern: trimmed_of(rest.subrange(0, mark)),
                        threshold,
                    },
                ),
                None => None,
            }
        }
    }
}

/// Reads the rule that a line holds.
pub fn parse_rule(line: &str) -> (r: Option<ParsedRule>)
    ensures
        r.deep_view() == parsed_rule(line@),
{
    proof {
        reveal_strlit("(threshold: ");
    }
    let n = line.unicode_len();
    let colon = find_char(line, ':');
    if colon >= n {
        return None;
    }
    let rest = line.substring_char(colon + 1, n);
    let mark = match find_last(rest, "(threshold: ") {
        None => {
            return None;
        },
        Some(mark) => mark,
    };
    let m = rest.unicode_len();
    let number = rest.substring_char(mark + 12, m);
    match parse_unsigned(strip_end(number, ')')) {
        None => None,
        Some(threshold) => {
            let name = trim_text(line.substring_char(0, colon));
            let pattern = trim_text(rest.substring_char(0, mark));
            Some(
                ParsedRule {
                    name: String::from_str(name),
                    pattern: String::from_str(pattern),
                    threshold,
                },
            )
        },
    }
}

} // verus!
