//! Text as the engines see it: the UTF-8 bytes of a string. Searching,
//! prefix and suffix tests, equality, decimal numbers in both directions and
//! a stable 64-bit fingerprint.

use vstd::prelude::*;
use vstd::slice::slice_subrange;
use vstd::utf8::encode_utf8;
use vstd::utf8::encode_utf8_decode_utf8;
use crate::outside::occurs_at;
use crate::outside::lowercase_of;
use crate::outside::to_lowercase;

verus! {

/// `needle` occurs somewhere in `hay`, both read as UTF-8 bytes.
pub open spec fn contains_text(hay: Seq<char>, needle: Seq<char>) -> bool {
    exists|i: int| occurs_at(encode_utf8(hay), encode_utf8(needle), i)
}

/// `text` begins with `prefix`.
pub open spec fn starts_with_text(text: Seq<char>, prefix: Seq<char>) -> bool {
    let b = encode_utf8(text);
    let p = encode_utf8(prefix);
    p.len() <= b.len() && b.subrange(0, p.len() as int) == p
}

/// `text` ends with `suffix`.
pub open spec fn ends_with_text(text: Seq<char>, suffix: Seq<char>) -> bool {
    let b = encode_utf8(text);
    let p = encode_utf8(suffix);
    p.len() <= b.len() && b.subrange(b.len() - p.len(), b.len() as int) == p
}

/// `needle` occurs in `hay` when case is ignored: both are lower-cased by
/// the Unicode tables first.
pub open spec fn contains_text_ignoring_case(hay: Seq<char>, needle: Seq<char>) -> bool {
    contains_text(lowercase_of(hay), lowercase_of(needle))
}

/// Whether two byte slices hold the same bytes.
pub fn bytes_eq(a: &[u8], b: &[u8]) -> (r: bool)
    ensures
        r == (a@ == b@),
{
    if a.len() != b.len() {
        return false;
    }
    let mut i: usize = 0;
    while i < a.len()
        invariant
            i <= a.len(),
            a.len() == b.len(),
            forall|j: int| 0 <= j < i ==> a@[j] == b@[j],
        decreases a.len() - i,
    {
        if a[i] != b[i] {
            return false;
        }
        i += 1;
    }
    proof {
        assert(a@ =~= b@);
    }
    true
}

/// Whether two strings hold the same text.
pub fn str_eq(a: &str, b: &str) -> (r: bool)
    ensures
        r == (a@ == b@),
{
    let r = bytes_eq(a.as_bytes(), b.as_bytes());
    proof {
        encode_utf8_decode_utf8(a@);
        encode_utf8_decode_utf8(b@);
    }
    r
}

/// Whether `needle` occurs in `hay`.
pub fn contains(hay: &str, needle: &str) -> (r: bool)
    ensures
        r == contains_text(hay@, needle@),
{
    let found = memchr::memmem::find(hay.as_bytes(), needle.as_bytes());
    found.is_some()
}

/// Whether `needle` occurs in `hay` when case is ignored.
pub fn contains_ignoring_case(hay: &str, needle: &str) -> (r: bool)
    ensures
        r == contains_text_ignoring_case(hay@, needle@),
{
    let h = to_lowercase(hay);
    let n = to_lowercase(needle);
    contains(h.as_str(), n.as_str())
}

/// Whether `text` begins with `prefix`.
pub fn starts_with(text: &str, prefix: &str) -> (r: bool)
    ensures
        r == starts_with_text(text@, prefix@),
{
    let b = text.as_bytes();
    let p = prefix.as_bytes();
    if p.len() > b.len() {
        return false;
    }
    bytes_eq(slice_subrange(b, 0, p.len()), p)
}

/// Whether `text` ends with `suffix`.
pub fn ends_with(text: &str, suffix: &str) -> (r: bool)
    ensures
        r == ends_with_text(text@, suffix@),
{
    let b = text.as_bytes();
    let p = suffix.as_bytes();
    if p.len() > b.len() {
        return false;
    }
    bytes_eq(slice_subrange(b, b.len() - p.len(), b.len()), p)
}

/// A copy of a list of strings, text for text.
pub fn clone_texts(v: &Vec<String>) -> (r: Vec<String>)
    ensures
        r.deep_view() == v.deep_view(),
{
    let mut r: Vec<String> = Vec::new();
    let mut i: usize = 0;
    while i < v.len()
        invariant
            i <= v.len(),
            r.len() == i,
            forall|j: int| 0 <= j < i ==> r@[j]@ == v@[j]@,
        decreases v.len() - i,
    {
        r.push(v[i].clone());
        i += 1;
    }
    proof {
        assert(r.deep_view() =~= v.deep_view());
    }
    r
}

/// A copy of a list of name and value pairs, text for text.
pub fn clone_pairs(v: &Vec<(String, String)>) -> (r: Vec<(String, String)>)
    ensures
        r.deep_view() == v.deep_view(),
{
    let mut r: Vec<(String, String)> = Vec::new();
    let mut i: usize = 0;
    while i < v.len()
        invariant
            i <= v.len(),
            r.len() == i,
            forall|j: int| 0 <= j < i ==> r@[j].0@ == v@[j].0@ && r@[j].1@ == v@[j].1@,
        decreases v.len() - i,
    {
        r.push((v[i].0.clone(), v[i].1.clone()));
        i += 1;
    }
    proof {
        assert(r.deep_view() =~= v.deep_view());
    }
    r
}

/// The value stored under the first pair named `name`, if there is one.
pub open spec fn lookup(pairs: Seq<(Seq<char>, Seq<char>)>, name: Seq<char>) -> Option<Seq<char>>
    decreases pairs.len(),
{
    if pairs.len() == 0 {
        None
    } else if pairs[0].0 == name {
        Some(pairs[0].1)
    } else {
        lookup(pairs.drop_first(), name)
    }
}

/// Looks a name up in a list of pairs; the first pair with that name wins.
pub fn find_pair<'a>(pairs: &'a Vec<(String, String)>, name: &str) -> (r: Option<&'a String>)
    ensures
        r.deep_view() == lookup(pairs.deep_view(), name@),
{
    let mut i: usize = 0;
    proof {
        assert(pairs.deep_view().subrange(0, pairs.len() as int) =~= pairs.deep_view());
    }
    while i < pairs.len()
        invariant
            i <= pairs.len(),
            lookup(pairs.deep_view(), name@) == lookup(
                pairs.deep_view().subrange(i as int, pairs.len() as int),
                name@,
            ),
        decreases pairs.len() - i,
    {
        let ghost rest = pairs.deep_view().subrange(i as int, pairs.len() as int);
        proof {
            assert(rest[0] == pairs.deep_view()[i as int]);
            assert(rest.drop_first() =~= pairs.deep_view().subrange(
                i as int + 1,
                pairs.len() as int,
            ));
        }
        if str_eq(pairs[i].0.as_str(), name) {
            return Some(&pairs[i].1);
        }
        i += 1;
    }
    proof {
        assert(pairs.deep_view().subrange(pairs.len() as int, pairs.len() as int).len() == 0);
    }
    None
}

/// The 64-bit FNV-1a offset basis.
pub const FNV_OFFSET: u64 = 0xcbf29ce484222325;

/// The 64-bit FNV-1a prime.
pub const FNV_PRIME: u64 = 0x100000001b3;

/// FNV-1a continued from state `h` over `bytes`.
pub open spec fn fnv1a_from(h: u64, bytes: Seq<u8>) -> u64
    decreases bytes.len(),
{
    if bytes.len() == 0 {
        h
    } else {
        let prev = fnv1a_from(h, bytes.drop_last());
        (((prev ^ (bytes.last() as u64)) as int * FNV_PRIME as int) % 0x1_0000_0000_0000_0000) as u64
    }
}

/// The FNV-1a hash of `bytes`.
pub open spec fn fnv1a(bytes: Seq<u8>) -> u64 {
    fnv1a_from(FNV_OFFSET, bytes)
}

/// Continues an FNV-1a hash over more bytes.
pub fn hash_more(h: u64, bytes: &[u8]) -> (r: u64)
    ensures
        r == fnv1a_from(h, bytes@),
{
    let mut acc: u64 = h;
    let mut i: usize = 0;
    while i < bytes.len()
        invariant
            i <= bytes.len(),
            acc == fnv1a_from(h, bytes@.subrange(0, i as int)),
        decreases bytes.len() - i,
    {
        proof {
            assert(bytes@.subrange(0, i as int + 1).drop_last() =~= bytes@.subrange(0, i as int));
        }
        acc = (acc ^ (bytes[i] as u64)).wrapping_mul(FNV_PRIME);
        i += 1;
    }
    proof {
        assert(bytes@.subrange(0, bytes@.len() as int) =~= bytes@);
    }
    acc
}

/// The FNV-1a hash of a byte slice.
pub fn hash_bytes(bytes: &[u8]) -> (r: u64)
    ensures
        r == fnv1a(bytes@),
{
    hash_more(FNV_OFFSET, bytes)
}

/// The character that writes the digit `d`.
pub open spec fn digit_char(d: nat) -> char {
    if d == 0 {
        '0'
    } else if d == 1 {
        '1'
    } else if d == 2 {
        '2'
    } else if d == 3 {
        '3'
    } else if d == 4 {
        '4'
    } else if d == 5 {
        '5'
    } else if d == 6 {
        '6'
    } else if d == 7 {
        '7'
    } else if d == 8 {
        '8'
    } else {
        '9'
    }
}

/// The decimal digits of `n`, most significant first, without leading zeros.
pub open spec fn decimal_text(n: nat) -> Seq<char>
    decreases n,
{
    if n < 10 {
        seq![digit_char(n)]
    } else {
        decimal_text(n / 10).push(digit_char(n % 10))
    }
}

/// The one-character string of a digit.
pub fn digit_str(d: u64) -> (r: &'static str)
    requires
        d < 10,
    ensures
        r@ == seq![digit_char(d as nat)],
{
    proof {
        reveal_strlit("0");
        reveal_strlit("1");
        reveal_strlit("2");
        reveal_strlit("3");
        reveal_strlit("4");
        reveal_strlit("5");
        reveal_strlit("6");
        reveal_strlit("7");
        reveal_strlit("8");
        reveal_strlit("9");
    }
    let r = if d == 0 {
        "0"
    } else if d == 1 {
        "1"
    } else if d == 2 {
        "2"
    } else if d == 3 {
        "3"
    } else if d == 4 {
        "4"
    } else if d == 5 {
        "5"
    } else if d == 6 {
        "6"
    } else if d == 7 {
        "7"
    } else if d == 8 {
        "8"
    } else {
        "9"
    };
    proof {
        assert(r@ =~= seq![digit_char(d as nat)]);
    }
    r
}

/// Writes `n` in decimal.
pub fn u64_to_text(n: u64) -> (r: String)
    ensures
        r@ == decimal_text(n as nat),
    decreases n,
{
    if n < 10 {
        String::from_str(digit_str(n))
    } else {
        let mut s = u64_to_text(n / 10);
        s.append(digit_str(n % 10));
        proof {
            assert(s@ =~= decimal_text(n as nat));
        }
        s
    }
}

/// Whether a byte is an ASCII digit.
pub open spec fn is_digit(b: u8) -> bool {
    48 <= b <= 57
}

/// Whether every byte is an ASCII digit.
pub open spec fn all_digits(s: Seq<u8>) -> bool {
    forall|i: int| 0 <= i < s.len() ==> is_digit(#[trigger] s[i])
}

/// The number that a run of ASCII digits writes.
pub open spec fn digits_value(s: Seq<u8>) -> nat
    decreases s.len(),
{
    if s.len() == 0 {
        0
    } else {
        digits_value(s.drop_last()) * 10 + (s.last() - 48) as nat
    }
}

/// The digit at place `i` of a fraction, zero past its end.
pub open spec fn fraction_digit(f: Seq<u8>, i: int) -> nat {
    if 0 <= i < f.len() {
        (f[i] - 48) as nat
    } else {
        0
    }
}

/// The first three places of a fraction, in thousandths; further places are
/// cut off.
pub open spec fn fraction_milli(f: Seq<u8>) -> nat {
    fraction_digit(f, 0) * 100 + fraction_digit(f, 1) * 10 + fraction_digit(f, 2)
}

/// The offset of the first `.` in `s`, or the length of `s` without one.
pub open spec fn first_dot(s: Seq<u8>) -> int
    decreases s.len(),
{
    if s.len() == 0 {
        0
    } else if s[0] == 46 {
        0
    } else {
        1 + first_dot(s.drop_first())
    }
}

/// The largest magnitude, in thousandths, that a decimal may have.
pub const DECIMAL_LIMIT: u64 = 1_000_000_000_000_000;

/// An unsigned decimal in thousandths: one or more digits, then optionally a
/// dot and any number of digits.
pub open spec fn unsigned_milli(body: Seq<u8>) -> Option<nat> {
    let dot = first_dot(body);
    let whole = body.subrange(0, dot);
    let frac = if dot < body.len() {
        body.subrange(dot + 1, body.len() as int)
    } else {
        Seq::<u8>::empty()
    };
    if whole.len() >= 1 && all_digits(whole) && all_digits(frac) {
        Some(digits_value(whole) * 1000 + fraction_milli(frac))
    } else {
        None
    }
}

/// A decimal in thousandths: an optional sign, then an unsigned decimal of a
/// magnitude up to `DECIMAL_LIMIT`. Anything else is no number.
pub open spec fn decimal_milli(s: Seq<u8>) -> Option<int> {
    let signed = s.len() > 0 && (s[0] == 45 || s[0] == 43);
    let negative = s.len() > 0 && s[0] == 45;
    let body = if signed {
        s.subrange(1, s.len() as int)
    } else {
        s
    };
    match unsigned_milli(body) {
        Some(v) => if v <= DECIMAL_LIMIT {
            Some(
                if negative {
                    -(v as int)
                } else {
                    v as int
                },
            )
        } else {
            None
        },
        None => None,
    }
}

/// A decimal text read as thousandths.
pub open spec fn text_milli(s: Seq<char>) -> Option<int> {
    decimal_milli(encode_utf8(s))
}

proof fn lemma_first_dot(s: Seq<u8>, i: int)
    requires
        0 <= i <= s.len(),
        forall|j: int| 0 <= j < i ==> s[j] != 46,
        i == s.len() || s[i] == 46,
    ensures
        first_dot(s) == i,
    decreases i,
{
    if i == 0 {
    } else {
        let t = s.drop_first();
        assert forall|j: int| 0 <= j < i - 1 implies t[j] != 46 by {
            assert(t[j] == s[j + 1]);
        }
        lemma_first_dot(t, i - 1);
    }
}

/// Reads a run of digits; `None` when it holds another byte or writes a
/// number above `DECIMAL_LIMIT`.
fn read_digits(s: &[u8]) -> (r: Option<u64>)
    ensures
        r is Some <==> all_digits(s@) && digits_value(s@) <= DECIMAL_LIMIT,
        r is Some ==> r->Some_0 == digits_value(s@),
{
    let mut acc: u64 = 0;
    let mut over = false;
    let mut i: usize = 0;
    while i < s.len()
        invariant
            i <= s.len(),
            all_digits(s@.subrange(0, i as int)),
            !over ==> acc == digits_value(s@.subrange(0, i as int)) && acc <= DECIMAL_LIMIT,
            over ==> digits_value(s@.subrange(0, i as int)) > DECIMAL_LIMIT,
        decreases s.len() - i,
    {
        let b = s[i];
        let ghost before = s@.subrange(0, i as int);
        let ghost after = s@.subrange(0, i as int + 1);
        proof {
            assert(after.drop_last() =~= before);
            assert(after.last() == b);
        }
        if b < 48 || b > 57 {
            proof {
                assert(!is_digit(s@[i as int]));
            }
            return None;
        }
        proof {
            assert forall|j: int| 0 <= j < after.len() implies is_digit(#[trigger] after[j]) by {
                if j < i {
                    assert(after[j] == before[j]);
                }
            }
        }
        if !over {
            let next = acc * 10 + (b - 48) as u64;
            if next > DECIMAL_LIMIT {
                over = true;
            } else {
                acc = next;
            }
        }
        i += 1;
    }
    proof {
        assert(s@.subrange(0, s@.len() as int) =~= s@);
    }
    if over {
        None
    } else {
        Some(acc)
    }
}

/// Reads an unsigned decimal in thousandths.
#[verifier::loop_isolation(false)]
fn read_unsigned(body: &[u8]) -> (r: Option<u64>)
    ensures
        r is Some <==> unsigned_milli(body@) is Some && unsigned_milli(body@)->Some_0
            <= DECIMAL_LIMIT,
        r is Some ==> r->Some_0 == unsigned_milli(body@)->Some_0,
{
    let mut dot: usize = 0;
    while dot < body.len() && body[dot] != 46
        invariant
            dot <= body.len(),
            forall|j: int| 0 <= j < dot ==> body@[j] != 46,
        decreases body.len() - dot,
    {
        dot += 1;
    }
    proof {
        lemma_first_dot(body@, dot as int);
    }
    if dot == 0 {
        return None;
    }
    let whole = read_digits(slice_subrange(body, 0, dot));
    let frac_slice = if dot < body.len() {
        slice_subrange(body, dot + 1, body.len())
    } else {
        slice_subrange(body, 0, 0)
    };
    let ghost frac = if dot < body@.len() {
        body@.subrange(dot as int + 1, body@.len() as int)
    } else {
        Seq::<u8>::empty()
    };
    proof {
        assert(body@.subrange(0, 0) =~= Seq::<u8>::empty());
        assert(frac_slice@ == frac);
    }
    let mut k: usize = 0;
    while k < frac_slice.len()
        invariant
            k <= frac_slice.len(),
            frac_slice@ == frac,
            all_digits(frac_slice@.subrange(0, k as int)),
        decreases frac_slice.len() - k,
    {
        let b = frac_slice[k];
        if b < 48 || b > 57 {
            proof {
                assert(!is_digit(frac_slice@[k as int]));
            }
            return None;
        }
        proof {
            let after = frac_slice@.subrange(0, k as int + 1);
            let before = frac_slice@.subrange(0, k as int);
            assert forall|j: int| 0 <= j < after.len() implies is_digit(#[trigger] after[j]) by {
                if j < k {
                    assert(after[j] == before[j]);
                }
            }
        }
        k += 1;
    }
    proof {
        assert(frac_slice@.subrange(0, frac_slice@.len() as int) =~= frac_slice@);
    }
    let d0: u64 = if frac_slice.len() > 0 {
        (frac_slice[0] - 48) as u64
    } else {
        0
    };
    let d1: u64 = if frac_slice.len() > 1 {
        (frac_slice[1] - 48) as u64
    } else {
        0
    };
    let d2: u64 = if frac_slice.len() > 2 {
        (frac_slice[2] - 48) as u64
    } else {
        0
    };
    match whole {
        None => None,
        Some(w) => {
            let total = w * 1000 + d0 * 100 + d1 * 10 + d2;
            if total > DECIMAL_LIMIT {
                None
            } else {
                Some(total)
            }
        },
    }
}

/// Reads a decimal number in thousandths from its bytes; `None` when the
/// bytes are no decimal or its magnitude is above `DECIMAL_LIMIT`.
pub fn parse_milli_bytes(s: &[u8]) -> (r: Option<i64>)
    ensures
        r is Some <==> decimal_milli(s@) is Some,
        r is Some ==> r->Some_0 == decimal_milli(s@)->Some_0,
{
    let signed = s.len() > 0 && (s[0] == 45 || s[0] == 43);
    let negative = s.len() > 0 && s[0] == 45;
    let body = if signed {
        slice_subrange(s, 1, s.len())
    } else {
        s
    };
    match read_unsigned(body) {
        None => None,
        Some(v) => {
            if negative {
                Some(-(v as i64))
            } else {
                Some(v as i64)
            }
        },
    }
}

/// Reads a decimal number in thousandths from a string.
pub fn parse_milli(s: &str) -> (r: Option<i64>)
    ensures
        r is Some <==> text_milli(s@) is Some,
        r is Some ==> r->Some_0 == text_milli(s@)->Some_0,
{
    parse_milli_bytes(s.as_bytes())
}

/// Lexicographic order on bytes: `a` comes strictly before `b`.
pub open spec fn bytes_lt(a: Seq<u8>, b: Seq<u8>) -> bool
    decreases a.len(),
{
    if b.len() == 0 {
        false
    } else if a.len() == 0 {
        true
    } else if a[0] != b[0] {
        a[0] < b[0]
    } else {
        bytes_lt(a.drop_first(), b.drop_first())
    }
}

/// Lexicographic order on texts, by their UTF-8 bytes.
pub open spec fn text_lt(a: Seq<char>, b: Seq<char>) -> bool {
    bytes_lt(encode_utf8(a), encode_utf8(b))
}

/// The order is irreflexive.
pub proof fn lemma_bytes_lt_irreflexive(a: Seq<u8>)
    ensures
        !bytes_lt(a, a),
    decreases a.len(),
{
    if a.len() > 0 {
        lemma_bytes_lt_irreflexive(a.drop_first());
    }
}

/// The order is transitive.
pub proof fn lemma_bytes_lt_transitive(a: Seq<u8>, b: Seq<u8>, c: Seq<u8>)
    requires
        bytes_lt(a, b),
        bytes_lt(b, c),
    ensures
        bytes_lt(a, c),
    decreases a.len(),
{
    if a.len() > 0 && a[0] == b[0] && b[0] == c[0] {
        lemma_bytes_lt_transitive(a.drop_first(), b.drop_first(), c.drop_first());
    }
}

/// The order is total: of two different byte strings one comes first.
pub proof fn lemma_bytes_lt_total(a: Seq<u8>, b: Seq<u8>)
    ensures
        bytes_lt(a, b) || bytes_lt(b, a) || a == b,
    decreases a.len(),
{
    if a.len() > 0 && b.len() > 0 && a[0] == b[0] {
        lemma_bytes_lt_total(a.drop_first(), b.drop_first());
        if a.drop_first() == b.drop_first() {
            assert(a =~= seq![a[0]] + a.drop_first());
            assert(b =~= seq![b[0]] + b.drop_first());
        }
    } else if a.len() == 0 && b.len() == 0 {
        assert(a =~= b);
    }
}

/// Of two different texts one comes first.
pub proof fn lemma_text_lt_total(a: Seq<char>, b: Seq<char>)
    ensures
        text_lt(a, b) || text_lt(b, a) || a == b,
{
    lemma_bytes_lt_total(encode_utf8(a), encode_utf8(b));
    encode_utf8_decode_utf8(a);
    encode_utf8_decode_utf8(b);
}

proof fn lemma_bytes_lt_suffix(a: Seq<u8>, b: Seq<u8>, i: int)
    requires
        0 <= i <= a.len(),
        i <= b.len(),
        a.subrange(0, i) == b.subrange(0, i),
    ensures
        bytes_lt(a, b) == bytes_lt(a.subrange(i, a.len() as int), b.subrange(i, b.len() as int)),
    decreases i,
{
    if i == 0 {
        assert(a.subrange(0, a.len() as int) =~= a);
        assert(b.subrange(0, b.len() as int) =~= b);
    } else {
        assert(a[0] == a.subrange(0, i)[0]);
        assert(b[0] == b.subrange(0, i)[0]);
        let a1 = a.drop_first();
        let b1 = b.drop_first();
        assert(a1.subrange(0, i - 1) =~= a.subrange(0, i).drop_first());
        assert(b1.subrange(0, i - 1) =~= b.subrange(0, i).drop_first());
        lemma_bytes_lt_suffix(a1, b1, i - 1);
        assert(a1.subrange(i - 1, a1.len() as int) =~= a.subrange(i, a.len() as int));
        assert(b1.subrange(i - 1, b1.len() as int) =~= b.subrange(i, b.len() as int));
    }
}

/// Whether `a` comes strictly before `b` in lexicographic order.
pub fn str_lt(a: &str, b: &str) -> (r: bool)
    ensures
        r == text_lt(a@, b@),
{
    let x = a.as_bytes();
    let y = b.as_bytes();
    let mut i: usize = 0;
    proof {
        assert(x@.subrange(0, 0) =~= y@.subrange(0, 0));
    }
    while i < x.len() && i < y.len()
        invariant
            i <= x.len(),
            i <= y.len(),
            x@ == encode_utf8(a@),
            y@ == encode_utf8(b@),
            x@.subrange(0, i as int) == y@.subrange(0, i as int),
        decreases x.len() - i,
    {
        proof {
            lemma_bytes_lt_suffix(x@, y@, i as int);
            assert(x@.subrange(i as int, x@.len() as int)[0] == x@[i as int]);
            assert(y@.subrange(i as int, y@.len() as int)[0] == y@[i as int]);
        }
        if x[i] != y[i] {
            return x[i] < y[i];
        }
        proof {
            assert(x@.subrange(0, i as int + 1) =~= x@.subrange(0, i as int).push(x@[i as int]));
            assert(y@.subrange(0, i as int + 1) =~= y@.subrange(0, i as int).push(y@[i as int]));
        }
        i += 1;
    }
    proof {
        lemma_bytes_lt_suffix(x@, y@, i as int);
    }
    i < y.len()
}

} // verus!
