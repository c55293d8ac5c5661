//! Everything this library takes on trust from code it does not verify:
//! `memchr`'s substring search, `regex`'s compiler and matcher, `uuid`'s
//! random identifiers, a `dashmap` table of counters, and from the
//! standard library the Unicode case mappings and character classes, the
//! trimming of white space and the splitting of a text into lines.

use vstd::prelude::*;

verus! {

/// `needle` stands in `hay` at offset `i`.
pub open spec fn occurs_at(hay: Seq<u8>, needle: Seq<u8>, i: int) -> bool {
    &&& 0 <= i
    &&& i + needle.len() <= hay.len()
    &&& hay.subrange(i, i + needle.len()) == needle
}

/// `memchr::memmem::find`: the offset of the first occurrence of `needle` in
/// `haystack`, or `None` when it occurs nowhere. Taken on trust.
pub assume_specification[ memchr::memmem::find ](haystack: &[u8], needle: &[u8]) -> (r: Option<
    usize,
>)
    ensures
        match r {
            Some(i) => occurs_at(haystack@, needle@, i as int) && forall|j: int|
                0 <= j < i ==> !occurs_at(haystack@, needle@, j),
            None => forall|j: int| !occurs_at(haystack@, needle@, j),
        },
;

#[verifier::external_type_specification]
#[verifier::external_body]
pub struct ExRegex(regex::Regex);

#[verifier::external_type_specification]
#[verifier::external_body]
pub struct ExRegexError(regex::Error);

/// Whether `regex` accepts the pattern text and builds a matcher from it.
pub uninterp spec fn regex_compiles(pattern: Seq<char>) -> bool;

/// The pattern text a compiled matcher was built from, as its `as_str`
/// hands it back.
pub uninterp spec fn regex_source(re: regex::Regex) -> Seq<char>;

/// Whether the pattern, read by `regex`, matches somewhere in the haystack.
pub uninterp spec fn regex_matches(pattern: Seq<char>, haystack: Seq<char>) -> bool;

/// `regex::Regex::new`: compiles a pattern or reports why it cannot. The
/// matcher that comes back remembers the text it was compiled from. Taken on
/// trust.
pub assume_specification[ regex::Regex::new ](re: &str) -> (r: Result<regex::Regex, regex::Error>)
    ensures
        r is Ok <==> regex_compiles(re@),
        r is Ok ==> regex_source(r->Ok_0) == re@,
;

/// `regex::Regex::is_match`: whether the compiled pattern matches anywhere
/// in the haystack. Taken on trust.
pub assume_specification[ regex::Regex::is_match ](re: &regex::Regex, haystack: &str) -> (b: bool)
    ensures
        b == regex_matches(regex_source(*re), haystack@),
;

/// `uuid::Uuid::new_v4` rendered in its hyphenated form: 36 characters drawn
/// from the operating system's random source. Nothing else is known of it.
#[verifier::external_body]
pub(crate) fn fresh_uuid() -> (id: String)
    ensures
        id@.len() == 36,
{
    uuid::Uuid::new_v4().to_string()
}

#[verifier::external_type_specification]
#[verifier::external_body]
#[verifier::reject_recursive_types(K)]
#[verifier::reject_recursive_types(V)]
#[verifier::reject_recursive_types(S)]
pub struct ExDashMap<K, V, S>(dashmap::DashMap<K, V, S>);

/// What a table of counters holds: the count stored under each key.
pub uninterp spec fn counter_entries(m: dashmap::DashMap<String, u64>) -> Map<Seq<char>, u64>;

/// `dashmap::DashMap::new`: an empty table.
#[verifier::external_body]
pub(crate) fn counters_new() -> (table: dashmap::DashMap<String, u64>)
    ensures
        counter_entries(table) == (Map::<Seq<char>, u64>::empty()),
{
    dashmap::DashMap::new()
}

/// `dashmap::DashMap::get`, copying the count out: the value stored under
/// `key`, if any.
#[verifier::external_body]
pub(crate) fn counters_get(m: &dashmap::DashMap<String, u64>, key: &str) -> (r: Option<u64>)
    ensures
        r == (if counter_entries(*m).contains_key(key@) {
            Some(counter_entries(*m)[key@])
        } else {
            None
        }),
{
    m.get(key).map(|entry| *entry.value())
}

/// `dashmap::DashMap::insert`: stores `value` under `key`, replacing what was
/// there, and leaves every other key as it was.
#[verifier::external_body]
pub(crate) fn counters_insert(m: &mut dashmap::DashMap<String, u64>, key: String, value: u64)
    ensures
        counter_entries(*final(m)) == counter_entries(*old(m)).insert(key@, value),
{
    m.insert(key, value);
}

/// The Unicode lower-case form of a text.
pub uninterp spec fn lowercase_of(s: Seq<char>) -> Seq<char>;

/// `str::to_lowercase`: the text with every character mapped to lower case
/// by the Unicode tables.
#[verifier::external_body]
pub(crate) fn to_lowercase(s: &str) -> (r: String)
    ensures
        r@ == lowercase_of(s@),
{
    s.to_lowercase()
}

/// Whether Unicode counts a character as a letter or a number.
pub uninterp spec fn alphanumeric(c: char) -> bool;

/// `char::is_alphanumeric`: whether the character is a letter or a number
/// by the Unicode tables.
#[verifier::external_body]
pub(crate) fn is_alphanumeric(c: char) -> (r: bool)
    ensures
        r == alphanumeric(c),
{
    c.is_alphanumeric()
}

/// Whether Unicode counts a character as an upper-case letter.
pub uninterp spec fn uppercase(c: char) -> bool;

/// `char::is_uppercase`: whether the character is an upper-case letter by
/// the Unicode tables.
#[verifier::external_body]
pub(crate) fn is_uppercase(c: char) -> (r: bool)
    ensures
        r == uppercase(c),
{
    c.is_uppercase()
}

/// Whether Unicode counts a character as a lower-case letter.
pub uninterp spec fn lowercase(c: char) -> bool;

/// `char::is_lowercase`: whether the character is a lower-case letter by
/// the Unicode tables.
#[verifier::external_body]
pub(crate) fn is_lowercase(c: char) -> (r: bool)
    ensures
        r == lowercase(c),
{
    c.is_lowercase()
}

/// Whether Unicode counts a character as a number.
pub uninterp spec fn numeric(c: char) -> bool;

/// `char::is_numeric`: whether the character is a number by the Unicode
/// tables.
#[verifier::external_body]
pub(crate) fn is_numeric(c: char) -> (r: bool)
    ensures
        r == numeric(c),
{
    c.is_numeric()
}

/// The Unicode upper-case form of a text.
pub uninterp spec fn uppercase_of(s: Seq<char>) -> Seq<char>;

/// `str::to_uppercase`: the text with every character mapped to upper case
/// by the Unicode tables.
#[verifier::external_body]
pub(crate) fn to_uppercase(s: &str) -> (r: String)
    ensures
        r@ == uppercase_of(s@),
{
    s.to_uppercase()
}

/// A text without the white space at its ends, as Unicode counts white
/// space.
pub uninterp spec fn trimmed_of(s: Seq<char>) -> Seq<char>;

/// `str::trim`: the text without leading and trailing white space.
#[verifier::external_body]
pub(crate) fn trim_text(s: &str) -> (r: &str)
    ensures
        r@ == trimmed_of(s@),
{
    s.trim()
}

/// The lines of a text, without their line endings.
pub uninterp spec fn lines_of(s: Seq<char>) -> Seq<Seq<char>>;

/// `str::lines`: the lines of a text in order; a line ends at a line feed,
/// with or without a carriage return before it, and the endings are left
/// out.
#[verifier::external_body]
pub(crate) fn text_lines(s: &str) -> (r: Vec<String>)
    ensures
        r.deep_view() == lines_of(s@),
{
    s.lines().map(String::from).collect()
}

} // verus!
