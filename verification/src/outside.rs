//! The calls into other crates, with what is taken on trust of each.

use vstd::prelude::*;

verus! {

/// Why a text is no Base64.
#[verifier::external_type_specification]
#[verifier::external_body]
pub struct ExDecodeError(base64::DecodeError);

/// Why a text is no date and time.
#[verifier::external_type_specification]
#[verifier::external_body]
pub struct ExParseError(chrono::ParseError);

/// Why a pattern is no regular expression.
#[verifier::external_type_specification]
#[verifier::external_body]
pub struct ExRegexError(regex::Error);

/// Why bytes are no UTF-8.
#[verifier::external_type_specification]
#[verifier::external_body]
pub struct ExUtf8Error(core::str::Utf8Error);

/// The bytes that `base64::decode` reads from a text, or nothing where it returns an error.
pub uninterp spec fn base64_bytes(text: Seq<char>) -> Option<Seq<u8>>;

/// `base64::decode` on a text: the standard alphabet, as the crate decodes it. Its result depends
/// on the text alone.
#[verifier::external_body]
pub(crate) fn base64_decode(text: &str) -> (r: Result<Vec<u8>, base64::DecodeError>)
    ensures
        match r {
            Ok(bytes) => base64_bytes(text@) == Some(bytes@),
            Err(_) => base64_bytes(text@) is None,
        },
{
    base64::decode(text)
}

/// `core::str::from_utf8`: the text that the bytes encode, and an error exactly where the bytes
/// are no UTF-8.
pub assume_specification<'a>[ core::str::from_utf8 ](v: &'a [u8]) -> (r: Result<
    &'a str,
    core::str::Utf8Error,
>)
    ensures
        r is Ok <==> vstd::utf8::valid_utf8(v@),
        r matches Ok(s) ==> s@ == vstd::utf8::decode_utf8(v@),
;

/// The time that `chrono` reads from a text, in whole seconds since the start of 1970 in UTC, or
/// nothing where the text is no date and time to it.
pub uninterp spec fn timestamp_of(text: Seq<char>) -> Option<i64>;

/// The `FromStr` of `chrono::DateTime<Utc>`, a relaxed RFC 3339, and `timestamp` of what it
/// returns. The result depends on the text alone.
#[verifier::external_body]
pub(crate) fn utc_timestamp(text: &str) -> (r: Result<i64, chrono::ParseError>)
    ensures
        match r {
            Ok(seconds) => timestamp_of(text@) == Some(seconds),
            Err(_) => timestamp_of(text@) is None,
        },
{
    text.parse::<chrono::DateTime<chrono::Utc>>().map(|time| time.timestamp())
}

/// The first match of a pattern in a text, as the crate `regex` finds it: the outer `None` where
/// the pattern does not compile, the inner `None` where the text has no match.
pub uninterp spec fn first_match(pattern: Seq<char>, text: Seq<char>) -> Option<Option<Seq<char>>>;

/// `regex::Regex::new` on the pattern, and `find` of the compiled pattern on the text, with the
/// matched piece copied out. The result depends on the two texts alone; what matched is a piece of
/// the text.
#[verifier::external_body]
pub(crate) fn regex_find(pattern: &str, text: &str) -> (r: Result<Option<String>, regex::Error>)
    ensures
        match r {
            Ok(found) => first_match(pattern@, text@) == Some(found.deep_view()),
            Err(_) => first_match(pattern@, text@) is None,
        },
        r matches Ok(Some(found)) ==> exists|i: int, j: int|
            0 <= i <= j <= text@.len() && found@ == #[trigger] text@.subrange(i, j),
{
    regex::Regex::new(pattern).map(|re| re.find(text).map(|found| found.as_str().to_owned()))
}

/// A hexadecimal digit, the letters in lower case.
pub open spec fn hex_digit(n: int) -> char {
    if n < 10 {
        (0x30 + n) as char
    } else {
        (0x61 + n - 10) as char
    }
}

/// A character as it stands in a JSON string.
pub open spec fn json_character(c: char) -> Seq<char> {
    if c == '"' || c == '\\' {
        seq!['\\', c]
    } else if c == '\u{8}' {
        seq!['\\', 'b']
    } else if c == '\t' {
        seq!['\\', 't']
    } else if c == '\n' {
        seq!['\\', 'n']
    } else if c == '\u{c}' {
        seq!['\\', 'f']
    } else if c == '\r' {
        seq!['\\', 'r']
    } else if ' ' > c {
        seq!['\\', 'u', '0', '0', hex_digit(c as int / 16), hex_digit(c as int % 16)]
    } else {
        seq![c]
    }
}

/// The characters of a text as they stand in a JSON string.
pub open spec fn json_characters(s: Seq<char>) -> Seq<char>
    decreases s.len(),
{
    if s.len() == 0 {
        Seq::empty()
    } else {
        json_characters(s.drop_last()) + json_character(s.last())
    }
}

/// A text as a JSON string, with its quotation marks.
pub open spec fn json_string(s: Seq<char>) -> Seq<char> {
    seq!['"'] + json_characters(s) + seq!['"']
}

/// `to_string` of a `serde_json::Value` that holds a string: the text in quotation marks, with the
/// quotation mark, the backslash and the control characters below the space escaped, and nothing
/// else.
#[verifier::external_body]
pub(crate) fn write_json_string(text: &str) -> (r: String)
    ensures
        r@ == json_string(text@),
{
    serde_json::Value::String(text.to_owned()).to_string()
}

} // verus!
