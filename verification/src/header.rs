//! The header types of `actix_web`, as far as this library relies on them.
//!
//! A header map is kept as the framework's own `HeaderMap`. Its contents are
//! spoken of through [`header_entries`]: for each header name, by its text, the
//! values stored under it, each as its bytes.

use actix_web::http::header::{HeaderMap, HeaderName, HeaderValue, InvalidHeaderValue};
use vstd::prelude::*;
use vstd::utf8::{encode_scalar, encode_utf8, has_width_1_encoding};

verus! {

/// `actix_web::http::header::HeaderMap`, taken as it is: what it holds is
/// known only through [`header_entries`].
#[verifier::external_type_specification]
#[verifier::external_body]
pub struct ExHeaderMap(HeaderMap);

/// `actix_web::http::header::HeaderName`, taken as it is: its text is known
/// only through [`header_name_text`].
#[verifier::external_type_specification]
#[verifier::external_body]
pub struct ExHeaderName(HeaderName);

/// `actix_web::http::header::HeaderValue`, taken as it is: its bytes are known
/// only through [`header_value_bytes`].
#[verifier::external_type_specification]
#[verifier::external_body]
pub struct ExHeaderValue(HeaderValue);

/// `actix_web::http::header::InvalidHeaderValue`, the error of a text that
/// makes no header value. Nothing is known of what it holds.
#[verifier::external_type_specification]
#[verifier::external_body]
pub struct ExInvalidHeaderValue(InvalidHeaderValue);

/// What an `InvalidHeaderValue` says of itself.
pub const INVALID_HEADER_VALUE_TEXT: &'static str = "failed to parse header value";

/// The values that a header map holds under each name. A name is its text
/// (`HeaderName::as_str`), a value its bytes (`HeaderValue::as_bytes`).
pub uninterp spec fn header_entries(map: HeaderMap) -> Map<Seq<char>, Seq<Seq<u8>>>;

/// The text of a header name (`HeaderName::as_str`).
pub uninterp spec fn header_name_text(name: HeaderName) -> Seq<char>;

/// The bytes of a header value (`HeaderValue::as_bytes`).
pub uninterp spec fn header_value_bytes(value: HeaderValue) -> Seq<u8>;

/// A byte that may stand in a header value: a tab, or anything from the space
/// upwards except DEL.
pub open spec fn is_header_value_byte(b: u8) -> bool {
    b >= 32 && b != 127 || b == 9
}

/// Bytes that make a header value: each of them may stand in one.
pub open spec fn is_header_value(bytes: Seq<u8>) -> bool {
    forall|i: int| 0 <= i < bytes.len() ==> is_header_value_byte(#[trigger] bytes[i])
}

/// A character whose UTF-8 encoding may stand in a header value: a tab, or
/// anything from the space upwards except DEL.
pub open spec fn is_header_value_char(c: char) -> bool {
    c == '\t' || (c >= ' ' && c != '\x7f')
}

/// Text whose every character may stand in a header value.
pub open spec fn is_header_value_text(text: Seq<char>) -> bool {
    forall|i: int| 0 <= i < text.len() ==> is_header_value_char(#[trigger] text[i])
}

/// A character that may stand in a header name written in lower case.
pub open spec fn is_header_name_char(c: char) -> bool {
    ||| 'a' <= c <= 'z'
    ||| '0' <= c <= '9'
    ||| c == '!' || c == '"' || c == '#' || c == '$' || c == '%' || c == '&' || c == '\''
    ||| c == '*' || c == '+' || c == '-' || c == '.' || c == '^' || c == '_' || c == '`'
    ||| c == '|' || c == '~'
}

/// Text that is a header name in lower case: not empty, below 64 KiB, and made
/// of characters that may stand in one.
pub open spec fn is_header_name(text: Seq<char>) -> bool {
    &&& 0 < text.len() <= 0xffff
    &&& forall|i: int| 0 <= i < text.len() ==> is_header_name_char(#[trigger] text[i])
}

/// `HeaderName::from_static`: the header name with the given text. The call
/// panics on text that is no lower-case header name, which `requires` leaves
/// out.
#[verifier::external_body]
pub(crate) fn static_header_name(text: &'static str) -> (name: HeaderName)
    requires
        is_header_name(text@),
    ensures
        header_name_text(name) == text@,
{
    HeaderName::from_static(text)
}

/// `HeaderValue::try_from(String)`: succeeds exactly when every byte of the
/// text's UTF-8 encoding may stand in a header value, and the value then
/// holds those bytes.
#[verifier::external_body]
pub(crate) fn header_value_from_string(text: String) -> (parsed: Result<
    HeaderValue,
    InvalidHeaderValue,
>)
    ensures
        parsed is Ok <==> is_header_value(encode_utf8(text@)),
        parsed matches Ok(value) ==> header_value_bytes(value) == encode_utf8(text@),
{
    HeaderValue::try_from(text)
}

/// `InvalidHeaderValue`'s `Display`: what the error says of itself, which is
/// the same one line for every such error.
#[verifier::external_body]
pub(crate) fn invalid_header_value_text(error: &InvalidHeaderValue) -> (text: String)
    ensures
        text@ == INVALID_HEADER_VALUE_TEXT@,
{
    error.to_string()
}

/// `HeaderMap::insert`: afterwards the name holds the one value given, in
/// place of whatever it held before; every other name keeps its values.
#[verifier::external_body]
pub(crate) fn insert_header(map: &mut HeaderMap, name: HeaderName, value: HeaderValue)
    ensures
        header_entries(*final(map)) == header_entries(*old(map)).insert(
            header_name_text(name),
            seq![header_value_bytes(value)],
        ),
{
    map.insert(name, value);
}

proof fn lemma_scalar_bytes(scalar: u32)
    by (bit_vector)
    requires
        scalar <= 0x10ffff,
    ensures
        scalar <= 0x7f ==> (scalar & 0x7f) as u8 == scalar,
        scalar >= 0x80 ==> (0xc0u8 | ((scalar >> 6) & 0x1f) as u8) >= 0x80,
        scalar >= 0x80 ==> (0xe0u8 | ((scalar >> 12) & 0x0f) as u8) >= 0x80,
        scalar >= 0x80 ==> (0xf0u8 | ((scalar >> 18) & 0x07) as u8) >= 0x80,
        (0x80u8 | (scalar & 0x3f) as u8) >= 0x80,
        (0x80u8 | ((scalar >> 6) & 0x3f) as u8) >= 0x80,
        (0x80u8 | ((scalar >> 12) & 0x3f) as u8) >= 0x80,
{
}

/// The encoding of one character is made of header value bytes exactly when
/// the character may stand in a header value.
pub proof fn lemma_header_value_char(c: char)
    ensures
        is_header_value(encode_scalar(c as u32)) <==> is_header_value_char(c),
{
    let scalar = c as u32;
    let bytes = encode_scalar(scalar);
    lemma_scalar_bytes(scalar);
    if has_width_1_encoding(scalar) {
        assert(bytes[0] == scalar);
    } else {
        assert(bytes[0] >= 0x80);
    }
}

/// Text is a header value, once encoded as UTF-8, exactly when each of its
/// characters may stand in one.
pub proof fn lemma_header_value_text(text: Seq<char>)
    ensures
        is_header_value(encode_utf8(text)) <==> is_header_value_text(text),
    decreases text.len(),
{
    if text.len() > 0 {
        let head = encode_scalar(text[0] as u32);
        let rest = text.drop_first();
        let tail = encode_utf8(rest);
        lemma_header_value_char(text[0]);
        lemma_header_value_text(rest);
        if is_header_value(head + tail) {
            assert forall|i: int| 0 <= i < head.len() implies is_header_value_byte(
                #[trigger] head[i],
            ) by {
                assert(head[i] == (head + tail)[i]);
            }
            assert forall|i: int| 0 <= i < tail.len() implies is_header_value_byte(
                #[trigger] tail[i],
            ) by {
                assert(tail[i] == (head + tail)[i + head.len()]);
            }
            assert forall|i: int| 0 <= i < text.len() implies is_header_value_char(
                #[trigger] text[i],
            ) by {
                if i > 0 {
                    assert(text[i] == rest[i - 1]);
                }
            }
        }
    }
}

} // verus!
