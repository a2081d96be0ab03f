//! The response header of the pingora HTTP library, as far as this crate
//! fills it.
//!
//! `ResponseHeader` and `HeaderName` are opaque to the verifier. What a
//! response header holds is named by `response_status` and
//! `response_fields`; the contracts of the functions below say what pingora
//! and the http crate do to them, and are believed, not proved.

use vstd::prelude::*;

verus! {

/// pingora's response header: a status and header fields.
#[verifier::external_type_specification]
#[verifier::external_body]
pub struct ExResponseHeader(pingora_http::ResponseHeader);

/// The http crate's name of a header field.
#[verifier::external_type_specification]
#[verifier::external_body]
pub struct ExHeaderName(http::header::HeaderName);

/// The status code of a response header.
pub uninterp spec fn response_status(response: pingora_http::ResponseHeader) -> int;

/// The fields of a response header: for each field name that it holds, in
/// small letters, the values under that name in their order, each as its
/// bytes.
pub uninterp spec fn response_fields(response: pingora_http::ResponseHeader) -> Map<
    Seq<char>,
    Seq<Seq<u8>>,
>;

/// The text of a field name, in small letters.
pub uninterp spec fn header_name_text(name: http::header::HeaderName) -> Seq<char>;

/// Bytes that the http crate takes as a field value: no control character
/// but the tab.
pub open spec fn is_field_value(value: Seq<u8>) -> bool {
    forall|i: int| 0 <= i < value.len() ==> (#[trigger] value[i] >= 32 && value[i] != 127)
        || value[i] == 9
}

/// No fields at all.
pub open spec fn no_fields() -> Map<Seq<char>, Seq<Seq<u8>>> {
    Map::empty()
}

/// The most field names a response header may hold when a field is
/// inserted. The http crate's header map panics on an insert that would
/// grow it past 32768 slots, which no map of fewer than 6554 names does;
/// this bound stays far below.
pub const MAX_FIELD_NAMES: usize = 1024;

/// `pingora_http::ResponseHeader::build`: a response header with the status
/// `code` and no fields, with room for `reserve` of them. It fails exactly
/// on a code outside 100..=999, which is what the http crate's
/// `StatusCode::from_u16` refuses.
#[verifier::external_body]
pub(crate) fn build_response(code: u16, reserve: usize) -> (built: Option<
    pingora_http::ResponseHeader,
>)
    ensures
        built is Some <==> 100 <= code <= 999,
        built matches Some(response) ==> response_status(response) == code,
        built matches Some(response) ==> response_fields(response) == no_fields(),
{
    pingora_http::ResponseHeader::build(code, Some(reserve)).ok()
}

/// `pingora_http::ResponseHeader::insert_header`: puts `value` under
/// `name`, in place of every value that was under that name, so that the
/// name then has this one value. It fails, and changes nothing, exactly
/// where the http crate's `HeaderValue` refuses the bytes of `value`. The
/// status stays as it was.
#[verifier::external_body]
pub(crate) fn insert_header(
    response: &mut pingora_http::ResponseHeader,
    name: http::header::HeaderName,
    value: &[u8],
) -> (inserted: bool)
    requires
        response_fields(*old(response)).dom().finite(),
        response_fields(*old(response)).dom().len() < MAX_FIELD_NAMES,
    ensures
        inserted <==> is_field_value(value@),
        response_fields(*final(response)) == if inserted {
            response_fields(*old(response)).insert(header_name_text(name), seq![value@])
        } else {
            response_fields(*old(response))
        },
        response_status(*final(response)) == response_status(*old(response)),
{
    response.insert_header(name, value).is_ok()
}

/// `http::header::CONTENT_LENGTH`, the name `content-length`.
#[verifier::external_body]
pub(crate) fn content_length() -> (name: http::header::HeaderName)
    ensures
        header_name_text(name) == "content-length"@,
{
    http::header::CONTENT_LENGTH
}

/// `http::header::CONTENT_TYPE`, the name `content-type`.
#[verifier::external_body]
pub(crate) fn content_type() -> (name: http::header::HeaderName)
    ensures
        header_name_text(name) == "content-type"@,
{
    http::header::CONTENT_TYPE
}

/// `http::header::LAST_MODIFIED`, the name `last-modified`.
#[verifier::external_body]
pub(crate) fn last_modified() -> (name: http::header::HeaderName)
    ensures
        header_name_text(name) == "last-modified"@,
{
    http::header::LAST_MODIFIED
}

} // verus!
