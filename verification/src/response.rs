//! The response header that answers a resolution.
//!
//! A file that was found is answered with 200, its length, its MIME type
//! where its extension has one, and the time of its last modification
//! where the filesystem reports one. Every other outcome is answered with
//! its status and a length of zero, and has no body.

use vstd::prelude::*;
use vstd::utf8::*;
use crate::header::{
    build_response,
    content_length,
    content_type,
    insert_header,
    is_field_value,
    last_modified,
    no_fields,
    response_fields,
    response_status,
};
use crate::http_date::{format_utc, has_http_date, utc_text, HTTP_DATE};
use crate::mime::{
    extension,
    is_printable_ascii,
    lemma_types_are_printable,
    mime_type_lookup,
    mime_type_of,
};
use crate::open_file::{
    resolution,
    FileMeta,
    Observed,
    OutcomeView,
    Probe,
    ResolutionOutcome,
    Root,
    Step,
    StepView,
};

verus! {

/// Room for the fields that a response header is made with.
pub const RESERVED_HEADERS_SIZE: usize = 4;

/// The decimal digits of `n`, as ASCII bytes.
pub open spec fn decimal(n: nat) -> Seq<u8>
    decreases n,
{
    if n < 10 {
        seq![(0x30 + n) as u8]
    } else {
        decimal(n / 10).push((0x30 + n % 10) as u8)
    }
}

/// The status code that answers an outcome.
pub open spec fn status_of(outcome: OutcomeView) -> int {
    match outcome {
        OutcomeView::Found(_) => 200,
        OutcomeView::NotFound => 404,
        OutcomeView::Forbidden(_) => 403,
        OutcomeView::IoError(_) => 500,
    }
}

/// The value of `Content-Type` for the file at `path`, if it gets one.
pub open spec fn content_type_of(path: Seq<char>) -> Option<Seq<u8>> {
    match mime_type_of(path) {
        Some(mime) => Some(encode_utf8(mime)),
        None => None,
    }
}

/// The value of `Last-Modified` for a file modified at `modified`, if it
/// gets one: the time as an HTTP date, where there is a time and it can be
/// written as a field value.
pub open spec fn last_modified_of(modified: Option<i64>) -> Option<Seq<u8>> {
    match modified {
        Some(seconds) => match utc_text(seconds as int, HTTP_DATE@) {
            Some(date) => if is_field_value(encode_utf8(date)) {
                Some(encode_utf8(date))
            } else {
                None
            },
            None => None,
        },
        None => None,
    }
}

/// `fields` with `value` as the one value under `name`, where there is a
/// value.
pub open spec fn with_field(
    fields: Map<Seq<char>, Seq<Seq<u8>>>,
    name: Seq<char>,
    value: Option<Seq<u8>>,
) -> Map<Seq<char>, Seq<Seq<u8>>> {
    match value {
        Some(bytes) => fields.insert(name, seq![bytes]),
        None => fields,
    }
}

/// The fields that answer an outcome: each name with its one value.
pub open spec fn fields_of(outcome: OutcomeView) -> Map<Seq<char>, Seq<Seq<u8>>> {
    match outcome {
        OutcomeView::Found(file) => with_field(
            with_field(
                no_fields().insert("content-length"@, seq![decimal(file.metadata.len as nat)]),
                "content-type"@,
                content_type_of(file.path),
            ),
            "last-modified"@,
            last_modified_of(file.metadata.modified),
        ),
        _ => no_fields().insert("content-length"@, seq![decimal(0)]),
    }
}

/// The metadata of the file whose bytes are the body, where there is one.
pub open spec fn body_of(outcome: OutcomeView) -> Option<FileMeta> {
    match outcome {
        OutcomeView::Found(file) => Some(file.metadata),
        _ => None,
    }
}

/// Decimal digits are a field value.
proof fn lemma_decimal_is_field_value(n: nat)
    ensures
        is_field_value(decimal(n)),
    decreases n,
{
    if n >= 10 {
        lemma_decimal_is_field_value(n / 10);
    }
}

/// Printable ASCII text is a field value.
proof fn lemma_printable_is_field_value(text: Seq<char>)
    requires
        is_printable_ascii(text),
    ensures
        is_field_value(encode_utf8(text)),
{
    assert(is_ascii_chars(text)) by {
        assert forall|i: int| 0 <= i < text.len() implies '\0' <= #[trigger] text[i]
            <= '\u{7f}' by {
            assert(' ' <= text[i] <= '~');
        }
    }
    is_ascii_chars_encode_utf8(text);
    assert forall|i: int| 0 <= i < encode_utf8(text).len() implies (#[trigger] encode_utf8(
        text,
    )[i] >= 32 && encode_utf8(text)[i] != 127) || encode_utf8(text)[i] == 9 by {
        assert(' ' <= text[i] <= '~');
        assert(text[i] as u8 == encode_utf8(text)[i]);
    }
}

/// The three field names differ from one another.
proof fn lemma_names_differ()
    ensures
        "content-length"@ != "content-type"@,
        "content-length"@ != "last-modified"@,
        "content-type"@ != "last-modified"@,
{
    reveal_strlit("content-length");
    reveal_strlit("content-type");
    reveal_strlit("last-modified");
    assert("content-length"@[8] != "content-type"@[8]);
    assert("content-length"@[0] != "last-modified"@[0]);
    assert("content-type"@[0] != "last-modified"@[0]);
}

/// A response has a body exactly when its status is 200. With any other
/// status its only field is a `Content-Length` of `0`.
pub proof fn body_only_with_200(outcome: OutcomeView)
    ensures
        body_of(outcome) is Some <==> status_of(outcome) == 200,
        status_of(outcome) != 200 ==> fields_of(outcome) == no_fields().insert(
            "content-length"@,
            seq![seq![0x30u8]],
        ),
{
    assert(decimal(0) =~= seq![0x30u8]);
}

/// Every response states its length: `Content-Length` is there, with the
/// length of the file in decimal where one was found.
pub proof fn content_length_is_stated(outcome: OutcomeView)
    ensures
        fields_of(outcome).dom().contains("content-length"@),
        outcome matches OutcomeView::Found(file) ==> fields_of(outcome)["content-length"@]
            == seq![decimal(file.metadata.len as nat)],
{
    lemma_names_differ();
}

/// `Content-Type` is there exactly when the lookup gives the path a MIME
/// type, and then holds that type; the field of a file without one is
/// absent, not empty.
pub proof fn content_type_follows_lookup(outcome: OutcomeView)
    ensures
        fields_of(outcome).dom().contains("content-type"@) <==> (outcome matches OutcomeView::Found(
            file,
        ) && mime_type_of(file.path) is Some),
        outcome matches OutcomeView::Found(file) ==> (mime_type_of(file.path) matches Some(mime)
            ==> fields_of(outcome)["content-type"@] == seq![encode_utf8(mime)]),
{
    lemma_names_differ();
}

/// `Last-Modified` is there exactly for a found file whose modification
/// time can be written as a field value, and then holds that time as an
/// HTTP date; without a modification time the field is absent.
pub proof fn last_modified_follows_metadata(outcome: OutcomeView)
    ensures
        fields_of(outcome).dom().contains("last-modified"@) <==> (outcome matches OutcomeView::Found(
            file,
        ) && last_modified_of(file.metadata.modified) is Some),
        outcome matches OutcomeView::Found(file) ==> (file.metadata.modified is None
            ==> !fields_of(outcome).dom().contains("last-modified"@)),
        outcome matches OutcomeView::Found(file) ==> (last_modified_of(
            file.metadata.modified,
        ) matches Some(date) ==> fields_of(outcome)["last-modified"@] == seq![date]),
{
    lemma_names_differ();
}

/// No name has more than one value: every field of a response holds
/// exactly one.
pub proof fn one_value_per_name(outcome: OutcomeView, name: Seq<char>)
    requires
        fields_of(outcome).dom().contains(name),
    ensures
        fields_of(outcome)[name].len() == 1,
        name == "content-length"@ || name == "content-type"@ || name == "last-modified"@,
{
}

/// The decimal digits of `n`.
fn decimal_bytes(n: u64) -> (digits: Vec<u8>)
    ensures
        digits@ == decimal(n as nat),
    decreases n,
{
    if n < 10 {
        let mut digits: Vec<u8> = Vec::new();
        digits.push(0x30 + (n as u8));
        assert(digits@ =~= decimal(n as nat));
        digits
    } else {
        let mut digits = decimal_bytes(n / 10);
        digits.push(0x30 + ((n % 10) as u8));
        digits
    }
}

/// A response header with the status `code` and no fields.
fn empty_response(code: u16) -> (response: pingora_http::ResponseHeader)
    requires
        100 <= code <= 999,
    ensures
        response_status(response) == code,
        response_fields(response) == no_fields(),
{
    match build_response(code, RESERVED_HEADERS_SIZE) {
        Some(response) => response,
        None => vstd::pervasive::unreached(),
    }
}

/// A response header with the status `code`, a length of zero and no other
/// field.
fn bodiless_response(code: u16) -> (response: pingora_http::ResponseHeader)
    requires
        100 <= code <= 999,
    ensures
        response_status(response) == code,
        response_fields(response) == no_fields().insert("content-length"@, seq![decimal(0)]),
{
    let mut response = empty_response(code);
    let zero = decimal_bytes(0);
    proof {
        lemma_decimal_is_field_value(0);
    }
    insert_header(&mut response, content_length(), zero.as_slice());
    response
}

/// The response header that answers `outcome`, and the metadata of the
/// file whose bytes are the body where there is one.
///
/// A found file gets the status 200, `Content-Length` with its length in
/// decimal, `Content-Type` with the MIME type of its path where the lookup
/// gives one, and `Last-Modified` with its modification time as an HTTP
/// date where it has one; a time in the years 0 to 9999 is always written. `NotFound` gets 404, `Forbidden` 403 and
/// `IoError` 500, each with a `Content-Length` of `0`, no other field and no
/// body.
pub fn response_header(outcome: ResolutionOutcome) -> (answer: (
    pingora_http::ResponseHeader,
    Option<FileMeta>,
))
    ensures
        response_status(answer.0) == status_of(outcome@),
        response_fields(answer.0) == fields_of(outcome@),
        answer.1 == body_of(outcome@),
        outcome@ matches OutcomeView::Found(file) ==> (file.metadata.modified matches Some(seconds)
            ==> (has_http_date(seconds as int) ==> response_fields(answer.0).dom().contains(
            "last-modified"@,
        ))),
{
    match outcome {
        ResolutionOutcome::Found(file) => {
            let mut response = empty_response(200);
            let length = decimal_bytes(file.metadata.len);
            proof {
                lemma_decimal_is_field_value(file.metadata.len as nat);
            }
            insert_header(&mut response, content_length(), length.as_slice());
            match mime_type_lookup(file.path.as_str()) {
                Some(mime) => {
                    proof {
                        lemma_types_are_printable(extension(encode_utf8(file.path@)).unwrap());
                        lemma_printable_is_field_value(mime@);
                    }
                    insert_header(&mut response, content_type(), mime.as_bytes());
                },
                None => {},
            }
            match file.metadata.modified {
                Some(seconds) => match format_utc(seconds, HTTP_DATE) {
                    Some(date) => {
                        proof {
                            if has_http_date(seconds as int) {
                                lemma_printable_is_field_value(date@);
                            }
                        }
                        insert_header(&mut response, last_modified(), date.as_str().as_bytes());
                    },
                    None => {},
                },
                None => {},
            }
            (response, Some(file.metadata))
        },
        ResolutionOutcome::NotFound => (bodiless_response(404), None),
        ResolutionOutcome::Forbidden(_) => (bodiless_response(403), None),
        ResolutionOutcome::IoError(_) => (bodiless_response(500), None),
    }
}

/// The next move in answering a request.
#[derive(Debug)]
pub enum Reply {
    /// Ask the filesystem, record the answer, and call again.
    Ask(Probe),
    /// Send this header, and after it the bytes of the file where the
    /// metadata of one comes with it.
    Respond(pingora_http::ResponseHeader, Option<FileMeta>),
}

/// Resolves `uri_path`, which begins with `/`, under `root` and builds the
/// response, given what the filesystem has answered so far: the question
/// that the resolution asks next, or, once it is over, the response header
/// that answers its outcome.
pub fn resolve_and_build(root: &Root, uri_path: &str, seen: &Observed) -> (reply: Reply)
    requires
        uri_path@.len() > 0,
        uri_path@[0] == '/',
    ensures
        match reply {
            Reply::Ask(probe) => resolution(root@, uri_path@, seen@) == StepView::Ask(probe),
            Reply::Respond(response, body) => {
                &&& resolution(root@, uri_path@, seen@) matches StepView::Done(outcome)
                &&& response_status(response) == status_of(outcome)
                &&& response_fields(response) == fields_of(outcome)
                &&& body == body_of(outcome)
                &&& outcome matches OutcomeView::Found(file) ==> (
                file.metadata.modified matches Some(seconds) ==> (has_http_date(seconds as int)
                    ==> response_fields(response).dom().contains("last-modified"@)))
            },
        },
{
    match root.file_path(uri_path, seen) {
        Step::Ask(probe) => Reply::Ask(probe),
        Step::Done(outcome) => {
            let (response, body) = response_header(outcome);
            Reply::Respond(response, body)
        },
    }
}

} // verus!
