//! The correlation middleware: every response carries the identifier that was
//! assigned to its request, and a missing or unusable identifier never breaks
//! the response.
//!
//! The middleware reads the identifier, lets the inner handler run, and hands
//! both to [`finish`], which decides what goes out.

use crate::header::{
    header_entries, header_value_from_string, insert_header, invalid_header_value_text,
    is_header_name, is_header_value, is_header_value_text, lemma_header_value_text,
    static_header_name, INVALID_HEADER_VALUE_TEXT,
};
use actix_web::http::header::HeaderMap;
use vstd::prelude::*;
use vstd::string::StringExecFns;
use vstd::utf8::encode_utf8;

verus! {

/// The header under which a response carries its request's identifier.
pub const REQUEST_ID_HEADER_NAME: &'static str = "x-request-id";

/// What the middleware has to report about one request. The caller logs it at
/// warning level.
#[derive(Debug, PartialEq, Eq)]
pub enum Warning {
    /// The request carried no identifier.
    MissingRequestId,
    /// The identifier holds a byte that cannot stand in a header value;
    /// `reason` is what the header type says of that.
    InvalidRequestId { reason: String },
}

/// The log line of a request without an identifier.
pub const MISSING_REQUEST_ID_MESSAGE: &'static str = "Cannot find request_id in extensions";

/// What the log line of an unusable identifier begins with.
pub const INVALID_REQUEST_ID_MESSAGE: &'static str =
    "Failed to create header value for request ID: ";

impl Warning {
    /// The line that the caller logs for this warning: a fixed line for a
    /// missing identifier, and for an unusable one the reason behind a fixed
    /// beginning.
    pub fn message(&self) -> (text: String)
        ensures
            text@ == match self {
                Warning::MissingRequestId => MISSING_REQUEST_ID_MESSAGE@,
                Warning::InvalidRequestId { reason } => INVALID_REQUEST_ID_MESSAGE@ + reason@,
            },
    {
        match self {
            Warning::MissingRequestId => MISSING_REQUEST_ID_MESSAGE.to_owned(),
            Warning::InvalidRequestId { reason } => {
                let mut text = INVALID_REQUEST_ID_MESSAGE.to_owned();
                text.append(reason.as_str());
                text
            },
        }
    }
}

/// A response as the middleware sees it: the headers it may add to, and the
/// status and body that it passes on.
#[derive(Debug)]
pub struct Response<B> {
    pub status: u16,
    pub headers: HeaderMap,
    pub body: B,
}

/// The middleware factory: wraps the next service of the chain.
#[derive(Clone, Copy, Debug, Default)]
pub struct RequestIdHeader;

/// The middleware around the next service of the chain.
#[derive(Debug)]
pub struct RequestIdHeaderMiddleware<S> {
    pub service: S,
}

/// The headers of a response once the middleware is done: an identifier that
/// makes a header value is its only value under [`REQUEST_ID_HEADER_NAME`],
/// and anything else leaves the headers as they were.
pub open spec fn entries_with_request_id(
    entries: Map<Seq<char>, Seq<Seq<u8>>>,
    request_id: Option<Seq<char>>,
) -> Map<Seq<char>, Seq<Seq<u8>>> {
    match request_id {
        Some(id) if is_header_value(encode_utf8(id)) => entries.insert(
            REQUEST_ID_HEADER_NAME@,
            seq![encode_utf8(id)],
        ),
        _ => entries,
    }
}

/// Whether `warning` is what there is to report of a request with this
/// identifier: nothing where the identifier makes a header value, that it is
/// missing where there is none, and otherwise that it is unusable, with the
/// header type's own words as the reason.
pub open spec fn is_report_for(warning: Option<Warning>, request_id: Option<Seq<char>>) -> bool {
    match request_id {
        None => warning == Some(Warning::MissingRequestId),
        Some(id) => if is_header_value(encode_utf8(id)) {
            warning is None
        } else {
            warning matches Some(Warning::InvalidRequestId { reason }) && reason@
                == INVALID_HEADER_VALUE_TEXT@
        },
    }
}

/// Writes the request's identifier into the headers of its response.
///
/// With an identifier that makes a header value, the headers afterwards hold
/// it as the only value of [`REQUEST_ID_HEADER_NAME`] and nothing is reported.
/// Without one, or with one that makes no header value, the headers are left
/// untouched and the reason is reported.
pub fn attach_request_id(headers: &mut HeaderMap, request_id: Option<String>) -> (warning: Option<
    Warning,
>)
    ensures
        header_entries(*final(headers)) == entries_with_request_id(
            header_entries(*old(headers)),
            request_id.deep_view(),
        ),
        is_report_for(warning, request_id.deep_view()),
        warning is Some ==> *final(headers) == *old(headers),
{
    match request_id {
        Some(id) => match header_value_from_string(id) {
            Ok(value) => {
                proof {
                    lemma_request_id_header_name();
                }
                insert_header(headers, static_header_name(REQUEST_ID_HEADER_NAME), value);
                None
            },
            Err(error) => Some(
                Warning::InvalidRequestId { reason: invalid_header_value_text(&error) },
            ),
        },
        None => Some(Warning::MissingRequestId),
    }
}

impl RequestIdHeader {
    /// The middleware around `service`.
    pub fn new_transform<S>(&self, service: S) -> (middleware: RequestIdHeaderMiddleware<S>)
        ensures
            middleware.service == service,
    {
        RequestIdHeaderMiddleware { service }
    }
}

/// Decides what goes out for one request, given the identifier that the
/// request carried and what the inner handler made of it.
///
/// An error of the handler is passed on as it is, with nothing to report.
/// A response keeps its status and body; its headers are those that
/// [`attach_request_id`] leaves, and so is the report.
pub fn finish<B, E>(request_id: Option<String>, outcome: Result<Response<B>, E>) -> (done: (
    Result<Response<B>, E>,
    Option<Warning>,
))
    ensures
        outcome matches Err(error) ==> done.0 == Err::<Response<B>, E>(error) && done.1 is None,
        outcome matches Ok(response) ==> {
            &&& done.0 matches Ok(sent)
            &&& sent.status == response.status
            &&& sent.body == response.body
            &&& header_entries(sent.headers) == entries_with_request_id(
                header_entries(response.headers),
                request_id.deep_view(),
            )
            &&& done.1 is Some ==> sent == response
        },
        outcome is Ok ==> is_report_for(done.1, request_id.deep_view()),
{
    match outcome {
        Ok(response) => {
            let mut response = response;
            let warning = attach_request_id(&mut response.headers, request_id);
            (Ok(response), warning)
        },
        Err(error) => (Err(error), None),
    }
}

/// [`REQUEST_ID_HEADER_NAME`] is a header name in lower case.
pub proof fn lemma_request_id_header_name()
    ensures
        is_header_name(REQUEST_ID_HEADER_NAME@),
{
    reveal_strlit("x-request-id");
}

/// With an identifier whose every character may stand in a header value, the
/// response carries the identifier's text, encoded as UTF-8, as the one value
/// of [`REQUEST_ID_HEADER_NAME`]; every other header is as the handler left
/// it, and there is nothing to report.
pub proof fn lemma_valid_request_id_is_attached(
    entries: Map<Seq<char>, Seq<Seq<u8>>>,
    request_id: Seq<char>,
    warning: Option<Warning>,
)
    requires
        is_header_value_text(request_id),
    ensures
        entries_with_request_id(entries, Some(request_id)).contains_key(REQUEST_ID_HEADER_NAME@),
        entries_with_request_id(entries, Some(request_id))[REQUEST_ID_HEADER_NAME@]
            == seq![encode_utf8(request_id)],
        forall|name: Seq<char>|
            name != REQUEST_ID_HEADER_NAME@ ==> (#[trigger] entries_with_request_id(
                entries,
                Some(request_id),
            ).contains_key(name) <==> entries.contains_key(name)),
        forall|name: Seq<char>|
            name != REQUEST_ID_HEADER_NAME@ && entries.contains_key(name)
                ==> #[trigger] entries_with_request_id(entries, Some(request_id))[name]
                == entries[name],
        is_report_for(warning, Some(request_id)) <==> warning is None,
{
    lemma_header_value_text(request_id);
}

/// Without an identifier the headers stay as the handler left them, and the
/// one thing to report is that the identifier is missing.
pub proof fn lemma_missing_request_id_changes_nothing(
    entries: Map<Seq<char>, Seq<Seq<u8>>>,
    warning: Option<Warning>,
)
    ensures
        entries_with_request_id(entries, None) == entries,
        is_report_for(warning, None) <==> warning == Some(Warning::MissingRequestId),
{
}

/// With an identifier that holds a character that cannot stand in a header
/// value, the headers stay as the handler left them, and the one thing to
/// report is that the identifier is unusable.
pub proof fn lemma_invalid_request_id_changes_nothing(
    entries: Map<Seq<char>, Seq<Seq<u8>>>,
    request_id: Seq<char>,
    warning: Option<Warning>,
)
    requires
        !is_header_value_text(request_id),
    ensures
        entries_with_request_id(entries, Some(request_id)) == entries,
        is_report_for(warning, Some(request_id)) <==> (warning matches Some(
            Warning::InvalidRequestId { reason },
        ) && reason@ == INVALID_HEADER_VALUE_TEXT@),
{
    lemma_header_value_text(request_id);
}

} // verus!
