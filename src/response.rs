//! Classifying the provider's answer to a lookup.
use vstd::prelude::*;
use crate::json::{
    as_list, is_json_text, json_of, json_text_of, list_of, list_view, member, member_of,
    parse_document, render,
};
use crate::record::RawRecord;

verus! {

/// Why a lookup gave no record.
#[derive(Debug)]
pub enum FetchError {
    /// The request could not be sent or answered.
    Transport(String),
    /// A status outside 200 to 299, with the body as received.
    Http(u16, String),
    /// The body is not a JSON document.
    MalformedResponse,
    /// The provider reported an error; holds its `error` field as JSON text.
    Api(String),
    /// No recording under the requested number.
    NotFound(u64),
}

/// What a successful response body holds, as far as the lookup cares.
#[derive(Debug)]
pub enum ResponseView {
    /// Not a JSON document.
    Malformed,
    /// A document with a top-level `error` field, written as JSON text.
    ApiError(String),
    /// A document without `error`; the items of its `recordings` field, when
    /// that field is an array.
    Recordings(Option<Vec<serde_json::Value>>),
}

pub open spec fn is_success(status: u16) -> bool {
    200 <= status <= 299
}

/// The outcome that a response with `status`, `body` and, on success, the
/// contents `view` stands for.
pub open spec fn classified(
    id: u64,
    status: u16,
    body: Seq<char>,
    view: ResponseView,
    r: Result<serde_json::Value, FetchError>,
) -> bool {
    if !is_success(status) {
        r matches Err(FetchError::Http(s, b)) && s == status && b@ == body
    } else {
        match view {
            ResponseView::Malformed => r matches Err(FetchError::MalformedResponse),
            ResponseView::ApiError(m) => r matches Err(FetchError::Api(e)) && e@ == m@,
            ResponseView::Recordings(None) => r == Err::<serde_json::Value, FetchError>(
                FetchError::NotFound(id),
            ),
            ResponseView::Recordings(Some(items)) => if items@.len() == 0 {
                r == Err::<serde_json::Value, FetchError>(FetchError::NotFound(id))
            } else {
                r == Ok::<serde_json::Value, FetchError>(items@[0])
            },
        }
    }
}

/// `v` is what the response body `body` holds: `Malformed` when it is not a
/// JSON document, else its top-level `error` field as JSON text, else the
/// items of its `recordings` field when that is an array.
pub open spec fn reads_as(body: Seq<char>, v: ResponseView) -> bool {
    if !is_json_text(body) {
        v is Malformed
    } else {
        let d = json_of(body);
        match member_of(d, "error"@) {
            Some(e) => (v matches ResponseView::ApiError(m) && m@ == json_text_of(e)),
            None => match member_of(d, "recordings"@) {
                Some(l) => (v matches ResponseView::Recordings(x) && list_view(x) == list_of(l)),
                None => (v matches ResponseView::Recordings(None)),
            },
        }
    }
}

/// Decides the outcome of a lookup of `id`: the status first, then an
/// `error` field, then the first of the `recordings`.
pub fn classify(id: u64, status: u16, body: &str, view: ResponseView) -> (r: Result<
    serde_json::Value,
    FetchError,
>)
    ensures
        classified(id, status, body@, view, r),
{
    if status < 200 || status > 299 {
        return Err(FetchError::Http(status, body.to_string()));
    }
    match view {
        ResponseView::Malformed => Err(FetchError::MalformedResponse),
        ResponseView::ApiError(m) => Err(FetchError::Api(m)),
        ResponseView::Recordings(None) => Err(FetchError::NotFound(id)),
        ResponseView::Recordings(Some(items)) => {
            if items.len() == 0 {
                Err(FetchError::NotFound(id))
            } else {
                let mut items = items;
                Ok(items.swap_remove(0))
            }
        },
    }
}

/// Reads a response body: whether it is JSON, its `error` field, its `recordings`.
pub fn read_view(body: &str) -> (r: ResponseView)
    ensures
        reads_as(body@, r),
{
    match parse_document(body) {
        Err(_) => ResponseView::Malformed,
        Ok(doc) => match member(&doc, "error") {
            Some(e) => ResponseView::ApiError(render(&e)),
            None => match member(&doc, "recordings") {
                Some(list) => ResponseView::Recordings(as_list(&list)),
                None => ResponseView::Recordings(None),
            },
        },
    }
}

/// The record that a lookup of `id` answered with `status` and `body` gives.
/// A status outside 200 to 299 fails with `Http` whatever the body holds;
/// otherwise the body decides, as `classify` says.
pub fn interpret_response(id: u64, status: u16, body: &str) -> (r: Result<RawRecord, FetchError>)
    ensures
        !is_success(status) ==> (r matches Err(FetchError::Http(s, b)) && s == status && b@
            == body@),
        is_success(status) ==> !(r matches Err(FetchError::Http(_, _))),
        is_success(status) && !is_json_text(body@) ==> (r matches Err(
            FetchError::MalformedResponse,
        )),
        is_success(status) ==> exists|v: ResponseView, c: Result<serde_json::Value, FetchError>|
            reads_as(body@, v) && classified(id, status, body@, v, c) && match c {
                Ok(doc) => r matches Ok(raw) && raw.document == doc,
                Err(e) => r == Err::<RawRecord, FetchError>(e),
            },
{
    if status < 200 || status > 299 {
        return Err(FetchError::Http(status, body.to_string()));
    }
    let view = read_view(body);
    let ghost v = view;
    let c = classify(id, status, body, view);
    let ghost gc = c;
    match c {
        Ok(doc) => {
            let raw = RawRecord::from_document(&doc);
            assert(reads_as(body@, v) && classified(id, status, body@, v, gc));
            Ok(raw)
        },
        Err(e) => {
            assert(reads_as(body@, v) && classified(id, status, body@, v, gc));
            Err(e)
        },
    }
}

} // verus!
