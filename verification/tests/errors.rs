//! Tests for the error envelope: classification, the cause chain, and
//! rendering.

use secretmanager::error::{Error, ErrorKind, ErrorSource, HttpError};

#[test]
fn kind_is_the_top_level_classification() {
    let e = Error::serde(ErrorSource::Message("bad wire data".to_string()));
    assert_eq!(e.kind(), ErrorKind::Serde);
    let e = Error::authentication(ErrorSource::Message("no token".to_string()));
    assert_eq!(e.kind(), ErrorKind::Authentication);
    let e = Error::io(ErrorSource::Message("connection reset".to_string()));
    assert_eq!(e.kind(), ErrorKind::Io);
    let e = Error::other(ErrorSource::Message("unclassified".to_string()));
    assert_eq!(e.kind(), ErrorKind::Other);
    assert_eq!(ErrorKind::default(), ErrorKind::Other);
}

#[test]
fn wrapping_keeps_the_outer_kind_not_the_inner_one() {
    let inner = Error::serde(ErrorSource::Message("m".to_string()));
    let outer = Error::wrap(ErrorKind::Rpc, inner);
    assert_eq!(outer.kind(), ErrorKind::Rpc);
}

#[test]
fn http_error_carries_its_parts() {
    let h = HttpError::new(
        404,
        vec![("content-type".to_string(), "application/json".to_string())],
        None,
    );
    assert_eq!(h.status_code(), 404);
    assert_eq!(h.headers.len(), 1);
    assert_eq!(h.payload, None);
}

#[test]
fn cause_chain_retrieval_finds_a_remote_error_under_two_wrappers() {
    let http = HttpError::new(404, Vec::new(), None);
    let rpc = Error::rpc(ErrorSource::Http(http.clone()));
    let once = Error::wrap(ErrorKind::Other, rpc);
    let twice = Error::wrap(ErrorKind::Other, once);
    let found = twice.as_inner().expect("the chain holds a remote error");
    assert_eq!(found.status_code(), 404);
    assert_eq!(*found, http);
}

#[test]
fn cause_chain_retrieval_reports_absence() {
    let plain = Error::other(ErrorSource::Message("nothing structured".to_string()));
    assert!(plain.as_inner().is_none());
    let wrapped = Error::wrap(
        ErrorKind::Io,
        Error::other(ErrorSource::Message("still nothing".to_string())),
    );
    assert!(wrapped.as_inner().is_none());
}

#[test]
fn display_renders_category_then_cause() {
    let e = Error::serde(ErrorSource::Message("field is odd".to_string()));
    assert_eq!(
        e.display_text(),
        "a problem occurred during serialization or deserialization: field is odd"
    );
    let h = Error::rpc(ErrorSource::Http(HttpError::new(503, Vec::new(), None)));
    assert_eq!(
        h.display_text(),
        "a problem occurred while making a RPC: a remote protocol error (status 503)"
    );
    let wrapped = Error::wrap(ErrorKind::Other, e);
    assert_eq!(
        wrapped.display_text(),
        "a problem occurred: a problem occurred during serialization or deserialization: field is odd"
    );
}

#[test]
fn remote_protocol_error_converts_into_the_envelope() {
    let e: Error = HttpError::new(404, Vec::new(), None).into();
    assert_eq!(e.kind(), ErrorKind::Rpc);
    assert_eq!(e.as_inner().unwrap().status_code(), 404);
}
