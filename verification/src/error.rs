//! The uniform error envelope used by every operation of this crate.
//!
//! An [`Error`] pairs a coarse [`ErrorKind`] with a cause. The cause may be a
//! plain message, a structured remote-protocol failure ([`HttpError`]), or a
//! whole other [`Error`] from a lower layer, so causes chain to arbitrary
//! depth. [`Error::as_inner`] walks that chain and retrieves the first
//! remote-protocol failure, however deeply it has been wrapped.

use vstd::prelude::*;

verus! {

/// The coarse classification of an [`Error`].
#[derive(Clone, Copy, Debug, PartialEq, Eq, Structural)]
pub enum ErrorKind {
    /// A serialization or deserialization error.
    Serde,
    /// An authentication error.
    Authentication,
    /// An I/O error.
    Io,
    /// An error related to making a RPC.
    Rpc,
    /// A uncategorized error.
    Other,
}

impl Default for ErrorKind {
    fn default() -> (r: Self)
        ensures
            r == ErrorKind::Other,
    {
        ErrorKind::Other
    }
}

impl ErrorKind {
    /// A human-readable description of the category, used when rendering an
    /// [`Error`] as text.
    pub fn describe(&self) -> (r: &'static str)
        ensures
            r@ == self.spec_describe(),
    {
        match self {
            ErrorKind::Serde => "a problem occurred during serialization or deserialization",
            ErrorKind::Authentication => "a problem occurred during authentication",
            ErrorKind::Io => "a problem occurred during I/O",
            ErrorKind::Rpc => "a problem occurred while making a RPC",
            ErrorKind::Other => "a problem occurred",
        }
    }

    /// The text that [`ErrorKind::describe`] returns.
    pub open spec fn spec_describe(self) -> Seq<char> {
        match self {
            ErrorKind::Serde => "a problem occurred during serialization or deserialization"@,
            ErrorKind::Authentication => "a problem occurred during authentication"@,
            ErrorKind::Io => "a problem occurred during I/O"@,
            ErrorKind::Rpc => "a problem occurred while making a RPC"@,
            ErrorKind::Other => "a problem occurred"@,
        }
    }
}

/// A remote-protocol failure: a well-formed response that reports an error on
/// the remote side.
#[derive(Clone, Debug, PartialEq)]
pub struct HttpError {
    /// The numeric status code of the response.
    pub status_code: u16,
    /// The response headers, as key/value pairs.
    pub headers: Vec<(String, String)>,
    /// The structured response body, if one was returned.
    pub payload: Option<Vec<u8>>,
}

impl HttpError {
    /// Creates a new [`HttpError`] from its parts.
    pub fn new(status_code: u16, headers: Vec<(String, String)>, payload: Option<Vec<u8>>) -> (r:
        Self)
        ensures
            r.status_code == status_code,
            r.headers == headers,
            r.payload == payload,
    {
        HttpError { status_code, headers, payload }
    }

    /// Returns the numeric status code of the response.
    pub fn status_code(&self) -> (r: u16)
        ensures
            r == self.status_code,
    {
        self.status_code
    }
}

/// The cause wrapped by an [`Error`]: a message, a structured remote-protocol
/// failure, or a whole lower-layer [`Error`].
#[derive(Debug)]
pub enum ErrorSource {
    /// A plain diagnostic message, e.g. a field-path-qualified decode failure.
    Message(String),
    /// A structured remote-protocol failure.
    Http(HttpError),
    /// Another layer's own error, wrapped whole.
    Wrapped(Box<Error>),
}

/// The error returned by every operation of this crate: a coarse [`ErrorKind`]
/// over an arbitrarily deep chain of causes.
#[derive(Debug)]
pub struct Error {
    /// The top-level classification, not the cause's own classification.
    pub kind: ErrorKind,
    /// The wrapped cause.
    pub source: ErrorSource,
}

/// The first [`HttpError`] in the cause chain of `e`, walking from the top,
/// or `None` if the chain holds none.
pub open spec fn spec_find_http(e: Error) -> Option<HttpError>
    decreases e,
{
    match e.source {
        ErrorSource::Message(_) => None,
        ErrorSource::Http(h) => Some(h),
        ErrorSource::Wrapped(inner) => spec_find_http(*inner),
    }
}

impl Error {
    /// Creates a new [`Error`] with the given [`ErrorKind`] and cause.
    pub fn new(kind: ErrorKind, source: ErrorSource) -> (r: Self)
        ensures
            r.kind == kind,
            r.source == source,
    {
        Error { kind, source }
    }

    /// A helper to create a new [`ErrorKind::Serde`] error.
    pub fn serde(source: ErrorSource) -> (r: Self)
        ensures
            r.kind == ErrorKind::Serde,
            r.source == source,
    {
        Error::new(ErrorKind::Serde, source)
    }

    /// A helper to create a new [`ErrorKind::Authentication`] error.
    pub fn authentication(source: ErrorSource) -> (r: Self)
        ensures
            r.kind == ErrorKind::Authentication,
            r.source == source,
    {
        Error::new(ErrorKind::Authentication, source)
    }

    /// A helper to create a new [`ErrorKind::Io`] error.
    pub fn io(source: ErrorSource) -> (r: Self)
        ensures
            r.kind == ErrorKind::Io,
            r.source == source,
    {
        Error::new(ErrorKind::Io, source)
    }

    /// A helper to create a new [`ErrorKind::Rpc`] error.
    pub fn rpc(source: ErrorSource) -> (r: Self)
        ensures
            r.kind == ErrorKind::Rpc,
            r.source == source,
    {
        Error::new(ErrorKind::Rpc, source)
    }

    /// A helper to create a new [`ErrorKind::Other`] error.
    pub fn other(source: ErrorSource) -> (r: Self)
        ensures
            r.kind == ErrorKind::Other,
            r.source == source,
    {
        Error::new(ErrorKind::Other, source)
    }

    /// Wraps a whole lower-layer error under a new category.
    pub fn wrap(kind: ErrorKind, inner: Error) -> (r: Self)
        ensures
            r.kind == kind,
            r.source == ErrorSource::Wrapped(Box::new(inner)),
    {
        Error { kind, source: ErrorSource::Wrapped(Box::new(inner)) }
    }

    /// Returns the [`ErrorKind`] associated with this error.
    pub fn kind(&self) -> (r: ErrorKind)
        ensures
            r == self.kind,
    {
        self.kind
    }

    /// Walks the cause chain from the top and returns a reference to the first
    /// [`HttpError`] in it, or `None` if no link of the chain is one.
    pub fn as_inner(&self) -> (r: Option<&HttpError>)
        ensures
            match r {
                Some(h) => spec_find_http(*self) == Some(*h),
                None => spec_find_http(*self) is None,
            },
        decreases *self,
    {
        match &self.source {
            ErrorSource::Message(_) => None,
            ErrorSource::Http(h) => Some(h),
            ErrorSource::Wrapped(inner) => inner.as_inner(),
        }
    }
}

impl Error {
    /// The rendered text of the cause chain: each wrapped layer renders as
    /// `<category-description>: <cause>`, ending in the innermost cause's
    /// own text.
    pub open spec fn spec_render(self) -> Seq<char>
        decreases self,
    {
        self.kind.spec_describe() + ": "@ + match self.source {
            ErrorSource::Message(m) => m@,
            ErrorSource::Http(h) => "a remote protocol error (status "@ + crate::scalar::dec_rep(
                h.status_code as nat,
            ) + ")"@,
            ErrorSource::Wrapped(inner) => inner.spec_render(),
        }
    }

    /// Renders the error as text: the category description, a colon, and
    /// the rendered cause.
    pub fn display_text(&self) -> (r: String)
        ensures
            r@ == self.spec_render(),
        decreases *self,
    {
        let mut r = String::new();
        r.append(self.kind.describe());
        r.append(": ");
        match &self.source {
            ErrorSource::Message(m) => {
                r.append(m.as_str());
            },
            ErrorSource::Http(h) => {
                r.append("a remote protocol error (status ");
                let code = crate::scalar::i64_to_dec(h.status_code as i64);
                r.append(code.as_str());
                proof {
                    assert(crate::scalar::i64_rep(h.status_code as i64) == crate::scalar::dec_rep(
                        h.status_code as nat,
                    ));
                }
                r.append(")");
            },
            ErrorSource::Wrapped(inner) => {
                let t = inner.display_text();
                r.append(t.as_str());
            },
        }
        r
    }
}

/// A remote-protocol failure converts straight into the envelope, classified
/// under the remote-protocol category: the one cross-component bridge the
/// classifier defines itself.
impl From<HttpError> for Error {
    fn from(e: HttpError) -> (r: Self) {
        Error::rpc(ErrorSource::Http(e))
    }
}

impl vstd::std_specs::convert::FromSpecImpl<HttpError> for Error {
    open spec fn obeys_from_spec() -> bool {
        true
    }

    open spec fn from_spec(e: HttpError) -> Self {
        Error { kind: ErrorKind::Rpc, source: ErrorSource::Http(e) }
    }
}

/// Law: wrapping an error under any further categories never hides a
/// remote-protocol cause. The chain walk through the wrapper finds exactly
/// what it finds in the wrapped error.
pub proof fn lemma_wrap_preserves_find_http(kind: ErrorKind, inner: Error)
    ensures
        spec_find_http(Error { kind, source: ErrorSource::Wrapped(Box::new(inner)) })
            == spec_find_http(inner),
{
}

/// Law: a remote-protocol error wrapped under two further uncategorized
/// layers is still retrieved, unchanged, from the outermost error.
pub proof fn lemma_find_http_through_two_wrappers(h: HttpError)
    ensures
        spec_find_http(
            Error {
                kind: ErrorKind::Other,
                source: ErrorSource::Wrapped(
                    Box::new(
                        Error {
                            kind: ErrorKind::Other,
                            source: ErrorSource::Wrapped(
                                Box::new(
                                    Error { kind: ErrorKind::Rpc, source: ErrorSource::Http(h) },
                                ),
                            ),
                        },
                    ),
                ),
            },
        ) == Some(h),
{
    let e0 = Error { kind: ErrorKind::Rpc, source: ErrorSource::Http(h) };
    let e1 = Error { kind: ErrorKind::Other, source: ErrorSource::Wrapped(Box::new(e0)) };
    let e2 = Error { kind: ErrorKind::Other, source: ErrorSource::Wrapped(Box::new(e1)) };
    assert(spec_find_http(e0) == Some(h));
    assert(spec_find_http(e1) == Some(h));
    assert(spec_find_http(e2) == Some(h));
}

} // verus!
