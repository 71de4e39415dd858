//! The error taxonomy.
use vstd::prelude::*;

use crate::model::opt;

verus! {

/// What went wrong.
#[derive(Debug, Clone, Copy, PartialEq, Eq, Hash, Structural)]
#[non_exhaustive]
pub enum ErrorKind {
    /// The credentials were missing or rejected.
    Authentication,
    /// The credentials may not do this.
    Permission,
    /// The model or resource does not exist.
    NotFound,
    /// Too many requests.
    RateLimited,
    /// The provider is out of capacity.
    Overloaded,
    /// The request or the stream took too long.
    Timeout,
    /// The request is invalid.
    InvalidRequest,
    /// The prompt does not fit in the context window.
    ContextLength,
    /// A content policy refused the request or the output.
    ContentPolicy,
    /// The provider sent something that cannot be understood.
    MalformedResponse,
    /// The stream ended before its terminal event.
    TruncatedStream,
    /// The connection failed.
    Transport,
    /// The model or API cannot do what was asked.
    UnsupportedCapability,
    /// The API cannot express a part of the request.
    UnsupportedContent,
    /// The client is configured wrongly.
    Configuration,
    /// Any other failure on the side of the provider.
    Provider,
}

impl ErrorKind {
    /// Whether the same request may succeed later.
    pub open spec fn is_retryable(self) -> bool {
        self is RateLimited || self is Overloaded || self is Timeout || self is Transport
    }
}

/// A span of time.
#[derive(Debug, Clone, Copy, PartialEq, Eq, Structural)]
pub struct Delay {
    pub secs: u64,
    pub nanos: u32,
}

/// A failure, with what is known about it.
#[derive(Debug, PartialEq)]
pub struct Error {
    pub kind: ErrorKind,
    pub message: String,
    /// The API the failure came from.
    pub origin: Option<String>,
    pub model: Option<String>,
    /// The provider's id of the request.
    pub request_id: Option<String>,
    /// The provider's code of the error.
    pub code: Option<String>,
    /// The HTTP status.
    pub status: Option<u16>,
    /// How long the provider asks to wait.
    pub retry_after: Option<Delay>,
    /// Whether the same request may succeed later.
    pub retryable: bool,
    /// What the failure that caused this one says.
    pub source: Option<String>,
}

/// What a failure is.
#[verifier::ext_equal]
pub struct ErrorView {
    pub kind: ErrorKind,
    pub message: Seq<char>,
    pub origin: Option<Seq<char>>,
    pub model: Option<Seq<char>>,
    pub request_id: Option<Seq<char>>,
    pub code: Option<Seq<char>>,
    pub status: Option<u16>,
    pub retry_after: Option<Delay>,
    pub retryable: bool,
    pub source: Option<Seq<char>>,
}

pub type Result<T> = core::result::Result<T, Error>;

impl View for Error {
    type V = ErrorView;

    open spec fn view(&self) -> ErrorView {
        ErrorView {
            kind: self.kind,
            message: self.message@,
            origin: opt(self.origin),
            model: opt(self.model),
            request_id: opt(self.request_id),
            code: opt(self.code),
            status: self.status,
            retry_after: self.retry_after,
            retryable: self.retryable,
            source: opt(self.source),
        }
    }
}

/// A failure of which only the kind and the message are known.
pub open spec fn new_error(kind: ErrorKind, message: Seq<char>) -> ErrorView {
    ErrorView {
        kind,
        message,
        origin: None,
        model: None,
        request_id: None,
        code: None,
        status: None,
        retry_after: None,
        retryable: kind.is_retryable(),
        source: None,
    }
}

impl ErrorView {
    pub open spec fn with_retryable(self, retryable: bool) -> ErrorView {
        ErrorView { retryable, ..self }
    }

    pub open spec fn with_source(self, source: Seq<char>) -> ErrorView {
        ErrorView { source: Some(source), ..self }
    }

    pub open spec fn with_origin(self, origin: Seq<char>) -> ErrorView {
        ErrorView { origin: Some(origin), ..self }
    }

    pub open spec fn with_model(self, model: Seq<char>) -> ErrorView {
        ErrorView { model: Some(model), ..self }
    }

    pub open spec fn with_request_id(self, request_id: Seq<char>) -> ErrorView {
        ErrorView { request_id: Some(request_id), ..self }
    }

    pub open spec fn with_code(self, code: Seq<char>) -> ErrorView {
        ErrorView { code: Some(code), ..self }
    }

    /// With a code, where there is one.
    pub open spec fn with_code_opt(self, code: Option<Seq<char>>) -> ErrorView {
        match code {
            Some(code) => self.with_code(code),
            None => self,
        }
    }

    pub open spec fn with_status(self, status: u16) -> ErrorView {
        ErrorView { status: Some(status), ..self }
    }

    pub open spec fn with_retry_after(self, delay: Delay) -> ErrorView {
        ErrorView { retry_after: Some(delay), ..self }
    }
}

impl Error {
    pub fn new(kind: ErrorKind, message: &str) -> (r: Error)
        ensures
            r@ == new_error(kind, message@),
    {
        Error {
            kind,
            message: message.to_owned(),
            origin: None,
            model: None,
            request_id: None,
            code: None,
            status: None,
            retry_after: None,
            retryable: matches!(
                kind,
                ErrorKind::RateLimited | ErrorKind::Overloaded | ErrorKind::Timeout
                    | ErrorKind::Transport
            ),
            source: None,
        }
    }

    pub fn with_retryable(self, retryable: bool) -> (r: Error)
        ensures
            r@ == self@.with_retryable(retryable),
    {
        let mut r: Error = self;
        r.retryable = retryable;
        r
    }

    /// With what the failure says that caused this one.
    pub fn with_source(self, source: &str) -> (r: Error)
        ensures
            r@ == self@.with_source(source@),
    {
        let mut r: Error = self;
        r.source = Some(source.to_owned());
        r
    }

    /// A response that cannot be understood.
    pub fn malformed(message: &str) -> (r: Error)
        ensures
            r@ == new_error(ErrorKind::MalformedResponse, message@),
    {
        Error::new(ErrorKind::MalformedResponse, message)
    }

    /// A request that is invalid.
    pub fn invalid_request(message: &str) -> (r: Error)
        ensures
            r@ == new_error(ErrorKind::InvalidRequest, message@),
    {
        Error::new(ErrorKind::InvalidRequest, message)
    }

    /// A client that is configured wrongly.
    pub fn configuration(message: &str) -> (r: Error)
        ensures
            r@ == new_error(ErrorKind::Configuration, message@),
    {
        Error::new(ErrorKind::Configuration, message)
    }

    pub fn with_origin(self, origin: &str) -> (r: Error)
        ensures
            r@ == self@.with_origin(origin@),
    {
        let mut r: Error = self;
        r.origin = Some(origin.to_owned());
        r
    }

    pub fn with_model(self, model: &str) -> (r: Error)
        ensures
            r@ == self@.with_model(model@),
    {
        let mut r: Error = self;
        r.model = Some(model.to_owned());
        r
    }

    pub fn with_request_id(self, request_id: &str) -> (r: Error)
        ensures
            r@ == self@.with_request_id(request_id@),
    {
        let mut r: Error = self;
        r.request_id = Some(request_id.to_owned());
        r
    }

    pub fn with_code(self, code: &str) -> (r: Error)
        ensures
            r@ == self@.with_code(code@),
    {
        let mut r: Error = self;
        r.code = Some(code.to_owned());
        r
    }

    /// With a code, where there is one.
    pub fn with_code_opt(self, code: Option<&str>) -> (r: Error)
        ensures
            r@ == self@.with_code_opt(opt(code)),
    {
        match code {
            Some(code) => self.with_code(code),
            None => self,
        }
    }

    pub fn with_status(self, status: u16) -> (r: Error)
        ensures
            r@ == self@.with_status(status),
    {
        let mut r: Error = self;
        r.status = Some(status);
        r
    }

    pub fn with_retry_after(self, delay: Delay) -> (r: Error)
        ensures
            r@ == self@.with_retry_after(delay),
    {
        let mut r: Error = self;
        r.retry_after = Some(delay);
        r
    }

    pub fn kind(&self) -> (r: ErrorKind)
        ensures
            r == self@.kind,
    {
        self.kind
    }

    pub fn message(&self) -> (r: &str)
        ensures
            r@ == self@.message,
    {
        self.message.as_str()
    }

    pub fn origin(&self) -> (r: Option<&str>)
        ensures
            opt(r) == self@.origin,
    {
        as_deref(&self.origin)
    }

    pub fn model(&self) -> (r: Option<&str>)
        ensures
            opt(r) == self@.model,
    {
        as_deref(&self.model)
    }

    pub fn request_id(&self) -> (r: Option<&str>)
        ensures
            opt(r) == self@.request_id,
    {
        as_deref(&self.request_id)
    }

    /// What the failure says that caused this one.
    pub fn source(&self) -> (r: Option<&str>)
        ensures
            opt(r) == self@.source,
    {
        as_deref(&self.source)
    }

    pub fn code(&self) -> (r: Option<&str>)
        ensures
            opt(r) == self@.code,
    {
        as_deref(&self.code)
    }

    pub fn status(&self) -> (r: Option<u16>)
        ensures
            r == self@.status,
    {
        self.status
    }

    pub fn retry_after(&self) -> (r: Option<Delay>)
        ensures
            r == self@.retry_after,
    {
        self.retry_after
    }

    /// Whether the same request may succeed later.
    pub fn retryable(&self) -> (r: bool)
        ensures
            r == self@.retryable,
    {
        self.retryable
    }
}

impl Clone for Error {
    fn clone(&self) -> (r: Error)
        ensures
            r@ == self@,
    {
        Error {
            kind: self.kind,
            message: self.message.clone(),
            origin: self.origin.clone(),
            model: self.model.clone(),
            request_id: self.request_id.clone(),
            code: self.code.clone(),
            status: self.status,
            retry_after: self.retry_after,
            retryable: self.retryable,
            source: self.source.clone(),
        }
    }
}

/// Borrows an optional text.
pub fn as_deref(o: &Option<String>) -> (r: Option<&str>)
    ensures
        opt(r) == opt(*o),
{
    match o {
        Some(s) => Some(s.as_str()),
        None => None,
    }
}

} // verus!
