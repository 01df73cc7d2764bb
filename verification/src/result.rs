//! What evaluating a request yields: the decision and its headers, or the
//! error raised by a misbehaving origin callback.
use vstd::prelude::*;
use crate::headers::{header_entries, Headers};

verus! {

/// Reason a simple (non-preflight) request was rejected.
#[derive(Debug, Clone, PartialEq, Eq)]
pub enum SimpleRejectionReason {
    OriginNotAllowed,
}

/// Details describing why the request was blocked, including headers that
/// still need to be propagated back to the caller.
#[derive(Debug, Clone, PartialEq, Eq)]
pub struct SimpleRejection {
    pub headers: Headers,
    pub reason: SimpleRejectionReason,
}

/// Fine-grained status describing why a preflight request failed.
#[derive(Debug, Clone, PartialEq, Eq)]
pub enum PreflightRejectionReason {
    OriginNotAllowed,
    MethodNotAllowed { requested_method: String },
    HeadersNotAllowed { requested_headers: String },
}

/// The rejection reason alongside the headers that must be returned.
#[derive(Debug, Clone, PartialEq, Eq)]
pub struct PreflightRejection {
    pub headers: Headers,
    pub reason: PreflightRejectionReason,
}

/// Outcome of evaluating a request against the configured CORS policy.
#[derive(Debug, Clone)]
pub enum CorsDecision {
    PreflightAccepted { headers: Headers },
    PreflightRejected(PreflightRejection),
    SimpleAccepted { headers: Headers },
    SimpleRejected(SimpleRejection),
    NotApplicable,
}

/// Errors raised when the engine detects misbehaviour in user-provided
/// callbacks.
#[derive(Debug, Clone, Copy, PartialEq, Eq)]
pub enum CorsError {
    InvalidOriginAnyWithCredentials,
}

/// Response headers as ordered (name, value) pairs.
pub type HeaderList = Seq<(Seq<char>, Seq<char>)>;

/// A preflight rejection reason, with its text as characters.
pub enum ReasonView {
    OriginNotAllowed,
    MethodNotAllowed(Seq<char>),
    HeadersNotAllowed(Seq<char>),
}

/// A decision, with its headers as ordered (name, value) pairs.
pub enum DecisionView {
    PreflightAccepted(HeaderList),
    PreflightRejected(HeaderList, ReasonView),
    SimpleAccepted(HeaderList),
    SimpleRejected(HeaderList),
    NotApplicable,
}

impl View for PreflightRejectionReason {
    type V = ReasonView;

    open spec fn view(&self) -> ReasonView {
        match self {
            PreflightRejectionReason::OriginNotAllowed => ReasonView::OriginNotAllowed,
            PreflightRejectionReason::MethodNotAllowed { requested_method } => ReasonView::MethodNotAllowed(requested_method@),
            PreflightRejectionReason::HeadersNotAllowed { requested_headers } => ReasonView::HeadersNotAllowed(requested_headers@),
        }
    }
}

impl View for CorsDecision {
    type V = DecisionView;

    open spec fn view(&self) -> DecisionView {
        match self {
            CorsDecision::PreflightAccepted { headers } => DecisionView::PreflightAccepted(header_entries(*headers)),
            CorsDecision::PreflightRejected(r) => DecisionView::PreflightRejected(header_entries(r.headers), r.reason@),
            CorsDecision::SimpleAccepted { headers } => DecisionView::SimpleAccepted(header_entries(*headers)),
            CorsDecision::SimpleRejected(r) => DecisionView::SimpleRejected(header_entries(r.headers)),
            CorsDecision::NotApplicable => DecisionView::NotApplicable,
        }
    }
}

/// The outcome of an evaluation, decisions taken by their view.
pub open spec fn outcome_view(r: Result<CorsDecision, CorsError>) -> Result<DecisionView, CorsError> {
    match r {
        Ok(d) => Ok(d@),
        Err(e) => Err(e),
    }
}

impl CorsError {
    /// The error's description.
    pub fn message(&self) -> (r: String)
        ensures
            r@ == "custom origin callback returned OriginDecision::Any while credentials are enabled; this combination is forbidden by the CORS specification"@,
    {
        match self {
            CorsError::InvalidOriginAnyWithCredentials => "custom origin callback returned OriginDecision::Any while credentials are enabled; this combination is forbidden by the CORS specification".to_owned(),
        }
    }
}

} // verus!
