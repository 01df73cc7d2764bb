//! The request metadata that CORS rules are evaluated against.
use vstd::prelude::*;

verus! {

/// Minimal request metadata required to evaluate CORS rules.
///
/// The struct mirrors the fields that the CORS rules read, so the library
/// stays independent of any HTTP framework. Callers populate it from the
/// incoming request before passing it to [`Cors::check`](crate::cors::Cors::check).
#[derive(Debug, Clone, Copy)]
pub struct RequestContext<'a> {
    /// HTTP method of the incoming request.
    pub method: &'a str,
    /// Value of the `Origin` header, if supplied by the client.
    pub origin: Option<&'a str>,
    /// Value of the `Access-Control-Request-Method` header used by CORS preflight.
    pub access_control_request_method: Option<&'a str>,
    /// Value of the `Access-Control-Request-Headers` header used by CORS preflight.
    pub access_control_request_headers: Option<&'a str>,
    /// Indicates that the request is asking for private network access.
    pub access_control_request_private_network: bool,
}

/// A request's components as characters.
pub struct RequestView {
    pub method: Seq<char>,
    pub origin: Option<Seq<char>>,
    pub access_control_request_method: Option<Seq<char>>,
    pub access_control_request_headers: Option<Seq<char>>,
    pub access_control_request_private_network: bool,
}

impl<'a> View for RequestContext<'a> {
    type V = RequestView;

    open spec fn view(&self) -> RequestView {
        RequestView {
            method: self.method@,
            origin: opt_str_view(self.origin),
            access_control_request_method: opt_str_view(self.access_control_request_method),
            access_control_request_headers: opt_str_view(self.access_control_request_headers),
            access_control_request_private_network: self.access_control_request_private_network,
        }
    }
}

/// The characters of an optional header value.
pub open spec fn opt_str_view(o: Option<&str>) -> Option<Seq<char>> {
    match o {
        Some(s) => Some(s@),
        None => None,
    }
}

} // verus!
