//! The request with its method and header values in the form that the CORS
//! rules compare: lowercased, and the optional headers trimmed.
use vstd::prelude::*;
use std::borrow::Cow;
use crate::context::{opt_str_view, RequestContext};
use crate::text::{same_text, str_trim, trim};
use crate::util::{has_upper, lemma_lower_no_upper, lower, lowercase_unicode_if_needed};

verus! {

/// The normalized request: every component lowercased; the optional headers
/// also trimmed, and dropped when nothing is left. A component that needs no
/// change borrows the caller's text.
pub struct NormalizedRequest<'a> {
    pub method: Cow<'a, str>,
    pub origin: Option<Cow<'a, str>>,
    pub access_control_request_method: Option<Cow<'a, str>>,
    pub access_control_request_headers: Option<Cow<'a, str>>,
    pub access_control_request_private_network: bool,
}

/// An optional header value as the rules see it: trimmed and lowercased,
/// absent when blank.
pub open spec fn normalized_optional(o: Option<Seq<char>>) -> Option<Seq<char>> {
    match o {
        None => None,
        Some(s) => if trim(s).len() == 0 {
            None
        } else {
            Some(lower(trim(s)))
        },
    }
}

/// The characters of an optional component.
pub open spec fn opt_cow_view(o: Option<Cow<'_, str>>) -> Option<Seq<char>> {
    match o {
        Some(c) => Some(c@),
        None => None,
    }
}

/// The text a component holds.
pub fn cow_str<'b>(c: &'b Cow<'_, str>) -> (r: &'b str)
    ensures
        r@ == c@,
{
    match c {
        Cow::Borrowed(b) => *b,
        Cow::Owned(o) => o.as_str(),
    }
}

/// An optional component's text.
fn opt_cow_str<'b>(c: &'b Option<Cow<'_, str>>) -> (r: Option<&'b str>)
    ensures
        opt_str_view(r) == opt_cow_view(*c),
{
    match c {
        Some(v) => Some(cow_str(v)),
        None => None,
    }
}

impl<'a> NormalizedRequest<'a> {
    /// Normalizes each component of `request`.
    pub fn new(request: &RequestContext<'a>) -> (r: Self)
        ensures
            r.method@ == lower(request.method@),
            opt_cow_view(r.origin) == normalized_optional(opt_str_view(request.origin)),
            opt_cow_view(r.access_control_request_method) == normalized_optional(
                opt_str_view(request.access_control_request_method),
            ),
            opt_cow_view(r.access_control_request_headers) == normalized_optional(
                opt_str_view(request.access_control_request_headers),
            ),
            r.access_control_request_private_network == request.access_control_request_private_network,
    {
        NormalizedRequest {
            method: Self::normalize_component(request.method),
            origin: Self::normalize_optional_component(request.origin),
            access_control_request_method: Self::normalize_optional_component(request.access_control_request_method),
            access_control_request_headers: Self::normalize_optional_component(request.access_control_request_headers),
            access_control_request_private_network: request.access_control_request_private_network,
        }
    }

    /// `value` lowercased; borrowed when it holds no uppercase character.
    pub fn normalize_component(value: &'a str) -> (r: Cow<'a, str>)
        ensures
            r@ == lower(value@),
            (r is Borrowed) == !has_upper(value@),
    {
        match lowercase_unicode_if_needed(value) {
            Some(lowered) => Cow::Owned(lowered),
            None => {
                proof {
                    lemma_lower_no_upper(value@);
                }
                Cow::Borrowed(value)
            },
        }
    }

    /// `value` trimmed and lowercased; `None` when absent or blank.
    pub fn normalize_optional_component(value: Option<&'a str>) -> (r: Option<Cow<'a, str>>)
        ensures
            opt_cow_view(r) == normalized_optional(opt_str_view(value)),
            r matches Some(c) ==> ((c is Borrowed) == !has_upper(trim(value->0@))),
    {
        match value {
            None => None,
            Some(v) => {
                let t = str_trim(v);
                if t.is_empty() {
                    None
                } else {
                    Some(Self::normalize_component(t))
                }
            },
        }
    }

    /// The normalized components as a request context.
    pub fn as_context(&self) -> (r: RequestContext<'_>)
        ensures
            r.method@ == self.method@,
            opt_str_view(r.origin) == opt_cow_view(self.origin),
            opt_str_view(r.access_control_request_method) == opt_cow_view(self.access_control_request_method),
            opt_str_view(r.access_control_request_headers) == opt_cow_view(self.access_control_request_headers),
            r.access_control_request_private_network == self.access_control_request_private_network,
    {
        RequestContext {
            method: cow_str(&self.method),
            origin: opt_cow_str(&self.origin),
            access_control_request_method: opt_cow_str(&self.access_control_request_method),
            access_control_request_headers: opt_cow_str(&self.access_control_request_headers),
            access_control_request_private_network: self.access_control_request_private_network,
        }
    }

    /// Whether the normalized method is `options`.
    pub fn is_options(&self) -> (r: bool)
        ensures
            r == (self.method@ == seq!['o', 'p', 't', 'i', 'o', 'n', 's']),
    {
        proof {
            reveal_strlit("options");
            assert("options"@ =~= seq!['o', 'p', 't', 'i', 'o', 'n', 's']);
        }
        same_text(cow_str(&self.method), "options")
    }
}

} // verus!
