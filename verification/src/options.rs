//! Configuration of the CORS engine and its validation.
use vstd::prelude::*;
use crate::allowed_headers::AllowedHeaders;
use crate::allowed_methods::AllowedMethods;
use crate::exposed_headers::ExposedHeaders;
use crate::origin::Origin;
use crate::text::{trim, trim_string};
use crate::timing_allow_origin::TimingAllowOrigin;
use crate::util::{is_http_token, is_token, views};

verus! {

/// Misconfigurations that prevent a [`CorsOptions`] instance from being used
/// safely.
#[derive(Debug, Clone, Copy, PartialEq, Eq)]
pub enum ValidationError {
    /// Credentials can only be enabled when a specific origin is configured.
    CredentialsRequireSpecificOrigin,
    /// Wildcard request headers are forbidden when credentials are enabled.
    AllowedHeadersAnyNotAllowedWithCredentials,
    /// `*` is not allowed inside explicit header lists.
    AllowedHeadersListCannotContainWildcard,
    /// Header allow-lists may only include valid HTTP tokens.
    AllowedHeadersListContainsInvalidToken,
    /// Exposing all headers requires credentials to be disabled.
    ExposeHeadersWildcardRequiresCredentialsDisabled,
    /// `*` cannot be combined with other exposed header values.
    ExposeHeadersWildcardCannotBeCombined,
    /// Exposed header values must be valid HTTP tokens.
    ExposeHeadersListContainsInvalidToken,
    /// Private network access requires credentials to be enabled.
    PrivateNetworkRequiresCredentials,
    /// Private network access requires a specific origin, not `*`.
    PrivateNetworkRequiresSpecificOrigin,
    /// Allowed methods lists cannot contain empty values.
    AllowedMethodsCannotContainEmptyToken,
    /// `*` is not allowed inside explicit method lists.
    AllowedMethodsCannotContainWildcard,
    /// Allowed methods must be valid HTTP tokens.
    AllowedMethodsListContainsInvalidToken,
    /// Allowed headers lists cannot contain empty values.
    AllowedHeadersCannotContainEmptyToken,
    /// Exposed headers lists cannot contain empty values.
    ExposeHeadersCannotContainEmptyValue,
    /// Timing-Allow-Origin cannot be wildcarded when credentials are enabled.
    TimingAllowOriginWildcardNotAllowedWithCredentials,
    /// Timing-Allow-Origin lists cannot contain empty values.
    TimingAllowOriginCannotContainEmptyValue,
}

impl ValidationError {
    /// The error's description.
    pub fn message(&self) -> (r: String)
        ensures
            *self == ValidationError::CredentialsRequireSpecificOrigin ==> r@ == "When credentials are enabled, you must configure a specific allowed origin instead of \"*\"."@,
            *self == ValidationError::AllowedHeadersAnyNotAllowedWithCredentials ==> r@ == "AllowedHeaders::Any cannot be used when credentials are enabled. Configure an explicit header allow list instead."@,
            *self == ValidationError::AllowedHeadersListCannotContainWildcard ==> r@ == "Allowed headers lists cannot include \"*\". Use AllowedHeaders::Any to allow all headers."@,
            *self == ValidationError::AllowedHeadersListContainsInvalidToken ==> r@ == "Allowed headers lists may only contain valid HTTP header field names."@,
            *self == ValidationError::ExposeHeadersWildcardRequiresCredentialsDisabled ==> r@ == "Exposed headers wildcard (\"*\") can only be used when credentials are disabled."@,
            *self == ValidationError::ExposeHeadersWildcardCannotBeCombined ==> r@ == "The exposed headers wildcard (\"*\") cannot be combined with additional header names."@,
            *self == ValidationError::ExposeHeadersListContainsInvalidToken ==> r@ == "Exposed headers lists may only contain valid HTTP header field names."@,
            *self == ValidationError::PrivateNetworkRequiresCredentials ==> r@ == "Allowing private network access requires enabling credentials so Access-Control-Allow-Credentials can be set to true."@,
            *self == ValidationError::PrivateNetworkRequiresSpecificOrigin ==> r@ == "Allowing private network access requires configuring a specific allowed origin instead of \"*\"."@,
            *self == ValidationError::AllowedMethodsCannotContainEmptyToken ==> r@ == "Allowed methods lists cannot contain empty or whitespace-only entries."@,
            *self == ValidationError::AllowedMethodsCannotContainWildcard ==> r@ == "Allowed methods lists cannot include the wildcard (\"*\")."@,
            *self == ValidationError::AllowedMethodsListContainsInvalidToken ==> r@ == "Allowed methods lists may only contain valid HTTP method tokens."@,
            *self == ValidationError::AllowedHeadersCannotContainEmptyToken ==> r@ == "Allowed headers lists cannot contain empty or whitespace-only entries."@,
            *self == ValidationError::ExposeHeadersCannotContainEmptyValue ==> r@ == "Exposed headers cannot contain empty or whitespace-only entries."@,
            *self == ValidationError::TimingAllowOriginWildcardNotAllowedWithCredentials ==> r@ == "Timing-Allow-Origin cannot be a wildcard when credentials are enabled."@,
            *self == ValidationError::TimingAllowOriginCannotContainEmptyValue ==> r@ == "Timing-Allow-Origin lists cannot contain empty or whitespace-only entries."@,
    {
        match self {
            ValidationError::CredentialsRequireSpecificOrigin => "When credentials are enabled, you must configure a specific allowed origin instead of \"*\".".to_owned(),
            ValidationError::AllowedHeadersAnyNotAllowedWithCredentials => "AllowedHeaders::Any cannot be used when credentials are enabled. Configure an explicit header allow list instead.".to_owned(),
            ValidationError::AllowedHeadersListCannotContainWildcard => "Allowed headers lists cannot include \"*\". Use AllowedHeaders::Any to allow all headers.".to_owned(),
            ValidationError::AllowedHeadersListContainsInvalidToken => "Allowed headers lists may only contain valid HTTP header field names.".to_owned(),
            ValidationError::ExposeHeadersWildcardRequiresCredentialsDisabled => "Exposed headers wildcard (\"*\") can only be used when credentials are disabled.".to_owned(),
            ValidationError::ExposeHeadersWildcardCannotBeCombined => "The exposed headers wildcard (\"*\") cannot be combined with additional header names.".to_owned(),
            ValidationError::ExposeHeadersListContainsInvalidToken => "Exposed headers lists may only contain valid HTTP header field names.".to_owned(),
            ValidationError::PrivateNetworkRequiresCredentials => "Allowing private network access requires enabling credentials so Access-Control-Allow-Credentials can be set to true.".to_owned(),
            ValidationError::PrivateNetworkRequiresSpecificOrigin => "Allowing private network access requires configuring a specific allowed origin instead of \"*\".".to_owned(),
            ValidationError::AllowedMethodsCannotContainEmptyToken => "Allowed methods lists cannot contain empty or whitespace-only entries.".to_owned(),
            ValidationError::AllowedMethodsCannotContainWildcard => "Allowed methods lists cannot include the wildcard (\"*\").".to_owned(),
            ValidationError::AllowedMethodsListContainsInvalidToken => "Allowed methods lists may only contain valid HTTP method tokens.".to_owned(),
            ValidationError::AllowedHeadersCannotContainEmptyToken => "Allowed headers lists cannot contain empty or whitespace-only entries.".to_owned(),
            ValidationError::ExposeHeadersCannotContainEmptyValue => "Exposed headers cannot contain empty or whitespace-only entries.".to_owned(),
            ValidationError::TimingAllowOriginWildcardNotAllowedWithCredentials => "Timing-Allow-Origin cannot be a wildcard when credentials are enabled.".to_owned(),
            ValidationError::TimingAllowOriginCannotContainEmptyValue => "Timing-Allow-Origin lists cannot contain empty or whitespace-only entries.".to_owned(),
        }
    }
}

/// Configuration entry point for the CORS engine.
///
/// Setters consume and return `Self` for fluent configuration chains. Use
/// [`CorsOptions::validate`] or [`Cors::new`](crate::cors::Cors::new) to
/// check that the configuration is internally consistent.
#[derive(Clone)]
pub struct CorsOptions {
    /// Defines which origins may access the resource.
    pub origin: Origin,
    /// Declares which HTTP methods are allowed for cross-origin requests.
    pub methods: AllowedMethods,
    /// Controls which request headers are allowed during preflight.
    pub allowed_headers: AllowedHeaders,
    /// Specifies which response headers should be exposed to the browser.
    pub exposed_headers: ExposedHeaders,
    /// Enables `Access-Control-Allow-Credentials` when set.
    pub credentials: bool,
    /// When present, sets the `Access-Control-Max-Age` header in seconds.
    pub max_age: Option<u64>,
    /// Allows treating the literal `Origin: null` as an allowed origin.
    pub allow_null_origin: bool,
    /// Enables `Access-Control-Allow-Private-Network` during preflight.
    pub allow_private_network: bool,
    /// Configures the `Timing-Allow-Origin` header.
    pub timing_allow_origin: Option<TimingAllowOrigin>,
}

/// One of `values` is blank once trimmed.
pub open spec fn has_blank(values: Seq<Seq<char>>) -> bool {
    exists|i: int| 0 <= i < values.len() && trim(#[trigger] values[i]).len() == 0
}

/// One of `values` is `*` once trimmed.
pub open spec fn has_trimmed_star(values: Seq<Seq<char>>) -> bool {
    exists|i: int| 0 <= i < values.len() && trim(#[trigger] values[i]) == seq!['*']
}

/// One of `values` is exactly `*`.
pub open spec fn has_star(values: Seq<Seq<char>>) -> bool {
    exists|i: int| 0 <= i < values.len() && #[trigger] values[i] == seq!['*']
}

/// One of `values`, trimmed, is not an HTTP token.
pub open spec fn has_non_token(values: Seq<Seq<char>>) -> bool {
    exists|i: int| 0 <= i < values.len() && !is_token(trim(#[trigger] values[i]))
}

/// The first misconfiguration of `o`, in the order the checks are made:
/// credentials against the wildcard origin and wildcard headers, the header
/// list's `*`, the method list, the header list, the exposed headers, private
/// network access, then `Timing-Allow-Origin`.
pub open spec fn validation_error(o: CorsOptions) -> Option<ValidationError> {
    let headers_list = match o.allowed_headers {
        AllowedHeaders::List(l) => Some(l@),
        AllowedHeaders::Any => None,
    };
    if o.credentials && o.origin is Any {
        Some(
            if o.allow_private_network {
                ValidationError::PrivateNetworkRequiresSpecificOrigin
            } else {
                ValidationError::CredentialsRequireSpecificOrigin
            },
        )
    } else if o.credentials && o.allowed_headers is Any {
        Some(ValidationError::AllowedHeadersAnyNotAllowedWithCredentials)
    } else if headers_list matches Some(l) && has_star(l) {
        Some(ValidationError::AllowedHeadersListCannotContainWildcard)
    } else if has_blank(o.methods@) {
        Some(ValidationError::AllowedMethodsCannotContainEmptyToken)
    } else if has_trimmed_star(o.methods@) {
        Some(ValidationError::AllowedMethodsCannotContainWildcard)
    } else if has_non_token(o.methods@) {
        Some(ValidationError::AllowedMethodsListContainsInvalidToken)
    } else if headers_list matches Some(l) && has_blank(l) {
        Some(ValidationError::AllowedHeadersCannotContainEmptyToken)
    } else if headers_list matches Some(l) && has_non_token(l) {
        Some(ValidationError::AllowedHeadersListContainsInvalidToken)
    } else if o.exposed_headers is Any && o.credentials {
        Some(ValidationError::ExposeHeadersWildcardRequiresCredentialsDisabled)
    } else if o.exposed_headers matches ExposedHeaders::List(l) && has_blank(l@) {
        Some(ValidationError::ExposeHeadersCannotContainEmptyValue)
    } else if o.exposed_headers matches ExposedHeaders::List(l) && has_non_token(l@) {
        Some(ValidationError::ExposeHeadersListContainsInvalidToken)
    } else if o.exposed_headers matches ExposedHeaders::List(l) && has_trimmed_star(l@) {
        Some(ValidationError::ExposeHeadersWildcardCannotBeCombined)
    } else if o.allow_private_network && !o.credentials {
        Some(ValidationError::PrivateNetworkRequiresCredentials)
    } else if o.credentials && o.timing_allow_origin matches Some(TimingAllowOrigin::Any) {
        Some(ValidationError::TimingAllowOriginWildcardNotAllowedWithCredentials)
    } else if o.timing_allow_origin matches Some(TimingAllowOrigin::List(v)) && has_blank(views(v@)) {
        Some(ValidationError::TimingAllowOriginCannotContainEmptyValue)
    } else {
        None
    }
}

/// Whether `o` passes validation.
pub open spec fn options_valid(o: CorsOptions) -> bool {
    validation_error(o) is None
}

/// With credentials enabled, a valid configuration uses no wildcard: not
/// for the origin, the allowed headers, the exposed headers or
/// `Timing-Allow-Origin`.
pub proof fn lemma_credentials_exclude_wildcards(o: CorsOptions)
    requires
        options_valid(o),
        o.credentials,
    ensures
        !(o.origin is Any),
        !(o.allowed_headers is Any),
        !(o.exposed_headers is Any),
        !(o.timing_allow_origin matches Some(TimingAllowOrigin::Any)),
{
}

/// A valid configuration allows private network access only with
/// credentials and a specific origin.
pub proof fn lemma_private_network_requirements(o: CorsOptions)
    requires
        options_valid(o),
        o.allow_private_network,
    ensures
        o.credentials,
        !(o.origin is Any),
{
}

/// The lists of a valid configuration hold only non-blank entries, and the
/// method and header lists only HTTP tokens, none of them `*`.
pub proof fn lemma_valid_lists(o: CorsOptions)
    requires
        options_valid(o),
    ensures
        !has_blank(o.methods@),
        !has_trimmed_star(o.methods@),
        !has_non_token(o.methods@),
        o.allowed_headers matches AllowedHeaders::List(l) ==> !has_star(l@) && !has_blank(l@) && !has_non_token(l@),
        o.exposed_headers matches ExposedHeaders::List(l) ==> !has_blank(l@) && !has_non_token(l@)
            && !has_trimmed_star(l@),
        o.timing_allow_origin matches Some(TimingAllowOrigin::List(v)) ==> !has_blank(views(v@)),
{
}

fn find_blank(values: &[String]) -> (r: bool)
    ensures
        r == has_blank(views(values@)),
{
    let mut i: usize = 0;
    while i < values.len()
        invariant
            i <= values@.len(),
            forall|k: int| 0 <= k < i ==> trim(#[trigger] views(values@)[k]).len() != 0,
        decreases values@.len() - i,
    {
        let t = trim_string(values[i].as_str());
        if t.as_str().is_empty() {
            assert(views(values@)[i as int] == values@[i as int]@);
            return true;
        }
        i = i + 1;
    }
    false
}

fn find_trimmed_star(values: &[String]) -> (r: bool)
    ensures
        r == has_trimmed_star(views(values@)),
{
    let star = "*".to_owned();
    proof {
        reveal_strlit("*");
        assert("*"@ =~= seq!['*']);
    }
    let mut i: usize = 0;
    while i < values.len()
        invariant
            i <= values@.len(),
            star@ == seq!['*'],
            forall|k: int| 0 <= k < i ==> trim(#[trigger] views(values@)[k]) != seq!['*'],
        decreases values@.len() - i,
    {
        let t = trim_string(values[i].as_str());
        if t == star {
            assert(views(values@)[i as int] == values@[i as int]@);
            return true;
        }
        i = i + 1;
    }
    false
}

fn find_star(values: &[String]) -> (r: bool)
    ensures
        r == has_star(views(values@)),
{
    let star = "*".to_owned();
    proof {
        reveal_strlit("*");
        assert("*"@ =~= seq!['*']);
    }
    let mut i: usize = 0;
    while i < values.len()
        invariant
            i <= values@.len(),
            star@ == seq!['*'],
            forall|k: int| 0 <= k < i ==> #[trigger] views(values@)[k] != seq!['*'],
        decreases values@.len() - i,
    {
        if values[i] == star {
            assert(views(values@)[i as int] == values@[i as int]@);
            return true;
        }
        i = i + 1;
    }
    false
}

fn find_non_token(values: &[String]) -> (r: bool)
    ensures
        r == has_non_token(views(values@)),
{
    let mut i: usize = 0;
    while i < values.len()
        invariant
            i <= values@.len(),
            forall|k: int| 0 <= k < i ==> is_token(trim(#[trigger] views(values@)[k])),
        decreases values@.len() - i,
    {
        let t = trim_string(values[i].as_str());
        if !is_http_token(t.as_str()) {
            assert(views(values@)[i as int] == values@[i as int]@);
            return true;
        }
        i = i + 1;
    }
    false
}

impl Default for CorsOptions {
    /// Any origin; GET, HEAD, PUT, PATCH, POST and DELETE; no allowed or
    /// exposed headers; no credentials, max age, null origin, private
    /// network access or timing header.
    fn default() -> (r: Self)
        ensures
            r.origin is Any,
            r.methods@ == AllowedMethods::default_methods(),
            r.allowed_headers matches AllowedHeaders::List(l) && l@.len() == 0,
            r.exposed_headers matches ExposedHeaders::List(l) && l@.len() == 0,
            !r.credentials,
            r.max_age is None,
            !r.allow_null_origin,
            !r.allow_private_network,
            r.timing_allow_origin is None,
    {
        CorsOptions {
            origin: Origin::Any,
            methods: AllowedMethods::default(),
            allowed_headers: AllowedHeaders::default(),
            exposed_headers: ExposedHeaders::default(),
            credentials: false,
            max_age: None,
            allow_null_origin: false,
            allow_private_network: false,
            timing_allow_origin: None,
        }
    }
}

impl CorsOptions {
    /// The default configuration.
    pub fn new() -> (r: Self)
        ensures
            r.origin is Any,
            r.methods@ == AllowedMethods::default_methods(),
            r.allowed_headers matches AllowedHeaders::List(l) && l@.len() == 0,
            r.exposed_headers matches ExposedHeaders::List(l) && l@.len() == 0,
            !r.credentials,
            r.max_age is None,
            !r.allow_null_origin,
            !r.allow_private_network,
            r.timing_allow_origin is None,
    {
        Self::default()
    }

    /// Sets the allowed origin policy.
    pub fn origin(self, origin: Origin) -> (r: Self)
        ensures
            r == (CorsOptions { origin, ..self }),
    {
        CorsOptions { origin, ..self }
    }

    /// Replaces the allowed methods list.
    pub fn methods(self, methods: AllowedMethods) -> (r: Self)
        ensures
            r == (CorsOptions { methods, ..self }),
    {
        CorsOptions { methods, ..self }
    }

    /// Replaces the allowed headers configuration.
    pub fn allowed_headers(self, allowed_headers: AllowedHeaders) -> (r: Self)
        ensures
            r == (CorsOptions { allowed_headers, ..self }),
    {
        CorsOptions { allowed_headers, ..self }
    }

    /// Replaces the exposed headers configuration.
    pub fn exposed_headers(self, exposed_headers: ExposedHeaders) -> (r: Self)
        ensures
            r == (CorsOptions { exposed_headers, ..self }),
    {
        CorsOptions { exposed_headers, ..self }
    }

    /// Enables or disables credential support.
    pub fn credentials(self, enabled: bool) -> (r: Self)
        ensures
            r == (CorsOptions { credentials: enabled, ..self }),
    {
        CorsOptions { credentials: enabled, ..self }
    }

    /// Sets the `Access-Control-Max-Age` header to `value` seconds.
    pub fn max_age(self, value: u64) -> (r: Self)
        ensures
            r == (CorsOptions { max_age: Some(value), ..self }),
    {
        CorsOptions { max_age: Some(value), ..self }
    }

    /// Grants or revokes support for `Origin: null` requests.
    pub fn allow_null_origin(self, enabled: bool) -> (r: Self)
        ensures
            r == (CorsOptions { allow_null_origin: enabled, ..self }),
    {
        CorsOptions { allow_null_origin: enabled, ..self }
    }

    /// Enables or disables private network preflight support.
    pub fn allow_private_network(self, enabled: bool) -> (r: Self)
        ensures
            r == (CorsOptions { allow_private_network: enabled, ..self }),
    {
        CorsOptions { allow_private_network: enabled, ..self }
    }

    /// Replaces the `Timing-Allow-Origin` configuration.
    pub fn timing_allow_origin(self, value: TimingAllowOrigin) -> (r: Self)
        ensures
            r == (CorsOptions { timing_allow_origin: Some(value), ..self }),
    {
        CorsOptions { timing_allow_origin: Some(value), ..self }
    }

    /// Checks that the configuration adheres to the CORS specification;
    /// fails with the first misconfiguration found.
    pub fn validate(&self) -> (r: Result<(), ValidationError>)
        ensures
            r matches Ok(_) <==> options_valid(*self),
            r matches Err(e) ==> validation_error(*self) == Some(e),
    {
        if self.credentials && matches!(self.origin, Origin::Any) {
            if self.allow_private_network {
                return Err(ValidationError::PrivateNetworkRequiresSpecificOrigin);
            }
            return Err(ValidationError::CredentialsRequireSpecificOrigin);
        }
        if self.credentials && matches!(self.allowed_headers, AllowedHeaders::Any) {
            return Err(ValidationError::AllowedHeadersAnyNotAllowedWithCredentials);
        }
        if let AllowedHeaders::List(values) = &self.allowed_headers {
            if find_star(values.values()) {
                return Err(ValidationError::AllowedHeadersListCannotContainWildcard);
            }
        }
        let methods = self.methods.as_slice();
        if find_blank(methods) {
            return Err(ValidationError::AllowedMethodsCannotContainEmptyToken);
        }
        if find_trimmed_star(methods) {
            return Err(ValidationError::AllowedMethodsCannotContainWildcard);
        }
        if find_non_token(methods) {
            return Err(ValidationError::AllowedMethodsListContainsInvalidToken);
        }
        if let AllowedHeaders::List(values) = &self.allowed_headers {
            if find_blank(values.values()) {
                return Err(ValidationError::AllowedHeadersCannotContainEmptyToken);
            }
            if find_non_token(values.values()) {
                return Err(ValidationError::AllowedHeadersListContainsInvalidToken);
            }
        }
        match &self.exposed_headers {
            ExposedHeaders::Any => {
                if self.credentials {
                    return Err(ValidationError::ExposeHeadersWildcardRequiresCredentialsDisabled);
                }
            },
            ExposedHeaders::List(values) => {
                if find_blank(values.values()) {
                    return Err(ValidationError::ExposeHeadersCannotContainEmptyValue);
                }
                if find_non_token(values.values()) {
                    return Err(ValidationError::ExposeHeadersListContainsInvalidToken);
                }
                if find_trimmed_star(values.values()) {
                    return Err(ValidationError::ExposeHeadersWildcardCannotBeCombined);
                }
            },
        }
        if self.allow_private_network && !self.credentials {
            return Err(ValidationError::PrivateNetworkRequiresCredentials);
        }
        if self.credentials && matches!(self.timing_allow_origin, Some(TimingAllowOrigin::Any)) {
            return Err(ValidationError::TimingAllowOriginWildcardNotAllowedWithCredentials);
        }
        if let Some(TimingAllowOrigin::List(values)) = &self.timing_allow_origin {
            if find_blank(values.as_slice()) {
                return Err(ValidationError::TimingAllowOriginCannotContainEmptyValue);
            }
        }
        Ok(())
    }
}

} // verus!
