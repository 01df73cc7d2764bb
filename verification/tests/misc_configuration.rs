use bunner_cors_rs::constants::{header, method};
use bunner_cors_rs::util::IntoStringList;
#[allow(unused_imports)]
use bunner_cors_rs::{
    AllowedHeaders, AllowedMethods, Cors, CorsDecision, CorsOptions, ExposedHeaders, Headers, Origin, OriginDecision,
    OriginMatcher, PatternError, PreflightRejectionReason, RequestContext, TimingAllowOrigin, ValidationError,
};

#[allow(dead_code)]
fn header_value<'a>(headers: &'a Headers, name: &str) -> Option<&'a str> {
    headers.iter().find(|(k, _)| k.eq_ignore_ascii_case(name)).map(|(_, v)| v.as_str())
}

#[allow(dead_code)]
fn has_header(headers: &Headers, name: &str) -> bool {
    header_value(headers, name).is_some()
}

#[allow(dead_code)]
fn vary_values(headers: &Headers) -> std::collections::HashSet<String> {
    header_value(headers, header::VARY)
        .map(|value| {
            value
                .split(',')
                .map(|part| part.trim().to_string())
                .filter(|part| !part.is_empty())
                .collect::<std::collections::HashSet<_>>()
        })
        .unwrap_or_default()
}

#[allow(dead_code)]
fn assert_simple(decision: CorsDecision) -> Headers {
    match decision {
        CorsDecision::SimpleAccepted { headers } => headers,
        CorsDecision::SimpleRejected(rejection) => rejection.headers,
        other => panic!("expected simple decision, got {:?}", other),
    }
}

#[allow(dead_code)]
fn assert_preflight(decision: CorsDecision) -> Headers {
    match decision {
        CorsDecision::PreflightAccepted { headers } => headers,
        CorsDecision::PreflightRejected(rejection) => rejection.headers,
        other => panic!("expected preflight decision, got {:?}", other),
    }
}

#[allow(dead_code)]
fn assert_header_eq(headers: &Headers, name: &str, expected: &str) {
    match header_value(headers, name) {
        Some(value) => assert_eq!(value, expected, "expected {name} to be {expected}, got {value}"),
        None => panic!("expected header {name} to equal {expected}, but header was missing"),
    }
}

#[allow(dead_code)]
fn assert_vary_eq<I, S>(headers: &Headers, expected: I)
where
    I: IntoIterator<Item = S>,
    S: AsRef<str>,
{
    let actual = vary_values(headers);
    let expected_set: std::collections::HashSet<String> =
        expected.into_iter().map(|value| value.as_ref().to_string()).collect();

    assert_eq!(actual, expected_set, "expected Vary {:?}, got {:?}", expected_set, actual);
}

#[allow(dead_code)]
fn assert_vary_contains(headers: &Headers, name: &str) {
    let values = vary_values(headers);
    assert!(values.contains(name), "expected Vary to contain {name}, actual values were {:?}", values);
}

#[allow(dead_code)]
fn assert_vary_not_contains(headers: &Headers, name: &str) {
    let values = vary_values(headers);
    assert!(!values.contains(name), "expected Vary to not contain {name}, actual values were {:?}", values);
}

#[allow(dead_code)]
fn assert_vary_is_empty(headers: &Headers) {
    let values = vary_values(headers);
    assert!(values.is_empty(), "expected Vary to be empty, actual values were {:?}", values);
}

#[derive(Default)]
struct CorsBuilder {
    origin: Option<Origin>,
    methods: Option<AllowedMethods>,
    allowed_headers: Option<AllowedHeaders>,
    exposed_headers: Option<ExposedHeaders>,
    credentials: Option<bool>,
    max_age: Option<u64>,
    allow_null_origin: Option<bool>,
    private_network: Option<bool>,
    timing_allow_origin: Option<TimingAllowOrigin>,
}

#[allow(dead_code)]
impl CorsBuilder {
    fn new() -> Self {
        Self::default()
    }

    fn origin(mut self, origin: Origin) -> Self {
        self.origin = Some(origin);
        self
    }

    fn methods<I: IntoStringList>(mut self, methods: I) -> Self {
        self.methods = Some(AllowedMethods::list(methods));
        self
    }

    fn allowed_headers(mut self, headers: AllowedHeaders) -> Self {
        self.allowed_headers = Some(headers);
        self
    }

    fn exposed_headers<I: IntoStringList>(mut self, headers: I) -> Self {
        self.exposed_headers = Some(ExposedHeaders::list(headers));
        self
    }

    fn exposed_headers_config(mut self, headers: ExposedHeaders) -> Self {
        self.exposed_headers = Some(headers);
        self
    }

    fn credentials(mut self, enabled: bool) -> Self {
        self.credentials = Some(enabled);
        self
    }

    fn max_age(mut self, value: u64) -> Self {
        self.max_age = Some(value);
        self
    }

    fn allow_null_origin(mut self, enabled: bool) -> Self {
        self.allow_null_origin = Some(enabled);
        self
    }

    fn private_network(mut self, enabled: bool) -> Self {
        self.private_network = Some(enabled);
        self
    }

    fn timing_allow_origin(mut self, timing: TimingAllowOrigin) -> Self {
        self.timing_allow_origin = Some(timing);
        self
    }

    fn build(self) -> Cors {
        let CorsOptions {
            origin: default_origin,
            methods: default_methods,
            allowed_headers: default_allowed_headers,
            exposed_headers: default_exposed_headers,
            credentials: default_credentials,
            max_age: default_max_age,
            allow_null_origin: default_allow_null_origin,
            allow_private_network: default_private_network,
            timing_allow_origin: default_timing_allow_origin,
        } = CorsOptions::default();

        let mut origin = self.origin.unwrap_or(default_origin);
        let credentials = self.credentials.unwrap_or(default_credentials);

        if credentials {
            origin = match origin {
                Origin::Any => Origin::predicate(|_, _| true),
                other => other,
            };
        }

        Cors::new(CorsOptions {
            origin,
            methods: self.methods.unwrap_or(default_methods),
            allowed_headers: self.allowed_headers.unwrap_or(default_allowed_headers),
            exposed_headers: self.exposed_headers.unwrap_or(default_exposed_headers),
            credentials,
            max_age: self.max_age.or(default_max_age),
            allow_null_origin: self.allow_null_origin.unwrap_or(default_allow_null_origin),
            allow_private_network: self.private_network.unwrap_or(default_private_network),
            timing_allow_origin: self.timing_allow_origin.or(default_timing_allow_origin),
        })
        .expect("valid CORS configuration")
    }
}

struct SimpleRequestBuilder {
    method: String,
    origin: Option<String>,
    private_network: bool,
}

#[allow(dead_code)]
impl SimpleRequestBuilder {
    fn new() -> Self {
        Self { method: method::GET.into(), origin: None, private_network: false }
    }

    fn method(mut self, method: impl Into<String>) -> Self {
        self.method = method.into();
        self
    }

    fn origin(mut self, origin: impl Into<String>) -> Self {
        self.origin = Some(origin.into());
        self
    }

    fn private_network(mut self, enabled: bool) -> Self {
        self.private_network = enabled;
        self
    }

    fn check(self, cors: &Cors) -> CorsDecision {
        let SimpleRequestBuilder { method, origin, private_network } = self;
        let ctx = RequestContext {
            method: &method,
            origin: origin.as_deref(),
            access_control_request_method: None,
            access_control_request_headers: None,
            access_control_request_private_network: private_network,
        };
        cors.check(&ctx).expect("simple request evaluation should succeed")
    }
}

#[derive(Default)]
struct PreflightRequestBuilder {
    origin: Option<String>,
    request_method: Option<String>,
    request_headers: Option<String>,
    private_network: bool,
}

#[allow(dead_code)]
impl PreflightRequestBuilder {
    fn new() -> Self {
        Self::default()
    }

    fn origin(mut self, origin: impl Into<String>) -> Self {
        self.origin = Some(origin.into());
        self
    }

    fn request_method(mut self, method: impl Into<String>) -> Self {
        self.request_method = Some(method.into());
        self
    }

    fn request_headers(mut self, headers: impl Into<String>) -> Self {
        self.request_headers = Some(headers.into());
        self
    }

    fn private_network(mut self, enabled: bool) -> Self {
        self.private_network = enabled;
        self
    }

    fn check(self, cors: &Cors) -> CorsDecision {
        let PreflightRequestBuilder { origin, request_method, request_headers, private_network } = self;

        let ctx = RequestContext {
            method: method::OPTIONS,
            origin: origin.as_deref(),
            access_control_request_method: request_method.as_deref(),
            access_control_request_headers: request_headers.as_deref(),
            access_control_request_private_network: private_network,
        };
        cors.check(&ctx).expect("preflight request evaluation should succeed")
    }
}

#[allow(dead_code)]
fn cors() -> CorsBuilder {
    CorsBuilder::new()
}

#[allow(dead_code)]
fn simple_request() -> SimpleRequestBuilder {
    SimpleRequestBuilder::new()
}

#[allow(dead_code)]
fn preflight_request() -> PreflightRequestBuilder {
    PreflightRequestBuilder::new()
}




#[test]
fn should_emit_max_age_when_configured_then_include_in_preflight_response() {
    let cors = cors().max_age(600).build();

    let headers = assert_preflight(
        preflight_request()
            .origin("https://foo.bar")
            .request_method(method::GET)
            .check(&cors),
    );

    assert_eq!(
        header_value(&headers, header::ACCESS_CONTROL_MAX_AGE),
        Some("600"),
    );
}

#[test]
fn should_omit_max_age_when_not_configured_then_skip_header() {
    let cors = cors().build();

    let headers = assert_preflight(
        preflight_request()
            .origin("https://foo.bar")
            .request_method(method::GET)
            .check(&cors),
    );

    assert!(!has_header(&headers, header::ACCESS_CONTROL_MAX_AGE));
}

#[test]
fn should_emit_zero_max_age_when_configured_then_include_header() {
    let cors = cors().max_age(0).build();

    let headers = assert_preflight(
        preflight_request()
            .origin("https://foo.bar")
            .request_method(method::GET)
            .check(&cors),
    );

    assert_eq!(
        header_value(&headers, header::ACCESS_CONTROL_MAX_AGE),
        Some("0"),
    );
}

#[test]
fn should_reject_preflight_when_methods_list_empty_then_return_rejection() {
    let cors = cors().methods(Vec::<String>::new()).build();

    let decision = preflight_request()
        .origin("https://foo.bar")
        .request_method(method::PATCH)
        .check(&cors);

    match decision {
        CorsDecision::PreflightRejected(rejection) => assert_eq!(
            rejection.reason,
            PreflightRejectionReason::MethodNotAllowed {
                requested_method: "patch".to_string(),
            }
        ),
        other => panic!("expected preflight rejection, got {:?}", other),
    }
}

#[test]
fn should_emit_vary_origin_when_origin_list_configured_then_include_header() {
    let cors = cors()
        .origin(Origin::list(["https://foo.bar", "https://bar.baz"]))
        .build();

    let headers = assert_preflight(
        preflight_request()
            .origin("https://foo.bar")
            .request_method(method::GET)
            .check(&cors),
    );

    assert_vary_contains(&headers, header::ORIGIN);
}

#[test]
fn should_omit_vary_origin_when_origin_allows_any_then_skip_header() {
    let cors = cors().origin(Origin::any()).build();

    let headers = assert_preflight(
        preflight_request()
            .origin("https://foo.bar")
            .request_method(method::GET)
            .check(&cors),
    );

    assert_vary_not_contains(&headers, header::ORIGIN);
}
