//! The engine: evaluates requests against a validated configuration.
use vstd::prelude::*;
use crate::allowed_headers::request_headers_allowed;
use crate::allowed_methods::method_allowed;
use crate::context::{RequestContext, RequestView};
use crate::constants::header;
use crate::header_builder::{
    allowed_headers_model, credentials_model, exposed_model, lemma_vary_origin_entries, max_age_model, methods_model,
    lemma_parts_keep_lead, null_origin, origin_admits, origin_step, present, private_network_model, step_view,
    timing_model, vary_origin, HeaderBuilder,
};
use crate::headers::{
    add_vary_model, entries_model, extend_model, has_entry, has_name, lemma_lead_entries, leads_with_allow_origin, put_model,
    HeaderCollection, HeaderModel,
};
use crate::normalized_request::{normalized_optional, NormalizedRequest};
use crate::options::{options_valid, validation_error, CorsOptions, ValidationError};
use crate::origin::{
    byte_len, callback_may_answer, is_self_decided, predicate_may_answer, DecisionKind, Origin, OriginCallback,
    OriginDecision, MAX_ORIGIN_LENGTH,
};
use crate::result::{
    outcome_view, CorsDecision, CorsError, DecisionView, HeaderList, PreflightRejection, PreflightRejectionReason,
    ReasonView, SimpleRejection, SimpleRejectionReason,
};
use crate::text::{str_trim, trim};
use crate::util::{lemma_ascii_lower_len, lower, same_ignoring_ascii_case};

verus! {

/// A request's components once normalized: the method lowercased, the
/// optional headers trimmed and lowercased, blank ones dropped.
pub open spec fn normalized_view(r: RequestView) -> RequestView {
    RequestView {
        method: lower(r.method),
        origin: normalized_optional(r.origin),
        access_control_request_method: normalized_optional(r.access_control_request_method),
        access_control_request_headers: normalized_optional(r.access_control_request_headers),
        access_control_request_private_network: r.access_control_request_private_network,
    }
}

/// The method a preflight asks for, when it names one that is not blank.
pub open spec fn requested_method(normalized: RequestView) -> Option<Seq<char>> {
    match normalized.access_control_request_method {
        Some(m) => if trim(m).len() > 0 {
            Some(m)
        } else {
            None
        },
        None => None,
    }
}

/// The headers of an accepted preflight: the origin headers, then
/// credentials, methods, allowed headers, private network access and max
/// age.
pub open spec fn preflight_headers(o: CorsOptions, original: RequestView, h: HeaderModel) -> HeaderModel {
    extend_model(
        extend_model(
            extend_model(extend_model(extend_model(h, credentials_model(o)), methods_model(o)), allowed_headers_model(o)),
            private_network_model(o, original),
        ),
        max_age_model(o),
    )
}

/// The headers of an accepted simple request: the origin headers, then
/// credentials, private network access, exposed headers and
/// `Timing-Allow-Origin`.
pub open spec fn simple_headers(o: CorsOptions, original: RequestView, h: HeaderModel) -> HeaderModel {
    extend_model(
        extend_model(extend_model(extend_model(h, credentials_model(o)), private_network_model(o, original)), exposed_model(o)),
        timing_model(o),
    )
}

/// A preflight for method `m` after the origin step: skipped, rejected for
/// its origin, its method or its headers (in that order), or accepted.
pub open spec fn preflight_from_step(
    o: CorsOptions,
    original: RequestView,
    normalized: RequestView,
    m: Seq<char>,
    step: Result<(HeaderModel, DecisionKind), CorsError>,
) -> Result<DecisionView, CorsError> {
    match step {
        Err(e) => Err(e),
        Ok((h, k)) => if k == DecisionKind::Skip {
            Ok(DecisionView::NotApplicable)
        } else if k == DecisionKind::Disallow {
            Ok(DecisionView::PreflightRejected(entries_model(h), ReasonView::OriginNotAllowed))
        } else if !method_allowed(o.methods@, m) {
            Ok(DecisionView::PreflightRejected(entries_model(h), ReasonView::MethodNotAllowed(m)))
        } else if normalized.access_control_request_headers matches Some(rh) && !request_headers_allowed(
            o.allowed_headers,
            rh,
        ) {
            Ok(
                DecisionView::PreflightRejected(
                    entries_model(h),
                    ReasonView::HeadersNotAllowed(normalized.access_control_request_headers->0),
                ),
            )
        } else {
            Ok(DecisionView::PreflightAccepted(entries_model(preflight_headers(o, original, h))))
        },
    }
}

/// A simple request after the origin step: skipped, rejected for its
/// origin, not applicable for a method that is not allowed, or accepted.
pub open spec fn simple_from_step(
    o: CorsOptions,
    original: RequestView,
    normalized: RequestView,
    step: Result<(HeaderModel, DecisionKind), CorsError>,
) -> Result<DecisionView, CorsError> {
    match step {
        Err(e) => Err(e),
        Ok((h, k)) => if k == DecisionKind::Skip {
            Ok(DecisionView::NotApplicable)
        } else if k == DecisionKind::Disallow {
            Ok(DecisionView::SimpleRejected(entries_model(h)))
        } else if !method_allowed(o.methods@, normalized.method) {
            Ok(DecisionView::NotApplicable)
        } else {
            Ok(DecisionView::SimpleAccepted(entries_model(simple_headers(o, original, h))))
        },
    }
}

/// The outcome of a preflight asking for method `m` when the origin
/// resolves to `d`.
pub open spec fn preflight_outcome(o: CorsOptions, original: RequestView, normalized: RequestView, m: Seq<char>, d: DecisionKind) -> Result<DecisionView, CorsError> {
    preflight_from_step(o, original, normalized, m, origin_step(o, original.origin, d))
}

/// The outcome of a simple request when the origin resolves to `d`.
pub open spec fn simple_outcome(o: CorsOptions, original: RequestView, normalized: RequestView, d: DecisionKind) -> Result<DecisionView, CorsError> {
    simple_from_step(o, original, normalized, origin_step(o, original.origin, d))
}

/// The method `options`.
pub open spec fn options_method() -> Seq<char> {
    seq!['o', 'p', 't', 'i', 'o', 'n', 's']
}

/// Whether `request` is evaluated as a preflight.
pub open spec fn is_preflight(request: RequestView) -> bool {
    normalized_view(request).method == options_method()
}

/// The outcomes `check` may give for `request` under `o`: a preflight
/// without a requested method is not applicable; otherwise the outcome for
/// one of the decisions the origin may resolve to.
pub open spec fn check_admits(o: CorsOptions, request: RequestView, r: Result<DecisionView, CorsError>) -> bool {
    let n = normalized_view(request);
    if is_preflight(request) {
        match requested_method(n) {
            None => r == Ok::<DecisionView, CorsError>(DecisionView::NotApplicable),
            Some(m) => exists|d: DecisionKind| #[trigger] origin_admits(o, n, d) && r == preflight_outcome(o, request, n, m, d),
        }
    } else {
        exists|d: DecisionKind| #[trigger] origin_admits(o, n, d) && r == simple_outcome(o, request, n, d)
    }
}

/// Evaluates incoming requests against a validated [`CorsOptions`].
pub struct Cors {
    options: CorsOptions,
}

impl Cors {
    #[verifier::type_invariant]
    spec fn configuration_is_valid(self) -> bool {
        options_valid(self.options)
    }

    /// The configuration the engine evaluates against.
    pub closed spec fn options(&self) -> CorsOptions {
        self.options
    }

    /// Creates an engine after validating `options`; fails with the first
    /// misconfiguration found.
    pub fn new(options: CorsOptions) -> (r: Result<Self, ValidationError>)
        ensures
            r is Ok <==> options_valid(options),
            r matches Ok(c) ==> c.options() == options,
            r matches Err(e) ==> validation_error(options) == Some(e),
    {
        match options.validate() {
            Ok(()) => Ok(Cors { options }),
            Err(e) => Err(e),
        }
    }

    /// Evaluates `request`: a request whose lowercased method is `options`
    /// takes the preflight path, any other the simple path.
    pub fn check(&self, request: &RequestContext<'_>) -> (r: Result<CorsDecision, CorsError>)
        ensures
            options_valid(self.options()),
            check_admits(self.options(), request@, outcome_view(r)),
    {
        proof {
            use_type_invariant(self);
        }
        let normalized_request = NormalizedRequest::new(request);
        let normalized = normalized_request.as_context();
        assert(normalized@ == normalized_view(request@));
        if normalized_request.is_options() {
            self.process_preflight(request, &normalized)
        } else {
            self.process_simple(request, &normalized)
        }
    }

    /// The preflight path.
    pub fn process_preflight(&self, original: &RequestContext<'_>, normalized: &RequestContext<'_>) -> (r: Result<
        CorsDecision,
        CorsError,
    >)
        ensures
            requested_method(normalized@) is None ==> outcome_view(r) == Ok::<DecisionView, CorsError>(
                DecisionView::NotApplicable,
            ),
            requested_method(normalized@) matches Some(m) ==> exists|d: DecisionKind| #[trigger] origin_admits(
                self.options(),
                normalized@,
                d,
            ) && outcome_view(r) == preflight_outcome(self.options(), original@, normalized@, m, d),
    {
        let requested = match normalized.access_control_request_method {
            Some(m) => if str_trim(m).is_empty() {
                None
            } else {
                Some(m)
            },
            None => None,
        };
        let method = match requested {
            Some(m) => m,
            None => return Ok(CorsDecision::NotApplicable),
        };
        let builder = HeaderBuilder::new(&self.options);
        let step = builder.build_origin_headers(original, normalized);
        let ghost d = choose|d: DecisionKind|
            origin_admits(self.options(), normalized@, d) && step_view(step) == origin_step(
                self.options(),
                original@.origin,
                d,
            );
        let r = self.finish_preflight(&builder, original, normalized, method, step);
        assert(origin_admits(self.options(), normalized@, d));
        r
    }

    fn finish_preflight(
        &self,
        builder: &HeaderBuilder<'_>,
        original: &RequestContext<'_>,
        normalized: &RequestContext<'_>,
        method: &str,
        step: Result<(HeaderCollection, OriginDecision), CorsError>,
    ) -> (r: Result<CorsDecision, CorsError>)
        requires
            builder.options() == self.options(),
        ensures
            outcome_view(r) == preflight_from_step(self.options(), original@, normalized@, method@, step_view(step)),
    {
        let (mut headers, decision) = match step {
            Ok(pair) => pair,
            Err(e) => return Err(e),
        };
        match decision {
            OriginDecision::Skip => return Ok(CorsDecision::NotApplicable),
            OriginDecision::Disallow => {
                return Ok(
                    CorsDecision::PreflightRejected(
                        PreflightRejection {
                            headers: headers.into_headers(),
                            reason: PreflightRejectionReason::OriginNotAllowed,
                        },
                    ),
                );
            },
            _ => {},
        }
        if !self.options.methods.allows_method(method) {
            return Ok(
                CorsDecision::PreflightRejected(
                    PreflightRejection {
                        headers: headers.into_headers(),
                        reason: PreflightRejectionReason::MethodNotAllowed { requested_method: method.to_owned() },
                    },
                ),
            );
        }
        if let Some(requested_headers) = normalized.access_control_request_headers {
            if !self.options.allowed_headers.allows_headers(requested_headers) {
                return Ok(
                    CorsDecision::PreflightRejected(
                        PreflightRejection {
                            headers: headers.into_headers(),
                            reason: PreflightRejectionReason::HeadersNotAllowed {
                                requested_headers: requested_headers.to_owned(),
                            },
                        },
                    ),
                );
            }
        }
        headers.extend(builder.build_credentials_header());
        headers.extend(builder.build_methods_header());
        headers.extend(builder.build_allowed_headers());
        headers.extend(builder.build_private_network_header(original));
        headers.extend(builder.build_max_age_header());
        Ok(CorsDecision::PreflightAccepted { headers: headers.into_headers() })
    }

    /// The simple-request path.
    pub fn process_simple(&self, original: &RequestContext<'_>, normalized: &RequestContext<'_>) -> (r: Result<
        CorsDecision,
        CorsError,
    >)
        ensures
            exists|d: DecisionKind| #[trigger] origin_admits(self.options(), normalized@, d) && outcome_view(r)
                == simple_outcome(self.options(), original@, normalized@, d),
    {
        let builder = HeaderBuilder::new(&self.options);
        let step = builder.build_origin_headers(original, normalized);
        let ghost d = choose|d: DecisionKind|
            origin_admits(self.options(), normalized@, d) && step_view(step) == origin_step(
                self.options(),
                original@.origin,
                d,
            );
        let r = self.finish_simple(&builder, original, normalized, step);
        assert(origin_admits(self.options(), normalized@, d));
        r
    }

    fn finish_simple(
        &self,
        builder: &HeaderBuilder<'_>,
        original: &RequestContext<'_>,
        normalized: &RequestContext<'_>,
        step: Result<(HeaderCollection, OriginDecision), CorsError>,
    ) -> (r: Result<CorsDecision, CorsError>)
        requires
            builder.options() == self.options(),
        ensures
            outcome_view(r) == simple_from_step(self.options(), original@, normalized@, step_view(step)),
    {
        let (mut headers, decision) = match step {
            Ok(pair) => pair,
            Err(e) => return Err(e),
        };
        match decision {
            OriginDecision::Skip => return Ok(CorsDecision::NotApplicable),
            OriginDecision::Disallow => {
                return Ok(
                    CorsDecision::SimpleRejected(
                        SimpleRejection {
                            headers: headers.into_headers(),
                            reason: SimpleRejectionReason::OriginNotAllowed,
                        },
                    ),
                );
            },
            _ => {},
        }
        if !self.options.methods.allows_method(normalized.method) {
            return Ok(CorsDecision::NotApplicable);
        }
        headers.extend(builder.build_credentials_header());
        headers.extend(builder.build_private_network_header(original));
        headers.extend(builder.build_exposed_headers());
        headers.extend(builder.build_timing_allow_origin_header());
        Ok(CorsDecision::SimpleAccepted { headers: headers.into_headers() })
    }
}

/// Whether `d` is what the policy's user function may answer when it is
/// handed the normalized request `n` and its origin: a custom callback's
/// decision, or a predicate's yes (mirror) or no (disallow).
pub open spec fn user_function_decides(o: CorsOptions, n: RequestView, d: DecisionKind) -> bool {
    match o.origin {
        Origin::Custom(OriginCallback::Function(f)) => callback_may_answer(f, present(n.origin), n, d),
        Origin::Predicate(p) => match present(n.origin) {
            Some(x) => (d == DecisionKind::Mirror && predicate_may_answer(p, x, n, true)) || (d == DecisionKind::Disallow
                && predicate_may_answer(p, x, n, false)),
            None => false,
        },
        _ => false,
    }
}

/// A user predicate or callback decides on the normalized request: the
/// outcome of a request that it settles comes from an answer it may give
/// when handed the request's normalized origin and the normalized request
/// itself (method lowercased; origin, requested method and requested headers
/// normalized), not the request as sent.
pub proof fn lemma_user_functions_see_normalized_request(o: CorsOptions, request: RequestView, r: Result<DecisionView, CorsError>)
    requires
        o.origin is Predicate || o.origin matches Origin::Custom(OriginCallback::Function(_)),
        o.origin is Predicate ==> present(normalized_view(request).origin) is Some,
        !(present(normalized_view(request).origin) == Some(null_origin()) && !o.allow_null_origin),
        !(present(normalized_view(request).origin) matches Some(s) && byte_len(s) > MAX_ORIGIN_LENGTH),
        check_admits(o, request, r),
    ensures
        is_preflight(request) ==> (requested_method(normalized_view(request)) matches Some(m) ==> exists|d: DecisionKind|
            #[trigger] user_function_decides(o, normalized_view(request), d) && r == preflight_outcome(
                o,
                request,
                normalized_view(request),
                m,
                d,
            )),
        !is_preflight(request) ==> exists|d: DecisionKind|
            #[trigger] user_function_decides(o, normalized_view(request), d) && r == simple_outcome(
                o,
                request,
                normalized_view(request),
                d,
            ),
{
    let n = normalized_view(request);
    if is_preflight(request) {
        if let Some(m) = requested_method(n) {
            let d = choose|d: DecisionKind| #[trigger] origin_admits(o, n, d) && r == preflight_outcome(o, request, n, m, d);
            assert(user_function_decides(o, n, d));
        }
    } else {
        let d = choose|d: DecisionKind| #[trigger] origin_admits(o, n, d) && r == simple_outcome(o, request, n, d);
        assert(user_function_decides(o, n, d));
    }
}

/// Whether a normalized request `n` resolves to a single decision: true of
/// every policy that neither a caller-compiled regex, a predicate nor a
/// callback decides.
pub proof fn lemma_self_decided_resolves_once(o: CorsOptions, n: RequestView, d1: DecisionKind, d2: DecisionKind)
    requires
        is_self_decided(o.origin),
        origin_admits(o, n, d1),
        origin_admits(o, n, d2),
    ensures
        d1 == d2,
{
}

/// For a policy that neither a pattern, a predicate nor a callback decides,
/// the outcome of evaluating a request is a function of the configuration
/// and the request: any two outcomes `check` may give agree.
pub proof fn lemma_self_decided_check_is_deterministic(
    o: CorsOptions,
    request: RequestView,
    r1: Result<DecisionView, CorsError>,
    r2: Result<DecisionView, CorsError>,
)
    requires
        is_self_decided(o.origin),
        check_admits(o, request, r1),
        check_admits(o, request, r2),
    ensures
        r1 == r2,
{
    let n = normalized_view(request);
    if is_preflight(request) {
        if let Some(m) = requested_method(n) {
            let d1 = choose|d: DecisionKind| #[trigger] origin_admits(o, n, d) && r1 == preflight_outcome(o, request, n, m, d);
            let d2 = choose|d: DecisionKind| #[trigger] origin_admits(o, n, d) && r2 == preflight_outcome(o, request, n, m, d);
            lemma_self_decided_resolves_once(o, n, d1, d2);
        }
    } else {
        let d1 = choose|d: DecisionKind| #[trigger] origin_admits(o, n, d) && r1 == simple_outcome(o, request, n, d);
        let d2 = choose|d: DecisionKind| #[trigger] origin_admits(o, n, d) && r2 == simple_outcome(o, request, n, d);
        lemma_self_decided_resolves_once(o, n, d1, d2);
    }
}

/// With a valid configuration, evaluating a request fails only through a
/// user-supplied origin callback: no other policy resolves to the wildcard
/// while credentials are enabled.
pub proof fn lemma_error_needs_custom_callback(o: CorsOptions, request: RequestView, r: Result<DecisionView, CorsError>)
    requires
        options_valid(o),
        !(o.origin matches Origin::Custom(OriginCallback::Function(_))),
        check_admits(o, request, r),
    ensures
        r is Ok,
{
    let n = normalized_view(request);
    if is_preflight(request) {
        if let Some(m) = requested_method(n) {
            let d = choose|d: DecisionKind| #[trigger] origin_admits(o, n, d) && r == preflight_outcome(o, request, n, m, d);
            assert(d == DecisionKind::Any ==> o.origin is Any);
        }
    } else {
        let d = choose|d: DecisionKind| #[trigger] origin_admits(o, n, d) && r == simple_outcome(o, request, n, d);
        assert(d == DecisionKind::Any ==> o.origin is Any);
    }
}

/// An origin resolved to the wildcard while credentials are enabled makes
/// the evaluation fail with `InvalidOriginAnyWithCredentials` (a preflight
/// must name a method to get that far).
pub proof fn lemma_wildcard_with_credentials_fails(o: CorsOptions, request: RequestView)
    requires
        o.credentials,
    ensures
        forall|m: Seq<char>|
            #[trigger] preflight_outcome(o, request, normalized_view(request), m, DecisionKind::Any) == Err::<
                DecisionView,
                CorsError,
            >(CorsError::InvalidOriginAnyWithCredentials),
        simple_outcome(o, request, normalized_view(request), DecisionKind::Any) == Err::<DecisionView, CorsError>(
            CorsError::InvalidOriginAnyWithCredentials,
        ),
{
}

/// A request refused for its origin gets `Vary: Origin` and no other
/// header: in particular no `Access-Control-Allow-Origin`.
pub proof fn lemma_origin_rejection_headers(o: CorsOptions, request: RequestView, r: Result<DecisionView, CorsError>)
    requires
        check_admits(o, request, r),
    ensures
        r matches Ok(DecisionView::SimpleRejected(h)) ==> h == seq![(header::VARY@, header::ORIGIN@)],
        r matches Ok(DecisionView::PreflightRejected(h, reason)) ==> (reason == ReasonView::OriginNotAllowed ==> h
            == seq![(header::VARY@, header::ORIGIN@)]),
{
    lemma_vary_origin_entries();
    let n = normalized_view(request);
    if is_preflight(request) {
        if let Some(m) = requested_method(n) {
            let d = choose|d: DecisionKind| #[trigger] origin_admits(o, n, d) && r == preflight_outcome(o, request, n, m, d);
            if let Ok((h, k)) = origin_step(o, request.origin, d) {
                if k == DecisionKind::Disallow {
                    assert(h == vary_origin());
                }
            }
        }
    } else {
        let d = choose|d: DecisionKind| #[trigger] origin_admits(o, n, d) && r == simple_outcome(o, request, n, d);
        if let Ok((h, k)) = origin_step(o, request.origin, d) {
            if k == DecisionKind::Disallow {
                assert(h == vary_origin());
            }
        }
    }
}

/// A disabled policy (see [`Origin::disabled`]) makes every request not
/// applicable: `null` origins and origins of any length included.
pub proof fn lemma_disabled_is_not_applicable(o: CorsOptions, request: RequestView, r: Result<DecisionView, CorsError>)
    requires
        o.origin == Origin::Custom(OriginCallback::SkipAll),
        check_admits(o, request, r),
    ensures
        r == Ok::<DecisionView, CorsError>(DecisionView::NotApplicable),
{
    let n = normalized_view(request);
    if is_preflight(request) {
        if let Some(m) = requested_method(n) {
            let d = choose|d: DecisionKind| #[trigger] origin_admits(o, n, d) && r == preflight_outcome(o, request, n, m, d);
            assert(d == DecisionKind::Skip);
        }
    } else {
        let d = choose|d: DecisionKind| #[trigger] origin_admits(o, n, d) && r == simple_outcome(o, request, n, d);
        assert(d == DecisionKind::Skip);
    }
}

/// What an accepted response says of the origin under policy `o`: the
/// wildcard policy allows `*` and does not vary on `Origin`; an exact
/// policy allows the configured origin; a list or a predicate allows the
/// request's origin as sent; these two vary on `Origin`. A custom callback
/// allows some origin.
pub open spec fn allows_origin_as_configured(o: CorsOptions, request: RequestView, h: HeaderList) -> bool {
    match o.origin {
        Origin::Any => has_entry(h, (header::ACCESS_CONTROL_ALLOW_ORIGIN@, seq!['*'])) && !has_name(h, header::VARY@),
        Origin::Exact(v) => has_entry(h, (header::ACCESS_CONTROL_ALLOW_ORIGIN@, v@)) && has_entry(
            h,
            (header::VARY@, header::ORIGIN@),
        ),
        Origin::List(_) | Origin::Predicate(_) => request.origin matches Some(s) && has_entry(
            h,
            (header::ACCESS_CONTROL_ALLOW_ORIGIN@, s),
        ) && has_entry(h, (header::VARY@, header::ORIGIN@)),
        Origin::Custom(_) => exists|x: Seq<char>| #[trigger] has_entry(h, (header::ACCESS_CONTROL_ALLOW_ORIGIN@, x)),
    }
}

proof fn lemma_accepted_step(o: CorsOptions, request: RequestView, n: RequestView, d: DecisionKind, h: HeaderModel, k: DecisionKind)
    requires
        origin_admits(o, n, d),
        origin_step(o, request.origin, d) == Ok::<(HeaderModel, DecisionKind), CorsError>((h, k)),
        k != DecisionKind::Skip,
        k != DecisionKind::Disallow,
    ensures
        exists|x: Seq<char>| leads_with_allow_origin(h.1, x) && #[trigger] origin_value_fits(o, request, x, h.0),
{
    reveal_strlit("Access-Control-Allow-Origin");
    reveal_strlit("Vary");
    reveal_strlit("Origin");
    let aco = header::ACCESS_CONTROL_ALLOW_ORIGIN@;
    lemma_vary_origin_entries();
    assert(add_vary_model(None, header::ORIGIN@) == Some(header::ORIGIN@)) by {
        let e = entries_model(vary_origin());
        assert(e[0] == (header::VARY@, add_vary_model(None, header::ORIGIN@)->0));
    }
    assert(!same_ignoring_ascii_case(aco, header::VARY@)) by {
        lemma_ascii_lower_len(aco);
        lemma_ascii_lower_len(header::VARY@);
    }
    match d {
        DecisionKind::Any => {
            assert(put_model(Seq::empty(), aco, seq!['*']) == seq![(aco, seq!['*'])]);
            assert(origin_value_fits(o, request, seq!['*'], h.0));
        },
        DecisionKind::Exact(v) => {
            assert(put_model(Seq::empty(), aco, v) == seq![(aco, v)]);
            assert(origin_value_fits(o, request, v, h.0));
        },
        DecisionKind::Mirror => {
            let s = present(request.origin)->0;
            assert(put_model(Seq::empty(), aco, s) == seq![(aco, s)]);
            assert(origin_value_fits(o, request, s, h.0));
        },
        _ => {},
    }
}

/// The allow-origin value and `Vary` value the origin step may leave under
/// policy `o`, as [`allows_origin_as_configured`] describes them.
pub open spec fn origin_value_fits(o: CorsOptions, request: RequestView, x: Seq<char>, vary: Option<Seq<char>>) -> bool {
    match o.origin {
        Origin::Any => x == seq!['*'] && vary is None,
        Origin::Exact(v) => x == v@ && vary == Some(header::ORIGIN@),
        Origin::List(_) | Origin::Predicate(_) => request.origin == Some(x) && vary == Some(header::ORIGIN@),
        Origin::Custom(_) => true,
    }
}

proof fn lemma_fits_entries(o: CorsOptions, request: RequestView, m: HeaderModel, x: Seq<char>)
    requires
        leads_with_allow_origin(m.1, x),
        origin_value_fits(o, request, x, m.0),
    ensures
        allows_origin_as_configured(o, request, entries_model(m)),
{
    lemma_lead_entries(m, x);
}

/// An accepted response carries `Access-Control-Allow-Origin` as the policy
/// decides, and varies on `Origin` exactly for the policies that name
/// origins, as [`allows_origin_as_configured`] states.
pub proof fn lemma_accepted_allow_origin(o: CorsOptions, request: RequestView, r: Result<DecisionView, CorsError>)
    requires
        check_admits(o, request, r),
    ensures
        r matches Ok(DecisionView::PreflightAccepted(h)) ==> allows_origin_as_configured(o, request, h),
        r matches Ok(DecisionView::SimpleAccepted(h)) ==> allows_origin_as_configured(o, request, h),
{
    let n = normalized_view(request);
    if is_preflight(request) {
        if let Some(m) = requested_method(n) {
            let d = choose|d: DecisionKind| #[trigger] origin_admits(o, n, d) && r == preflight_outcome(o, request, n, m, d);
            if let Ok((h, k)) = origin_step(o, request.origin, d) {
                if k != DecisionKind::Skip && k != DecisionKind::Disallow {
                    lemma_accepted_step(o, request, n, d, h, k);
                    let x = choose|x: Seq<char>| leads_with_allow_origin(h.1, x) && #[trigger] origin_value_fits(o, request, x, h.0);
                    let h1 = extend_model(h, credentials_model(o));
                    lemma_parts_keep_lead(o, request, h, x);
                    let h2 = extend_model(h1, methods_model(o));
                    lemma_parts_keep_lead(o, request, h1, x);
                    let h3 = extend_model(h2, allowed_headers_model(o));
                    lemma_parts_keep_lead(o, request, h2, x);
                    let h4 = extend_model(h3, private_network_model(o, request));
                    lemma_parts_keep_lead(o, request, h3, x);
                    let h5 = extend_model(h4, max_age_model(o));
                    lemma_parts_keep_lead(o, request, h4, x);
                    assert(h5 == preflight_headers(o, request, h));
                    lemma_fits_entries(o, request, h5, x);
                }
            }
        }
    } else {
        let d = choose|d: DecisionKind| #[trigger] origin_admits(o, n, d) && r == simple_outcome(o, request, n, d);
        if let Ok((h, k)) = origin_step(o, request.origin, d) {
            if k != DecisionKind::Skip && k != DecisionKind::Disallow {
                lemma_accepted_step(o, request, n, d, h, k);
                let x = choose|x: Seq<char>| leads_with_allow_origin(h.1, x) && #[trigger] origin_value_fits(o, request, x, h.0);
                let h1 = extend_model(h, credentials_model(o));
                lemma_parts_keep_lead(o, request, h, x);
                let h2 = extend_model(h1, private_network_model(o, request));
                lemma_parts_keep_lead(o, request, h1, x);
                let h3 = extend_model(h2, exposed_model(o));
                lemma_parts_keep_lead(o, request, h2, x);
                let h4 = extend_model(h3, timing_model(o));
                lemma_parts_keep_lead(o, request, h3, x);
                assert(h4 == simple_headers(o, request, h));
                lemma_fits_entries(o, request, h4, x);
            }
        }
    }
}

} // verus!
