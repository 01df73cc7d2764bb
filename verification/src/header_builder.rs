//! The response headers each part of the configuration contributes.
use vstd::prelude::*;
use crate::allowed_headers::{allowed_headers_value, AllowedHeaders};
use crate::allowed_methods::methods_header_value;
use crate::constants::header;
use crate::context::{RequestContext, RequestView};
use crate::exposed_headers::ExposedHeaders;
use crate::headers::{
    add_vary_model, entries_model, extend_model, insert_all, last_match, lemma_push_keeps_lead, leads_with_allow_origin, push_all_model,
    push_model, put_model, HeaderCollection, HeaderModel,
};
use crate::options::CorsOptions;
use crate::origin::{byte_len, resolve_allows, DecisionKind, Origin, OriginDecision};
use crate::result::CorsError;
use crate::text::{
    decimal, decimal_string, digits_value, first_by_key, lemma_decimal_reads_back, join, join_strings, same_text, trim, trim_end, trim_start, trimmed_nonempty,
    trimmed_nonempty_of,
};
use crate::timing_allow_origin::timing_value;
use crate::util::{eq_ignore_ascii_case, fold_key, lemma_ascii_lower_len, same_ignoring_ascii_case, views};

verus! {

/// No header at all.
pub open spec fn no_headers() -> HeaderModel {
    (None, Seq::empty())
}

/// The single header `name: value`.
pub open spec fn single_header(name: Seq<char>, value: Seq<char>) -> HeaderModel {
    push_model(no_headers(), name, value)
}

/// `Vary: Origin` and nothing else.
pub open spec fn vary_origin() -> HeaderModel {
    (add_vary_model(None, header::ORIGIN@), Seq::empty())
}

/// `Access-Control-Allow-Credentials: true` when credentials are enabled.
pub open spec fn credentials_model(o: CorsOptions) -> HeaderModel {
    if o.credentials {
        single_header(header::ACCESS_CONTROL_ALLOW_CREDENTIALS@, "true"@)
    } else {
        no_headers()
    }
}

/// `Access-Control-Allow-Methods` with the configured methods, when any.
pub open spec fn methods_model(o: CorsOptions) -> HeaderModel {
    match methods_header_value(o.methods@) {
        Some(v) => single_header(header::ACCESS_CONTROL_ALLOW_METHODS@, v),
        None => no_headers(),
    }
}

/// `Access-Control-Allow-Headers`: `*` for the wildcard, the configured
/// names otherwise, none for an empty list.
pub open spec fn allowed_headers_model(o: CorsOptions) -> HeaderModel {
    match allowed_headers_value(o.allowed_headers) {
        Some(v) => single_header(header::ACCESS_CONTROL_ALLOW_HEADERS@, v),
        None => no_headers(),
    }
}

/// `Access-Control-Allow-Private-Network: true` when private network access
/// is enabled and the request is a preflight (`OPTIONS`, ASCII case
/// ignored) asking for it.
pub open spec fn private_network_model(o: CorsOptions, request: RequestView) -> HeaderModel {
    if o.allow_private_network && same_ignoring_ascii_case(request.method, "OPTIONS"@)
        && request.access_control_request_private_network {
        single_header(header::ACCESS_CONTROL_ALLOW_PRIVATE_NETWORK@, "true"@)
    } else {
        no_headers()
    }
}

/// `Access-Control-Expose-Headers`: `*` for the wildcard, otherwise the
/// non-blank trimmed names joined with commas, none when there is no such
/// name.
pub open spec fn exposed_model(o: CorsOptions) -> HeaderModel {
    match o.exposed_headers {
        ExposedHeaders::Any => single_header(header::ACCESS_CONTROL_EXPOSE_HEADERS@, seq!['*']),
        ExposedHeaders::List(l) => if trimmed_nonempty(l@).len() > 0 {
            single_header(header::ACCESS_CONTROL_EXPOSE_HEADERS@, join(trimmed_nonempty(l@), seq![',']))
        } else {
            no_headers()
        },
    }
}

/// `Access-Control-Max-Age` with the configured seconds in decimal, when set.
pub open spec fn max_age_model(o: CorsOptions) -> HeaderModel {
    match o.max_age {
        Some(n) => single_header(header::ACCESS_CONTROL_MAX_AGE@, decimal(n as nat)),
        None => no_headers(),
    }
}

/// `Timing-Allow-Origin` when configured with a value.
pub open spec fn timing_model(o: CorsOptions) -> HeaderModel {
    match o.timing_allow_origin {
        Some(t) => match timing_value(t) {
            Some(v) => single_header(header::TIMING_ALLOW_ORIGIN@, v),
            None => no_headers(),
        },
        None => no_headers(),
    }
}

/// `o` with an empty value taken as absent.
pub open spec fn present(o: Option<Seq<char>>) -> Option<Seq<char>> {
    match o {
        Some(s) => if s.len() > 0 {
            Some(s)
        } else {
            None
        },
        None => None,
    }
}

/// The literal origin `null`.
pub open spec fn null_origin() -> Seq<char> {
    seq!['n', 'u', 'l', 'l']
}

/// The decisions that may settle the normalized request `n`: whatever the
/// origin policy may resolve its origin to, the policy's user functions being
/// handed `n` itself, except that for `Origin: null`, unless null origins are
/// allowed, a decision other than skipping becomes a refusal.
pub open spec fn origin_admits(o: CorsOptions, n: RequestView, d: DecisionKind) -> bool {
    if present(n.origin) == Some(null_origin()) && !o.allow_null_origin {
        ||| d == DecisionKind::Skip && resolve_allows(o.origin, present(n.origin), n, DecisionKind::Skip)
        ||| d == DecisionKind::Disallow && !(o.origin matches Origin::Custom(c) && c is SkipAll)
    } else {
        resolve_allows(o.origin, present(n.origin), n, d)
    }
}

/// The origin headers for decision `d`, with the decision that stands: the
/// wildcard (an error with credentials), the exact origin or the mirrored
/// request origin (`sent_origin`, as sent) with `Vary: Origin`, or
/// `Vary: Origin` alone for a disallowed origin and for a mirror without a
/// request origin; nothing when skipped.
pub open spec fn origin_step(o: CorsOptions, sent_origin: Option<Seq<char>>, d: DecisionKind) -> Result<
    (HeaderModel, DecisionKind),
    CorsError,
> {
    match d {
        DecisionKind::Any => if o.credentials {
            Err(CorsError::InvalidOriginAnyWithCredentials)
        } else {
            Ok((single_header(header::ACCESS_CONTROL_ALLOW_ORIGIN@, seq!['*']), DecisionKind::Any))
        },
        DecisionKind::Exact(v) => Ok(
            (push_model(vary_origin(), header::ACCESS_CONTROL_ALLOW_ORIGIN@, v), DecisionKind::Exact(v)),
        ),
        DecisionKind::Mirror => match present(sent_origin) {
            Some(s) => Ok((push_model(vary_origin(), header::ACCESS_CONTROL_ALLOW_ORIGIN@, s), DecisionKind::Mirror)),
            None => Ok((vary_origin(), DecisionKind::Disallow)),
        },
        DecisionKind::Disallow => Ok((vary_origin(), DecisionKind::Disallow)),
        DecisionKind::Skip => Ok((no_headers(), DecisionKind::Skip)),
    }
}

/// An origin step's outcome by view.
pub open spec fn step_view(r: Result<(HeaderCollection, OriginDecision), CorsError>) -> Result<
    (HeaderModel, DecisionKind),
    CorsError,
> {
    match r {
        Ok((h, d)) => Ok((h@, d@)),
        Err(e) => Err(e),
    }
}

/// `Vary: Origin` turns into the single header `Vary: Origin`.
pub proof fn lemma_vary_origin_entries()
    ensures
        entries_model(vary_origin()) == seq![(header::VARY@, header::ORIGIN@)],
{
    reveal_strlit("Origin");
    let o = header::ORIGIN@;
    assert(o == seq!['O', 'r', 'i', 'g', 'i', 'n']);
    assert(trim_start(o) == o);
    assert(trim_end(o) == o);
    assert(trim(o) == o);
    let entries = Seq::<Seq<char>>::empty().push(o);
    assert(first_by_key(entries, fold_key(true)) == entries) by {
        assert(entries.drop_last() =~= Seq::<Seq<char>>::empty());
        assert(first_by_key(Seq::<Seq<char>>::empty(), fold_key(true)) == Seq::<Seq<char>>::empty());
        assert(entries.last() == o);
        assert(Seq::<Seq<char>>::empty().push(o) == entries);
    }
    assert(join(entries, seq![',', ' ']) == o);
    assert(add_vary_model(None, o) == Some(o));
    assert(entries_model(vary_origin()) == insert_all(seq![(header::VARY@, o)], Seq::empty()));
}

proof fn lemma_length_differs_from(a: Seq<char>, b: Seq<char>)
    requires
        a.len() != b.len(),
    ensures
        !same_ignoring_ascii_case(a, b),
{
    lemma_ascii_lower_len(a);
    lemma_ascii_lower_len(b);
}

/// Extending with a single header whose name is as long as neither
/// `Access-Control-Allow-Origin` nor `Vary` keeps the allow-origin header
/// first and alone, and the `Vary` value unchanged.
proof fn lemma_single_keeps_lead(h: HeaderModel, x: Seq<char>, name: Seq<char>, value: Seq<char>)
    requires
        leads_with_allow_origin(h.1, x),
        name.len() != header::ACCESS_CONTROL_ALLOW_ORIGIN@.len(),
        name.len() != header::VARY@.len(),
    ensures
        extend_model(h, single_header(name, value)).0 == h.0,
        leads_with_allow_origin(extend_model(h, single_header(name, value)).1, x),
{
    lemma_length_differs_from(name, header::ACCESS_CONTROL_ALLOW_ORIGIN@);
    lemma_length_differs_from(name, header::VARY@);
    let b = single_header(name, value);
    assert(put_model(Seq::empty(), name, value) == seq![(name, value)]);
    assert(b == (None::<Seq<char>>, seq![(name, value)]));
    assert(b.1.drop_last() =~= Seq::<(Seq<char>, Seq<char>)>::empty());
    assert(push_all_model(h, b.1.drop_last()) == h);
    assert(extend_model(h, b) == push_model(h, name, value));
    lemma_push_keeps_lead(h, x, name, value);
}

/// Each header that the configuration adds after the origin headers keeps
/// the allow-origin header first and alone, and the `Vary` value unchanged.
pub proof fn lemma_parts_keep_lead(o: CorsOptions, request: RequestView, h: HeaderModel, x: Seq<char>)
    requires
        leads_with_allow_origin(h.1, x),
    ensures
        extend_model(h, credentials_model(o)).0 == h.0 && leads_with_allow_origin(extend_model(h, credentials_model(o)).1, x),
        extend_model(h, methods_model(o)).0 == h.0 && leads_with_allow_origin(extend_model(h, methods_model(o)).1, x),
        extend_model(h, allowed_headers_model(o)).0 == h.0 && leads_with_allow_origin(
            extend_model(h, allowed_headers_model(o)).1,
            x,
        ),
        extend_model(h, private_network_model(o, request)).0 == h.0 && leads_with_allow_origin(
            extend_model(h, private_network_model(o, request)).1,
            x,
        ),
        extend_model(h, exposed_model(o)).0 == h.0 && leads_with_allow_origin(extend_model(h, exposed_model(o)).1, x),
        extend_model(h, max_age_model(o)).0 == h.0 && leads_with_allow_origin(extend_model(h, max_age_model(o)).1, x),
        extend_model(h, timing_model(o)).0 == h.0 && leads_with_allow_origin(extend_model(h, timing_model(o)).1, x),
{
    reveal_strlit("Access-Control-Allow-Origin");
    reveal_strlit("Vary");
    reveal_strlit("Access-Control-Allow-Credentials");
    reveal_strlit("Access-Control-Allow-Methods");
    reveal_strlit("Access-Control-Allow-Headers");
    reveal_strlit("Access-Control-Allow-Private-Network");
    reveal_strlit("Access-Control-Expose-Headers");
    reveal_strlit("Access-Control-Max-Age");
    reveal_strlit("Timing-Allow-Origin");
    assert(extend_model(h, no_headers()) == h);
    if o.credentials {
        lemma_single_keeps_lead(h, x, header::ACCESS_CONTROL_ALLOW_CREDENTIALS@, "true"@);
    }
    if let Some(v) = methods_header_value(o.methods@) {
        lemma_single_keeps_lead(h, x, header::ACCESS_CONTROL_ALLOW_METHODS@, v);
    }
    if let Some(v) = allowed_headers_value(o.allowed_headers) {
        lemma_single_keeps_lead(h, x, header::ACCESS_CONTROL_ALLOW_HEADERS@, v);
    }
    lemma_single_keeps_lead(h, x, header::ACCESS_CONTROL_ALLOW_PRIVATE_NETWORK@, "true"@);
    lemma_single_keeps_lead(h, x, header::ACCESS_CONTROL_EXPOSE_HEADERS@, seq!['*']);
    if let ExposedHeaders::List(l) = o.exposed_headers {
        lemma_single_keeps_lead(h, x, header::ACCESS_CONTROL_EXPOSE_HEADERS@, join(trimmed_nonempty(l@), seq![',']));
    }
    if let Some(n) = o.max_age {
        lemma_single_keeps_lead(h, x, header::ACCESS_CONTROL_MAX_AGE@, decimal(n as nat));
    }
    if let Some(t) = o.timing_allow_origin {
        if let Some(v) = timing_value(t) {
            lemma_single_keeps_lead(h, x, header::TIMING_ALLOW_ORIGIN@, v);
        }
    }
}

/// `Access-Control-Max-Age` carries the configured number of seconds as a
/// base-ten numeral: one header of that name, whose value is made of ASCII
/// digits and reads back as the configured number; none when no maximum age
/// is configured.
pub proof fn lemma_max_age_header_is_the_numeral(o: CorsOptions)
    ensures
        o.max_age is None ==> max_age_model(o) == no_headers(),
        o.max_age matches Some(n) ==> {
            let h = max_age_model(o);
            &&& h.0 is None
            &&& h.1.len() == 1
            &&& h.1[0].0 == header::ACCESS_CONTROL_MAX_AGE@
            &&& forall|i: int| 0 <= i < h.1[0].1.len() ==> '0' <= #[trigger] h.1[0].1[i] && h.1[0].1[i] <= '9'
            &&& digits_value(h.1[0].1) == n
        },
{
    if let Some(n) = o.max_age {
        reveal_strlit("Access-Control-Max-Age");
        reveal_strlit("Vary");
        lemma_length_differs_from(header::ACCESS_CONTROL_MAX_AGE@, header::VARY@);
        lemma_decimal_reads_back(n as nat);
        let h = max_age_model(o);
        assert(last_match(Seq::<(Seq<char>, Seq<char>)>::empty(), header::ACCESS_CONTROL_MAX_AGE@) == -1);
        assert(h.1 =~= seq![(header::ACCESS_CONTROL_MAX_AGE@, decimal(n as nat))]);
    }
}

/// Builds the headers each part of a configuration contributes.
pub struct HeaderBuilder<'a> {
    options: &'a CorsOptions,
}

impl<'a> HeaderBuilder<'a> {
    /// The configuration the headers are built from.
    pub closed spec fn options(&self) -> CorsOptions {
        *self.options
    }

    pub fn new(options: &'a CorsOptions) -> (r: Self)
        ensures
            r.options() == *options,
    {
        Self { options }
    }

    fn one_header(name: &str, value: String) -> (r: HeaderCollection)
        ensures
            r@ == single_header(name@, value@),
    {
        let mut headers = HeaderCollection::with_estimate(1);
        headers.push(name.to_owned(), value);
        headers
    }

    fn vary_only() -> (r: HeaderCollection)
        ensures
            r@ == vary_origin(),
    {
        let mut headers = HeaderCollection::with_estimate(1);
        headers.add_vary(header::ORIGIN);
        headers
    }

    /// The origin headers and the decision that stands for a request whose
    /// origin is `original.origin` as sent and `normalized.origin` once
    /// normalized.
    pub fn build_origin_headers(&self, original: &RequestContext<'_>, normalized: &RequestContext<'_>) -> (r: Result<
        (HeaderCollection, OriginDecision),
        CorsError,
    >)
        ensures
            exists|d: DecisionKind|
                origin_admits(self.options(), normalized@, d) && step_view(r) == origin_step(
                    self.options(),
                    original@.origin,
                    d,
                ),
    {
        let request_origin = match normalized.origin {
            Some(o) => if o.is_empty() {
                None
            } else {
                Some(o)
            },
            None => None,
        };
        let is_null = match request_origin {
            Some(o) => {
                proof {
                    reveal_strlit("null");
                    assert("null"@ =~= null_origin());
                }
                same_text(o, "null")
            },
            None => false,
        };
        let resolved = self.options.origin.resolve(request_origin, normalized);
        let decision = match resolved {
            OriginDecision::Skip => OriginDecision::Skip,
            other => if is_null && !self.options.allow_null_origin {
                OriginDecision::Disallow
            } else {
                other
            },
        };
        let ghost d = decision@;
        proof {
            if present(normalized@.origin) == Some(null_origin()) {
                assert(vstd::utf8::is_ascii_chars(null_origin()));
                vstd::utf8::is_ascii_chars_encode_utf8(null_origin());
                assert(byte_len(null_origin()) == 4);
            }
        }
        let r = self.headers_for(original, decision);
        assert(origin_admits(self.options(), normalized@, d));
        r
    }

    /// The origin headers for `decision`, as [`origin_step`] states.
    pub fn headers_for(&self, original: &RequestContext<'_>, decision: OriginDecision) -> (r: Result<
        (HeaderCollection, OriginDecision),
        CorsError,
    >)
        ensures
            step_view(r) == origin_step(self.options(), original@.origin, decision@),
    {
        match decision {
            OriginDecision::Any => {
                if self.options.credentials {
                    return Err(CorsError::InvalidOriginAnyWithCredentials);
                }
                let star = "*".to_owned();
                proof {
                    reveal_strlit("*");
                    assert("*"@ =~= seq!['*']);
                }
                Ok((Self::one_header(header::ACCESS_CONTROL_ALLOW_ORIGIN, star), OriginDecision::Any))
            },
            OriginDecision::Exact(value) => {
                let mut headers = Self::vary_only();
                headers.push(header::ACCESS_CONTROL_ALLOW_ORIGIN.to_owned(), value.clone());
                Ok((headers, OriginDecision::Exact(value)))
            },
            OriginDecision::Mirror => {
                let mut headers = Self::vary_only();
                match original.origin {
                    Some(o) => {
                        if !o.is_empty() {
                            headers.push(header::ACCESS_CONTROL_ALLOW_ORIGIN.to_owned(), o.to_owned());
                            return Ok((headers, OriginDecision::Mirror));
                        }
                        Ok((headers, OriginDecision::Disallow))
                    },
                    None => Ok((headers, OriginDecision::Disallow)),
                }
            },
            OriginDecision::Disallow => Ok((Self::vary_only(), OriginDecision::Disallow)),
            OriginDecision::Skip => Ok((HeaderCollection::new(), OriginDecision::Skip)),
        }
    }

    /// `Access-Control-Allow-Methods`, as [`methods_model`] states.
    pub fn build_methods_header(&self) -> (r: HeaderCollection)
        ensures
            r@ == methods_model(self.options()),
    {
        match self.options.methods.header_value() {
            Some(value) => Self::one_header(header::ACCESS_CONTROL_ALLOW_METHODS, value),
            None => HeaderCollection::new(),
        }
    }

    /// `Access-Control-Allow-Credentials`, as [`credentials_model`] states.
    pub fn build_credentials_header(&self) -> (r: HeaderCollection)
        ensures
            r@ == credentials_model(self.options()),
    {
        if self.options.credentials {
            Self::one_header(header::ACCESS_CONTROL_ALLOW_CREDENTIALS, "true".to_owned())
        } else {
            HeaderCollection::new()
        }
    }

    /// `Access-Control-Allow-Headers`, as [`allowed_headers_model`] states.
    pub fn build_allowed_headers(&self) -> (r: HeaderCollection)
        ensures
            r@ == allowed_headers_model(self.options()),
    {
        match &self.options.allowed_headers {
            AllowedHeaders::List(values) => {
                if values.is_empty() {
                    HeaderCollection::new()
                } else {
                    let list = values.values();
                    let joined = join_strings(list, ",");
                    proof {
                        reveal_strlit(",");
                        assert(","@ =~= seq![',']);
                    }
                    Self::one_header(header::ACCESS_CONTROL_ALLOW_HEADERS, joined)
                }
            },
            AllowedHeaders::Any => {
                let star = "*".to_owned();
                proof {
                    reveal_strlit("*");
                    assert("*"@ =~= seq!['*']);
                }
                Self::one_header(header::ACCESS_CONTROL_ALLOW_HEADERS, star)
            },
        }
    }

    /// `Access-Control-Allow-Private-Network`, as [`private_network_model`]
    /// states.
    pub fn build_private_network_header(&self, request: &RequestContext<'_>) -> (r: HeaderCollection)
        ensures
            r@ == private_network_model(self.options(), request@),
    {
        let is_preflight = eq_ignore_ascii_case(request.method, "OPTIONS");
        if self.options.allow_private_network && is_preflight && request.access_control_request_private_network {
            Self::one_header(header::ACCESS_CONTROL_ALLOW_PRIVATE_NETWORK, "true".to_owned())
        } else {
            HeaderCollection::new()
        }
    }

    /// `Access-Control-Expose-Headers`, as [`exposed_model`] states.
    pub fn build_exposed_headers(&self) -> (r: HeaderCollection)
        ensures
            r@ == exposed_model(self.options()),
    {
        match &self.options.exposed_headers {
            ExposedHeaders::Any => {
                let star = "*".to_owned();
                proof {
                    reveal_strlit("*");
                    assert("*"@ =~= seq!['*']);
                }
                Self::one_header(header::ACCESS_CONTROL_EXPOSE_HEADERS, star)
            },
            ExposedHeaders::List(values) => {
                let names = values.values();
                let entries = trimmed_nonempty_of(names);
                assert(views(names@) == values@);
                if entries.len() == 0 {
                    HeaderCollection::new()
                } else {
                    let joined = join_strings(entries.as_slice(), ",");
                    proof {
                        reveal_strlit(",");
                        assert(","@ =~= seq![',']);
                    }
                    Self::one_header(header::ACCESS_CONTROL_EXPOSE_HEADERS, joined)
                }
            },
        }
    }

    /// `Access-Control-Max-Age`, as [`max_age_model`] states.
    pub fn build_max_age_header(&self) -> (r: HeaderCollection)
        ensures
            r@ == max_age_model(self.options()),
    {
        match self.options.max_age {
            Some(value) => Self::one_header(header::ACCESS_CONTROL_MAX_AGE, decimal_string(value)),
            None => HeaderCollection::new(),
        }
    }

    /// `Timing-Allow-Origin`, as [`timing_model`] states.
    pub fn build_timing_allow_origin_header(&self) -> (r: HeaderCollection)
        ensures
            r@ == timing_model(self.options()),
    {
        match &self.options.timing_allow_origin {
            Some(config) => match config.header_value() {
                Some(value) => Self::one_header(header::TIMING_ALLOW_ORIGIN, value),
                None => HeaderCollection::new(),
            },
            None => HeaderCollection::new(),
        }
    }
}

} // verus!
