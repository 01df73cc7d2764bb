//! Which request headers a preflight may ask for.
use vstd::prelude::*;
use crate::text::{comma_tokens, comma_tokens_of, join, same_text, str_trim, trim};
use crate::util::{dedupe_trimmed, lower, normalize_lower, unique_trimmed, views, IntoStringList};

verus! {

/// `str::as_ptr` from std, the pointer taken as an address. Nothing is
/// claimed of the address.
#[verifier::external_body]
fn str_address(s: &str) -> (r: usize) {
    s.as_ptr() as usize
}

/// Each token lowercased.
pub open spec fn lowered(tokens: Seq<Seq<char>>) -> Seq<Seq<char>> {
    tokens.map_values(|t: Seq<char>| lower(t))
}

/// The lowercased non-empty trimmed tokens of a comma-separated list.
pub open spec fn lowered_tokens(s: Seq<char>) -> Seq<Seq<char>> {
    lowered(comma_tokens(s))
}

/// Whether each of the (already lowercased) `tokens` is the lowercase form
/// of an entry of `allowed`.
pub open spec fn tokens_allowed(allowed: Seq<Seq<char>>, tokens: Seq<Seq<char>>) -> bool {
    forall|i: int| 0 <= i < tokens.len() ==> #[trigger] token_allowed(allowed, tokens[i])
}

/// Whether `token` is the lowercase form of an entry of `allowed`.
pub open spec fn token_allowed(allowed: Seq<Seq<char>>, token: Seq<char>) -> bool {
    exists|j: int| 0 <= j < allowed.len() && lower(allowed[j]) == token
}

/// Whether every header named in the comma-separated `request` is allowed,
/// ignoring case; an empty or blank request asks for nothing and passes.
pub open spec fn headers_allowed(allowed: Seq<Seq<char>>, request: Seq<char>) -> bool {
    tokens_allowed(allowed, lowered_tokens(trim(request)))
}

/// Whether one of `allowed` is `name` ignoring case.
pub open spec fn listed_ignoring_case(allowed: Seq<Seq<char>>, name: Seq<char>) -> bool {
    exists|j: int| 0 <= j < allowed.len() && lower(#[trigger] allowed[j]) == lower(name)
}

/// A list allows the headers a preflight asks for exactly when every header
/// the request names (each non-empty trimmed comma-separated entry) is,
/// ignoring case, one of the listed names: a single header missing from the
/// list makes the answer false, and a request naming none passes.
pub proof fn lemma_headers_allowed_iff_listed(allowed: Seq<Seq<char>>, request: Seq<char>)
    ensures
        headers_allowed(allowed, request) <==> forall|i: int|
            0 <= i < comma_tokens(trim(request)).len() ==> listed_ignoring_case(
                allowed,
                #[trigger] comma_tokens(trim(request))[i],
            ),
{
    let toks = comma_tokens(trim(request));
    let lt = lowered_tokens(trim(request));
    assert(lt.len() == toks.len());
    assert forall|i: int| 0 <= i < toks.len() implies (#[trigger] token_allowed(allowed, lt[i])
        <==> listed_ignoring_case(allowed, toks[i])) by {
        assert(lt[i] == lower(toks[i]));
        if token_allowed(allowed, lt[i]) {
            let j = choose|j: int| 0 <= j < allowed.len() && lower(allowed[j]) == lt[i];
            assert(lower(allowed[j]) == lower(toks[i]));
        }
        if listed_ignoring_case(allowed, toks[i]) {
            let j = choose|j: int| 0 <= j < allowed.len() && lower(#[trigger] allowed[j]) == lower(toks[i]);
            assert(lower(allowed[j]) == lt[i]);
        }
    }
    if headers_allowed(allowed, request) {
        assert forall|i: int| 0 <= i < toks.len() implies listed_ignoring_case(allowed, #[trigger] toks[i]) by {
            assert(token_allowed(allowed, lt[i]));
        }
    }
    if forall|i: int| 0 <= i < toks.len() ==> listed_ignoring_case(allowed, #[trigger] toks[i]) {
        assert forall|i: int| 0 <= i < lt.len() implies #[trigger] token_allowed(allowed, lt[i]) by {
            assert(listed_ignoring_case(allowed, toks[i]));
        }
    }
}

/// Each of `values` lowercased.
fn lower_each(values: &Vec<String>) -> (r: Vec<String>)
    ensures
        views(r@) == lowered(views(values@)),
{
    let mut out: Vec<String> = Vec::new();
    let mut i: usize = 0;
    while i < values.len()
        invariant
            i <= values.len(),
            views(out@) == lowered(views(values@)).take(i as int),
        decreases values.len() - i,
    {
        let ghost before = out@;
        out.push(normalize_lower(values[i].as_str()));
        assert(views(out@) =~= views(before).push(lower(values@[i as int]@)));
        assert(lowered(views(values@)).take(i + 1) =~= lowered(views(values@)).take(i as int).push(lower(values@[i as int]@)));
        i = i + 1;
    }
    assert(lowered(views(values@)).take(values.len() as int) =~= lowered(views(values@)));
    out
}

/// Whether `t` is the view of one of `v`.
pub open spec fn contains_view(v: Seq<String>, t: Seq<char>) -> bool {
    exists|j: int| 0 <= j < v.len() && v[j]@ == t
}

/// Whether each of `tokens` occurs in `normalized`.
fn all_contained(normalized: &Vec<String>, tokens: &[String]) -> (r: bool)
    ensures
        r == (forall|i: int| 0 <= i < tokens@.len() ==> #[trigger] contains_view(normalized@, tokens@[i]@)),
{
    let mut i: usize = 0;
    while i < tokens.len()
        invariant
            i <= tokens@.len(),
            forall|k: int| 0 <= k < i ==> #[trigger] contains_view(normalized@, tokens@[k]@),
        decreases tokens@.len() - i,
    {
        let mut found = false;
        let mut j: usize = 0;
        while j < normalized.len()
            invariant
                j <= normalized@.len(),
                i < tokens@.len(),
                !found ==> forall|m: int| 0 <= m < j ==> normalized@[m]@ != tokens@[i as int]@,
                found ==> contains_view(normalized@, tokens@[i as int]@),
            decreases normalized@.len() - j,
        {
            if normalized[j] == tokens[i] {
                found = true;
            }
            j = j + 1;
        }
        if !found {
            assert(!contains_view(normalized@, tokens@[i as int]@));
            return false;
        }
        i = i + 1;
    }
    true
}

/// No header is named in an empty list.
proof fn lemma_no_tokens_in_empty()
    ensures
        lowered_tokens(Seq::<char>::empty()) =~= Seq::<Seq<char>>::empty(),
{
    assert(comma_tokens(Seq::<char>::empty()) =~= Seq::<Seq<char>>::empty()) by {
        reveal_with_fuel(crate::text::split, 2);
        reveal_with_fuel(crate::text::trimmed_nonempty, 2);
    }
}

/// Lightweight cache of the lowercased tokens of the last header list seen.
/// It records the list's address and length, and keeps the list's text, so
/// that its tokens are reused only for a list with the same characters.
pub struct AllowedHeadersCache {
    address: usize,
    length: usize,
    source: String,
    normalized_tokens: Vec<String>,
}

impl AllowedHeadersCache {
    /// The stored tokens are those of the stored text.
    #[verifier::type_invariant]
    spec fn tokens_match_source(self) -> bool {
        views(self.normalized_tokens@) == lowered_tokens(self.source@)
    }
}

impl View for AllowedHeadersCache {
    type V = ((usize, usize), Seq<Seq<char>>);

    closed spec fn view(&self) -> ((usize, usize), Seq<Seq<char>>) {
        ((self.address, self.length), views(self.normalized_tokens@))
    }
}

impl Clone for AllowedHeadersCache {
    fn clone(&self) -> (r: Self)
        ensures
            r@ == self@,
    {
        proof {
            use_type_invariant(self);
        }
        let r = AllowedHeadersCache {
            address: self.address,
            length: self.length,
            source: self.source.clone(),
            normalized_tokens: self.normalized_tokens.clone(),
        };
        assert(views(r.normalized_tokens@) =~= views(self.normalized_tokens@));
        r
    }
}

impl Default for AllowedHeadersCache {
    fn default() -> (r: Self)
        ensures
            r@ == ((0usize, 0usize), Seq::<Seq<char>>::empty()),
    {
        Self::new()
    }
}

impl AllowedHeadersCache {
    /// An empty cache.
    pub fn new() -> (r: Self)
        ensures
            r@ == ((0usize, 0usize), Seq::<Seq<char>>::empty()),
    {
        proof {
            lemma_no_tokens_in_empty();
        }
        let normalized_tokens: Vec<String> = Vec::new();
        assert(views(normalized_tokens@) =~= Seq::<Seq<char>>::empty());
        let r = Self { address: 0, length: 0, source: String::new(), normalized_tokens };
        r
    }

    /// The lowercased non-empty trimmed tokens of `request_headers`. The
    /// cache records the list's address and length; the stored tokens are
    /// handed back when the list has the same characters as the one they were
    /// taken from, and computed afresh otherwise.
    pub fn prepare<'a>(&'a mut self, request_headers: &str) -> (r: &'a [String])
        ensures
            final(self)@.0.1 == request_headers.len(),
            final(self)@.1 == views(r@),
            views(r@) == lowered_tokens(request_headers@),
    {
        proof {
            use_type_invariant(&*self);
        }
        let address = str_address(request_headers);
        let length = request_headers.len();
        if same_text(self.source.as_str(), request_headers) {
            self.address = address;
            self.length = length;
        } else {
            let tokens = comma_tokens_of(request_headers);
            assert(views(tokens@) =~= comma_tokens(request_headers@));
            let normalized_tokens = lower_each(&tokens);
            *self = AllowedHeadersCache {
                address,
                length,
                source: request_headers.to_owned(),
                normalized_tokens,
            };
        }
        proof {
            use_type_invariant(&*self);
        }
        self.normalized_tokens.as_slice()
    }

    /// The address and length of the list last prepared.
    pub fn identity(&self) -> (r: (usize, usize))
        ensures
            r == self@.0,
    {
        (self.address, self.length)
    }

    /// The stored tokens.
    pub fn tokens(&self) -> (r: &[String])
        ensures
            views(r@) == self@.1,
    {
        self.normalized_tokens.as_slice()
    }

    /// Empties the cache.
    pub fn reset(&mut self)
        ensures
            final(self)@ == ((0usize, 0usize), Seq::<Seq<char>>::empty()),
    {
        *self = Self::new();
    }
}

/// Configures which request headers are permitted during a CORS preflight.
///
/// All comparisons are case-insensitive and duplicate values are removed.
#[derive(Clone, PartialEq, Eq)]
pub enum AllowedHeaders {
    Any,
    List(AllowedHeaderList),
}

/// Storage for an explicit allow-list: the names as configured, and their
/// lowercase forms for lookups.
#[derive(PartialEq, Eq)]
pub struct AllowedHeaderList {
    values: Vec<String>,
    normalized: Vec<String>,
}

impl AllowedHeaderList {
    #[verifier::type_invariant]
    spec fn normalized_matches(self) -> bool {
        views(self.normalized@) == lowered(views(self.values@))
    }
}

impl Clone for AllowedHeaderList {
    fn clone(&self) -> (r: Self)
        ensures
            r@ == self@,
    {
        proof {
            use_type_invariant(self);
        }
        let r = AllowedHeaderList { values: self.values.clone(), normalized: self.normalized.clone() };
        assert(views(r.values@) =~= views(self.values@));
        assert(views(r.normalized@) =~= views(self.normalized@));
        r
    }
}

impl View for AllowedHeaderList {
    type V = Seq<Seq<char>>;

    closed spec fn view(&self) -> Seq<Seq<char>> {
        views(self.values@)
    }
}

impl std::ops::Deref for AllowedHeaderList {
    type Target = [String];

    /// The configured names as a slice.
    fn deref(&self) -> (r: &[String])
        ensures
            views(r@) == self@,
    {
        self.values.as_slice()
    }
}

/// `Access-Control-Allow-Headers` value: `*` for the wildcard, the names
/// joined with commas for a non-empty list, absent for an empty one.
pub open spec fn allowed_headers_value(h: AllowedHeaders) -> Option<Seq<char>> {
    match h {
        AllowedHeaders::Any => Some(seq!['*']),
        AllowedHeaders::List(l) => if l@.len() == 0 {
            None
        } else {
            Some(join(l@, seq![',']))
        },
    }
}

/// Whether a preflight asking for the headers in `request` passes `h`.
pub open spec fn request_headers_allowed(h: AllowedHeaders, request: Seq<char>) -> bool {
    match h {
        AllowedHeaders::Any => true,
        AllowedHeaders::List(l) => headers_allowed(l@, request),
    }
}

impl AllowedHeaderList {
    fn from_values(values: Vec<String>) -> (r: Self)
        ensures
            r@ == views(values@),
    {
        let normalized = lower_each(&values);
        AllowedHeaderList { values, normalized }
    }

    /// The configured names, in insertion order.
    pub fn values(&self) -> (r: &[String])
        ensures
            views(r@) == self@,
    {
        self.values.as_slice()
    }

    /// Whether no name is configured.
    pub fn is_empty(&self) -> (r: bool)
        ensures
            r == (self@.len() == 0),
    {
        self.values.len() == 0
    }

    /// Whether every header named in `request_headers` is in the list.
    pub fn allows_headers(&self, request_headers: &str) -> (r: bool)
        ensures
            r == headers_allowed(self@, request_headers@),
    {
        let trimmed = str_trim(request_headers);
        let tokens = comma_tokens_of(trimmed);
        assert(views(tokens@) =~= comma_tokens(trimmed@));
        let lowered_list = lower_each(&tokens);
        self.allows_tokens(lowered_list.as_slice())
    }

    /// Whether each of the lowercased `tokens` is the lowercase form of a
    /// listed name.
    fn allows_tokens(&self, tokens: &[String]) -> (r: bool)
        ensures
            r == tokens_allowed(self@, views(tokens@)),
    {
        proof {
            use_type_invariant(self);
        }
        let r = all_contained(&self.normalized, tokens);
        proof {
            let allowed = self@;
            let toks = views(tokens@);
            assert(views(self.normalized@).len() == self.normalized@.len());
            assert forall|j: int| 0 <= j < allowed.len() implies lower(#[trigger] allowed[j]) == self.normalized@[j]@ by {
                assert(views(self.normalized@)[j] == lowered(views(self.values@))[j]);
            }
            assert forall|i: int| 0 <= i < toks.len() implies
                contains_view(self.normalized@, tokens@[i]@) == #[trigger] token_allowed(allowed, toks[i]) by {
                assert(toks[i] == tokens@[i]@);
                if contains_view(self.normalized@, tokens@[i]@) {
                    let j = choose|j: int| 0 <= j < self.normalized@.len() && self.normalized@[j]@ == tokens@[i]@;
                    assert(lower(allowed[j]) == toks[i]);
                }
                if token_allowed(allowed, toks[i]) {
                    let j = choose|j: int| 0 <= j < allowed.len() && lower(allowed[j]) == toks[i];
                    assert(self.normalized@[j]@ == tokens@[i]@);
                }
            }
            if !r {
                let i = choose|i: int| 0 <= i < tokens@.len() && !contains_view(self.normalized@, #[trigger] tokens@[i]@);
                assert(!token_allowed(allowed, toks[i]));
            }
        }
        r
    }

    /// [`AllowedHeaderList::allows_headers`], tokenizing through `cache`.
    fn allows_headers_with_cache(&self, request_headers: &str, cache: &mut AllowedHeadersCache) -> (r: bool)
        ensures
            r == headers_allowed(self@, request_headers@),
    {
        let trimmed = str_trim(request_headers);
        if trimmed.is_empty() {
            assert(comma_tokens(trim(request_headers@)) =~= Seq::<Seq<char>>::empty()) by {
                reveal_with_fuel(crate::text::split, 2);
                reveal_with_fuel(crate::text::trimmed_nonempty, 2);
                assert(trim(request_headers@) =~= Seq::<char>::empty());
            }
            assert(lowered_tokens(trim(request_headers@)) =~= Seq::<Seq<char>>::empty());
            return true;
        }
        let tokens = cache.prepare(trimmed);
        if tokens.len() == 0 {
            return true;
        }
        self.allows_tokens(tokens)
    }
}

impl Default for AllowedHeaders {
    /// An empty list: no request header is allowed.
    fn default() -> (r: Self)
        ensures
            r matches AllowedHeaders::List(l) && l@.len() == 0,
    {
        let l = AllowedHeaderList::from_values(Vec::new());
        assert(l@ =~= Seq::<Seq<char>>::empty());
        AllowedHeaders::List(l)
    }
}

impl AllowedHeaders {
    /// Constructs a deduplicated allow-list: each value trimmed, and of
    /// several equal once lowercased only the first kept.
    pub fn list<I: IntoStringList>(values: I) -> (r: Self)
        ensures
            r matches AllowedHeaders::List(l) && l@ == unique_trimmed(values.string_list_view(), false),
    {
        Self::deduplicated(values.into_string_list())
    }

    /// [`AllowedHeaders::list`] on a vector of owned names.
    pub fn deduplicated(values: Vec<String>) -> (r: Self)
        ensures
            r matches AllowedHeaders::List(l) && l@ == unique_trimmed(views(values@), false),
    {
        AllowedHeaders::List(AllowedHeaderList::from_values(dedupe_trimmed(&values, false)))
    }

    /// Whether the headers named in an `Access-Control-Request-Headers`
    /// value are allowed: always for the wildcard; for a list, when each
    /// non-empty trimmed comma-separated name is listed, ignoring case.
    pub fn allows_headers(&self, request_headers: &str) -> (r: bool)
        ensures
            r == request_headers_allowed(*self, request_headers@),
    {
        match self {
            AllowedHeaders::Any => true,
            AllowedHeaders::List(allowed) => allowed.allows_headers(request_headers),
        }
    }

    /// [`AllowedHeaders::allows_headers`] with a cache the caller manages:
    /// the same answer, with the request's tokens reused from the cache when
    /// it was last filled from the same characters.
    pub fn allows_headers_with_cache(&self, request_headers: &str, cache: &mut AllowedHeadersCache) -> (r: bool)
        ensures
            r == request_headers_allowed(*self, request_headers@),
    {
        match self {
            AllowedHeaders::Any => true,
            AllowedHeaders::List(allowed) => allowed.allows_headers_with_cache(request_headers, cache),
        }
    }
}

} // verus!
