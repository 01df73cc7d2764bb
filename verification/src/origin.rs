//! Which origins may access a resource, and how a request's origin is
//! resolved against that policy.
use vstd::prelude::*;
use std::sync::Arc;
use std::time::{Duration, Instant};
use regex_automata::meta::{BuildError, Regex};
use crate::context::{RequestContext, RequestView};
use crate::pattern::{pattern_is_match, pattern_matches, regex_builds, CompiledPattern};
use crate::text::{append_str, decimal, decimal_string};
use crate::util::{array_into_vec, equals_ignore_case, lower, normalize_lower, same_ignoring_case, IntoText};

verus! {

#[verifier::external_type_specification]
#[verifier::external_body]
pub struct ExInstant(Instant);

/// `Instant::now` from std. Nothing is claimed of the reading.
#[verifier::external_body]
fn instant_now() -> (r: Instant) {
    Instant::now()
}

/// `Instant::elapsed` from std. Nothing is claimed of the reading.
#[verifier::external_body]
fn instant_elapsed(start: &Instant) -> (r: Duration) {
    start.elapsed()
}

/// `Duration::as_nanos` from std. Nothing is claimed of the count:
/// durations are opaque here.
#[verifier::external_body]
fn duration_nanos(d: &Duration) -> (r: u128) {
    d.as_nanos()
}

/// The duration that `Duration::from_millis` gives for `ms` milliseconds.
pub uninterp spec fn millis_duration(ms: u64) -> Duration;

/// `Duration::from_millis` from std. Claimed: the duration depends on the
/// number of milliseconds alone, and is named `millis_duration`. Nothing
/// else is claimed: durations are opaque here.
#[verifier::external_body]
fn duration_from_millis(ms: u64) -> (r: Duration)
    ensures
        r == millis_duration(ms),
{
    Duration::from_millis(ms)
}

/// Longest pattern, in bytes, that [`OriginMatcher::pattern_str`] compiles.
pub const MAX_PATTERN_LENGTH: usize = 50_000;

/// Longest request origin, in bytes, that is resolved at all; longer ones
/// are disallowed.
pub const MAX_ORIGIN_LENGTH: usize = 4_096;

/// Number of matchers up to which a list is scanned in order with
/// [`OriginMatcher::matches`].
pub const SMALL_LIST_LINEAR_SCAN_THRESHOLD: usize = 4;

/// How long compiling a pattern may take: 100 milliseconds.
pub fn pattern_compile_budget() -> (r: Duration)
    ensures
        r == millis_duration(100),
{
    duration_from_millis(100)
}

/// Decision returned by origin resolution.
#[derive(Debug, Clone)]
pub enum OriginDecision {
    Any,
    Exact(String),
    Mirror,
    Disallow,
    Skip,
}

/// An origin decision, with the exact origin as characters.
pub enum DecisionKind {
    Any,
    Exact(Seq<char>),
    Mirror,
    Disallow,
    Skip,
}

impl View for OriginDecision {
    type V = DecisionKind;

    open spec fn view(&self) -> DecisionKind {
        match self {
            OriginDecision::Any => DecisionKind::Any,
            OriginDecision::Exact(v) => DecisionKind::Exact(v@),
            OriginDecision::Mirror => DecisionKind::Mirror,
            OriginDecision::Disallow => DecisionKind::Disallow,
            OriginDecision::Skip => DecisionKind::Skip,
        }
    }
}

impl OriginDecision {
    pub fn any() -> (r: Self)
        ensures
            r@ == DecisionKind::Any,
    {
        Self::Any
    }

    pub fn exact<S: IntoText>(value: S) -> (r: Self)
        ensures
            r@ == DecisionKind::Exact(value.text_view()),
    {
        Self::Exact(value.into_text())
    }

    pub fn mirror() -> (r: Self)
        ensures
            r@ == DecisionKind::Mirror,
    {
        Self::Mirror
    }

    pub fn disallow() -> (r: Self)
        ensures
            r@ == DecisionKind::Disallow,
    {
        Self::Disallow
    }

    pub fn skip() -> (r: Self)
        ensures
            r@ == DecisionKind::Skip,
    {
        Self::Skip
    }
}

impl From<bool> for OriginDecision {
    /// `true` mirrors the request origin, `false` skips.
    fn from(value: bool) -> (r: Self) {
        if value {
            OriginDecision::Mirror
        } else {
            OriginDecision::Skip
        }
    }
}

impl vstd::std_specs::convert::FromSpecImpl<bool> for OriginDecision {
    open spec fn obeys_from_spec() -> bool {
        true
    }

    open spec fn from_spec(value: bool) -> Self {
        if value {
            OriginDecision::Mirror
        } else {
            OriginDecision::Skip
        }
    }
}

/// The decision an optional exact origin stands for.
pub open spec fn decision_from_text(value: Option<Seq<char>>) -> DecisionKind {
    match value {
        Some(v) => DecisionKind::Exact(v),
        None => DecisionKind::Skip,
    }
}

impl OriginDecision {
    /// The exact origin when one is given, otherwise skip.
    pub fn from_optional_text<S: IntoText>(value: Option<S>) -> (r: Self)
        ensures
            r@ == decision_from_text(
                match value {
                    Some(v) => Some(v.text_view()),
                    None => None,
                },
            ),
    {
        match value {
            Some(inner) => OriginDecision::Exact(inner.into_text()),
            None => OriginDecision::Skip,
        }
    }
}

impl From<Option<String>> for OriginDecision {
    fn from(value: Option<String>) -> (r: Self) {
        match value {
            Some(inner) => OriginDecision::Exact(inner),
            None => OriginDecision::Skip,
        }
    }
}

impl vstd::std_specs::convert::FromSpecImpl<Option<String>> for OriginDecision {
    open spec fn obeys_from_spec() -> bool {
        true
    }

    open spec fn from_spec(value: Option<String>) -> Self {
        match value {
            Some(inner) => OriginDecision::Exact(inner),
            None => OriginDecision::Skip,
        }
    }
}

impl<'a> vstd::std_specs::convert::FromSpecImpl<Option<&'a str>> for OriginDecision {
    /// A spec value cannot own the copied text, so `==` is not claimed; the
    /// `from` below states its result by view.
    open spec fn obeys_from_spec() -> bool {
        false
    }

    open spec fn from_spec(value: Option<&'a str>) -> Self {
        choose|d: OriginDecision| d@ == decision_from_text(
            match value {
                Some(v) => Some(v@),
                None => None,
            },
        )
    }
}

impl<'a> From<Option<&'a str>> for OriginDecision {
    fn from(value: Option<&'a str>) -> (r: Self)
        ensures
            r@ == decision_from_text(
                match value {
                    Some(v) => Some(v@),
                    None => None,
                },
            ),
    {
        match value {
            Some(inner) => OriginDecision::Exact(inner.to_owned()),
            None => OriginDecision::Skip,
        }
    }
}

/// Why a pattern could not be turned into a matcher.
#[derive(Debug)]
pub enum PatternError {
    Build(Box<BuildError>),
    Timeout { elapsed: Duration, budget: Duration },
    TooLong { length: usize, max: usize },
}

impl PatternError {
    /// The error's description.
    pub fn message(&self) -> (r: String)
        ensures
            self matches PatternError::TooLong { length, max } ==> r@ == "origin pattern length "@ + decimal(
                length as nat,
            ) + " exceeds maximum allowed "@ + decimal(max as nat),
            self is Build ==> r@ == "failed to compile origin pattern"@,
            self is Timeout ==> r@ == "compiling origin pattern exceeded the configured budget"@,
    {
        match self {
            PatternError::Build(_) => "failed to compile origin pattern".to_owned(),
            PatternError::Timeout { .. } => "compiling origin pattern exceeded the configured budget".to_owned(),
            PatternError::TooLong { length, max } => {
                let mut s = "origin pattern length ".to_owned();
                let a = decimal_string(*length as u64);
                append_str(&mut s, a.as_str());
                append_str(&mut s, " exceeds maximum allowed ");
                let b = decimal_string(*max as u64);
                append_str(&mut s, b.as_str());
                s
            },
        }
    }
}

/// One entry of an origin allow-list.
#[derive(Clone, Debug)]
pub enum OriginMatcher {
    Exact(String),
    Pattern(CompiledPattern),
    Bool(bool),
}

/// An exact matcher holding `text`.
pub open spec fn is_exact_text(m: OriginMatcher, text: Seq<char>) -> bool {
    m matches OriginMatcher::Exact(v) && v@ == text
}

/// What matcher `m` answers for `c`, where the library can tell: an exact
/// origin equal to `c` ignoring case, the boolean, or a pattern of known
/// text that matches `c`.
pub open spec fn matcher_answer(m: OriginMatcher, c: Seq<char>) -> bool {
    match m {
        OriginMatcher::Exact(v) => same_ignoring_case(v@, c),
        OriginMatcher::Bool(b) => b,
        OriginMatcher::Pattern(p) => p@ matches Some(s) && pattern_matches(s, c),
    }
}

/// A pattern matcher whose text is not known: a regex the caller compiled.
pub open spec fn is_opaque_pattern(m: OriginMatcher) -> bool {
    m matches OriginMatcher::Pattern(p) && p@ is None
}

/// `(?i:` + `pattern` + `)`: the pattern made case-insensitive.
pub open spec fn case_insensitive_pattern(pattern: Seq<char>) -> Seq<char> {
    seq!['(', '?', 'i', ':'] + pattern + seq![')']
}

/// The text compiled for an origin pattern is the pattern itself inside a
/// case-insensitive group: `(?i:` before it, `)` after it, and nothing else.
/// No anchor is added, so a pattern may match anywhere in an origin, as it
/// would on its own.
pub proof fn lemma_pattern_text_is_the_pattern_in_a_group(p: Seq<char>)
    ensures
        case_insensitive_pattern(p).len() == p.len() + 5,
        case_insensitive_pattern(p)[0] == '(',
        case_insensitive_pattern(p)[1] == '?',
        case_insensitive_pattern(p)[2] == 'i',
        case_insensitive_pattern(p)[3] == ':',
        forall|i: int| 0 <= i < p.len() ==> case_insensitive_pattern(p)[i + 4] == #[trigger] p[i],
        case_insensitive_pattern(p)[p.len() as int + 4] == ')',
{
}

impl OriginMatcher {
    pub fn exact<S: IntoText>(value: S) -> (r: Self)
        ensures
            r matches OriginMatcher::Exact(v) && v@ == value.text_view(),
    {
        Self::Exact(value.into_text())
    }

    /// A matcher for a regex compiled by the caller; its text is not known.
    pub fn pattern(regex: Regex) -> (r: Self)
        ensures
            r matches OriginMatcher::Pattern(p) && p@ is None,
    {
        Self::Pattern(CompiledPattern::from_regex(regex))
    }

    /// Compiles `pattern`, case-insensitively, within the default budget.
    pub fn pattern_str(pattern: &str) -> (r: Result<Self, PatternError>)
        ensures
            pattern.len() > MAX_PATTERN_LENGTH ==> (r matches Err(PatternError::TooLong { length, max })
                && length == pattern.len() && max == MAX_PATTERN_LENGTH),
            pattern.len() <= MAX_PATTERN_LENGTH && !regex_builds(case_insensitive_pattern(pattern@)) ==> r matches Err(
                PatternError::Build(_),
            ),
            pattern.len() <= MAX_PATTERN_LENGTH && regex_builds(case_insensitive_pattern(pattern@)) ==> (r matches Ok(
                OriginMatcher::Pattern(_),
            ) || r matches Err(PatternError::Timeout { .. })),
            r matches Ok(m) ==> (m matches OriginMatcher::Pattern(p) && p@ == Some(case_insensitive_pattern(pattern@))),
    {
        Self::pattern_str_with_budget(pattern, pattern_compile_budget())
    }

    /// Compiles `pattern`, case-insensitively, failing when compiling takes
    /// longer than `budget`.
    pub fn pattern_str_with_budget(pattern: &str, budget: Duration) -> (r: Result<Self, PatternError>)
        ensures
            pattern.len() > MAX_PATTERN_LENGTH ==> (r matches Err(PatternError::TooLong { length, max })
                && length == pattern.len() && max == MAX_PATTERN_LENGTH),
            pattern.len() <= MAX_PATTERN_LENGTH && !regex_builds(case_insensitive_pattern(pattern@)) ==> r matches Err(
                PatternError::Build(_),
            ),
            pattern.len() <= MAX_PATTERN_LENGTH && regex_builds(case_insensitive_pattern(pattern@)) ==> (r matches Ok(
                OriginMatcher::Pattern(_),
            ) || r matches Err(PatternError::Timeout { .. })),
            r matches Ok(m) ==> (m matches OriginMatcher::Pattern(p) && p@ == Some(case_insensitive_pattern(pattern@))),
    {
        match Self::compile_pattern(pattern, budget) {
            Ok(regex) => Ok(OriginMatcher::Pattern(regex)),
            Err(e) => Err(e),
        }
    }

    /// Compiles `pattern` wrapped as `(?i:pattern)`, after checking its
    /// length, and measures how long compiling takes.
    pub fn compile_pattern(pattern: &str, budget: Duration) -> (r: Result<CompiledPattern, PatternError>)
        ensures
            pattern.len() > MAX_PATTERN_LENGTH ==> (r matches Err(PatternError::TooLong { length, max })
                && length == pattern.len() && max == MAX_PATTERN_LENGTH),
            pattern.len() <= MAX_PATTERN_LENGTH && !regex_builds(case_insensitive_pattern(pattern@)) ==> r matches Err(
                PatternError::Build(_),
            ),
            pattern.len() <= MAX_PATTERN_LENGTH && regex_builds(case_insensitive_pattern(pattern@)) ==> (r is Ok
                || r matches Err(PatternError::Timeout { .. })),
            r matches Ok(p) ==> p@ == Some(case_insensitive_pattern(pattern@)),
    {
        if pattern.len() > MAX_PATTERN_LENGTH {
            return Err(PatternError::TooLong { length: pattern.len(), max: MAX_PATTERN_LENGTH });
        }
        let mut wrapped = "(?i:".to_owned();
        append_str(&mut wrapped, pattern);
        append_str(&mut wrapped, ")");
        proof {
            reveal_strlit("(?i:");
            reveal_strlit(")");
            assert(wrapped@ =~= case_insensitive_pattern(pattern@));
        }
        let started = instant_now();
        let compiled = CompiledPattern::compile(wrapped.as_str());
        let elapsed = instant_elapsed(&started);
        let elapsed_nanos = duration_nanos(&elapsed);
        let budget_nanos = duration_nanos(&budget);
        Self::check_compiled(compiled, elapsed, elapsed_nanos, budget, budget_nanos)
    }

    /// The outcome of a compilation that took `elapsed` (`elapsed_nanos`
    /// nanoseconds) under `budget` (`budget_nanos` nanoseconds): its error; a
    /// timeout, carrying both durations, when the time taken exceeds the
    /// budget; the compiled pattern otherwise.
    pub fn check_compiled(
        compiled: Result<CompiledPattern, BuildError>,
        elapsed: Duration,
        elapsed_nanos: u128,
        budget: Duration,
        budget_nanos: u128,
    ) -> (r: Result<CompiledPattern, PatternError>)
        ensures
            compiled is Err ==> r matches Err(PatternError::Build(_)),
            compiled is Ok && elapsed_nanos > budget_nanos ==> r == Err::<CompiledPattern, PatternError>(
                PatternError::Timeout { elapsed, budget },
            ),
            compiled matches Ok(p) ==> (elapsed_nanos <= budget_nanos ==> r == Ok::<CompiledPattern, PatternError>(p)),
    {
        match compiled {
            Err(err) => Err(PatternError::Build(Box::new(err))),
            Ok(p) => {
                if elapsed_nanos > budget_nanos {
                    Err(PatternError::Timeout { elapsed, budget })
                } else {
                    Ok(p)
                }
            },
        }
    }

    /// Whether `candidate` passes this matcher: equal ignoring case to an
    /// exact origin, matched by a pattern, or the matcher's own boolean.
    pub fn matches(&self, candidate: &str) -> (r: bool)
        ensures
            !is_opaque_pattern(*self) ==> r == matcher_answer(*self, candidate@),
    {
        match self {
            OriginMatcher::Exact(value) => equals_ignore_case(value.as_str(), candidate),
            OriginMatcher::Pattern(p) => pattern_is_match(p, candidate),
            OriginMatcher::Bool(value) => *value,
        }
    }
}

impl From<String> for OriginMatcher {
    fn from(value: String) -> (r: Self) {
        OriginMatcher::Exact(value)
    }
}

impl vstd::std_specs::convert::FromSpecImpl<String> for OriginMatcher {
    open spec fn obeys_from_spec() -> bool {
        true
    }

    open spec fn from_spec(value: String) -> Self {
        OriginMatcher::Exact(value)
    }
}

impl<'a> vstd::std_specs::convert::FromSpecImpl<&'a str> for OriginMatcher {
    /// A spec value cannot own the copied text, so `==` is not claimed; the
    /// `from` below states its result by view.
    open spec fn obeys_from_spec() -> bool {
        false
    }

    open spec fn from_spec(value: &'a str) -> Self {
        choose|m: OriginMatcher| #[trigger] is_exact_text(m, value@)
    }
}

impl<'a> From<&'a str> for OriginMatcher {
    fn from(value: &'a str) -> (r: Self)
        ensures
            r matches OriginMatcher::Exact(v) && v@ == value@,
    {
        OriginMatcher::Exact(value.to_owned())
    }
}

impl From<bool> for OriginMatcher {
    fn from(value: bool) -> (r: Self) {
        OriginMatcher::Bool(value)
    }
}

impl vstd::std_specs::convert::FromSpecImpl<bool> for OriginMatcher {
    open spec fn obeys_from_spec() -> bool {
        true
    }

    open spec fn from_spec(value: bool) -> Self {
        OriginMatcher::Bool(value)
    }
}

/// The decision for a predicate's answer: mirror the request origin when
/// the predicate allows it, refuse it otherwise.
pub fn predicate_decision(allowed: bool) -> (r: OriginDecision)
    ensures
        r@ == (if allowed {
            DecisionKind::Mirror
        } else {
            DecisionKind::Disallow
        }),
{
    if allowed {
        OriginDecision::Mirror
    } else {
        OriginDecision::Disallow
    }
}

/// A matcher that accepts every origin.
pub open spec fn is_allow_all(m: OriginMatcher) -> bool {
    m matches OriginMatcher::Bool(b) && b
}

/// An exact matcher equal to `c` ignoring case.
pub open spec fn exact_hit(m: OriginMatcher, c: Seq<char>) -> bool {
    m matches OriginMatcher::Exact(v) && same_ignoring_case(v@, c)
}

/// Whether the list holds a pattern matcher whose text is not known.
pub open spec fn list_has_opaque_pattern(m: Seq<OriginMatcher>) -> bool {
    exists|i: int| 0 <= i < m.len() && is_opaque_pattern(#[trigger] m[i])
}

/// Whether some matcher of the list answers yes for `c`, as
/// [`matcher_answer`] tells.
pub open spec fn list_answer(m: Seq<OriginMatcher>, c: Seq<char>) -> bool {
    exists|i: int| 0 <= i < m.len() && matcher_answer(#[trigger] m[i], c)
}

/// A list of origin matchers.
#[derive(Clone, Debug)]
pub struct OriginList {
    matchers: Vec<OriginMatcher>,
}

impl View for OriginList {
    type V = Seq<OriginMatcher>;

    closed spec fn view(&self) -> Seq<OriginMatcher> {
        self.matchers@
    }
}

impl OriginList {
    fn new(matchers: Vec<OriginMatcher>) -> (r: Self)
        ensures
            r@ == matchers@,
    {
        OriginList { matchers }
    }

    pub fn len(&self) -> (r: usize)
        ensures
            r == self@.len(),
    {
        self.matchers.len()
    }

    pub fn is_empty(&self) -> (r: bool)
        ensures
            r == (self@.len() == 0),
    {
        self.matchers.len() == 0
    }

    /// The matchers, in insertion order.
    pub fn iter(&self) -> (r: std::slice::Iter<'_, OriginMatcher>)
        ensures
            vstd::std_specs::slice::into_iter_elts(r) == self@,
    {
        broadcast use vstd::std_specs::slice::axiom_spec_slice_iter;

        let matchers = self.matchers.as_slice();
        let r = matchers.iter();
        assert(vstd::std_specs::slice::into_iter_elts(r) =~= matchers@);
        r
    }

    /// The matchers as a slice.
    pub fn as_slice(&self) -> (r: &[OriginMatcher])
        ensures
            r@ == self@,
    {
        self.matchers.as_slice()
    }

    /// Whether `candidate` passes the list: whether one of its matchers, as
    /// [`OriginMatcher::matches`] answers, admits it. A list holding
    /// `Bool(true)` admits everything. A list of at most four matchers is
    /// tried one by one; a longer one compares the lowercase candidate with
    /// its exact entries first, then tries its patterns. Where every pattern's
    /// text is known this is exactly [`list_answer`]; a regex the caller
    /// compiled may admit beyond it.
    pub fn matches(&self, candidate: &str) -> (r: bool)
        ensures
            list_answer(self@, candidate@) ==> r,
            r ==> list_answer(self@, candidate@) || list_has_opaque_pattern(self@),
            !list_has_opaque_pattern(self@) ==> r == list_answer(self@, candidate@),
    {
        let n = self.matchers.len();
        let mut i: usize = 0;
        while i < n
            invariant
                i <= n,
                n == self@.len(),
                forall|k: int| 0 <= k < i ==> !is_allow_all(#[trigger] self@[k]),
            decreases n - i,
        {
            if let OriginMatcher::Bool(true) = &self.matchers[i] {
                assert(matcher_answer(self@[i as int], candidate@));
                return true;
            }
            i = i + 1;
        }
        if n <= SMALL_LIST_LINEAR_SCAN_THRESHOLD {
            let mut j: usize = 0;
            while j < n
                invariant
                    j <= n,
                    n == self@.len(),
                    forall|k: int| 0 <= k < j ==> !matcher_answer(#[trigger] self@[k], candidate@),
                decreases n - j,
            {
                if self.matchers[j].matches(candidate) {
                    proof {
                        if is_opaque_pattern(self@[j as int]) {
                            assert(list_has_opaque_pattern(self@));
                        } else {
                            assert(matcher_answer(self@[j as int], candidate@));
                        }
                    }
                    return true;
                }
                j = j + 1;
            }
            return false;
        }
        let lowered = normalize_lower(candidate);
        let mut j: usize = 0;
        while j < n
            invariant
                j <= n,
                n == self@.len(),
                lowered@ == lower(candidate@),
                forall|k: int| 0 <= k < j ==> !exact_hit(#[trigger] self@[k], candidate@),
            decreases n - j,
        {
            if let OriginMatcher::Exact(value) = &self.matchers[j] {
                if normalize_lower(value.as_str()) == lowered {
                    assert(matcher_answer(self@[j as int], candidate@));
                    return true;
                }
            }
            j = j + 1;
        }
        let mut j: usize = 0;
        while j < n
            invariant
                j <= n,
                n == self@.len(),
                forall|k: int| 0 <= k < n ==> !is_allow_all(#[trigger] self@[k]),
                forall|k: int| 0 <= k < n ==> !exact_hit(#[trigger] self@[k], candidate@),
                forall|k: int| 0 <= k < j ==> !matcher_answer(#[trigger] self@[k], candidate@),
            decreases n - j,
        {
            if let OriginMatcher::Pattern(p) = &self.matchers[j] {
                if pattern_is_match(p, candidate) {
                    proof {
                        if is_opaque_pattern(self@[j as int]) {
                            assert(list_has_opaque_pattern(self@));
                        } else {
                            assert(matcher_answer(self@[j as int], candidate@));
                        }
                    }
                    return true;
                }
            }
            proof {
                let m = self@[j as int];
                assert(!is_allow_all(m));
                assert(!exact_hit(m, candidate@));
            }
            j = j + 1;
        }
        false
    }
}

/// Values that an origin allow-list can be built from.
pub trait IntoOriginMatchers: Sized {
    /// Whether `m` is the list of matchers these values stand for.
    spec fn yields(&self, m: Seq<OriginMatcher>) -> bool;

    fn into_matchers(self) -> (r: Vec<OriginMatcher>)
        ensures
            self.yields(r@),
    ;
}

/// Exact matchers for `texts`, in order.
pub open spec fn exact_matchers_of(m: Seq<OriginMatcher>, texts: Seq<Seq<char>>) -> bool {
    m.len() == texts.len() && forall|i: int| 0 <= i < m.len() ==> (#[trigger] m[i] matches OriginMatcher::Exact(v) && v@
        == texts[i])
}

fn exact_matchers(texts: &[&str]) -> (r: Vec<OriginMatcher>)
    ensures
        exact_matchers_of(r@, texts@.map_values(|s: &str| s@)),
{
    let mut out: Vec<OriginMatcher> = Vec::new();
    let mut i: usize = 0;
    while i < texts.len()
        invariant
            i <= texts@.len(),
            out@.len() == i,
            forall|k: int| 0 <= k < i ==> (#[trigger] out@[k] matches OriginMatcher::Exact(v) && v@ == texts@[k]@),
        decreases texts@.len() - i,
    {
        out.push(OriginMatcher::Exact(texts[i].to_owned()));
        i = i + 1;
    }
    out
}

impl IntoOriginMatchers for Vec<OriginMatcher> {
    open spec fn yields(&self, m: Seq<OriginMatcher>) -> bool {
        m == self@
    }

    fn into_matchers(self) -> (r: Vec<OriginMatcher>) {
        self
    }
}

impl<const N: usize> IntoOriginMatchers for [OriginMatcher; N] {
    open spec fn yields(&self, m: Seq<OriginMatcher>) -> bool {
        m == self@
    }

    fn into_matchers(self) -> (r: Vec<OriginMatcher>) {
        array_into_vec(self)
    }
}

impl<'a> IntoOriginMatchers for Vec<&'a str> {
    open spec fn yields(&self, m: Seq<OriginMatcher>) -> bool {
        exact_matchers_of(m, self@.map_values(|s: &str| s@))
    }

    fn into_matchers(self) -> (r: Vec<OriginMatcher>) {
        exact_matchers(self.as_slice())
    }
}

impl<'a, const N: usize> IntoOriginMatchers for [&'a str; N] {
    open spec fn yields(&self, m: Seq<OriginMatcher>) -> bool {
        exact_matchers_of(m, self@.map_values(|s: &str| s@))
    }

    fn into_matchers(self) -> (r: Vec<OriginMatcher>) {
        exact_matchers(self.as_slice())
    }
}

/// Boolean matchers for `flags`, in order.
pub open spec fn bool_matchers_of(m: Seq<OriginMatcher>, flags: Seq<bool>) -> bool {
    m.len() == flags.len() && forall|i: int| 0 <= i < m.len() ==> #[trigger] m[i] == OriginMatcher::Bool(flags[i])
}

fn bool_matchers(flags: &[bool]) -> (r: Vec<OriginMatcher>)
    ensures
        bool_matchers_of(r@, flags@),
{
    let mut out: Vec<OriginMatcher> = Vec::new();
    let mut i: usize = 0;
    while i < flags.len()
        invariant
            i <= flags@.len(),
            out@.len() == i,
            forall|k: int| 0 <= k < i ==> #[trigger] out@[k] == OriginMatcher::Bool(flags@[k]),
        decreases flags@.len() - i,
    {
        out.push(OriginMatcher::Bool(flags[i]));
        i = i + 1;
    }
    out
}

impl<const N: usize> IntoOriginMatchers for [bool; N] {
    open spec fn yields(&self, m: Seq<OriginMatcher>) -> bool {
        bool_matchers_of(m, self@)
    }

    fn into_matchers(self) -> (r: Vec<OriginMatcher>) {
        bool_matchers(self.as_slice())
    }
}

impl IntoOriginMatchers for Vec<bool> {
    open spec fn yields(&self, m: Seq<OriginMatcher>) -> bool {
        bool_matchers_of(m, self@)
    }

    fn into_matchers(self) -> (r: Vec<OriginMatcher>) {
        bool_matchers(self.as_slice())
    }
}

impl IntoOriginMatchers for Vec<String> {
    open spec fn yields(&self, m: Seq<OriginMatcher>) -> bool {
        exact_matchers_of(m, self@.map_values(|s: String| s@))
    }

    fn into_matchers(self) -> (r: Vec<OriginMatcher>) {
        let mut out: Vec<OriginMatcher> = Vec::new();
        let mut i: usize = 0;
        while i < self.len()
            invariant
                i <= self@.len(),
                out@.len() == i,
                forall|k: int| 0 <= k < i ==> (#[trigger] out@[k] matches OriginMatcher::Exact(v) && v@ == self@[k]@),
            decreases self@.len() - i,
        {
            out.push(OriginMatcher::Exact(self[i].clone()));
            i = i + 1;
        }
        out
    }
}

/// A user predicate deciding whether an origin is allowed.
#[verifier::external_body]
pub struct OriginPredicate {
    inner: Arc<dyn for<'a> Fn(&str, &RequestContext<'a>) -> bool + Send + Sync>,
}

/// A user function producing the origin decision itself.
#[verifier::external_body]
pub struct CallbackFn {
    inner: Arc<dyn for<'a> Fn(Option<&'a str>, &RequestContext<'a>) -> OriginDecision + Send + Sync>,
}

/// A callback producing the origin decision: a user function, or the
/// built-in one that skips every request.
#[derive(Clone)]
pub enum OriginCallback {
    Function(CallbackFn),
    SkipAll,
}

impl Clone for OriginPredicate {
    /// Shares the same predicate. Nothing is claimed of the copy.
    #[verifier::external_body]
    fn clone(&self) -> (r: Self) {
        OriginPredicate { inner: Arc::clone(&self.inner) }
    }
}

impl Clone for CallbackFn {
    /// Shares the same function. Nothing is claimed of the copy.
    #[verifier::external_body]
    fn clone(&self) -> (r: Self) {
        CallbackFn { inner: Arc::clone(&self.inner) }
    }
}

impl OriginPredicate {
    /// Holds `predicate`. Nothing is claimed of it.
    #[verifier::external_body]
    pub(crate) fn new<F>(predicate: F) -> (r: Self) where
        F: for<'a> Fn(&str, &RequestContext<'a>) -> bool + Send + Sync + 'static,
     {
        OriginPredicate { inner: Arc::new(predicate) }
    }

    /// Calls the user predicate. Nothing is claimed of its answer.
    #[verifier::external_body]
    pub(crate) fn call(&self, origin: &str, ctx: &RequestContext<'_>) -> (r: bool) {
        (self.inner)(origin, ctx)
    }
}

impl CallbackFn {
    /// Holds `callback`. Nothing is claimed of it.
    #[verifier::external_body]
    pub(crate) fn new<F>(callback: F) -> (r: Self) where
        F: for<'a> Fn(Option<&'a str>, &RequestContext<'a>) -> OriginDecision + Send + Sync + 'static,
     {
        CallbackFn { inner: Arc::new(callback) }
    }

    /// Calls the user function. Nothing is claimed of the decision it
    /// returns.
    #[verifier::external_body]
    pub(crate) fn call<'a>(&self, origin: Option<&'a str>, ctx: &RequestContext<'a>) -> (r: OriginDecision) {
        (self.inner)(origin, ctx)
    }
}

impl OriginCallback {
    /// The decision for `origin`: the user function's, or skip for the
    /// built-in callback.
    pub fn call<'a>(&self, origin: Option<&'a str>, ctx: &RequestContext<'a>) -> (r: OriginDecision)
        ensures
            self is SkipAll ==> r@ == DecisionKind::Skip,
            self matches OriginCallback::Function(f) ==> callback_may_answer(
                *f,
                crate::context::opt_str_view(origin),
                ctx@,
                r@,
            ),
    {
        match self {
            OriginCallback::Function(f) => {
                let r = f.call(origin, ctx);
                proof {
                    reveal(callback_may_answer);
                }
                r
            },
            OriginCallback::SkipAll => OriginDecision::Skip,
        }
    }
}

/// Which origins may access the resource.
#[derive(Clone)]
pub enum Origin {
    Any,
    Exact(String),
    List(OriginList),
    Predicate(OriginPredicate),
    Custom(OriginCallback),
}

impl Default for Origin {
    /// Every origin is allowed.
    fn default() -> (r: Self)
        ensures
            r is Any,
    {
        Origin::Any
    }
}

/// Whether `answer` is an answer that the user predicate `p` may give when
/// it is handed the origin `o` and the request `ctx`. Nothing is known of
/// user code, so every answer may come; the predicate is kept opaque so that
/// a contract can say with which arguments the user function was called.
#[verifier::opaque]
pub open spec fn predicate_may_answer(p: OriginPredicate, o: Seq<char>, ctx: RequestView, answer: bool) -> bool {
    true
}

/// Whether `answer` is a decision that the user callback `f` may give when it
/// is handed the origin `o` and the request `ctx`. Nothing is known of user
/// code, so every decision may come; the predicate is kept opaque so that a
/// contract can say with which arguments the user function was called.
#[verifier::opaque]
pub open spec fn callback_may_answer(
    f: CallbackFn,
    o: Option<Seq<char>>,
    ctx: RequestView,
    answer: DecisionKind,
) -> bool {
    true
}

/// The decisions that resolving `request_origin` against `origin` may give.
/// A disabled policy skips every request. Otherwise an origin longer than
/// [`MAX_ORIGIN_LENGTH`] bytes is disallowed; an absent one is skipped,
/// except by a custom callback. A wildcard policy answers `Any`; an exact one
/// the configured origin when it matches ignoring case; a list mirrors the
/// request origin exactly when one of its matchers admits it (a regex the
/// caller compiled may admit beyond what is known); a predicate mirrors or
/// disallows as the user function answers. Where a user function decides,
/// every answer it could give is allowed here.
pub open spec fn resolve_allows(origin: Origin, request_origin: Option<Seq<char>>, ctx: RequestView, d: DecisionKind) -> bool {
    if origin matches Origin::Custom(c) && c is SkipAll {
        d == DecisionKind::Skip
    } else if request_origin matches Some(o) && byte_len(o) > MAX_ORIGIN_LENGTH {
        d == DecisionKind::Disallow
    } else {
        match origin {
            Origin::Any => d == (if request_origin is Some {
                DecisionKind::Any
            } else {
                DecisionKind::Skip
            }),
            Origin::Exact(v) => match request_origin {
                None => d == DecisionKind::Skip,
                Some(o) => d == (if same_ignoring_case(v@, o) {
                    DecisionKind::Exact(v@)
                } else {
                    DecisionKind::Disallow
                }),
            },
            Origin::List(l) => match request_origin {
                None => d == DecisionKind::Skip,
                Some(o) => (d == DecisionKind::Mirror || d == DecisionKind::Disallow) && (list_answer(l@, o) ==> d
                    == DecisionKind::Mirror) && (d == DecisionKind::Mirror ==> list_answer(l@, o)
                    || list_has_opaque_pattern(l@)),
            },
            Origin::Predicate(p) => match request_origin {
                None => d == DecisionKind::Skip,
                Some(o) => (d == DecisionKind::Mirror && predicate_may_answer(p, o, ctx, true)) || (d
                    == DecisionKind::Disallow && predicate_may_answer(p, o, ctx, false)),
            },
            Origin::Custom(OriginCallback::Function(f)) => callback_may_answer(f, request_origin, ctx, d),
            Origin::Custom(OriginCallback::SkipAll) => d == DecisionKind::Skip,
        }
    }
}

/// The length of `s` in UTF-8 bytes, as `str::len` reports it.
pub open spec fn byte_len(s: Seq<char>) -> usize {
    vstd::utf8::encode_utf8(s).len() as usize
}

/// Whether an origin policy is decided by the library alone: no predicate,
/// no user callback and no regex compiled by the caller.
pub open spec fn is_self_decided(origin: Origin) -> bool {
    match origin {
        Origin::Any | Origin::Exact(_) => true,
        Origin::List(l) => !list_has_opaque_pattern(l@),
        Origin::Predicate(_) => false,
        Origin::Custom(c) => c is SkipAll,
    }
}

impl Origin {
    pub fn any() -> (r: Self)
        ensures
            r is Any,
    {
        Self::Any
    }

    pub fn exact<S: IntoText>(value: S) -> (r: Self)
        ensures
            r matches Origin::Exact(v) && v@ == value.text_view(),
    {
        Self::Exact(value.into_text())
    }

    pub fn list<I: IntoOriginMatchers>(values: I) -> (r: Self)
        ensures
            r matches Origin::List(l) && values.yields(l@),
    {
        Self::List(OriginList::new(values.into_matchers()))
    }

    pub fn predicate<F>(predicate: F) -> (r: Self) where
        F: for<'a> Fn(&str, &RequestContext<'a>) -> bool + Send + Sync + 'static,
        ensures
            r is Predicate,
    {
        Self::Predicate(OriginPredicate::new(predicate))
    }

    pub fn custom<F>(callback: F) -> (r: Self) where
        F: for<'a> Fn(Option<&'a str>, &RequestContext<'a>) -> OriginDecision + Send + Sync + 'static,
        ensures
            r is Custom,
    {
        Self::Custom(OriginCallback::Function(CallbackFn::new(callback)))
    }

    /// A policy whose callback skips every request.
    pub fn disabled() -> (r: Self)
        ensures
            r == Origin::Custom(OriginCallback::SkipAll),
    {
        Self::Custom(OriginCallback::SkipAll)
    }

    /// Resolves `request_origin` against the policy.
    pub fn resolve(&self, request_origin: Option<&str>, ctx: &RequestContext<'_>) -> (r: OriginDecision)
        ensures
            resolve_allows(*self, crate::context::opt_str_view(request_origin), ctx@, r@),
    {
        if let Origin::Custom(OriginCallback::SkipAll) = self {
            return OriginDecision::Skip;
        }
        if let Some(origin) = request_origin {
            if origin.len() > MAX_ORIGIN_LENGTH {
                return OriginDecision::Disallow;
            }
        }
        match self {
            Origin::Any => match request_origin {
                Some(_) => OriginDecision::Any,
                None => OriginDecision::Skip,
            },
            Origin::Exact(value) => match request_origin {
                Some(origin) => {
                    if equals_ignore_case(value.as_str(), origin) {
                        OriginDecision::Exact(value.clone())
                    } else {
                        OriginDecision::Disallow
                    }
                },
                None => OriginDecision::Skip,
            },
            Origin::List(list) => match request_origin {
                Some(origin) => {
                    if list.matches(origin) {
                        OriginDecision::Mirror
                    } else {
                        OriginDecision::Disallow
                    }
                },
                None => OriginDecision::Skip,
            },
            Origin::Predicate(predicate) => match request_origin {
                Some(origin) => {
                    let allowed = predicate.call(origin, ctx);
                    proof {
                        reveal(predicate_may_answer);
                    }
                    predicate_decision(allowed)
                },
                None => OriginDecision::Skip,
            },
            Origin::Custom(callback) => callback.call(request_origin, ctx),
        }
    }

    /// Whether a disallowed origin still varies the response on `Origin`:
    /// for every policy but the wildcard.
    pub fn vary_on_disallow(&self) -> (r: bool)
        ensures
            r == !(self is Any),
    {
        !matches!(self, Origin::Any)
    }
}

} // verus!
