//! The list of HTTP methods accepted on cross-origin requests.
use vstd::prelude::*;
use crate::constants::method;
use crate::text::{join, join_strings, trim, trim_string};
use crate::util::{dedupe_trimmed, equals_ignore_case, lower, same_ignoring_case, unique_trimmed, views, IntoStringList};

verus! {

/// Declarative allow-list for HTTP methods accepted on cross-origin requests.
///
/// The collection preserves insertion order and performs case-insensitive
/// comparisons when evaluating incoming requests.
#[derive(Clone, PartialEq, Eq, Debug)]
pub struct AllowedMethods(Vec<String>);

impl View for AllowedMethods {
    type V = Seq<Seq<char>>;

    closed spec fn view(&self) -> Seq<Seq<char>> {
        views(self.0@)
    }
}

/// The list built from `values`: each trimmed, and of several equal once
/// lowercased only the first kept.
pub open spec fn method_list(values: Seq<Seq<char>>) -> Seq<Seq<char>> {
    unique_trimmed(values, false)
}

/// Whether `method`, trimmed, is non-empty and equal ignoring case to one of
/// `allowed`.
pub open spec fn method_allowed(allowed: Seq<Seq<char>>, method: Seq<char>) -> bool {
    let m = trim(method);
    m.len() > 0 && exists|i: int| 0 <= i < allowed.len() && same_ignoring_case(#[trigger] allowed[i], m)
}

/// A method passes a list exactly when, once trimmed, it is non-empty and
/// some listed method has the same lowercase form: a method is allowed only
/// if it is itself listed, ignoring case and surrounding whitespace.
pub proof fn lemma_method_allowed_iff_listed(allowed: Seq<Seq<char>>, method: Seq<char>)
    ensures
        method_allowed(allowed, method) <==> (trim(method).len() > 0 && exists|i: int|
            0 <= i < allowed.len() && lower(#[trigger] allowed[i]) == lower(trim(method))),
{
}

/// `Access-Control-Allow-Methods` value: the methods joined with commas,
/// absent for an empty list.
pub open spec fn methods_header_value(allowed: Seq<Seq<char>>) -> Option<Seq<char>> {
    if allowed.len() == 0 {
        None
    } else {
        Some(join(allowed, seq![',']))
    }
}

impl AllowedMethods {
    /// GET, HEAD, PUT, PATCH, POST and DELETE, in that order.
    pub open spec fn default_methods() -> Seq<Seq<char>> {
        seq![method::GET@, method::HEAD@, method::PUT@, method::PATCH@, method::POST@, method::DELETE@]
    }

    /// Builds a normalized allow-list from the provided iterator.
    ///
    /// Whitespace is trimmed and duplicate values (ignoring case) are removed,
    /// the first kept.
    pub fn list<I: IntoStringList>(values: I) -> (r: Self)
        ensures
            r@ == method_list(values.string_list_view()),
    {
        Self::deduplicated(values.into_string_list())
    }

    /// Builds a normalized allow-list from `values`.
    pub fn deduplicated(values: Vec<String>) -> (r: Self)
        ensures
            r@ == method_list(views(values@)),
    {
        AllowedMethods(dedupe_trimmed(&values, false))
    }

    /// Serializes the configured methods into a header value; `None` when the
    /// list is empty.
    pub fn header_value(&self) -> (r: Option<String>)
        ensures
            r.is_some() == methods_header_value(self@).is_some(),
            r matches Some(s) ==> methods_header_value(self@) == Some(s@),
    {
        if self.0.len() == 0 {
            None
        } else {
            let s = join_strings(self.0.as_slice(), ",");
            proof {
                reveal_strlit(",");
                assert(","@ =~= seq![',']);
            }
            Some(s)
        }
    }

    /// Returns `true` when the trimmed `method` is non-empty and matches an
    /// entry ignoring case.
    pub fn allows_method(&self, method: &str) -> (r: bool)
        ensures
            r == method_allowed(self@, method@),
    {
        let m = trim_string(method);
        if m.as_str().is_empty() {
            return false;
        }
        let mut i: usize = 0;
        while i < self.0.len()
            invariant
                i <= self.0.len(),
                m@ == trim(method@),
                m@.len() > 0,
                forall|k: int| 0 <= k < i ==> !same_ignoring_case(#[trigger] self@[k], m@),
            decreases self.0.len() - i,
        {
            if equals_ignore_case(self.0[i].as_str(), m.as_str()) {
                assert(same_ignoring_case(self@[i as int], m@));
                return true;
            }
            i = i + 1;
        }
        false
    }

    /// The stored methods, in insertion order.
    pub fn iter(&self) -> (r: std::slice::Iter<'_, String>)
        ensures
            views(vstd::std_specs::slice::into_iter_elts(r)) == self@,
    {
        broadcast use vstd::std_specs::slice::axiom_spec_slice_iter;

        let names = self.0.as_slice();
        let r = names.iter();
        assert(vstd::std_specs::slice::into_iter_elts(r) =~= names@);
        r
    }

    /// Consumes the structure and returns the owned list of methods.
    pub fn into_inner(self) -> (r: Vec<String>)
        ensures
            views(r@) == self@,
    {
        self.0
    }

    /// The stored methods as a slice.
    pub fn as_slice(&self) -> (r: &[String])
        ensures
            views(r@) == self@,
    {
        self.0.as_slice()
    }
}

impl Default for AllowedMethods {
    /// GET, HEAD, PUT, PATCH, POST and DELETE.
    fn default() -> (r: Self)
        ensures
            r@ == Self::default_methods(),
    {
        let v = vec![
            method::GET.to_owned(),
            method::HEAD.to_owned(),
            method::PUT.to_owned(),
            method::PATCH.to_owned(),
            method::POST.to_owned(),
            method::DELETE.to_owned(),
        ];
        let r = AllowedMethods(v);
        assert(r@ =~= seq![method::GET@, method::HEAD@, method::PUT@, method::PATCH@, method::POST@, method::DELETE@]);
        r
    }
}

impl From<Vec<String>> for AllowedMethods {
    /// Wraps `values` as they are.
    fn from(values: Vec<String>) -> (r: Self)
        ensures
            r@ == views(values@),
    {
        AllowedMethods(values)
    }
}

impl vstd::std_specs::convert::FromSpecImpl<Vec<String>> for AllowedMethods {
    open spec fn obeys_from_spec() -> bool {
        true
    }

    closed spec fn from_spec(values: Vec<String>) -> Self {
        AllowedMethods(values)
    }
}

impl From<AllowedMethods> for Vec<String> {
    /// The stored methods.
    fn from(methods: AllowedMethods) -> (r: Self)
        ensures
            views(r@) == methods@,
    {
        methods.0
    }
}

impl vstd::std_specs::convert::FromSpecImpl<AllowedMethods> for Vec<String> {
    open spec fn obeys_from_spec() -> bool {
        true
    }

    closed spec fn from_spec(methods: AllowedMethods) -> Self {
        methods.0
    }
}

impl std::ops::Deref for AllowedMethods {
    type Target = [String];

    /// The stored methods as a slice.
    fn deref(&self) -> (r: &[String])
        ensures
            views(r@) == self@,
    {
        self.0.as_slice()
    }
}

impl<'a> IntoIterator for &'a AllowedMethods {
    type Item = &'a String;
    type IntoIter = std::slice::Iter<'a, String>;

    fn into_iter(self) -> (r: std::slice::Iter<'a, String>)
        ensures
            views(vstd::std_specs::slice::into_iter_elts(r)) == self@,
    {
        self.iter()
    }
}

impl IntoIterator for AllowedMethods {
    type Item = String;
    type IntoIter = std::vec::IntoIter<String>;

    fn into_iter(self) -> (r: std::vec::IntoIter<String>)
        ensures
            views(vstd::std_specs::vec::into_iter_elts(r)) == self@,
    {
        broadcast use vstd::std_specs::vec::axiom_spec_into_iter;

        let ghost methods = self.0@;
        let r = self.0.into_iter();
        assert(vstd::std_specs::vec::into_iter_elts(r) == methods);
        r
    }
}

} // verus!
