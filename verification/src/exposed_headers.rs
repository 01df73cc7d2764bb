//! Configuration of the `Access-Control-Expose-Headers` response header.
use vstd::prelude::*;
use crate::text::{join, join_strings};
use crate::util::{dedupe_trimmed, unique_trimmed, views, IntoStringList};

verus! {

/// Configuration mirror of the `Access-Control-Expose-Headers` response header.
#[derive(Clone, Debug, PartialEq, Eq)]
pub enum ExposedHeaders {
    List(ExposedHeaderList),
    Any,
}

/// An explicit list of exposed header names.
#[derive(Clone, Debug, PartialEq, Eq)]
pub struct ExposedHeaderList {
    values: Vec<String>,
}

impl View for ExposedHeaderList {
    type V = Seq<Seq<char>>;

    closed spec fn view(&self) -> Seq<Seq<char>> {
        views(self.values@)
    }
}

/// The single wildcard entry `*`.
pub open spec fn is_lone_wildcard(d: Seq<Seq<char>>) -> bool {
    d.len() == 1 && d[0] == seq!['*']
}

/// The names listed explicitly; none for the wildcard.
pub open spec fn exposed_names(h: ExposedHeaders) -> Seq<Seq<char>> {
    match h {
        ExposedHeaders::List(l) => l@,
        ExposedHeaders::Any => Seq::empty(),
    }
}

/// `Access-Control-Expose-Headers` value: `*` for the wildcard, the names
/// joined with commas for a non-empty list, absent for an empty one.
pub open spec fn exposed_value(h: ExposedHeaders) -> Option<Seq<char>> {
    match h {
        ExposedHeaders::Any => Some(seq!['*']),
        ExposedHeaders::List(l) => if l@.len() == 0 {
            None
        } else {
            Some(join(l@, seq![',']))
        },
    }
}

impl ExposedHeaderList {
    /// The configured names, in insertion order.
    pub fn values(&self) -> (r: &[String])
        ensures
            views(r@) == self@,
    {
        self.values.as_slice()
    }

    /// Whether no name is configured.
    pub fn is_empty(&self) -> (r: bool)
        ensures
            r == (self@.len() == 0),
    {
        self.values.len() == 0
    }
}

impl std::ops::Deref for ExposedHeaderList {
    type Target = [String];

    /// The configured names as a slice.
    fn deref(&self) -> (r: &[String])
        ensures
            views(r@) == self@,
    {
        self.values.as_slice()
    }
}

impl Default for ExposedHeaderList {
    fn default() -> (r: Self)
        ensures
            r@ == Seq::<Seq<char>>::empty(),
    {
        let r = ExposedHeaderList { values: Vec::new() };
        assert(r@ =~= Seq::<Seq<char>>::empty());
        r
    }
}

impl Default for ExposedHeaders {
    /// An empty list: no header is exposed.
    fn default() -> (r: Self)
        ensures
            r matches ExposedHeaders::List(l) && l@.len() == 0,
    {
        ExposedHeaders::List(ExposedHeaderList::default())
    }
}

impl ExposedHeaders {
    /// Builds an allow-list from `values`: each trimmed, and of several equal
    /// once lowercased only the first kept. A list that comes down to the
    /// single entry `*` is the wildcard.
    pub fn list<I: IntoStringList>(values: I) -> (r: Self)
        ensures
            is_lone_wildcard(unique_trimmed(values.string_list_view(), false)) ==> r is Any,
            !is_lone_wildcard(unique_trimmed(values.string_list_view(), false)) ==> (r matches ExposedHeaders::List(l)
                && l@ == unique_trimmed(values.string_list_view(), false)),
    {
        Self::deduplicated(values.into_string_list())
    }

    /// [`ExposedHeaders::list`] on a vector of owned names.
    pub fn deduplicated(values: Vec<String>) -> (r: Self)
        ensures
            is_lone_wildcard(unique_trimmed(views(values@), false)) ==> r is Any,
            !is_lone_wildcard(unique_trimmed(views(values@), false)) ==> (r matches ExposedHeaders::List(l)
                && l@ == unique_trimmed(views(values@), false)),
    {
        let deduped = dedupe_trimmed(&values, false);
        assert(views(deduped@) == unique_trimmed(views(values@), false));
        let star = "*".to_owned();
        proof {
            reveal_strlit("*");
            assert("*"@ =~= seq!['*']);
        }
        if deduped.len() == 1 && deduped[0] == star {
            assert(views(deduped@)[0] == deduped@[0]@);
            return ExposedHeaders::Any;
        }
        proof {
            if deduped.len() == 1 {
                assert(views(deduped@)[0] == deduped@[0]@);
            }
        }
        ExposedHeaders::List(ExposedHeaderList { values: deduped })
    }

    /// Serializes the configuration into a header value.
    pub fn header_value(&self) -> (r: Option<String>)
        ensures
            r.is_some() == exposed_value(*self).is_some(),
            r matches Some(s) ==> exposed_value(*self) == Some(s@),
    {
        match self {
            ExposedHeaders::Any => {
                let s = "*".to_owned();
                proof {
                    reveal_strlit("*");
                    assert("*"@ =~= seq!['*']);
                }
                Some(s)
            },
            ExposedHeaders::List(l) => {
                if l.values.len() == 0 {
                    None
                } else {
                    let s = join_strings(l.values.as_slice(), ",");
                    proof {
                        reveal_strlit(",");
                        assert(","@ =~= seq![',']);
                    }
                    Some(s)
                }
            },
        }
    }

    /// The explicitly configured names, in insertion order; empty for the
    /// wildcard, which is represented by the header value alone.
    pub fn iter(&self) -> (r: std::slice::Iter<'_, String>)
        ensures
            views(vstd::std_specs::slice::into_iter_elts(r)) == exposed_names(*self),
    {
        broadcast use vstd::std_specs::slice::axiom_spec_slice_iter;

        let names = self.names();
        let r = names.iter();
        assert(vstd::std_specs::slice::into_iter_elts(r) =~= names@);
        r
    }

    /// The explicitly configured names; empty for the wildcard.
    pub fn names(&self) -> (r: &[String])
        ensures
            views(r@) == exposed_names(*self),
    {
        match self {
            ExposedHeaders::List(l) => l.values(),
            ExposedHeaders::Any => {
                let r: &[String] = &[];
                assert(views(r@) =~= Seq::<Seq<char>>::empty());
                r
            },
        }
    }
}

} // verus!
