//! Configuration of the `Timing-Allow-Origin` response header.
use vstd::prelude::*;
use crate::text::{join, join_strings};
use crate::util::{dedupe_trimmed, unique_trimmed, views, IntoStringList};

verus! {

/// Represents the `Timing-Allow-Origin` response configuration that enables
/// browsers to expose detailed Resource Timing data.
#[derive(Clone, Debug, PartialEq, Eq)]
pub enum TimingAllowOrigin {
    Any,
    List(Vec<String>),
}

/// `Timing-Allow-Origin` value: `*` for the wildcard, the origins joined
/// with single spaces for a non-empty list, absent for an empty one.
pub open spec fn timing_value(t: TimingAllowOrigin) -> Option<Seq<char>> {
    match t {
        TimingAllowOrigin::Any => Some(seq!['*']),
        TimingAllowOrigin::List(v) => if v@.len() == 0 {
            None
        } else {
            Some(join(views(v@), seq![' ']))
        },
    }
}

impl TimingAllowOrigin {
    /// The wildcard configuration.
    pub fn any() -> (r: Self)
        ensures
            r is Any,
    {
        TimingAllowOrigin::Any
    }

    /// Creates a deduplicated allow-list: each value trimmed, and of several
    /// equal ignoring case only the first kept.
    pub fn list<I: IntoStringList>(values: I) -> (r: Self)
        ensures
            r matches TimingAllowOrigin::List(v) && views(v@) == unique_trimmed(values.string_list_view(), false),
    {
        Self::deduplicated(values.into_string_list())
    }

    /// [`TimingAllowOrigin::list`] on a vector of owned values.
    pub fn deduplicated(values: Vec<String>) -> (r: Self)
        ensures
            r matches TimingAllowOrigin::List(v) && views(v@) == unique_trimmed(views(values@), false),
    {
        TimingAllowOrigin::List(dedupe_trimmed(&values, false))
    }

    /// Serializes the configuration into a value for `Timing-Allow-Origin`.
    pub fn header_value(&self) -> (r: Option<String>)
        ensures
            r.is_some() == timing_value(*self).is_some(),
            r matches Some(s) ==> timing_value(*self) == Some(s@),
    {
        match self {
            TimingAllowOrigin::Any => {
                let s = "*".to_owned();
                proof {
                    reveal_strlit("*");
                    assert("*"@ =~= seq!['*']);
                }
                Some(s)
            },
            TimingAllowOrigin::List(v) => {
                if v.len() == 0 {
                    None
                } else {
                    let s = join_strings(v.as_slice(), " ");
                    proof {
                        reveal_strlit(" ");
                        assert(" "@ =~= seq![' ']);
                    }
                    Some(s)
                }
            },
        }
    }
}

} // verus!
