//! Accumulation of response headers and their hand-off as an ordered map.
use vstd::prelude::*;
use indexmap::IndexMap;
use crate::constants::header;
use crate::text::{
    comma_tokens, comma_tokens_of, first_by_key, free_of, join, join_strings, lemma_comma_tokens_join,
    lemma_comma_tokens_shape, lemma_first_by_key_covers, lemma_first_by_key_from, lemma_first_by_key_keeps_distinct,
    lemma_trim_free, lemma_trim_shape, trim, trim_string,
};
use crate::util::{ascii_lower, eq_ignore_ascii_case, first_by_fold, fold_key, lemma_first_by_key_distinct, same_ignoring_ascii_case};

verus! {

#[verifier::external_type_specification]
#[verifier::external_body]
#[verifier::reject_recursive_types(K)]
#[verifier::reject_recursive_types(V)]
#[verifier::reject_recursive_types(S)]
pub struct ExIndexMap<K, V, S>(IndexMap<K, V, S>);

/// `Clone` for `IndexMap` from indexmap. Nothing is claimed of the copy.
pub assume_specification<K, V, S>[<IndexMap<K, V, S> as Clone>::clone](m: &IndexMap<K, V, S>) -> IndexMap<K, V, S>
    where
        K: Clone,
        V: Clone,
        S: Clone,
;

/// Canonical map type used for returning header modifications to callers.
///
/// The map preserves insertion order to keep the resulting response headers
/// stable.
pub type Headers = IndexMap<String, String>;

/// The entries of a header map, in map order, as (name, value) pairs.
pub uninterp spec fn header_entries(m: IndexMap<String, String>) -> Seq<(Seq<char>, Seq<char>)>;

/// Position of the entry whose name is exactly `k`, or -1.
pub open spec fn key_index(m: Seq<(Seq<char>, Seq<char>)>, k: Seq<char>) -> int
    decreases m.len(),
{
    if m.len() == 0 {
        -1
    } else if m.last().0 == k {
        m.len() - 1
    } else {
        key_index(m.drop_last(), k)
    }
}

/// Map insertion: an existing key keeps its place and takes the new value; a
/// new key goes last.
pub open spec fn insert_entry(m: Seq<(Seq<char>, Seq<char>)>, k: Seq<char>, v: Seq<char>) -> Seq<(Seq<char>, Seq<char>)> {
    let i = key_index(m, k);
    if i >= 0 {
        m.update(i, (m[i].0, v))
    } else {
        m.push((k, v))
    }
}

/// `IndexMap::with_capacity` from indexmap. Claimed: the map is empty.
#[verifier::external_body]
fn headers_with_capacity(n: usize) -> (m: Headers)
    ensures
        header_entries(m) == Seq::<(Seq<char>, Seq<char>)>::empty(),
{
    IndexMap::with_capacity(n)
}

/// `IndexMap::insert` from indexmap. Claimed, as its documentation states: if
/// an equal key is present it keeps its position and its value becomes `v`;
/// otherwise `(k, v)` is appended last.
#[verifier::external_body]
fn headers_insert(m: &mut Headers, k: String, v: String)
    ensures
        header_entries(*final(m)) == insert_entry(header_entries(*old(m)), k@, v@),
{
    m.insert(k, v);
}

pub open spec fn opt_view(o: Option<String>) -> Option<Seq<char>> {
    match o {
        Some(s) => Some(s@),
        None => None,
    }
}

pub open spec fn pairs_view(v: Seq<(String, String)>) -> Seq<(Seq<char>, Seq<char>)> {
    v.map_values(|e: (String, String)| (e.0@, e.1@))
}

/// A `Vary` value and a list of other headers.
pub type HeaderModel = (Option<Seq<char>>, Seq<(Seq<char>, Seq<char>)>);

/// The entries `Vary` holds after adding `value`: the existing
/// comma-separated entries and the trimmed `value`, empty entries dropped,
/// and of entries equal ignoring ASCII case only the first kept.
pub open spec fn vary_entries(vary: Option<Seq<char>>, value: Seq<char>) -> Seq<Seq<char>> {
    let existing = match vary {
        Some(v) => comma_tokens(v),
        None => Seq::empty(),
    };
    let t = trim(value);
    let entries = if t.len() > 0 { existing.push(t) } else { existing };
    first_by_key(entries, fold_key(true))
}

/// `Vary` after adding `value`: its entries joined with `", "`; absent when
/// there is none.
pub open spec fn add_vary_model(vary: Option<Seq<char>>, value: Seq<char>) -> Option<Seq<char>> {
    if vary_entries(vary, value).len() == 0 {
        None
    } else {
        Some(join(vary_entries(vary, value), seq![',', ' ']))
    }
}

/// `Vary` never lists an entry twice: the entries it is joined from are
/// pairwise different ignoring ASCII case.
pub proof fn lemma_vary_entries_distinct(vary: Option<Seq<char>>, value: Seq<char>)
    ensures
        forall|i: int, j: int|
            0 <= i < j < vary_entries(vary, value).len() ==> ascii_lower(#[trigger] vary_entries(vary, value)[i])
                != ascii_lower(#[trigger] vary_entries(vary, value)[j]),
{
    let existing = match vary {
        Some(v) => comma_tokens(v),
        None => Seq::empty(),
    };
    let t = trim(value);
    let entries = if t.len() > 0 { existing.push(t) } else { existing };
    lemma_first_by_key_distinct(entries, fold_key(true));
}

/// Adding to `Vary` a value without commas a second time changes nothing:
/// the value, or an entry equal to it ignoring ASCII case, is already there.
#[verifier::spinoff_prover]
#[verifier::rlimit(40)]
pub proof fn lemma_add_vary_idempotent(vary: Option<Seq<char>>, value: Seq<char>)
    requires
        free_of(value, ','),
    ensures
        add_vary_model(add_vary_model(vary, value), value) == add_vary_model(vary, value),
{
    let existing = match vary {
        Some(v) => comma_tokens(v),
        None => Seq::empty(),
    };
    let t = trim(value);
    let entries = if t.len() > 0 { existing.push(t) } else { existing };
    let es = vary_entries(vary, value);
    assert(es == first_by_key(entries, fold_key(true)));
    lemma_trim_shape(value);
    lemma_trim_free(value, ',');
    if let Some(v) = vary {
        lemma_comma_tokens_shape(v);
    }
    assert forall|j: int| 0 <= j < entries.len() implies free_of(#[trigger] entries[j], ',') && trim(entries[j])
        == entries[j] && entries[j].len() > 0 by {
        if j < existing.len() {
            assert(entries[j] == existing[j]);
        } else {
            assert(entries[j] == t);
        }
    }
    lemma_first_by_key_from(entries, fold_key(true));
    lemma_first_by_key_covers(entries, fold_key(true));
    lemma_first_by_key_distinct(entries, fold_key(true));
    assert forall|i: int| 0 <= i < es.len() implies free_of(#[trigger] es[i], ',') && trim(es[i]) == es[i]
        && es[i].len() > 0 by {
        let j = choose|j: int| 0 <= j < entries.len() && entries[j] == es[i];
    }
    if es.len() == 0 {
        if t.len() > 0 {
            assert(entries[entries.len() - 1] == t);
        }
        assert(t.len() == 0);
        assert(vary_entries(None, value) == first_by_key(Seq::<Seq<char>>::empty(), fold_key(true)));
    } else {
        lemma_comma_tokens_join(es);
        lemma_first_by_key_keeps_distinct(es, fold_key(true));
        let again = if t.len() > 0 { es.push(t) } else { es };
        assert(vary_entries(Some(join(es, seq![',', ' '])), value) == first_by_key(again, fold_key(true)));
        if t.len() > 0 {
            assert(entries[entries.len() - 1] == t);
            let i = choose|i: int| 0 <= i < es.len() && fold_key(true)(es[i]) == fold_key(true)(#[trigger] entries[entries.len() - 1]);
            assert(again.drop_last() =~= es);
            assert(again.last() == t);
            assert(fold_key(true)(es[i]) == fold_key(true)(t));
        }
    }
}

/// Position of the last entry whose name equals `name` ignoring ASCII case,
/// or -1.
pub open spec fn last_match(h: Seq<(Seq<char>, Seq<char>)>, name: Seq<char>) -> int
    decreases h.len(),
{
    if h.len() == 0 {
        -1
    } else if same_ignoring_ascii_case(h.last().0, name) {
        h.len() - 1
    } else {
        last_match(h.drop_last(), name)
    }
}

/// Adds a header: a name already present (ignoring ASCII case, the last
/// such entry) keeps its place and spelling and takes the new value, a new
/// name goes last.
pub open spec fn put_model(h: Seq<(Seq<char>, Seq<char>)>, name: Seq<char>, value: Seq<char>) -> Seq<(Seq<char>, Seq<char>)> {
    let i = last_match(h, name);
    if i >= 0 {
        h.update(i, (h[i].0, value))
    } else {
        h.push((name, value))
    }
}

/// Adds a header, routing `Vary` (any case) to the `Vary` value.
pub open spec fn push_model(m: HeaderModel, name: Seq<char>, value: Seq<char>) -> HeaderModel {
    if same_ignoring_ascii_case(name, header::VARY@) {
        (add_vary_model(m.0, value), m.1)
    } else {
        (m.0, put_model(m.1, name, value))
    }
}

pub open spec fn push_all_model(m: HeaderModel, hs: Seq<(Seq<char>, Seq<char>)>) -> HeaderModel
    decreases hs.len(),
{
    if hs.len() == 0 {
        m
    } else {
        let prev = push_all_model(m, hs.drop_last());
        push_model(prev, hs.last().0, hs.last().1)
    }
}

/// `a` after taking over `b`: first `b`'s `Vary` value, then each of `b`'s
/// headers in order.
pub open spec fn extend_model(a: HeaderModel, b: HeaderModel) -> HeaderModel {
    let a1 = match b.0 {
        Some(v) => (add_vary_model(a.0, v), a.1),
        None => a,
    };
    push_all_model(a1, b.1)
}

pub open spec fn insert_all(m: Seq<(Seq<char>, Seq<char>)>, hs: Seq<(Seq<char>, Seq<char>)>) -> Seq<(Seq<char>, Seq<char>)>
    decreases hs.len(),
{
    if hs.len() == 0 {
        m
    } else {
        let prev = insert_all(m, hs.drop_last());
        insert_entry(prev, hs.last().0, hs.last().1)
    }
}

/// The map a collection turns into: `Vary` first when present, then the
/// other headers inserted in order.
pub open spec fn entries_model(m: HeaderModel) -> Seq<(Seq<char>, Seq<char>)> {
    let start = match m.0 {
        Some(v) => seq![(header::VARY@, v)],
        None => Seq::empty(),
    };
    insert_all(start, m.1)
}

/// The first header is `Access-Control-Allow-Origin: x`; no later one is
/// named, ignoring ASCII case, `Access-Control-Allow-Origin` or `Vary`.
pub open spec fn leads_with_allow_origin(h: Seq<(Seq<char>, Seq<char>)>, x: Seq<char>) -> bool {
    &&& h.len() >= 1
    &&& h[0] == (header::ACCESS_CONTROL_ALLOW_ORIGIN@, x)
    &&& forall|i: int|
        1 <= i < h.len() ==> !same_ignoring_ascii_case((#[trigger] h[i]).0, header::ACCESS_CONTROL_ALLOW_ORIGIN@)
            && !same_ignoring_ascii_case(h[i].0, header::VARY@)
}

/// Adding a header named neither `Access-Control-Allow-Origin` nor `Vary`
/// (ASCII case ignored) keeps the allow-origin header first and alone.
pub proof fn lemma_push_keeps_lead(m: HeaderModel, x: Seq<char>, name: Seq<char>, value: Seq<char>)
    requires
        leads_with_allow_origin(m.1, x),
        !same_ignoring_ascii_case(name, header::ACCESS_CONTROL_ALLOW_ORIGIN@),
        !same_ignoring_ascii_case(name, header::VARY@),
    ensures
        push_model(m, name, value).0 == m.0,
        leads_with_allow_origin(push_model(m, name, value).1, x),
{
    reveal_strlit("Access-Control-Allow-Origin");
    reveal_strlit("Vary");
    lemma_last_match_range(m.1, name);
    let i = last_match(m.1, name);
    if i == 0 {
        assert(same_ignoring_ascii_case(m.1[0].0, name));
        assert(false);
    }
    let r = push_model(m, name, value).1;
    if i > 0 {
        assert forall|k: int| 1 <= k < r.len() implies !same_ignoring_ascii_case((#[trigger] r[k]).0, header::ACCESS_CONTROL_ALLOW_ORIGIN@)
            && !same_ignoring_ascii_case(r[k].0, header::VARY@) by {
            assert(r[k].0 == m.1[k].0);
        }
    } else {
        assert forall|k: int| 1 <= k < r.len() implies !same_ignoring_ascii_case((#[trigger] r[k]).0, header::ACCESS_CONTROL_ALLOW_ORIGIN@)
            && !same_ignoring_ascii_case(r[k].0, header::VARY@) by {
            if k < m.1.len() {
                assert(r[k] == m.1[k]);
            }
        }
    }
}

/// A map whose header list leads with `Access-Control-Allow-Origin: x`
/// holds that entry, and holds `Vary` exactly when the collection has a
/// `Vary` value, with that value.
pub proof fn lemma_lead_entries(m: HeaderModel, x: Seq<char>)
    requires
        leads_with_allow_origin(m.1, x),
    ensures
        has_entry(entries_model(m), (header::ACCESS_CONTROL_ALLOW_ORIGIN@, x)),
        m.0 is None ==> !has_name(entries_model(m), header::VARY@),
        m.0 matches Some(v) ==> has_entry(entries_model(m), (header::VARY@, v)),
{
    reveal_strlit("Access-Control-Allow-Origin");
    reveal_strlit("Vary");
    let start = match m.0 {
        Some(v) => seq![(header::VARY@, v)],
        None => Seq::<(Seq<char>, Seq<char>)>::empty(),
    };
    let first = m.1.take(1);
    let rest = m.1.skip(1);
    assert(m.1 =~= first + rest);
    lemma_insert_all_append(start, first, rest);
    assert(first.drop_last() =~= Seq::<(Seq<char>, Seq<char>)>::empty());
    assert(insert_all(start, first.drop_last()) == start);
    assert(first.last() == m.1[0]);
    let mid = insert_all(start, first);
    assert(mid == insert_entry(start, header::ACCESS_CONTROL_ALLOW_ORIGIN@, x));
    lemma_insert_entry(start, header::ACCESS_CONTROL_ALLOW_ORIGIN@, x);
    lemma_insert_all(mid, rest);
    lemma_insert_all(start, m.1);
    assert(!has_name(rest, header::ACCESS_CONTROL_ALLOW_ORIGIN@)) by {
        if has_name(rest, header::ACCESS_CONTROL_ALLOW_ORIGIN@) {
            let j = choose|j: int| 0 <= j < rest.len() && (#[trigger] rest[j]).0 == header::ACCESS_CONTROL_ALLOW_ORIGIN@;
            assert(m.1[j + 1] == rest[j]);
        }
    }
    assert(!has_name(m.1, header::VARY@)) by {
        if has_name(m.1, header::VARY@) {
            let j = choose|j: int| 0 <= j < m.1.len() && (#[trigger] m.1[j]).0 == header::VARY@;
            if j == 0 {
                assert(m.1[0].0 == header::ACCESS_CONTROL_ALLOW_ORIGIN@);
            }
        }
    }
    assert(!has_name(rest, header::VARY@)) by {
        if has_name(rest, header::VARY@) {
            let j = choose|j: int| 0 <= j < rest.len() && (#[trigger] rest[j]).0 == header::VARY@;
            assert(m.1[j + 1] == rest[j]);
        }
    }
    if let Some(v) = m.0 {
        assert(start[0] == (header::VARY@, v));
        assert(has_entry(start, (header::VARY@, v)));
        assert(has_entry(mid, (header::VARY@, v)));
    } else {
        assert(!has_name(start, header::VARY@));
    }
}

/// Response headers being assembled, with `Vary` kept apart so that its
/// entries can be merged.
#[derive(Debug, Clone)]
pub struct HeaderCollection {
    pub vary: Option<String>,
    pub headers: Vec<(String, String)>,
}

impl View for HeaderCollection {
    type V = HeaderModel;

    open spec fn view(&self) -> HeaderModel {
        (opt_view(self.vary), pairs_view(self.headers@))
    }
}

proof fn lemma_last_match_take(h: Seq<(Seq<char>, Seq<char>)>, name: Seq<char>, j: int)
    requires
        0 < j <= h.len(),
    ensures
        last_match(h.take(j), name) == (if same_ignoring_ascii_case(h[j - 1].0, name) {
            j - 1
        } else {
            last_match(h.take(j - 1), name)
        }),
{
    assert(h.take(j).drop_last() =~= h.take(j - 1));
}

proof fn lemma_last_match_range(h: Seq<(Seq<char>, Seq<char>)>, name: Seq<char>)
    ensures
        -1 <= last_match(h, name) < h.len(),
        last_match(h, name) >= 0 ==> same_ignoring_ascii_case(h[last_match(h, name)].0, name),
    decreases h.len(),
{
    if h.len() > 0 {
        lemma_last_match_range(h.drop_last(), name);
    }
}

proof fn lemma_key_index_range(m: Seq<(Seq<char>, Seq<char>)>, k: Seq<char>)
    ensures
        -1 <= key_index(m, k) < m.len(),
        key_index(m, k) >= 0 ==> m[key_index(m, k)].0 == k,
        key_index(m, k) < 0 ==> forall|i: int| 0 <= i < m.len() ==> (#[trigger] m[i]).0 != k,
    decreases m.len(),
{
    if m.len() > 0 {
        lemma_key_index_range(m.drop_last(), k);
        if m.last().0 != k && key_index(m, k) < 0 {
            assert forall|i: int| 0 <= i < m.len() implies (#[trigger] m[i]).0 != k by {
                if i < m.len() - 1 {
                    assert(m[i] == m.drop_last()[i]);
                }
            }
        }
    }
}

proof fn lemma_last_match_none(h: Seq<(Seq<char>, Seq<char>)>, name: Seq<char>)
    requires
        last_match(h, name) < 0,
    ensures
        forall|i: int| 0 <= i < h.len() ==> !same_ignoring_ascii_case((#[trigger] h[i]).0, name),
    decreases h.len(),
{
    if h.len() > 0 {
        lemma_last_match_none(h.drop_last(), name);
        assert forall|i: int| 0 <= i < h.len() implies !same_ignoring_ascii_case((#[trigger] h[i]).0, name) by {
            if i < h.len() - 1 {
                assert(h[i] == h.drop_last()[i]);
            }
        }
    }
}

/// No two headers have names equal ignoring ASCII case, and none is named
/// `Vary`.
pub open spec fn well_named(h: Seq<(Seq<char>, Seq<char>)>) -> bool {
    &&& forall|i: int, j: int|
        0 <= i < j < h.len() ==> !same_ignoring_ascii_case((#[trigger] h[i]).0, (#[trigger] h[j]).0)
    &&& forall|i: int| 0 <= i < h.len() ==> !same_ignoring_ascii_case((#[trigger] h[i]).0, header::VARY@)
}

/// Adding a header keeps the header list well named: a name already there
/// (ignoring ASCII case) is updated in place, `Vary` goes to the `Vary`
/// value.
pub proof fn lemma_push_keeps_well_named(m: HeaderModel, name: Seq<char>, value: Seq<char>)
    requires
        well_named(m.1),
    ensures
        well_named(push_model(m, name, value).1),
{
    if !same_ignoring_ascii_case(name, header::VARY@) {
        lemma_last_match_range(m.1, name);
        let i = last_match(m.1, name);
        let r = push_model(m, name, value).1;
        if i >= 0 {
            assert forall|a: int| 0 <= a < r.len() implies (#[trigger] r[a]).0 == m.1[a].0 by {}
        } else {
            lemma_last_match_none(m.1, name);
            assert forall|a: int, b: int| 0 <= a < b < r.len() implies !same_ignoring_ascii_case((#[trigger] r[a]).0, (#[trigger] r[b]).0) by {
                assert(r[a] == m.1[a]);
                if b < m.1.len() {
                    assert(r[b] == m.1[b]);
                } else {
                    assert(r[b] == (name, value));
                }
            }
            assert forall|a: int| 0 <= a < r.len() implies !same_ignoring_ascii_case((#[trigger] r[a]).0, header::VARY@) by {
                if a < m.1.len() {
                    assert(r[a] == m.1[a]);
                }
            }
        }
    }
}

/// Taking over another collection keeps the header list well named.
pub proof fn lemma_extend_keeps_well_named(a: HeaderModel, b: HeaderModel)
    requires
        well_named(a.1),
    ensures
        well_named(extend_model(a, b).1),
{
    let a1 = match b.0 {
        Some(v) => (add_vary_model(a.0, v), a.1),
        None => a,
    };
    lemma_push_all_keeps_well_named(a1, b.1);
}

proof fn lemma_push_all_keeps_well_named(m: HeaderModel, hs: Seq<(Seq<char>, Seq<char>)>)
    requires
        well_named(m.1),
    ensures
        well_named(push_all_model(m, hs).1),
    decreases hs.len(),
{
    if hs.len() > 0 {
        lemma_push_all_keeps_well_named(m, hs.drop_last());
        lemma_push_keeps_well_named(push_all_model(m, hs.drop_last()), hs.last().0, hs.last().1);
    }
}

/// Whether some entry is named exactly `k`.
pub open spec fn has_name(m: Seq<(Seq<char>, Seq<char>)>, k: Seq<char>) -> bool {
    exists|i: int| 0 <= i < m.len() && (#[trigger] m[i]).0 == k
}

/// Whether `e` is one of the entries.
pub open spec fn has_entry(m: Seq<(Seq<char>, Seq<char>)>, e: (Seq<char>, Seq<char>)) -> bool {
    exists|i: int| 0 <= i < m.len() && #[trigger] m[i] == e
}

/// Map insertion keeps every other key's entry, holds the inserted pair,
/// and adds no name but the inserted one.
pub proof fn lemma_insert_entry(m: Seq<(Seq<char>, Seq<char>)>, k: Seq<char>, v: Seq<char>)
    ensures
        has_entry(insert_entry(m, k, v), (k, v)),
        forall|e: (Seq<char>, Seq<char>)| e.0 != k && #[trigger] has_entry(m, e) ==> has_entry(insert_entry(m, k, v), e),
        forall|n: Seq<char>| #[trigger] has_name(insert_entry(m, k, v), n) ==> has_name(m, n) || n == k,
{
    lemma_key_index_range(m, k);
    let r = insert_entry(m, k, v);
    let i = key_index(m, k);
    if i >= 0 {
        assert(r[i] == (k, v));
        assert forall|e: (Seq<char>, Seq<char>)| e.0 != k && #[trigger] has_entry(m, e) implies has_entry(r, e) by {
            let j = choose|j: int| 0 <= j < m.len() && m[j] == e;
            assert(r[j] == e);
        }
        assert forall|n: Seq<char>| #[trigger] has_name(r, n) implies has_name(m, n) || n == k by {
            let j = choose|j: int| 0 <= j < r.len() && (#[trigger] r[j]).0 == n;
            assert(m[j].0 == n);
        }
    } else {
        assert(r[m.len() as int] == (k, v));
        assert forall|e: (Seq<char>, Seq<char>)| e.0 != k && #[trigger] has_entry(m, e) implies has_entry(r, e) by {
            let j = choose|j: int| 0 <= j < m.len() && m[j] == e;
            assert(r[j] == e);
        }
        assert forall|n: Seq<char>| #[trigger] has_name(r, n) implies has_name(m, n) || n == k by {
            let j = choose|j: int| 0 <= j < r.len() && (#[trigger] r[j]).0 == n;
            if j < m.len() {
                assert(m[j].0 == n);
            }
        }
    }
}

/// Inserting a list keeps the entries of keys it does not name, and adds
/// no name that neither side holds.
pub proof fn lemma_insert_all(m: Seq<(Seq<char>, Seq<char>)>, hs: Seq<(Seq<char>, Seq<char>)>)
    ensures
        forall|e: (Seq<char>, Seq<char>)| !has_name(hs, e.0) && #[trigger] has_entry(m, e) ==> has_entry(insert_all(m, hs), e),
        forall|n: Seq<char>| #[trigger] has_name(insert_all(m, hs), n) ==> has_name(m, n) || has_name(hs, n),
    decreases hs.len(),
{
    if hs.len() > 0 {
        let prev = insert_all(m, hs.drop_last());
        lemma_insert_all(m, hs.drop_last());
        lemma_insert_entry(prev, hs.last().0, hs.last().1);
        assert forall|e: (Seq<char>, Seq<char>)| !has_name(hs, e.0) && #[trigger] has_entry(m, e) implies has_entry(insert_all(m, hs), e) by {
            if has_name(hs.drop_last(), e.0) {
                let j = choose|j: int| 0 <= j < hs.drop_last().len() && (#[trigger] hs.drop_last()[j]).0 == e.0;
                assert(hs[j].0 == e.0);
            }
            assert(hs[hs.len() - 1].0 != e.0);
        }
        assert forall|n: Seq<char>| #[trigger] has_name(insert_all(m, hs), n) implies has_name(m, n) || has_name(hs, n) by {
            if has_name(hs.drop_last(), n) {
                let j = choose|j: int| 0 <= j < hs.drop_last().len() && (#[trigger] hs.drop_last()[j]).0 == n;
                assert(hs[j].0 == n);
            }
            if n == hs.last().0 {
                assert(hs[hs.len() - 1].0 == n);
            }
        }
    }
}

/// Inserting `a` then `b` is inserting `a + b`.
pub proof fn lemma_insert_all_append(m: Seq<(Seq<char>, Seq<char>)>, a: Seq<(Seq<char>, Seq<char>)>, b: Seq<(Seq<char>, Seq<char>)>)
    ensures
        insert_all(m, a + b) == insert_all(insert_all(m, a), b),
    decreases b.len(),
{
    if b.len() > 0 {
        lemma_insert_all_append(m, a, b.drop_last());
        assert((a + b).drop_last() =~= a + b.drop_last());
    } else {
        assert(a + b =~= a);
    }
}

impl HeaderCollection {
    pub fn new() -> (r: Self)
        ensures
            r@ == (None::<Seq<char>>, Seq::<(Seq<char>, Seq<char>)>::empty()),
    {
        Self::with_estimate(4)
    }

    pub fn with_estimate(estimate: usize) -> (r: Self)
        ensures
            r@ == (None::<Seq<char>>, Seq::<(Seq<char>, Seq<char>)>::empty()),
    {
        let capacity = if estimate < 4 { 4 } else { estimate };
        let r = Self { vary: None, headers: Vec::with_capacity(capacity) };
        assert(r@.1 =~= Seq::<(Seq<char>, Seq<char>)>::empty());
        r
    }

    fn put(&mut self, name: String, value: String)
        ensures
            final(self)@ == (old(self)@.0, put_model(old(self)@.1, name@, value@)),
    {
        let ghost h = old(self)@.1;
        let mut j: usize = self.headers.len();
        assert(h.take(j as int) =~= h);
        while j > 0
            invariant
                j <= self.headers.len(),
                h == pairs_view(self.headers@),
                self@ == old(self)@,
                last_match(h, name@) == last_match(h.take(j as int), name@),
            decreases j,
        {
            proof {
                lemma_last_match_take(h, name@, j as int);
            }
            if eq_ignore_ascii_case(self.headers[j - 1].0.as_str(), name.as_str()) {
                let existing = self.headers[j - 1].0.clone();
                self.headers.set(j - 1, (existing, value));
                assert(pairs_view(self.headers@) =~= h.update(j - 1, (h[j - 1].0, value@)));
                return;
            }
            j = j - 1;
        }
        assert(last_match(h.take(0), name@) == -1);
        self.headers.push((name, value));
        assert(pairs_view(self.headers@) =~= h.push((name@, value@)));
    }

    /// Adds a header. A `Vary` header (any case) is merged into the `Vary`
    /// value; a name already present (ignoring ASCII case) takes the new
    /// value in place; any other name is appended.
    pub fn push(&mut self, name: String, value: String)
        ensures
            final(self)@ == push_model(old(self)@, name@, value@),
    {
        if eq_ignore_ascii_case(name.as_str(), header::VARY) {
            self.add_vary(value.as_str());
        } else {
            self.put(name, value);
        }
    }

    /// Merges `value` into the `Vary` value.
    pub fn add_vary(&mut self, value: &str)
        ensures
            final(self)@ == (add_vary_model(old(self)@.0, value@), old(self)@.1),
    {
        let mut entries: Vec<String> = match &self.vary {
            Some(existing) => comma_tokens_of(existing.as_str()),
            None => Vec::new(),
        };
        let ghost existing_model = match old(self)@.0 {
            Some(v) => comma_tokens(v),
            None => Seq::<Seq<char>>::empty(),
        };
        assert(entries@.map_values(|v: String| v@) =~= existing_model);
        let incoming = trim_string(value);
        if !incoming.as_str().is_empty() {
            entries.push(incoming);
        }
        let ghost t = trim(value@);
        let ghost model_entries = if t.len() > 0 { existing_model.push(t) } else { existing_model };
        assert(entries@.map_values(|v: String| v@) =~= model_entries);
        if entries.len() == 0 {
            self.vary = None;
            return;
        }
        let deduped = first_by_fold(&entries, true);
        let joined = join_strings(deduped.as_slice(), ", ");
        proof {
            reveal_strlit(", ");
            assert(", "@ =~= seq![',', ' ']);
        }
        self.vary = Some(joined);
    }

    /// Takes over `other`: its `Vary` value first, then each of its headers
    /// as by [`HeaderCollection::push`].
    pub fn extend(&mut self, other: HeaderCollection)
        ensures
            final(self)@ == extend_model(old(self)@, other@),
    {
        if let Some(v) = &other.vary {
            self.add_vary(v.as_str());
        }
        let ghost a1 = self@;
        let mut i: usize = 0;
        while i < other.headers.len()
            invariant
                i <= other.headers.len(),
                self@ == push_all_model(a1, other@.1.take(i as int)),
            decreases other.headers.len() - i,
        {
            let name = other.headers[i].0.clone();
            let value = other.headers[i].1.clone();
            assert(other@.1.take(i + 1).drop_last() =~= other@.1.take(i as int));
            self.push(name, value);
            i = i + 1;
        }
        assert(other@.1.take(other.headers.len() as int) =~= other@.1);
    }

    /// The headers as an ordered map: `Vary` first when present, then the
    /// others in order.
    pub fn into_headers(self) -> (r: Headers)
        ensures
            header_entries(r) == entries_model(self@),
    {
        let extra: usize = if self.vary.is_some() { 1 } else { 0 };
        let capacity = if self.headers.len() < usize::MAX { self.headers.len() + extra } else { self.headers.len() };
        let mut map = headers_with_capacity(capacity);
        let ghost start = match self@.0 {
            Some(v) => seq![(header::VARY@, v)],
            None => Seq::<(Seq<char>, Seq<char>)>::empty(),
        };
        match &self.vary {
            Some(v) => {
                headers_insert(&mut map, header::VARY.to_owned(), v.clone());
                assert(header_entries(map) =~= start);
            },
            None => {},
        }
        let mut i: usize = 0;
        while i < self.headers.len()
            invariant
                i <= self.headers.len(),
                header_entries(map) == insert_all(start, self@.1.take(i as int)),
            decreases self.headers.len() - i,
        {
            let name = self.headers[i].0.clone();
            let value = self.headers[i].1.clone();
            assert(self@.1.take(i + 1).drop_last() =~= self@.1.take(i as int));
            headers_insert(&mut map, name, value);
            i = i + 1;
        }
        assert(self@.1.take(self.headers.len() as int) =~= self@.1);
        map
    }
}

impl Default for HeaderCollection {
    fn default() -> (r: Self)
        ensures
            r@ == (None::<Seq<char>>, Seq::<(Seq<char>, Seq<char>)>::empty()),
    {
        Self::with_estimate(4)
    }
}

} // verus!
