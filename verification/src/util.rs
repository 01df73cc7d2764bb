//! Case folding and token checks used when comparing header values, methods
//! and origins.
use vstd::prelude::*;
use crate::text::{chars_of, first_by_key, is_ascii_char, push_char, trim, trim_all, trim_string};

verus! {

/// What `char::is_uppercase` answers for a non-ASCII character (the Unicode
/// `Uppercase` property).
pub uninterp spec fn unicode_is_uppercase(c: char) -> bool;

/// What `char::to_lowercase` yields for a non-ASCII character (its Unicode
/// lowercase mapping, one or more characters).
pub uninterp spec fn unicode_lowercase(c: char) -> Seq<char>;

/// `char::is_uppercase` from std. Claimed: the answer is a function of `c`
/// alone, named `unicode_is_uppercase`. Nothing further is claimed.
#[verifier::external_body]
fn char_is_uppercase(c: char) -> (r: bool)
    ensures
        r == unicode_is_uppercase(c),
{
    c.is_uppercase()
}

/// `char::to_lowercase` from std, its characters collected. Claimed: they are
/// a function of `c` alone, named `unicode_lowercase`, and there is at least
/// one (std documents the mapping as one or more characters). Nothing further
/// is claimed.
#[verifier::external_body]
fn char_to_lowercase(c: char) -> (r: Vec<char>)
    ensures
        r@ == unicode_lowercase(c),
        r@.len() >= 1,
{
    c.to_lowercase().collect()
}

pub open spec fn is_ascii_upper(c: char) -> bool {
    'A' <= c && c <= 'Z'
}

/// `c` with `A`..`Z` mapped to `a`..`z`.
pub open spec fn ascii_lower_char(c: char) -> char {
    if is_ascii_upper(c) {
        ((c as u32) + 32) as char
    } else {
        c
    }
}

/// `s` with `A`..`Z` mapped to `a`..`z`, everything else kept.
pub open spec fn ascii_lower(s: Seq<char>) -> Seq<char> {
    s.map_values(|c: char| ascii_lower_char(c))
}

/// Whether `c` counts as an uppercase character.
pub open spec fn char_is_upper(c: char) -> bool {
    if is_ascii_char(c) {
        is_ascii_upper(c)
    } else {
        unicode_is_uppercase(c)
    }
}

/// The characters that `c` lowers to.
pub open spec fn lower_char(c: char) -> Seq<char> {
    if is_ascii_char(c) {
        seq![ascii_lower_char(c)]
    } else if unicode_is_uppercase(c) {
        unicode_lowercase(c)
    } else {
        seq![c]
    }
}

/// `s` with every uppercase character replaced by its lowercase mapping.
pub open spec fn lower(s: Seq<char>) -> Seq<char>
    decreases s.len(),
{
    if s.len() == 0 {
        Seq::empty()
    } else {
        lower(s.drop_last()) + lower_char(s.last())
    }
}

/// Whether `s` holds an uppercase character.
pub open spec fn has_upper(s: Seq<char>) -> bool {
    exists|i: int| 0 <= i < s.len() && char_is_upper(#[trigger] s[i])
}

/// Case-insensitive equality: the lowercase forms agree.
pub open spec fn same_ignoring_case(a: Seq<char>, b: Seq<char>) -> bool {
    lower(a) == lower(b)
}

/// ASCII case-insensitive equality.
pub open spec fn same_ignoring_ascii_case(a: Seq<char>, b: Seq<char>) -> bool {
    ascii_lower(a) == ascii_lower(b)
}

/// A `tchar` of RFC 9110.
pub open spec fn is_tchar(c: char) -> bool {
    ('0' <= c && c <= '9') || ('A' <= c && c <= 'Z') || ('a' <= c && c <= 'z') || c == '!'
        || c == '#' || c == '$' || c == '%' || c == '&' || c == '\'' || c == '*' || c == '+'
        || c == '-' || c == '.' || c == '^' || c == '_' || c == '`' || c == '|' || c == '~'
}

/// An HTTP token: one or more `tchar`s.
pub open spec fn is_token(s: Seq<char>) -> bool {
    s.len() > 0 && forall|i: int| 0 <= i < s.len() ==> is_tchar(#[trigger] s[i])
}

pub proof fn lemma_lower_take(s: Seq<char>, i: int)
    requires
        0 <= i < s.len(),
    ensures
        lower(s.take(i + 1)) == lower(s.take(i)) + lower_char(s[i]),
{
    assert(s.take(i + 1).drop_last() =~= s.take(i));
}

pub proof fn lemma_lower_no_upper(s: Seq<char>)
    requires
        !has_upper(s),
    ensures
        lower(s) == s,
    decreases s.len(),
{
    if s.len() > 0 {
        assert(!has_upper(s.drop_last())) by {
            if has_upper(s.drop_last()) {
                let i = choose|i: int| 0 <= i < s.drop_last().len() && char_is_upper(#[trigger] s.drop_last()[i]);
                assert(s[i] == s.drop_last()[i]);
            }
        }
        lemma_lower_no_upper(s.drop_last());
        assert(!char_is_upper(s[s.len() - 1]));
        assert(s.drop_last() + seq![s.last()] =~= s);
    }
}

pub proof fn lemma_ascii_lower_len(s: Seq<char>)
    ensures
        ascii_lower(s).len() == s.len(),
{
}

/// `c` with `A`..`Z` mapped to `a`..`z`.
pub fn to_ascii_lower(c: char) -> (r: char)
    ensures
        r == ascii_lower_char(c),
{
    if 'A' <= c && c <= 'Z' {
        let b: u8 = c as u8;
        ((b + 32) as char)
    } else {
        c
    }
}

fn is_upper_char(c: char) -> (r: bool)
    ensures
        r == char_is_upper(c),
{
    if c <= '\u{7f}' {
        'A' <= c && c <= 'Z'
    } else {
        char_is_uppercase(c)
    }
}

/// Appends the lowercase mapping of `c` to `out`.
fn push_lower(out: &mut String, c: char)
    ensures
        final(out)@ == old(out)@ + lower_char(c),
{
    if c <= '\u{7f}' {
        push_char(out, to_ascii_lower(c));
        assert(out@ =~= old(out)@ + lower_char(c));
    } else if char_is_uppercase(c) {
        let low = char_to_lowercase(c);
        let ghost start = out@;
        let mut k: usize = 0;
        while k < low.len()
            invariant
                k <= low.len(),
                low@ == unicode_lowercase(c),
                out@ == start + low@.take(k as int),
            decreases low.len() - k,
        {
            push_char(out, low[k]);
            assert(out@ =~= start + low@.take(k + 1));
            k = k + 1;
        }
        assert(low@.take(low@.len() as int) =~= low@);
    } else {
        push_char(out, c);
        assert(out@ =~= old(out)@ + lower_char(c));
    }
}

fn lower_chars(v: &Vec<char>) -> (r: String)
    ensures
        r@ == lower(v@),
{
    let mut out = String::new();
    let mut i: usize = 0;
    while i < v.len()
        invariant
            i <= v.len(),
            out@ == lower(v@.take(i as int)),
        decreases v.len() - i,
    {
        proof {
            lemma_lower_take(v@, i as int);
        }
        push_lower(&mut out, v[i]);
        i = i + 1;
    }
    assert(v@.take(v@.len() as int) =~= v@);
    out
}

fn any_upper(v: &Vec<char>) -> (r: bool)
    ensures
        r == has_upper(v@),
{
    let mut i: usize = 0;
    while i < v.len()
        invariant
            i <= v.len(),
            forall|k: int| 0 <= k < i ==> !char_is_upper(#[trigger] v@[k]),
        decreases v.len() - i,
    {
        if is_upper_char(v[i]) {
            return true;
        }
        i = i + 1;
    }
    false
}

/// `value` in lowercase: ASCII letters folded, and every other uppercase
/// character replaced by its Unicode lowercase mapping.
pub fn normalize_lower(value: &str) -> (r: String)
    ensures
        r@ == lower(value@),
{
    let v = chars_of(value);
    lower_chars(&v)
}

/// Whether `a` and `b` are equal once both are lowercased.
pub fn equals_ignore_case(a: &str, b: &str) -> (r: bool)
    ensures
        r == same_ignoring_case(a@, b@),
{
    let la = normalize_lower(a);
    let lb = normalize_lower(b);
    la == lb
}

/// Whether `value` is a non-empty HTTP token.
pub fn is_http_token(value: &str) -> (r: bool)
    ensures
        r == is_token(value@),
{
    let v = chars_of(value);
    if v.len() == 0 {
        return false;
    }
    let mut i: usize = 0;
    while i < v.len()
        invariant
            i <= v.len(),
            v@ == value@,
            forall|k: int| 0 <= k < i ==> is_tchar(#[trigger] v@[k]),
        decreases v.len() - i,
    {
        let c = v[i];
        let ok = ('0' <= c && c <= '9') || ('A' <= c && c <= 'Z') || ('a' <= c && c <= 'z')
            || c == '!' || c == '#' || c == '$' || c == '%' || c == '&' || c == '\'' || c == '*'
            || c == '+' || c == '-' || c == '.' || c == '^' || c == '_' || c == '`' || c == '|'
            || c == '~';
        if !ok {
            return false;
        }
        i = i + 1;
    }
    true
}

/// The lowercase form of `value` when it holds an uppercase character,
/// `None` when it holds none.
pub fn lowercase_unicode_if_needed(value: &str) -> (r: Option<String>)
    ensures
        r.is_some() == has_upper(value@),
        r matches Some(s) ==> s@ == lower(value@),
{
    let v = chars_of(value);
    if any_upper(&v) {
        Some(lower_chars(&v))
    } else {
        None
    }
}

/// Writes the lowercase form of `value` into `buffer` and returns `true` when
/// `value` holds an uppercase character; otherwise leaves `buffer` empty and
/// returns `false`.
pub fn lowercase_unicode_into(value: &str, buffer: &mut String) -> (r: bool)
    ensures
        r == has_upper(value@),
        final(buffer)@ == (if r { lower(value@) } else { Seq::<char>::empty() }),
{
    let v = chars_of(value);
    if any_upper(&v) {
        *buffer = lower_chars(&v);
        true
    } else {
        *buffer = String::new();
        false
    }
}

/// `value` with `A`..`Z` mapped to `a`..`z`.
pub fn ascii_lowercase(value: &str) -> (r: String)
    ensures
        r@ == ascii_lower(value@),
{
    let v = chars_of(value);
    let mut out = String::new();
    let mut i: usize = 0;
    while i < v.len()
        invariant
            i <= v.len(),
            out@ == ascii_lower(v@.take(i as int)),
        decreases v.len() - i,
    {
        push_char(&mut out, to_ascii_lower(v[i]));
        assert(out@ =~= ascii_lower(v@.take(i + 1)));
        i = i + 1;
    }
    assert(v@.take(v@.len() as int) =~= v@);
    out
}

/// Whether `a` and `b` agree once `A`..`Z` are folded to `a`..`z`.
pub fn eq_ignore_ascii_case(a: &str, b: &str) -> (r: bool)
    ensures
        r == same_ignoring_ascii_case(a@, b@),
{
    let la = ascii_lowercase(a);
    let lb = ascii_lowercase(b);
    la == lb
}

/// Keeps, in order, the first of `values` for each folded form.
pub fn first_by_fold(values: &Vec<String>, ascii_only: bool) -> (r: Vec<String>)
    ensures
        r@.map_values(|v: String| v@) == first_by_key(values@.map_values(|v: String| v@), fold_key(ascii_only)),
{
    let ghost key = fold_key(ascii_only);
    let ghost parts = values@.map_values(|v: String| v@);
    let mut out: Vec<String> = Vec::new();
    let mut keys: Vec<String> = Vec::new();
    let mut i: usize = 0;
    while i < values.len()
        invariant
            i <= values.len(),
            key == fold_key(ascii_only),
            parts == values@.map_values(|v: String| v@),
            out@.len() == keys@.len(),
            out@.map_values(|v: String| v@) == first_by_key(parts.take(i as int), key),
            forall|k: int| 0 <= k < keys@.len() ==> #[trigger] keys@[k]@ == key(out@[k]@),
        decreases values.len() - i,
    {
        let t = values[i].clone();
        let k = if ascii_only { ascii_lowercase(t.as_str()) } else { normalize_lower(t.as_str()) };
        assert(k@ == key(t@));
        let mut seen = false;
        let mut j: usize = 0;
        while j < keys.len()
            invariant
                j <= keys.len(),
                !seen ==> forall|m: int| 0 <= m < j ==> keys@[m]@ != k@,
                seen ==> exists|m: int| 0 <= m < keys@.len() && keys@[m]@ == k@,
            decreases keys.len() - j,
        {
            if keys[j] == k {
                seen = true;
            }
            j = j + 1;
        }
        proof {
            let prev = first_by_key(parts.take(i as int), key);
            assert(parts.take(i + 1).drop_last() =~= parts.take(i as int));
            assert(parts[i as int] == t@);
            if seen {
                let m = choose|m: int| 0 <= m < keys@.len() && keys@[m]@ == k@;
                assert(prev[m] == out@.map_values(|v: String| v@)[m]);
                assert(key(prev[m]) == key(parts[i as int]));
            } else {
                assert forall|m: int| 0 <= m < prev.len() implies key(prev[m]) != key(parts[i as int]) by {
                    assert(prev[m] == out@.map_values(|v: String| v@)[m]);
                    assert(keys@[m]@ == key(out@[m]@));
                }
            }
        }
        if !seen {
            out.push(t);
            keys.push(k);
        }
        assert(out@.map_values(|v: String| v@) =~= first_by_key(parts.take(i + 1), key));
        i = i + 1;
    }
    assert(parts.take(values.len() as int) =~= parts);
    out
}

/// Each of `values` trimmed.
pub fn trim_each(values: &Vec<String>) -> (r: Vec<String>)
    ensures
        r@.map_values(|v: String| v@) == trim_all(values@.map_values(|v: String| v@)),
{
    let mut out: Vec<String> = Vec::new();
    let mut i: usize = 0;
    while i < values.len()
        invariant
            i <= values.len(),
            out@.map_values(|v: String| v@) == trim_all(values@.map_values(|v: String| v@)).take(i as int),
        decreases values.len() - i,
    {
        let ghost before = out@;
        out.push(trim_string(values[i].as_str()));
        assert(trim_all(values@.map_values(|v: String| v@))[i as int] == trim(values@[i as int]@));
        assert(out@.map_values(|v: String| v@) =~= before.map_values(|v: String| v@).push(trim(values@[i as int]@)));
        assert(out@.map_values(|v: String| v@) =~= trim_all(values@.map_values(|v: String| v@)).take(i + 1));
        i = i + 1;
    }
    assert(trim_all(values@.map_values(|v: String| v@)).take(values.len() as int) =~= trim_all(values@.map_values(|v: String| v@)));
    out
}

/// Keeps, in order, the first of the trimmed `values` for each folded form.
pub fn dedupe_trimmed(values: &Vec<String>, ascii_only: bool) -> (r: Vec<String>)
    ensures
        r@.map_values(|v: String| v@) == first_by_key(
            trim_all(values@.map_values(|v: String| v@)),
            fold_key(ascii_only),
        ),
{
    let trimmed = trim_each(values);
    first_by_fold(&trimmed, ascii_only)
}

/// `values` trimmed, and of several with the same folded form only the
/// first kept, order otherwise unchanged.
pub open spec fn unique_trimmed(values: Seq<Seq<char>>, ascii_only: bool) -> Seq<Seq<char>> {
    first_by_key(trim_all(values), fold_key(ascii_only))
}

/// No two pieces kept by `first_by_key` share a key.
pub proof fn lemma_first_by_key_distinct(parts: Seq<Seq<char>>, key: spec_fn(Seq<char>) -> Seq<char>)
    ensures
        forall|i: int, j: int|
            0 <= i < j < first_by_key(parts, key).len() ==> key(#[trigger] first_by_key(parts, key)[i]) != key(
                #[trigger] first_by_key(parts, key)[j],
            ),
    decreases parts.len(),
{
    if parts.len() > 0 {
        lemma_first_by_key_distinct(parts.drop_last(), key);
        let prev = first_by_key(parts.drop_last(), key);
        let r = first_by_key(parts, key);
        if !(exists|j: int| 0 <= j < prev.len() && key(prev[j]) == key(parts.last())) {
            assert(r == prev.push(parts.last()));
            assert forall|i: int, j: int| 0 <= i < j < r.len() implies key(#[trigger] r[i]) != key(#[trigger] r[j]) by {
                if j == prev.len() {
                    assert(r[i] == prev[i]);
                    assert(r[j] == parts.last());
                } else {
                    assert(r[i] == prev[i]);
                    assert(r[j] == prev[j]);
                }
            }
        }
    }
}

/// A list built by trimming and deduplicating holds no two entries with the
/// same folded form: none equal ignoring case, or ignoring ASCII case when
/// `ascii_only`.
pub proof fn lemma_unique_trimmed_distinct(values: Seq<Seq<char>>, ascii_only: bool)
    ensures
        forall|i: int, j: int|
            0 <= i < j < unique_trimmed(values, ascii_only).len() ==> fold_key(ascii_only)(
                #[trigger] unique_trimmed(values, ascii_only)[i],
            ) != fold_key(ascii_only)(#[trigger] unique_trimmed(values, ascii_only)[j]),
{
    lemma_first_by_key_distinct(trim_all(values), fold_key(ascii_only));
}

/// The folding that `dedupe_trimmed` compares by.
pub open spec fn fold_key(ascii_only: bool) -> spec_fn(Seq<char>) -> Seq<char> {
    if ascii_only {
        |s: Seq<char>| ascii_lower(s)
    } else {
        |s: Seq<char>| lower(s)
    }
}

/// Values that a configuration list of strings can be built from.
pub trait IntoStringList: Sized {
    spec fn string_list_view(&self) -> Seq<Seq<char>>;

    fn into_string_list(self) -> (r: Vec<String>)
        ensures
            views(r@) == self.string_list_view(),
    ;
}

impl IntoStringList for Vec<String> {
    open spec fn string_list_view(&self) -> Seq<Seq<char>> {
        views(self@)
    }

    fn into_string_list(self) -> (r: Vec<String>) {
        self
    }
}

impl<'a> IntoStringList for Vec<&'a str> {
    open spec fn string_list_view(&self) -> Seq<Seq<char>> {
        self@.map_values(|s: &str| s@)
    }

    fn into_string_list(self) -> (r: Vec<String>) {
        let mut out: Vec<String> = Vec::new();
        let mut i: usize = 0;
        while i < self.len()
            invariant
                i <= self.len(),
                views(out@) == self@.map_values(|s: &str| s@).take(i as int),
            decreases self.len() - i,
        {
            let ghost before = out@;
            out.push(self[i].to_owned());
            assert(views(out@) =~= views(before).push(self@[i as int]@));
            assert(self@.map_values(|s: &str| s@).take(i + 1) =~= self@.map_values(|s: &str| s@).take(i as int).push(self@[i as int]@));
            i = i + 1;
        }
        assert(self@.map_values(|s: &str| s@).take(self.len() as int) =~= self@.map_values(|s: &str| s@));
        out
    }
}

impl<'a, const N: usize> IntoStringList for [&'a str; N] {
    open spec fn string_list_view(&self) -> Seq<Seq<char>> {
        self@.map_values(|s: &str| s@)
    }

    fn into_string_list(self) -> (r: Vec<String>) {
        let mut out: Vec<String> = Vec::new();
        let mut i: usize = 0;
        proof {
            vstd::array::array_len_matches_n(&self);
        }
        while i < N
            invariant
                i <= N,
                self@.len() == N,
                views(out@) == self@.map_values(|s: &str| s@).take(i as int),
            decreases N - i,
        {
            let ghost before = out@;
            out.push(self[i].to_owned());
            assert(views(out@) =~= views(before).push(self@[i as int]@));
            assert(self@.map_values(|s: &str| s@).take(i + 1) =~= self@.map_values(|s: &str| s@).take(i as int).push(self@[i as int]@));
            i = i + 1;
        }
        assert(self@.map_values(|s: &str| s@).take(N as int) =~= self@.map_values(|s: &str| s@));
        out
    }
}

impl<const N: usize> IntoStringList for [String; N] {
    open spec fn string_list_view(&self) -> Seq<Seq<char>> {
        views(self@)
    }

    fn into_string_list(self) -> (r: Vec<String>) {
        let mut out: Vec<String> = Vec::new();
        let mut i: usize = 0;
        proof {
            vstd::array::array_len_matches_n(&self);
        }
        while i < N
            invariant
                i <= N,
                self@.len() == N,
                views(out@) == views(self@).take(i as int),
            decreases N - i,
        {
            let ghost before = out@;
            out.push(self[i].clone());
            assert(views(out@) =~= views(before).push(self@[i as int]@));
            assert(views(self@).take(i + 1) =~= views(self@).take(i as int).push(self@[i as int]@));
            i = i + 1;
        }
        assert(views(self@).take(N as int) =~= views(self@));
        out
    }
}

#[verifier::external_type_specification]
#[verifier::external_body]
#[verifier::reject_recursive_types(T)]
pub struct ExEmpty<T>(std::iter::Empty<T>);

impl<'a> IntoStringList for std::iter::Empty<&'a str> {
    open spec fn string_list_view(&self) -> Seq<Seq<char>> {
        Seq::empty()
    }

    fn into_string_list(self) -> (r: Vec<String>) {
        let r: Vec<String> = Vec::new();
        assert(views(r@) =~= Seq::<Seq<char>>::empty());
        r
    }
}

/// Values that text can be taken from: owned and borrowed strings.
pub trait IntoText: Sized {
    spec fn text_view(&self) -> Seq<char>;

    fn into_text(self) -> (r: String)
        ensures
            r@ == self.text_view(),
    ;
}

impl IntoText for String {
    open spec fn text_view(&self) -> Seq<char> {
        self@
    }

    fn into_text(self) -> (r: String) {
        self
    }
}

impl<'a> IntoText for &'a str {
    open spec fn text_view(&self) -> Seq<char> {
        (*self)@
    }

    fn into_text(self) -> (r: String) {
        self.to_owned()
    }
}

/// `From<[T; N]>` for `Vec` from std. Claimed: the vector holds the array's
/// elements in order.
#[verifier::external_body]
pub(crate) fn array_into_vec<T, const N: usize>(a: [T; N]) -> (r: Vec<T>)
    ensures
        r@ == a@,
{
    Vec::from(a)
}

/// Views of a list of strings.
pub open spec fn views(v: Seq<String>) -> Seq<Seq<char>> {
    v.map_values(|s: String| s@)
}

} // verus!
