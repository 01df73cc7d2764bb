//! Character-sequence model shared by the whole crate: whitespace trimming,
//! splitting on a separator, joining, first-occurrence deduplication and
//! decimal rendering, each with an executable counterpart proved against it.
use vstd::prelude::*;

verus! {

/// The Unicode `White_Space` property beyond ASCII: U+0085, U+00A0,
/// U+1680, U+2000 to U+200A, U+2028, U+2029, U+202F, U+205F and U+3000.
pub open spec fn unicode_is_whitespace(c: char) -> bool {
    c == '\u{85}' || c == '\u{a0}' || c == '\u{1680}' || ('\u{2000}' <= c && c <= '\u{200a}') || c == '\u{2028}'
        || c == '\u{2029}' || c == '\u{202f}' || c == '\u{205f}' || c == '\u{3000}'
}

/// `char::is_whitespace` from std. Claimed, as its documentation states:
/// the answer is the Unicode `White_Space` property of `c`, which for a
/// non-ASCII character is [`unicode_is_whitespace`].
#[verifier::external_body]
fn char_is_whitespace(c: char) -> (r: bool)
    ensures
        c > '\u{7f}' ==> r == unicode_is_whitespace(c),
{
    c.is_whitespace()
}

/// `String::push` from std. Claimed: the character is appended at the end.
#[verifier::external_body]
pub(crate) fn push_char(s: &mut String, c: char)
    ensures
        final(s)@ == old(s)@.push(c),
{
    s.push(c)
}

/// `str::trim` from std. Claimed, as its documentation states: the slice
/// of `s` with leading and trailing White_Space characters removed.
#[verifier::external_body]
pub(crate) fn str_trim<'a>(s: &'a str) -> (r: &'a str)
    ensures
        r@ == trim(s@),
{
    s.trim()
}

/// ASCII range.
pub open spec fn is_ascii_char(c: char) -> bool {
    c <= '\u{7f}'
}

/// Whitespace as `str::trim` sees it: the ASCII white-space characters
/// (tab, line feed, vertical tab, form feed, carriage return, space) and,
/// beyond ASCII, the Unicode `White_Space` property.
pub open spec fn is_ws(c: char) -> bool {
    if is_ascii_char(c) {
        c == ' ' || ('\t' <= c && c <= '\r')
    } else {
        unicode_is_whitespace(c)
    }
}

pub open spec fn trim_start(s: Seq<char>) -> Seq<char>
    decreases s.len(),
{
    if s.len() > 0 && is_ws(s[0]) {
        trim_start(s.drop_first())
    } else {
        s
    }
}

pub open spec fn trim_end(s: Seq<char>) -> Seq<char>
    decreases s.len(),
{
    if s.len() > 0 && is_ws(s.last()) {
        trim_end(s.drop_last())
    } else {
        s
    }
}

/// Leading and trailing whitespace removed.
pub open spec fn trim(s: Seq<char>) -> Seq<char> {
    trim_end(trim_start(s))
}

/// The pieces of `s` between occurrences of `sep`, as `str::split` yields
/// them: always at least one piece, empty pieces kept.
pub open spec fn split(s: Seq<char>, sep: char) -> Seq<Seq<char>>
    decreases s.len(),
{
    if s.len() == 0 {
        seq![Seq::<char>::empty()]
    } else {
        let prev = split(s.drop_last(), sep);
        if s.last() == sep {
            prev.push(Seq::<char>::empty())
        } else {
            prev.update(prev.len() - 1, prev.last().push(s.last()))
        }
    }
}

/// Each piece trimmed, empty results dropped, order kept.
pub open spec fn trimmed_nonempty(parts: Seq<Seq<char>>) -> Seq<Seq<char>>
    decreases parts.len(),
{
    if parts.len() == 0 {
        Seq::empty()
    } else {
        let prev = trimmed_nonempty(parts.drop_last());
        let t = trim(parts.last());
        if t.len() > 0 {
            prev.push(t)
        } else {
            prev
        }
    }
}

/// The non-empty trimmed pieces of a comma-separated list.
pub open spec fn comma_tokens(s: Seq<char>) -> Seq<Seq<char>> {
    trimmed_nonempty(split(s, ','))
}

/// The pieces joined with `sep` between consecutive pieces.
pub open spec fn join(parts: Seq<Seq<char>>, sep: Seq<char>) -> Seq<char>
    decreases parts.len(),
{
    if parts.len() == 0 {
        Seq::empty()
    } else if parts.len() == 1 {
        parts[0]
    } else {
        join(parts.drop_last(), sep) + sep + parts.last()
    }
}

/// Keeps the first piece of each key, in order of first appearance.
pub open spec fn first_by_key(
    parts: Seq<Seq<char>>,
    key: spec_fn(Seq<char>) -> Seq<char>,
) -> Seq<Seq<char>>
    decreases parts.len(),
{
    if parts.len() == 0 {
        Seq::empty()
    } else {
        let prev = first_by_key(parts.drop_last(), key);
        if exists|j: int| 0 <= j < prev.len() && key(prev[j]) == key(parts.last()) {
            prev
        } else {
            prev.push(parts.last())
        }
    }
}

/// Each piece trimmed.
pub open spec fn trim_all(parts: Seq<Seq<char>>) -> Seq<Seq<char>> {
    parts.map_values(|p: Seq<char>| trim(p))
}

pub open spec fn digit_char(d: nat) -> char {
    if d == 0 { '0' }
    else if d == 1 { '1' }
    else if d == 2 { '2' }
    else if d == 3 { '3' }
    else if d == 4 { '4' }
    else if d == 5 { '5' }
    else if d == 6 { '6' }
    else if d == 7 { '7' }
    else if d == 8 { '8' }
    else { '9' }
}

/// Decimal notation of `n`, without leading zeros.
pub open spec fn decimal(n: nat) -> Seq<char>
    decreases n,
{
    if n < 10 {
        seq![digit_char(n)]
    } else {
        decimal(n / 10).push(digit_char(n % 10))
    }
}

/// The number that the decimal digits `s` spell, most significant first:
/// each character counts for its distance from `'0'`.
pub open spec fn digits_value(s: Seq<char>) -> int
    decreases s.len(),
{
    if s.len() == 0 {
        0
    } else {
        digits_value(s.drop_last()) * 10 + ((s.last() as int) - ('0' as int))
    }
}

proof fn lemma_digit_char_value(d: nat)
    requires
        d < 10,
    ensures
        (digit_char(d) as int) - ('0' as int) == d,
        '0' <= digit_char(d) && digit_char(d) <= '9',
{
    if d == 0 {
        assert(('0' as int) - ('0' as int) == 0);
    } else if d == 1 {
        assert(('1' as int) - ('0' as int) == 1);
    } else if d == 2 {
        assert(('2' as int) - ('0' as int) == 2);
    } else if d == 3 {
        assert(('3' as int) - ('0' as int) == 3);
    } else if d == 4 {
        assert(('4' as int) - ('0' as int) == 4);
    } else if d == 5 {
        assert(('5' as int) - ('0' as int) == 5);
    } else if d == 6 {
        assert(('6' as int) - ('0' as int) == 6);
    } else if d == 7 {
        assert(('7' as int) - ('0' as int) == 7);
    } else if d == 8 {
        assert(('8' as int) - ('0' as int) == 8);
    } else {
        assert(('9' as int) - ('0' as int) == 9);
    }
}

/// The decimal notation of `n` is a numeral for `n`: it is made of ASCII
/// digits only, has no leading zero (unless it is `0` itself), and read back
/// in base ten it gives `n`.
pub proof fn lemma_decimal_reads_back(n: nat)
    ensures
        decimal(n).len() >= 1,
        forall|i: int| 0 <= i < decimal(n).len() ==> '0' <= #[trigger] decimal(n)[i] && decimal(n)[i] <= '9',
        decimal(n).len() > 1 ==> decimal(n)[0] != '0',
        digits_value(decimal(n)) == n,
    decreases n,
{
    if n < 10 {
        lemma_digit_char_value(n);
        assert(decimal(n) =~= seq![digit_char(n)]);
        assert(decimal(n).drop_last() =~= Seq::<char>::empty());
        assert(digits_value(Seq::<char>::empty()) == 0);
        assert(digits_value(decimal(n)) == digits_value(decimal(n).drop_last()) * 10 + ((digit_char(n) as int) - ('0' as int)));
    } else {
        lemma_digit_char_value(n % 10);
        lemma_decimal_reads_back(n / 10);
        let d = decimal(n);
        let p = decimal(n / 10);
        assert(d =~= p.push(digit_char(n % 10)));
        assert(d.drop_last() =~= p);
        assert forall|i: int| 0 <= i < d.len() implies '0' <= #[trigger] d[i] && d[i] <= '9' by {
            if i < p.len() {
                assert(d[i] == p[i]);
            }
        }
        assert(d[0] == p[0]);
        if n / 10 < 10 {
            lemma_digit_char_value(n / 10);
            assert(p =~= seq![digit_char(n / 10)]);
            assert(p[0] != '0');
        } else {
            assert(p =~= decimal(n / 10 / 10).push(digit_char(n / 10 % 10)));
            lemma_decimal_reads_back(n / 10 / 10);
            assert(p.len() > 1);
        }
        assert(d.last() == digit_char(n % 10));
        assert(digits_value(d) == digits_value(p) * 10 + ((digit_char(n % 10) as int) - ('0' as int)));
        assert(n == (n / 10) * 10 + n % 10);
    }
}

/// No character of `s` is `sep`.
pub open spec fn free_of(s: Seq<char>, sep: char) -> bool {
    forall|i: int| 0 <= i < s.len() ==> s[i] != sep
}

/// `trim_start` drops a prefix; what is left starts with a non-whitespace
/// character.
pub proof fn lemma_trim_start_shape(s: Seq<char>)
    ensures
        exists|k: int| 0 <= k <= s.len() && trim_start(s) == s.subrange(k, s.len() as int),
        trim_start(s).len() > 0 ==> !is_ws(trim_start(s)[0]),
    decreases s.len(),
{
    if s.len() > 0 && is_ws(s[0]) {
        lemma_trim_start_shape(s.drop_first());
        let k = choose|k: int| 0 <= k <= s.drop_first().len() && trim_start(s.drop_first()) == s.drop_first().subrange(k, s.drop_first().len() as int);
        assert(s.drop_first().subrange(k, s.drop_first().len() as int) =~= s.subrange(k + 1, s.len() as int));
    } else {
        assert(s.subrange(0, s.len() as int) =~= s);
    }
}

/// `trim_end` drops a suffix; what is left ends with a non-whitespace
/// character.
pub proof fn lemma_trim_end_shape(s: Seq<char>)
    ensures
        exists|k: int| 0 <= k <= s.len() && trim_end(s) == s.subrange(0, k),
        trim_end(s).len() > 0 ==> !is_ws(trim_end(s).last()),
    decreases s.len(),
{
    if s.len() > 0 && is_ws(s.last()) {
        lemma_trim_end_shape(s.drop_last());
        let k = choose|k: int| 0 <= k <= s.drop_last().len() && trim_end(s.drop_last()) == s.drop_last().subrange(0, k);
        assert(s.drop_last().subrange(0, k) =~= s.subrange(0, k));
    } else {
        assert(s.subrange(0, s.len() as int) =~= s);
    }
}

/// Trimming keeps a contiguous part of `s`, and trimming twice is trimming
/// once.
pub proof fn lemma_trim_shape(s: Seq<char>)
    ensures
        exists|a: int, b: int| 0 <= a <= b <= s.len() && trim(s) == s.subrange(a, b),
        trim(trim(s)) == trim(s),
{
    lemma_trim_start_shape(s);
    let t = trim_start(s);
    lemma_trim_end_shape(t);
    let a = choose|k: int| 0 <= k <= s.len() && trim_start(s) == s.subrange(k, s.len() as int);
    let b = choose|k: int| 0 <= k <= t.len() && trim_end(t) == t.subrange(0, k);
    assert(trim(s) =~= s.subrange(a, a + b));
    let r = trim(s);
    if r.len() > 0 {
        assert(r[0] == t[0]);
        assert(!is_ws(r[0]));
        assert(trim_start(r) == r);
        assert(!is_ws(r.last()));
        assert(trim_end(r) == r);
    } else {
        assert(trim_start(r) == r);
        assert(trim_end(r) == r);
    }
}

/// A leading space does not survive trimming.
pub proof fn lemma_trim_space_prefix(e: Seq<char>)
    ensures
        trim(seq![' '] + e) == trim(e),
{
    let s = seq![' '] + e;
    assert(s.drop_first() =~= e);
    assert(is_ws(s[0]));
}

/// Splitting a text without separators gives the text itself.
pub proof fn lemma_split_free(z: Seq<char>, sep: char)
    requires
        free_of(z, sep),
    ensures
        split(z, sep) == seq![z],
    decreases z.len(),
{
    if z.len() > 0 {
        assert(free_of(z.drop_last(), sep));
        lemma_split_free(z.drop_last(), sep);
        assert(z.last() != sep);
        assert(z.drop_last().push(z.last()) =~= z);
        assert(seq![z.drop_last()].update(0, z.drop_last().push(z.last())) =~= seq![z]);
    } else {
        assert(z =~= Seq::<char>::empty());
    }
}

/// Splitting `x`, a separator, then `z` gives the pieces of `x` followed by
/// those of `z`.
pub proof fn lemma_split_concat(x: Seq<char>, sep: char, z: Seq<char>)
    ensures
        split(x + seq![sep] + z, sep) == split(x, sep) + split(z, sep),
    decreases z.len(),
{
    let w = x + seq![sep] + z;
    if z.len() == 0 {
        assert(w.drop_last() =~= x);
        assert(w =~= x + seq![sep]);
    } else {
        lemma_split_concat(x, sep, z.drop_last());
        assert(w.drop_last() =~= x + seq![sep] + z.drop_last());
        assert(w.last() == z.last());
        let prev = split(x + seq![sep] + z.drop_last(), sep);
        let zs = split(z.drop_last(), sep);
        lemma_split_len(z.drop_last(), sep);
        if z.last() == sep {
            assert(split(x, sep) + zs.push(Seq::<char>::empty()) =~= (split(x, sep) + zs).push(Seq::<char>::empty()));
        } else {
            assert(split(x, sep) + zs.update(zs.len() - 1, zs.last().push(z.last())) =~= prev.update(
                prev.len() - 1,
                prev.last().push(z.last()),
            ));
        }
    }
}

/// Splitting always gives at least one piece.
pub proof fn lemma_split_len(s: Seq<char>, sep: char)
    ensures
        split(s, sep).len() >= 1,
    decreases s.len(),
{
    if s.len() > 0 {
        lemma_split_len(s.drop_last(), sep);
    }
}

/// Splitting on commas a list joined with `", "` gives back its entries,
/// when each is non-empty, trimmed and free of commas.
pub proof fn lemma_comma_tokens_join(es: Seq<Seq<char>>)
    requires
        forall|i: int| 0 <= i < es.len() ==> free_of(#[trigger] es[i], ',') && trim(es[i]) == es[i] && es[i].len() > 0,
    ensures
        comma_tokens(join(es, seq![',', ' '])) == es,
    decreases es.len(),
{
    if es.len() == 0 {
        assert(split(Seq::<char>::empty(), ',') == seq![Seq::<char>::empty()]);
        lemma_trimmed_nonempty_push(Seq::<Seq<char>>::empty(), Seq::<char>::empty());
        assert(Seq::<Seq<char>>::empty().push(Seq::<char>::empty()) =~= seq![Seq::<char>::empty()]);
        assert(trim(Seq::<char>::empty()).len() == 0);
        assert(es =~= Seq::<Seq<char>>::empty());
    } else if es.len() == 1 {
        lemma_split_free(es[0], ',');
        lemma_trimmed_nonempty_push(Seq::<Seq<char>>::empty(), es[0]);
        assert(Seq::<Seq<char>>::empty().push(es[0]) =~= seq![es[0]]);
        assert(trimmed_nonempty(Seq::<Seq<char>>::empty()) == Seq::<Seq<char>>::empty());
        assert(es =~= seq![es[0]]);
    } else {
        let prev = es.drop_last();
        let last = es.last();
        assert forall|i: int| 0 <= i < prev.len() implies free_of(#[trigger] prev[i], ',') && trim(prev[i]) == prev[i]
            && prev[i].len() > 0 by {
            assert(prev[i] == es[i]);
        }
        lemma_comma_tokens_join(prev);
        let jp = join(prev, seq![',', ' ']);
        let tail = seq![' '] + last;
        assert(join(es, seq![',', ' ']) =~= jp + seq![','] + tail);
        lemma_split_concat(jp, ',', tail);
        assert(free_of(last, ','));
        assert(free_of(tail, ',')) by {
            assert forall|i: int| 0 <= i < tail.len() implies tail[i] != ',' by {
                if i > 0 {
                    assert(tail[i] == last[i - 1]);
                }
            }
        }
        lemma_split_free(tail, ',');
        lemma_trim_space_prefix(last);
        let parts = split(jp, ',') + seq![tail];
        assert(parts =~= split(jp, ',').push(tail));
        assert(split(join(es, seq![',', ' ']), ',') == parts);
        lemma_trimmed_nonempty_push(split(jp, ','), tail);
        assert(trim(tail) == last);
        assert(trimmed_nonempty(parts) == prev.push(last));
        assert(prev.push(last) =~= es);
    }
}

/// No piece of a split holds the separator.
pub proof fn lemma_split_pieces_free(s: Seq<char>, sep: char)
    ensures
        forall|i: int| 0 <= i < split(s, sep).len() ==> free_of(#[trigger] split(s, sep)[i], sep),
    decreases s.len(),
{
    if s.len() > 0 {
        lemma_split_pieces_free(s.drop_last(), sep);
        lemma_split_len(s.drop_last(), sep);
        let prev = split(s.drop_last(), sep);
        if s.last() != sep {
            let r = split(s, sep);
            assert forall|i: int| 0 <= i < r.len() implies free_of(#[trigger] r[i], sep) by {
                if i == r.len() - 1 {
                    assert(free_of(prev.last(), sep));
                    assert forall|k: int| 0 <= k < r[i].len() implies r[i][k] != sep by {
                        if k < prev.last().len() {
                            assert(r[i][k] == prev.last()[k]);
                        }
                    }
                } else {
                    assert(r[i] == prev[i]);
                }
            }
        }
    }
}

/// Trimming a text free of `sep` leaves it free of `sep`.
pub proof fn lemma_trim_free(p: Seq<char>, sep: char)
    requires
        free_of(p, sep),
    ensures
        free_of(trim(p), sep),
{
    lemma_trim_shape(p);
    let (a, b) = choose|a: int, b: int| 0 <= a <= b <= p.len() && trim(p) == p.subrange(a, b);
    assert forall|i: int| 0 <= i < trim(p).len() implies trim(p)[i] != sep by {
        assert(trim(p)[i] == p[a + i]);
    }
}

/// The pieces kept by `trimmed_nonempty` are non-empty and trimmed, and
/// free of `sep` when every part is.
pub proof fn lemma_trimmed_nonempty_shape(parts: Seq<Seq<char>>, sep: char)
    ensures
        forall|i: int|
            0 <= i < trimmed_nonempty(parts).len() ==> #[trigger] trimmed_nonempty(parts)[i].len() > 0 && trim(
                trimmed_nonempty(parts)[i],
            ) == trimmed_nonempty(parts)[i],
        (forall|j: int| 0 <= j < parts.len() ==> free_of(#[trigger] parts[j], sep)) ==> forall|i: int|
            0 <= i < trimmed_nonempty(parts).len() ==> free_of(#[trigger] trimmed_nonempty(parts)[i], sep),
    decreases parts.len(),
{
    if parts.len() > 0 {
        lemma_trimmed_nonempty_shape(parts.drop_last(), sep);
        lemma_trim_shape(parts.last());
        let prev = trimmed_nonempty(parts.drop_last());
        let r = trimmed_nonempty(parts);
        let t = trim(parts.last());
        assert forall|i: int| 0 <= i < r.len() implies #[trigger] r[i].len() > 0 && trim(r[i]) == r[i] by {
            if i < prev.len() {
                assert(r[i] == prev[i]);
            } else {
                assert(r[i] == t);
            }
        }
        if forall|j: int| 0 <= j < parts.len() ==> free_of(#[trigger] parts[j], sep) {
            assert forall|j: int| 0 <= j < parts.drop_last().len() implies free_of(#[trigger] parts.drop_last()[j], sep) by {
                assert(parts.drop_last()[j] == parts[j]);
            }
            assert(free_of(parts[parts.len() - 1], sep));
            lemma_trim_free(parts.last(), sep);
            assert forall|i: int| 0 <= i < r.len() implies free_of(#[trigger] r[i], sep) by {
                if i < prev.len() {
                    assert(r[i] == prev[i]);
                } else {
                    assert(r[i] == t);
                }
            }
        }
    }
}

/// The tokens of a comma-separated list are non-empty, trimmed and free of
/// commas.
pub proof fn lemma_comma_tokens_shape(s: Seq<char>)
    ensures
        forall|i: int|
            0 <= i < comma_tokens(s).len() ==> free_of(#[trigger] comma_tokens(s)[i], ',') && trim(comma_tokens(s)[i])
                == comma_tokens(s)[i] && comma_tokens(s)[i].len() > 0,
{
    lemma_split_pieces_free(s, ',');
    lemma_trimmed_nonempty_shape(split(s, ','), ',');
}

/// Every piece kept by `first_by_key` is one of `parts`.
pub proof fn lemma_first_by_key_from(parts: Seq<Seq<char>>, key: spec_fn(Seq<char>) -> Seq<char>)
    ensures
        forall|i: int|
            0 <= i < first_by_key(parts, key).len() ==> exists|j: int| 0 <= j < parts.len() && parts[j] == #[trigger] first_by_key(parts, key)[i],
    decreases parts.len(),
{
    if parts.len() > 0 {
        lemma_first_by_key_from(parts.drop_last(), key);
        let prev = first_by_key(parts.drop_last(), key);
        let r = first_by_key(parts, key);
        assert forall|i: int| 0 <= i < r.len() implies exists|j: int| 0 <= j < parts.len() && parts[j] == #[trigger] r[i] by {
            if i < prev.len() {
                assert(r[i] == prev[i]);
                let j = choose|j: int| 0 <= j < parts.drop_last().len() && parts.drop_last()[j] == prev[i];
                assert(parts[j] == parts.drop_last()[j]);
            } else {
                assert(r[i] == parts[parts.len() - 1]);
            }
        }
    }
}

/// Every part has a kept piece with the same key.
pub proof fn lemma_first_by_key_covers(parts: Seq<Seq<char>>, key: spec_fn(Seq<char>) -> Seq<char>)
    ensures
        forall|j: int|
            0 <= j < parts.len() ==> exists|i: int| 0 <= i < first_by_key(parts, key).len() && key(first_by_key(parts, key)[i]) == key(#[trigger] parts[j]),
    decreases parts.len(),
{
    if parts.len() > 0 {
        lemma_first_by_key_covers(parts.drop_last(), key);
        let prev = first_by_key(parts.drop_last(), key);
        let r = first_by_key(parts, key);
        assert forall|j: int| 0 <= j < parts.len() implies exists|i: int| 0 <= i < r.len() && key(r[i]) == key(#[trigger] parts[j]) by {
            if j < parts.len() - 1 {
                assert(parts[j] == parts.drop_last()[j]);
                let i = choose|i: int| 0 <= i < prev.len() && key(prev[i]) == key(parts.drop_last()[j]);
                assert(r[i] == prev[i]);
            } else if exists|k: int| 0 <= k < prev.len() && key(prev[k]) == key(parts.last()) {
                let k = choose|k: int| 0 <= k < prev.len() && key(prev[k]) == key(parts.last());
                assert(r[k] == prev[k]);
            } else {
                assert(r[prev.len() as int] == parts.last());
            }
        }
    }
}

/// A list whose keys are pairwise different is kept whole.
pub proof fn lemma_first_by_key_keeps_distinct(parts: Seq<Seq<char>>, key: spec_fn(Seq<char>) -> Seq<char>)
    requires
        forall|i: int, j: int| 0 <= i < j < parts.len() ==> key(#[trigger] parts[i]) != key(#[trigger] parts[j]),
    ensures
        first_by_key(parts, key) == parts,
    decreases parts.len(),
{
    if parts.len() > 0 {
        let init = parts.drop_last();
        assert forall|i: int, j: int| 0 <= i < j < init.len() implies key(#[trigger] init[i]) != key(#[trigger] init[j]) by {
            assert(init[i] == parts[i]);
            assert(init[j] == parts[j]);
        }
        lemma_first_by_key_keeps_distinct(init, key);
        assert forall|k: int| 0 <= k < init.len() implies key(init[k]) != key(parts.last()) by {
            assert(init[k] == parts[k]);
            assert(parts.last() == parts[parts.len() - 1]);
        }
        assert(init.push(parts.last()) =~= parts);
    }
}

/// The characters of `s`, in order.
pub fn chars_of(s: &str) -> (v: Vec<char>)
    ensures
        v@ == s@,
{
    let mut v: Vec<char> = Vec::new();
    for c in it: s.chars()
        invariant
            it.seq() == s@,
            v@ == it.seq().take(it.index() as int),
    {
        v.push(c);
    }
    assert(v@ =~= s@);
    v
}

/// Whether `a` and `b` hold the same characters.
pub fn same_text(a: &str, b: &str) -> (r: bool)
    ensures
        r == (a@ == b@),
{
    a.to_owned() == b.to_owned()
}

/// A `String` holding `v[from..to]`.
pub fn string_of_range(v: &Vec<char>, from: usize, to: usize) -> (s: String)
    requires
        from <= to <= v.len(),
    ensures
        s@ == v@.subrange(from as int, to as int),
{
    let mut s = String::new();
    let mut i = from;
    while i < to
        invariant
            from <= i <= to <= v.len(),
            s@ == v@.subrange(from as int, i as int),
        decreases to - i,
    {
        push_char(&mut s, v[i]);
        i = i + 1;
        assert(s@ =~= v@.subrange(from as int, i as int));
    }
    s
}

/// `s` followed by `t`.
pub fn append_str(s: &mut String, t: &str)
    ensures
        final(s)@ == old(s)@ + t@,
{
    let ghost start = s@;
    for c in it: t.chars()
        invariant
            it.seq() == t@,
            s@ == start + it.seq().take(it.index() as int),
    {
        push_char(s, c);
        assert(s@ =~= start + it.seq().take(it.index() + 1));
    }
    assert(t@.take(t@.len() as int) =~= t@);
}

pub fn is_whitespace(c: char) -> (r: bool)
    ensures
        r == is_ws(c),
{
    if c <= '\u{7f}' {
        c == ' ' || ('\t' <= c && c <= '\r')
    } else {
        char_is_whitespace(c)
    }
}

proof fn lemma_trim_start_skip(s: Seq<char>, i: int)
    requires
        0 <= i < s.len(),
        is_ws(s[i]),
    ensures
        trim_start(s.skip(i)) == trim_start(s.skip(i + 1)),
{
    assert(s.skip(i).drop_first() =~= s.skip(i + 1));
}

proof fn lemma_trim_end_take(s: Seq<char>, j: int)
    requires
        0 < j <= s.len(),
        is_ws(s[j - 1]),
    ensures
        trim_end(s.take(j)) == trim_end(s.take(j - 1)),
{
    assert(s.take(j).drop_last() =~= s.take(j - 1));
}

/// Bounds of the trimmed part of `v`: `trim(v) == v[start..end]`.
pub fn trim_bounds(v: &Vec<char>) -> (r: (usize, usize))
    ensures
        r.0 <= r.1 <= v.len(),
        trim(v@) == v@.subrange(r.0 as int, r.1 as int),
        r.0 == r.1 ==> trim(v@).len() == 0,
{
    let mut i: usize = 0;
    assert(v@.skip(0) =~= v@);
    while i < v.len() && is_whitespace(v[i])
        invariant
            i <= v.len(),
            trim_start(v@) == trim_start(v@.skip(i as int)),
        decreases v.len() - i,
    {
        proof {
            lemma_trim_start_skip(v@, i as int);
        }
        i = i + 1;
    }
    let ghost ts = v@.skip(i as int);
    assert(trim_start(ts) == ts) by {
        if ts.len() > 0 {
            assert(ts[0] == v@[i as int]);
        }
    }
    let mut j: usize = v.len();
    assert(ts.take(j - i) =~= ts);
    while j > i && is_whitespace(v[j - 1])
        invariant
            i <= j <= v.len(),
            trim_end(ts) == trim_end(ts.take(j - i)),
            ts == v@.skip(i as int),
        decreases j,
    {
        proof {
            lemma_trim_end_take(ts, (j - i) as int);
        }
        j = j - 1;
    }
    let ghost te = ts.take(j - i);
    assert(trim_end(te) == te) by {
        if te.len() > 0 {
            assert(te.last() == v@[j - 1]);
        }
    }
    assert(ts.take(j - i) =~= v@.subrange(i as int, j as int));
    (i, j)
}

/// `s` with leading and trailing whitespace removed.
pub fn trim_string(s: &str) -> (r: String)
    ensures
        r@ == trim(s@),
{
    let v = chars_of(s);
    let (a, b) = trim_bounds(&v);
    string_of_range(&v, a, b)
}

proof fn lemma_split_push(s: Seq<char>, sep: char, i: int)
    requires
        0 <= i < s.len(),
    ensures
        split(s.take(i + 1), sep) == (if s[i] == sep {
            split(s.take(i), sep).push(Seq::<char>::empty())
        } else {
            let prev = split(s.take(i), sep);
            prev.update(prev.len() - 1, prev.last().push(s[i]))
        }),
{
    assert(s.take(i + 1).drop_last() =~= s.take(i));
}

proof fn lemma_trimmed_nonempty_push(parts: Seq<Seq<char>>, p: Seq<char>)
    ensures
        trimmed_nonempty(parts.push(p)) == (if trim(p).len() > 0 {
            trimmed_nonempty(parts).push(trim(p))
        } else {
            trimmed_nonempty(parts)
        }),
{
    assert(parts.push(p).drop_last() =~= parts);
}

/// Each of `values` trimmed, the empty results dropped, order kept.
pub fn trimmed_nonempty_of(values: &[String]) -> (r: Vec<String>)
    ensures
        r@.map_values(|v: String| v@) == trimmed_nonempty(values@.map_values(|v: String| v@)),
{
    let ghost parts = values@.map_values(|v: String| v@);
    let mut out: Vec<String> = Vec::new();
    let mut i: usize = 0;
    while i < values.len()
        invariant
            i <= values@.len(),
            parts == values@.map_values(|v: String| v@),
            out@.map_values(|v: String| v@) == trimmed_nonempty(parts.take(i as int)),
        decreases values@.len() - i,
    {
        proof {
            assert(parts.take(i + 1) =~= parts.take(i as int).push(parts[i as int]));
            lemma_trimmed_nonempty_push(parts.take(i as int), parts[i as int]);
        }
        let t = trim_string(values[i].as_str());
        if !t.as_str().is_empty() {
            let ghost before = out@;
            out.push(t);
            assert(out@.map_values(|v: String| v@) =~= before.map_values(|v: String| v@).push(t@));
        }
        i = i + 1;
    }
    assert(parts.take(values@.len() as int) =~= parts);
    out
}

/// The non-empty trimmed pieces of a comma-separated list.
pub fn comma_tokens_of(s: &str) -> (r: Vec<String>)
    ensures
        r@.len() == comma_tokens(s@).len(),
        forall|k: int| 0 <= k < r@.len() ==> #[trigger] r@[k]@ == comma_tokens(s@)[k],
{
    let v = chars_of(s);
    let mut out: Vec<String> = Vec::new();
    let ghost mut done: Seq<Seq<char>> = Seq::empty();
    let mut cur: Vec<char> = Vec::new();
    let mut i: usize = 0;
    while i < v.len()
        invariant
            i <= v.len(),
            v@ == s@,
            split(v@.take(i as int), ',') == done.push(cur@),
            out@.len() == trimmed_nonempty(done).len(),
            forall|k: int| 0 <= k < out@.len() ==> #[trigger] out@[k]@ == trimmed_nonempty(done)[k],
        decreases v.len() - i,
    {
        proof {
            lemma_split_push(v@, ',', i as int);
        }
        if v[i] == ',' {
            let (a, b) = trim_bounds(&cur);
            proof {
                lemma_trimmed_nonempty_push(done, cur@);
            }
            if a < b {
                let t = string_of_range(&cur, a, b);
                out.push(t);
            }
            proof {
                done = done.push(cur@);
            }
            cur = Vec::new();
            assert(split(v@.take(i + 1), ',') =~= done.push(cur@));
        } else {
            cur.push(v[i]);
            assert(split(v@.take(i + 1), ',') =~= done.push(cur@));
        }
        i = i + 1;
    }
    let (a, b) = trim_bounds(&cur);
    proof {
        lemma_trimmed_nonempty_push(done, cur@);
        assert(v@.take(v@.len() as int) =~= v@);
    }
    if a < b {
        let t = string_of_range(&cur, a, b);
        out.push(t);
    }
    out
}

/// The pieces of `parts` joined with `sep`.
pub fn join_strings(parts: &[String], sep: &str) -> (r: String)
    ensures
        r@ == join(parts@.map_values(|p: String| p@), sep@),
{
    let ghost views = parts@.map_values(|p: String| p@);
    let mut r = String::new();
    let mut i: usize = 0;
    while i < parts.len()
        invariant
            i <= parts@.len(),
            views == parts@.map_values(|p: String| p@),
            r@ == join(views.take(i as int), sep@),
        decreases parts@.len() - i,
    {
        let ghost before = r@;
        if i > 0 {
            append_str(&mut r, sep);
        }
        append_str(&mut r, parts[i].as_str());
        assert(views.take(i + 1).drop_last() =~= views.take(i as int));
        assert(r@ =~= join(views.take(i + 1), sep@));
        i = i + 1;
    }
    assert(views.take(parts@.len() as int) =~= views);
    r
}

proof fn lemma_decimal_nonempty(n: nat)
    ensures
        decimal(n).len() >= 1,
    decreases n,
{
    if n >= 10 {
        lemma_decimal_nonempty(n / 10);
    }
}

fn digit_of(d: u64) -> (c: char)
    requires
        d < 10,
    ensures
        c == digit_char(d as nat),
{
    if d == 0 { '0' }
    else if d == 1 { '1' }
    else if d == 2 { '2' }
    else if d == 3 { '3' }
    else if d == 4 { '4' }
    else if d == 5 { '5' }
    else if d == 6 { '6' }
    else if d == 7 { '7' }
    else if d == 8 { '8' }
    else { '9' }
}

/// Decimal notation of `n`.
pub fn decimal_string(n: u64) -> (r: String)
    ensures
        r@ == decimal(n as nat),
    decreases n,
{
    if n < 10 {
        let mut s = String::new();
        push_char(&mut s, digit_of(n));
        assert(s@ =~= seq![digit_char(n as nat)]);
        s
    } else {
        let mut s = decimal_string(n / 10);
        push_char(&mut s, digit_of(n % 10));
        s
    }
}

} // verus!
