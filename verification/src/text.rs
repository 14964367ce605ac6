//! Character-level text utilities shared by the parsers and formatters of
//! the library: conversions between `str` and character vectors, ASCII
//! case mapping, Unicode white space trimming, splitting, substring search
//! and decimal integers.
use vstd::prelude::*;

verus! {

// ───────────────────────── specifications ─────────────────────────

/// The characters with the Unicode `White_Space` property, the set that
/// `char::is_whitespace` and `str::trim` use.
pub open spec fn is_white_space(c: char) -> bool {
    ||| ('\u{9}' <= c && c <= '\u{d}')
    ||| c == ' '
    ||| c == '\u{85}'
    ||| c == '\u{a0}'
    ||| c == '\u{1680}'
    ||| ('\u{2000}' <= c && c <= '\u{200a}')
    ||| c == '\u{2028}'
    ||| c == '\u{2029}'
    ||| c == '\u{202f}'
    ||| c == '\u{205f}'
    ||| c == '\u{3000}'
}

/// `s` without its leading white space.
pub open spec fn trim_start(s: Seq<char>) -> Seq<char>
    decreases s.len(),
{
    if s.len() > 0 && is_white_space(s[0]) {
        trim_start(s.drop_first())
    } else {
        s
    }
}

/// `s` without its trailing white space.
pub open spec fn trim_end(s: Seq<char>) -> Seq<char>
    decreases s.len(),
{
    if s.len() > 0 && is_white_space(s.last()) {
        trim_end(s.drop_last())
    } else {
        s
    }
}

/// `s` without leading and trailing white space (what `str::trim` returns).
pub open spec fn trim(s: Seq<char>) -> Seq<char> {
    trim_end(trim_start(s))
}

/// `s` without the copies of `c` that end it (what `str::trim_end_matches`
/// returns for a single character).
pub open spec fn trim_end_char(s: Seq<char>, c: char) -> Seq<char>
    decreases s.len(),
{
    if s.len() > 0 && s.last() == c {
        trim_end_char(s.drop_last(), c)
    } else {
        s
    }
}

pub open spec fn is_ascii_upper(c: char) -> bool {
    'A' <= c && c <= 'Z'
}

pub open spec fn is_ascii_lower(c: char) -> bool {
    'a' <= c && c <= 'z'
}

/// `char::to_ascii_lowercase`.
pub open spec fn ascii_lower(c: char) -> char {
    if is_ascii_upper(c) {
        ((c as u32) + 32) as char
    } else {
        c
    }
}

/// `char::to_ascii_uppercase`.
pub open spec fn ascii_upper(c: char) -> char {
    if is_ascii_lower(c) {
        ((c as u32) - 32) as char
    } else {
        c
    }
}

/// `str::to_ascii_lowercase`.
pub open spec fn lower_ascii(s: Seq<char>) -> Seq<char> {
    s.map_values(|c: char| ascii_lower(c))
}

/// `str::to_ascii_uppercase`.
pub open spec fn upper_ascii(s: Seq<char>) -> Seq<char> {
    s.map_values(|c: char| ascii_upper(c))
}

/// `str::eq_ignore_ascii_case`.
pub open spec fn eq_ignore_ascii_case(a: Seq<char>, b: Seq<char>) -> bool {
    lower_ascii(a) == lower_ascii(b)
}

/// `needle` occurs in `hay` starting at index `i`.
pub open spec fn occurs_at(hay: Seq<char>, needle: Seq<char>, i: int) -> bool {
    0 <= i && i + needle.len() <= hay.len() && hay.subrange(i, i + needle.len()) == needle
}

/// `str::contains` for a string pattern.
pub open spec fn contains_seq(hay: Seq<char>, needle: Seq<char>) -> bool {
    exists|i: int| occurs_at(hay, needle, i)
}

/// `str::starts_with` for a string pattern.
pub open spec fn starts_with(s: Seq<char>, prefix: Seq<char>) -> bool {
    occurs_at(s, prefix, 0)
}

/// The index of the first occurrence of `needle` in `hay`, if any.
#[verifier::opaque]
pub open spec fn first_occurrence(hay: Seq<char>, needle: Seq<char>) -> Option<int> {
    if contains_seq(hay, needle) {
        Some(
            choose|i: int|
                occurs_at(hay, needle, i) && forall|j: int| 0 <= j < i ==> !occurs_at(hay, needle, j),
        )
    } else {
        None
    }
}

/// The pieces of `s` between the occurrences of `sep` (what
/// `str::split(char)` yields): always at least one piece.
pub open spec fn split_char(s: Seq<char>, sep: char) -> Seq<Seq<char>>
    decreases s.len(),
{
    if s.len() == 0 {
        seq![Seq::<char>::empty()]
    } else if s.last() == sep {
        split_char(s.drop_last(), sep).push(Seq::<char>::empty())
    } else {
        let p = split_char(s.drop_last(), sep);
        p.update(p.len() - 1, p.last().push(s.last()))
    }
}

/// The index of the first `c` in `s`, if any.
pub open spec fn index_of_char(s: Seq<char>, c: char) -> Option<int> {
    if s.contains(c) {
        Some(choose|i: int| 0 <= i < s.len() && s[i] == c && forall|j: int| 0 <= j < i ==> s[j] != c)
    } else {
        None
    }
}

pub open spec fn is_digit(c: char) -> bool {
    '0' <= c && c <= '9'
}

pub open spec fn digit_value(c: char) -> nat {
    ((c as u32) - 48) as nat
}

pub open spec fn all_digits(s: Seq<char>) -> bool {
    forall|i: int| 0 <= i < s.len() ==> is_digit(#[trigger] s[i])
}

/// The number that the decimal digits `s` write.
pub open spec fn digits_value(s: Seq<char>) -> nat
    decreases s.len(),
{
    if s.len() == 0 {
        0
    } else {
        digits_value(s.drop_last()) * 10 + digit_value(s.last())
    }
}

/// The digits of `s` after an optional leading `+`.
pub open spec fn unsigned_digits(s: Seq<char>) -> Seq<char> {
    if s.len() > 0 && s[0] == '+' {
        s.drop_first()
    } else {
        s
    }
}

/// What `str::parse` gives for an unsigned integer type whose largest value
/// is `max`: an optional `+`, then at least one ASCII digit, and a value
/// that fits.
pub open spec fn parse_unsigned(s: Seq<char>, max: nat) -> Option<nat> {
    let d = unsigned_digits(s);
    if d.len() > 0 && all_digits(d) && digits_value(d) <= max {
        Some(digits_value(d))
    } else {
        None
    }
}

/// What `str::parse::<i64>` gives: an optional sign, then at least one ASCII
/// digit, and a value that fits in `i64`.
pub open spec fn parse_i64_spec(s: Seq<char>) -> Option<int> {
    if s.len() > 0 && s[0] == '-' {
        let d = s.drop_first();
        if d.len() > 0 && all_digits(d) && digits_value(d) <= 0x8000_0000_0000_0000 {
            Some(-(digits_value(d) as int))
        } else {
            None
        }
    } else {
        match parse_unsigned(s, 0x7fff_ffff_ffff_ffff) {
            Some(v) => Some(v as int),
            None => None,
        }
    }
}

pub open spec fn digit_char(d: nat) -> char {
    (d + 48) as char
}

/// The decimal digits of `n`, without leading zeros.
pub open spec fn nat_decimal(n: nat) -> Seq<char>
    decreases n,
{
    if n < 10 {
        seq![digit_char(n)]
    } else {
        nat_decimal(n / 10).push(digit_char(n % 10))
    }
}

/// How `Display` writes the integer `n`.
pub open spec fn int_decimal(n: int) -> Seq<char> {
    if n < 0 {
        seq!['-'] + nat_decimal((-n) as nat)
    } else {
        nat_decimal(n as nat)
    }
}

// ───────────────────────── lemmas ─────────────────────────

proof fn lemma_trim_start_at(s: Seq<char>, i: int)
    requires
        0 <= i <= s.len(),
        forall|k: int| 0 <= k < i ==> is_white_space(#[trigger] s[k]),
        i == s.len() || !is_white_space(s[i]),
    ensures
        trim_start(s) == s.subrange(i, s.len() as int),
    decreases i,
{
    if i == 0 {
        assert(s.subrange(0, s.len() as int) =~= s);
    } else {
        let t = s.drop_first();
        assert forall|k: int| 0 <= k < i - 1 implies is_white_space(#[trigger] t[k]) by {
            assert(t[k] == s[k + 1]);
        }
        lemma_trim_start_at(t, i - 1);
        assert(t.subrange(i - 1, t.len() as int) =~= s.subrange(i, s.len() as int));
    }
}

proof fn lemma_trim_end_at(s: Seq<char>, j: int)
    requires
        0 <= j <= s.len(),
        forall|k: int| j <= k < s.len() ==> is_white_space(#[trigger] s[k]),
        j == 0 || !is_white_space(s[j - 1]),
    ensures
        trim_end(s) == s.subrange(0, j),
    decreases s.len() - j,
{
    if j == s.len() {
        assert(s.subrange(0, j) =~= s);
    } else {
        let t = s.drop_last();
        assert forall|k: int| j <= k < t.len() implies is_white_space(#[trigger] t[k]) by {
            assert(t[k] == s[k]);
        }
        lemma_trim_end_at(t, j);
        assert(t.subrange(0, j) =~= s.subrange(0, j));
    }
}

proof fn lemma_trim_end_char_at(s: Seq<char>, c: char, j: int)
    requires
        0 <= j <= s.len(),
        forall|k: int| j <= k < s.len() ==> #[trigger] s[k] == c,
        j == 0 || s[j - 1] != c,
    ensures
        trim_end_char(s, c) == s.subrange(0, j),
    decreases s.len() - j,
{
    if j == s.len() {
        assert(s.subrange(0, j) =~= s);
    } else {
        let t = s.drop_last();
        assert forall|k: int| j <= k < t.len() implies #[trigger] t[k] == c by {
            assert(t[k] == s[k]);
        }
        lemma_trim_end_char_at(t, c, j);
        assert(t.subrange(0, j) =~= s.subrange(0, j));
    }
}

/// Extending a run of digits never lowers its value.
pub proof fn lemma_digits_value_prefix(s: Seq<char>, k: int)
    requires
        0 <= k <= s.len(),
    ensures
        digits_value(s.take(k)) <= digits_value(s),
    decreases s.len() - k,
{
    if k < s.len() {
        lemma_digits_value_prefix(s.drop_last(), k);
        assert(s.drop_last().take(k) =~= s.take(k));
    } else {
        assert(s.take(k) =~= s);
    }
}

proof fn lemma_trim_start_is_suffix(s: Seq<char>)
    ensures
        trim_start(s) =~= s.skip(s.len() - trim_start(s).len()),
        trim_start(s).len() <= s.len(),
        trim_start(s).len() == 0 || !is_white_space(trim_start(s)[0]),
        forall|k: int| 0 <= k < s.len() - trim_start(s).len() ==> is_white_space(#[trigger] s[k]),
    decreases s.len(),
{
    if s.len() > 0 && is_white_space(s[0]) {
        let t = s.drop_first();
        lemma_trim_start_is_suffix(t);
        assert forall|k: int| 0 <= k < s.len() - trim_start(s).len() implies is_white_space(
            #[trigger] s[k],
        ) by {
            if k > 0 {
                assert(s[k] == t[k - 1]);
            }
        }
    }
}

proof fn lemma_trim_end_is_prefix(s: Seq<char>)
    ensures
        trim_end(s) =~= s.take(trim_end(s).len() as int),
        trim_end(s).len() <= s.len(),
        trim_end(s).len() == 0 || !is_white_space(trim_end(s).last()),
        forall|k: int| trim_end(s).len() <= k < s.len() ==> is_white_space(#[trigger] s[k]),
    decreases s.len(),
{
    if s.len() > 0 && is_white_space(s.last()) {
        let t = s.drop_last();
        lemma_trim_end_is_prefix(t);
        assert forall|k: int| trim_end(s).len() <= k < s.len() implies is_white_space(
            #[trigger] s[k],
        ) by {
            if k < s.len() - 1 {
                assert(s[k] == t[k]);
            }
        }
    }
}

/// `trim(s)` is a piece of `s` that neither begins nor ends with white
/// space.
pub proof fn lemma_trim_piece(s: Seq<char>)
    ensures
        forall|k: int| 0 <= k < trim(s).len() ==> s.contains(#[trigger] trim(s)[k]),
        trim(s).len() == 0 || (!is_white_space(trim(s)[0]) && !is_white_space(trim(s).last())),
{
    let a = trim_start(s);
    lemma_trim_start_is_suffix(s);
    lemma_trim_end_is_prefix(a);
    let t = trim(s);
    let off = s.len() - a.len();
    assert forall|k: int| 0 <= k < t.len() implies s.contains(#[trigger] t[k]) by {
        assert(t[k] == a[k]);
        assert(a[k] == s[off + k]);
    }
    if t.len() > 0 {
        assert(t[0] == a[0]);
    }
}

proof fn lemma_ascii_lower_char(c: char)
    ensures
        is_white_space(ascii_lower(c)) == is_white_space(c),
        ascii_lower(c) == ':' ==> c == ':',
        ascii_lower(ascii_lower(c)) == ascii_lower(c),
{
    if is_ascii_upper(c) {
        assert(((c as u32) + 32) as char as u32 == (c as u32) + 32);
    }
}

/// ASCII lowercasing twice is lowercasing once.
pub proof fn lemma_lower_ascii_idempotent(s: Seq<char>)
    ensures
        lower_ascii(lower_ascii(s)) == lower_ascii(s),
{
    assert forall|k: int| 0 <= k < s.len() implies lower_ascii(lower_ascii(s))[k] == lower_ascii(
        s,
    )[k] by {
        lemma_ascii_lower_char(s[k]);
    }
    assert(lower_ascii(lower_ascii(s)) =~= lower_ascii(s));
}

/// A trimmed, lowercased text is left as it is by trimming, and has a
/// separator `:` only where the text had one.
pub proof fn lemma_lower_trim_is_trimmed(s: Seq<char>)
    ensures
        trim(lower_ascii(trim(s))) == lower_ascii(trim(s)),
        !s.contains(':') ==> !lower_ascii(trim(s)).contains(':'),
{
    let t = trim(s);
    let l = lower_ascii(t);
    lemma_trim_piece(s);
    if l.len() > 0 {
        lemma_ascii_lower_char(t[0]);
        lemma_ascii_lower_char(t.last());
        assert(l[0] == ascii_lower(t[0]));
        assert(l.last() == ascii_lower(t.last()));
    }
    assert forall|k: int| 0 <= k < 0 implies is_white_space(#[trigger] l[k]) by {}
    lemma_trim_start_at(l, 0);
    assert(l.subrange(0, l.len() as int) =~= l);
    assert forall|k: int| l.len() <= k < l.len() implies is_white_space(#[trigger] l[k]) by {}
    lemma_trim_end_at(l, l.len() as int);
    if !s.contains(':') {
        assert forall|k: int| 0 <= k < l.len() implies #[trigger] l[k] != ':' by {
            lemma_ascii_lower_char(t[k]);
            assert(s.contains(t[k]));
        }
    }
}

proof fn lemma_split_nonempty(s: Seq<char>, sep: char)
    ensures
        split_char(s, sep).len() >= 1,
    decreases s.len(),
{
    if s.len() > 0 {
        lemma_split_nonempty(s.drop_last(), sep);
    }
}

/// Appending text without `sep` extends the last piece.
pub proof fn lemma_split_append_plain(s: Seq<char>, t: Seq<char>, sep: char)
    requires
        !t.contains(sep),
    ensures
        split_char(s + t, sep) == split_char(s, sep).update(
            split_char(s, sep).len() - 1,
            split_char(s, sep).last() + t,
        ),
    decreases t.len(),
{
    let p = split_char(s, sep);
    lemma_split_nonempty(s, sep);
    if t.len() == 0 {
        assert(s + t =~= s);
        assert(p.last() + t =~= p.last());
        assert(p.update(p.len() - 1, p.last()) =~= p);
    } else {
        let t0 = t.drop_last();
        assert(!t0.contains(sep)) by {
            if t0.contains(sep) {
                let k = choose|k: int| 0 <= k < t0.len() && t0[k] == sep;
                assert(t[k] == sep);
            }
        }
        assert(t.last() != sep) by {
            if t.last() == sep {
                assert(t.contains(t[t.len() - 1]));
            }
        }
        lemma_split_append_plain(s, t0, sep);
        assert((s + t).drop_last() =~= s + t0);
        assert((s + t).last() == t.last());
        assert((p.last() + t0).push(t.last()) =~= p.last() + t);
        let q = split_char(s + t0, sep);
        assert(q.update(q.len() - 1, q.last().push(t.last())) =~= p.update(
            p.len() - 1,
            p.last() + t,
        ));
    }
}

/// Appending `sep` starts a new, empty piece.
pub proof fn lemma_split_append_sep(s: Seq<char>, sep: char)
    ensures
        split_char(s.push(sep), sep) == split_char(s, sep).push(Seq::<char>::empty()),
{
    assert(s.push(sep).drop_last() =~= s);
}

/// Appending text keeps every piece but the last.
pub proof fn lemma_split_prefix(s: Seq<char>, t: Seq<char>, sep: char)
    ensures
        split_char(s + t, sep).len() >= split_char(s, sep).len(),
        forall|k: int|
            0 <= k < split_char(s, sep).len() - 1 ==> #[trigger] split_char(s + t, sep)[k]
                == split_char(s, sep)[k],
    decreases t.len(),
{
    if t.len() == 0 {
        assert(s + t =~= s);
    } else {
        let t0 = t.drop_last();
        lemma_split_prefix(s, t0, sep);
        assert((s + t).drop_last() =~= s + t0);
        lemma_split_nonempty(s + t0, sep);
    }
}

/// Writing a number in decimal and reading it back gives the number: the
/// text is a non-empty run of ASCII digits, with no leading zero, whose
/// value is the number; so `str::parse` reads it back whenever it fits.
pub proof fn law_decimal_round_trip(n: nat, max: nat)
    ensures
        nat_decimal(n).len() > 0,
        all_digits(nat_decimal(n)),
        digits_value(nat_decimal(n)) == n,
        n >= 10 ==> nat_decimal(n)[0] != '0',
        n <= max ==> parse_unsigned(nat_decimal(n), max) == Some(n),
    decreases n,
{
    let d = nat_decimal(n);
    if n < 10 {
        assert((n + 48) as char as u32 == n + 48);
        assert(d.drop_last() =~= Seq::<char>::empty());
        assert(d.last() == digit_char(n));
        assert(digit_value(digit_char(n)) == n);
        assert(digits_value(d) == digits_value(d.drop_last()) * 10 + digit_value(d.last()));
    } else {
        law_decimal_round_trip(n / 10, max);
        let p = nat_decimal(n / 10);
        let r = n % 10;
        assert((r + 48) as char as u32 == r + 48);
        assert(d.drop_last() =~= p);
        assert(d[0] == p[0]);
        assert forall|i: int| 0 <= i < d.len() implies is_digit(#[trigger] d[i]) by {
            if i < p.len() {
                assert(d[i] == p[i]);
            }
        }
        assert((n / 10) * 10 + r == n);
        assert(d.last() == digit_char(r));
        assert(digit_value(digit_char(r)) == r);
        assert(digits_value(d) == digits_value(p) * 10 + r);
        if n / 10 < 10 {
            assert(p[0] == digit_char(n / 10));
            assert((n / 10 + 48) as char as u32 == n / 10 + 48);
        }
    }
    assert(d[0] != '+');
    assert(unsigned_digits(d) == d);
}

/// Trimming removes exactly the white space at both ends: `trim(s)` is the
/// piece of `s` between a white-space prefix and a white-space suffix, and
/// it is empty or begins and ends with a character that is not white
/// space.
pub proof fn law_trim(s: Seq<char>)
    ensures
        exists|i: int, j: int|
            #![trigger s.subrange(i, j)]
            0 <= i <= j <= s.len() && trim(s) == s.subrange(i, j) && (forall|k: int|
                0 <= k < i ==> is_white_space(#[trigger] s[k])) && (forall|k: int|
                j <= k < s.len() ==> is_white_space(#[trigger] s[k])),
        trim(s).len() == 0 || (!is_white_space(trim(s)[0]) && !is_white_space(trim(s).last())),
{
    let a = trim_start(s);
    lemma_trim_start_is_suffix(s);
    lemma_trim_end_is_prefix(a);
    lemma_trim_piece(s);
    let i = s.len() - a.len();
    let e = trim_end(a);
    let j = i + e.len();
    assert(trim(s) =~= s.subrange(i, j));
    assert forall|k: int| j <= k < s.len() implies is_white_space(#[trigger] s[k]) by {
        assert(s[k] == a[k - i]);
    }
}

/// ASCII case mapping changes only ASCII letters, each to the same letter
/// in the other case (32 code points apart).
pub proof fn law_ascii_case(c: char)
    ensures
        is_ascii_upper(c) ==> ascii_lower(c) as u32 == c as u32 + 32 && is_ascii_lower(ascii_lower(c)),
        !is_ascii_upper(c) ==> ascii_lower(c) == c,
        is_ascii_lower(c) ==> ascii_upper(c) as u32 + 32 == c as u32 && is_ascii_upper(ascii_upper(c)),
        !is_ascii_lower(c) ==> ascii_upper(c) == c,
        is_ascii_upper(c) <==> 65 <= c as u32 <= 90,
        is_ascii_lower(c) <==> 97 <= c as u32 <= 122,
{
    if is_ascii_upper(c) {
        assert(((c as u32) + 32) as char as u32 == (c as u32) + 32);
    }
    if is_ascii_lower(c) {
        assert(((c as u32) - 32) as char as u32 == (c as u32) - 32);
    }
}

/// The pieces `ps` joined with `sep` between them.
pub open spec fn joined_by(ps: Seq<Seq<char>>, sep: char) -> Seq<char>
    decreases ps.len(),
{
    if ps.len() == 0 {
        Seq::empty()
    } else if ps.len() == 1 {
        ps[0]
    } else {
        joined_by(ps.drop_last(), sep).push(sep) + ps.last()
    }
}

/// Splitting at `sep` cuts `s` into pieces that hold no `sep` and that,
/// joined again with `sep`, give back `s`.
pub proof fn law_split_char(s: Seq<char>, sep: char)
    ensures
        joined_by(split_char(s, sep), sep) == s,
        forall|k: int|
            0 <= k < split_char(s, sep).len() ==> !(#[trigger] split_char(s, sep)[k]).contains(sep),
    decreases s.len(),
{
    lemma_split_nonempty(s, sep);
    if s.len() == 0 {
        assert(split_char(s, sep)[0] =~= Seq::<char>::empty());
    } else {
        let p = s.drop_last();
        let q = split_char(p, sep);
        law_split_char(p, sep);
        lemma_split_nonempty(p, sep);
        let r = split_char(s, sep);
        if s.last() == sep {
            assert(r.drop_last() =~= q);
            assert(joined_by(q, sep).push(sep) + Seq::<char>::empty() =~= s);
            assert forall|k: int| 0 <= k < r.len() implies !(#[trigger] r[k]).contains(sep) by {
                if k < q.len() {
                    assert(r[k] == q[k]);
                }
            }
        } else {
            let c = s.last();
            assert(r.len() == q.len());
            assert(r.last() == q.last().push(c));
            if q.len() == 1 {
                assert(q.last().push(c) =~= s);
            } else {
                assert(r.drop_last() =~= q.drop_last());
                assert(joined_by(q.drop_last(), sep).push(sep) + q.last().push(c) =~= (joined_by(
                    q.drop_last(),
                    sep,
                ).push(sep) + q.last()).push(c));
            }
            assert forall|k: int| 0 <= k < r.len() implies !(#[trigger] r[k]).contains(sep) by {
                if k < q.len() - 1 {
                    assert(r[k] == q[k]);
                } else {
                    assert(r[k] == q.last().push(c));
                    if r[k].contains(sep) {
                        let w = choose|w: int| 0 <= w < r[k].len() && r[k][w] == sep;
                        if w < q.last().len() {
                            assert(q.last()[w] == sep);
                            assert(q[q.len() - 1].contains(sep));
                        }
                    }
                }
            }
        }
    }
}

// ───────────────────────── conversions ─────────────────────────

/// The characters of `s`, in order.
pub fn chars_of(s: &str) -> (v: Vec<char>)
    ensures
        v@ == s@,
{
    let mut v: Vec<char> = Vec::new();
    for c in it: s.chars()
        invariant
            v@ == it.seq().take(it.index() as int),
            it.seq() == s@,
    {
        v.push(c);
    }
    v
}

/// The string made of the characters `v`.
#[verifier::external_body]
pub(crate) fn string_of(v: &Vec<char>) -> (s: String)
    ensures
        s@ == v@,
{
    v.iter().collect::<String>()
}

/// `s` as a new `String` (`str::to_string`).
pub fn owned(s: &str) -> (r: String)
    ensures
        r@ == s@,
{
    let v = chars_of(s);
    string_of(&v)
}

/// Whether two character sequences are equal.
pub fn chars_eq(a: &Vec<char>, b: &Vec<char>) -> (r: bool)
    ensures
        r == (a@ == b@),
{
    if a.len() != b.len() {
        return false;
    }
    let mut i: usize = 0;
    while i < a.len()
        invariant
            a@.len() == b@.len(),
            0 <= i <= a@.len(),
            forall|k: int| 0 <= k < i ==> a@[k] == b@[k],
        decreases a@.len() - i,
    {
        if a[i] != b[i] {
            return false;
        }
        i = i + 1;
    }
    assert(a@ =~= b@);
    true
}

/// Whether two strings are equal.
pub fn str_eq(a: &str, b: &str) -> (r: bool)
    ensures
        r == (a@ == b@),
{
    let va = chars_of(a);
    let vb = chars_of(b);
    chars_eq(&va, &vb)
}

/// `char::is_whitespace`.
pub fn is_whitespace(c: char) -> (r: bool)
    ensures
        r == is_white_space(c),
{
    ('\u{9}' <= c && c <= '\u{d}') || c == ' ' || c == '\u{85}' || c == '\u{a0}' || c
        == '\u{1680}' || ('\u{2000}' <= c && c <= '\u{200a}') || c == '\u{2028}' || c == '\u{2029}'
        || c == '\u{202f}' || c == '\u{205f}' || c == '\u{3000}'
}

/// The characters `v[from..to]`.
pub fn slice_chars(v: &Vec<char>, from: usize, to: usize) -> (r: Vec<char>)
    requires
        from <= to <= v@.len(),
    ensures
        r@ == v@.subrange(from as int, to as int),
{
    let mut r: Vec<char> = Vec::new();
    let mut i = from;
    while i < to
        invariant
            from <= i <= to <= v@.len(),
            r@ == v@.subrange(from as int, i as int),
        decreases to - i,
    {
        r.push(v[i]);
        i = i + 1;
    }
    r
}

/// `v` without leading and trailing white space.
pub fn trim_chars(v: &Vec<char>) -> (r: Vec<char>)
    ensures
        r@ == trim(v@),
{
    let n = v.len();
    let mut i: usize = 0;
    while i < n && is_whitespace(v[i])
        invariant
            n == v@.len(),
            0 <= i <= n,
            forall|k: int| 0 <= k < i ==> is_white_space(#[trigger] v@[k]),
        decreases n - i,
    {
        i = i + 1;
    }
    proof {
        lemma_trim_start_at(v@, i as int);
    }
    let mut j: usize = n;
    while j > i && is_whitespace(v[j - 1])
        invariant
            n == v@.len(),
            0 <= i <= j <= n,
            forall|k: int| j <= k < n ==> is_white_space(#[trigger] v@[k]),
        decreases j,
    {
        j = j - 1;
    }
    let r = slice_chars(v, i, j);
    proof {
        let t = v@.subrange(i as int, n as int);
        assert forall|k: int| j - i <= k < t.len() implies is_white_space(#[trigger] t[k]) by {
            assert(t[k] == v@[k + i]);
        }
        if j > i {
            assert(t[j - i - 1] == v@[j - 1]);
        }
        lemma_trim_end_at(t, j - i);
        assert(t.subrange(0, j - i) =~= v@.subrange(i as int, j as int));
    }
    r
}

/// `s.trim()` as characters.
pub fn trimmed(s: &str) -> (r: Vec<char>)
    ensures
        r@ == trim(s@),
{
    let v = chars_of(s);
    trim_chars(&v)
}

/// `v` without the copies of `c` that end it.
pub fn trim_end_char_chars(v: &Vec<char>, c: char) -> (r: Vec<char>)
    ensures
        r@ == trim_end_char(v@, c),
{
    let n = v.len();
    let mut j: usize = n;
    while j > 0 && v[j - 1] == c
        invariant
            n == v@.len(),
            0 <= j <= n,
            forall|k: int| j <= k < n ==> #[trigger] v@[k] == c,
        decreases j,
    {
        j = j - 1;
    }
    proof {
        lemma_trim_end_char_at(v@, c, j as int);
    }
    slice_chars(v, 0, j)
}

/// `char::to_ascii_lowercase`.
pub fn to_ascii_lower(c: char) -> (r: char)
    ensures
        r == ascii_lower(c),
{
    if 'A' <= c && c <= 'Z' {
        let b = (c as u8) + 32;
        b as char
    } else {
        c
    }
}

/// `char::to_ascii_uppercase`.
pub fn to_ascii_upper(c: char) -> (r: char)
    ensures
        r == ascii_upper(c),
{
    if 'a' <= c && c <= 'z' {
        let b = (c as u8) - 32;
        b as char
    } else {
        c
    }
}

/// The characters of `v` mapped by `char::to_ascii_lowercase`.
pub fn lower_ascii_chars(v: &Vec<char>) -> (r: Vec<char>)
    ensures
        r@ == lower_ascii(v@),
{
    let mut r: Vec<char> = Vec::new();
    let mut i: usize = 0;
    while i < v.len()
        invariant
            0 <= i <= v@.len(),
            r@ == lower_ascii(v@.take(i as int)),
        decreases v@.len() - i,
    {
        r.push(to_ascii_lower(v[i]));
        assert(lower_ascii(v@.take(i as int + 1)) =~= lower_ascii(v@.take(i as int)).push(
            ascii_lower(v@[i as int]),
        ));
        i = i + 1;
    }
    assert(v@.take(v@.len() as int) =~= v@);
    r
}

/// The characters of `v` mapped by `char::to_ascii_uppercase`.
pub fn upper_ascii_chars(v: &Vec<char>) -> (r: Vec<char>)
    ensures
        r@ == upper_ascii(v@),
{
    let mut r: Vec<char> = Vec::new();
    let mut i: usize = 0;
    while i < v.len()
        invariant
            0 <= i <= v@.len(),
            r@ == upper_ascii(v@.take(i as int)),
        decreases v@.len() - i,
    {
        r.push(to_ascii_upper(v[i]));
        assert(upper_ascii(v@.take(i as int + 1)) =~= upper_ascii(v@.take(i as int)).push(
            ascii_upper(v@[i as int]),
        ));
        i = i + 1;
    }
    assert(v@.take(v@.len() as int) =~= v@);
    r
}

/// `str::eq_ignore_ascii_case` on characters.
pub fn chars_eq_ignore_ascii_case(a: &Vec<char>, b: &Vec<char>) -> (r: bool)
    ensures
        r == eq_ignore_ascii_case(a@, b@),
{
    let la = lower_ascii_chars(a);
    let lb = lower_ascii_chars(b);
    chars_eq(&la, &lb)
}

/// Whether `needle` occurs in `hay` at index `i`.
pub fn occurs_at_exec(hay: &Vec<char>, needle: &Vec<char>, i: usize) -> (r: bool)
    ensures
        r == occurs_at(hay@, needle@, i as int),
{
    if i > hay.len() || needle.len() > hay.len() - i {
        return false;
    }
    let mut k: usize = 0;
    while k < needle.len()
        invariant
            i + needle@.len() <= hay@.len(),
            hay@.len() <= usize::MAX,
            0 <= k <= needle@.len(),
            forall|m: int| 0 <= m < k ==> hay@[i + m] == needle@[m],
        decreases needle@.len() - k,
    {
        if hay[i + k] != needle[k] {
            assert(hay@.subrange(i as int, i + needle@.len())[k as int] != needle@[k as int]);
            return false;
        }
        k = k + 1;
    }
    assert(hay@.subrange(i as int, i + needle@.len()) =~= needle@);
    true
}

/// The index of the first occurrence of `needle` in `hay`.
pub fn find_chars(hay: &Vec<char>, needle: &Vec<char>) -> (r: Option<usize>)
    ensures
        match r {
            Some(i) => first_occurrence(hay@, needle@) == Some(i as int) && occurs_at(
                hay@,
                needle@,
                i as int,
            ),
            None => first_occurrence(hay@, needle@) is None,
        },
        r is Some <==> contains_seq(hay@, needle@),
{
    reveal(first_occurrence);
    if needle.len() > hay.len() {
        return None;
    }
    let last = hay.len() - needle.len();
    let mut i: usize = 0;
    loop
        invariant
            last + needle@.len() == hay@.len(),
            0 <= i <= last,
            forall|j: int| 0 <= j < i ==> !occurs_at(hay@, needle@, j),
        decreases last - i,
    {
        if occurs_at_exec(hay, needle, i) {
            proof {
                reveal(first_occurrence);
                assert(contains_seq(hay@, needle@));
                let c = choose|c: int|
                    occurs_at(hay@, needle@, c) && forall|j: int|
                        0 <= j < c ==> !occurs_at(hay@, needle@, j);
                assert(occurs_at(hay@, needle@, c));
                if c < i {
                } else if c > i {
                    assert(!occurs_at(hay@, needle@, i as int));
                }
            }
            return Some(i);
        }
        if i == last {
            proof {
                reveal(first_occurrence);
                assert forall|j: int| !occurs_at(hay@, needle@, j) by {
                    if 0 <= j <= i {
                    }
                }
            }
            return None;
        }
        i = i + 1;
    }
}

/// `str::contains` on characters.
pub fn contains_chars(hay: &Vec<char>, needle: &Vec<char>) -> (r: bool)
    ensures
        r == contains_seq(hay@, needle@),
{
    let f = find_chars(hay, needle);
    f.is_some()
}

/// The index of the first `c` in `v`.
pub fn find_char(v: &Vec<char>, c: char) -> (r: Option<usize>)
    ensures
        match r {
            Some(i) => index_of_char(v@, c) == Some(i as int) && i < v@.len() && v@[i as int] == c,
            None => index_of_char(v@, c) is None,
        },
{
    let mut i: usize = 0;
    while i < v.len()
        invariant
            0 <= i <= v@.len(),
            forall|j: int| 0 <= j < i ==> v@[j] != c,
        decreases v@.len() - i,
    {
        if v[i] == c {
            proof {
                assert(v@.contains(c));
                let w = choose|w: int|
                    0 <= w < v@.len() && v@[w] == c && forall|j: int| 0 <= j < w ==> v@[j] != c;
                if w < i {
                } else if w > i {
                }
            }
            return Some(i);
        }
        i = i + 1;
    }
    None
}

/// The pieces of `v` between the occurrences of `sep`.
pub fn split_chars(v: &Vec<char>, sep: char) -> (r: Vec<Vec<char>>)
    ensures
        r@.len() == split_char(v@, sep).len(),
        forall|k: int| 0 <= k < r@.len() ==> #[trigger] r@[k]@ == split_char(v@, sep)[k],
{
    let mut done: Vec<Vec<char>> = Vec::new();
    let mut cur: Vec<char> = Vec::new();
    let mut i: usize = 0;
    while i < v.len()
        invariant
            0 <= i <= v@.len(),
            done@.len() + 1 == split_char(v@.take(i as int), sep).len(),
            forall|k: int|
                0 <= k < done@.len() ==> #[trigger] done@[k]@ == split_char(v@.take(i as int), sep)[k],
            cur@ == split_char(v@.take(i as int), sep).last(),
        decreases v@.len() - i,
    {
        let ghost before = v@.take(i as int);
        assert(v@.take(i as int + 1).drop_last() =~= before);
        if v[i] == sep {
            done.push(cur);
            cur = Vec::new();
        } else {
            cur.push(v[i]);
        }
        i = i + 1;
    }
    done.push(cur);
    assert(v@.take(v@.len() as int) =~= v@);
    done
}

// ───────────────────────── decimal integers ─────────────────────────

fn digit_to_char(d: u64) -> (c: char)
    requires
        d < 10,
    ensures
        c == digit_char(d as nat),
{
    let b = (d as u8) + 48;
    b as char
}

/// Appends the decimal digits of `n` to `out`.
pub fn push_decimal(out: &mut Vec<char>, n: u64)
    ensures
        final(out)@ == old(out)@ + nat_decimal(n as nat),
    decreases n,
{
    if n >= 10 {
        push_decimal(out, n / 10);
    }
    out.push(digit_to_char(n % 10));
    proof {
        if n >= 10 {
            assert(nat_decimal(n as nat) == nat_decimal((n / 10) as nat).push(
                digit_char((n % 10) as nat),
            ));
        }
    }
    assert(final(out)@ =~= old(out)@ + nat_decimal(n as nat));
}

/// `u64::to_string`.
pub fn u64_to_decimal(n: u64) -> (s: Vec<char>)
    ensures
        s@ == nat_decimal(n as nat),
{
    let mut out: Vec<char> = Vec::new();
    push_decimal(&mut out, n);
    assert(out@ =~= nat_decimal(n as nat));
    out
}

/// `i64::to_string`.
pub fn i64_to_decimal(n: i64) -> (s: Vec<char>)
    ensures
        s@ == int_decimal(n as int),
{
    let mut out: Vec<char> = Vec::new();
    if n < 0 {
        out.push('-');
        let m: u64 = if n == i64::MIN {
            0x8000_0000_0000_0000u64
        } else {
            (-n) as u64
        };
        push_decimal(&mut out, m);
        assert(out@ =~= seq!['-'] + nat_decimal((-n) as nat));
    } else {
        push_decimal(&mut out, n as u64);
        assert(out@ =~= nat_decimal(n as nat));
    }
    out
}

/// The value of the decimal digits `v[start..]`, when there is at least one,
/// all are ASCII digits, and the value is at most `limit`.
pub fn digits_at_most(v: &Vec<char>, start: usize, limit: u64) -> (r: Option<u64>)
    requires
        start <= v@.len(),
    ensures
        ({
            let d = v@.skip(start as int);
            match r {
                Some(x) => d.len() > 0 && all_digits(d) && digits_value(d) <= limit && x
                    == digits_value(d),
                None => !(d.len() > 0 && all_digits(d) && digits_value(d) <= limit),
            }
        }),
{
    let ghost d = v@.skip(start as int);
    if start == v.len() {
        return None;
    }
    let mut acc: u64 = 0;
    let mut i = start;
    while i < v.len()
        invariant
            start <= i <= v@.len(),
            d == v@.skip(start as int),
            all_digits(d.take(i - start)),
            acc == digits_value(d.take(i - start)),
            acc <= limit,
        decreases v@.len() - i,
    {
        let c = v[i];
        let ghost k = i - start;
        assert(d[k] == c);
        assert(d.take(k + 1).drop_last() =~= d.take(k));
        if !('0' <= c && c <= '9') {
            assert(!all_digits(d));
            return None;
        }
        let dv = (c as u64) - 48;
        assert(digits_value(d.take(k + 1)) == acc * 10 + dv);
        if dv > limit || acc > (limit - dv) / 10 {
            proof {
                if dv <= limit {
                    assert(acc * 10 + dv > limit) by (nonlinear_arith)
                        requires
                            acc > (limit - dv) / 10,
                            dv <= limit,
                    ;
                }
                lemma_digits_value_prefix(d, k + 1);
            }
            return None;
        }
        proof {
            assert(acc * 10 + dv <= limit) by (nonlinear_arith)
                requires
                    acc <= (limit - dv) / 10,
                    dv <= limit,
            ;
        }
        acc = acc * 10 + dv;
        i = i + 1;
        proof {
            assert forall|m: int| 0 <= m < d.take(i - start).len() implies is_digit(
                #[trigger] d.take(i - start)[m],
            ) by {
                if m < k {
                    assert(d.take(i - start)[m] == d.take(k)[m]);
                }
            }
        }
    }
    assert(d.take(i - start) =~= d);
    Some(acc)
}

} // verus!

verus! {

/// Appends the characters `s` to `out`.
pub fn push_all(out: &mut Vec<char>, s: &Vec<char>)
    ensures
        final(out)@ == old(out)@ + s@,
{
    let mut i: usize = 0;
    while i < s.len()
        invariant
            0 <= i <= s@.len(),
            out@ == old(out)@ + s@.take(i as int),
        decreases s@.len() - i,
    {
        out.push(s[i]);
        assert(s@.take(i as int + 1) =~= s@.take(i as int).push(s@[i as int]));
        i = i + 1;
    }
    assert(s@.take(s@.len() as int) =~= s@);
}

/// Appends the characters of `s` to `out`.
pub fn push_str(out: &mut Vec<char>, s: &str)
    ensures
        final(out)@ == old(out)@ + s@,
{
    let v = chars_of(s);
    push_all(out, &v);
}

} // verus!

verus! {

/// The lowercase mapping of `s` that `str::to_lowercase` computes (Unicode
/// `Lowercase` mapping, with its context rules).
pub uninterp spec fn unicode_lowercase(s: Seq<char>) -> Seq<char>;

/// Every character of `s` is ASCII.
pub open spec fn is_ascii_text(s: Seq<char>) -> bool {
    forall|k: int| 0 <= k < s.len() ==> (#[trigger] s[k] as u32) < 128
}

/// What `str::to_lowercase` gives: the ASCII lowercase of an ASCII text,
/// the named Unicode mapping of any other.
pub open spec fn lowercase(s: Seq<char>) -> Seq<char> {
    if is_ascii_text(s) {
        lower_ascii(s)
    } else {
        unicode_lowercase(s)
    }
}

/// `str::to_lowercase`: the contract names its result, and says that an
/// ASCII text maps to its ASCII lowercase (the Unicode lowercase mapping
/// changes only `A`..=`Z` among ASCII characters, to `a`..=`z`).
#[verifier::external_body]
pub(crate) fn to_lowercase(s: &str) -> (r: String)
    ensures
        r@ == unicode_lowercase(s@),
        is_ascii_text(s@) ==> r@ == lower_ascii(s@),
{
    s.to_lowercase()
}

/// `str::parse` for an unsigned integer type whose largest value is `max`.
pub fn parse_unsigned_chars(v: &Vec<char>, max: u64) -> (r: Option<u64>)
    ensures
        match r {
            Some(x) => parse_unsigned(v@, max as nat) == Some(x as nat),
            None => parse_unsigned(v@, max as nat) is None,
        },
{
    let start: usize = if v.len() > 0 && v[0] == '+' {
        1
    } else {
        0
    };
    assert(unsigned_digits(v@) =~= v@.skip(start as int));
    digits_at_most(v, start, max)
}

/// `str::parse::<i64>`.
pub fn parse_i64_chars(v: &Vec<char>) -> (r: Option<i64>)
    ensures
        match r {
            Some(x) => parse_i64_spec(v@) == Some(x as int),
            None => parse_i64_spec(v@) is None,
        },
{
    if v.len() > 0 && v[0] == '-' {
        assert(v@.drop_first() =~= v@.skip(1));
        match digits_at_most(v, 1, 0x8000_0000_0000_0000u64) {
            Some(m) => {
                if m == 0x8000_0000_0000_0000u64 {
                    Some(i64::MIN)
                } else {
                    Some(-(m as i64))
                }
            },
            None => None,
        }
    } else {
        match parse_unsigned_chars(v, 0x7fff_ffff_ffff_ffffu64) {
            Some(x) => Some(x as i64),
            None => None,
        }
    }
}

} // verus!
