//! The exchange-side rules of the bot that do not need the network: market
//! slugs, API base addresses, the classification of order errors and the
//! delays before retrying them, the signature of authenticated requests,
//! and the selection of the Up/Down tokens of a market.
use base64::engine::general_purpose::URL_SAFE;
use base64::Engine;
use hmac::{Hmac, Mac};
use sha2::Sha256;
use vstd::prelude::*;
use crate::text::{
    chars_eq_ignore_ascii_case, chars_of, chars_eq, contains_chars, contains_seq, digits_value,
    eq_ignore_ascii_case, find_chars, first_occurrence, occurs_at, i64_to_decimal, int_decimal, is_digit,
    lower_ascii, lower_ascii_chars, owned, parse_unsigned, parse_unsigned_chars, push_all, push_str,
    slice_chars, string_of, trim, trim_chars, trim_end_char, trim_end_char_chars,
};

verus! {

// ───────────────────────── slugs and bases ─────────────────────────

/// `ms / 1000` rounded toward zero, as Rust's integer division does.
pub open spec fn seconds_of_millis(ms: int) -> int {
    if ms >= 0 {
        ms / 1000
    } else {
        -((-ms) / 1000)
    }
}

/// The slug of the market of the candle opening at `open_time_ms`:
/// `{prefix}-{unix seconds}`.
pub open spec fn slug_of(prefix: Seq<char>, open_time_ms: int) -> Seq<char> {
    prefix + "-"@ + int_decimal(seconds_of_millis(open_time_ms))
}

/// The slug of the market of the candle opening at `open_time_ms`.
pub fn build_slug(prefix: &str, open_time_ms: i64) -> (r: String)
    ensures
        r@ == slug_of(prefix@, open_time_ms as int),
{
    let m = open_time_ms as i128;
    let q: i128 = if m >= 0 {
        m / 1000
    } else {
        -((-m) / 1000)
    };
    let secs = q as i64;
    let mut out = chars_of(prefix);
    push_str(&mut out, "-");
    push_all(&mut out, &i64_to_decimal(secs));
    let r = string_of(&out);
    assert(r@ =~= slug_of(prefix@, open_time_ms as int));
    r
}

/// The gamma API base without trailing `/`.
pub open spec fn gamma_base_of(gamma_api_base: Seq<char>) -> Seq<char> {
    trim_end_char(gamma_api_base, '/')
}

/// The CLOB API base: the override, else the configured URL (each trimmed,
/// trailing `/` removed), else the public CLOB address.
pub open spec fn clob_base_of(clob_override: Seq<char>, configured_url: Seq<char>) -> Seq<char> {
    let o = trim_end_char(trim(clob_override), '/');
    let c = if o.len() == 0 {
        trim_end_char(trim(configured_url), '/')
    } else {
        o
    };
    if c.len() == 0 {
        "https://clob.polymarket.com"@
    } else {
        c
    }
}

/// The API bases that the client uses: (gamma, CLOB).
pub fn resolve_api_bases(gamma_api_base: &str, clob_override: &str, configured_clob_url: &str) -> (r: (
    String,
    String,
))
    ensures
        r.0@ == gamma_base_of(gamma_api_base@),
        r.1@ == clob_base_of(clob_override@, configured_clob_url@),
{
    let gamma = string_of(&trim_end_char_chars(&chars_of(gamma_api_base), '/'));
    let o = trim_end_char_chars(&trim_chars(&chars_of(clob_override)), '/');
    let c = if o.len() == 0 {
        trim_end_char_chars(&trim_chars(&chars_of(configured_clob_url)), '/')
    } else {
        o
    };
    let clob = if c.len() == 0 {
        owned("https://clob.polymarket.com")
    } else {
        string_of(&c)
    };
    (gamma, clob)
}

// ───────────────────────── order errors ─────────────────────────

/// Delays, in seconds, before the retries of a fill-or-kill order that
/// found no counterpart.
pub const FOK_RETRY_DELAYS_SECS: [u64; 3] = [3, 7, 10];

/// Delays, in seconds, before the retries of an order refused while the
/// exchange is temporarily unavailable.
pub const CLOB_TEMPORARY_RETRY_DELAYS_SECS: [u64; 3] = [5, 15, 30];

/// The longest delay taken from a `retry-after` hint.
pub const MAX_RETRY_AFTER_SECS: u64 = 60;

/// A fill-or-kill order that could not be filled at once.
pub open spec fn fok_unfilled(msg: Seq<char>) -> bool {
    let l = lower_ascii(msg);
    contains_seq(l, "fok orders are fully filled or killed"@) || contains_seq(
        l,
        "order couldn't be fully filled"@,
    )
}

/// The exchange refused an order for a passing reason.
pub open spec fn clob_temporary(msg: Seq<char>) -> bool {
    let l = lower_ascii(msg);
    ||| contains_seq(l, "425"@)
    ||| contains_seq(l, "too early"@)
    ||| contains_seq(l, "post-only"@)
    ||| contains_seq(l, "post only"@)
    ||| contains_seq(l, "post_only"@)
    ||| contains_seq(l, "retry-after"@)
    ||| contains_seq(l, "temporarily unavailable"@)
    ||| contains_seq(l, "service unavailable"@)
    ||| contains_seq(l, "engine restart"@)
    ||| contains_seq(l, "matching engine"@)
}

fn mentions(l: &Vec<char>, phrase: &str) -> (r: bool)
    ensures
        r == contains_seq(l@, phrase@),
{
    contains_chars(l, &chars_of(phrase))
}

/// Whether the error message `msg` says that a fill-or-kill order could not
/// be filled at once.
pub fn is_fok_unfilled_error(msg: &str) -> (r: bool)
    ensures
        r == fok_unfilled(msg@),
{
    let l = lower_ascii_chars(&chars_of(msg));
    mentions(&l, "fok orders are fully filled or killed") || mentions(
        &l,
        "order couldn't be fully filled",
    )
}

/// Whether the error message `msg` says that the exchange refused the order
/// for a passing reason (too early, post-only mode, restart, unavailable).
pub fn is_clob_temporary_order_error(msg: &str) -> (r: bool)
    ensures
        r == clob_temporary(msg@),
{
    let l = lower_ascii_chars(&chars_of(msg));
    mentions(&l, "425") || mentions(&l, "too early") || mentions(&l, "post-only") || mentions(
        &l,
        "post only",
    ) || mentions(&l, "post_only") || mentions(&l, "retry-after") || mentions(
        &l,
        "temporarily unavailable",
    ) || mentions(&l, "service unavailable") || mentions(&l, "engine restart") || mentions(
        &l,
        "matching engine",
    )
}

/// `s` from its first ASCII digit on.
pub open spec fn skip_non_digits(s: Seq<char>) -> Seq<char>
    decreases s.len(),
{
    if s.len() > 0 && !is_digit(s[0]) {
        skip_non_digits(s.drop_first())
    } else {
        s
    }
}

/// The ASCII digits that begin `s`.
pub open spec fn leading_digits(s: Seq<char>) -> Seq<char>
    decreases s.len(),
{
    if s.len() > 0 && is_digit(s[0]) {
        seq![s[0]] + leading_digits(s.drop_first())
    } else {
        Seq::empty()
    }
}

/// The seconds that a `retry-after` hint in `msg` gives: the first run of
/// digits after the first `retry-after` (in any ASCII case), as a `u64`.
pub open spec fn retry_after_secs(msg: Seq<char>) -> Option<nat> {
    let l = lower_ascii(msg);
    match first_occurrence(l, "retry-after"@) {
        None => None,
        Some(i) => parse_unsigned(
            leading_digits(skip_non_digits(l.skip(i + "retry-after"@.len()))),
            u64::MAX as nat,
        ),
    }
}

proof fn lemma_skip_non_digits_at(s: Seq<char>, i: int)
    requires
        0 <= i <= s.len(),
        forall|k: int| 0 <= k < i ==> !is_digit(#[trigger] s[k]),
        i == s.len() || is_digit(s[i]),
    ensures
        skip_non_digits(s) == s.skip(i),
    decreases i,
{
    if i == 0 {
        assert(s.skip(0) =~= s);
    } else {
        let t = s.drop_first();
        assert forall|k: int| 0 <= k < i - 1 implies !is_digit(#[trigger] t[k]) by {
            assert(t[k] == s[k + 1]);
        }
        lemma_skip_non_digits_at(t, i - 1);
        assert(t.skip(i - 1) =~= s.skip(i));
    }
}

proof fn lemma_leading_digits_at(s: Seq<char>, j: int)
    requires
        0 <= j <= s.len(),
        forall|k: int| 0 <= k < j ==> is_digit(#[trigger] s[k]),
        j == s.len() || !is_digit(s[j]),
    ensures
        leading_digits(s) == s.take(j),
    decreases j,
{
    if j == 0 {
        assert(s.take(0) =~= Seq::<char>::empty());
    } else {
        let t = s.drop_first();
        assert forall|k: int| 0 <= k < j - 1 implies is_digit(#[trigger] t[k]) by {
            assert(t[k] == s[k + 1]);
        }
        lemma_leading_digits_at(t, j - 1);
        assert(seq![s[0]] + t.take(j - 1) =~= s.take(j));
    }
}

/// The first run of ASCII digits in `tail`.
fn first_digit_run(tail: &Vec<char>) -> (digits: Vec<char>)
    ensures
        digits@ == leading_digits(skip_non_digits(tail@)),
{
    let mut a: usize = 0;
    while a < tail.len() && !('0' <= tail[a] && tail[a] <= '9')
        invariant
            0 <= a <= tail@.len(),
            forall|k: int| 0 <= k < a ==> !is_digit(#[trigger] tail@[k]),
        decreases tail@.len() - a,
    {
        a = a + 1;
    }
    proof {
        lemma_skip_non_digits_at(tail@, a as int);
    }
    let mut b: usize = a;
    while b < tail.len() && '0' <= tail[b] && tail[b] <= '9'
        invariant
            a <= b <= tail@.len(),
            forall|k: int| a <= k < b ==> is_digit(#[trigger] tail@[k]),
        decreases tail@.len() - b,
    {
        b = b + 1;
    }
    let digits = slice_chars(&tail, a, b);
    proof {
        let s = tail@.skip(a as int);
        assert forall|k: int| 0 <= k < b - a implies is_digit(#[trigger] s[k]) by {
            assert(s[k] == tail@[k + a]);
        }
        if b < tail@.len() {
            assert(s[b - a] == tail@[b as int]);
        }
        lemma_leading_digits_at(s, b - a);
        assert(s.take(b - a) =~= digits@);
    }
    digits
}

/// The seconds that a `retry-after` hint in the error message `message`
/// gives, if any.
#[verifier::rlimit(60)]
pub fn parse_retry_after_secs(message: &str) -> (r: Option<u64>)
    ensures
        match r {
            Some(x) => retry_after_secs(message@) == Some(x as nat),
            None => retry_after_secs(message@) is None,
        },
{
    let l = lower_ascii_chars(&chars_of(message));
    let key = chars_of("retry-after");
    let i = match find_chars(&l, &key) {
        Some(i) => i,
        None => return None,
    };
    let n = l.len();
    assert(i + key@.len() <= n);
    let start = i + key.len();
    let tail = slice_chars(&l, start, l.len());
    let ghost lv = lower_ascii(message@);
    assert(tail@ =~= lv.skip(start as int));
    let digits = first_digit_run(&tail);
    let r = parse_unsigned_chars(&digits, 0xffff_ffff_ffff_ffffu64);
    assert(first_occurrence(lv, "retry-after"@) == Some(i as int));
    assert(start == i + "retry-after"@.len());
    r
}

/// The delay before retry number `attempt` (from 0) of an order refused for
/// a passing reason: the `retry-after` hint of the message, kept between 1
/// and 60 seconds, else 5, 15 and then 30 seconds.
pub open spec fn retry_delay(msg: Seq<char>, attempt: int) -> int {
    match retry_after_secs(msg) {
        Some(s) => if s < 1 {
            1
        } else if s > 60 {
            60
        } else {
            s as int
        },
        None => if attempt == 0 {
            5
        } else if attempt == 1 {
            15
        } else {
            30
        },
    }
}

/// The delay before retry number `attempt` of an order whose error message
/// is `message`.
pub fn temporary_order_retry_delay_secs(message: &str, attempt: usize) -> (r: u64)
    ensures
        r == retry_delay(message@, attempt as int),
{
    let fallback: u64 = if attempt < 3 {
        CLOB_TEMPORARY_RETRY_DELAYS_SECS[attempt]
    } else {
        CLOB_TEMPORARY_RETRY_DELAYS_SECS[2]
    };
    match parse_retry_after_secs(message) {
        Some(secs) => if secs < 1 {
            1
        } else if secs > MAX_RETRY_AFTER_SECS {
            MAX_RETRY_AFTER_SECS
        } else {
            secs
        },
        None => fallback,
    }
}

/// The delay before a retry is always between 1 second and one minute.
pub proof fn law_retry_delay_bounded(msg: Seq<char>, attempt: int)
    requires
        0 <= attempt,
    ensures
        1 <= retry_delay(msg, attempt) <= 60,
{
}

/// Without a `retry-after` hint, the delays grow with the attempts and stay
/// at their last value.
pub proof fn law_retry_delay_schedule(msg: Seq<char>, attempt: int)
    requires
        retry_after_secs(msg) is None,
        0 <= attempt,
    ensures
        retry_delay(msg, attempt) <= retry_delay(msg, attempt + 1),
        attempt >= 2 ==> retry_delay(msg, attempt) == 30,
{
}

// ───────────────────────── retries of refused orders ─────────────────────────

/// How many retries of each kind an order has had.
#[derive(Debug, Clone, Copy, PartialEq, Eq, Structural)]
pub struct RetryState {
    /// Retries after the exchange refused the order for a passing reason.
    pub temporary_attempt: usize,
    /// Retries after a fill-or-kill order could not be filled at once.
    pub fok_attempt: usize,
}

/// What to do after an order was refused.
#[derive(Debug, Clone, Copy, PartialEq, Eq, Structural)]
pub enum RetryDecision {
    /// Send the order again after this many seconds.
    Retry { delay_secs: u64 },
    /// Report the error.
    GiveUp,
}

/// The decision after an order was refused with `msg`, and the counters
/// after it: a passing refusal is retried three times with the delays of
/// `retry_delay`; then, for market orders (`market`), an order that could
/// not be filled at once is retried three times after 3, 7 and 10 seconds;
/// anything else is reported.
pub open spec fn retry_step(st: RetryState, msg: Seq<char>, market: bool) -> (RetryState, RetryDecision) {
    if clob_temporary(msg) && st.temporary_attempt < 3 {
        (
            RetryState { temporary_attempt: (st.temporary_attempt + 1) as usize, ..st },
            RetryDecision::Retry {
                delay_secs: retry_delay(msg, st.temporary_attempt as int) as u64,
            },
        )
    } else if market && fok_unfilled(msg) && st.fok_attempt < 3 {
        (
            RetryState { fok_attempt: (st.fok_attempt + 1) as usize, ..st },
            RetryDecision::Retry {
                delay_secs: if st.fok_attempt == 0 {
                    3
                } else if st.fok_attempt == 1 {
                    7
                } else {
                    10
                },
            },
        )
    } else {
        (st, RetryDecision::GiveUp)
    }
}

impl RetryState {
    /// An order not retried yet.
    pub fn new() -> (r: RetryState)
        ensures
            r.temporary_attempt == 0 && r.fok_attempt == 0,
    {
        RetryState { temporary_attempt: 0, fok_attempt: 0 }
    }

    /// Decides what follows the refusal of an order with `msg`; `market`
    /// tells a market order from a limit order. Each retry counts one more
    /// attempt of its kind, and no kind is retried more than three times.
    pub fn on_refusal(&mut self, msg: &str, market: bool) -> (d: RetryDecision)
        ensures
            (*final(self), d) == retry_step(*old(self), msg@, market),
            old(self).temporary_attempt <= 3 && old(self).fok_attempt <= 3
                ==> final(self).temporary_attempt <= 3 && final(self).fok_attempt <= 3,
            d is Retry ==> final(self).temporary_attempt + final(self).fok_attempt
                == old(self).temporary_attempt + old(self).fok_attempt + 1,
            d is GiveUp ==> *final(self) == *old(self),
    {
        if is_clob_temporary_order_error(msg) && self.temporary_attempt < 3 {
            let delay = temporary_order_retry_delay_secs(msg, self.temporary_attempt);
            self.temporary_attempt = self.temporary_attempt + 1;
            RetryDecision::Retry { delay_secs: delay }
        } else if market && is_fok_unfilled_error(msg) && self.fok_attempt < 3 {
            let delay = FOK_RETRY_DELAYS_SECS[self.fok_attempt];
            self.fok_attempt = self.fok_attempt + 1;
            RetryDecision::Retry { delay_secs: delay }
        } else {
            RetryDecision::GiveUp
        }
    }
}

/// An order is sent at most seven times: each retry raises the count of
/// its kind, and no kind goes past three.
pub proof fn law_retries_are_bounded(st: RetryState, msg: Seq<char>, market: bool)
    requires
        st.temporary_attempt <= 3,
        st.fok_attempt <= 3,
    ensures
        retry_step(st, msg, market).1 is Retry ==> retry_step(st, msg, market).0.temporary_attempt
            + retry_step(st, msg, market).0.fok_attempt == st.temporary_attempt + st.fok_attempt
            + 1,
        retry_step(st, msg, market).0.temporary_attempt <= 3,
        retry_step(st, msg, market).0.fok_attempt <= 3,
        st.temporary_attempt + st.fok_attempt == 6 ==> retry_step(st, msg, market).1 is GiveUp,
        !market ==> retry_step(st, msg, market).0.fok_attempt == st.fok_attempt,
{
}

/// A message that begins with `retry-after` (in any ASCII case), then text
/// without digits, then the digits `ds`, then text that does not go on with
/// a digit, hints the number that `ds` writes.
pub proof fn law_retry_after_hint(msg: Seq<char>, gap: Seq<char>, ds: Seq<char>, rest: Seq<char>)
    requires
        lower_ascii(msg) == "retry-after"@ + gap + ds + rest,
        forall|k: int| 0 <= k < gap.len() ==> !is_digit(#[trigger] gap[k]),
        ds.len() > 0,
        forall|k: int| 0 <= k < ds.len() ==> is_digit(#[trigger] ds[k]),
        rest.len() == 0 || !is_digit(rest[0]),
    ensures
        retry_after_secs(msg) == parse_unsigned(ds, u64::MAX as nat),
{
    reveal_strlit("retry-after");
    let l = lower_ascii(msg);
    let key = "retry-after"@;
    reveal(first_occurrence);
    assert(l.subrange(0, key.len() as int) =~= key);
    assert(occurs_at(l, key, 0));
    assert(contains_seq(l, key));
    let w = choose|i: int| occurs_at(l, key, i) && forall|j: int| 0 <= j < i ==> !occurs_at(l, key, j);
    assert(w == 0);
    let tail = l.skip(key.len() as int);
    assert(tail =~= gap + ds + rest);
    assert forall|k: int| 0 <= k < gap.len() implies !is_digit(#[trigger] tail[k]) by {
        assert(tail[k] == gap[k]);
    }
    assert(tail[gap.len() as int] == ds[0]);
    lemma_skip_non_digits_at(tail, gap.len() as int);
    let after = tail.skip(gap.len() as int);
    assert(after =~= ds + rest);
    assert forall|k: int| 0 <= k < ds.len() implies is_digit(#[trigger] after[k]) by {
        assert(after[k] == ds[k]);
    }
    if rest.len() > 0 {
        assert(after[ds.len() as int] == rest[0]);
    }
    lemma_leading_digits_at(after, ds.len() as int);
    assert(after.take(ds.len() as int) =~= ds);
}

/// An order is refused for a passing reason exactly when its message, in
/// ASCII lower case, mentions one of: `425`, `too early`, `post-only`,
/// `post only`, `post_only`, `retry-after`, `temporarily unavailable`,
/// `service unavailable`, `engine restart`, `matching engine`.
pub proof fn law_temporary_refusal_phrases(msg: Seq<char>)
    ensures
        contains_seq(lower_ascii(msg), "425"@) ==> clob_temporary(msg),
        contains_seq(lower_ascii(msg), "too early"@) ==> clob_temporary(msg),
        contains_seq(lower_ascii(msg), "post-only"@) ==> clob_temporary(msg),
        contains_seq(lower_ascii(msg), "post only"@) ==> clob_temporary(msg),
        contains_seq(lower_ascii(msg), "post_only"@) ==> clob_temporary(msg),
        contains_seq(lower_ascii(msg), "retry-after"@) ==> clob_temporary(msg),
        contains_seq(lower_ascii(msg), "temporarily unavailable"@) ==> clob_temporary(msg),
        contains_seq(lower_ascii(msg), "service unavailable"@) ==> clob_temporary(msg),
        contains_seq(lower_ascii(msg), "engine restart"@) ==> clob_temporary(msg),
        contains_seq(lower_ascii(msg), "matching engine"@) ==> clob_temporary(msg),
        clob_temporary(msg) ==> (contains_seq(lower_ascii(msg), "425"@) || contains_seq(lower_ascii(msg), "too early"@) || contains_seq(lower_ascii(msg), "post-only"@) || contains_seq(lower_ascii(msg), "post only"@) || contains_seq(lower_ascii(msg), "post_only"@) || contains_seq(lower_ascii(msg), "retry-after"@) || contains_seq(lower_ascii(msg), "temporarily unavailable"@) || contains_seq(lower_ascii(msg), "service unavailable"@) || contains_seq(lower_ascii(msg), "engine restart"@) || contains_seq(lower_ascii(msg), "matching engine"@)),
{
}

/// A fill-or-kill order was not filled exactly when its message, in ASCII
/// lower case, mentions `fok orders are fully filled or killed` or
/// `order couldn't be fully filled`.
pub proof fn law_unfilled_fok_phrases(msg: Seq<char>)
    ensures
        contains_seq(lower_ascii(msg), "fok orders are fully filled or killed"@) ==> fok_unfilled(
            msg,
        ),
        contains_seq(lower_ascii(msg), "order couldn't be fully filled"@) ==> fok_unfilled(msg),
        fok_unfilled(msg) ==> (contains_seq(
            lower_ascii(msg),
            "fok orders are fully filled or killed"@,
        ) || contains_seq(lower_ascii(msg), "order couldn't be fully filled"@)),
{
}

/// A passing refusal without a `retry-after` hint is retried after 5, 15
/// and 30 seconds, whatever the kind of order; with a hint, after the hinted
/// seconds kept between 1 and 60.
pub proof fn law_temporary_refusal_retries(msg: Seq<char>, market: bool, fok: usize)
    requires
        clob_temporary(msg),
    ensures
        retry_after_secs(msg) is None ==> {
            &&& retry_step(RetryState { temporary_attempt: 0, fok_attempt: fok }, msg, market)
                == (RetryState { temporary_attempt: 1, fok_attempt: fok }, RetryDecision::Retry {
                delay_secs: 5,
            })
            &&& retry_step(RetryState { temporary_attempt: 1, fok_attempt: fok }, msg, market)
                == (RetryState { temporary_attempt: 2, fok_attempt: fok }, RetryDecision::Retry {
                delay_secs: 15,
            })
            &&& retry_step(RetryState { temporary_attempt: 2, fok_attempt: fok }, msg, market)
                == (RetryState { temporary_attempt: 3, fok_attempt: fok }, RetryDecision::Retry {
                delay_secs: 30,
            })
        },
        retry_after_secs(msg) matches Some(h) ==> retry_step(
            RetryState { temporary_attempt: 0, fok_attempt: fok },
            msg,
            market,
        ).1 == (RetryDecision::Retry {
            delay_secs: if h < 1 {
                1
            } else if h > 60 {
                60
            } else {
                h as u64
            },
        }),
        !fok_unfilled(msg) ==> retry_step(
            RetryState { temporary_attempt: 3, fok_attempt: fok },
            msg,
            market,
        ).1 == RetryDecision::GiveUp,
{
}

/// A market order refused because it could not be filled at once (and not
/// for a passing reason) is retried after 3, 7 and 10 seconds, then
/// reported; a limit order refused so is reported at once.
pub proof fn law_unfilled_market_order_retries(msg: Seq<char>, temp: usize)
    requires
        fok_unfilled(msg),
        !clob_temporary(msg),
    ensures
        retry_step(RetryState { temporary_attempt: temp, fok_attempt: 0 }, msg, true) == (
            RetryState { temporary_attempt: temp, fok_attempt: 1 },
            RetryDecision::Retry { delay_secs: 3 },
        ),
        retry_step(RetryState { temporary_attempt: temp, fok_attempt: 1 }, msg, true) == (
            RetryState { temporary_attempt: temp, fok_attempt: 2 },
            RetryDecision::Retry { delay_secs: 7 },
        ),
        retry_step(RetryState { temporary_attempt: temp, fok_attempt: 2 }, msg, true) == (
            RetryState { temporary_attempt: temp, fok_attempt: 3 },
            RetryDecision::Retry { delay_secs: 10 },
        ),
        retry_step(RetryState { temporary_attempt: temp, fok_attempt: 3 }, msg, true).1
            == RetryDecision::GiveUp,
        retry_step(RetryState { temporary_attempt: temp, fok_attempt: 0 }, msg, false).1
            == RetryDecision::GiveUp,
{
}

/// A refusal that is neither passing nor an unfilled fill-or-kill order is
/// reported at once.
pub proof fn law_other_refusal_gives_up(st: RetryState, msg: Seq<char>, market: bool)
    requires
        !clob_temporary(msg),
        !fok_unfilled(msg),
    ensures
        retry_step(st, msg, market) == (st, RetryDecision::GiveUp),
{
}

/// The slug of a market is the prefix, `-`, and the Unix seconds of the
/// candle's opening (milliseconds divided by 1000, rounded toward zero):
/// every instant of one second names the same market, and the next second
/// names another.
pub proof fn law_slug_seconds(prefix: Seq<char>, open_ms: int)
    ensures
        open_ms >= 0 ==> slug_of(prefix, open_ms) == prefix + "-"@ + int_decimal(open_ms / 1000),
        open_ms >= 0 ==> slug_of(prefix, open_ms) == slug_of(prefix, (open_ms / 1000) * 1000),
        open_ms >= 0 ==> seconds_of_millis(open_ms + 1000) == seconds_of_millis(open_ms) + 1,
        open_ms < 0 ==> seconds_of_millis(open_ms) == -((-open_ms) / 1000),
{
    if open_ms >= 0 {
        assert(((open_ms / 1000) * 1000) / 1000 == open_ms / 1000) by (nonlinear_arith)
            requires
                open_ms >= 0,
        ;
        assert((open_ms + 1000) / 1000 == open_ms / 1000 + 1) by (nonlinear_arith)
            requires
                open_ms >= 0,
        ;
        assert((open_ms / 1000) * 1000 >= 0) by (nonlinear_arith)
            requires
                open_ms >= 0,
        ;
    }
}

/// The API bases: the gamma base loses its trailing `/`; the CLOB base is
/// the override when it is set (trimmed, without trailing `/`), else the
/// configured address, else `https://clob.polymarket.com`.
pub proof fn law_api_bases(gamma: Seq<char>, clob_override: Seq<char>, configured: Seq<char>)
    ensures
        gamma_base_of(gamma) == trim_end_char(gamma, '/'),
        trim_end_char(trim(clob_override), '/').len() > 0 ==> clob_base_of(
            clob_override,
            configured,
        ) == trim_end_char(trim(clob_override), '/'),
        trim_end_char(trim(clob_override), '/').len() == 0 && trim_end_char(trim(configured), '/').len()
            > 0 ==> clob_base_of(clob_override, configured) == trim_end_char(trim(configured), '/'),
        trim_end_char(trim(clob_override), '/').len() == 0 && trim_end_char(trim(configured), '/').len()
            == 0 ==> clob_base_of(clob_override, configured) == "https://clob.polymarket.com"@,
{
}

/// The signed message of a request is the timestamp, the method, the path
/// and the body, in this order, with each single quote of the body turned
/// into a double quote and every other character kept.
pub proof fn law_signed_message(timestamp: Seq<char>, method: Seq<char>, path: Seq<char>, body: Seq<char>)
    ensures
        ({
            let m = signed_message(timestamp, method, path, body);
            let n: int = (timestamp.len() + method.len() + path.len()) as int;
            &&& m.len() == n + body.len()
            &&& m.take(n) == timestamp + method + path
            &&& forall|k: int|
                0 <= k < body.len() ==> #[trigger] m[n + k] == if body[k] == '\'' {
                    '"'
                } else {
                    body[k]
                }
        }),
{
    let m = signed_message(timestamp, method, path, body);
    let n: int = (timestamp.len() + method.len() + path.len()) as int;
    assert(m.take(n) =~= timestamp + method + path);
}

// ───────────────────────── request signatures ─────────────────────────

/// The bytes that `base64`'s URL-safe engine (with padding) decodes from
/// `s`; `None` when it reports an error.
pub uninterp spec fn base64_url_decode(s: Seq<char>) -> Option<Seq<u8>>;

/// The text that `base64`'s URL-safe engine (with padding) encodes for `b`.
pub uninterp spec fn base64_url_encode(b: Seq<u8>) -> Seq<char>;

/// HMAC-SHA256 of `msg` under `key`, as `hmac` and `sha2` compute it.
pub uninterp spec fn hmac_sha256(key: Seq<u8>, msg: Seq<u8>) -> Seq<u8>;

/// `base64::engine::general_purpose::URL_SAFE.decode`: the contract names
/// its result.
#[verifier::external_body]
fn url_safe_decode(s: &str) -> (r: Option<Vec<u8>>)
    ensures
        match r {
            Some(v) => base64_url_decode(s@) == Some(v@),
            None => base64_url_decode(s@) is None,
        },
{
    URL_SAFE.decode(s).ok()
}

/// `base64::engine::general_purpose::URL_SAFE.encode`: the contract names
/// its result.
#[verifier::external_body]
fn url_safe_encode(b: &[u8]) -> (r: String)
    ensures
        r@ == base64_url_encode(b@),
{
    URL_SAFE.encode(b)
}

/// `Hmac::<Sha256>::new_from_slice`, `update` and `finalize`: the contract
/// names the tag, and says that a key is always accepted (HMAC takes keys of
/// any length: `new_from_slice` hashes long keys and pads short ones).
#[verifier::external_body]
fn hmac_sha256_tag(key: &[u8], msg: &[u8]) -> (r: Option<Vec<u8>>)
    ensures
        r is Some,
        r.unwrap()@ == hmac_sha256(key@, msg@),
{
    let mut mac = Hmac::<Sha256>::new_from_slice(key).ok()?;
    mac.update(msg);
    Some(mac.finalize().into_bytes().to_vec())
}

/// `s` with each `'` replaced by `"`.
pub open spec fn single_to_double_quotes(s: Seq<char>) -> Seq<char> {
    s.map_values(|c: char| if c == '\'' { '"' } else { c })
}

/// The message that an authenticated request signs: timestamp, method,
/// path and body (single quotes turned into double quotes).
pub open spec fn signed_message(
    timestamp: Seq<char>,
    method: Seq<char>,
    path: Seq<char>,
    body: Seq<char>,
) -> Seq<char> {
    timestamp + method + path + single_to_double_quotes(body)
}

/// The signature of an authenticated request: the URL-safe base64 of the
/// HMAC-SHA256 of the UTF-8 message under the base64-decoded secret; `None`
/// when the secret is not URL-safe base64.
pub open spec fn request_signature(
    secret: Seq<char>,
    timestamp: Seq<char>,
    method: Seq<char>,
    path: Seq<char>,
    body: Seq<char>,
) -> Option<Seq<char>> {
    match base64_url_decode(secret) {
        None => None,
        Some(key) => Some(
            base64_url_encode(
                hmac_sha256(key, vstd::utf8::encode_utf8(signed_message(timestamp, method, path, body))),
            ),
        ),
    }
}

/// Why a request could not be signed.
#[derive(Debug, PartialEq, Eq)]
pub enum SignatureError {
    /// The API secret is not URL-safe base64.
    InvalidSecret,
    /// The HMAC key was refused.
    InvalidKey,
}

/// The signature (`POLY_SIGNATURE` header) of an authenticated request.
pub fn compute_hmac_sig(
    secret: &str,
    timestamp: &str,
    method: &str,
    path: &str,
    body: &str,
) -> (r: Result<String, SignatureError>)
    ensures
        match request_signature(secret@, timestamp@, method@, path@, body@) {
            None => r == Err::<String, SignatureError>(SignatureError::InvalidSecret),
            Some(sig) => r matches Ok(s) && s@ == sig,
        },
{
    let key = match url_safe_decode(secret) {
        Some(k) => k,
        None => return Err(SignatureError::InvalidSecret),
    };
    let b = chars_of(body);
    let mut normalized: Vec<char> = Vec::new();
    let mut i: usize = 0;
    while i < b.len()
        invariant
            0 <= i <= b@.len(),
            normalized@ == single_to_double_quotes(b@.take(i as int)),
        decreases b@.len() - i,
    {
        let c = b[i];
        normalized.push(if c == '\'' { '"' } else { c });
        assert(single_to_double_quotes(b@.take(i as int + 1)) =~= normalized@);
        i = i + 1;
    }
    assert(b@.take(b@.len() as int) =~= b@);
    let mut message = chars_of(timestamp);
    push_str(&mut message, method);
    push_str(&mut message, path);
    push_all(&mut message, &normalized);
    let text = string_of(&message);
    assert(text@ =~= signed_message(timestamp@, method@, path@, body@));
    let bytes = text.as_str().as_bytes();
    let tag = match hmac_sha256_tag(key.as_slice(), bytes) {
        Some(t) => t,
        None => return Err(SignatureError::InvalidKey),
    };
    Ok(url_safe_encode(tag.as_slice()))
}

// ───────────────────────── market tokens ─────────────────────────

/// The list of strings that `serde_json` reads from `s`; `None` when it
/// reports an error.
pub uninterp spec fn json_string_list(s: Seq<char>) -> Option<Seq<Seq<char>>>;

/// `serde_json::from_str::<Vec<String>>`: the contract names its result.
#[verifier::external_body]
fn parse_json_string_list(s: &str) -> (r: Option<Vec<String>>)
    ensures
        match r {
            Some(v) => json_string_list(s@) == Some(v.deep_view()),
            None => json_string_list(s@) is None,
        },
{
    serde_json::from_str::<Vec<String>>(s).ok()
}

/// The index of the first entry of `list` equal to `word` up to ASCII case.
pub open spec fn first_matching(list: Seq<Seq<char>>, word: Seq<char>) -> Option<int> {
    if exists|i: int| 0 <= i < list.len() && eq_ignore_ascii_case(#[trigger] list[i], word) {
        Some(
            choose|i: int|
                0 <= i < list.len() && eq_ignore_ascii_case(list[i], word) && forall|j: int|
                    0 <= j < i ==> !eq_ignore_ascii_case(#[trigger] list[j], word),
        )
    } else {
        None
    }
}

/// The first matching entry is one equal to `word` up to ASCII case with
/// none such before it; there is none exactly when no entry matches.
pub proof fn law_first_matching(list: Seq<Seq<char>>, word: Seq<char>)
    ensures
        first_matching(list, word) matches Some(i) ==> 0 <= i < list.len() && eq_ignore_ascii_case(
            list[i],
            word,
        ) && forall|j: int| 0 <= j < i ==> !eq_ignore_ascii_case(#[trigger] list[j], word),
        first_matching(list, word) is None <==> forall|j: int|
            0 <= j < list.len() ==> !eq_ignore_ascii_case(#[trigger] list[j], word),
{
    if exists|i: int| 0 <= i < list.len() && eq_ignore_ascii_case(#[trigger] list[i], word) {
        lemma_first_match_exists(list, word);
    }
}

proof fn lemma_first_match_exists(list: Seq<Seq<char>>, word: Seq<char>)
    requires
        exists|i: int| 0 <= i < list.len() && eq_ignore_ascii_case(#[trigger] list[i], word),
    ensures
        exists|i: int|
            0 <= i < list.len() && eq_ignore_ascii_case(list[i], word) && forall|j: int|
                0 <= j < i ==> !eq_ignore_ascii_case(#[trigger] list[j], word),
    decreases list.len(),
{
    if eq_ignore_ascii_case(list[0], word) {
        assert(forall|j: int| 0 <= j < 0 ==> !eq_ignore_ascii_case(#[trigger] list[j], word));
    } else {
        let t = list.drop_first();
        let k = choose|i: int| 0 <= i < list.len() && eq_ignore_ascii_case(#[trigger] list[i], word);
        assert(eq_ignore_ascii_case(t[k - 1], word));
        lemma_first_match_exists(t, word);
        let w = choose|w: int|
            0 <= w < t.len() && eq_ignore_ascii_case(t[w], word) && forall|j: int|
                0 <= j < w ==> !eq_ignore_ascii_case(#[trigger] t[j], word);
        assert(list[w + 1] == t[w]);
        assert forall|j: int| 0 <= j < w + 1 implies !eq_ignore_ascii_case(#[trigger] list[j], word) by {
            if j > 0 {
                assert(list[j] == t[j - 1]);
            }
        }
    }
}

/// Why the Up and Down tokens of a market could not be found.
#[derive(Debug, PartialEq, Eq)]
pub enum MarketError {
    /// `outcomes` is not a JSON list of strings.
    OutcomesParse,
    /// `clobTokenIds` is not a JSON list of strings.
    TokenIdsParse,
    /// No outcome is `Up`.
    MissingUp,
    /// No outcome is `Down`.
    MissingDown,
    /// `clobTokenIds` has no entry at the index of `Up`.
    MissingUpToken,
    /// `clobTokenIds` has no entry at the index of `Down`.
    MissingDownToken,
}

fn first_matching_exec(list: &Vec<String>, word: &str) -> (r: Option<usize>)
    ensures
        match r {
            Some(i) => first_matching(list.deep_view(), word@) == Some(i as int),
            None => first_matching(list.deep_view(), word@) is None,
        },
{
    let w = chars_of(word);
    let ghost lv = list.deep_view();
    let mut i: usize = 0;
    while i < list.len()
        invariant
            0 <= i <= list@.len(),
            lv == list.deep_view(),
            w@ == word@,
            forall|j: int| 0 <= j < i ==> !eq_ignore_ascii_case(#[trigger] lv[j], word@),
        decreases list@.len() - i,
    {
        let e = chars_of(list[i].as_str());
        if chars_eq_ignore_ascii_case(&e, &w) {
            proof {
                assert(eq_ignore_ascii_case(lv[i as int], word@));
                let c = choose|c: int|
                    0 <= c < lv.len() && eq_ignore_ascii_case(lv[c], word@) && forall|j: int|
                        0 <= j < c ==> !eq_ignore_ascii_case(#[trigger] lv[j], word@);
                if c < i {
                } else if c > i {
                    assert(!eq_ignore_ascii_case(lv[i as int], word@));
                }
            }
            return Some(i);
        }
        i = i + 1;
    }
    None
}

/// The tokens (Up, Down) of a market from its `outcomes` and `clobTokenIds`
/// fields, each a JSON-encoded list of strings: the token at the index of
/// the first outcome that is `up`, and of the first that is `down`, in any
/// ASCII case.
pub open spec fn updown_tokens(outcomes_json: Seq<char>, token_ids_json: Seq<char>) -> Result<
    (Seq<char>, Seq<char>),
    MarketError,
> {
    match json_string_list(outcomes_json) {
        None => Err(MarketError::OutcomesParse),
        Some(outcomes) => match json_string_list(token_ids_json) {
            None => Err(MarketError::TokenIdsParse),
            Some(ids) => match first_matching(outcomes, "up"@) {
                None => Err(MarketError::MissingUp),
                Some(u) => match first_matching(outcomes, "down"@) {
                    None => Err(MarketError::MissingDown),
                    Some(d) => if u >= ids.len() {
                        Err(MarketError::MissingUpToken)
                    } else if d >= ids.len() {
                        Err(MarketError::MissingDownToken)
                    } else {
                        Ok((ids[u], ids[d]))
                    },
                },
            },
        },
    }
}

/// The tokens (Up, Down) of a market from its `outcomes` and
/// `clobTokenIds` fields.
pub fn select_updown_tokens(outcomes_json: &str, token_ids_json: &str) -> (r: Result<
    (String, String),
    MarketError,
>)
    ensures
        match updown_tokens(outcomes_json@, token_ids_json@) {
            Ok((u, d)) => r matches Ok((a, b)) && a@ == u && b@ == d,
            Err(e) => r == Err::<(String, String), MarketError>(e),
        },
{
    let outcomes = match parse_json_string_list(outcomes_json) {
        Some(v) => v,
        None => return Err(MarketError::OutcomesParse),
    };
    let ids = match parse_json_string_list(token_ids_json) {
        Some(v) => v,
        None => return Err(MarketError::TokenIdsParse),
    };
    let u = match first_matching_exec(&outcomes, "up") {
        Some(i) => i,
        None => return Err(MarketError::MissingUp),
    };
    let d = match first_matching_exec(&outcomes, "down") {
        Some(i) => i,
        None => return Err(MarketError::MissingDown),
    };
    if u >= ids.len() {
        return Err(MarketError::MissingUpToken);
    }
    if d >= ids.len() {
        return Err(MarketError::MissingDownToken);
    }
    let up = ids[u].clone();
    let down = ids[d].clone();
    assert(up@ == ids.deep_view()[u as int]);
    Ok((up, down))
}

// ───────────────────────── order status documents ─────────────────────────

/// A JSON document as `serde_json` reads it; numbers keep their text, and
/// an object keeps its members in order.
#[derive(Debug, PartialEq)]
pub enum JsonValue {
    Null,
    Bool(bool),
    Number(String),
    Str(String),
    Array(Vec<JsonValue>),
    Object(Vec<(String, JsonValue)>),
}

/// The value of the first of `members` named `key`.
pub open spec fn lookup(members: Seq<(String, JsonValue)>, key: Seq<char>) -> Option<JsonValue>
    decreases members.len(),
{
    if members.len() == 0 {
        None
    } else if members[0].0@ == key {
        Some(members[0].1)
    } else {
        lookup(members.drop_first(), key)
    }
}

/// The value of the first member named `key`, when `v` is an object that
/// has one.
pub open spec fn member(v: JsonValue, key: Seq<char>) -> Option<JsonValue> {
    match v {
        JsonValue::Object(m) => lookup(m@, key),
        _ => None,
    }
}

/// The part of a status answer that describes the order: its `order`
/// member, else the first element of a non-empty array, else the answer
/// itself.
pub open spec fn order_object(v: JsonValue) -> JsonValue {
    match member(v, "order"@) {
        Some(o) => o,
        None => match v {
            JsonValue::Array(a) => if a@.len() > 0 {
                a@[0]
            } else {
                v
            },
            _ => v,
        },
    }
}

/// The status of the order: the `status` member of the order, a string,
/// trimmed and not empty.
pub open spec fn order_status_of(v: JsonValue) -> Option<Seq<char>> {
    match member(order_object(v), "status"@) {
        Some(JsonValue::Str(s)) => if trim(s@).len() > 0 {
            Some(trim(s@))
        } else {
            None
        },
        _ => None,
    }
}

/// A status answer that names no status.
#[derive(Debug, PartialEq, Eq)]
pub enum OrderStatusError {
    MissingStatus,
}

/// The value of the first member named `key` of `v`.
pub fn json_member<'a>(v: &'a JsonValue, key: &str) -> (r: Option<&'a JsonValue>)
    ensures
        match r {
            Some(x) => member(*v, key@) == Some(*x),
            None => member(*v, key@) is None,
        },
{
    let k = chars_of(key);
    match v {
        JsonValue::Object(m) => {
            let mut i: usize = 0;
            assert(m@.skip(0) =~= m@);
            while i < m.len()
                invariant
                    0 <= i <= m@.len(),
                    k@ == key@,
                    *v == JsonValue::Object(*m),
                    lookup(m@, key@) == lookup(m@.skip(i as int), key@),
                decreases m@.len() - i,
            {
                let name = chars_of(m[i].0.as_str());
                assert(m@.skip(i as int)[0] == m@[i as int]);
                if chars_eq(&name, &k) {
                    return Some(&m[i].1);
                }
                assert(m@.skip(i as int).drop_first() =~= m@.skip(i as int + 1));
                i = i + 1;
            }
            None
        },
        _ => None,
    }
}

/// The part of a status answer that describes the order: its `order`
/// member, else the first element of a non-empty array, else the answer
/// itself.
pub fn order_details_value<'a>(doc: &'a JsonValue) -> (r: &'a JsonValue)
    ensures
        *r == order_object(*doc),
{
    match json_member(doc, "order") {
        Some(o) => o,
        None => match doc {
            JsonValue::Array(a) => if a.len() > 0 {
                &a[0]
            } else {
                doc
            },
            _ => doc,
        },
    }
}

/// The value of the member named by the first of `keys` that `v` has.
pub open spec fn first_member(v: JsonValue, keys: Seq<Seq<char>>) -> Option<JsonValue>
    decreases keys.len(),
{
    if keys.len() == 0 {
        None
    } else {
        match member(v, keys[0]) {
            Some(x) => Some(x),
            None => first_member(v, keys.drop_first()),
        }
    }
}

/// The value that a numeric field of an order is read from: the member
/// named by the first of `keys` (alternative spellings of the field) that
/// the order has.
pub fn numeric_field<'a>(v: &'a JsonValue, keys: &[&str]) -> (r: Option<&'a JsonValue>)
    ensures
        match first_member(*v, keys@.map_values(|k: &str| k@)) {
            Some(x) => r matches Some(y) && *y == x,
            None => r is None,
        },
{
    let ghost ks = keys@.map_values(|k: &str| k@);
    let mut i: usize = 0;
    assert(ks.skip(0) =~= ks);
    while i < keys.len()
        invariant
            0 <= i <= keys@.len(),
            ks == keys@.map_values(|k: &str| k@),
            first_member(*v, ks) == first_member(*v, ks.skip(i as int)),
        decreases keys@.len() - i,
    {
        assert(ks.skip(i as int)[0] == keys@[i as int]@);
        assert(ks.skip(i as int).drop_first() =~= ks.skip(i as int + 1));
        match json_member(v, keys[i]) {
            Some(x) => return Some(x),
            None => {},
        }
        i = i + 1;
    }
    None
}

/// The string held by the member `key` of `v`.
pub open spec fn str_member(v: JsonValue, key: Seq<char>) -> Option<Seq<char>> {
    match member(v, key) {
        Some(JsonValue::Str(s)) => Some(s@),
        _ => None,
    }
}

fn str_member_exec<'a>(v: &'a JsonValue, key: &str) -> (r: Option<&'a String>)
    ensures
        match str_member(*v, key@) {
            Some(s) => r matches Some(x) && x@ == s,
            None => r is None,
        },
{
    match json_member(v, key) {
        Some(JsonValue::Str(s)) => Some(s),
        _ => None,
    }
}

/// The strings held by the member `key` of the elements of `items`, in
/// order, skipping elements without one; with `asset` set, only elements
/// whose `asset_id` is that string count.
pub open spec fn member_strings(
    items: Seq<JsonValue>,
    key: Seq<char>,
    asset: Option<Seq<char>>,
) -> Seq<Seq<char>>
    decreases items.len(),
{
    if items.len() == 0 {
        Seq::empty()
    } else {
        let rest = member_strings(items.drop_last(), key, asset);
        let x = items.last();
        let kept = match asset {
            Some(t) => str_member(x, "asset_id"@) == Some(t),
            None => true,
        };
        if kept {
            match str_member(x, key) {
                Some(p) => rest.push(p),
                None => rest,
            }
        } else {
            rest
        }
    }
}

fn member_strings_exec(items: &Vec<JsonValue>, key: &str, asset: Option<&str>) -> (r: Vec<String>)
    ensures
        r.deep_view() == member_strings(
            items@,
            key@,
            match asset {
                Some(a) => Some(a@),
                None => None,
            },
        ),
{
    let ghost av = match asset {
        Some(a) => Some(a@),
        None => None,
    };
    let mut out: Vec<String> = Vec::new();
    let mut i: usize = 0;
    assert(items@.take(0) =~= Seq::<JsonValue>::empty());
    while i < items.len()
        invariant
            0 <= i <= items@.len(),
            av == match asset {
                Some(a) => Some(a@),
                None => None::<Seq<char>>,
            },
            out.deep_view() == member_strings(items@.take(i as int), key@, av),
        decreases items@.len() - i,
    {
        let ghost prev = out.deep_view();
        let x = &items[i];
        proof {
            let t = items@.take(i as int + 1);
            assert(t.drop_last() =~= items@.take(i as int));
            assert(t.last() == *x);
        }
        let kept = match asset {
            Some(a) => match str_member_exec(x, "asset_id") {
                Some(id) => crate::text::str_eq(id.as_str(), a),
                None => false,
            },
            None => true,
        };
        if kept {
            match str_member_exec(x, key) {
                Some(p) => {
                    out.push(p.clone());
                    assert(out.deep_view() =~= prev.push(p@));
                },
                None => {},
            }
        }
        i = i + 1;
    }
    assert(items@.take(items@.len() as int) =~= items@);
    out
}

/// The prices among which a message of the market channel gives the best
/// ask of `token`: for `best_bid_ask`, its `best_ask`; for `book`, the
/// `price` of each ask; for `price_change`, the `best_ask` of each change
/// of `token`. `None` when the message is of another kind or about another
/// token, or lacks the member that holds them.
pub open spec fn ws_best_ask_candidates(token: Seq<char>, v: JsonValue) -> Option<Seq<Seq<char>>> {
    match str_member(v, "event_type"@) {
        None => None,
        Some(ev) => if ev == "best_bid_ask"@ {
            if str_member(v, "asset_id"@) == Some(token) {
                match str_member(v, "best_ask"@) {
                    Some(p) => Some(seq![p]),
                    None => None,
                }
            } else {
                None
            }
        } else if ev == "book"@ {
            if str_member(v, "asset_id"@) == Some(token) {
                match member(v, "asks"@) {
                    Some(JsonValue::Array(levels)) => Some(member_strings(levels@, "price"@, None)),
                    _ => None,
                }
            } else {
                None
            }
        } else if ev == "price_change"@ {
            match member(v, "price_changes"@) {
                Some(JsonValue::Array(cs)) => Some(member_strings(cs@, "best_ask"@, Some(token))),
                _ => None,
            }
        } else {
            None
        },
    }
}

/// The prices among which a message of the market channel (read as a JSON
/// document) gives the best ask of `token_id`; the best ask is the lowest
/// of them that reads as a number.
pub fn parse_market_ws_best_ask_message(token_id: &str, doc: &JsonValue) -> (r: Option<Vec<String>>)
    ensures
        match ws_best_ask_candidates(token_id@, *doc) {
            Some(c) => r matches Some(v) && v.deep_view() == c,
            None => r is None,
        },
{
    let ev = match str_member_exec(doc, "event_type") {
        Some(e) => e,
        None => return None,
    };
    if crate::text::str_eq(ev.as_str(), "best_bid_ask") {
        let same = match str_member_exec(doc, "asset_id") {
            Some(a) => crate::text::str_eq(a.as_str(), token_id),
            None => false,
        };
        if !same {
            return None;
        }
        match str_member_exec(doc, "best_ask") {
            Some(p) => {
                let mut v: Vec<String> = Vec::new();
                v.push(p.clone());
                assert(v.deep_view() =~= seq![p@]);
                Some(v)
            },
            None => None,
        }
    } else if crate::text::str_eq(ev.as_str(), "book") {
        let same = match str_member_exec(doc, "asset_id") {
            Some(a) => crate::text::str_eq(a.as_str(), token_id),
            None => false,
        };
        if !same {
            return None;
        }
        match json_member(doc, "asks") {
            Some(JsonValue::Array(levels)) => Some(member_strings_exec(levels, "price", None)),
            _ => None,
        }
    } else if crate::text::str_eq(ev.as_str(), "price_change") {
        match json_member(doc, "price_changes") {
            Some(JsonValue::Array(cs)) => Some(member_strings_exec(cs, "best_ask", Some(token_id))),
            _ => None,
        }
    } else {
        None
    }
}

/// The status named in an answer to `GET /data/order/{id}` (the answer's
/// body read as a JSON document): the order is its `order` member, else
/// the first element of an array, else the answer itself; its `status`
/// must be a non-blank string, returned trimmed.
pub fn parse_order_status_body(doc: &JsonValue) -> (r: Result<String, OrderStatusError>)
    ensures
        match order_status_of(*doc) {
            Some(s) => r matches Ok(x) && x@ == s,
            None => r == Err::<String, OrderStatusError>(OrderStatusError::MissingStatus),
        },
{
    let order = order_details_value(doc);
    match json_member(order, "status") {
        Some(JsonValue::Str(s)) => {
            let t = crate::text::trimmed(s.as_str());
            if t.len() > 0 {
                Ok(string_of(&t))
            } else {
                Err(OrderStatusError::MissingStatus)
            }
        },
        _ => Err(OrderStatusError::MissingStatus),
    }
}

/// An open order as the exchange lists it, each field as text.
#[derive(Debug, PartialEq)]
pub struct OpenOrderSummary {
    pub id: String,
    pub status: String,
    pub asset_id: String,
    pub side: String,
    pub original_size: String,
    pub size_matched: String,
    pub price: String,
    pub outcome: String,
    pub order_type: String,
}

// ───────────────────────── cancel summaries ─────────────────────────

/// `a` comes before `b`, or equals it, in the order of `String`: the
/// lexicographic order of the characters' code points (which is the byte
/// order of their UTF-8 encoding).
pub open spec fn text_le(a: Seq<char>, b: Seq<char>) -> bool
    decreases a.len(),
{
    if a.len() == 0 {
        true
    } else if b.len() == 0 {
        false
    } else if a[0] != b[0] {
        (a[0] as int) < (b[0] as int)
    } else {
        text_le(a.drop_first(), b.drop_first())
    }
}

proof fn lemma_text_le_total(a: Seq<char>, b: Seq<char>)
    ensures
        text_le(a, b) || text_le(b, a),
    decreases a.len(),
{
    if a.len() > 0 && b.len() > 0 {
        if a[0] == b[0] {
            lemma_text_le_total(a.drop_first(), b.drop_first());
        } else {
            assert((a[0] as int) != (b[0] as int));
        }
    }
}

proof fn lemma_text_le_transitive(a: Seq<char>, b: Seq<char>, c: Seq<char>)
    requires
        text_le(a, b),
        text_le(b, c),
    ensures
        text_le(a, c),
    decreases a.len(),
{
    if a.len() > 0 && b.len() > 0 && c.len() > 0 && a[0] == b[0] && b[0] == c[0] {
        lemma_text_le_transitive(a.drop_first(), b.drop_first(), c.drop_first());
    }
}

fn text_le_exec(a: &Vec<char>, b: &Vec<char>) -> (r: bool)
    ensures
        r == text_le(a@, b@),
{
    let mut i: usize = 0;
    assert(a@.skip(0) =~= a@ && b@.skip(0) =~= b@);
    loop
        invariant
            0 <= i <= a@.len(),
            i <= b@.len(),
            text_le(a@, b@) == text_le(a@.skip(i as int), b@.skip(i as int)),
        decreases a@.len() - i,
    {
        if i == a.len() {
            return true;
        }
        if i == b.len() {
            return false;
        }
        let x = a[i];
        let y = b[i];
        if x != y {
            return x < y;
        }
        assert(a@.skip(i as int).drop_first() =~= a@.skip(i as int + 1));
        assert(b@.skip(i as int).drop_first() =~= b@.skip(i as int + 1));
        i = i + 1;
    }
}

/// The pairs are in the order of their first element.
pub open spec fn sorted_by_key(s: Seq<(Seq<char>, Seq<char>)>) -> bool {
    forall|i: int, j: int| 0 <= i < j < s.len() ==> text_le(#[trigger] s[i].0, #[trigger] s[j].0)
}

/// The pairs of `v` in the order of their first element.
fn sort_by_key(v: Vec<(String, String)>) -> (r: Vec<(String, String)>)
    ensures
        sorted_by_key(r.deep_view()),
        r.deep_view().to_multiset() == v.deep_view().to_multiset(),
{
    broadcast use vstd::seq_lib::to_multiset_insert;

    let ghost vv = v.deep_view();
    let mut rest = v;
    let mut out: Vec<(String, String)> = Vec::new();
    let ghost mut i: int = 0;
    proof {
        assert(vv.skip(0) =~= vv);
        assert(vv.take(0) =~= Seq::<(Seq<char>, Seq<char>)>::empty());
        assert(out.deep_view() =~= Seq::<(Seq<char>, Seq<char>)>::empty());
    }
    while rest.len() > 0
        invariant
            0 <= i <= vv.len(),
            rest.deep_view() == vv.skip(i),
            sorted_by_key(out.deep_view()),
            out.deep_view().to_multiset() == vv.take(i).to_multiset(),
        decreases rest@.len(),
    {
        let ghost rv = rest.deep_view();
        let ghost r0 = rest@;
        assert(rv.len() == rest@.len());
        let e = rest.remove(0);
        let ghost ev = e.deep_view();
        assert(ev == vv[i]) by {
            assert(rv[0] == vv.skip(i)[0]);
            assert(rv[0] == r0[0].deep_view());
        }
        assert(rest@ =~= r0.remove(0));
        assert(rest.deep_view() =~= rv.drop_first());
        assert(rest.deep_view() =~= vv.skip(i + 1));
        let ek = chars_of(e.0.as_str());
        let ghost ov = out.deep_view();
        let mut p: usize = 0;
        loop
            invariant
                0 <= p <= ov.len(),
                ov == out.deep_view(),
                ek@ == ev.0,
                forall|k: int| 0 <= k < p ==> text_le(#[trigger] ov[k].0, ev.0),
            ensures
                0 <= p <= ov.len(),
                forall|k: int| 0 <= k < p ==> text_le(#[trigger] ov[k].0, ev.0),
                p < ov.len() ==> !text_le(ov[p as int].0, ev.0),
            decreases ov.len() - p,
        {
            if p == out.len() {
                break;
            }
            let pk = chars_of(out[p].0.as_str());
            assert(pk@ == ov[p as int].0);
            if !text_le_exec(&pk, &ek) {
                break;
            }
            p = p + 1;
        }
        proof {
            if p < ov.len() {
                assert(!text_le(ov[p as int].0, ev.0));
                lemma_text_le_total(ov[p as int].0, ev.0);
            }
        }
        out.insert(p, e);
        proof {
            let nv = ov.insert(p as int, ev);
            assert(out.deep_view() =~= nv);
            assert forall|a: int, b: int| 0 <= a < b < nv.len() implies text_le(
                #[trigger] nv[a].0,
                #[trigger] nv[b].0,
            ) by {
                if b < p {
                    assert(nv[a] == ov[a] && nv[b] == ov[b]);
                } else if b == p {
                    assert(nv[a] == ov[a]);
                } else if a < p {
                    assert(nv[a] == ov[a] && nv[b] == ov[b - 1]);
                    assert(text_le(ov[p as int].0, ov[b - 1].0) || p == b - 1);
                    lemma_text_le_transitive(ov[a].0, ev.0, ov[p as int].0);
                    if p < b - 1 {
                        lemma_text_le_transitive(ov[a].0, ov[p as int].0, ov[b - 1].0);
                    }
                } else if a == p {
                    assert(nv[b] == ov[b - 1]);
                    if p < b - 1 {
                        assert(text_le(ov[p as int].0, ov[b - 1].0));
                        lemma_text_le_transitive(ev.0, ov[p as int].0, ov[b - 1].0);
                    }
                } else {
                    assert(nv[a] == ov[a - 1] && nv[b] == ov[b - 1]);
                }
            }
            vstd::seq_lib::to_multiset_insert(ov, p as int, ev);
            assert(out.deep_view().to_multiset() == ov.to_multiset().insert(ev));
            assert(vv.take(i + 1) =~= vv.take(i).push(vv[i]));
            vstd::seq_lib::to_multiset_build(vv.take(i), vv[i]);
            assert(vv.take(i + 1).to_multiset() == vv.take(i).to_multiset().insert(vv[i]));
            i = i + 1;
        }
    }
    proof {
        assert(vv.take(vv.len() as int) =~= vv) by {
            assert(vv.skip(i).len() == 0);
        }
    }
    out
}

/// The answer to a cancel request: the orders cancelled, and those not
/// cancelled with the reason, sorted by order id.
#[derive(Debug, PartialEq, Eq)]
pub struct CancelOrderSummary {
    pub canceled: Vec<String>,
    pub not_canceled: Vec<(String, String)>,
}

impl CancelOrderSummary {
    /// The summary of a cancel request: `not_canceled` is sorted by order
    /// id.
    pub fn new(canceled: Vec<String>, not_canceled: Vec<(String, String)>) -> (r:
        CancelOrderSummary)
        ensures
            r.canceled.deep_view() == canceled.deep_view(),
            sorted_by_key(r.not_canceled.deep_view()),
            r.not_canceled.deep_view().to_multiset() == not_canceled.deep_view().to_multiset(),
    {
        CancelOrderSummary { canceled, not_canceled: sort_by_key(not_canceled) }
    }
}

} // verus!
