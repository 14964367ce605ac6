//! Rules used by the operator programs: the reconciliation of the journal
//! with the official market results, and the live order checks.
use vstd::prelude::*;
use crate::logger::{column_index, csv_error_message, csv_table, find_column, read_csv_table};
use crate::strategy::{prediction_label, Prediction};
use crate::tracker::signal_key;
use crate::text::{
    chars_eq, chars_eq_ignore_ascii_case, chars_of, contains_chars, contains_seq,
    eq_ignore_ascii_case, lower_ascii, lower_ascii_chars, owned, parse_i64_chars, parse_i64_spec,
    slice_chars, split_char, split_chars, string_of, trim, trim_chars, upper_ascii,
    upper_ascii_chars, lemma_lower_ascii_idempotent, lemma_lower_trim_is_trimmed,
    lemma_split_append_plain, lemma_split_append_sep, lemma_split_prefix,
};

verus! {

/// A status of an order still waiting in the book: `LIVE`, `OPEN`,
/// `ACTIVE` or `UNMATCHED`, in any ASCII case.
pub open spec fn is_open(s: Seq<char>) -> bool {
    let u = upper_ascii(s);
    u == "LIVE"@ || u == "OPEN"@ || u == "ACTIVE"@ || u == "UNMATCHED"@
}

fn upper_is(s: &Vec<char>, word: &str) -> (r: bool)
    ensures
        r == (s@ == word@),
{
    chars_eq(s, &chars_of(word))
}

/// Whether an order with this status is still waiting in the book.
pub fn is_open_status(status: &str) -> (r: bool)
    ensures
        r == is_open(status@),
{
    let u = upper_ascii_chars(&chars_of(status));
    upper_is(&u, "LIVE") || upper_is(&u, "OPEN") || upper_is(&u, "ACTIVE") || upper_is(
        &u,
        "UNMATCHED",
    )
}

/// The length in milliseconds of an interval written in minutes (`5m`):
/// `None` without the `m` or with a bad number.
pub open spec fn minutes_interval_ms(s: Seq<char>) -> Option<int> {
    if s.len() > 0 && s.last() == 'm' {
        match parse_i64_spec(s.drop_last()) {
            Some(v) => Some(v * 60_000),
            None => None,
        }
    } else {
        None
    }
}

/// The length in milliseconds of an interval written in minutes (`5m`).
/// The product must fit in `i64`.
pub fn interval_ms(interval: &str) -> (r: Option<i64>)
    requires
        minutes_interval_ms(interval@) matches Some(ms) ==> i64::MIN <= ms <= i64::MAX,
    ensures
        match minutes_interval_ms(interval@) {
            Some(ms) => r == Some(ms as i64),
            None => r is None,
        },
{
    let v = chars_of(interval);
    if v.len() == 0 || v[v.len() - 1] != 'm' {
        return None;
    }
    let digits = slice_chars(&v, 0, v.len() - 1);
    assert(digits@ =~= interval@.drop_last());
    match parse_i64_chars(&digits) {
        Some(x) => Some(x * 60 * 1000),
        None => None,
    }
}

/// The opening instant of the next candle after `now_ms`, for candles of
/// `interval_ms` starting at the Unix epoch.
pub open spec fn next_candle_open(now_ms: int, interval_ms: int) -> int {
    (now_ms / interval_ms + 1) * interval_ms
}

/// The opening instant of the next candle after `now_ms` (a non-negative
/// instant, as the clock gives).
pub fn next_candle_open_ms(now_ms: i64, interval_ms: i64) -> (r: Option<i64>)
    requires
        now_ms >= 0,
        interval_ms > 0,
    ensures
        match r {
            Some(t) => t == next_candle_open(now_ms as int, interval_ms as int),
            None => next_candle_open(now_ms as int, interval_ms as int) > i64::MAX,
        },
{
    let q = now_ms / interval_ms;
    proof {
        assert(0 <= q) by (nonlinear_arith)
            requires
                now_ms >= 0,
                interval_ms > 0,
                q == now_ms / interval_ms,
        ;
        assert(q <= now_ms) by (nonlinear_arith)
            requires
                now_ms >= 0,
                interval_ms > 0,
                q == now_ms / interval_ms,
        ;
    }
    if q == i64::MAX {
        assert((q + 1) * interval_ms > i64::MAX) by (nonlinear_arith)
            requires
                q == i64::MAX,
                interval_ms > 0,
        ;
        return None;
    }
    let n = q + 1;
    n.checked_mul(interval_ms)
}

/// The slug named in a signal key (`strategy:slug:DIRECTION`): its second
/// field, trimmed and ASCII-lowercased, when it is a BTC or ETH up/down
/// market.
pub open spec fn updown_slug_of(signal_key: Seq<char>) -> Option<Seq<char>> {
    let parts = split_char(signal_key, ':');
    if parts.len() < 2 {
        None
    } else {
        let slug = lower_ascii(trim(parts[1]));
        if contains_seq(slug, "btc-updown-"@) || contains_seq(slug, "eth-updown-"@) {
            Some(slug)
        } else {
            None
        }
    }
}

/// The slug named in a signal key, when it is a BTC or ETH up/down market.
pub fn extract_updown_slug(signal_key: &str) -> (r: Option<String>)
    ensures
        match updown_slug_of(signal_key@) {
            Some(s) => r matches Some(x) && x@ == s,
            None => r is None,
        },
{
    let parts = split_chars(&chars_of(signal_key), ':');
    if parts.len() < 2 {
        return None;
    }
    let slug = lower_ascii_chars(&trim_chars(&parts[1]));
    if contains_chars(&slug, &chars_of("btc-updown-")) || contains_chars(
        &slug,
        &chars_of("eth-updown-"),
    ) {
        Some(string_of(&slug))
    } else {
        None
    }
}

/// The official outcome of a trade: `WIN` when the winning outcome of the
/// market is the predicted direction (ASCII case ignored), else `LOSS`.
pub open spec fn official_outcome_of(winner: Seq<char>, prediction: Seq<char>) -> Seq<char> {
    if eq_ignore_ascii_case(winner, prediction) {
        "WIN"@
    } else {
        "LOSS"@
    }
}

/// The official outcome of a trade.
pub fn official_outcome(winner: &str, prediction: &str) -> (r: String)
    ensures
        r@ == official_outcome_of(winner@, prediction@),
{
    if chars_eq_ignore_ascii_case(&chars_of(winner), &chars_of(prediction)) {
        owned("WIN")
    } else {
        owned("LOSS")
    }
}

/// Whether the outcome in the journal agrees with the official one:
/// `MATCH` or `MISMATCH`.
pub fn reconciliation_status(official: &str, journal: &str) -> (r: String)
    ensures
        r@ == (if official@ == journal@ {
            "MATCH"@
        } else {
            "MISMATCH"@
        }),
{
    if chars_eq(&chars_of(official), &chars_of(journal)) {
        owned("MATCH")
    } else {
        owned("MISMATCH")
    }
}

// ───────────────────────── reconciliation of the journal ─────────────────────────

/// A trade of the journal as the reconciliation reads it.
#[derive(Debug)]
pub struct TradeRow {
    pub trade_id: String,
    pub signal_key: String,
    /// Upper case.
    pub prediction: String,
    /// Upper case.
    pub outcome: String,
}

/// Why the journal could not be read for the reconciliation.
#[derive(Debug, PartialEq, Eq)]
pub enum ReconcileError {
    /// The `csv` crate reported an error, with its message.
    Csv(String),
    /// The journal has no column of this name.
    MissingColumn(String),
}

/// Field `i` of `row`, trimmed; empty when the row is too short.
pub open spec fn row_field(row: Seq<Seq<char>>, i: int) -> Seq<char> {
    if 0 <= i < row.len() {
        trim(row[i])
    } else {
        Seq::empty()
    }
}

/// The trade read from a record, the columns of its four fields given.
pub open spec fn trade_row_of(row: Seq<Seq<char>>, id: int, key: int, pred: int, out: int) -> (
    Seq<char>,
    Seq<char>,
    Seq<char>,
    Seq<char>,
) {
    (row_field(row, id), row_field(row, key), upper_ascii(row_field(row, pred)), upper_ascii(
        row_field(row, out),
    ))
}

/// The view of a trade row: (trade id, signal key, prediction, outcome).
pub open spec fn trade_row_view(t: TradeRow) -> (Seq<char>, Seq<char>, Seq<char>, Seq<char>) {
    (t.trade_id@, t.signal_key@, t.prediction@, t.outcome@)
}

/// The first of the columns `trade_id`, `signal_key`, `prediction` and
/// `outcome` that `headers` lacks.
pub open spec fn missing_trade_column(headers: Seq<Seq<char>>) -> Option<Seq<char>> {
    if column_index(headers, "trade_id"@) is None {
        Some("trade_id"@)
    } else if column_index(headers, "signal_key"@) is None {
        Some("signal_key"@)
    } else if column_index(headers, "prediction"@) is None {
        Some("prediction"@)
    } else if column_index(headers, "outcome"@) is None {
        Some("outcome"@)
    } else {
        None
    }
}

fn required_col(headers: &Vec<String>, name: &str) -> (r: Result<usize, ReconcileError>)
    ensures
        match column_index(headers.deep_view(), name@) {
            Some(i) => r matches Ok(x) && x as int == i && i < headers@.len(),
            None => r matches Err(ReconcileError::MissingColumn(c)) && c@ == name@,
        },
{
    match find_column(headers, name) {
        Some(i) => Ok(i),
        None => Err(ReconcileError::MissingColumn(owned(name))),
    }
}

fn field(row: &Vec<String>, i: usize) -> (r: String)
    ensures
        r@ == row_field(row.deep_view(), i as int),
{
    if i < row.len() {
        assert(row.deep_view()[i as int] == row@[i as int]@);
        string_of(&trim_chars(&chars_of(row[i].as_str())))
    } else {
        String::new()
    }
}

fn trade_columns(headers: &Vec<String>) -> (r: Result<(usize, usize, usize, usize), ReconcileError>)
    ensures
        match missing_trade_column(headers.deep_view()) {
            Some(c) => r matches Err(ReconcileError::MissingColumn(x)) && x@ == c,
            None => r matches Ok((a, b, p, o)) && column_index(headers.deep_view(), "trade_id"@)
                == Some(a as int) && column_index(headers.deep_view(), "signal_key"@) == Some(
                b as int,
            ) && column_index(headers.deep_view(), "prediction"@) == Some(p as int)
                && column_index(headers.deep_view(), "outcome"@) == Some(o as int),
        },
{
    let id = match required_col(headers, "trade_id") {
        Ok(i) => i,
        Err(e) => return Err(e),
    };
    let key = match required_col(headers, "signal_key") {
        Ok(i) => i,
        Err(e) => return Err(e),
    };
    let pred = match required_col(headers, "prediction") {
        Ok(i) => i,
        Err(e) => return Err(e),
    };
    let out = match required_col(headers, "outcome") {
        Ok(i) => i,
        Err(e) => return Err(e),
    };
    Ok((id, key, pred, out))
}

fn trade_row(rec: &Vec<String>, id: usize, key: usize, pred: usize, out: usize) -> (r: TradeRow)
    ensures
        trade_row_view(r) == trade_row_of(
            rec.deep_view(),
            id as int,
            key as int,
            pred as int,
            out as int,
        ),
{
    let prediction = string_of(&upper_ascii_chars(&chars_of(field(rec, pred).as_str())));
    let outcome = string_of(&upper_ascii_chars(&chars_of(field(rec, out).as_str())));
    TradeRow { trade_id: field(rec, id), signal_key: field(rec, key), prediction, outcome }
}

/// The trades of the journal's text, for the reconciliation: each record's
/// trade id and signal key, and its prediction and outcome in upper case,
/// all trimmed.
pub fn read_trades(content: &str) -> (r: Result<Vec<TradeRow>, ReconcileError>)
    ensures
        csv_table(content@) is None ==> r matches Err(ReconcileError::Csv(_)),
        csv_table(content@) matches Some(t) ==> match missing_trade_column(t.0) {
            Some(c) => r matches Err(ReconcileError::MissingColumn(x)) && x@ == c,
            None => r matches Ok(rows) && rows@.len() == t.1.len() && forall|k: int|
                0 <= k < t.1.len() ==> trade_row_view(#[trigger] rows@[k]) == trade_row_of(
                    t.1[k],
                    column_index(t.0, "trade_id"@)->0,
                    column_index(t.0, "signal_key"@)->0,
                    column_index(t.0, "prediction"@)->0,
                    column_index(t.0, "outcome"@)->0,
                ),
        },
{
    let (headers, records) = match read_csv_table(content) {
        Ok(t) => t,
        Err(e) => return Err(ReconcileError::Csv(csv_error_message(&e))),
    };
    let ghost hv = headers.deep_view();
    let ghost rv = records.deep_view();
    let (id, key, pred, out) = match trade_columns(&headers) {
        Ok(c) => c,
        Err(e) => return Err(e),
    };
    let mut rows: Vec<TradeRow> = Vec::new();
    let mut k: usize = 0;
    while k < records.len()
        invariant
            0 <= k <= rv.len(),
            rv == records.deep_view(),
            rows@.len() == k,
            forall|j: int|
                0 <= j < k ==> trade_row_view(#[trigger] rows@[j]) == trade_row_of(
                    rv[j],
                    id as int,
                    key as int,
                    pred as int,
                    out as int,
                ),
        decreases rv.len() - k,
    {
        let rec = &records[k];
        assert(rec.deep_view() == rv[k as int]);
        let row = trade_row(rec, id, key, pred, out);
        rows.push(row);
        assert(trade_row_view(rows@[k as int]) == trade_row_of(
            rv[k as int],
            id as int,
            key as int,
            pred as int,
            out as int,
        ));
        k = k + 1;
    }
    Ok(rows)
}

/// The columns of the reconciliation report, in order.
pub fn report_header() -> (r: Vec<String>)
    ensures
        r.deep_view() == seq![
            "checked_at_utc"@,
            "trade_id"@,
            "signal_key"@,
            "slug"@,
            "prediction"@,
            "binance_outcome"@,
            "official_winner"@,
            "official_outcome"@,
            "reconciliation"@,
            "note"@,
        ],
{
    let mut r: Vec<String> = Vec::new();
    r.push(owned("checked_at_utc"));
    r.push(owned("trade_id"));
    r.push(owned("signal_key"));
    r.push(owned("slug"));
    r.push(owned("prediction"));
    r.push(owned("binance_outcome"));
    r.push(owned("official_winner"));
    r.push(owned("official_outcome"));
    r.push(owned("reconciliation"));
    r.push(owned("note"));
    assert(r.deep_view() =~= seq![
        "checked_at_utc"@,
        "trade_id"@,
        "signal_key"@,
        "slug"@,
        "prediction"@,
        "binance_outcome"@,
        "official_winner"@,
        "official_outcome"@,
        "reconciliation"@,
        "note"@,
    ]);
    r
}

/// The winning outcome of a settled market, from its tokens (outcome,
/// winner): the outcome of the first winning token, in upper case.
pub open spec fn winner_of(tokens: Seq<(Seq<char>, bool)>) -> Option<Seq<char>>
    decreases tokens.len(),
{
    if tokens.len() == 0 {
        None
    } else if tokens[0].1 {
        Some(upper_ascii(tokens[0].0))
    } else {
        winner_of(tokens.drop_first())
    }
}

/// The winning outcome of a settled market, from its tokens (outcome,
/// winner).
pub fn official_winner(tokens: &Vec<(String, bool)>) -> (r: Option<String>)
    ensures
        match winner_of(tokens.deep_view()) {
            Some(w) => r matches Some(x) && x@ == w,
            None => r is None,
        },
{
    let ghost tv = tokens.deep_view();
    let mut i: usize = 0;
    assert(tv.skip(0) =~= tv);
    while i < tokens.len()
        invariant
            0 <= i <= tv.len(),
            tv == tokens.deep_view(),
            winner_of(tv) == winner_of(tv.skip(i as int)),
        decreases tv.len() - i,
    {
        assert(tv.skip(i as int)[0] == tv[i as int]);
        assert(tv[i as int] == (tokens@[i as int].0@, tokens@[i as int].1));
        if tokens[i].1 {
            return Some(string_of(&upper_ascii_chars(&chars_of(tokens[i].0.as_str()))));
        }
        assert(tv.skip(i as int).drop_first() =~= tv.skip(i as int + 1));
        i = i + 1;
    }
    None
}

/// What looking up the official result of a market gave.
#[derive(Debug)]
pub enum WinnerLookup {
    /// The market is settled and this outcome won.
    Winner(String),
    /// The market is not closed, or names no winner.
    NotSettled,
    /// The lookup failed, with this message.
    Failed(String),
}

/// The report line of a trade (fields in the order of `report_header`).
pub open spec fn report_row(
    checked_at: Seq<char>,
    t: (Seq<char>, Seq<char>, Seq<char>, Seq<char>),
    slug: Seq<char>,
    lookup: WinnerLookup,
) -> Seq<Seq<char>> {
    let (id, key, pred, out) = t;
    match lookup {
        WinnerLookup::Winner(w) => {
            let official = official_outcome_of(w@, pred);
            seq![
                checked_at,
                id,
                key,
                slug,
                pred,
                out,
                w@,
                official,
                if official == out {
                    "MATCH"@
                } else {
                    "MISMATCH"@
                },
                Seq::empty(),
            ]
        },
        WinnerLookup::NotSettled => seq![
            checked_at,
            id,
            key,
            slug,
            pred,
            out,
            Seq::empty(),
            Seq::empty(),
            "PENDING"@,
            "market not closed or winner unavailable"@,
        ],
        WinnerLookup::Failed(e) => seq![
            checked_at,
            id,
            key,
            slug,
            pred,
            out,
            Seq::empty(),
            Seq::empty(),
            "ERROR"@,
            e@,
        ],
    }
}

/// The report line of `trade`, whose market is `slug`, checked at
/// `checked_at`.
pub fn reconciliation_row(
    checked_at: &str,
    trade: &TradeRow,
    slug: &str,
    lookup: &WinnerLookup,
) -> (r: Vec<String>)
    ensures
        r.deep_view() == report_row(checked_at@, trade_row_view(*trade), slug@, *lookup),
{
    let mut r: Vec<String> = Vec::new();
    r.push(owned(checked_at));
    r.push(trade.trade_id.clone());
    r.push(trade.signal_key.clone());
    r.push(owned(slug));
    r.push(trade.prediction.clone());
    r.push(trade.outcome.clone());
    match lookup {
        WinnerLookup::Winner(w) => {
            let official = official_outcome(w.as_str(), trade.prediction.as_str());
            let rec = reconciliation_status(official.as_str(), trade.outcome.as_str());
            r.push(w.clone());
            r.push(official);
            r.push(rec);
            r.push(String::new());
        },
        WinnerLookup::NotSettled => {
            r.push(String::new());
            r.push(String::new());
            r.push(owned("PENDING"));
            r.push(owned("market not closed or winner unavailable"));
        },
        WinnerLookup::Failed(e) => {
            r.push(String::new());
            r.push(String::new());
            r.push(owned("ERROR"));
            r.push(e.clone());
        },
    }
    assert(r.deep_view() =~= report_row(checked_at@, trade_row_view(*trade), slug@, *lookup));
    r
}

/// The number of report lines whose `reconciliation` field is `status`.
pub open spec fn count_status(rows: Seq<Seq<Seq<char>>>, status: Seq<char>) -> nat
    decreases rows.len(),
{
    if rows.len() == 0 {
        0
    } else {
        count_status(rows.drop_last(), status) + if rows.last().len() > 8 && rows.last()[8]
            == status {
            1nat
        } else {
            0nat
        }
    }
}

/// The number of report lines whose `reconciliation` field is `status`.
pub fn count_with_status(rows: &Vec<Vec<String>>, status: &str) -> (n: usize)
    ensures
        n == count_status(rows.deep_view(), status@),
{
    let ghost rv = rows.deep_view();
    let st = chars_of(status);
    let mut n: usize = 0;
    let mut i: usize = 0;
    assert(rv.take(0) =~= Seq::<Seq<Seq<char>>>::empty());
    while i < rows.len()
        invariant
            0 <= i <= rv.len(),
            rv == rows.deep_view(),
            st@ == status@,
            n == count_status(rv.take(i as int), status@),
            n <= i,
        decreases rv.len() - i,
    {
        proof {
            let t = rv.take(i as int + 1);
            assert(t.drop_last() =~= rv.take(i as int));
            assert(t.last() == rv[i as int]);
            assert(rv[i as int] == rows@[i as int].deep_view());
        }
        if rows[i].len() > 8 {
            assert(rv[i as int][8] == rows@[i as int]@[8]@);
            if chars_eq(&chars_of(rows[i][8].as_str()), &st) {
                n = n + 1;
            }
        }
        i = i + 1;
    }
    assert(rv.take(rv.len() as int) =~= rv);
    n
}

// ───────────────────────── live order checks ─────────────────────────

/// The direction named for a live test: `UP` or `DOWN`, trimmed, in any
/// ASCII case.
pub fn parse_live_test_side(s: &str) -> (r: Option<Prediction>)
    ensures
        r == (if upper_ascii(trim(s@)) == "UP"@ {
            Some(Prediction::Up)
        } else if upper_ascii(trim(s@)) == "DOWN"@ {
            Some(Prediction::Down)
        } else {
            None
        }),
{
    let u = upper_ascii_chars(&trim_chars(&chars_of(s)));
    if upper_is(&u, "UP") {
        Some(Prediction::Up)
    } else if upper_is(&u, "DOWN") {
        Some(Prediction::Down)
    } else {
        None
    }
}

/// What a live test concludes from the last status it read of its order.
#[derive(Debug, Clone, Copy, PartialEq, Eq, Structural)]
pub enum SmokeVerdict {
    /// The order was filled.
    Filled,
    /// The order is still waiting in the book: it is cancelled.
    StillOpen,
    /// The order ended otherwise.
    Terminal,
    /// No status could be read: the order is cancelled.
    Unavailable,
}

/// What a live test concludes from the last status read of its order.
pub fn smoke_verdict(status: Option<&str>) -> (r: SmokeVerdict)
    ensures
        match status {
            Some(s) => if crate::tracker::is_filled(s@) {
                r == SmokeVerdict::Filled
            } else if is_open(s@) {
                r == SmokeVerdict::StillOpen
            } else {
                r == SmokeVerdict::Terminal
            },
            None => r == SmokeVerdict::Unavailable,
        },
{
    match status {
        Some(s) => if crate::tracker::is_filled_status(s) {
            SmokeVerdict::Filled
        } else if is_open_status(s) {
            SmokeVerdict::StillOpen
        } else {
            SmokeVerdict::Terminal
        },
        None => SmokeVerdict::Unavailable,
    }
}

} // verus!

verus! {

/// The slug that a signal key is built from is the one read back from it:
/// for a strategy name and a slug without `:`, where the slug is a BTC or
/// ETH up/down market, the key's slug is the slug trimmed and
/// ASCII-lowercased.
pub proof fn law_signal_key_slug_round_trip(name: Seq<char>, slug: Seq<char>, p: Prediction)
    requires
        !name.contains(':'),
        !slug.contains(':'),
        contains_seq(lower_ascii(trim(slug)), "btc-updown-"@) || contains_seq(
            lower_ascii(trim(slug)),
            "eth-updown-"@,
        ),
    ensures
        updown_slug_of(signal_key(name, slug, p)) == Some(lower_ascii(trim(slug))),
{
    let a = lower_ascii(trim(name));
    let b = lower_ascii(trim(slug));
    let c = upper_ascii(prediction_label(p));
    reveal_strlit(":");
    lemma_lower_trim_is_trimmed(name);
    lemma_lower_trim_is_trimmed(slug);
    lemma_lower_ascii_idempotent(trim(slug));
    let e = Seq::<char>::empty();
    assert(e + a =~= a);
    lemma_split_append_plain(e, a, ':');
    assert(split_char(a, ':') =~= seq![a]);
    let s2 = a + ":"@;
    assert(s2 =~= a.push(':'));
    lemma_split_append_sep(a, ':');
    let s3 = s2 + b;
    lemma_split_append_plain(s2, b, ':');
    assert(split_char(s3, ':') =~= seq![a, b]);
    let s4 = s3 + ":"@;
    assert(s4 =~= s3.push(':'));
    lemma_split_append_sep(s3, ':');
    lemma_split_prefix(s4, c, ':');
    assert(signal_key(name, slug, p) == s4 + c);
    assert(split_char(s4 + c, ':')[1] == b);
}

/// The next candle opens on a multiple of the interval, after `now_ms` and
/// at most one interval later.
pub proof fn law_next_candle_open(now_ms: int, interval_ms: int)
    requires
        now_ms >= 0,
        interval_ms > 0,
    ensures
        now_ms < next_candle_open(now_ms, interval_ms) <= now_ms + interval_ms,
        next_candle_open(now_ms, interval_ms) % interval_ms == 0,
{
    let q = now_ms / interval_ms;
    let r = now_ms % interval_ms;
    assert(now_ms == q * interval_ms + r && 0 <= r < interval_ms) by (nonlinear_arith)
        requires
            interval_ms > 0,
            q == now_ms / interval_ms,
            r == now_ms % interval_ms,
    ;
    assert((q + 1) * interval_ms == q * interval_ms + interval_ms) by (nonlinear_arith);
    assert(((q + 1) * interval_ms) % interval_ms == 0) by (nonlinear_arith)
        requires
            interval_ms > 0,
    ;
}

/// The winner of a market is the outcome of its first winning token, in
/// upper case; a market with no winning token has none.
pub proof fn law_winner_is_first_winning_token(tokens: Seq<(Seq<char>, bool)>)
    ensures
        winner_of(tokens) is None <==> forall|k: int| 0 <= k < tokens.len() ==> !(#[trigger] tokens[k]).1,
        winner_of(tokens) is Some ==> exists|i: int|
            0 <= i < tokens.len() && (#[trigger] tokens[i]).1 && winner_of(tokens) == Some(
                upper_ascii(tokens[i].0),
            ) && forall|j: int| 0 <= j < i ==> !(#[trigger] tokens[j]).1,
    decreases tokens.len(),
{
    if tokens.len() > 0 {
        let t = tokens.drop_first();
        law_winner_is_first_winning_token(t);
        if tokens[0].1 {
            assert(forall|j: int| 0 <= j < 0 ==> !(#[trigger] tokens[j]).1);
        } else {
            assert forall|k: int| 0 <= k < t.len() implies (#[trigger] t[k]) == tokens[k + 1] by {}
            if winner_of(t) is Some {
                let i = choose|i: int|
                    0 <= i < t.len() && (#[trigger] t[i]).1 && winner_of(t) == Some(
                        upper_ascii(t[i].0),
                    ) && forall|j: int| 0 <= j < i ==> !(#[trigger] t[j]).1;
                assert(tokens[i + 1] == t[i]);
                assert forall|j: int| 0 <= j < i + 1 implies !(#[trigger] tokens[j]).1 by {
                    if j > 0 {
                        assert(tokens[j] == t[j - 1]);
                    }
                }
            } else {
                assert forall|k: int| 0 <= k < tokens.len() implies !(#[trigger] tokens[k]).1 by {
                    if k > 0 {
                        assert(tokens[k] == t[k - 1]);
                    }
                }
            }
        }
    }
}

} // verus!
