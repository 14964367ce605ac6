//! Settings of the bot that are read from text: the execution mode, the
//! trading days and hours to skip, the signature type and the number of
//! votes an ensemble needs. Reading the environment is the caller's part.
use vstd::prelude::*;
use crate::text::{
    chars_of, find_char, index_of_char, parse_unsigned, parse_unsigned_chars, slice_chars,
    split_char, split_chars, str_eq, string_of, to_lowercase, trim, trim_chars, trim_end_char,
    trim_end_char_chars, lowercase,
};

verus! {

/// How orders are sent.
#[derive(Debug, Clone, Copy, PartialEq, Eq, Structural)]
pub enum ExecutionMode {
    DryRun,
    Market,
    Limit,
}

/// The name of a mode in the trade journal.
pub open spec fn mode_label(m: ExecutionMode) -> Seq<char> {
    match m {
        ExecutionMode::DryRun => "DRY_RUN"@,
        ExecutionMode::Market => "MARKET"@,
        ExecutionMode::Limit => "LIMIT"@,
    }
}

impl ExecutionMode {
    /// The name of the mode in the trade journal.
    pub fn as_str(&self) -> (r: &'static str)
        ensures
            r@ == mode_label(*self),
    {
        match self {
            ExecutionMode::DryRun => "DRY_RUN",
            ExecutionMode::Market => "MARKET",
            ExecutionMode::Limit => "LIMIT",
        }
    }
}

/// A setting that cannot be used.
#[derive(Debug, PartialEq, Eq)]
pub enum ConfigError {
    /// `EXECUTION_MODE` names no mode.
    UnknownExecutionMode(String),
    /// `MARKET_ORDER_TYPE` names no order type.
    UnknownMarketOrderType(String),
    /// A mode that sends orders has no `POLYMARKET_PRIVATE_KEY`.
    MissingPrivateKey,
    /// `POLYMARKET_API_URL` is not an `http://` or `https://` address.
    InvalidClobUrl(String),
    /// A proxy or safe signature type has no `POLYMARKET_FUNDER`.
    MissingFunder,
}

/// How a market order is matched: fill-or-kill, or fill-and-kill (what
/// cannot be filled at once is cancelled).
#[derive(Debug, Clone, Copy, PartialEq, Eq, Structural)]
pub enum MarketOrderType {
    Fok,
    Fak,
}

/// The order type that `MARKET_ORDER_TYPE` names (`fok` or `fak`); `fok`
/// when it is absent.
pub open spec fn market_order_type_of(raw: Option<Seq<char>>) -> Option<MarketOrderType> {
    match raw {
        None => Some(MarketOrderType::Fok),
        Some(s) => if s == "fok"@ {
            Some(MarketOrderType::Fok)
        } else if s == "fak"@ {
            Some(MarketOrderType::Fak)
        } else {
            None
        },
    }
}

/// Reads `MARKET_ORDER_TYPE` (`None` when it is not set).
pub fn parse_market_order_type(raw: Option<&str>) -> (r: Result<MarketOrderType, ConfigError>)
    ensures
        match market_order_type_of(
            match raw {
                Some(s) => Some(s@),
                None => None,
            },
        ) {
            Some(t) => r == Ok::<MarketOrderType, ConfigError>(t),
            None => r matches Err(ConfigError::UnknownMarketOrderType(x)) && raw is Some && x@
                == raw->0@,
        },
{
    match raw {
        None => Ok(MarketOrderType::Fok),
        Some(s) => if str_eq(s, "fok") {
            Ok(MarketOrderType::Fok)
        } else if str_eq(s, "fak") {
            Ok(MarketOrderType::Fak)
        } else {
            Err(ConfigError::UnknownMarketOrderType(crate::text::owned(s)))
        },
    }
}

/// Whether `url` starts with `http://` or `https://`.
pub open spec fn is_http_url(url: Seq<char>) -> bool {
    crate::text::starts_with(url, "http://"@) || crate::text::starts_with(url, "https://"@)
}

/// The check of the settings that a mode sending orders needs, in this
/// order: a private key; a CLOB address in `http(s)://`; a funder for the
/// proxy (1) and safe (2) signature types. The dry run needs none.
pub open spec fn real_mode_check(
    mode: ExecutionMode,
    has_private_key: bool,
    clob_url: Seq<char>,
    signature_type: Option<u8>,
    has_funder: bool,
) -> Option<int> {
    if mode == ExecutionMode::DryRun {
        None
    } else if !has_private_key {
        Some(0)
    } else if !is_http_url(clob_url) {
        Some(1)
    } else if (signature_type == Some(1u8) || signature_type == Some(2u8)) && !has_funder {
        Some(2)
    } else {
        None
    }
}

/// Checks the settings that a mode sending orders needs.
pub fn validate_trading_settings(
    mode: ExecutionMode,
    has_private_key: bool,
    clob_url: &str,
    signature_type: Option<u8>,
    has_funder: bool,
) -> (r: Result<(), ConfigError>)
    ensures
        real_mode_check(mode, has_private_key, clob_url@, signature_type, has_funder) is None
            <==> r is Ok,
        real_mode_check(mode, has_private_key, clob_url@, signature_type, has_funder) == Some(
            0int,
        ) ==> r == Err::<(), ConfigError>(ConfigError::MissingPrivateKey),
        real_mode_check(mode, has_private_key, clob_url@, signature_type, has_funder) == Some(
            1int,
        ) ==> (r matches Err(ConfigError::InvalidClobUrl(u)) && u@ == clob_url@),
        real_mode_check(mode, has_private_key, clob_url@, signature_type, has_funder) == Some(
            2int,
        ) ==> r == Err::<(), ConfigError>(ConfigError::MissingFunder),
{
    if mode == ExecutionMode::DryRun {
        return Ok(());
    }
    if !has_private_key {
        return Err(ConfigError::MissingPrivateKey);
    }
    let u = chars_of(clob_url);
    let http = crate::text::occurs_at_exec(&u, &chars_of("http://"), 0);
    let https = crate::text::occurs_at_exec(&u, &chars_of("https://"), 0);
    if !http && !https {
        return Err(ConfigError::InvalidClobUrl(crate::text::owned(clob_url)));
    }
    let proxy = match signature_type {
        Some(t) => t == 1 || t == 2,
        None => false,
    };
    if proxy && !has_funder {
        return Err(ConfigError::MissingFunder);
    }
    Ok(())
}

/// The mode that `EXECUTION_MODE` names: `market`, `limit`, `dry-run` or
/// `dryrun`.
pub open spec fn execution_mode_of(raw: Seq<char>) -> Option<ExecutionMode> {
    if raw == "market"@ {
        Some(ExecutionMode::Market)
    } else if raw == "limit"@ {
        Some(ExecutionMode::Limit)
    } else if raw == "dry-run"@ || raw == "dryrun"@ {
        Some(ExecutionMode::DryRun)
    } else {
        None
    }
}

/// Reads `EXECUTION_MODE`.
pub fn parse_execution_mode(raw: &str) -> (r: Result<ExecutionMode, ConfigError>)
    ensures
        match execution_mode_of(raw@) {
            Some(m) => r == Ok::<ExecutionMode, ConfigError>(m),
            None => r matches Err(ConfigError::UnknownExecutionMode(s)) && s@ == raw@,
        },
{
    if str_eq(raw, "market") {
        Ok(ExecutionMode::Market)
    } else if str_eq(raw, "limit") {
        Ok(ExecutionMode::Limit)
    } else if str_eq(raw, "dry-run") || str_eq(raw, "dryrun") {
        Ok(ExecutionMode::DryRun)
    } else {
        Err(ConfigError::UnknownExecutionMode(crate::text::owned(raw)))
    }
}

/// The days of `pieces` trimmed and lowercased (`str::to_lowercase`),
/// without the empty ones.
pub open spec fn day_keys(pieces: Seq<Seq<char>>) -> Seq<Seq<char>>
    decreases pieces.len(),
{
    if pieces.len() == 0 {
        Seq::empty()
    } else {
        let rest = day_keys(pieces.drop_last());
        let d = lowercase(trim(pieces.last()));
        if d.len() > 0 {
            rest.push(d)
        } else {
            rest
        }
    }
}

/// Reads `EXCLUDED_DAYS`: comma-separated days, trimmed and lowercased,
/// empty entries skipped.
pub fn parse_excluded_days(raw: &str) -> (r: Vec<String>)
    ensures
        r.deep_view() == day_keys(split_char(raw@, ',')),
{
    let pieces = split_chars(&chars_of(raw), ',');
    let ghost pv = split_char(raw@, ',');
    let mut out: Vec<String> = Vec::new();
    let mut i: usize = 0;
    while i < pieces.len()
        invariant
            0 <= i <= pieces@.len(),
            pieces@.len() == pv.len(),
            forall|k: int| 0 <= k < pieces@.len() ==> #[trigger] pieces@[k]@ == pv[k],
            out.deep_view() == day_keys(pv.take(i as int)),
        decreases pieces@.len() - i,
    {
        let t = string_of(&trim_chars(&pieces[i]));
        let d = to_lowercase(t.as_str());
        assert(pv.take(i as int + 1).drop_last() =~= pv.take(i as int));
        assert(pv.take(i as int + 1).last() == pv[i as int]);
        if !d.as_str().is_empty() {
            let ghost before = out.deep_view();
            out.push(d);
            assert(out.deep_view() =~= before.push(lowercase(trim(pv[i as int]))));
        } else {
            assert(d@.len() == 0);
        }
        i = i + 1;
    }
    assert(pv.take(pv.len() as int) =~= pv);
    out
}

/// An hour bound: trimmed, trailing `h` removed, a `u32`.
pub open spec fn hour_of(s: Seq<char>) -> Option<nat> {
    parse_unsigned(trim_end_char(trim(s), 'h'), u32::MAX as nat)
}

/// The range `start-end` that a piece of `EXCLUDED_HOURS` writes, kept when
/// `start < end <= 24`.
pub open spec fn hour_range(piece: Seq<char>) -> Option<(u32, u32)> {
    let r = trim(piece);
    if r.len() == 0 {
        None
    } else {
        match index_of_char(r, '-') {
            None => None,
            Some(i) => {
                let a = hour_of(r.take(i));
                let b = hour_of(r.skip(i + 1));
                if a is Some && b is Some && a->0 < b->0 && b->0 <= 24 {
                    Some((a->0 as u32, b->0 as u32))
                } else {
                    None
                }
            },
        }
    }
}

/// The ranges that the pieces write, in order.
pub open spec fn hour_ranges(pieces: Seq<Seq<char>>) -> Seq<(u32, u32)>
    decreases pieces.len(),
{
    if pieces.len() == 0 {
        Seq::empty()
    } else {
        let rest = hour_ranges(pieces.drop_last());
        match hour_range(pieces.last()) {
            Some(h) => rest.push(h),
            None => rest,
        }
    }
}

fn parse_hour(v: &Vec<char>) -> (r: Option<u32>)
    ensures
        match r {
            Some(x) => hour_of(v@) == Some(x as nat),
            None => hour_of(v@) is None,
        },
{
    let t = trim_end_char_chars(&trim_chars(v), 'h');
    match parse_unsigned_chars(&t, 0xffff_ffffu64) {
        Some(x) => Some(x as u32),
        None => None,
    }
}

/// The range written by one piece of `EXCLUDED_HOURS`.
#[verifier::rlimit(40)]
pub fn parse_hour_range(piece: &Vec<char>) -> (r: Option<(u32, u32)>)
    ensures
        r == hour_range(piece@),
{
    let r = trim_chars(piece);
    if r.len() == 0 {
        return None;
    }
    let i = match find_char(&r, '-') {
        Some(i) => i,
        None => return None,
    };
    let start = match parse_hour(&slice_chars(&r, 0, i)) {
        Some(s) => s,
        None => {
            assert(r@.subrange(0, i as int) =~= r@.take(i as int));
            return None;
        },
    };
    let end = match parse_hour(&slice_chars(&r, i + 1, r.len())) {
        Some(e) => e,
        None => {
            assert(r@.subrange(i + 1, r@.len() as int) =~= r@.skip(i + 1));
            return None;
        },
    };
    assert(r@.subrange(0, i as int) =~= r@.take(i as int));
    assert(r@.subrange(i + 1, r@.len() as int) =~= r@.skip(i + 1));
    if start >= end || end > 24 {
        return None;
    }
    Some((start, end))
}

/// Reads `EXCLUDED_HOURS`: comma-separated UTC ranges `start-end` (hours
/// may end with `h`); a range is kept when `start < end <= 24`, other
/// entries are skipped.
pub fn parse_excluded_hours(raw: &str) -> (r: Vec<(u32, u32)>)
    ensures
        r@ == hour_ranges(split_char(raw@, ',')),
{
    let pieces = split_chars(&chars_of(raw), ',');
    let ghost pv = split_char(raw@, ',');
    let mut out: Vec<(u32, u32)> = Vec::new();
    let mut i: usize = 0;
    while i < pieces.len()
        invariant
            0 <= i <= pieces@.len(),
            pieces@.len() == pv.len(),
            forall|k: int| 0 <= k < pieces@.len() ==> #[trigger] pieces@[k]@ == pv[k],
            out@ == hour_ranges(pv.take(i as int)),
        decreases pieces@.len() - i,
    {
        assert(pv.take(i as int + 1).drop_last() =~= pv.take(i as int));
        assert(pv.take(i as int + 1).last() == pv[i as int]);
        match parse_hour_range(&pieces[i]) {
            Some(h) => {
                out.push(h);
            },
            None => {},
        }
        i = i + 1;
    }
    assert(pv.take(pv.len() as int) =~= pv);
    out
}

/// Reads `POLYMARKET_SIGNATURE_TYPE`: 0, 1 or 2; any other value is
/// ignored.
pub fn parse_signature_type(raw: &str) -> (r: Option<u8>)
    ensures
        match parse_unsigned(raw@, 255) {
            Some(v) => if v <= 2 {
                r == Some(v as u8)
            } else {
                r is None
            },
            None => r is None,
        },
{
    match parse_unsigned_chars(&chars_of(raw), 255) {
        Some(v) => if v <= 2 {
            Some(v as u8)
        } else {
            None
        },
        None => None,
    }
}

/// Reads `ENSEMBLE_MIN_VOTES`: a `u32`, 1 when absent or unreadable.
pub fn parse_ensemble_min_votes(raw: Option<&str>) -> (r: u32)
    ensures
        match raw {
            Some(s) => match parse_unsigned(s@, u32::MAX as nat) {
                Some(v) => r == v,
                None => r == 1,
            },
            None => r == 1,
        },
{
    match raw {
        Some(s) => match parse_unsigned_chars(&chars_of(s), 0xffff_ffffu64) {
            Some(v) => v as u32,
            None => 1,
        },
        None => 1,
    }
}

/// Every range that `EXCLUDED_HOURS` yields is a non-empty range of hours
/// of the day: `start < end <= 24`.
pub proof fn law_excluded_hours_are_valid_ranges(pieces: Seq<Seq<char>>)
    ensures
        forall|k: int|
            0 <= k < hour_ranges(pieces).len() ==> #[trigger] hour_ranges(pieces)[k].0
                < hour_ranges(pieces)[k].1 <= 24,
    decreases pieces.len(),
{
    if pieces.len() > 0 {
        let rest = hour_ranges(pieces.drop_last());
        law_excluded_hours_are_valid_ranges(pieces.drop_last());
        lemma_hour_range_valid(pieces.last());
        assert forall|k: int| 0 <= k < hour_ranges(pieces).len() implies #[trigger] hour_ranges(
            pieces,
        )[k].0 < hour_ranges(pieces)[k].1 <= 24 by {
            if k < rest.len() {
                assert(hour_ranges(pieces)[k] == rest[k]);
            }
        }
    }
}

proof fn lemma_hour_range_valid(piece: Seq<char>)
    ensures
        hour_range(piece) matches Some(h) ==> h.0 < h.1 <= 24,
{
    let r = trim(piece);
    if r.len() > 0 {
        if let Some(i) = index_of_char(r, '-') {
            let a = hour_of(r.take(i));
            let b = hour_of(r.skip(i + 1));
            if a is Some && b is Some {
                assert(a->0 <= u32::MAX);
                assert(b->0 <= u32::MAX);
            }
        }
    }
}

/// `EXECUTION_MODE` names a mode by its exact lowercase name: `market`,
/// `limit`, or `dry-run` / `dryrun` for the dry run; any other text, in
/// upper case too, names none.
pub proof fn law_execution_mode_names(raw: Seq<char>)
    ensures
        execution_mode_of("market"@) == Some(ExecutionMode::Market),
        execution_mode_of("limit"@) == Some(ExecutionMode::Limit),
        execution_mode_of("dry-run"@) == Some(ExecutionMode::DryRun),
        execution_mode_of("dryrun"@) == Some(ExecutionMode::DryRun),
        execution_mode_of(raw) is Some ==> (raw == "market"@ || raw == "limit"@ || raw
            == "dry-run"@ || raw == "dryrun"@),
        mode_label(ExecutionMode::DryRun) == "DRY_RUN"@,
        mode_label(ExecutionMode::Market) == "MARKET"@,
        mode_label(ExecutionMode::Limit) == "LIMIT"@,
{
    reveal_strlit("market");
    reveal_strlit("limit");
    reveal_strlit("dry-run");
    reveal_strlit("dryrun");
    assert("limit"@ != "market"@) by {
        assert("limit"@[0] != "market"@[0]);
    }
    assert("dry-run"@ != "market"@) by {
        assert("dry-run"@[0] != "market"@[0]);
    }
    assert("dry-run"@ != "limit"@) by {
        assert("dry-run"@[0] != "limit"@[0]);
    }
    assert("dryrun"@ != "market"@) by {
        assert("dryrun"@[0] != "market"@[0]);
    }
    assert("dryrun"@ != "limit"@) by {
        assert("dryrun"@[0] != "limit"@[0]);
    }
}

/// `MARKET_ORDER_TYPE` is fill-or-kill when it is absent or `fok`,
/// fill-and-kill when it is `fak`, and refused otherwise.
pub proof fn law_market_order_type_names(raw: Seq<char>)
    ensures
        market_order_type_of(None) == Some(MarketOrderType::Fok),
        market_order_type_of(Some("fok"@)) == Some(MarketOrderType::Fok),
        market_order_type_of(Some("fak"@)) == Some(MarketOrderType::Fak),
        market_order_type_of(Some(raw)) is Some ==> (raw == "fok"@ || raw == "fak"@),
{
    reveal_strlit("fok");
    reveal_strlit("fak");
    assert("fak"@ != "fok"@) by {
        assert("fak"@[1] != "fok"@[1]);
    }
}

/// The dry run needs no setting; a mode that sends orders needs a private
/// key, then an `http://` or `https://` CLOB address, then, for the proxy
/// (1) and safe (2) signature types, a funder; with all of them it passes.
pub proof fn law_trading_settings(
    mode: ExecutionMode,
    has_key: bool,
    url: Seq<char>,
    signature_type: Option<u8>,
    has_funder: bool,
)
    ensures
        real_mode_check(ExecutionMode::DryRun, has_key, url, signature_type, has_funder) is None,
        mode != ExecutionMode::DryRun && !has_key ==> real_mode_check(
            mode,
            has_key,
            url,
            signature_type,
            has_funder,
        ) == Some(0int),
        mode != ExecutionMode::DryRun && has_key && !(crate::text::starts_with(url, "http://"@)
            || crate::text::starts_with(url, "https://"@)) ==> real_mode_check(
            mode,
            has_key,
            url,
            signature_type,
            has_funder,
        ) == Some(1int),
        mode != ExecutionMode::DryRun && has_key && is_http_url(url) && (signature_type == Some(1u8)
            || signature_type == Some(2u8)) && !has_funder ==> real_mode_check(
            mode,
            has_key,
            url,
            signature_type,
            has_funder,
        ) == Some(2int),
        has_key && is_http_url(url) && (has_funder || !(signature_type == Some(1u8)
            || signature_type == Some(2u8))) ==> real_mode_check(
            mode,
            has_key,
            url,
            signature_type,
            has_funder,
        ) is None,
{
}

} // verus!
