//! The decisions taken when a candle closes: whether its signal is traded,
//! what the handling ended with, what follows it, and the instants derived
//! from the candle. Sending orders and reading the market is done by the
//! caller between these decisions.
use vstd::prelude::*;
use crate::logger::{csv_table, journal_has_signal, TradeLogger};
use crate::polymarket::{build_slug, slug_of};
use crate::runtime_metrics::{recorded, RuntimeMetrics};
use crate::strategy::Prediction;
use crate::tracker::{build_signal_key, signal_key, PositionTracker};
use crate::trading_filter::{filter_reason, trading_filter_reason, TradingFilterReason};

verus! {

/// How the handling of a closed candle ended.
#[derive(Debug, PartialEq, Eq)]
pub enum ClosedCandleAction {
    /// The strategy gave no signal.
    NoSignal,
    /// The signal fell on an excluded day or hour.
    Filtered,
    /// The signal was already traded or is being followed.
    DuplicateSignal,
    /// The market of the next candle could not be found.
    MarketResolveFailed,
    /// The order could not be sent.
    OrderFailed,
    /// The order was sent and recorded.
    OrderPlaced { trade_id: String, signal_key: String },
}

/// The opening instant of the candle after the one that closed at
/// `close_time_ms` (one millisecond later).
pub fn next_open_ms(close_time_ms: i64) -> (r: i64)
    requires
        close_time_ms < i64::MAX,
    ensures
        r == close_time_ms + 1,
{
    close_time_ms + 1
}

/// The closing instant of the candle that a signal bets on: one interval
/// after the signal candle closed.
pub fn target_close_ms(close_time_ms: i64, interval_ms: i64) -> (r: Option<i64>)
    ensures
        match r {
            Some(t) => t == close_time_ms + interval_ms,
            None => !(i64::MIN <= close_time_ms + interval_ms <= i64::MAX),
        },
{
    close_time_ms.checked_add(interval_ms)
}

/// What follows the handling of a closed candle, as (`validate`,
/// `prefetch`): checking the pending trades against the candle, and
/// looking up the market of the next candle ahead of time.
pub open spec fn followups_of(action: ClosedCandleAction) -> (bool, bool) {
    match action {
        ClosedCandleAction::NoSignal => (true, true),
        ClosedCandleAction::Filtered => (true, true),
        ClosedCandleAction::DuplicateSignal => (true, false),
        ClosedCandleAction::MarketResolveFailed => (true, false),
        ClosedCandleAction::OrderFailed => (false, false),
        ClosedCandleAction::OrderPlaced { .. } => (true, true),
    }
}

/// What follows the handling of a closed candle that ended with `action`:
/// (`validate`, `prefetch`).
pub fn followups(action: &ClosedCandleAction) -> (r: (bool, bool))
    ensures
        r == followups_of(*action),
{
    match action {
        ClosedCandleAction::NoSignal => (true, true),
        ClosedCandleAction::Filtered => (true, true),
        ClosedCandleAction::DuplicateSignal => (true, false),
        ClosedCandleAction::MarketResolveFailed => (true, false),
        ClosedCandleAction::OrderFailed => (false, false),
        ClosedCandleAction::OrderPlaced { .. } => (true, true),
    }
}

/// Ends the handling of a closed candle that ended with `action`: counts
/// it once in `metrics` (one to the counter of its kind, the others
/// unchanged) and says what follows it, as (`validate`, `prefetch`).
pub fn conclude_closed_candle(metrics: &mut RuntimeMetrics, action: &ClosedCandleAction) -> (r: (
    bool,
    bool,
))
    ensures
        final(metrics)@ == recorded(old(metrics)@, *action),
        r == followups_of(*action),
{
    metrics.record(action);
    followups(action)
}

/// What the checks of a closed candle decided before any order.
#[derive(Debug)]
pub enum Screening {
    /// The strategy gave no signal.
    NoSignal,
    /// The signal fell on an excluded day or hour.
    Filtered(TradingFilterReason),
    /// A pending trade already follows this signal.
    ActiveSignal,
    /// The journal already records a trade of this signal.
    JournaledSignal,
    /// The order may be sent on the market `slug`, under `signal_key`.
    Proceed { slug: String, signal_key: String },
}

impl Screening {
    /// How the handling of the candle ends when no order is sent; `None`
    /// when it goes on to the market.
    pub fn finished_action(&self) -> (r: Option<ClosedCandleAction>)
        ensures
            match self {
                Screening::NoSignal => r == Some(ClosedCandleAction::NoSignal),
                Screening::Filtered(_) => r == Some(ClosedCandleAction::Filtered),
                Screening::ActiveSignal => r == Some(ClosedCandleAction::DuplicateSignal),
                Screening::JournaledSignal => r == Some(ClosedCandleAction::DuplicateSignal),
                Screening::Proceed { .. } => r is None,
            },
    {
        match self {
            Screening::NoSignal => Some(ClosedCandleAction::NoSignal),
            Screening::Filtered(_) => Some(ClosedCandleAction::Filtered),
            Screening::ActiveSignal => Some(ClosedCandleAction::DuplicateSignal),
            Screening::JournaledSignal => Some(ClosedCandleAction::DuplicateSignal),
            Screening::Proceed { .. } => None,
        }
    }
}

/// Checks the signal of the candle that closed at `close_time_ms`
/// (`signal` is the strategy's name and direction): no signal; an excluded
/// day or hour; a signal already followed by a pending trade, or already
/// recorded in the journal (a journal that cannot be read does not stop
/// the order); else the order goes on, on the market of the next candle.
pub fn screen_closed_candle(
    close_time_ms: i64,
    slug_prefix: &str,
    signal: Option<(&str, Prediction)>,
    excluded_days: &Vec<String>,
    excluded_hours: &Vec<(u32, u32)>,
    book: &PositionTracker,
    journal: &TradeLogger,
) -> (r: Screening)
    requires
        close_time_ms < i64::MAX,
    ensures
        signal is None ==> r is NoSignal,
        signal matches Some((name, p)) ==> {
            let key = signal_key(name@, slug_of(slug_prefix@, close_time_ms + 1), p);
            match filter_reason(close_time_ms as int, excluded_days.deep_view(), excluded_hours@) {
                Some((true, d, _)) => r matches Screening::Filtered(
                    TradingFilterReason::ExcludedDay(s),
                ) && s@ == d,
                Some((false, _, h)) => r matches Screening::Filtered(
                    TradingFilterReason::ExcludedHour(x),
                ) && x == h,
                None => if exists|j: int|
                    0 <= j < book@.len() && #[trigger] book@[j].signal_key == key {
                    r is ActiveSignal
                } else if csv_table(journal@) matches Some(t) && journal_has_signal(t.0, t.1, key) {
                    r is JournaledSignal
                } else {
                    r matches Screening::Proceed { slug: s, signal_key: k } && s@ == slug_of(
                        slug_prefix@,
                        close_time_ms + 1,
                    ) && k@ == key
                },
            }
        },
{
    let slug = build_slug(slug_prefix, next_open_ms(close_time_ms));
    let (name, prediction) = match signal {
        None => return Screening::NoSignal,
        Some(s) => s,
    };
    match trading_filter_reason(close_time_ms, excluded_days, excluded_hours) {
        Some(reason) => return Screening::Filtered(reason),
        None => {},
    }
    let key = build_signal_key(name, slug.as_str(), &prediction);
    if book.is_signal_active(key.as_str()) {
        return Screening::ActiveSignal;
    }
    match journal.has_signal_key(key.as_str()) {
        Ok(true) => Screening::JournaledSignal,
        _ => Screening::Proceed { slug, signal_key: key },
    }
}

/// After a closed candle the pending trades are checked against it, except
/// when an order could not be sent; the next market is looked up ahead of
/// time only when no signal was traded or an order was placed.
pub proof fn law_followups(action: ClosedCandleAction)
    ensures
        followups_of(action).0 <==> !(action is OrderFailed),
        followups_of(action).1 <==> (action is NoSignal || action is Filtered
            || action is OrderPlaced),
{
}

} // verus!
