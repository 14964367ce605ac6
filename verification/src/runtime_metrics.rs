//! Counters of how the handling of closed candles ended.
use vstd::prelude::*;
use crate::trading_runtime::ClosedCandleAction;

verus! {

/// The counters at one moment.
#[derive(Debug, Clone, Copy, PartialEq, Eq, Structural)]
pub struct RuntimeMetricsSnapshot {
    pub no_signal: u64,
    pub filtered: u64,
    pub duplicate_signal: u64,
    pub market_resolve_failed: u64,
    pub order_failed: u64,
    pub order_placed: u64,
}

/// One counter per way the handling of a closed candle can end.
#[derive(Debug)]
pub struct RuntimeMetrics {
    no_signal: u64,
    filtered: u64,
    duplicate_signal: u64,
    market_resolve_failed: u64,
    order_failed: u64,
    order_placed: u64,
}

impl View for RuntimeMetrics {
    type V = RuntimeMetricsSnapshot;

    closed spec fn view(&self) -> RuntimeMetricsSnapshot {
        RuntimeMetricsSnapshot {
            no_signal: self.no_signal,
            filtered: self.filtered,
            duplicate_signal: self.duplicate_signal,
            market_resolve_failed: self.market_resolve_failed,
            order_failed: self.order_failed,
            order_placed: self.order_placed,
        }
    }
}

/// `n + 1`, wrapping to 0 past `u64::MAX`.
pub open spec fn bump(n: u64) -> u64 {
    if n == u64::MAX {
        0
    } else {
        (n + 1) as u64
    }
}

/// The counters after counting `action` once.
pub open spec fn recorded(s: RuntimeMetricsSnapshot, action: ClosedCandleAction) -> RuntimeMetricsSnapshot {
    match action {
        ClosedCandleAction::NoSignal => RuntimeMetricsSnapshot { no_signal: bump(s.no_signal), ..s },
        ClosedCandleAction::Filtered => RuntimeMetricsSnapshot { filtered: bump(s.filtered), ..s },
        ClosedCandleAction::DuplicateSignal => RuntimeMetricsSnapshot {
            duplicate_signal: bump(s.duplicate_signal),
            ..s
        },
        ClosedCandleAction::MarketResolveFailed => RuntimeMetricsSnapshot {
            market_resolve_failed: bump(s.market_resolve_failed),
            ..s
        },
        ClosedCandleAction::OrderFailed => RuntimeMetricsSnapshot {
            order_failed: bump(s.order_failed),
            ..s
        },
        ClosedCandleAction::OrderPlaced { .. } => RuntimeMetricsSnapshot {
            order_placed: bump(s.order_placed),
            ..s
        },
    }
}

/// All counters at zero.
pub open spec fn zero_snapshot() -> RuntimeMetricsSnapshot {
    RuntimeMetricsSnapshot {
        no_signal: 0,
        filtered: 0,
        duplicate_signal: 0,
        market_resolve_failed: 0,
        order_failed: 0,
        order_placed: 0,
    }
}

impl Default for RuntimeMetrics {
    fn default() -> (r: RuntimeMetrics)
        ensures
            r@ == zero_snapshot(),
    {
        RuntimeMetrics {
            no_signal: 0,
            filtered: 0,
            duplicate_signal: 0,
            market_resolve_failed: 0,
            order_failed: 0,
            order_placed: 0,
        }
    }
}

impl RuntimeMetrics {
    /// Counts `action` once.
    pub fn record(&mut self, action: &ClosedCandleAction)
        ensures
            final(self)@ == recorded(old(self)@, *action),
    {
        match action {
            ClosedCandleAction::NoSignal => {
                self.no_signal = self.no_signal.wrapping_add(1);
            },
            ClosedCandleAction::Filtered => {
                self.filtered = self.filtered.wrapping_add(1);
            },
            ClosedCandleAction::DuplicateSignal => {
                self.duplicate_signal = self.duplicate_signal.wrapping_add(1);
            },
            ClosedCandleAction::MarketResolveFailed => {
                self.market_resolve_failed = self.market_resolve_failed.wrapping_add(1);
            },
            ClosedCandleAction::OrderFailed => {
                self.order_failed = self.order_failed.wrapping_add(1);
            },
            ClosedCandleAction::OrderPlaced { .. } => {
                self.order_placed = self.order_placed.wrapping_add(1);
            },
        }
    }

    /// The counters now.
    pub fn snapshot(&self) -> (r: RuntimeMetricsSnapshot)
        ensures
            r == self@,
    {
        RuntimeMetricsSnapshot {
            no_signal: self.no_signal,
            filtered: self.filtered,
            duplicate_signal: self.duplicate_signal,
            market_resolve_failed: self.market_resolve_failed,
            order_failed: self.order_failed,
            order_placed: self.order_placed,
        }
    }
}

/// The sum of the counters.
pub open spec fn total(s: RuntimeMetricsSnapshot) -> int {
    s.no_signal + s.filtered + s.duplicate_signal + s.market_resolve_failed + s.order_failed
        + s.order_placed
}

/// Counting an action adds exactly one to the total, as long as no counter
/// wraps.
pub proof fn law_record_counts_once(s: RuntimeMetricsSnapshot, action: ClosedCandleAction)
    requires
        s.no_signal < u64::MAX,
        s.filtered < u64::MAX,
        s.duplicate_signal < u64::MAX,
        s.market_resolve_failed < u64::MAX,
        s.order_failed < u64::MAX,
        s.order_placed < u64::MAX,
    ensures
        total(recorded(s, action)) == total(s) + 1,
{
}

/// Counting an ending adds one to the counter of its kind (wrapping at the
/// top) and leaves the five others as they were.
pub proof fn law_record_hits_its_counter(s: RuntimeMetricsSnapshot, action: ClosedCandleAction)
    ensures
        ({
            let r = recorded(s, action);
            let up = |n: u64| if n == u64::MAX { 0u64 } else { (n + 1) as u64 };
            &&& r.no_signal == if action is NoSignal { up(s.no_signal) } else { s.no_signal }
            &&& r.filtered == if action is Filtered { up(s.filtered) } else { s.filtered }
            &&& r.duplicate_signal == if action is DuplicateSignal {
                up(s.duplicate_signal)
            } else {
                s.duplicate_signal
            }
            &&& r.market_resolve_failed == if action is MarketResolveFailed {
                up(s.market_resolve_failed)
            } else {
                s.market_resolve_failed
            }
            &&& r.order_failed == if action is OrderFailed {
                up(s.order_failed)
            } else {
                s.order_failed
            }
            &&& r.order_placed == if action is OrderPlaced {
                up(s.order_placed)
            } else {
                s.order_placed
            }
        }),
{
}

} // verus!
