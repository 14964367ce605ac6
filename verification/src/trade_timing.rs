//! Latencies of an order, measured between the signal, the submission, the
//! exchange's acknowledgement and the close of the signal candle.
use vstd::prelude::*;

verus! {

/// `d` when it is not negative, else 0.
pub open spec fn non_negative(d: int) -> int {
    if d < 0 {
        0
    } else {
        d
    }
}

/// Latencies in milliseconds, never negative.
#[derive(Debug, Clone, Copy, PartialEq, Eq, Structural)]
pub struct TradeLatencies {
    pub signal_to_submit_start_ms: i64,
    pub submit_start_to_ack_ms: i64,
    pub signal_to_ack_ms: i64,
    pub trade_open_to_order_ack_ms: i64,
}

/// The duration from `from_ms` to `to_ms`, or 0 when `to_ms` comes first
/// (clocks out of step).
fn elapsed_non_negative(from_ms: i64, to_ms: i64) -> (d: i64)
    requires
        i64::MIN <= to_ms - from_ms <= i64::MAX,
    ensures
        d == non_negative(to_ms - from_ms),
{
    let d = to_ms - from_ms;
    if d < 0 {
        0
    } else {
        d
    }
}

impl TradeLatencies {
    /// The latencies of an order from its four instants, in milliseconds
    /// since the Unix epoch; a negative duration counts as 0.
    pub fn from_times(
        signal_received_at_ms: i64,
        order_submit_started_at_ms: i64,
        order_ack_at_ms: i64,
        candle_close_time_ms: i64,
    ) -> (r: TradeLatencies)
        requires
            i64::MIN <= order_submit_started_at_ms - signal_received_at_ms <= i64::MAX,
            i64::MIN <= order_ack_at_ms - order_submit_started_at_ms <= i64::MAX,
            i64::MIN <= order_ack_at_ms - signal_received_at_ms <= i64::MAX,
            i64::MIN <= order_ack_at_ms - candle_close_time_ms <= i64::MAX,
        ensures
            r.signal_to_submit_start_ms == non_negative(
                order_submit_started_at_ms - signal_received_at_ms,
            ),
            r.submit_start_to_ack_ms == non_negative(order_ack_at_ms - order_submit_started_at_ms),
            r.signal_to_ack_ms == non_negative(order_ack_at_ms - signal_received_at_ms),
            r.trade_open_to_order_ack_ms == non_negative(order_ack_at_ms - candle_close_time_ms),
    {
        TradeLatencies {
            signal_to_submit_start_ms: elapsed_non_negative(
                signal_received_at_ms,
                order_submit_started_at_ms,
            ),
            submit_start_to_ack_ms: elapsed_non_negative(order_submit_started_at_ms, order_ack_at_ms),
            signal_to_ack_ms: elapsed_non_negative(signal_received_at_ms, order_ack_at_ms),
            trade_open_to_order_ack_ms: elapsed_non_negative(candle_close_time_ms, order_ack_at_ms),
        }
    }
}

/// When the instants come in order (signal, submission, acknowledgement),
/// the signal-to-acknowledgement latency is the sum of its two parts.
pub proof fn law_latencies_add_up(signal_ms: int, submit_ms: int, ack_ms: int)
    requires
        signal_ms <= submit_ms <= ack_ms,
    ensures
        non_negative(ack_ms - signal_ms) == non_negative(submit_ms - signal_ms) + non_negative(
            ack_ms - submit_ms,
        ),
{
}

} // verus!
