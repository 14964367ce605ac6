//! Follow-up of open orders: the book of pending trades, its de-duplication,
//! the validation of filled trades against the target candle, and the
//! reaction to the order statuses that the exchange reports.
//!
//! Reading statuses, writing the trade journal and persisting the book are
//! done by the caller; the book decides what is written and records what
//! was written.
use vstd::prelude::*;
use crate::logger::{journal_after_update, TradeLogger};
use crate::strategy::{prediction_label, Prediction};
use crate::text::{
    ascii_lower, ascii_upper, chars_eq, chars_eq_ignore_ascii_case, chars_of, eq_ignore_ascii_case,
    is_ascii_upper, lower_ascii,
    lower_ascii_chars, occurs_at_exec, owned, push_all, push_str, starts_with, string_of, trim,
    trimmed, upper_ascii, upper_ascii_chars,
};

verus! {

/// Number of failed status reads after which an order is given up.
pub const MAX_ORDER_STATUS_FAILURES: u32 = 5;

/// Status and outcome recorded for an order whose status could not be read.
pub open spec fn status_unknown() -> Seq<char> {
    "STATUS_UNKNOWN"@
}

/// A filled order: `MATCHED` or `FILLED`, in any ASCII case.
pub open spec fn is_filled(s: Seq<char>) -> bool {
    let u = upper_ascii(s);
    u == "MATCHED"@ || u == "FILLED"@
}

/// An order that ended without a fill: `CANCELLED`, `EXPIRED` or
/// `UNMATCHED`, in any ASCII case.
pub open spec fn is_non_fill_terminal(s: Seq<char>) -> bool {
    let u = upper_ascii(s);
    u == "CANCELLED"@ || u == "EXPIRED"@ || u == "UNMATCHED"@
}

/// A status after which the order no longer changes.
pub open spec fn is_terminal(s: Seq<char>) -> bool {
    is_filled(s) || is_non_fill_terminal(s) || eq_ignore_ascii_case(s, status_unknown())
}

/// Outcome of a filled trade judged by the colour of its target candle.
pub open spec fn binance_outcome_label(p: Prediction, candle_is_green: bool) -> Seq<char> {
    if (p == Prediction::Up && candle_is_green) || (p == Prediction::Down && !candle_is_green) {
        "WIN"@
    } else {
        "LOSS"@
    }
}

/// The key that identifies a signal: strategy, market slug and direction.
pub open spec fn signal_key(strategy_name: Seq<char>, slug: Seq<char>, p: Prediction) -> Seq<char> {
    lower_ascii(trim(strategy_name)) + ":"@ + lower_ascii(trim(slug)) + ":"@ + upper_ascii(
        prediction_label(p),
    )
}

/// An order followed until its outcome is known.
pub struct PendingTrade {
    pub trade_id: String,
    pub order_id: String,
    pub signal_key: String,
    pub prediction: Option<Prediction>,
    pub target_close_time_ms: Option<i64>,
    pub order_status: Option<String>,
    pub status_failures: u32,
    pub validation_done: bool,
}

/// The model of a pending trade.
pub struct PendingTradeView {
    pub trade_id: Seq<char>,
    pub order_id: Seq<char>,
    pub signal_key: Seq<char>,
    pub prediction: Option<Prediction>,
    pub target_close_time_ms: Option<i64>,
    pub order_status: Option<Seq<char>>,
    pub status_failures: u32,
    pub validation_done: bool,
}

impl View for PendingTrade {
    type V = PendingTradeView;

    open spec fn view(&self) -> PendingTradeView {
        PendingTradeView {
            trade_id: self.trade_id@,
            order_id: self.order_id@,
            signal_key: self.signal_key@,
            prediction: self.prediction,
            target_close_time_ms: self.target_close_time_ms,
            order_status: match self.order_status {
                Some(s) => Some(s@),
                None => None,
            },
            status_failures: self.status_failures,
            validation_done: self.validation_done,
        }
    }
}

/// A trade that is validated and whose order reached a terminal status:
/// nothing more happens to it.
pub open spec fn is_settled(t: PendingTradeView) -> bool {
    t.validation_done && match t.order_status {
        Some(s) => is_terminal(s),
        None => false,
    }
}

/// The outcome that the close of the candle at `close_ms` settles for `t`.
pub open spec fn validation_outcome_spec(
    t: PendingTradeView,
    close_ms: i64,
    candle_is_green: bool,
) -> Option<Seq<char>> {
    if t.validation_done {
        None
    } else {
        match t.target_close_time_ms {
            None => None,
            Some(target) => if target > close_ms {
                None
            } else if t.prediction is Some && t.order_status is Some && is_filled(
                t.order_status->0,
            ) {
                if target == close_ms {
                    Some(binance_outcome_label(t.prediction->0, candle_is_green))
                } else {
                    Some("MISSED_VALIDATION"@)
                }
            } else if t.order_status is Some && is_non_fill_terminal(t.order_status->0) {
                Some("NO_ENTRY"@)
            } else {
                None
            },
        }
    }
}

/// The trades of `s` that are not settled, in order.
pub open spec fn unsettled(s: Seq<PendingTradeView>) -> Seq<PendingTradeView>
    decreases s.len(),
{
    if s.len() == 0 {
        s
    } else if is_settled(s.last()) {
        unsettled(s.drop_last())
    } else {
        unsettled(s.drop_last()).push(s.last())
    }
}

/// Result of asking to follow an order.
#[derive(Debug, Clone, Copy, PartialEq, Eq, Structural)]
pub enum TrackOutcome {
    /// The order is now followed.
    Followed,
    /// Simulated orders are not followed.
    IgnoredDryRun,
    /// A pending trade already has this signal key or this order id.
    AlreadyTracked,
}

/// What a status read asks to write to the trade journal, and how the
/// trade then records what was written.
#[derive(Debug)]
pub enum PollPlan {
    /// The exchange answered `status`: `write_status` writes it as the
    /// order's status, `write_no_entry` writes the outcome `NO_ENTRY` of an
    /// order that ended without fill, and `write_fill` writes the status in
    /// upper case as the outcome of a filled order that awaits validation.
    Reported { status: String, write_status: bool, write_no_entry: bool, write_fill: bool },
    /// The status could not be read; `give_up` when the failures reached
    /// the limit, which writes `STATUS_UNKNOWN` as status and outcome.
    Failing { give_up: bool },
}

/// The model of a poll plan.
pub enum PollPlanView {
    Reported { status: Seq<char>, write_status: bool, write_no_entry: bool, write_fill: bool },
    Failing { give_up: bool },
}

impl View for PollPlan {
    type V = PollPlanView;

    open spec fn view(&self) -> PollPlanView {
        match self {
            PollPlan::Reported {
                status,
                write_status,
                write_no_entry,
                write_fill,
            } => PollPlanView::Reported {
                status: status@,
                write_status: *write_status,
                write_no_entry: *write_no_entry,
                write_fill: *write_fill,
            },
            PollPlan::Failing { give_up } => PollPlanView::Failing { give_up: *give_up },
        }
    }
}

/// The plan for `t` after a status read: `Some(status)` when the exchange
/// answered, `None` when the read failed; and `t` with its failure counter
/// updated.
pub open spec fn poll_plan_spec(t: PendingTradeView, status: Option<Seq<char>>) -> (
    PendingTradeView,
    PollPlanView,
) {
    match status {
        Some(s) => {
            let changed = match t.order_status {
                Some(prev) => !eq_ignore_ascii_case(prev, s),
                None => true,
            };
            (
                PendingTradeView { status_failures: 0, ..t },
                PollPlanView::Reported {
                    status: s,
                    write_status: is_terminal(s) && changed,
                    write_no_entry: is_terminal(s) && is_non_fill_terminal(s),
                    write_fill: is_filled(s) && !t.validation_done,
                },
            )
        },
        None => {
            let f: u32 = if t.status_failures == u32::MAX {
                u32::MAX
            } else {
                (t.status_failures + 1) as u32
            };
            (
                PendingTradeView { status_failures: f, ..t },
                PollPlanView::Failing { give_up: f >= MAX_ORDER_STATUS_FAILURES },
            )
        },
    }
}

/// `t` once the writes that `plan` asked for are done, `status_written` and
/// `outcome_written` telling which succeeded.
pub open spec fn poll_applied_spec(
    t: PendingTradeView,
    plan: PollPlanView,
    status_written: bool,
    outcome_written: bool,
) -> PendingTradeView {
    match plan {
        PollPlanView::Reported { status, write_status, write_no_entry, .. } => {
            let t1 = if write_status && status_written {
                PendingTradeView { order_status: Some(status), ..t }
            } else {
                t
            };
            if write_no_entry && outcome_written {
                PendingTradeView { validation_done: true, ..t1 }
            } else {
                t1
            }
        },
        PollPlanView::Failing { give_up } => {
            if give_up && outcome_written {
                PendingTradeView {
                    order_status: Some(status_unknown()),
                    validation_done: true,
                    ..t
                }
            } else {
                t
            }
        },
    }
}

/// The book (before settled trades are dropped) and the journal after the
/// close of the candle at `close_ms` is checked against the trades `ts`,
/// taken in order, with the outcomes that were written: a trade whose
/// outcome is settled gets it written to the journal, and is marked
/// validated when the write succeeds.
pub open spec fn validation_run(
    ts: Seq<PendingTradeView>,
    journal: Seq<char>,
    close_ms: i64,
    candle_is_green: bool,
) -> (Seq<PendingTradeView>, Seq<char>, Seq<Seq<char>>)
    decreases ts.len(),
{
    if ts.len() == 0 {
        (Seq::empty(), journal, Seq::empty())
    } else {
        let (done, j, outs) = validation_run(ts.drop_last(), journal, close_ms, candle_is_green);
        let t = ts.last();
        match validation_outcome_spec(t, close_ms, candle_is_green) {
            None => (done.push(t), j, outs),
            Some(o) => match journal_after_update(j, t.trade_id, "outcome"@, o) {
                Some(j2) => (
                    done.push(PendingTradeView { validation_done: true, ..t }),
                    j2,
                    outs.push(o),
                ),
                None => (done.push(t), j, outs),
            },
        }
    }
}

/// The journal after the writes that `plan` asks for the trade `trade_id`,
/// with whether the status write and the outcome write succeeded. A
/// reported terminal status that changed is written as `order_status`; a
/// status that ended without fill writes the outcome `NO_ENTRY`, and a
/// filled status awaiting validation writes itself, in upper case, as the
/// outcome; an order given up gets `STATUS_UNKNOWN` as status and as
/// outcome.
pub open spec fn poll_writes(journal: Seq<char>, trade_id: Seq<char>, plan: PollPlanView) -> (
    Seq<char>,
    bool,
    bool,
) {
    match plan {
        PollPlanView::Reported { status, write_status, write_no_entry, write_fill } => {
            let (j1, sw) = if write_status {
                match journal_after_update(journal, trade_id, "order_status"@, status) {
                    Some(j) => (j, true),
                    None => (journal, false),
                }
            } else {
                (journal, false)
            };
            if write_no_entry {
                match journal_after_update(j1, trade_id, "outcome"@, "NO_ENTRY"@) {
                    Some(j) => (j, sw, true),
                    None => (j1, sw, false),
                }
            } else if write_fill {
                match journal_after_update(j1, trade_id, "outcome"@, upper_ascii(status)) {
                    Some(j) => (j, sw, true),
                    None => (j1, sw, false),
                }
            } else {
                (j1, sw, false)
            }
        },
        PollPlanView::Failing { give_up } => if give_up {
            let (j1, sw) = match journal_after_update(
                journal,
                trade_id,
                "order_status"@,
                status_unknown(),
            ) {
                Some(j) => (j, true),
                None => (journal, false),
            };
            match journal_after_update(j1, trade_id, "outcome"@, status_unknown()) {
                Some(j) => (j, sw, true),
                None => (j1, sw, false),
            }
        } else {
            (journal, false, false)
        },
    }
}

proof fn lemma_validation_run_len(
    ts: Seq<PendingTradeView>,
    journal: Seq<char>,
    close_ms: i64,
    candle_is_green: bool,
)
    ensures
        validation_run(ts, journal, close_ms, candle_is_green).0.len() == ts.len(),
    decreases ts.len(),
{
    if ts.len() > 0 {
        lemma_validation_run_len(ts.drop_last(), journal, close_ms, candle_is_green);
    }
}

// ───────────────────────── status strings ─────────────────────────

fn upper_is(s: &Vec<char>, word: &str) -> (r: bool)
    ensures
        r == (s@ == word@),
{
    let w = chars_of(word);
    chars_eq(s, &w)
}

/// `MATCHED` or `FILLED`, in any ASCII case.
pub fn is_filled_status(status: &str) -> (r: bool)
    ensures
        r == is_filled(status@),
{
    let u = upper_ascii_chars(&chars_of(status));
    upper_is(&u, "MATCHED") || upper_is(&u, "FILLED")
}

/// `CANCELLED`, `EXPIRED` or `UNMATCHED`, in any ASCII case.
pub fn is_non_fill_terminal_status(status: &str) -> (r: bool)
    ensures
        r == is_non_fill_terminal(status@),
{
    let u = upper_ascii_chars(&chars_of(status));
    upper_is(&u, "CANCELLED") || upper_is(&u, "EXPIRED") || upper_is(&u, "UNMATCHED")
}

/// A status after which the order no longer changes.
pub fn is_terminal_status(status: &str) -> (r: bool)
    ensures
        r == is_terminal(status@),
{
    let s = chars_of(status);
    let unknown = chars_of("STATUS_UNKNOWN");
    is_filled_status(status) || is_non_fill_terminal_status(status)
        || chars_eq_ignore_ascii_case(&s, &unknown)
}

/// `WIN` when the candle went the predicted way, else `LOSS`.
pub fn binance_outcome(prediction: &Prediction, candle_is_green: bool) -> (r: String)
    ensures
        r@ == binance_outcome_label(*prediction, candle_is_green),
{
    match (prediction, candle_is_green) {
        (Prediction::Up, true) | (Prediction::Down, false) => owned("WIN"),
        _ => owned("LOSS"),
    }
}

/// The key of a signal: trimmed, ASCII-lowercased strategy name and slug,
/// and the direction in upper case, joined by `:`.
pub fn build_signal_key(strategy_name: &str, slug: &str, prediction: &Prediction) -> (r: String)
    ensures
        r@ == signal_key(strategy_name@, slug@, *prediction),
{
    let mut out: Vec<char> = Vec::new();
    push_all(&mut out, &lower_ascii_chars(&trimmed(strategy_name)));
    push_str(&mut out, ":");
    push_all(&mut out, &lower_ascii_chars(&trimmed(slug)));
    push_str(&mut out, ":");
    let label = prediction.to_string();
    push_all(&mut out, &upper_ascii_chars(&chars_of(label.as_str())));
    let r = string_of(&out);
    assert(r@ =~= signal_key(strategy_name@, slug@, *prediction));
    r
}

impl PendingTrade {
    /// A copy of this trade.
    pub fn duplicate(&self) -> (r: PendingTrade)
        ensures
            r@ == self@,
    {
        PendingTrade {
            trade_id: self.trade_id.clone(),
            order_id: self.order_id.clone(),
            signal_key: self.signal_key.clone(),
            prediction: self.prediction,
            target_close_time_ms: self.target_close_time_ms,
            order_status: match &self.order_status {
                Some(s) => Some(s.clone()),
                None => None,
            },
            status_failures: self.status_failures,
            validation_done: self.validation_done,
        }
    }

    /// Whether nothing more happens to this trade.
    pub fn can_drop(&self) -> (r: bool)
        ensures
            r == is_settled(self@),
    {
        self.validation_done && match &self.order_status {
            Some(s) => is_terminal_status(s.as_str()),
            None => false,
        }
    }

    /// The outcome that the close of the candle at `close_ms` settles for
    /// this trade, if any.
    pub fn validation_outcome(&self, close_ms: i64, candle_is_green: bool) -> (r: Option<String>)
        ensures
            match r {
                Some(s) => validation_outcome_spec(self@, close_ms, candle_is_green) == Some(s@),
                None => validation_outcome_spec(self@, close_ms, candle_is_green) is None,
            },
    {
        if self.validation_done {
            return None;
        }
        let target = match self.target_close_time_ms {
            Some(t) => t,
            None => return None,
        };
        if target > close_ms {
            return None;
        }
        match (&self.prediction, &self.order_status) {
            (Some(p), Some(status)) if is_filled_status(status.as_str()) => {
                if target == close_ms {
                    Some(binance_outcome(p, candle_is_green))
                } else {
                    Some(owned("MISSED_VALIDATION"))
                }
            },
            (_, Some(status)) if is_non_fill_terminal_status(status.as_str()) => {
                Some(owned("NO_ENTRY"))
            },
            _ => None,
        }
    }
}

/// The book of pending trades: the orders followed until their outcome is
/// known, in the order they were sent.
pub struct PositionTracker {
    trades: Vec<PendingTrade>,
}

impl View for PositionTracker {
    type V = Seq<PendingTradeView>;

    closed spec fn view(&self) -> Seq<PendingTradeView> {
        self.trades@.map_values(|t: PendingTrade| t@)
    }
}

impl PositionTracker {
    /// A book holding `trades`, such as those reloaded from disk.
    pub fn new(trades: Vec<PendingTrade>) -> (b: PositionTracker)
        ensures
            b@ == trades@.map_values(|t: PendingTrade| t@),
    {
        PositionTracker { trades }
    }

    /// The pending trades, in order.
    pub fn trades(&self) -> (r: &Vec<PendingTrade>)
        ensures
            r@.map_values(|t: PendingTrade| t@) == self@,
    {
        &self.trades
    }

    /// Number of pending trades.
    pub fn pending_count(&self) -> (n: usize)
        ensures
            n == self@.len(),
    {
        self.trades.len()
    }

    /// Whether a pending trade carries `signal_key`.
    pub fn is_signal_active(&self, signal_key: &str) -> (r: bool)
        ensures
            r == exists|j: int| 0 <= j < self@.len() && #[trigger] self@[j].signal_key == signal_key@,
    {
        let key = chars_of(signal_key);
        let mut i: usize = 0;
        while i < self.trades.len()
            invariant
                0 <= i <= self@.len(),
                self@ == self.trades@.map_values(|t: PendingTrade| t@),
                key@ == signal_key@,
                forall|j: int| 0 <= j < i ==> #[trigger] self@[j].signal_key != signal_key@,
            decreases self@.len() - i,
        {
            let k = chars_of(self.trades[i].signal_key.as_str());
            if chars_eq(&k, &key) {
                assert(self@[i as int].signal_key == signal_key@);
                return true;
            }
            i = i + 1;
        }
        false
    }

    /// Follows a new order, unless it is simulated (its id starts with
    /// `dry-run-`) or a pending trade already has its signal key or its
    /// order id.
    pub fn track(
        &mut self,
        trade_id: String,
        order_id: String,
        signal_key: String,
        prediction: Prediction,
        target_close_time_ms: i64,
        order_status: String,
    ) -> (r: TrackOutcome)
        ensures
            starts_with(order_id@, "dry-run-"@) ==> r == TrackOutcome::IgnoredDryRun,
            !starts_with(order_id@, "dry-run-"@) && (exists|j: int|
                0 <= j < old(self)@.len() && (#[trigger] old(self)@[j].signal_key == signal_key@
                    || old(self)@[j].order_id == order_id@)) ==> r == TrackOutcome::AlreadyTracked,
            !starts_with(order_id@, "dry-run-"@) && !(exists|j: int|
                0 <= j < old(self)@.len() && (#[trigger] old(self)@[j].signal_key == signal_key@
                    || old(self)@[j].order_id == order_id@)) ==> r == TrackOutcome::Followed,
            r != TrackOutcome::Followed ==> final(self)@ == old(self)@,
            r == TrackOutcome::Followed ==> final(self)@ == old(self)@.push(
                PendingTradeView {
                    trade_id: trade_id@,
                    order_id: order_id@,
                    signal_key: signal_key@,
                    prediction: Some(prediction),
                    target_close_time_ms: Some(target_close_time_ms),
                    order_status: Some(order_status@),
                    status_failures: 0,
                    validation_done: false,
                },
            ),
    {
        let oid = chars_of(order_id.as_str());
        let prefix = chars_of("dry-run-");
        if occurs_at_exec(&oid, &prefix, 0) {
            return TrackOutcome::IgnoredDryRun;
        }
        let key = chars_of(signal_key.as_str());
        let mut i: usize = 0;
        while i < self.trades.len()
            invariant
                0 <= i <= self@.len(),
                self@ == self.trades@.map_values(|t: PendingTrade| t@),
                key@ == signal_key@,
                oid@ == order_id@,
                !starts_with(order_id@, "dry-run-"@),
                forall|j: int|
                    0 <= j < i ==> #[trigger] self@[j].signal_key != signal_key@ && self@[j].order_id
                        != order_id@,
            decreases self@.len() - i,
        {
            let k = chars_of(self.trades[i].signal_key.as_str());
            let o = chars_of(self.trades[i].order_id.as_str());
            if chars_eq(&k, &key) || chars_eq(&o, &oid) {
                assert(self@[i as int].signal_key == signal_key@ || self@[i as int].order_id
                    == order_id@);
                return TrackOutcome::AlreadyTracked;
            }
            i = i + 1;
        }
        let t = PendingTrade {
            trade_id,
            order_id,
            signal_key,
            prediction: Some(prediction),
            target_close_time_ms: Some(target_close_time_ms),
            order_status: Some(order_status),
            status_failures: 0,
            validation_done: false,
        };
        self.trades.push(t);
        assert(self@ =~= old(self)@.push(t@));
        TrackOutcome::Followed
    }

    /// The outcome that the close of the candle at `close_ms` settles for
    /// the trade at `i`.
    pub fn validation_outcome(&self, i: usize, close_ms: i64, candle_is_green: bool) -> (r: Option<
        String,
    >)
        requires
            i < self@.len(),
        ensures
            match r {
                Some(s) => validation_outcome_spec(self@[i as int], close_ms, candle_is_green)
                    == Some(s@),
                None => validation_outcome_spec(self@[i as int], close_ms, candle_is_green) is None,
            },
    {
        self.trades[i].validation_outcome(close_ms, candle_is_green)
    }

    /// Records that the outcome of the trade at `i` was written.
    pub fn mark_validated(&mut self, i: usize)
        requires
            i < old(self)@.len(),
        ensures
            final(self)@ == old(self)@.update(
                i as int,
                PendingTradeView { validation_done: true, ..old(self)@[i as int] },
            ),
    {
        let mut t = self.trades[i].duplicate();
        t.validation_done = true;
        self.trades.set(i, t);
        assert(self@ =~= old(self)@.update(
            i as int,
            PendingTradeView { validation_done: true, ..old(self)@[i as int] },
        ));
    }

    /// Removes the settled trades and keeps the others in order; returns
    /// how many were removed.
    pub fn drop_settled(&mut self) -> (removed: usize)
        ensures
            final(self)@ == unsettled(old(self)@),
            removed == old(self)@.len() - final(self)@.len(),
    {
        let ghost old_view = self@;
        let mut kept: Vec<PendingTrade> = Vec::new();
        let mut i: usize = 0;
        while i < self.trades.len()
            invariant
                0 <= i <= old_view.len(),
                old_view == self.trades@.map_values(|t: PendingTrade| t@),
                kept@.map_values(|t: PendingTrade| t@) == unsettled(old_view.take(i as int)),
                kept@.len() <= i,
            decreases old_view.len() - i,
        {
            let ghost before = kept@.map_values(|t: PendingTrade| t@);
            assert(old_view.take(i as int + 1).drop_last() =~= old_view.take(i as int));
            assert(old_view.take(i as int + 1).last() == old_view[i as int]);
            if !self.trades[i].can_drop() {
                let t = self.trades[i].duplicate();
                kept.push(t);
                assert(kept@.map_values(|t: PendingTrade| t@) =~= before.push(old_view[i as int]));
            }
            i = i + 1;
        }
        assert(old_view.take(old_view.len() as int) =~= old_view);
        let removed = self.trades.len() - kept.len();
        self.trades = kept;
        removed
    }

    /// Records the answer to a status read of the trade at `i`
    /// (`Some(status)`, or `None` when the read failed) and says what to
    /// write to the trade journal.
    pub fn plan_poll(&mut self, i: usize, status: Option<String>) -> (plan: PollPlan)
        requires
            i < old(self)@.len(),
        ensures
            ({
                let (t, p) = poll_plan_spec(
                    old(self)@[i as int],
                    match status {
                        Some(s) => Some(s@),
                        None => None,
                    },
                );
                final(self)@ == old(self)@.update(i as int, t) && plan@ == p
            }),
    {
        let mut t = self.trades[i].duplicate();
        let plan = match status {
            Some(s) => {
                t.status_failures = 0;
                let changed = match &t.order_status {
                    Some(prev) => !chars_eq_ignore_ascii_case(
                        &chars_of(prev.as_str()),
                        &chars_of(s.as_str()),
                    ),
                    None => true,
                };
                let terminal = is_terminal_status(s.as_str());
                let non_fill = is_non_fill_terminal_status(s.as_str());
                let filled = is_filled_status(s.as_str());
                PollPlan::Reported {
                    status: s,
                    write_status: terminal && changed,
                    write_no_entry: terminal && non_fill,
                    write_fill: filled && !t.validation_done,
                }
            },
            None => {
                let f = t.status_failures.saturating_add(1);
                t.status_failures = f;
                PollPlan::Failing { give_up: f >= MAX_ORDER_STATUS_FAILURES }
            },
        };
        let ghost nt = t@;
        self.trades.set(i, t);
        assert(self@ =~= old(self)@.update(i as int, nt));
        plan
    }

    /// Records which of the writes that `plan` asked for succeeded, for the
    /// trade at `i`.
    pub fn apply_poll(
        &mut self,
        i: usize,
        plan: &PollPlan,
        status_written: bool,
        outcome_written: bool,
    )
        requires
            i < old(self)@.len(),
        ensures
            final(self)@ == old(self)@.update(
                i as int,
                poll_applied_spec(old(self)@[i as int], plan@, status_written, outcome_written),
            ),
    {
        let mut t = self.trades[i].duplicate();
        match plan {
            PollPlan::Reported { status, write_status, write_no_entry, .. } => {
                if *write_status && status_written {
                    t.order_status = Some(status.clone());
                }
                if *write_no_entry && outcome_written {
                    t.validation_done = true;
                }
            },
            PollPlan::Failing { give_up } => {
                if *give_up && outcome_written {
                    t.order_status = Some(owned("STATUS_UNKNOWN"));
                    t.validation_done = true;
                }
            },
        }
        let ghost nt = t@;
        self.trades.set(i, t);
        assert(self@ =~= old(self)@.update(
            i as int,
            poll_applied_spec(old(self)@[i as int], plan@, status_written, outcome_written),
        ));
    }

    /// Checks the pending trades against the candle that closed at
    /// `close_ms`: each trade whose outcome this settles gets it written
    /// to `journal` and is marked validated when the write succeeds; then
    /// the settled trades are dropped. Returns the outcomes written, in
    /// order.
    pub fn validate_with_closed_candle(
        &mut self,
        journal: &mut TradeLogger,
        close_ms: i64,
        candle_is_green: bool,
    ) -> (outcomes: Vec<String>)
        ensures
            ({
                let (done, j, outs) = validation_run(
                    old(self)@,
                    old(journal)@,
                    close_ms,
                    candle_is_green,
                );
                final(self)@ == unsettled(done) && final(journal)@ == j && outcomes.deep_view()
                    == outs
            }),
    {
        let ghost orig = self@;
        let ghost j0 = journal@;
        let mut outcomes: Vec<String> = Vec::new();
        let mut i: usize = 0;
        proof {
            assert(orig.take(0) =~= Seq::<PendingTradeView>::empty());
            assert(orig.skip(0) =~= orig);
        }
        while i < self.trades.len()
            invariant
                0 <= i <= orig.len(),
                self@.len() == orig.len(),
                self@ == self.trades@.map_values(|t: PendingTrade| t@),
                ({
                    let (done, j, outs) = validation_run(
                        orig.take(i as int),
                        j0,
                        close_ms,
                        candle_is_green,
                    );
                    self@ == done + orig.skip(i as int) && journal@ == j && outcomes.deep_view()
                        == outs
                }),
            decreases orig.len() - i,
        {
            let ghost pre = orig.take(i as int);
            let ghost step = orig.take(i as int + 1);
            let ghost r0 = validation_run(pre, j0, close_ms, candle_is_green);
            proof {
                assert(step.drop_last() =~= pre);
                assert(step.last() == orig[i as int]);
                lemma_validation_run_len(pre, j0, close_ms, candle_is_green);
                assert(self@[i as int] == orig[i as int]);
                assert(orig.skip(i as int).drop_first() =~= orig.skip(i as int + 1));
            }
            match self.validation_outcome(i, close_ms, candle_is_green) {
                Some(o) => {
                    let tid = self.trades[i].trade_id.clone();
                    assert(tid@ == orig[i as int].trade_id);
                    match journal.update_outcome(tid.as_str(), o.as_str()) {
                        Ok(()) => {
                            self.mark_validated(i);
                            let ghost ov = outcomes.deep_view();
                            outcomes.push(o);
                            assert(outcomes.deep_view() =~= ov.push(o@));
                            assert(self@ =~= r0.0.push(
                                PendingTradeView { validation_done: true, ..orig[i as int] },
                            ) + orig.skip(i as int + 1));
                        },
                        Err(_) => {
                            assert(self@ =~= r0.0.push(orig[i as int]) + orig.skip(
                                i as int + 1,
                            ));
                        },
                    }
                },
                None => {
                    assert(self@ =~= r0.0.push(orig[i as int]) + orig.skip(i as int + 1));
                },
            }
            i = i + 1;
        }
        proof {
            assert(orig.take(orig.len() as int) =~= orig);
            lemma_validation_run_len(orig, j0, close_ms, candle_is_green);
            assert(self@ =~= validation_run(orig, j0, close_ms, candle_is_green).0);
        }
        self.drop_settled();
        outcomes
    }

    /// Records the answer to a status read of the trade at `i`
    /// (`Some(status)`, or `None` when the read failed), makes the journal
    /// writes that it calls for, and records which succeeded.
    pub fn poll_step(&mut self, journal: &mut TradeLogger, i: usize, status: Option<String>)
        requires
            i < old(self)@.len(),
        ensures
            ({
                let (t, p) = poll_plan_spec(
                    old(self)@[i as int],
                    match status {
                        Some(s) => Some(s@),
                        None => None,
                    },
                );
                let (j, sw, ow) = poll_writes(old(journal)@, old(self)@[i as int].trade_id, p);
                final(self)@ == old(self)@.update(i as int, poll_applied_spec(t, p, sw, ow))
                    && final(journal)@ == j
            }),
    {
        let tid = self.trades[i].trade_id.clone();
        let plan = self.plan_poll(i, status);
        let (status_written, outcome_written) = match &plan {
            PollPlan::Reported { status, write_status, write_no_entry, write_fill } => {
                let sw = if *write_status {
                    journal.update_order_status(tid.as_str(), status.as_str()).is_ok()
                } else {
                    false
                };
                let ow = if *write_no_entry {
                    journal.update_outcome(tid.as_str(), "NO_ENTRY").is_ok()
                } else if *write_fill {
                    let fill = string_of(&upper_ascii_chars(&chars_of(status.as_str())));
                    journal.update_outcome(tid.as_str(), fill.as_str()).is_ok()
                } else {
                    false
                };
                (sw, ow)
            },
            PollPlan::Failing { give_up } => {
                if *give_up {
                    let sw = journal.update_order_status(tid.as_str(), "STATUS_UNKNOWN").is_ok();
                    let ow = journal.update_outcome(tid.as_str(), "STATUS_UNKNOWN").is_ok();
                    (sw, ow)
                } else {
                    (false, false)
                }
            },
        };
        self.apply_poll(i, &plan, status_written, outcome_written);
    }
}

} // verus!

verus! {

proof fn lemma_upper_of_lower_char(c: char)
    ensures
        ascii_upper(ascii_lower(c)) == ascii_upper(c),
{
    if is_ascii_upper(c) {
        assert(((c as u32) + 32) as char as u32 == (c as u32) + 32);
    }
}

proof fn lemma_upper_of_lower(s: Seq<char>)
    ensures
        upper_ascii(lower_ascii(s)) == upper_ascii(s),
{
    assert forall|k: int| 0 <= k < s.len() implies upper_ascii(lower_ascii(s))[k] == upper_ascii(
        s,
    )[k] by {
        lemma_upper_of_lower_char(s[k]);
    }
    assert(upper_ascii(lower_ascii(s)) =~= upper_ascii(s));
}

/// Statuses that differ only in ASCII case are classified alike: filled,
/// ended without fill, and terminal.
pub proof fn law_status_classes_ignore_ascii_case(a: Seq<char>, b: Seq<char>)
    requires
        eq_ignore_ascii_case(a, b),
    ensures
        is_filled(a) == is_filled(b),
        is_non_fill_terminal(a) == is_non_fill_terminal(b),
        is_terminal(a) == is_terminal(b),
{
    lemma_upper_of_lower(a);
    lemma_upper_of_lower(b);
}

/// A trade whose outcome was already written is never validated again.
pub proof fn law_validated_trade_is_not_revalidated(
    t: PendingTradeView,
    close_ms: i64,
    candle_is_green: bool,
)
    requires
        t.validation_done,
    ensures
        validation_outcome_spec(t, close_ms, candle_is_green) is None,
{
}

/// A trade is judged on its target candle only: before it closes nothing
/// is settled.
pub proof fn law_no_outcome_before_target(t: PendingTradeView, close_ms: i64, candle_is_green: bool)
    requires
        t.target_close_time_ms is Some,
        t.target_close_time_ms->0 > close_ms,
    ensures
        validation_outcome_spec(t, close_ms, candle_is_green) is None,
{
}

/// A filled trade judged on its exact target candle is a `WIN` exactly when
/// the candle went the predicted way, and a `LOSS` otherwise.
pub proof fn law_win_iff_candle_matches_prediction(p: Prediction, candle_is_green: bool)
    ensures
        (binance_outcome_label(p, candle_is_green) == "WIN"@) == ((p == Prediction::Up)
            == candle_is_green),
        (binance_outcome_label(p, candle_is_green) == "LOSS"@) == ((p == Prediction::Up)
            != candle_is_green),
{
    reveal_strlit("WIN");
    reveal_strlit("LOSS");
    assert("WIN"@[0] != "LOSS"@[0]);
}

/// After removing the settled trades none remains, and every unsettled
/// trade is kept.
pub proof fn law_drop_keeps_exactly_unsettled(s: Seq<PendingTradeView>)
    ensures
        forall|k: int| 0 <= k < unsettled(s).len() ==> !is_settled(#[trigger] unsettled(s)[k]),
        forall|k: int| 0 <= k < s.len() && !is_settled(s[k]) ==> unsettled(s).contains(#[trigger] s[k]),
        forall|k: int| 0 <= k < unsettled(s).len() ==> s.contains(#[trigger] unsettled(s)[k]),
    decreases s.len(),
{
    if s.len() > 0 {
        let p = s.drop_last();
        law_drop_keeps_exactly_unsettled(p);
        assert forall|k: int| 0 <= k < s.len() && !is_settled(s[k]) implies unsettled(s).contains(
            #[trigger] s[k],
        ) by {
            if k < s.len() - 1 {
                assert(p[k] == s[k]);
                assert(unsettled(p).contains(p[k]));
                let w = choose|w: int| 0 <= w < unsettled(p).len() && unsettled(p)[w] == p[k];
                if !is_settled(s.last()) {
                    assert(unsettled(s)[w] == unsettled(p)[w]);
                }
            } else {
                assert(unsettled(s)[unsettled(s).len() - 1] == s.last());
            }
        }
        assert forall|k: int| 0 <= k < unsettled(s).len() implies s.contains(
            #[trigger] unsettled(s)[k],
        ) by {
            if k < unsettled(p).len() {
                assert(unsettled(s)[k] == unsettled(p)[k]);
                let w = choose|w: int| 0 <= w < p.len() && p[w] == unsettled(p)[k];
                assert(s[w] == p[w]);
            } else {
                assert(s[s.len() - 1] == s.last());
            }
        }
    }
}

/// No two trades share a signal key or an order id.
pub open spec fn keys_unique(s: Seq<PendingTradeView>) -> bool {
    forall|a: int, b: int|
        0 <= a < s.len() && 0 <= b < s.len() && a != b ==> #[trigger] s[a].signal_key
            != #[trigger] s[b].signal_key && s[a].order_id != s[b].order_id
}

/// Following an order keeps signal keys and order ids unique: a trade is
/// added only when no pending trade has its signal key or order id.
pub proof fn law_track_keeps_keys_unique(
    before: Seq<PendingTradeView>,
    added: PendingTradeView,
)
    requires
        keys_unique(before),
        forall|j: int|
            0 <= j < before.len() ==> #[trigger] before[j].signal_key != added.signal_key
                && before[j].order_id != added.order_id,
    ensures
        keys_unique(before.push(added)),
{
    let after = before.push(added);
    assert forall|a: int, b: int|
        0 <= a < after.len() && 0 <= b < after.len() && a != b implies #[trigger] after[a].signal_key
        != #[trigger] after[b].signal_key && after[a].order_id != after[b].order_id by {
        if a < before.len() && b < before.len() {
            assert(after[a] == before[a] && after[b] == before[b]);
        } else if a < before.len() {
            assert(after[a] == before[a] && after[b] == added);
            assert(before[a].signal_key != added.signal_key);
        } else {
            assert(after[b] == before[b] && after[a] == added);
            assert(before[b].signal_key != added.signal_key);
        }
    }
}

/// A successful status read resets the failure counter; a failed one is
/// given up exactly when the failures reach the limit.
pub proof fn law_poll_failure_counting(t: PendingTradeView, s: Seq<char>)
    ensures
        poll_plan_spec(t, Some(s)).0.status_failures == 0,
        t.status_failures < u32::MAX ==> poll_plan_spec(t, None).0.status_failures
            == t.status_failures + 1,
        poll_plan_spec(t, None).1 == (PollPlanView::Failing {
            give_up: t.status_failures + 1 >= MAX_ORDER_STATUS_FAILURES,
        }),
{
}

/// Signal keys do not depend on the ASCII case or the surrounding white
/// space of the strategy name and the slug.
pub proof fn law_signal_key_normalized(
    name_a: Seq<char>,
    name_b: Seq<char>,
    slug_a: Seq<char>,
    slug_b: Seq<char>,
    p: Prediction,
)
    requires
        eq_ignore_ascii_case(trim(name_a), trim(name_b)),
        eq_ignore_ascii_case(trim(slug_a), trim(slug_b)),
    ensures
        signal_key(name_a, slug_a, p) == signal_key(name_b, slug_b, p),
{
}

} // verus!

verus! {

/// The statuses of an order, by what they mean: filled (`MATCHED`,
/// `FILLED`), ended without fill (`CANCELLED`, `EXPIRED`, `UNMATCHED`) and
/// final (those, or `STATUS_UNKNOWN`), all in any ASCII case; a filled
/// status never ended without fill.
pub proof fn law_status_classes(s: Seq<char>)
    ensures
        is_filled(s) <==> (upper_ascii(s) == "MATCHED"@ || upper_ascii(s) == "FILLED"@),
        is_non_fill_terminal(s) <==> (upper_ascii(s) == "CANCELLED"@ || upper_ascii(s)
            == "EXPIRED"@ || upper_ascii(s) == "UNMATCHED"@),
        is_terminal(s) <==> (is_filled(s) || is_non_fill_terminal(s) || eq_ignore_ascii_case(
            s,
            "STATUS_UNKNOWN"@,
        )),
        !(is_filled(s) && is_non_fill_terminal(s)),
{
    reveal_strlit("MATCHED");
    reveal_strlit("FILLED");
    reveal_strlit("CANCELLED");
    reveal_strlit("EXPIRED");
    reveal_strlit("UNMATCHED");
    let u = upper_ascii(s);
    if is_filled(s) && is_non_fill_terminal(s) {
        if u == "MATCHED"@ {
            assert(u.len() == 7);
            assert(u[0] == 'M');
        } else {
            assert(u.len() == 6);
            assert(u[0] == 'F');
        }
        assert(u[0] == 'C' || u[0] == 'E' || u[0] == 'U');
    }
}

/// A trade whose order ended without fill gets the outcome `NO_ENTRY` once
/// its target candle has closed, whatever it predicted and whatever the
/// colour of the candle.
pub proof fn law_unfilled_order_gets_no_entry(
    t: PendingTradeView,
    close_ms: i64,
    candle_is_green: bool,
)
    requires
        !t.validation_done,
        t.target_close_time_ms matches Some(target) && target <= close_ms,
        t.order_status matches Some(s) && (upper_ascii(s) == "CANCELLED"@ || upper_ascii(s)
            == "EXPIRED"@ || upper_ascii(s) == "UNMATCHED"@),
    ensures
        validation_outcome_spec(t, close_ms, candle_is_green) == Some("NO_ENTRY"@),
{
    law_status_classes(t.order_status->0);
}

/// A filled trade judged on its exact target candle is a `WIN` when the
/// candle went the predicted way (green for `Up`, red for `Down`) and a
/// `LOSS` otherwise; judged on a later candle it is `MISSED_VALIDATION`.
pub proof fn law_filled_trade_outcome(
    t: PendingTradeView,
    close_ms: i64,
    candle_is_green: bool,
)
    requires
        !t.validation_done,
        t.prediction is Some,
        t.target_close_time_ms matches Some(target) && target <= close_ms,
        t.order_status matches Some(s) && (upper_ascii(s) == "MATCHED"@ || upper_ascii(s)
            == "FILLED"@),
    ensures
        t.target_close_time_ms == Some(close_ms) ==> validation_outcome_spec(
            t,
            close_ms,
            candle_is_green,
        ) == Some(
            if (t.prediction->0 == Prediction::Up) == candle_is_green {
                "WIN"@
            } else {
                "LOSS"@
            },
        ),
        t.target_close_time_ms != Some(close_ms) ==> validation_outcome_spec(
            t,
            close_ms,
            candle_is_green,
        ) == Some("MISSED_VALIDATION"@),
{
    law_status_classes(t.order_status->0);
    law_win_iff_candle_matches_prediction(t.prediction->0, candle_is_green);
}

/// A trade whose order is neither filled nor ended without fill (still
/// open, or unknown) gets no outcome from a candle.
pub proof fn law_open_order_gets_no_outcome(
    t: PendingTradeView,
    close_ms: i64,
    candle_is_green: bool,
)
    requires
        t.order_status matches Some(s) ==> !(upper_ascii(s) == "MATCHED"@ || upper_ascii(s)
            == "FILLED"@ || upper_ascii(s) == "CANCELLED"@ || upper_ascii(s) == "EXPIRED"@
            || upper_ascii(s) == "UNMATCHED"@),
    ensures
        validation_outcome_spec(t, close_ms, candle_is_green) is None,
{
    if t.order_status is Some {
        law_status_classes(t.order_status->0);
    }
}

/// A status read that reports an order ended without fill writes it as
/// the order's status when it changed, and writes the outcome `NO_ENTRY`;
/// one that reports a fill of a trade awaiting validation writes the
/// status, in upper case, as the outcome; the failure counter starts again.
pub proof fn law_poll_of_final_status(t: PendingTradeView, s: Seq<char>)
    ensures
        poll_plan_spec(t, Some(s)).0.status_failures == 0,
        (upper_ascii(s) == "CANCELLED"@ || upper_ascii(s) == "EXPIRED"@ || upper_ascii(s)
            == "UNMATCHED"@) ==> poll_plan_spec(t, Some(s)).1 == (PollPlanView::Reported {
            status: s,
            write_status: match t.order_status {
                Some(p) => !eq_ignore_ascii_case(p, s),
                None => true,
            },
            write_no_entry: true,
            write_fill: false,
        }),
        (upper_ascii(s) == "MATCHED"@ || upper_ascii(s) == "FILLED"@) ==> poll_plan_spec(
            t,
            Some(s),
        ).1 == (PollPlanView::Reported {
            status: s,
            write_status: match t.order_status {
                Some(p) => !eq_ignore_ascii_case(p, s),
                None => true,
            },
            write_no_entry: false,
            write_fill: !t.validation_done,
        }),
{
    law_status_classes(s);
}

/// The outcome that a filled status writes in the journal is never
/// `PENDING`: it is the status in upper case, `MATCHED` or `FILLED`.
pub proof fn law_fill_outcome_is_final(s: Seq<char>)
    requires
        is_filled(s),
    ensures
        upper_ascii(s) == "MATCHED"@ || upper_ascii(s) == "FILLED"@,
        upper_ascii(s) != "PENDING"@,
{
    reveal_strlit("MATCHED");
    reveal_strlit("FILLED");
    reveal_strlit("PENDING");
    assert("MATCHED"@[0] != "PENDING"@[0]);
    assert("FILLED"@[0] != "PENDING"@[0]);
}

} // verus!
