//! Days and hours on which signals are not traded.
use vstd::prelude::*;
use crate::text::{chars_eq, chars_of, owned};

verus! {

/// Why a signal is not traded.
#[derive(Debug, PartialEq, Eq)]
pub enum TradingFilterReason {
    /// The candle closed on this day (`mon` .. `sun`).
    ExcludedDay(String),
    /// The candle closed in this UTC hour.
    ExcludedHour(u32),
}

pub const MILLIS_PER_DAY: i64 = 86_400_000;

pub const MILLIS_PER_HOUR: i64 = 3_600_000;

/// The day of the week of the instant `ms` (milliseconds since the Unix
/// epoch, UTC), from 0 for Monday to 6 for Sunday; 1970-01-01 was a
/// Thursday.
pub open spec fn weekday_index(ms: int) -> int {
    (ms / 86_400_000 + 3) % 7
}

/// The UTC hour of the instant `ms`.
pub open spec fn hour_of_day(ms: int) -> int {
    (ms % 86_400_000) / 3_600_000
}

/// The key of a day of the week, from 0 for Monday.
pub open spec fn weekday_key_of(d: int) -> Seq<char> {
    if d == 0 {
        "mon"@
    } else if d == 1 {
        "tue"@
    } else if d == 2 {
        "wed"@
    } else if d == 3 {
        "thu"@
    } else if d == 4 {
        "fri"@
    } else if d == 5 {
        "sat"@
    } else {
        "sun"@
    }
}

/// The reason not to trade a signal whose candle closed at `ms`: its day
/// when listed, else its hour when inside a range `[start, end)`.
pub open spec fn filter_reason(
    ms: int,
    days: Seq<Seq<char>>,
    hours: Seq<(u32, u32)>,
) -> Option<(bool, Seq<char>, int)> {
    let day = weekday_key_of(weekday_index(ms));
    let hour = hour_of_day(ms);
    if days.contains(day) {
        Some((true, day, 0))
    } else if exists|k: int| 0 <= k < hours.len() && #[trigger] hours[k].0 <= hour < hours[k].1 {
        Some((false, Seq::empty(), hour))
    } else {
        None
    }
}

/// Day of the week (0 for Monday) and UTC hour of the instant `ms`.
pub fn weekday_and_hour(ms: i64) -> (r: (u32, u32))
    ensures
        r.0 == weekday_index(ms as int),
        r.1 == hour_of_day(ms as int),
{
    let m = ms as i128;
    let day: i128 = 86_400_000;
    let q: i128 = if m >= 0 {
        m / day
    } else {
        -((-m - 1) / day) - 1
    };
    let rem: i128 = m - q * day;
    proof {
        let mi = m as int;
        let di: int = 86_400_000;
        if m < 0 {
            let a: int = -mi - 1;
            let qa: int = a / di;
            let ra: int = a % di;
            assert(a == qa * di + ra && 0 <= ra < di) by (nonlinear_arith)
                requires
                    di == 86_400_000,
                    0 <= a,
                    qa == a / di,
                    ra == a % di,
            ;
            assert(q == -qa - 1);
            assert(rem == mi - q * di);
            assert(rem == di - 1 - ra) by (nonlinear_arith)
                requires
                    rem == mi - q * di,
                    q == -qa - 1,
                    a == qa * di + ra,
                    a == -mi - 1,
            ;
        } else {
            let qm: int = mi / di;
            let rm: int = mi % di;
            assert(mi == qm * di + rm && 0 <= rm < di) by (nonlinear_arith)
                requires
                    di == 86_400_000,
                    0 <= mi,
                    qm == mi / di,
                    rm == mi % di,
            ;
            assert(q == qm);
        }
        assert(0 <= rem < di);
        assert(q == mi / di && rem == mi % di) by (nonlinear_arith)
            requires
                mi == q * di + rem,
                0 <= rem < di,
                di == 86_400_000,
        ;
    }
    let qq = q + 3;
    let w: i128 = if qq >= 0 {
        qq % 7
    } else {
        let a = (-qq) % 7;
        if a == 0 {
            0
        } else {
            7 - a
        }
    };
    proof {
        let qi = qq as int;
        if qq >= 0 {
            assert(w == qi % 7);
        } else {
            let b: int = -qi;
            let kb: int = b / 7;
            let a: int = b % 7;
            assert(b == kb * 7 + a && 0 <= a < 7) by (nonlinear_arith)
                requires
                    0 <= b,
                    kb == b / 7,
                    a == b % 7,
            ;
            if a == 0 {
                assert(qi == (-kb) * 7 + 0);
                assert(qi % 7 == 0) by (nonlinear_arith)
                    requires
                        qi == (-kb) * 7,
                ;
            } else {
                assert(qi == (-kb - 1) * 7 + (7 - a));
                assert(qi % 7 == 7 - a) by (nonlinear_arith)
                    requires
                        qi == (-kb - 1) * 7 + (7 - a),
                        0 < 7 - a < 7,
                ;
            }
        }
        assert(w == qi % 7);
    }
    assert(0 <= w < 7);
    let h = rem / 3_600_000;
    assert(0 <= h < 24) by (nonlinear_arith)
        requires
            h == rem / 3_600_000,
            0 <= rem < 86_400_000,
    ;
    (w as u32, h as u32)
}

/// The key of a day of the week, from 0 for Monday.
pub fn weekday_key(day: u32) -> (r: &'static str)
    requires
        day < 7,
    ensures
        r@ == weekday_key_of(day as int),
{
    if day == 0 {
        "mon"
    } else if day == 1 {
        "tue"
    } else if day == 2 {
        "wed"
    } else if day == 3 {
        "thu"
    } else if day == 4 {
        "fri"
    } else if day == 5 {
        "sat"
    } else {
        "sun"
    }
}

/// Why a signal whose candle closed at `close_time_ms` (milliseconds since
/// the Unix epoch) is not traded: an excluded day first, then an excluded
/// hour range `[start, end)`; `None` when it is traded.
pub fn trading_filter_reason(
    close_time_ms: i64,
    excluded_days: &Vec<String>,
    excluded_hours: &Vec<(u32, u32)>,
) -> (r: Option<TradingFilterReason>)
    ensures
        match filter_reason(close_time_ms as int, excluded_days.deep_view(), excluded_hours@) {
            None => r is None,
            Some((true, d, _)) => r matches Some(TradingFilterReason::ExcludedDay(s)) && s@ == d,
            Some((false, _, h)) => r == Some(TradingFilterReason::ExcludedHour(h as u32)),
        },
{
    let (wd, hour) = weekday_and_hour(close_time_ms);
    let day = weekday_key(wd);
    let dv = chars_of(day);
    let ghost days = excluded_days.deep_view();
    let mut i: usize = 0;
    while i < excluded_days.len()
        invariant
            0 <= i <= excluded_days@.len(),
            days == excluded_days.deep_view(),
            dv@ == day@,
            day@ == weekday_key_of(weekday_index(close_time_ms as int)),
            forall|k: int| 0 <= k < i ==> days[k] != day@,
        decreases excluded_days@.len() - i,
    {
        let e = chars_of(excluded_days[i].as_str());
        if chars_eq(&e, &dv) {
            assert(days[i as int] == day@);
            assert(days.contains(day@));
            assert(day@ == weekday_key_of(weekday_index(close_time_ms as int)));
            assert(filter_reason(close_time_ms as int, days, excluded_hours@) == Some(
                (true, day@, 0int),
            ));
            return Some(TradingFilterReason::ExcludedDay(owned(day)));
        }
        i = i + 1;
    }
    assert(!days.contains(day@)) by {
        if days.contains(day@) {
            let j = choose|j: int| 0 <= j < days.len() && days[j] == day@;
            assert(days[j] != day@);
        }
    }
    let mut k: usize = 0;
    while k < excluded_hours.len()
        invariant
            0 <= k <= excluded_hours@.len(),
            hour == hour_of_day(close_time_ms as int),
            !excluded_days.deep_view().contains(weekday_key_of(weekday_index(close_time_ms as int))),
            forall|j: int|
                0 <= j < k ==> !(#[trigger] excluded_hours@[j].0 <= hour < excluded_hours@[j].1),
        decreases excluded_hours@.len() - k,
    {
        let (start, end) = excluded_hours[k];
        if hour >= start && hour < end {
            assert(excluded_hours@[k as int].0 <= hour < excluded_hours@[k as int].1);
            assert(!excluded_days.deep_view().contains(weekday_key_of(weekday_index(close_time_ms as int))));
            return Some(TradingFilterReason::ExcludedHour(hour));
        }
        k = k + 1;
    }
    None
}

/// The end of an hour range is excluded: a candle closing in hour `end`
/// is not filtered by the range `[start, end)` alone.
pub proof fn law_hour_range_end_exclusive(ms: int, start: u32, end: u32)
    requires
        hour_of_day(ms) == end,
    ensures
        filter_reason(ms, Seq::empty(), seq![(start, end)]) is None,
{
    assert(!Seq::<Seq<char>>::empty().contains(weekday_key_of(weekday_index(ms))));
    assert forall|k: int| 0 <= k < 1 implies !(#[trigger] seq![(start, end)][k].0 <= hour_of_day(
        ms,
    ) < seq![(start, end)][k].1) by {
        assert(seq![(start, end)][k] == (start, end));
    }
}

/// A candle that closes in an hour inside an excluded range `[start, end)`
/// is filtered, its start hour included; on a day that is not excluded the
/// reason is that hour.
pub proof fn law_hour_in_excluded_range_is_filtered(
    ms: int,
    days: Seq<Seq<char>>,
    hours: Seq<(u32, u32)>,
    k: int,
)
    requires
        0 <= k < hours.len(),
        hours[k].0 <= hour_of_day(ms) < hours[k].1,
    ensures
        filter_reason(ms, days, hours) is Some,
        !days.contains(weekday_key_of(weekday_index(ms))) ==> filter_reason(ms, days, hours)
            == Some((false, Seq::<char>::empty(), hour_of_day(ms))),
{
    assert(hours[k].0 <= hour_of_day(ms) < hours[k].1);
}

/// The start hour of a range is excluded: a candle closing in hour `start`
/// is filtered by the range `[start, end)` alone.
pub proof fn law_hour_range_start_inclusive(ms: int, start: u32, end: u32)
    requires
        hour_of_day(ms) == start,
        start < end,
    ensures
        filter_reason(ms, Seq::empty(), seq![(start, end)]) == Some(
            (false, Seq::<char>::empty(), start as int),
        ),
{
    assert(!Seq::<Seq<char>>::empty().contains(weekday_key_of(weekday_index(ms))));
    let hs = seq![(start, end)];
    assert(hs[0] == (start, end));
    assert(hs[0].0 <= hour_of_day(ms) < hs[0].1);
}

/// A candle on an excluded day is filtered for its day; one on another day
/// whose hour lies in no range is traded.
pub proof fn law_day_and_free_hours(ms: int, days: Seq<Seq<char>>, hours: Seq<(u32, u32)>)
    ensures
        days.contains(weekday_key_of(weekday_index(ms))) ==> filter_reason(ms, days, hours)
            == Some((true, weekday_key_of(weekday_index(ms)), 0int)),
        !days.contains(weekday_key_of(weekday_index(ms))) && (forall|k: int|
            0 <= k < hours.len() ==> !(#[trigger] hours[k].0 <= hour_of_day(ms) < hours[k].1))
            ==> filter_reason(ms, days, hours) is None,
{
}

/// The hour and the day of an instant: the hour is between 0 and 23 and
/// grows by one with each hour of the day; the day of the week is between
/// 0 (Monday) and 6, 1970-01-01 was a Thursday (3), and each day moves it on
/// by one.
pub proof fn law_calendar(ms: int, d: int, h: int, r: int)
    requires
        0 <= h < 24,
        0 <= r < 3_600_000,
        ms == d * 86_400_000 + h * 3_600_000 + r,
    ensures
        hour_of_day(ms) == h,
        weekday_index(ms) == (d + 3) % 7,
        0 <= weekday_index(ms) < 7,
        weekday_index(0) == 3,
        weekday_index(ms + 86_400_000) == (weekday_index(ms) + 1) % 7,
{
    let rem = h * 3_600_000 + r;
    assert(0 <= rem < 86_400_000) by (nonlinear_arith)
        requires
            0 <= h < 24,
            0 <= r < 3_600_000,
            rem == h * 3_600_000 + r,
    ;
    assert(ms / 86_400_000 == d && ms % 86_400_000 == rem) by (nonlinear_arith)
        requires
            ms == d * 86_400_000 + rem,
            0 <= rem < 86_400_000,
    ;
    assert(rem / 3_600_000 == h) by (nonlinear_arith)
        requires
            rem == h * 3_600_000 + r,
            0 <= r < 3_600_000,
    ;
    assert((ms + 86_400_000) / 86_400_000 == d + 1) by (nonlinear_arith)
        requires
            ms == d * 86_400_000 + rem,
            0 <= rem < 86_400_000,
    ;
    assert(((d + 1) + 3) % 7 == ((d + 3) % 7 + 1) % 7) by (nonlinear_arith);
}

/// The keys of the days of the week, from Monday (0) to Sunday (6).
pub proof fn law_weekday_keys()
    ensures
        weekday_key_of(0) == "mon"@,
        weekday_key_of(1) == "tue"@,
        weekday_key_of(2) == "wed"@,
        weekday_key_of(3) == "thu"@,
        weekday_key_of(4) == "fri"@,
        weekday_key_of(5) == "sat"@,
        weekday_key_of(6) == "sun"@,
{
}

} // verus!
