//! Candle intervals written as a number and a unit (`5m`, `2h`, `1d`).
use vstd::prelude::*;
use crate::text::{chars_of, parse_i64_chars, parse_i64_spec, slice_chars};

verus! {

/// Unit of an interval.
#[derive(Debug, Clone, Copy, PartialEq, Eq, Structural)]
pub enum IntervalUnit {
    Minutes,
    Hours,
    Days,
}

/// An interval: `value` units.
#[derive(Debug, Clone, Copy, PartialEq, Eq, Structural)]
pub struct IntervalSpan {
    pub value: i64,
    pub unit: IntervalUnit,
}

/// Why an interval cannot be read.
#[derive(Debug, Clone, Copy, PartialEq, Eq, Structural)]
pub enum IntervalError {
    /// Fewer than two characters.
    TooShort,
    /// The part before the unit is not an `i64`.
    InvalidNumber,
    /// The unit is not `m`, `h` or `d`.
    UnknownUnit,
}

/// The interval that `s` writes: an `i64` followed by `m`, `h` or `d`.
pub open spec fn interval_of(s: Seq<char>) -> Result<IntervalSpan, IntervalError> {
    if s.len() < 2 {
        Err(IntervalError::TooShort)
    } else {
        match parse_i64_spec(s.drop_last()) {
            None => Err(IntervalError::InvalidNumber),
            Some(v) => if s.last() == 'm' {
                Ok(IntervalSpan { value: v as i64, unit: IntervalUnit::Minutes })
            } else if s.last() == 'h' {
                Ok(IntervalSpan { value: v as i64, unit: IntervalUnit::Hours })
            } else if s.last() == 'd' {
                Ok(IntervalSpan { value: v as i64, unit: IntervalUnit::Days })
            } else {
                Err(IntervalError::UnknownUnit)
            },
        }
    }
}

/// Reads an interval such as `5m`, `2h` or `1d`. The number is read before
/// the unit, so a bad number is reported before a bad unit. A text whose
/// last character is not ASCII is not accepted (it cannot be cut before its
/// last byte).
pub fn parse_interval_duration(interval: &str) -> (r: Result<IntervalSpan, IntervalError>)
    requires
        interval@.len() == 0 || (interval@.last() as u32) < 128,
    ensures
        r == interval_of(interval@),
{
    let v = chars_of(interval);
    if v.len() < 2 {
        return Err(IntervalError::TooShort);
    }
    let digits = slice_chars(&v, 0, v.len() - 1);
    assert(digits@ =~= interval@.drop_last());
    let value = match parse_i64_chars(&digits) {
        Some(x) => x,
        None => return Err(IntervalError::InvalidNumber),
    };
    let unit = v[v.len() - 1];
    if unit == 'm' {
        Ok(IntervalSpan { value, unit: IntervalUnit::Minutes })
    } else if unit == 'h' {
        Ok(IntervalSpan { value, unit: IntervalUnit::Hours })
    } else if unit == 'd' {
        Ok(IntervalSpan { value, unit: IntervalUnit::Days })
    } else {
        Err(IntervalError::UnknownUnit)
    }
}

/// Milliseconds in one unit.
pub open spec fn unit_millis(u: IntervalUnit) -> int {
    match u {
        IntervalUnit::Minutes => 60_000,
        IntervalUnit::Hours => 3_600_000,
        IntervalUnit::Days => 86_400_000,
    }
}

impl IntervalSpan {
    /// The length of the interval in milliseconds, when it fits in `i64`.
    pub fn millis(&self) -> (r: Option<i64>)
        ensures
            match r {
                Some(ms) => ms == self.value * unit_millis(self.unit),
                None => !(i64::MIN <= self.value * unit_millis(self.unit) <= i64::MAX),
            },
    {
        let per: i64 = match self.unit {
            IntervalUnit::Minutes => 60_000,
            IntervalUnit::Hours => 3_600_000,
            IntervalUnit::Days => 86_400_000,
        };
        self.value.checked_mul(per)
    }
}

/// An interval is a number followed by its unit: `m` for minutes, `h` for
/// hours, `d` for days; a minute is 60 000 ms, an hour 60 minutes, a day 24
/// hours.
pub proof fn law_interval_units(digits: Seq<char>, unit: char)
    requires
        parse_i64_spec(digits) is Some,
    ensures
        interval_of(digits.push(unit)) == if unit == 'm' {
            Ok(IntervalSpan { value: parse_i64_spec(digits)->0 as i64, unit: IntervalUnit::Minutes })
        } else if unit == 'h' {
            Ok(IntervalSpan { value: parse_i64_spec(digits)->0 as i64, unit: IntervalUnit::Hours })
        } else if unit == 'd' {
            Ok(IntervalSpan { value: parse_i64_spec(digits)->0 as i64, unit: IntervalUnit::Days })
        } else {
            Err(IntervalError::UnknownUnit)
        },
        unit_millis(IntervalUnit::Minutes) == 60_000,
        unit_millis(IntervalUnit::Hours) == 60 * unit_millis(IntervalUnit::Minutes),
        unit_millis(IntervalUnit::Days) == 24 * unit_millis(IntervalUnit::Hours),
{
    assert(digits.push(unit).drop_last() =~= digits);
}

} // verus!
