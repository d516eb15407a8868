//! How long a session is asked for.

use vstd::prelude::*;
use crate::text::{parse_signed, signed_error, signed_of, strip_suffix_char, IntError};

verus! {

/// What is wrong with a duration.
#[derive(Debug, Clone, Copy, PartialEq, Eq, Structural)]
pub enum DurationError {
    /// It ends neither in `d` nor in `h`.
    Unit,
    /// What stands before the unit is no number.
    Number(IntError),
    /// It has more hours than can be counted.
    OutOfRange,
}

/// The hours that a duration such as `24h` or `7d` gives.
pub open spec fn duration_hours(s: Seq<char>) -> Result<int, DurationError> {
    if s.len() > 0 && s.last() == 'd' {
        match signed_of(s.drop_last()) {
            Some(days) => Ok(days * 24),
            None => Err(DurationError::Number(signed_error(s.drop_last()))),
        }
    } else if s.len() > 0 && s.last() == 'h' {
        match signed_of(s.drop_last()) {
            Some(hours) => Ok(hours),
            None => Err(DurationError::Number(signed_error(s.drop_last()))),
        }
    } else {
        Err(DurationError::Unit)
    }
}

/// Whether the hours of the duration can be counted.
pub open spec fn duration_fits(s: Seq<char>) -> bool {
    duration_hours(s) matches Ok(hours) ==> i64::MIN <= hours <= i64::MAX
}

/// Reads a duration. Its hours must be countable; [`request`] asks nothing of its
/// argument.
pub fn parse_duration_hours(s: &str) -> (out: Result<i64, DurationError>)
    requires
        duration_fits(s@),
    ensures
        match out {
            Ok(hours) => duration_hours(s@) == Ok::<int, DurationError>(hours as int),
            Err(e) => duration_hours(s@) == Err::<int, DurationError>(e),
        },
{
    if let Some(d) = strip_suffix_char(s, 'd') {
        return match parse_signed(&d) {
            Ok(days) => Ok(days * 24),
            Err(e) => Err(DurationError::Number(e)),
        };
    }
    if let Some(h) = strip_suffix_char(s, 'h') {
        return match parse_signed(&h) {
            Ok(hours) => Ok(hours),
            Err(e) => Err(DurationError::Number(e)),
        };
    }
    Err(DurationError::Unit)
}

fn fits(s: &str) -> (r: bool)
    ensures
        r == duration_fits(s@),
{
    match strip_suffix_char(s, 'd') {
        Some(d) => match parse_signed(&d) {
            Ok(days) => -(i64::MAX / 24) <= days && days <= i64::MAX / 24,
            Err(_) => true,
        },
        None => true,
    }
}

/// The hours to ask for, where a duration is given.
pub fn request(duration: &Option<String>) -> (out: Result<Option<i64>, DurationError>)
    ensures
        match *duration {
            None => out == Ok::<Option<i64>, DurationError>(None),
            Some(s) => if !duration_fits(s@) {
                out == Err::<Option<i64>, DurationError>(DurationError::OutOfRange)
            } else {
                match duration_hours(s@) {
                    Ok(hours) => out matches Ok(Some(h)) && h == hours,
                    Err(e) => out == Err::<Option<i64>, DurationError>(e),
                }
            },
        },
{
    match duration {
        None => Ok(None),
        Some(s) => {
            if !fits(s) {
                return Err(DurationError::OutOfRange);
            }
            match parse_duration_hours(s) {
                Ok(hours) => Ok(Some(hours)),
                Err(e) => Err(e),
            }
        },
    }
}

/// A day has 24 hours: what is said in days is 24 times what is said in hours, and where
/// the one cannot be read the other cannot.
pub proof fn law_day_has_24_hours(number: Seq<char>)
    ensures
        match duration_hours(number.push('h')) {
            Ok(hours) => duration_hours(number.push('d')) == Ok::<int, DurationError>(24 * hours),
            Err(e) => duration_hours(number.push('d')) == Err::<int, DurationError>(e),
        },
{
    assert(number.push('h').drop_last() =~= number);
    assert(number.push('d').drop_last() =~= number);
}

/// A number of hours is as many hours and a number of days 24 times as many; with anything else
/// at its end, or nothing, a duration is none for want of a unit, and with no number before the
/// unit it is none for that.
pub proof fn law_duration(n: nat, s: Seq<char>)
    requires
        n <= 0x7fff_ffff_ffff_ffff,
    ensures
        duration_hours(crate::text::decimal(n) + seq!['h']) == Ok::<int, DurationError>(n as int),
        duration_hours(crate::text::decimal(n) + seq!['d']) == Ok::<int, DurationError>(24 * n as int),
        duration_hours(seq!['-'] + crate::text::decimal(n) + seq!['h']) == Ok::<
            int,
            DurationError,
        >(-n),
        s.len() == 0 || (s[s.len() - 1] != 'd' && s[s.len() - 1] != 'h') <==> duration_hours(s)
            == Err::<int, DurationError>(DurationError::Unit),
        s.len() > 0 && (s[s.len() - 1] == 'd' || s[s.len() - 1] == 'h') && signed_of(
            s.take(s.len() - 1),
        ) is None ==> duration_hours(s) == Err::<int, DurationError>(
            DurationError::Number(signed_error(s.take(s.len() - 1))),
        ),
        duration_hours(s) matches Ok(hours) ==> (duration_fits(s) <==> -0x8000_0000_0000_0000
            <= hours <= 0x7fff_ffff_ffff_ffff),
        duration_hours(s) is Err ==> duration_fits(s),
{
    crate::text::law_signed(n);
    let d = crate::text::decimal(n);
    assert((d + seq!['h']).drop_last() =~= d);
    assert((d + seq!['d']).drop_last() =~= d);
    assert((seq!['-'] + d + seq!['h']).drop_last() =~= seq!['-'] + d);
    if s.len() > 0 {
        assert(s.take(s.len() - 1) =~= s.drop_last());
    }
}

} // verus!
