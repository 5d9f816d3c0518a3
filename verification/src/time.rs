//! The RFC 5322 `date-time` grammar and its constituents, layered on the
//! combinator substrate. Each rule's contract pins the parse down exactly:
//! a rule succeeds if and only if its spec-level grammar function accepts
//! the input, and then returns precisely the value and remainder that the
//! grammar function names.

use vstd::prelude::*;
use vstd::slice::{slice_index_get, slice_subrange};

use crate::combinator::{
    cfws, cfws_scan, digit, digit_run, digits_to_usize, digits_val, fws, fws_len, is_digit,
    optional, tag, take_digits1, two_digit_val, two_digits, CfwsScan,
};
use crate::error::{Error, Res};

verus! {

/// A time-zone offset: sign (true is east of UTC), hour offset, minute
/// offset. The minute offset is at most 59, enforced at parse time.
pub type Zone = (bool, u8, u8);

/// A time of day (hour, minute, second) with its zone.
pub type Time = ((u8, u8, u8), Zone);

/// A calendar date: day of month, month, year.
pub type Date = (usize, Month, usize);

/// An optional weekday name (informational, never cross-validated against
/// the date), a date, and a time.
pub type DateTime = (Option<Day>, Date, Time);

#[derive(Debug, PartialEq, Eq, Structural, Clone, Copy)]
pub enum Day {
    Monday,
    Tuesday,
    Wednesday,
    Thursday,
    Friday,
    Saturday,
    Sunday,
}

#[derive(Debug, PartialEq, Eq, Structural, Clone, Copy)]
pub enum Month {
    January,
    February,
    March,
    April,
    May,
    June,
    July,
    August,
    September,
    October,
    November,
    December,
}

/// ASCII lower-casing of one byte.
pub open spec fn lower8(b: u8) -> u8 {
    if 65 <= b <= 90 {
        (b + 32) as u8
    } else {
        b
    }
}

/// The weekday named by the first three bytes of the input, compared
/// without regard to letter case; `None` when fewer than three bytes
/// remain or the letters name no weekday.
pub open spec fn day_name_spec(s: Seq<u8>) -> Option<Day> {
    if s.len() < 3 {
        None
    } else {
        let a = lower8(s[0]);
        let b = lower8(s[1]);
        let c = lower8(s[2]);
        if a == 109 && b == 111 && c == 110 {
            Some(Day::Monday)
        } else if a == 116 && b == 117 && c == 101 {
            Some(Day::Tuesday)
        } else if a == 119 && b == 101 && c == 100 {
            Some(Day::Wednesday)
        } else if a == 116 && b == 104 && c == 117 {
            Some(Day::Thursday)
        } else if a == 102 && b == 114 && c == 105 {
            Some(Day::Friday)
        } else if a == 115 && b == 97 && c == 116 {
            Some(Day::Saturday)
        } else if a == 115 && b == 117 && c == 110 {
            Some(Day::Sunday)
        } else {
            None
        }
    }
}

/// The month named by the first three bytes of the input, compared without
/// regard to letter case.
pub open spec fn month_spec(s: Seq<u8>) -> Option<Month> {
    if s.len() < 3 {
        None
    } else {
        let a = lower8(s[0]);
        let b = lower8(s[1]);
        let c = lower8(s[2]);
        if a == 106 && b == 97 && c == 110 {
            Some(Month::January)
        } else if a == 102 && b == 101 && c == 98 {
            Some(Month::February)
        } else if a == 109 && b == 97 && c == 114 {
            Some(Month::March)
        } else if a == 97 && b == 112 && c == 114 {
            Some(Month::April)
        } else if a == 109 && b == 97 && c == 121 {
            Some(Month::May)
        } else if a == 106 && b == 117 && c == 110 {
            Some(Month::June)
        } else if a == 106 && b == 117 && c == 108 {
            Some(Month::July)
        } else if a == 97 && b == 117 && c == 103 {
            Some(Month::August)
        } else if a == 115 && b == 101 && c == 112 {
            Some(Month::September)
        } else if a == 111 && b == 99 && c == 116 {
            Some(Month::October)
        } else if a == 110 && b == 111 && c == 118 {
            Some(Month::November)
        } else if a == 100 && b == 101 && c == 99 {
            Some(Month::December)
        } else {
            None
        }
    }
}

/// ASCII lower-casing of one byte, executably.
pub(crate) fn to_lower(b: u8) -> (r: u8)
    ensures
        r == lower8(b),
{
    if b >= 65 && b <= 90 {
        b + 32
    } else {
        b
    }
}

/// Matches a case-insensitive three-letter weekday abbreviation and
/// consumes exactly three bytes.
pub fn day_name(input: &[u8]) -> (r: Res<Day>)
    ensures
        match r {
            Ok((rest, d)) => day_name_spec(input@) == Some(d) && rest@ == input@.skip(3),
            Err(e) => day_name_spec(input@) is None && e is Known,
        },
{
    if input.len() < 3 {
        return Err(Error::Known("Expected day_name, but characters are missing (at least 3)."));
    }
    let a = to_lower(*slice_index_get(input, 0));
    let b = to_lower(*slice_index_get(input, 1));
    let c = to_lower(*slice_index_get(input, 2));
    let rest = slice_subrange(input, 3, input.len());
    if a == 109 && b == 111 && c == 110 {
        Ok((rest, Day::Monday))
    } else if a == 116 && b == 117 && c == 101 {
        Ok((rest, Day::Tuesday))
    } else if a == 119 && b == 101 && c == 100 {
        Ok((rest, Day::Wednesday))
    } else if a == 116 && b == 104 && c == 117 {
        Ok((rest, Day::Thursday))
    } else if a == 102 && b == 114 && c == 105 {
        Ok((rest, Day::Friday))
    } else if a == 115 && b == 97 && c == 116 {
        Ok((rest, Day::Saturday))
    } else if a == 115 && b == 117 && c == 110 {
        Ok((rest, Day::Sunday))
    } else {
        Err(Error::Known("Not a valid day_name"))
    }
}

/// Matches a case-insensitive three-letter month abbreviation and consumes
/// exactly three bytes.
pub fn month(input: &[u8]) -> (r: Res<Month>)
    ensures
        match r {
            Ok((rest, m)) => month_spec(input@) == Some(m) && rest@ == input@.skip(3),
            Err(e) => month_spec(input@) is None && e is Known,
        },
{
    if input.len() < 3 {
        return Err(Error::Known("Expected month, but characters are missing (at least 3)."));
    }
    let a = to_lower(*slice_index_get(input, 0));
    let b = to_lower(*slice_index_get(input, 1));
    let c = to_lower(*slice_index_get(input, 2));
    let rest = slice_subrange(input, 3, input.len());
    if a == 106 && b == 97 && c == 110 {
        Ok((rest, Month::January))
    } else if a == 102 && b == 101 && c == 98 {
        Ok((rest, Month::February))
    } else if a == 109 && b == 97 && c == 114 {
        Ok((rest, Month::March))
    } else if a == 97 && b == 112 && c == 114 {
        Ok((rest, Month::April))
    } else if a == 109 && b == 97 && c == 121 {
        Ok((rest, Month::May))
    } else if a == 106 && b == 117 && c == 110 {
        Ok((rest, Month::June))
    } else if a == 106 && b == 117 && c == 108 {
        Ok((rest, Month::July))
    } else if a == 97 && b == 117 && c == 103 {
        Ok((rest, Month::August))
    } else if a == 115 && b == 101 && c == 112 {
        Ok((rest, Month::September))
    } else if a == 111 && b == 99 && c == 116 {
        Ok((rest, Month::October))
    } else if a == 110 && b == 111 && c == 118 {
        Ok((rest, Month::November))
    } else if a == 100 && b == 101 && c == 99 {
        Ok((rest, Month::December))
    } else {
        Err(Error::Known("Not a valid month"))
    }
}

/// The weekday prefix of a date-time: optional folding whitespace, a
/// weekday name, then a mandatory comma.
pub open spec fn day_of_week_spec(s: Seq<u8>) -> Option<(Seq<u8>, Day)> {
    let s1 = match fws_len(s) {
        Some(n) => s.skip(n),
        None => s,
    };
    match day_name_spec(s1) {
        Some(d) => {
            let s2 = s1.skip(3);
            if s2.len() >= 1 && s2[0] == 44 {
                Some((s2.skip(1), d))
            } else {
                None
            }
        },
        None => None,
    }
}

/// Optional leading folding whitespace, a weekday name, then a mandatory
/// literal comma. A missing comma or unknown name is a hard error, so a
/// caller distinguishes "weekday absent" (wrap in `optional`) from
/// "weekday present but malformed".
pub fn day_of_week(input: &[u8]) -> (r: Res<Day>)
    ensures
        match r {
            Ok((rest, d)) => day_of_week_spec(input@) == Some((rest@, d)),
            Err(_) => day_of_week_spec(input@) is None,
        },
{
    let (input1, _) = optional(input, fws);
    let (input2, day) = day_name(input1)?;
    let mut comma: Vec<u8> = Vec::new();
    comma.push(44);
    match tag(input2, comma.as_slice()) {
        Ok((input3, _)) => {
            proof {
                assert(input2@.take(1)[0] == input2@[0]);
            }
            Ok((input3, day))
        },
        Err(e) => {
            proof {
                if input2@.len() >= 1 && input2@[0] == 44 {
                    assert(input2@.take(1) =~= seq![44u8]);
                }
            }
            Err(e)
        },
    }
}

/// A year: mandatory folding whitespace, one or more digits — at least
/// four of them, naming a value of at least 1990 that fits the machine
/// word — then mandatory folding whitespace.
pub open spec fn year_spec(s: Seq<u8>) -> Option<(Seq<u8>, usize)> {
    match fws_len(s) {
        None => None,
        Some(n) => {
            let s1 = s.skip(n);
            let k = digit_run(s1);
            let v = digits_val(s1.take(k));
            if k < 4 || v > usize::MAX || v < 1990 {
                None
            } else {
                match fws_len(s1.skip(k)) {
                    None => None,
                    Some(m) => Some((s1.skip(k).skip(m), v as usize)),
                }
            }
        },
    }
}

/// Parses a year of at least four digits and at least 1990, with
/// arbitrarily many digits accepted so long as the value fits the machine
/// word.
pub fn year(input: &[u8]) -> (r: Res<usize>)
    ensures
        match r {
            Ok((rest, y)) => year_spec(input@) == Some((rest@, y)),
            Err(_) => year_spec(input@) is None,
        },
{
    let (input1, _) = fws(input)?;
    let (input2, run) = match take_digits1(input1) {
        Ok(x) => x,
        Err(_) => {
            return Err(Error::Known("no digit in year"));
        },
    };
    proof {
        crate::combinator::lemma_digit_run_bounds(input1@);
    }
    if run.len() < 4 {
        return Err(Error::Known("year is expected to have 4 digits or more"));
    }
    let y = match digits_to_usize(run) {
        Some(v) => v,
        None => {
            return Err(Error::Known("Failed to parse year"));
        },
    };
    if y < 1990 {
        return Err(Error::Known("year must be after 1990"));
    }
    let (input3, _) = fws(input2)?;
    Ok((input3, y))
}

/// A day of month: optional folding whitespace, one or two digits naming a
/// value of at most 31, then mandatory folding whitespace.
pub open spec fn day_spec(s: Seq<u8>) -> Option<(Seq<u8>, usize)> {
    let s1 = match fws_len(s) {
        Some(n) => s.skip(n),
        None => s,
    };
    if s1.len() == 0 || !is_digit(s1[0]) {
        None
    } else if s1.len() >= 2 && is_digit(s1[1]) {
        day_tail_spec(s1.skip(2), two_digit_val(s1))
    } else {
        day_tail_spec(s1.skip(1), s1[0] - 48)
    }
}

/// The range check and trailing whitespace shared by both digit counts of
/// [`day_spec`].
pub open spec fn day_tail_spec(s2: Seq<u8>, d: int) -> Option<(Seq<u8>, usize)> {
    if d > 31 {
        None
    } else {
        match fws_len(s2) {
            Some(m) => Some((s2.skip(m), d as usize)),
            None => None,
        }
    }
}

/// Parses a day of month of one or two digits, at most 31. The second
/// digit is taken greedily when present.
pub fn day(input: &[u8]) -> (r: Res<usize>)
    ensures
        match r {
            Ok((rest, d)) => day_spec(input@) == Some((rest@, d)),
            Err(_) => day_spec(input@) is None,
        },
{
    let (input1, _) = optional(input, fws);
    let (mut input2, d1) = digit(input1)?;
    let mut day_val: u8 = d1;
    match digit(input2) {
        Ok((ni, d2)) => {
            day_val = d1 * 10 + d2;
            input2 = ni;
            proof {
                assert(input1@.skip(1).skip(1) =~= input1@.skip(2));
            }
        },
        Err(_) => {},
    }
    if day_val > 31 {
        return Err(Error::Known("day must be less than 31"));
    }
    let (input3, _) = fws(input2)?;
    Ok((input3, day_val as usize))
}

/// A time of day: two digits of hour (at most 23), a colon, two digits of
/// minute (at most 59), then optionally a colon and two digits of second —
/// at most 60, tolerating a leap second. When the colon-seconds group is
/// absent or malformed the second is 0 and nothing more is consumed, but a
/// well-formed group naming a second above 60 is a hard error.
pub open spec fn time_of_day_spec(s: Seq<u8>) -> Option<(Seq<u8>, (u8, u8, u8))> {
    if !(s.len() >= 2 && is_digit(s[0]) && is_digit(s[1])) {
        None
    } else if two_digit_val(s) > 23 {
        None
    } else if !(s.len() >= 3 && s[2] == 58) {
        None
    } else {
        let s1 = s.skip(3);
        if !(s1.len() >= 2 && is_digit(s1[0]) && is_digit(s1[1])) {
            None
        } else if two_digit_val(s1) > 59 {
            None
        } else {
            let h = two_digit_val(s) as u8;
            let m = two_digit_val(s1) as u8;
            let s2 = s1.skip(2);
            if s2.len() >= 3 && s2[0] == 58 && is_digit(s2[1]) && is_digit(s2[2]) {
                let sec = two_digit_val(s2.skip(1));
                if sec > 60 {
                    None
                } else {
                    Some((s2.skip(3), (h, m, sec as u8)))
                }
            } else {
                Some((s2, (h, m, 0u8)))
            }
        }
    }
}

/// Parses hour, minute and optional second, with the leap second 60
/// accepted.
pub fn time_of_day(input: &[u8]) -> (r: Res<(u8, u8, u8)>)
    ensures
        match r {
            Ok((rest, t)) => time_of_day_spec(input@) == Some((rest@, t)),
            Err(_) => time_of_day_spec(input@) is None,
        },
{
    let (input1, hour) = two_digits(input)?;
    if hour > 23 {
        return Err(Error::Known("There is only 24 hours in a day"));
    }
    let mut colon: Vec<u8> = Vec::new();
    colon.push(58);
    let input2 = match tag(input1, colon.as_slice()) {
        Ok((i2, _)) => {
            proof {
                assert(input1@.take(1)[0] == input1@[0]);
                assert(input@.skip(2).skip(1) =~= input@.skip(3));
            }
            i2
        },
        Err(e) => {
            proof {
                if input1@.len() >= 1 && input1@[0] == 58 {
                    assert(input1@.take(1) =~= seq![58u8]);
                }
            }
            return Err(e);
        },
    };
    let (input3, minutes) = two_digits(input2)?;
    if minutes > 59 {
        return Err(Error::Known("There is only 60 minutes per hour"));
    }
    if input3.len() >= 1 && *slice_index_get(input3, 0) == 58 {
        let after_colon = slice_subrange(input3, 1, input3.len());
        match two_digits(after_colon) {
            Ok((rest, seconds)) => {
                if seconds > 60 {
                    return Err(Error::Known("There is only 60 seconds in a minute"));
                }
                proof {
                    assert(input3@.skip(1).skip(2) =~= input3@.skip(3));
                }
                return Ok((rest, (hour, minutes, seconds)));
            },
            Err(_) => {},
        }
    }
    Ok((input3, (hour, minutes, 0)))
}

/// A zone: mandatory folding whitespace, a `+` or `-` sign, two digits of
/// hour offset (any value), and two digits of minute offset, at most 59.
pub open spec fn zone_spec(s: Seq<u8>) -> Option<(Seq<u8>, Zone)> {
    match fws_len(s) {
        None => None,
        Some(n) => {
            let s1 = s.skip(n);
            if s1.len() == 0 || (s1[0] != 43 && s1[0] != 45) {
                None
            } else {
                let s2 = s1.skip(1);
                if !(s2.len() >= 2 && is_digit(s2[0]) && is_digit(s2[1])) {
                    None
                } else {
                    let s3 = s2.skip(2);
                    if !(s3.len() >= 2 && is_digit(s3[0]) && is_digit(s3[1])) {
                        None
                    } else if two_digit_val(s3) > 59 {
                        None
                    } else {
                        Some(
                            (
                                s3.skip(2),
                                (s1[0] == 43, two_digit_val(s2) as u8, two_digit_val(s3) as u8),
                            ),
                        )
                    }
                }
            }
        },
    }
}

/// Parses a zone offset. Any sign character other than `+` or `-`, or a
/// minute offset above 59, is a hard error.
pub fn zone(input: &[u8]) -> (r: Res<Zone>)
    ensures
        match r {
            Ok((rest, z)) => zone_spec(input@) == Some((rest@, z)),
            Err(_) => zone_spec(input@) is None,
        },
{
    let (input1, _) = fws(input)?;
    if input1.len() == 0 {
        return Err(Error::Known("Expected more characters in zone"));
    }
    let sign_byte = *slice_index_get(input1, 0);
    let sign = if sign_byte == 43 {
        true
    } else if sign_byte == 45 {
        false
    } else {
        return Err(Error::Known("Invalid sign character in zone"));
    };
    let input2 = slice_subrange(input1, 1, input1.len());
    let (input3, hours) = two_digits(input2)?;
    let (input4, minutes) = two_digits(input3)?;
    if minutes > 59 {
        return Err(Error::Known("zone minutes out of range"));
    }
    Ok((input4, (sign, hours, minutes)))
}

/// A time: a time of day followed by a zone.
pub open spec fn time_spec(s: Seq<u8>) -> Option<(Seq<u8>, Time)> {
    match time_of_day_spec(s) {
        None => None,
        Some((s1, tod)) => match zone_spec(s1) {
            None => None,
            Some((s2, z)) => Some((s2, (tod, z))),
        },
    }
}

/// Parses a time of day and its zone.
pub fn time(input: &[u8]) -> (r: Res<Time>)
    ensures
        match r {
            Ok((rest, t)) => time_spec(input@) == Some((rest@, t)),
            Err(_) => time_spec(input@) is None,
        },
{
    let (input1, tod) = time_of_day(input)?;
    let (input2, z) = zone(input1)?;
    Ok((input2, (tod, z)))
}

/// A date: day of month, month and year, in that fixed wire order.
pub open spec fn date_spec(s: Seq<u8>) -> Option<(Seq<u8>, Date)> {
    match day_spec(s) {
        None => None,
        Some((s1, d)) => match month_spec(s1) {
            None => None,
            Some(m) => match year_spec(s1.skip(3)) {
                None => None,
                Some((s2, y)) => Some((s2, (d, m, y))),
            },
        },
    }
}

/// Parses day, month and year.
pub fn date(input: &[u8]) -> (r: Res<Date>)
    ensures
        match r {
            Ok((rest, d)) => date_spec(input@) == Some((rest@, d)),
            Err(_) => date_spec(input@) is None,
        },
{
    let (input1, d) = day(input)?;
    let (input2, m) = month(input1)?;
    let (input3, y) = year(input2)?;
    Ok((input3, (d, m, y)))
}

/// A date-time: an optional weekday prefix, a date, a time, then optional
/// trailing comment-and-folding-whitespace.
pub open spec fn date_time_spec(s: Seq<u8>) -> Option<(Seq<u8>, DateTime)> {
    let wd = match day_of_week_spec(s) {
        Some((r, d)) => Some(d),
        None => None,
    };
    let s1 = match day_of_week_spec(s) {
        Some((r, d)) => r,
        None => s,
    };
    match date_spec(s1) {
        None => None,
        Some((s2, d)) => match time_spec(s2) {
            None => None,
            Some((s3, t)) => {
                let s4 = if cfws_scan(s3, 0, 0) matches CfwsScan::Done(n) && n > 0 {
                    s3.skip(cfws_scan(s3, 0, 0)->Done_0)
                } else {
                    s3
                };
                Some((s4, (wd, d, t)))
            },
        },
    }
}

/// Parses a full date-time. The weekday prefix and the trailing
/// comment-and-folding-whitespace are both optional; their absence is not
/// an error, and a failed trailing comment consumes nothing.
pub fn date_time(input: &[u8]) -> (r: Res<DateTime>)
    ensures
        match r {
            Ok((rest, dt)) => date_time_spec(input@) == Some((rest@, dt)),
            Err(_) => date_time_spec(input@) is None,
        },
{
    let (input1, wd) = optional(input, day_of_week);
    let (input2, d) = date(input1)?;
    let (input3, t) = time(input2)?;
    let (input4, _) = optional(input3, cfws);
    Ok((input4, (wd, d, t)))
}

/// The lowercase three-letter abbreviation that names each weekday.
pub open spec fn day_abbrev(d: Day) -> Seq<u8> {
    match d {
        Day::Monday => seq![109, 111, 110],
        Day::Tuesday => seq![116, 117, 101],
        Day::Wednesday => seq![119, 101, 100],
        Day::Thursday => seq![116, 104, 117],
        Day::Friday => seq![102, 114, 105],
        Day::Saturday => seq![115, 97, 116],
        Day::Sunday => seq![115, 117, 110],
    }
}

/// The lowercase three-letter abbreviation that names each month.
pub open spec fn month_abbrev(m: Month) -> Seq<u8> {
    match m {
        Month::January => seq![106, 97, 110],
        Month::February => seq![102, 101, 98],
        Month::March => seq![109, 97, 114],
        Month::April => seq![97, 112, 114],
        Month::May => seq![109, 97, 121],
        Month::June => seq![106, 117, 110],
        Month::July => seq![106, 117, 108],
        Month::August => seq![97, 117, 103],
        Month::September => seq![115, 101, 112],
        Month::October => seq![111, 99, 116],
        Month::November => seq![110, 111, 118],
        Month::December => seq![100, 101, 99],
    }
}

/// Law: every valid three-letter weekday abbreviation is recognized in any
/// letter case — whenever the first three bytes lower-case to a weekday's
/// abbreviation, `day_name` returns that weekday (and, by its contract,
/// consumes exactly three bytes).
pub proof fn lemma_day_name_case_insensitive(s: Seq<u8>, d: Day)
    requires
        s.len() >= 3,
        lower8(s[0]) == day_abbrev(d)[0],
        lower8(s[1]) == day_abbrev(d)[1],
        lower8(s[2]) == day_abbrev(d)[2],
    ensures
        day_name_spec(s) == Some(d),
{
}

/// Law: every valid three-letter month abbreviation is recognized in any
/// letter case — whenever the first three bytes lower-case to a month's
/// abbreviation, `month` returns that month (and, by its contract,
/// consumes exactly three bytes).
pub proof fn lemma_month_case_insensitive(s: Seq<u8>, m: Month)
    requires
        s.len() >= 3,
        lower8(s[0]) == month_abbrev(m)[0],
        lower8(s[1]) == month_abbrev(m)[1],
        lower8(s[2]) == month_abbrev(m)[2],
    ensures
        month_spec(s) == Some(m),
{
}

} // verus!
