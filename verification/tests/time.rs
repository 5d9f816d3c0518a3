use email_parser::combinator::{cfws, fws};
use email_parser::error::Error;
use email_parser::time::{
    date, date_time, day, day_name, day_of_week, month, time, time_of_day, year, zone, Day, Month,
};

#[test]
fn test_day() {
    assert_eq!(day_name(b"Mon ").unwrap().1, Day::Monday);
    assert_eq!(day_name(b"moN ").unwrap().1, Day::Monday);
    assert_eq!(day_name(b"thu").unwrap().1, Day::Thursday);

    assert_eq!(day_of_week(b"   thu, ").unwrap().1, Day::Thursday);
    assert_eq!(day_of_week(b"wed, ").unwrap().1, Day::Wednesday);
    assert_eq!(day_of_week(b" Sun,").unwrap().1, Day::Sunday);

    assert_eq!(day(b"31 ").unwrap().1, 31);
    assert_eq!(day(b"9 ").unwrap().1, 9);
    assert_eq!(day(b"05 ").unwrap().1, 5);
    assert_eq!(day(b"23 ").unwrap().1, 23);
}

#[test]
fn test_month_and_year() {
    assert_eq!(month(b"Apr ").unwrap().1, Month::April);
    assert_eq!(month(b"may ").unwrap().1, Month::May);
    assert_eq!(month(b"deC ").unwrap().1, Month::December);

    assert_eq!(year(b" 2020 ").unwrap().1, 2020);
    assert_eq!(year(b"\r\n 1995 ").unwrap().1, 1995);
    assert_eq!(year(b" 250032 ").unwrap().1, 250032);
}

#[test]
fn test_date() {
    assert_eq!(date(b"1 nov 2020 ").unwrap().1, (1, Month::November, 2020));
    assert_eq!(
        date(b"25 dec 2038 ").unwrap().1,
        (25, Month::December, 2038)
    );

    assert_eq!(
        date_time(b"Mon, 12 Apr 2023 10:25:03 +0000").unwrap().1,
        (
            Some(Day::Monday),
            (12, Month::April, 2023),
            ((10, 25, 3), (true, 0, 0))
        )
    );
    assert_eq!(
        date_time(b"5 May 2003 18:59:03 +0000").unwrap().1,
        (None, (5, Month::May, 2003), ((18, 59, 3), (true, 0, 0)))
    );
}

#[test]
fn test_time() {
    assert_eq!(time_of_day(b"10:40:29").unwrap().1, (10, 40, 29));
    assert_eq!(time_of_day(b"10:40 ").unwrap().1, (10, 40, 0));
    assert_eq!(time_of_day(b"05:23 ").unwrap().1, (5, 23, 0));

    assert_eq!(zone(b" +1000 ").unwrap().1, (true, 10, 0));
    assert_eq!(zone(b" -0523 ").unwrap().1, (false, 5, 23));

    assert_eq!(time(b"06:44 +0100").unwrap().1, ((6, 44, 0), (true, 1, 0)));
    assert_eq!(time(b"23:57 +0000").unwrap().1, ((23, 57, 0), (true, 0, 0)));
    assert_eq!(
        time(b"08:23:02 -0500").unwrap().1,
        ((8, 23, 2), (false, 5, 0))
    );
}

#[test]
fn test_abbreviations_any_case() {
    assert_eq!(day_name(b"SUN").unwrap().1, Day::Sunday);
    assert_eq!(day_name(b"fRi").unwrap().1, Day::Friday);
    assert_eq!(month(b"DEC").unwrap().1, Month::December);
    assert_eq!(month(b"jAn").unwrap().1, Month::January);
    // Exactly three bytes are consumed.
    let (rest, d) = day_name(b"TUExyz").unwrap();
    assert_eq!(d, Day::Tuesday);
    assert_eq!(rest, b"xyz");
    let (rest, m) = month(b"oCtxyz").unwrap();
    assert_eq!(m, Month::October);
    assert_eq!(rest, b"xyz");
    assert!(day_name(b"xyz").is_err());
    assert!(day_name(b"mo").is_err());
    assert!(month(b"xyz").is_err());
}

#[test]
fn test_year_bounds() {
    // Fewer than four digits is rejected, as is anything before 1990.
    assert!(year(b" 199 ").is_err());
    assert!(year(b" 1989 ").is_err());
    assert!(year(b" 0500 ").is_err());
    assert_eq!(year(b" 1990 ").unwrap().1, 1990);
    // Arbitrarily many digits are accepted while the value fits the word.
    assert_eq!(year(b" 00001990 ").unwrap().1, 1990);
    assert!(year(b" 9999999999999999999999999 ").is_err());
    // The whitespace on both sides is mandatory.
    assert!(year(b"2020 ").is_err());
    assert!(year(b" 2020").is_err());
}

#[test]
fn test_time_of_day_bounds() {
    assert!(time_of_day(b"24:00 ").is_err());
    assert!(time_of_day(b"10:60 ").is_err());
    // The leap second 60 is accepted, 61 is not.
    assert_eq!(time_of_day(b"10:40:60").unwrap().1, (10, 40, 60));
    assert!(time_of_day(b"10:40:61").is_err());
    // A malformed seconds group counts as absent and is left unconsumed.
    let (rest, t) = time_of_day(b"10:40:x").unwrap();
    assert_eq!(t, (10, 40, 0));
    assert_eq!(rest, b":x");
}

#[test]
fn test_zone_bounds() {
    assert!(zone(b" *0500 ").is_err());
    assert!(zone(b" 0500 ").is_err());
    assert!(zone(b" +0560 ").is_err());
    assert_eq!(zone(b" +9959 ").unwrap().1, (true, 99, 59));
    assert!(zone(b" +05").is_err());
}

#[test]
fn test_day_bounds() {
    assert!(day(b"32 ").is_err());
    assert_eq!(day(b"0 ").unwrap().1, 0);
    assert!(day(b"31").is_err());
    // A weekday name without its comma is a missing-literal error, which a
    // caller trying alternatives may treat as "this alternative did not
    // match".
    assert!(matches!(day_of_week(b"mon "), Err(Error::TagError(_))));
}

#[test]
fn test_fws_forms() {
    let (rest, _) = fws(b"   x").unwrap();
    assert_eq!(rest, b"x");
    let (rest, _) = fws(b" \r\n  x").unwrap();
    assert_eq!(rest, b"x");
    assert!(fws(b"x").is_err());
    assert!(fws(b"\r\nx").is_err());
}

#[test]
fn test_trailing_comment() {
    let (rest, dt) = date_time(b"5 May 2003 18:59:03 +0000 (a (nested) comment)").unwrap();
    assert_eq!(rest, b"");
    assert_eq!(dt.1, (5, Month::May, 2003));
    let (rest, _) = cfws(b" (quoted \\) paren) after").unwrap();
    assert_eq!(rest, b"after");
}

#[test]
fn test_comment_depth_limit() {
    // 64 nested comments are within the limit.
    let mut fine = Vec::new();
    for _ in 0..64 {
        fine.push(b'(');
    }
    for _ in 0..64 {
        fine.push(b')');
    }
    fine.push(b'x');
    let (rest, _) = cfws(&fine).unwrap();
    assert_eq!(rest, b"x");
    // One level deeper fails with the defined depth error, not a crash.
    let mut deep = Vec::new();
    for _ in 0..65 {
        deep.push(b'(');
    }
    for _ in 0..65 {
        deep.push(b')');
    }
    assert_eq!(
        cfws(&deep).unwrap_err(),
        Error::Known("comment nesting exceeds the maximum depth")
    );
    // Far beyond the limit is still a plain error.
    let mut very_deep = Vec::new();
    for _ in 0..100000 {
        very_deep.push(b'(');
    }
    assert_eq!(
        cfws(&very_deep).unwrap_err(),
        Error::Known("comment nesting exceeds the maximum depth")
    );
}
