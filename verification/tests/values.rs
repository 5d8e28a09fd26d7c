use sectionals::clock::{CalendarDate, TimeOfDay};
use sectionals::decimal::Decimal;
use sectionals::integer::{bool_string, i32_text, parse_bool, parse_i32, parse_u8, u8_text};
use sectionals::text::{chars_of, str_eq, strip_decoration};

fn dec(negative: bool, digits: u64, scale: u8) -> Decimal {
    Decimal { negative, digits, scale }
}

fn time(h: u32, m: u32, s: u32, millis: u32) -> TimeOfDay {
    TimeOfDay { secs: h * 3600 + m * 60 + s, nanos: millis * 1_000_000 }
}

#[test]
fn integers_are_read_as_the_standard_notation_has_them() {
    assert_eq!(parse_i32("0"), Some(0));
    assert_eq!(parse_i32("42"), Some(42));
    assert_eq!(parse_i32("+42"), Some(42));
    assert_eq!(parse_i32("-42"), Some(-42));
    assert_eq!(parse_i32("-0"), Some(0));
    assert_eq!(parse_i32("007"), Some(7));
    assert_eq!(parse_i32("2147483647"), Some(i32::MAX));
    assert_eq!(parse_i32("-2147483648"), Some(i32::MIN));
    assert_eq!(parse_i32("000000000000000000000000000012"), Some(12));
}

#[test]
fn texts_that_are_no_integer_are_refused() {
    assert_eq!(parse_i32(""), None);
    assert_eq!(parse_i32("+"), None);
    assert_eq!(parse_i32("-"), None);
    assert_eq!(parse_i32("abc"), None);
    assert_eq!(parse_i32("12a"), None);
    assert_eq!(parse_i32(" 12"), None);
    assert_eq!(parse_i32("12 "), None);
    assert_eq!(parse_i32("1_000"), None);
    assert_eq!(parse_i32("--1"), None);
    assert_eq!(parse_i32("1.5"), None);
    assert_eq!(parse_i32("\u{0663}"), None);
}

#[test]
fn integers_out_of_range_are_refused() {
    assert_eq!(parse_i32("2147483648"), None);
    assert_eq!(parse_i32("-2147483649"), None);
    assert_eq!(parse_i32("99999999999999999999999999999999999999999"), None);
    assert_eq!(parse_u8("256"), None);
    assert_eq!(parse_u8("1000"), None);
}

#[test]
fn small_unsigned_integers_take_no_minus_sign() {
    assert_eq!(parse_u8("0"), Some(0));
    assert_eq!(parse_u8("255"), Some(255));
    assert_eq!(parse_u8("+7"), Some(7));
    assert_eq!(parse_u8("-7"), None);
    assert_eq!(parse_u8("-0"), None);
    assert_eq!(parse_u8(""), None);
    assert_eq!(parse_u8("+"), None);
}

#[test]
fn integers_agree_with_the_standard_parser() {
    for text in ["0", "-1", "+1", "12345", "-2147483648", "2147483648", "", "x", "+-1", "0010"] {
        assert_eq!(parse_i32(text), text.parse::<i32>().ok(), "{}", text);
        assert_eq!(parse_u8(text), text.parse::<u8>().ok(), "{}", text);
    }
}

#[test]
fn integers_are_written_in_decimal_notation() {
    assert_eq!(i32_text(0), "0");
    assert_eq!(i32_text(7), "7");
    assert_eq!(i32_text(-7), "-7");
    assert_eq!(i32_text(1200), "1200");
    assert_eq!(i32_text(i32::MAX), "2147483647");
    assert_eq!(i32_text(i32::MIN), "-2147483648");
    assert_eq!(u8_text(0), "0");
    assert_eq!(u8_text(9), "9");
    assert_eq!(u8_text(255), "255");
}

#[test]
fn integers_read_back_as_written() {
    for x in [0, 1, -1, 9, 10, -10, 99, 100, 65535, -65536, i32::MAX, i32::MIN] {
        assert_eq!(parse_i32(&i32_text(x)), Some(x));
    }
    for x in 0..=255u8 {
        assert_eq!(parse_u8(&u8_text(x)), Some(x));
    }
}

#[test]
fn booleans_are_true_and_false_in_lower_case() {
    assert_eq!(parse_bool("true"), Some(true));
    assert_eq!(parse_bool("false"), Some(false));
    assert_eq!(parse_bool("True"), None);
    assert_eq!(parse_bool("1"), None);
    assert_eq!(parse_bool(""), None);
    assert_eq!(parse_bool(" true"), None);
    assert_eq!(bool_string(true), "true");
    assert_eq!(bool_string(false), "false");
    assert_eq!(parse_bool(&bool_string(true)), Some(true));
    assert_eq!(parse_bool(&bool_string(false)), Some(false));
}

#[test]
fn decimals_are_read_exactly() {
    assert_eq!(Decimal::parse("15.2"), Some(dec(false, 152, 1)));
    assert_eq!(Decimal::parse("0"), Some(dec(false, 0, 0)));
    assert_eq!(Decimal::parse("1200"), Some(dec(false, 1200, 0)));
    assert_eq!(Decimal::parse("-3.75"), Some(dec(true, 375, 2)));
    assert_eq!(Decimal::parse("+3.75"), Some(dec(false, 375, 2)));
    assert_eq!(Decimal::parse("0.001"), Some(dec(false, 1, 3)));
    assert_eq!(Decimal::parse(".5"), Some(dec(false, 5, 1)));
    assert_eq!(Decimal::parse("5."), Some(dec(false, 5, 0)));
    assert_eq!(Decimal::parse("007.10"), Some(dec(false, 71, 1)));
    assert_eq!(Decimal::parse("18446744073709551615"), Some(dec(false, u64::MAX, 0)));
    assert_eq!(Decimal::parse("0.000000000000000001"), Some(dec(false, 1, 18)));
}

#[test]
fn equal_numbers_are_equal_decimals() {
    assert_eq!(Decimal::parse("15.20"), Decimal::parse("15.2"));
    assert_eq!(Decimal::parse("15.2000000000000000000000000000"), Decimal::parse("15.2"));
    assert_eq!(Decimal::parse("1.0"), Decimal::parse("1"));
    assert_eq!(Decimal::parse("-0.0"), Decimal::parse("0"));
    assert_eq!(Decimal::parse("-0"), Some(Decimal::zero()));
    assert_eq!(Decimal::parse("0.000"), Some(Decimal::zero()));
}

#[test]
fn texts_that_are_no_decimal_are_refused() {
    assert_eq!(Decimal::parse(""), None);
    assert_eq!(Decimal::parse("."), None);
    assert_eq!(Decimal::parse("-"), None);
    assert_eq!(Decimal::parse("+."), None);
    assert_eq!(Decimal::parse("abc"), None);
    assert_eq!(Decimal::parse("1.2.3"), None);
    assert_eq!(Decimal::parse("1,5"), None);
    assert_eq!(Decimal::parse("1e5"), None);
    assert_eq!(Decimal::parse("inf"), None);
    assert_eq!(Decimal::parse("NaN"), None);
    assert_eq!(Decimal::parse(" 1.5"), None);
    assert_eq!(Decimal::parse("1.5 "), None);
    assert_eq!(Decimal::parse("--1"), None);
    assert_eq!(Decimal::parse("1.-5"), None);
}

#[test]
fn decimals_out_of_range_are_refused() {
    assert_eq!(Decimal::parse("18446744073709551616"), None);
    assert_eq!(Decimal::parse("1844674407370955161.6"), None);
    assert_eq!(Decimal::parse("0.0000000000000000001"), None);
    assert_eq!(Decimal::parse("99999999999999999999999999"), None);
}

#[test]
fn decimals_are_written_without_needless_digits() {
    assert_eq!(dec(false, 152, 1).to_text(), "15.2");
    assert_eq!(dec(false, 0, 0).to_text(), "0");
    assert_eq!(dec(true, 375, 2).to_text(), "-3.75");
    assert_eq!(dec(false, 1, 3).to_text(), "0.001");
    assert_eq!(dec(false, 1200, 0).to_text(), "1200");
    assert_eq!(dec(false, 1, 18).to_text(), "0.000000000000000001");
    assert_eq!(dec(false, u64::MAX, 0).to_text(), "18446744073709551615");
    assert_eq!(dec(false, u64::MAX, 18).to_text(), "18.446744073709551615");
}

#[test]
fn decimals_read_back_as_written() {
    for text in ["15.2", "0", "-3.75", "0.001", "1200", "18446744073709551615", "-0.5", "100.01"] {
        let value = Decimal::parse(text).unwrap();
        assert_eq!(value.to_text(), text);
        assert_eq!(Decimal::parse(&value.to_text()), Some(value));
        assert_eq!(Decimal::parse_bare(&value.to_text()), Some(value));
    }
}

#[test]
fn decorated_decimals_lose_their_decoration() {
    assert_eq!(Decimal::parse_bare("[15.2 ]"), Some(dec(false, 152, 1)));
    assert_eq!(Decimal::parse_bare("15.2 km/h"), Some(dec(false, 152, 1)));
    assert_eq!(Decimal::parse_bare("  15.2"), Some(dec(false, 152, 1)));
    assert_eq!(Decimal::parse_bare(""), Some(Decimal::zero()));
    assert_eq!(Decimal::parse_bare("[ ]"), Some(Decimal::zero()));
    assert_eq!(Decimal::parse_bare("fast"), None);
}

#[test]
fn decoration_is_brackets_and_white_space() {
    assert_eq!(strip_decoration("[00:35:12.450 ]"), "00:35:12.450");
    assert_eq!(strip_decoration("00:35:12.450"), "00:35:12.450");
    assert_eq!(strip_decoration("  a b  "), "a");
    assert_eq!(strip_decoration("[[a]]"), "a");
    assert_eq!(strip_decoration("a[b]c d"), "a[b]c");
    assert_eq!(strip_decoration("\t\n x\u{a0}y"), "x");
    assert_eq!(strip_decoration("x\u{3000}"), "x");
    assert_eq!(strip_decoration(""), "");
    assert_eq!(strip_decoration(" ] [ "), "");
    assert_eq!(strip_decoration("1.5 [note]"), "1.5");
    assert_eq!(strip_decoration("\u{e9}t\u{e9} [x]"), "\u{e9}t\u{e9}");
}

#[test]
fn a_bracketed_time_is_read_without_its_brackets() {
    assert_eq!(TimeOfDay::parse("[00:35:12.450 ]"), Some(time(0, 35, 12, 450)));
}

#[test]
fn times_are_read_by_hours_minutes_seconds_and_milliseconds() {
    assert_eq!(TimeOfDay::parse("00:01:56.900"), Some(time(0, 1, 56, 900)));
    assert_eq!(TimeOfDay::parse("23:59:59.999"), Some(time(23, 59, 59, 999)));
    assert_eq!(TimeOfDay::parse("12:34:56"), Some(time(12, 34, 56, 0)));
    assert_eq!(TimeOfDay::parse("7:05:03"), Some(time(7, 5, 3, 0)));
    assert_eq!(TimeOfDay::parse("00:00:00"), Some(TimeOfDay::midnight()));
    assert_eq!(TimeOfDay::parse("00:01:10.5 [fast]"), None);
    assert_eq!(TimeOfDay::parse("00:01:10.500 [fast]"), Some(time(0, 1, 10, 500)));
}

#[test]
fn a_text_of_decoration_only_reads_as_midnight() {
    assert_eq!(TimeOfDay::parse(""), Some(TimeOfDay::midnight()));
    assert_eq!(TimeOfDay::parse("[ ]"), Some(TimeOfDay::midnight()));
    assert_eq!(TimeOfDay::parse("   "), Some(TimeOfDay::midnight()));
}

#[test]
fn texts_that_are_no_time_are_refused() {
    assert_eq!(TimeOfDay::parse("abc"), None);
    assert_eq!(TimeOfDay::parse("24:00:00"), None);
    assert_eq!(TimeOfDay::parse("12:60:00"), None);
    assert_eq!(TimeOfDay::parse("12:00:61"), None);
    assert_eq!(TimeOfDay::parse("12:00"), None);
    assert_eq!(TimeOfDay::parse("12:00:00.1234"), None);
    assert_eq!(TimeOfDay::parse("12:00:00,123"), None);
    assert_eq!(TimeOfDay::parse("1:56.900"), None);
}

#[test]
fn a_leap_second_is_second_59_and_a_thousand_million_more() {
    let leap = TimeOfDay { secs: 23 * 3600 + 59 * 60 + 59, nanos: 1_500_000_000 };
    assert_eq!(TimeOfDay::parse("23:59:60.500"), Some(leap));
    assert_eq!(leap.to_text(), "23:59:60.500");
    assert_eq!(TimeOfDay::parse("08:59:60"), Some(TimeOfDay { secs: 32399, nanos: 1_000_000_000 }));
}

#[test]
fn times_are_written_with_milliseconds_only_where_there_are_any() {
    assert_eq!(TimeOfDay::midnight().to_text(), "00:00:00");
    assert_eq!(time(0, 1, 56, 900).to_text(), "00:01:56.900");
    assert_eq!(time(12, 34, 56, 0).to_text(), "12:34:56");
    assert_eq!(time(23, 59, 59, 999).to_text(), "23:59:59.999");
    assert_eq!(time(1, 2, 3, 4).to_text(), "01:02:03.004");
}

#[test]
fn times_read_back_as_written() {
    for t in [
        TimeOfDay::midnight(),
        time(0, 35, 12, 450),
        time(23, 59, 59, 999),
        time(9, 0, 0, 1),
        TimeOfDay { secs: 86399, nanos: 1_999_000_000 },
        TimeOfDay { secs: 59, nanos: 1_000_000_000 },
    ] {
        assert_eq!(TimeOfDay::parse(&t.to_text()), Some(t));
    }
}

#[test]
fn times_agree_with_chrono() {
    for text in ["00:35:12.450", "23:59:60.500", "7:5:3", "00:00:00", "12:34:56.007"] {
        let expected = chrono::NaiveTime::parse_from_str(text, "%H:%M:%S%.3f").unwrap();
        assert_eq!(TimeOfDay::parse(text).unwrap().to_text(), expected.to_string());
    }
}

#[test]
fn the_date_of_a_date_and_time_is_read() {
    assert_eq!(
        CalendarDate::parse("2024-05-17T13:45:00"),
        Some(CalendarDate { year: 2024, month: 5, day: 17 })
    );
    assert_eq!(
        CalendarDate::parse("1999-12-31T23:59:59"),
        Some(CalendarDate { year: 1999, month: 12, day: 31 })
    );
    assert_eq!(CalendarDate::parse("2024-05-17"), None);
    assert_eq!(CalendarDate::parse("2024-02-30T00:00:00"), None);
    assert_eq!(CalendarDate::parse("2024-13-01T00:00:00"), None);
    assert_eq!(CalendarDate::parse("17/05/2024"), None);
    assert_eq!(CalendarDate::parse(""), None);
}

#[test]
fn dates_are_written_year_month_day() {
    assert_eq!(CalendarDate::epoch().to_text(), "1970-01-01");
    assert_eq!(CalendarDate { year: 2024, month: 5, day: 17 }.to_text(), "2024-05-17");
    assert_eq!(CalendarDate { year: 0, month: 1, day: 1 }.to_text(), "0000-01-01");
    assert_eq!(CalendarDate { year: 9999, month: 12, day: 31 }.to_text(), "9999-12-31");
    assert_eq!(CalendarDate { year: -1, month: 1, day: 1 }.to_text(), "-0001-01-01");
    assert_eq!(CalendarDate { year: 12345, month: 6, day: 7 }.to_text(), "+12345-06-07");
    assert_eq!(CalendarDate { year: -12345, month: 6, day: 7 }.to_text(), "-12345-06-07");
}

#[test]
fn dates_are_written_as_chrono_writes_them() {
    for (y, m, d) in [(1970, 1, 1), (2024, 2, 29), (0, 3, 4), (-1, 1, 1), (10000, 1, 1), (-9999, 12, 31)] {
        let expected = chrono::NaiveDate::from_ymd_opt(y, m, d).unwrap().to_string();
        assert_eq!(CalendarDate { year: y, month: m, day: d }.to_text(), expected);
    }
}

#[test]
fn strings_are_compared_by_their_characters() {
    assert!(str_eq("", ""));
    assert!(str_eq("Horses", "Horses"));
    assert!(!str_eq("Horses", "horses"));
    assert!(!str_eq("Horses", "Horse"));
    assert!(!str_eq("Horse", "Horses"));
    assert!(str_eq("\u{e9}t\u{e9}", "\u{e9}t\u{e9}"));
    assert!(!str_eq("\u{e9}", "e"));
}

#[test]
fn the_characters_of_a_string_come_in_order() {
    let v = chars_of("a\u{e9}\u{4e2d}z");
    assert_eq!(v, vec!['a', '\u{e9}', '\u{4e2d}', 'z']);
    assert!(chars_of("").is_empty());
}
