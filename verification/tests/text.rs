use date_picker::date::{num_days_of_month, Date, MAX_YEAR, MIN_YEAR};
use date_picker::text::parse_date;

fn ymd(year: i32, month: u32, day: u32) -> Date {
    Date { year, month, day }
}

#[test]
fn format_date_pads_with_zeros() {
    assert_eq!(ymd(2024, 3, 7).format_date(), "2024-03-07");
    assert_eq!(ymd(2022, 12, 5).format_date(), "2022-12-05");
    assert_eq!(ymd(2024, 11, 30).format_date(), "2024-11-30");
    assert_eq!(ymd(987, 6, 5).format_date(), "0987-06-05");
    assert_eq!(ymd(1, 1, 1).format_date(), "0001-01-01");
    assert_eq!(ymd(0, 2, 29).format_date(), "0000-02-29");
    assert_eq!(ymd(9999, 12, 31).format_date(), "9999-12-31");
}

#[test]
fn format_date_signs_years_outside_four_digits() {
    assert_eq!(ymd(-1, 12, 31).format_date(), "-0001-12-31");
    assert_eq!(ymd(-987, 1, 2).format_date(), "-0987-01-02");
    assert_eq!(ymd(-9999, 1, 2).format_date(), "-9999-01-02");
    assert_eq!(ymd(-10000, 1, 2).format_date(), "-10000-01-02");
    assert_eq!(ymd(10000, 1, 1).format_date(), "+10000-01-01");
    assert_eq!(ymd(123456, 7, 8).format_date(), "+123456-07-08");
    assert_eq!(ymd(MAX_YEAR, 12, 31).format_date(), "+262142-12-31");
    assert_eq!(ymd(MIN_YEAR, 1, 1).format_date(), "-262143-01-01");
}

#[test]
fn parse_date_reads_what_format_date_writes() {
    assert_eq!(parse_date("2024-03-07"), Some(ymd(2024, 3, 7)));
    assert_eq!(parse_date("2024-02-29"), Some(ymd(2024, 2, 29)));
    assert_eq!(parse_date("0001-01-01"), Some(ymd(1, 1, 1)));
    assert_eq!(parse_date("0000-02-29"), Some(ymd(0, 2, 29)));
    assert_eq!(parse_date("9999-12-31"), Some(ymd(9999, 12, 31)));
    assert_eq!(parse_date("-0001-12-31"), Some(ymd(-1, 12, 31)));
    assert_eq!(parse_date("-10000-01-02"), Some(ymd(-10000, 1, 2)));
    assert_eq!(parse_date("+10000-01-01"), Some(ymd(10000, 1, 1)));
    assert_eq!(parse_date("+262142-12-31"), Some(ymd(MAX_YEAR, 12, 31)));
    assert_eq!(parse_date("-262143-01-01"), Some(ymd(MIN_YEAR, 1, 1)));
}

#[test]
fn parse_date_refuses_days_that_do_not_exist() {
    assert_eq!(parse_date("2023-02-29"), None);
    assert_eq!(parse_date("2024-02-30"), None);
    assert_eq!(parse_date("2024-04-31"), None);
    assert_eq!(parse_date("2024-00-10"), None);
    assert_eq!(parse_date("2024-13-10"), None);
    assert_eq!(parse_date("2024-01-00"), None);
    assert_eq!(parse_date("2024-01-32"), None);
    assert_eq!(parse_date("+262143-01-01"), None);
    assert_eq!(parse_date("-262144-12-31"), None);
    assert_eq!(parse_date("+999999-01-01"), None);
}

#[test]
fn parse_date_refuses_other_forms() {
    assert_eq!(parse_date(""), None);
    assert_eq!(parse_date("2024"), None);
    assert_eq!(parse_date("2024-3-7"), None);
    assert_eq!(parse_date("2024-03-7"), None);
    assert_eq!(parse_date("24-03-07"), None);
    assert_eq!(parse_date("02024-03-07"), None);
    assert_eq!(parse_date("2024/03/07"), None);
    assert_eq!(parse_date("2024-03-07 "), None);
    assert_eq!(parse_date(" 2024-03-07"), None);
    assert_eq!(parse_date("2024-03-07T00"), None);
    assert_eq!(parse_date("2024-03-0x"), None);
    assert_eq!(parse_date("20x4-03-07"), None);
    assert_eq!(parse_date("2024-0a-07"), None);
    assert_eq!(parse_date("2024-03_07"), None);
    assert_eq!(parse_date("2024_03-07"), None);
    assert_eq!(parse_date("07-03-2024"), None);
    assert_eq!(parse_date("٢٠٢٤-٠٣-٠٧"), None);
    assert_eq!(parse_date("２０２４-03-07"), None);
    assert_eq!(parse_date("2024-03-07-01-01"), None);
}

#[test]
fn parse_date_refuses_signs_that_format_date_does_not_write() {
    assert_eq!(parse_date("+2024-03-07"), None);
    assert_eq!(parse_date("+0000-03-07"), None);
    assert_eq!(parse_date("-0000-03-07"), None);
    assert_eq!(parse_date("10000-01-01"), None);
    assert_eq!(parse_date("-00001-12-31"), None);
    assert_eq!(parse_date("+010000-01-01"), None);
    assert_eq!(parse_date("--001-12-31"), None);
    assert_eq!(parse_date("+-001-12-31"), None);
    assert_eq!(parse_date("-001-12-31"), None);
    assert_eq!(parse_date("+1000000-01-01"), None);
}

#[test]
fn text_round_trips_for_every_day_of_some_years() {
    for year in [-10001, -10000, -9999, -1, 0, 1, 999, 1000, 2023, 2024, 9999, 10000, 99999, 100000] {
        for month in 1..=12u32 {
            for day in 1..=num_days_of_month(year, month) {
                let date = ymd(year, month, day);
                let text = date.format_date();
                assert_eq!(parse_date(&text), Some(date), "{}", text);
            }
        }
    }
}
