use opacore::dates::{
    days_between, holding_days, in_tax_year, is_long_term, leading, timestamp_day, timestamp_year,
};

#[test]
fn day_numbers_count_from_year_one() {
    assert_eq!(timestamp_day("0001-01-01"), Some(1));
    assert_eq!(timestamp_day("1970-01-01"), Some(719_163));
    assert_eq!(timestamp_day("1970-01-02T03:04:05.678Z"), Some(719_164));
}

#[test]
fn only_the_first_ten_characters_are_the_date() {
    assert_eq!(timestamp_day("2024-02-29 and then some"), timestamp_day("2024-02-29"));
    assert_eq!(timestamp_day("2024-02-2"), timestamp_day("2024-02-02"));
    assert_eq!(leading("2024-02-29T10:00:00Z", 10), "2024-02-29");
    assert_eq!(leading("2024", 10), "2024");
    assert_eq!(leading("", 10), "");
    assert_eq!(leading("ünïcödé text", 4), "ünïc");
}

#[test]
fn text_without_a_date_has_no_day() {
    assert_eq!(timestamp_day(""), None);
    assert_eq!(timestamp_day("yesterday"), None);
    assert_eq!(timestamp_day("2023-02-30"), None);
    assert_eq!(timestamp_day("2023-13-01"), None);
    assert_eq!(timestamp_day("01/02/2023"), None);
}

#[test]
fn days_between_counts_calendar_days() {
    assert_eq!(days_between("2014-01-01", "2014-01-01"), 0);
    assert_eq!(days_between("2013-12-31", "2014-01-01"), 1);
    assert_eq!(days_between("2014-01-02", "2014-01-01"), -1);
    assert_eq!(days_between("2013-01-01", "2014-01-01"), 365);
    assert_eq!(days_between("2010-01-01", "2014-01-01"), 365 * 4 + 1);
    assert_eq!(days_between("2020-02-28T23:59:59Z", "2020-03-01T00:00:00Z"), 2);
}

#[test]
fn days_between_is_zero_without_two_dates() {
    assert_eq!(days_between("garbage", "2014-01-01"), 0);
    assert_eq!(days_between("2014-01-01", ""), 0);
    assert_eq!(days_between("", ""), 0);
}

#[test]
fn holding_days_of_known_and_unknown_days() {
    assert_eq!(holding_days(Some(100), Some(465)), 365);
    assert_eq!(holding_days(Some(465), Some(100)), -365);
    assert_eq!(holding_days(None, Some(100)), 0);
    assert_eq!(holding_days(Some(100), None), 0);
    assert_eq!(holding_days(Some(i32::MIN), Some(i32::MAX)), u32::MAX as i64);
}

#[test]
fn long_term_starts_after_365_days() {
    assert!(!is_long_term(0));
    assert!(!is_long_term(365));
    assert!(is_long_term(366));
    assert!(!is_long_term(-400));
}

#[test]
fn year_is_read_from_the_first_four_characters() {
    assert_eq!(timestamp_year("2023-12-31T23:59:59Z"), Some(2023));
    assert_eq!(timestamp_year("0007"), Some(7));
    assert_eq!(timestamp_year("+123 more"), Some(123));
    assert_eq!(timestamp_year("-123"), Some(-123));
    assert_eq!(timestamp_year("20a3-01-01"), None);
    assert_eq!(timestamp_year("202"), None);
    assert_eq!(timestamp_year(" 2023"), None);
    assert_eq!(timestamp_year("٢٠٢٣-01-01"), None);
}

#[test]
fn year_filter_matches_the_year_of_the_timestamp() {
    assert!(in_tax_year("2023-12-31", None));
    assert!(in_tax_year("no date", None));
    assert!(in_tax_year("2024-01-01", Some(2024)));
    assert!(!in_tax_year("2023-12-31", Some(2024)));
    assert!(!in_tax_year("no date", Some(2024)));
}
