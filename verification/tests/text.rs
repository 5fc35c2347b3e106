use opacore::text::{
    comes_before, format_btc, format_cents, magnitude_of, push_decimal, push_fixed,
    round_to_cents, same_text,
};

#[test]
fn same_text_compares_every_character() {
    assert!(same_text("", ""));
    assert!(same_text("paid", "paid"));
    assert!(!same_text("paid", "pai"));
    assert!(!same_text("paid", "paie"));
    assert!(!same_text("Paid", "paid"));
    assert!(same_text("bÿte", "bÿte"));
}

#[test]
fn dictionary_order_of_timestamps() {
    assert!(comes_before("2024-01-01T00:00:00.000Z", "2024-01-01T00:00:00.001Z"));
    assert!(!comes_before("2024-01-01T00:00:00.001Z", "2024-01-01T00:00:00.000Z"));
    assert!(!comes_before("2024-01-01", "2024-01-01"));
    assert!(comes_before("2024-01-01", "2024-01-01T00"));
    assert!(!comes_before("2024-01-01T00", "2024-01-01"));
    assert!(comes_before("", "a"));
    assert!(!comes_before("a", ""));
    assert!(!comes_before("", ""));
    assert!(comes_before("z", "é"));
}

#[test]
fn decimal_digits_are_appended() {
    let mut text = String::from("n=");
    push_decimal(&mut text, 0);
    push_decimal(&mut text, 907);
    push_decimal(&mut text, u128::MAX);
    assert_eq!(text, "n=0907340282366920938463463374607431768211455");
    let mut fixed = String::new();
    push_fixed(&mut fixed, 7, 3);
    push_fixed(&mut fixed, 12345, 2);
    push_fixed(&mut fixed, 9, 0);
    assert_eq!(fixed, "00745");
}

#[test]
fn cents_are_written_with_two_places() {
    assert_eq!(format_cents(0), "0.00");
    assert_eq!(format_cents(5), "0.05");
    assert_eq!(format_cents(-5), "-0.05");
    assert_eq!(format_cents(120), "1.20");
    assert_eq!(format_cents(-1205), "-12.05");
    assert_eq!(format_cents(123_456_789), "1234567.89");
    assert_eq!(format_cents(i128::MIN), "-1701411834604692317316873037158841057.28");
}

#[test]
fn satoshis_are_written_as_bitcoin_with_eight_places() {
    assert_eq!(format_btc(0), "0.00000000 BTC");
    assert_eq!(format_btc(1), "0.00000001 BTC");
    assert_eq!(format_btc(150_000_000), "1.50000000 BTC");
    assert_eq!(format_btc(2_100_000_000_000_000), "21000000.00000000 BTC");
    assert_eq!(format_btc(u64::MAX), "184467440737.09551615 BTC");
}

#[test]
fn rounding_is_half_away_from_zero() {
    assert_eq!(round_to_cents(0), 0);
    assert_eq!(round_to_cents(49_999_999), 0);
    assert_eq!(round_to_cents(50_000_000), 1);
    assert_eq!(round_to_cents(149_999_999), 1);
    assert_eq!(round_to_cents(150_000_000), 2);
    assert_eq!(round_to_cents(-49_999_999), 0);
    assert_eq!(round_to_cents(-50_000_000), -1);
    assert_eq!(round_to_cents(-150_000_000), -2);
    assert_eq!(round_to_cents(12_345_678_900_000_000), 123_456_789);
    assert_eq!(round_to_cents(i128::MAX), 1_701_411_834_604_692_317_316_873_037_159);
    assert_eq!(round_to_cents(i128::MIN), -1_701_411_834_604_692_317_316_873_037_159);
}

#[test]
fn magnitude_drops_the_sign() {
    assert_eq!(magnitude_of(0), 0);
    assert_eq!(magnitude_of(-1), 1);
    assert_eq!(magnitude_of(17), 17);
    assert_eq!(magnitude_of(i128::MIN), 1u128 << 127);
}
