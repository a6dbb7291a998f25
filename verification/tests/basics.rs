use extended_connector::amount::Amount;
use extended_connector::clock::{date_text, known_date, utc_instant, whole_seconds};
use extended_connector::state::ClockFault;
use extended_connector::symbols::{text_precedes, SymbolSet};
use extended_connector::text::{
    contains_text, decimal_places, decimal_text, has_prefix, join_texts, parse_u64, same_text,
    signed_decimal_text, strip_suffix_text,
};

fn amount(x: f64) -> Amount {
    Amount { bits: x.to_bits() }
}

#[test]
fn amounts_compare_like_the_numbers_they_hold() {
    let samples = [
        0.0,
        -0.0,
        1.0,
        -1.0,
        0.9999999999999999,
        1.0000000000000002,
        5e-324,
        -5e-324,
        f64::MAX,
        f64::MIN,
        f64::INFINITY,
        f64::NEG_INFINITY,
        f64::NAN,
        -f64::NAN,
        0.0006,
    ];
    for x in samples {
        let a = amount(x);
        assert_eq!(a.is_positive(), x > 0.0, "{}", x);
        assert_eq!(a.is_nonzero(), x.abs() > 0.0, "{}", x);
        assert_eq!(a.at_most_zero(), x <= 0.0, "{}", x);
        assert_eq!(a.at_least_zero(), x >= 0.0, "{}", x);
        assert_eq!(a.at_least_one(), x >= 1.0, "{}", x);
        assert_eq!(a.below_one(), x < 1.0, "{}", x);
    }
}

#[test]
fn the_larger_amount_is_the_larger_number() {
    let samples = [1.0, -1.0, 2.5, -2.5, f64::INFINITY, 5e-324, 1e300];
    for x in samples {
        for y in samples {
            assert_eq!(amount(x).max(amount(y)), amount(x.max(y)));
            assert_eq!(amount(x).max(amount(y)), amount(y).max(amount(x)));
        }
    }
    assert_eq!(amount(f64::NAN).max(amount(3.0)), amount(3.0));
    assert_eq!(amount(3.0).max(amount(f64::NAN)), amount(3.0));
    assert_eq!(amount(-4.0).max(Amount::zero()), amount(0.0));
}

#[test]
fn numbers_are_printed_in_decimal() {
    assert_eq!(decimal_text(0), "0");
    assert_eq!(decimal_text(10), "10");
    assert_eq!(decimal_text(u64::MAX), u64::MAX.to_string());
    assert_eq!(signed_decimal_text(0), "0");
    assert_eq!(signed_decimal_text(-7), "-7");
    assert_eq!(signed_decimal_text(i64::MIN), i64::MIN.to_string());
    assert_eq!(signed_decimal_text(1731628800123), "1731628800123");
}

#[test]
fn numbers_are_parsed_as_the_standard_parser_does() {
    for text in [
        "0",
        "123",
        "+123",
        "007",
        "18446744073709551615",
        "18446744073709551616",
        "",
        "+",
        "-1",
        " 1",
        "1 ",
        "12a",
        "++1",
        "99999999999999999999999",
    ] {
        assert_eq!(parse_u64(text), text.parse::<u64>().ok(), "{:?}", text);
    }
}

#[test]
fn texts_are_searched_and_cut() {
    assert!(same_text("BTC", "BTC"));
    assert!(!same_text("BTC", "btc"));
    assert!(contains_text("Long Extended / Short Pacifica", "Long Extended"));
    assert!(!contains_text("Short Extended / Long Pacifica", "Long Extended"));
    assert!(contains_text("abc", ""));
    assert!(!contains_text("", "a"));
    assert!(has_prefix("BTC-USD", "BTC"));
    assert!(!has_prefix("BT", "BTC"));
    assert_eq!(strip_suffix_text("BTC-USD", "-USD"), "BTC");
    assert_eq!(strip_suffix_text("BTC-EUR", "-USD"), "BTC-EUR");
    assert_eq!(strip_suffix_text("-USD", "-USD"), "");
    let parts = vec!["a".to_string(), "b".to_string(), "c".to_string()];
    assert_eq!(join_texts(&parts, ", "), "a, b, c");
    assert_eq!(join_texts(&Vec::new(), ", "), "");
}

#[test]
fn symbol_sets_are_sorted_and_hold_nothing_twice() {
    let mut set = SymbolSet::new();
    for symbol in ["SOL", "BTC", "SOL", "ETH", "BTCX", "BTC"] {
        set.insert(symbol);
    }
    let mut expected = vec!["SOL", "BTC", "ETH", "BTCX"];
    expected.sort();
    assert_eq!(*set.members(), expected);
    assert!(set.contains("ETH"));
    assert!(!set.contains("DOGE"));
}

#[test]
fn texts_are_ordered_as_the_standard_order_does() {
    let samples = ["", "A", "AB", "B", "a", "\u{e9}", "\u{10348}", "\u{ffff}"];
    for a in samples {
        for b in samples {
            assert_eq!(text_precedes(a, b), a < b, "{:?} {:?}", a, b);
        }
    }
}

#[test]
fn dates_are_printed_in_utc() {
    assert_eq!(date_text(0), "1970-01-01 00:00:00 UTC");
    assert_eq!(date_text(1700000000), "2023-11-14 22:13:20 UTC");
    assert_eq!(date_text(8_210_266_876_799), "+262142-12-31 23:59:59 UTC");
}

#[test]
fn seconds_without_a_date_are_unknown() {
    assert_eq!(date_text(8_210_266_876_800), "Unknown");
    assert_eq!(date_text(i64::MAX as u64), "Unknown");
    // The largest number wraps around to the second before the epoch.
    assert_eq!(date_text(u64::MAX), "1969-12-31 23:59:59 UTC");
    assert_eq!(date_text((-8_334_601_228_800i64) as u64), "-262143-01-01 00:00:00 UTC");
    assert_eq!(date_text((-8_334_601_228_801i64) as u64), "Unknown");
    assert_eq!(known_date(None), "Unknown");
    assert_eq!(known_date(Some("today".to_string())), "today");
}

#[test]
fn a_reading_is_cut_to_whole_seconds() {
    assert_eq!(whole_seconds(Some((1700000000, 999_999_999))), Some(1700000000));
    assert_eq!(whole_seconds(Some((0, 0))), Some(0));
    assert_eq!(whole_seconds(None), None);
}

#[test]
fn a_reading_has_a_second_and_a_millisecond() {
    assert_eq!(utc_instant(Some((1700000000, 123_999_999))), Ok((1700000000, 1700000000123)));
    assert_eq!(utc_instant(Some((0, 999_999))), Ok((0, 0)));
    assert_eq!(
        utc_instant(Some((8_210_266_876_799, 999_999_999))),
        Ok((8_210_266_876_799, 8_210_266_876_799_999))
    );
    assert_eq!(utc_instant(Some((8_210_266_876_800, 0))), Err(ClockFault::BeyondDates));
    assert_eq!(utc_instant(None), Err(ClockFault::BeforeEpoch));
}

#[test]
fn decimal_places_are_counted_behind_the_dot() {
    assert_eq!(decimal_places("0.25"), 2);
    assert_eq!(decimal_places("1"), 0);
    assert_eq!(decimal_places("10."), 0);
    assert_eq!(decimal_places("0.00001"), 5);
    assert_eq!(decimal_places(""), 0);
}
