use rsbar::decimal::{first_space, Decimal};
use rsbar::text::chars_of;

fn canonical(text: &str) -> Option<String> {
    Decimal::parse(text).map(|d| d.to_text())
}

fn percent(text: &str) -> Option<bool> {
    Decimal::parse(text).map(|d| d.is_percent())
}

fn hundredfold(text: &str) -> Option<String> {
    Decimal::parse(text).map(|d| d.times_hundred().to_text())
}

#[test]
fn decimals_are_read_and_written_in_shortest_form() {
    assert_eq!(canonical("30"), Some("30".to_string()));
    assert_eq!(canonical("0"), Some("0".to_string()));
    assert_eq!(canonical("0.45"), Some("0.45".to_string()));
    assert_eq!(canonical("0.450"), Some("0.45".to_string()));
    assert_eq!(canonical("007.10"), Some("7.1".to_string()));
    assert_eq!(canonical("1.00"), Some("1".to_string()));
    assert_eq!(canonical(".5"), Some("0.5".to_string()));
    assert_eq!(canonical("5."), Some("5".to_string()));
    assert_eq!(canonical("+1.5"), Some("1.5".to_string()));
    assert_eq!(canonical("-2.50"), Some("-2.5".to_string()));
    assert_eq!(canonical("-0"), Some("-0".to_string()));
    assert_eq!(canonical("000"), Some("0".to_string()));
    assert_eq!(
        canonical("123456789012345678901234567890.5"),
        Some("123456789012345678901234567890.5".to_string())
    );
}

#[test]
fn what_is_no_decimal_is_refused() {
    for text in ["", ".", "+", "-", "+.", "1.2.3", "1e2", "abc", "1 ", " 1", "--1", "0x10", "1,5", "٣", "inf", "NaN", "0.45 [MUTED]"] {
        assert!(Decimal::parse(text).is_none(), "{}", text);
    }
}

#[test]
fn zero_is_zero() {
    assert_eq!(Decimal::zero().to_text(), "0");
    assert!(Decimal::zero().is_percent());
}

#[test]
fn percent_range_is_zero_to_hundred() {
    assert_eq!(percent("0"), Some(true));
    assert_eq!(percent("0.0"), Some(true));
    assert_eq!(percent("100"), Some(true));
    assert_eq!(percent("100.0"), Some(true));
    assert_eq!(percent("0100"), Some(true));
    assert_eq!(percent("99.999"), Some(true));
    assert_eq!(percent("30"), Some(true));
    assert_eq!(percent("0.001"), Some(true));
    assert_eq!(percent("-0"), Some(true));
    assert_eq!(percent("100.01"), Some(false));
    assert_eq!(percent("101"), Some(false));
    assert_eq!(percent("1000"), Some(false));
    assert_eq!(percent("-1"), Some(false));
    assert_eq!(percent("-0.001"), Some(false));
    assert_eq!(percent("999999999999999999999"), Some(false));
}

#[test]
fn times_hundred_moves_the_point() {
    assert_eq!(hundredfold("0.3"), Some("30".to_string()));
    assert_eq!(hundredfold("30"), Some("3000".to_string()));
    assert_eq!(hundredfold("0.455"), Some("45.5".to_string()));
    assert_eq!(hundredfold("0.005"), Some("0.5".to_string()));
    assert_eq!(hundredfold("0"), Some("0".to_string()));
    assert_eq!(hundredfold("1.2345"), Some("123.45".to_string()));
    assert_eq!(hundredfold("0.45"), Some("45".to_string()));
    assert_eq!(hundredfold("100"), Some("10000".to_string()));
    assert_eq!(hundredfold("-0.5"), Some("-50".to_string()));
}

#[test]
fn read_takes_a_part_of_the_text() {
    let source = "Volume: 0.45\n";
    let chars = chars_of(source);
    let value = Decimal::read(source, &chars, 8, 12);
    assert_eq!(value.map(|d| d.to_text()), Some("0.45".to_string()));
    assert!(Decimal::read(source, &chars, 8, 13).is_none());
    assert!(Decimal::read(source, &chars, 8, 8).is_none());
}

#[test]
fn first_space_finds_the_first() {
    assert_eq!(first_space(&chars_of("Volume: 0.45 [MUTED]")), 7);
    assert_eq!(first_space(&chars_of("nospace")), 7);
    assert_eq!(first_space(&chars_of(" x")), 0);
    assert_eq!(first_space(&chars_of("")), 0);
}
