use ua_invest_tax::date::Date;
use ua_invest_tax::text::{pad_with_zeros, str_eq, take_before, u64_to_text};

#[test]
fn date_text() {
    assert_eq!(Date { year: 2022, month: 1, day: 2 }.to_string(), "2022-01-02");
    assert_eq!(Date { year: 12345, month: 6, day: 7 }.to_string(), "+12345-06-07");
    assert_eq!(Date { year: -5, month: 12, day: 31 }.to_string(), "-0005-12-31");
    assert_eq!(Date { year: 987, month: 10, day: 10 }.to_string(), "0987-10-10");
}

#[test]
fn date_order() {
    let a = Date { year: 2021, month: 12, day: 31 };
    let b = Date { year: 2022, month: 1, day: 1 };
    let c = Date { year: 2022, month: 1, day: 2 };
    assert!(a.is_before(&b));
    assert!(b.is_before(&c));
    assert!(!c.is_before(&a));
    assert!(!b.is_before(&b));
}

#[test]
fn text_helpers() {
    assert!(str_eq("xml", "xml"));
    assert!(!str_eq("xml", "xm"));
    assert!(!str_eq("Акції", "Акция"));
    assert_eq!(take_before("20220103;093000", ';'), "20220103");
    assert_eq!(take_before("20220103", ';'), "20220103");
    assert_eq!(take_before(";x", ';'), "");
    assert_eq!(u64_to_text(0), "0");
    assert_eq!(u64_to_text(2024), "2024");
    assert_eq!(u64_to_text(u64::MAX), "18446744073709551615");
    assert_eq!(pad_with_zeros(String::from("7"), 4), "0007");
    assert_eq!(pad_with_zeros(String::from("12345"), 4), "12345");
}
