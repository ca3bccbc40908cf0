use ua_invest_tax::tax::currency_convertor::{Currency, CurrencyConvertorError};

#[test]
fn test_currency_enum_to_string() {
    assert_eq!(Currency::UAH.to_string(), "UAH");
    assert_eq!(Currency::USD.to_string(), "USD");
    assert_eq!(Currency::EUR.to_string(), "EUR");
}

#[test]
fn currency_from_code() {
    assert_eq!(Currency::from_str("UAH").unwrap(), Currency::UAH);
    assert_eq!(Currency::from_str("USD").unwrap(), Currency::USD);
    assert_eq!(Currency::from_str("EUR").unwrap(), Currency::EUR);
}

#[test]
fn currency_from_unknown_code() {
    match Currency::from_str("GBP") {
        Err(CurrencyConvertorError::CurrencyNotSupported { details }) => assert_eq!(details, "GBP"),
        other => panic!("unexpected {:?}", other),
    }
    assert!(Currency::from_str("usd").is_err());
    assert!(Currency::from_str("").is_err());
}

#[test]
fn currency_code_roundtrip() {
    for c in [Currency::UAH, Currency::USD, Currency::EUR] {
        assert_eq!(Currency::from_str(&c.to_string()).unwrap(), c);
    }
}
