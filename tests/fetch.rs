use apisvr::fetch::{fee_tiers, parse_gas_price, parse_gas_quantity, FetchError};

#[test]
fn fee_tiers_empty_fails() {
    assert!(matches!(fee_tiers(vec![]), Err(FetchError::Parse(_))));
}

#[test]
fn fee_tiers_one_value() {
    assert_eq!(fee_tiers(vec![5]).unwrap(), (5, 5, 5));
}

#[test]
fn fee_tiers_two_values() {
    assert_eq!(fee_tiers(vec![3, 7]).unwrap(), (3, 3, 7));
    assert_eq!(fee_tiers(vec![7, 3]).unwrap(), (3, 3, 7));
}

#[test]
fn fee_tiers_even_length_takes_upper_middle_index() {
    assert_eq!(fee_tiers(vec![1, 4, 9, 20]).unwrap(), (1, 9, 20));
    assert_eq!(fee_tiers(vec![20, 9, 1, 4]).unwrap(), (1, 9, 20));
}

#[test]
fn fee_tiers_odd_length() {
    assert_eq!(fee_tiers(vec![8, 2, 5]).unwrap(), (2, 5, 8));
    assert_eq!(fee_tiers(vec![4, 4, 4, 1, 9]).unwrap(), (1, 4, 9));
}

#[test]
fn gas_quantity_hex() {
    assert_eq!(parse_gas_quantity("0x3b9aca00").unwrap(), 1_000_000_000);
    assert_eq!(parse_gas_quantity("ff").unwrap(), 255);
    assert_eq!(parse_gas_quantity("0x0xA").unwrap(), 10);
    assert_eq!(parse_gas_quantity("+1f").unwrap(), 31);
    assert_eq!(parse_gas_quantity("0xffffffffffffffff").unwrap(), u64::MAX);
}

#[test]
fn gas_quantity_rejects_bad_input() {
    assert!(matches!(parse_gas_quantity(""), Err(FetchError::Parse(_))));
    assert!(matches!(parse_gas_quantity("0x"), Err(FetchError::Parse(_))));
    assert!(matches!(parse_gas_quantity("0xzz"), Err(FetchError::Parse(_))));
    assert!(matches!(parse_gas_quantity("+"), Err(FetchError::Parse(_))));
    assert!(matches!(
        parse_gas_quantity("0x10000000000000000"),
        Err(FetchError::Parse(_))
    ));
}

#[test]
fn gas_price_from_body() {
    let body = "{\"jsonrpc\":\"2.0\",\"id\":73,\"result\":\"0x4a817c800\"}";
    assert_eq!(parse_gas_price(body).unwrap(), 20_000_000_000);
}

#[test]
fn gas_price_missing_or_bad_field() {
    assert!(matches!(parse_gas_price("{\"status\":\"0\"}"), Err(FetchError::Parse(_))));
    assert!(matches!(parse_gas_price("{\"result\":12}"), Err(FetchError::Parse(_))));
    assert!(matches!(parse_gas_price("not json"), Err(FetchError::Parse(_))));
}
