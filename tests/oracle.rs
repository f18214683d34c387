use aegis_protocol::errors::AegisError;
use aegis_protocol::oracle_integration::{
    calculate_twap, fetch_oracle_outcome, fetch_oracle_price, normalize_to_8_decimals,
    parse_pyth_price_account, validate_oracle_account, OraclePriceSample,
};
use aegis_protocol::types::{OracleAccount, Pubkey};

fn feed_data(price: i64, conf: u64, expo: i32, publish_time: i64) -> Vec<u8> {
    let mut data = vec![0u8; 240];
    data[208..216].copy_from_slice(&price.to_le_bytes());
    data[216..224].copy_from_slice(&conf.to_le_bytes());
    data[224..228].copy_from_slice(&expo.to_le_bytes());
    data[232..240].copy_from_slice(&publish_time.to_le_bytes());
    data
}

fn feed(key: u8, price: i64, expo: i32, publish_time: i64) -> OracleAccount {
    OracleAccount { key: Pubkey::new([key; 32]), data: feed_data(price, 3, expo, publish_time) }
}

#[test]
fn test_normalize_price() {
    // 100 × 10^-8 is 0.000001, that is 100 at eight decimals.
    assert_eq!(normalize_to_8_decimals(100, -8), Ok(100));
}

#[test]
fn normalize_exponents() {
    assert_eq!(normalize_to_8_decimals(12345, -2), Ok(12_345_000_000));
    assert_eq!(normalize_to_8_decimals(5, 0), Ok(500_000_000));
    assert_eq!(normalize_to_8_decimals(5, 3), Ok(500_000_000_000));
    assert_eq!(normalize_to_8_decimals(1, -9), Ok(0));
    assert_eq!(normalize_to_8_decimals(0, -8), Err(AegisError::InvalidOracle));
    assert_eq!(normalize_to_8_decimals(-5, -8), Err(AegisError::InvalidOracle));
    assert_eq!(normalize_to_8_decimals(1, 12), Err(AegisError::Overflow));
    assert_eq!(normalize_to_8_decimals(1, 11), Ok(10_000_000_000_000_000_000));
    assert_eq!(normalize_to_8_decimals(1, -39), Err(AegisError::Overflow));
    assert_eq!(normalize_to_8_decimals(1, -38), Ok(0));
    assert_eq!(normalize_to_8_decimals(i64::MAX, i32::MIN), Err(AegisError::Overflow));
}

#[test]
fn parse_price_record() {
    let data = feed_data(-42, 7, -8, 1_700_000_000);
    assert_eq!(
        parse_pyth_price_account(&data),
        Ok(OraclePriceSample { price: -42, conf: 7, expo: -8, publish_time: 1_700_000_000 })
    );
    assert_eq!(parse_pyth_price_account(&data[..239]), Err(AegisError::InvalidOracle));
    assert_eq!(parse_pyth_price_account(&[]), Err(AegisError::InvalidOracle));
}

#[test]
fn fetch_price_checks_identity_sign_and_age() {
    let expected = Pubkey::new([1; 32]);
    let now = 1_000;
    assert_eq!(fetch_oracle_price(&feed(1, 250, -2, 990), now, &expected, 60), Ok(250_000_000));
    assert_eq!(
        fetch_oracle_price(&feed(2, 250, -2, 990), now, &expected, 60),
        Err(AegisError::InvalidOracle)
    );
    assert_eq!(
        fetch_oracle_price(&feed(1, 0, -2, 990), now, &expected, 60),
        Err(AegisError::InvalidOracle)
    );
    assert_eq!(fetch_oracle_price(&feed(1, 250, -2, 940), now, &expected, 60), Ok(250_000_000));
    assert_eq!(
        fetch_oracle_price(&feed(1, 250, -2, 939), now, &expected, 60),
        Err(AegisError::StaleOraclePrice)
    );
    assert_eq!(
        fetch_oracle_price(&feed(1, 250, 20, 990), now, &expected, 60),
        Err(AegisError::Overflow)
    );
    let short = OracleAccount { key: expected, data: vec![0u8; 100] };
    assert_eq!(fetch_oracle_price(&short, now, &expected, 60), Err(AegisError::InvalidOracle));
    assert_eq!(calculate_twap(&feed(1, 250, -2, 990), now, &expected, 60), Ok(250_000_000));
    assert_eq!(fetch_oracle_price(&feed(1, 250, -2, 900), now, &expected, 100), Ok(250_000_000));
    assert_eq!(
        fetch_oracle_price(&feed(1, 250, -2, 899), now, &expected, 100),
        Err(AegisError::StaleOraclePrice)
    );
}

#[test]
fn outcome_and_validation() {
    let expected = Pubkey::new([9; 32]);
    assert_eq!(fetch_oracle_outcome(&feed(9, 1, 0, 100), 120, &expected, 60), Ok(true));
    assert_eq!(fetch_oracle_outcome(&feed(9, -1, 0, 100), 120, &expected, 60), Ok(false));
    assert_eq!(
        fetch_oracle_outcome(&feed(9, 1, 0, 0), 120, &expected, 60),
        Err(AegisError::StaleOraclePrice)
    );
    assert_eq!(
        fetch_oracle_outcome(&feed(8, 1, 0, 100), 120, &expected, 60),
        Err(AegisError::InvalidOracle)
    );
    assert_eq!(validate_oracle_account(&feed(9, -3, 0, 100), 120, &expected, 60), Ok(()));
    assert_eq!(
        validate_oracle_account(&feed(9, 0, 0, 100), 120, &expected, 60),
        Err(AegisError::InvalidOracle)
    );
}
