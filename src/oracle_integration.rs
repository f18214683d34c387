use vstd::prelude::*;
use crate::bytes::{le_value, read_le, signed_of};
use crate::errors::AegisError;
use crate::types::{OracleAccount, Pubkey};

verus! {

/// Eight decimal places: the fixed-point scale of every normalised price.
pub const PRICE_SCALE: u128 = 100_000_000;

/// Where the current aggregate price starts in a feed's data.
pub const PRICE_OFFSET: usize = 208;

/// The shortest feed data that holds a complete price record.
pub const MIN_FEED_LEN: usize = 240;

/// A raw price sample: `price × 10^expo`, published at `publish_time`.
#[derive(Clone, Copy, Debug, PartialEq, Eq, Structural)]
pub struct OraclePriceSample {
    pub price: i64,
    pub conf: u64,
    pub expo: i32,
    pub publish_time: i64,
}

/// `10^n`.
pub open spec fn pow10(n: nat) -> nat
    decreases n,
{
    if n == 0 {
        1
    } else {
        10 * pow10((n - 1) as nat)
    }
}

pub open spec fn sample_price(data: Seq<u8>) -> int {
    signed_of(le_value(data.subrange(208, 216)), 64)
}

pub open spec fn sample_conf(data: Seq<u8>) -> nat {
    le_value(data.subrange(216, 224))
}

pub open spec fn sample_expo(data: Seq<u8>) -> int {
    signed_of(le_value(data.subrange(224, 228)), 32)
}

pub open spec fn sample_publish_time(data: Seq<u8>) -> int {
    signed_of(le_value(data.subrange(232, 240)), 64)
}

/// The price `price × 10^expo` at eight decimals, rounded down, when it is
/// positive and both it and `10^|expo|` fit their widths.
pub open spec fn normalized_price(price: int, expo: int) -> Result<u64, AegisError> {
    if price <= 0 {
        Err(AegisError::InvalidOracle)
    } else {
        let e = if expo < 0 { -expo } else { expo };
        let v = if expo < 0 {
            price * PRICE_SCALE / pow10(e as nat) as int
        } else {
            price * pow10(e as nat) * PRICE_SCALE
        };
        if pow10(e as nat) > u128::MAX || v > u64::MAX {
            Err(AegisError::Overflow)
        } else {
            Ok(v as u64)
        }
    }
}

/// Whether a sample published at `publish_time` is older than
/// `max_staleness` seconds at `now`.
pub open spec fn is_stale(now: int, publish_time: int, max_staleness: u64) -> bool {
    now - publish_time > max_staleness
}

/// The normalised price that a feed yields at `now`, when it is the expected
/// feed, its data holds a positive and fresh sample, and the value fits.
pub open spec fn oracle_price(
    key: Seq<u8>,
    data: Seq<u8>,
    now: int,
    expected: Seq<u8>,
    max_staleness: u64,
) -> Result<
    u64,
    AegisError,
> {
    if key != expected || data.len() < MIN_FEED_LEN {
        Err(AegisError::InvalidOracle)
    } else if sample_price(data) <= 0 {
        Err(AegisError::InvalidOracle)
    } else if is_stale(now, sample_publish_time(data), max_staleness) {
        Err(AegisError::StaleOraclePrice)
    } else {
        normalized_price(sample_price(data), sample_expo(data))
    }
}

/// The binary outcome a feed reports at `now`: whether its price is positive.
pub open spec fn oracle_outcome(
    key: Seq<u8>,
    data: Seq<u8>,
    now: int,
    expected: Seq<u8>,
    max_staleness: u64,
) -> Result<
    bool,
    AegisError,
> {
    if key != expected || data.len() < MIN_FEED_LEN {
        Err(AegisError::InvalidOracle)
    } else if is_stale(now, sample_publish_time(data), max_staleness) {
        Err(AegisError::StaleOraclePrice)
    } else {
        Ok(sample_price(data) > 0)
    }
}

proof fn lemma_pow10_grows(a: nat, b: nat)
    requires
        a <= b,
    ensures
        pow10(a) <= pow10(b),
        pow10(a) >= 1,
    decreases b,
{
    reveal_with_fuel(pow10, 2);
    if a < b {
        lemma_pow10_grows(a, (b - 1) as nat);
    } else if a > 0 {
        lemma_pow10_grows((a - 1) as nat, (a - 1) as nat);
    }
}

/// `10^n`, or `None` where it does not fit in 128 bits.
fn checked_pow10(n: u32) -> (r: Option<u128>)
    ensures
        r is Some <==> pow10(n as nat) <= u128::MAX,
        r matches Some(v) ==> v == pow10(n as nat),
{
    let mut acc: u128 = 1;
    let mut i: u32 = 0;
    while i < n
        invariant
            i <= n,
            acc == pow10(i as nat),
        decreases n - i,
    {
        match acc.checked_mul(10) {
            Some(next) => {
                acc = next;
            },
            None => {
                proof {
                    lemma_pow10_grows((i + 1) as nat, n as nat);
                }
                return None;
            },
        }
        i = i + 1;
    }
    Some(acc)
}

/// Reads a two's complement value of 64 bits from eight bytes at `off`.
fn read_i64(data: &[u8], off: usize) -> (r: i64)
    requires
        off + 8 <= data@.len(),
    ensures
        r as int == signed_of(le_value(data@.subrange(off as int, off + 8)), 64),
{
    let u = read_le(data, off, 8);
    proof {
        vstd::arithmetic::power2::lemma2_to64();
        vstd::arithmetic::power2::lemma2_to64_rest();
    }
    if u < 0x8000_0000_0000_0000 {
        u as i64
    } else {
        (u as i128 - 0x1_0000_0000_0000_0000i128) as i64
    }
}

/// Reads a two's complement value of 32 bits from four bytes at `off`.
fn read_i32(data: &[u8], off: usize) -> (r: i32)
    requires
        off + 4 <= data@.len(),
    ensures
        r as int == signed_of(le_value(data@.subrange(off as int, off + 4)), 32),
{
    let u = read_le(data, off, 4);
    proof {
        vstd::arithmetic::power2::lemma2_to64();
    }
    if u < 0x8000_0000 {
        u as i32
    } else {
        (u as i64 - 0x1_0000_0000i64) as i32
    }
}

/// Reads the current aggregate price record of a feed's data.
pub fn parse_pyth_price_account(data: &[u8]) -> (r: Result<OraclePriceSample, AegisError>)
    ensures
        r is Ok <==> data@.len() >= MIN_FEED_LEN,
        r is Err ==> r == Err::<OraclePriceSample, AegisError>(AegisError::InvalidOracle),
        r matches Ok(s) ==> {
            &&& s.price as int == sample_price(data@)
            &&& s.conf as nat == sample_conf(data@)
            &&& s.expo as int == sample_expo(data@)
            &&& s.publish_time as int == sample_publish_time(data@)
        },
{
    if data.len() < MIN_FEED_LEN {
        return Err(AegisError::InvalidOracle);
    }
    let price = read_i64(data, PRICE_OFFSET);
    let conf = read_le(data, PRICE_OFFSET + 8, 8);
    let expo = read_i32(data, PRICE_OFFSET + 16);
    let publish_time = read_i64(data, PRICE_OFFSET + 24);
    Ok(OraclePriceSample { price, conf, expo, publish_time })
}

/// Converts `price × 10^expo` to an unsigned value with eight decimals.
pub fn normalize_to_8_decimals(price: i64, expo: i32) -> (r: Result<u64, AegisError>)
    ensures
        r == normalized_price(price as int, expo as int),
{
    if price <= 0 {
        return Err(AegisError::InvalidOracle);
    }
    let e: u32 = if expo < 0 {
        (-(expo as i64)) as u32
    } else {
        expo as u32
    };
    let p = price as u128;
    let ghost v: int = if expo < 0 {
        price * PRICE_SCALE / pow10(e as nat) as int
    } else {
        price * pow10(e as nat) * PRICE_SCALE
    };
    let pow = match checked_pow10(e) {
        Some(x) => x,
        None => {
            return Err(AegisError::Overflow);
        },
    };
    proof {
        lemma_pow10_grows(0, e as nat);
    }
    let scaled: u128 = if expo < 0 {
        assert(p * PRICE_SCALE <= 0x7fff_ffff_ffff_ffff * 100_000_000) by (nonlinear_arith)
            requires
                p <= 0x7fff_ffff_ffff_ffff,
        ;
        p * PRICE_SCALE / pow
    } else {
        let m = match p.checked_mul(pow) {
            Some(x) => x,
            None => {
                assert(v > u64::MAX) by (nonlinear_arith)
                    requires
                        v == p * pow * PRICE_SCALE,
                        p * pow > u128::MAX,
                ;
                return Err(AegisError::Overflow);
            },
        };
        match m.checked_mul(PRICE_SCALE) {
            Some(x) => x,
            None => {
                return Err(AegisError::Overflow);
            },
        }
    };
    assert(scaled == v);
    if scaled > u64::MAX as u128 {
        return Err(AegisError::Overflow);
    }
    Ok(scaled as u64)
}

/// Whether a sample published at `publish_time` is too old at `now`.
fn stale(now: i64, publish_time: i64, max_staleness: u64) -> (r: bool)
    ensures
        r == is_stale(now as int, publish_time as int, max_staleness),
{
    (now as i128) - (publish_time as i128) > max_staleness as i128
}

/// Reads the normalised price of a collateral slot's feed, after checking
/// that it is the configured feed and that its sample is positive and fresh.
pub fn fetch_oracle_price(
    oracle_account: &OracleAccount,
    current_timestamp: i64,
    expected_oracle: &Pubkey,
    max_staleness: u64,
) -> (r: Result<u64, AegisError>)
    ensures
        r == oracle_price(
            oracle_account.key@,
            oracle_account.data@,
            current_timestamp as int,
            expected_oracle@,
            max_staleness,
        ),
{
    if !oracle_account.key.same_as(expected_oracle) {
        return Err(AegisError::InvalidOracle);
    }
    let sample = match parse_pyth_price_account(oracle_account.data.as_slice()) {
        Ok(s) => s,
        Err(e) => {
            return Err(e);
        },
    };
    if sample.price <= 0 {
        return Err(AegisError::InvalidOracle);
    }
    if stale(current_timestamp, sample.publish_time, max_staleness) {
        return Err(AegisError::StaleOraclePrice);
    }
    normalize_to_8_decimals(sample.price, sample.expo)
}

/// Reads the binary outcome of a market's resolution feed: whether its
/// price is positive.
pub fn fetch_oracle_outcome(
    oracle_account: &OracleAccount,
    current_timestamp: i64,
    expected_oracle: &Pubkey,
    max_staleness: u64,
) -> (r: Result<bool, AegisError>)
    ensures
        r == oracle_outcome(
            oracle_account.key@,
            oracle_account.data@,
            current_timestamp as int,
            expected_oracle@,
            max_staleness,
        ),
{
    if !oracle_account.key.same_as(expected_oracle) {
        return Err(AegisError::InvalidOracle);
    }
    let sample = match parse_pyth_price_account(oracle_account.data.as_slice()) {
        Ok(s) => s,
        Err(e) => {
            return Err(e);
        },
    };
    if stale(current_timestamp, sample.publish_time, max_staleness) {
        return Err(AegisError::StaleOraclePrice);
    }
    Ok(sample.price > 0)
}

/// The time-weighted price of a feed; the feed's current price stands for it.
pub fn calculate_twap(
    oracle_account: &OracleAccount,
    current_timestamp: i64,
    expected_oracle: &Pubkey,
    max_staleness: u64,
) -> (r: Result<u64, AegisError>)
    ensures
        r == oracle_price(
            oracle_account.key@,
            oracle_account.data@,
            current_timestamp as int,
            expected_oracle@,
            max_staleness,
        ),
{
    fetch_oracle_price(oracle_account, current_timestamp, expected_oracle, max_staleness)
}

/// Checks that a feed is the expected one and is publishing: a fresh sample
/// with a non-zero price.
pub fn validate_oracle_account(
    oracle_account: &OracleAccount,
    current_timestamp: i64,
    expected_oracle: &Pubkey,
    max_staleness: u64,
) -> (r: Result<(), AegisError>)
    ensures
        oracle_account.key@ != expected_oracle@ ==> r == Err::<(), AegisError>(
            AegisError::InvalidOracle,
        ),
        oracle_account.key@ == expected_oracle@ ==> r == match oracle_outcome(
            oracle_account.key@,
            oracle_account.data@,
            current_timestamp as int,
            expected_oracle@,
            max_staleness,
        ) {
            Err(e) => Err(e),
            Ok(_) => if sample_price(oracle_account.data@) != 0 {
                Ok(())
            } else {
                Err(AegisError::InvalidOracle)
            },
        },
{
    if !oracle_account.key.same_as(expected_oracle) {
        return Err(AegisError::InvalidOracle);
    }
    let sample = match parse_pyth_price_account(oracle_account.data.as_slice()) {
        Ok(s) => s,
        Err(e) => {
            return Err(e);
        },
    };
    if stale(current_timestamp, sample.publish_time, max_staleness) {
        return Err(AegisError::StaleOraclePrice);
    }
    if sample.price == 0 {
        return Err(AegisError::InvalidOracle);
    }
    Ok(())
}

} // verus!
