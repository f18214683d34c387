use vstd::prelude::*;
use crate::errors::AegisError;
use crate::oracle_integration::{fetch_oracle_price, oracle_price, PRICE_SCALE};
use crate::types::{GlobalConfig, OracleAccount, Pubkey, UserPosition};

verus! {

/// `Σ amounts[i] × prices[i]` over the first `n` slots.
pub open spec fn collateral_value(amounts: Seq<u64>, prices: Seq<u64>, n: nat) -> int
    decreases n,
{
    if n == 0 {
        0
    } else {
        collateral_value(amounts, prices, (n - 1) as nat) + amounts[n - 1] * prices[n - 1]
    }
}

/// The value of the collateral at the given per-slot prices.
pub open spec fn total_value(amounts: Seq<u64>, prices: Seq<u64>) -> int {
    collateral_value(amounts, prices, amounts.len())
}

/// The prices of the first `n` slots: the feed of a funded slot is read, an
/// empty slot is priced at zero. The first feed that fails decides the error.
pub open spec fn slot_prices(
    amounts: Seq<u64>,
    expected: Seq<Pubkey>,
    accounts: Seq<OracleAccount>,
    now: int,
    max_staleness: u64,
    n: nat,
) -> Result<Seq<u64>, AegisError>
    decreases n,
{
    if n == 0 {
        Ok(Seq::empty())
    } else {
        match slot_prices(amounts, expected, accounts, now, max_staleness, (n - 1) as nat) {
            Err(e) => Err(e),
            Ok(ps) => if amounts[n - 1] == 0 {
                Ok(ps.push(0))
            } else {
                match oracle_price(
                    accounts[n - 1].key@,
                    accounts[n - 1].data@,
                    now,
                    expected[n - 1]@,
                    max_staleness,
                ) {
                    Err(e) => Err(e),
                    Ok(p) => Ok(ps.push(p)),
                }
            },
        }
    }
}

/// The prices of every slot of `amounts`, after checking that a feed is
/// supplied for each configured collateral. Fewer feeds than configured
/// collaterals give `OracleMismatch`, even where every funded slot has its
/// feed: appraisal fails closed rather than value a position on part of
/// its feeds.
pub open spec fn position_prices(
    amounts: Seq<u64>,
    config: GlobalConfig,
    accounts: Seq<OracleAccount>,
    now: int,
) -> Result<Seq<u64>, AegisError> {
    if accounts.len() < config.oracle_accounts@.len() {
        Err(AegisError::OracleMismatch)
    } else {
        slot_prices(
            amounts,
            config.oracle_accounts@,
            accounts,
            now,
            config.max_oracle_staleness,
            amounts.len(),
        )
    }
}

/// The checked value of collateral at given prices.
pub open spec fn appraisal(amounts: Seq<u64>, prices: Seq<u64>) -> Result<u128, AegisError> {
    if total_value(amounts, prices) > u128::MAX {
        Err(AegisError::Overflow)
    } else {
        Ok(total_value(amounts, prices) as u128)
    }
}

/// Whether collateral worth `value` covers `debt` at `ratio`.
pub open spec fn ratio_check(value: int, debt: u64, ratio: u64) -> Result<(), AegisError> {
    if value >= debt * ratio {
        Ok(())
    } else {
        Err(AegisError::UnderCollateralized)
    }
}

/// The collateral-ratio check at given prices.
pub open spec fn collateral_check(amounts: Seq<u64>, prices: Seq<u64>, debt: u64, ratio: u64) -> Result<
    (),
    AegisError,
> {
    match appraisal(amounts, prices) {
        Err(e) => Err(e),
        Ok(v) => ratio_check(v as int, debt, ratio),
    }
}

/// The most debt that collateral worth `value` supports at `ratio`.
pub open spec fn max_mintable(value: int, ratio: u64) -> Result<u64, AegisError> {
    if ratio == 0 || value / ratio as int > u64::MAX {
        Err(AegisError::Overflow)
    } else {
        Ok((value / ratio as int) as u64)
    }
}

/// The health factor of collateral worth `value` against `debt`, at eight
/// decimals; the largest value stands for an unbounded factor when there is
/// no debt.
pub open spec fn health_factor(value: int, debt: u64) -> Result<u64, AegisError> {
    if debt == 0 {
        Ok(u64::MAX)
    } else if value * PRICE_SCALE > u128::MAX || value * PRICE_SCALE / debt as int > u64::MAX {
        Err(AegisError::Overflow)
    } else {
        Ok((value * PRICE_SCALE / debt as int) as u64)
    }
}

/// `Σ prices`.
pub open spec fn price_sum(prices: Seq<u64>) -> int
    decreases prices.len(),
{
    if prices.len() == 0 {
        0
    } else {
        price_sum(prices.drop_last()) + prices.last()
    }
}

/// How many of `prices` lie within `threshold` of `mean`.
pub open spec fn agreeing(prices: Seq<u64>, mean: int, threshold: int) -> nat
    decreases prices.len(),
{
    if prices.len() == 0 {
        0
    } else {
        agreeing(prices.drop_last(), mean, threshold) + if abs_diff(prices.last() as int, mean)
            <= threshold {
            1nat
        } else {
            0nat
        }
    }
}

pub open spec fn abs_diff(a: int, b: int) -> int {
    if a >= b {
        a - b
    } else {
        b - a
    }
}

/// At least two samples lie within 1% (rounded down) of the mean (rounded
/// down); fewer than two samples always agree.
pub open spec fn consensus(prices: Seq<u64>) -> bool {
    prices.len() < 2 || {
        let mean = price_sum(prices) / prices.len() as int;
        agreeing(prices, mean, mean / 100) >= 2
    }
}

/// The prices of the funded slots, in slot order.
pub open spec fn funded_prices(amounts: Seq<u64>, prices: Seq<u64>, n: nat) -> Seq<u64>
    decreases n,
{
    if n == 0 {
        Seq::empty()
    } else if amounts[n - 1] == 0 {
        funded_prices(amounts, prices, (n - 1) as nat)
    } else {
        funded_prices(amounts, prices, (n - 1) as nat).push(prices[n - 1])
    }
}

/// The liquidation decision at given prices: the funded prices must agree
/// when there are at least two, and the position is liquidatable when its
/// collateral is worth less than its debt requires.
pub open spec fn liquidation_check(amounts: Seq<u64>, prices: Seq<u64>, debt: u64, ratio: u64) -> Result<
    bool,
    AegisError,
> {
    match appraisal(amounts, prices) {
        Err(e) => Err(e),
        Ok(v) => if !consensus(funded_prices(amounts, prices, amounts.len())) {
            Err(AegisError::OracleConsensusFailure)
        } else {
            Ok((v as int) < debt * ratio)
        },
    }
}

proof fn lemma_product_fits(a: u64, b: u64)
    ensures
        0 <= a * b <= u64::MAX * u64::MAX,
{
    assert(0 <= a * b <= u64::MAX * u64::MAX) by (nonlinear_arith);
}

/// Whether the prices agree: at least two of them lie within 1% of their
/// mean. Fewer than two prices agree trivially.
pub fn check_oracle_consensus(prices: &[u64]) -> (r: bool)
    ensures
        r == consensus(prices@),
{
    let n = prices.len();
    if n < 2 {
        return true;
    }
    let mut sum: u128 = 0;
    let mut i: usize = 0;
    while i < n
        invariant
            n == prices@.len(),
            i <= n,
            sum == price_sum(prices@.subrange(0, i as int)),
            sum <= i * u64::MAX,
        decreases n - i,
    {
        assert(prices@.subrange(0, i + 1).drop_last() =~= prices@.subrange(0, i as int));
        assert(sum + prices[i as int] <= (i + 1) * u64::MAX) by (nonlinear_arith)
            requires
                sum <= i * u64::MAX,
                prices[i as int] <= u64::MAX,
        ;
        assert((i + 1) * u64::MAX <= u128::MAX) by (nonlinear_arith)
            requires
                i < n,
                n <= usize::MAX,
        ;
        sum = sum + prices[i] as u128;
        i = i + 1;
    }
    assert(prices@.subrange(0, n as int) =~= prices@);
    let mean = sum / n as u128;
    let threshold = mean / 100;
    let mut count: usize = 0;
    let mut j: usize = 0;
    while j < n
        invariant
            n == prices@.len(),
            j <= n,
            mean == price_sum(prices@) / n as int,
            threshold == mean / 100,
            count == agreeing(prices@.subrange(0, j as int), mean as int, threshold as int),
            count <= j,
        decreases n - j,
    {
        assert(prices@.subrange(0, j + 1).drop_last() =~= prices@.subrange(0, j as int));
        let p = prices[j] as u128;
        let diff = if p > mean {
            p - mean
        } else {
            mean - p
        };
        if diff <= threshold {
            count = count + 1;
        }
        j = j + 1;
    }
    assert(prices@.subrange(0, n as int) =~= prices@);
    count >= 2
}

/// The price of every slot of `amounts`; a slot's feed is read only when
/// the slot holds collateral.
pub fn fetch_slot_prices(
    amounts: &[u64],
    config: &GlobalConfig,
    oracle_accounts: &[OracleAccount],
    current_timestamp: i64,
) -> (r: Result<Vec<u64>, AegisError>)
    requires
        amounts@.len() <= config.oracle_accounts@.len(),
    ensures
        r matches Ok(ps) ==> position_prices(
            amounts@,
            *config,
            oracle_accounts@,
            current_timestamp as int,
        ) == Ok::<Seq<u64>, AegisError>(ps@),
        r matches Err(e) ==> position_prices(
            amounts@,
            *config,
            oracle_accounts@,
            current_timestamp as int,
        ) == Err::<Seq<u64>, AegisError>(e),
        r matches Ok(ps) ==> ps@.len() == amounts@.len(),
{
    if oracle_accounts.len() < config.oracle_accounts.len() {
        return Err(AegisError::OracleMismatch);
    }
    let mut prices: Vec<u64> = Vec::new();
    let mut i: usize = 0;
    while i < amounts.len()
        invariant
            i <= amounts@.len(),
            amounts@.len() <= config.oracle_accounts@.len() <= oracle_accounts@.len(),
            slot_prices(
                amounts@,
                config.oracle_accounts@,
                oracle_accounts@,
                current_timestamp as int,
                config.max_oracle_staleness,
                i as nat,
            ) == Ok::<Seq<u64>, AegisError>(prices@),
        decreases amounts@.len() - i,
    {
        if amounts[i] == 0 {
            prices.push(0);
        } else {
            match fetch_oracle_price(
                &oracle_accounts[i],
                current_timestamp,
                &config.oracle_accounts[i],
                config.max_oracle_staleness,
            ) {
                Ok(p) => {
                    prices.push(p);
                },
                Err(e) => {
                    proof {
                        lemma_slot_error_stays(
                            amounts@,
                            config.oracle_accounts@,
                            oracle_accounts@,
                            current_timestamp as int,
                            config.max_oracle_staleness,
                            (i + 1) as nat,
                            amounts@.len(),
                        );
                    }
                    return Err(e);
                },
            }
        }
        i = i + 1;
    }
    proof {
        lemma_slot_prices_len(
            amounts@,
            config.oracle_accounts@,
            oracle_accounts@,
            current_timestamp as int,
            config.max_oracle_staleness,
            amounts@.len(),
        );
    }
    Ok(prices)
}

/// The value of collateral at given prices, `Σ amounts[i] × prices[i]`,
/// in 128 bits; `Overflow` where it does not fit.
pub fn appraise(amounts: &[u64], prices: &[u64]) -> (r: Result<u128, AegisError>)
    requires
        prices@.len() == amounts@.len(),
    ensures
        r == appraisal(amounts@, prices@),
{
    let mut total: u128 = 0;
    let mut i: usize = 0;
    while i < amounts.len()
        invariant
            i <= amounts@.len() == prices@.len(),
            total == collateral_value(amounts@, prices@, i as nat),
        decreases amounts@.len() - i,
    {
        proof {
            lemma_product_fits(amounts@[i as int], prices@[i as int]);
            lemma_value_grows(amounts@, prices@, (i + 1) as nat, amounts@.len());
        }
        let value = amounts[i] as u128 * prices[i] as u128;
        if total > u128::MAX - value {
            return Err(AegisError::Overflow);
        }
        total = total + value;
        i = i + 1;
    }
    Ok(total)
}

proof fn lemma_value_grows(amounts: Seq<u64>, prices: Seq<u64>, a: nat, b: nat)
    requires
        a <= b <= amounts.len(),
        prices.len() == amounts.len(),
    ensures
        collateral_value(amounts, prices, a) <= collateral_value(amounts, prices, b),
        0 <= collateral_value(amounts, prices, a),
    decreases b,
{
    if a < b {
        lemma_value_grows(amounts, prices, a, (b - 1) as nat);
        lemma_product_fits(amounts[b - 1], prices[b - 1]);
    } else if a > 0 {
        lemma_value_grows(amounts, prices, (a - 1) as nat, (a - 1) as nat);
        lemma_product_fits(amounts[a - 1], prices[a - 1]);
    }
}

/// Checks that collateral at given prices covers `minted_debt` at
/// `min_ratio`: `Σ amounts[i] × prices[i] ≥ minted_debt × min_ratio`,
/// computed exactly.
pub fn check_collateral_ratio(amounts: &[u64], prices: &[u64], minted_debt: u64, min_ratio: u64) -> (r:
    Result<(), AegisError>)
    requires
        prices@.len() == amounts@.len(),
    ensures
        r == collateral_check(amounts@, prices@, minted_debt, min_ratio),
        r is Ok <==> total_value(amounts@, prices@) <= u128::MAX && total_value(amounts@, prices@)
            >= minted_debt * min_ratio,
        r == Err::<(), AegisError>(AegisError::Overflow) <==> total_value(amounts@, prices@)
            > u128::MAX,
{
    let value = match appraise(amounts, prices) {
        Ok(v) => v,
        Err(e) => {
            return Err(e);
        },
    };
    proof {
        lemma_product_fits(minted_debt, min_ratio);
        lemma_value_grows(amounts@, prices@, amounts@.len(), amounts@.len());
    }
    let required = minted_debt as u128 * min_ratio as u128;
    if value >= required {
        Ok(())
    } else {
        Err(AegisError::UnderCollateralized)
    }
}

/// Checks that a position's collateral, at its feeds' prices, covers its
/// debt at the configured minimum ratio. Fewer feeds than configured
/// collaterals give `OracleMismatch`.
pub fn verify_collateral_ratio(
    position: &UserPosition,
    config: &GlobalConfig,
    oracle_accounts: &[OracleAccount],
    current_timestamp: i64,
) -> (r: Result<(), AegisError>)
    requires
        position.fits(config),
    ensures
        r == match position_prices(
            position.collateral_amounts@,
            *config,
            oracle_accounts@,
            current_timestamp as int,
        ) {
            Err(e) => Err(e),
            Ok(ps) => collateral_check(
                position.collateral_amounts@,
                ps,
                position.minted_aegis,
                config.min_collateral_ratio,
            ),
        },
        position_prices(
            position.collateral_amounts@,
            *config,
            oracle_accounts@,
            current_timestamp as int,
        ) matches Ok(ps) ==> (r is Ok <==> total_value(position.collateral_amounts@, ps)
            <= u128::MAX && total_value(position.collateral_amounts@, ps) >= position.minted_aegis
            * config.min_collateral_ratio),
{
    let amounts = position.collateral_amounts.as_slice();
    let prices = match fetch_slot_prices(amounts, config, oracle_accounts, current_timestamp) {
        Ok(ps) => ps,
        Err(e) => {
            return Err(e);
        },
    };
    check_collateral_ratio(amounts, prices.as_slice(), position.minted_aegis, config.min_collateral_ratio)
}

proof fn lemma_slot_error_stays(
    amounts: Seq<u64>,
    expected: Seq<Pubkey>,
    accounts: Seq<OracleAccount>,
    now: int,
    max_staleness: u64,
    k: nat,
    m: nat,
)
    requires
        k <= m,
        slot_prices(amounts, expected, accounts, now, max_staleness, k) is Err,
    ensures
        slot_prices(amounts, expected, accounts, now, max_staleness, m) == slot_prices(
            amounts,
            expected,
            accounts,
            now,
            max_staleness,
            k,
        ),
    decreases m,
{
    if k < m {
        lemma_slot_error_stays(amounts, expected, accounts, now, max_staleness, k, (m - 1) as nat);
    }
}

proof fn lemma_slot_prices_len(
    amounts: Seq<u64>,
    expected: Seq<Pubkey>,
    accounts: Seq<OracleAccount>,
    now: int,
    max_staleness: u64,
    n: nat,
)
    ensures
        slot_prices(amounts, expected, accounts, now, max_staleness, n) matches Ok(ps) ==> ps.len() == n,
    decreases n,
{
    if n > 0 {
        lemma_slot_prices_len(amounts, expected, accounts, now, max_staleness, (n - 1) as nat);
    }
}

/// The prices of the slots that hold collateral, in slot order.
fn collect_funded_prices(amounts: &[u64], prices: &[u64]) -> (r: Vec<u64>)
    requires
        prices@.len() == amounts@.len(),
    ensures
        r@ == funded_prices(amounts@, prices@, amounts@.len()),
{
    let mut out: Vec<u64> = Vec::new();
    let mut i: usize = 0;
    while i < amounts.len()
        invariant
            i <= amounts@.len() == prices@.len(),
            out@ == funded_prices(amounts@, prices@, i as nat),
        decreases amounts@.len() - i,
    {
        if amounts[i] != 0 {
            out.push(prices[i]);
        }
        i = i + 1;
    }
    out
}

/// The liquidation decision at given prices: `true` when the collateral is
/// worth less than `minted_debt × min_ratio`. When two or more slots hold
/// collateral their prices must agree first.
pub fn check_liquidation_at(amounts: &[u64], prices: &[u64], minted_debt: u64, min_ratio: u64) -> (r:
    Result<bool, AegisError>)
    requires
        prices@.len() == amounts@.len(),
    ensures
        r == liquidation_check(amounts@, prices@, minted_debt, min_ratio),
{
    let value = match appraise(amounts, prices) {
        Ok(v) => v,
        Err(e) => {
            return Err(e);
        },
    };
    let funded = collect_funded_prices(amounts, prices);
    if funded.len() >= 2 && !check_oracle_consensus(funded.as_slice()) {
        return Err(AegisError::OracleConsensusFailure);
    }
    proof {
        lemma_product_fits(minted_debt, min_ratio);
    }
    let required = minted_debt as u128 * min_ratio as u128;
    Ok(value < required)
}

/// Whether a position may be liquidated: its feeds' prices agree and its
/// collateral no longer covers its debt at the configured minimum ratio.
pub fn check_liquidation_condition(
    position: &UserPosition,
    config: &GlobalConfig,
    oracle_accounts: &[OracleAccount],
    current_timestamp: i64,
) -> (r: Result<bool, AegisError>)
    requires
        position.fits(config),
    ensures
        r == match position_prices(
            position.collateral_amounts@,
            *config,
            oracle_accounts@,
            current_timestamp as int,
        ) {
            Err(e) => Err(e),
            Ok(ps) => liquidation_check(
                position.collateral_amounts@,
                ps,
                position.minted_aegis,
                config.min_collateral_ratio,
            ),
        },
{
    let amounts = position.collateral_amounts.as_slice();
    let prices = match fetch_slot_prices(amounts, config, oracle_accounts, current_timestamp) {
        Ok(ps) => ps,
        Err(e) => {
            return Err(e);
        },
    };
    check_liquidation_at(amounts, prices.as_slice(), position.minted_aegis, config.min_collateral_ratio)
}

/// The health factor at given prices: `⌊value × 10^8 / minted_debt⌋`, or
/// the largest `u64` when there is no debt.
pub fn calculate_health_factor_at(amounts: &[u64], prices: &[u64], minted_debt: u64) -> (r: Result<
    u64,
    AegisError,
>)
    requires
        prices@.len() == amounts@.len(),
    ensures
        minted_debt == 0 ==> r == Ok::<u64, AegisError>(u64::MAX),
        minted_debt != 0 ==> r == match appraisal(amounts@, prices@) {
            Err(e) => Err(e),
            Ok(v) => health_factor(v as int, minted_debt),
        },
{
    if minted_debt == 0 {
        return Ok(u64::MAX);
    }
    let value = match appraise(amounts, prices) {
        Ok(v) => v,
        Err(e) => {
            return Err(e);
        },
    };
    match value.checked_mul(PRICE_SCALE) {
        None => Err(AegisError::Overflow),
        Some(scaled) => {
            let hf = scaled / minted_debt as u128;
            if hf > u64::MAX as u128 {
                Err(AegisError::Overflow)
            } else {
                Ok(hf as u64)
            }
        },
    }
}

/// The health factor of a position at its feeds' prices. A position without
/// debt has the largest factor, whatever its collateral and feeds. With
/// debt, fewer feeds than configured collaterals give `OracleMismatch`.
pub fn calculate_health_factor(
    position: &UserPosition,
    config: &GlobalConfig,
    oracle_accounts: &[OracleAccount],
    current_timestamp: i64,
) -> (r: Result<u64, AegisError>)
    requires
        position.fits(config),
    ensures
        position.minted_aegis == 0 ==> r == Ok::<u64, AegisError>(u64::MAX),
        position.minted_aegis != 0 ==> r == match position_prices(
            position.collateral_amounts@,
            *config,
            oracle_accounts@,
            current_timestamp as int,
        ) {
            Err(e) => Err(e),
            Ok(ps) => match appraisal(position.collateral_amounts@, ps) {
                Err(e) => Err(e),
                Ok(v) => health_factor(v as int, position.minted_aegis),
            },
        },
{
    if position.minted_aegis == 0 {
        return Ok(u64::MAX);
    }
    let amounts = position.collateral_amounts.as_slice();
    let prices = match fetch_slot_prices(amounts, config, oracle_accounts, current_timestamp) {
        Ok(ps) => ps,
        Err(e) => {
            return Err(e);
        },
    };
    calculate_health_factor_at(amounts, prices.as_slice(), position.minted_aegis)
}

/// The most debt that collateral at given prices supports:
/// `⌊value / min_ratio⌋`.
pub fn calculate_max_mintable_at(amounts: &[u64], prices: &[u64], min_ratio: u64) -> (r: Result<
    u64,
    AegisError,
>)
    requires
        prices@.len() == amounts@.len(),
    ensures
        r == match appraisal(amounts@, prices@) {
            Err(e) => Err(e),
            Ok(v) => max_mintable(v as int, min_ratio),
        },
        r matches Ok(m) ==> m * min_ratio <= total_value(amounts@, prices@) < (m + 1) * min_ratio,
{
    let value = match appraise(amounts, prices) {
        Ok(v) => v,
        Err(e) => {
            return Err(e);
        },
    };
    if min_ratio == 0 {
        return Err(AegisError::Overflow);
    }
    let max_mint = value / min_ratio as u128;
    proof {
        lemma_value_grows(amounts@, prices@, amounts@.len(), amounts@.len());
    }
    assert(value == total_value(amounts@, prices@));
    assert(max_mint * min_ratio <= value < (max_mint + 1) * min_ratio) by (nonlinear_arith)
        requires
            max_mint == value / min_ratio as u128,
            min_ratio > 0,
    ;
    if max_mint > u64::MAX as u128 {
        return Err(AegisError::Overflow);
    }
    Ok(max_mint as u64)
}

/// The most debt that the given collateral amounts support at their feeds'
/// prices and the configured minimum ratio. Fewer feeds than configured
/// collaterals give `OracleMismatch`.
pub fn calculate_max_mintable(
    collateral_amounts: &[u64],
    config: &GlobalConfig,
    oracle_accounts: &[OracleAccount],
    current_timestamp: i64,
) -> (r: Result<u64, AegisError>)
    requires
        collateral_amounts@.len() <= config.oracle_accounts@.len(),
    ensures
        r == match position_prices(
            collateral_amounts@,
            *config,
            oracle_accounts@,
            current_timestamp as int,
        ) {
            Err(e) => Err(e),
            Ok(ps) => match appraisal(collateral_amounts@, ps) {
                Err(e) => Err(e),
                Ok(v) => max_mintable(v as int, config.min_collateral_ratio),
            },
        },
        r matches Ok(m) ==> position_prices(
            collateral_amounts@,
            *config,
            oracle_accounts@,
            current_timestamp as int,
        ) matches Ok(ps) && m * config.min_collateral_ratio <= total_value(collateral_amounts@, ps) < (
        m + 1) * config.min_collateral_ratio,
{
    let prices = match fetch_slot_prices(collateral_amounts, config, oracle_accounts, current_timestamp) {
        Ok(ps) => ps,
        Err(e) => {
            return Err(e);
        },
    };
    calculate_max_mintable_at(collateral_amounts, prices.as_slice(), config.min_collateral_ratio)
}

/// Minting exactly the maximum that collateral supports passes the
/// collateral-ratio check, and minting one unit more fails it with
/// `UnderCollateralized`.
pub proof fn lemma_max_mintable_is_tight(amounts: Seq<u64>, prices: Seq<u64>, min_ratio: u64)
    requires
        prices.len() == amounts.len(),
        min_ratio > 0,
        total_value(amounts, prices) <= u128::MAX,
        total_value(amounts, prices) / (min_ratio as int) < u64::MAX,
    ensures
        max_mintable(total_value(amounts, prices), min_ratio) == Ok::<u64, AegisError>(
            (total_value(amounts, prices) / min_ratio as int) as u64,
        ),
        collateral_check(
            amounts,
            prices,
            (total_value(amounts, prices) / min_ratio as int) as u64,
            min_ratio,
        ) == Ok::<(), AegisError>(()),
        collateral_check(
            amounts,
            prices,
            (total_value(amounts, prices) / min_ratio as int + 1) as u64,
            min_ratio,
        ) == Err::<(), AegisError>(AegisError::UnderCollateralized),
{
    let v = total_value(amounts, prices);
    lemma_value_grows(amounts, prices, amounts.len(), amounts.len());
    let m = v / min_ratio as int;
    assert(m * min_ratio <= v < (m + 1) * min_ratio) by (nonlinear_arith)
        requires
            m == v / min_ratio as int,
            min_ratio > 0,
            v >= 0,
    ;
}

} // verus!
