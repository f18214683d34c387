use vstd::prelude::*;
use crate::cdp::{
    check_collateral_ratio, check_liquidation_condition, collateral_check, fetch_slot_prices,
    liquidation_check, position_prices,
};
use crate::errors::AegisError;
use crate::mpc::{reconstruction, share_views, simulate_mpc_reconstruct};
use crate::oracle_integration::{fetch_oracle_price, oracle_price};
use crate::privacy_utils::{
    compute_position_hash, position_preimage, sha256_of,
    verify_hedge_validity_proof,
};
use crate::types::{null_key, GlobalConfig, OracleAccount, Pubkey, UserPosition};

verus! {

/// The one collateral ratio a deployment accepts: 1.5 at eight decimals.
pub const REQUIRED_COLLATERAL_RATIO: u64 = 150_000_000;

/// The hedge interval used when none is given.
pub const DEFAULT_HEDGE_INTERVAL: u64 = 3600;

pub const MIN_HEDGE_INTERVAL: u64 = 300;

pub const MAX_HEDGE_INTERVAL: u64 = 86400;

/// How old, in seconds, a price sample may be, unless configured otherwise.
pub const DEFAULT_ORACLE_STALENESS: u64 = 60;

/// The size bounds, in bytes, of hedge and settlement proofs, unless
/// configured otherwise.
pub const DEFAULT_MIN_HEDGE_PROOF_LEN: usize = 200;

pub const DEFAULT_MAX_HEDGE_PROOF_LEN: usize = 512;

pub const DEFAULT_MIN_SETTLEMENT_PROOF_LEN: usize = 1024;

pub const DEFAULT_MAX_SETTLEMENT_PROOF_LEN: usize = 2048;

/// The most collaterals a deployment may approve.
pub const MAX_COLLATERALS: usize = 5;

/// Share of a liquidated position's debt paid to the liquidator, in percent.
pub const LIQUIDATION_BONUS_PERCENT: u64 = 5;

/// Share of the debt that a manual hedge override repays, in percent.
pub const OVERRIDE_REDUCTION_PERCENT: u64 = 10;

/// Some identity appears twice.
pub open spec fn has_duplicate(keys: Seq<Pubkey>) -> bool {
    exists|i: int, j: int| 0 <= i < j < keys.len() && #[trigger] keys[i]@ == #[trigger] keys[j]@
}

/// The hedge interval that a requested one stands for: zero asks for the
/// default.
pub open spec fn effective_interval(requested: u64) -> u64 {
    if requested == 0 {
        DEFAULT_HEDGE_INTERVAL
    } else {
        requested
    }
}

pub open spec fn interval_ok(interval: u64) -> bool {
    MIN_HEDGE_INTERVAL <= interval <= MAX_HEDGE_INTERVAL
}

/// The checks of a new configuration, in the order they are made.
pub open spec fn config_check(
    min_ratio: u64,
    hedge_interval: u64,
    approved: Seq<Pubkey>,
    oracles: Seq<Pubkey>,
) -> Result<(), AegisError> {
    if min_ratio != REQUIRED_COLLATERAL_RATIO {
        Err(AegisError::InvalidRatio)
    } else if !interval_ok(effective_interval(hedge_interval)) {
        Err(AegisError::InvalidInterval)
    } else if approved.len() == 0 || approved.len() > MAX_COLLATERALS {
        Err(AegisError::InvalidCollateralList)
    } else if approved.len() != oracles.len() {
        Err(AegisError::OracleMismatch)
    } else if has_duplicate(approved) {
        Err(AegisError::DuplicateCollateral)
    } else {
        Ok(())
    }
}

fn find_duplicate(keys: &Vec<Pubkey>) -> (r: bool)
    ensures
        r == has_duplicate(keys@),
{
    let n = keys.len();
    let mut i: usize = 0;
    while i < n
        invariant
            n == keys@.len(),
            i <= n,
            forall|a: int, b: int| 0 <= a < i && a < b < n ==> keys@[a]@ != keys@[b]@,
        decreases n - i,
    {
        let mut j: usize = i + 1;
        while j < n
            invariant
                n == keys@.len(),
                i < n,
                i + 1 <= j <= n,
                forall|a: int, b: int| 0 <= a < i && a < b < n ==> keys@[a]@ != keys@[b]@,
                forall|b: int| i < b < j ==> keys@[i as int]@ != keys@[b]@,
            decreases n - j,
        {
            if keys[i].same_as(&keys[j]) {
                assert(keys@[i as int]@ == keys@[j as int]@);
                return true;
            }
            j = j + 1;
        }
        i = i + 1;
    }
    false
}

/// Whether a configuration holds its invariant, as one that
/// `initialize_config` made does.
pub fn config_is_well_formed(config: &GlobalConfig) -> (r: bool)
    ensures
        r == config.wf(),
{
    let n = config.approved_collaterals.len();
    n >= 1 && n <= MAX_COLLATERALS && config.oracle_accounts.len() == n && !find_duplicate(
        &config.approved_collaterals,
    ) && config.min_collateral_ratio == REQUIRED_COLLATERAL_RATIO && config.hedge_interval_seconds
        >= MIN_HEDGE_INTERVAL && config.hedge_interval_seconds <= MAX_HEDGE_INTERVAL
        && 1 <= config.min_hedge_proof_len && config.min_hedge_proof_len
        <= config.max_hedge_proof_len && 1 <= config.min_settlement_proof_len
        && config.min_settlement_proof_len <= config.max_settlement_proof_len
}

/// Whether a position fits a configuration: an existing one has one amount
/// per approved collateral, an empty slot holds nothing.
pub fn position_is_well_formed(position: &UserPosition, config: &GlobalConfig) -> (r: bool)
    ensures
        r == position.wf_for(config),
{
    if position.owner.is_null() {
        position.collateral_amounts.len() == 0 && position.minted_aegis == 0
    } else {
        position.collateral_amounts.len() == config.approved_collaterals.len()
    }
}

/// Sets up a deployment: the ratio is 1.5, the hedge interval (3600 when
/// zero is given) lies in [300, 86400], and one to five distinct
/// collaterals are approved, each with its price feed. The staleness
/// window and the proof-size bounds start at their defaults.
pub fn initialize_config(
    admin: &Pubkey,
    min_ratio: u64,
    hedge_interval: u64,
    approved_collaterals: Vec<Pubkey>,
    oracle_accounts: Vec<Pubkey>,
    aegis_mint: &Pubkey,
) -> (r: Result<GlobalConfig, AegisError>)
    ensures
        config_check(min_ratio, hedge_interval, approved_collaterals@, oracle_accounts@) matches Err(
            e,
        ) ==> r == Err::<GlobalConfig, AegisError>(e),
        config_check(min_ratio, hedge_interval, approved_collaterals@, oracle_accounts@) is Ok
            ==> r is Ok,
        r matches Ok(c) ==> {
            &&& c.wf()
            &&& c.admin@ == admin@
            &&& c.min_collateral_ratio == min_ratio
            &&& c.hedge_interval_seconds == effective_interval(hedge_interval)
            &&& c.approved_collaterals@ == approved_collaterals@
            &&& c.oracle_accounts@ == oracle_accounts@
            &&& c.aegis_mint@ == aegis_mint@
            &&& c.max_oracle_staleness == DEFAULT_ORACLE_STALENESS
            &&& c.min_hedge_proof_len == DEFAULT_MIN_HEDGE_PROOF_LEN
            &&& c.max_hedge_proof_len == DEFAULT_MAX_HEDGE_PROOF_LEN
            &&& c.min_settlement_proof_len == DEFAULT_MIN_SETTLEMENT_PROOF_LEN
            &&& c.max_settlement_proof_len == DEFAULT_MAX_SETTLEMENT_PROOF_LEN
        },
{
    if min_ratio != REQUIRED_COLLATERAL_RATIO {
        return Err(AegisError::InvalidRatio);
    }
    let interval = if hedge_interval == 0 {
        DEFAULT_HEDGE_INTERVAL
    } else {
        hedge_interval
    };
    if interval < MIN_HEDGE_INTERVAL || interval > MAX_HEDGE_INTERVAL {
        return Err(AegisError::InvalidInterval);
    }
    if approved_collaterals.len() == 0 || approved_collaterals.len() > MAX_COLLATERALS {
        return Err(AegisError::InvalidCollateralList);
    }
    if approved_collaterals.len() != oracle_accounts.len() {
        return Err(AegisError::OracleMismatch);
    }
    if find_duplicate(&approved_collaterals) {
        return Err(AegisError::DuplicateCollateral);
    }
    Ok(GlobalConfig {
        admin: *admin,
        min_collateral_ratio: min_ratio,
        hedge_interval_seconds: interval,
        approved_collaterals,
        oracle_accounts,
        aegis_mint: *aegis_mint,
        max_oracle_staleness: DEFAULT_ORACLE_STALENESS,
        min_hedge_proof_len: DEFAULT_MIN_HEDGE_PROOF_LEN,
        max_hedge_proof_len: DEFAULT_MAX_HEDGE_PROOF_LEN,
        min_settlement_proof_len: DEFAULT_MIN_SETTLEMENT_PROOF_LEN,
        max_settlement_proof_len: DEFAULT_MAX_SETTLEMENT_PROOF_LEN,
    })
}

/// Changes the hedge interval; only the administrator may, and the new
/// interval lies in [300, 86400]. A refused change leaves the configuration
/// as it was.
pub fn update_config(config: &mut GlobalConfig, admin: &Pubkey, new_hedge_interval: u64) -> (r:
    Result<(), AegisError>)
    requires
        old(config).wf(),
    ensures
        old(config).admin@ != admin@ ==> r == Err::<(), AegisError>(AegisError::Unauthorized),
        old(config).admin@ == admin@ && !interval_ok(new_hedge_interval) ==> r == Err::<
            (),
            AegisError,
        >(AegisError::InvalidInterval),
        old(config).admin@ == admin@ && interval_ok(new_hedge_interval) ==> r is Ok,
        r is Err ==> *final(config) == *old(config),
        r is Ok ==> *final(config) == (GlobalConfig {
            hedge_interval_seconds: new_hedge_interval,
            ..*old(config)
        }),
        final(config).wf(),
{
    if !config.admin.same_as(admin) {
        return Err(AegisError::Unauthorized);
    }
    if new_hedge_interval < MIN_HEDGE_INTERVAL || new_hedge_interval > MAX_HEDGE_INTERVAL {
        return Err(AegisError::InvalidInterval);
    }
    config.hedge_interval_seconds = new_hedge_interval;
    Ok(())
}

/// The amounts a position works with: its own, or one zero per approved
/// collateral for a position that does not exist yet.
pub open spec fn base_amounts(p: UserPosition, config: GlobalConfig) -> Seq<u64> {
    if p.is_open() {
        p.collateral_amounts@
    } else {
        Seq::new(config.approved_collaterals@.len(), |i: int| 0u64)
    }
}

/// When a position last hedged; a position that does not exist yet never
/// has.
pub open spec fn base_timestamp(p: UserPosition) -> i64 {
    if p.is_open() {
        p.last_hedge_timestamp
    } else {
        0
    }
}

/// The commitment a position carries; zeros for one that does not exist yet.
pub open spec fn base_hash(p: UserPosition) -> Seq<u8> {
    if p.is_open() {
        p.encrypted_position_hash@
    } else {
        null_key()
    }
}

/// Whether the hedge interval has not passed since `last`.
pub open spec fn cooling_down(last: i64, now: i64, interval: u64) -> bool {
    now - last < interval
}

/// Creates the position in an empty slot for `owner`, with one zero amount
/// per approved collateral and nothing else; an existing position is left
/// as it is.
pub fn get_or_create_position(position: &mut UserPosition, owner: &Pubkey, config: &GlobalConfig)
    requires
        config.wf(),
        old(position).wf_for(config),
        owner@ != null_key(),
    ensures
        old(position).is_open() ==> *final(position) == *old(position),
        !old(position).is_open() ==> {
            &&& final(position).owner@ == owner@
            &&& final(position).collateral_amounts@ == base_amounts(*old(position), *config)
            &&& final(position).minted_aegis == 0
            &&& final(position).encrypted_position_hash@ == null_key()
            &&& final(position).last_hedge_timestamp == 0
        },
        final(position).is_open(),
        final(position).wf_for(config),
{
    if position.owner.is_null() {
        let n = config.approved_collaterals.len();
        let amounts: Vec<u64> = vec![0u64; n];
        assert(amounts@ =~= base_amounts(*old(position), *config));
        position.owner = *owner;
        position.collateral_amounts = amounts;
        position.minted_aegis = 0;
        position.encrypted_position_hash = [0u8; 32];
        position.last_hedge_timestamp = 0;
        assert(position.encrypted_position_hash@ =~= null_key());
    }
}

fn time_since(now: i64, last: i64) -> (r: i128)
    ensures
        r == now - last,
{
    now as i128 - last as i128
}

/// The checks of a mint, in the order they are made: the caller owns the
/// position, both amounts are non-zero, the collateral is approved, its feed
/// gives a price, the deposit alone covers the new debt at the minimum
/// ratio, and the new totals fit.
pub open spec fn mint_check(
    p: UserPosition,
    config: GlobalConfig,
    user: Seq<u8>,
    feed_key: Seq<u8>,
    feed_data: Seq<u8>,
    now: i64,
    collateral_index: u8,
    deposit_amount: u64,
    mint_amount: u64,
) -> Result<(), AegisError> {
    if user == null_key() || (p.is_open() && p.owner@ != user) {
        Err(AegisError::Unauthorized)
    } else if deposit_amount == 0 || mint_amount == 0 {
        Err(AegisError::ZeroAmount)
    } else if collateral_index >= config.approved_collaterals@.len() {
        Err(AegisError::InvalidCollateralIndex)
    } else {
        match oracle_price(
            feed_key,
            feed_data,
            now as int,
            config.oracle_accounts@[collateral_index as int]@,
            config.max_oracle_staleness,
        ) {
            Err(e) => Err(e),
            Ok(price) => if deposit_amount * price < mint_amount * config.min_collateral_ratio {
                Err(AegisError::UnderCollateralized)
            } else if base_amounts(p, config)[collateral_index as int] + deposit_amount > u64::MAX
                || p.minted_aegis + mint_amount > u64::MAX {
                Err(AegisError::Overflow)
            } else {
                Ok(())
            },
        }
    }
}

/// Deposits collateral into one slot and mints debt against it, creating
/// the caller's position on first use. The deposit, at its feed's price,
/// must cover the minted amount at the minimum ratio. The position's
/// commitment is recomputed. A refused mint changes nothing.
pub fn mint_aegis(
    position: &mut UserPosition,
    config: &GlobalConfig,
    user: &Pubkey,
    oracle_account: &OracleAccount,
    current_timestamp: i64,
    collateral_index: u8,
    deposit_amount: u64,
    mint_amount: u64,
) -> (r: Result<(), AegisError>)
    requires
        config.wf(),
        old(position).wf_for(config),
    ensures
        r == mint_check(
            *old(position),
            *config,
            user@,
            oracle_account.key@,
            oracle_account.data@,
            current_timestamp,
            collateral_index,
            deposit_amount,
            mint_amount,
        ),
        r is Err ==> *final(position) == *old(position),
        r is Ok ==> {
            let amounts = base_amounts(*old(position), *config);
            &&& final(position).owner@ == user@
            &&& final(position).collateral_amounts@ == amounts.update(
                collateral_index as int,
                (amounts[collateral_index as int] + deposit_amount) as u64,
            )
            &&& final(position).minted_aegis == old(position).minted_aegis + mint_amount
            &&& final(position).encrypted_position_hash@ == sha256_of(
                position_preimage(
                    user@,
                    final(position).collateral_amounts@,
                    final(position).minted_aegis,
                ),
            )
            &&& final(position).last_hedge_timestamp == base_timestamp(*old(position))
            &&& final(position).wf_for(config)
        },
{
    if user.is_null() || (!position.owner.is_null() && !position.owner.same_as(user)) {
        return Err(AegisError::Unauthorized);
    }
    if deposit_amount == 0 || mint_amount == 0 {
        return Err(AegisError::ZeroAmount);
    }
    let idx = collateral_index as usize;
    if idx >= config.approved_collaterals.len() {
        return Err(AegisError::InvalidCollateralIndex);
    }
    let price = match fetch_oracle_price(
        oracle_account,
        current_timestamp,
        &config.oracle_accounts[idx],
        config.max_oracle_staleness,
    ) {
        Ok(p) => p,
        Err(e) => {
            return Err(e);
        },
    };
    assert(deposit_amount as u128 * price as u128 <= u64::MAX * u64::MAX) by (nonlinear_arith);
    assert(mint_amount as u128 * config.min_collateral_ratio as u128 <= u64::MAX * u64::MAX)
        by (nonlinear_arith);
    let collateral_value = deposit_amount as u128 * price as u128;
    let required_value = mint_amount as u128 * config.min_collateral_ratio as u128;
    if collateral_value < required_value {
        return Err(AegisError::UnderCollateralized);
    }
    let current = if position.owner.is_null() {
        0
    } else {
        position.collateral_amounts[idx]
    };
    let new_amount = match current.checked_add(deposit_amount) {
        Some(v) => v,
        None => {
            return Err(AegisError::Overflow);
        },
    };
    let new_minted = match position.minted_aegis.checked_add(mint_amount) {
        Some(v) => v,
        None => {
            return Err(AegisError::Overflow);
        },
    };
    let ghost amounts = base_amounts(*old(position), *config);
    get_or_create_position(position, user, config);
    position.collateral_amounts.set(idx, new_amount);
    position.minted_aegis = new_minted;
    position.encrypted_position_hash = compute_position_hash(
        &position.owner,
        position.collateral_amounts.as_slice(),
        position.minted_aegis,
    );
    assert(position.collateral_amounts@ == amounts.update(idx as int, new_amount));
    Ok(())
}

/// The checks of a burn, in the order they are made: the caller owns the
/// position, the amount is non-zero and at most the debt, and any debt left
/// is still covered at the feeds' prices.
pub open spec fn burn_check(
    p: UserPosition,
    config: GlobalConfig,
    user: Seq<u8>,
    accounts: Seq<OracleAccount>,
    now: i64,
    burn_amount: u64,
) -> Result<(), AegisError> {
    if p.owner@ != user {
        Err(AegisError::Unauthorized)
    } else if burn_amount == 0 {
        Err(AegisError::ZeroAmount)
    } else if burn_amount > p.minted_aegis {
        Err(AegisError::InsufficientBalance)
    } else if p.minted_aegis - burn_amount == 0 {
        Ok(())
    } else {
        match position_prices(p.collateral_amounts@, config, accounts, now as int) {
            Err(e) => Err(e),
            Ok(ps) => collateral_check(
                p.collateral_amounts@,
                ps,
                (p.minted_aegis - burn_amount) as u64,
                config.min_collateral_ratio,
            ),
        }
    }
}

/// Repays debt. Whatever debt remains must still be covered at the
/// minimum ratio. A refused burn changes nothing.
pub fn burn_aegis(
    position: &mut UserPosition,
    config: &GlobalConfig,
    user: &Pubkey,
    oracle_accounts: &[OracleAccount],
    current_timestamp: i64,
    burn_amount: u64,
) -> (r: Result<(), AegisError>)
    requires
        config.wf(),
        old(position).wf_for(config),
    ensures
        r == burn_check(
            *old(position),
            *config,
            user@,
            oracle_accounts@,
            current_timestamp,
            burn_amount,
        ),
        r is Err ==> *final(position) == *old(position),
        r is Ok ==> *final(position) == (UserPosition {
            minted_aegis: (old(position).minted_aegis - burn_amount) as u64,
            ..*old(position)
        }),
{
    if !position.owner.same_as(user) {
        return Err(AegisError::Unauthorized);
    }
    if burn_amount == 0 {
        return Err(AegisError::ZeroAmount);
    }
    if burn_amount > position.minted_aegis {
        return Err(AegisError::InsufficientBalance);
    }
    let remaining = position.minted_aegis - burn_amount;
    if remaining > 0 {
        let amounts = position.collateral_amounts.as_slice();
        let prices = match fetch_slot_prices(amounts, config, oracle_accounts, current_timestamp) {
            Ok(ps) => ps,
            Err(e) => {
                return Err(e);
            },
        };
        match check_collateral_ratio(amounts, prices.as_slice(), remaining, config.min_collateral_ratio) {
            Ok(()) => {},
            Err(e) => {
                return Err(e);
            },
        }
    }
    position.minted_aegis = remaining;
    Ok(())
}

/// How a liquidation ends: the bonus owed to the liquidator, or the error.
/// The liquidator is not the owner, the feeds agree, and the position's
/// collateral no longer covers its debt.
pub open spec fn liquidation_outcome(
    p: UserPosition,
    config: GlobalConfig,
    liquidator: Seq<u8>,
    accounts: Seq<OracleAccount>,
    now: i64,
) -> Result<u64, AegisError> {
    if liquidator == p.owner@ {
        Err(AegisError::Unauthorized)
    } else {
        match position_prices(p.collateral_amounts@, config, accounts, now as int) {
            Err(e) => Err(e),
            Ok(ps) => match liquidation_check(
                p.collateral_amounts@,
                ps,
                p.minted_aegis,
                config.min_collateral_ratio,
            ) {
                Err(e) => Err(e),
                Ok(false) => Err(AegisError::NotLiquidatable),
                Ok(true) => Ok((p.minted_aegis * LIQUIDATION_BONUS_PERCENT / 100) as u64),
            },
        }
    }
}

/// Liquidates an undercollateralised position on behalf of someone other
/// than its owner, and gives the liquidator's bonus: 5% of the debt,
/// rounded down, for the transfer that pays it.
pub fn liquidate_position(
    position: &UserPosition,
    config: &GlobalConfig,
    liquidator: &Pubkey,
    oracle_accounts: &[OracleAccount],
    current_timestamp: i64,
) -> (r: Result<u64, AegisError>)
    requires
        position.fits(config),
    ensures
        r == liquidation_outcome(*position, *config, liquidator@, oracle_accounts@, current_timestamp),
{
    if liquidator.same_as(&position.owner) {
        return Err(AegisError::Unauthorized);
    }
    let liquidatable = match check_liquidation_condition(position, config, oracle_accounts, current_timestamp) {
        Ok(b) => b,
        Err(e) => {
            return Err(e);
        },
    };
    if !liquidatable {
        return Err(AegisError::NotLiquidatable);
    }
    Ok(position.minted_aegis / 100 * LIQUIDATION_BONUS_PERCENT + position.minted_aegis % 100
        * LIQUIDATION_BONUS_PERCENT / 100)
}

/// The check of the threshold shares a hedge may carry: none at all, or two
/// or three shares that put together give a non-empty secret.
pub open spec fn shares_check(shares: Seq<Seq<u8>>) -> Result<(), AegisError> {
    if shares.len() == 0 {
        Ok(())
    } else if shares.len() < 2 {
        Err(AegisError::TooFewShares)
    } else if shares.len() > 3 {
        Err(AegisError::InvalidMPCParams)
    } else {
        match reconstruction(shares, 2) {
            Err(e) => Err(e),
            Ok(secret) => if secret.len() == 0 {
                Err(AegisError::InvalidProof)
            } else {
                Ok(())
            },
        }
    }
}

/// The checks of a hedge, in the order they are made: the agent owns the
/// position, the hedge interval has passed since the last hedge, the proof
/// has a valid size and the proof verifier accepted it, and the shares, if
/// any, put together.
pub open spec fn hedge_check(
    p: UserPosition,
    config: GlobalConfig,
    agent: Seq<u8>,
    now: i64,
    proof_len: nat,
    proof_accepted: bool,
    shares: Seq<Seq<u8>>,
) -> Result<(), AegisError> {
    if agent == null_key() || (p.is_open() && p.owner@ != agent) {
        Err(AegisError::Unauthorized)
    } else if cooling_down(base_timestamp(p), now, config.hedge_interval_seconds) {
        Err(AegisError::HedgeCooldown)
    } else if !(config.hedge_proof_size_ok(proof_len) && proof_accepted) {
        Err(AegisError::InvalidProof)
    } else {
        shares_check(shares)
    }
}

/// The position a successful hedge leaves: the agent's, created if needed,
/// with the hedge time recorded when the decision is to hedge.
pub open spec fn hedged(
    before: UserPosition,
    after: UserPosition,
    config: GlobalConfig,
    agent: Seq<u8>,
    now: i64,
    hedge_decision: bool,
) -> bool {
    &&& after.owner@ == agent
    &&& after.collateral_amounts@ == base_amounts(before, config)
    &&& after.minted_aegis == before.minted_aegis
    &&& after.encrypted_position_hash@ == base_hash(before)
    &&& after.last_hedge_timestamp == if hedge_decision {
        now
    } else {
        base_timestamp(before)
    }
}

/// An agent's hedge. The position is created on first use; the hedge
/// interval must have passed since the last hedge; the proof must have a
/// valid size and have been accepted by the proof verifier
/// (`proof_accepted` is its verdict on `agent_proof` and the decision);
/// threshold shares, if given, must put together. A decision to hedge
/// records the time. A refused hedge changes nothing.
pub fn trigger_hedge(
    position: &mut UserPosition,
    config: &GlobalConfig,
    agent: &Pubkey,
    current_timestamp: i64,
    hedge_decision: bool,
    agent_proof: &[u8],
    proof_accepted: bool,
    mpc_shares: &[Vec<u8>],
) -> (r: Result<(), AegisError>)
    requires
        config.wf(),
        old(position).wf_for(config),
    ensures
        r == hedge_check(
            *old(position),
            *config,
            agent@,
            current_timestamp,
            agent_proof@.len(),
            proof_accepted,
            share_views(mpc_shares@),
        ),
        r is Err ==> *final(position) == *old(position),
        r is Ok ==> hedged(*old(position), *final(position), *config, agent@, current_timestamp, hedge_decision),
        final(position).wf_for(config),
{
    if agent.is_null() || (!position.owner.is_null() && !position.owner.same_as(agent)) {
        return Err(AegisError::Unauthorized);
    }
    let last = if position.owner.is_null() {
        0
    } else {
        position.last_hedge_timestamp
    };
    if time_since(current_timestamp, last) < config.hedge_interval_seconds as i128 {
        return Err(AegisError::HedgeCooldown);
    }
    if !(verify_hedge_validity_proof(agent_proof, hedge_decision, config) && proof_accepted) {
        return Err(AegisError::InvalidProof);
    }
    let n = mpc_shares.len();
    if n > 0 {
        assert(share_views(mpc_shares@).len() == n);
        if n < 2 {
            return Err(AegisError::TooFewShares);
        }
        if n > 3 {
            return Err(AegisError::InvalidMPCParams);
        }
        match simulate_mpc_reconstruct(mpc_shares, 2) {
            Err(e) => {
                return Err(e);
            },
            Ok(secret) => {
                if secret.len() == 0 {
                    return Err(AegisError::InvalidProof);
                }
            },
        }
    }
    get_or_create_position(position, agent, config);
    if hedge_decision {
        position.last_hedge_timestamp = current_timestamp;
    }
    Ok(())
}

/// After a hedge that recorded its time, any hedge of the same position
/// before the interval has passed is refused with `HedgeCooldown`, whatever
/// its proof, verdict and shares.
pub proof fn lemma_hedge_cooldown(
    before: UserPosition,
    after: UserPosition,
    config: GlobalConfig,
    agent: Seq<u8>,
    first_time: i64,
    first_proof_len: nat,
    first_accepted: bool,
    first_shares: Seq<Seq<u8>>,
    second_time: i64,
    second_proof_len: nat,
    second_accepted: bool,
    second_shares: Seq<Seq<u8>>,
)
    requires
        config.wf(),
        hedge_check(
            before,
            config,
            agent,
            first_time,
            first_proof_len,
            first_accepted,
            first_shares,
        ) is Ok,
        hedged(before, after, config, agent, first_time, true),
        second_time - first_time < config.hedge_interval_seconds,
    ensures
        hedge_check(
            after,
            config,
            agent,
            second_time,
            second_proof_len,
            second_accepted,
            second_shares,
        ) == Err::<(), AegisError>(AegisError::HedgeCooldown),
{
}

/// The checks of a manual override, in the order they are made: the caller
/// owns the position, which exists and has debt, and the hedge interval has
/// passed since the last hedge.
pub open spec fn override_check(p: UserPosition, config: GlobalConfig, owner: Seq<u8>, now: i64) -> Result<
    (),
    AegisError,
> {
    if p.owner@ != owner {
        Err(AegisError::Unauthorized)
    } else if !p.is_open() || p.minted_aegis == 0 {
        Err(AegisError::InvalidOperation)
    } else if cooling_down(p.last_hedge_timestamp, now, config.hedge_interval_seconds) {
        Err(AegisError::HedgeCooldown)
    } else {
        Ok(())
    }
}

/// The owner's hedge, without proof but under the same interval. The time
/// is recorded whatever the decision; a decision to hedge repays 10% of the
/// debt, rounded down, and recomputes the position's commitment. A refused
/// override changes nothing.
pub fn manual_hedge_override(
    position: &mut UserPosition,
    config: &GlobalConfig,
    owner: &Pubkey,
    current_timestamp: i64,
    decision: bool,
) -> (r: Result<(), AegisError>)
    requires
        config.wf(),
        old(position).wf_for(config),
    ensures
        r == override_check(*old(position), *config, owner@, current_timestamp),
        r is Err ==> *final(position) == *old(position),
        r is Ok ==> {
            &&& final(position).owner == old(position).owner
            &&& final(position).collateral_amounts == old(position).collateral_amounts
            &&& final(position).last_hedge_timestamp == current_timestamp
            &&& decision ==> final(position).minted_aegis == old(position).minted_aegis
                - old(position).minted_aegis * OVERRIDE_REDUCTION_PERCENT / 100
            &&& decision ==> final(position).encrypted_position_hash@ == sha256_of(
                position_preimage(
                    old(position).owner@,
                    old(position).collateral_amounts@,
                    final(position).minted_aegis,
                ),
            )
            &&& !decision ==> final(position).minted_aegis == old(position).minted_aegis
            &&& !decision ==> final(position).encrypted_position_hash
                == old(position).encrypted_position_hash
        },
        final(position).wf_for(config),
{
    if !position.owner.same_as(owner) {
        return Err(AegisError::Unauthorized);
    }
    if position.owner.is_null() || position.minted_aegis == 0 {
        return Err(AegisError::InvalidOperation);
    }
    if time_since(current_timestamp, position.last_hedge_timestamp) < config.hedge_interval_seconds as i128 {
        return Err(AegisError::HedgeCooldown);
    }
    position.last_hedge_timestamp = current_timestamp;
    if decision {
        let minted = position.minted_aegis;
        let reduction = minted / 100 * OVERRIDE_REDUCTION_PERCENT + minted % 100 * OVERRIDE_REDUCTION_PERCENT / 100;
        assert(reduction == minted * OVERRIDE_REDUCTION_PERCENT / 100);
        position.minted_aegis = minted - reduction;
        position.encrypted_position_hash = compute_position_hash(
            &position.owner,
            position.collateral_amounts.as_slice(),
            position.minted_aegis,
        );
    }
    Ok(())
}

} // verus!
