use vstd::prelude::*;
use crate::errors::AegisError;
use crate::oracle_integration::{fetch_oracle_outcome, oracle_outcome};
use crate::privacy_utils::{generate_question_commitment, question_preimage, sha256_of};
use crate::types::{GlobalConfig, OracleAccount, PredictionMarket, Pubkey};
use vstd::string::StringSliceAdditionalSpecFns;

verus! {

/// The longest question a market may ask, in UTF-8 bytes.
pub const MAX_QUESTION_LEN: usize = 64;

/// How far ahead of creation, in seconds, a market must resolve at least.
pub const MIN_RESOLUTION_DELAY: i64 = 3600;

/// How far ahead, in seconds, a market may resolve at most.
pub const MAX_RESOLUTION_HORIZON: i64 = 31_536_000;

/// What a stake on the winning side is paid: its share of both pools,
/// `⌊stake × (winning + losing) / winning⌋` over unbounded integers;
/// nothing when nobody won. Only a payout that does not fit in 64 bits is
/// refused.
pub open spec fn payout(stake: u64, winning_pool: u64, losing_pool: u64) -> Result<u64, AegisError> {
    if winning_pool == 0 {
        Ok(0)
    } else if stake * (winning_pool + losing_pool) / winning_pool as int > u64::MAX {
        Err(AegisError::Overflow)
    } else {
        Ok((stake * (winning_pool + losing_pool) / winning_pool as int) as u64)
    }
}

/// The payout of a winning stake, in widened arithmetic: the stake back
/// plus its share of the losing pool.
pub fn calculate_payout(user_stake: u64, winning_pool: u64, losing_pool: u64) -> (r: Result<
    u64,
    AegisError,
>)
    ensures
        r == payout(user_stake, winning_pool, losing_pool),
{
    if winning_pool == 0 {
        return Ok(0);
    }
    let stake = user_stake as u128;
    let winning = winning_pool as u128;
    let losing = losing_pool as u128;
    assert(stake * losing <= u64::MAX * u64::MAX) by (nonlinear_arith)
        requires
            stake <= u64::MAX,
            losing <= u64::MAX,
    ;
    let won = stake * losing / winning;
    assert(won <= u64::MAX * u64::MAX) by {
        vstd::arithmetic::div_mod::lemma_div_is_ordered_by_denominator(
            (stake * losing) as int,
            1,
            winning as int,
        );
    }
    proof {
        vstd::arithmetic::div_mod::lemma_hoist_over_denominator(
            stake * losing,
            stake as int,
            winning as nat,
        );
        assert(stake * losing + stake * winning == stake * (winning + losing)) by (nonlinear_arith);
    }
    let share = stake + won;
    if share > u64::MAX as u128 {
        return Err(AegisError::Overflow);
    }
    Ok(share as u64)
}

/// An operation on a market, for its state check.
#[derive(Clone, Copy, Debug, PartialEq, Eq, Structural)]
pub enum MarketOperation {
    Bet,
    Settle,
    Claim,
}

/// The state check of each operation: bets and settlement need an open
/// market, bets before and settlement from the resolution time on; claims
/// need a resolved market.
pub open spec fn market_state_check(
    resolved: bool,
    resolution_time: i64,
    current_time: i64,
    operation: MarketOperation,
) -> Result<(), AegisError> {
    match operation {
        MarketOperation::Bet => if resolved {
            Err(AegisError::MarketResolved)
        } else if current_time >= resolution_time {
            Err(AegisError::InvalidResolutionTime)
        } else {
            Ok(())
        },
        MarketOperation::Settle => if resolved {
            Err(AegisError::MarketResolved)
        } else if current_time < resolution_time {
            Err(AegisError::ResolutionTimeNotReached)
        } else {
            Ok(())
        },
        MarketOperation::Claim => if !resolved {
            Err(AegisError::MarketResolved)
        } else {
            Ok(())
        },
    }
}

/// Checks that a market's state allows an operation.
pub fn validate_market_state(
    resolved: bool,
    resolution_time: i64,
    current_time: i64,
    operation: MarketOperation,
) -> (r: Result<(), AegisError>)
    ensures
        r == market_state_check(resolved, resolution_time, current_time, operation),
{
    match operation {
        MarketOperation::Bet => {
            if resolved {
                return Err(AegisError::MarketResolved);
            }
            if current_time >= resolution_time {
                return Err(AegisError::InvalidResolutionTime);
            }
        },
        MarketOperation::Settle => {
            if resolved {
                return Err(AegisError::MarketResolved);
            }
            if current_time < resolution_time {
                return Err(AegisError::ResolutionTimeNotReached);
            }
        },
        MarketOperation::Claim => {
            if !resolved {
                return Err(AegisError::MarketResolved);
            }
        },
    }
    Ok(())
}

/// Checks a new market's pools and resolution time: pools that are not
/// both empty must be equal, and the resolution time lies in the future,
/// at most a year ahead.
pub fn validate_market_parameters(yes_pool: u64, no_pool: u64, resolution_time: i64, current_time: i64) -> (r:
    Result<(), AegisError>)
    ensures
        (yes_pool != 0 || no_pool != 0) && yes_pool != no_pool ==> r == Err::<(), AegisError>(
            AegisError::InvalidMarket,
        ),
        !((yes_pool != 0 || no_pool != 0) && yes_pool != no_pool) ==> r == if resolution_time
            <= current_time || resolution_time > current_time + MAX_RESOLUTION_HORIZON {
            Err::<(), AegisError>(AegisError::InvalidResolutionTime)
        } else {
            Ok(())
        },
{
    if (yes_pool != 0 || no_pool != 0) && yes_pool != no_pool {
        return Err(AegisError::InvalidMarket);
    }
    if resolution_time <= current_time {
        return Err(AegisError::InvalidResolutionTime);
    }
    if resolution_time as i128 > current_time as i128 + MAX_RESOLUTION_HORIZON as i128 {
        return Err(AegisError::InvalidResolutionTime);
    }
    Ok(())
}

/// The total of both pools, or zero where it does not fit.
pub fn calculate_market_depth(yes_pool: u64, no_pool: u64) -> (r: u64)
    ensures
        r == if yes_pool + no_pool <= u64::MAX {
            (yes_pool + no_pool) as u64
        } else {
            0
        },
{
    match yes_pool.checked_add(no_pool) {
        Some(t) => t,
        None => 0,
    }
}

/// Whether both pools together hold at least `min_liquidity`.
pub fn check_market_liquidity(yes_pool: u64, no_pool: u64, min_liquidity: u64) -> (r: bool)
    ensures
        r == (yes_pool + no_pool >= min_liquidity),
{
    if yes_pool > u64::MAX - no_pool {
        true
    } else {
        yes_pool + no_pool >= min_liquidity
    }
}

/// `b` in lower case, when it is an ASCII capital.
pub open spec fn ascii_lower(b: u8) -> u8 {
    if 65 <= b <= 90 {
        (b + 32) as u8
    } else {
        b
    }
}

/// `word` occurs in `text` at `i`, ignoring ASCII case in `text`.
pub open spec fn occurs_at(text: Seq<u8>, word: Seq<u8>, i: int) -> bool {
    &&& 0 <= i
    &&& i + word.len() <= text.len()
    &&& forall|k: int| 0 <= k < word.len() ==> ascii_lower(#[trigger] text[i + k]) == word[k]
}

/// `word` occurs somewhere in `text`, ignoring ASCII case in `text`.
pub open spec fn mentions(text: Seq<u8>, word: Seq<u8>) -> bool {
    exists|i: int| occurs_at(text, word, i)
}

/// The bytes of "hedge".
pub open spec fn hedge_word() -> Seq<u8> {
    seq![104u8, 101u8, 100u8, 103u8, 101u8]
}

/// The bytes of "yield".
pub open spec fn yield_word() -> Seq<u8> {
    seq![121u8, 105u8, 101u8, 108u8, 100u8]
}

/// Whether a question asks for a settlement proof: it mentions "hedge" or
/// "yield" in any case.
pub open spec fn needs_proof(question: Seq<u8>) -> bool {
    mentions(question, hedge_word()) || mentions(question, yield_word())
}

fn lower(b: u8) -> (r: u8)
    ensures
        r == ascii_lower(b),
{
    if b >= 65 && b <= 90 {
        b + 32
    } else {
        b
    }
}

fn occurs_in(text: &[u8], word: &[u8]) -> (r: bool)
    ensures
        r == mentions(text@, word@),
{
    if word.len() > text.len() {
        assert(forall|i: int| !occurs_at(text@, word@, i));
        return false;
    }
    if word.len() == 0 {
        assert(occurs_at(text@, word@, 0));
        return true;
    }
    let n = text.len();
    let last = n - word.len();
    let mut i: usize = 0;
    while i <= last
        invariant
            n == text@.len(),
            word@.len() > 0,
            last == text@.len() - word@.len(),
            i <= last + 1,
            forall|m: int| 0 <= m < i ==> !occurs_at(text@, word@, m),
        decreases last + 1 - i,
    {
        let mut k: usize = 0;
        let mut all = true;
        while k < word.len()
            invariant
                i <= last,
                n == text@.len(),
                last == text@.len() - word@.len(),
                k <= word@.len(),
                all == forall|n: int| 0 <= n < k ==> ascii_lower(#[trigger] text@[i + n]) == word@[n],
            decreases word@.len() - k,
        {
            if lower(text[i + k]) != word[k] {
                all = false;
            }
            k = k + 1;
        }
        if all {
            assert(occurs_at(text@, word@, i as int));
            return true;
        }
        i = i + 1;
    }
    assert(forall|m: int| !occurs_at(text@, word@, m));
    false
}

/// Whether a question asks for a settlement proof.
pub fn question_needs_proof(question: &str) -> (r: bool)
    ensures
        r == needs_proof(question.spec_bytes()),
{
    let bytes = question.as_bytes();
    let hedge: [u8; 5] = [104, 101, 100, 103, 101];
    let yield_: [u8; 5] = [121, 105, 101, 108, 100];
    assert(hedge@ =~= hedge_word());
    assert(yield_@ =~= yield_word());
    occurs_in(bytes, hedge.as_slice()) || occurs_in(bytes, yield_.as_slice())
}

/// The UTF-8 bytes of a question.
pub open spec fn question_bytes(question: String) -> Seq<u8> {
    vstd::utf8::encode_utf8(question@)
}

/// Opens a market on `question`, resolving at `resolution_time` through
/// `resolution_oracle`. The question is at most 64 bytes and the market
/// resolves more than an hour after `current_time`. The market commits to
/// its question with the resolution time as nonce, and asks for a
/// settlement proof when the question mentions hedging or yield.
pub fn create_prediction_market(
    creator: &Pubkey,
    resolution_oracle: &Pubkey,
    resolution_time: i64,
    question: String,
    current_time: i64,
) -> (r: Result<PredictionMarket, AegisError>)
    ensures
        question_bytes(question).len() > MAX_QUESTION_LEN ==> r == Err::<PredictionMarket, AegisError>(
            AegisError::InvalidMarket,
        ),
        question_bytes(question).len() <= MAX_QUESTION_LEN && resolution_time <= current_time
            + MIN_RESOLUTION_DELAY ==> r == Err::<PredictionMarket, AegisError>(
            AegisError::InvalidResolutionTime,
        ),
        question_bytes(question).len() <= MAX_QUESTION_LEN && resolution_time > current_time
            + MIN_RESOLUTION_DELAY ==> r is Ok,
        r matches Ok(m) ==> {
            &&& m.creator@ == creator@
            &&& m.resolution_oracle@ == resolution_oracle@
            &&& m.question@ == question@
            &&& m.yes_pool == 0
            &&& m.no_pool == 0
            &&& m.zk_commitment@ == sha256_of(
                question_preimage(question_bytes(question), resolution_time as u64),
            )
            &&& m.proof_required == needs_proof(question_bytes(question))
            &&& !m.resolved
            &&& m.outcome is None
            &&& m.resolution_time == resolution_time
        },
{
    let text = question.as_str();
    assert(text.spec_bytes() == question_bytes(question));
    if text.as_bytes().len() > MAX_QUESTION_LEN {
        return Err(AegisError::InvalidMarket);
    }
    if resolution_time as i128 <= current_time as i128 + MIN_RESOLUTION_DELAY as i128 {
        return Err(AegisError::InvalidResolutionTime);
    }
    let nonce = #[verifier::truncate] (resolution_time as u64);
    let zk_commitment = generate_question_commitment(text, nonce);
    let proof_required = question_needs_proof(text);
    Ok(PredictionMarket {
        creator: *creator,
        question,
        resolution_oracle: *resolution_oracle,
        yes_pool: 0,
        no_pool: 0,
        zk_commitment,
        proof_required,
        resolved: false,
        outcome: None,
        resolution_time,
    })
}

/// Everything but the pools is the same in both markets.
pub open spec fn same_but_pools(a: PredictionMarket, b: PredictionMarket) -> bool {
    &&& a.creator == b.creator
    &&& a.question == b.question
    &&& a.resolution_oracle == b.resolution_oracle
    &&& a.zk_commitment == b.zk_commitment
    &&& a.proof_required == b.proof_required
    &&& a.resolved == b.resolved
    &&& a.outcome == b.outcome
    &&& a.resolution_time == b.resolution_time
}

/// The bet check: a non-zero stake on an open market whose pool can take it.
pub open spec fn bet_check(market: PredictionMarket, side: bool, amount: u64) -> Result<(), AegisError> {
    if amount == 0 {
        Err(AegisError::ZeroAmount)
    } else if market.resolved {
        Err(AegisError::MarketResolved)
    } else if (if side {
        market.yes_pool
    } else {
        market.no_pool
    }) + amount > u64::MAX {
        Err(AegisError::Overflow)
    } else {
        Ok(())
    }
}

/// Adds a stake to the yes pool (`side`) or the no pool of an open market.
/// A refused bet leaves the market as it was.
pub fn bet_on_market(market: &mut PredictionMarket, side: bool, amount: u64) -> (r: Result<
    (),
    AegisError,
>)
    ensures
        r == bet_check(*old(market), side, amount),
        r is Err ==> *final(market) == *old(market),
        r is Ok ==> {
            &&& same_but_pools(*final(market), *old(market))
            &&& side ==> final(market).yes_pool == old(market).yes_pool + amount
                && final(market).no_pool == old(market).no_pool
            &&& !side ==> final(market).no_pool == old(market).no_pool + amount
                && final(market).yes_pool == old(market).yes_pool
        },
{
    if amount == 0 {
        return Err(AegisError::ZeroAmount);
    }
    if market.resolved {
        return Err(AegisError::MarketResolved);
    }
    if side {
        match market.yes_pool.checked_add(amount) {
            Some(v) => {
                market.yes_pool = v;
            },
            None => {
                return Err(AegisError::Overflow);
            },
        }
    } else {
        match market.no_pool.checked_add(amount) {
            Some(v) => {
                market.no_pool = v;
            },
            None => {
                return Err(AegisError::Overflow);
            },
        }
    }
    Ok(())
}

/// The outcome that settling a market would record, before any proof: the
/// market is open, its resolution time is reached, and its resolution feed
/// gives the outcome.
pub open spec fn settlement_outcome_of(
    market: PredictionMarket,
    config: GlobalConfig,
    oracle_key: Seq<u8>,
    oracle_data: Seq<u8>,
    current_time: i64,
) -> Result<bool, AegisError> {
    if market.resolved {
        Err(AegisError::MarketResolved)
    } else if current_time < market.resolution_time {
        Err(AegisError::ResolutionTimeNotReached)
    } else {
        oracle_outcome(
            oracle_key,
            oracle_data,
            current_time as int,
            market.resolution_oracle@,
            config.max_oracle_staleness,
        )
    }
}

/// How settlement ends for a market: the outcome it records, or the error.
/// On top of the outcome step, a market that asks for a proof needs one of
/// a configured size that the proof verifier accepted.
pub open spec fn settlement(
    market: PredictionMarket,
    config: GlobalConfig,
    oracle_key: Seq<u8>,
    oracle_data: Seq<u8>,
    current_time: i64,
    proof_len: nat,
    proof_accepted: bool,
) -> Result<bool, AegisError> {
    match settlement_outcome_of(market, config, oracle_key, oracle_data, current_time) {
        Err(e) => Err(e),
        Ok(outcome) => if market.proof_required && !(config.settlement_proof_size_ok(proof_len)
            && proof_accepted) {
            Err(AegisError::InvalidProof)
        } else {
            Ok(outcome)
        },
    }
}

/// The first step of settlement: the outcome that settling the market now
/// would record. The caller has the proof verifier judge the settlement
/// proof over the market's commitment and this outcome, then passes the
/// verdict to `settle_market`.
pub fn settlement_outcome(
    market: &PredictionMarket,
    config: &GlobalConfig,
    oracle_account: &OracleAccount,
    current_time: i64,
) -> (r: Result<bool, AegisError>)
    ensures
        r == settlement_outcome_of(
            *market,
            *config,
            oracle_account.key@,
            oracle_account.data@,
            current_time,
        ),
{
    if market.resolved {
        return Err(AegisError::MarketResolved);
    }
    if current_time < market.resolution_time {
        return Err(AegisError::ResolutionTimeNotReached);
    }
    fetch_oracle_outcome(
        oracle_account,
        current_time,
        &market.resolution_oracle,
        config.max_oracle_staleness,
    )
}

/// Resolves a market once, recording the outcome its resolution feed gives
/// (the outcome `settlement_outcome` reports). `proof_accepted` is the proof
/// verifier's verdict on `zk_proof` over the market's commitment and that
/// outcome; it matters only for a market that asks for a proof. A refused
/// settlement leaves the market as it was; a resolved market refuses every
/// further settlement.
pub fn settle_market(
    market: &mut PredictionMarket,
    config: &GlobalConfig,
    oracle_account: &OracleAccount,
    current_time: i64,
    zk_proof: &[u8],
    proof_accepted: bool,
) -> (r: Result<(), AegisError>)
    ensures
        old(market).resolved ==> r == Err::<(), AegisError>(AegisError::MarketResolved),
        match settlement(
            *old(market),
            *config,
            oracle_account.key@,
            oracle_account.data@,
            current_time,
            zk_proof@.len(),
            proof_accepted,
        ) {
            Err(e) => r == Err::<(), AegisError>(e) && *final(market) == *old(market),
            Ok(outcome) => {
                &&& r is Ok
                &&& *final(market) == (PredictionMarket {
                    resolved: true,
                    outcome: Some(outcome),
                    ..*old(market)
                })
            },
        },
{
    let outcome = match settlement_outcome(market, config, oracle_account, current_time) {
        Ok(o) => o,
        Err(e) => {
            return Err(e);
        },
    };
    if market.proof_required {
        let len = zk_proof.len();
        if !(len >= config.min_settlement_proof_len && len <= config.max_settlement_proof_len
            && proof_accepted) {
            return Err(AegisError::InvalidProof);
        }
    }
    market.resolved = true;
    market.outcome = Some(outcome);
    Ok(())
}

/// Settlement is terminal: once a market has been settled, settling it
/// again is refused with `MarketResolved`, whatever the configuration, feed,
/// time and proof.
pub proof fn lemma_settle_twice(
    market: PredictionMarket,
    settled: PredictionMarket,
    config: GlobalConfig,
    oracle_key: Seq<u8>,
    oracle_data: Seq<u8>,
    current_time: i64,
    proof_len: nat,
    proof_accepted: bool,
    again_config: GlobalConfig,
    again_key: Seq<u8>,
    again_data: Seq<u8>,
    again_time: i64,
    again_proof_len: nat,
    again_accepted: bool,
)
    requires
        settlement(market, config, oracle_key, oracle_data, current_time, proof_len, proof_accepted)
            is Ok,
        settled.resolved,
    ensures
        settlement(
            settled,
            again_config,
            again_key,
            again_data,
            again_time,
            again_proof_len,
            again_accepted,
        ) == Err::<bool, AegisError>(AegisError::MarketResolved),
{
}

} // verus!
