use aegis_protocol::errors::AegisError;
use aegis_protocol::prediction_market::{
    bet_on_market, calculate_market_depth, calculate_payout, check_market_liquidity,
    create_prediction_market, question_needs_proof, settle_market, validate_market_parameters,
    validate_market_state, MarketOperation,
};
use aegis_protocol::privacy_utils::generate_question_commitment;
use aegis_protocol::prediction_market::settlement_outcome;
use aegis_protocol::protocol::initialize_config;
use aegis_protocol::types::GlobalConfig;
use aegis_protocol::types::{OracleAccount, Pubkey};

fn config() -> GlobalConfig {
    initialize_config(&Pubkey::new([100; 32]), 150_000_000, 3600, vec![Pubkey::new([50; 32])], vec![Pubkey::new([51; 32])], &Pubkey::new([200; 32]))
        .unwrap()
}

fn feed(key: u8, price: i64, publish_time: i64) -> OracleAccount {
    let mut data = vec![0u8; 240];
    data[208..216].copy_from_slice(&price.to_le_bytes());
    data[232..240].copy_from_slice(&publish_time.to_le_bytes());
    OracleAccount { key: Pubkey::new([key; 32]), data }
}

#[test]
fn payout_values() {
    assert_eq!(calculate_payout(50, 100, 50), Ok(75));
    assert_eq!(calculate_payout(50, 0, 50), Ok(0));
    assert_eq!(calculate_payout(1, 3, 0), Ok(1));
    assert_eq!(calculate_payout(10, 3, 1), Ok(13));
    assert_eq!(calculate_payout(1, u64::MAX, 1), Ok(1));
    assert_eq!(calculate_payout(1, 1 << 63, 1 << 63), Ok(2));
    assert_eq!(calculate_payout(u64::MAX, u64::MAX, u64::MAX), Err(AegisError::Overflow));
    assert_eq!(calculate_payout(u64::MAX / 2, u64::MAX, u64::MAX), Ok(u64::MAX - 1));
    assert_eq!(calculate_payout(u64::MAX, 1, 1), Err(AegisError::Overflow));
}

#[test]
fn market_state_rules() {
    assert_eq!(validate_market_state(false, 100, 50, MarketOperation::Bet), Ok(()));
    assert_eq!(
        validate_market_state(false, 100, 100, MarketOperation::Bet),
        Err(AegisError::InvalidResolutionTime)
    );
    assert_eq!(
        validate_market_state(true, 100, 50, MarketOperation::Bet),
        Err(AegisError::MarketResolved)
    );
    assert_eq!(validate_market_state(false, 100, 100, MarketOperation::Settle), Ok(()));
    assert_eq!(
        validate_market_state(false, 100, 99, MarketOperation::Settle),
        Err(AegisError::ResolutionTimeNotReached)
    );
    assert_eq!(validate_market_state(true, 100, 0, MarketOperation::Claim), Ok(()));
    assert_eq!(
        validate_market_state(false, 100, 0, MarketOperation::Claim),
        Err(AegisError::MarketResolved)
    );
}

#[test]
fn market_parameters_and_depth() {
    assert_eq!(validate_market_parameters(0, 0, 10, 0), Ok(()));
    assert_eq!(validate_market_parameters(5, 5, 10, 0), Ok(()));
    assert_eq!(validate_market_parameters(5, 4, 10, 0), Err(AegisError::InvalidMarket));
    assert_eq!(validate_market_parameters(0, 0, 0, 0), Err(AegisError::InvalidResolutionTime));
    assert_eq!(validate_market_parameters(0, 0, 31_536_000, 0), Ok(()));
    assert_eq!(
        validate_market_parameters(0, 0, 31_536_001, 0),
        Err(AegisError::InvalidResolutionTime)
    );
    assert_eq!(calculate_market_depth(3, 4), 7);
    assert_eq!(calculate_market_depth(u64::MAX, 1), 0);
    assert!(check_market_liquidity(u64::MAX, 1, u64::MAX));
    assert!(check_market_liquidity(3, 4, 7));
    assert!(!check_market_liquidity(3, 4, 8));
}

#[test]
fn proof_heuristic() {
    assert!(question_needs_proof("Will the HEDGE fund win?"));
    assert!(question_needs_proof("Yield above 5%?"));
    assert!(question_needs_proof("hedge"));
    assert!(!question_needs_proof("Will ETH rise?"));
    assert!(!question_needs_proof("hedg"));
    assert!(!question_needs_proof(""));
}

#[test]
fn create_market_rules() {
    let creator = Pubkey::new([1; 32]);
    let oracle = Pubkey::new([2; 32]);
    let m = create_prediction_market(&creator, &oracle, 5_000, "Will ETH rise?".to_string(), 1_000)
        .unwrap();
    assert_eq!(m.creator, creator);
    assert_eq!(m.resolution_oracle, oracle);
    assert_eq!(m.question, "Will ETH rise?");
    assert_eq!((m.yes_pool, m.no_pool), (0, 0));
    assert_eq!(m.zk_commitment, generate_question_commitment("Will ETH rise?", 5_000));
    assert!(!m.proof_required);
    assert!(!m.resolved);
    assert_eq!(m.outcome, None);
    assert_eq!(m.resolution_time, 5_000);
    let y = create_prediction_market(&creator, &oracle, 5_000, "Yield?".to_string(), 1_000).unwrap();
    assert!(y.proof_required);
    assert_eq!(
        create_prediction_market(&creator, &oracle, 4_600, "q".to_string(), 1_000).map(|_| ()),
        Err(AegisError::InvalidResolutionTime)
    );
    assert!(create_prediction_market(&creator, &oracle, 4_601, "q".to_string(), 1_000).is_ok());
    assert!(create_prediction_market(&creator, &oracle, 5_000, "x".repeat(64), 1_000).is_ok());
    assert_eq!(
        create_prediction_market(&creator, &oracle, 5_000, "x".repeat(65), 1_000).map(|_| ()),
        Err(AegisError::InvalidMarket)
    );
}

#[test]
fn bets_fill_pools() {
    let mut m = create_prediction_market(
        &Pubkey::new([1; 32]),
        &Pubkey::new([2; 32]),
        5_000,
        "Will ETH rise?".to_string(),
        0,
    )
    .unwrap();
    assert_eq!(bet_on_market(&mut m, true, 10), Ok(()));
    assert_eq!(bet_on_market(&mut m, false, 4), Ok(()));
    assert_eq!(bet_on_market(&mut m, true, 1), Ok(()));
    assert_eq!((m.yes_pool, m.no_pool), (11, 4));
    assert_eq!(bet_on_market(&mut m, true, 0), Err(AegisError::ZeroAmount));
    assert_eq!(bet_on_market(&mut m, true, u64::MAX), Err(AegisError::Overflow));
    assert_eq!((m.yes_pool, m.no_pool), (11, 4));
    m.resolved = true;
    assert_eq!(bet_on_market(&mut m, false, 1), Err(AegisError::MarketResolved));
}

#[test]
fn settle_once_then_refuse() {
    let cfg = config();
    let oracle = Pubkey::new([2; 32]);
    let mut m =
        create_prediction_market(&Pubkey::new([1; 32]), &oracle, 5_000, "Rain?".to_string(), 0)
            .unwrap();
    assert_eq!(
        settle_market(&mut m, &cfg, &feed(2, 1, 4_990), 4_999, &[], true),
        Err(AegisError::ResolutionTimeNotReached)
    );
    assert_eq!(
        settle_market(&mut m, &cfg, &feed(3, 1, 5_000), 5_000, &[], true),
        Err(AegisError::InvalidOracle)
    );
    assert!(!m.resolved);
    assert_eq!(settle_market(&mut m, &cfg, &feed(2, 1, 5_000), 5_000, &[], false), Ok(()));
    assert!(m.resolved);
    assert_eq!(m.outcome, Some(true));
    let snapshot = m.clone();
    assert_eq!(
        settle_market(&mut m, &cfg, &feed(2, -1, 5_010), 5_010, &[], true),
        Err(AegisError::MarketResolved)
    );
    assert_eq!(m.outcome, snapshot.outcome);
    assert_eq!(m.resolved, snapshot.resolved);
    assert_eq!(m.zk_commitment, snapshot.zk_commitment);
}

#[test]
fn settle_with_required_proof() {
    let cfg = config();
    let oracle = Pubkey::new([2; 32]);
    let mut m = create_prediction_market(
        &Pubkey::new([1; 32]),
        &oracle,
        5_000,
        "Hedge pays?".to_string(),
        0,
    )
    .unwrap();
    assert!(m.proof_required);
    let f = feed(2, -7, 5_000);
    assert_eq!(settlement_outcome(&m, &cfg, &f, 5_000), Ok(false));
    assert_eq!(settlement_outcome(&m, &cfg, &f, 4_999), Err(AegisError::ResolutionTimeNotReached));
    assert_eq!(settle_market(&mut m, &cfg, &f, 5_000, &[0u8; 1023], true), Err(AegisError::InvalidProof));
    assert_eq!(settle_market(&mut m, &cfg, &f, 5_000, &[0u8; 2049], true), Err(AegisError::InvalidProof));
    assert_eq!(settle_market(&mut m, &cfg, &f, 5_000, &[0u8; 1024], false), Err(AegisError::InvalidProof));
    assert!(!m.resolved);
    assert_eq!(settle_market(&mut m, &cfg, &f, 5_000, &[0u8; 2048], true), Ok(()));
    assert_eq!(m.outcome, Some(false));
}
