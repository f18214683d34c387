use aegis_protocol::errors::AegisError;
use aegis_protocol::mpc::simulate_mpc_share;
use aegis_protocol::privacy_utils::compute_position_hash;
use aegis_protocol::protocol::{
    burn_aegis, get_or_create_position, initialize_config, liquidate_position,
    manual_hedge_override, mint_aegis, trigger_hedge, update_config,
};
use aegis_protocol::types::{GlobalConfig, OracleAccount, Pubkey, UserPosition};

fn key(b: u8) -> Pubkey {
    Pubkey::new([b; 32])
}

fn feed(k: u8, price: i64, publish_time: i64) -> OracleAccount {
    let mut data = vec![0u8; 240];
    data[208..216].copy_from_slice(&price.to_le_bytes());
    data[232..240].copy_from_slice(&publish_time.to_le_bytes());
    OracleAccount { key: key(k), data }
}

fn config() -> GlobalConfig {
    initialize_config(&key(100), 150_000_000, 3600, vec![key(50), key(51)], vec![key(1), key(2)], &key(200))
        .unwrap()
}

#[test]
fn config_rules() {
    let c = config();
    assert_eq!(c.hedge_interval_seconds, 3600);
    assert_eq!(c.min_collateral_ratio, 150_000_000);
    let d = initialize_config(&key(100), 150_000_000, 0, vec![key(50)], vec![key(1)], &key(200)).unwrap();
    assert_eq!(d.hedge_interval_seconds, 3600);
    let err = |r: Result<GlobalConfig, AegisError>| r.map(|_| ()).unwrap_err();
    assert_eq!(
        err(initialize_config(&key(100), 1, 3600, vec![key(50)], vec![key(1)], &key(200))),
        AegisError::InvalidRatio
    );
    assert_eq!(
        err(initialize_config(&key(100), 150_000_000, 299, vec![key(50)], vec![key(1)], &key(200))),
        AegisError::InvalidInterval
    );
    assert_eq!(
        err(initialize_config(&key(100), 150_000_000, 86401, vec![key(50)], vec![key(1)], &key(200))),
        AegisError::InvalidInterval
    );
    assert_eq!(
        err(initialize_config(&key(100), 150_000_000, 300, vec![], vec![], &key(200))),
        AegisError::InvalidCollateralList
    );
    let six: Vec<Pubkey> = (0..6).map(key).collect();
    assert_eq!(
        err(initialize_config(&key(100), 150_000_000, 300, six.clone(), six, &key(200))),
        AegisError::InvalidCollateralList
    );
    assert_eq!(
        err(initialize_config(&key(100), 150_000_000, 86400, vec![key(50)], vec![], &key(200))),
        AegisError::OracleMismatch
    );
    assert_eq!(
        err(initialize_config(
            &key(100),
            150_000_000,
            300,
            vec![key(50), key(51), key(50)],
            vec![key(1), key(2), key(3)],
            &key(200)
        )),
        AegisError::DuplicateCollateral
    );
}

#[test]
fn update_interval() {
    let mut c = config();
    assert_eq!(update_config(&mut c, &key(9), 600), Err(AegisError::Unauthorized));
    assert_eq!(update_config(&mut c, &key(100), 200), Err(AegisError::InvalidInterval));
    assert_eq!(c.hedge_interval_seconds, 3600);
    assert_eq!(update_config(&mut c, &key(100), 600), Ok(()));
    assert_eq!(c.hedge_interval_seconds, 600);
}

#[test]
fn mint_creates_and_grows_position() {
    let c = config();
    let mut p = UserPosition::empty();
    let now = 1_000;
    // 10 units at price 3 cover 20 at ratio 1.5.
    assert_eq!(mint_aegis(&mut p, &c, &key(7), &feed(1, 3, now), now, 0, 10, 20), Ok(()));
    assert_eq!(p.owner, key(7));
    assert_eq!(p.collateral_amounts, vec![10, 0]);
    assert_eq!(p.minted_aegis, 20);
    assert_eq!(p.encrypted_position_hash, compute_position_hash(&key(7), &[10, 0], 20));
    assert_eq!(
        mint_aegis(&mut p, &c, &key(7), &feed(2, 1, now), now, 1, 3, 3),
        Err(AegisError::UnderCollateralized)
    );
    assert_eq!(mint_aegis(&mut p, &c, &key(7), &feed(2, 1, now), now, 1, 3, 2), Ok(()));
    assert_eq!(p.collateral_amounts, vec![10, 3]);
    assert_eq!(p.minted_aegis, 22);
    assert_eq!(
        mint_aegis(&mut p, &c, &key(8), &feed(2, 1, now), now, 1, 3, 2),
        Err(AegisError::Unauthorized)
    );
    assert_eq!(
        mint_aegis(&mut p, &c, &key(7), &feed(2, 1, now), now, 1, 0, 2),
        Err(AegisError::ZeroAmount)
    );
    assert_eq!(
        mint_aegis(&mut p, &c, &key(7), &feed(2, 1, now), now, 2, 3, 2),
        Err(AegisError::InvalidCollateralIndex)
    );
    assert_eq!(
        mint_aegis(&mut p, &c, &key(7), &feed(1, 1, now), now, 1, 3, 2),
        Err(AegisError::InvalidOracle)
    );
    assert_eq!(
        mint_aegis(&mut p, &c, &key(7), &feed(2, 1, now - 61), now, 1, 3, 2),
        Err(AegisError::StaleOraclePrice)
    );
    assert_eq!(
        mint_aegis(&mut p, &c, &key(7), &feed(1, 1_000_000, now), now, 0, u64::MAX, 1),
        Err(AegisError::Overflow)
    );
    assert_eq!(p.collateral_amounts, vec![10, 3]);
    assert_eq!(p.minted_aegis, 22);
}

#[test]
fn burn_keeps_ratio() {
    let c = config();
    let mut p = UserPosition::empty();
    let now = 1_000;
    mint_aegis(&mut p, &c, &key(7), &feed(1, 3, now), now, 0, 10, 20).unwrap();
    let feeds = [feed(1, 3, now), feed(2, 1, now)];
    assert_eq!(burn_aegis(&mut p, &c, &key(8), &feeds, now, 1), Err(AegisError::Unauthorized));
    assert_eq!(burn_aegis(&mut p, &c, &key(7), &feeds, now, 0), Err(AegisError::ZeroAmount));
    assert_eq!(
        burn_aegis(&mut p, &c, &key(7), &feeds, now, 21),
        Err(AegisError::InsufficientBalance)
    );
    assert_eq!(burn_aegis(&mut p, &c, &key(7), &feeds, now, 5), Ok(()));
    assert_eq!(p.minted_aegis, 15);
    // The price fell: 10 units at 2 cover only 13 at ratio 1.5.
    let fallen = [feed(1, 2, now), feed(2, 1, now)];
    assert_eq!(
        burn_aegis(&mut p, &c, &key(7), &fallen, now, 1),
        Err(AegisError::UnderCollateralized)
    );
    assert_eq!(p.minted_aegis, 15);
    assert_eq!(burn_aegis(&mut p, &c, &key(7), &fallen, now, 15), Ok(()));
    assert_eq!(p.minted_aegis, 0);
}

#[test]
fn liquidation_pays_bonus() {
    let c = config();
    let mut p = UserPosition::empty();
    let now = 1_000;
    mint_aegis(&mut p, &c, &key(7), &feed(1, 3, now), now, 0, 10, 20).unwrap();
    let healthy = [feed(1, 3, now), feed(2, 1, now)];
    let fallen = [feed(1, 2, now), feed(2, 1, now)];
    assert_eq!(liquidate_position(&p, &c, &key(9), &healthy, now), Err(AegisError::NotLiquidatable));
    assert_eq!(liquidate_position(&p, &c, &key(7), &fallen, now), Err(AegisError::Unauthorized));
    assert_eq!(liquidate_position(&p, &c, &key(9), &fallen, now), Ok(1));
    assert_eq!(liquidate_position(&p, &c, &key(9), &fallen[..1], now), Err(AegisError::OracleMismatch));
}

#[test]
fn hedge_cooldown_blocks_second_hedge() {
    let c = config();
    let mut p = UserPosition::empty();
    let proof = [0u8; 256];
    assert_eq!(trigger_hedge(&mut p, &c, &key(7), 10_000, true, &proof, true, &[]), Ok(()));
    assert_eq!(p.owner, key(7));
    assert_eq!(p.collateral_amounts, vec![0, 0]);
    assert_eq!(p.last_hedge_timestamp, 10_000);
    for decision in [true, false] {
        for accepted in [true, false] {
            assert_eq!(
                trigger_hedge(&mut p, &c, &key(7), 13_599, decision, &proof, accepted, &[]),
                Err(AegisError::HedgeCooldown)
            );
        }
    }
    assert_eq!(
        trigger_hedge(&mut p, &c, &key(7), 13_599, true, &[], true, &[]),
        Err(AegisError::HedgeCooldown)
    );
    assert_eq!(p.last_hedge_timestamp, 10_000);
    assert_eq!(trigger_hedge(&mut p, &c, &key(7), 13_600, false, &proof, true, &[]), Ok(()));
    assert_eq!(p.last_hedge_timestamp, 10_000);
}

#[test]
fn hedge_gates() {
    let c = config();
    let mut p = UserPosition::empty();
    let proof = [0u8; 256];
    assert_eq!(
        trigger_hedge(&mut p, &c, &key(7), 10_000, true, &[0u8; 10], true, &[]),
        Err(AegisError::InvalidProof)
    );
    assert_eq!(
        trigger_hedge(&mut p, &c, &key(7), 10_000, true, &proof, false, &[]),
        Err(AegisError::InvalidProof)
    );
    assert_eq!(
        trigger_hedge(&mut p, &c, &key(7), 100, true, &proof, true, &[]),
        Err(AegisError::HedgeCooldown)
    );
    assert!(p.owner.is_null());
    let shares = simulate_mpc_share(b"yes", 2, 3).unwrap();
    assert_eq!(
        trigger_hedge(&mut p, &c, &key(7), 10_000, true, &proof, true, &shares[..1]),
        Err(AegisError::TooFewShares)
    );
    let four = vec![vec![1u8], vec![2], vec![3], vec![4]];
    assert_eq!(
        trigger_hedge(&mut p, &c, &key(7), 10_000, true, &proof, true, &four),
        Err(AegisError::InvalidMPCParams)
    );
    assert_eq!(
        trigger_hedge(&mut p, &c, &key(7), 10_000, true, &proof, true, &[vec![], vec![]]),
        Err(AegisError::InvalidProof)
    );
    assert_eq!(UserPosition::empty().owner, p.owner);
    assert_eq!(trigger_hedge(&mut p, &c, &key(7), 10_000, true, &proof, true, &shares), Ok(()));
    assert_eq!(
        trigger_hedge(&mut p, &c, &key(8), 20_000, true, &proof, true, &[]),
        Err(AegisError::Unauthorized)
    );
}

#[test]
fn manual_override_repays_tenth() {
    let c = config();
    let mut p = UserPosition::empty();
    assert_eq!(
        manual_hedge_override(&mut p, &c, &key(7), 10_000, true),
        Err(AegisError::Unauthorized)
    );
    get_or_create_position(&mut p, &key(7), &c);
    assert_eq!(
        manual_hedge_override(&mut p, &c, &key(7), 10_000, true),
        Err(AegisError::InvalidOperation)
    );
    let now = 1_000;
    mint_aegis(&mut p, &c, &key(7), &feed(1, 3, now), now, 0, 10, 19).unwrap();
    assert_eq!(manual_hedge_override(&mut p, &c, &key(7), 10_000, false), Ok(()));
    assert_eq!(p.minted_aegis, 19);
    assert_eq!(p.last_hedge_timestamp, 10_000);
    assert_eq!(
        manual_hedge_override(&mut p, &c, &key(7), 13_000, true),
        Err(AegisError::HedgeCooldown)
    );
    assert_eq!(manual_hedge_override(&mut p, &c, &key(7), 13_600, true), Ok(()));
    assert_eq!(p.minted_aegis, 18);
    assert_eq!(p.encrypted_position_hash, compute_position_hash(&key(7), &[10, 0], 18));
    assert_eq!(
        manual_hedge_override(&mut p, &c, &key(8), 20_000, true),
        Err(AegisError::Unauthorized)
    );
}
