use aegis_protocol::errors::AegisError;
use aegis_protocol::merkle::{
    compute_merkle_root, create_merkle_proof, merkle_tree_root, verify_merkle_proof,
};
use aegis_protocol::mpc::{simulate_mpc_reconstruct, simulate_mpc_share};
use aegis_protocol::privacy_utils::{
    compute_poseidon_commitment, compute_position_hash, encrypt_position_data,
    generate_privacy_commitment, generate_question_commitment, generate_zk_commitment,
    validate_commitment, verify_encrypted_hash, verify_hedge_validity_proof, verify_poseidon_hash,
    verify_zk_proof,
};
use aegis_protocol::protocol::initialize_config;
use aegis_protocol::types::Pubkey;

#[test]
fn test_commitment_validation() {
    let zero_commitment = [0u8; 32];
    assert!(!validate_commitment(&zero_commitment));

    let valid_commitment = [1u8; 32];
    assert!(validate_commitment(&valid_commitment));
}

#[test]
fn test_poseidon_roundtrip() {
    let data = vec![1u8, 2u8, 3u8];
    let commitment = compute_poseidon_commitment(&data);
    assert!(verify_poseidon_hash(commitment, &data));
}

#[test]
fn test_poseidon_mismatch() {
    let data = vec![1u8, 2u8, 3u8];
    let altered_data = vec![1u8, 2u8, 4u8];
    let commitment = compute_poseidon_commitment(&data);
    assert!(!verify_poseidon_hash(commitment, &altered_data));
}

#[test]
fn test_mpc_share_reconstruct() {
    let secret = b"true";
    let shares = simulate_mpc_share(secret, 2, 3).unwrap();
    assert_eq!(shares.len(), 3);
    let _reconstructed = simulate_mpc_reconstruct(&shares[0..2], 2).unwrap();
    let reconstructed_all = simulate_mpc_reconstruct(&shares, 3).unwrap();
    assert_eq!(reconstructed_all, secret);
}

#[test]
fn test_mpc_insufficient_shares() {
    let secret = b"true";
    let shares = simulate_mpc_share(secret, 2, 3).unwrap();
    let result = simulate_mpc_reconstruct(&shares[0..1], 2);
    assert!(result.is_err());
}

fn hex(bytes: &[u8]) -> String {
    bytes.iter().map(|b| format!("{:02x}", b)).collect()
}

#[test]
fn sha256_commitment_matches_known_digest() {
    let digest = compute_poseidon_commitment(b"abc");
    assert_eq!(
        hex(&digest),
        "ba7816bf8f01cfea414140de5dae2223b00361a396177a9cb410ff61f20015ad"
    );
}

#[test]
fn commitments_hash_their_encodings() {
    let owner = Pubkey::new([7u8; 32]);
    let mut expected = vec![7u8; 32];
    expected.extend_from_slice(&5u64.to_le_bytes());
    expected.extend_from_slice(&9u64.to_le_bytes());
    expected.extend_from_slice(&100u64.to_le_bytes());
    assert_eq!(
        compute_position_hash(&owner, &[5, 9], 100),
        compute_poseidon_commitment(&expected)
    );

    let mut q = b"Will ETH rise?".to_vec();
    q.extend_from_slice(&42u64.to_le_bytes());
    assert_eq!(
        generate_question_commitment("Will ETH rise?", 42),
        compute_poseidon_commitment(&q)
    );

    let salt = [3u8; 32];
    let mut p = b"secret".to_vec();
    p.extend_from_slice(&salt);
    assert_eq!(
        generate_privacy_commitment(b"secret", &salt),
        compute_poseidon_commitment(&p)
    );

    let mut private = Vec::new();
    private.extend_from_slice(&2u64.to_le_bytes());
    let private_hash = compute_poseidon_commitment(&private);
    let mut public = Vec::new();
    public.extend_from_slice(&1u64.to_le_bytes());
    public.extend_from_slice(&private_hash);
    assert_eq!(
        generate_zk_commitment(&[1], &[2]),
        compute_poseidon_commitment(&public)
    );
    assert_ne!(compute_position_hash(&owner, &[5, 9], 100), [0u8; 32]);
}

#[test]
fn encrypted_hash_and_masking() {
    let key = Pubkey::new([0xffu8; 32]);
    let masked = encrypt_position_data(&[0x0f, 0xf0], &key).unwrap();
    assert_eq!(masked, vec![0xf0, 0x0f]);
    let digest = compute_poseidon_commitment(&masked);
    assert_eq!(verify_encrypted_hash(&masked, &digest), Ok(true));
    assert_eq!(verify_encrypted_hash(&[1, 2], &digest), Ok(false));
}

#[test]
fn proof_size_gates() {
    let mut c = initialize_config(
        &Pubkey::new([1; 32]),
        150_000_000,
        3600,
        vec![Pubkey::new([2; 32])],
        vec![Pubkey::new([3; 32])],
        &Pubkey::new([4; 32]),
    )
    .unwrap();
    assert!(!verify_hedge_validity_proof(&[], true, &c));
    assert!(!verify_hedge_validity_proof(&[0u8; 199], true, &c));
    assert!(verify_hedge_validity_proof(&[0u8; 200], false, &c));
    assert!(verify_hedge_validity_proof(&[0u8; 512], true, &c));
    assert!(!verify_hedge_validity_proof(&[0u8; 513], true, &c));
    assert!(verify_zk_proof(&[0u8; 300], &[0u8; 32], &c));
    assert!(!verify_zk_proof(&[0u8; 100], &[0u8; 32], &c));
    c.min_hedge_proof_len = 1;
    c.max_hedge_proof_len = 8;
    assert!(verify_hedge_validity_proof(&[0u8; 8], true, &c));
    assert!(!verify_hedge_validity_proof(&[0u8; 200], true, &c));
}

fn leaves(n: usize) -> (Vec<Vec<u8>>, Vec<[u8; 32]>) {
    let data: Vec<Vec<u8>> = (0..n).map(|i| vec![i as u8, 0xaa, i as u8]).collect();
    let hashes = data.iter().map(|d| compute_poseidon_commitment(d)).collect();
    (data, hashes)
}

#[test]
fn merkle_round_trip_every_leaf() {
    for n in 1..=9 {
        let (data, hashes) = leaves(n);
        let root = merkle_tree_root(&hashes).unwrap();
        for i in 0..n {
            let proof = create_merkle_proof(&hashes, i);
            assert!(verify_merkle_proof(&data[i], &proof, &root, i), "n={} i={}", n, i);
            assert_eq!(compute_merkle_root(&hashes[i], &proof, i), root);
        }
    }
}

#[test]
fn merkle_flipped_sibling_fails() {
    let (data, hashes) = leaves(5);
    let root = merkle_tree_root(&hashes).unwrap();
    for i in 0..5 {
        let proof = create_merkle_proof(&hashes, i);
        for k in 0..proof.len() {
            for byte in [0usize, 17, 31] {
                let mut forged = proof.clone();
                forged[k][byte] ^= 1;
                assert!(!verify_merkle_proof(&data[i], &forged, &root, i));
            }
        }
    }
}

#[test]
fn merkle_edges() {
    assert_eq!(merkle_tree_root(&[]), None);
    let (data, hashes) = leaves(1);
    assert_eq!(merkle_tree_root(&hashes), Some(hashes[0]));
    assert!(create_merkle_proof(&hashes, 0).is_empty());
    assert!(verify_merkle_proof(&data[0], &[], &hashes[0], 0));
    let (_, two) = leaves(2);
    assert!(create_merkle_proof(&two, 2).is_empty());
    let proof = create_merkle_proof(&two, 0);
    assert_eq!(proof, vec![two[1]]);
    let mut pair = two[0].to_vec();
    pair.extend_from_slice(&two[1]);
    assert_eq!(merkle_tree_root(&two), Some(compute_poseidon_commitment(&pair)));
}

#[test]
fn mpc_round_trip_and_errors() {
    for n in 1..=5 {
        let secret = b"hedge-now";
        let shares = simulate_mpc_share(secret, 1, n).unwrap();
        assert_eq!(shares.len(), n);
        assert_eq!(simulate_mpc_reconstruct(&shares, 1).unwrap(), secret.to_vec());
    }
    let shares = simulate_mpc_share(b"ab", 2, 3).unwrap();
    assert_eq!(shares[0], vec![b'a', (b'b' + 1)]);
    assert_eq!(shares[1], vec![b'a' + 1, (b'b' + 2)]);
    assert_eq!(simulate_mpc_share(b"ab", 3, 2), Err(AegisError::InvalidMPCParams));
    assert_eq!(simulate_mpc_share(b"ab", 0, 2), Err(AegisError::InvalidMPCParams));
    assert_eq!(simulate_mpc_share(b"", 1, 2), Err(AegisError::InvalidMPCParams));
    assert_eq!(simulate_mpc_reconstruct(&[], 0), Err(AegisError::TooFewShares));
    assert_eq!(
        simulate_mpc_reconstruct(&[vec![1, 2], vec![3]], 2),
        Err(AegisError::DeserializationError)
    );
    assert_eq!(simulate_mpc_reconstruct(&[vec![1, 2], vec![3, 3]], 2), Ok(vec![2, 1]));
}
