use aegis_protocol::zk_circuits::{get_proof_params, get_verifying_key, setup_params};

#[test]
fn test_circuit_creation() {
    let params = setup_params(10);
    let _ = get_verifying_key();
    let _ = get_proof_params();
    assert_eq!(params, ());
}
