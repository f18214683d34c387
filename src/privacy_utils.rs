use vstd::prelude::*;
use crate::bytes::{push_all, push_u64_le, u64_le, u64s_le};
use crate::errors::AegisError;
use crate::types::{GlobalConfig, Pubkey};
use vstd::string::StringSliceAdditionalSpecFns;

verus! {

/// The SHA-256 digest of `data`.
pub uninterp spec fn sha256_of(data: Seq<u8>) -> Seq<u8>;

/// Relies on `sha2::Sha256::digest`: the 32-byte SHA-256 digest of the
/// input, which depends on the input bytes alone.
#[verifier::external_body]
pub(crate) fn sha256(data: &[u8]) -> (r: [u8; 32])
    ensures
        r@ == sha256_of(data@),
{
    <sha2::Sha256 as sha2::Digest>::digest(data).into()
}

/// Whether two digests are equal.
pub fn digests_equal(a: &[u8; 32], b: &[u8; 32]) -> (r: bool)
    ensures
        r == (a@ == b@),
{
    let mut i: usize = 0;
    while i < 32
        invariant
            i <= 32,
            forall|j: int| 0 <= j < i ==> a@[j] == b@[j],
        decreases 32 - i,
    {
        if a[i] != b[i] {
            return false;
        }
        i = i + 1;
    }
    assert(a@ =~= b@);
    true
}

/// Appends the little-endian encoding of each value.
fn push_u64s_le(out: &mut Vec<u8>, xs: &[u64])
    ensures
        final(out)@ == old(out)@ + u64s_le(xs@),
{
    let ghost start = out@;
    let mut i: usize = 0;
    while i < xs.len()
        invariant
            i <= xs@.len(),
            out@ == start + u64s_le(xs@.subrange(0, i as int)),
        decreases xs@.len() - i,
    {
        assert(xs@.subrange(0, i + 1).drop_last() =~= xs@.subrange(0, i as int));
        push_u64_le(out, xs[i]);
        i = i + 1;
        assert(out@ =~= start + u64s_le(xs@.subrange(0, i as int)));
    }
    assert(xs@.subrange(0, i as int) =~= xs@);
}

/// What a position commitment hashes: the owner, each collateral amount and
/// the debt, amounts little-endian.
pub open spec fn position_preimage(owner: Seq<u8>, amounts: Seq<u64>, minted: u64) -> Seq<u8> {
    owner + u64s_le(amounts) + u64_le(minted)
}

/// The commitment to a position's owner, collateral amounts and debt.
pub fn compute_position_hash(owner: &Pubkey, collateral_amounts: &[u64], minted_aegis: u64) -> (r: [u8;
    32])
    ensures
        r@ == sha256_of(position_preimage(owner@, collateral_amounts@, minted_aegis)),
{
    let mut data: Vec<u8> = Vec::new();
    push_all(&mut data, owner.bytes.as_slice());
    push_u64s_le(&mut data, collateral_amounts);
    push_u64_le(&mut data, minted_aegis);
    sha256(data.as_slice())
}

/// The size gate on a hedge proof: its length lies within the configured
/// bounds, which exclude the empty proof. Whether the proof is sound for
/// the decision is the proof verifier's judgement, not this check's.
pub fn verify_hedge_validity_proof(proof: &[u8], _hedge_decision: bool, config: &GlobalConfig) -> (r:
    bool)
    ensures
        r == config.hedge_proof_size_ok(proof@.len()),
{
    proof.len() >= config.min_hedge_proof_len && proof.len() <= config.max_hedge_proof_len
}

/// The size gate on a proof of a commitment, with the same bounds as a
/// hedge proof.
pub fn verify_zk_proof(proof: &[u8], _commitment: &[u8; 32], config: &GlobalConfig) -> (r: bool)
    ensures
        r == config.hedge_proof_size_ok(proof@.len()),
{
    proof.len() >= config.min_hedge_proof_len && proof.len() <= config.max_hedge_proof_len
}

/// What a question commitment hashes: the question's UTF-8 bytes and the
/// little-endian nonce.
pub open spec fn question_preimage(question: Seq<u8>, nonce: u64) -> Seq<u8> {
    question + u64_le(nonce)
}

/// The commitment binding a market question to a nonce.
pub fn generate_question_commitment(question: &str, nonce: u64) -> (r: [u8; 32])
    ensures
        r@ == sha256_of(question_preimage(question.spec_bytes(), nonce)),
{
    let mut data: Vec<u8> = Vec::new();
    push_all(&mut data, question.as_bytes());
    push_u64_le(&mut data, nonce);
    sha256(data.as_slice())
}

/// `data` XOR-ed byte by byte with the key's bytes, repeated.
pub open spec fn xor_with_key(data: Seq<u8>, key: Seq<u8>) -> Seq<u8> {
    Seq::new(data.len(), |i: int| data[i] ^ key[i % 32])
}

/// Masks position data with the owner's key bytes. This hides nothing from
/// anyone who knows the key: it is a stand-in, not encryption.
pub fn encrypt_position_data(position_data: &[u8], user_pubkey: &Pubkey) -> (r: Result<
    Vec<u8>,
    AegisError,
>)
    ensures
        r matches Ok(v) && v@ == xor_with_key(position_data@, user_pubkey@),
{
    let mut out: Vec<u8> = Vec::new();
    let mut i: usize = 0;
    while i < position_data.len()
        invariant
            i <= position_data@.len(),
            out@ == xor_with_key(position_data@, user_pubkey@).subrange(0, i as int),
        decreases position_data@.len() - i,
    {
        out.push(position_data[i] ^ user_pubkey.bytes[i % 32]);
        i = i + 1;
        assert(out@ =~= xor_with_key(position_data@, user_pubkey@).subrange(0, i as int));
    }
    assert(out@ =~= xor_with_key(position_data@, user_pubkey@));
    Ok(out)
}

/// Whether data hashes to the expected digest.
pub fn verify_encrypted_hash(encrypted_data: &[u8], expected_hash: &[u8; 32]) -> (r: Result<
    bool,
    AegisError,
>)
    ensures
        r matches Ok(b) && b == (sha256_of(encrypted_data@) == expected_hash@),
{
    let computed = sha256(encrypted_data);
    Ok(digests_equal(&computed, expected_hash))
}

/// What a proof commitment hashes: the public inputs, then the digest of
/// the private inputs, all values little-endian.
pub open spec fn zk_commitment_preimage(public_inputs: Seq<u64>, private_inputs: Seq<u64>) -> Seq<u8> {
    u64s_le(public_inputs) + sha256_of(u64s_le(private_inputs))
}

/// A commitment that shows the public inputs' encoding to the hash but only
/// the digest of the private ones.
pub fn generate_zk_commitment(public_inputs: &[u64], private_inputs: &[u64]) -> (r: [u8; 32])
    ensures
        r@ == sha256_of(zk_commitment_preimage(public_inputs@, private_inputs@)),
{
    let mut data: Vec<u8> = Vec::new();
    push_u64s_le(&mut data, public_inputs);
    let mut private_data: Vec<u8> = Vec::new();
    push_u64s_le(&mut private_data, private_inputs);
    let private_hash = sha256(private_data.as_slice());
    push_all(&mut data, private_hash.as_slice());
    sha256(data.as_slice())
}

/// A commitment has the right form when it is not all zeros.
pub fn validate_commitment(commitment: &[u8; 32]) -> (r: bool)
    ensures
        r == exists|i: int| 0 <= i < 32 && commitment@[i] != 0,
{
    let mut i: usize = 0;
    while i < 32
        invariant
            i <= 32,
            forall|j: int| 0 <= j < i ==> commitment@[j] == 0,
        decreases 32 - i,
    {
        if commitment[i] != 0 {
            return true;
        }
        i = i + 1;
    }
    false
}

/// The hash commitment to `data`.
pub fn compute_poseidon_commitment(data: &[u8]) -> (r: [u8; 32])
    ensures
        r@ == sha256_of(data@),
{
    sha256(data)
}

/// Whether `data` is what `commitment` commits to.
pub fn verify_poseidon_hash(commitment: [u8; 32], data: &[u8]) -> (r: bool)
    ensures
        r == (sha256_of(data@) == commitment@),
{
    let computed = compute_poseidon_commitment(data);
    digests_equal(&computed, &commitment)
}

/// The commitment to private data under a salt.
pub fn generate_privacy_commitment(private_data: &[u8], salt: &[u8; 32]) -> (r: [u8; 32])
    ensures
        r@ == sha256_of(private_data@ + salt@),
{
    let mut data: Vec<u8> = Vec::new();
    push_all(&mut data, private_data);
    push_all(&mut data, salt.as_slice());
    sha256(data.as_slice())
}

} // verus!
