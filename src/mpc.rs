use vstd::prelude::*;
use crate::errors::AegisError;

verus! {

/// The byte strings that the shares hold.
pub open spec fn share_views(shares: Seq<Vec<u8>>) -> Seq<Seq<u8>> {
    shares.map_values(|s: Vec<u8>| s@)
}

/// The XOR of byte `j` of the first `k` shares.
pub open spec fn xor_fold(shares: Seq<Seq<u8>>, j: int, k: nat) -> u8
    decreases k,
{
    if k == 0 {
        0
    } else {
        xor_fold(shares, j, (k - 1) as nat) ^ shares[k - 1][j]
    }
}

/// Byte `j` of the `i`-th masking share of a secret.
pub open spec fn mask_byte(secret: Seq<u8>, i: int, j: int) -> u8 {
    ((secret[j] + i + j) % 256) as u8
}

/// The `i`-th masking share of a secret.
pub open spec fn mask_share(secret: Seq<u8>, i: int) -> Seq<u8> {
    Seq::new(secret.len(), |j: int| mask_byte(secret, i, j))
}

/// The XOR of byte `j` of the first `k` masking shares.
pub open spec fn mask_fold(secret: Seq<u8>, j: int, k: nat) -> u8
    decreases k,
{
    if k == 0 {
        0
    } else {
        mask_fold(secret, j, (k - 1) as nat) ^ mask_byte(secret, k - 1, j)
    }
}

/// The share that makes the XOR of all shares equal to the secret.
pub open spec fn closing_share(secret: Seq<u8>, k: nat) -> Seq<u8> {
    Seq::new(secret.len(), |j: int| secret[j] ^ mask_fold(secret, j, k))
}

/// The `n` shares of a secret: `n - 1` masking shares, then the closing
/// share.
pub open spec fn mpc_shares(secret: Seq<u8>, n: nat) -> Seq<Seq<u8>> {
    Seq::new((n - 1) as nat, |i: int| mask_share(secret, i)).push(closing_share(secret, (n - 1) as nat))
}

/// Splitting needs a non-empty secret and `0 < t <= n`.
pub open spec fn mpc_params_ok(secret_len: nat, t: nat, n: nat) -> bool {
    &&& secret_len > 0
    &&& t > 0
    &&& n >= t
}

/// The secret that shares put together give: the byte-wise XOR of all of
/// them. There must be at least `t` shares, and at least one, all of the
/// same length.
pub open spec fn reconstruction(shares: Seq<Seq<u8>>, t: nat) -> Result<Seq<u8>, AegisError> {
    if shares.len() < t || shares.len() == 0 {
        Err(AegisError::TooFewShares)
    } else if exists|i: int| 0 <= i < shares.len() && (#[trigger] shares[i]).len() != shares[0].len() {
        Err(AegisError::DeserializationError)
    } else {
        Ok(Seq::new(shares[0].len(), |j: int| xor_fold(shares, j, shares.len())))
    }
}

/// Splits a secret into `n` shares whose byte-wise XOR is the secret:
/// `n - 1` masking shares derived from the secret, then one closing share.
/// Every share is needed; `t` is only checked against `n`.
pub fn simulate_mpc_share(secret: &[u8], t: usize, n: usize) -> (r: Result<Vec<Vec<u8>>, AegisError>)
    ensures
        r is Ok <==> mpc_params_ok(secret@.len(), t as nat, n as nat),
        r is Err ==> r == Err::<Vec<Vec<u8>>, AegisError>(AegisError::InvalidMPCParams),
        r matches Ok(shares) ==> share_views(shares@) == mpc_shares(secret@, n as nat),
{
    if n < t || t == 0 || n == 0 || secret.len() == 0 {
        return Err(AegisError::InvalidMPCParams);
    }
    let len = secret.len();
    let mut shares: Vec<Vec<u8>> = Vec::new();
    let mut acc: Vec<u8> = vec![0u8; len];
    let mut i: usize = 0;
    while i < n - 1
        invariant
            len == secret@.len(),
            0 < n,
            i <= n - 1,
            acc@.len() == len,
            forall|j: int| 0 <= j < len ==> acc@[j] == mask_fold(secret@, j, i as nat),
            share_views(shares@) =~= Seq::new(i as nat, |k: int| mask_share(secret@, k)),
        decreases n - 1 - i,
    {
        let mut share: Vec<u8> = Vec::new();
        let mut j: usize = 0;
        while j < len
            invariant
                len == secret@.len(),
                i < n,
                j <= len,
                acc@.len() == len,
                share@ =~= mask_share(secret@, i as int).subrange(0, j as int),
                forall|k: int| 0 <= k < j ==> acc@[k] == mask_fold(secret@, k, (i + 1) as nat),
                forall|k: int| j <= k < len ==> acc@[k] == mask_fold(secret@, k, i as nat),
            decreases len - j,
        {
            let s = secret[j] as usize;
            let byte = ((s + i % 256 + j % 256) % 256) as u8;
            assert(byte == mask_byte(secret@, i as int, j as int)) by {
                assert((s + i % 256 + j % 256) % 256 == (s + i + j) % 256) by (nonlinear_arith);
            }
            share.push(byte);
            let updated = acc[j] ^ byte;
            acc.set(j, updated);
            j = j + 1;
        }
        proof {
            assert(share@ =~= mask_share(secret@, i as int));
        }
        let ghost before = shares@;
        shares.push(share);
        proof {
            assert(share_views(shares@) =~= share_views(before).push(mask_share(secret@, i as int)));
        }
        i = i + 1;
    }
    let mut last: Vec<u8> = Vec::new();
    let mut j: usize = 0;
    while j < len
        invariant
            len == secret@.len(),
            j <= len,
            acc@.len() == len,
            forall|k: int| 0 <= k < len ==> acc@[k] == mask_fold(secret@, k, (n - 1) as nat),
            last@ =~= closing_share(secret@, (n - 1) as nat).subrange(0, j as int),
        decreases len - j,
    {
        last.push(secret[j] ^ acc[j]);
        j = j + 1;
    }
    proof {
        assert(last@ =~= closing_share(secret@, (n - 1) as nat));
    }
    let ghost before = shares@;
    shares.push(last);
    proof {
        assert(share_views(shares@) =~= share_views(before).push(last@));
    }
    Ok(shares)
}

/// Puts shares back together: the byte-wise XOR of all of them. Fewer than
/// `t` shares, or none, give `TooFewShares`; shares of different lengths
/// give `DeserializationError`.
pub fn simulate_mpc_reconstruct(shares: &[Vec<u8>], t: usize) -> (r: Result<Vec<u8>, AegisError>)
    ensures
        r matches Ok(v) ==> reconstruction(share_views(shares@), t as nat) == Ok::<
            Seq<u8>,
            AegisError,
        >(v@),
        r matches Err(e) ==> reconstruction(share_views(shares@), t as nat) == Err::<
            Seq<u8>,
            AegisError,
        >(e),
{
    let ghost views = share_views(shares@);
    if shares.len() < t || shares.len() == 0 {
        return Err(AegisError::TooFewShares);
    }
    let len = shares[0].len();
    let mut i: usize = 0;
    while i < shares.len()
        invariant
            i <= shares@.len(),
            shares@.len() >= t,
            shares@.len() > 0,
            views == share_views(shares@),
            len == views[0].len(),
            forall|k: int| 0 <= k < i ==> views[k].len() == len,
        decreases shares@.len() - i,
    {
        if shares[i].len() != len {
            assert(views.len() == shares@.len());
            assert(views[i as int].len() != views[0].len());
            assert(!(views.len() < t || views.len() == 0));
            assert(exists|m: int| 0 <= m < views.len() && (#[trigger] views[m]).len() != views[0].len());
            return Err(AegisError::DeserializationError);
        }
        i = i + 1;
    }
    let mut out: Vec<u8> = vec![0u8; len];
    let mut k: usize = 0;
    while k < shares.len()
        invariant
            k <= shares@.len(),
            views == share_views(shares@),
            forall|m: int| 0 <= m < shares@.len() ==> views[m].len() == len,
            out@.len() == len,
            forall|j: int| 0 <= j < len ==> out@[j] == xor_fold(views, j, k as nat),
        decreases shares@.len() - k,
    {
        let share = &shares[k];
        assert(share@ == views[k as int]);
        let mut j: usize = 0;
        while j < len
            invariant
                k < shares@.len(),
                views == share_views(shares@),
                share@ == views[k as int],
                share@.len() == len,
                j <= len,
                out@.len() == len,
                forall|m: int| 0 <= m < j ==> out@[m] == xor_fold(views, m, (k + 1) as nat),
                forall|m: int| j <= m < len ==> out@[m] == xor_fold(views, m, k as nat),
            decreases len - j,
        {
            let updated = out[j] ^ share[j];
            out.set(j, updated);
            j = j + 1;
        }
        k = k + 1;
    }
    proof {
        assert(out@ =~= Seq::new(views[0].len(), |j: int| xor_fold(views, j, views.len())));
    }
    Ok(out)
}

proof fn lemma_masks_fold(secret: Seq<u8>, n: nat, j: int, k: nat)
    requires
        n >= 1,
        k <= n - 1,
        0 <= j < secret.len(),
    ensures
        xor_fold(mpc_shares(secret, n), j, k) == mask_fold(secret, j, k),
    decreases k,
{
    if k > 0 {
        assert(mpc_shares(secret, n)[k - 1] == mask_share(secret, k - 1));
        lemma_masks_fold(secret, n, j, (k - 1) as nat);
    }
}

/// Putting all `n` shares of a secret together gives the secret back, and
/// fewer than `t` of them give `TooFewShares`.
pub proof fn lemma_mpc_round_trip(secret: Seq<u8>, t: nat, n: nat)
    requires
        mpc_params_ok(secret.len(), t, n),
    ensures
        reconstruction(mpc_shares(secret, n), t) == Ok::<Seq<u8>, AegisError>(secret),
        forall|k: nat|
            k < t ==> #[trigger] reconstruction(mpc_shares(secret, n).take(k as int), t) == Err::<
                Seq<u8>,
                AegisError,
            >(AegisError::TooFewShares),
{
    let shares = mpc_shares(secret, n);
    assert(shares.len() == n);
    assert forall|i: int| 0 <= i < shares.len() implies shares[i].len() == secret.len() by {}
    assert forall|j: int| 0 <= j < secret.len() implies xor_fold(shares, j, n) == secret[j] by {
        lemma_masks_fold(secret, n, j, (n - 1) as nat);
        let f = mask_fold(secret, j, (n - 1) as nat);
        let s = secret[j];
        assert(f ^ (s ^ f) == s) by (bit_vector);
    }
    assert(Seq::new(shares[0].len(), |j: int| xor_fold(shares, j, shares.len())) =~= secret);
}

} // verus!
