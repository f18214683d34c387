use vstd::prelude::*;

verus! {

/// A 32-byte account identity.
#[derive(Clone, Copy, Debug)]
pub struct Pubkey {
    pub bytes: [u8; 32],
}

impl View for Pubkey {
    type V = Seq<u8>;

    open spec fn view(&self) -> Seq<u8> {
        self.bytes@
    }
}

/// The all-zero identity: the owner of a position that does not exist yet.
pub open spec fn null_key() -> Seq<u8> {
    Seq::new(32, |i: int| 0u8)
}

impl Pubkey {
    pub fn new(bytes: [u8; 32]) -> (r: Pubkey)
        ensures
            r@ == bytes@,
    {
        Pubkey { bytes }
    }

    pub fn null() -> (r: Pubkey)
        ensures
            r@ == null_key(),
    {
        let r = Pubkey { bytes: [0u8; 32] };
        assert(r@ =~= null_key());
        r
    }

    pub fn is_null(&self) -> (r: bool)
        ensures
            r == (self@ == null_key()),
    {
        let mut i: usize = 0;
        while i < 32
            invariant
                i <= 32,
                forall|j: int| 0 <= j < i ==> self@[j] == 0u8,
            decreases 32 - i,
        {
            if self.bytes[i] != 0 {
                return false;
            }
            i = i + 1;
        }
        assert(self@ =~= null_key());
        true
    }

    pub fn same_as(&self, other: &Pubkey) -> (r: bool)
        ensures
            r == (self@ == other@),
    {
        let mut i: usize = 0;
        while i < 32
            invariant
                i <= 32,
                forall|j: int| 0 <= j < i ==> self@[j] == other@[j],
            decreases 32 - i,
        {
            if self.bytes[i] != other.bytes[i] {
                return false;
            }
            i = i + 1;
        }
        assert(self@ =~= other@);
        true
    }
}

impl PartialEq for Pubkey {
    fn eq(&self, other: &Pubkey) -> (r: bool) {
        self.same_as(other)
    }
}

impl vstd::std_specs::cmp::PartialEqSpecImpl for Pubkey {
    open spec fn obeys_eq_spec() -> bool {
        true
    }

    open spec fn eq_spec(&self, other: &Pubkey) -> bool {
        self@ == other@
    }
}

impl Eq for Pubkey {
}

impl Default for Pubkey {
    fn default() -> (r: Pubkey)
        ensures
            r@ == null_key(),
    {
        Pubkey::null()
    }
}

} // verus!

verus! {

/// An oracle feed as handed to an operation: its identity and its raw data.
#[derive(Clone, Debug)]
pub struct OracleAccount {
    pub key: Pubkey,
    pub data: Vec<u8>,
}

} // verus!

verus! {

/// The deployment's configuration.
///
/// `oracle_accounts[i]` is the price feed of `approved_collaterals[i]`.
#[derive(Clone, Debug)]
pub struct GlobalConfig {
    pub admin: Pubkey,
    /// Required collateral value per unit of debt, at eight decimals.
    pub min_collateral_ratio: u64,
    pub hedge_interval_seconds: u64,
    pub approved_collaterals: Vec<Pubkey>,
    pub oracle_accounts: Vec<Pubkey>,
    pub aegis_mint: Pubkey,
    /// How old, in seconds, a price sample may be when it is used.
    pub max_oracle_staleness: u64,
    /// The smallest and largest hedge proof, in bytes.
    pub min_hedge_proof_len: usize,
    pub max_hedge_proof_len: usize,
    /// The smallest and largest settlement proof, in bytes.
    pub min_settlement_proof_len: usize,
    pub max_settlement_proof_len: usize,
}

/// One owner's locked collateral and minted debt.
///
/// `collateral_amounts[i]` is the amount locked of the configuration's
/// `approved_collaterals[i]`.
#[derive(Clone, Debug)]
pub struct UserPosition {
    pub owner: Pubkey,
    pub collateral_amounts: Vec<u64>,
    pub minted_aegis: u64,
    pub encrypted_position_hash: [u8; 32],
    pub last_hedge_timestamp: i64,
}

/// A binary-outcome market with a pool for each side.
#[derive(Clone, Debug)]
pub struct PredictionMarket {
    pub creator: Pubkey,
    pub question: String,
    pub resolution_oracle: Pubkey,
    pub yes_pool: u64,
    pub no_pool: u64,
    pub zk_commitment: [u8; 32],
    pub proof_required: bool,
    pub resolved: bool,
    pub outcome: Option<bool>,
    pub resolution_time: i64,
}

impl GlobalConfig {
    /// The invariant that initialisation establishes.
    pub open spec fn wf(&self) -> bool {
        &&& 1 <= self.approved_collaterals@.len() <= 5
        &&& self.oracle_accounts@.len() == self.approved_collaterals@.len()
        &&& forall|i: int, j: int|
            0 <= i < j < self.approved_collaterals@.len() ==> self.approved_collaterals@[i]@
                != self.approved_collaterals@[j]@
        &&& self.min_collateral_ratio == 150_000_000
        &&& 300 <= self.hedge_interval_seconds <= 86400
        &&& 1 <= self.min_hedge_proof_len <= self.max_hedge_proof_len
        &&& 1 <= self.min_settlement_proof_len <= self.max_settlement_proof_len
    }

    /// Whether a hedge proof of `len` bytes has a size the configuration
    /// admits.
    pub open spec fn hedge_proof_size_ok(&self, len: nat) -> bool {
        self.min_hedge_proof_len <= len <= self.max_hedge_proof_len
    }

    /// Whether a settlement proof of `len` bytes has a size the
    /// configuration admits.
    pub open spec fn settlement_proof_size_ok(&self, len: nat) -> bool {
        self.min_settlement_proof_len <= len <= self.max_settlement_proof_len
    }
}

impl UserPosition {
    /// A position exists once it has an owner.
    pub open spec fn is_open(&self) -> bool {
        self.owner@ != null_key()
    }

    /// A position has no more amounts than there are configured feeds.
    pub open spec fn fits(&self, config: &GlobalConfig) -> bool {
        self.collateral_amounts@.len() <= config.oracle_accounts@.len()
    }

    /// A position that exists has one amount per configured collateral; one
    /// that does not is empty.
    pub open spec fn wf_for(&self, config: &GlobalConfig) -> bool {
        if self.is_open() {
            self.collateral_amounts@.len() == config.approved_collaterals@.len()
        } else {
            self.collateral_amounts@.len() == 0 && self.minted_aegis == 0
        }
    }

    /// The slot that no position has been created in yet.
    pub fn empty() -> (r: UserPosition)
        ensures
            !r.is_open(),
            r.collateral_amounts@.len() == 0,
            r.minted_aegis == 0,
            r.encrypted_position_hash@ == null_key(),
            r.last_hedge_timestamp == 0,
    {
        let r = UserPosition {
            owner: Pubkey::null(),
            collateral_amounts: Vec::new(),
            minted_aegis: 0,
            encrypted_position_hash: [0u8; 32],
            last_hedge_timestamp: 0,
        };
        assert(r.encrypted_position_hash@ =~= null_key());
        r
    }
}

} // verus!
