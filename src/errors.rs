use vstd::prelude::*;

verus! {

/// Every way an operation of the protocol can be refused.
#[derive(Clone, Copy, Debug, PartialEq, Eq, Structural)]
pub enum AegisError {
    UnderCollateralized,
    InvalidOracle,
    MarketResolved,
    InvalidProof,
    Unauthorized,
    Overflow,
    EncryptionMismatch,
    InvalidRatio,
    HedgeCooldown,
    InvalidInterval,
    InvalidCollateralList,
    OracleMismatch,
    DuplicateCollateral,
    InvalidCollateralIndex,
    ZeroAmount,
    InsufficientBalance,
    InvalidOperation,
    InvalidResolutionTime,
    ResolutionTimeNotReached,
    NotLiquidatable,
    HedgeTooFrequent,
    StaleOraclePrice,
    OracleConsensusFailure,
    InvalidMarket,
    InvalidMPCParams,
    TooFewShares,
    SerializationError,
    DeserializationError,
}

} // verus!
