use vstd::prelude::*;

verus! {

/// Every way an operation of this library can be refused. Each one aborts the
/// whole call before anything irreversible happens.
#[derive(Debug, Clone, Copy, PartialEq, Eq, Structural)]
pub enum ErrorCode {
    /// The signer is not the recorded update authority.
    Unauthorized,
    /// A supplied account differs from the one recorded in the configuration.
    AccountMismatch,
    /// The number of supplied destinations differs from the configured one.
    CountMismatch,
    /// The incoming amount is below the configured purchase threshold.
    ThresholdNotMet,
    /// The held balance is below the configured spend threshold.
    BelowThreshold,
    /// Proportions are out of range or weights do not sum to one hundred.
    InvalidProportions,
    /// A price reading is older than the allowed staleness.
    StaleFeed,
    /// A price reading's error bound exceeds the tolerance.
    LowConfidence,
    /// Division by zero, a negative price, or a value out of range.
    CalculationFailure,
    /// A stored nonce does not re-derive the expected control address.
    InvalidDerivation,
    /// A balance is below the amount to be moved out of it.
    InsufficientFunds,
    /// The operation needs the other pricing mode.
    WrongPricingMode,
    /// There is nothing to move into the certificate vault.
    NoCertificatesFound,
}

} // verus!
