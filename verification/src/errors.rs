use vstd::prelude::*;

verus! {

/// Why a decode, refresh, or quote request failed.
///
/// Insufficient liquidity is never an error: it is reported as a flag on the
/// simulation result.
#[derive(Clone, Copy, Debug, PartialEq, Eq, Structural)]
pub enum MarketError {
    /// Account bytes do not match the expected binary layout.
    Decode,
    /// A tracked address was absent from the supplied account set.
    MissingAccount,
    /// An amount cannot be represented in the signed 64-bit lot/native domain.
    Overflow,
    /// An oracle feed's last update is too far behind the current slot.
    StaleOracle,
    /// An oracle feed's confidence interval is too wide relative to its price.
    OracleConfidence,
}

} // verus!
