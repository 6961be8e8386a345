use vstd::prelude::*;

verus! {

/// Failures that abort a pipeline stage. Chain data that is not there yet is
/// no failure: the stages treat it as nothing to do.
#[derive(Debug, Clone, Copy, PartialEq, Eq, Structural)]
pub enum BridgeError {
    /// The confirmation depth is not configured.
    ConfigurationMissing,
    /// The state holds no batch of deposit transactions.
    DepositTransactionsMissing,
    /// The state holds no table of watched deposit addresses.
    DepositIndexMissing,
    /// The state holds no network parameter.
    NetworkMissing,
}

} // verus!
