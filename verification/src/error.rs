//! The engine's error taxonomy. Every failure carries enough structured
//! data for a caller to diagnose and retry with adjusted parameters.

use vstd::prelude::*;
use crate::asset::{Asset, AssetInfo, AssetInfoV, AssetV};
use crate::operations::{ops_seq_view, SwapOperation, SwapOperationV};

verus! {

/// Spec-level image of a [`ContractError`].
#[verifier::ext_equal]
pub enum ErrorV {
    Overflow,
    Unauthorized,
    MustProvideOperations,
    InvalidSwapOperations { operations: Seq<SwapOperationV>, reason: Seq<char> },
    NoPathsToCheck,
    NoPathFound { offer: AssetInfoV, ask: AssetInfoV },
    FailedMinimumReceive { token_in: AssetV, wanted: AssetV, got: AssetV },
    NativeTokenNotReceived { expected: AssetV },
    VenueQueryFailed { pool: u64, offer: AssetV, ask: AssetInfoV },
}

/// Every condition on which the engine refuses to proceed.
#[derive(Debug)]
pub enum ContractError {
    /// Arithmetic under- or overflow in balance-difference accounting:
    /// a fatal signal of a broken invariant, not a user error.
    Overflow,
    /// A caller without the required capability attempted a gated
    /// operation, or a third party attempted a continuation action.
    Unauthorized,
    /// An empty hop list was supplied.
    MustProvideOperations,
    /// A malformed hop list was supplied; carries the offending hops and
    /// the reason they were refused.
    InvalidSwapOperations { operations: Vec<SwapOperation>, reason: String },
    /// Every registered path for the pair was excluded from selection.
    NoPathsToCheck,
    /// No path is registered for the pair.
    NoPathFound { offer: AssetInfo, ask: AssetInfo },
    /// The recipient's balance increase fell short of the configured
    /// threshold; carries the original input and wanted vs. got amounts.
    FailedMinimumReceive { token_in: Asset, wanted: Asset, got: Asset },
    /// The declared native funds were not attached to the call.
    NativeTokenNotReceived { expected: Asset },
    /// The venue standing behind a pool handle produced no quote for the
    /// requested conversion.
    VenueQueryFailed { pool: u64, offer: Asset, ask: AssetInfo },
}

impl View for ContractError {
    type V = ErrorV;

    open spec fn view(&self) -> ErrorV {
        match self {
            ContractError::Overflow => ErrorV::Overflow,
            ContractError::Unauthorized => ErrorV::Unauthorized,
            ContractError::MustProvideOperations => ErrorV::MustProvideOperations,
            ContractError::InvalidSwapOperations { operations, reason } => (
                ErrorV::InvalidSwapOperations {
                    operations: ops_seq_view(operations@),
                    reason: reason@,
                }
            ),
            ContractError::NoPathsToCheck => ErrorV::NoPathsToCheck,
            ContractError::NoPathFound { offer, ask } => (
                ErrorV::NoPathFound { offer: offer@, ask: ask@ }
            ),
            ContractError::FailedMinimumReceive { token_in, wanted, got } => (
                ErrorV::FailedMinimumReceive { token_in: token_in@, wanted: wanted@, got: got@ }
            ),
            ContractError::NativeTokenNotReceived { expected } => (
                ErrorV::NativeTokenNotReceived { expected: expected@ }
            ),
            ContractError::VenueQueryFailed { pool, offer, ask } => (
                ErrorV::VenueQueryFailed { pool: *pool, offer: offer@, ask: ask@ }
            ),
        }
    }
}

} // verus!
