//! Why a request fails.

use vstd::prelude::*;

use crate::primitives::B256;

verus! {

/// A reply that contradicts itself or lacks what it has to hold.
#[derive(Clone, Copy, Debug, PartialEq, Eq)]
pub enum ExecutionError {
    /// There is no receipt for the transaction of this hash.
    NoReceiptForTransaction(B256),
    /// There are no receipts for the block of this number.
    NoReceiptsForBlock(u64),
    /// The receipt of the transaction of this hash does not hold the log of this index.
    MissingLog(B256, u64),
    /// A log, or the key of a receipt, says other than the receipt does.
    LogReceiptMetadataMismatch(B256),
}

impl ExecutionError {
    /// The error in words, in contracts.
    pub open spec fn spec_message(self) -> Seq<char> {
        match self {
            ExecutionError::NoReceiptForTransaction(_) => "could not prove receipt for tx"@,
            ExecutionError::NoReceiptsForBlock(_) => "no receipts could be found for block"@,
            ExecutionError::MissingLog(_, _) => "receipt does not hold log of tx"@,
            ExecutionError::LogReceiptMetadataMismatch(_) =>
                "log metadata does not match proved receipt for tx"@,
        }
    }

    /// The error in words, without the transaction or block that it concerns.
    pub fn message(&self) -> (message: &'static str)
        ensures
            message@ == self.spec_message(),
    {
        match self {
            ExecutionError::NoReceiptForTransaction(_) => "could not prove receipt for tx",
            ExecutionError::NoReceiptsForBlock(_) => "no receipts could be found for block",
            ExecutionError::MissingLog(_, _) => "receipt does not hold log of tx",
            ExecutionError::LogReceiptMetadataMismatch(_) =>
                "log metadata does not match proved receipt for tx",
        }
    }
}

/// Why a request to the provider fails. `E` is the error of what the provider calls: the API, the
/// block providers and the checks of proofs.
#[derive(Clone, Debug, PartialEq, Eq)]
pub enum ProviderError<E> {
    /// No provider has the block.
    BlockNotFound,
    /// The transaction does not stand in a block.
    TransactionNotIncluded,
    /// The transaction stands at another position than the one asked for.
    TransactionIndexMismatch,
    /// The reply contradicts itself or lacks what it has to hold.
    Execution(ExecutionError),
    /// What the provider called failed.
    Outside(E),
}

impl<E> ProviderError<E> {
    /// The error in words, in contracts.
    pub open spec fn spec_message(self) -> Option<Seq<char>> {
        match self {
            ProviderError::BlockNotFound => Some("block not found"@),
            ProviderError::TransactionNotIncluded => Some("transaction not included"@),
            ProviderError::TransactionIndexMismatch => Some("tx index mismatch"@),
            ProviderError::Execution(error) => Some(error.spec_message()),
            ProviderError::Outside(_) => None,
        }
    }

    /// The error in words, except where it came from what the provider called.
    pub fn message(&self) -> (message: Option<&'static str>)
        ensures
            match message {
                Some(words) => self.spec_message() == Some(words@),
                None => self.spec_message() is None,
            },
    {
        match self {
            ProviderError::BlockNotFound => Some("block not found"),
            ProviderError::TransactionNotIncluded => Some("transaction not included"),
            ProviderError::TransactionIndexMismatch => Some("tx index mismatch"),
            ProviderError::Execution(error) => Some(error.message()),
            ProviderError::Outside(_) => None,
        }
    }
}

} // verus!
