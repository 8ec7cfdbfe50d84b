//! The requests for a transaction, by its hash and by its place in a block.

use vstd::prelude::*;

use crate::block_lookup::needed_block;
use crate::error::ProviderError;
use crate::primitives::{BlockId, B256};
use crate::types::{Block, BlockRequest, Step, Transaction, TransactionResponse};

verus! {

/// The check of a transaction's proof against a transactions root may come out this way.
pub open spec fn transaction_check<
    T,
    E,
    C: Fn(&Transaction<T>, B256, &Vec<Vec<u8>>) -> Result<(), E>,
>(
    check: C,
    response: TransactionResponse<T>,
    transactions_root: B256,
    verdict: Result<(), E>,
) -> bool {
    call_ensures(
        check,
        (&response.transaction, transactions_root, &response.transaction_proof),
        verdict,
    )
}

/// The transaction is returned if its proof checks against this root, and refused with the check's
/// error if not.
pub open spec fn proved_transaction<
    T,
    E,
    C: Fn(&Transaction<T>, B256, &Vec<Vec<u8>>) -> Result<(), E>,
>(
    check: C,
    response: TransactionResponse<T>,
    transactions_root: B256,
    answer: Result<Option<Transaction<T>>, ProviderError<E>>,
) -> bool {
    match answer {
        Ok(returned) => returned == Some(response.transaction) && transaction_check(
            check,
            response,
            transactions_root,
            Ok::<(), E>(()),
        ),
        Err(error) => error matches ProviderError::Outside(outside) && transaction_check(
            check,
            response,
            transactions_root,
            Err::<(), E>(outside),
        ),
    }
}

/// Checks the proof of a transaction against a transactions root, and returns the transaction.
pub fn prove_transaction<
    T,
    E,
    C: Fn(&Transaction<T>, B256, &Vec<Vec<u8>>) -> Result<(), E>,
>(response: TransactionResponse<T>, transactions_root: B256, check: &C) -> (answer: Result<
    Option<Transaction<T>>,
    ProviderError<E>,
>)
    requires
        forall|transaction: &Transaction<T>, root: B256, proof: &Vec<Vec<u8>>|
            call_requires(*check, (transaction, root, proof)),
    ensures
        proved_transaction(*check, response, transactions_root, answer),
{
    match check(&response.transaction, transactions_root, &response.transaction_proof) {
        Ok(unit) => {
            assert(unit == ());
            Ok(Some(response.transaction))
        },
        Err(outside) => Err(ProviderError::Outside(outside)),
    }
}

/// Waits for the API's reply to the request for the transaction of hash `hash`.
#[derive(Clone, Copy, Debug, PartialEq, Eq)]
pub struct TransactionFetch {
    pub hash: B256,
}

/// Waits for the block that `block` names, which is said to hold the transaction.
pub struct TransactionBlockLookup<T> {
    pub block: BlockRequest,
    pub response: TransactionResponse<T>,
}

impl TransactionFetch {
    /// What the API's reply calls for, in contracts.
    pub open spec fn spec_on_transaction<T, E>(
        self,
        reply: Result<Option<TransactionResponse<T>>, E>,
    ) -> Step<TransactionBlockLookup<T>, Result<Option<Transaction<T>>, ProviderError<E>>> {
        match reply {
            Err(error) => Step::Return(Err(ProviderError::Outside(error))),
            Ok(None) => Step::Return(Ok(None)),
            Ok(Some(response)) => match response.transaction.block_hash {
                None => Step::Return(Ok(None)),
                Some(block_hash) => Step::Continue(
                    TransactionBlockLookup {
                        block: BlockRequest::header(BlockId::hash(block_hash)),
                        response,
                    },
                ),
            },
        }
    }

    /// A transaction that stands in a block is proved against that block. One that the API does
    /// not have, or that stands in no block, is not returned.
    pub fn on_transaction<T, E>(self, reply: Result<Option<TransactionResponse<T>>, E>) -> (step:
        Step<TransactionBlockLookup<T>, Result<Option<Transaction<T>>, ProviderError<E>>>)
        ensures
            step == self.spec_on_transaction(reply),
    {
        match reply {
            Err(error) => Step::Return(Err(ProviderError::Outside(error))),
            Ok(None) => Step::Return(Ok(None)),
            Ok(Some(response)) => match response.transaction.block_hash {
                None => Step::Return(Ok(None)),
                Some(block_hash) => {
                    let block = BlockRequest::header(BlockId::hash(block_hash));
                    Step::Continue(TransactionBlockLookup { block, response })
                },
            },
        }
    }
}

impl<T> TransactionBlockLookup<T> {
    /// Given this block, the request may be answered this way.
    pub open spec fn answers<B, E, C: Fn(&Transaction<T>, B256, &Vec<Vec<u8>>) -> Result<(), E>>(
        self,
        reply: Result<Option<Block<B>>, ProviderError<E>>,
        check: C,
        answer: Result<Option<Transaction<T>>, ProviderError<E>>,
    ) -> bool {
        match needed_block(reply) {
            Err(error) => answer == Err::<Option<Transaction<T>>, _>(error),
            Ok(block) => proved_transaction(
                check,
                self.response,
                block.transactions_root,
                answer,
            ),
        }
    }

    /// The transaction is returned once it is proved against the transactions root of its block.
    pub fn on_block<B, E, C: Fn(&Transaction<T>, B256, &Vec<Vec<u8>>) -> Result<(), E>>(
        self,
        reply: Result<Option<Block<B>>, ProviderError<E>>,
        verify_transaction_proof: &C,
    ) -> (answer: Result<Option<Transaction<T>>, ProviderError<E>>)
        requires
            forall|transaction: &Transaction<T>, root: B256, proof: &Vec<Vec<u8>>|
                call_requires(*verify_transaction_proof, (transaction, root, proof)),
        ensures
            self.answers(reply, *verify_transaction_proof, answer),
    {
        match needed_block(reply) {
            Err(error) => Err(error),
            Ok(block) => prove_transaction(
                self.response,
                block.transactions_root,
                verify_transaction_proof,
            ),
        }
    }
}

/// Waits for the block that `block` names, in which the transaction at `index` is wanted.
#[derive(Clone, Copy, Debug, PartialEq, Eq)]
pub struct LocationBlockLookup {
    pub block: BlockRequest,
    pub index: u64,
}

/// Waits for the API's reply to the request for the transaction at `index` of the block `block_id`,
/// to be proved against `block`.
pub struct LocationFetch<B> {
    pub block_id: BlockId,
    pub index: u64,
    pub block: Block<B>,
}

impl LocationBlockLookup {
    /// What the block that was found calls for, in contracts.
    pub open spec fn spec_on_block<B, E>(
        self,
        reply: Result<Option<Block<B>>, ProviderError<E>>,
    ) -> Result<LocationFetch<B>, ProviderError<E>> {
        match needed_block(reply) {
            Err(error) => Err(error),
            Ok(block) => Ok(
                LocationFetch { block_id: BlockId::hash(block.hash), index: self.index, block },
            ),
        }
    }

    /// The transaction is asked for at the hash of the block that was found.
    pub fn on_block<B, E>(self, reply: Result<Option<Block<B>>, ProviderError<E>>) -> (next: Result<
        LocationFetch<B>,
        ProviderError<E>,
    >)
        ensures
            next == self.spec_on_block(reply),
    {
        match needed_block(reply) {
            Err(error) => Err(error),
            Ok(block) => Ok(
                LocationFetch { block_id: BlockId::hash(block.hash), index: self.index, block },
            ),
        }
    }
}

impl<B> LocationFetch<B> {
    /// Given this reply, the request may be answered this way.
    pub open spec fn answers<T, E, C: Fn(&Transaction<T>, B256, &Vec<Vec<u8>>) -> Result<(), E>>(
        self,
        reply: Result<Option<TransactionResponse<T>>, E>,
        check: C,
        answer: Result<Option<Transaction<T>>, ProviderError<E>>,
    ) -> bool {
        match reply {
            Err(error) => answer == Err::<Option<Transaction<T>>, _>(
                ProviderError::Outside(error),
            ),
            Ok(None) => answer == Ok::<Option<Transaction<T>>, ProviderError<E>>(None),
            Ok(Some(response)) => match response.transaction.transaction_index {
                None => answer == Err::<Option<Transaction<T>>, ProviderError<E>>(
                    ProviderError::TransactionNotIncluded,
                ),
                Some(index) => if index != self.index {
                    answer == Err::<Option<Transaction<T>>, ProviderError<E>>(
                        ProviderError::TransactionIndexMismatch,
                    )
                } else {
                    proved_transaction(
                        check,
                        response,
                        self.block.transactions_root,
                        answer,
                    )
                },
            },
        }
    }

    /// The transaction is returned once it is seen to stand at the position that was asked for and
    /// is proved against the transactions root of the block.
    pub fn on_transaction<T, E, C: Fn(&Transaction<T>, B256, &Vec<Vec<u8>>) -> Result<(), E>>(
        self,
        reply: Result<Option<TransactionResponse<T>>, E>,
        verify_transaction_proof: &C,
    ) -> (answer: Result<Option<Transaction<T>>, ProviderError<E>>)
        requires
            forall|transaction: &Transaction<T>, root: B256, proof: &Vec<Vec<u8>>|
                call_requires(*verify_transaction_proof, (transaction, root, proof)),
        ensures
            self.answers(reply, *verify_transaction_proof, answer),
    {
        let response = match reply {
            Err(error) => {
                return Err(ProviderError::Outside(error));
            },
            Ok(None) => {
                return Ok(None);
            },
            Ok(Some(response)) => response,
        };
        match response.transaction.transaction_index {
            None => Err(ProviderError::TransactionNotIncluded),
            Some(index) => {
                if index != self.index {
                    return Err(ProviderError::TransactionIndexMismatch);
                }
                prove_transaction(
                    response,
                    self.block.transactions_root,
                    verify_transaction_proof,
                )
            },
        }
    }
}

} // verus!
