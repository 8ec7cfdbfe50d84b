//! The requests for the receipt of a transaction, and for all receipts of a block.

use vstd::prelude::*;

use crate::block_lookup::needed_block;
use crate::error::{ExecutionError, ProviderError};
use crate::get_logs::receipt_check;
use crate::primitives::{BlockId, B256};
use crate::types::{Block, BlockRequest, Receipt, Step, TransactionReceiptResponse};

verus! {

/// Waits for the API's reply to the request for the receipt of the transaction of hash `hash`.
#[derive(Clone, Copy, Debug, PartialEq, Eq)]
pub struct ReceiptFetch {
    pub hash: B256,
}

/// Waits for the block that `block` names, which is said to hold the receipt.
pub struct ReceiptBlockLookup<R> {
    pub block: BlockRequest,
    pub response: TransactionReceiptResponse<R>,
}

impl ReceiptFetch {
    /// What the API's reply calls for, in contracts.
    pub open spec fn spec_on_receipt<R, E>(
        self,
        reply: Result<Option<TransactionReceiptResponse<R>>, E>,
    ) -> Step<ReceiptBlockLookup<R>, Result<Option<Receipt<R>>, ProviderError<E>>> {
        match reply {
            Err(error) => Step::Return(Err(ProviderError::Outside(error))),
            Ok(None) => Step::Return(Ok(None)),
            Ok(Some(response)) => match response.receipt.block_hash {
                None => Step::Return(Ok(None)),
                Some(block_hash) => Step::Continue(
                    ReceiptBlockLookup {
                        block: BlockRequest::header(BlockId::hash(block_hash)),
                        response,
                    },
                ),
            },
        }
    }

    /// A receipt that stands in a block is proved against that block. One that the API does not
    /// have, or that stands in no block, is not returned.
    pub fn on_receipt<R, E>(self, reply: Result<Option<TransactionReceiptResponse<R>>, E>) -> (step:
        Step<ReceiptBlockLookup<R>, Result<Option<Receipt<R>>, ProviderError<E>>>)
        ensures
            step == self.spec_on_receipt(reply),
    {
        match reply {
            Err(error) => Step::Return(Err(ProviderError::Outside(error))),
            Ok(None) => Step::Return(Ok(None)),
            Ok(Some(response)) => match response.receipt.block_hash {
                None => Step::Return(Ok(None)),
                Some(block_hash) => {
                    let block = BlockRequest::header(BlockId::hash(block_hash));
                    Step::Continue(ReceiptBlockLookup { block, response })
                },
            },
        }
    }
}

impl<R> ReceiptBlockLookup<R> {
    /// Given this block, the request may be answered this way.
    pub open spec fn answers<B, E, C: Fn(&Receipt<R>, B256, &Vec<Vec<u8>>) -> Result<(), E>>(
        self,
        reply: Result<Option<Block<B>>, ProviderError<E>>,
        check: C,
        answer: Result<Option<Receipt<R>>, ProviderError<E>>,
    ) -> bool {
        match needed_block(reply) {
            Err(error) => answer == Err::<Option<Receipt<R>>, _>(error),
            Ok(block) => match answer {
                Ok(returned) => returned == Some(self.response.receipt) && receipt_check(
                    check,
                    self.response,
                    block.receipts_root,
                    Ok::<(), E>(()),
                ),
                Err(error) => error matches ProviderError::Outside(outside) && receipt_check(
                    check,
                    self.response,
                    block.receipts_root,
                    Err::<(), E>(outside),
                ),
            },
        }
    }

    /// The receipt is returned once it is proved against the receipts root of its block.
    pub fn on_block<B, E, C: Fn(&Receipt<R>, B256, &Vec<Vec<u8>>) -> Result<(), E>>(
        self,
        reply: Result<Option<Block<B>>, ProviderError<E>>,
        verify_receipt_proof: &C,
    ) -> (answer: Result<Option<Receipt<R>>, ProviderError<E>>)
        requires
            forall|receipt: &Receipt<R>, root: B256, proof: &Vec<Vec<u8>>|
                call_requires(*verify_receipt_proof, (receipt, root, proof)),
        ensures
            self.answers(reply, *verify_receipt_proof, answer),
    {
        match needed_block(reply) {
            Err(error) => Err(error),
            Ok(block) => match verify_receipt_proof(
                &self.response.receipt,
                block.receipts_root,
                &self.response.receipt_proof,
            ) {
                Ok(unit) => {
                    assert(unit == ());
                    Ok(Some(self.response.receipt))
                },
                Err(outside) => Err(ProviderError::Outside(outside)),
            },
        }
    }
}

/// Waits for the block that `block` names, whose receipts are wanted.
#[derive(Clone, Copy, Debug, PartialEq, Eq)]
pub struct BlockReceiptsLookup {
    pub block: BlockRequest,
}

/// Waits for the API's reply to the request for the receipts of the block `block_id`, to be checked
/// against `block`.
pub struct BlockReceiptsFetch<B> {
    pub block_id: BlockId,
    pub block: Block<B>,
}

impl BlockReceiptsLookup {
    /// What the block that was found calls for, in contracts.
    pub open spec fn spec_on_block<B, R, E>(
        self,
        reply: Result<Option<Block<B>>, ProviderError<E>>,
    ) -> Step<BlockReceiptsFetch<B>, Result<Option<Vec<Receipt<R>>>, ProviderError<E>>> {
        match reply {
            Err(error) => Step::Return(Err(error)),
            Ok(None) => Step::Return(Ok(None)),
            Ok(Some(block)) => Step::Continue(
                BlockReceiptsFetch { block_id: BlockId::number(block.number), block },
            ),
        }
    }

    /// The receipts are asked for at the number of the block that was found. A block that no
    /// provider has, has no receipts.
    pub fn on_block<B, R, E>(self, reply: Result<Option<Block<B>>, ProviderError<E>>) -> (step:
        Step<BlockReceiptsFetch<B>, Result<Option<Vec<Receipt<R>>>, ProviderError<E>>>)
        ensures
            step == self.spec_on_block::<B, R, E>(reply),
    {
        match reply {
            Err(error) => Step::Return(Err(error)),
            Ok(None) => Step::Return(Ok(None)),
            Ok(Some(block)) => Step::Continue(
                BlockReceiptsFetch { block_id: BlockId::number(block.number), block },
            ),
        }
    }
}

impl<B> BlockReceiptsFetch<B> {
    /// Given this reply, the request may be answered this way.
    pub open spec fn answers<R, E, C: Fn(&Vec<Receipt<R>>, &Block<B>) -> Result<(), E>>(
        self,
        reply: Result<Option<Vec<Receipt<R>>>, E>,
        check: C,
        answer: Result<Option<Vec<Receipt<R>>>, ProviderError<E>>,
    ) -> bool {
        match reply {
            Err(error) => answer == Err::<Option<Vec<Receipt<R>>>, _>(
                ProviderError::Outside(error),
            ),
            Ok(None) => answer == Err::<Option<Vec<Receipt<R>>>, ProviderError<E>>(
                ProviderError::Execution(
                    ExecutionError::NoReceiptsForBlock(self.block.number),
                ),
            ),
            Ok(Some(receipts)) => match answer {
                Ok(returned) => returned == Some(receipts) && call_ensures(
                    check,
                    (&receipts, &self.block),
                    Ok::<(), E>(()),
                ),
                Err(error) => error matches ProviderError::Outside(outside) && call_ensures(
                    check,
                    (&receipts, &self.block),
                    Err::<(), E>(outside),
                ),
            },
        }
    }

    /// The receipts are returned once they are checked against the block.
    pub fn on_receipts<R, E, C: Fn(&Vec<Receipt<R>>, &Block<B>) -> Result<(), E>>(
        self,
        reply: Result<Option<Vec<Receipt<R>>>, E>,
        verify_block_receipts: &C,
    ) -> (answer: Result<Option<Vec<Receipt<R>>>, ProviderError<E>>)
        requires
            forall|receipts: &Vec<Receipt<R>>, block: &Block<B>|
                call_requires(*verify_block_receipts, (receipts, block)),
        ensures
            self.answers(reply, *verify_block_receipts, answer),
    {
        match reply {
            Err(error) => Err(ProviderError::Outside(error)),
            Ok(None) => Err(
                ProviderError::Execution(ExecutionError::NoReceiptsForBlock(self.block.number)),
            ),
            Ok(Some(receipts)) => match verify_block_receipts(&receipts, &self.block) {
                Ok(unit) => {
                    assert(unit == ());
                    Ok(Some(receipts))
                },
                Err(outside) => Err(ProviderError::Outside(outside)),
            },
        }
    }
}

} // verus!
