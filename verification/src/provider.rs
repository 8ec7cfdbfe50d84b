//! The provider: what it holds, and the first question of each request.

use vstd::prelude::*;

use crate::accounts::{AccountBlockLookup, HintBlockLookup};
use crate::block_lookup::CacheLookup;
use crate::get_logs::LogsFetch;
use crate::primitives::{Address, BlockId, B256};
use crate::receipts::{BlockReceiptsLookup, ReceiptFetch};
use crate::transactions::{LocationBlockLookup, TransactionFetch};
use crate::types::BlockRequest;

verus! {

/// A provider of chain data that believes nothing its API says without proof.
///
/// It holds the client of the API, the provider that caches blocks, and perhaps one of older
/// blocks. Each request is answered in steps: it starts with the question that a method here
/// returns, and goes on with what the reply to it calls for.
pub struct VerifiableApiExecutionProvider<A, B, H> {
    pub api: A,
    pub block_provider: B,
    pub historical_provider: Option<H>,
}

impl<A, B, H> VerifiableApiExecutionProvider<A, B, H> {
    /// A provider without older blocks.
    pub fn new(api: A, block_provider: B) -> (provider: VerifiableApiExecutionProvider<A, B, ()>)
        ensures
            provider == (VerifiableApiExecutionProvider::<A, B, ()> {
                api,
                block_provider,
                historical_provider: None,
            }),
    {
        VerifiableApiExecutionProvider { api, block_provider, historical_provider: None }
    }

    /// A provider that turns to `historical_provider` for older blocks.
    pub fn with_historical_provider(api: A, block_provider: B, historical_provider: H) -> (provider:
        Self)
        ensures
            provider == (VerifiableApiExecutionProvider {
                api,
                block_provider,
                historical_provider: Some(historical_provider),
            }),
    {
        VerifiableApiExecutionProvider {
            api,
            block_provider,
            historical_provider: Some(historical_provider),
        }
    }

    /// Asks for an account, in the state of a block.
    pub fn get_account(
        &self,
        address: Address,
        slots: Vec<B256>,
        with_code: bool,
        block_id: BlockId,
    ) -> (lookup: AccountBlockLookup)
        ensures
            lookup == (AccountBlockLookup {
                block: BlockRequest::header(block_id),
                address,
                slots,
                with_code,
            }),
    {
        AccountBlockLookup { block: BlockRequest::header(block_id), address, slots, with_code }
    }

    /// Asks for a block.
    pub fn get_block(&self, block_id: BlockId, full_tx: bool) -> (lookup: CacheLookup)
        ensures
            lookup == (CacheLookup {
                request: BlockRequest { block_id, full_tx },
                has_history: self.historical_provider is Some,
            }),
    {
        CacheLookup {
            request: BlockRequest { block_id, full_tx },
            has_history: self.historical_provider.is_some(),
        }
    }

    /// Asks for a transaction by its hash.
    pub fn get_transaction(&self, hash: B256) -> (fetch: TransactionFetch)
        ensures
            fetch == (TransactionFetch { hash }),
    {
        TransactionFetch { hash }
    }

    /// Asks for the transaction at a position in a block.
    pub fn get_transaction_by_location(&self, block_id: BlockId, index: u64) -> (lookup:
        LocationBlockLookup)
        ensures
            lookup == (LocationBlockLookup { block: BlockRequest::header(block_id), index }),
    {
        LocationBlockLookup { block: BlockRequest::header(block_id), index }
    }

    /// Asks for the receipt of a transaction.
    pub fn get_receipt(&self, hash: B256) -> (fetch: ReceiptFetch)
        ensures
            fetch == (ReceiptFetch { hash }),
    {
        ReceiptFetch { hash }
    }

    /// Asks for the receipts of a block.
    pub fn get_block_receipts(&self, block_id: BlockId) -> (lookup: BlockReceiptsLookup)
        ensures
            lookup == (BlockReceiptsLookup { block: BlockRequest::header(block_id) }),
    {
        BlockReceiptsLookup { block: BlockRequest::header(block_id) }
    }

    /// Asks for the logs that a filter selects.
    pub fn get_logs<F>(&self, filter: F) -> (fetch: LogsFetch<F>)
        ensures
            fetch == (LogsFetch { filter }),
    {
        LogsFetch { filter }
    }

    /// Asks for the accounts that a transaction is expected to touch, in the state of a block.
    pub fn get_execution_hint<Q>(&self, tx: Q, validate: bool, block_id: BlockId) -> (lookup:
        HintBlockLookup<Q>)
        ensures
            lookup == (HintBlockLookup { block: BlockRequest::header(block_id), tx, validate }),
    {
        HintBlockLookup { block: BlockRequest::header(block_id), tx, validate }
    }
}

} // verus!
