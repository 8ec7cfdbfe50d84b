//! The replies of the API and of the block providers, as far as the decisions read them.
//!
//! What a network adds to a block, a transaction or a receipt of its own travels along untouched
//! in a field named `body`.

use vstd::prelude::*;

use crate::keyed_map::KeyedMap;
use crate::primitives::{Address, BlockId, B256, U256};

verus! {

/// A block: what its header commits to, and the network's own record of it.
#[derive(Clone, Debug, PartialEq, Eq)]
pub struct Block<B> {
    pub number: u64,
    pub hash: B256,
    pub state_root: B256,
    pub transactions_root: B256,
    pub receipts_root: B256,
    pub body: B,
}

/// A transaction: where it stands in the chain, if it does, and the network's own record of it.
#[derive(Clone, Debug, PartialEq, Eq)]
pub struct Transaction<T> {
    pub block_hash: Option<B256>,
    pub transaction_index: Option<u64>,
    pub body: T,
}

/// A transaction, and the trie nodes that prove it part of its block.
#[derive(Clone, Debug, PartialEq, Eq)]
pub struct TransactionResponse<T> {
    pub transaction: Transaction<T>,
    pub transaction_proof: Vec<Vec<u8>>,
}

/// What an event log says.
#[derive(Clone, Debug, PartialEq, Eq)]
pub struct LogContent {
    pub address: Address,
    pub topics: Vec<B256>,
    pub data: Vec<u8>,
}

/// What an event log says, as a mathematical value.
pub struct LogContentView {
    pub address: Address,
    pub topics: Seq<B256>,
    pub data: Seq<u8>,
}

impl View for LogContent {
    type V = LogContentView;

    open spec fn view(&self) -> LogContentView {
        LogContentView { address: self.address, topics: self.topics@, data: self.data@ }
    }
}

/// An event log, and where it is said to stand in the chain.
#[derive(Clone, Debug, PartialEq, Eq)]
pub struct Log {
    pub inner: LogContent,
    pub block_hash: Option<B256>,
    pub block_number: Option<u64>,
    pub block_timestamp: Option<u64>,
    pub transaction_hash: Option<B256>,
    pub transaction_index: Option<u64>,
    pub log_index: Option<u64>,
    pub removed: bool,
}

/// A receipt: the transaction it is for, the logs it holds, and the network's own record of it.
#[derive(Clone, Debug, PartialEq, Eq)]
pub struct Receipt<R> {
    pub transaction_hash: B256,
    pub block_hash: Option<B256>,
    pub transaction_index: Option<u64>,
    pub logs: Vec<Log>,
    pub body: R,
}

/// A receipt, and the trie nodes that prove it part of its block.
#[derive(Clone, Debug, PartialEq, Eq)]
pub struct TransactionReceiptResponse<R> {
    pub receipt: Receipt<R>,
    pub receipt_proof: Vec<Vec<u8>>,
}

/// Logs, and under the hash of each transaction that emitted some of them its receipt.
pub struct LogsResponse<R> {
    pub logs: Vec<Log>,
    pub receipt_proofs: KeyedMap<32, TransactionReceiptResponse<R>>,
}

/// An account, as the state trie holds it.
#[derive(Clone, Copy, Debug, PartialEq, Eq)]
pub struct TrieAccount {
    pub nonce: u64,
    pub balance: U256,
    pub storage_root: B256,
    pub code_hash: B256,
}

/// The key of a storage slot, as a proof names it.
#[derive(Clone, Copy, Debug, PartialEq, Eq)]
pub enum StorageKey {
    Hash(B256),
    Number(U256),
}

/// The value of a storage slot, and the trie nodes that prove it.
#[derive(Clone, Debug, PartialEq, Eq)]
pub struct StorageProof {
    pub key: StorageKey,
    pub value: U256,
    pub proof: Vec<Vec<u8>>,
}

/// An account, its code where that was asked for, and the trie nodes that prove it.
#[derive(Clone, Debug, PartialEq, Eq)]
pub struct AccountResponse {
    pub account: TrieAccount,
    pub code: Option<Vec<u8>>,
    pub account_proof: Vec<Vec<u8>>,
    pub storage_proof: Vec<StorageProof>,
}

/// The accounts that a transaction is expected to touch.
pub struct ExtendedAccessListResponse {
    pub accounts: KeyedMap<20, AccountResponse>,
}

/// A block to look up: which one, and whether with its transactions in full.
#[derive(Clone, Copy, Debug, PartialEq, Eq)]
pub struct BlockRequest {
    pub block_id: BlockId,
    pub full_tx: bool,
}

impl BlockRequest {
    /// The block without its transactions in full, in contracts.
    pub open spec fn spec_header(block_id: BlockId) -> BlockRequest {
        BlockRequest { block_id, full_tx: false }
    }

    /// The block without its transactions in full.
    #[verifier::when_used_as_spec(spec_header)]
    pub fn header(block_id: BlockId) -> (request: BlockRequest)
        ensures
            request == Self::spec_header(block_id),
    {
        BlockRequest { block_id, full_tx: false }
    }
}

/// What is to be done after a reply: wait for another one, or return.
#[derive(Clone, Debug, PartialEq, Eq)]
pub enum Step<S, T> {
    Continue(S),
    Return(T),
}

} // verus!
