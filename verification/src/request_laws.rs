//! What each request comes to, from the arguments it is made with to the answer that it gets.
//!
//! The laws speak of what the steps of a request return, whatever they return, and of the fields of
//! what goes in and comes out.

use vstd::prelude::*;

use crate::block_lookup::{needed_block, should_use_historical_provider, CacheLookup, HistoryLookup};
use crate::error::{ExecutionError, ProviderError};
use crate::primitives::{BlockId, BlockNumberOrTag, B256};
use crate::provider::VerifiableApiExecutionProvider;
use crate::receipts::{BlockReceiptsFetch, BlockReceiptsLookup, ReceiptBlockLookup, ReceiptFetch};
use crate::transactions::{
    LocationBlockLookup, LocationFetch, TransactionBlockLookup, TransactionFetch,
};
use crate::types::{
    Block, BlockRequest, Receipt, Step, Transaction, TransactionReceiptResponse,
    TransactionResponse,
};

verus! {

/// A provider holds what it was made of, and turns to older blocks only if it was given them.
pub proof fn law_provider_holds_what_it_was_made_of<A, P, H>(
    api: A,
    block_provider: P,
    historical_provider: H,
    without: VerifiableApiExecutionProvider<A, P, ()>,
    with: VerifiableApiExecutionProvider<A, P, H>,
)
    requires
        call_ensures(
            VerifiableApiExecutionProvider::<A, P, H>::new,
            (api, block_provider),
            without,
        ),
        call_ensures(
            VerifiableApiExecutionProvider::<A, P, H>::with_historical_provider,
            (api, block_provider, historical_provider),
            with,
        ),
    ensures
        without.api == api && with.api == api,
        without.block_provider == block_provider && with.block_provider == block_provider,
        without.historical_provider is None,
        with.historical_provider == Some(historical_provider),
{
}

/// The names that a block is asked for by are those of its number or of its hash, and it is asked
/// for without its transactions in full.
pub proof fn law_block_names(
    number: u64,
    hash: B256,
    block_id: BlockId,
    by_number: BlockId,
    by_hash: BlockId,
    header: BlockRequest,
)
    requires
        call_ensures(BlockId::number, (number,), by_number),
        call_ensures(BlockId::hash, (hash,), by_hash),
        call_ensures(BlockRequest::header, (block_id,), header),
    ensures
        by_number == BlockId::Number(BlockNumberOrTag::Number(number)),
        by_hash == (BlockId::Hash { block_hash: hash, require_canonical: None }),
        header.block_id == block_id,
        !header.full_tx,
{
}

/// A block may be looked for in the history unless it is named by a tag.
pub proof fn law_tags_are_not_looked_for_in_the_history(block_id: BlockId, usable: bool)
    requires
        call_ensures(should_use_historical_provider, (&block_id,), usable),
    ensures
        !usable <==> {
            ||| block_id == BlockId::Number(BlockNumberOrTag::Latest)
            ||| block_id == BlockId::Number(BlockNumberOrTag::Finalized)
            ||| block_id == BlockId::Number(BlockNumberOrTag::Safe)
            ||| block_id == BlockId::Number(BlockNumberOrTag::Earliest)
            ||| block_id == BlockId::Number(BlockNumberOrTag::Pending)
        },
{
}

/// Where a block is needed, one that was found is used, and one that was not is the reason to fail.
pub proof fn law_needed_block<B, E>(
    found: Result<Option<Block<B>>, ProviderError<E>>,
    block: Result<Block<B>, ProviderError<E>>,
)
    requires
        call_ensures(needed_block::<B, E>, (found,), block),
    ensures
        block matches Ok(needed) ==> found == Ok::<_, ProviderError<E>>(Some(needed)),
        found matches Ok(Some(needed)) ==> block == Ok::<_, ProviderError<E>>(needed),
        found matches Ok(None) ==> block == Err::<Block<B>, _>(ProviderError::<E>::BlockNotFound),
        found matches Err(error) ==> block == Err::<Block<B>, _>(error),
{
}

/// What the cache has, or fails with, is the answer to the request for a block, whatever the
/// history would say. What it lacks, the history has the last word on, if there is one and the
/// block is not named by a tag. Both are asked for the block that the caller named, as the caller
/// wanted it.
pub proof fn law_block_answer<A, P, H, B, E>(
    provider: VerifiableApiExecutionProvider<A, P, H>,
    block_id: BlockId,
    full_tx: bool,
    lookup: CacheLookup,
    cached: Result<Option<Block<B>>, E>,
    step: Step<HistoryLookup, Result<Option<Block<B>>, ProviderError<E>>>,
    past: Result<Option<Block<B>>, E>,
    answer: Result<Option<Block<B>>, ProviderError<E>>,
)
    requires
        call_ensures(
            VerifiableApiExecutionProvider::<A, P, H>::get_block,
            (&provider, block_id, full_tx),
            lookup,
        ),
        call_ensures(CacheLookup::on_cache::<B, E>, (lookup, cached), step),
        match step {
            Step::Return(returned) => answer == returned,
            Step::Continue(history) => call_ensures(
                HistoryLookup::on_history::<B, E>,
                (history, past),
                answer,
            ),
        },
    ensures
        lookup.request.block_id == block_id && lookup.request.full_tx == full_tx,
        step matches Step::Continue(history) ==> history.request.block_id == block_id
            && history.request.full_tx == full_tx,
        step is Continue <==> {
            &&& cached matches Ok(None)
            &&& provider.historical_provider is Some
            &&& block_id is Hash || (block_id matches BlockId::Number(name) && name is Number)
        },
        cached matches Ok(Some(block)) ==> answer == Ok::<_, ProviderError<E>>(Some(block)),
        cached matches Err(error) ==> answer == Err::<Option<Block<B>>, _>(
            ProviderError::Outside(error),
        ),
        step is Continue ==> (past matches Ok(found) ==> answer == Ok::<_, ProviderError<E>>(
            found,
        )),
        step is Continue ==> (past matches Err(error) ==> answer == Err::<Option<Block<B>>, _>(
            ProviderError::Outside(error),
        )),
        (cached matches Ok(None)) && step is Return ==> answer == Ok::<
            Option<Block<B>>,
            ProviderError<E>,
        >(None),
{
}

/// The request for a transaction by its hash asks the API for that hash, and looks up the block
/// that the transaction carries the hash of. There is no transaction exactly where the API has none
/// or it stands in no block. One that stands in a block is returned, as the API sent it, if the
/// block is found and the proof checks against its transactions root; and nothing else is returned.
pub proof fn law_transaction_answer<
    A,
    P,
    H,
    T,
    B,
    E,
    C: Fn(&Transaction<T>, B256, &Vec<Vec<u8>>) -> Result<(), E>,
>(
    provider: VerifiableApiExecutionProvider<A, P, H>,
    hash: B256,
    fetch: TransactionFetch,
    reply: Result<Option<TransactionResponse<T>>, E>,
    step: Step<TransactionBlockLookup<T>, Result<Option<Transaction<T>>, ProviderError<E>>>,
    found: Result<Option<Block<B>>, ProviderError<E>>,
    check: C,
    answer: Result<Option<Transaction<T>>, ProviderError<E>>,
)
    requires
        call_ensures(
            VerifiableApiExecutionProvider::<A, P, H>::get_transaction,
            (&provider, hash),
            fetch,
        ),
        call_ensures(TransactionFetch::on_transaction::<T, E>, (fetch, reply), step),
        match step {
            Step::Return(returned) => answer == returned,
            Step::Continue(lookup) => call_ensures(
                TransactionBlockLookup::<T>::on_block::<B, E, C>,
                (lookup, found, &check),
                answer,
            ),
        },
    ensures
        fetch.hash == hash,
        reply matches Err(error) ==> answer == Err::<Option<Transaction<T>>, _>(
            ProviderError::Outside(error),
        ),
        (answer matches Ok(None)) <==> {
            ||| reply matches Ok(None)
            ||| reply matches Ok(Some(response)) && response.transaction.block_hash is None
        },
        step is Continue <==> (reply matches Ok(Some(response))
            && response.transaction.block_hash is Some),
        reply matches Ok(Some(response)) ==> (step matches Step::Continue(lookup) ==> {
            &&& response.transaction.block_hash matches Some(block_hash) && lookup.block.block_id
                == (BlockId::Hash { block_hash, require_canonical: None })
            &&& !lookup.block.full_tx
            &&& found matches Err(error) ==> answer == Err::<Option<Transaction<T>>, _>(error)
            &&& found matches Ok(None) ==> answer == Err::<Option<Transaction<T>>, _>(
                ProviderError::<E>::BlockNotFound,
            )
            &&& found matches Ok(Some(block)) ==> match answer {
                Ok(returned) => returned == Some(response.transaction) && call_ensures(
                    check,
                    (&response.transaction, block.transactions_root, &response.transaction_proof),
                    Ok::<(), E>(()),
                ),
                Err(error) => error matches ProviderError::Outside(outside) && call_ensures(
                    check,
                    (&response.transaction, block.transactions_root, &response.transaction_proof),
                    Err::<(), E>(outside),
                ),
            }
        }),
{
}

/// The request for the transaction at a position looks up the block that the caller named, and asks
/// the API for that position in the block that was found, by its hash. What is returned is the
/// transaction that the API sent, and it stands at that position and its proof checks against the
/// transactions root of the block. A transaction that does so is returned; one that stands nowhere,
/// or elsewhere, is refused.
pub proof fn law_located_transaction_answer<
    A,
    P,
    H,
    T,
    B,
    E,
    C: Fn(&Transaction<T>, B256, &Vec<Vec<u8>>) -> Result<(), E>,
>(
    provider: VerifiableApiExecutionProvider<A, P, H>,
    block_id: BlockId,
    index: u64,
    lookup: LocationBlockLookup,
    found: Result<Option<Block<B>>, ProviderError<E>>,
    next: Result<LocationFetch<B>, ProviderError<E>>,
    reply: Result<Option<TransactionResponse<T>>, E>,
    check: C,
    answer: Result<Option<Transaction<T>>, ProviderError<E>>,
)
    requires
        call_ensures(
            VerifiableApiExecutionProvider::<A, P, H>::get_transaction_by_location,
            (&provider, block_id, index),
            lookup,
        ),
        call_ensures(LocationBlockLookup::on_block::<B, E>, (lookup, found), next),
        match next {
            Err(error) => answer == Err::<Option<Transaction<T>>, _>(error),
            Ok(fetch) => call_ensures(
                LocationFetch::<B>::on_transaction::<T, E, C>,
                (fetch, reply, &check),
                answer,
            ),
        },
    ensures
        lookup.block.block_id == block_id && !lookup.block.full_tx,
        found matches Err(error) ==> answer == Err::<Option<Transaction<T>>, _>(error),
        found matches Ok(None) ==> answer == Err::<Option<Transaction<T>>, _>(
            ProviderError::<E>::BlockNotFound,
        ),
        next is Ok <==> (found matches Ok(Some(_))),
        found matches Ok(Some(block)) ==> {
            &&& next matches Ok(fetch) && fetch.index == index && fetch.block_id == (BlockId::Hash {
                block_hash: block.hash,
                require_canonical: None,
            })
            &&& reply matches Err(error) ==> answer == Err::<Option<Transaction<T>>, _>(
                ProviderError::Outside(error),
            )
            &&& (answer matches Ok(None)) <==> (reply matches Ok(None))
            &&& reply matches Ok(Some(response)) ==> {
                &&& response.transaction.transaction_index is None ==> answer == Err::<
                    Option<Transaction<T>>,
                    _,
                >(ProviderError::<E>::TransactionNotIncluded)
                &&& (response.transaction.transaction_index matches Some(at) && at != index)
                    ==> answer == Err::<Option<Transaction<T>>, _>(
                    ProviderError::<E>::TransactionIndexMismatch,
                )
                &&& response.transaction.transaction_index == Some(index) ==> match answer {
                    Ok(returned) => returned == Some(response.transaction) && call_ensures(
                        check,
                        (
                            &response.transaction,
                            block.transactions_root,
                            &response.transaction_proof,
                        ),
                        Ok::<(), E>(()),
                    ),
                    Err(error) => error matches ProviderError::Outside(outside) && call_ensures(
                        check,
                        (
                            &response.transaction,
                            block.transactions_root,
                            &response.transaction_proof,
                        ),
                        Err::<(), E>(outside),
                    ),
                }
            }
        },
{
}

/// The request for a receipt asks the API for the receipt of that transaction, and looks up the
/// block that the receipt carries the hash of. There is no receipt exactly where the API has none
/// or it stands in no block. One that stands in a block is returned, as the API sent it, if the
/// block is found and the proof checks against its receipts root; and nothing else is returned.
pub proof fn law_receipt_answer<
    A,
    P,
    H,
    R,
    B,
    E,
    C: Fn(&Receipt<R>, B256, &Vec<Vec<u8>>) -> Result<(), E>,
>(
    provider: VerifiableApiExecutionProvider<A, P, H>,
    hash: B256,
    fetch: ReceiptFetch,
    reply: Result<Option<TransactionReceiptResponse<R>>, E>,
    step: Step<ReceiptBlockLookup<R>, Result<Option<Receipt<R>>, ProviderError<E>>>,
    found: Result<Option<Block<B>>, ProviderError<E>>,
    check: C,
    answer: Result<Option<Receipt<R>>, ProviderError<E>>,
)
    requires
        call_ensures(
            VerifiableApiExecutionProvider::<A, P, H>::get_receipt,
            (&provider, hash),
            fetch,
        ),
        call_ensures(ReceiptFetch::on_receipt::<R, E>, (fetch, reply), step),
        match step {
            Step::Return(returned) => answer == returned,
            Step::Continue(lookup) => call_ensures(
                ReceiptBlockLookup::<R>::on_block::<B, E, C>,
                (lookup, found, &check),
                answer,
            ),
        },
    ensures
        fetch.hash == hash,
        reply matches Err(error) ==> answer == Err::<Option<Receipt<R>>, _>(
            ProviderError::Outside(error),
        ),
        (answer matches Ok(None)) <==> {
            ||| reply matches Ok(None)
            ||| reply matches Ok(Some(response)) && response.receipt.block_hash is None
        },
        step is Continue <==> (reply matches Ok(Some(response))
            && response.receipt.block_hash is Some),
        reply matches Ok(Some(response)) ==> (step matches Step::Continue(lookup) ==> {
            &&& response.receipt.block_hash matches Some(block_hash) && lookup.block.block_id == (
            BlockId::Hash { block_hash, require_canonical: None })
            &&& !lookup.block.full_tx
            &&& found matches Err(error) ==> answer == Err::<Option<Receipt<R>>, _>(error)
            &&& found matches Ok(None) ==> answer == Err::<Option<Receipt<R>>, _>(
                ProviderError::<E>::BlockNotFound,
            )
            &&& found matches Ok(Some(block)) ==> match answer {
                Ok(returned) => returned == Some(response.receipt) && call_ensures(
                    check,
                    (&response.receipt, block.receipts_root, &response.receipt_proof),
                    Ok::<(), E>(()),
                ),
                Err(error) => error matches ProviderError::Outside(outside) && call_ensures(
                    check,
                    (&response.receipt, block.receipts_root, &response.receipt_proof),
                    Err::<(), E>(outside),
                ),
            }
        }),
{
}

/// The request for the receipts of a block looks up the block that the caller named, and asks the
/// API for the receipts of the block that was found, by its number. A block that is not found has
/// no receipts. One that is found has those that the API sent, all of them and unchanged, if they
/// check against the block; and the API has to send some list.
pub proof fn law_block_receipts_answer<
    A,
    P,
    H,
    R,
    B,
    E,
    C: Fn(&Vec<Receipt<R>>, &Block<B>) -> Result<(), E>,
>(
    provider: VerifiableApiExecutionProvider<A, P, H>,
    block_id: BlockId,
    lookup: BlockReceiptsLookup,
    found: Result<Option<Block<B>>, ProviderError<E>>,
    step: Step<BlockReceiptsFetch<B>, Result<Option<Vec<Receipt<R>>>, ProviderError<E>>>,
    reply: Result<Option<Vec<Receipt<R>>>, E>,
    check: C,
    answer: Result<Option<Vec<Receipt<R>>>, ProviderError<E>>,
)
    requires
        call_ensures(
            VerifiableApiExecutionProvider::<A, P, H>::get_block_receipts,
            (&provider, block_id),
            lookup,
        ),
        call_ensures(BlockReceiptsLookup::on_block::<B, R, E>, (lookup, found), step),
        match step {
            Step::Return(returned) => answer == returned,
            Step::Continue(fetch) => call_ensures(
                BlockReceiptsFetch::<B>::on_receipts::<R, E, C>,
                (fetch, reply, &check),
                answer,
            ),
        },
    ensures
        lookup.block.block_id == block_id && !lookup.block.full_tx,
        found matches Err(error) ==> answer == Err::<Option<Vec<Receipt<R>>>, _>(error),
        (answer matches Ok(None)) <==> (found matches Ok(None)),
        step is Continue <==> (found matches Ok(Some(_))),
        found matches Ok(Some(block)) ==> {
            &&& step matches Step::Continue(fetch) && fetch.block_id == BlockId::Number(
                BlockNumberOrTag::Number(block.number),
            )
            &&& reply matches Err(error) ==> answer == Err::<Option<Vec<Receipt<R>>>, _>(
                ProviderError::Outside(error),
            )
            &&& reply matches Ok(None) ==> answer == Err::<Option<Vec<Receipt<R>>>, _>(
                ProviderError::<E>::Execution(ExecutionError::NoReceiptsForBlock(block.number)),
            )
            &&& reply matches Ok(Some(receipts)) ==> match answer {
                Ok(returned) => returned == Some(receipts) && call_ensures(
                    check,
                    (&receipts, &block),
                    Ok::<(), E>(()),
                ),
                Err(error) => error matches ProviderError::Outside(outside) && call_ensures(
                    check,
                    (&receipts, &block),
                    Err::<(), E>(outside),
                ),
            }
        },
{
}

} // verus!
