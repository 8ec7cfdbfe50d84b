//! What the requests promise as a whole: how their steps fit together, and that nothing is returned
//! that was not proved.

use vstd::prelude::*;

use crate::accounts::{
    accounts_accepted, accounts_refused, AccountBlockLookup, AccountChecks, AccountFetch,
    AccountProof, HintBlockLookup, HintFetch,
};
use crate::block_lookup::{is_fixed, CacheLookup};
use crate::error::ProviderError;
use crate::get_logs::{
    lemma_required_blocks, named_blocks, receipt_accepted, receipt_check, receipt_refused,
    receipts_accepted, receipts_refused, roots_by_block, spec_receipts_root_of, LogsFetch,
    RootsFetch,
};
use crate::keyed_map::KeyedMap;
use crate::log_checks::{
    all_name_transaction, lemma_logs_held, log_verdict, metadata_matches, named_transactions,
    receipt_holds, receipt_keys_error, required_transactions, LogVerdict,
};
use crate::primitives::{Address, BlockId, B256};
use crate::receipts::{BlockReceiptsFetch, BlockReceiptsLookup, ReceiptBlockLookup, ReceiptFetch};
use crate::sequences::{first_absent, lemma_first_absent, lemma_first_occurrences};
use crate::transactions::{
    transaction_check, LocationBlockLookup, LocationFetch, TransactionBlockLookup, TransactionFetch,
};
use crate::types::{
    AccountResponse, Block, BlockRequest, ExtendedAccessListResponse, Log, LogsResponse, Receipt,
    Step, Transaction, TransactionReceiptResponse, TransactionResponse,
};

verus! {

/// Some log names this transaction.
pub open spec fn some_log_names(logs: Seq<Log>, tx_hash: B256) -> bool {
    exists|i: int| 0 <= i < logs.len() && (#[trigger] logs[i]).transaction_hash == Some(tx_hash)
}

/// The transactions required by logs that all name one are those that some log names.
pub proof fn lemma_required_transactions(logs: Seq<Log>)
    requires
        all_name_transaction(logs),
    ensures
        required_transactions(logs).no_duplicates(),
        forall|tx_hash: B256| #[trigger]
            required_transactions(logs).contains(tx_hash) <==> some_log_names(logs, tx_hash),
{
    let named = named_transactions(logs);
    lemma_first_occurrences(named);
    assert forall|tx_hash: B256| #[trigger]
        required_transactions(logs).contains(tx_hash) <==> some_log_names(logs, tx_hash) by {
        assert(required_transactions(logs).contains(tx_hash) <==> named.contains(tx_hash));
        if named.contains(tx_hash) {
            let i = choose|i: int| 0 <= i < named.len() && named[i] == tx_hash;
            assert(logs[i].transaction_hash == Some(tx_hash));
        }
        if some_log_names(logs, tx_hash) {
            let i = choose|i: int|
                0 <= i < logs.len() && (#[trigger] logs[i]).transaction_hash == Some(tx_hash);
            assert(named[i] == tx_hash);
        }
    }
}

/// Receipts fit logs exactly where every log names a transaction, and the transactions that have a
/// receipt are those that some log names: none is missing, and none is superfluous.
pub proof fn law_exact_receipt_keys(logs: Seq<Log>, keys: Seq<B256>)
    ensures
        receipt_keys_error(logs, keys) is None <==> {
            &&& all_name_transaction(logs)
            &&& forall|tx_hash: B256| #[trigger]
                keys.contains(tx_hash) <==> some_log_names(logs, tx_hash)
        },
{
    if all_name_transaction(logs) {
        let required = required_transactions(logs);
        lemma_required_transactions(logs);
        lemma_first_absent(required, keys);
        lemma_first_absent(keys, required);
        if receipt_keys_error(logs, keys) is None {
            assert forall|tx_hash: B256| #[trigger] keys.contains(tx_hash) <==> some_log_names(
                logs,
                tx_hash,
            ) by {
                assert(required.contains(tx_hash) <==> some_log_names(logs, tx_hash));
            }
        } else if forall|tx_hash: B256| #[trigger]
            keys.contains(tx_hash) <==> some_log_names(logs, tx_hash) {
            match first_absent(required, keys) {
                Some(missing) => {
                    assert(required.contains(missing));
                    assert(keys.contains(missing) <==> some_log_names(logs, missing));
                },
                None => {
                    let unexpected = first_absent(keys, required)->0;
                    assert(keys.contains(unexpected));
                    assert(required.contains(unexpected) <==> some_log_names(logs, unexpected));
                },
            }
        }
    }
}

/// A reply is faultless, or misses a log without index, or has an error to be refused with: exactly
/// one of the three.
pub proof fn law_reply_has_one_standing<R>(response: LogsResponse<R>)
    ensures
        response.faultless() <==> response.fault() is None
            && !response.spec_misses_log_without_index(),
        response.spec_misses_log_without_index() ==> response.fault() is None,
{
}

/// The request for the logs goes on exactly after a faultless reply, and a reply that misses a log
/// without index calls for nothing.
pub proof fn law_request_goes_on_after_faultless_reply<F, R, E>(
    request: LogsFetch<F>,
    response: LogsResponse<R>,
    next: Result<RootsFetch<F, R>, ProviderError<E>>,
)
    requires
        request.leads_to(Ok::<_, E>(response), next),
    ensures
        next is Ok <==> response.faultless(),
        !response.spec_misses_log_without_index(),
{
}

/// The order in which the receipts of a reply come decides nothing but which of several faults is
/// reported: two replies with the same logs and the same receipts are both faultless or neither
/// is, and lead to the same blocks.
pub proof fn law_receipt_order_is_irrelevant<R>(a: LogsResponse<R>, b: LogsResponse<R>)
    requires
        a.logs@ == b.logs@,
        a.receipt_proofs@ == b.receipt_proofs@,
    ensures
        a.faultless() == b.faultless(),
        a.fault() is None <==> b.fault() is None,
        a.spec_misses_log_without_index() == b.spec_misses_log_without_index(),
        a.blocks() == b.blocks(),
{
    law_exact_receipt_keys(a.logs@, a.receipt_proofs.keys());
    law_exact_receipt_keys(b.logs@, b.receipt_proofs.keys());
    assert forall|tx_hash: B256| #[trigger]
        a.receipt_proofs.keys().contains(tx_hash) <==> b.receipt_proofs.keys().contains(tx_hash) by {
        a.receipt_proofs.lemma_keys(tx_hash);
        b.receipt_proofs.lemma_keys(tx_hash);
    }
    if receipt_keys_error(a.logs@, a.receipt_proofs.keys()) is None {
        assert forall|tx_hash: B256| #[trigger]
            b.receipt_proofs.keys().contains(tx_hash) <==> some_log_names(b.logs@, tx_hash) by {
            assert(a.receipt_proofs.keys().contains(tx_hash) <==> some_log_names(a.logs@, tx_hash));
        }
    }
    if receipt_keys_error(b.logs@, b.receipt_proofs.keys()) is None {
        assert forall|tx_hash: B256| #[trigger]
            a.receipt_proofs.keys().contains(tx_hash) <==> some_log_names(a.logs@, tx_hash) by {
            assert(b.receipt_proofs.keys().contains(tx_hash) <==> some_log_names(b.logs@, tx_hash));
        }
    }
}

/// In a faultless reply each log stands in the receipt of the transaction that it names, and
/// the two place that transaction alike.
pub proof fn law_logs_stand_in_their_receipts<R>(response: LogsResponse<R>, i: int)
    requires
        response.faultless(),
        0 <= i < response.logs@.len(),
    ensures
        response.logs@[i].transaction_hash matches Some(tx_hash) && {
            &&& response.receipt_proofs@.contains_key(tx_hash)
            &&& metadata_matches(
                response.logs@[i],
                response.receipt_proofs@[tx_hash].receipt,
                tx_hash,
            )
            &&& receipt_holds(
                response.receipt_proofs@[tx_hash].receipt,
                response.logs@[i].inner@,
            )
        },
{
    lemma_logs_held(response.logs@, response.receipt_proofs@);
    assert(log_verdict(response.logs@[i], response.receipt_proofs@) == LogVerdict::Held);
}

/// In a faultless reply each receipt is under the hash of its own transaction, some log comes
/// from it, and it names a block.
pub proof fn law_receipts_are_under_their_own_hash<R>(response: LogsResponse<R>, tx_hash: B256)
    requires
        response.faultless(),
        response.receipt_proofs@.contains_key(tx_hash),
    ensures
        some_log_names(response.logs@, tx_hash),
        response.receipt_proofs@[tx_hash].receipt.transaction_hash == tx_hash,
        response.receipt_proofs@[tx_hash].receipt.block_hash is Some,
{
    let logs = response.logs@;
    law_exact_receipt_keys(logs, response.receipt_proofs.keys());
    assert(response.receipt_proofs.keys().contains(tx_hash));
    let i = choose|i: int|
        0 <= i < logs.len() && (#[trigger] logs[i]).transaction_hash == Some(tx_hash);
    law_logs_stand_in_their_receipts(response, i);
    lemma_required_transactions(logs);
    lemma_required_blocks(required_transactions(logs), response.receipt_proofs@);
    assert(required_transactions(logs).contains(tx_hash));
}

/// A reply with a receipt under the hash of another transaction is never accepted.
pub proof fn law_rekeyed_receipt_is_refused<R>(response: LogsResponse<R>, tx_hash: B256)
    requires
        response.receipt_proofs@.contains_key(tx_hash),
        response.receipt_proofs@[tx_hash].receipt.transaction_hash != tx_hash,
    ensures
        !response.faultless(),
        response.fault() is Some || response.spec_misses_log_without_index(),
{
    law_reply_has_one_standing(response);
    if response.faultless() {
        law_receipts_are_under_their_own_hash(response, tx_hash);
    }
}

/// The blocks that a faultless reply leads to are those that its receipts name, and each of
/// them is asked for once.
pub proof fn law_blocks_asked_for<R>(response: LogsResponse<R>)
    requires
        response.faultless(),
    ensures
        response.blocks().no_duplicates(),
        forall|block_hash: B256| #[trigger]
            response.blocks().contains(block_hash) <==> exists|tx_hash: B256|
                #![trigger response.receipt_proofs@.contains_key(tx_hash)]
                response.receipt_proofs@.contains_key(tx_hash)
                    && response.receipt_proofs@[tx_hash].receipt.block_hash == Some(block_hash),
{
    let logs = response.logs@;
    let proofs = response.receipt_proofs@;
    let required = required_transactions(logs);
    let named = named_blocks(required, proofs);
    lemma_first_occurrences(named);
    law_exact_receipt_keys(logs, response.receipt_proofs.keys());
    lemma_required_transactions(logs);
    lemma_required_blocks(required, proofs);
    assert forall|block_hash: B256| #[trigger]
        response.blocks().contains(block_hash) <==> exists|tx_hash: B256|
            #![trigger proofs.contains_key(tx_hash)]
            proofs.contains_key(tx_hash) && proofs[tx_hash].receipt.block_hash == Some(
                block_hash,
            ) by {
        if response.blocks().contains(block_hash) {
            assert(named.contains(block_hash));
            let i = choose|i: int| 0 <= i < named.len() && named[i] == block_hash;
            assert(proofs.contains_key(required[i]));
            assert(proofs[required[i]].receipt.block_hash == Some(block_hash));
        }
        if exists|tx_hash: B256|
            #![trigger proofs.contains_key(tx_hash)]
            proofs.contains_key(tx_hash) && proofs[tx_hash].receipt.block_hash == Some(block_hash) {
            let tx_hash = choose|tx_hash: B256|
                #![trigger proofs.contains_key(tx_hash)]
                proofs.contains_key(tx_hash) && proofs[tx_hash].receipt.block_hash == Some(
                    block_hash,
                );
            assert(response.receipt_proofs.keys().contains(tx_hash));
            assert(required.contains(tx_hash));
            let i = choose|i: int| 0 <= i < required.len() && required[i] == tx_hash;
            assert(named[i] == block_hash);
            assert(named.contains(block_hash));
        }
    }
}

/// Where the root of every block that was asked for is known, a receipt can be refused only because
/// its proof fails.
pub proof fn law_known_roots_leave_only_proofs_to_fail<
    R,
    E,
    C: Fn(&Receipt<R>, B256, &Vec<Vec<u8>>) -> Result<(), E>,
>(response: LogsResponse<R>, roots: Map<B256, B256>, check: C, error: ProviderError<E>)
    requires
        response.receipt_proofs.well_formed(),
        response.faultless(),
        forall|block_hash: B256| #[trigger]
            response.blocks().contains(block_hash) ==> roots.contains_key(block_hash),
        receipts_refused(check, response.receipt_proofs.entries(), roots, error),
    ensures
        error is Outside,
{
    let entries = response.receipt_proofs.entries();
    let i = choose|i: int|
        0 <= i < entries.len() && receipt_refused(
            check,
            (#[trigger] entries[i]).0,
            entries[i].1,
            roots,
            error,
        );
    response.receipt_proofs.lemma_entry(i);
    law_receipts_are_under_their_own_hash(response, entries[i].0);
    law_blocks_asked_for(response);
    let block_hash = entries[i].1.receipt.block_hash->0;
    assert(response.receipt_proofs@.contains_key(entries[i].0));
    assert(response.blocks().contains(block_hash));
}

/// Where each of the blocks was looked up once, and `roots` are the receipts roots of what was found,
/// each block has the receipts root of the block found for it, and no other block has one.
pub proof fn law_roots_are_those_of_the_blocks_found<B, E>(
    blocks: Seq<B256>,
    found: Seq<Result<Option<Block<B>>, ProviderError<E>>>,
    roots: Seq<(B256, B256)>,
)
    requires
        blocks.no_duplicates(),
        found.len() == blocks.len(),
        roots.len() == blocks.len(),
        forall|i: int|
            0 <= i < blocks.len() ==> spec_receipts_root_of(blocks[i], #[trigger] found[i])
                == Ok::<_, ProviderError<E>>(roots[i]),
    ensures
        forall|block_hash: B256| #[trigger]
            roots_by_block(roots).contains_key(block_hash) <==> blocks.contains(block_hash),
        forall|i: int|
            0 <= i < blocks.len() ==> (#[trigger] found[i] matches Ok(Some(block)) && roots_by_block(
                roots,
            )[blocks[i]] == block.receipts_root),
    decreases blocks.len(),
{
    if blocks.len() > 0 {
        let last = blocks.len() - 1;
        let (earlier_blocks, earlier_found, earlier_roots) = (
            blocks.drop_last(),
            found.drop_last(),
            roots.drop_last(),
        );
        assert forall|i: int| 0 <= i < earlier_blocks.len() implies spec_receipts_root_of(
            earlier_blocks[i],
            #[trigger] earlier_found[i],
        ) == Ok::<_, ProviderError<E>>(earlier_roots[i]) by {
            assert(earlier_found[i] == found[i]);
        }
        law_roots_are_those_of_the_blocks_found(earlier_blocks, earlier_found, earlier_roots);
        assert(spec_receipts_root_of(blocks[last], found[last]) == Ok::<_, ProviderError<E>>(
            roots[last],
        ));
        assert forall|block_hash: B256| #[trigger]
            roots_by_block(roots).contains_key(block_hash) <==> blocks.contains(block_hash) by {
            assert(roots_by_block(earlier_roots).contains_key(block_hash)
                <==> earlier_blocks.contains(block_hash));
            if blocks.contains(block_hash) && block_hash != blocks[last] {
                let i = choose|i: int| 0 <= i < blocks.len() && blocks[i] == block_hash;
                assert(earlier_blocks[i] == block_hash);
            }
            if earlier_blocks.contains(block_hash) {
                let i = choose|i: int|
                    0 <= i < earlier_blocks.len() && earlier_blocks[i] == block_hash;
                assert(blocks[i] == block_hash);
            }
        }
        assert forall|i: int| 0 <= i < blocks.len() implies (
        #[trigger] found[i] matches Ok(Some(block)) && roots_by_block(roots)[blocks[i]]
            == block.receipts_root) by {
            if i < last {
                assert(found[i] == earlier_found[i]);
                assert(blocks[i] == earlier_blocks[i]);
                assert(blocks[i] != blocks[last]);
            }
        }
    }
}

/// This log is proved: the receipt of the transaction that it names holds it, places it where the
/// log does, and checked against the receipts root of the block that it names.
pub open spec fn log_is_proved<R, E, C: Fn(&Receipt<R>, B256, &Vec<Vec<u8>>) -> Result<(), E>>(
    log: Log,
    receipt_proofs: Map<B256, TransactionReceiptResponse<R>>,
    roots: Map<B256, B256>,
    check: C,
) -> bool {
    &&& log.transaction_hash matches Some(tx_hash)
    &&& receipt_proofs.contains_key(tx_hash)
    &&& metadata_matches(log, receipt_proofs[tx_hash].receipt, tx_hash)
    &&& receipt_holds(receipt_proofs[tx_hash].receipt, log.inner@)
    &&& log.block_hash matches Some(block_hash)
    &&& roots.contains_key(block_hash)
    &&& receipt_check(check, receipt_proofs[tx_hash], roots[block_hash], Ok::<(), E>(()))
}

/// The logs that a request returns are those of the API's reply, all of them proved and found to be
/// what the filter selects.
pub proof fn law_returned_logs_are_proved<
    F,
    R,
    E,
    C: Fn(&Receipt<R>, B256, &Vec<Vec<u8>>) -> Result<(), E>,
    M: Fn(&Vec<Log>, &F) -> Result<(), E>,
>(
    request: LogsFetch<F>,
    response: LogsResponse<R>,
    fetch: RootsFetch<F, R>,
    roots: Result<Vec<(B256, B256)>, ProviderError<E>>,
    check_receipt: C,
    check_filter: M,
    logs: Vec<Log>,
)
    requires
        response.receipt_proofs.well_formed(),
        request.leads_to(Ok::<_, E>(response), Ok::<_, ProviderError<E>>(fetch)),
        fetch.answers(roots, check_receipt, check_filter, Ok::<_, ProviderError<E>>(logs)),
    ensures
        logs == response.logs,
        roots is Ok,
        forall|i: int|
            0 <= i < logs@.len() ==> log_is_proved::<R, E, C>(
                #[trigger] logs@[i],
                response.receipt_proofs@,
                roots_by_block(roots->Ok_0@),
                check_receipt,
            ),
        call_ensures(check_filter, (&logs, &request.filter), Ok::<(), E>(())),
{
    let known = roots_by_block(roots->Ok_0@);
    assert forall|i: int| 0 <= i < logs@.len() implies log_is_proved::<R, E, C>(
        #[trigger] logs@[i],
        response.receipt_proofs@,
        known,
        check_receipt,
    ) by {
        law_logs_stand_in_their_receipts(response, i);
        let tx_hash = logs@[i].transaction_hash->0;
        let j = response.receipt_proofs.lemma_key(tx_hash);
        assert(fetch.receipt_proofs.entries()[j].1 == response.receipt_proofs@[tx_hash]);
    }
}

/// A faultless reply is believed wherever nothing speaks against it: where the root of every block
/// that was asked for is known, no receipt's proof is found wanting against the root of the block
/// that the receipt names, and the filter selects the logs, the logs are returned.
pub proof fn law_faultless_logs_are_returned<
    F,
    R,
    E,
    C: Fn(&Receipt<R>, B256, &Vec<Vec<u8>>) -> Result<(), E>,
    M: Fn(&Vec<Log>, &F) -> Result<(), E>,
>(
    request: LogsFetch<F>,
    response: LogsResponse<R>,
    fetch: RootsFetch<F, R>,
    roots: Vec<(B256, B256)>,
    check_receipt: C,
    check_filter: M,
    answer: Result<Vec<Log>, ProviderError<E>>,
)
    requires
        response.receipt_proofs.well_formed(),
        request.leads_to(Ok::<_, E>(response), Ok::<_, ProviderError<E>>(fetch)),
        forall|block_hash: B256| #[trigger]
            response.blocks().contains(block_hash) ==> roots_by_block(roots@).contains_key(
                block_hash,
            ),
        forall|tx_hash: B256, error: E|
            response.receipt_proofs@.contains_key(tx_hash) ==> !(#[trigger] receipt_check(
                check_receipt,
                response.receipt_proofs@[tx_hash],
                roots_by_block(
                    roots@,
                )[response.receipt_proofs@[tx_hash].receipt.block_hash->0],
                Err::<(), E>(error),
            )),
        forall|error: E|
            !(#[trigger] call_ensures(
                check_filter,
                (&response.logs, &request.filter),
                Err::<(), E>(error),
            )),
        fetch.answers(Ok::<_, ProviderError<E>>(roots), check_receipt, check_filter, answer),
    ensures
        answer == Ok::<_, ProviderError<E>>(response.logs),
{
    let known = roots_by_block(roots@);
    let entries = response.receipt_proofs.entries();
    if let Err(error) = answer {
        if receipts_refused(check_receipt, entries, known, error) {
            law_known_roots_leave_only_proofs_to_fail(response, known, check_receipt, error);
            let i = choose|i: int|
                0 <= i < entries.len() && receipt_refused(
                    check_receipt,
                    (#[trigger] entries[i]).0,
                    entries[i].1,
                    known,
                    error,
                );
            response.receipt_proofs.lemma_entry(i);
            assert(entries[i].1 == response.receipt_proofs@[entries[i].0]);
        }
    }
}

/// A block comes from the cache, or from the history. The history is turned to only where there is
/// one, the cache does not have the block, and the block is named by number or hash.
pub proof fn law_block_sources<B, E>(
    lookup: CacheLookup,
    cached: Result<Option<Block<B>>, E>,
    past: Result<Option<Block<B>>, E>,
)
    ensures
        match lookup.spec_on_cache(cached) {
            Step::Return(Ok(Some(block))) => cached == Ok::<_, E>(Some(block)),
            Step::Return(Ok(None)) => cached == Ok::<Option<Block<B>>, E>(None) && !(
            lookup.has_history && is_fixed(lookup.request.block_id)),
            Step::Return(Err(error)) => error matches ProviderError::Outside(outside) && cached
                == Err::<Option<Block<B>>, E>(outside),
            Step::Continue(history) => {
                &&& cached == Ok::<Option<Block<B>>, E>(None)
                &&& lookup.has_history
                &&& is_fixed(lookup.request.block_id)
                &&& history.request == lookup.request
                &&& history.spec_on_history(past) matches Ok(answer) ==> past == Ok::<_, E>(answer)
            },
        },
{
}

/// A transaction that is returned by hash is the one of the API's reply, and checked against the
/// transactions root of the block found under the block hash that it carries.
pub proof fn law_returned_transaction_is_proved<
    T,
    B,
    E,
    C: Fn(&Transaction<T>, B256, &Vec<Vec<u8>>) -> Result<(), E>,
>(
    request: TransactionFetch,
    response: TransactionResponse<T>,
    lookup: TransactionBlockLookup<T>,
    found: Result<Option<Block<B>>, ProviderError<E>>,
    check: C,
    transaction: Transaction<T>,
)
    requires
        request.spec_on_transaction(Ok::<_, E>(Some(response))) == Step::<
            _,
            Result<Option<Transaction<T>>, ProviderError<E>>,
        >::Continue(lookup),
        lookup.answers(found, check, Ok::<_, ProviderError<E>>(Some(transaction))),
    ensures
        transaction == response.transaction,
        transaction.block_hash matches Some(block_hash) && lookup.block == BlockRequest::header(
            BlockId::hash(block_hash),
        ),
        found matches Ok(Some(block)) && transaction_check(
            check,
            response,
            block.transactions_root,
            Ok::<(), E>(()),
        ),
{
}

/// A transaction that is returned by its place in a block stands at the position that was asked
/// for, and checked against the transactions root of the block that was found.
pub proof fn law_located_transaction_is_proved<
    T,
    B,
    E,
    C: Fn(&Transaction<T>, B256, &Vec<Vec<u8>>) -> Result<(), E>,
>(
    request: LocationBlockLookup,
    found: Result<Option<Block<B>>, ProviderError<E>>,
    fetch: LocationFetch<B>,
    reply: Result<Option<TransactionResponse<T>>, E>,
    check: C,
    transaction: Transaction<T>,
)
    requires
        request.spec_on_block(found) == Ok::<_, ProviderError<E>>(fetch),
        fetch.answers(reply, check, Ok::<_, ProviderError<E>>(Some(transaction))),
    ensures
        transaction.transaction_index == Some(request.index),
        found matches Ok(Some(block)) && fetch.block_id == BlockId::hash(block.hash) && (
        reply matches Ok(Some(response)) && response.transaction == transaction
            && transaction_check(check, response, block.transactions_root, Ok::<(), E>(()))),
{
}

/// A receipt that is returned is the one of the API's reply, and checked against the receipts root
/// of the block found under the block hash that it carries.
pub proof fn law_returned_receipt_is_proved<
    R,
    B,
    E,
    C: Fn(&Receipt<R>, B256, &Vec<Vec<u8>>) -> Result<(), E>,
>(
    request: ReceiptFetch,
    response: TransactionReceiptResponse<R>,
    lookup: ReceiptBlockLookup<R>,
    found: Result<Option<Block<B>>, ProviderError<E>>,
    check: C,
    receipt: Receipt<R>,
)
    requires
        request.spec_on_receipt(Ok::<_, E>(Some(response))) == Step::<
            _,
            Result<Option<Receipt<R>>, ProviderError<E>>,
        >::Continue(lookup),
        lookup.answers(found, check, Ok::<_, ProviderError<E>>(Some(receipt))),
    ensures
        receipt == response.receipt,
        receipt.block_hash matches Some(block_hash) && lookup.block == BlockRequest::header(
            BlockId::hash(block_hash),
        ),
        found matches Ok(Some(block)) && receipt_check(
            check,
            response,
            block.receipts_root,
            Ok::<(), E>(()),
        ),
{
}

/// Receipts of a block that are returned were asked for under the number of the block that was
/// found, and checked against it.
pub proof fn law_returned_block_receipts_are_proved<
    R,
    B,
    E,
    C: Fn(&Vec<Receipt<R>>, &Block<B>) -> Result<(), E>,
>(
    request: BlockReceiptsLookup,
    found: Result<Option<Block<B>>, ProviderError<E>>,
    fetch: BlockReceiptsFetch<B>,
    reply: Result<Option<Vec<Receipt<R>>>, E>,
    check: C,
    receipts: Option<Vec<Receipt<R>>>,
)
    requires
        request.spec_on_block::<B, R, E>(found) == Step::<
            _,
            Result<Option<Vec<Receipt<R>>>, ProviderError<E>>,
        >::Continue(fetch),
        fetch.answers(reply, check, Ok::<_, ProviderError<E>>(receipts)),
    ensures
        receipts is Some,
        found matches Ok(Some(block)) && fetch.block_id == BlockId::number(block.number)
            && call_ensures(check, (&receipts->0, &block), Ok::<(), E>(())),
        reply == Ok::<_, E>(receipts),
{
}

/// An account that is returned is the one of the API's reply to a request at the number of the
/// block that was found, and passed its checks against the state root of that block.
pub proof fn law_returned_account_is_proved<B, E, P, S, C>(
    request: AccountBlockLookup,
    found: Result<Option<Block<B>>, ProviderError<E>>,
    fetch: AccountFetch<B>,
    reply: Result<AccountResponse, E>,
    checks: AccountChecks<P, S, C>,
    account: AccountResponse,
) where
    P: Fn(&AccountProof<'_>, B256) -> Result<(), E>,
    S: Fn(&AccountProof<'_>) -> Result<(), E>,
    C: Fn(&AccountProof<'_>, &Vec<u8>) -> Result<(), E>,

    requires
        request.leads_to(found, Ok::<_, ProviderError<E>>(fetch)),
        fetch.answers(reply, checks, Ok::<_, ProviderError<E>>(account)),
    ensures
        reply == Ok::<_, E>(account),
        found matches Ok(Some(block)) && fetch.request.block_id == Some(
            BlockId::number(block.number),
        ) && checks.accept::<E>(request.address, account, block.state_root),
{
}

/// Each account of an execution hint that is returned passed its checks, under its own address,
/// against the state root of the block that was found.
pub proof fn law_returned_hint_is_proved<Q, B, E, P, S, C>(
    request: HintBlockLookup<Q>,
    found: Result<Option<Block<B>>, ProviderError<E>>,
    fetch: HintFetch<Q, B>,
    response: ExtendedAccessListResponse,
    checks: AccountChecks<P, S, C>,
    accounts: KeyedMap<20, AccountResponse>,
) where
    P: Fn(&AccountProof<'_>, B256) -> Result<(), E>,
    S: Fn(&AccountProof<'_>) -> Result<(), E>,
    C: Fn(&AccountProof<'_>, &Vec<u8>) -> Result<(), E>,

    requires
        request.spec_on_block(found) == Ok::<_, ProviderError<E>>(fetch),
        fetch.answers(Ok::<_, E>(response), checks, Ok::<_, ProviderError<E>>(accounts)),
    ensures
        accounts == response.accounts,
        found matches Ok(Some(block)) && fetch.request.block_id == Some(BlockId::hash(block.hash)),
        forall|address: Address| #[trigger]
            accounts@.contains_key(address) ==> checks.accept::<E>(
                address,
                accounts@[address],
                found->Ok_0->0.state_root,
            ),
{
    assert forall|address: Address| #[trigger]
        accounts@.contains_key(address) implies checks.accept::<E>(
        address,
        accounts@[address],
        found->Ok_0->0.state_root,
    ) by {
        let i = accounts.lemma_key(address);
        assert(response.accounts.entries()[i].0 == address);
    }
}

/// A check of a transaction's proof comes to one verdict on one input.
pub open spec fn transaction_check_is_function<
    T,
    E,
    C: Fn(&Transaction<T>, B256, &Vec<Vec<u8>>) -> Result<(), E>,
>(check: C) -> bool {
    forall|
        transaction: &Transaction<T>,
        root: B256,
        proof: &Vec<Vec<u8>>,
        a: Result<(), E>,
        b: Result<(), E>,
    |
        #[trigger] call_ensures(check, (transaction, root, proof), a) && #[trigger] call_ensures(
            check,
            (transaction, root, proof),
            b,
        ) ==> a == b
}

/// A check of a receipt's proof comes to one verdict on one input.
pub open spec fn receipt_check_is_function<
    R,
    E,
    C: Fn(&Receipt<R>, B256, &Vec<Vec<u8>>) -> Result<(), E>,
>(check: C) -> bool {
    forall|
        receipt: &Receipt<R>,
        root: B256,
        proof: &Vec<Vec<u8>>,
        a: Result<(), E>,
        b: Result<(), E>,
    |
        #[trigger] call_ensures(check, (receipt, root, proof), a) && #[trigger] call_ensures(
            check,
            (receipt, root, proof),
            b,
        ) ==> a == b
}

/// A check of all receipts of a block comes to one verdict on one input.
pub open spec fn block_receipts_check_is_function<
    R,
    B,
    E,
    C: Fn(&Vec<Receipt<R>>, &Block<B>) -> Result<(), E>,
>(check: C) -> bool {
    forall|receipts: &Vec<Receipt<R>>, block: &Block<B>, a: Result<(), E>, b: Result<(), E>|
        #[trigger] call_ensures(check, (receipts, block), a) && #[trigger] call_ensures(
            check,
            (receipts, block),
            b,
        ) ==> a == b
}

/// A transaction at a position is asked for, and answered, by the block that was found and not by
/// the name it was found under: two requests for one position whose block names lead to one block
/// ask the API one question, and to one reply give one answer.
pub proof fn law_located_transaction_depends_on_the_block_found<
    T,
    B,
    E,
    C: Fn(&Transaction<T>, B256, &Vec<Vec<u8>>) -> Result<(), E>,
>(
    first: LocationBlockLookup,
    second: LocationBlockLookup,
    found: Result<Option<Block<B>>, ProviderError<E>>,
    fetch: LocationFetch<B>,
    reply: Result<Option<TransactionResponse<T>>, E>,
    check: C,
    a: Result<Option<Transaction<T>>, ProviderError<E>>,
    b: Result<Option<Transaction<T>>, ProviderError<E>>,
)
    requires
        first.index == second.index,
    ensures
        first.spec_on_block(found) == second.spec_on_block(found),
        first.spec_on_block(found) == Ok::<_, ProviderError<E>>(fetch)
            && transaction_check_is_function::<T, E, C>(check) && fetch.answers(reply, check, a)
            && fetch.answers(reply, check, b) ==> a == b,
{
}

/// A transaction that is asked for by hash has one answer, given the replies.
pub proof fn law_transaction_has_one_answer<
    T,
    B,
    E,
    C: Fn(&Transaction<T>, B256, &Vec<Vec<u8>>) -> Result<(), E>,
>(
    lookup: TransactionBlockLookup<T>,
    found: Result<Option<Block<B>>, ProviderError<E>>,
    check: C,
    a: Result<Option<Transaction<T>>, ProviderError<E>>,
    b: Result<Option<Transaction<T>>, ProviderError<E>>,
)
    requires
        transaction_check_is_function::<T, E, C>(check),
        lookup.answers(found, check, a),
        lookup.answers(found, check, b),
    ensures
        a == b,
{
}

/// A receipt that is asked for has one answer, given the replies.
pub proof fn law_receipt_has_one_answer<
    R,
    B,
    E,
    C: Fn(&Receipt<R>, B256, &Vec<Vec<u8>>) -> Result<(), E>,
>(
    lookup: ReceiptBlockLookup<R>,
    found: Result<Option<Block<B>>, ProviderError<E>>,
    check: C,
    a: Result<Option<Receipt<R>>, ProviderError<E>>,
    b: Result<Option<Receipt<R>>, ProviderError<E>>,
)
    requires
        receipt_check_is_function::<R, E, C>(check),
        lookup.answers(found, check, a),
        lookup.answers(found, check, b),
    ensures
        a == b,
{
}

/// A check of logs against a filter comes to one verdict on one input.
pub open spec fn filter_check_is_function<F, E, M: Fn(&Vec<Log>, &F) -> Result<(), E>>(
    check: M,
) -> bool {
    forall|logs: &Vec<Log>, filter: &F, a: Result<(), E>, b: Result<(), E>|
        #[trigger] call_ensures(check, (logs, filter), a) && #[trigger] call_ensures(
            check,
            (logs, filter),
            b,
        ) ==> a == b
}

/// Logs that are asked for have one answer, given the replies.
pub proof fn law_logs_have_one_answer<
    F,
    R,
    E,
    C: Fn(&Receipt<R>, B256, &Vec<Vec<u8>>) -> Result<(), E>,
    M: Fn(&Vec<Log>, &F) -> Result<(), E>,
>(
    fetch: RootsFetch<F, R>,
    reply: Result<Vec<(B256, B256)>, ProviderError<E>>,
    check_receipt: C,
    check_filter: M,
    a: Result<Vec<Log>, ProviderError<E>>,
    b: Result<Vec<Log>, ProviderError<E>>,
)
    requires
        receipt_check_is_function::<R, E, C>(check_receipt),
        filter_check_is_function::<F, E, M>(check_filter),
        fetch.answers(reply, check_receipt, check_filter, a),
        fetch.answers(reply, check_receipt, check_filter, b),
    ensures
        a == b,
{
    if let Ok(roots) = reply {
        let receipts = fetch.receipt_proofs.entries();
        let known = roots_by_block(roots@);
        if let Err(error) = a {
            if receipts_refused(check_receipt, receipts, known, error) {
                lemma_refused_receipts_exclude_others(check_receipt, receipts, known, error);
            }
        }
        if let Err(error) = b {
            if receipts_refused(check_receipt, receipts, known, error) {
                lemma_refused_receipts_exclude_others(check_receipt, receipts, known, error);
            }
        }
    }
}

/// Where receipts are refused with one error, they are not all accepted, nor refused with another.
proof fn lemma_refused_receipts_exclude_others<
    R,
    E,
    C: Fn(&Receipt<R>, B256, &Vec<Vec<u8>>) -> Result<(), E>,
>(
    check: C,
    receipts: Seq<(B256, TransactionReceiptResponse<R>)>,
    roots: Map<B256, B256>,
    error: ProviderError<E>,
)
    requires
        receipt_check_is_function::<R, E, C>(check),
        receipts_refused(check, receipts, roots, error),
    ensures
        !receipts_accepted::<R, E, C>(check, receipts, roots),
        forall|another: ProviderError<E>| #[trigger]
            receipts_refused(check, receipts, roots, another) ==> another == error,
{
    let i = choose|i: int|
        {
            &&& 0 <= i < receipts.len()
            &&& receipts_accepted::<R, E, C>(check, receipts.take(i), roots)
            &&& receipt_refused(check, (#[trigger] receipts[i]).0, receipts[i].1, roots, error)
        };
    if receipts_accepted::<R, E, C>(check, receipts, roots) {
        assert(receipt_accepted::<R, E, C>(check, receipts[i].1, roots));
    }
    assert forall|another: ProviderError<E>| #[trigger]
        receipts_refused(check, receipts, roots, another) implies another == error by {
        let j = choose|j: int|
            {
                &&& 0 <= j < receipts.len()
                &&& receipts_accepted::<R, E, C>(check, receipts.take(j), roots)
                &&& receipt_refused(
                    check,
                    (#[trigger] receipts[j]).0,
                    receipts[j].1,
                    roots,
                    another,
                )
            };
        if i < j {
            assert(receipts.take(j)[i] == receipts[i]);
            assert(receipt_accepted::<R, E, C>(check, receipts[i].1, roots));
        } else if j < i {
            assert(receipts.take(i)[j] == receipts[j]);
            assert(receipt_accepted::<R, E, C>(check, receipts[j].1, roots));
        }
    }
}

/// The receipts of a block are asked for, and answered, by the block that was found and not by the
/// name it was found under.
pub proof fn law_block_receipts_depend_on_the_block_found<
    R,
    B,
    E,
    C: Fn(&Vec<Receipt<R>>, &Block<B>) -> Result<(), E>,
>(
    first: BlockReceiptsLookup,
    second: BlockReceiptsLookup,
    found: Result<Option<Block<B>>, ProviderError<E>>,
    fetch: BlockReceiptsFetch<B>,
    reply: Result<Option<Vec<Receipt<R>>>, E>,
    check: C,
    a: Result<Option<Vec<Receipt<R>>>, ProviderError<E>>,
    b: Result<Option<Vec<Receipt<R>>>, ProviderError<E>>,
)
    ensures
        first.spec_on_block::<B, R, E>(found) == second.spec_on_block::<B, R, E>(found),
        first.spec_on_block::<B, R, E>(found) == Step::<
            _,
            Result<Option<Vec<Receipt<R>>>, ProviderError<E>>,
        >::Continue(fetch) && block_receipts_check_is_function::<R, B, E, C>(check)
            && fetch.answers(reply, check, a) && fetch.answers(reply, check, b) ==> a == b,
{
}

/// Checks that are functions come to one verdict on one account.
pub proof fn law_account_has_one_verdict<E, P, S, C>(
    checks: AccountChecks<P, S, C>,
    address: Address,
    account: AccountResponse,
    state_root: B256,
    a: Result<(), E>,
    b: Result<(), E>,
) where
    P: Fn(&AccountProof<'_>, B256) -> Result<(), E>,
    S: Fn(&AccountProof<'_>) -> Result<(), E>,
    C: Fn(&AccountProof<'_>, &Vec<u8>) -> Result<(), E>,

    requires
        checks.is_function::<E>(),
        checks.decide(address, account, state_root, a),
        checks.decide(address, account, state_root, b),
    ensures
        a is Ok <==> b is Ok,
        a matches Err(error) ==> b == Err::<(), E>(error),
{
}

/// Leaving the code out of a reply never turns acceptance into refusal; and an account that is
/// accepted without its code is accepted with it exactly where the check of the code passes.
pub proof fn law_code_is_checked_only_where_it_came<E, P, S, C>(
    checks: AccountChecks<P, S, C>,
    address: Address,
    account: AccountResponse,
    state_root: B256,
    with_code: Result<(), E>,
    without_code: Result<(), E>,
) where
    P: Fn(&AccountProof<'_>, B256) -> Result<(), E>,
    S: Fn(&AccountProof<'_>) -> Result<(), E>,
    C: Fn(&AccountProof<'_>, &Vec<u8>) -> Result<(), E>,

    requires
        checks.is_function::<E>(),
        checks.decide(address, account, state_root, with_code),
        checks.decide(
            address,
            (AccountResponse { code: None, ..account }),
            state_root,
            without_code,
        ),
    ensures
        with_code is Ok ==> without_code is Ok,
        without_code is Ok ==> (with_code is Ok <==> (account.code matches Some(code)
            ==> call_ensures(
            checks.code_hash,
            (&AccountProof::claim(address, &account), &code),
            Ok::<(), E>(()),
        ))),
{
    let bare = AccountResponse { code: None, ..account };
    assert(AccountProof::claim(address, &bare) == AccountProof::claim(address, &account));
}

/// An account is asked for, and answered, by the block that was found and not by the name it was
/// found under: two requests for one account whose block names lead to one block ask the API one
/// question, and to one reply give one answer.
pub proof fn law_account_depends_on_the_block_found<B, E, P, S, C>(
    first: AccountBlockLookup,
    second: AccountBlockLookup,
    found: Result<Option<Block<B>>, ProviderError<E>>,
    first_next: Result<AccountFetch<B>, ProviderError<E>>,
    second_next: Result<AccountFetch<B>, ProviderError<E>>,
    reply: Result<AccountResponse, E>,
    checks: AccountChecks<P, S, C>,
    a: Result<AccountResponse, ProviderError<E>>,
    b: Result<AccountResponse, ProviderError<E>>,
) where
    P: Fn(&AccountProof<'_>, B256) -> Result<(), E>,
    S: Fn(&AccountProof<'_>) -> Result<(), E>,
    C: Fn(&AccountProof<'_>, &Vec<u8>) -> Result<(), E>,

    requires
        first.address == second.address,
        first.slots@ == second.slots@,
        first.with_code == second.with_code,
        first.leads_to(found, first_next),
        second.leads_to(found, second_next),
    ensures
        match first_next {
            Err(error) => second_next == Err::<AccountFetch<B>, _>(error),
            Ok(first_fetch) => second_next matches Ok(second_fetch) && {
                &&& first_fetch.block == second_fetch.block
                &&& first_fetch.request.address == second_fetch.request.address
                &&& first_fetch.request.slots@ == second_fetch.request.slots@
                &&& first_fetch.request.block_id == second_fetch.request.block_id
                &&& first_fetch.request.with_code == second_fetch.request.with_code
                &&& checks.is_function::<E>() && first_fetch.answers(reply, checks, a)
                    && second_fetch.answers(reply, checks, b) ==> a == b
            },
        },
{
    if let Ok(first_fetch) = first_next {
        let second_fetch = second_next->Ok_0;
        assert(first_fetch.request.slots@ =~= second_fetch.request.slots@) by {
            assert forall|i: int| 0 <= i < first.slots@.len() implies first_fetch.request.slots@[i]
                == second_fetch.request.slots@[i] by {
                assert(first_fetch.request.slots@[i].be_bytes == first.slots@[i]);
                assert(second_fetch.request.slots@[i].be_bytes == second.slots@[i]);
            }
        }
    }
}

/// An execution hint is asked for, and answered, by the block that was found and not by the name it
/// was found under.
pub proof fn law_hint_depends_on_the_block_found<Q, B, E, P, S, C>(
    first: HintBlockLookup<Q>,
    second: HintBlockLookup<Q>,
    found: Result<Option<Block<B>>, ProviderError<E>>,
    fetch: HintFetch<Q, B>,
    reply: Result<ExtendedAccessListResponse, E>,
    checks: AccountChecks<P, S, C>,
    a: Result<KeyedMap<20, AccountResponse>, ProviderError<E>>,
    b: Result<KeyedMap<20, AccountResponse>, ProviderError<E>>,
) where
    P: Fn(&AccountProof<'_>, B256) -> Result<(), E>,
    S: Fn(&AccountProof<'_>) -> Result<(), E>,
    C: Fn(&AccountProof<'_>, &Vec<u8>) -> Result<(), E>,

    requires
        first.tx == second.tx,
        first.validate == second.validate,
    ensures
        first.spec_on_block(found) == second.spec_on_block(found),
        first.spec_on_block(found) == Ok::<_, ProviderError<E>>(fetch) && checks.is_function::<E>()
            && fetch.answers(reply, checks, a) && fetch.answers(reply, checks, b) ==> a == b,
{
    if checks.is_function::<E>() && fetch.answers(reply, checks, a) && fetch.answers(
        reply,
        checks,
        b,
    ) {
        if let Ok(response) = reply {
            let accounts = response.accounts.entries();
            let root = fetch.block.state_root;
            if let Err(error) = a {
                lemma_refusal_excludes_others(checks, accounts, root, error->Outside_0);
            }
            if let Err(error) = b {
                lemma_refusal_excludes_others(checks, accounts, root, error->Outside_0);
            }
        }
    }
}

/// Where accounts are refused with one error, they are not all accepted, nor refused with another.
proof fn lemma_refusal_excludes_others<E, P, S, C>(
    checks: AccountChecks<P, S, C>,
    accounts: Seq<(Address, AccountResponse)>,
    state_root: B256,
    error: E,
) where
    P: Fn(&AccountProof<'_>, B256) -> Result<(), E>,
    S: Fn(&AccountProof<'_>) -> Result<(), E>,
    C: Fn(&AccountProof<'_>, &Vec<u8>) -> Result<(), E>,

    requires
        checks.is_function::<E>(),
        accounts_refused(checks, accounts, state_root, error),
    ensures
        !accounts_accepted::<E, P, S, C>(checks, accounts, state_root),
        forall|another: E| #[trigger]
            accounts_refused(checks, accounts, state_root, another) ==> another == error,
{
    let i = choose|i: int|
        {
            &&& 0 <= i < accounts.len()
            &&& accounts_accepted::<E, P, S, C>(checks, accounts.take(i), state_root)
            &&& checks.refuse((#[trigger] accounts[i]).0, accounts[i].1, state_root, error)
        };
    if accounts_accepted::<E, P, S, C>(checks, accounts, state_root) {
        assert(checks.accept::<E>(accounts[i].0, accounts[i].1, state_root));
    }
    assert forall|another: E| #[trigger]
        accounts_refused(checks, accounts, state_root, another) implies another == error by {
        let j = choose|j: int|
            {
                &&& 0 <= j < accounts.len()
                &&& accounts_accepted::<E, P, S, C>(checks, accounts.take(j), state_root)
                &&& checks.refuse((#[trigger] accounts[j]).0, accounts[j].1, state_root, another)
            };
        if i < j {
            assert(accounts.take(j)[i] == accounts[i]);
            assert(checks.accept::<E>(accounts[i].0, accounts[i].1, state_root));
        } else if j < i {
            assert(accounts.take(i)[j] == accounts[j]);
            assert(checks.accept::<E>(accounts[j].0, accounts[j].1, state_root));
        }
    }
}

} // verus!
