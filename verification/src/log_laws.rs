//! What the request for logs comes to: which replies are believed, why others are not, and what is
//! returned.

use vstd::prelude::*;

use crate::error::{ExecutionError, ProviderError};
use crate::get_logs::{
    collect_roots, lemma_required_blocks, named_blocks, receipt_accepted, receipt_refused,
    receipts_accepted, receipts_refused, receipts_root_of, receipts_root_request, required_blocks,
    required_blocks_error, roots_by_block, LogsFetch, RootsFetch,
};
use crate::keyed_map::KeyedMap;
use crate::laws::{
    law_blocks_asked_for, law_exact_receipt_keys, law_receipts_are_under_their_own_hash,
    law_request_goes_on_after_faultless_reply, lemma_required_transactions, some_log_names,
};
use crate::log_checks::{
    all_name_transaction, lemma_logs_held, log_tx_hash, log_verdict, logs_verdict,
    metadata_matches, receipt_holds, receipt_keys_error, required_transactions, verify_logs_held,
    verify_log_receipt_metadata, verify_receipt_proof_keys, LogVerdict,
};
use crate::primitives::{BlockId, B256};
use crate::provider::VerifiableApiExecutionProvider;
use crate::rlp::encode_log;
use crate::sequences::{first_absent, lemma_first_absent, lemma_first_occurrences};
use crate::types::{
    Block, BlockRequest, Log, LogContent, LogsResponse, Receipt, TransactionReceiptResponse,
};

verus! {

/// A log is of the transaction that it names, and of none where it names none.
pub proof fn law_log_names_its_transaction(
    log: Log,
    error_tx_hash: B256,
    hash: Result<B256, ExecutionError>,
)
    requires
        call_ensures(log_tx_hash, (&log, error_tx_hash), hash),
    ensures
        hash is Ok <==> log.transaction_hash is Some,
        hash matches Ok(tx_hash) ==> log.transaction_hash == Some(tx_hash),
        hash matches Err(error) ==> error == ExecutionError::LogReceiptMetadataMismatch(
            error_tx_hash,
        ),
{
}

/// A log and a receipt go together under a hash exactly where both are of the transaction of that
/// hash, and agree on the block and on the place in it. Otherwise the hash is what is reported.
pub proof fn law_log_goes_with_its_receipt<R>(
    log: Log,
    receipt: Receipt<R>,
    tx_hash: B256,
    verdict: Result<(), ExecutionError>,
)
    requires
        call_ensures(verify_log_receipt_metadata::<R>, (&log, &receipt, tx_hash), verdict),
    ensures
        verdict is Ok <==> {
            &&& receipt.transaction_hash == tx_hash
            &&& log.transaction_hash == Some(tx_hash)
            &&& log.block_hash == receipt.block_hash
            &&& log.transaction_index == receipt.transaction_index
        },
        verdict matches Err(error) ==> error == ExecutionError::LogReceiptMetadataMismatch(tx_hash),
{
}

/// Two logs have one encoding exactly where they say the same.
pub proof fn law_encoding_tells_logs_apart(
    one: LogContent,
    other: LogContent,
    one_encoded: Vec<u8>,
    other_encoded: Vec<u8>,
)
    requires
        call_ensures(encode_log, (&one,), one_encoded),
        call_ensures(encode_log, (&other,), other_encoded),
    ensures
        one_encoded@ == other_encoded@ <==> {
            &&& one.address == other.address
            &&& one.topics@ == other.topics@
            &&& one.data@ == other.data@
        },
{
    if one.address == other.address && one.topics@ == other.topics@ && one.data@ == other.data@ {
        assert(one@ == other@);
    }
}

/// Receipts fit logs exactly where each log names a transaction, and the transactions that have a
/// receipt are those that some log names. The transactions are then given back, each once. If not,
/// what is reported is that a log names no transaction, or else a transaction that a log names and
/// that has no receipt, or else a receipt of a transaction that no log names.
pub proof fn law_receipt_keys_fit<T>(
    logs: Vec<Log>,
    receipt_proofs: KeyedMap<32, T>,
    required: Result<Vec<B256>, ExecutionError>,
)
    requires
        call_ensures(verify_receipt_proof_keys::<T>, (&logs, &receipt_proofs), required),
    ensures
        required is Ok <==> {
            &&& forall|i: int|
                0 <= i < logs@.len() ==> (#[trigger] logs@[i]).transaction_hash is Some
            &&& forall|tx_hash: B256| #[trigger]
                receipt_proofs@.contains_key(tx_hash) <==> exists|i: int|
                    0 <= i < logs@.len() && (#[trigger] logs@[i]).transaction_hash == Some(tx_hash)
        },
        required matches Ok(hashes) ==> {
            &&& hashes@.no_duplicates()
            &&& forall|tx_hash: B256| #[trigger]
                hashes@.contains(tx_hash) <==> exists|i: int|
                    0 <= i < logs@.len() && (#[trigger] logs@[i]).transaction_hash == Some(tx_hash)
        },
        required matches Err(error) ==> if exists|i: int|
            0 <= i < logs@.len() && (#[trigger] logs@[i]).transaction_hash is None {
            error matches ExecutionError::LogReceiptMetadataMismatch(tx_hash) && forall|k: int|
                0 <= k < 32 ==> #[trigger] tx_hash.0@[k] == 0
        } else if exists|i: int|
            0 <= i < logs@.len() && !receipt_proofs@.contains_key(
                (#[trigger] logs@[i]).transaction_hash->0,
            ) {
            error matches ExecutionError::NoReceiptForTransaction(tx_hash) && {
                &&& !receipt_proofs@.contains_key(tx_hash)
                &&& exists|i: int|
                    0 <= i < logs@.len() && (#[trigger] logs@[i]).transaction_hash == Some(tx_hash)
            }
        } else {
            error matches ExecutionError::LogReceiptMetadataMismatch(tx_hash) && {
                &&& receipt_proofs@.contains_key(tx_hash)
                &&& !exists|i: int|
                    0 <= i < logs@.len() && (#[trigger] logs@[i]).transaction_hash == Some(tx_hash)
            }
        },
{
    let keys = receipt_proofs.keys();
    law_exact_receipt_keys(logs@, keys);
    assert forall|tx_hash: B256|
        #![trigger receipt_proofs@.contains_key(tx_hash)]
        #![trigger keys.contains(tx_hash)]
        receipt_proofs@.contains_key(tx_hash) <==> keys.contains(tx_hash) by {
        receipt_proofs.lemma_keys(tx_hash);
    }
    if forall|tx_hash: B256| #[trigger]
        receipt_proofs@.contains_key(tx_hash) <==> exists|i: int|
            0 <= i < logs@.len() && (#[trigger] logs@[i]).transaction_hash == Some(tx_hash) {
        assert forall|tx_hash: B256| #[trigger] keys.contains(tx_hash) <==> some_log_names(
            logs@,
            tx_hash,
        ) by {
            assert(receipt_proofs@.contains_key(tx_hash) <==> keys.contains(tx_hash));
        }
    }
    if all_name_transaction(logs@) {
        let hashes = required_transactions(logs@);
        lemma_required_transactions(logs@);
        lemma_first_absent(hashes, keys);
        lemma_first_absent(keys, hashes);
        assert forall|i: int| 0 <= i < logs@.len() implies hashes.contains(
            (#[trigger] logs@[i]).transaction_hash->0,
        ) by {
            assert(logs@[i].transaction_hash == Some(logs@[i].transaction_hash->0));
            assert(some_log_names(logs@, logs@[i].transaction_hash->0));
        }
        match first_absent(hashes, keys) {
            Some(missing) => {
                assert(hashes.contains(missing));
                assert(some_log_names(logs@, missing));
                let i = choose|i: int|
                    0 <= i < logs@.len() && (#[trigger] logs@[i]).transaction_hash == Some(missing);
                assert(!receipt_proofs@.contains_key(logs@[i].transaction_hash->0));
            },
            None => {
                assert forall|i: int| 0 <= i < logs@.len() implies receipt_proofs@.contains_key(
                    (#[trigger] logs@[i]).transaction_hash->0,
                ) by {
                    assert(hashes.contains(logs@[i].transaction_hash->0));
                    assert(keys.contains(logs@[i].transaction_hash->0));
                }
                if let Some(unexpected) = first_absent(keys, hashes) {
                    assert(keys.contains(unexpected));
                    assert(!hashes.contains(unexpected));
                    assert(!some_log_names(logs@, unexpected));
                }
            },
        }
    }
}

/// The log names a transaction that has a receipt, and that receipt is of that transaction, places
/// it where the log does, and holds a log that says the same.
pub open spec fn stands_in_its_receipt<R>(
    log: Log,
    receipt_proofs: Map<B256, TransactionReceiptResponse<R>>,
) -> bool {
    log.transaction_hash matches Some(tx_hash) && {
        let receipt = receipt_proofs[tx_hash].receipt;
        &&& receipt_proofs.contains_key(tx_hash)
        &&& receipt.transaction_hash == tx_hash
        &&& receipt.block_hash == log.block_hash
        &&& receipt.transaction_index == log.transaction_index
        &&& exists|j: int|
            0 <= j < receipt.logs@.len() && (#[trigger] receipt.logs@[j]).inner.address
                == log.inner.address && receipt.logs@[j].inner.topics@ == log.inner.topics@
                && receipt.logs@[j].inner.data@ == log.inner.data@
    }
}

/// A log is held exactly where it stands in its receipt.
proof fn lemma_held<R>(log: Log, receipt_proofs: Map<B256, TransactionReceiptResponse<R>>)
    ensures
        log_verdict(log, receipt_proofs) == LogVerdict::Held <==> stands_in_its_receipt(
            log,
            receipt_proofs,
        ),
{
    if let Some(tx_hash) = log.transaction_hash {
        let receipt = receipt_proofs[tx_hash].receipt;
        if receipt_holds(receipt, log.inner@) {
            let j = choose|j: int|
                0 <= j < receipt.logs@.len() && (#[trigger] receipt.logs@[j]).inner@ == log.inner@;
            assert(receipt.logs@[j].inner@.address == log.inner@.address);
            assert(receipt.logs@[j].inner@.topics == log.inner@.topics);
            assert(receipt.logs@[j].inner@.data == log.inner@.data);
        }
        if stands_in_its_receipt(log, receipt_proofs) {
            let j = choose|j: int|
                0 <= j < receipt.logs@.len() && (#[trigger] receipt.logs@[j]).inner.address
                    == log.inner.address && receipt.logs@[j].inner.topics@ == log.inner.topics@
                    && receipt.logs@[j].inner.data@ == log.inner.data@;
            assert(receipt.logs@[j].inner@ == log.inner@);
        }
    }
}

/// The verdict on logs that are not all held is that on the first of them that is not.
proof fn lemma_first_not_held<R>(
    logs: Seq<Log>,
    receipt_proofs: Map<B256, TransactionReceiptResponse<R>>,
) -> (i: int)
    requires
        logs_verdict(logs, receipt_proofs) != LogVerdict::Held,
    ensures
        0 <= i < logs.len(),
        log_verdict(logs[i], receipt_proofs) == logs_verdict(logs, receipt_proofs),
        !stands_in_its_receipt(logs[i], receipt_proofs),
        forall|k: int|
            0 <= k < i ==> stands_in_its_receipt(#[trigger] logs[k], receipt_proofs),
    decreases logs.len(),
{
    lemma_held(logs[0], receipt_proofs);
    if log_verdict(logs[0], receipt_proofs) != LogVerdict::Held {
        0
    } else {
        let rest = logs.drop_first();
        let i = lemma_first_not_held(rest, receipt_proofs);
        assert(rest[i] == logs[i + 1]);
        assert forall|k: int| 0 <= k < i + 1 implies stands_in_its_receipt(
            #[trigger] logs[k],
            receipt_proofs,
        ) by {
            if k > 0 {
                assert(logs[k] == rest[k - 1]);
            }
        }
        i + 1
    }
}

/// Logs are held exactly where each of them names a transaction that has a receipt, and that
/// receipt is of that transaction, places it where the log does, and holds a log of the same
/// emitter, topics and data.
pub proof fn law_logs_are_held<R>(
    logs: Vec<Log>,
    receipt_proofs: KeyedMap<32, TransactionReceiptResponse<R>>,
    verdict: LogVerdict,
)
    requires
        call_ensures(verify_logs_held::<R>, (&logs, &receipt_proofs), verdict),
    ensures
        verdict == LogVerdict::Held <==> forall|i: int|
            0 <= i < logs@.len() ==> ((#[trigger] logs@[i]).transaction_hash matches Some(tx_hash)
                && {
                let receipt = receipt_proofs@[tx_hash].receipt;
                &&& receipt_proofs@.contains_key(tx_hash)
                &&& receipt.transaction_hash == tx_hash
                &&& receipt.block_hash == logs@[i].block_hash
                &&& receipt.transaction_index == logs@[i].transaction_index
                &&& exists|j: int|
                    0 <= j < receipt.logs@.len() && (#[trigger] receipt.logs@[j]).inner.address
                        == logs@[i].inner.address && receipt.logs@[j].inner.topics@
                        == logs@[i].inner.topics@ && receipt.logs@[j].inner.data@
                        == logs@[i].inner.data@
            }),
{
    lemma_logs_held(logs@, receipt_proofs@);
    assert forall|i: int| 0 <= i < logs@.len() implies (log_verdict(
        #[trigger] logs@[i],
        receipt_proofs@,
    ) == LogVerdict::Held <==> stands_in_its_receipt(logs@[i], receipt_proofs@)) by {
        lemma_held(logs@[i], receipt_proofs@);
    }
    if forall|i: int|
        0 <= i < logs@.len() ==> stands_in_its_receipt(#[trigger] logs@[i], receipt_proofs@) {
        assert forall|i: int| 0 <= i < logs@.len() implies #[trigger] log_verdict(
            logs@[i],
            receipt_proofs@,
        ) == LogVerdict::Held by {
            assert(stands_in_its_receipt(logs@[i], receipt_proofs@));
        }
    }
}

/// Where logs are not held, the first that does not stand in its receipt is why. It names no
/// transaction, or one without receipt, or the receipt is of another transaction or places it
/// elsewhere, or the receipt lacks the log, which is then reported by its index if it carries one.
pub proof fn law_first_log_not_held_is_reported<R>(
    logs: Vec<Log>,
    receipt_proofs: KeyedMap<32, TransactionReceiptResponse<R>>,
    verdict: LogVerdict,
) -> (i: int)
    requires
        call_ensures(verify_logs_held::<R>, (&logs, &receipt_proofs), verdict),
        verdict != LogVerdict::Held,
    ensures
        0 <= i < logs@.len(),
        forall|k: int|
            0 <= k < i ==> stands_in_its_receipt(#[trigger] logs@[k], receipt_proofs@),
        match logs@[i].transaction_hash {
            None => verdict matches LogVerdict::Refused(
                ExecutionError::LogReceiptMetadataMismatch(zero),
            ) && forall|k: int| 0 <= k < 32 ==> #[trigger] zero.0@[k] == 0,
            Some(tx_hash) => {
                let receipt = receipt_proofs@[tx_hash].receipt;
                if !receipt_proofs@.contains_key(tx_hash) {
                    verdict == LogVerdict::Refused(ExecutionError::NoReceiptForTransaction(tx_hash))
                } else if receipt.transaction_hash != tx_hash || receipt.block_hash
                    != logs@[i].block_hash || receipt.transaction_index
                    != logs@[i].transaction_index {
                    verdict == LogVerdict::Refused(
                        ExecutionError::LogReceiptMetadataMismatch(tx_hash),
                    )
                } else {
                    &&& forall|j: int|
                        0 <= j < receipt.logs@.len() ==> !((
                        #[trigger] receipt.logs@[j]).inner.address == logs@[i].inner.address
                            && receipt.logs@[j].inner.topics@ == logs@[i].inner.topics@
                            && receipt.logs@[j].inner.data@ == logs@[i].inner.data@)
                    &&& logs@[i].log_index matches Some(index) ==> verdict == LogVerdict::Refused(
                        ExecutionError::MissingLog(tx_hash, index),
                    )
                    &&& logs@[i].log_index is None ==> verdict == LogVerdict::MissingWithoutIndex
                }
            },
        },
{
    lemma_first_not_held(logs@, receipt_proofs@)
}

/// The blocks that hold transactions are those that their receipts name, each once; and they can be
/// given exactly where each transaction has a receipt that names one. If not, a transaction for
/// which it fails is reported: it has no receipt, or the receipt names no block.
pub proof fn law_required_blocks<R>(
    tx_hashes: Vec<B256>,
    receipt_proofs: KeyedMap<32, TransactionReceiptResponse<R>>,
    blocks: Result<Vec<B256>, ExecutionError>,
)
    requires
        call_ensures(required_blocks::<R>, (&tx_hashes, &receipt_proofs), blocks),
    ensures
        blocks is Ok <==> forall|i: int|
            0 <= i < tx_hashes@.len() ==> receipt_proofs@.contains_key(#[trigger] tx_hashes@[i])
                && receipt_proofs@[tx_hashes@[i]].receipt.block_hash is Some,
        blocks matches Ok(hashes) ==> {
            &&& hashes@.no_duplicates()
            &&& forall|block_hash: B256| #[trigger]
                hashes@.contains(block_hash) <==> exists|i: int|
                    0 <= i < tx_hashes@.len()
                        && receipt_proofs@[#[trigger] tx_hashes@[i]].receipt.block_hash == Some(
                        block_hash,
                    )
        },
        blocks matches Err(error) ==> exists|i: int|
            0 <= i < tx_hashes@.len() && {
                ||| !receipt_proofs@.contains_key(#[trigger] tx_hashes@[i]) && error
                    == ExecutionError::NoReceiptForTransaction(tx_hashes@[i])
                ||| receipt_proofs@.contains_key(tx_hashes@[i])
                    && receipt_proofs@[tx_hashes@[i]].receipt.block_hash is None && error
                    == ExecutionError::LogReceiptMetadataMismatch(tx_hashes@[i])
            },
{
    lemma_required_blocks(tx_hashes@, receipt_proofs@);
    match blocks {
        Ok(_) => {
            let named = named_blocks(tx_hashes@, receipt_proofs@);
            lemma_first_occurrences(named);
            assert forall|block_hash: B256| #[trigger]
                named.contains(block_hash) <==> exists|i: int|
                0 <= i < tx_hashes@.len()
                    && receipt_proofs@[#[trigger] tx_hashes@[i]].receipt.block_hash == Some(
                    block_hash,
                ) by {
                if named.contains(block_hash) {
                    let i = choose|i: int| 0 <= i < named.len() && named[i] == block_hash;
                    assert(receipt_proofs@[tx_hashes@[i]].receipt.block_hash == Some(block_hash));
                }
                if exists|i: int|
                    0 <= i < tx_hashes@.len()
                        && receipt_proofs@[#[trigger] tx_hashes@[i]].receipt.block_hash == Some(
                        block_hash,
                    ) {
                    let i = choose|i: int|
                        0 <= i < tx_hashes@.len()
                            && receipt_proofs@[#[trigger] tx_hashes@[i]].receipt.block_hash == Some(
                            block_hash,
                        );
                    assert(named[i] == block_hash);
                }
            }
        },
        Err(_) => {
            let i = lemma_first_without_block(tx_hashes@, receipt_proofs@);
            assert(tx_hashes@[i] == tx_hashes@[i]);
        },
    }
}

/// Some transaction is why the blocks cannot all be named.
proof fn lemma_first_without_block<R>(
    tx_hashes: Seq<B256>,
    receipt_proofs: Map<B256, TransactionReceiptResponse<R>>,
) -> (i: int)
    requires
        required_blocks_error(tx_hashes, receipt_proofs) is Some,
    ensures
        0 <= i < tx_hashes.len(),
        required_blocks_error(tx_hashes, receipt_proofs) == if !receipt_proofs.contains_key(
            tx_hashes[i],
        ) {
            Some(ExecutionError::NoReceiptForTransaction(tx_hashes[i]))
        } else {
            Some(ExecutionError::LogReceiptMetadataMismatch(tx_hashes[i]))
        },
        receipt_proofs.contains_key(tx_hashes[i])
            ==> receipt_proofs[tx_hashes[i]].receipt.block_hash is None,
    decreases tx_hashes.len(),
{
    if !receipt_proofs.contains_key(tx_hashes[0])
        || receipt_proofs[tx_hashes[0]].receipt.block_hash is None {
        0
    } else {
        let i = lemma_first_without_block(tx_hashes.drop_first(), receipt_proofs);
        i + 1
    }
}

/// The request for logs hands the API the caller's filter. It goes on exactly after a reply in
/// which each log stands in the receipt of the transaction that it names, each receipt is under a
/// hash that some log names, and each receipt names a block. The logs, the receipts and the filter
/// then go on unchanged, and the blocks to look up are those that the receipts name, each once.
pub proof fn law_logs_request_goes_on<A, P, H, F, R, E>(
    provider: VerifiableApiExecutionProvider<A, P, H>,
    filter: F,
    request: LogsFetch<F>,
    response: LogsResponse<R>,
    next: Result<RootsFetch<F, R>, ProviderError<E>>,
)
    requires
        call_ensures(
            VerifiableApiExecutionProvider::<A, P, H>::get_logs::<F>,
            (&provider, filter),
            request,
        ),
        call_ensures(LogsFetch::<F>::on_logs::<R, E>, (request, Ok::<_, E>(response)), next)
            || call_ensures(
            LogsFetch::<F>::try_on_logs::<R, E>,
            (request, Ok::<_, E>(response)),
            Some(next),
        ),
    ensures
        request.filter == filter,
        next is Ok <==> {
            &&& forall|i: int|
                0 <= i < response.logs@.len() ==> ((
                #[trigger] response.logs@[i]).transaction_hash matches Some(tx_hash) && {
                    let receipt = response.receipt_proofs@[tx_hash].receipt;
                    &&& response.receipt_proofs@.contains_key(tx_hash)
                    &&& receipt.transaction_hash == tx_hash
                    &&& receipt.block_hash == response.logs@[i].block_hash
                    &&& receipt.transaction_index == response.logs@[i].transaction_index
                    &&& exists|j: int|
                        0 <= j < receipt.logs@.len() && (#[trigger] receipt.logs@[j]).inner.address
                            == response.logs@[i].inner.address && receipt.logs@[j].inner.topics@
                            == response.logs@[i].inner.topics@ && receipt.logs@[j].inner.data@
                            == response.logs@[i].inner.data@
                })
            &&& forall|tx_hash: B256| #[trigger]
                response.receipt_proofs@.contains_key(tx_hash) ==> {
                    &&& response.receipt_proofs@[tx_hash].receipt.block_hash is Some
                    &&& exists|i: int|
                        0 <= i < response.logs@.len() && (
                        #[trigger] response.logs@[i]).transaction_hash == Some(tx_hash)
                }
        },
        next matches Ok(fetch) ==> {
            &&& fetch.filter == filter
            &&& fetch.logs == response.logs
            &&& fetch.receipt_proofs == response.receipt_proofs
            &&& fetch.blocks_required@.no_duplicates()
            &&& forall|block_hash: B256| #[trigger]
                fetch.blocks_required@.contains(block_hash) <==> exists|tx_hash: B256| #[trigger]
                    response.receipt_proofs@.contains_key(tx_hash)
                        && response.receipt_proofs@[tx_hash].receipt.block_hash == Some(block_hash)
        },
        next matches Err(error) ==> error is Execution,
{
    let logs = response.logs@;
    let proofs = response.receipt_proofs@;
    law_request_goes_on_after_faultless_reply(request, response, next);
    lemma_faultless(response);
    if response.faultless() {
        law_blocks_asked_for(response);
        assert forall|i: int| 0 <= i < logs.len() implies stands_in_its_receipt(
            #[trigger] logs[i],
            proofs,
        ) by {
        }
    }
    if forall|i: int|
        0 <= i < logs.len() ==> ((#[trigger] logs[i]).transaction_hash matches Some(tx_hash) && {
            let receipt = proofs[tx_hash].receipt;
            &&& proofs.contains_key(tx_hash)
            &&& receipt.transaction_hash == tx_hash
            &&& receipt.block_hash == logs[i].block_hash
            &&& receipt.transaction_index == logs[i].transaction_index
            &&& exists|j: int|
                0 <= j < receipt.logs@.len() && (#[trigger] receipt.logs@[j]).inner.address
                    == logs[i].inner.address && receipt.logs@[j].inner.topics@
                    == logs[i].inner.topics@ && receipt.logs@[j].inner.data@ == logs[i].inner.data@
        }) {
        assert forall|i: int| 0 <= i < logs.len() implies stands_in_its_receipt(
            #[trigger] logs[i],
            proofs,
        ) by {
        }
    }
}

/// A reply is faultless exactly where each log stands in its receipt, and each receipt is under a
/// hash that some log names and names a block.
proof fn lemma_faultless<R>(response: LogsResponse<R>)
    ensures
        response.faultless() <==> {
            &&& forall|i: int|
                0 <= i < response.logs@.len() ==> stands_in_its_receipt(
                    #[trigger] response.logs@[i],
                    response.receipt_proofs@,
                )
            &&& forall|tx_hash: B256| #[trigger]
                response.receipt_proofs@.contains_key(tx_hash) ==> {
                    &&& response.receipt_proofs@[tx_hash].receipt.block_hash is Some
                    &&& some_log_names(response.logs@, tx_hash)
                }
        },
{
    let logs = response.logs@;
    let proofs = response.receipt_proofs@;
    let keys = response.receipt_proofs.keys();
    assert forall|tx_hash: B256|
        #![trigger proofs.contains_key(tx_hash)]
        #![trigger keys.contains(tx_hash)]
        proofs.contains_key(tx_hash) <==> keys.contains(tx_hash) by {
        response.receipt_proofs.lemma_keys(tx_hash);
    }
    lemma_logs_held(logs, proofs);
    assert forall|i: int| 0 <= i < logs.len() implies (log_verdict(#[trigger] logs[i], proofs)
        == LogVerdict::Held <==> stands_in_its_receipt(logs[i], proofs)) by {
        lemma_held(logs[i], proofs);
    }
    law_exact_receipt_keys(logs, keys);
    if response.faultless() {
        assert forall|i: int| 0 <= i < logs.len() implies stands_in_its_receipt(
            #[trigger] logs[i],
            proofs,
        ) by {
            assert(log_verdict(logs[i], proofs) == LogVerdict::Held);
        }
        assert forall|tx_hash: B256| #[trigger] proofs.contains_key(tx_hash) implies {
            &&& proofs[tx_hash].receipt.block_hash is Some
            &&& some_log_names(logs, tx_hash)
        } by {
            law_receipts_are_under_their_own_hash(response, tx_hash);
        }
    }
    if (forall|i: int| 0 <= i < logs.len() ==> stands_in_its_receipt(#[trigger] logs[i], proofs))
        && (forall|tx_hash: B256| #[trigger]
        proofs.contains_key(tx_hash) ==> {
            &&& proofs[tx_hash].receipt.block_hash is Some
            &&& some_log_names(logs, tx_hash)
        }) {
        assert forall|i: int| 0 <= i < logs.len() implies #[trigger] log_verdict(logs[i], proofs)
            == LogVerdict::Held by {
            assert(stands_in_its_receipt(logs[i], proofs));
        }
        assert(all_name_transaction(logs)) by {
            assert forall|i: int| 0 <= i < logs.len() implies (
            #[trigger] logs[i]).transaction_hash is Some by {
                assert(stands_in_its_receipt(logs[i], proofs));
            }
        }
        assert forall|tx_hash: B256| #[trigger] keys.contains(tx_hash) <==> some_log_names(
            logs,
            tx_hash,
        ) by {
            assert(proofs.contains_key(tx_hash) <==> keys.contains(tx_hash));
            if some_log_names(logs, tx_hash) {
                let i = choose|i: int|
                    0 <= i < logs.len() && (#[trigger] logs[i]).transaction_hash == Some(tx_hash);
                assert(stands_in_its_receipt(logs[i], proofs));
            }
        }
        let required = required_transactions(logs);
        lemma_required_transactions(logs);
        lemma_required_blocks(required, proofs);
        assert forall|i: int| 0 <= i < required.len() implies proofs.contains_key(
            #[trigger] required[i],
        ) && proofs[required[i]].receipt.block_hash is Some by {
            assert(required.contains(required[i]));
            assert(keys.contains(required[i]));
        }
    }
}

/// The API's failure is the failure of the request for logs.
pub proof fn law_logs_request_fails_with_the_api<F, R, E>(
    request: LogsFetch<F>,
    error: E,
    next: Option<Result<RootsFetch<F, R>, ProviderError<E>>>,
)
    requires
        (next matches Some(result) && call_ensures(
            LogsFetch::<F>::on_logs::<R, E>,
            (request, Err::<LogsResponse<R>, E>(error)),
            result,
        )) || call_ensures(
            LogsFetch::<F>::try_on_logs::<R, E>,
            (request, Err::<LogsResponse<R>, E>(error)),
            next,
        ),
    ensures
        next == Some(Err::<RootsFetch<F, R>, _>(ProviderError::Outside(error))),
{
}

/// Every log names a transaction, and the transactions that have a receipt are those that some log
/// names.
pub open spec fn receipts_are_those_of<R>(
    logs: Seq<Log>,
    receipt_proofs: Map<B256, TransactionReceiptResponse<R>>,
) -> bool {
    &&& forall|i: int| 0 <= i < logs.len() ==> (#[trigger] logs[i]).transaction_hash is Some
    &&& forall|tx_hash: B256| #[trigger]
        receipt_proofs.contains_key(tx_hash) <==> exists|i: int|
            0 <= i < logs.len() && (#[trigger] logs[i]).transaction_hash == Some(tx_hash)
}

/// The receipt is of the transaction, and places it where the log does.
pub open spec fn places_alike<R>(log: Log, receipt: Receipt<R>, tx_hash: B256) -> bool {
    &&& receipt.transaction_hash == tx_hash
    &&& receipt.block_hash == log.block_hash
    &&& receipt.transaction_index == log.transaction_index
}

/// A reply of logs is refused only for cause, and the error says which. A transaction is said to
/// have no receipt if a log names it and it has none. A log is said to be missing if it is the
/// first that does not stand in its receipt, and the receipt goes with it but lacks it. A mismatch
/// is said of no transaction if some log names none; of one that has a receipt and that no log
/// names; of the first log that does not stand in its receipt, because the receipt does not go with
/// it; or, if all is well so far, of a receipt that names no block.
pub proof fn law_logs_are_refused_for_cause<F, R, E>(
    request: LogsFetch<F>,
    response: LogsResponse<R>,
    fault: ExecutionError,
)
    requires
        call_ensures(
            LogsFetch::<F>::on_logs::<R, E>,
            (request, Ok::<_, E>(response)),
            Err(ProviderError::Execution(fault)),
        ) || call_ensures(
            LogsFetch::<F>::try_on_logs::<R, E>,
            (request, Ok::<_, E>(response)),
            Some(Err(ProviderError::Execution(fault))),
        ),
    ensures
        ({
            let logs = response.logs@;
            let proofs = response.receipt_proofs@;
            match fault {
                ExecutionError::NoReceiptsForBlock(_) => false,
                ExecutionError::NoReceiptForTransaction(tx_hash) => {
                    &&& forall|i: int|
                        0 <= i < logs.len() ==> (#[trigger] logs[i]).transaction_hash is Some
                    &&& some_log_names(logs, tx_hash)
                    &&& !proofs.contains_key(tx_hash)
                },
                ExecutionError::MissingLog(tx_hash, index) => {
                    &&& receipts_are_those_of(logs, proofs)
                    &&& exists|i: int|
                        {
                            &&& 0 <= i < logs.len()
                            &&& (#[trigger] logs[i]).transaction_hash == Some(tx_hash)
                            &&& logs[i].log_index == Some(index)
                            &&& places_alike(logs[i], proofs[tx_hash].receipt, tx_hash)
                            &&& !stands_in_its_receipt(logs[i], proofs)
                            &&& forall|k: int|
                                0 <= k < i ==> stands_in_its_receipt(#[trigger] logs[k], proofs)
                        }
                },
                ExecutionError::LogReceiptMetadataMismatch(tx_hash) => {
                    ||| {
                        &&& exists|i: int|
                            0 <= i < logs.len() && (#[trigger] logs[i]).transaction_hash is None
                        &&& forall|k: int| 0 <= k < 32 ==> #[trigger] tx_hash.0@[k] == 0
                    }
                    ||| {
                        &&& forall|i: int|
                            0 <= i < logs.len() ==> ((
                            #[trigger] logs[i]).transaction_hash matches Some(named)
                                && proofs.contains_key(named))
                        &&& proofs.contains_key(tx_hash)
                        &&& !some_log_names(logs, tx_hash)
                    }
                    ||| {
                        &&& receipts_are_those_of(logs, proofs)
                        &&& exists|i: int|
                            {
                                &&& 0 <= i < logs.len()
                                &&& (#[trigger] logs[i]).transaction_hash == Some(tx_hash)
                                &&& !places_alike(logs[i], proofs[tx_hash].receipt, tx_hash)
                                &&& forall|k: int|
                                    0 <= k < i ==> stands_in_its_receipt(#[trigger] logs[k], proofs)
                            }
                    }
                    ||| {
                        &&& receipts_are_those_of(logs, proofs)
                        &&& forall|i: int|
                            0 <= i < logs.len() ==> stands_in_its_receipt(
                                #[trigger] logs[i],
                                proofs,
                            )
                        &&& proofs.contains_key(tx_hash)
                        &&& proofs[tx_hash].receipt.block_hash is None
                    }
                },
            }
        }),
{
    let logs = response.logs@;
    let proofs = response.receipt_proofs@;
    let keys = response.receipt_proofs.keys();
    assert(response.fault() == Some(fault));
    lemma_receipts_are_those_of(response);
    if let Some(_) = receipt_keys_error(logs, keys) {
        if all_name_transaction(logs) {
            let required = required_transactions(logs);
            lemma_required_transactions(logs);
            lemma_first_absent(required, keys);
            lemma_first_absent(keys, required);
            match first_absent(required, keys) {
                Some(missing) => {
                    assert(required.contains(missing));
                    response.receipt_proofs.lemma_keys(missing);
                },
                None => {
                    let unexpected = first_absent(keys, required)->0;
                    assert(keys.contains(unexpected));
                    response.receipt_proofs.lemma_keys(unexpected);
                    assert(!required.contains(unexpected));
                    assert forall|i: int| 0 <= i < logs.len() implies ((
                    #[trigger] logs[i]).transaction_hash matches Some(named)
                        && proofs.contains_key(named)) by {
                        let named = logs[i].transaction_hash->0;
                        assert(logs[i].transaction_hash == Some(named));
                        assert(some_log_names(logs, named));
                        assert(required.contains(named));
                        response.receipt_proofs.lemma_keys(named);
                    }
                },
            }
        }
    } else if logs_verdict(logs, proofs) != LogVerdict::Held {
        let i = lemma_first_not_held(logs, proofs);
        assert(logs[i].transaction_hash is Some);
        let tx_hash = logs[i].transaction_hash->0;
        assert(logs[i].transaction_hash == Some(tx_hash));
        assert(proofs.contains_key(tx_hash));
        assert(metadata_matches(logs[i], proofs[tx_hash].receipt, tx_hash) == places_alike(
            logs[i],
            proofs[tx_hash].receipt,
            tx_hash,
        ));
    } else {
        lemma_logs_held(logs, proofs);
        assert forall|i: int| 0 <= i < logs.len() implies stands_in_its_receipt(
            #[trigger] logs[i],
            proofs,
        ) by {
            assert(log_verdict(logs[i], proofs) == LogVerdict::Held);
            lemma_held(logs[i], proofs);
        }
        let required = required_transactions(logs);
        lemma_required_transactions(logs);
        let i = lemma_first_without_block(required, proofs);
        assert(required.contains(required[i]));
    }
}

/// The keys of the receipts fit exactly where the receipts are those of the logs.
proof fn lemma_receipts_are_those_of<R>(response: LogsResponse<R>)
    ensures
        receipt_keys_error(response.logs@, response.receipt_proofs.keys()) is None
            <==> receipts_are_those_of(response.logs@, response.receipt_proofs@),
{
    let logs = response.logs@;
    let proofs = response.receipt_proofs@;
    let keys = response.receipt_proofs.keys();
    law_exact_receipt_keys(logs, keys);
    assert forall|tx_hash: B256|
        #![trigger proofs.contains_key(tx_hash)]
        #![trigger keys.contains(tx_hash)]
        proofs.contains_key(tx_hash) <==> keys.contains(tx_hash) by {
        response.receipt_proofs.lemma_keys(tx_hash);
    }
    if receipts_are_those_of(logs, proofs) {
        assert forall|tx_hash: B256| #[trigger] keys.contains(tx_hash) <==> some_log_names(
            logs,
            tx_hash,
        ) by {
            assert(proofs.contains_key(tx_hash) <==> keys.contains(tx_hash));
        }
    }
}

/// A reply leads nowhere, and is told apart beforehand, exactly where its receipts are those of its
/// logs, and the first log that does not stand in its receipt goes with it, and carries no index.
pub proof fn law_missing_log_without_index<F, R, E>(
    request: LogsFetch<F>,
    response: LogsResponse<R>,
    misses: bool,
    outcome: Option<Result<RootsFetch<F, R>, ProviderError<E>>>,
)
    requires
        call_ensures(LogsResponse::<R>::misses_log_without_index, (&response,), misses),
        call_ensures(
            LogsFetch::<F>::try_on_logs::<R, E>,
            (request, Ok::<_, E>(response)),
            outcome,
        ),
    ensures
        misses <==> outcome is None,
        misses <==> {
            let logs = response.logs@;
            let proofs = response.receipt_proofs@;
            &&& receipts_are_those_of(logs, proofs)
            &&& exists|i: int|
                {
                    &&& 0 <= i < logs.len()
                    &&& !stands_in_its_receipt(#[trigger] logs[i], proofs)
                    &&& places_alike(
                        logs[i],
                        proofs[logs[i].transaction_hash->0].receipt,
                        logs[i].transaction_hash->0,
                    )
                    &&& logs[i].log_index is None
                    &&& forall|k: int|
                        0 <= k < i ==> stands_in_its_receipt(#[trigger] logs[k], proofs)
                }
        },
{
    let logs = response.logs@;
    let proofs = response.receipt_proofs@;
    lemma_receipts_are_those_of(response);
    lemma_logs_held(logs, proofs);
    if logs_verdict(logs, proofs) != LogVerdict::Held {
        let first = lemma_first_not_held(logs, proofs);
        lemma_held(logs[first], proofs);
        if receipts_are_those_of(logs, proofs) {
            let tx_hash = logs[first].transaction_hash->0;
            assert(logs[first].transaction_hash == Some(tx_hash));
            assert(proofs.contains_key(tx_hash));
            assert forall|i: int|
                0 <= i < logs.len() && !stands_in_its_receipt(#[trigger] logs[i], proofs) && (
                forall|k: int|
                    0 <= k < i ==> stands_in_its_receipt(#[trigger] logs[k], proofs)) implies i
                == first by {
                if i < first {
                    assert(stands_in_its_receipt(logs[i], proofs));
                }
                if first < i {
                    assert(stands_in_its_receipt(logs[first], proofs));
                }
            }
        }
    } else {
        assert forall|i: int| 0 <= i < logs.len() implies stands_in_its_receipt(
            #[trigger] logs[i],
            proofs,
        ) by {
            assert(log_verdict(logs[i], proofs) == LogVerdict::Held);
            lemma_held(logs[i], proofs);
        }
    }
}

/// The receipts root of a block that receipts name is looked up by the hash of the block, and is
/// that of the block that was found. A block that is not found is the reason to fail.
pub proof fn law_receipts_root_of_a_block<B, E>(
    block_hash: B256,
    request: BlockRequest,
    found: Result<Option<Block<B>>, ProviderError<E>>,
    root: Result<(B256, B256), ProviderError<E>>,
)
    requires
        call_ensures(receipts_root_request, (block_hash,), request),
        call_ensures(receipts_root_of::<B, E>, (block_hash, found), root),
    ensures
        request.block_id == (BlockId::Hash { block_hash, require_canonical: None }),
        !request.full_tx,
        found matches Ok(Some(block)) ==> root == Ok::<_, ProviderError<E>>(
            (block_hash, block.receipts_root),
        ),
        found matches Ok(None) ==> root == Err::<(B256, B256), _>(
            ProviderError::<E>::BlockNotFound,
        ),
        found matches Err(error) ==> root == Err::<(B256, B256), _>(error),
{
}

/// A block has a root exactly where one is given for it, and then the last that is given.
pub proof fn law_roots_are_collected(roots: Vec<(B256, B256)>, by_block: KeyedMap<32, B256>)
    requires
        call_ensures(collect_roots, (&roots,), by_block),
    ensures
        forall|block_hash: B256| #[trigger]
            by_block@.contains_key(block_hash) <==> exists|j: int|
                0 <= j < roots@.len() && (#[trigger] roots@[j]).0 == block_hash,
        forall|j: int|
            0 <= j < roots@.len() && (forall|k: int|
                j < k < roots@.len() ==> (#[trigger] roots@[k]).0 != (#[trigger] roots@[j]).0)
                ==> by_block@[roots@[j].0] == roots@[j].1,
{
    lemma_roots_by_block(roots@);
}

/// What [`roots_by_block`] has of a block is the last root that is given for it.
proof fn lemma_roots_by_block(roots: Seq<(B256, B256)>)
    ensures
        forall|block_hash: B256| #[trigger]
            roots_by_block(roots).contains_key(block_hash) <==> exists|j: int|
                0 <= j < roots.len() && (#[trigger] roots[j]).0 == block_hash,
        forall|j: int|
            0 <= j < roots.len() && (forall|k: int|
                j < k < roots.len() ==> (#[trigger] roots[k]).0 != (#[trigger] roots[j]).0)
                ==> roots_by_block(roots)[roots[j].0] == roots[j].1,
    decreases roots.len(),
{
    if roots.len() > 0 {
        let init = roots.drop_last();
        let last = roots.len() - 1;
        lemma_roots_by_block(init);
        assert forall|block_hash: B256| #[trigger]
            roots_by_block(roots).contains_key(block_hash) <==> exists|j: int|
                0 <= j < roots.len() && (#[trigger] roots[j]).0 == block_hash by {
            assert(roots_by_block(init).contains_key(block_hash) <==> exists|j: int|
                0 <= j < init.len() && (#[trigger] init[j]).0 == block_hash);
            if exists|j: int| 0 <= j < init.len() && (#[trigger] init[j]).0 == block_hash {
                let j = choose|j: int| 0 <= j < init.len() && (#[trigger] init[j]).0 == block_hash;
                assert(roots[j].0 == block_hash);
            }
            if exists|j: int| 0 <= j < roots.len() && (#[trigger] roots[j]).0 == block_hash {
                let j = choose|j: int|
                    0 <= j < roots.len() && (#[trigger] roots[j]).0 == block_hash;
                if j < last {
                    assert(init[j].0 == block_hash);
                }
            }
            assert(roots[last] == roots.last());
        }
        assert forall|j: int|
            0 <= j < roots.len() && (forall|k: int|
                j < k < roots.len() ==> (#[trigger] roots[k]).0 != (
                #[trigger] roots[j]).0) implies roots_by_block(roots)[roots[j].0]
            == roots[j].1 by {
            if j < last {
                assert(roots[last].0 != roots[j].0);
                assert(init[j] == roots[j]);
                assert forall|k: int| j < k < init.len() implies (#[trigger] init[k]).0
                    != init[j].0 by {
                    assert(init[k] == roots[k]);
                    assert(roots[k].0 != roots[j].0);
                }
            }
        }
    }
}

/// A block that has a root has one that is given last.
proof fn lemma_last_root(roots: Seq<(B256, B256)>, block_hash: B256) -> (j: int)
    requires
        roots_by_block(roots).contains_key(block_hash),
    ensures
        0 <= j < roots.len(),
        roots[j] == (block_hash, roots_by_block(roots)[block_hash]),
        forall|k: int| j < k < roots.len() ==> (#[trigger] roots[k]).0 != block_hash,
    decreases roots.len(),
{
    if roots.last().0 == block_hash {
        roots.len() - 1
    } else {
        let init = roots.drop_last();
        let j = lemma_last_root(init, block_hash);
        assert forall|k: int| j < k < roots.len() implies (#[trigger] roots[k]).0 != block_hash by {
            if k < init.len() {
                assert(init[k] == roots[k]);
            }
        }
        j
    }
}

/// The last step of the request for logs returns the logs, all of them and unchanged, only if the
/// filter selects them and each receipt names a block for which a root is given and its proof
/// checks against it, the last one that is given. It fails only because a root is missing for a
/// receipt, or a proof does not check, or, where all do, because the filter does not select the
/// logs; or because the roots could not be had.
pub proof fn law_logs_answer<
    F,
    R,
    E,
    C: Fn(&Receipt<R>, B256, &Vec<Vec<u8>>) -> Result<(), E>,
    M: Fn(&Vec<Log>, &F) -> Result<(), E>,
>(
    fetch: RootsFetch<F, R>,
    reply: Result<Vec<(B256, B256)>, ProviderError<E>>,
    check_receipt: C,
    check_filter: M,
    answer: Result<Vec<Log>, ProviderError<E>>,
)
    requires
        fetch.receipt_proofs.well_formed(),
        call_ensures(
            RootsFetch::<F, R>::on_roots::<E, C, M>,
            (fetch, reply, &check_receipt, &check_filter),
            answer,
        ),
    ensures
        reply matches Err(error) ==> answer == Err::<Vec<Log>, _>(error),
        reply matches Ok(roots) ==> {
            let proofs = fetch.receipt_proofs@;
            let proved = forall|tx_hash: B256| #[trigger]
                proofs.contains_key(tx_hash) ==> exists|j: int|
                    {
                        &&& 0 <= j < roots@.len()
                        &&& proofs[tx_hash].receipt.block_hash == Some((#[trigger] roots@[j]).0)
                        &&& forall|k: int|
                            j < k < roots@.len() ==> (#[trigger] roots@[k]).0 != roots@[j].0
                        &&& call_ensures(
                            check_receipt,
                            (
                                &proofs[tx_hash].receipt,
                                roots@[j].1,
                                &proofs[tx_hash].receipt_proof,
                            ),
                            Ok::<(), E>(()),
                        )
                    };
            match answer {
                Ok(logs) => {
                    &&& logs == fetch.logs
                    &&& proved
                    &&& call_ensures(
                        check_filter,
                        (&fetch.logs, &fetch.filter),
                        Ok::<(), E>(()),
                    )
                },
                Err(ProviderError::Execution(fault)) => exists|tx_hash: B256| #[trigger]
                    proofs.contains_key(tx_hash) && {
                        &&& fault == ExecutionError::LogReceiptMetadataMismatch(tx_hash)
                        &&& forall|j: int|
                            0 <= j < roots@.len() ==> proofs[tx_hash].receipt.block_hash != Some(
                                (#[trigger] roots@[j]).0,
                            )
                    },
                Err(ProviderError::Outside(outside)) => {
                    ||| proved && call_ensures(
                        check_filter,
                        (&fetch.logs, &fetch.filter),
                        Err::<(), E>(outside),
                    )
                    ||| exists|tx_hash: B256, j: int|
                        {
                            &&& #[trigger] proofs.contains_key(tx_hash)
                            &&& 0 <= j < roots@.len()
                            &&& proofs[tx_hash].receipt.block_hash == Some((#[trigger] roots@[j]).0)
                            &&& forall|k: int|
                                j < k < roots@.len() ==> (#[trigger] roots@[k]).0 != roots@[j].0
                            &&& call_ensures(
                                check_receipt,
                                (
                                    &proofs[tx_hash].receipt,
                                    roots@[j].1,
                                    &proofs[tx_hash].receipt_proof,
                                ),
                                Err::<(), E>(outside),
                            )
                        }
                },
                Err(_) => false,
            }
        },
{
    if let Ok(roots) = reply {
        let proofs = fetch.receipt_proofs@;
        let entries = fetch.receipt_proofs.entries();
        let known = roots_by_block(roots@);
        lemma_roots_by_block(roots@);
        if receipts_accepted::<R, E, C>(check_receipt, entries, known) {
            assert forall|tx_hash: B256| #[trigger] proofs.contains_key(tx_hash) implies exists|
                j: int,
            |
                {
                    &&& 0 <= j < roots@.len()
                    &&& proofs[tx_hash].receipt.block_hash == Some((#[trigger] roots@[j]).0)
                    &&& forall|k: int|
                        j < k < roots@.len() ==> (#[trigger] roots@[k]).0 != roots@[j].0
                    &&& call_ensures(
                        check_receipt,
                        (&proofs[tx_hash].receipt, roots@[j].1, &proofs[tx_hash].receipt_proof),
                        Ok::<(), E>(()),
                    )
                } by {
                let i = fetch.receipt_proofs.lemma_key(tx_hash);
                assert(receipt_accepted::<R, E, C>(check_receipt, entries[i].1, known));
                let j = lemma_last_root(roots@, proofs[tx_hash].receipt.block_hash->0);
                assert(roots@[j].1 == known[roots@[j].0]);
            }
        }
        if let Err(error) = answer {
            if receipts_refused(check_receipt, entries, known, error) {
                let i = choose|i: int|
                    0 <= i < entries.len() && receipt_refused(
                        check_receipt,
                        (#[trigger] entries[i]).0,
                        entries[i].1,
                        known,
                        error,
                    );
                fetch.receipt_proofs.lemma_entry(i);
                let tx_hash = entries[i].0;
                assert(proofs.contains_key(tx_hash));
                if let Some(block_hash) = proofs[tx_hash].receipt.block_hash {
                    if known.contains_key(block_hash) {
                        let j = lemma_last_root(roots@, block_hash);
                        assert(roots@[j].0 == block_hash);
                    } else {
                        assert forall|j: int| 0 <= j < roots@.len() implies Some(block_hash)
                            != Some((#[trigger] roots@[j]).0) by {
                            assert(known.contains_key(roots@[j].0));
                        }
                    }
                }
            }
        }
    }
}

/// An honest reply is answered, and a dishonest one is not. Where the request for logs goes on,
/// each of its blocks is looked up by its hash and found, the logs that come back are those of the
/// reply. They come back only if the proof of each receipt checks against the receipts root of the
/// block found for it and the filter selects them, and they do come back if none of these checks
/// fails.
pub proof fn law_logs_request_is_answered<
    A,
    P,
    H,
    F,
    R,
    B,
    E,
    C: Fn(&Receipt<R>, B256, &Vec<Vec<u8>>) -> Result<(), E>,
    M: Fn(&Vec<Log>, &F) -> Result<(), E>,
>(
    provider: VerifiableApiExecutionProvider<A, P, H>,
    filter: F,
    request: LogsFetch<F>,
    response: LogsResponse<R>,
    fetch: RootsFetch<F, R>,
    found: Seq<Block<B>>,
    roots: Vec<(B256, B256)>,
    check_receipt: C,
    check_filter: M,
    answer: Result<Vec<Log>, ProviderError<E>>,
)
    requires
        response.receipt_proofs.well_formed(),
        call_ensures(
            VerifiableApiExecutionProvider::<A, P, H>::get_logs::<F>,
            (&provider, filter),
            request,
        ),
        call_ensures(
            LogsFetch::<F>::try_on_logs::<R, E>,
            (request, Ok::<_, E>(response)),
            Some(Ok::<_, ProviderError<E>>(fetch)),
        ),
        found.len() == fetch.blocks_required@.len(),
        roots@.len() == fetch.blocks_required@.len(),
        forall|j: int|
            0 <= j < found.len() ==> call_ensures(
                receipts_root_of::<B, E>,
                (fetch.blocks_required@[j], Ok::<_, ProviderError<E>>(Some(#[trigger] found[j]))),
                Ok::<_, ProviderError<E>>(roots@[j]),
            ),
        call_ensures(
            RootsFetch::<F, R>::on_roots::<E, C, M>,
            (fetch, Ok::<_, ProviderError<E>>(roots), &check_receipt, &check_filter),
            answer,
        ),
    ensures
        answer matches Ok(logs) ==> {
            &&& logs == response.logs
            &&& call_ensures(check_filter, (&response.logs, &filter), Ok::<(), E>(()))
            &&& forall|tx_hash: B256| #[trigger]
                response.receipt_proofs@.contains_key(tx_hash) ==> exists|j: int|
                    {
                        &&& 0 <= j < found.len()
                        &&& response.receipt_proofs@[tx_hash].receipt.block_hash == Some(
                            #[trigger] fetch.blocks_required@[j],
                        )
                        &&& call_ensures(
                            check_receipt,
                            (
                                &response.receipt_proofs@[tx_hash].receipt,
                                found[j].receipts_root,
                                &response.receipt_proofs@[tx_hash].receipt_proof,
                            ),
                            Ok::<(), E>(()),
                        )
                    }
        },
        answer matches Err(error) ==> (error matches ProviderError::Outside(outside) && {
            ||| call_ensures(check_filter, (&response.logs, &filter), Err::<(), E>(outside))
            ||| exists|tx_hash: B256, j: int|
                {
                    &&& #[trigger] response.receipt_proofs@.contains_key(tx_hash)
                    &&& 0 <= j < found.len()
                    &&& response.receipt_proofs@[tx_hash].receipt.block_hash == Some(
                        #[trigger] fetch.blocks_required@[j],
                    )
                    &&& call_ensures(
                        check_receipt,
                        (
                            &response.receipt_proofs@[tx_hash].receipt,
                            found[j].receipts_root,
                            &response.receipt_proofs@[tx_hash].receipt_proof,
                        ),
                        Err::<(), E>(outside),
                    )
                }
        }),
{
    let proofs = response.receipt_proofs@;
    let blocks = fetch.blocks_required@;
    let next = Ok::<_, ProviderError<E>>(fetch);
    law_logs_request_goes_on(provider, filter, request, response, next);
    law_logs_answer(fetch, Ok::<_, ProviderError<E>>(roots), check_receipt, check_filter, answer);
    assert forall|j: int| 0 <= j < found.len() implies #[trigger] roots@[j] == (
        blocks[j],
        found[j].receipts_root,
    ) by {
        assert(found[j] == found[j]);
    }
    match answer {
        Ok(_) => {
            assert forall|tx_hash: B256| #[trigger] proofs.contains_key(tx_hash) implies exists|
                j: int,
            |
                {
                    &&& 0 <= j < found.len()
                    &&& proofs[tx_hash].receipt.block_hash == Some(#[trigger] blocks[j])
                    &&& call_ensures(
                        check_receipt,
                        (
                            &proofs[tx_hash].receipt,
                            found[j].receipts_root,
                            &proofs[tx_hash].receipt_proof,
                        ),
                        Ok::<(), E>(()),
                    )
                } by {
                let j = choose|j: int|
                    {
                        &&& 0 <= j < roots@.len()
                        &&& proofs[tx_hash].receipt.block_hash == Some((#[trigger] roots@[j]).0)
                        &&& call_ensures(
                            check_receipt,
                            (
                                &proofs[tx_hash].receipt,
                                roots@[j].1,
                                &proofs[tx_hash].receipt_proof,
                            ),
                            Ok::<(), E>(()),
                        )
                    };
                assert(blocks[j] == roots@[j].0);
            }
        },
        Err(ProviderError::Execution(fault)) => {
            let tx_hash = choose|tx_hash: B256| #[trigger]
                proofs.contains_key(tx_hash) && (forall|j: int|
                    0 <= j < roots@.len() ==> proofs[tx_hash].receipt.block_hash != Some(
                        (#[trigger] roots@[j]).0,
                    ));
            let block_hash = proofs[tx_hash].receipt.block_hash->0;
            assert(proofs[tx_hash].receipt.block_hash == Some(block_hash));
            assert(blocks.contains(block_hash));
            let j = choose|j: int| 0 <= j < blocks.len() && blocks[j] == block_hash;
            assert(roots@[j].0 == block_hash);
        },
        Err(ProviderError::Outside(outside)) => {
            if !call_ensures(check_filter, (&response.logs, &filter), Err::<(), E>(outside)) {
                let (tx_hash, j) = choose|tx_hash: B256, j: int|
                    {
                        &&& #[trigger] proofs.contains_key(tx_hash)
                        &&& 0 <= j < roots@.len()
                        &&& proofs[tx_hash].receipt.block_hash == Some((#[trigger] roots@[j]).0)
                        &&& call_ensures(
                            check_receipt,
                            (
                                &proofs[tx_hash].receipt,
                                roots@[j].1,
                                &proofs[tx_hash].receipt_proof,
                            ),
                            Err::<(), E>(outside),
                        )
                    };
                assert(blocks[j] == roots@[j].0);
            }
        },
        Err(_) => {},
    }
}

} // verus!
