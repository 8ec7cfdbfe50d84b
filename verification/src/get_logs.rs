//! The request for logs: what is asked, and when its reply is believed.

use vstd::prelude::*;

use crate::block_lookup::needed_block;
use crate::error::{ExecutionError, ProviderError};
use crate::keyed_map::KeyedMap;
use crate::log_checks::{
    logs_verdict, receipt_keys_error, required_transactions, verify_logs_held,
    verify_receipt_proof_keys, LogVerdict,
};
use crate::primitives::{BlockId, B256};
use crate::sequences::{first_occurrences, insert_hash, lemma_first_occurrences};
use crate::types::{
    Block, BlockRequest, Log, LogsResponse, Receipt, TransactionReceiptResponse,
};

verus! {

/// The blocks that receipts of these transactions say they stand in, receipt by receipt.
pub open spec fn named_blocks<R>(
    tx_hashes: Seq<B256>,
    receipt_proofs: Map<B256, TransactionReceiptResponse<R>>,
) -> Seq<B256> {
    tx_hashes.map_values(|tx_hash: B256| receipt_proofs[tx_hash].receipt.block_hash->0)
}

/// Why the blocks that hold these transactions cannot all be named: the first of them that has no
/// receipt, or whose receipt names no block.
pub open spec fn required_blocks_error<R>(
    tx_hashes: Seq<B256>,
    receipt_proofs: Map<B256, TransactionReceiptResponse<R>>,
) -> Option<ExecutionError>
    decreases tx_hashes.len(),
{
    if tx_hashes.len() == 0 {
        None
    } else if !receipt_proofs.contains_key(tx_hashes[0]) {
        Some(ExecutionError::NoReceiptForTransaction(tx_hashes[0]))
    } else if receipt_proofs[tx_hashes[0]].receipt.block_hash is None {
        Some(ExecutionError::LogReceiptMetadataMismatch(tx_hashes[0]))
    } else {
        required_blocks_error(tx_hashes.drop_first(), receipt_proofs)
    }
}

/// The blocks can all be named exactly where each transaction has a receipt that names one.
pub proof fn lemma_required_blocks<R>(
    tx_hashes: Seq<B256>,
    receipt_proofs: Map<B256, TransactionReceiptResponse<R>>,
)
    ensures
        required_blocks_error(tx_hashes, receipt_proofs) is None <==> forall|i: int|
            0 <= i < tx_hashes.len() ==> receipt_proofs.contains_key(#[trigger] tx_hashes[i])
                && receipt_proofs[tx_hashes[i]].receipt.block_hash is Some,
    decreases tx_hashes.len(),
{
    if tx_hashes.len() > 0 {
        let rest = tx_hashes.drop_first();
        lemma_required_blocks(rest, receipt_proofs);
        if required_blocks_error(tx_hashes, receipt_proofs) is None {
            assert forall|i: int| 0 <= i < tx_hashes.len() implies receipt_proofs.contains_key(
                #[trigger] tx_hashes[i],
            ) && receipt_proofs[tx_hashes[i]].receipt.block_hash is Some by {
                if i > 0 {
                    assert(tx_hashes[i] == rest[i - 1]);
                }
            }
        }
        if forall|i: int|
            0 <= i < tx_hashes.len() ==> receipt_proofs.contains_key(#[trigger] tx_hashes[i])
                && receipt_proofs[tx_hashes[i]].receipt.block_hash is Some {
            assert(receipt_proofs.contains_key(tx_hashes[0]));
            assert forall|i: int| 0 <= i < rest.len() implies receipt_proofs.contains_key(
                #[trigger] rest[i],
            ) && receipt_proofs[rest[i]].receipt.block_hash is Some by {
                assert(rest[i] == tx_hashes[i + 1]);
            }
        }
    }
}

/// The blocks that hold these transactions, each once, in the order in which they first come up.
pub fn required_blocks<R>(
    tx_hashes: &Vec<B256>,
    receipt_proofs: &KeyedMap<32, TransactionReceiptResponse<R>>,
) -> (blocks: Result<Vec<B256>, ExecutionError>)
    ensures
        match blocks {
            Ok(block_hashes) => required_blocks_error(tx_hashes@, receipt_proofs@) is None
                && block_hashes@ == first_occurrences(named_blocks(tx_hashes@, receipt_proofs@)),
            Err(error) => required_blocks_error(tx_hashes@, receipt_proofs@) == Some(error),
        },
{
    let mut blocks_required: Vec<B256> = Vec::new();
    let mut i: usize = 0;
    assert(tx_hashes@.skip(0) =~= tx_hashes@);
    assert(named_blocks(tx_hashes@.take(0), receipt_proofs@) =~= Seq::<B256>::empty());
    while i < tx_hashes.len()
        invariant
            i <= tx_hashes@.len(),
            blocks_required@ == first_occurrences(
                named_blocks(tx_hashes@.take(i as int), receipt_proofs@),
            ),
            required_blocks_error(tx_hashes@, receipt_proofs@) == required_blocks_error(
                tx_hashes@.skip(i as int),
                receipt_proofs@,
            ),
        decreases tx_hashes@.len() - i,
    {
        let tx_hash = tx_hashes[i];
        assert(tx_hashes@.skip(i as int)[0] == tx_hash);
        assert(tx_hashes@.skip(i as int).drop_first() =~= tx_hashes@.skip(i + 1));
        let block_hash = match receipt_proofs.get(&tx_hash) {
            None => {
                return Err(ExecutionError::NoReceiptForTransaction(tx_hash));
            },
            Some(response) => match response.receipt.block_hash {
                None => {
                    return Err(ExecutionError::LogReceiptMetadataMismatch(tx_hash));
                },
                Some(block_hash) => block_hash,
            },
        };
        proof {
            let before = named_blocks(tx_hashes@.take(i as int), receipt_proofs@);
            let after = named_blocks(tx_hashes@.take(i + 1), receipt_proofs@);
            assert(after.drop_last() =~= before);
            assert(after.last() == block_hash);
            lemma_first_occurrences(before);
        }
        insert_hash(&mut blocks_required, block_hash);
        i = i + 1;
    }
    assert(tx_hashes@.take(tx_hashes@.len() as int) =~= tx_hashes@);
    Ok(blocks_required)
}

impl<R> LogsResponse<R> {
    /// Some receipt lacks a log that carries no index by which to report it, and nothing else is
    /// wrong before that comes up.
    pub open spec fn spec_misses_log_without_index(&self) -> bool {
        &&& receipt_keys_error(self.logs@, self.receipt_proofs.keys()) is None
        &&& logs_verdict(self.logs@, self.receipt_proofs@) == LogVerdict::MissingWithoutIndex
    }

    /// Whether some receipt lacks a log that carries no index by which to report it, with nothing
    /// else wrong before that comes up. Such a reply cannot be refused with the error it deserves.
    pub fn misses_log_without_index(&self) -> (misses: bool)
        ensures
            misses == self.spec_misses_log_without_index(),
    {
        match verify_receipt_proof_keys(&self.logs, &self.receipt_proofs) {
            Ok(_) => match verify_logs_held(&self.logs, &self.receipt_proofs) {
                LogVerdict::MissingWithoutIndex => true,
                _ => false,
            },
            Err(_) => false,
        }
    }

    /// The error that the reply is refused with, if there is one, before any proof is looked at:
    /// its receipts are not those of its logs, or they do not hold the logs, or they do not all
    /// name a block.
    ///
    /// A reply with a missing log that carries no index has no error to be refused with, and yet is
    /// not in order: `spec_misses_log_without_index` tells it apart. A reply that is in order is
    /// `faultless`.
    pub open spec fn fault(&self) -> Option<ExecutionError> {
        match receipt_keys_error(self.logs@, self.receipt_proofs.keys()) {
            Some(error) => Some(error),
            None => match logs_verdict(self.logs@, self.receipt_proofs@) {
                LogVerdict::Refused(error) => Some(error),
                LogVerdict::MissingWithoutIndex => None,
                LogVerdict::Held => required_blocks_error(
                    required_transactions(self.logs@),
                    self.receipt_proofs@,
                ),
            },
        }
    }

    /// Nothing is wrong with the reply, as far as can be told before any proof is looked at: its
    /// receipts are those of its logs, they hold the logs, and they all name a block.
    pub open spec fn faultless(&self) -> bool {
        &&& receipt_keys_error(self.logs@, self.receipt_proofs.keys()) is None
        &&& logs_verdict(self.logs@, self.receipt_proofs@) == LogVerdict::Held
        &&& required_blocks_error(required_transactions(self.logs@), self.receipt_proofs@) is None
    }

    /// The blocks whose receipts the reply has, each once.
    pub open spec fn blocks(&self) -> Seq<B256> {
        first_occurrences(named_blocks(required_transactions(self.logs@), self.receipt_proofs@))
    }
}

/// Waits for the API's reply to the request for the logs that `filter` selects.
pub struct LogsFetch<F> {
    pub filter: F,
}

/// Waits for the receipts roots of the blocks `blocks_required`.
pub struct RootsFetch<F, R> {
    pub filter: F,
    pub logs: Vec<Log>,
    pub receipt_proofs: KeyedMap<32, TransactionReceiptResponse<R>>,
    pub blocks_required: Vec<B256>,
}

impl<F> LogsFetch<F> {
    /// This is what the API's reply calls for.
    pub open spec fn leads_to<R, E>(
        self,
        reply: Result<LogsResponse<R>, E>,
        next: Result<RootsFetch<F, R>, ProviderError<E>>,
    ) -> bool {
        match reply {
            Err(error) => next == Err::<RootsFetch<F, R>, _>(ProviderError::Outside(error)),
            Ok(response) => match next {
                Ok(fetch) => {
                    &&& response.faultless()
                    &&& fetch.filter == self.filter
                    &&& fetch.logs == response.logs
                    &&& fetch.receipt_proofs == response.receipt_proofs
                    &&& fetch.blocks_required@ == response.blocks()
                },
                Err(error) => error matches ProviderError::Execution(fault)
                    && response.fault() == Some(fault),
            },
        }
    }

    /// A faultless reply is kept, and the blocks that its receipts name are needed next. There is no
    /// next step, and no error either, exactly where the reply misses a log that carries no index.
    pub fn try_on_logs<R, E>(self, reply: Result<LogsResponse<R>, E>) -> (outcome: Option<
        Result<RootsFetch<F, R>, ProviderError<E>>,
    >)
        ensures
            match outcome {
                None => reply matches Ok(response) && response.spec_misses_log_without_index(),
                Some(next) => self.leads_to(reply, next) && (reply matches Ok(response)
                    ==> !response.spec_misses_log_without_index()),
            },
    {
        let response = match reply {
            Ok(response) => response,
            Err(error) => {
                return Some(Err(ProviderError::Outside(error)));
            },
        };
        let required = match verify_receipt_proof_keys(&response.logs, &response.receipt_proofs) {
            Ok(required) => required,
            Err(fault) => {
                return Some(Err(ProviderError::Execution(fault)));
            },
        };
        match verify_logs_held(&response.logs, &response.receipt_proofs) {
            LogVerdict::Held => {},
            LogVerdict::Refused(fault) => {
                return Some(Err(ProviderError::Execution(fault)));
            },
            LogVerdict::MissingWithoutIndex => {
                return None;
            },
        }
        match required_blocks(&required, &response.receipt_proofs) {
            Ok(blocks_required) => Some(
                Ok(
                    RootsFetch {
                        filter: self.filter,
                        logs: response.logs,
                        receipt_proofs: response.receipt_proofs,
                        blocks_required,
                    },
                ),
            ),
            Err(fault) => Some(Err(ProviderError::Execution(fault))),
        }
    }

    /// A faultless reply is kept, and the blocks that its receipts name are needed next. The caller
    /// knows that the reply misses no log without index; `try_on_logs` asks nothing of the reply.
    pub fn on_logs<R, E>(self, reply: Result<LogsResponse<R>, E>) -> (next: Result<
        RootsFetch<F, R>,
        ProviderError<E>,
    >)
        requires
            reply matches Ok(response) ==> !response.spec_misses_log_without_index(),
        ensures
            self.leads_to(reply, next),
    {
        self.try_on_logs(reply).unwrap()
    }
}

/// The request for a block whose receipts root is needed.
pub fn receipts_root_request(block_hash: B256) -> (request: BlockRequest)
    ensures
        request == BlockRequest::header(BlockId::hash(block_hash)),
{
    BlockRequest::header(BlockId::hash(block_hash))
}

/// The receipts root of the block of this hash, as the lookup of the block found it, in contracts.
pub open spec fn spec_receipts_root_of<B, E>(
    block_hash: B256,
    reply: Result<Option<Block<B>>, ProviderError<E>>,
) -> Result<(B256, B256), ProviderError<E>> {
    match needed_block(reply) {
        Ok(block) => Ok((block_hash, block.receipts_root)),
        Err(error) => Err(error),
    }
}

/// The receipts root of the block of this hash, as the lookup of the block found it.
pub fn receipts_root_of<B, E>(
    block_hash: B256,
    reply: Result<Option<Block<B>>, ProviderError<E>>,
) -> (root: Result<(B256, B256), ProviderError<E>>)
    ensures
        root == spec_receipts_root_of(block_hash, reply),
{
    match needed_block(reply) {
        Ok(block) => Ok((block_hash, block.receipts_root)),
        Err(error) => Err(error),
    }
}

/// The roots under the blocks they belong to. Where a block comes twice, the later root counts.
pub open spec fn roots_by_block(roots: Seq<(B256, B256)>) -> Map<B256, B256>
    decreases roots.len(),
{
    if roots.len() == 0 {
        Map::empty()
    } else {
        roots_by_block(roots.drop_last()).insert(roots.last().0, roots.last().1)
    }
}

/// Puts the roots under the blocks they belong to.
pub fn collect_roots(roots: &Vec<(B256, B256)>) -> (by_block: KeyedMap<32, B256>)
    ensures
        by_block@ == roots_by_block(roots@),
{
    let mut by_block: KeyedMap<32, B256> = KeyedMap::new();
    let mut i: usize = 0;
    assert(roots@.take(0) =~= Seq::<(B256, B256)>::empty());
    while i < roots.len()
        invariant
            i <= roots@.len(),
            by_block@ == roots_by_block(roots@.take(i as int)),
        decreases roots@.len() - i,
    {
        assert(roots@.take(i + 1).drop_last() =~= roots@.take(i as int));
        by_block.insert(roots[i].0, roots[i].1);
        i = i + 1;
    }
    assert(roots@.take(roots@.len() as int) =~= roots@);
    by_block
}

/// The check of a receipt's proof against a receipts root may come out this way.
pub open spec fn receipt_check<R, E, C: Fn(&Receipt<R>, B256, &Vec<Vec<u8>>) -> Result<(), E>>(
    check: C,
    response: TransactionReceiptResponse<R>,
    receipts_root: B256,
    verdict: Result<(), E>,
) -> bool {
    call_ensures(check, (&response.receipt, receipts_root, &response.receipt_proof), verdict)
}

/// The receipt names a block whose receipts root is known, and its proof checks against that root.
pub open spec fn receipt_accepted<R, E, C: Fn(&Receipt<R>, B256, &Vec<Vec<u8>>) -> Result<(), E>>(
    check: C,
    response: TransactionReceiptResponse<R>,
    roots: Map<B256, B256>,
) -> bool {
    match response.receipt.block_hash {
        None => false,
        Some(block_hash) => roots.contains_key(block_hash) && receipt_check(
            check,
            response,
            roots[block_hash],
            Ok::<(), E>(()),
        ),
    }
}

/// The receipt under `tx_hash` is refused with this error: it names no block whose receipts root is
/// known, or its proof does not check against that root.
pub open spec fn receipt_refused<R, E, C: Fn(&Receipt<R>, B256, &Vec<Vec<u8>>) -> Result<(), E>>(
    check: C,
    tx_hash: B256,
    response: TransactionReceiptResponse<R>,
    roots: Map<B256, B256>,
    error: ProviderError<E>,
) -> bool {
    match response.receipt.block_hash {
        Some(block_hash) if roots.contains_key(block_hash) => error matches ProviderError::Outside(
            outside,
        ) && receipt_check(check, response, roots[block_hash], Err::<(), E>(outside)),
        _ => error == ProviderError::<E>::Execution(
            ExecutionError::LogReceiptMetadataMismatch(tx_hash),
        ),
    }
}

/// All receipts are accepted.
pub open spec fn receipts_accepted<R, E, C: Fn(&Receipt<R>, B256, &Vec<Vec<u8>>) -> Result<(), E>>(
    check: C,
    receipts: Seq<(B256, TransactionReceiptResponse<R>)>,
    roots: Map<B256, B256>,
) -> bool {
    forall|i: int|
        0 <= i < receipts.len() ==> receipt_accepted::<R, E, C>(
            check,
            (#[trigger] receipts[i]).1,
            roots,
        )
}

/// Some receipt is refused with this error, and those before it are accepted.
pub open spec fn receipts_refused<R, E, C: Fn(&Receipt<R>, B256, &Vec<Vec<u8>>) -> Result<(), E>>(
    check: C,
    receipts: Seq<(B256, TransactionReceiptResponse<R>)>,
    roots: Map<B256, B256>,
    error: ProviderError<E>,
) -> bool {
    exists|i: int|
        {
            &&& 0 <= i < receipts.len()
            &&& receipts_accepted::<R, E, C>(check, receipts.take(i), roots)
            &&& receipt_refused(check, (#[trigger] receipts[i]).0, receipts[i].1, roots, error)
        }
}

/// Checks the proof of every receipt against the receipts root of the block that it names.
pub fn verify_receipts<R, E, C: Fn(&Receipt<R>, B256, &Vec<Vec<u8>>) -> Result<(), E>>(
    receipt_proofs: &KeyedMap<32, TransactionReceiptResponse<R>>,
    receipts_roots: &KeyedMap<32, B256>,
    check: &C,
) -> (verdict: Result<(), ProviderError<E>>)
    requires
        forall|receipt: &Receipt<R>, root: B256, proof: &Vec<Vec<u8>>|
            call_requires(*check, (receipt, root, proof)),
    ensures
        match verdict {
            Ok(()) => receipts_accepted::<R, E, C>(
                *check,
                receipt_proofs.entries(),
                receipts_roots@,
            ),
            Err(error) => receipts_refused(
                *check,
                receipt_proofs.entries(),
                receipts_roots@,
                error,
            ),
        },
{
    let ghost entries = receipt_proofs.entries();
    let mut i: usize = 0;
    while i < receipt_proofs.len()
        invariant
            i <= entries.len(),
            entries == receipt_proofs.entries(),
            forall|receipt: &Receipt<R>, root: B256, proof: &Vec<Vec<u8>>|
                call_requires(*check, (receipt, root, proof)),
            receipts_accepted::<R, E, C>(*check, entries.take(i as int), receipts_roots@),
        decreases entries.len() - i,
    {
        let tx_hash = receipt_proofs.key_at(i);
        let response = receipt_proofs.value_at(i);
        let mismatch: ProviderError<E> = ProviderError::Execution(
            ExecutionError::LogReceiptMetadataMismatch(tx_hash),
        );
        let block_hash = match response.receipt.block_hash {
            Some(block_hash) => block_hash,
            None => {
                assert(receipt_refused(
                    *check,
                    entries[i as int].0,
                    entries[i as int].1,
                    receipts_roots@,
                    mismatch,
                ));
                return Err(mismatch);
            },
        };
        let receipts_root = match receipts_roots.get(&block_hash) {
            Some(receipts_root) => *receipts_root,
            None => {
                assert(receipt_refused(
                    *check,
                    entries[i as int].0,
                    entries[i as int].1,
                    receipts_roots@,
                    mismatch,
                ));
                return Err(mismatch);
            },
        };
        let checked = check(&response.receipt, receipts_root, &response.receipt_proof);
        match checked {
            Ok(unit) => {
                assert(unit == ());
            },
            Err(outside) => {
                let error = ProviderError::Outside(outside);
                assert(receipt_refused(
                    *check,
                    entries[i as int].0,
                    entries[i as int].1,
                    receipts_roots@,
                    error,
                ));
                return Err(error);
            },
        }
        assert forall|j: int| 0 <= j < i + 1 implies receipt_accepted::<R, E, C>(
            *check,
            (#[trigger] entries.take(i + 1)[j]).1,
            receipts_roots@,
        ) by {
            if j < i {
                assert(entries.take(i + 1)[j] == entries.take(i as int)[j]);
            }
        }
        i = i + 1;
    }
    assert(entries.take(entries.len() as int) =~= entries);
    Ok(())
}

impl<F, R> RootsFetch<F, R> {
    /// Given these receipts roots, the request may be answered this way.
    pub open spec fn answers<
        E,
        C: Fn(&Receipt<R>, B256, &Vec<Vec<u8>>) -> Result<(), E>,
        M: Fn(&Vec<Log>, &F) -> Result<(), E>,
    >(
        self,
        reply: Result<Vec<(B256, B256)>, ProviderError<E>>,
        check_receipt: C,
        check_filter: M,
        logs: Result<Vec<Log>, ProviderError<E>>,
    ) -> bool {
        match reply {
            Err(error) => logs == Err::<Vec<Log>, _>(error),
            Ok(roots) => match logs {
                Ok(returned) => {
                    &&& returned == self.logs
                    &&& receipts_accepted::<R, E, C>(
                        check_receipt,
                        self.receipt_proofs.entries(),
                        roots_by_block(roots@),
                    )
                    &&& call_ensures(
                        check_filter,
                        (&self.logs, &self.filter),
                        Ok::<(), E>(()),
                    )
                },
                Err(error) => {
                    ||| receipts_refused(
                        check_receipt,
                        self.receipt_proofs.entries(),
                        roots_by_block(roots@),
                        error,
                    )
                    ||| {
                        &&& receipts_accepted::<R, E, C>(
                            check_receipt,
                            self.receipt_proofs.entries(),
                            roots_by_block(roots@),
                        )
                        &&& error matches ProviderError::Outside(outside) && call_ensures(
                            check_filter,
                            (&self.logs, &self.filter),
                            Err::<(), E>(outside),
                        )
                    }
                },
            },
        }
    }

    /// The logs are returned once every receipt is proved against the root of its block and the
    /// logs are what the filter selects.
    pub fn on_roots<
        E,
        C: Fn(&Receipt<R>, B256, &Vec<Vec<u8>>) -> Result<(), E>,
        M: Fn(&Vec<Log>, &F) -> Result<(), E>,
    >(
        self,
        reply: Result<Vec<(B256, B256)>, ProviderError<E>>,
        verify_receipt_proof: &C,
        ensure_logs_match_filter: &M,
    ) -> (logs: Result<Vec<Log>, ProviderError<E>>)
        requires
            forall|receipt: &Receipt<R>, root: B256, proof: &Vec<Vec<u8>>|
                call_requires(*verify_receipt_proof, (receipt, root, proof)),
            forall|logs: &Vec<Log>, filter: &F|
                call_requires(*ensure_logs_match_filter, (logs, filter)),
        ensures
            self.answers(reply, *verify_receipt_proof, *ensure_logs_match_filter, logs),
    {
        let roots = match reply {
            Ok(roots) => roots,
            Err(error) => {
                return Err(error);
            },
        };
        let receipts_roots = collect_roots(&roots);
        match verify_receipts(&self.receipt_proofs, &receipts_roots, verify_receipt_proof) {
            Ok(()) => {},
            Err(error) => {
                return Err(error);
            },
        }
        let matched = ensure_logs_match_filter(&self.logs, &self.filter);
        match matched {
            Ok(unit) => {
                assert(unit == ());
                Ok(self.logs)
            },
            Err(outside) => Err(ProviderError::Outside(outside)),
        }
    }
}

} // verus!
