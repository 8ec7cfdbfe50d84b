//! Whether a set of logs and a set of receipts belong together.

use vstd::prelude::*;

use crate::error::ExecutionError;
use crate::keyed_map::KeyedMap;
use crate::primitives::{FixedBytes, B256};
use crate::rlp::{contains_encoding, content_rlp, encode_log};
use crate::sequences::{
    contains_hash, first_absent, first_occurrences, insert_hash, lemma_first_occurrences,
};
use crate::types::{Log, LogContentView, Receipt, TransactionReceiptResponse};

verus! {

/// The hash of the transaction that emitted `log`. A log that names none is refused, on account of
/// `error_tx_hash`.
pub fn log_tx_hash(log: &Log, error_tx_hash: B256) -> (hash: Result<B256, ExecutionError>)
    ensures
        hash == match log.transaction_hash {
            Some(tx_hash) => Ok(tx_hash),
            None => Err(ExecutionError::LogReceiptMetadataMismatch(error_tx_hash)),
        },
{
    match log.transaction_hash {
        Some(tx_hash) => Ok(tx_hash),
        None => Err(ExecutionError::LogReceiptMetadataMismatch(error_tx_hash)),
    }
}

/// Every log names the transaction that emitted it.
pub open spec fn all_name_transaction(logs: Seq<Log>) -> bool {
    forall|i: int| 0 <= i < logs.len() ==> (#[trigger] logs[i]).transaction_hash is Some
}

/// The transactions that the logs name, log by log.
pub open spec fn named_transactions(logs: Seq<Log>) -> Seq<B256> {
    logs.map_values(|log: Log| log.transaction_hash->0)
}

/// The transactions that emitted the logs, each once, in the order in which the logs first name
/// them.
pub open spec fn required_transactions(logs: Seq<Log>) -> Seq<B256> {
    first_occurrences(named_transactions(logs))
}

/// Why receipts under these keys do not fit the logs: a log names no transaction, or a transaction
/// that the logs name has no receipt, or a receipt is for a transaction that no log names.
pub open spec fn receipt_keys_error(logs: Seq<Log>, keys: Seq<B256>) -> Option<ExecutionError> {
    if !all_name_transaction(logs) {
        Some(ExecutionError::LogReceiptMetadataMismatch(B256::zero()))
    } else {
        match first_absent(required_transactions(logs), keys) {
            Some(missing) => Some(ExecutionError::NoReceiptForTransaction(missing)),
            None => match first_absent(keys, required_transactions(logs)) {
                Some(unexpected) => Some(ExecutionError::LogReceiptMetadataMismatch(unexpected)),
                None => None,
            },
        }
    }
}

/// Checks that there is a receipt for each transaction that the logs name, and for no other; and
/// returns those transactions, each once, in the order in which the logs first name them.
pub fn verify_receipt_proof_keys<T>(logs: &Vec<Log>, receipt_proofs: &KeyedMap<32, T>) -> (required:
    Result<Vec<B256>, ExecutionError>)
    ensures
        match required {
            Ok(hashes) => receipt_keys_error(logs@, receipt_proofs.keys()) is None && hashes@
                == required_transactions(logs@),
            Err(error) => receipt_keys_error(logs@, receipt_proofs.keys()) == Some(error),
        },
{
    let mut required_tx_hashes: Vec<B256> = Vec::new();
    let mut i: usize = 0;
    while i < logs.len()
        invariant
            i <= logs@.len(),
            all_name_transaction(logs@.take(i as int)),
            required_tx_hashes@ == required_transactions(logs@.take(i as int)),
        decreases logs@.len() - i,
    {
        match log_tx_hash(&logs[i], B256::zero()) {
            Ok(tx_hash) => {
                proof {
                    lemma_next_transaction(logs@, i as int);
                }
                insert_hash(&mut required_tx_hashes, tx_hash);
            },
            Err(error) => {
                assert(logs@[i as int].transaction_hash is None);
                return Err(error);
            },
        }
        i = i + 1;
    }
    assert(logs@.take(logs@.len() as int) =~= logs@);

    let ghost required = required_tx_hashes@;
    let mut j: usize = 0;
    assert(required.skip(0) =~= required);
    while j < required_tx_hashes.len()
        invariant
            j <= required.len(),
            required == required_tx_hashes@,
            required == required_transactions(logs@),
            all_name_transaction(logs@),
            first_absent(required, receipt_proofs.keys()) == first_absent(
                required.skip(j as int),
                receipt_proofs.keys(),
            ),
        decreases required.len() - j,
    {
        assert(required.skip(j as int).drop_first() =~= required.skip(j + 1));
        assert(required.skip(j as int)[0] == required[j as int]);
        if !receipt_proofs.contains_key(&required_tx_hashes[j]) {
            return Err(ExecutionError::NoReceiptForTransaction(required_tx_hashes[j]));
        }
        j = j + 1;
    }

    let ghost keys = receipt_proofs.keys();
    let mut k: usize = 0;
    assert(keys.skip(0) =~= keys);
    while k < receipt_proofs.len()
        invariant
            k <= keys.len(),
            keys == receipt_proofs.keys(),
            required == required_tx_hashes@,
            required == required_transactions(logs@),
            all_name_transaction(logs@),
            first_absent(required, keys) is None,
            first_absent(keys, required) == first_absent(keys.skip(k as int), required),
        decreases keys.len() - k,
    {
        assert(keys.skip(k as int).drop_first() =~= keys.skip(k + 1));
        assert(keys.skip(k as int)[0] == keys[k as int]);
        let tx_hash = receipt_proofs.key_at(k);
        if !contains_hash(&required_tx_hashes, &tx_hash) {
            return Err(ExecutionError::LogReceiptMetadataMismatch(tx_hash));
        }
        k = k + 1;
    }
    Ok(required_tx_hashes)
}

/// One more log adds its transaction at the end, unless it was named before.
proof fn lemma_next_transaction(logs: Seq<Log>, i: int)
    requires
        0 <= i < logs.len(),
        logs[i].transaction_hash is Some,
        all_name_transaction(logs.take(i)),
    ensures
        all_name_transaction(logs.take(i + 1)),
        required_transactions(logs.take(i + 1)) == if required_transactions(logs.take(i)).contains(
            logs[i].transaction_hash->0,
        ) {
            required_transactions(logs.take(i))
        } else {
            required_transactions(logs.take(i)).push(logs[i].transaction_hash->0)
        },
{
    let before = named_transactions(logs.take(i));
    let after = named_transactions(logs.take(i + 1));
    assert(after.drop_last() =~= before);
    assert(after.last() == logs[i].transaction_hash->0);
    lemma_first_occurrences(before);
    assert forall|j: int| 0 <= j < i + 1 implies (#[trigger] logs.take(
        i + 1,
    )[j]).transaction_hash is Some by {
        if j < i {
            assert(logs.take(i + 1)[j] == logs.take(i)[j]);
        }
    }
}

/// The log and the receipt both belong to the transaction `tx_hash`, and place it alike.
pub open spec fn metadata_matches<R>(log: Log, receipt: Receipt<R>, tx_hash: B256) -> bool {
    &&& receipt.transaction_hash == tx_hash
    &&& log.transaction_hash == Some(tx_hash)
    &&& log.block_hash == receipt.block_hash
    &&& log.transaction_index == receipt.transaction_index
}

/// Checks that the log and the receipt both belong to the transaction `tx_hash`, and place it
/// alike.
pub fn verify_log_receipt_metadata<R>(log: &Log, receipt: &Receipt<R>, tx_hash: B256) -> (verdict:
    Result<(), ExecutionError>)
    ensures
        verdict == if metadata_matches(*log, *receipt, tx_hash) {
            Ok(())
        } else {
            Err(ExecutionError::LogReceiptMetadataMismatch(tx_hash))
        },
{
    if receipt.transaction_hash != tx_hash || log.transaction_hash != Some(tx_hash)
        || log.block_hash != receipt.block_hash || log.transaction_index
        != receipt.transaction_index {
        return Err(ExecutionError::LogReceiptMetadataMismatch(tx_hash));
    }
    Ok(())
}

/// The receipt holds a log that says this.
pub open spec fn receipt_holds<R>(receipt: Receipt<R>, content: LogContentView) -> bool {
    exists|i: int| 0 <= i < receipt.logs@.len() && (#[trigger] receipt.logs@[i]).inner@ == content
}

/// What holding logs against their receipts comes to.
#[derive(Clone, Copy, Debug, PartialEq, Eq)]
pub enum LogVerdict {
    /// The receipts hold the logs.
    Held,
    /// They do not, for this reason.
    Refused(ExecutionError),
    /// A receipt lacks a log that carries no index by which to report it.
    MissingWithoutIndex,
}

/// What holding one log against its receipt comes to.
pub open spec fn log_verdict<R>(
    log: Log,
    receipt_proofs: Map<B256, TransactionReceiptResponse<R>>,
) -> LogVerdict {
    match log.transaction_hash {
        None => LogVerdict::Refused(ExecutionError::LogReceiptMetadataMismatch(B256::zero())),
        Some(tx_hash) => if !receipt_proofs.contains_key(tx_hash) {
            LogVerdict::Refused(ExecutionError::NoReceiptForTransaction(tx_hash))
        } else if !metadata_matches(log, receipt_proofs[tx_hash].receipt, tx_hash) {
            LogVerdict::Refused(ExecutionError::LogReceiptMetadataMismatch(tx_hash))
        } else if receipt_holds(receipt_proofs[tx_hash].receipt, log.inner@) {
            LogVerdict::Held
        } else {
            match log.log_index {
                Some(index) => LogVerdict::Refused(ExecutionError::MissingLog(tx_hash, index)),
                None => LogVerdict::MissingWithoutIndex,
            }
        },
    }
}

/// What holding all logs against their receipts comes to: the verdict on the first log that is not
/// held.
pub open spec fn logs_verdict<R>(
    logs: Seq<Log>,
    receipt_proofs: Map<B256, TransactionReceiptResponse<R>>,
) -> LogVerdict
    decreases logs.len(),
{
    if logs.len() == 0 {
        LogVerdict::Held
    } else if log_verdict(logs[0], receipt_proofs) != LogVerdict::Held {
        log_verdict(logs[0], receipt_proofs)
    } else {
        logs_verdict(logs.drop_first(), receipt_proofs)
    }
}

/// All logs are held exactly where each of them is.
pub proof fn lemma_logs_held<R>(
    logs: Seq<Log>,
    receipt_proofs: Map<B256, TransactionReceiptResponse<R>>,
)
    ensures
        logs_verdict(logs, receipt_proofs) == LogVerdict::Held <==> forall|i: int|
            0 <= i < logs.len() ==> #[trigger] log_verdict(logs[i], receipt_proofs)
                == LogVerdict::Held,
    decreases logs.len(),
{
    if logs.len() > 0 {
        let rest = logs.drop_first();
        lemma_logs_held(rest, receipt_proofs);
        if logs_verdict(logs, receipt_proofs) == LogVerdict::Held {
            assert forall|i: int| 0 <= i < logs.len() implies #[trigger] log_verdict(
                logs[i],
                receipt_proofs,
            ) == LogVerdict::Held by {
                if i > 0 {
                    assert(logs[i] == rest[i - 1]);
                }
            }
        }
        if forall|i: int|
            0 <= i < logs.len() ==> #[trigger] log_verdict(logs[i], receipt_proofs)
                == LogVerdict::Held {
            assert(log_verdict(logs[0], receipt_proofs) == LogVerdict::Held);
            assert forall|i: int| 0 <= i < rest.len() implies #[trigger] log_verdict(
                rest[i],
                receipt_proofs,
            ) == LogVerdict::Held by {
                assert(rest[i] == logs[i + 1]);
            }
        }
    }
}

/// `encodings` are those of the logs, one by one.
pub open spec fn encodes(encodings: Seq<Vec<u8>>, logs: Seq<Log>) -> bool {
    &&& encodings.len() == logs.len()
    &&& forall|i: int|
        0 <= i < logs.len() ==> (#[trigger] encodings[i])@ == content_rlp(logs[i].inner@)
}

/// The encodings of the logs, one by one.
pub fn encode_logs(logs: &Vec<Log>) -> (encodings: Vec<Vec<u8>>)
    ensures
        encodes(encodings@, logs@),
{
    let mut encodings: Vec<Vec<u8>> = Vec::new();
    let mut i: usize = 0;
    while i < logs.len()
        invariant
            i <= logs@.len(),
            encodings@.len() == i,
            forall|j: int|
                0 <= j < i ==> (#[trigger] encodings@[j])@ == content_rlp(logs@[j].inner@),
        decreases logs@.len() - i,
    {
        encodings.push(encode_log(&logs[i].inner));
        i = i + 1;
    }
    encodings
}

/// Holds every log against the receipt of the transaction that it names, up to the first that is
/// not held.
pub fn verify_logs_held<R>(
    logs: &Vec<Log>,
    receipt_proofs: &KeyedMap<32, TransactionReceiptResponse<R>>,
) -> (verdict: LogVerdict)
    ensures
        verdict == logs_verdict(logs@, receipt_proofs@),
{
    // The encodings of each receipt's logs, so that none is encoded twice.
    let mut encoded: KeyedMap<32, Vec<Vec<u8>>> = KeyedMap::new();
    let mut i: usize = 0;
    assert(logs@.skip(0) =~= logs@);
    while i < logs.len()
        invariant
            i <= logs@.len(),
            logs_verdict(logs@, receipt_proofs@) == logs_verdict(
                logs@.skip(i as int),
                receipt_proofs@,
            ),
            forall|key: FixedBytes<32>| #[trigger]
                encoded@.contains_key(key) ==> receipt_proofs@.contains_key(key) && encodes(
                    encoded@[key]@,
                    receipt_proofs@[key].receipt.logs@,
                ),
        decreases logs@.len() - i,
    {
        let log = &logs[i];
        assert(logs@.skip(i as int)[0] == *log);
        assert(logs@.skip(i as int).drop_first() =~= logs@.skip(i + 1));
        let tx_hash = match log_tx_hash(log, B256::zero()) {
            Ok(tx_hash) => tx_hash,
            Err(error) => {
                return LogVerdict::Refused(error);
            },
        };
        let log_encoded = encode_log(&log.inner);
        let receipt = match receipt_proofs.get(&tx_hash) {
            Some(response) => &response.receipt,
            None => {
                return LogVerdict::Refused(ExecutionError::NoReceiptForTransaction(tx_hash));
            },
        };
        match verify_log_receipt_metadata(log, receipt, tx_hash) {
            Ok(()) => {},
            Err(error) => {
                return LogVerdict::Refused(error);
            },
        }
        if !encoded.contains_key(&tx_hash) {
            let encodings = encode_logs(&receipt.logs);
            encoded.insert(tx_hash, encodings);
        }
        let held = match encoded.get(&tx_hash) {
            Some(encodings) => {
                let found = contains_encoding(encodings, &log_encoded);
                proof {
                    lemma_encoding_found(
                        encodings@,
                        *receipt,
                        log.inner@,
                        log_encoded@,
                    );
                }
                found
            },
            None => false,
        };
        if !held {
            return match log.log_index {
                Some(index) => LogVerdict::Refused(ExecutionError::MissingLog(tx_hash, index)),
                None => LogVerdict::MissingWithoutIndex,
            };
        }
        i = i + 1;
    }
    LogVerdict::Held
}

/// A log is found by its encoding exactly where the receipt holds it.
proof fn lemma_encoding_found<R>(
    encodings: Seq<Vec<u8>>,
    receipt: Receipt<R>,
    content: LogContentView,
    encoded: Seq<u8>,
)
    requires
        encodes(encodings, receipt.logs@),
        encoded == content_rlp(content),
        forall|other: LogContentView| #[trigger] content_rlp(other) == encoded ==> other == content,
    ensures
        receipt_holds(receipt, content) <==> exists|i: int|
            0 <= i < encodings.len() && #[trigger] encodings[i]@ == encoded,
{
    if receipt_holds(receipt, content) {
        let i = choose|i: int|
            0 <= i < receipt.logs@.len() && (#[trigger] receipt.logs@[i]).inner@ == content;
        assert(encodings[i]@ == encoded);
    }
    if exists|i: int| 0 <= i < encodings.len() && #[trigger] encodings[i]@ == encoded {
        let i = choose|i: int| 0 <= i < encodings.len() && #[trigger] encodings[i]@ == encoded;
        assert(content_rlp(receipt.logs@[i].inner@) == encoded);
        assert(receipt.logs@[i].inner@ == content);
    }
}

} // verus!
