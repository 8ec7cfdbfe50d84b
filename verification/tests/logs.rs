use std::cell::RefCell;

use verifiable_api::error::{ExecutionError, ProviderError};
use verifiable_api::get_logs::{
    collect_roots, receipts_root_of, receipts_root_request, required_blocks, verify_receipts,
    LogsFetch,
};
use verifiable_api::keyed_map::KeyedMap;
use verifiable_api::log_checks::{
    encode_logs, log_tx_hash, verify_log_receipt_metadata, verify_logs_held,
    verify_receipt_proof_keys, LogVerdict,
};
use verifiable_api::primitives::{Address, BlockId, FixedBytes, B256};
use verifiable_api::rlp::{contains_encoding, encode_log};
use verifiable_api::types::{
    Block, BlockRequest, Log, LogContent, LogsResponse, Receipt, TransactionReceiptResponse,
};

fn hash(byte: u8) -> B256 {
    FixedBytes([byte; 32])
}

fn with_last_byte(byte: u8) -> B256 {
    let mut bytes = [0u8; 32];
    bytes[31] = byte;
    FixedBytes(bytes)
}

fn content(tag: u8) -> LogContent {
    let address: Address = FixedBytes([0x11; 20]);
    LogContent { address, topics: vec![hash(tag)], data: vec![tag, 0x02] }
}

fn log(tag: u8, tx_hash: B256, block_hash: B256, log_index: u64) -> Log {
    Log {
        inner: content(tag),
        block_hash: Some(block_hash),
        block_number: Some(100),
        block_timestamp: None,
        transaction_hash: Some(tx_hash),
        transaction_index: Some(4),
        log_index: Some(log_index),
        removed: false,
    }
}

fn receipt_response(tx_hash: B256, block_hash: B256, logs: Vec<Log>) -> TransactionReceiptResponse<u8> {
    TransactionReceiptResponse {
        receipt: Receipt {
            transaction_hash: tx_hash,
            block_hash: Some(block_hash),
            transaction_index: Some(4),
            logs,
            body: tx_hash.0[0],
        },
        receipt_proof: vec![vec![tx_hash.0[0]]],
    }
}

const TX_A: u8 = 0xa1;
const TX_B: u8 = 0xb1;
const BLOCK_A: u8 = 0xa0;
const BLOCK_B: u8 = 0xb0;

/// Three logs of two transactions, in two blocks.
fn verifiable_api_logs_response() -> LogsResponse<u8> {
    let a1 = log(1, hash(TX_A), hash(BLOCK_A), 0);
    let a2 = log(2, hash(TX_A), hash(BLOCK_A), 1);
    let b1 = log(3, hash(TX_B), hash(BLOCK_B), 5);
    let mut receipt_proofs = KeyedMap::new();
    receipt_proofs.insert(
        hash(TX_B),
        receipt_response(hash(TX_B), hash(BLOCK_B), vec![b1.clone()]),
    );
    receipt_proofs.insert(
        hash(TX_A),
        receipt_response(hash(TX_A), hash(BLOCK_A), vec![a1.clone(), a2.clone()]),
    );
    LogsResponse { logs: vec![a1, b1, a2], receipt_proofs }
}

fn accept(_: &Receipt<u8>, _: B256, _: &Vec<Vec<u8>>) -> Result<(), &'static str> {
    Ok(())
}

fn matches_filter(_: &Vec<Log>, _: &u8) -> Result<(), &'static str> {
    Ok(())
}

fn block(block_hash: B256, receipts_root: B256) -> Block<()> {
    Block {
        number: 100,
        hash: block_hash,
        state_root: hash(0x51),
        transactions_root: hash(0x52),
        receipts_root,
        body: (),
    }
}

#[test]
fn accepts_exact_receipt_proof_keys() {
    let response = verifiable_api_logs_response();

    let required = verify_receipt_proof_keys(&response.logs, &response.receipt_proofs).unwrap();

    assert_eq!(required, vec![hash(TX_A), hash(TX_B)]);
}

#[test]
fn rejects_missing_receipt_proof_key() {
    let mut response = verifiable_api_logs_response();
    let tx_hash = response.logs[0].transaction_hash.unwrap();
    response.receipt_proofs.remove(&tx_hash);

    let err = verify_receipt_proof_keys(&response.logs, &response.receipt_proofs).unwrap_err();

    assert!(err.message().contains("could not prove receipt"));
    assert_eq!(err, ExecutionError::NoReceiptForTransaction(tx_hash));
}

#[test]
fn rejects_unexpected_receipt_proof_key() {
    let mut response = verifiable_api_logs_response();
    let tx_hash = response.logs[0].transaction_hash.unwrap();
    let unexpected_tx_hash = with_last_byte(0x42);
    assert_ne!(unexpected_tx_hash, tx_hash);
    let receipt_proof = response.receipt_proofs.get(&tx_hash).unwrap().clone();
    response.receipt_proofs.insert(unexpected_tx_hash, receipt_proof);

    let err = verify_receipt_proof_keys(&response.logs, &response.receipt_proofs).unwrap_err();

    assert!(err.message().contains("log metadata does not match proved receipt"));
    assert_eq!(err, ExecutionError::LogReceiptMetadataMismatch(unexpected_tx_hash));
}

#[test]
fn rejects_log_with_rekeyed_receipt_proof() {
    let mut response = verifiable_api_logs_response();
    let mut log = response.logs[0].clone();
    let original_tx_hash = log.transaction_hash.unwrap();
    let forged_tx_hash = with_last_byte(0x42);
    assert_ne!(forged_tx_hash, original_tx_hash);

    let receipt_response = response.receipt_proofs.remove(&original_tx_hash).unwrap();
    response.receipt_proofs.insert(forged_tx_hash, receipt_response);
    log.transaction_hash = Some(forged_tx_hash);

    let receipt = &response.receipt_proofs.get(&forged_tx_hash).unwrap().receipt;
    let err = verify_log_receipt_metadata(&log, receipt, forged_tx_hash).unwrap_err();

    assert!(err.message().contains("log metadata does not match proved receipt"));
    assert_eq!(err, ExecutionError::LogReceiptMetadataMismatch(forged_tx_hash));
}

#[test]
fn rekeyed_receipt_is_refused_as_a_whole() {
    let mut response = verifiable_api_logs_response();
    let forged_tx_hash = with_last_byte(0x42);
    let moved = response.receipt_proofs.remove(&hash(TX_B)).unwrap();
    response.receipt_proofs.insert(forged_tx_hash, moved);
    response.logs[1].transaction_hash = Some(forged_tx_hash);

    assert!(!response.misses_log_without_index());
    let next = LogsFetch { filter: 0u8 }.on_logs::<u8, &str>(Ok(response));
    assert_eq!(
        next.err(),
        Some(ProviderError::Execution(ExecutionError::LogReceiptMetadataMismatch(forged_tx_hash)))
    );
}

#[test]
fn log_without_transaction_is_refused() {
    let mut response = verifiable_api_logs_response();
    response.logs[1].transaction_hash = None;

    assert_eq!(
        log_tx_hash(&response.logs[1], hash(9)),
        Err(ExecutionError::LogReceiptMetadataMismatch(hash(9)))
    );
    assert_eq!(log_tx_hash(&response.logs[0], hash(9)), Ok(hash(TX_A)));
    assert_eq!(
        verify_receipt_proof_keys(&response.logs, &response.receipt_proofs),
        Err(ExecutionError::LogReceiptMetadataMismatch(B256::zero()))
    );
}

#[test]
fn no_logs_need_no_receipts() {
    let empty: KeyedMap<32, u8> = KeyedMap::new();
    assert_eq!(verify_receipt_proof_keys(&Vec::new(), &empty), Ok(Vec::new()));

    let response = LogsResponse { logs: Vec::new(), receipt_proofs: KeyedMap::<32, _>::new() };
    let fetch = LogsFetch { filter: 7u8 }.on_logs::<u8, &str>(Ok(response)).ok().unwrap();
    assert!(fetch.blocks_required.is_empty());
    assert_eq!(fetch.on_roots(Ok(Vec::new()), &accept, &matches_filter), Ok(Vec::new()));
}

#[test]
fn metadata_has_to_agree_in_every_field() {
    let response = verifiable_api_logs_response();
    let receipt = &response.receipt_proofs.get(&hash(TX_A)).unwrap().receipt;
    let good = response.logs[0].clone();
    assert_eq!(verify_log_receipt_metadata(&good, receipt, hash(TX_A)), Ok(()));

    let mismatch = Err(ExecutionError::LogReceiptMetadataMismatch(hash(TX_A)));
    let mut bad = good.clone();
    bad.block_hash = Some(hash(BLOCK_B));
    assert_eq!(verify_log_receipt_metadata(&bad, receipt, hash(TX_A)), mismatch);
    let mut bad = good.clone();
    bad.transaction_index = None;
    assert_eq!(verify_log_receipt_metadata(&bad, receipt, hash(TX_A)), mismatch);
    let mut bad = good.clone();
    bad.transaction_hash = Some(hash(TX_B));
    assert_eq!(verify_log_receipt_metadata(&bad, receipt, hash(TX_A)), mismatch);
    assert_eq!(
        verify_log_receipt_metadata(&good, receipt, hash(TX_B)),
        Err(ExecutionError::LogReceiptMetadataMismatch(hash(TX_B)))
    );
}

#[test]
fn log_that_the_receipt_lacks_is_reported() {
    let mut response = verifiable_api_logs_response();
    assert_eq!(verify_logs_held(&response.logs, &response.receipt_proofs), LogVerdict::Held);

    response.logs[2].inner.data.push(0);
    assert_eq!(
        verify_logs_held(&response.logs, &response.receipt_proofs),
        LogVerdict::Refused(ExecutionError::MissingLog(hash(TX_A), 1))
    );
    let next = LogsFetch { filter: 0u8 }.on_logs::<u8, &str>(Ok(response));
    assert_eq!(
        next.err(),
        Some(ProviderError::Execution(ExecutionError::MissingLog(hash(TX_A), 1)))
    );
}

#[test]
fn log_differing_in_one_topic_or_its_emitter_is_missing() {
    let mut response = verifiable_api_logs_response();
    response.logs[0].inner.topics.push(hash(1));
    assert_eq!(
        verify_logs_held(&response.logs, &response.receipt_proofs),
        LogVerdict::Refused(ExecutionError::MissingLog(hash(TX_A), 0))
    );

    let mut response = verifiable_api_logs_response();
    response.logs[1].inner.address.0[19] = 0;
    assert_eq!(
        verify_logs_held(&response.logs, &response.receipt_proofs),
        LogVerdict::Refused(ExecutionError::MissingLog(hash(TX_B), 5))
    );
}

#[test]
fn missing_log_without_index_is_told_apart() {
    let mut response = verifiable_api_logs_response();
    response.logs[1].log_index = None;
    assert!(!response.misses_log_without_index());
    response.logs[1].inner.data.clear();
    assert!(response.misses_log_without_index());
    let mut again = verifiable_api_logs_response();
    again.logs[1].log_index = None;
    again.logs[1].inner.data.clear();
    assert!(LogsFetch { filter: 0u8 }.try_on_logs::<u8, &str>(Ok(again)).is_none());
    // An earlier fault comes first.
    response.logs[0].block_hash = None;
    assert!(!response.misses_log_without_index());
    assert_eq!(
        verify_logs_held(&response.logs, &response.receipt_proofs),
        LogVerdict::Refused(ExecutionError::LogReceiptMetadataMismatch(hash(TX_A)))
    );
}

#[test]
fn total_step_says_what_the_other_does() {
    let fetch = LogsFetch { filter: 7u8 }
        .try_on_logs::<u8, &str>(Ok(verifiable_api_logs_response()))
        .unwrap()
        .ok()
        .unwrap();
    assert_eq!(fetch.filter, 7);
    assert_eq!(fetch.logs, verifiable_api_logs_response().logs);
    assert_eq!(fetch.blocks_required, vec![hash(BLOCK_A), hash(BLOCK_B)]);

    let mut response = verifiable_api_logs_response();
    response.logs[1].inner.data.clear();
    let next = LogsFetch { filter: 7u8 }.try_on_logs::<u8, &str>(Ok(response)).unwrap();
    assert_eq!(
        next.err(),
        Some(ProviderError::Execution(ExecutionError::MissingLog(hash(TX_B), 5)))
    );
    let next = LogsFetch { filter: 7u8 }.try_on_logs::<u8, &str>(Err("down")).unwrap();
    assert_eq!(next.err(), Some(ProviderError::Outside("down")));
}

#[test]
fn logs_held_need_their_receipts() {
    let mut response = verifiable_api_logs_response();
    response.receipt_proofs.remove(&hash(TX_B));
    assert_eq!(
        verify_logs_held(&response.logs, &response.receipt_proofs),
        LogVerdict::Refused(ExecutionError::NoReceiptForTransaction(hash(TX_B)))
    );
    response.logs[0].transaction_hash = None;
    assert_eq!(
        verify_logs_held(&response.logs, &response.receipt_proofs),
        LogVerdict::Refused(ExecutionError::LogReceiptMetadataMismatch(B256::zero()))
    );
}

#[test]
fn blocks_come_once_and_in_order() {
    let mut response = verifiable_api_logs_response();
    let fourth = log(4, hash(0xc1), hash(BLOCK_A), 9);
    response.receipt_proofs.insert(
        hash(0xc1),
        receipt_response(hash(0xc1), hash(BLOCK_A), vec![fourth.clone()]),
    );
    response.logs.push(fourth);
    let fetch = LogsFetch { filter: 7u8 }.on_logs::<u8, &str>(Ok(response)).ok().unwrap();
    assert_eq!(fetch.blocks_required, vec![hash(BLOCK_A), hash(BLOCK_B)]);
    assert_eq!(fetch.filter, 7);
    assert_eq!(fetch.logs.len(), 4);
}

#[test]
fn receipt_without_block_is_refused() {
    let mut response = verifiable_api_logs_response();
    response.logs[1].block_hash = None;
    let mut unplaced = response.receipt_proofs.remove(&hash(TX_B)).unwrap();
    unplaced.receipt.block_hash = None;
    response.receipt_proofs.insert(hash(TX_B), unplaced);
    let required = vec![hash(TX_A), hash(TX_B)];
    assert_eq!(
        required_blocks(&required, &response.receipt_proofs),
        Err(ExecutionError::LogReceiptMetadataMismatch(hash(TX_B)))
    );
    assert_eq!(
        required_blocks(&vec![hash(9)], &response.receipt_proofs),
        Err(ExecutionError::NoReceiptForTransaction(hash(9)))
    );
    let next = LogsFetch { filter: 0u8 }.on_logs::<u8, &str>(Ok(response));
    assert_eq!(
        next.err(),
        Some(ProviderError::Execution(ExecutionError::LogReceiptMetadataMismatch(hash(TX_B))))
    );
}

#[test]
fn order_of_receipts_decides_no_acceptance() {
    let forward = verifiable_api_logs_response();
    let mut backward = verifiable_api_logs_response();
    let first = backward.receipt_proofs.key_at(0);
    let moved = backward.receipt_proofs.remove(&first).unwrap();
    backward.receipt_proofs.insert(first, moved);
    assert_ne!(forward.receipt_proofs.key_at(0), backward.receipt_proofs.key_at(0));

    let a = LogsFetch { filter: 0u8 }.on_logs::<u8, &str>(Ok(forward)).ok().unwrap();
    let b = LogsFetch { filter: 0u8 }.on_logs::<u8, &str>(Ok(backward)).ok().unwrap();
    assert_eq!(a.blocks_required, b.blocks_required);
}

#[test]
fn api_failure_is_passed_on() {
    let next = LogsFetch { filter: 0u8 }.on_logs::<u8, &str>(Err("down"));
    assert_eq!(next.err(), Some(ProviderError::Outside("down")));
}

#[test]
fn receipts_root_of_a_block() {
    assert_eq!(
        receipts_root_request(hash(BLOCK_A)),
        BlockRequest { block_id: BlockId::hash(hash(BLOCK_A)), full_tx: false }
    );
    let found: Result<Option<Block<()>>, ProviderError<&str>> =
        Ok(Some(block(hash(BLOCK_A), hash(0x77))));
    assert_eq!(receipts_root_of(hash(BLOCK_A), found), Ok((hash(BLOCK_A), hash(0x77))));
    let absent: Result<Option<Block<()>>, ProviderError<&str>> = Ok(None);
    assert_eq!(receipts_root_of(hash(BLOCK_A), absent), Err(ProviderError::BlockNotFound));
    let failed: Result<Option<Block<()>>, ProviderError<&str>> = Err(ProviderError::Outside("x"));
    assert_eq!(receipts_root_of(hash(BLOCK_A), failed), Err(ProviderError::Outside("x")));
}

#[test]
fn later_root_of_a_block_counts() {
    let roots = vec![(hash(1), hash(11)), (hash(2), hash(12)), (hash(1), hash(13))];
    let by_block = collect_roots(&roots);
    assert_eq!(by_block.len(), 2);
    assert_eq!(by_block.get(&hash(1)), Some(&hash(13)));
    assert_eq!(by_block.get(&hash(2)), Some(&hash(12)));
}

#[test]
fn returned_logs_had_every_receipt_checked_against_its_root() {
    let response = verifiable_api_logs_response();
    let expected = response.logs.clone();
    let fetch = LogsFetch { filter: 7u8 }.on_logs::<u8, &str>(Ok(response)).ok().unwrap();
    let seen = RefCell::new(Vec::new());
    let check = |receipt: &Receipt<u8>, root: B256, proof: &Vec<Vec<u8>>| -> Result<(), &'static str> {
        seen.borrow_mut().push((receipt.body, root, proof.clone()));
        Ok(())
    };
    let filter = |logs: &Vec<Log>, filter: &u8| -> Result<(), &'static str> {
        assert_eq!(logs.len(), 3);
        assert_eq!(*filter, 7);
        Ok(())
    };
    let roots = vec![(hash(BLOCK_A), hash(0x0a)), (hash(BLOCK_B), hash(0x0b))];
    assert_eq!(fetch.on_roots(Ok(roots), &check, &filter), Ok(expected));
    assert_eq!(
        seen.into_inner(),
        vec![
            (TX_B, hash(0x0b), vec![vec![TX_B]]),
            (TX_A, hash(0x0a), vec![vec![TX_A]]),
        ]
    );
}

#[test]
fn unproved_receipt_refuses_all_logs() {
    let fetch = LogsFetch { filter: 7u8 }
        .on_logs::<u8, &str>(Ok(verifiable_api_logs_response()))
        .ok()
        .unwrap();
    let check = |receipt: &Receipt<u8>, _: B256, _: &Vec<Vec<u8>>| -> Result<(), &'static str> {
        if receipt.body == TX_A {
            Err("bad proof")
        } else {
            Ok(())
        }
    };
    let roots = vec![(hash(BLOCK_A), hash(0x0a)), (hash(BLOCK_B), hash(0x0b))];
    assert_eq!(
        fetch.on_roots(Ok(roots), &check, &matches_filter),
        Err(ProviderError::Outside("bad proof"))
    );
}

#[test]
fn receipt_of_unknown_root_is_refused() {
    let response = verifiable_api_logs_response();
    let roots = collect_roots(&vec![(hash(BLOCK_B), hash(0x0b))]);
    assert_eq!(
        verify_receipts(&response.receipt_proofs, &roots, &accept),
        Err(ProviderError::Execution(ExecutionError::LogReceiptMetadataMismatch(hash(TX_A))))
    );
    let roots = collect_roots(&vec![(hash(BLOCK_B), hash(0x0b)), (hash(BLOCK_A), hash(0x0a))]);
    assert_eq!(verify_receipts(&response.receipt_proofs, &roots, &accept), Ok(()));
}

#[test]
fn logs_outside_the_filter_are_refused() {
    let fetch = LogsFetch { filter: 7u8 }
        .on_logs::<u8, &str>(Ok(verifiable_api_logs_response()))
        .ok()
        .unwrap();
    let filter = |_: &Vec<Log>, _: &u8| -> Result<(), &'static str> { Err("not selected") };
    let roots = vec![(hash(BLOCK_A), hash(0x0a)), (hash(BLOCK_B), hash(0x0b))];
    assert_eq!(
        fetch.on_roots(Ok(roots), &accept, &filter),
        Err(ProviderError::Outside("not selected"))
    );
}

#[test]
fn failed_block_lookup_refuses_all_logs() {
    let fetch = LogsFetch { filter: 7u8 }
        .on_logs::<u8, &str>(Ok(verifiable_api_logs_response()))
        .ok()
        .unwrap();
    assert_eq!(
        fetch.on_roots(Err(ProviderError::BlockNotFound), &accept, &matches_filter),
        Err(ProviderError::BlockNotFound)
    );
}

#[test]
fn encoding_of_a_log() {
    let short = LogContent {
        address: FixedBytes([0x11; 20]),
        topics: Vec::new(),
        data: vec![0x05],
    };
    let mut expected = vec![0xd7, 0x94];
    expected.extend([0x11; 20]);
    expected.extend([0xc0, 0x05]);
    assert_eq!(encode_log(&short), expected);

    let long = LogContent {
        address: FixedBytes([0x11; 20]),
        topics: vec![hash(0x22)],
        data: vec![0x01, 0x02],
    };
    let mut expected = vec![0xf8, 0x3a, 0x94];
    expected.extend([0x11; 20]);
    expected.extend([0xe1, 0xa0]);
    expected.extend([0x22; 32]);
    expected.extend([0x82, 0x01, 0x02]);
    assert_eq!(encode_log(&long), expected);
}

#[test]
fn encodings_come_one_by_one_and_are_found() {
    let response = verifiable_api_logs_response();
    let encodings = encode_logs(&response.logs);
    assert_eq!(encodings.len(), 3);
    assert_eq!(encodings[1], encode_log(&content(3)));
    assert!(contains_encoding(&encodings, &encode_log(&content(2))));
    assert!(!contains_encoding(&encodings, &encode_log(&content(4))));
    assert!(!contains_encoding(&Vec::new(), &encode_log(&content(1))));
}

#[test]
fn errors_in_words() {
    assert_eq!(
        ExecutionError::NoReceiptsForBlock(3).message(),
        "no receipts could be found for block"
    );
    assert_eq!(
        ExecutionError::MissingLog(hash(1), 2).message(),
        "receipt does not hold log of tx"
    );
    assert_eq!(ProviderError::<u8>::BlockNotFound.message(), Some("block not found"));
    assert_eq!(
        ProviderError::<u8>::TransactionNotIncluded.message(),
        Some("transaction not included")
    );
    assert_eq!(
        ProviderError::<u8>::TransactionIndexMismatch.message(),
        Some("tx index mismatch")
    );
    assert_eq!(
        ProviderError::<u8>::Execution(ExecutionError::NoReceiptForTransaction(hash(1))).message(),
        Some("could not prove receipt for tx")
    );
    assert_eq!(ProviderError::Outside(1u8).message(), None);
}
