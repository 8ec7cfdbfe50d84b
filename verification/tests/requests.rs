use std::cell::RefCell;

use verifiable_api::accounts::{verify_account, AccountChecks, AccountProof};
use verifiable_api::block_lookup::{should_use_historical_provider, HistoryLookup};
use verifiable_api::error::{ExecutionError, ProviderError};
use verifiable_api::keyed_map::KeyedMap;
use verifiable_api::primitives::{
    Address, BlockId, BlockNumberOrTag, FixedBytes, B256, U256,
};
use verifiable_api::provider::VerifiableApiExecutionProvider;
use verifiable_api::types::{
    AccountResponse, Block, BlockRequest, ExtendedAccessListResponse, Receipt, Step, StorageKey,
    StorageProof, Transaction, TransactionReceiptResponse, TransactionResponse, TrieAccount,
};

type Failure = &'static str;
type Provider = VerifiableApiExecutionProvider<&'static str, &'static str, &'static str>;

fn hash(byte: u8) -> B256 {
    FixedBytes([byte; 32])
}

fn block() -> Block<&'static str> {
    Block {
        number: 17,
        hash: hash(0xb0),
        state_root: hash(0xb1),
        transactions_root: hash(0xb2),
        receipts_root: hash(0xb3),
        body: "block",
    }
}

fn provider() -> VerifiableApiExecutionProvider<&'static str, &'static str, ()> {
    Provider::new("api", "cache")
}

fn found() -> Result<Option<Block<&'static str>>, ProviderError<Failure>> {
    Ok(Some(block()))
}

fn absent() -> Result<Option<Block<&'static str>>, ProviderError<Failure>> {
    Ok(None)
}

#[test]
fn provider_holds_what_it_is_made_of() {
    let plain = provider();
    assert_eq!(plain.api, "api");
    assert_eq!(plain.block_provider, "cache");
    assert!(plain.historical_provider.is_none());
    let full = Provider::with_historical_provider("api", "cache", "history");
    assert_eq!(full.historical_provider, Some("history"));
}

#[test]
fn history_is_for_numbers_and_hashes() {
    assert!(should_use_historical_provider(&BlockId::number(3)));
    assert!(should_use_historical_provider(&BlockId::hash(hash(3))));
    for tag in [
        BlockNumberOrTag::Latest,
        BlockNumberOrTag::Finalized,
        BlockNumberOrTag::Safe,
        BlockNumberOrTag::Earliest,
        BlockNumberOrTag::Pending,
    ] {
        assert!(!should_use_historical_provider(&BlockId::Number(tag)));
    }
}

#[test]
fn cached_block_needs_no_history() {
    let full = Provider::with_historical_provider("api", "cache", "history");
    let lookup = full.get_block(BlockId::number(17), true);
    assert_eq!(lookup.request, BlockRequest { block_id: BlockId::number(17), full_tx: true });
    assert_eq!(
        lookup.on_cache::<_, Failure>(Ok(Some(block()))),
        Step::Return(Ok(Some(block())))
    );
    assert_eq!(
        lookup.on_cache::<&str, Failure>(Err("broken")),
        Step::Return(Err(ProviderError::Outside("broken")))
    );
}

#[test]
fn history_is_the_second_source() {
    let full = Provider::with_historical_provider("api", "cache", "history");
    let lookup = full.get_block(BlockId::number(17), false);
    let history = HistoryLookup { request: lookup.request };
    assert_eq!(lookup.on_cache::<&str, Failure>(Ok(None)), Step::Continue(history));
    assert_eq!(history.on_history::<_, Failure>(Ok(Some(block()))), Ok(Some(block())));
    assert_eq!(history.on_history::<&str, Failure>(Ok(None)), Ok(None));
    assert_eq!(
        history.on_history::<&str, Failure>(Err("gone")),
        Err(ProviderError::Outside("gone"))
    );
}

#[test]
fn tag_or_lack_of_history_ends_the_lookup() {
    let full = Provider::with_historical_provider("api", "cache", "history");
    let tag = full.get_block(BlockId::Number(BlockNumberOrTag::Latest), false);
    assert_eq!(tag.on_cache::<&str, Failure>(Ok(None)), Step::Return(Ok(None)));
    let plain = provider().get_block(BlockId::number(17), false);
    assert_eq!(plain.on_cache::<&str, Failure>(Ok(None)), Step::Return(Ok(None)));
}

fn transaction(block_hash: Option<B256>, index: Option<u64>) -> TransactionResponse<u8> {
    TransactionResponse {
        transaction: Transaction { block_hash, transaction_index: index, body: 9 },
        transaction_proof: vec![vec![1, 2]],
    }
}

#[test]
fn transaction_is_proved_against_its_block() {
    let fetch = provider().get_transaction(hash(1));
    assert_eq!(fetch.hash, hash(1));
    let response = transaction(Some(hash(0xb0)), Some(2));
    let lookup = match fetch.on_transaction::<u8, Failure>(Ok(Some(response.clone()))) {
        Step::Continue(lookup) => lookup,
        Step::Return(_) => panic!("returned"),
    };
    assert_eq!(
        lookup.block,
        BlockRequest { block_id: BlockId::hash(hash(0xb0)), full_tx: false }
    );
    let check = |tx: &Transaction<u8>, root: B256, proof: &Vec<Vec<u8>>| -> Result<(), Failure> {
        assert_eq!((tx.body, root, proof.clone()), (9, hash(0xb2), vec![vec![1, 2]]));
        Ok(())
    };
    assert_eq!(lookup.on_block(found(), &check), Ok(Some(response.transaction)));
}

#[test]
fn unproved_transaction_is_refused() {
    let response = transaction(Some(hash(0xb0)), Some(2));
    let refuse =
        |_: &Transaction<u8>, _: B256, _: &Vec<Vec<u8>>| -> Result<(), Failure> { Err("bad") };
    let next = |found| match provider()
        .get_transaction(hash(1))
        .on_transaction::<u8, Failure>(Ok(Some(response.clone())))
    {
        Step::Continue(lookup) => lookup.on_block(found, &refuse),
        Step::Return(_) => panic!("returned"),
    };
    assert_eq!(next(found()), Err(ProviderError::Outside("bad")));
    assert_eq!(next(absent()), Err(ProviderError::BlockNotFound));
    assert_eq!(
        next(Err(ProviderError::Outside("broken"))),
        Err(ProviderError::Outside("broken"))
    );
}

fn returned<S, T>(step: Step<S, T>) -> T {
    match step {
        Step::Continue(_) => panic!("goes on"),
        Step::Return(answer) => answer,
    }
}

#[test]
fn transaction_outside_any_block_is_not_returned() {
    let fetch = provider().get_transaction(hash(1));
    assert_eq!(returned(fetch.on_transaction::<u8, Failure>(Ok(None))), Ok(None));
    assert_eq!(
        returned(fetch.on_transaction::<u8, Failure>(Ok(Some(transaction(None, None))))),
        Ok(None)
    );
    assert_eq!(
        returned(fetch.on_transaction::<u8, Failure>(Err("down"))),
        Err(ProviderError::Outside("down"))
    );
}

fn accept_transaction(_: &Transaction<u8>, root: B256, _: &Vec<Vec<u8>>) -> Result<(), Failure> {
    if root == hash(0xb2) {
        Ok(())
    } else {
        Err("wrong root")
    }
}

#[test]
fn located_transaction_stands_where_asked() {
    let lookup = provider().get_transaction_by_location(BlockId::number(17), 2);
    assert_eq!(
        lookup.block,
        BlockRequest { block_id: BlockId::number(17), full_tx: false }
    );
    assert_eq!(lookup.on_block(absent()).err(), Some(ProviderError::BlockNotFound));
    let answer = |reply| {
        let fetch = lookup.on_block(found()).ok().unwrap();
        assert_eq!(fetch.block_id, BlockId::hash(hash(0xb0)));
        assert_eq!(fetch.index, 2);
        fetch.on_transaction(reply, &accept_transaction)
    };
    let good = transaction(None, Some(2));
    assert_eq!(answer(Ok(Some(good.clone()))), Ok(Some(good.transaction)));
    assert_eq!(answer(Ok(None)), Ok(None));
    assert_eq!(
        answer(Ok(Some(transaction(None, Some(3))))),
        Err(ProviderError::TransactionIndexMismatch)
    );
    assert_eq!(
        answer(Ok(Some(transaction(None, None)))),
        Err(ProviderError::TransactionNotIncluded)
    );
    assert_eq!(answer(Err("down")), Err(ProviderError::Outside("down")));
}

fn receipt(block_hash: Option<B256>) -> TransactionReceiptResponse<u8> {
    TransactionReceiptResponse {
        receipt: Receipt {
            transaction_hash: hash(1),
            block_hash,
            transaction_index: Some(2),
            logs: Vec::new(),
            body: 9,
        },
        receipt_proof: vec![vec![3]],
    }
}

#[test]
fn receipt_is_proved_against_its_block() {
    let fetch = provider().get_receipt(hash(1));
    assert_eq!(fetch.hash, hash(1));
    assert_eq!(returned(fetch.on_receipt::<u8, Failure>(Ok(None))), Ok(None));
    assert_eq!(returned(fetch.on_receipt::<u8, Failure>(Ok(Some(receipt(None))))), Ok(None));
    assert_eq!(
        returned(fetch.on_receipt::<u8, Failure>(Err("down"))),
        Err(ProviderError::Outside("down"))
    );
    let check = |r: &Receipt<u8>, root: B256, proof: &Vec<Vec<u8>>| -> Result<(), Failure> {
        assert_eq!((r.body, root, proof.clone()), (9, hash(0xb3), vec![vec![3]]));
        Ok(())
    };
    let refuse = |_: &Receipt<u8>, _: B256, _: &Vec<Vec<u8>>| -> Result<(), Failure> { Err("bad") };
    let lookup = || match fetch.on_receipt::<u8, Failure>(Ok(Some(receipt(Some(hash(0xb0)))))) {
        Step::Continue(lookup) => lookup,
        Step::Return(_) => panic!("returned"),
    };
    assert_eq!(
        lookup().block,
        BlockRequest { block_id: BlockId::hash(hash(0xb0)), full_tx: false }
    );
    assert_eq!(
        lookup().on_block(found(), &check),
        Ok(Some(receipt(Some(hash(0xb0))).receipt))
    );
    assert_eq!(lookup().on_block(found(), &refuse), Err(ProviderError::Outside("bad")));
    assert_eq!(lookup().on_block(absent(), &check), Err(ProviderError::BlockNotFound));
}

#[test]
fn block_receipts_are_checked_against_the_block() {
    let lookup = provider().get_block_receipts(BlockId::Number(BlockNumberOrTag::Latest));
    assert_eq!(
        lookup.block,
        BlockRequest { block_id: BlockId::Number(BlockNumberOrTag::Latest), full_tx: false }
    );
    assert_eq!(returned(lookup.on_block::<&str, u8, Failure>(absent())), Ok(None));
    assert_eq!(
        returned(lookup.on_block::<&str, u8, Failure>(Err(ProviderError::Outside("broken")))),
        Err(ProviderError::Outside("broken"))
    );
    let check = |receipts: &Vec<Receipt<u8>>, b: &Block<&str>| -> Result<(), Failure> {
        assert_eq!(b.body, "block");
        if receipts.len() == 1 {
            Ok(())
        } else {
            Err("wrong root")
        }
    };
    let answer = |reply| match lookup.on_block::<&str, u8, Failure>(found()) {
        Step::Continue(fetch) => {
            assert_eq!(fetch.block_id, BlockId::number(17));
            fetch.on_receipts(reply, &check)
        }
        Step::Return(_) => panic!("returned"),
    };
    let one = vec![receipt(None).receipt];
    assert_eq!(answer(Ok(Some(one.clone()))), Ok(Some(one)));
    assert_eq!(answer(Ok(Some(Vec::new()))), Err(ProviderError::Outside("wrong root")));
    assert_eq!(
        answer(Ok(None)),
        Err(ProviderError::Execution(ExecutionError::NoReceiptsForBlock(17)))
    );
    assert_eq!(answer(Err("down")), Err(ProviderError::Outside("down")));
}

fn address(byte: u8) -> Address {
    FixedBytes([byte; 20])
}

fn account(code: Option<Vec<u8>>) -> AccountResponse {
    AccountResponse {
        account: TrieAccount {
            nonce: 5,
            balance: U256::from_hash(hash(6)),
            storage_root: hash(7),
            code_hash: hash(8),
        },
        code,
        account_proof: vec![vec![1]],
        storage_proof: vec![StorageProof {
            key: StorageKey::Hash(hash(2)),
            value: U256::from_hash(hash(3)),
            proof: vec![vec![4]],
        }],
    }
}

/// Runs the checks on an account, with the check of that name failing, and says which were made.
fn run_checks(code: Option<Vec<u8>>, failing: &str) -> (Result<(), String>, Vec<&'static str>) {
    let made = RefCell::new(Vec::new());
    let outcome = |name: &'static str| -> Result<(), String> {
        made.borrow_mut().push(name);
        if name == failing {
            Err(format!("bad {}", name))
        } else {
            Ok(())
        }
    };
    let checks = AccountChecks {
        account_proof: |claim: &AccountProof<'_>, root: B256| -> Result<(), String> {
            assert_eq!(root, hash(0xb1));
            assert_eq!(claim.address, address(1));
            assert_eq!(claim.balance, U256::from_hash(hash(6)));
            assert_eq!(claim.code_hash, hash(8));
            assert_eq!(claim.nonce, 5);
            assert_eq!(claim.storage_hash, hash(7));
            assert_eq!(*claim.account_proof, vec![vec![1]]);
            assert_eq!(claim.storage_proof.len(), 1);
            outcome("account")
        },
        storage_proof: |_: &AccountProof<'_>| -> Result<(), String> { outcome("storage") },
        code_hash: |_: &AccountProof<'_>, code: &Vec<u8>| -> Result<(), String> {
            assert_eq!(*code, vec![0xfe]);
            outcome("code")
        },
    };
    let verdict = verify_account(address(1), &account(code), &block(), &checks);
    (verdict, made.into_inner())
}

#[test]
fn account_passes_three_checks() {
    let with_code = || Some(vec![0xfe]);
    assert_eq!(run_checks(with_code(), ""), (Ok(()), vec!["account", "storage", "code"]));
    assert_eq!(run_checks(None, "code"), (Ok(()), vec!["account", "storage"]));
    assert_eq!(
        run_checks(with_code(), "account"),
        (Err("bad account".to_string()), vec!["account"])
    );
    assert_eq!(
        run_checks(with_code(), "storage"),
        (Err("bad storage".to_string()), vec!["account", "storage"])
    );
    assert_eq!(
        run_checks(with_code(), "code"),
        (Err("bad code".to_string()), vec!["account", "storage", "code"])
    );
}

fn account_ok(claim: &AccountProof<'_>, root: B256) -> Result<(), Failure> {
    if claim.address == address(9) {
        Err("forged")
    } else if root != hash(0xb1) {
        Err("wrong root")
    } else {
        Ok(())
    }
}

fn storage_ok(_: &AccountProof<'_>) -> Result<(), Failure> {
    Ok(())
}

fn code_ok(_: &AccountProof<'_>, _: &Vec<u8>) -> Result<(), Failure> {
    Ok(())
}

#[test]
fn account_is_asked_for_at_the_block_found() {
    let lookup = || {
        provider().get_account(
            address(1),
            vec![hash(0x31), hash(0x32)],
            true,
            BlockId::Number(BlockNumberOrTag::Safe),
        )
    };
    assert_eq!(
        lookup().block,
        BlockRequest { block_id: BlockId::Number(BlockNumberOrTag::Safe), full_tx: false }
    );
    assert_eq!(lookup().on_block(absent()).err(), Some(ProviderError::BlockNotFound));
    let fetch = || lookup().on_block(found()).ok().unwrap();
    let request = fetch().request;
    assert_eq!(request.address, address(1));
    assert_eq!(request.slots, vec![U256::from_hash(hash(0x31)), U256::from_hash(hash(0x32))]);
    assert_eq!(request.block_id, Some(BlockId::number(17)));
    assert!(request.with_code);
    let checks =
        AccountChecks { account_proof: account_ok, storage_proof: storage_ok, code_hash: code_ok };
    assert_eq!(fetch().on_account(Ok(account(None)), &checks), Ok(account(None)));
    assert_eq!(fetch().on_account(Err("down"), &checks), Err(ProviderError::Outside("down")));
}

#[test]
fn forged_account_is_refused() {
    let fetch = provider()
        .get_account(address(9), Vec::new(), false, BlockId::number(17))
        .on_block(found())
        .ok()
        .unwrap();
    let checks =
        AccountChecks { account_proof: account_ok, storage_proof: storage_ok, code_hash: code_ok };
    assert_eq!(
        fetch.on_account(Ok(account(None)), &checks),
        Err(ProviderError::Outside("forged"))
    );
}

fn hint(addresses: &[u8]) -> ExtendedAccessListResponse {
    let mut accounts = KeyedMap::new();
    for byte in addresses {
        accounts.insert(address(*byte), account(None));
    }
    ExtendedAccessListResponse { accounts }
}

#[test]
fn hint_is_returned_once_every_account_is_proved() {
    let lookup = || provider().get_execution_hint("tx", true, BlockId::number(17));
    assert_eq!(
        lookup().block,
        BlockRequest { block_id: BlockId::number(17), full_tx: false }
    );
    assert_eq!(lookup().on_block(absent()).err(), Some(ProviderError::BlockNotFound));
    let fetch = || lookup().on_block(found()).ok().unwrap();
    let request = fetch().request;
    assert_eq!(request.tx, "tx");
    assert!(request.validate);
    assert_eq!(request.block_id, Some(BlockId::hash(hash(0xb0))));
    let checks =
        AccountChecks { account_proof: account_ok, storage_proof: storage_ok, code_hash: code_ok };
    let accounts = fetch().on_hint(Ok(hint(&[1, 2])), &checks).ok().unwrap();
    assert_eq!(accounts.len(), 2);
    assert_eq!(accounts.get(&address(2)), Some(&account(None)));
    assert_eq!(
        fetch().on_hint(Ok(hint(&[1, 9, 2])), &checks).err(),
        Some(ProviderError::Outside("forged"))
    );
    assert_eq!(
        fetch().on_hint(Err("down"), &checks).err(),
        Some(ProviderError::Outside("down"))
    );
}

#[test]
fn located_transaction_depends_on_the_block_and_not_its_name() {
    let names = [BlockId::Number(BlockNumberOrTag::Latest), BlockId::number(17)];
    let mut questions = Vec::new();
    let mut answers = Vec::new();
    for name in names {
        let fetch = provider()
            .get_transaction_by_location(name, 2)
            .on_block(found())
            .ok()
            .unwrap();
        questions.push((fetch.block_id, fetch.index));
        let reply = Ok(Some(transaction(None, Some(2))));
        answers.push(fetch.on_transaction(reply, &accept_transaction));
    }
    assert_eq!(questions, vec![(BlockId::hash(hash(0xb0)), 2); 2]);
    assert_eq!(answers[0], Ok(Some(transaction(None, Some(2)).transaction)));
    assert_eq!(answers[0], answers[1]);
}

#[test]
fn account_and_hint_depend_on_the_block_and_not_its_name() {
    let checks =
        AccountChecks { account_proof: account_ok, storage_proof: storage_ok, code_hash: code_ok };
    let mut requests = Vec::new();
    let mut answers = Vec::new();
    let mut hints = Vec::new();
    for name in [BlockId::Number(BlockNumberOrTag::Latest), BlockId::number(17)] {
        let fetch = provider()
            .get_account(address(1), vec![hash(0x31)], false, name)
            .on_block(found())
            .ok()
            .unwrap();
        requests.push(fetch.request.clone());
        answers.push(fetch.on_account(Ok(account(None)), &checks));
        let hinted = provider().get_execution_hint("tx", false, name).on_block(found()).ok().unwrap();
        assert_eq!(hinted.request.block_id, Some(BlockId::hash(hash(0xb0))));
        hints.push(hinted.on_hint(Ok(hint(&[1, 9])), &checks).err());
    }
    assert_eq!(requests[0], requests[1]);
    assert_eq!(answers[0], Ok(account(None)));
    assert_eq!(answers[0], answers[1]);
    assert_eq!(hints, vec![Some(ProviderError::Outside("forged")); 2]);
}

#[test]
fn leaving_the_code_out_keeps_acceptance() {
    let (with_code, _) = run_checks(Some(vec![0xfe]), "");
    let (without_code, _) = run_checks(None, "");
    assert_eq!((with_code, without_code), (Ok(()), Ok(())));
    let (with_code, _) = run_checks(Some(vec![0xfe]), "code");
    let (without_code, _) = run_checks(None, "code");
    assert_eq!((with_code, without_code), (Err("bad code".to_string()), Ok(())));
}
