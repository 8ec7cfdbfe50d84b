//! What the requests for accounts come to, from the arguments they are made with to the answers
//! that they get.

use vstd::prelude::*;

use crate::accounts::{
    accounts_refused, slot_numbers, verify_account, verify_accounts, AccountBlockLookup,
    AccountChecks, AccountFetch, AccountProof, HintBlockLookup, HintFetch,
};
use crate::error::ProviderError;
use crate::keyed_map::KeyedMap;
use crate::primitives::{Address, BlockId, BlockNumberOrTag, B256, U256};
use crate::provider::VerifiableApiExecutionProvider;
use crate::types::{AccountResponse, Block, ExtendedAccessListResponse};

verus! {

/// What the checks are made of is what the reply says of the account, under the address that it was
/// asked for.
pub proof fn law_claim_is_what_the_reply_says<'a>(
    address: Address,
    account: &'a AccountResponse,
    claim: AccountProof<'a>,
)
    requires
        call_ensures(AccountProof::<'a>::claim, (address, account), claim),
    ensures
        claim.address == address,
        claim.balance == account.account.balance,
        claim.code_hash == account.account.code_hash,
        claim.nonce == account.account.nonce,
        claim.storage_hash == account.account.storage_root,
        *claim.account_proof == account.account_proof,
        *claim.storage_proof == account.storage_proof,
{
}

/// An account is accepted only if its proof checks against the state root of the block, the proofs
/// of its slots check, and its code, where it came, checks. It is refused only because one of these
/// failed while those before it passed, and with the error of that one.
pub proof fn law_account_verdict<B, E, P, S, C>(
    address: Address,
    account: AccountResponse,
    block: Block<B>,
    checks: AccountChecks<P, S, C>,
    verdict: Result<(), E>,
) where
    P: Fn(&AccountProof<'_>, B256) -> Result<(), E>,
    S: Fn(&AccountProof<'_>) -> Result<(), E>,
    C: Fn(&AccountProof<'_>, &Vec<u8>) -> Result<(), E>,

    requires
        call_ensures(
            verify_account::<B, E, P, S, C>,
            (address, &account, &block, &checks),
            verdict,
        ),
    ensures
        ({
            let claim = AccountProof {
                address,
                balance: account.account.balance,
                code_hash: account.account.code_hash,
                nonce: account.account.nonce,
                storage_hash: account.account.storage_root,
                account_proof: &account.account_proof,
                storage_proof: &account.storage_proof,
            };
            let rooted = |outcome: Result<(), E>|
                call_ensures(checks.account_proof, (&claim, block.state_root), outcome);
            let stored = |outcome: Result<(), E>|
                call_ensures(checks.storage_proof, (&claim,), outcome);
            let coded = |outcome: Result<(), E>|
                account.code matches Some(code) && call_ensures(
                    checks.code_hash,
                    (&claim, &code),
                    outcome,
                );
            match verdict {
                Ok(_) => rooted(Ok(())) && stored(Ok(())) && (account.code is Some ==> coded(
                    Ok(()),
                )),
                Err(error) => {
                    ||| rooted(Err(error))
                    ||| rooted(Ok(())) && stored(Err(error))
                    ||| rooted(Ok(())) && stored(Ok(())) && coded(Err(error))
                },
            }
        }),
{
}

/// The slots are asked for in the order in which they were named, each as the number that its bytes
/// write down.
pub proof fn law_slots_keep_their_order(slots: Vec<B256>, numbers: Vec<U256>)
    requires
        call_ensures(slot_numbers, (&slots,), numbers),
    ensures
        numbers@.len() == slots@.len(),
        forall|i: int|
            0 <= i < slots@.len() ==> (#[trigger] numbers@[i]).be_bytes.0@ == slots@[i].0@,
{
}

/// The request for an account looks up the block that the caller named. The API is asked for that
/// account, with those slots, with the code exactly where the caller wants it, and at the number of
/// the block that was found.
pub proof fn law_account_is_asked_for_as_wanted<A, Q, H, B, E>(
    provider: VerifiableApiExecutionProvider<A, Q, H>,
    address: Address,
    slots: Vec<B256>,
    with_code: bool,
    block_id: BlockId,
    lookup: AccountBlockLookup,
    found: Result<Option<Block<B>>, ProviderError<E>>,
    next: Result<AccountFetch<B>, ProviderError<E>>,
)
    requires
        call_ensures(
            VerifiableApiExecutionProvider::<A, Q, H>::get_account,
            (&provider, address, slots, with_code, block_id),
            lookup,
        ),
        call_ensures(AccountBlockLookup::on_block::<B, E>, (lookup, found), next),
    ensures
        lookup.block.block_id == block_id && !lookup.block.full_tx,
        found matches Err(error) ==> next == Err::<AccountFetch<B>, _>(error),
        found matches Ok(None) ==> next == Err::<AccountFetch<B>, _>(
            ProviderError::<E>::BlockNotFound,
        ),
        found matches Ok(Some(block)) ==> (next matches Ok(fetch) && {
            &&& fetch.request.address == address
            &&& fetch.request.with_code == with_code
            &&& fetch.request.block_id == Some(
                BlockId::Number(BlockNumberOrTag::Number(block.number)),
            )
            &&& fetch.request.slots@.len() == slots@.len()
            &&& forall|i: int|
                0 <= i < slots@.len() ==> (#[trigger] fetch.request.slots@[i]).be_bytes.0@
                    == slots@[i].0@
        }),
{
}

/// The account that the API sent is the answer, unchanged, if it passes its checks, made of the
/// account that the caller asked for and of the state root of the block that was found. No other
/// answer is given, and the request fails only with the API's error or that of a check.
pub proof fn law_account_answer<A, Q, H, B, E, P, S, C>(
    provider: VerifiableApiExecutionProvider<A, Q, H>,
    address: Address,
    slots: Vec<B256>,
    with_code: bool,
    block_id: BlockId,
    lookup: AccountBlockLookup,
    block: Block<B>,
    fetch: AccountFetch<B>,
    reply: Result<AccountResponse, E>,
    checks: AccountChecks<P, S, C>,
    answer: Result<AccountResponse, ProviderError<E>>,
) where
    P: Fn(&AccountProof<'_>, B256) -> Result<(), E>,
    S: Fn(&AccountProof<'_>) -> Result<(), E>,
    C: Fn(&AccountProof<'_>, &Vec<u8>) -> Result<(), E>,

    requires
        call_ensures(
            VerifiableApiExecutionProvider::<A, Q, H>::get_account,
            (&provider, address, slots, with_code, block_id),
            lookup,
        ),
        call_ensures(
            AccountBlockLookup::on_block::<B, E>,
            (lookup, Ok::<_, ProviderError<E>>(Some(block))),
            Ok::<_, ProviderError<E>>(fetch),
        ),
        call_ensures(
            AccountFetch::<B>::on_account::<E, P, S, C>,
            (fetch, reply, &checks),
            answer,
        ),
    ensures
        reply matches Err(error) ==> answer == Err::<AccountResponse, _>(
            ProviderError::Outside(error),
        ),
        reply matches Ok(account) ==> {
            let claim = AccountProof {
                address,
                balance: account.account.balance,
                code_hash: account.account.code_hash,
                nonce: account.account.nonce,
                storage_hash: account.account.storage_root,
                account_proof: &account.account_proof,
                storage_proof: &account.storage_proof,
            };
            let rooted = |outcome: Result<(), E>|
                call_ensures(checks.account_proof, (&claim, block.state_root), outcome);
            let stored = |outcome: Result<(), E>|
                call_ensures(checks.storage_proof, (&claim,), outcome);
            let coded = |outcome: Result<(), E>|
                account.code matches Some(code) && call_ensures(
                    checks.code_hash,
                    (&claim, &code),
                    outcome,
                );
            match answer {
                Ok(returned) => returned == account && rooted(Ok(())) && stored(Ok(())) && (
                account.code is Some ==> coded(Ok(()))),
                Err(error) => error matches ProviderError::Outside(outside) && {
                    ||| rooted(Err(outside))
                    ||| rooted(Ok(())) && stored(Err(outside))
                    ||| rooted(Ok(())) && stored(Ok(())) && coded(Err(outside))
                },
            }
        },
{
}

/// The request for an execution hint looks up the block that the caller named. The API is asked for
/// the caller's transaction, validated exactly where the caller wants it, and at the hash of the
/// block that was found.
pub proof fn law_hint_is_asked_for_as_wanted<A, P, H, Q, B, E>(
    provider: VerifiableApiExecutionProvider<A, P, H>,
    tx: Q,
    validate: bool,
    block_id: BlockId,
    lookup: HintBlockLookup<Q>,
    found: Result<Option<Block<B>>, ProviderError<E>>,
    next: Result<HintFetch<Q, B>, ProviderError<E>>,
)
    requires
        call_ensures(
            VerifiableApiExecutionProvider::<A, P, H>::get_execution_hint::<Q>,
            (&provider, tx, validate, block_id),
            lookup,
        ),
        call_ensures(HintBlockLookup::<Q>::on_block::<B, E>, (lookup, found), next),
    ensures
        lookup.block.block_id == block_id && !lookup.block.full_tx,
        found matches Err(error) ==> next == Err::<HintFetch<Q, B>, _>(error),
        found matches Ok(None) ==> next == Err::<HintFetch<Q, B>, _>(
            ProviderError::<E>::BlockNotFound,
        ),
        found matches Ok(Some(block)) ==> (next matches Ok(fetch) && {
            &&& fetch.request.tx == tx
            &&& fetch.request.validate == validate
            &&& fetch.request.block_id == Some(
                BlockId::Hash { block_hash: block.hash, require_canonical: None },
            )
        }),
{
}

/// All accounts are accepted only if each of them passes its checks under its own address; and if
/// none fails a check, they are. A refusal comes with the error of a check that some account
/// failed.
pub proof fn law_accounts_verdict<B, E, P, S, C>(
    accounts: KeyedMap<20, AccountResponse>,
    block: Block<B>,
    checks: AccountChecks<P, S, C>,
    verdict: Result<(), E>,
) where
    P: Fn(&AccountProof<'_>, B256) -> Result<(), E>,
    S: Fn(&AccountProof<'_>) -> Result<(), E>,
    C: Fn(&AccountProof<'_>, &Vec<u8>) -> Result<(), E>,

    requires
        accounts.well_formed(),
        call_ensures(verify_accounts::<B, E, P, S, C>, (&accounts, &block, &checks), verdict),
    ensures
        verdict is Ok ==> forall|address: Address| #[trigger]
            accounts@.contains_key(address) ==> {
                let account = accounts@[address];
                let claim = AccountProof {
                    address,
                    balance: account.account.balance,
                    code_hash: account.account.code_hash,
                    nonce: account.account.nonce,
                    storage_hash: account.account.storage_root,
                    account_proof: &account.account_proof,
                    storage_proof: &account.storage_proof,
                };
                &&& call_ensures(checks.account_proof, (&claim, block.state_root), Ok::<(), E>(()))
                &&& call_ensures(checks.storage_proof, (&claim,), Ok::<(), E>(()))
                &&& account.code matches Some(code) ==> call_ensures(
                    checks.code_hash,
                    (&claim, &code),
                    Ok::<(), E>(()),
                )
            },
        verdict matches Err(error) ==> exists|address: Address| #[trigger]
            accounts@.contains_key(address) && {
                let account = accounts@[address];
                let claim = AccountProof {
                    address,
                    balance: account.account.balance,
                    code_hash: account.account.code_hash,
                    nonce: account.account.nonce,
                    storage_hash: account.account.storage_root,
                    account_proof: &account.account_proof,
                    storage_proof: &account.storage_proof,
                };
                ||| call_ensures(
                    checks.account_proof,
                    (&claim, block.state_root),
                    Err::<(), E>(error),
                )
                ||| call_ensures(checks.storage_proof, (&claim,), Err::<(), E>(error))
                ||| account.code matches Some(code) && call_ensures(
                    checks.code_hash,
                    (&claim, &code),
                    Err::<(), E>(error),
                )
            },
{
    if verdict is Ok {
        assert forall|address: Address| #[trigger]
            accounts@.contains_key(address) implies checks.accept::<E>(
            address,
            accounts@[address],
            block.state_root,
        ) by {
            let i = accounts.lemma_key(address);
            assert(accounts.entries()[i].0 == address);
        }
    }
    if let Err(error) = verdict {
        let entries = accounts.entries();
        assert(accounts_refused(checks, entries, block.state_root, error));
        let i = choose|i: int|
            0 <= i < entries.len() && checks.refuse(
                (#[trigger] entries[i]).0,
                entries[i].1,
                block.state_root,
                error,
            );
        accounts.lemma_entry(i);
        assert(accounts@.contains_key(entries[i].0));
    }
}

/// The accounts that the API sent are the answer, all of them and unchanged, if each passes its
/// checks, made under its own address and of the state root of the block that was found. No other
/// answer is given, and the request fails only with the API's error or that of a check.
pub proof fn law_hint_answer<A, D, H, Q, B, E, P, S, C>(
    provider: VerifiableApiExecutionProvider<A, D, H>,
    tx: Q,
    validate: bool,
    block_id: BlockId,
    lookup: HintBlockLookup<Q>,
    block: Block<B>,
    fetch: HintFetch<Q, B>,
    reply: Result<ExtendedAccessListResponse, E>,
    checks: AccountChecks<P, S, C>,
    answer: Result<KeyedMap<20, AccountResponse>, ProviderError<E>>,
) where
    P: Fn(&AccountProof<'_>, B256) -> Result<(), E>,
    S: Fn(&AccountProof<'_>) -> Result<(), E>,
    C: Fn(&AccountProof<'_>, &Vec<u8>) -> Result<(), E>,

    requires
        reply matches Ok(response) ==> response.accounts.well_formed(),
        call_ensures(
            VerifiableApiExecutionProvider::<A, D, H>::get_execution_hint::<Q>,
            (&provider, tx, validate, block_id),
            lookup,
        ),
        call_ensures(
            HintBlockLookup::<Q>::on_block::<B, E>,
            (lookup, Ok::<_, ProviderError<E>>(Some(block))),
            Ok::<_, ProviderError<E>>(fetch),
        ),
        call_ensures(
            HintFetch::<Q, B>::on_hint::<E, P, S, C>,
            (fetch, reply, &checks),
            answer,
        ),
    ensures
        reply matches Err(error) ==> answer == Err::<KeyedMap<20, AccountResponse>, _>(
            ProviderError::Outside(error),
        ),
        reply matches Ok(response) ==> (answer matches Ok(returned) ==> {
            &&& returned == response.accounts
            &&& forall|address: Address| #[trigger]
                response.accounts@.contains_key(address) ==> {
                    let account = response.accounts@[address];
                    let claim = AccountProof {
                        address,
                        balance: account.account.balance,
                        code_hash: account.account.code_hash,
                        nonce: account.account.nonce,
                        storage_hash: account.account.storage_root,
                        account_proof: &account.account_proof,
                        storage_proof: &account.storage_proof,
                    };
                    &&& call_ensures(
                        checks.account_proof,
                        (&claim, block.state_root),
                        Ok::<(), E>(()),
                    )
                    &&& call_ensures(checks.storage_proof, (&claim,), Ok::<(), E>(()))
                    &&& account.code matches Some(code) ==> call_ensures(
                        checks.code_hash,
                        (&claim, &code),
                        Ok::<(), E>(()),
                    )
                }
        }),
        reply matches Ok(response) ==> (answer matches Err(error) ==> (
        error matches ProviderError::Outside(outside) && exists|address: Address| #[trigger]
            response.accounts@.contains_key(address) && {
                let account = response.accounts@[address];
                let claim = AccountProof {
                    address,
                    balance: account.account.balance,
                    code_hash: account.account.code_hash,
                    nonce: account.account.nonce,
                    storage_hash: account.account.storage_root,
                    account_proof: &account.account_proof,
                    storage_proof: &account.storage_proof,
                };
                ||| call_ensures(
                    checks.account_proof,
                    (&claim, block.state_root),
                    Err::<(), E>(outside),
                )
                ||| call_ensures(checks.storage_proof, (&claim,), Err::<(), E>(outside))
                ||| account.code matches Some(code) && call_ensures(
                    checks.code_hash,
                    (&claim, &code),
                    Err::<(), E>(outside),
                )
            })),
{
    if let Ok(response) = reply {
        let accounts = response.accounts;
        let entries = accounts.entries();
        assert(fetch.block == block);
        match answer {
            Ok(_) => {
                assert forall|address: Address| #[trigger]
                    accounts@.contains_key(address) implies checks.accept::<E>(
                    address,
                    accounts@[address],
                    block.state_root,
                ) by {
                    let i = accounts.lemma_key(address);
                    assert(entries[i].0 == address);
                }
            },
            Err(error) => {
                let outside = error->Outside_0;
                assert(accounts_refused(checks, entries, block.state_root, outside));
                let i = choose|i: int|
                    0 <= i < entries.len() && checks.refuse(
                        (#[trigger] entries[i]).0,
                        entries[i].1,
                        block.state_root,
                        outside,
                    );
                accounts.lemma_entry(i);
                assert(accounts@.contains_key(entries[i].0));
            },
        }
    }
}

} // verus!
