//! The requests for an account, and for the accounts that a transaction is expected to touch.

use vstd::prelude::*;

use crate::block_lookup::needed_block;
use crate::error::ProviderError;
use crate::keyed_map::KeyedMap;
use crate::primitives::{Address, BlockId, B256, U256};
use crate::types::{
    AccountResponse, Block, BlockRequest, ExtendedAccessListResponse, StorageProof,
};

verus! {

/// The claim about an account that its proofs are checked for.
#[derive(Clone, Copy, Debug, PartialEq, Eq)]
pub struct AccountProof<'a> {
    pub address: Address,
    pub balance: U256,
    pub code_hash: B256,
    pub nonce: u64,
    pub storage_hash: B256,
    pub account_proof: &'a Vec<Vec<u8>>,
    pub storage_proof: &'a Vec<StorageProof>,
}

impl<'a> AccountProof<'a> {
    /// What a reply claims about the account of this address, in contracts.
    pub open spec fn spec_claim(address: Address, account: &'a AccountResponse) -> Self {
        AccountProof {
            address,
            balance: account.account.balance,
            code_hash: account.account.code_hash,
            nonce: account.account.nonce,
            storage_hash: account.account.storage_root,
            account_proof: &account.account_proof,
            storage_proof: &account.storage_proof,
        }
    }

    /// What a reply claims about the account of this address.
    #[verifier::when_used_as_spec(spec_claim)]
    pub fn claim(address: Address, account: &'a AccountResponse) -> (claim: Self)
        ensures
            claim == Self::spec_claim(address, account),
    {
        AccountProof {
            address,
            balance: account.account.balance,
            code_hash: account.account.code_hash,
            nonce: account.account.nonce,
            storage_hash: account.account.storage_root,
            account_proof: &account.account_proof,
            storage_proof: &account.storage_proof,
        }
    }
}

/// The three checks that an account has to pass: its proof against a state root, the proofs of its
/// storage slots, and its code against its code hash.
pub struct AccountChecks<P, S, C> {
    pub account_proof: P,
    pub storage_proof: S,
    pub code_hash: C,
}

impl<P, S, C> AccountChecks<P, S, C> {
    /// The checks can be made of any account.
    pub open spec fn callable<
        E,
    >(&self) -> bool where
        P: Fn(&AccountProof<'_>, B256) -> Result<(), E>,
        S: Fn(&AccountProof<'_>) -> Result<(), E>,
        C: Fn(&AccountProof<'_>, &Vec<u8>) -> Result<(), E>,
     {
        &&& forall|claim: &AccountProof<'_>, root: B256|
            call_requires(self.account_proof, (claim, root))
        &&& forall|claim: &AccountProof<'_>| call_requires(self.storage_proof, (claim,))
        &&& forall|claim: &AccountProof<'_>, code: &Vec<u8>|
            call_requires(self.code_hash, (claim, code))
    }

    /// The account passes all checks that apply to it. Its code is checked only where it came.
    pub open spec fn accept<
        E,
    >(&self, address: Address, account: AccountResponse, state_root: B256) -> bool where
        P: Fn(&AccountProof<'_>, B256) -> Result<(), E>,
        S: Fn(&AccountProof<'_>) -> Result<(), E>,
        C: Fn(&AccountProof<'_>, &Vec<u8>) -> Result<(), E>,
     {
        let claim = AccountProof::claim(address, &account);
        &&& call_ensures(self.account_proof, (&claim, state_root), Ok::<(), E>(()))
        &&& call_ensures(self.storage_proof, (&claim,), Ok::<(), E>(()))
        &&& account.code matches Some(code) ==> call_ensures(
            self.code_hash,
            (&claim, &code),
            Ok::<(), E>(()),
        )
    }

    /// One check fails with this error, and the account passes those before it.
    pub open spec fn refuse<
        E,
    >(&self, address: Address, account: AccountResponse, state_root: B256, error: E) -> bool where
        P: Fn(&AccountProof<'_>, B256) -> Result<(), E>,
        S: Fn(&AccountProof<'_>) -> Result<(), E>,
        C: Fn(&AccountProof<'_>, &Vec<u8>) -> Result<(), E>,
     {
        let claim = AccountProof::claim(address, &account);
        ||| call_ensures(self.account_proof, (&claim, state_root), Err::<(), E>(error))
        ||| {
            &&& call_ensures(self.account_proof, (&claim, state_root), Ok::<(), E>(()))
            &&& call_ensures(self.storage_proof, (&claim,), Err::<(), E>(error))
        }
        ||| {
            &&& call_ensures(self.account_proof, (&claim, state_root), Ok::<(), E>(()))
            &&& call_ensures(self.storage_proof, (&claim,), Ok::<(), E>(()))
            &&& account.code matches Some(code) && call_ensures(
                self.code_hash,
                (&claim, &code),
                Err::<(), E>(error),
            )
        }
    }
}

impl<P, S, C> AccountChecks<P, S, C> {
    /// The checks may come to this verdict on the account.
    pub open spec fn decide<
        E,
    >(
        &self,
        address: Address,
        account: AccountResponse,
        state_root: B256,
        verdict: Result<(), E>,
    ) -> bool where
        P: Fn(&AccountProof<'_>, B256) -> Result<(), E>,
        S: Fn(&AccountProof<'_>) -> Result<(), E>,
        C: Fn(&AccountProof<'_>, &Vec<u8>) -> Result<(), E>,
     {
        match verdict {
            Ok(_) => self.accept::<E>(address, account, state_root),
            Err(error) => self.refuse(address, account, state_root, error),
        }
    }

    /// Each check comes to one verdict on one input.
    pub open spec fn is_function<
        E,
    >(&self) -> bool where
        P: Fn(&AccountProof<'_>, B256) -> Result<(), E>,
        S: Fn(&AccountProof<'_>) -> Result<(), E>,
        C: Fn(&AccountProof<'_>, &Vec<u8>) -> Result<(), E>,
     {
        &&& forall|claim: &AccountProof<'_>, root: B256, a: Result<(), E>, b: Result<(), E>|
            #[trigger] call_ensures(self.account_proof, (claim, root), a)
                && #[trigger] call_ensures(self.account_proof, (claim, root), b) ==> a == b
        &&& forall|claim: &AccountProof<'_>, a: Result<(), E>, b: Result<(), E>|
            #[trigger] call_ensures(self.storage_proof, (claim,), a)
                && #[trigger] call_ensures(self.storage_proof, (claim,), b) ==> a == b
        &&& forall|claim: &AccountProof<'_>, code: &Vec<u8>, a: Result<(), E>, b: Result<(), E>|
            #[trigger] call_ensures(self.code_hash, (claim, code), a)
                && #[trigger] call_ensures(self.code_hash, (claim, code), b) ==> a == b
    }
}

/// Checks the account of this address, as a reply describes it, against the state of a block.
pub fn verify_account<B, E, P, S, C>(
    address: Address,
    account: &AccountResponse,
    block: &Block<B>,
    checks: &AccountChecks<P, S, C>,
) -> (verdict: Result<(), E>) where
    P: Fn(&AccountProof<'_>, B256) -> Result<(), E>,
    S: Fn(&AccountProof<'_>) -> Result<(), E>,
    C: Fn(&AccountProof<'_>, &Vec<u8>) -> Result<(), E>,

    requires
        checks.callable::<E>(),
    ensures
        checks.decide(address, *account, block.state_root, verdict),
{
    let claim = AccountProof::claim(address, account);
    match (checks.account_proof)(&claim, block.state_root) {
        Ok(unit) => {
            assert(unit == ());
        },
        Err(error) => {
            return Err(error);
        },
    }
    match (checks.storage_proof)(&claim) {
        Ok(unit) => {
            assert(unit == ());
        },
        Err(error) => {
            return Err(error);
        },
    }
    if let Some(code) = &account.code {
        match (checks.code_hash)(&claim, code) {
            Ok(unit) => {
                assert(unit == ());
            },
            Err(error) => {
                return Err(error);
            },
        }
    }
    Ok(())
}

/// The slots as numbers, one by one.
pub open spec fn is_slot_numbers(numbers: Seq<U256>, slots: Seq<B256>) -> bool {
    &&& numbers.len() == slots.len()
    &&& forall|i: int| 0 <= i < slots.len() ==> (#[trigger] numbers[i]).be_bytes == slots[i]
}

/// The slots as numbers, one by one.
pub fn slot_numbers(slots: &Vec<B256>) -> (numbers: Vec<U256>)
    ensures
        is_slot_numbers(numbers@, slots@),
{
    let mut numbers: Vec<U256> = Vec::new();
    let mut i: usize = 0;
    while i < slots.len()
        invariant
            i <= slots@.len(),
            numbers@.len() == i,
            forall|j: int| 0 <= j < i ==> (#[trigger] numbers@[j]).be_bytes == slots@[j],
        decreases slots@.len() - i,
    {
        numbers.push(U256::from_hash(slots[i]));
        i = i + 1;
    }
    numbers
}

/// The account to ask the API for.
#[derive(Clone, Debug, PartialEq, Eq)]
pub struct AccountRequest {
    pub address: Address,
    pub slots: Vec<U256>,
    pub block_id: Option<BlockId>,
    pub with_code: bool,
}

/// Waits for the block that `block` names, in whose state an account is wanted.
pub struct AccountBlockLookup {
    pub block: BlockRequest,
    pub address: Address,
    pub slots: Vec<B256>,
    pub with_code: bool,
}

/// Waits for the API's reply to `request`, to be checked against the state of `block`.
pub struct AccountFetch<B> {
    pub request: AccountRequest,
    pub block: Block<B>,
}

impl AccountBlockLookup {
    /// This is what the block that was found calls for.
    pub open spec fn leads_to<B, E>(
        self,
        reply: Result<Option<Block<B>>, ProviderError<E>>,
        next: Result<AccountFetch<B>, ProviderError<E>>,
    ) -> bool {
        match needed_block(reply) {
            Err(error) => next == Err::<AccountFetch<B>, _>(error),
            Ok(block) => next matches Ok(fetch) && {
                &&& fetch.block == block
                &&& fetch.request.address == self.address
                &&& is_slot_numbers(fetch.request.slots@, self.slots@)
                &&& fetch.request.block_id == Some(BlockId::number(block.number))
                &&& fetch.request.with_code == self.with_code
            },
        }
    }

    /// The account is asked for at the number of the block that was found.
    pub fn on_block<B, E>(self, reply: Result<Option<Block<B>>, ProviderError<E>>) -> (next: Result<
        AccountFetch<B>,
        ProviderError<E>,
    >)
        ensures
            self.leads_to(reply, next),
    {
        match needed_block(reply) {
            Err(error) => Err(error),
            Ok(block) => {
                let request = AccountRequest {
                    address: self.address,
                    slots: slot_numbers(&self.slots),
                    block_id: Some(BlockId::number(block.number)),
                    with_code: self.with_code,
                };
                Ok(AccountFetch { request, block })
            },
        }
    }
}

impl<B> AccountFetch<B> {
    /// Given this reply, the request may be answered this way.
    pub open spec fn answers<E, P, S, C>(
        self,
        reply: Result<AccountResponse, E>,
        checks: AccountChecks<P, S, C>,
        account: Result<AccountResponse, ProviderError<E>>,
    ) -> bool where
        P: Fn(&AccountProof<'_>, B256) -> Result<(), E>,
        S: Fn(&AccountProof<'_>) -> Result<(), E>,
        C: Fn(&AccountProof<'_>, &Vec<u8>) -> Result<(), E>,
     {
        match reply {
            Err(error) => account == Err::<AccountResponse, _>(ProviderError::Outside(error)),
            Ok(response) => match account {
                Ok(returned) => returned == response && checks.accept::<E>(
                    self.request.address,
                    response,
                    self.block.state_root,
                ),
                Err(error) => error matches ProviderError::Outside(outside) && checks.refuse(
                    self.request.address,
                    response,
                    self.block.state_root,
                    outside,
                ),
            },
        }
    }

    /// The account is returned once it passed its checks.
    pub fn on_account<E, P, S, C>(
        self,
        reply: Result<AccountResponse, E>,
        checks: &AccountChecks<P, S, C>,
    ) -> (account: Result<AccountResponse, ProviderError<E>>) where
        P: Fn(&AccountProof<'_>, B256) -> Result<(), E>,
        S: Fn(&AccountProof<'_>) -> Result<(), E>,
        C: Fn(&AccountProof<'_>, &Vec<u8>) -> Result<(), E>,

        requires
            checks.callable::<E>(),
        ensures
            self.answers(reply, *checks, account),
    {
        match reply {
            Err(error) => Err(ProviderError::Outside(error)),
            Ok(response) => match verify_account(
                self.request.address,
                &response,
                &self.block,
                checks,
            ) {
                Ok(_) => Ok(response),
                Err(error) => Err(ProviderError::Outside(error)),
            },
        }
    }
}

/// The execution hint to ask the API for: the accounts that `tx` is expected to touch.
pub struct HintRequest<Q> {
    pub tx: Q,
    pub validate: bool,
    pub block_id: Option<BlockId>,
}

/// Waits for the block that `block` names, in whose state a hint is wanted.
pub struct HintBlockLookup<Q> {
    pub block: BlockRequest,
    pub tx: Q,
    pub validate: bool,
}

/// Waits for the API's reply to `request`, to be checked against the state of `block`.
pub struct HintFetch<Q, B> {
    pub request: HintRequest<Q>,
    pub block: Block<B>,
}

impl<Q> HintBlockLookup<Q> {
    /// What the block that was found calls for, in contracts.
    pub open spec fn spec_on_block<B, E>(
        self,
        reply: Result<Option<Block<B>>, ProviderError<E>>,
    ) -> Result<HintFetch<Q, B>, ProviderError<E>> {
        match needed_block(reply) {
            Err(error) => Err(error),
            Ok(block) => Ok(
                HintFetch {
                    request: HintRequest {
                        tx: self.tx,
                        validate: self.validate,
                        block_id: Some(BlockId::hash(block.hash)),
                    },
                    block,
                },
            ),
        }
    }

    /// The hint is asked for at the hash of the block that was found.
    pub fn on_block<B, E>(self, reply: Result<Option<Block<B>>, ProviderError<E>>) -> (next: Result<
        HintFetch<Q, B>,
        ProviderError<E>,
    >)
        ensures
            next == self.spec_on_block(reply),
    {
        match needed_block(reply) {
            Err(error) => Err(error),
            Ok(block) => {
                let request = HintRequest {
                    tx: self.tx,
                    validate: self.validate,
                    block_id: Some(BlockId::hash(block.hash)),
                };
                Ok(HintFetch { request, block })
            },
        }
    }
}

/// All accounts pass their checks.
pub open spec fn accounts_accepted<E, P, S, C>(
    checks: AccountChecks<P, S, C>,
    accounts: Seq<(Address, AccountResponse)>,
    state_root: B256,
) -> bool where
    P: Fn(&AccountProof<'_>, B256) -> Result<(), E>,
    S: Fn(&AccountProof<'_>) -> Result<(), E>,
    C: Fn(&AccountProof<'_>, &Vec<u8>) -> Result<(), E>,
 {
    forall|i: int|
        0 <= i < accounts.len() ==> checks.accept::<E>(
            (#[trigger] accounts[i]).0,
            accounts[i].1,
            state_root,
        )
}

/// Some account fails a check with this error, and those before it pass theirs.
pub open spec fn accounts_refused<E, P, S, C>(
    checks: AccountChecks<P, S, C>,
    accounts: Seq<(Address, AccountResponse)>,
    state_root: B256,
    error: E,
) -> bool where
    P: Fn(&AccountProof<'_>, B256) -> Result<(), E>,
    S: Fn(&AccountProof<'_>) -> Result<(), E>,
    C: Fn(&AccountProof<'_>, &Vec<u8>) -> Result<(), E>,
 {
    exists|i: int|
        {
            &&& 0 <= i < accounts.len()
            &&& accounts_accepted::<E, P, S, C>(checks, accounts.take(i), state_root)
            &&& checks.refuse((#[trigger] accounts[i]).0, accounts[i].1, state_root, error)
        }
}

/// Checks every account against the state of a block.
pub fn verify_accounts<B, E, P, S, C>(
    accounts: &KeyedMap<20, AccountResponse>,
    block: &Block<B>,
    checks: &AccountChecks<P, S, C>,
) -> (verdict: Result<(), E>) where
    P: Fn(&AccountProof<'_>, B256) -> Result<(), E>,
    S: Fn(&AccountProof<'_>) -> Result<(), E>,
    C: Fn(&AccountProof<'_>, &Vec<u8>) -> Result<(), E>,

    requires
        checks.callable::<E>(),
    ensures
        match verdict {
            Ok(_) => accounts_accepted::<E, P, S, C>(
                *checks,
                accounts.entries(),
                block.state_root,
            ),
            Err(error) => accounts_refused(*checks, accounts.entries(), block.state_root, error),
        },
{
    let ghost entries = accounts.entries();
    let mut i: usize = 0;
    while i < accounts.len()
        invariant
            i <= entries.len(),
            entries == accounts.entries(),
            checks.callable::<E>(),
            accounts_accepted::<E, P, S, C>(*checks, entries.take(i as int), block.state_root),
        decreases entries.len() - i,
    {
        match verify_account(accounts.key_at(i), accounts.value_at(i), block, checks) {
            Ok(_) => {},
            Err(error) => {
                assert(checks.refuse(
                    entries[i as int].0,
                    entries[i as int].1,
                    block.state_root,
                    error,
                ));
                return Err(error);
            },
        }
        assert forall|j: int| 0 <= j < i + 1 implies checks.accept::<E>(
            (#[trigger] entries.take(i + 1)[j]).0,
            entries.take(i + 1)[j].1,
            block.state_root,
        ) by {
            if j < i {
                assert(entries.take(i + 1)[j] == entries.take(i as int)[j]);
            }
        }
        i = i + 1;
    }
    assert(entries.take(entries.len() as int) =~= entries);
    Ok(())
}

impl<Q, B> HintFetch<Q, B> {
    /// Given this reply, the request may be answered this way.
    pub open spec fn answers<E, P, S, C>(
        self,
        reply: Result<ExtendedAccessListResponse, E>,
        checks: AccountChecks<P, S, C>,
        accounts: Result<KeyedMap<20, AccountResponse>, ProviderError<E>>,
    ) -> bool where
        P: Fn(&AccountProof<'_>, B256) -> Result<(), E>,
        S: Fn(&AccountProof<'_>) -> Result<(), E>,
        C: Fn(&AccountProof<'_>, &Vec<u8>) -> Result<(), E>,
     {
        match reply {
            Err(error) => accounts == Err::<KeyedMap<20, AccountResponse>, _>(
                ProviderError::Outside(error),
            ),
            Ok(response) => match accounts {
                Ok(returned) => returned == response.accounts && accounts_accepted::<
                    E,
                    P,
                    S,
                    C,
                >(checks, response.accounts.entries(), self.block.state_root),
                Err(error) => error matches ProviderError::Outside(outside)
                    && accounts_refused(
                    checks,
                    response.accounts.entries(),
                    self.block.state_root,
                    outside,
                ),
            },
        }
    }

    /// The accounts are returned once all of them passed their checks.
    pub fn on_hint<E, P, S, C>(
        self,
        reply: Result<ExtendedAccessListResponse, E>,
        checks: &AccountChecks<P, S, C>,
    ) -> (accounts: Result<KeyedMap<20, AccountResponse>, ProviderError<E>>) where
        P: Fn(&AccountProof<'_>, B256) -> Result<(), E>,
        S: Fn(&AccountProof<'_>) -> Result<(), E>,
        C: Fn(&AccountProof<'_>, &Vec<u8>) -> Result<(), E>,

        requires
            checks.callable::<E>(),
        ensures
            self.answers(reply, *checks, accounts),
    {
        match reply {
            Err(error) => Err(ProviderError::Outside(error)),
            Ok(response) => match verify_accounts(&response.accounts, &self.block, checks) {
                Ok(_) => Ok(response.accounts),
                Err(error) => Err(ProviderError::Outside(error)),
            },
        }
    }
}

} // verus!
