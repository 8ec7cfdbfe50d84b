//! Where a block is looked for: in the cache, and then in the history.

use vstd::prelude::*;

use crate::error::ProviderError;
use crate::primitives::{BlockId, BlockNumberOrTag};
use crate::types::{Block, BlockRequest, Step};

verus! {

/// The block is named by its number or its hash, and not by a tag, which moves with the chain.
pub open spec fn is_fixed(block_id: BlockId) -> bool {
    match block_id {
        BlockId::Hash { .. } => true,
        BlockId::Number(BlockNumberOrTag::Number(_)) => true,
        BlockId::Number(_) => false,
    }
}

/// Whether a block of this name may be looked for in the history.
pub fn should_use_historical_provider(block_id: &BlockId) -> (usable: bool)
    ensures
        usable == is_fixed(*block_id),
{
    match block_id {
        BlockId::Hash { .. } => true,
        BlockId::Number(BlockNumberOrTag::Number(_)) => true,
        BlockId::Number(_) => false,
    }
}

/// Waits for the cache's answer to `request`.
#[derive(Clone, Copy, Debug, PartialEq, Eq)]
pub struct CacheLookup {
    pub request: BlockRequest,
    /// Whether there is a history to turn to.
    pub has_history: bool,
}

/// Waits for the history's answer to `request`.
#[derive(Clone, Copy, Debug, PartialEq, Eq)]
pub struct HistoryLookup {
    pub request: BlockRequest,
}

impl CacheLookup {
    /// What the cache's answer calls for, in contracts.
    pub open spec fn spec_on_cache<B, E>(self, reply: Result<Option<Block<B>>, E>) -> Step<
        HistoryLookup,
        Result<Option<Block<B>>, ProviderError<E>>,
    > {
        match reply {
            Err(error) => Step::Return(Err(ProviderError::Outside(error))),
            Ok(Some(block)) => Step::Return(Ok(Some(block))),
            Ok(None) => if self.has_history && is_fixed(self.request.block_id) {
                Step::Continue(HistoryLookup { request: self.request })
            } else {
                Step::Return(Ok(None))
            },
        }
    }

    /// A block that the cache has is the answer. One that it lacks is looked for in the history,
    /// if there is one and the block is named by number or hash.
    pub fn on_cache<B, E>(self, reply: Result<Option<Block<B>>, E>) -> (step: Step<
        HistoryLookup,
        Result<Option<Block<B>>, ProviderError<E>>,
    >)
        ensures
            step == self.spec_on_cache(reply),
    {
        match reply {
            Err(error) => Step::Return(Err(ProviderError::Outside(error))),
            Ok(Some(block)) => Step::Return(Ok(Some(block))),
            Ok(None) => {
                if self.has_history && should_use_historical_provider(&self.request.block_id) {
                    Step::Continue(HistoryLookup { request: self.request })
                } else {
                    Step::Return(Ok(None))
                }
            },
        }
    }
}

impl HistoryLookup {
    /// What the history's answer comes to, in contracts.
    pub open spec fn spec_on_history<B, E>(self, reply: Result<Option<Block<B>>, E>) -> Result<
        Option<Block<B>>,
        ProviderError<E>,
    > {
        match reply {
            Ok(answer) => Ok(answer),
            Err(error) => Err(ProviderError::Outside(error)),
        }
    }

    /// The history has the last word.
    pub fn on_history<B, E>(self, reply: Result<Option<Block<B>>, E>) -> (found: Result<
        Option<Block<B>>,
        ProviderError<E>,
    >)
        ensures
            found == self.spec_on_history(reply),
    {
        match reply {
            Ok(answer) => Ok(answer),
            Err(error) => Err(ProviderError::Outside(error)),
        }
    }
}

/// The block that was looked up, where one is needed, in contracts.
pub open spec fn spec_needed_block<B, E>(
    reply: Result<Option<Block<B>>, ProviderError<E>>,
) -> Result<Block<B>, ProviderError<E>> {
    match reply {
        Ok(Some(block)) => Ok(block),
        Ok(None) => Err(ProviderError::BlockNotFound),
        Err(error) => Err(error),
    }
}

/// The block that was looked up, where one is needed.
#[verifier::when_used_as_spec(spec_needed_block)]
pub fn needed_block<B, E>(reply: Result<Option<Block<B>>, ProviderError<E>>) -> (block: Result<
    Block<B>,
    ProviderError<E>,
>)
    ensures
        block == spec_needed_block(reply),
{
    match reply {
        Ok(Some(block)) => Ok(block),
        Ok(None) => Err(ProviderError::BlockNotFound),
        Err(error) => Err(error),
    }
}

} // verus!
