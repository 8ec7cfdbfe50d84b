//! Fixed-size byte strings and the integers and block names built on them.

use vstd::prelude::*;

verus! {

/// A byte string of exactly `N` bytes.
#[derive(Clone, Copy, Debug)]
pub struct FixedBytes<const N: usize>(pub [u8; N]);

/// A 32-byte hash.
pub type B256 = FixedBytes<32>;

/// A 20-byte account address.
pub type Address = FixedBytes<20>;

impl<const N: usize> PartialEq for FixedBytes<N> {
    fn eq(&self, other: &Self) -> (same: bool) {
        let mut i: usize = 0;
        while i < N
            invariant
                i <= N,
                forall|j: int| 0 <= j < i ==> self.0@[j] == other.0@[j],
            decreases N - i,
        {
            if self.0[i] != other.0[i] {
                assert(self.0@[i as int] != other.0@[i as int]);
                return false;
            }
            i = i + 1;
        }
        assert(self.0 =~= other.0);
        true
    }
}

impl<const N: usize> vstd::std_specs::cmp::PartialEqSpecImpl for FixedBytes<N> {
    open spec fn obeys_eq_spec() -> bool {
        true
    }

    open spec fn eq_spec(&self, other: &Self) -> bool {
        self == other
    }
}

impl<const N: usize> Eq for FixedBytes<N> {

}

impl<const N: usize> FixedBytes<N> {
    /// The byte string of `N` zero bytes, in contracts.
    pub open spec fn spec_zero() -> Self {
        FixedBytes([0u8; N])
    }

    /// The byte string of `N` zero bytes.
    #[verifier::when_used_as_spec(spec_zero)]
    pub fn zero() -> (bytes: Self)
        ensures
            bytes == Self::spec_zero(),
            forall|i: int| 0 <= i < N ==> bytes.0@[i] == 0,
    {
        FixedBytes([0u8; N])
    }
}

/// The number that `bytes` writes down in base 256, most significant byte first.
pub open spec fn big_endian_value(bytes: Seq<u8>) -> nat
    decreases bytes.len(),
{
    if bytes.len() == 0 {
        0
    } else {
        256 * big_endian_value(bytes.drop_last()) + bytes.last() as nat
    }
}

/// A 256-bit unsigned integer, held as its 32 bytes, most significant first.
#[derive(Clone, Copy, Debug, PartialEq, Eq)]
pub struct U256 {
    pub be_bytes: B256,
}

impl U256 {
    /// The integer itself.
    pub open spec fn value(self) -> nat {
        big_endian_value(self.be_bytes.0@)
    }

    /// The integer that a hash stands for when its bytes are read as a number.
    pub fn from_hash(hash: B256) -> (number: U256)
        ensures
            number.be_bytes == hash,
            number.value() == big_endian_value(hash.0@),
    {
        U256 { be_bytes: hash }
    }
}

/// A block named by its number, or by where it stands in the chain.
#[derive(Clone, Copy, Debug, PartialEq, Eq)]
pub enum BlockNumberOrTag {
    Latest,
    Finalized,
    Safe,
    Earliest,
    Pending,
    Number(u64),
}

/// A block named by its hash, or as [`BlockNumberOrTag`] does.
#[derive(Clone, Copy, Debug, PartialEq, Eq)]
pub enum BlockId {
    Hash { block_hash: B256, require_canonical: Option<bool> },
    Number(BlockNumberOrTag),
}

impl BlockId {
    /// The block of that number, in contracts.
    pub open spec fn spec_number(number: u64) -> BlockId {
        BlockId::Number(BlockNumberOrTag::Number(number))
    }

    /// The block of that number.
    #[verifier::when_used_as_spec(spec_number)]
    pub fn number(number: u64) -> (id: BlockId)
        ensures
            id == Self::spec_number(number),
    {
        BlockId::Number(BlockNumberOrTag::Number(number))
    }

    /// The block of that hash, in contracts.
    pub open spec fn spec_hash(block_hash: B256) -> BlockId {
        BlockId::Hash { block_hash, require_canonical: None }
    }

    /// The block of that hash, canonical or not.
    #[verifier::when_used_as_spec(spec_hash)]
    pub fn hash(block_hash: B256) -> (id: BlockId)
        ensures
            id == Self::spec_hash(block_hash),
    {
        BlockId::Hash { block_hash, require_canonical: None }
    }
}

} // verus!
