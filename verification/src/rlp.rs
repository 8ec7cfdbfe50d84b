//! The encoding of a log, and the search for one among others.

use vstd::prelude::*;

use crate::primitives::B256;
use crate::types::{LogContent, LogContentView};

verus! {

/// What `alloy::rlp::encode` makes of a log with this emitter, these topics and this data.
pub uninterp spec fn log_rlp(address: Seq<u8>, topics: Seq<Seq<u8>>, data: Seq<u8>) -> Seq<u8>;

/// What `alloy::rlp::encode` makes of a log that says this.
pub open spec fn content_rlp(content: LogContentView) -> Seq<u8> {
    log_rlp(
        content.address.0@,
        content.topics.map_values(|topic: B256| topic.0@),
        content.data,
    )
}

/// Encodes a log with `alloy::rlp::encode`, applied to an `alloy::primitives::Log` of the same
/// address, topics and data.
///
/// Two things are taken from that function without proof. Its result depends on the address, the
/// topics and the data alone. And no two logs have one encoding: it writes the three as a list in
/// which each part shows where it ends, and `alloy`'s decoder reads them back.
#[verifier::external_body]
fn rlp_encode(content: &LogContent) -> (encoded: Vec<u8>)
    ensures
        encoded@ == log_rlp(
            content.address.0@,
            content.topics@.map_values(|topic: B256| topic.0@),
            content.data@,
        ),
        forall|other: LogContentView| #[trigger] content_rlp(other) == encoded@ ==> other
            == content@,
{
    let topics = content.topics.iter().map(|topic| alloy::primitives::B256::from(topic.0));
    alloy::rlp::encode(
        alloy::primitives::Log::new_unchecked(
            alloy::primitives::Address::from(content.address.0),
            topics.collect(),
            alloy::primitives::Bytes::copy_from_slice(&content.data),
        ),
    )
}

/// The encoding of a log, which no other log has.
pub fn encode_log(content: &LogContent) -> (encoded: Vec<u8>)
    ensures
        encoded@ == content_rlp(content@),
        forall|other: LogContentView| #[trigger] content_rlp(other) == encoded@ ==> other
            == content@,
{
    rlp_encode(content)
}

/// Whether `encoding` is one of `encodings`.
pub fn contains_encoding(encodings: &Vec<Vec<u8>>, encoding: &Vec<u8>) -> (found: bool)
    ensures
        found == exists|i: int|
            0 <= i < encodings@.len() && #[trigger] encodings@[i]@ == encoding@,
{
    let mut i: usize = 0;
    while i < encodings.len()
        invariant
            i <= encodings@.len(),
            forall|j: int| 0 <= j < i ==> #[trigger] encodings@[j]@ != encoding@,
        decreases encodings@.len() - i,
    {
        let same = encodings[i] == *encoding;
        if same {
            assert(encodings@[i as int]@ =~= encoding@);
            return true;
        }
        i = i + 1;
    }
    false
}

} // verus!
