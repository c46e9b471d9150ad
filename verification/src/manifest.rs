use vstd::prelude::*;

use crate::peer_model::ScriptedPeer;
use crate::types::BlockHash;
use crate::types::Message;
use crate::types::SyncError;

verus! {

/// The manifest a correct peer returns for the half-open height range
/// `[local, remote)`: the hashes its chain holds at those heights, in
/// ascending height order.
pub open spec fn correct_manifest(chain: Seq<BlockHash>, local: int, remote: int) -> Seq<
    BlockHash,
> {
    chain.subrange(local, remote)
}

/// A correct peer's manifest has length `remote - local`, and its
/// position `i` carries the hash at height `local + i`.
pub proof fn lemma_correct_manifest_shape(chain: Seq<BlockHash>, local: int, remote: int)
    requires
        0 <= local <= remote <= chain.len(),
    ensures
        correct_manifest(chain, local, remote).len() == remote - local,
        forall|i: int|
            0 <= i < remote - local ==> correct_manifest(chain, local, remote)[i] == chain[local
                + i],
{
}

/// What a reply to the hash-range query means: the ordered manifest when
/// the reply is of the right kind, a protocol mismatch otherwise. A
/// manifest of unexpected length is accepted as-is; range-size checking
/// is the orchestrating caller's concern.
pub open spec fn spec_parse_manifest_reply(m: Message) -> Result<Vec<BlockHash>, SyncError> {
    match m {
        Message::HashManifestReply { hashes } => Ok(hashes),
        _ => Err(SyncError::ProtocolMismatch),
    }
}

/// Builds the query for the manifest of hashes covering heights
/// `[start, end)`. The caller must already have checked that the range
/// is not inverted; an empty range is its short-circuit, not ours.
pub fn hash_range_query(start: usize, end: usize) -> (m: Message)
    requires
        start <= end,
    ensures
        m == (Message::HashRangeQuery { start, end }),
{
    Message::HashRangeQuery { start, end }
}

/// Reads the hash manifest out of the peer's reply to the hash-range
/// query. Any reply of another kind fails the sync with a protocol
/// mismatch.
pub fn parse_manifest_reply(m: Message) -> (r: Result<Vec<BlockHash>, SyncError>)
    ensures
        r == spec_parse_manifest_reply(m),
{
    match m {
        Message::HashManifestReply { hashes } => Ok(hashes),
        _ => Err(SyncError::ProtocolMismatch),
    }
}

/// The hash range fetcher: a single round trip retrieving the ordered
/// manifest of hashes for heights `[start, end)`. A reply of the wrong
/// kind fails the whole sync; nothing else about the peer changes.
pub fn fetch_hash_range(peer: &mut ScriptedPeer, start: usize, end: usize) -> (r: Result<
    Vec<BlockHash>,
    SyncError,
>)
    requires
        old(peer).wf(),
        start <= end <= old(peer).chain_hashes@.len(),
    ensures
        final(peer).wf(),
        final(peer).same_script(*old(peer)),
        final(peer).block_queries == old(peer).block_queries,
        (!old(peer).manifest_reply_wrong_kind ==> (r matches Ok(hashes) && hashes@ == old(
            peer,
        ).chain_hashes@.subrange(start as int, end as int))),
        (old(peer).manifest_reply_wrong_kind ==> r == Err::<Vec<BlockHash>, SyncError>(
            SyncError::ProtocolMismatch,
        )),
{
    let q = hash_range_query(start, end);
    match peer.request(&q) {
        Ok(m) => parse_manifest_reply(m),
        Err(_) => {
            proof {
                assert(false);
            }
            Err(SyncError::Transport)
        },
    }
}

} // verus!
