use vstd::prelude::*;

use crate::peer_model::ScriptedPeer;
use crate::types::Message;
use crate::types::SyncError;

verus! {

/// What a reply to the height query means: the peer's height when the
/// reply is of the right kind, a protocol mismatch otherwise.
pub open spec fn spec_parse_height_reply(m: Message) -> Result<usize, SyncError> {
    match m {
        Message::HeightReply { height } => Ok(height),
        _ => Err(SyncError::ProtocolMismatch),
    }
}

/// Builds the height-announcement query carrying the local height.
pub fn height_query(local_height: usize) -> (m: Message)
    ensures
        m == (Message::HeightQuery { height: local_height }),
{
    Message::HeightQuery { height: local_height }
}

/// Reads the peer's height out of its reply to the height query. Any
/// reply of another kind fails the whole sync with a protocol mismatch.
pub fn parse_height_reply(m: &Message) -> (r: Result<usize, SyncError>)
    ensures
        r == spec_parse_height_reply(*m),
{
    match m {
        Message::HeightReply { height } => Ok(*height),
        _ => Err(SyncError::ProtocolMismatch),
    }
}

/// The height negotiator: a single round trip announcing the local
/// height and reading the peer's. A reply of the wrong kind fails the
/// whole sync; nothing else about the peer changes.
pub fn negotiate_height(peer: &mut ScriptedPeer, local_height: usize) -> (r: Result<
    usize,
    SyncError,
>)
    requires
        old(peer).wf(),
    ensures
        final(peer).wf(),
        final(peer).same_script(*old(peer)),
        final(peer).block_queries == old(peer).block_queries,
        (!old(peer).height_reply_wrong_kind ==> (r matches Ok(h) && h == old(
            peer,
        ).chain_hashes@.len())),
        (old(peer).height_reply_wrong_kind ==> r == Err::<usize, SyncError>(
            SyncError::ProtocolMismatch,
        )),
{
    let q = height_query(local_height);
    match peer.request(&q) {
        Ok(m) => parse_height_reply(&m),
        Err(_) => {
            proof {
                assert(false);
            }
            Err(SyncError::Transport)
        },
    }
}

/// Negotiation is idempotent: the negotiator's outcome is a function of
/// the peer's script alone, so re-running it against an unchanged peer
/// state — here, two peers whose scripts agree, whatever was announced
/// to either — yields the same remote height. The premises on `r1` and
/// `r2` are exactly what `negotiate_height` ensures of its result.
pub proof fn lemma_negotiation_idempotent(
    p1: ScriptedPeer,
    p2: ScriptedPeer,
    r1: Result<usize, SyncError>,
    r2: Result<usize, SyncError>,
)
    requires
        p1.same_script(p2),
        (!p1.height_reply_wrong_kind ==> (r1 matches Ok(h) && h == p1.chain_hashes@.len())),
        (p1.height_reply_wrong_kind ==> r1 == Err::<usize, SyncError>(
            SyncError::ProtocolMismatch,
        )),
        (!p2.height_reply_wrong_kind ==> (r2 matches Ok(h) && h == p2.chain_hashes@.len())),
        (p2.height_reply_wrong_kind ==> r2 == Err::<usize, SyncError>(
            SyncError::ProtocolMismatch,
        )),
    ensures
        r1 == r2,
{
}

} // verus!
