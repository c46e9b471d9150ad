use vstd::prelude::*;

use crate::types::Block;
use crate::types::BlockHash;
use crate::types::Message;
use crate::types::TransportFailure;

verus! {

/// One scripted outcome for a block-body query.
pub enum BlockFetchReply {
    /// The peer serves this block.
    Served { block: Block },
    /// The peer answers that it has no such block, although its chain
    /// advertises the hash.
    Missing,
    /// The channel fails while this request is outstanding.
    TransportFail,
}

/// A deterministic model of the single remote peer: replies are a pure
/// function of the script, so the same query against an unchanged script
/// always draws the same answer. The peer records every block query it
/// receives, in arrival order; the record has no influence on replies.
pub struct ScriptedPeer {
    /// The hashes of the peer's chain, position `i` being height `i`.
    pub chain_hashes: Vec<BlockHash>,
    /// The scripted outcome of a block query for `chain_hashes[i]`.
    pub replies: Vec<BlockFetchReply>,
    /// Answer the height query with a reply of the wrong kind.
    pub height_reply_wrong_kind: bool,
    /// Answer the hash-range query with a reply of the wrong kind.
    pub manifest_reply_wrong_kind: bool,
    /// Every block query received so far, in arrival order.
    pub block_queries: Vec<BlockHash>,
}

impl ScriptedPeer {
    /// Every chain position has a scripted block-query outcome.
    pub open spec fn wf(self) -> bool {
        self.replies@.len() == self.chain_hashes@.len()
    }

    /// The height this peer advertises: the length of its chain.
    pub open spec fn advertised_height(self) -> int {
        self.chain_hashes@.len() as int
    }

    /// The parts of the peer that replies depend on. The query record is
    /// not among them: serving a request never changes later replies.
    pub open spec fn same_script(self, other: Self) -> bool {
        &&& self.chain_hashes == other.chain_hashes
        &&& self.replies == other.replies
        &&& self.height_reply_wrong_kind == other.height_reply_wrong_kind
        &&& self.manifest_reply_wrong_kind == other.manifest_reply_wrong_kind
    }

    /// The scripted outcome of a block-body query: the reply scripted at
    /// the first chain position holding the hash, or a missing-block
    /// answer when the peer's chain holds no such hash.
    pub open spec fn block_outcome(self, h: BlockHash) -> BlockFetchReply {
        match self.chain_hashes@.index_of_first(h) {
            Some(i) => self.replies@[i],
            None => BlockFetchReply::Missing,
        }
    }

    /// The single request/response entry point of the peer channel.
    /// Replies follow the script: the height query draws the advertised
    /// height, the hash-range query draws the ordered manifest for the
    /// range, and a block query draws its scripted outcome and is
    /// recorded. The wrong-kind flags misdirect the first two, modelling
    /// a peer that speaks another dialect.
    pub fn request(&mut self, m: &Message) -> (r: Result<Message, TransportFailure>)
        requires
            old(self).wf(),
            m is HeightQuery || m is HashRangeQuery || m is BlockQuery,
            (m matches Message::HashRangeQuery { start, end } ==> *start <= *end <= old(
                self,
            ).chain_hashes@.len()),
        ensures
            final(self).wf(),
            final(self).same_script(*old(self)),
            (m matches Message::BlockQuery { hash } ==> final(self).block_queries@ == old(
                self,
            ).block_queries@.push(*hash)),
            (!(m is BlockQuery) ==> final(self).block_queries == old(self).block_queries),
            (m is HeightQuery && !old(self).height_reply_wrong_kind ==> (r matches Ok(reply)
                && reply matches Message::HeightReply { height } && height == old(
                self,
            ).chain_hashes@.len())),
            (m is HeightQuery && old(self).height_reply_wrong_kind ==> (r matches Ok(reply)
                && reply matches Message::HashManifestReply { hashes } && hashes@ == Seq::<
                BlockHash,
            >::empty())),
            (m matches Message::HashRangeQuery { start, end } ==> ((!old(
                self,
            ).manifest_reply_wrong_kind ==> (r matches Ok(reply)
                && reply matches Message::HashManifestReply { hashes } && hashes@ == old(
                self,
            ).chain_hashes@.subrange(*start as int, *end as int))) && (old(
                self,
            ).manifest_reply_wrong_kind ==> r == Ok::<Message, TransportFailure>(
                Message::HeightReply { height: 0 },
            )))),
            (m matches Message::BlockQuery { hash } ==> (match old(self).block_outcome(*hash) {
                BlockFetchReply::Served { block } => (r matches Ok(reply)
                    && reply matches Message::BlockReply { block: body } && body matches Some(b)
                    && b@ == block@),
                BlockFetchReply::Missing => r == Ok::<Message, TransportFailure>(
                    Message::BlockReply { block: None },
                ),
                BlockFetchReply::TransportFail => r == Err::<Message, TransportFailure>(
                    TransportFailure,
                ),
            })),
    {
        match m {
            Message::HeightQuery { height: _ } => {
                if self.height_reply_wrong_kind {
                    Ok(Message::HashManifestReply { hashes: Vec::new() })
                } else {
                    let h = self.chain_hashes.len();
                    Ok(Message::HeightReply { height: h })
                }
            },
            Message::HashRangeQuery { start, end } => {
                if self.manifest_reply_wrong_kind {
                    Ok(Message::HeightReply { height: 0 })
                } else {
                    let mut hashes: Vec<BlockHash> = Vec::new();
                    let mut i: usize = *start;
                    while i < *end
                        invariant
                            *start <= i <= *end,
                            *end <= self.chain_hashes@.len(),
                            hashes@ == self.chain_hashes@.subrange(*start as int, i as int),
                        decreases *end - i,
                    {
                        hashes.push(self.chain_hashes[i]);
                        proof {
                            assert(hashes@ =~= self.chain_hashes@.subrange(
                                *start as int,
                                i as int + 1,
                            ));
                        }
                        i = i + 1;
                    }
                    Ok(Message::HashManifestReply { hashes })
                }
            },
            Message::BlockQuery { hash } => {
                let h = *hash;
                self.block_queries.push(h);
                let n = self.chain_hashes.len();
                let mut i: usize = 0;
                let mut found: Option<usize> = None;
                while i < n
                    invariant
                        i <= n,
                        n == self.chain_hashes@.len(),
                        (match found {
                            Some(j) => j < i && self.chain_hashes@[j as int] == h && (forall|
                                k: int,
                            | 0 <= k < j ==> self.chain_hashes@[k] != h),
                            None => forall|k: int| 0 <= k < i ==> self.chain_hashes@[k] != h,
                        }),
                    decreases n - i,
                {
                    if found.is_none() {
                        if self.chain_hashes[i] == h {
                            found = Some(i);
                        }
                    }
                    i = i + 1;
                }
                proof {
                    self.chain_hashes@.index_of_first_ensures(h);
                }
                match found {
                    None => Ok(Message::BlockReply { block: None }),
                    Some(j) => match &self.replies[j] {
                        BlockFetchReply::Served { block } => Ok(
                            Message::BlockReply { block: Some(block.duplicate()) },
                        ),
                        BlockFetchReply::Missing => Ok(Message::BlockReply { block: None }),
                        BlockFetchReply::TransportFail => Err(TransportFailure),
                    },
                }
            },
            _ => {
                proof {
                    assert(false);
                }
                Err(TransportFailure)
            },
        }
    }
}

} // verus!
