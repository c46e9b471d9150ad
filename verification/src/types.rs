use vstd::prelude::*;

verus! {

/// Fixed-size content identifier of a block: 32 bytes, held as four
/// 64-bit big-endian words.
#[derive(Clone, Copy, Debug, PartialEq, Eq, Structural)]
pub struct BlockHash {
    pub w0: u64,
    pub w1: u64,
    pub w2: u64,
    pub w3: u64,
}

/// A block: an opaque payload together with its content identifier.
/// Validity of a block is decided by chain state alone.
#[derive(Clone, Debug)]
pub struct Block {
    pub id: BlockHash,
    pub payload: Vec<u8>,
}

/// The ghost shape of a block: its identifier and the bytes of its
/// payload. Two blocks with the same view are the same block as far as
/// the sync core is concerned.
pub ghost struct BlockView {
    pub id: BlockHash,
    pub payload: Seq<u8>,
}

impl View for Block {
    type V = BlockView;

    open spec fn view(&self) -> BlockView {
        BlockView { id: self.id, payload: self.payload@ }
    }
}

impl Block {
    /// An equal copy of the block: same identifier, same payload bytes.
    pub fn duplicate(&self) -> (r: Block)
        ensures
            r@ == self@,
    {
        let mut payload: Vec<u8> = Vec::new();
        let mut i: usize = 0;
        let n = self.payload.len();
        while i < n
            invariant
                i <= n,
                n == self.payload@.len(),
                payload@ == self.payload@.take(i as int),
            decreases n - i,
        {
            payload.push(self.payload[i]);
            proof {
                assert(payload@ =~= self.payload@.take(i as int + 1));
            }
            i = i + 1;
        }
        proof {
            assert(payload@ =~= self.payload@);
        }
        Block { id: self.id, payload }
    }
}

/// A failure of the channel to the peer: the request could not be
/// exchanged at all.
#[derive(Clone, Copy, Debug, PartialEq, Eq, Structural)]
pub struct TransportFailure;

/// Messages exchanged with the remote peer over the request/response
/// channel: a height query and its reply, a hash-range query answered
/// by an ordered hash manifest, and a block-body query answered by the
/// body if the peer has it.
#[derive(Clone, Debug)]
pub enum Message {
    HeightQuery { height: usize },
    HeightReply { height: usize },
    HashRangeQuery { start: usize, end: usize },
    HashManifestReply { hashes: Vec<BlockHash> },
    BlockQuery { hash: BlockHash },
    BlockReply { block: Option<Block> },
}

/// Terminal errors of a sync attempt. None is retried internally: the
/// first of these aborts the whole attempt.
#[derive(Clone, Copy, Debug, PartialEq, Eq, Structural)]
pub enum SyncError {
    /// The channel to the peer failed.
    Transport,
    /// The peer replied with a message of the wrong kind.
    ProtocolMismatch,
    /// The peer advertised a hash it could not serve.
    MissingBlock { hash: BlockHash },
    /// Chain state rejected a fetched block.
    Validation,
}

} // verus!
