use vstd::prelude::*;

use crate::types::Block;
use crate::types::BlockHash;
use crate::types::BlockView;

verus! {

/// Chain state's verdict on a block it would not append.
#[derive(Clone, Copy, Debug, PartialEq, Eq, Structural)]
pub enum ChainError {
    /// The block failed validation against the current chain.
    InvalidBlock,
}

/// An owned model of chain state: the long-lived, validating ledger.
/// Height and tip are read through accessors and advance only through
/// the single `add_block` entry point; the sync core never writes them
/// directly. Validation is scripted: the chain accepts a block while
/// fewer than `accept_limit` blocks have been applied over its lifetime
/// and rejects every one after that, which lets a caller exercise both a
/// healthy chain (a limit no sync can reach) and one that turns a block
/// away.
pub struct ChainModel {
    /// How many blocks the chain holds, genesis to tip.
    pub height: usize,
    /// The hash of the chain's tip.
    pub tip: BlockHash,
    /// Every block applied through `add_block`, in application order.
    pub applied: Vec<Block>,
    /// The scripted validation bound: total applied blocks the chain
    /// will ever accept.
    pub accept_limit: usize,
}

impl ChainModel {
    /// Views of the applied blocks, in application order.
    pub open spec fn applied_views(self) -> Seq<BlockView> {
        self.applied@.map(|i: int, b: Block| b@)
    }

    /// Whether the chain would accept the next block offered to it.
    pub open spec fn accepts_next(self) -> bool {
        self.applied@.len() < self.accept_limit
    }

    /// A chain at `height` with tip `tip` that will accept up to
    /// `accept_limit` blocks in total.
    pub fn new(height: usize, tip: BlockHash, accept_limit: usize) -> (c: Self)
        ensures
            c.height == height,
            c.tip == tip,
            c.accept_limit == accept_limit,
            c.applied@ == Seq::<Block>::empty(),
    {
        let c = ChainModel { height, tip, applied: Vec::new(), accept_limit };
        proof {
            assert(c.applied@ =~= Seq::<Block>::empty());
        }
        c
    }

    pub fn current_height(&self) -> (h: usize)
        ensures
            h == self.height,
    {
        self.height
    }

    pub fn current_tip_hash(&self) -> (t: BlockHash)
        ensures
            t == self.tip,
    {
        self.tip
    }

    /// Validates and appends a block. On acceptance the height advances
    /// by one and the tip becomes the block's identifier; on rejection
    /// the chain is left exactly as it was. This is the only operation
    /// that moves height or tip.
    pub fn add_block(&mut self, b: Block) -> (r: Result<(), ChainError>)
        requires
            old(self).accepts_next() ==> old(self).height < usize::MAX,
        ensures
            final(self).accept_limit == old(self).accept_limit,
            old(self).accepts_next() ==> {
                &&& r == Ok::<(), ChainError>(())
                &&& final(self).applied@ == old(self).applied@.push(b)
                &&& final(self).height == old(self).height + 1
                &&& final(self).tip == b.id
            },
            !old(self).accepts_next() ==> {
                &&& r == Err::<(), ChainError>(ChainError::InvalidBlock)
                &&& *final(self) == *old(self)
            },
    {
        if self.applied.len() < self.accept_limit {
            let tip = b.id;
            self.applied.push(b);
            self.height = self.height + 1;
            self.tip = tip;
            Ok(())
        } else {
            Err(ChainError::InvalidBlock)
        }
    }
}

} // verus!
