use vstd::prelude::*;

use crate::types::Block;
use crate::types::BlockHash;
use crate::types::Message;
use crate::types::SyncError;

verus! {

/// Bookkeeping for the bounded block fetch pipeline: requests are issued
/// strictly in manifest order, at most `window` of them outstanding at a
/// time, and the first fatal outcome aborts all further issuance.
pub struct FetchPipeline {
    /// The ordered hashes still to be fetched; position `i` corresponds
    /// to height `local_height + i`.
    pub manifest: Vec<BlockHash>,
    /// Maximum number of concurrently outstanding fetch requests.
    pub window: usize,
    /// Manifest index of the next hash to issue; everything below it has
    /// been issued exactly once.
    pub next_to_issue: usize,
    /// Number of issued requests whose completion has not arrived yet.
    pub in_flight: usize,
    /// Set by the first fatal outcome; never cleared.
    pub aborted: bool,
}

impl FetchPipeline {
    /// Well-formedness: the window is positive, issuance never runs past
    /// the manifest, and outstanding requests never exceed the window
    /// nor the number of issued requests.
    pub open spec fn wf(self) -> bool {
        &&& self.window >= 1
        &&& self.next_to_issue <= self.manifest@.len()
        &&& self.in_flight <= self.window
        &&& self.in_flight <= self.next_to_issue
    }

    /// The hashes issued so far: exactly the manifest prefix of length
    /// `next_to_issue`, in manifest order.
    pub open spec fn issued(self) -> Seq<BlockHash> {
        self.manifest@.take(self.next_to_issue as int)
    }

    /// Number of issued requests whose completion has been recorded.
    pub open spec fn completed(self) -> int {
        self.next_to_issue - self.in_flight
    }

    /// A new request may be issued only while the pipeline is live, the
    /// manifest is not exhausted, and a window slot is free.
    pub open spec fn can_issue_spec(self) -> bool {
        &&& !self.aborted
        &&& self.next_to_issue < self.manifest@.len()
        &&& self.in_flight < self.window
    }

    /// Successful termination: every hash issued, every completion in,
    /// and no abort along the way.
    pub open spec fn finished(self) -> bool {
        &&& !self.aborted
        &&& self.next_to_issue == self.manifest@.len()
        &&& self.in_flight == 0
    }

    pub fn new(manifest: Vec<BlockHash>, window: usize) -> (p: Self)
        requires
            window >= 1,
        ensures
            p.wf(),
            p.manifest == manifest,
            p.window == window,
            p.next_to_issue == 0,
            p.in_flight == 0,
            !p.aborted,
    {
        FetchPipeline { manifest, window, next_to_issue: 0, in_flight: 0, aborted: false }
    }

    pub fn can_issue(&self) -> (r: bool)
        ensures
            r == self.can_issue_spec(),
    {
        !self.aborted && self.next_to_issue < self.manifest.len() && self.in_flight < self.window
    }

    pub fn is_finished(&self) -> (r: bool)
        ensures
            r == self.finished(),
    {
        !self.aborted && self.next_to_issue == self.manifest.len() && self.in_flight == 0
    }

    /// Issues the next un-issued hash, occupying one window slot. The
    /// result is the manifest entry at the old issue position.
    pub fn issue_next(&mut self) -> (h: BlockHash)
        requires
            old(self).wf(),
            old(self).can_issue_spec(),
        ensures
            final(self).wf(),
            h == old(self).manifest@[old(self).next_to_issue as int],
            final(self).manifest == old(self).manifest,
            final(self).window == old(self).window,
            final(self).next_to_issue == old(self).next_to_issue + 1,
            final(self).in_flight == old(self).in_flight + 1,
            final(self).aborted == old(self).aborted,
            final(self).issued() == old(self).issued().push(h),
    {
        let len = self.manifest.len();
        let h = self.manifest[self.next_to_issue];
        assert(self.next_to_issue < len);
        self.next_to_issue = self.next_to_issue + 1;
        self.in_flight = self.in_flight + 1;
        proof {
            assert(self.issued() =~= old(self).issued().push(h));
        }
        h
    }

    /// Records that one outstanding request completed, freeing its
    /// window slot; the outcome itself is judged by the caller.
    pub fn fetch_completed(&mut self)
        requires
            old(self).wf(),
            old(self).in_flight >= 1,
        ensures
            final(self).wf(),
            final(self).manifest == old(self).manifest,
            final(self).window == old(self).window,
            final(self).next_to_issue == old(self).next_to_issue,
            final(self).in_flight == old(self).in_flight - 1,
            final(self).aborted == old(self).aborted,
    {
        self.in_flight = self.in_flight - 1;
    }

    /// Records a fatal outcome: no further request is ever issued, and
    /// still-outstanding requests are abandoned, their results discarded.
    pub fn abort(&mut self)
        requires
            old(self).wf(),
        ensures
            final(self).wf(),
            final(self).manifest == old(self).manifest,
            final(self).window == old(self).window,
            final(self).next_to_issue == old(self).next_to_issue,
            final(self).in_flight == old(self).in_flight,
            final(self).aborted,
    {
        self.aborted = true;
    }

    /// Issuance discipline: the hashes ever issued are exactly the
    /// manifest prefix of length `next_to_issue`, each index once and in
    /// manifest order; outstanding requests never exceed the window; and
    /// once issuance has covered the manifest, the issued sequence is
    /// the whole manifest.
    pub proof fn lemma_issuance_discipline(self)
        requires
            self.wf(),
        ensures
            self.issued().len() == self.next_to_issue,
            forall|i: int| 0 <= i < self.next_to_issue ==> self.issued()[i] == self.manifest@[i],
            self.in_flight <= self.window,
            self.next_to_issue == self.manifest@.len() ==> self.issued() == self.manifest@,
    {
        if self.next_to_issue == self.manifest@.len() {
            assert(self.issued() =~= self.manifest@);
        }
    }

    /// Abort propagates immediately: an aborted pipeline can never issue
    /// again, and no transition clears the abort flag, so no hash at a
    /// later manifest index is issued after the first fatal outcome.
    pub proof fn lemma_abort_blocks_issuance(self)
        requires
            self.aborted,
        ensures
            !self.can_issue_spec(),
    {
    }

    /// Progress: a live, unfinished pipeline either has a free slot for
    /// the next hash or has a completion to wait for; it cannot wedge.
    pub proof fn lemma_no_deadlock(self)
        requires
            self.wf(),
            !self.aborted,
            !self.finished(),
        ensures
            self.can_issue_spec() || self.in_flight >= 1,
    {
    }
}

/// What a reply to a block-body query means: the block when the peer
/// served it; a missing-block error when the peer, having advertised the
/// hash, answered that it has no such block; a protocol mismatch for a
/// reply of any other kind.
pub open spec fn spec_classify_block_reply(m: Message, requested: BlockHash) -> Result<
    Block,
    SyncError,
> {
    match m {
        Message::BlockReply { block } => match block {
            Some(b) => Ok(b),
            None => Err(SyncError::MissingBlock { hash: requested }),
        },
        _ => Err(SyncError::ProtocolMismatch),
    }
}

/// Judges the peer's reply to the block-body query for `requested`.
pub fn classify_block_reply(m: Message, requested: BlockHash) -> (r: Result<Block, SyncError>)
    ensures
        r == spec_classify_block_reply(m, requested),
{
    match m {
        Message::BlockReply { block } => match block {
            Some(b) => Ok(b),
            None => Err(SyncError::MissingBlock { hash: requested }),
        },
        _ => Err(SyncError::ProtocolMismatch),
    }
}

} // verus!
