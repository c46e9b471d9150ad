use vstd::prelude::*;

use crate::chain_model::ChainModel;
use crate::manifest::fetch_hash_range;
use crate::negotiate::negotiate_height;
use crate::peer_model::BlockFetchReply;
use crate::peer_model::ScriptedPeer;
use crate::pipeline::classify_block_reply;
use crate::pipeline::FetchPipeline;
use crate::types::BlockHash;
use crate::types::BlockView;
use crate::types::Message;
use crate::types::SyncError;
use crate::types::TransportFailure;

verus! {

/// The manifest a peer serves when asked for heights `[local, tip)`: its
/// chain hashes from the local height to its tip.
pub open spec fn peer_manifest(p: ScriptedPeer, local: int) -> Seq<BlockHash> {
    p.chain_hashes@.subrange(local, p.chain_hashes@.len() as int)
}

/// The view of the block the peer serves for `h`. Meaningful only when
/// the scripted outcome for `h` is a served block.
pub open spec fn served_view(p: ScriptedPeer, h: BlockHash) -> BlockView {
    (p.block_outcome(h)->block)@
}

/// Every hash in `s` draws a served block from the peer.
pub open spec fn all_served(p: ScriptedPeer, s: Seq<BlockHash>) -> bool {
    forall|i: int| 0 <= i < s.len() ==> p.block_outcome(s[i]) is Served
}

/// When a whole sync attempt is owed success: the peer answers both
/// negotiation queries in kind, and — unless there is nothing to sync —
/// serves a block for every manifest entry, all of which the chain has
/// capacity to accept.
pub open spec fn sync_should_succeed(p: ScriptedPeer, c: ChainModel) -> bool {
    let local = c.height as int;
    let remote = p.advertised_height();
    &&& !p.height_reply_wrong_kind
    &&& (remote > local ==> {
        &&& !p.manifest_reply_wrong_kind
        &&& all_served(p, peer_manifest(p, local))
        &&& c.applied@.len() + (remote - local) <= c.accept_limit
    })
}

/// One whole catch-up sync attempt against a single peer: negotiate the
/// height gap, fetch the ordered hash manifest for `[local, remote)`,
/// then fetch every block under a window of at most `window` outstanding
/// requests, applying each completed block to chain state immediately,
/// in completion order. `schedule` scripts which outstanding request
/// completes next (by index into the in-flight buffer, taken modulo its
/// length; an empty schedule completes in issuance order), standing in
/// for the unconstrained completion order of a real channel. The first
/// fatal outcome aborts the attempt: no later request is issued, and
/// results of abandoned requests are discarded, though blocks already
/// applied remain applied.
pub fn run_sync(
    peer: &mut ScriptedPeer,
    chain: &mut ChainModel,
    window: usize,
    schedule: &Vec<usize>,
) -> (r: Result<(), SyncError>)
    requires
        window >= 1,
        old(peer).wf(),
    ensures
        final(peer).wf(),
        final(peer).same_script(*old(peer)),
        final(chain).accept_limit == old(chain).accept_limit,
        final(chain).applied@.len() >= old(chain).applied@.len(),
        old(chain).applied@ == final(chain).applied@.take(old(chain).applied@.len() as int),
        final(chain).height as int == old(chain).height + (final(chain).applied@.len() - old(
            chain,
        ).applied@.len()),
        r == Ok::<(), SyncError>(()) <==> sync_should_succeed(*old(peer), *old(chain)),
        (old(peer).height_reply_wrong_kind ==> r == Err::<(), SyncError>(
            SyncError::ProtocolMismatch,
        ) && *final(chain) == *old(chain) && final(peer).block_queries == old(
            peer,
        ).block_queries),
        (!old(peer).height_reply_wrong_kind && old(peer).advertised_height() <= old(
            chain,
        ).height ==> *final(chain) == *old(chain) && final(peer).block_queries == old(
            peer,
        ).block_queries),
        (!old(peer).height_reply_wrong_kind && old(peer).advertised_height() > old(chain).height
            && old(peer).manifest_reply_wrong_kind ==> r == Err::<(), SyncError>(
            SyncError::ProtocolMismatch,
        ) && *final(chain) == *old(chain) && final(peer).block_queries == old(
            peer,
        ).block_queries),
        (!old(peer).height_reply_wrong_kind && !old(peer).manifest_reply_wrong_kind && old(
            peer,
        ).advertised_height() > old(chain).height ==> {
            let man = peer_manifest(*old(peer), old(chain).height as int);
            &&& exists|k: int|
                0 <= k <= man.len() && final(peer).block_queries@ == old(peer).block_queries@
                    + man.take(k)
            &&& (r == Ok::<(), SyncError>(()) ==> {
                &&& final(peer).block_queries@ == old(peer).block_queries@ + man
                &&& final(chain).applied@.len() == old(chain).applied@.len() + man.len()
                &&& final(chain).height as int == old(peer).advertised_height()
                &&& exists|order: Seq<int>|
                    {
                        &&& order.len() == man.len()
                        &&& order.no_duplicates()
                        &&& (forall|k: int|
                            0 <= k < order.len() ==> 0 <= #[trigger] order[k] < man.len())
                        &&& final(chain).applied_views() == old(chain).applied_views()
                            + order.map(
                            |k: int, i: int| served_view(*old(peer), man[i]),
                        )
                    }
                &&& (schedule@.len() == 0 ==> final(chain).applied_views() == old(
                    chain,
                ).applied_views() + Seq::new(man.len(), |i: int| served_view(*old(peer), man[i])))
            })
            &&& (r == Err::<(), SyncError>(SyncError::Transport) ==> exists|i: int|
                0 <= i < man.len() && old(peer).block_outcome(man[i]) is TransportFail)
            &&& (r matches Err(SyncError::MissingBlock { hash }) ==> exists|i: int|
                0 <= i < man.len() && man[i] == hash && old(peer).block_outcome(
                    man[i],
                ) is Missing)
            &&& (r == Err::<(), SyncError>(SyncError::Validation) ==> final(chain).applied@.len()
                == if old(chain).applied@.len() >= old(chain).accept_limit {
                old(chain).applied@.len() as int
            } else {
                old(chain).accept_limit as int
            })
            &&& r != Err::<(), SyncError>(SyncError::ProtocolMismatch)
        }),
{
    let ghost p0 = *old(peer);
    let ghost c0 = *old(chain);
    let local = chain.current_height();
    let remote = match negotiate_height(peer, local) {
        Ok(h) => h,
        Err(e) => {
            return Err(e);
        },
    };
    if remote <= local {
        proof {
            assert(!p0.height_reply_wrong_kind);
            assert(p0.advertised_height() <= c0.height);
            assert(sync_should_succeed(p0, c0));
        }
        return Ok(());
    }
    let man = match fetch_hash_range(peer, local, remote) {
        Ok(v) => v,
        Err(e) => {
            return Err(e);
        },
    };
    let ghost man_seq = man@;
    proof {
        assert(man_seq =~= peer_manifest(p0, local as int));
    }

    let mut pipe = FetchPipeline::new(man, window);
    let mut pending: Vec<(BlockHash, Result<Message, TransportFailure>)> = Vec::new();
    let ghost mut pending_idx: Seq<int> = Seq::empty();
    let ghost mut applied_idx: Seq<int> = Seq::empty();
    let mut step: usize = 0;
    proof {
        assert(peer.block_queries@ =~= p0.block_queries@ + man_seq.take(0));
        assert(chain.applied_views() =~= c0.applied_views() + applied_idx.map(
            |k: int, i: int| served_view(p0, man_seq[i]),
        ));
        assert(c0.applied@ =~= chain.applied@.take(c0.applied@.len() as int));
    }
    loop
        invariant
            // fixed facts of the attempt
            window >= 1,
            local == c0.height,
            remote == p0.chain_hashes@.len(),
            local < remote,
            man_seq == peer_manifest(p0, local as int),
            man_seq.len() == remote - local,
            !p0.height_reply_wrong_kind,
            !p0.manifest_reply_wrong_kind,
            p0 == *old(peer),
            c0 == *old(chain),
            // the pipeline
            pipe.wf(),
            !pipe.aborted,
            pipe.manifest@ == man_seq,
            pipe.window == window,
            // the peer: script untouched, queries are the issued prefix
            peer.wf(),
            peer.same_script(p0),
            peer.block_queries@ == p0.block_queries@ + man_seq.take(pipe.next_to_issue as int),
            // the in-flight buffer mirrors the pipeline's window
            pending@.len() == pipe.in_flight,
            pending_idx.len() == pending@.len(),
            forall|k: int| 0 <= k < pending_idx.len() ==> 0 <= #[trigger] pending_idx[k]
                < pipe.next_to_issue,
            forall|k: int|
                0 <= k < pending@.len() ==> (#[trigger] pending@[k]).0 == man_seq[pending_idx[k]],
            forall|k: int|
                0 <= k < pending@.len() ==> (match p0.block_outcome(man_seq[pending_idx[k]]) {
                    BlockFetchReply::Served { block } => (#[trigger] pending@[k]).1 matches Ok(msg)
                        && msg matches Message::BlockReply { block: body }
                        && body matches Some(b) && b@ == block@,
                    BlockFetchReply::Missing => pending@[k].1 == Ok::<Message, TransportFailure>(
                        Message::BlockReply { block: None },
                    ),
                    BlockFetchReply::TransportFail => pending@[k].1 == Err::<
                        Message,
                        TransportFailure,
                    >(TransportFailure),
                }),
            // every issued index is accounted for exactly once
            pending_idx.no_duplicates(),
            applied_idx.no_duplicates(),
            forall|k: int| 0 <= k < applied_idx.len() ==> 0 <= #[trigger] applied_idx[k]
                < pipe.next_to_issue,
            forall|j: int| applied_idx.contains(j) ==> !pending_idx.contains(j),
            forall|j: int|
                0 <= j < pipe.next_to_issue ==> applied_idx.contains(j) || pending_idx.contains(
                    j,
                ),
            // every completion so far was served and applied
            forall|k: int|
                0 <= k < applied_idx.len() ==> p0.block_outcome(
                    man_seq[#[trigger] applied_idx[k]],
                ) is Served,
            applied_idx.len() == pipe.completed(),
            step == pipe.completed(),
            // the chain: applied blocks are the completions, in completion order
            chain.accept_limit == c0.accept_limit,
            chain.applied@.len() == c0.applied@.len() + applied_idx.len(),
            chain.height as int == c0.height + applied_idx.len(),
            c0.applied@ == chain.applied@.take(c0.applied@.len() as int),
            chain.applied_views() == c0.applied_views() + applied_idx.map(
                |k: int, i: int| served_view(p0, man_seq[i]),
            ),
            applied_idx.len() == 0 || c0.applied@.len() + applied_idx.len() <= c0.accept_limit,
            // with no schedule, completions are first-issued-first: blocks
            // apply in manifest order
            schedule@.len() == 0 ==> applied_idx == Seq::new(applied_idx.len(), |k: int| k),
            schedule@.len() == 0 ==> (forall|k: int|
                0 <= k < pending_idx.len() ==> #[trigger] pending_idx[k] == applied_idx.len() + k),
        decreases 2 * man_seq.len() - pipe.next_to_issue - pipe.completed(),
    {
        if pipe.can_issue() {
            let ghost old_issued = pipe.next_to_issue as int;
            let h = pipe.issue_next();
            let bq = Message::BlockQuery { hash: h };
            let resp = peer.request(&bq);
            pending.push((h, resp));
            proof {
                let pre_pidx = pending_idx;
                pending_idx = pending_idx.push(old_issued);
                assert(man_seq.take(old_issued + 1) =~= man_seq.take(old_issued).push(h));
                assert(peer.block_queries@ =~= p0.block_queries@ + man_seq.take(
                    pipe.next_to_issue as int,
                ));
                assert(pending_idx[pending_idx.len() - 1] == old_issued);
                assert forall|i: int, j: int|
                    0 <= i < pending_idx.len() && 0 <= j < pending_idx.len() && i
                        != j implies pending_idx[i] != pending_idx[j] by {
                    if i < pre_pidx.len() && j < pre_pidx.len() {
                        assert(pre_pidx[i] != pre_pidx[j]);
                    }
                }
                assert forall|j: int|
                    0 <= j < pipe.next_to_issue implies applied_idx.contains(j)
                    || pending_idx.contains(j) by {
                    if j == old_issued {
                        assert(pending_idx.contains(j));
                    } else {
                        assert(applied_idx.contains(j) || pre_pidx.contains(j));
                        if pre_pidx.contains(j) {
                            let k = choose|k: int|
                                0 <= k < pre_pidx.len() && pre_pidx[k] == j;
                            assert(pending_idx[k] == j);
                        }
                    }
                }
                if schedule@.len() == 0 {
                    assert(old_issued == applied_idx.len() + pre_pidx.len());
                    assert forall|k: int|
                        0 <= k < pending_idx.len() implies #[trigger] pending_idx[k]
                        == applied_idx.len() + k by {
                        if k < pre_pidx.len() {
                            assert(pre_pidx[k] == applied_idx.len() + k);
                        }
                    }
                }
            }
        } else if pending.len() > 0 {
            let np = pending.len();
            let pick: usize = if schedule.len() == 0 {
                0
            } else {
                let si = step % schedule.len();
                schedule[si] % np
            };
            let ghost old_pending = pending@;
            let ghost old_pidx = pending_idx;
            let ghost gi = pending_idx[pick as int];
            let entry = pending.remove(pick);
            let h = entry.0;
            let resp = entry.1;
            pipe.fetch_completed();
            step = step + 1;
            proof {
                pending_idx = pending_idx.remove(pick as int);
                old_pending.remove_ensures(pick as int);
                old_pidx.remove_ensures(pick as int);
                assert(h == man_seq[gi]);
                // gi left the buffer for good: it occurred there only once
                assert forall|j: int| pending_idx.contains(j) implies old_pidx.contains(j) && j
                    != gi by {
                    let k = choose|k: int|
                        0 <= k < pending_idx.len() && pending_idx[k] == j;
                    if k < pick {
                        assert(old_pidx[k] == j);
                    } else {
                        assert(old_pidx[k + 1] == j);
                    }
                }
                // and everything else in the buffer is still there
                assert forall|j: int|
                    old_pidx.contains(j) && j != gi implies pending_idx.contains(j) by {
                    let k = choose|k: int| 0 <= k < old_pidx.len() && old_pidx[k] == j;
                    if k < pick {
                        assert(pending_idx[k] == j);
                    } else {
                        assert(k > pick);
                        assert(pending_idx[k - 1] == j);
                    }
                }
            }
            match resp {
                Err(_) => {
                    pipe.abort();
                    proof {
                        assert(p0.block_outcome(man_seq[gi]) is TransportFail);
                        assert(!all_served(p0, man_seq));
                    }
                    return Err(SyncError::Transport);
                },
                Ok(m) => {
                    match classify_block_reply(m, h) {
                        Err(e) => {
                            pipe.abort();
                            proof {
                                assert(p0.block_outcome(man_seq[gi]) is Missing);
                                assert(e == SyncError::MissingBlock { hash: man_seq[gi] });
                                assert(!all_served(p0, man_seq));
                            }
                            return Err(e);
                        },
                        Ok(b) => {
                            proof {
                                assert(p0.block_outcome(man_seq[gi]) is Served);
                                assert(b@ == served_view(p0, man_seq[gi]));
                                assert(chain.accepts_next() ==> chain.height < usize::MAX);
                            }
                            let ghost pre_chain = *chain;
                            match chain.add_block(b) {
                                Ok(_) => {
                                    proof {
                                        let f = |k: int, i: int| served_view(p0, man_seq[i]);
                                        let pre_applied = applied_idx;
                                        assert(old_pidx[pick as int] == gi);
                                        assert(old_pidx.contains(gi));
                                        assert(!pre_applied.contains(gi));
                                        applied_idx = applied_idx.push(gi);
                                        assert(applied_idx[applied_idx.len() - 1] == gi);
                                        assert forall|i: int, j: int|
                                            0 <= i < applied_idx.len() && 0 <= j
                                                < applied_idx.len() && i
                                                != j implies applied_idx[i] != applied_idx[j] by {
                                            if i < pre_applied.len() && j < pre_applied.len() {
                                                assert(pre_applied[i] != pre_applied[j]);
                                            } else if i < pre_applied.len() {
                                                assert(!pre_applied.contains(gi));
                                                assert(pre_applied[i] != gi);
                                            } else if j < pre_applied.len() {
                                                assert(pre_applied[j] != gi);
                                            }
                                        }
                                        assert forall|j: int|
                                            applied_idx.contains(
                                                j,
                                            ) implies !pending_idx.contains(j) by {
                                            if j == gi {
                                                assert(!pending_idx.contains(gi));
                                            } else {
                                                let k = choose|k: int|
                                                    0 <= k < applied_idx.len() && applied_idx[k]
                                                        == j;
                                                assert(k < pre_applied.len());
                                                assert(pre_applied.contains(j));
                                            }
                                        }
                                        assert forall|j: int|
                                            0 <= j < pipe.next_to_issue implies applied_idx.contains(
                                            j,
                                        ) || pending_idx.contains(j) by {
                                            if j == gi {
                                                assert(applied_idx.contains(gi));
                                            } else {
                                                assert(pre_applied.contains(j)
                                                    || old_pidx.contains(j));
                                                if pre_applied.contains(j) {
                                                    let k = choose|k: int|
                                                        0 <= k < pre_applied.len()
                                                            && pre_applied[k] == j;
                                                    assert(applied_idx[k] == j);
                                                } else {
                                                    assert(pending_idx.contains(j));
                                                }
                                            }
                                        }
                                        assert(chain.applied_views()
                                            =~= pre_chain.applied_views().push(b@));
                                        assert(applied_idx.map(f) =~= pre_applied.map(f).push(
                                            served_view(p0, man_seq[gi]),
                                        ));
                                        assert(chain.applied_views() =~= c0.applied_views()
                                            + applied_idx.map(f));
                                        assert(c0.applied@ =~= chain.applied@.take(
                                            c0.applied@.len() as int,
                                        ));
                                        if schedule@.len() == 0 {
                                            assert(gi == pre_applied.len());
                                            assert(applied_idx =~= Seq::new(
                                                applied_idx.len(),
                                                |k: int| k,
                                            ));
                                            assert forall|k: int|
                                                0 <= k < pending_idx.len() implies #[trigger] pending_idx[k]
                                                == applied_idx.len() + k by {
                                                assert(old_pidx[k + 1] == pre_applied.len() + 1
                                                    + k);
                                            }
                                        }
                                    }
                                },
                                Err(_) => {
                                    pipe.abort();
                                    proof {
                                        assert(c0.applied@.len() + man_seq.len()
                                            > c0.accept_limit);
                                    }
                                    return Err(SyncError::Validation);
                                },
                            }
                        },
                    }
                },
            }
        } else {
            proof {
                assert(pipe.in_flight == 0);
                assert(pipe.next_to_issue == man_seq.len());
                assert(man_seq.take(pipe.next_to_issue as int) =~= man_seq);
                assert forall|i: int| 0 <= i < man_seq.len() implies p0.block_outcome(
                    man_seq[i],
                ) is Served by {
                    assert(applied_idx.contains(i) || pending_idx.contains(i));
                    assert(pending_idx.len() == 0);
                    let k = choose|k: int|
                        0 <= k < applied_idx.len() && applied_idx[k] == i;
                    assert(p0.block_outcome(man_seq[applied_idx[k]]) is Served);
                }
                assert(all_served(p0, man_seq));
                assert(sync_should_succeed(p0, c0));
                if schedule@.len() == 0 {
                    assert(applied_idx.map(|k: int, i: int| served_view(p0, man_seq[i]))
                        =~= Seq::new(man_seq.len(), |i: int| served_view(p0, man_seq[i])));
                }
            }
            return Ok(());
        }
    }
}

} // verus!
