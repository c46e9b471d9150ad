use chain_sync::manifest::fetch_hash_range;
use chain_sync::manifest::hash_range_query;
use chain_sync::manifest::parse_manifest_reply;
use chain_sync::negotiate::height_query;
use chain_sync::negotiate::negotiate_height;
use chain_sync::negotiate::parse_height_reply;
use chain_sync::peer_model::BlockFetchReply;
use chain_sync::peer_model::ScriptedPeer;
use chain_sync::pipeline::classify_block_reply;
use chain_sync::pipeline::FetchPipeline;
use chain_sync::types::Block;
use chain_sync::types::BlockHash;
use chain_sync::types::Message;
use chain_sync::types::SyncError;

fn h(n: u64) -> BlockHash {
    BlockHash { w0: n, w1: n + 1, w2: 0, w3: 7 }
}

fn b(n: u64) -> Block {
    Block { id: h(n), payload: vec![9, n as u8] }
}

fn peer_with(hashes: Vec<BlockHash>, replies: Vec<BlockFetchReply>) -> ScriptedPeer {
    ScriptedPeer {
        chain_hashes: hashes,
        replies,
        height_reply_wrong_kind: false,
        manifest_reply_wrong_kind: false,
        block_queries: Vec::new(),
    }
}

#[test]
fn height_queries_and_replies_round_trip() {
    let q = height_query(41);
    assert!(matches!(q, Message::HeightQuery { height: 41 }));
    let r = parse_height_reply(&Message::HeightReply { height: 7 });
    assert_eq!(r, Ok(7));
}

#[test]
fn height_reply_of_wrong_kind_is_a_mismatch() {
    let r = parse_height_reply(&Message::HashManifestReply { hashes: Vec::new() });
    assert_eq!(r, Err(SyncError::ProtocolMismatch));
    let r2 = parse_height_reply(&Message::BlockReply { block: None });
    assert_eq!(r2, Err(SyncError::ProtocolMismatch));
}

#[test]
fn manifest_reply_parses_in_order() {
    let q = hash_range_query(1, 3);
    assert!(matches!(q, Message::HashRangeQuery { start: 1, end: 3 }));
    let r = parse_manifest_reply(Message::HashManifestReply { hashes: vec![h(5), h(6)] });
    let hashes = r.unwrap();
    assert_eq!(hashes, vec![h(5), h(6)]);
}

#[test]
fn manifest_reply_of_wrong_kind_is_a_mismatch() {
    let r = parse_manifest_reply(Message::HeightReply { height: 3 });
    assert_eq!(r, Err(SyncError::ProtocolMismatch));
}

#[test]
fn block_replies_classify_by_outcome() {
    let ok = classify_block_reply(Message::BlockReply { block: Some(b(4)) }, h(4));
    let got = ok.unwrap();
    assert_eq!(got.id, h(4));
    assert_eq!(got.payload, vec![9, 4]);
    let missing = classify_block_reply(Message::BlockReply { block: None }, h(4));
    assert!(matches!(missing, Err(SyncError::MissingBlock { hash }) if hash == h(4)));
    let wrong = classify_block_reply(Message::HeightReply { height: 1 }, h(4));
    assert!(matches!(wrong, Err(SyncError::ProtocolMismatch)));
}

#[test]
fn negotiation_yields_the_same_height_every_time() {
    // re-running the negotiator against an unchanged peer state yields
    // the same remote height
    let mut p = peer_with(vec![h(0), h(1), h(2)], vec![
        BlockFetchReply::Missing,
        BlockFetchReply::Missing,
        BlockFetchReply::Missing,
    ]);
    let first = negotiate_height(&mut p, 0);
    let second = negotiate_height(&mut p, 0);
    assert_eq!(first, Ok(3));
    assert_eq!(second, Ok(3));
    assert_eq!(first, second);
}

#[test]
fn range_fetch_returns_the_ordered_manifest() {
    let mut p = peer_with(vec![h(0), h(1), h(2)], vec![
        BlockFetchReply::Missing,
        BlockFetchReply::Missing,
        BlockFetchReply::Missing,
    ]);
    let manifest = fetch_hash_range(&mut p, 0, 3).unwrap();
    assert_eq!(manifest, vec![h(0), h(1), h(2)]);
    let empty = fetch_hash_range(&mut p, 2, 2).unwrap();
    assert!(empty.is_empty());
}

#[test]
fn pipeline_issues_in_manifest_order_within_window() {
    let mut p = FetchPipeline::new(vec![h(0), h(1), h(2)], 2);
    assert!(p.can_issue());
    assert_eq!(p.issue_next(), h(0));
    assert_eq!(p.issue_next(), h(1));
    // the window is full: nothing more may be issued
    assert!(!p.can_issue());
    p.fetch_completed();
    assert!(p.can_issue());
    assert_eq!(p.issue_next(), h(2));
    assert!(!p.can_issue());
    assert!(!p.is_finished());
    p.fetch_completed();
    p.fetch_completed();
    assert!(p.is_finished());
}

#[test]
fn aborted_pipeline_never_issues_again() {
    let mut p = FetchPipeline::new(vec![h(0), h(1)], 2);
    let _ = p.issue_next();
    p.fetch_completed();
    p.abort();
    assert!(!p.can_issue());
    assert!(!p.is_finished());
}

#[test]
fn peer_answers_height_query_with_its_height() {
    let mut p = peer_with(vec![h(0), h(1), h(2)], vec![
        BlockFetchReply::Missing,
        BlockFetchReply::Missing,
        BlockFetchReply::Missing,
    ]);
    let r = p.request(&Message::HeightQuery { height: 0 }).unwrap();
    assert!(matches!(r, Message::HeightReply { height: 3 }));
    assert_eq!(p.block_queries.len(), 0);
}

#[test]
fn peer_manifest_covers_the_requested_range() {
    // a correct peer's manifest for [local, remote) has length
    // remote - local, and position i holds the hash at height local + i
    let mut p = peer_with(vec![h(0), h(1), h(2), h(3)], vec![
        BlockFetchReply::Missing,
        BlockFetchReply::Missing,
        BlockFetchReply::Missing,
        BlockFetchReply::Missing,
    ]);
    let r = p.request(&Message::HashRangeQuery { start: 1, end: 4 }).unwrap();
    match r {
        Message::HashManifestReply { hashes } => {
            assert_eq!(hashes.len(), 3);
            for i in 0..3u64 {
                assert_eq!(hashes[i as usize], h(1 + i));
            }
        },
        _ => panic!("expected a hash manifest reply"),
    }
}

#[test]
fn peer_serves_blocks_and_records_queries() {
    let mut p = peer_with(vec![h(0), h(1)], vec![
        BlockFetchReply::Served { block: b(0) },
        BlockFetchReply::Missing,
    ]);
    let r = p.request(&Message::BlockQuery { hash: h(0) }).unwrap();
    match r {
        Message::BlockReply { block: Some(got) } => {
            assert_eq!(got.id, h(0));
            assert_eq!(got.payload, vec![9, 0]);
        },
        _ => panic!("expected a served block"),
    }
    let r2 = p.request(&Message::BlockQuery { hash: h(1) }).unwrap();
    assert!(matches!(r2, Message::BlockReply { block: None }));
    // a hash the peer's chain does not hold draws an empty reply
    let r3 = p.request(&Message::BlockQuery { hash: h(9) }).unwrap();
    assert!(matches!(r3, Message::BlockReply { block: None }));
    assert_eq!(p.block_queries, vec![h(0), h(1), h(9)]);
}
