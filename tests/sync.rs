use smaug::sync::{extend_chain, find_closest_lower_key, BlockId, SyncSession};

fn bid(height: u32, tag: u8) -> BlockId {
    BlockId { height, hash: [tag; 32] }
}

#[test]
fn closest_lower_key() {
    let known = vec![bid(90, 1), bid(95, 2), bid(100, 3)];
    assert_eq!(find_closest_lower_key(&known, 100).unwrap().height, 95);
    assert_eq!(find_closest_lower_key(&known, 101).unwrap().height, 100);
    assert!(find_closest_lower_key(&known, 90).is_none());
    assert!(find_closest_lower_key(&Vec::new(), 5).is_none());
}

#[test]
fn reorg_links_below_the_block() {
    // relevant blocks reported at heights 100, 105, 102
    let mut s = SyncSession::new(Some(bid(99, 9)), vec![[100; 32], [105; 32], [102; 32]], 105);
    let mut known = vec![bid(99, 9)];
    let heights = [100u32, 105, 102];
    let mut links = Vec::new();
    for h in heights {
        let hash = s.next_block().unwrap();
        let prev = s.link(h, &known);
        links.push(prev);
        s.committed(h);
        known.push(BlockId { height: h, hash });
    }
    assert_eq!(links[0].unwrap().height, 99);
    assert_eq!(links[1].unwrap().height, 100);
    // the block at 102 is linked below itself, never to the tip at 105
    assert_eq!(links[2].unwrap().height, 100);
    assert!(s.next_block().is_none());
    assert_eq!(s.finish(), 105);
}

#[test]
fn fresh_wallet_links_nothing() {
    let s = SyncSession::new(None, vec![[1; 32]], 10);
    assert!(s.link(5, &Vec::new()).is_none());
}

#[test]
fn empty_scan_finishes_at_scan_height() {
    let s = SyncSession::new(Some(bid(100, 1)), Vec::new(), 100);
    assert!(s.next_block().is_none());
    assert_eq!(s.finish(), 100);
}

#[test]
fn chain_extension_drops_checkpoints_above_link() {
    let chain = vec![bid(100, 1), bid(105, 2)];
    let out = extend_chain(&chain, Some(bid(100, 1)), bid(102, 3));
    let heights: Vec<u32> = out.iter().map(|b| b.height).collect();
    assert_eq!(heights, vec![100, 102]);
    let out = extend_chain(&chain, Some(bid(105, 2)), bid(106, 4));
    assert_eq!(out.len(), 3);
    let out = extend_chain(&chain, None, bid(50, 5));
    assert_eq!(out.len(), 1);
    assert_eq!(out[0].hash, [5; 32]);
}
