//! Linking relevant blocks into the local checkpoint chain.
//!
//! A sync pass asks the full node which blocks touch the wallet, then applies
//! them one at a time. [`SyncSession`] holds the decisions of such a pass: which
//! block to fetch next, which checkpoint a block is linked to, and which height
//! the wallet has reached once every block is committed. The caller performs the
//! fetching and committing.
use vstd::prelude::*;

verus! {

/// A checkpoint: a block height and the block's hash.
#[derive(Clone, Copy, Debug)]
pub struct BlockId {
    pub height: u32,
    pub hash: [u8; 32],
}

/// `r` is the checkpoint of `blocks` with the greatest height below `key`,
/// or `None` when no checkpoint lies below `key`.
pub open spec fn is_closest_lower(blocks: Seq<BlockId>, key: u32, r: Option<BlockId>) -> bool {
    match r {
        None => forall|i: int| 0 <= i < blocks.len() ==> blocks[i].height >= key,
        Some(b) => {
            &&& b.height < key
            &&& exists|i: int| 0 <= i < blocks.len() && blocks[i] == b
            &&& forall|i: int|
                0 <= i < blocks.len() && blocks[i].height < key ==> blocks[i].height <= b.height
        },
    }
}

/// Finds the known checkpoint with the greatest height strictly below `key`.
pub fn find_closest_lower_key(blocks: &Vec<BlockId>, key: u32) -> (r: Option<BlockId>)
    ensures
        is_closest_lower(blocks@, key, r),
{
    let mut best: Option<BlockId> = None;
    let mut i: usize = 0;
    while i < blocks.len()
        invariant
            i <= blocks.len(),
            is_closest_lower(blocks@.subrange(0, i as int), key, best),
        decreases blocks.len() - i,
    {
        let b = blocks[i];
        proof {
            assert(blocks@.subrange(0, i + 1) == blocks@.subrange(0, i as int).push(b));
        }
        if b.height < key {
            match best {
                None => {
                    best = Some(b);
                },
                Some(c) => {
                    if c.height < b.height {
                        best = Some(b);
                    }
                },
            }
        }
        proof {
            let s = blocks@.subrange(0, i + 1);
            let p = blocks@.subrange(0, i as int);
            if let Some(c) = best {
                let j = choose|j: int| 0 <= j < p.len() && p[j] == c;
                if c == b {
                    assert(s[i as int] == c);
                } else {
                    assert(s[j] == c);
                }
            }
        }
        i = i + 1;
    }
    proof {
        assert(blocks@.subrange(0, blocks.len() as int) == blocks@);
    }
    best
}

/// The checkpoint a block at `height` is linked to, given the checkpoint that
/// was applied last: that one while the new block lies above it, otherwise the
/// closest known checkpoint below the new block.
pub open spec fn is_predecessor(
    prev: Option<BlockId>,
    known: Seq<BlockId>,
    height: u32,
    r: Option<BlockId>,
) -> bool {
    match prev {
        None => r is None,
        Some(p) => if height <= p.height {
            is_closest_lower(known, height, r)
        } else {
            r == Some(p)
        },
    }
}

/// The decisions of one sync pass over the blocks the full node reported.
#[derive(Clone, Debug)]
pub struct SyncSession {
    /// Hashes of the relevant blocks, in the order the node reported them.
    pub relevant_blocks: Vec<[u8; 32]>,
    /// The height the node's scan reached.
    pub to_height: u32,
    /// How many of the relevant blocks have been committed.
    pub next: usize,
    /// The checkpoint applied last.
    pub prev: Option<BlockId>,
}

impl SyncSession {
    /// Starts a pass from the wallet's current tip.
    pub fn new(tip: Option<BlockId>, relevant_blocks: Vec<[u8; 32]>, to_height: u32) -> (r: Self)
        ensures
            r.relevant_blocks@ == relevant_blocks@,
            r.to_height == to_height,
            r.next == 0,
            r.prev == tip,
    {
        SyncSession { relevant_blocks, to_height, next: 0, prev: tip }
    }

    /// Whether every relevant block has been committed.
    pub open spec fn is_complete(&self) -> bool {
        self.next >= self.relevant_blocks.len()
    }

    /// The hash of the next block to fetch, if any is left.
    pub fn next_block(&self) -> (r: Option<[u8; 32]>)
        ensures
            self.next < self.relevant_blocks.len() ==> r == Some(self.relevant_blocks@[self.next as int]),
            self.next >= self.relevant_blocks.len() ==> r is None,
    {
        if self.next < self.relevant_blocks.len() {
            Some(self.relevant_blocks[self.next])
        } else {
            None
        }
    }

    /// The checkpoint that the block at `height` is linked to. `known` holds the
    /// checkpoints of the local chain. A block at or below the last applied
    /// checkpoint is never linked to that checkpoint, but to one below itself.
    pub fn link(&self, height: u32, known: &Vec<BlockId>) -> (r: Option<BlockId>)
        ensures
            is_predecessor(self.prev, known@, height, r),
            self.prev is Some && height <= self.prev->0.height && r is Some ==> r->0.height < height,
    {
        match self.prev {
            None => None,
            Some(p) => {
                if height <= p.height {
                    find_closest_lower_key(known, height)
                } else {
                    Some(p)
                }
            },
        }
    }

    /// Records that the next block, at `height`, has been applied and committed.
    pub fn committed(&mut self, height: u32)
        requires
            old(self).next < old(self).relevant_blocks.len(),
        ensures
            final(self).prev == Some(
                BlockId { height, hash: old(self).relevant_blocks@[old(self).next as int] },
            ),
            final(self).next == old(self).next + 1,
            final(self).relevant_blocks@ == old(self).relevant_blocks@,
            final(self).to_height == old(self).to_height,
    {
        let hash = self.relevant_blocks[self.next];
        self.prev = Some(BlockId { height, hash });
        self.next = self.next + 1;
    }

    /// The height the wallet has synced to once every block is committed:
    /// the scan's height, also where no relevant block lay near it.
    pub fn finish(&self) -> (r: u32)
        requires
            self.is_complete(),
        ensures
            r == self.to_height,
    {
        self.to_height
    }
}

/// The checkpoints of `chain` up to the checkpoint `link`, in order: none when
/// there is no such checkpoint.
pub open spec fn chain_through(chain: Seq<BlockId>, link: Option<BlockId>) -> Seq<BlockId>
    decreases chain.len(),
{
    if chain.len() == 0 {
        seq![]
    } else if link is Some && chain.last().height <= link->0.height {
        chain_through(chain.drop_last(), link).push(chain.last())
    } else {
        chain_through(chain.drop_last(), link)
    }
}

/// The local chain after `block` is applied on top of the checkpoint `link`
/// (as [`SyncSession::link`] chose it): checkpoints above `link` are
/// superseded, and `block` becomes the tip. The bdk release this crate builds
/// on keeps no block-linked chain of its own, so the chain is kept here.
pub fn extend_chain(chain: &Vec<BlockId>, link: Option<BlockId>, block: BlockId) -> (r: Vec<BlockId>)
    requires
        link is Some ==> link->0.height < block.height,
    ensures
        r@ == chain_through(chain@, link).push(block),
{
    let mut out: Vec<BlockId> = Vec::new();
    let mut i: usize = 0;
    while i < chain.len()
        invariant
            i <= chain.len(),
            out@ == chain_through(chain@.subrange(0, i as int), link),
        decreases chain.len() - i,
    {
        proof {
            assert(chain@.subrange(0, i + 1).drop_last() =~= chain@.subrange(0, i as int));
        }
        let keep = match link {
            Some(l) => chain[i].height <= l.height,
            None => false,
        };
        if keep {
            out.push(chain[i]);
        }
        i = i + 1;
    }
    proof {
        assert(chain@.subrange(0, chain.len() as int) =~= chain@);
    }
    out.push(block);
    out
}

} // verus!
