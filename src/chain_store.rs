use vstd::prelude::*;

use crate::bytes::{bytes_equal, copy_bytes, opt_bytes_view};

verus! {

/// A block of the account chain as the store holds it: its hash, its
/// parent's hash, its height, and a payload (receipts) that the canon logic
/// never reads.
#[derive(Debug, Clone)]
pub struct BlockRecord {
    pub hash: Vec<u8>,
    pub parent_hash: Vec<u8>,
    pub height: u64,
    pub payload: Vec<u8>,
}

pub struct BlockView {
    pub hash: Seq<u8>,
    pub parent_hash: Seq<u8>,
    pub height: u64,
    pub payload: Seq<u8>,
}

impl View for BlockRecord {
    type V = BlockView;

    open spec fn view(&self) -> BlockView {
        BlockView {
            hash: self.hash@,
            parent_hash: self.parent_hash@,
            height: self.height,
            payload: self.payload@,
        }
    }
}

pub open spec fn opt_block_view(o: Option<BlockRecord>) -> Option<BlockView> {
    match o {
        Some(b) => Some(b@),
        None => None,
    }
}

impl BlockRecord {
    pub fn new(hash: Vec<u8>, parent_hash: Vec<u8>, height: u64, payload: Vec<u8>) -> (r: Self)
        ensures
            r.hash == hash,
            r.parent_hash == parent_hash,
            r.height == height,
            r.payload == payload,
    {
        BlockRecord { hash, parent_hash, height, payload }
    }

    /// A field-by-field copy of the block.
    pub fn copy(&self) -> (r: Self)
        ensures
            r@ == self@,
    {
        BlockRecord {
            hash: copy_bytes(&self.hash),
            parent_hash: copy_bytes(&self.parent_hash),
            height: self.height,
            payload: copy_bytes(&self.payload),
        }
    }
}

impl PartialEq for BlockRecord {
    fn eq(&self, o: &BlockRecord) -> (r: bool) {
        bytes_equal(self.hash.as_slice(), o.hash.as_slice())
            && bytes_equal(self.parent_hash.as_slice(), o.parent_hash.as_slice())
            && self.height == o.height
            && bytes_equal(self.payload.as_slice(), o.payload.as_slice())
    }
}

impl vstd::std_specs::cmp::PartialEqSpecImpl for BlockRecord {
    open spec fn obeys_eq_spec() -> bool {
        true
    }

    open spec fn eq_spec(&self, o: &BlockRecord) -> bool {
        self@ == o@
    }
}

/// The block stored under hash `h`: the most recent block put with that hash.
pub open spec fn lookup_block(blocks: Seq<BlockView>, h: Seq<u8>) -> Option<BlockView>
    decreases blocks.len(),
{
    if blocks.len() == 0 {
        None
    } else if blocks.last().hash == h {
        Some(blocks.last())
    } else {
        lookup_block(blocks.drop_last(), h)
    }
}

/// A block found under a hash carries that hash.
pub proof fn lemma_lookup_hash(blocks: Seq<BlockView>, h: Seq<u8>)
    ensures
        lookup_block(blocks, h) matches Some(b) ==> b.hash == h,
    decreases blocks.len(),
{
    if blocks.len() > 0 && blocks.last().hash != h {
        lemma_lookup_hash(blocks.drop_last(), h);
    }
}

/// Appending a block changes what is found under its own hash only.
pub proof fn lemma_lookup_push(blocks: Seq<BlockView>, b: BlockView, h: Seq<u8>)
    ensures
        lookup_block(blocks.push(b), h) == if b.hash == h {
            Some(b)
        } else {
            lookup_block(blocks, h)
        },
{
    assert(blocks.push(b).drop_last() =~= blocks);
}

/// An in-memory chain store: blocks keyed by hash, the `latest` and `canon`
/// pointers, and the configured confirmation depth.
pub struct ChainStore {
    blocks: Vec<BlockRecord>,
    latest: Option<Vec<u8>>,
    canon: Option<Vec<u8>>,
    confirmation_depth: Option<u64>,
}

pub struct ChainStoreView {
    pub blocks: Seq<BlockView>,
    pub latest: Option<Seq<u8>>,
    pub canon: Option<Seq<u8>>,
    pub confirmation_depth: Option<u64>,
}

impl View for ChainStore {
    type V = ChainStoreView;

    closed spec fn view(&self) -> ChainStoreView {
        ChainStoreView {
            blocks: self.blocks@.map_values(|b: BlockRecord| b@),
            latest: opt_bytes_view(self.latest),
            canon: opt_bytes_view(self.canon),
            confirmation_depth: self.confirmation_depth,
        }
    }
}

/// The block that the `latest` pointer names, if it is in the store.
pub open spec fn latest_block(v: ChainStoreView) -> Option<BlockView> {
    match v.latest {
        Some(h) => lookup_block(v.blocks, h),
        None => None,
    }
}

/// The block that the `canon` pointer names, if it is in the store.
pub open spec fn canon_block(v: ChainStoreView) -> Option<BlockView> {
    match v.canon {
        Some(h) => lookup_block(v.blocks, h),
        None => None,
    }
}

/// The canon block of `b` is at least as high as that of `a`: once `a` has a
/// canon block, `b` has one too, no lower.
pub open spec fn canon_not_lower(a: ChainStoreView, b: ChainStoreView) -> bool {
    match canon_block(a) {
        None => true,
        Some(ca) => match canon_block(b) {
            Some(cb) => ca.height <= cb.height,
            None => false,
        },
    }
}

fn copy_opt_bytes(o: &Option<Vec<u8>>) -> (r: Option<Vec<u8>>)
    ensures
        opt_bytes_view(r) == opt_bytes_view(*o),
{
    match o {
        Some(h) => Some(copy_bytes(h)),
        None => None,
    }
}

impl ChainStore {
    /// An empty store: no blocks, no pointers, no configuration.
    pub fn new() -> (r: Self)
        ensures
            r@.blocks.len() == 0,
            r@.latest.is_none(),
            r@.canon.is_none(),
            r@.confirmation_depth.is_none(),
    {
        let r = ChainStore {
            blocks: Vec::new(),
            latest: None,
            canon: None,
            confirmation_depth: None,
        };
        assert(r@.blocks =~= Seq::<BlockView>::empty());
        r
    }

    /// The block stored under `hash`, or `None` when there is none.
    pub fn get_block(&self, hash: &[u8]) -> (r: Option<BlockRecord>)
        ensures
            opt_block_view(r) == lookup_block(self@.blocks, hash@),
    {
        let ghost bs = self@.blocks;
        let mut i: usize = self.blocks.len();
        assert(bs.subrange(0, i as int) =~= bs);
        while i > 0
            invariant
                i <= self.blocks@.len(),
                bs == self@.blocks,
                lookup_block(bs, hash@) == lookup_block(bs.subrange(0, i as int), hash@),
            decreases i,
        {
            let ghost pre = bs.subrange(0, i as int);
            assert(pre.last() == self.blocks@[i - 1]@);
            assert(pre.drop_last() =~= bs.subrange(0, i - 1));
            if bytes_equal(self.blocks[i - 1].hash.as_slice(), hash) {
                return Some(self.blocks[i - 1].copy());
            }
            i = i - 1;
        }
        None
    }

    /// The block that the `latest` pointer names, if it is stored.
    pub fn get_latest_block(&self) -> (r: Option<BlockRecord>)
        ensures
            opt_block_view(r) == latest_block(self@),
    {
        match &self.latest {
            Some(h) => self.get_block(h.as_slice()),
            None => None,
        }
    }

    /// The block that the `canon` pointer names, if it is stored.
    pub fn get_canon_block(&self) -> (r: Option<BlockRecord>)
        ensures
            opt_block_view(r) == canon_block(self@),
    {
        match &self.canon {
            Some(h) => self.get_block(h.as_slice()),
            None => None,
        }
    }

    /// The hash that the `latest` pointer holds.
    pub fn get_latest_block_hash(&self) -> (r: Option<Vec<u8>>)
        ensures
            opt_bytes_view(r) == self@.latest,
    {
        copy_opt_bytes(&self.latest)
    }

    /// The hash that the `canon` pointer holds.
    pub fn get_canon_block_hash(&self) -> (r: Option<Vec<u8>>)
        ensures
            opt_bytes_view(r) == self@.canon,
    {
        copy_opt_bytes(&self.canon)
    }

    /// The configured confirmation depth.
    pub fn get_confirmation_depth(&self) -> (r: Option<u64>)
        ensures
            r == self@.confirmation_depth,
    {
        self.confirmation_depth
    }

    /// Stores a block under its hash. A stored block is immutable: when a
    /// block with that hash is already present, the store is left as it is.
    pub fn put_block(&mut self, block: BlockRecord)
        ensures
            lookup_block(old(self)@.blocks, block.hash@) is Some ==> final(self)@ == old(self)@,
            lookup_block(old(self)@.blocks, block.hash@) is None ==> final(self)@ == (ChainStoreView {
                blocks: old(self)@.blocks.push(block@),
                ..old(self)@
            }),
            forall|h: Seq<u8>|
                #[trigger] lookup_block(old(self)@.blocks, h) is Some ==> lookup_block(
                    final(self)@.blocks,
                    h,
                ) == lookup_block(old(self)@.blocks, h),
            canon_not_lower(old(self)@, final(self)@),
    {
        if self.get_block(block.hash.as_slice()).is_none() {
            let ghost b = block@;
            self.blocks.push(block);
            assert(self@.blocks =~= old(self)@.blocks.push(b));
            assert forall|h: Seq<u8>|
                #[trigger] lookup_block(old(self)@.blocks, h) is Some implies lookup_block(
                    self@.blocks,
                    h,
                ) == lookup_block(old(self)@.blocks, h) by {
                lemma_lookup_push(old(self)@.blocks, b, h);
            }
            proof {
                if let Some(c) = old(self)@.canon {
                    lemma_lookup_push(old(self)@.blocks, b, c);
                }
            }
        }
    }

    /// Stores a block and points `latest` at it.
    pub fn put_latest_block(&mut self, block: BlockRecord)
        ensures
            final(self)@.latest == Some(block.hash@),
            final(self)@.canon == old(self)@.canon,
            final(self)@.confirmation_depth == old(self)@.confirmation_depth,
            lookup_block(old(self)@.blocks, block.hash@) is Some ==> final(self)@.blocks
                == old(self)@.blocks,
            lookup_block(old(self)@.blocks, block.hash@) is None ==> final(self)@.blocks
                == old(self)@.blocks.push(block@),
            canon_not_lower(old(self)@, final(self)@),
    {
        let h = copy_bytes(&block.hash);
        self.put_block(block);
        self.latest = Some(h);
    }

    /// Stores a block and points `canon` at it. This sets the starting canon
    /// block; afterwards only the canon advance moves the pointer.
    pub fn put_canon_block(&mut self, block: BlockRecord)
        ensures
            final(self)@.canon == Some(block.hash@),
            final(self)@.latest == old(self)@.latest,
            final(self)@.confirmation_depth == old(self)@.confirmation_depth,
            lookup_block(old(self)@.blocks, block.hash@) is Some ==> final(self)@.blocks
                == old(self)@.blocks,
            lookup_block(old(self)@.blocks, block.hash@) is None ==> final(self)@.blocks
                == old(self)@.blocks.push(block@),
    {
        let h = copy_bytes(&block.hash);
        self.put_block(block);
        self.canon = Some(h);
    }

    /// Sets the configured confirmation depth.
    pub fn put_confirmation_depth(&mut self, depth: u64)
        ensures
            final(self)@ == (ChainStoreView { confirmation_depth: Some(depth), ..old(self)@ }),
            canon_not_lower(old(self)@, final(self)@),
    {
        self.confirmation_depth = Some(depth);
    }

    /// Points `canon` at `hash`.
    pub(crate) fn put_canon_block_hash(&mut self, hash: Vec<u8>)
        ensures
            final(self)@ == (ChainStoreView { canon: Some(hash@), ..old(self)@ }),
    {
        self.canon = Some(hash);
    }
}

} // verus!
