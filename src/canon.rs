use vstd::prelude::*;

use crate::bytes::copy_bytes;
use crate::chain_store::{
    BlockRecord, BlockView, ChainStore, ChainStoreView, canon_block, canon_not_lower, lookup_block,
    lemma_lookup_hash, opt_block_view,
};
use crate::error::BridgeError;

verus! {

/// The block `m` parent links above `b`, each parent looked up in `blocks`;
/// `None` as soon as a parent is missing.
pub open spec fn ancestor_from(blocks: Seq<BlockView>, b: BlockView, m: nat) -> Option<BlockView>
    decreases m,
{
    if m == 0 {
        Some(b)
    } else {
        match lookup_block(blocks, b.parent_hash) {
            Some(p) => ancestor_from(blocks, p, (m - 1) as nat),
            None => None,
        }
    }
}

/// The `n`th ancestor of the block stored under `start`: the block itself
/// when `n` is zero, and `None` when the walk meets a block that is absent.
pub open spec fn nth_ancestor(blocks: Seq<BlockView>, start: Seq<u8>, n: nat) -> Option<BlockView> {
    match lookup_block(blocks, start) {
        Some(b) => ancestor_from(blocks, b, n),
        None => None,
    }
}

/// The `n`th ancestor of the block that `latest` names.
pub open spec fn ancestor_of_latest(v: ChainStoreView, n: nat) -> Option<BlockView> {
    match v.latest {
        Some(h) => nth_ancestor(v.blocks, h, n),
        None => None,
    }
}

/// The block that becomes canon with confirmation depth `n`, if any: the
/// `n`th ancestor of `latest`, when it exists and is higher than the current
/// canon block.
pub open spec fn canon_candidate(v: ChainStoreView, n: nat) -> Option<BlockView> {
    match ancestor_of_latest(v, n) {
        Some(a) => match canon_block(v) {
            Some(c) => if c.height < a.height {
                Some(a)
            } else {
                None
            },
            None => None,
        },
        None => None,
    }
}

/// The store after one canon advance with confirmation depth `n`.
pub open spec fn advance_canon(v: ChainStoreView, n: nat) -> ChainStoreView {
    match canon_candidate(v, n) {
        Some(a) => ChainStoreView { canon: Some(a.hash), ..v },
        None => v,
    }
}

/// Every block that the walk reaches is the one stored under its own hash.
pub proof fn lemma_ancestor_stored(blocks: Seq<BlockView>, b: BlockView, m: nat)
    requires
        lookup_block(blocks, b.hash) == Some(b),
    ensures
        ancestor_from(blocks, b, m) matches Some(x) ==> lookup_block(blocks, x.hash) == Some(x),
    decreases m,
{
    if m > 0 {
        if let Some(p) = lookup_block(blocks, b.parent_hash) {
            lemma_lookup_hash(blocks, b.parent_hash);
            lemma_ancestor_stored(blocks, p, (m - 1) as nat);
        }
    }
}

/// The ancestor of `latest`, when there is one, is stored under its hash.
pub proof fn lemma_ancestor_of_latest_stored(v: ChainStoreView, n: nat)
    ensures
        ancestor_of_latest(v, n) matches Some(a) ==> lookup_block(v.blocks, a.hash) == Some(a),
{
    if let Some(h) = v.latest {
        if let Some(b) = lookup_block(v.blocks, h) {
            lemma_lookup_hash(v.blocks, h);
            lemma_ancestor_stored(v.blocks, b, n);
        }
    }
}

/// Walks `n` parent links up from the block stored under `start_hash`.
pub fn maybe_get_nth_ancestor_block(db: &ChainStore, start_hash: &[u8], n: u64) -> (r: Option<
    BlockRecord,
>)
    ensures
        opt_block_view(r) == nth_ancestor(db@.blocks, start_hash@, n as nat),
{
    let ghost bs = db@.blocks;
    let mut cur = match db.get_block(start_hash) {
        Some(b) => b,
        None => return None,
    };
    let mut i: u64 = 0;
    while i < n
        invariant
            i <= n,
            bs == db@.blocks,
            nth_ancestor(bs, start_hash@, n as nat) == ancestor_from(bs, cur@, (n - i) as nat),
        decreases n - i,
    {
        match db.get_block(cur.parent_hash.as_slice()) {
            Some(p) => {
                cur = p;
            },
            None => {
                return None;
            },
        }
        i = i + 1;
    }
    Some(cur)
}

/// The `n`th ancestor of the block that `latest` names; `None` while no
/// latest block is stored or the walk meets a missing block.
pub fn maybe_get_nth_ancestor_of_latest_block(db: &ChainStore, n: &u64) -> (r: Option<BlockRecord>)
    ensures
        opt_block_view(r) == ancestor_of_latest(db@, *n as nat),
{
    match db.get_latest_block_hash() {
        Some(h) => maybe_get_nth_ancestor_block(db, h.as_slice(), *n),
        None => None,
    }
}

/// Whether `candidate` is higher than the current canon block, that is,
/// whether the canon block's height is at most the candidate's height less
/// one; `None` while no canon block is stored.
pub fn does_canon_block_require_updating(db: &ChainStore, candidate: &BlockRecord) -> (r: Option<
    bool,
>)
    ensures
        r == match canon_block(db@) {
            Some(c) => Some(c.height < candidate.height),
            None => None,
        },
{
    match db.get_canon_block() {
        Some(c) => Some(c.height < candidate.height),
        None => None,
    }
}

/// Moves `canon` to the `canon_to_tip_length`th ancestor of `latest` when
/// that ancestor exists and is higher than the current canon block; otherwise
/// leaves the store as it is. Returns whether `canon` moved.
pub fn maybe_update_canon_block_hash(db: &mut ChainStore, canon_to_tip_length: &u64) -> (r: bool)
    ensures
        final(db)@ == advance_canon(old(db)@, *canon_to_tip_length as nat),
        r == canon_candidate(old(db)@, *canon_to_tip_length as nat) is Some,
        ancestor_of_latest(old(db)@, *canon_to_tip_length as nat) is None ==> final(db)@ == old(
            db,
        )@,
        ancestor_of_latest(old(db)@, *canon_to_tip_length as nat) matches Some(a) ==> (
        canon_block(old(db)@) matches Some(c) ==> (c.height < a.height ==> final(db)@.canon == Some(
            a.hash,
        )) && (c.height >= a.height ==> final(db)@ == old(db)@)),
        canon_not_lower(old(db)@, final(db)@),
{
    proof {
        lemma_advance_canon_not_lower(db@, *canon_to_tip_length as nat);
    }
    match maybe_get_nth_ancestor_of_latest_block(db, canon_to_tip_length) {
        None => false,
        Some(ancestor) => match does_canon_block_require_updating(db, &ancestor) {
            Some(true) => {
                db.put_canon_block_hash(copy_bytes(&ancestor.hash));
                true
            },
            _ => false,
        },
    }
}

/// The account-chain pipeline state that the canon stage works on.
pub struct EthState {
    pub db: ChainStore,
}

/// The canon stage: reads the confirmation depth and makes one canon advance
/// with it. Fails with `ConfigurationMissing` when no depth is configured,
/// leaving the store untouched.
pub fn maybe_update_eth_canon_block_hash(state: EthState) -> (r: Result<EthState, BridgeError>)
    ensures
        state.db@.confirmation_depth is None ==> r == Err::<EthState, BridgeError>(
            BridgeError::ConfigurationMissing,
        ),
        state.db@.confirmation_depth matches Some(n) ==> (r matches Ok(s) && s.db@ == advance_canon(
            state.db@,
            n as nat,
        )),
{
    let mut state = state;
    match state.db.get_confirmation_depth() {
        None => Err(BridgeError::ConfigurationMissing),
        Some(n) => {
            maybe_update_canon_block_hash(&mut state.db, &n);
            Ok(state)
        },
    }
}

/// A canon advance never lowers the canon block.
pub proof fn lemma_advance_canon_not_lower(v: ChainStoreView, n: nat)
    ensures
        canon_not_lower(v, advance_canon(v, n)),
{
    lemma_ancestor_of_latest_stored(v, n);
}

/// Over any run of store states in which each step keeps the canon block from
/// getting lower (every canon advance, and every store mutation but setting
/// the starting canon block, is such a step), no later state has a lower
/// canon block than an earlier one.
pub proof fn lemma_canon_height_monotone(states: Seq<ChainStoreView>)
    requires
        forall|i: int| 0 <= i < states.len() - 1 ==> canon_not_lower(#[trigger] states[i], states[i + 1]),
    ensures
        forall|i: int, j: int|
            0 <= i <= j < states.len() ==> canon_not_lower(#[trigger] states[i], #[trigger] states[j]),
    decreases states.len(),
{
    if states.len() > 0 {
        let pre = states.drop_last();
        assert forall|i: int| 0 <= i < pre.len() - 1 implies canon_not_lower(#[trigger] pre[i], pre[i + 1]) by {
            assert(pre[i] == states[i] && pre[i + 1] == states[i + 1]);
        }
        lemma_canon_height_monotone(pre);
        assert forall|i: int, j: int| 0 <= i <= j < states.len() implies canon_not_lower(
            #[trigger] states[i],
            #[trigger] states[j],
        ) by {
            if j < states.len() - 1 {
                assert(pre[i] == states[i] && pre[j] == states[j]);
            } else if i < j {
                let k = states.len() - 2;
                assert(pre[i] == states[i] && pre[k] == states[k]);
                assert(canon_not_lower(states[i], states[k]));
                assert(canon_not_lower(states[k], states[j]));
            }
        }
    }
}

/// Two canon advances in a row, with no store change between them, move the
/// canon pointer at most once: the second one changes nothing.
pub proof fn lemma_advance_canon_idempotent(v: ChainStoreView, n: nat)
    ensures
        advance_canon(advance_canon(v, n), n) == advance_canon(v, n),
        canon_candidate(advance_canon(v, n), n) is None,
{
    lemma_ancestor_of_latest_stored(v, n);
}

} // verus!
