//! What holds of every chain: facts about overlap, membership and appends,
//! stated over the same functions as the contracts of the chain operations.

use crate::block::Block;
use crate::chain::{admits, appended, holds, lemma_push_holds, lemma_push_keeps_link, linked, overlap_fraction, shared};
use crate::traits::BlockChainBase;
use vstd::prelude::*;

verus! {

/// The chain that results when the blocks of `offered` are offered to `base`
/// one after the other and every durable write succeeds.
pub open spec fn replayed<T: BlockChainBase>(
    base: Seq<Block<T>>,
    offered: Seq<Block<T>>,
) -> Seq<Block<T>>
    decreases offered.len(),
{
    if offered.len() == 0 {
        base
    } else {
        appended(replayed(base, offered.drop_last()), offered.last(), true)
    }
}

/// In a linked chain the block at index 0 is the only one without a parent,
/// and every other block names a block that stands before it in the chain.
pub proof fn lemma_parents_resolve<T: BlockChainBase>(blocks: Seq<Block<T>>, i: int)
    requires
        linked(blocks),
        0 <= i < blocks.len(),
    ensures
        i == 0 <==> blocks[i].parent() is None,
        i > 0 ==> blocks[i].parent() == Some(blocks[i - 1].identity()),
        i > 0 ==> holds(blocks.take(i), blocks[i].parent()->0),
{
    if i > 0 {
        assert(blocks.take(i)[i - 1] == blocks[i - 1]);
    }
}

/// The shared count never exceeds the length of the chain that is scored, so
/// an overlap is a fraction between zero and one.
pub proof fn lemma_overlap_is_a_fraction<T: BlockChainBase>(
    mine: Seq<Block<T>>,
    theirs: Seq<Block<T>>,
)
    ensures
        shared(mine, theirs) <= mine.len(),
        overlap_fraction(mine, theirs).0 <= overlap_fraction(mine, theirs).1,
        overlap_fraction(mine, theirs).1 >= 1,
{
    mine.lemma_filter_len(|b: Block<T>| holds(theirs, b.identity()));
}

/// When `theirs` holds every block of `mine`, all of `mine` is shared.
pub proof fn lemma_shared_when_all_held<T: BlockChainBase>(
    mine: Seq<Block<T>>,
    theirs: Seq<Block<T>>,
)
    requires
        forall|i: int| 0 <= i < mine.len() ==> holds(theirs, (#[trigger] mine[i]).identity()),
    ensures
        shared(mine, theirs) == mine.len(),
    decreases mine.len(),
{
    let held = |b: Block<T>| holds(theirs, b.identity());
    if mine.len() == 0 {
        mine.lemma_filter_len(held);
    } else {
        let front = mine.drop_last();
        assert forall|i: int| 0 <= i < front.len() implies holds(
            theirs,
            (#[trigger] front[i]).identity(),
        ) by {
            assert(front[i] == mine[i]);
        }
        lemma_shared_when_all_held(front, theirs);
        front.lemma_filter_len_push(held, mine.last());
        assert(front.push(mine.last()) =~= mine);
    }
}

/// When `theirs` holds no block of `mine`, nothing is shared.
pub proof fn lemma_shared_when_none_held<T: BlockChainBase>(
    mine: Seq<Block<T>>,
    theirs: Seq<Block<T>>,
)
    requires
        forall|i: int| 0 <= i < mine.len() ==> !holds(theirs, (#[trigger] mine[i]).identity()),
    ensures
        shared(mine, theirs) == 0,
    decreases mine.len(),
{
    let held = |b: Block<T>| holds(theirs, b.identity());
    if mine.len() == 0 {
        mine.lemma_filter_len(held);
    } else {
        let front = mine.drop_last();
        assert forall|i: int| 0 <= i < front.len() implies !holds(
            theirs,
            (#[trigger] front[i]).identity(),
        ) by {
            assert(front[i] == mine[i]);
        }
        lemma_shared_when_none_held(front, theirs);
        front.lemma_filter_len_push(held, mine.last());
        assert(front.push(mine.last()) =~= mine);
    }
}

/// A chain that is not empty overlaps itself fully: its overlap with itself
/// is its length out of its length.
pub proof fn lemma_overlap_with_itself<T: BlockChainBase>(blocks: Seq<Block<T>>)
    requires
        blocks.len() > 0,
    ensures
        overlap_fraction(blocks, blocks) == (blocks.len(), blocks.len()),
        overlap_fraction(blocks, blocks).0 == overlap_fraction(blocks, blocks).1,
{
    lemma_shared_when_all_held(blocks, blocks);
}

/// An empty chain overlaps nothing: its overlap with any chain is zero out of
/// one.
pub proof fn lemma_overlap_of_empty<T: BlockChainBase>(
    mine: Seq<Block<T>>,
    theirs: Seq<Block<T>>,
)
    requires
        mine.len() == 0,
    ensures
        overlap_fraction(mine, theirs) == (0nat, 1nat),
{
}

/// A block that was appended is in the chain from then on, whatever is
/// offered to the chain afterwards and however the writes go.
pub proof fn lemma_appended_block_stays<T: BlockChainBase>(
    blocks: Seq<Block<T>>,
    block: Block<T>,
    later: Block<T>,
    later_written: bool,
)
    requires
        admits(blocks, block),
    ensures
        holds(appended(blocks, block, true), block.identity()),
        holds(appended(appended(blocks, block, true), later, later_written), block.identity()),
{
    lemma_push_holds(blocks, block);
    lemma_push_holds(blocks.push(block), later);
}

/// No offer takes a block out of the chain: what the chain held before an
/// offer it holds after it.
pub proof fn lemma_offer_keeps_blocks<T: BlockChainBase>(
    blocks: Seq<Block<T>>,
    block: Block<T>,
    written: bool,
    id: u64,
)
    requires
        holds(blocks, id),
    ensures
        holds(appended(blocks, block, written), id),
        appended(blocks, block, written).len() >= blocks.len(),
{
    lemma_push_holds(blocks, block);
}

/// A block that does not name the tail of the chain as its parent is refused:
/// the chain and its length stay as they were, whether or not the block was
/// written.
pub proof fn lemma_unlinked_block_changes_nothing<T: BlockChainBase>(
    blocks: Seq<Block<T>>,
    block: Block<T>,
    written: bool,
)
    requires
        !admits(blocks, block),
    ensures
        appended(blocks, block, written) == blocks,
        appended(blocks, block, written).len() == blocks.len(),
{
}

/// A block whose durable write failed is not appended: the chain and its
/// length stay as they were.
pub proof fn lemma_failed_write_changes_nothing<T: BlockChainBase>(
    blocks: Seq<Block<T>>,
    block: Block<T>,
)
    ensures
        appended(blocks, block, false) == blocks,
        appended(blocks, block, false).len() == blocks.len(),
{
}

/// A block that names a block below the tail as its parent is refused, unless
/// that block and the tail share an identity.
pub proof fn lemma_stale_parent_is_refused<T: BlockChainBase>(
    blocks: Seq<Block<T>>,
    block: Block<T>,
    i: int,
)
    requires
        0 <= i < blocks.len() - 1,
        block.parent() == Some(blocks[i].identity()),
        blocks[i].identity() != blocks.last().identity(),
    ensures
        !admits(blocks, block),
{
}

/// An accepted append makes the chain exactly one block longer and keeps it
/// linked.
pub proof fn lemma_accepted_append_adds_one<T: BlockChainBase>(
    blocks: Seq<Block<T>>,
    block: Block<T>,
)
    requires
        linked(blocks),
        admits(blocks, block),
    ensures
        appended(blocks, block, true) == blocks.push(block),
        appended(blocks, block, true).len() == blocks.len() + 1,
        linked(appended(blocks, block, true)),
{
    lemma_push_keeps_link(blocks, block);
}

/// Appends that are let in one at a time lose nothing and repeat nothing:
/// when each offered block follows the tail that the offers before it left,
/// the chain ends as the old chain followed by all offered blocks, in the
/// order of the offers, and is as many blocks longer as were offered.
pub proof fn lemma_serial_appends<T: BlockChainBase>(
    base: Seq<Block<T>>,
    offered: Seq<Block<T>>,
)
    requires
        linked(base),
        forall|k: int|
            0 <= k < offered.len() ==> admits(
                replayed(base, #[trigger] offered.take(k)),
                offered[k],
            ),
    ensures
        replayed(base, offered) == base + offered,
        replayed(base, offered).len() == base.len() + offered.len(),
        linked(replayed(base, offered)),
    decreases offered.len(),
{
    if offered.len() == 0 {
        assert(base + offered =~= base);
    } else {
        let front = offered.drop_last();
        let n = front.len() as int;
        assert forall|k: int| 0 <= k < front.len() implies admits(
            replayed(base, #[trigger] front.take(k)),
            front[k],
        ) by {
            assert(front.take(k) =~= offered.take(k));
            assert(front[k] == offered[k]);
        }
        lemma_serial_appends(base, front);
        assert(offered.take(n) =~= front);
        assert(admits(replayed(base, offered.take(n)), offered[n]));
        lemma_push_keeps_link(base + front, offered.last());
        assert((base + front).push(offered.last()) =~= base + offered);
    }
}

/// Each step of a run of serial appends makes the chain one block longer:
/// after the first `k` offers the chain is `k` blocks longer than it was.
pub proof fn lemma_serial_appends_grow_by_one<T: BlockChainBase>(
    base: Seq<Block<T>>,
    offered: Seq<Block<T>>,
    k: int,
)
    requires
        linked(base),
        forall|j: int|
            0 <= j < offered.len() ==> admits(
                replayed(base, #[trigger] offered.take(j)),
                offered[j],
            ),
        0 <= k <= offered.len(),
    ensures
        replayed(base, offered.take(k)).len() == base.len() + k,
        k < offered.len() ==> replayed(base, offered.take(k + 1)).len() == replayed(
            base,
            offered.take(k),
        ).len() + 1,
{
    lemma_serial_prefix(base, offered, k);
    if k < offered.len() {
        lemma_serial_prefix(base, offered, k + 1);
    }
}

proof fn lemma_serial_prefix<T: BlockChainBase>(
    base: Seq<Block<T>>,
    offered: Seq<Block<T>>,
    k: int,
)
    requires
        linked(base),
        forall|j: int|
            0 <= j < offered.len() ==> admits(
                replayed(base, #[trigger] offered.take(j)),
                offered[j],
            ),
        0 <= k <= offered.len(),
    ensures
        replayed(base, offered.take(k)) == base + offered.take(k),
{
    let prefix = offered.take(k);
    assert forall|j: int| 0 <= j < prefix.len() implies admits(
        replayed(base, #[trigger] prefix.take(j)),
        prefix[j],
    ) by {
        assert(prefix.take(j) =~= offered.take(j));
        assert(prefix[j] == offered[j]);
    }
    lemma_serial_appends(base, prefix);
}

} // verus!
