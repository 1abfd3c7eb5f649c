//! The chain: an append-only sequence of blocks in which every block names
//! the one before it, with membership and overlap queries and a validated
//! append.
//!
//! The durable write that goes with an append is done by the caller. The
//! caller asks `validate` whether a block may be written at all, writes it,
//! and hands the outcome of the write to `append`, which alone decides what
//! becomes of the chain.

use crate::block::Block;
use crate::traits::BlockChainBase;
use vstd::prelude::*;

verus! {

/// Why a block was not appended.
#[derive(Debug, PartialEq, Eq)]
pub enum ChainError<E> {
    /// The block does not follow the tail of the chain.
    Validation,
    /// The durable write of the block failed; the failure is handed on as it
    /// came.
    Persistence(E),
}

/// A similarity score between two chains, as the fraction `matched / out_of`.
#[derive(Clone, Copy, Debug, PartialEq, Eq)]
pub struct Overlap {
    /// How many blocks of the first chain the second chain holds too.
    pub matched: usize,
    /// How many blocks were looked at; never zero.
    pub out_of: usize,
}

/// Whether some block of `blocks` has the identity `id`.
pub open spec fn holds<T: BlockChainBase>(blocks: Seq<Block<T>>, id: u64) -> bool {
    exists|i: int| 0 <= i < blocks.len() && (#[trigger] blocks[i]).identity() == id
}

/// Whether `block` may follow `blocks`: it names their last block as its
/// parent, or it has no parent and there are none.
pub open spec fn admits<T: BlockChainBase>(blocks: Seq<Block<T>>, block: Block<T>) -> bool {
    if blocks.len() == 0 {
        block.parent() is None
    } else {
        block.parent() == Some(blocks.last().identity())
    }
}

/// The chain invariant: the first block has no parent, and every later block
/// names the block just before it.
pub open spec fn linked<T: BlockChainBase>(blocks: Seq<Block<T>>) -> bool {
    &&& blocks.len() > 0 ==> blocks[0].parent() is None
    &&& forall|i: int|
        0 < i < blocks.len() ==> (#[trigger] blocks[i]).parent() == Some(blocks[i - 1].identity())
}

/// What `blocks` becomes when `block` is offered and the durable write of it
/// went as `written` says: one block longer if the block follows the tail and
/// was written, unchanged otherwise.
pub open spec fn appended<T: BlockChainBase>(
    blocks: Seq<Block<T>>,
    block: Block<T>,
    written: bool,
) -> Seq<Block<T>> {
    if admits(blocks, block) && written {
        blocks.push(block)
    } else {
        blocks
    }
}

/// How many blocks of `mine` have an identity that `theirs` holds too.
pub open spec fn shared<T: BlockChainBase>(mine: Seq<Block<T>>, theirs: Seq<Block<T>>) -> nat {
    mine.filter(|b: Block<T>| holds(theirs, b.identity())).len()
}

/// The overlap of `mine` with `theirs` as numerator and denominator: the
/// blocks of `mine` that `theirs` holds out of all blocks of `mine`, and zero
/// out of one when `mine` is empty.
pub open spec fn overlap_fraction<T: BlockChainBase>(
    mine: Seq<Block<T>>,
    theirs: Seq<Block<T>>,
) -> (nat, nat) {
    if mine.len() == 0 {
        (0, 1)
    } else {
        (shared(mine, theirs), mine.len())
    }
}

/// An ordered, append-only sequence of blocks; the block at index 0 is the
/// genesis block.
#[derive(Debug)]
pub struct BlockChain<T: BlockChainBase> {
    chain: Vec<Block<T>>,
}

impl<T: BlockChainBase> View for BlockChain<T> {
    type V = Seq<Block<T>>;

    closed spec fn view(&self) -> Seq<Block<T>> {
        self.chain@
    }
}

impl<T: BlockChainBase> BlockChain<T> {
    #[verifier::type_invariant]
    spec fn well_formed(&self) -> bool {
        linked(self.chain@)
    }

    /// An empty chain.
    pub fn new() -> (chain: Self)
        ensures
            chain@ == Seq::<Block<T>>::empty(),
    {
        BlockChain { chain: Vec::new() }
    }

    /// The number of blocks in the chain.
    pub fn len(&self) -> (n: usize)
        ensures
            n == self@.len(),
    {
        self.chain.len()
    }

    /// The blocks of the chain in chain order, the genesis block first. Every
    /// chain is linked.
    pub fn blocks(&self) -> (blocks: &[Block<T>])
        ensures
            blocks@ == self@,
            linked(self@),
    {
        proof {
            use_type_invariant(self);
        }
        self.chain.as_slice()
    }

    /// The identity of the last block, or `None` for an empty chain.
    pub fn tail_identity(&self) -> (tail: Option<u64>)
        ensures
            self@.len() == 0 ==> tail is None,
            self@.len() > 0 ==> tail == Some(self@.last().identity()),
    {
        let n = self.chain.len();
        if n == 0 {
            None
        } else {
            Some(self.chain[n - 1].identity())
        }
    }

    /// Whether the chain holds a block with the identity of `block`.
    pub fn in_chain(&self, block: &Block<T>) -> (found: bool)
        ensures
            found == holds(self@, block.identity()),
    {
        let wanted = block.identity();
        let mut i: usize = 0;
        while i < self.chain.len()
            invariant
                i <= self.chain@.len(),
                wanted == block.identity(),
                forall|k: int| 0 <= k < i ==> (#[trigger] self.chain@[k]).identity() != wanted,
            decreases self.chain@.len() - i,
        {
            if self.chain[i].identity() == wanted {
                return true;
            }
            i = i + 1;
        }
        false
    }

    /// Scores how much of this chain `other` holds too: the number of blocks
    /// of this chain whose identity occurs in `other`, out of the length of
    /// this chain. An empty chain scores zero out of one.
    pub fn chain_overlap(&self, other: &BlockChain<T>) -> (score: Overlap)
        ensures
            (score.matched as nat, score.out_of as nat) == overlap_fraction(self@, other@),
            score.matched <= score.out_of,
            score.out_of >= 1,
    {
        let n = self.chain.len();
        if n == 0 {
            return Overlap { matched: 0, out_of: 1 };
        }
        let mut matched: usize = 0;
        let mut i: usize = 0;
        while i < n
            invariant
                n == self.chain@.len(),
                i <= n,
                matched <= i,
                matched == shared(self.chain@.take(i as int), other@),
            decreases n - i,
        {
            proof {
                let seen = self.chain@.take(i as int);
                let next = self.chain@[i as int];
                assert(self.chain@.take(i + 1) =~= seen.push(next));
                seen.lemma_filter_len_push(|b: Block<T>| holds(other@, b.identity()), next);
            }
            if other.in_chain(&self.chain[i]) {
                matched = matched + 1;
            }
            i = i + 1;
        }
        proof {
            assert(self.chain@.take(n as int) =~= self.chain@);
        }
        Overlap { matched, out_of: n }
    }

    /// Says whether `block` may be written and appended: it must follow the
    /// tail of the chain, or be a genesis block offered to an empty chain.
    pub fn validate<E>(&self, block: &Block<T>) -> (verdict: Result<(), ChainError<E>>)
        ensures
            verdict is Ok <==> admits(self@, *block),
            verdict is Err ==> verdict == Err::<(), ChainError<E>>(ChainError::Validation),
    {
        if self.follows_tail(block) {
            Ok(())
        } else {
            Err(ChainError::Validation)
        }
    }

    /// Appends `block` if it follows the tail of the chain and its durable
    /// write succeeded. `written` is the outcome of that write. A block that
    /// does not follow the tail is refused whatever `written` says; a failed
    /// write is handed back as it came. The chain changes only on success.
    pub fn append<E>(&mut self, block: Block<T>, written: Result<(), E>) -> (outcome: Result<
        (),
        ChainError<E>,
    >)
        ensures
            !admits(old(self)@, block) ==> final(self)@ == old(self)@
                && outcome == Err::<(), ChainError<E>>(ChainError::Validation),
            admits(old(self)@, block) && written is Ok ==> final(self)@ == old(self)@.push(block)
                && outcome is Ok,
            admits(old(self)@, block) && written is Err ==> final(self)@ == old(self)@
                && outcome == Err::<(), ChainError<E>>(ChainError::Persistence(written->Err_0)),
            final(self)@ == appended(old(self)@, block, written is Ok),
            linked(final(self)@),
            outcome is Ok ==> holds(final(self)@, block.identity()),
            forall|id: u64| holds(old(self)@, id) ==> holds(final(self)@, id),
    {
        proof {
            use_type_invariant(&*self);
        }
        if !self.follows_tail(&block) {
            return Err(ChainError::Validation);
        }
        match written {
            Ok(()) => {
                proof {
                    lemma_push_keeps_link(self.chain@, block);
                    lemma_push_holds(self.chain@, block);
                }
                let mut blocks: Vec<Block<T>> = Vec::new();
                std::mem::swap(&mut blocks, &mut self.chain);
                blocks.push(block);
                self.chain = blocks;
                Ok(())
            },
            Err(e) => Err(ChainError::Persistence(e)),
        }
    }

    fn follows_tail(&self, block: &Block<T>) -> (follows: bool)
        ensures
            follows == admits(self@, *block),
    {
        match (self.tail_identity(), block.parent()) {
            (None, None) => true,
            (Some(tail), Some(parent)) => tail == parent,
            _ => false,
        }
    }
}

/// A linked sequence stays linked when a block that it admits is pushed.
pub proof fn lemma_push_keeps_link<T: BlockChainBase>(blocks: Seq<Block<T>>, block: Block<T>)
    requires
        linked(blocks),
        admits(blocks, block),
    ensures
        linked(blocks.push(block)),
{
    let longer = blocks.push(block);
    assert forall|i: int| 0 < i < longer.len() implies (#[trigger] longer[i]).parent() == Some(
        longer[i - 1].identity(),
    ) by {
        if i < blocks.len() {
            assert(longer[i] == blocks[i]);
            assert(longer[i - 1] == blocks[i - 1]);
        }
    }
}

/// After a push the sequence holds the pushed block and every identity that
/// it held before.
pub proof fn lemma_push_holds<T: BlockChainBase>(blocks: Seq<Block<T>>, block: Block<T>)
    ensures
        holds(blocks.push(block), block.identity()),
        forall|id: u64| holds(blocks, id) ==> holds(blocks.push(block), id),
{
    let longer = blocks.push(block);
    assert(longer[blocks.len() as int] == block);
    assert forall|id: u64| holds(blocks, id) implies holds(longer, id) by {
        let i = choose|i: int| 0 <= i < blocks.len() && (#[trigger] blocks[i]).identity() == id;
        assert(longer[i] == blocks[i]);
    }
}

} // verus!
