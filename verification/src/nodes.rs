//! The node: one participant's account, chain and pending events, and the
//! only sanctioned way to read and change them.
//!
//! A shared reference reads, an exclusive reference changes: any number of
//! readers, or one writer, never both. The durable write that goes with a
//! new block is done by the caller, who hands its outcome in.

use crate::accounts::{Account, PersistentInformation, Profile, Role};
use crate::block::{Block, Event};
use crate::chain::{admits, appended, holds, linked, overlap_fraction, BlockChain, ChainError, Overlap};
use crate::digest::content_id;
use crate::traits::BlockChainBase;
use vstd::prelude::*;

verus! {

/// A participant's local state: an account that never changes, a chain that
/// only grows, and the events that wait for a block.
#[derive(Debug)]
pub struct Node<T: BlockChainBase> {
    /// Who the node is.
    pub account: Account,
    /// The node's view of history.
    pub blockchain: BlockChain<T>,
    /// The payloads that no block holds yet.
    pub loose_events: Vec<Event<T>>,
}

impl<T: BlockChainBase> Node<T> {
    /// A node with the given role and identity, an empty chain and no
    /// pending events.
    pub fn new(role: Role, profile: Profile, persistent: PersistentInformation) -> (node: Self)
        ensures
            node.account == (Account {
                id: persistent.id,
                role,
                profile,
                pub_key: persistent.pub_key,
                priv_key: persistent.priv_key,
            }),
            node.blockchain@ == Seq::<Block<T>>::empty(),
            node.loose_events@ == Seq::<Event<T>>::empty(),
    {
        Node {
            account: Account::new(
                role,
                profile,
                persistent.pub_key,
                persistent.priv_key,
                persistent.id,
            ),
            blockchain: BlockChain::new(),
            loose_events: Vec::new(),
        }
    }

    /// The block that opens a chain with `payload`, whose durable bytes are
    /// `encoded`. This is the block that `genesis` puts into the new chain;
    /// the caller writes it durably first.
    pub fn genesis_block(payload: T, encoded: &[u8]) -> (block: Block<T>)
        ensures
            block.parent() is None,
            block.spec_payload() == payload,
            block.identity() == content_id(None, encoded@),
    {
        Block::new(None, payload, encoded)
    }

    /// A miner's node whose chain holds the genesis block and nothing else.
    /// `written` is the outcome of the durable write of that block: when the
    /// write failed, the failure is handed back and no node is made.
    pub fn genesis<E>(
        profile: Profile,
        persistent: PersistentInformation,
        payload: T,
        encoded: &[u8],
        written: Result<(), E>,
    ) -> (outcome: Result<Self, ChainError<E>>)
        ensures
            outcome is Ok <==> written is Ok,
            outcome is Ok ==> outcome->Ok_0.account == (Account {
                id: persistent.id,
                role: Role::Miner,
                profile,
                pub_key: persistent.pub_key,
                priv_key: persistent.priv_key,
            }),
            outcome is Ok ==> outcome->Ok_0.blockchain@.len() == 1,
            outcome is Ok ==> outcome->Ok_0.blockchain@[0].parent() is None,
            outcome is Ok ==> outcome->Ok_0.blockchain@[0].spec_payload() == payload,
            outcome is Ok ==> outcome->Ok_0.blockchain@[0].identity() == content_id(None, encoded@),
            outcome is Ok ==> outcome->Ok_0.loose_events@ == Seq::<Event<T>>::empty(),
            written is Err ==> outcome == Err::<Self, ChainError<E>>(
                ChainError::Persistence(written->Err_0),
            ),
    {
        let mut node = Node::new(Role::Miner, profile, persistent);
        let block = Node::<T>::genesis_block(payload, encoded);
        match node.add_block(block, written) {
            Ok(()) => Ok(node),
            Err(e) => Err(e),
        }
    }

    /// The length of the node's chain.
    pub fn bc_len(&self) -> (n: usize)
        ensures
            n == self.blockchain@.len(),
    {
        self.blockchain.len()
    }

    /// Scores how much of the node's chain `chain` holds too.
    pub fn chain_overlap(&self, chain: &BlockChain<T>) -> (score: Overlap)
        ensures
            (score.matched as nat, score.out_of as nat) == overlap_fraction(
                self.blockchain@,
                chain@,
            ),
            score.matched <= score.out_of,
            score.out_of >= 1,
    {
        self.blockchain.chain_overlap(chain)
    }

    /// Whether the node's chain holds a block with the identity of `block`.
    pub fn in_chain(&self, block: &Block<T>) -> (found: bool)
        ensures
            found == holds(self.blockchain@, block.identity()),
    {
        self.blockchain.in_chain(block)
    }

    /// Appends `block` to the node's chain if it follows the tail and its
    /// durable write, whose outcome is `written`, succeeded. Nothing but the
    /// chain changes, and the chain only on success. The node stays usable
    /// after a refusal.
    pub fn add_block<E>(&mut self, block: Block<T>, written: Result<(), E>) -> (outcome: Result<
        (),
        ChainError<E>,
    >)
        ensures
            !admits(old(self).blockchain@, block) ==> final(self).blockchain@
                == old(self).blockchain@
                && outcome == Err::<(), ChainError<E>>(ChainError::Validation),
            admits(old(self).blockchain@, block) && written is Ok ==> final(self).blockchain@
                == old(self).blockchain@.push(block) && outcome is Ok,
            admits(old(self).blockchain@, block) && written is Err ==> final(self).blockchain@
                == old(self).blockchain@
                && outcome == Err::<(), ChainError<E>>(ChainError::Persistence(written->Err_0)),
            final(self).blockchain@ == appended(old(self).blockchain@, block, written is Ok),
            linked(final(self).blockchain@),
            final(self).account == old(self).account,
            final(self).loose_events == old(self).loose_events,
            outcome is Ok ==> holds(final(self).blockchain@, block.identity()),
            forall|id: u64|
                holds(old(self).blockchain@, id) ==> holds(final(self).blockchain@, id),
    {
        self.blockchain.append(block, written)
    }
}

} // verus!
