//! Blocks, the immutable units of a chain, and events, the payloads that wait
//! to be put into one.

use crate::digest::{content_id, digest};
use crate::traits::BlockChainBase;
use vstd::prelude::*;

verus! {

/// An immutable unit of chain state: a link to the block before it, a payload,
/// and the identity derived from the two.
#[derive(Debug)]
pub struct Block<T: BlockChainBase> {
    parent: Option<u64>,
    payload: T,
    identity: u64,
}

impl<T: BlockChainBase> Block<T> {
    /// The identity of the block that this one follows, if there is one.
    pub closed spec fn spec_parent(&self) -> Option<u64> {
        self.parent
    }

    /// The payload that this block carries.
    pub closed spec fn spec_payload(&self) -> T {
        self.payload
    }

    /// The identity of this block.
    pub closed spec fn spec_identity(&self) -> u64 {
        self.identity
    }

    /// Whether this block opens a chain: it has no parent.
    pub open spec fn spec_is_genesis(&self) -> bool {
        self.spec_parent() is None
    }

    /// Builds the block that carries `payload` after the block named by
    /// `parent`, or a genesis block when there is no parent. `encoded` holds
    /// the durable bytes of the payload; together with the parent link they
    /// determine the identity of the block.
    pub fn new(parent: Option<u64>, payload: T, encoded: &[u8]) -> (block: Self)
        ensures
            block.spec_parent() == parent,
            block.spec_payload() == payload,
            block.spec_identity() == content_id(parent, encoded@),
    {
        Block { parent, payload, identity: digest(parent, encoded) }
    }

    /// The identity of the block that this one follows, if there is one.
    #[verifier::when_used_as_spec(spec_parent)]
    pub fn parent(&self) -> (parent: Option<u64>)
        ensures
            parent == self.spec_parent(),
    {
        self.parent
    }

    /// The payload that this block carries.
    pub fn payload(&self) -> (payload: &T)
        ensures
            *payload == self.spec_payload(),
    {
        &self.payload
    }

    /// The identity of this block, a digest of its parent link and payload.
    #[verifier::when_used_as_spec(spec_identity)]
    pub fn identity(&self) -> (id: u64)
        ensures
            id == self.spec_identity(),
    {
        self.identity
    }

    /// Whether this block opens a chain: it has no parent.
    #[verifier::when_used_as_spec(spec_is_genesis)]
    pub fn is_genesis(&self) -> (genesis: bool)
        ensures
            genesis == self.spec_is_genesis(),
    {
        self.parent.is_none()
    }
}

impl<T: BlockChainBase> Clone for Block<T> {
    /// Copies the link and the identity, and clones the payload.
    fn clone(&self) -> (copy: Self)
        ensures
            copy.spec_parent() == self.spec_parent(),
            copy.spec_identity() == self.spec_identity(),
            cloned::<T>(self.spec_payload(), copy.spec_payload()),
    {
        Block { parent: self.parent, payload: self.payload.clone(), identity: self.identity }
    }
}

/// A payload that no block holds yet.
#[derive(Debug)]
pub struct Event<T: BlockChainBase> {
    pub payload: T,
}

impl<T: BlockChainBase> Event<T> {
    /// Wraps a payload that waits to be put into a block.
    pub fn new(payload: T) -> (event: Self)
        ensures
            event.payload == payload,
    {
        Event { payload }
    }
}

impl<T: BlockChainBase> Clone for Event<T> {
    /// Clones the payload.
    fn clone(&self) -> (copy: Self)
        ensures
            cloned::<T>(self.payload, copy.payload),
    {
        Event { payload: self.payload.clone() }
    }
}

} // verus!
