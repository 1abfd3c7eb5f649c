//! Content addressing: the 64-bit FNV-1a digest that names a block.
//!
//! A block is named by the digest of its parent link followed by the durable
//! bytes of its payload, so equal contents always carry equal names.

use vstd::bytes::{spec_u64_to_le_bytes, u64_to_le_bytes};
use vstd::prelude::*;

verus! {

/// The FNV-1a offset basis for 64-bit digests.
pub const FNV_OFFSET: u64 = 0xcbf2_9ce4_8422_2325;

/// The FNV-1a prime for 64-bit digests.
pub const FNV_PRIME: u64 = 0x0000_0100_0000_01b3;

/// The marker byte that opens the link of a block without a parent.
pub const LINK_ROOT: u8 = 0;

/// The marker byte that opens the link of a block with a parent.
pub const LINK_CHILD: u8 = 1;

/// One FNV-1a round: fold `byte` into `state`.
#[verifier::opaque]
pub open spec fn absorb(state: u64, byte: u8) -> u64 {
    ((((state ^ (byte as u64)) as nat) * (FNV_PRIME as nat)) % 0x1_0000_0000_0000_0000) as u64
}

/// The FNV-1a state after folding every byte of `bytes`, in order, into `state`.
pub open spec fn absorb_all(state: u64, bytes: Seq<u8>) -> u64
    decreases bytes.len(),
{
    if bytes.len() == 0 {
        state
    } else {
        absorb(absorb_all(state, bytes.drop_last()), bytes.last())
    }
}

/// The bytes that stand for a parent link: a marker, then the parent's
/// identity in little-endian order when there is one.
pub open spec fn link_bytes(parent: Option<u64>) -> Seq<u8> {
    match parent {
        None => seq![LINK_ROOT],
        Some(p) => seq![LINK_CHILD] + spec_u64_to_le_bytes(p),
    }
}

/// The identity of a block with the given parent link and payload bytes.
pub open spec fn content_id(parent: Option<u64>, payload: Seq<u8>) -> u64 {
    absorb_all(FNV_OFFSET, link_bytes(parent) + payload)
}

/// Folding a concatenation is folding its two halves in turn.
pub proof fn lemma_absorb_all_concat(state: u64, front: Seq<u8>, back: Seq<u8>)
    ensures
        absorb_all(state, front + back) == absorb_all(absorb_all(state, front), back),
    decreases back.len(),
{
    if back.len() == 0 {
        assert(front + back =~= front);
    } else {
        lemma_absorb_all_concat(state, front, back.drop_last());
        assert((front + back).drop_last() =~= front + back.drop_last());
        assert((front + back).last() == back.last());
    }
}

/// Folding a single byte is one round.
pub proof fn lemma_absorb_all_single(state: u64, byte: u8)
    ensures
        absorb_all(state, seq![byte]) == absorb(state, byte),
{
    assert(seq![byte].drop_last() =~= Seq::<u8>::empty());
    assert(seq![byte].last() == byte);
    reveal_with_fuel(absorb_all, 2);
}

/// Folds one byte into a running digest.
fn absorb_byte(state: u64, byte: u8) -> (next: u64)
    ensures
        next == absorb(state, byte),
{
    reveal(absorb);
    (state ^ (byte as u64)).wrapping_mul(FNV_PRIME)
}

/// Folds a run of bytes into a running digest.
fn absorb_bytes(state: u64, bytes: &[u8]) -> (next: u64)
    ensures
        next == absorb_all(state, bytes@),
{
    let mut acc: u64 = state;
    let mut i: usize = 0;
    while i < bytes.len()
        invariant
            i <= bytes.len(),
            acc == absorb_all(state, bytes@.take(i as int)),
        decreases bytes.len() - i,
    {
        proof {
            assert(bytes@.take(i + 1).drop_last() =~= bytes@.take(i as int));
        }
        acc = absorb_byte(acc, bytes[i]);
        i = i + 1;
    }
    proof {
        assert(bytes@.take(i as int) =~= bytes@);
    }
    acc
}

/// Computes the identity of a block from its parent link and the durable
/// bytes of its payload.
pub fn digest(parent: Option<u64>, payload: &[u8]) -> (id: u64)
    ensures
        id == content_id(parent, payload@),
{
    let linked: u64 = match parent {
        None => {
            proof {
                lemma_absorb_all_single(FNV_OFFSET, LINK_ROOT);
            }
            absorb_byte(FNV_OFFSET, LINK_ROOT)
        },
        Some(p) => {
            let word = u64_to_le_bytes(p);
            let opened: u64 = absorb_byte(FNV_OFFSET, LINK_CHILD);
            proof {
                lemma_absorb_all_single(FNV_OFFSET, LINK_CHILD);
                lemma_absorb_all_concat(FNV_OFFSET, seq![LINK_CHILD], word@);
            }
            absorb_bytes(opened, word.as_slice())
        },
    };
    proof {
        lemma_absorb_all_concat(FNV_OFFSET, link_bytes(parent), payload@);
    }
    absorb_bytes(linked, payload)
}

} // verus!
