//! The contract that a block payload must meet.

use vstd::prelude::*;

verus! {

/// What the engine asks of a payload type: equality, value clones and safe
/// sharing across threads. The engine assumes nothing else about a payload;
/// where it needs the payload's durable bytes, the caller hands them in.
pub trait BlockChainBase: PartialEq + Eq + std::fmt::Debug + Clone + Send + Unpin + Sync {
}

} // verus!
