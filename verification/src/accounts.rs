//! Who a node is: its role, its configuration and its keys.

use vstd::prelude::*;

verus! {

/// What a participant does in the network.
#[derive(Clone, Copy, Debug, PartialEq, Eq, Structural)]
pub enum Role {
    /// Produces blocks, the genesis block among them.
    Miner,
    /// Takes part without producing blocks.
    User,
}

/// The configuration that a node was started with.
#[derive(Debug)]
pub struct Profile {
    /// Where the lookup service of the network is reached, if it is known.
    pub lookup_address: Option<String>,
}

/// The identity material that a node keeps from one run to the next.
#[derive(Debug)]
pub struct PersistentInformation {
    /// The public key of the node.
    pub pub_key: Vec<u8>,
    /// The private key of the node.
    pub priv_key: Vec<u8>,
    /// The identifier of the node.
    pub id: u64,
}

/// The account of a node: identity, role, configuration and key pair.
#[derive(Debug)]
pub struct Account {
    /// The identifier of the node.
    pub id: u64,
    /// What the node does in the network.
    pub role: Role,
    /// The configuration that the node was started with.
    pub profile: Profile,
    /// The public key of the node.
    pub pub_key: Vec<u8>,
    /// The private key of the node.
    pub priv_key: Vec<u8>,
}

impl Profile {
    /// A configuration with the given lookup address.
    pub fn new(lookup_address: Option<String>) -> (profile: Self)
        ensures
            profile.lookup_address == lookup_address,
    {
        Profile { lookup_address }
    }
}

impl Account {
    /// The account with the given role, configuration, keys and identifier.
    pub fn new(role: Role, profile: Profile, pub_key: Vec<u8>, priv_key: Vec<u8>, id: u64) -> (account:
        Self)
        ensures
            account == (Account { id, role, profile, pub_key, priv_key }),
    {
        Account { id, role, profile, pub_key, priv_key }
    }
}

} // verus!
