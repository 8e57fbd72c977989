//! The management events of the world contract, decoded.

use crate::felt::Felt;
use vstd::prelude::*;

verus! {

/// The world was deployed.
#[derive(Debug)]
pub struct WorldSpawned {
    pub creator: Felt,
    pub class_hash: Felt,
}

/// The world's own class was replaced.
#[derive(Debug)]
pub struct WorldUpgraded {
    pub class_hash: Felt,
}

/// A namespace was registered.
#[derive(Debug)]
pub struct NamespaceRegistered {
    pub namespace: String,
    pub hash: Felt,
}

/// A model was registered in a namespace.
#[derive(Debug)]
pub struct ModelRegistered {
    pub name: String,
    pub namespace: String,
    pub class_hash: Felt,
    pub address: Felt,
}

/// An event type was registered in a namespace.
#[derive(Debug)]
pub struct EventRegistered {
    pub name: String,
    pub namespace: String,
    pub class_hash: Felt,
    pub address: Felt,
}

/// A contract was registered in a namespace.
#[derive(Debug)]
pub struct ContractRegistered {
    pub name: String,
    pub namespace: String,
    pub address: Felt,
    pub class_hash: Felt,
    pub salt: Felt,
}

/// A model got a new class.
#[derive(Debug)]
pub struct ModelUpgraded {
    pub selector: Felt,
    pub class_hash: Felt,
    pub address: Felt,
    pub prev_address: Felt,
}

/// An event type got a new class.
#[derive(Debug)]
pub struct EventUpgraded {
    pub selector: Felt,
    pub class_hash: Felt,
    pub address: Felt,
    pub prev_address: Felt,
}

/// A contract got a new class.
#[derive(Debug)]
pub struct ContractUpgraded {
    pub selector: Felt,
    pub class_hash: Felt,
}

/// A contract's initialization ran.
#[derive(Debug)]
pub struct ContractInitialized {
    pub selector: Felt,
    pub init_calldata: Vec<Felt>,
}

/// The writer permission of `contract` on `resource` was granted
/// (`value` true) or revoked.
#[derive(Debug)]
pub struct WriterUpdated {
    pub resource: Felt,
    pub contract: Felt,
    pub value: bool,
}

/// The owner permission of `contract` on `resource` was granted
/// (`value` true) or revoked.
#[derive(Debug)]
pub struct OwnerUpdated {
    pub resource: Felt,
    pub contract: Felt,
    pub value: bool,
}

/// An event of the world contract.
#[derive(Debug)]
pub enum Event {
    WorldSpawned(WorldSpawned),
    WorldUpgraded(WorldUpgraded),
    NamespaceRegistered(NamespaceRegistered),
    ModelRegistered(ModelRegistered),
    EventRegistered(EventRegistered),
    ContractRegistered(ContractRegistered),
    ModelUpgraded(ModelUpgraded),
    EventUpgraded(EventUpgraded),
    ContractUpgraded(ContractUpgraded),
    ContractInitialized(ContractInitialized),
    WriterUpdated(WriterUpdated),
    OwnerUpdated(OwnerUpdated),
    /// An event that says nothing of the world's resources: a record that
    /// was set or deleted, a custom event that was emitted.
    Other,
}

} // verus!
