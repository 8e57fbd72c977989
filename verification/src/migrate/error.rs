//! Why a migration cannot be planned.

use crate::felt::Felt;
use vstd::prelude::*;

verus! {

/// A fault in the declared world that is found before anything is
/// submitted.
#[derive(Clone, Copy, Debug, PartialEq, Eq, Structural)]
pub enum MigrationError {
    /// A name of a declared resource has no byte-array encoding, so no
    /// call can carry it.
    InvalidName,
    /// The initialization argument at `position` of the contract with
    /// `selector` is no felt literal.
    InvalidInitArg { selector: Felt, position: usize },
}

} // verus!
