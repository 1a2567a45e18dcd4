//! Errors of configuration: each is fatal to the run that meets it.

use vstd::prelude::*;

verus! {

/// A configuration that no scan can run with.
#[derive(Clone, Copy, Debug, PartialEq, Eq, Structural)]
pub enum ConfigError {
    /// No interface carries the name that was asked for.
    InterfaceNotFound,
    /// No interface is up, not a loopback, and has an address.
    NoUsableInterface,
    /// The interface has no address of the target's family.
    NoSourceAddress,
    /// The source and the target address are of different families.
    FamilyMismatch,
}

} // verus!
