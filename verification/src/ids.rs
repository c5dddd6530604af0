//! Identifiers of the system model. Each is an opaque text value; the record
//! formats carry them as hexadecimal UTF-8.
use vstd::prelude::*;

verus! {

/// A physical or virtual node.
pub type NodeId = String;

/// A candidate system produced from a SystemSpec.
pub type SystemCandidateId = String;

/// A declarative system specification.
pub type SystemSpecId = String;

/// One operation (materialization, activation, ...).
pub type SystemOperationId = String;

/// One authorization of a privileged activation.
pub type SystemAuthorizationId = String;

} // verus!
