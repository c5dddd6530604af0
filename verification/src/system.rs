//! The system model the NixOS backends work on: what an operation asks for,
//! which effects it may have, on whose authority, and how a materialization
//! ended.
use vstd::prelude::*;
use crate::ids::{SystemCandidateId, SystemOperationId, SystemSpecId};

verus! {

/// What an operation does with a candidate.
#[derive(Clone, Copy, Debug, PartialEq, Eq, Structural)]
pub enum SystemCandidateAction {
    Materialize,
    PreviewActivation,
    TestActivation,
    BuildIsolatedVm,
}

/// The strongest effect an operation may have on the host.
#[derive(Clone, Copy, Debug, PartialEq, Eq, Structural)]
pub enum SystemEffectClass {
    MaterializationOnly,
    PreviewHooks,
    TemporaryLiveActivation,
}

/// Who must authorize an operation.
#[derive(Clone, Copy, Debug, PartialEq, Eq, Structural)]
pub enum SystemAuthorityClass {
    User,
    HostAdministrator,
}

/// How an executed operation ended.
#[derive(Clone, Copy, Debug, PartialEq, Eq, Structural)]
pub enum SystemOperationStatus {
    Succeeded,
    Failed,
}

/// A policy rule an operation breaks, in words.
pub type SystemOperationViolation = String;

/// One requested operation on a candidate system.
#[derive(Clone, Debug, PartialEq, Eq)]
pub struct SystemCandidateOperation {
    pub id: SystemOperationId,
    pub candidate: SystemCandidateId,
    pub system_spec: SystemSpecId,
    pub action: SystemCandidateAction,
    pub effect_class: SystemEffectClass,
    pub authority: SystemAuthorityClass,
}

/// The outcome of executing one operation.
#[derive(Clone, Debug, PartialEq, Eq)]
pub struct SystemOperationResult {
    pub operation_id: SystemOperationId,
    pub candidate: SystemCandidateId,
    pub system_spec: SystemSpecId,
    pub action: SystemCandidateAction,
    pub effect_class: SystemEffectClass,
    pub status: SystemOperationStatus,
    pub exit_code: Option<i32>,
    pub stdout: String,
    pub stderr: String,
    pub duration_us: u64,
    pub store_paths: Vec<String>,
}

} // verus!
