//! Immutable NixOS activation plans: a successful materialization becomes a
//! candidate with exactly one store closure, and an activation of it runs only
//! that closure's `switch-to-configuration` in a non-persistent mode.
use vstd::prelude::*;
use crate::ids::{NodeId, SystemAuthorizationId, SystemCandidateId, SystemOperationId, SystemSpecId};
use crate::paths::{exact_store_path, is_exact_store_path};
use crate::system::{
    SystemAuthorityClass, SystemCandidateAction, SystemCandidateOperation, SystemEffectClass,
    SystemOperationResult, SystemOperationStatus, SystemOperationViolation,
};
use crate::text::{copy_texts, texts_view, utf8};

verus! {

/// The one store closure a successful system materialization produced.
#[derive(Clone, Debug, PartialEq, Eq)]
pub struct MaterializedNixOsCandidate {
    pub candidate: SystemCandidateId,
    pub system_spec: SystemSpecId,
    pub materialization_operation: SystemOperationId,
    pub system_closure: String,
}

/// The exact command an activation runs, and what it may change.
#[derive(Clone, Debug, PartialEq, Eq)]
pub struct ImmutableNixOsActivationPlan {
    pub operation_id: SystemOperationId,
    pub candidate: SystemCandidateId,
    pub system_spec: SystemSpecId,
    pub materialization_operation: SystemOperationId,
    pub system_closure: String,
    pub action: SystemCandidateAction,
    pub effect_class: SystemEffectClass,
    pub authority: SystemAuthorityClass,
    pub program: String,
    pub args: Vec<String>,
    pub expected_effects: Vec<String>,
    pub rollback_semantics: String,
}

pub struct PlanView {
    pub operation_id: Seq<char>,
    pub candidate: Seq<char>,
    pub system_spec: Seq<char>,
    pub materialization_operation: Seq<char>,
    pub system_closure: Seq<char>,
    pub action: SystemCandidateAction,
    pub effect_class: SystemEffectClass,
    pub authority: SystemAuthorityClass,
    pub program: Seq<char>,
    pub args: Seq<Seq<char>>,
    pub expected_effects: Seq<Seq<char>>,
    pub rollback_semantics: Seq<char>,
}

impl View for ImmutableNixOsActivationPlan {
    type V = PlanView;

    open spec fn view(&self) -> PlanView {
        PlanView {
            operation_id: self.operation_id@,
            candidate: self.candidate@,
            system_spec: self.system_spec@,
            materialization_operation: self.materialization_operation@,
            system_closure: self.system_closure@,
            action: self.action,
            effect_class: self.effect_class,
            authority: self.authority,
            program: self.program@,
            args: texts_view(self.args@),
            expected_effects: texts_view(self.expected_effects@),
            rollback_semantics: self.rollback_semantics@,
        }
    }
}

impl ImmutableNixOsActivationPlan {
    /// Whether running the plan changes the live system (a test activation).
    pub fn changes_live_system(&self) -> (r: bool)
        ensures
            r == (self.effect_class == SystemEffectClass::TemporaryLiveActivation),
    {
        self.effect_class == SystemEffectClass::TemporaryLiveActivation
    }
}

/// An activation request that was authorized and prepared for the privileged
/// helper.
#[derive(Clone, Debug, PartialEq, Eq)]
pub struct PreparedPrivilegedActivation {
    pub node: NodeId,
    pub readiness_observed_at_unix_ms: u64,
    pub authorization: SystemAuthorizationId,
    pub authorization_expires_at_unix_ms: u64,
    pub prepared_at_unix_ms: u64,
    pub plan: ImmutableNixOsActivationPlan,
    pub readiness_evidence: Vec<String>,
    pub authorization_evidence: Vec<String>,
}

pub struct PreparedView {
    pub node: Seq<char>,
    pub readiness_observed_at_unix_ms: u64,
    pub authorization: Seq<char>,
    pub authorization_expires_at_unix_ms: u64,
    pub prepared_at_unix_ms: u64,
    pub plan: PlanView,
    pub readiness_evidence: Seq<Seq<char>>,
    pub authorization_evidence: Seq<Seq<char>>,
}

impl View for PreparedPrivilegedActivation {
    type V = PreparedView;

    open spec fn view(&self) -> PreparedView {
        PreparedView {
            node: self.node@,
            readiness_observed_at_unix_ms: self.readiness_observed_at_unix_ms,
            authorization: self.authorization@,
            authorization_expires_at_unix_ms: self.authorization_expires_at_unix_ms,
            prepared_at_unix_ms: self.prepared_at_unix_ms,
            plan: self.plan@,
            readiness_evidence: texts_view(self.readiness_evidence@),
            authorization_evidence: texts_view(self.authorization_evidence@),
        }
    }
}

/// A copy of a plan.
pub fn copy_plan(p: &ImmutableNixOsActivationPlan) -> (r: ImmutableNixOsActivationPlan)
    ensures
        r@ == p@,
{
    ImmutableNixOsActivationPlan {
        operation_id: p.operation_id.clone(),
        candidate: p.candidate.clone(),
        system_spec: p.system_spec.clone(),
        materialization_operation: p.materialization_operation.clone(),
        system_closure: p.system_closure.clone(),
        action: p.action,
        effect_class: p.effect_class,
        authority: p.authority,
        program: p.program.clone(),
        args: copy_texts(&p.args),
        expected_effects: copy_texts(&p.expected_effects),
        rollback_semantics: p.rollback_semantics.clone(),
    }
}

/// A copy of a prepared request.
pub fn copy_prepared(p: &PreparedPrivilegedActivation) -> (r: PreparedPrivilegedActivation)
    ensures
        r@ == p@,
{
    PreparedPrivilegedActivation {
        node: p.node.clone(),
        readiness_observed_at_unix_ms: p.readiness_observed_at_unix_ms,
        authorization: p.authorization.clone(),
        authorization_expires_at_unix_ms: p.authorization_expires_at_unix_ms,
        prepared_at_unix_ms: p.prepared_at_unix_ms,
        plan: copy_plan(&p.plan),
        readiness_evidence: copy_texts(&p.readiness_evidence),
        authorization_evidence: copy_texts(&p.authorization_evidence),
    }
}

#[derive(Clone, Debug, PartialEq, Eq)]
pub enum ImmutableActivationError {
    InvalidOperation(Vec<SystemOperationViolation>),
    NotSystemMaterialization,
    MaterializationFailed,
    ExpectedSingleSystemClosure { observed: usize },
    InvalidNixStoreClosure,
    CandidateMismatch,
    SystemSpecMismatch,
    UnsupportedAction(SystemCandidateAction),
}

/// Accepts only a closure that is exactly one store object: `/nix/store/<name>`.
pub fn validate_nix_store_closure(value: &str) -> (r: Result<(), ImmutableActivationError>)
    ensures
        r is Ok <==> is_exact_store_path(utf8(value@)),
        r matches Err(e) ==> e == ImmutableActivationError::InvalidNixStoreClosure,
{
    if exact_store_path(value.as_bytes()) {
        Ok(())
    } else {
        Err(ImmutableActivationError::InvalidNixStoreClosure)
    }
}

impl MaterializedNixOsCandidate {
    /// A candidate from a materialization that succeeded with exactly one
    /// exact store closure.
    pub fn from_operation_result(result: &SystemOperationResult) -> (r: Result<Self, ImmutableActivationError>)
        ensures
            (result.action != SystemCandidateAction::Materialize || result.effect_class
                != SystemEffectClass::MaterializationOnly) ==> r == Err::<
                Self,
                ImmutableActivationError,
            >(ImmutableActivationError::NotSystemMaterialization),
            (result.action == SystemCandidateAction::Materialize && result.effect_class
                == SystemEffectClass::MaterializationOnly && result.status
                != SystemOperationStatus::Succeeded) ==> r == Err::<Self, ImmutableActivationError>(
                ImmutableActivationError::MaterializationFailed,
            ),
            (result.action == SystemCandidateAction::Materialize && result.effect_class
                == SystemEffectClass::MaterializationOnly && result.status
                == SystemOperationStatus::Succeeded && result.store_paths@.len() != 1) ==> r
                == Err::<Self, ImmutableActivationError>(
                ImmutableActivationError::ExpectedSingleSystemClosure {
                    observed: result.store_paths@.len() as usize,
                },
            ),
            (result.action == SystemCandidateAction::Materialize && result.effect_class
                == SystemEffectClass::MaterializationOnly && result.status
                == SystemOperationStatus::Succeeded && result.store_paths@.len() == 1) ==> (
            if is_exact_store_path(utf8(result.store_paths@[0]@)) {
                r matches Ok(c) && c.candidate@ == result.candidate@ && c.system_spec@
                    == result.system_spec@ && c.materialization_operation@
                    == result.operation_id@ && c.system_closure@ == result.store_paths@[0]@
            } else {
                r == Err::<Self, ImmutableActivationError>(
                    ImmutableActivationError::InvalidNixStoreClosure,
                )
            }),
    {
        if result.action != SystemCandidateAction::Materialize || result.effect_class
            != SystemEffectClass::MaterializationOnly {
            return Err(ImmutableActivationError::NotSystemMaterialization);
        }
        if result.status != SystemOperationStatus::Succeeded {
            return Err(ImmutableActivationError::MaterializationFailed);
        }
        if result.store_paths.len() != 1 {
            return Err(
                ImmutableActivationError::ExpectedSingleSystemClosure {
                    observed: result.store_paths.len(),
                },
            );
        }
        let system_closure = result.store_paths[0].clone();
        validate_nix_store_closure(system_closure.as_str())?;
        Ok(
            MaterializedNixOsCandidate {
                candidate: result.candidate.clone(),
                system_spec: result.system_spec.clone(),
                materialization_operation: result.operation_id.clone(),
                system_closure,
            },
        )
    }
}

/// The `switch-to-configuration` mode an action runs, if it is an activation.
pub open spec fn activation_mode(action: SystemCandidateAction) -> Option<Seq<char>> {
    match action {
        SystemCandidateAction::PreviewActivation => Some("dry-activate"@),
        SystemCandidateAction::TestActivation => Some("test"@),
        _ => None,
    }
}

pub open spec fn activation_expected_effects(action: SystemCandidateAction) -> Seq<Seq<char>> {
    if action == SystemCandidateAction::PreviewActivation {
        seq![
            "inspect the running system and print the changes required to reach the already-materialized candidate"@,
            "execute only activation snippets that the candidate explicitly marks as supporting dry activation"@,
            "do not change the boot-default generation"@,
        ]
    } else {
        seq![
            "temporarily switch the running host to the already-materialized immutable candidate closure"@,
            "do not change the boot-default generation"@,
        ]
    }
}

pub open spec fn activation_rollback(action: SystemCandidateAction) -> Seq<char> {
    if action == SystemCandidateAction::PreviewActivation {
        "No configuration switch is performed. Any dry-activation snippet effects must be captured as evidence."@
    } else {
        "A reboot returns to the previously recorded boot-default generation; the physical-node readiness record must carry that rollback reference."@
    }
}

/// `<closure>/bin/switch-to-configuration`.
pub open spec fn switch_program(closure: Seq<char>) -> Seq<char> {
    closure + "/bin/switch-to-configuration"@
}

/// The plan for an activation operation of a materialized candidate.
pub open spec fn planned(op: SystemCandidateOperation, m: MaterializedNixOsCandidate) -> PlanView {
    PlanView {
        operation_id: op.id@,
        candidate: op.candidate@,
        system_spec: op.system_spec@,
        materialization_operation: m.materialization_operation@,
        system_closure: m.system_closure@,
        action: op.action,
        effect_class: op.effect_class,
        authority: op.authority,
        program: switch_program(m.system_closure@),
        args: seq![activation_mode(op.action)->0],
        expected_effects: activation_expected_effects(op.action),
        rollback_semantics: activation_rollback(op.action),
    }
}

fn texts(values: &[&str]) -> (r: Vec<String>)
    ensures
        texts_view(r@) == values@.map_values(|s: &str| s@),
{
    let mut r: Vec<String> = Vec::new();
    let mut i: usize = 0;
    while i < values.len()
        invariant
            i <= values@.len(),
            texts_view(r@) == values@.take(i as int).map_values(|s: &str| s@),
        decreases values.len() - i,
    {
        let ghost before = r@;
        let t = values[i].to_owned();
        r.push(t);
        proof {
            assert(r@ =~= before.push(t));
            assert(texts_view(r@) =~= texts_view(before).push(t@));
            assert(values@.take(i + 1) =~= values@.take(i as int).push(values@[i as int]));
        }
        i = i + 1;
        assert(texts_view(r@) =~= values@.take(i as int).map_values(|s: &str| s@));
    }
    assert(values@.take(values@.len() as int) =~= values@);
    r
}

/// Plans immutable NixOS activations.
pub struct ImmutableNixOsActivationPlanner;

impl ImmutableNixOsActivationPlanner {
    /// The plan for `operation` on `materialized`, given the outcome of the
    /// operation's own policy check (`Err` holds the violations it found).
    pub fn plan(
        operation: &SystemCandidateOperation,
        policy: Result<(), Vec<SystemOperationViolation>>,
        materialized: &MaterializedNixOsCandidate,
    ) -> (r: Result<ImmutableNixOsActivationPlan, ImmutableActivationError>)
        ensures
            policy matches Err(v) ==> (r matches Err(ImmutableActivationError::InvalidOperation(w))
                && w@ == v@),
            policy is Ok && !is_exact_store_path(utf8(materialized.system_closure@)) ==> r == Err::<
                ImmutableNixOsActivationPlan,
                ImmutableActivationError,
            >(ImmutableActivationError::InvalidNixStoreClosure),
            policy is Ok && is_exact_store_path(utf8(materialized.system_closure@))
                && operation.candidate@ != materialized.candidate@ ==> r == Err::<
                ImmutableNixOsActivationPlan,
                ImmutableActivationError,
            >(ImmutableActivationError::CandidateMismatch),
            policy is Ok && is_exact_store_path(utf8(materialized.system_closure@))
                && operation.candidate@ == materialized.candidate@ && operation.system_spec@
                != materialized.system_spec@ ==> r == Err::<
                ImmutableNixOsActivationPlan,
                ImmutableActivationError,
            >(ImmutableActivationError::SystemSpecMismatch),
            policy is Ok && is_exact_store_path(utf8(materialized.system_closure@))
                && operation.candidate@ == materialized.candidate@ && operation.system_spec@
                == materialized.system_spec@ ==> (if activation_mode(operation.action) is Some {
                r matches Ok(p) && p@ == planned(*operation, *materialized)
            } else {
                r == Err::<ImmutableNixOsActivationPlan, ImmutableActivationError>(
                    ImmutableActivationError::UnsupportedAction(operation.action),
                )
            }),
    {
        match policy {
            Err(v) => {
                return Err(ImmutableActivationError::InvalidOperation(v));
            },
            Ok(()) => {},
        }
        validate_nix_store_closure(materialized.system_closure.as_str())?;
        if operation.candidate != materialized.candidate {
            return Err(ImmutableActivationError::CandidateMismatch);
        }
        if operation.system_spec != materialized.system_spec {
            return Err(ImmutableActivationError::SystemSpecMismatch);
        }
        let (arg, expected_effects, rollback_semantics) = match operation.action {
            SystemCandidateAction::PreviewActivation => {
                let effects: [&str; 3] = [
                    "inspect the running system and print the changes required to reach the already-materialized candidate",
                    "execute only activation snippets that the candidate explicitly marks as supporting dry activation",
                    "do not change the boot-default generation",
                ];
                let e = texts(effects.as_slice());
                assert(texts_view(e@) =~= activation_expected_effects(operation.action));
                (
                    "dry-activate",
                    e,
                    "No configuration switch is performed. Any dry-activation snippet effects must be captured as evidence.",
                )
            },
            SystemCandidateAction::TestActivation => {
                let effects: [&str; 2] = [
                    "temporarily switch the running host to the already-materialized immutable candidate closure",
                    "do not change the boot-default generation",
                ];
                let e = texts(effects.as_slice());
                assert(texts_view(e@) =~= activation_expected_effects(operation.action));
                (
                    "test",
                    e,
                    "A reboot returns to the previously recorded boot-default generation; the physical-node readiness record must carry that rollback reference.",
                )
            },
            other => {
                return Err(ImmutableActivationError::UnsupportedAction(other));
            },
        };
        let program = materialized.system_closure.clone().concat("/bin/switch-to-configuration");
        let mut args: Vec<String> = Vec::new();
        args.push(arg.to_owned());
        let plan = ImmutableNixOsActivationPlan {
            operation_id: operation.id.clone(),
            candidate: operation.candidate.clone(),
            system_spec: operation.system_spec.clone(),
            materialization_operation: materialized.materialization_operation.clone(),
            system_closure: materialized.system_closure.clone(),
            action: operation.action,
            effect_class: operation.effect_class,
            authority: operation.authority,
            program,
            args,
            expected_effects,
            rollback_semantics: rollback_semantics.to_owned(),
        };
        assert(plan@.args =~= seq![activation_mode(operation.action)->0]);
        Ok(plan)
    }
}

} // verus!
