use blob_nixos::activation::{
    ImmutableActivationError, ImmutableNixOsActivationPlanner, MaterializedNixOsCandidate,
};
use blob_nixos::system::{
    SystemAuthorityClass, SystemCandidateAction, SystemCandidateOperation, SystemEffectClass,
    SystemOperationResult, SystemOperationStatus,
};

fn result() -> SystemOperationResult {
    SystemOperationResult {
        operation_id: "op:materialize".into(),
        candidate: "candidate:one".into(),
        system_spec: "system:one".into(),
        action: SystemCandidateAction::Materialize,
        effect_class: SystemEffectClass::MaterializationOnly,
        status: SystemOperationStatus::Succeeded,
        exit_code: Some(0),
        stdout: "/nix/store/abc123-nixos-system-blob-pilot\n".into(),
        stderr: String::new(),
        duration_us: 1,
        store_paths: vec!["/nix/store/abc123-nixos-system-blob-pilot".into()],
    }
}

fn operation(action: SystemCandidateAction) -> SystemCandidateOperation {
    let (effect_class, authority) = match action {
        SystemCandidateAction::PreviewActivation => (SystemEffectClass::PreviewHooks, SystemAuthorityClass::HostAdministrator),
        SystemCandidateAction::TestActivation => (SystemEffectClass::TemporaryLiveActivation, SystemAuthorityClass::HostAdministrator),
        _ => (SystemEffectClass::MaterializationOnly, SystemAuthorityClass::User),
    };
    SystemCandidateOperation {
        id: "op:activate".into(),
        candidate: "candidate:one".into(),
        system_spec: "system:one".into(),
        action,
        effect_class,
        authority,
    }
}

#[test]
fn successful_materialization_becomes_immutable_candidate() {
    let candidate = MaterializedNixOsCandidate::from_operation_result(&result()).expect("valid materialization");
    assert_eq!(candidate.system_closure, "/nix/store/abc123-nixos-system-blob-pilot");
    assert_eq!(candidate.materialization_operation, "op:materialize");
}

#[test]
fn failed_materialization_cannot_be_activated() {
    let mut failed = result();
    failed.status = SystemOperationStatus::Failed;
    assert_eq!(
        MaterializedNixOsCandidate::from_operation_result(&failed),
        Err(ImmutableActivationError::MaterializationFailed)
    );
}

#[test]
fn multiple_outputs_are_rejected_for_pilot_system_materialization() {
    let mut ambiguous = result();
    ambiguous.store_paths.push("/nix/store/other".into());
    assert_eq!(
        MaterializedNixOsCandidate::from_operation_result(&ambiguous),
        Err(ImmutableActivationError::ExpectedSingleSystemClosure { observed: 2 })
    );
}

#[test]
fn mutable_or_nested_paths_are_not_accepted_as_system_closures() {
    let mut mutable = result();
    mutable.store_paths = vec!["/tmp/candidate".into()];
    assert_eq!(
        MaterializedNixOsCandidate::from_operation_result(&mutable),
        Err(ImmutableActivationError::InvalidNixStoreClosure)
    );
    let mut nested = result();
    nested.store_paths = vec!["/nix/store/abc/bin".into()];
    assert_eq!(
        MaterializedNixOsCandidate::from_operation_result(&nested),
        Err(ImmutableActivationError::InvalidNixStoreClosure)
    );
}

#[test]
fn preview_uses_switch_to_configuration_from_exact_closure() {
    let candidate = MaterializedNixOsCandidate::from_operation_result(&result()).unwrap();
    let plan = ImmutableNixOsActivationPlanner::plan(&operation(SystemCandidateAction::PreviewActivation), Ok(()), &candidate)
        .expect("preview plan");
    assert_eq!(plan.program, "/nix/store/abc123-nixos-system-blob-pilot/bin/switch-to-configuration");
    assert_eq!(plan.args, vec!["dry-activate"]);
    assert!(plan.program.starts_with(&candidate.system_closure));
    assert!(!plan.program.contains("nixos-rebuild"));
    assert!(plan.args.iter().all(|arg| arg != "switch" && arg != "boot"));
    assert!(!plan.changes_live_system());
}

#[test]
fn test_activation_uses_same_exact_immutable_closure() {
    let candidate = MaterializedNixOsCandidate::from_operation_result(&result()).unwrap();
    let plan = ImmutableNixOsActivationPlanner::plan(&operation(SystemCandidateAction::TestActivation), Ok(()), &candidate)
        .expect("test activation plan");
    assert_eq!(plan.args, vec!["test"]);
    assert_eq!(plan.authority, SystemAuthorityClass::HostAdministrator);
    assert!(plan.changes_live_system());
    assert_eq!(plan.system_closure, candidate.system_closure);
}

#[test]
fn activation_for_another_candidate_is_rejected() {
    let candidate = MaterializedNixOsCandidate::from_operation_result(&result()).unwrap();
    let mut op = operation(SystemCandidateAction::TestActivation);
    op.candidate = "candidate:other".into();
    assert_eq!(
        ImmutableNixOsActivationPlanner::plan(&op, Ok(()), &candidate),
        Err(ImmutableActivationError::CandidateMismatch)
    );
}

#[test]
fn non_activation_actions_are_rejected() {
    let candidate = MaterializedNixOsCandidate::from_operation_result(&result()).unwrap();
    assert_eq!(
        ImmutableNixOsActivationPlanner::plan(&operation(SystemCandidateAction::Materialize), Ok(()), &candidate),
        Err(ImmutableActivationError::UnsupportedAction(SystemCandidateAction::Materialize))
    );
}

#[test]
fn operation_policy_violations_come_first() {
    let candidate = MaterializedNixOsCandidate::from_operation_result(&result()).unwrap();
    assert!(matches!(
        ImmutableNixOsActivationPlanner::plan(&operation(SystemCandidateAction::TestActivation), Err(vec!["bad".into()]), &candidate),
        Err(ImmutableActivationError::InvalidOperation(v)) if v == vec!["bad".to_string()]
    ));
}
