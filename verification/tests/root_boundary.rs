use std::sync::{Arc, Mutex};

use blob_nixos::activation::{ImmutableNixOsActivationPlan, PreparedPrivilegedActivation};
use blob_nixos::privileged_helper::{
    InMemoryPrivilegedExecutionLedger, NixOsActivationHost, PrivilegedActivationCommandStatus,
    PrivilegedActivationError, PrivilegedCommandOutcome, PrivilegedCommandRunner,
};
use blob_nixos::root_boundary::{
    InMemoryTrustedActivationPermitStore, RootActivationBoundaryError, RootOwnedNixOsActivationBoundary,
    TrustedActivationPermit, TrustedActivationPermitError, TrustedActivationPermitStore,
};
use blob_nixos::system::{SystemAuthorityClass, SystemCandidateAction, SystemEffectClass};

const BASELINE: &str = "/nix/store/baseline-nixos-system-blob-pilot";
const CANDIDATE: &str = "/nix/store/candidate-nixos-system-blob-pilot";

fn prepared(action: SystemCandidateAction) -> PreparedPrivilegedActivation {
    let (effect_class, argument) = match action {
        SystemCandidateAction::PreviewActivation => (SystemEffectClass::PreviewHooks, "dry-activate"),
        SystemCandidateAction::TestActivation => (SystemEffectClass::TemporaryLiveActivation, "test"),
        _ => unreachable!(),
    };
    PreparedPrivilegedActivation {
        node: "node:lab".into(),
        readiness_observed_at_unix_ms: 1_000,
        authorization: "auth:one".into(),
        authorization_expires_at_unix_ms: 61_000,
        prepared_at_unix_ms: 2_000,
        plan: ImmutableNixOsActivationPlan {
            operation_id: "op:activate".into(),
            candidate: "candidate:one".into(),
            system_spec: "system:one".into(),
            materialization_operation: "op:materialize".into(),
            system_closure: CANDIDATE.into(),
            action,
            effect_class,
            authority: SystemAuthorityClass::HostAdministrator,
            program: format!("{CANDIDATE}/bin/switch-to-configuration"),
            args: vec![argument.into()],
            expected_effects: vec![],
            rollback_semantics: "reboot restores baseline".into(),
        },
        readiness_evidence: vec!["node:node:lab".into(), "observed-at-unix-ms:1000".into()],
        authorization_evidence: vec!["authorization:auth:one".into(), "expires-at-unix-ms:61000".into()],
    }
}

#[derive(Debug)]
struct FakeState {
    current: String,
    boot_default: String,
    calls: Vec<(String, String)>,
}

struct FakeHost {
    state: Arc<Mutex<FakeState>>,
}

impl NixOsActivationHost for FakeHost {
    fn canonicalize_path(&self, path: &str) -> Result<String, String> {
        Ok(path.to_string())
    }

    fn current_system_closure(&self) -> Result<String, String> {
        self.state.lock().map(|state| state.current.clone()).map_err(|_| "state poisoned".into())
    }

    fn boot_default_closure(&self) -> Result<String, String> {
        self.state.lock().map(|state| state.boot_default.clone()).map_err(|_| "state poisoned".into())
    }

    fn executable_exists(&self, path: &str) -> Result<bool, String> {
        Ok(path == format!("{CANDIDATE}/bin/switch-to-configuration")
            || path == format!("{BASELINE}/bin/switch-to-configuration"))
    }
}

struct FakeRunner {
    state: Arc<Mutex<FakeState>>,
}

impl PrivilegedCommandRunner for FakeRunner {
    fn run(&self, program: &str, argument: &str) -> Result<PrivilegedCommandOutcome, String> {
        let mut state = self.state.lock().map_err(|_| "state poisoned".to_string())?;
        state.calls.push((program.to_string(), argument.into()));
        if program == format!("{CANDIDATE}/bin/switch-to-configuration") && argument == "test" {
            state.current = CANDIDATE.into();
        }
        Ok(PrivilegedCommandOutcome {
            status: PrivilegedActivationCommandStatus::Succeeded,
            exit_code: Some(0),
            stdout: String::new(),
            stderr: String::new(),
            duration_us: 1,
        })
    }
}

fn fixture() -> (
    Arc<Mutex<FakeState>>,
    FakeHost,
    FakeRunner,
    InMemoryTrustedActivationPermitStore,
    InMemoryPrivilegedExecutionLedger,
) {
    let state = Arc::new(Mutex::new(FakeState {
        current: BASELINE.into(),
        boot_default: BASELINE.into(),
        calls: Vec::new(),
    }));
    (
        Arc::clone(&state),
        FakeHost { state: Arc::clone(&state) },
        FakeRunner { state: Arc::clone(&state) },
        InMemoryTrustedActivationPermitStore::new(),
        InMemoryPrivilegedExecutionLedger::new(),
    )
}

#[test]
fn no_trusted_permit_means_no_privileged_command() {
    let request = prepared(SystemCandidateAction::PreviewActivation);
    let (state, host, runner, mut permits, mut replay) = fixture();
    assert!(matches!(
        RootOwnedNixOsActivationBoundary::new("node:lab")
            .execute(&request, 2_100, &host, &runner, &mut permits, &mut replay),
        Err(RootActivationBoundaryError::TrustedPermitRejected(
            TrustedActivationPermitError::MissingOrAlreadyConsumed(_)
        ))
    ));
    assert!(state.lock().unwrap().calls.is_empty());
    assert!(!replay.was_consumed(&request.authorization));
}

#[test]
fn exact_trusted_permit_allows_preview_once() {
    let request = prepared(SystemCandidateAction::PreviewActivation);
    let (state, host, runner, mut permits, mut replay) = fixture();
    permits.grant_for(&request);
    let boundary = RootOwnedNixOsActivationBoundary::new("node:lab");

    let result = boundary
        .execute(&request, 2_100, &host, &runner, &mut permits, &mut replay)
        .expect("exact trusted permit should authorize preview");
    assert_eq!(result.after_system_closure, BASELINE);
    assert_eq!(state.lock().unwrap().calls.len(), 1);

    assert!(matches!(
        boundary.execute(&request, 2_101, &host, &runner, &mut permits, &mut replay),
        Err(RootActivationBoundaryError::TrustedPermitRejected(
            TrustedActivationPermitError::MissingOrAlreadyConsumed(_)
        ))
    ));
    assert_eq!(state.lock().unwrap().calls.len(), 1);
}

#[test]
fn exact_trusted_permit_allows_test_activation_of_exact_closure() {
    let request = prepared(SystemCandidateAction::TestActivation);
    let (state, host, runner, mut permits, mut replay) = fixture();
    permits.grant_for(&request);

    let result = RootOwnedNixOsActivationBoundary::new("node:lab")
        .execute(&request, 2_100, &host, &runner, &mut permits, &mut replay)
        .expect("exact trusted permit should authorize test activation");
    assert_eq!(result.after_system_closure, CANDIDATE);
    let state = state.lock().unwrap();
    assert_eq!(state.current, CANDIDATE);
    assert_eq!(state.boot_default, BASELINE);
}

#[test]
fn internally_valid_but_forged_candidate_id_is_denied_by_permit() {
    let real = prepared(SystemCandidateAction::PreviewActivation);
    let mut forged = real.clone();
    forged.plan.candidate = "candidate:forged".into();
    let (state, host, runner, mut permits, mut replay) = fixture();
    permits.grant_for(&real);

    assert!(matches!(
        RootOwnedNixOsActivationBoundary::new("node:lab")
            .execute(&forged, 2_100, &host, &runner, &mut permits, &mut replay),
        Err(RootActivationBoundaryError::TrustedPermitRejected(_))
    ));
    assert!(state.lock().unwrap().calls.is_empty());
    permits.consume_matching(&real).expect("forged request must not consume the real permit");
}

#[test]
fn stale_request_is_rejected_before_spending_trusted_permit() {
    let request = prepared(SystemCandidateAction::PreviewActivation);
    let (state, host, runner, mut permits, mut replay) = fixture();
    permits.grant_for(&request);

    assert!(matches!(
        RootOwnedNixOsActivationBoundary::new("node:lab")
            .execute(&request, 40_001, &host, &runner, &mut permits, &mut replay),
        Err(RootActivationBoundaryError::PreparedRejected(
            PrivilegedActivationError::PreparedActivationStale
        ))
    ));
    assert!(state.lock().unwrap().calls.is_empty());
    permits.consume_matching(&request).expect("pre-validation rejection must not spend permit");
}

#[test]
fn canonical_permit_binds_all_execution_sensitive_fields() {
    let baseline =
        TrustedActivationPermit::from_prepared(&prepared(SystemCandidateAction::TestActivation)).canonical_text();
    let mutations: Vec<Box<dyn Fn(&mut PreparedPrivilegedActivation)>> = vec![
        Box::new(|p| p.node = "node:other".into()),
        Box::new(|p| p.plan.operation_id = "op:other".into()),
        Box::new(|p| p.plan.candidate = "candidate:other".into()),
        Box::new(|p| p.plan.system_spec = "system:other".into()),
        Box::new(|p| p.plan.materialization_operation = "op:other-materialize".into()),
        Box::new(|p| p.plan.system_closure = "/nix/store/other".into()),
        Box::new(|p| p.plan.action = SystemCandidateAction::PreviewActivation),
        Box::new(|p| p.plan.effect_class = SystemEffectClass::PreviewHooks),
        Box::new(|p| p.plan.authority = SystemAuthorityClass::User),
        Box::new(|p| p.plan.program = "/bin/sh".into()),
        Box::new(|p| p.plan.args = vec!["switch".into()]),
        Box::new(|p| p.readiness_observed_at_unix_ms += 1),
        Box::new(|p| p.prepared_at_unix_ms += 1),
        Box::new(|p| p.authorization_expires_at_unix_ms += 1),
    ];
    for mutate in mutations {
        let mut changed = prepared(SystemCandidateAction::TestActivation);
        mutate(&mut changed);
        assert_ne!(baseline, TrustedActivationPermit::from_prepared(&changed).canonical_text());
    }
}
