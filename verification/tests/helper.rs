use std::sync::{Arc, Mutex};

use blob_nixos::activation::{ImmutableNixOsActivationPlan, PreparedPrivilegedActivation};
use blob_nixos::privileged_helper::{
    InMemoryPrivilegedExecutionLedger, NixOsActivationHost, PrivilegedActivationCommandStatus,
    PrivilegedActivationError, PrivilegedActivationRuntimePolicy, PrivilegedCommandOutcome,
    PrivilegedCommandRunner, PrivilegedExecutionLedgerError, PrivilegedNixOsActivationHelper,
};
use blob_nixos::system::{SystemAuthorityClass, SystemCandidateAction, SystemEffectClass};

use blob_nixos::privileged_helper::{ActivationAnswer, ActivationCall, ActivationNext, ActivationStage};

const BASELINE: &str = "/nix/store/baseline-nixos-system-blob-pilot";
const CANDIDATE: &str = "/nix/store/candidate-nixos-system-blob-pilot";

fn prepared(action: SystemCandidateAction) -> PreparedPrivilegedActivation {
    let (effect_class, argument) = match action {
        SystemCandidateAction::PreviewActivation => (SystemEffectClass::PreviewHooks, "dry-activate"),
        SystemCandidateAction::TestActivation => (SystemEffectClass::TemporaryLiveActivation, "test"),
        _ => unreachable!(),
    };
    PreparedPrivilegedActivation {
        node: "node:lab".into(),
        readiness_observed_at_unix_ms: 1_000,
        authorization: "auth:one".into(),
        authorization_expires_at_unix_ms: 61_000,
        prepared_at_unix_ms: 2_000,
        plan: ImmutableNixOsActivationPlan {
            operation_id: "op:activate".into(),
            candidate: "candidate:one".into(),
            system_spec: "system:one".into(),
            materialization_operation: "op:materialize".into(),
            system_closure: CANDIDATE.into(),
            action,
            effect_class,
            authority: SystemAuthorityClass::HostAdministrator,
            program: format!("{CANDIDATE}/bin/switch-to-configuration"),
            args: vec![argument.into()],
            expected_effects: vec![],
            rollback_semantics: "reboot restores baseline".into(),
        },
        readiness_evidence: vec!["node:node:lab".into(), "observed-at-unix-ms:1000".into()],
        authorization_evidence: vec!["authorization:auth:one".into(), "expires-at-unix-ms:61000".into()],
    }
}

#[derive(Debug)]
struct FakeState {
    current: String,
    boot_default: String,
    fail_candidate: bool,
    fail_rollback: bool,
    candidate_failure_changes_live_state: bool,
    calls: Vec<(String, String)>,
}

fn fake_state() -> Arc<Mutex<FakeState>> {
    Arc::new(Mutex::new(FakeState {
        current: BASELINE.into(),
        boot_default: BASELINE.into(),
        fail_candidate: false,
        fail_rollback: false,
        candidate_failure_changes_live_state: false,
        calls: Vec::new(),
    }))
}

struct FakeHost {
    state: Arc<Mutex<FakeState>>,
}

impl NixOsActivationHost for FakeHost {
    fn canonicalize_path(&self, path: &str) -> Result<String, String> {
        Ok(path.to_string())
    }

    fn current_system_closure(&self) -> Result<String, String> {
        self.state.lock().map(|state| state.current.clone()).map_err(|_| "state poisoned".into())
    }

    fn boot_default_closure(&self) -> Result<String, String> {
        self.state.lock().map(|state| state.boot_default.clone()).map_err(|_| "state poisoned".into())
    }

    fn executable_exists(&self, path: &str) -> Result<bool, String> {
        Ok(path == format!("{CANDIDATE}/bin/switch-to-configuration")
            || path == format!("{BASELINE}/bin/switch-to-configuration"))
    }
}

struct FakeRunner {
    state: Arc<Mutex<FakeState>>,
}

impl PrivilegedCommandRunner for FakeRunner {
    fn run(&self, program: &str, argument: &str) -> Result<PrivilegedCommandOutcome, String> {
        let mut state = self.state.lock().map_err(|_| "state poisoned".to_string())?;
        state.calls.push((program.to_string(), argument.into()));
        let is_candidate = program == format!("{CANDIDATE}/bin/switch-to-configuration");
        let is_rollback = program == format!("{BASELINE}/bin/switch-to-configuration");
        if is_candidate && argument == "test" {
            if state.fail_candidate {
                if state.candidate_failure_changes_live_state {
                    state.current = CANDIDATE.into();
                }
                return Ok(failed_outcome("candidate failed"));
            }
            state.current = CANDIDATE.into();
        }
        if is_rollback && argument == "test" {
            if state.fail_rollback {
                return Ok(failed_outcome("rollback failed"));
            }
            state.current = BASELINE.into();
        }
        Ok(success_outcome())
    }
}

fn success_outcome() -> PrivilegedCommandOutcome {
    PrivilegedCommandOutcome {
        status: PrivilegedActivationCommandStatus::Succeeded,
        exit_code: Some(0),
        stdout: String::new(),
        stderr: String::new(),
        duration_us: 1,
    }
}

fn failed_outcome(stderr: &str) -> PrivilegedCommandOutcome {
    PrivilegedCommandOutcome {
        status: PrivilegedActivationCommandStatus::Failed,
        exit_code: Some(1),
        stdout: String::new(),
        stderr: stderr.into(),
        duration_us: 1,
    }
}

fn fixture() -> (Arc<Mutex<FakeState>>, FakeHost, FakeRunner, InMemoryPrivilegedExecutionLedger) {
    let state = fake_state();
    (
        Arc::clone(&state),
        FakeHost { state: Arc::clone(&state) },
        FakeRunner { state: Arc::clone(&state) },
        InMemoryPrivilegedExecutionLedger::new(),
    )
}

#[test]
fn preview_executes_only_dry_activate_and_keeps_baseline() {
    let (state, host, runner, mut ledger) = fixture();
    let request = prepared(SystemCandidateAction::PreviewActivation);
    let result = PrivilegedNixOsActivationHelper::new("node:lab")
        .execute(&request, 2_100, &host, &runner, &mut ledger)
        .expect("preview must pass");
    assert!(result.command.succeeded());
    assert_eq!(result.before_system_closure, BASELINE);
    assert_eq!(result.after_system_closure, BASELINE);
    assert!(!result.rollback_attempted);
    assert!(ledger.was_consumed(&request.authorization));
    assert_eq!(state.lock().unwrap().calls[0].1, "dry-activate");
}

#[test]
fn test_activation_switches_to_exact_candidate_without_changing_boot_default() {
    let (state, host, runner, mut ledger) = fixture();
    let request = prepared(SystemCandidateAction::TestActivation);
    let result = PrivilegedNixOsActivationHelper::new("node:lab")
        .execute(&request, 2_100, &host, &runner, &mut ledger)
        .expect("test activation must pass");
    assert!(result.command.succeeded());
    assert_eq!(result.after_system_closure, CANDIDATE);
    let state = state.lock().unwrap();
    assert_eq!(state.current, CANDIDATE);
    assert_eq!(state.boot_default, BASELINE);
    assert_eq!(state.calls.len(), 1);
    assert_eq!(state.calls[0].1, "test");
}

#[test]
fn prepared_action_is_bound_to_local_node() {
    let (_, host, runner, mut ledger) = fixture();
    let request = prepared(SystemCandidateAction::TestActivation);
    assert!(matches!(
        PrivilegedNixOsActivationHelper::new("node:other").execute(&request, 2_100, &host, &runner, &mut ledger),
        Err(PrivilegedActivationError::NodeMismatch { .. })
    ));
    assert!(!ledger.was_consumed(&request.authorization));
}

#[test]
fn stale_prepared_action_is_rejected_before_replay_ledger_consumption() {
    let (_, host, runner, mut ledger) = fixture();
    let request = prepared(SystemCandidateAction::TestActivation);
    assert_eq!(
        PrivilegedNixOsActivationHelper::new("node:lab").execute(&request, 40_001, &host, &runner, &mut ledger),
        Err(PrivilegedActivationError::PreparedActivationStale)
    );
    assert!(!ledger.was_consumed(&request.authorization));
}

#[test]
fn authorization_expiry_is_rechecked_at_privileged_boundary() {
    let (_, host, runner, mut ledger) = fixture();
    let request = prepared(SystemCandidateAction::TestActivation);
    let helper = PrivilegedNixOsActivationHelper::with_policy(
        "node:lab",
        PrivilegedActivationRuntimePolicy { max_prepared_age_ms: u64::MAX, max_readiness_age_ms: u64::MAX },
    );
    assert_eq!(
        helper.execute(&request, 61_000, &host, &runner, &mut ledger),
        Err(PrivilegedActivationError::AuthorizationExpired)
    );
}

#[test]
fn forged_program_is_rejected() {
    let (_, host, runner, mut ledger) = fixture();
    let mut request = prepared(SystemCandidateAction::TestActivation);
    request.plan.program = "/bin/sh".into();
    assert_eq!(
        PrivilegedNixOsActivationHelper::new("node:lab").execute(&request, 2_100, &host, &runner, &mut ledger),
        Err(PrivilegedActivationError::ProgramMismatch)
    );
}

#[test]
fn persistent_switch_and_boot_arguments_are_impossible_at_helper_boundary() {
    let (_, host, runner, mut ledger) = fixture();
    for forbidden in ["switch", "boot"] {
        let mut request = prepared(SystemCandidateAction::TestActivation);
        request.plan.args = vec![forbidden.into()];
        assert_eq!(
            PrivilegedNixOsActivationHelper::new("node:lab").execute(&request, 2_100, &host, &runner, &mut ledger),
            Err(PrivilegedActivationError::ArgumentsMismatch)
        );
    }
}

#[test]
fn a_prepared_authorization_cannot_execute_twice() {
    let (_, host, runner, mut ledger) = fixture();
    let request = prepared(SystemCandidateAction::PreviewActivation);
    let helper = PrivilegedNixOsActivationHelper::new("node:lab");
    helper.execute(&request, 2_100, &host, &runner, &mut ledger).expect("first use succeeds");
    assert!(matches!(
        helper.execute(&request, 2_101, &host, &runner, &mut ledger),
        Err(PrivilegedActivationError::ExecutionLedger(PrivilegedExecutionLedgerError::AlreadyConsumed(_)))
    ));
}

#[test]
fn helper_rejects_stacked_temporary_activations() {
    let (state, host, runner, mut ledger) = fixture();
    state.lock().unwrap().current = CANDIDATE.into();
    let request = prepared(SystemCandidateAction::TestActivation);
    assert_eq!(
        PrivilegedNixOsActivationHelper::new("node:lab").execute(&request, 2_100, &host, &runner, &mut ledger),
        Err(PrivilegedActivationError::CurrentSystemNotBootDefault)
    );
    assert!(!ledger.was_consumed(&request.authorization));
}

#[test]
fn failed_test_activation_reapplies_exact_baseline() {
    let (state, host, runner, mut ledger) = fixture();
    {
        let mut state = state.lock().unwrap();
        state.fail_candidate = true;
        state.candidate_failure_changes_live_state = true;
    }
    let request = prepared(SystemCandidateAction::TestActivation);
    let result = PrivilegedNixOsActivationHelper::new("node:lab")
        .execute(&request, 2_100, &host, &runner, &mut ledger)
        .expect("successful rollback returns an execution report");
    assert!(!result.command.succeeded());
    assert!(result.rollback_attempted);
    assert!(result.rollback_succeeded);
    assert_eq!(result.after_system_closure, BASELINE);
    let state = state.lock().unwrap();
    assert_eq!(state.current, BASELINE);
    assert_eq!(state.calls.len(), 2);
    assert_eq!(state.calls[1].0, format!("{BASELINE}/bin/switch-to-configuration"));
    assert_eq!(state.calls[1].1, "test");
}

#[test]
fn rollback_failure_is_fail_closed() {
    let (state, host, runner, mut ledger) = fixture();
    {
        let mut state = state.lock().unwrap();
        state.fail_candidate = true;
        state.fail_rollback = true;
        state.candidate_failure_changes_live_state = true;
    }
    let request = prepared(SystemCandidateAction::TestActivation);
    assert_eq!(
        PrivilegedNixOsActivationHelper::new("node:lab").execute(&request, 2_100, &host, &runner, &mut ledger),
        Err(PrivilegedActivationError::RollbackFailed)
    );
}

#[test]
fn activation_steps_follow_the_host_answers() {
    let helper = PrivilegedNixOsActivationHelper::new("node:lab");
    let request = prepared(SystemCandidateAction::TestActivation);
    match helper.activation_start(&request, 2_100) {
        ActivationNext::Call { stage: ActivationStage::CheckCanonical, call: ActivationCall::Canonicalize(p) } => {
            assert_eq!(p, CANDIDATE)
        }
        _ => panic!("the candidate is canonicalized first"),
    }
    assert!(matches!(
        helper.activation_start(&request, 40_001),
        ActivationNext::Done(Err(PrivilegedActivationError::PreparedActivationStale))
    ));
    let boot = helper.activation_step(
        &request,
        ActivationStage::ReadBootDefault { before: BASELINE.into() },
        ActivationAnswer::Path(Ok(CANDIDATE.into())),
    );
    assert!(matches!(boot, ActivationNext::Done(Err(PrivilegedActivationError::CurrentSystemNotBootDefault))));
    match helper.activation_step(
        &request,
        ActivationStage::ReadBootDefault { before: BASELINE.into() },
        ActivationAnswer::Path(Ok(BASELINE.into())),
    ) {
        ActivationNext::Call { call: ActivationCall::ExecutableExists(p), .. } => {
            assert_eq!(p, format!("{BASELINE}/bin/switch-to-configuration"))
        }
        _ => panic!("the rollback program is checked next"),
    }
    match helper.activation_step(
        &request,
        ActivationStage::ReadAfter { before: BASELINE.into(), command: failed_outcome("x") },
        ActivationAnswer::Path(Ok(CANDIDATE.into())),
    ) {
        ActivationNext::Call { call: ActivationCall::Run { program, argument }, .. } => {
            assert_eq!(program, format!("{BASELINE}/bin/switch-to-configuration"));
            assert_eq!(argument, "test");
        }
        _ => panic!("a failed test activation runs the baseline rollback"),
    }
    assert!(matches!(
        helper.activation_step(
            &request,
            ActivationStage::RunRollback { before: BASELINE.into(), command: failed_outcome("x"), failure: None },
            ActivationAnswer::Ran(Ok(failed_outcome("rollback"))),
        ),
        ActivationNext::Done(Err(PrivilegedActivationError::RollbackFailed))
    ));
    assert!(matches!(
        helper.activation_step(
            &request,
            ActivationStage::ConsumeLedger { before: BASELINE.into() },
            ActivationAnswer::Ledger(Err(PrivilegedExecutionLedgerError::AlreadyConsumed("auth:one".into()))),
        ),
        ActivationNext::Done(Err(PrivilegedActivationError::ExecutionLedger(_)))
    ));
}
