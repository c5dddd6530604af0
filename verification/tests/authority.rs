use blob_nixos::activation::{ImmutableNixOsActivationPlan, PreparedPrivilegedActivation};
use blob_nixos::authority::{
    issued_permit, OsAuthorizationGrant, PermitIssueError, RootOwnedActivationPermitIssuer,
    PkcheckAuthorizationChecker, PkcheckCommandOutcome, PkcheckCommandRunner, PolkitAuthorizationError,
    PolkitAuthorizationRequest, PolkitCheckPlan, TEST_POLKIT_ACTION_ID,
};
use blob_nixos::fsmeta::FileFacts;
use blob_nixos::permit::TrustedActivationPermit;
use blob_nixos::privileged_helper::PrivilegedActivationRuntimePolicy;
use blob_nixos::system::{SystemAuthorityClass, SystemCandidateAction, SystemEffectClass};

const CANDIDATE: &str = "/nix/store/candidate-nixos-system-blob-pilot";

fn prepared(action: SystemCandidateAction) -> PreparedPrivilegedActivation {
    let (effect_class, argument) = match action {
        SystemCandidateAction::PreviewActivation => (SystemEffectClass::PreviewHooks, "dry-activate"),
        SystemCandidateAction::TestActivation => (SystemEffectClass::TemporaryLiveActivation, "test"),
        _ => unreachable!(),
    };
    PreparedPrivilegedActivation {
        node: "node:lab".into(),
        readiness_observed_at_unix_ms: 1_000,
        authorization: "auth:one".into(),
        authorization_expires_at_unix_ms: 61_000,
        prepared_at_unix_ms: 2_000,
        plan: ImmutableNixOsActivationPlan {
            operation_id: "op:activate".into(),
            candidate: "candidate:one".into(),
            system_spec: "system:one".into(),
            materialization_operation: "op:materialize".into(),
            system_closure: CANDIDATE.into(),
            action,
            effect_class,
            authority: SystemAuthorityClass::HostAdministrator,
            program: format!("{CANDIDATE}/bin/switch-to-configuration"),
            args: vec![argument.into()],
            expected_effects: vec![],
            rollback_semantics: "reboot restores baseline".into(),
        },
        readiness_evidence: vec!["node:node:lab".into(), "observed-at-unix-ms:1000".into()],
        authorization_evidence: vec!["authorization:auth:one".into(), "expires-at-unix-ms:61000".into()],
    }
}

#[derive(Clone)]
struct FakeRunner {
    outcome: PkcheckCommandOutcome,
}

impl PkcheckCommandRunner for FakeRunner {
    fn run(&self, _plan: &PolkitCheckPlan) -> Result<PkcheckCommandOutcome, String> {
        Ok(self.outcome.clone())
    }
}

fn checker(exit_code: Option<i32>) -> PkcheckAuthorizationChecker<FakeRunner> {
    PkcheckAuthorizationChecker::new(
        "/nix/store/polkit/bin/pkcheck",
        FakeRunner {
            outcome: PkcheckCommandOutcome { exit_code, stdout: String::new(), stderr: "diagnostic".into() },
        },
    )
    .unwrap()
}

#[test]
fn request_accepts_only_unique_system_bus_names_and_live_actions() {
    let request = PolkitAuthorizationRequest::for_prepared(":1.42", &prepared(SystemCandidateAction::TestActivation))
        .expect("valid request");
    assert_eq!(request.action().action_id(), TEST_POLKIT_ACTION_ID);
    assert_eq!(
        PolkitAuthorizationRequest::for_prepared("org.example.Client", &prepared(SystemCandidateAction::TestActivation)),
        Err(PolkitAuthorizationError::InvalidSystemBusName)
    );
}

#[test]
fn pkcheck_plan_uses_system_bus_identity_and_never_pid_or_shell() {
    let request = PolkitAuthorizationRequest::for_prepared(":1.42", &prepared(SystemCandidateAction::TestActivation)).unwrap();
    let plan = PolkitCheckPlan::new("/nix/store/polkit/bin/pkcheck", &request).unwrap();
    assert_eq!(plan.program, "/nix/store/polkit/bin/pkcheck");
    assert!(plan.args.windows(2).any(|pair| pair == ["--system-bus-name", ":1.42"]));
    assert!(plan.args.contains(&"--allow-user-interaction".into()));
    assert!(!plan.args.contains(&"--process".into()));
    assert!(!plan.args.iter().any(|arg| arg == "sh" || arg == "bash"));
}

#[test]
fn successful_pkcheck_grant_is_exactly_bound_to_requested_permit() {
    let prepared = prepared(SystemCandidateAction::TestActivation);
    let request = PolkitAuthorizationRequest::for_prepared(":1.42", &prepared).unwrap();
    let grant = checker(Some(0)).check_user_initiated(&request, 2_100).expect("authorized");
    assert_eq!(grant.system_bus_name(), ":1.42");
    assert_eq!(grant.action().action_id(), TEST_POLKIT_ACTION_ID);
    assert_eq!(grant.checked_at_unix_ms(), 2_100);
    assert_eq!(
        grant.approved_permit_canonical(),
        TrustedActivationPermit::from_prepared(&prepared).canonical_text()
    );
}

#[test]
fn pkcheck_exit_codes_fail_closed() {
    let request = PolkitAuthorizationRequest::for_prepared(":1.42", &prepared(SystemCandidateAction::PreviewActivation)).unwrap();
    assert!(matches!(checker(Some(1)).check_user_initiated(&request, 2_100), Err(PolkitAuthorizationError::Denied(_))));
    assert!(matches!(
        checker(Some(2)).check_user_initiated(&request, 2_100),
        Err(PolkitAuthorizationError::NoAuthenticationAgent(_))
    ));
    assert!(matches!(checker(Some(3)).check_user_initiated(&request, 2_100), Err(PolkitAuthorizationError::Dismissed(_))));
    assert!(matches!(
        checker(Some(127)).check_user_initiated(&request, 2_100),
        Err(PolkitAuthorizationError::CheckFailed { .. })
    ));
}

#[test]
fn pkcheck_program_must_be_an_absolute_store_or_system_path() {
    let runner = FakeRunner { outcome: PkcheckCommandOutcome { exit_code: Some(0), stdout: String::new(), stderr: String::new() } };
    assert!(matches!(
        PkcheckAuthorizationChecker::new("pkcheck", runner),
        Err(PolkitAuthorizationError::InvalidPkcheckProgram)
    ));
}

fn grant_for(prepared: &PreparedPrivilegedActivation, now: u64) -> OsAuthorizationGrant {
    let request = PolkitAuthorizationRequest::for_prepared(":1.42", prepared).unwrap();
    checker(Some(0)).check_user_initiated(&request, now).unwrap()
}

#[test]
fn issuer_output_is_consumable_by_root_boundary_store() {
    let prepared = prepared(SystemCandidateAction::TestActivation);
    let grant = grant_for(&prepared, 2_100);
    let issuer = RootOwnedActivationPermitIssuer::new("node:lab", "/var/lib/theblob/permits", 0);
    let (action, text) = issuer.authorize(&prepared, &grant, 2_200).expect("issued");
    let path = issuer.permit_path(&prepared.authorization);
    let issued = issued_permit(&prepared, &grant, action, path.clone(), 2_200);
    assert_eq!(issued.authorized_system_bus_name, ":1.42");
    assert_eq!(issued.action_id, TEST_POLKIT_ACTION_ID);
    assert_eq!(issued.permit_path, path);
    let store = blob_nixos::permit::FileTrustedActivationPermitStore::new("/var/lib/theblob/permits", 0);
    assert_eq!(store.permit_path(&prepared.authorization), path);
    store.check_permit_text(&prepared, &text).expect("root boundary must accept issuer output");
}

#[test]
fn grant_cannot_be_rebound_to_another_candidate_after_authentication() {
    let original = prepared(SystemCandidateAction::TestActivation);
    let grant = grant_for(&original, 2_100);
    let mut forged = original.clone();
    forged.plan.candidate = "candidate:forged".into();
    let issuer = RootOwnedActivationPermitIssuer::new("node:lab", "/var/lib/theblob/permits", 0);
    assert_eq!(issuer.authorize(&forged, &grant, 2_200), Err(PermitIssueError::GrantExactBindingMismatch));
}

#[test]
fn stale_or_prepared_after_grant_is_rejected() {
    let prepared = prepared(SystemCandidateAction::PreviewActivation);
    let grant = grant_for(&prepared, 2_100);
    let issuer = RootOwnedActivationPermitIssuer::with_policy(
        "node:lab",
        "/var/lib/theblob/permits",
        0,
        10,
        PrivilegedActivationRuntimePolicy { max_prepared_age_ms: u64::MAX, max_readiness_age_ms: u64::MAX },
    );
    assert_eq!(issuer.authorize(&prepared, &grant, 2_111), Err(PermitIssueError::GrantStale));
    let before_prepared = grant_for(&prepared, 1_999);
    assert_eq!(issuer.authorize(&prepared, &before_prepared, 2_005), Err(PermitIssueError::GrantTimestampInvalid));
}

#[test]
fn issuer_refuses_unsafe_root_and_never_overwrites_existing_permit() {
    let issuer = RootOwnedActivationPermitIssuer::new("node:lab", "/var/lib/theblob/permits", 0);
    let open = FileFacts { is_symlink: false, is_dir: true, is_file: false, uid: 0, mode: 0o755, len: 0 };
    assert_eq!(issuer.check_root(&open), Err(PermitIssueError::InvalidPermitRoot));
    let private = FileFacts { mode: 0o700, ..open.clone() };
    assert_eq!(issuer.check_root(&private), Ok(()));
    let created = FileFacts { is_symlink: false, is_dir: false, is_file: true, uid: 0, mode: 0o644, len: 10 };
    assert_eq!(issuer.check_created(&created), Err(PermitIssueError::InvalidCreatedPermit));
}
