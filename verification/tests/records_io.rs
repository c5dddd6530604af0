use blob_nixos::candidate_source_reclaimer::{
    CandidateSourceReclaimError, CandidateSourceReclaimerPaths, RootCandidateSourceReclaimer,
};
use blob_nixos::fsmeta::FileFacts;
use blob_nixos::lifecycle::{
    canonical_lifecycle_receipt, derivation_release_evidence, terminal_job_evidence, BeginState,
    DerivationGcRootDisposition, IntentState, LifecycleError, LifecyclePaths, RootMaterializationLifecycleManager,
};
use blob_nixos::materialization_authority::{
    canonical_intent, AuthorityLayoutFacts, MaterializationAuthorityError, MaterializationIntent,
    MaterializationIntentSpec, OperationRecords, RootMaterializationAdmissionAuthority,
};
use blob_nixos::request_publisher::{
    canonical_materialization_admission, published_authorization, MaterializationAdmission,
};

use blob_nixos::activation::{ImmutableNixOsActivationPlan, PreparedPrivilegedActivation};
use blob_nixos::system::{SystemAuthorityClass, SystemCandidateAction, SystemEffectClass};
use blob_nixos::authority::{PkcheckCommandOutcome, PolkitAuthorizationError, PolkitAuthorizationRequest};
use blob_nixos::request_publisher::{PreparedRequestPublishError, RequestLayoutFacts, RootPreparedActivationPublisher};

fn dir() -> FileFacts {
    FileFacts { is_symlink: false, is_dir: true, is_file: false, uid: 0, mode: 0o700, len: 0 }
}

fn file(text: &str) -> FileFacts {
    FileFacts { is_symlink: false, is_dir: false, is_file: true, uid: 0, mode: 0o600, len: text.len() as u64 }
}

fn intent() -> MaterializationIntent {
    MaterializationIntent {
        node: "node:one".into(),
        candidate: "candidate:one".into(),
        system_spec: "system:one".into(),
        materialization_operation: "op:one".into(),
        immutable_flake_root: "/nix/store/aaaaaaaa-source".into(),
        installable_attribute: "nixosConfigurations.pilot.config.system.build.toplevel".into(),
        derivation_path: "/nix/store/bbbbbbbb-system.drv".into(),
        expected_output: "/nix/store/cccccccc-system".into(),
        created_at_unix_ms: 42,
    }
}

fn spec() -> MaterializationIntentSpec {
    MaterializationIntentSpec {
        node: "node:one".into(),
        candidate: "candidate:one".into(),
        system_spec: "system:one".into(),
        materialization_operation: "op:one".into(),
        immutable_flake_root: "/nix/store/aaaaaaaa-source".into(),
        installable_attribute: "nixosConfigurations.pilot.config.system.build.toplevel".into(),
        created_at_unix_ms: 42,
    }
}

fn layout() -> AuthorityLayoutFacts {
    AuthorityLayoutFacts { intent_root: dir(), pending: dir(), completed: dir(), admission_root: dir() }
}

#[test]
fn begin_checks_come_before_the_inspector() {
    let authority = RootMaterializationAdmissionAuthority::new("/var/lib/theblob/intents", "/var/lib/theblob/admissions", 0);
    let none = OperationRecords { pending_intent: false, completed_intent: false, admission: false };
    assert_eq!(authority.check_begin(&spec(), &layout(), &none), Ok(()));
    let pending = OperationRecords { pending_intent: true, completed_intent: false, admission: false };
    assert_eq!(
        authority.check_begin(&spec(), &layout(), &pending),
        Err(MaterializationAuthorityError::IntentAlreadyExists("op:one".into()))
    );
    let admitted = OperationRecords { pending_intent: false, completed_intent: false, admission: true };
    assert_eq!(authority.check_begin(&spec(), &layout(), &admitted), Err(MaterializationAuthorityError::AdmissionConflict));
    let mut outside = spec();
    outside.immutable_flake_root = "/etc/nixos".into();
    assert_eq!(
        authority.check_begin(&outside, &layout(), &none),
        Err(MaterializationAuthorityError::InvalidImmutableFlakeRoot)
    );
    assert_eq!(authority.intent_dir(IntentState::Pending), "/var/lib/theblob/intents/pending");
    assert_eq!(authority.intent_dir(IntentState::Completed), "/var/lib/theblob/intents/completed");
}

fn manager() -> RootMaterializationLifecycleManager {
    RootMaterializationLifecycleManager::new(LifecyclePaths::production_default(), 0)
}

#[test]
fn lifecycle_reads_intent_records_of_their_own_operation() {
    let text = canonical_intent(&intent());
    let read = manager().load_intent_record("/x/op.intent", "op:one", &file(&text), &text).expect("canonical intent");
    assert_eq!(read, intent());
    assert!(matches!(
        manager().load_intent_record("/x/op.intent", "op:two", &file(&text), &text),
        Err(LifecycleError::NonCanonicalRecord(p)) if p == "/x/op.intent"
    ));
    assert!(matches!(
        manager().load_intent_record("/x/op.intent", "op:one", &file(&text), "garbage"),
        Err(LifecycleError::Authority(_))
    ));
}

#[test]
fn lifecycle_reads_admission_records_of_their_own_operation() {
    let admission = MaterializationAdmission {
        node: "node:one".into(),
        candidate: "candidate:one".into(),
        system_spec: "system:one".into(),
        materialization_operation: "op:one".into(),
        system_closure: "/nix/store/cccccccc-system".into(),
        admitted_at_unix_ms: 50,
        provenance: vec!["verification:nix-path-info+store-verify+deriver".into()],
    };
    let text = canonical_materialization_admission(&admission);
    let read = manager().load_admission_record("/x/op.admission", "op:one", &file(&text), &text).expect("canonical");
    assert_eq!(read, admission);
    let mut open = file(&text);
    open.uid = 1000;
    assert!(matches!(
        manager().load_admission_record("/x/op.admission", "op:one", &open, &text),
        Err(LifecycleError::InvalidRecord(p)) if p == "/x/op.admission"
    ));
    assert!(matches!(
        manager().load_admission_record("/x/op.admission", "op:other", &file(&text), &text),
        Err(LifecycleError::NonCanonicalRecord(_))
    ));
}

#[test]
fn release_and_retirement_evidence_name_their_decision() {
    assert_eq!(
        derivation_release_evidence(DerivationGcRootDisposition::ReleasedAfterAdmission),
        vec!["decision:admission-and-closure-root-durable".to_string()]
    );
    assert_eq!(
        derivation_release_evidence(DerivationGcRootDisposition::ReleasedAfterFailure),
        vec!["decision:failed-job-without-native-state".to_string()]
    );
    assert_eq!(terminal_job_evidence(BeginState::Completed), vec!["terminal-state:completed".to_string()]);
    assert_eq!(terminal_job_evidence(BeginState::Failed), vec!["terminal-state:failed".to_string()]);
}

#[test]
fn reclaimer_reads_only_receipts_of_the_expected_kind_and_subject() {
    let reclaimer = RootCandidateSourceReclaimer::new(CandidateSourceReclaimerPaths::production_default(), 0);
    let text = canonical_lifecycle_receipt(
        "candidate-retirement",
        "manifest:one",
        7,
        None,
        &vec!["source-retained:/nix/store/aaaa-source".to_string()],
    );
    let receipt = reclaimer
        .check_receipt_record("candidate-retirement", "manifest:one", "/r", &file(&text), &text)
        .expect("strict receipt");
    assert_eq!(receipt.subject_id, "manifest:one");
    assert_eq!(
        reclaimer.check_receipt_record("candidate-source-retirement", "manifest:one", "/r", &file(&text), &text),
        Err(CandidateSourceReclaimError::InvalidLifecycleReceipt("/r".into()))
    );
    assert_eq!(
        reclaimer.check_receipt_record("candidate-retirement", "manifest:two", "/r", &file(&text), &text),
        Err(CandidateSourceReclaimError::InvalidLifecycleReceipt("/r".into()))
    );
    let mut linked = file(&text);
    linked.is_symlink = true;
    assert_eq!(
        reclaimer.check_receipt_record("candidate-retirement", "manifest:one", "/r", &linked, &text),
        Err(CandidateSourceReclaimError::InvalidLayout("/r".into()))
    );
}

#[test]
fn published_authorizations_are_labelled_by_nonce() {
    assert_eq!(published_authorization("00ff"), "auth:published-00ff");
}

fn preview_request() -> blob_nixos::activation::PreparedPrivilegedActivation {
    let closure = "/nix/store/candidate-nixos-system-blob-pilot";
    PreparedPrivilegedActivation {
        node: "node:lab".into(),
        readiness_observed_at_unix_ms: 1_000,
        authorization: "auth:one".into(),
        authorization_expires_at_unix_ms: 61_000,
        prepared_at_unix_ms: 2_000,
        plan: ImmutableNixOsActivationPlan {
            operation_id: "op:activate".into(),
            candidate: "candidate:one".into(),
            system_spec: "system:one".into(),
            materialization_operation: "op:materialize".into(),
            system_closure: closure.into(),
            action: SystemCandidateAction::PreviewActivation,
            effect_class: SystemEffectClass::PreviewHooks,
            authority: SystemAuthorityClass::HostAdministrator,
            program: format!("{closure}/bin/switch-to-configuration"),
            args: vec!["dry-activate".into()],
            expected_effects: vec![],
            rollback_semantics: "reboot restores baseline".into(),
        },
        readiness_evidence: vec![],
        authorization_evidence: vec![],
    }
}

#[test]
fn only_a_polkit_grant_publishes_the_request() {
    let publisher = RootPreparedActivationPublisher::new("node:lab", "/adm", "/req", 0, 120_000);
    let prepared = preview_request();
    let request = PolkitAuthorizationRequest::for_prepared(":1.42", &prepared).expect("request");
    let layout = RequestLayoutFacts { root: dir(), ready: dir(), inflight: dir(), completed: dir(), failed: dir() };
    let outcome = |code: i32| PkcheckCommandOutcome { exit_code: Some(code), stdout: String::new(), stderr: "no".into() };
    assert_eq!(
        publisher.publish_granted(prepared.clone(), &request, Ok(outcome(1)), &layout, &vec![false]),
        Err(PreparedRequestPublishError::Polkit(PolkitAuthorizationError::Denied("no".into())))
    );
    assert_eq!(
        publisher.publish_granted(
            prepared.clone(),
            &request,
            Err(PolkitAuthorizationError::Spawn("gone".into())),
            &layout,
            &vec![false]
        ),
        Err(PreparedRequestPublishError::Polkit(PolkitAuthorizationError::Spawn("gone".into())))
    );
    assert_eq!(
        publisher.publish_granted(prepared.clone(), &request, Ok(outcome(0)), &layout, &vec![true]),
        Err(PreparedRequestPublishError::RequestAlreadyExists("auth:one".into()))
    );
    let published = publisher
        .publish_granted(prepared.clone(), &request, Ok(outcome(0)), &layout, &vec![false])
        .expect("granted");
    assert_eq!(published.authorized_system_bus_name, ":1.42");
    assert_eq!(published.authorization, "auth:one");
    let hex: String = "auth:one".bytes().map(|b| format!("{b:02x}")).collect();
    assert_eq!(published.request_path, format!("/req/ready/authorization-{hex}.request"));
}

#[test]
fn a_claim_reads_exactly_the_authorized_request() {
    let expected = preview_request();
    assert!(blob_nixos::request_store::check_ready_read(&expected, &expected).is_ok());
    let mut other = preview_request();
    other.plan.candidate = "candidate:other".into();
    assert_eq!(
        blob_nixos::request_store::check_ready_read(&expected, &other),
        Err(blob_nixos::request_store::PreparedActivationRequestStoreError::RequestMismatch)
    );
}
