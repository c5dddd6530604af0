use blob_nixos::activation::{ImmutableNixOsActivationPlan, PreparedPrivilegedActivation};
use blob_nixos::candidate_lease::{
    canonical_candidate_enqueue_lease, parse_candidate_enqueue_lease, CandidateEnqueueLease,
    CandidateEnqueueLeaseError,
};
use blob_nixos::request_publisher::{
    canonical_materialization_admission, parse_materialization_admission, MaterializationAdmission,
    MaterializationAdmissionError,
};
use blob_nixos::fsmeta::FileFacts;
use blob_nixos::request_store::{
    canonical_text, check_claim_reads, claim_receipt_text, classify_request_state, parse_canonical_text,
    FilePreparedActivationRequestStore, PreparedActivationRequestStoreError,
};
use blob_nixos::system::{SystemAuthorityClass, SystemCandidateAction, SystemEffectClass};

const CANDIDATE: &str = "/nix/store/candidate-nixos-system-blob-pilot";

fn lease() -> CandidateEnqueueLease {
    CandidateEnqueueLease {
        manifest_id: "manifest:test".into(),
        request_id: "begin-request:abc".into(),
        operation: "op:materialize-def".into(),
        requester_uid: 1000,
        requester_system_bus_name: ":1.44".into(),
        acquired_at_unix_ms: 42,
    }
}

fn prepared(authorization: &str, action: SystemCandidateAction) -> PreparedPrivilegedActivation {
    let (effect_class, argument) = match action {
        SystemCandidateAction::PreviewActivation => (SystemEffectClass::PreviewHooks, "dry-activate"),
        SystemCandidateAction::TestActivation => (SystemEffectClass::TemporaryLiveActivation, "test"),
        _ => unreachable!(),
    };
    PreparedPrivilegedActivation {
        node: "node:lab".into(),
        readiness_observed_at_unix_ms: 1_000,
        authorization: authorization.into(),
        authorization_expires_at_unix_ms: 61_000,
        prepared_at_unix_ms: 2_000,
        plan: ImmutableNixOsActivationPlan {
            operation_id: "op:activate".into(),
            candidate: "candidate:one".into(),
            system_spec: "system:one".into(),
            materialization_operation: "op:materialize".into(),
            system_closure: CANDIDATE.into(),
            action,
            effect_class,
            authority: SystemAuthorityClass::HostAdministrator,
            program: format!("{CANDIDATE}/bin/switch-to-configuration"),
            args: vec![argument.into()],
            expected_effects: vec!["exact immutable activation".into()],
            rollback_semantics: "reboot restores baseline".into(),
        },
        readiness_evidence: vec!["node:node:lab".into(), "observed-at-unix-ms:1000".into()],
        authorization_evidence: vec![format!("authorization:{authorization}"), "expires-at-unix-ms:61000".into()],
    }
}

#[test]
fn lease_round_trip_is_canonical() {
    let lease = lease();
    let text = canonical_candidate_enqueue_lease(&lease);
    assert_eq!(parse_candidate_enqueue_lease(&text).unwrap(), lease);
    assert!(text.ends_with('\n'));
}

#[test]
fn parser_rejects_trailing_fields() {
    let text = canonical_candidate_enqueue_lease(&lease()) + "extra=1\n";
    assert_eq!(parse_candidate_enqueue_lease(&text), Err(CandidateEnqueueLeaseError::Malformed));
}

#[test]
fn canonical_request_round_trips_exactly() {
    let request = prepared("auth:round-trip", SystemCandidateAction::TestActivation);
    let text = canonical_text(&request);
    assert_eq!(parse_canonical_text(&text), Ok(request));
}

#[test]
fn lib_parser_rejects_trailing_fields() {
    let request = prepared("auth:trailing", SystemCandidateAction::PreviewActivation);
    let mut text = canonical_text(&request);
    text.push_str("unexpected=value\n");
    assert!(matches!(parse_canonical_text(&text), Err(PreparedActivationRequestStoreError::Malformed(_))));
}

#[test]
fn request_state_precedence_is_terminal_then_claimed() {
    assert!(matches!(
        classify_request_state("auth:x", true, true),
        Err(PreparedActivationRequestStoreError::TerminalState(a)) if a == "auth:x"
    ));
    assert!(matches!(
        classify_request_state("auth:x", false, true),
        Err(PreparedActivationRequestStoreError::AlreadyClaimed(a)) if a == "auth:x"
    ));
    assert!(classify_request_state("auth:x", false, false).is_ok());
}

#[test]
fn claim_receipt_is_versioned() {
    let request = prepared("auth:one", SystemCandidateAction::PreviewActivation);
    assert_eq!(
        claim_receipt_text(&request),
        "theblob-prepared-activation-claim-v1\nauthorization=617574683a6f6e65\nprepared-at-unix-ms=2000\n"
    );
}

#[test]
fn materialization_admission_round_trips_exactly() {
    let admission = MaterializationAdmission {
        node: "node:lab".into(),
        candidate: "candidate:one".into(),
        system_spec: "system:one".into(),
        materialization_operation: "op:materialize".into(),
        system_closure: "/nix/store/abc-system".into(),
        admitted_at_unix_ms: 42,
        provenance: vec!["materialization-result:verified".into()],
    };
    let text = canonical_materialization_admission(&admission);
    assert_eq!(parse_materialization_admission(&text), Ok(admission));
}

#[test]
fn admission_rejects_non_store_closure() {
    let text = [
        "theblob-materialization-admission-v1",
        "materialization-operation=6f703a6d6174657269616c697a65",
        "node=6e6f64653a6c6162",
        "candidate=63616e6469646174653a6f6e65",
        "system-spec=73797374656d3a6f6e65",
        "system-closure=2f746d702f6576696c",
        "admitted-at-unix-ms=42",
        "provenance-count=0",
        "",
    ]
    .join("\n");
    assert_eq!(
        parse_materialization_admission(&text),
        Err(MaterializationAdmissionError::InvalidSystemClosure)
    );
}

fn request_file(text: &str) -> FileFacts {
    FileFacts { is_symlink: false, is_dir: false, is_file: true, uid: 1000, mode: 0o600, len: text.len() as u64 }
}

/// Reads the staged request the way `load_ready` does once it knows which
/// state directories hold a request or claim for the authorization.
fn load_ready(
    store: &FilePreparedActivationRequestStore,
    staged: &str,
    authorization: &str,
    terminal_present: bool,
    inflight_present: bool,
) -> Result<PreparedPrivilegedActivation, PreparedActivationRequestStoreError> {
    classify_request_state(authorization, terminal_present, inflight_present)?;
    store.check_request_file(&request_file(staged), staged, authorization)
}

#[test]
fn claim_is_durable_and_not_reopened_after_recovery() {
    let request = prepared("auth:crash", SystemCandidateAction::PreviewActivation);
    let staged = canonical_text(&request);
    let store = FilePreparedActivationRequestStore::new("/var/lib/theblob/prepared", 1000);
    assert_eq!(load_ready(&store, &staged, &request.authorization, false, false), Ok(request.clone()));
    let reread = store.check_request_file(&request_file(&staged), &staged, &request.authorization);
    assert_eq!(check_claim_reads(&request, &request, reread), Ok(()));
    let claimed = store.claimed(&request);
    drop(store);

    let recovered = FilePreparedActivationRequestStore::new("/var/lib/theblob/prepared", 1000);
    assert_eq!(
        load_ready(&recovered, &staged, &request.authorization, false, true),
        Err(PreparedActivationRequestStoreError::AlreadyClaimed(request.authorization.clone()))
    );
    recovered.check_terminal(&claimed, &request, false).expect("quarantine failed request");
    assert!(matches!(
        load_ready(&recovered, &staged, &request.authorization, true, false),
        Err(PreparedActivationRequestStoreError::TerminalState(_))
    ));
}

#[test]
fn successful_completion_is_terminal() {
    let request = prepared("auth:complete", SystemCandidateAction::TestActivation);
    let staged = canonical_text(&request);
    let store = FilePreparedActivationRequestStore::new("/var/lib/theblob/prepared", 1000);
    let before = load_ready(&store, &staged, &request.authorization, false, false).expect("claim request");
    let after = store.check_request_file(&request_file(&staged), &staged, &request.authorization);
    check_claim_reads(&request, &before, after).expect("claim request");
    let claimed = store.claimed(&request);
    store.check_terminal(&claimed, &request, false).expect("complete request");
    assert!(matches!(
        load_ready(&store, &staged, &request.authorization, true, false),
        Err(PreparedActivationRequestStoreError::TerminalState(_))
    ));
}

#[test]
fn a_claim_from_another_store_is_not_accepted() {
    let request = prepared("auth:other", SystemCandidateAction::TestActivation);
    let store = FilePreparedActivationRequestStore::new("/var/lib/theblob/prepared", 1000);
    let other = FilePreparedActivationRequestStore::new("/tmp/elsewhere", 1000);
    let claimed = other.claimed(&request);
    assert_eq!(
        store.check_terminal(&claimed, &request, false),
        Err(PreparedActivationRequestStoreError::RequestMismatch)
    );
}
