use blob_nixos::begin_queue::{
    canonical_begin_job, parse_begin_job, validate_request_id, validate_sender,
    MaterializationBeginJob,
};
use blob_nixos::materialization_authority::{
    canonical_intent, parse_intent, validate_immutable_store_subpath,
    validate_installable_attribute, MaterializationIntent,
};
use blob_nixos::materialization_begin::{
    canonical_trusted_candidate, parse_trusted_candidate, validate_manifest_id,
    TrustedMaterializationCandidate,
};

#[test]
fn intent_round_trips_exactly() {
    let intent = MaterializationIntent {
        node: String::from("node:one"),
        candidate: String::from("candidate:one"),
        system_spec: String::from("system:one"),
        materialization_operation: String::from("op:one"),
        immutable_flake_root: String::from("/nix/store/aaaaaaaa-source/ref"),
        installable_attribute: "packages.x86_64-linux.default".into(),
        derivation_path: String::from("/nix/store/bbbbbbbb-output.drv"),
        expected_output: String::from("/nix/store/cccccccc-output"),
        created_at_unix_ms: 42,
    };
    let text = canonical_intent(&intent);
    assert_eq!(parse_intent(&text), Ok(intent));
}

#[test]
fn unsafe_installable_attribute_is_rejected() {
    assert!(validate_installable_attribute("x;--impure").is_err());
    assert!(validate_installable_attribute("x^out").is_err());
}

#[test]
fn source_must_be_inside_an_immutable_store_object() {
    assert!(validate_immutable_store_subpath("/tmp/source").is_err());
    assert!(validate_immutable_store_subpath("/nix/store/hash-source/ref").is_ok());
}

fn job() -> MaterializationBeginJob {
    MaterializationBeginJob {
        request_id: "begin-request:abc123".into(),
        requester_uid: 1000,
        requester_system_bus_name: ":1.42".into(),
        manifest_id: "manifest:one".into(),
        operation: String::from("op:materialize-one"),
        enqueued_at_unix_ms: 42,
    }
}

#[test]
fn begin_job_round_trips_canonically() {
    let expected = job();
    let text = canonical_begin_job(&expected);
    assert_eq!(parse_begin_job(&text), Ok(expected));
}

#[test]
fn request_id_rejects_path_and_shell_syntax() {
    assert!(validate_request_id("../begin-request:x").is_err());
    assert!(validate_request_id("begin-request:x;evil").is_err());
}

#[test]
fn sender_requires_unique_bus_name_shape() {
    assert!(validate_sender(":1.42").is_ok());
    assert!(validate_sender("org.example.Service").is_err());
}

#[test]
fn trusted_candidate_round_trips_canonically() {
    let candidate = TrustedMaterializationCandidate {
        manifest_id: "manifest:one".into(),
        candidate: String::from("candidate:one"),
        system_spec: String::from("system:one"),
        immutable_flake_root: String::from("/nix/store/aaaaaaaa-source"),
        installable_attribute: "packages.x86_64-linux.candidate".into(),
        provenance: vec!["systems-spec:validated".into()],
    };
    let text = canonical_trusted_candidate(&candidate);
    assert_eq!(parse_trusted_candidate(&text), Ok(candidate));
}

#[test]
fn manifest_id_and_attribute_reject_shell_syntax() {
    assert!(validate_manifest_id("manifest;evil").is_err());
    assert!(blob_nixos::materialization_begin::validate_installable_attribute("x^out").is_err());
    assert!(
        blob_nixos::materialization_begin::validate_installable_attribute("x;--impure").is_err()
    );
}

#[test]
fn source_must_be_inside_nix_store() {
    assert!(
        blob_nixos::materialization_begin::validate_immutable_store_subpath("/tmp/source").is_err()
    );
    assert!(blob_nixos::materialization_begin::validate_immutable_store_subpath(
        "/nix/store/hash-source/ref"
    )
    .is_ok());
}
