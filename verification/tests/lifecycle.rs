use blob_nixos::begin_queue::MaterializationBeginJob;
use blob_nixos::candidate_source_reclaimer::{parse_lifecycle_receipt, LifecycleReceipt};
use blob_nixos::lifecycle::{
    age_at_least, candidate_retirement_evidence, canonical_lifecycle_receipt, check_receipt_capacity,
    check_receipt_prefix,
    require_candidate_receipt_identity, LifecycleError, MAX_LIFECYCLE_RECEIPTS,
};
use blob_nixos::materialization_begin::TrustedMaterializationCandidate;

use blob_nixos::candidate_source_retirement::{check_quiescent, CandidateSourceRetirementError};

fn job() -> MaterializationBeginJob {
    MaterializationBeginJob {
        request_id: "begin-request:one".into(),
        requester_uid: 1000,
        requester_system_bus_name: ":1.55".into(),
        manifest_id: "manifest:one".into(),
        operation: "op:materialize-one".into(),
        enqueued_at_unix_ms: 10,
    }
}

#[test]
fn receipt_does_not_embed_raw_identifiers() {
    let job = job();
    let receipt = canonical_lifecycle_receipt(
        "queued-cancel",
        &job.request_id,
        20,
        Some(&job),
        &vec!["decision:cancel-before-worker-claim".to_string()],
    );
    assert!(receipt.starts_with("theblob-materialization-lifecycle-receipt-v1\n"));
    assert!(receipt.contains("occurred-at-unix-ms=20\n"));
    assert!(!receipt.contains("begin-request:one"));
    assert!(receipt.ends_with('\n'));
}

#[test]
fn clock_rollback_never_makes_a_record_old() {
    assert!(!age_at_least(9, 10, 0));
    assert!(age_at_least(10, 10, 0));
    assert!(age_at_least(20, 10, 10));
}

#[test]
fn age_is_measured_from_creation() {
    assert!(!age_at_least(19, 10, 10));
    assert!(age_at_least(u64::MAX, 0, u64::MAX));
}

#[test]
fn lifecycle_receipt_reads_back_exactly() {
    let job = job();
    let evidence = vec!["source-retained:/nix/store/aaaa-source".to_string(), "terminal-jobs:1".to_string()];
    let text = canonical_lifecycle_receipt("candidate-retirement", "manifest:one", 7, Some(&job), &evidence);
    let parsed: LifecycleReceipt = parse_lifecycle_receipt(&text).expect("canonical receipt");
    assert_eq!(parsed.kind, "candidate-retirement");
    assert_eq!(parsed.subject_id, "manifest:one");
    assert_eq!(parsed.occurred_at_unix_ms, 7);
    assert_eq!(parsed.evidence, evidence);
    assert!(check_receipt_prefix(&text, "candidate-retirement", "manifest:one").is_ok());
    assert!(check_receipt_prefix(&text, "terminal-job-retirement", "manifest:one").is_err());
}

#[test]
fn receipt_capacity_is_bounded() {
    assert!(check_receipt_capacity(0).is_ok());
    assert!(check_receipt_capacity(MAX_LIFECYCLE_RECEIPTS - 1).is_ok());
    assert!(matches!(
        check_receipt_capacity(MAX_LIFECYCLE_RECEIPTS),
        Err(LifecycleError::ReceiptCapacityExceeded)
    ));
}

#[test]
fn producer_receipt_must_name_the_candidate() {
    let candidate = TrustedMaterializationCandidate {
        manifest_id: "manifest:one".into(),
        candidate: "candidate:one".into(),
        system_spec: "system:one".into(),
        immutable_flake_root: "/nix/store/aaaa-source".into(),
        installable_attribute: "nixosConfigurations.x.config.system.build.toplevel".into(),
        provenance: vec![],
    };
    let hex = |s: &str| s.bytes().map(|b| format!("{b:02x}")).collect::<String>();
    let text = format!(
        "theblob-candidate-manifest-receipt-v1\ncausal-id=00\nmanifest-id={}\ncandidate={}\nsystem-spec={}\nimmutable-flake-root={}\n",
        hex("manifest:one"),
        hex("candidate:one"),
        hex("system:one"),
        hex("/nix/store/aaaa-source")
    );
    assert!(require_candidate_receipt_identity(&text, &candidate).is_ok());
    let other = text.replace(&hex("candidate:one"), &hex("candidate:two"));
    assert!(matches!(
        require_candidate_receipt_identity(&other, &candidate),
        Err(LifecycleError::NonCanonicalRecord(_))
    ));
    let unterminated = text.trim_end().to_string();
    assert!(require_candidate_receipt_identity(&unterminated, &candidate).is_err());
}

#[test]
fn strict_receipt_parser_accepts_lifecycle_canonical_form() {
    let text = canonical_lifecycle_receipt(
        "candidate-retirement",
        "manifest:test",
        42,
        None,
        &vec![
            "source-retained:/nix/store/aaaaaaaaaaaaaaaaaaaaaaaaaaaaaaaa-source".to_string(),
            "terminal-jobs:0".to_string(),
        ],
    );
    let receipt = parse_lifecycle_receipt(&text).unwrap();
    assert_eq!(receipt.kind, "candidate-retirement");
    assert_eq!(receipt.subject_id, "manifest:test");
    assert_eq!(receipt.occurred_at_unix_ms, 42);
    assert_eq!(
        blob_nixos::candidate_source_reclaimer::retirement_source(&receipt).unwrap(),
        "/nix/store/aaaaaaaaaaaaaaaaaaaaaaaaaaaaaaaa-source"
    );
}

#[test]
fn strict_receipt_parser_rejects_trailing_fields() {
    let text = canonical_lifecycle_receipt(
        "candidate-retirement",
        "manifest:test",
        42,
        None,
        &vec!["source-retained:/nix/store/aaaaaaaaaaaaaaaaaaaaaaaaaaaaaaaa-source".to_string()],
    ) + "extra=1\n";
    assert!(parse_lifecycle_receipt(&text).is_err());
}

use blob_nixos::begin_queue::canonical_begin_job;
use blob_nixos::candidate_source_reclaimer::{
    CandidateSourceReclaimError, CandidateSourceReclaimerPaths, ReclaimStep, RootCandidateSourceReclaimer,
};
use blob_nixos::fsmeta::FileFacts;
use blob_nixos::lifecycle::{
    job_for_operation, job_for_request, jobs_for_manifest, BeginState, LifecyclePaths, LinkObservation,
    ObservedBeginJob, RootMaterializationLifecycleManager,
};

fn observed(state: BeginState, request: &str, manifest: &str, operation: &str) -> ObservedBeginJob {
    let mut job = job();
    job.request_id = request.into();
    job.manifest_id = manifest.into();
    job.operation = operation.into();
    ObservedBeginJob { state, job, path: format!("/var/lib/theblob/begin/{request}") }
}

fn record(text: &str) -> FileFacts {
    FileFacts { is_symlink: false, is_dir: false, is_file: true, uid: 0, mode: 0o600, len: text.len() as u64 }
}

#[test]
fn one_job_per_operation_or_a_conflict() {
    let jobs = vec![
        observed(BeginState::Queued, "begin-request:a", "manifest:one", "op:one"),
        observed(BeginState::Completed, "begin-request:b", "manifest:two", "op:two"),
    ];
    assert_eq!(job_for_operation(&jobs, "op:two").unwrap(), Some(1));
    assert_eq!(job_for_operation(&jobs, "op:none").unwrap(), None);
    let mut doubled = jobs;
    doubled.push(observed(BeginState::Failed, "begin-request:c", "manifest:one", "op:one"));
    assert!(matches!(job_for_operation(&doubled, "op:one"), Err(LifecycleError::StateConflict(_))));
    assert_eq!(jobs_for_manifest(&doubled, "manifest:one"), vec![0, 2]);
    assert_eq!(jobs_for_manifest(&doubled, "manifest:three"), Vec::<usize>::new());
}

#[test]
fn a_request_has_exactly_one_job() {
    let one = vec![observed(BeginState::Running, "begin-request:a", "manifest:one", "op:one")];
    assert_eq!(job_for_request(&one, "begin-request:a").unwrap(), 0);
    assert!(matches!(job_for_request(&one, "begin-request:b"), Err(LifecycleError::StateConflict(_))));
    let two = vec![
        observed(BeginState::Queued, "begin-request:a", "manifest:one", "op:one"),
        observed(BeginState::Failed, "begin-request:a", "manifest:one", "op:one"),
    ];
    assert!(matches!(job_for_request(&two, "begin-request:a"), Err(LifecycleError::StateConflict(_))));
    assert!(matches!(job_for_request(&vec![], "begin-request:a"), Err(LifecycleError::InvalidRecord(_))));
}

#[test]
fn lifecycle_reads_only_canonical_protected_job_records() {
    let manager = RootMaterializationLifecycleManager::new(LifecyclePaths::production_default(), 0);
    let text = canonical_begin_job(&job());
    let loaded = manager.load_job_record("/x/request.job", &record(&text), &text).expect("canonical job");
    assert_eq!(loaded, job());
    let mut open = record(&text);
    open.mode = 0o644;
    assert!(matches!(manager.load_job_record("/x/request.job", &open, &text), Err(LifecycleError::InvalidRecord(p)) if p == "/x/request.job"));
    let padded = format!("{text}\n");
    assert!(matches!(
        manager.load_job_record("/x/request.job", &record(&padded), &padded),
        Err(LifecycleError::InvalidRecord(_)) | Err(LifecycleError::NonCanonicalRecord(_))
    ));
}

fn reclaimer() -> RootCandidateSourceReclaimer {
    let mut paths = CandidateSourceReclaimerPaths::production_default();
    paths.begin_job_root = "/var/lib/theblob/begin".into();
    RootCandidateSourceReclaimer::new(paths, 0)
}

#[test]
fn reclaimer_counts_only_jobs_at_their_canonical_path() {
    let r = reclaimer();
    let text = canonical_begin_job(&job());
    let good = "/var/lib/theblob/begin/queued/request-626567696e2d726571756573743a6f6e65.job";
    assert_eq!(r.begin_job_entry("queued", good, &record(&text), &text), Ok(job()));
    let moved = "/var/lib/theblob/begin/running/request-626567696e2d726571756573743a6f6e65.job";
    assert_eq!(
        r.begin_job_entry("queued", moved, &record(&text), &text),
        Err(CandidateSourceReclaimError::InvalidLayout(moved.into()))
    );
    let stray = "/var/lib/theblob/begin/queued/notes.txt";
    assert_eq!(
        r.begin_job_entry("queued", stray, &record(&text), &text),
        Err(CandidateSourceReclaimError::InvalidLayout(stray.into()))
    );
}

fn retirement(source: &str) -> LifecycleReceipt {
    LifecycleReceipt {
        kind: "candidate-retirement".into(),
        subject_id: "manifest:one".into(),
        occurred_at_unix_ms: 5,
        request_id: String::new(),
        manifest_id: String::new(),
        operation: String::new(),
        evidence: vec![format!("source-retained:{source}")],
    }
}

#[test]
fn reclaim_requires_drained_leases_jobs_and_matching_root() {
    let r = reclaimer();
    let source = "/nix/store/aaaa-theblob-candidate-source";
    let receipt = retirement(source);
    let root = LinkObservation::Target(source.into());
    assert_eq!(
        r.reclaim_decision("manifest:one", 9, true, false, &receipt, 0, 0, None, &root, true),
        Err(CandidateSourceReclaimError::SelectionStillPresent)
    );
    assert_eq!(
        r.reclaim_decision("manifest:one", 9, false, false, &receipt, 1, 0, None, &root, true),
        Err(CandidateSourceReclaimError::ActiveEnqueueLeases(1))
    );
    assert_eq!(
        r.reclaim_decision("manifest:one", 9, false, false, &receipt, 0, 2, None, &root, true),
        Err(CandidateSourceReclaimError::ActiveBeginJobs(2))
    );
    assert_eq!(
        r.reclaim_decision(
            "manifest:one", 9, false, false, &receipt, 0, 0, None,
            &LinkObservation::Target("/nix/store/bbbb-other".into()), true
        ),
        Err(CandidateSourceReclaimError::SourceRootConflict)
    );
    match r.reclaim_decision("manifest:one", 9, false, false, &receipt, 0, 0, None, &root, true) {
        Ok(ReclaimStep::RecordThenRemoveRoot(text)) => {
            let written = parse_lifecycle_receipt(&text).expect("canonical receipt");
            assert_eq!(written.kind, "candidate-source-retirement");
            assert_eq!(written.evidence[0], format!("source:{source}"));
            assert_eq!(
                r.reclaim_decision(
                    "manifest:one", 10, false, false, &receipt, 0, 0, Some(&written),
                    &LinkObservation::Missing, false
                ),
                Ok(ReclaimStep::Done)
            );
        }
        other => panic!("unexpected reclaim decision {other:?}"),
    }
}

#[test]
fn candidate_retirement_receipt_names_its_source_for_the_reclaimer() {
    let candidate = TrustedMaterializationCandidate {
        manifest_id: "manifest:one".into(),
        candidate: "candidate:one".into(),
        system_spec: "system:one".into(),
        immutable_flake_root: "/nix/store/aaaa-source".into(),
        installable_attribute: "nixosConfigurations.x.config.system.build.toplevel".into(),
        provenance: vec![],
    };
    let evidence = candidate_retirement_evidence(&candidate, 2);
    assert_eq!(evidence, vec!["source-retained:/nix/store/aaaa-source".to_string(), "terminal-jobs:2".to_string()]);
    let text = canonical_lifecycle_receipt("candidate-retirement", "manifest:one", 9, Some(&job()), &evidence);
    let receipt = parse_lifecycle_receipt(&text).expect("canonical receipt");
    assert_eq!(
        blob_nixos::candidate_source_reclaimer::retirement_source(&receipt).unwrap(),
        "/nix/store/aaaa-source"
    );
}

#[test]
fn manifest_jobs_are_counted_in_every_state() {
    let mut other = job();
    other.manifest_id = "manifest:two".into();
    let jobs = vec![job(), other, job()];
    assert_eq!(blob_nixos::candidate_source_reclaimer::count_manifest_jobs(&jobs, "manifest:one"), 2);
    assert_eq!(blob_nixos::candidate_source_reclaimer::count_manifest_jobs(&jobs, "manifest:two"), 1);
    assert_eq!(blob_nixos::candidate_source_reclaimer::count_manifest_jobs(&jobs, "manifest:three"), 0);
}

#[test]
fn source_retirement_waits_for_leases() {
    assert!(check_quiescent(0).is_ok());
    assert!(matches!(
        check_quiescent(2),
        Err(CandidateSourceRetirementError::Lease(m)) if m == "2 enqueue leases still held"
    ));
}

fn hex_of(s: &str) -> String {
    s.bytes().map(|b| format!("{b:02x}")).collect()
}

fn no_native_state() -> blob_nixos::lifecycle::NativeState {
    blob_nixos::lifecycle::NativeState {
        pending_intent: false,
        completed_intent: None,
        admission: None,
        derivation_root_present: false,
        closure_root: blob_nixos::lifecycle::LinkObservation::Missing,
    }
}

#[test]
fn cancelled_and_expired_jobs_move_to_failed_with_their_receipt() {
    let mut paths = LifecyclePaths::production_default();
    paths.begin_job_root = "/jobs".into();
    paths.lifecycle_root = "/life".into();
    let manager = RootMaterializationLifecycleManager::new(paths, 0);
    let observed = ObservedBeginJob { state: BeginState::Queued, job: job(), path: "/jobs/queued/x.job".into() };
    let q = manager.cancel_queued(&observed, "begin-request:one", 1000, 20, &no_native_state()).expect("cancel");
    assert_eq!(q.failed_path, format!("/jobs/failed/request-{}.job", hex_of("begin-request:one")));
    assert_eq!(q.receipt_path, format!("/life/receipts/queued-cancel-{}.receipt", hex_of("begin-request:one")));
    let e = manager.expire_queued(&observed, "begin-request:one", 20, 10, &no_native_state()).expect("expire");
    assert_eq!(e.failed_path, q.failed_path);
    assert_eq!(e.receipt_path, format!("/life/receipts/queued-expiry-{}.receipt", hex_of("begin-request:one")));
    let mut native = no_native_state();
    native.derivation_root_present = true;
    assert!(matches!(
        manager.cancel_queued(&observed, "begin-request:one", 1000, 20, &native),
        Err(LifecycleError::UnsafeCancellation(_))
    ));
    assert!(matches!(
        manager.cancel_queued(&observed, "begin-request:one", 7, 20, &no_native_state()),
        Err(LifecycleError::OwnerMismatch)
    ));
}

#[test]
fn production_components_use_every_production_directory() {
    let manager = RootMaterializationLifecycleManager::production_default();
    assert_eq!(*manager.paths(), LifecyclePaths::production_default());
    assert_eq!(manager.paths().intent_root, "/var/lib/theblob/materialization-intents");
    assert_eq!(manager.paths().derivation_gcroot_root, "/nix/var/nix/gcroots/theblob-materializations");
    let reclaimer = blob_nixos::candidate_source_reclaimer::RootCandidateSourceReclaimer::production_default();
    assert_eq!(
        *reclaimer.paths(),
        blob_nixos::candidate_source_reclaimer::CandidateSourceReclaimerPaths::production_default()
    );
    let retirement = blob_nixos::candidate_source_retirement::RootCandidateSourceRetirement::production_default();
    assert_eq!(*retirement.lifecycle_paths(), LifecyclePaths::production_default());
    let finalizer = blob_nixos::lifecycle::RootSafeMaterializationFinalizer::production_default("node:lab");
    assert_eq!(finalizer.boundary.intent_root, "/var/lib/theblob/materialization-intents");
    assert_eq!(finalizer.boundary.candidates.root(), "/var/lib/theblob/materialization-candidates");
    let boundary = blob_nixos::materialization_begin::RootMaterializationBeginBoundary::production_default("node:lab");
    assert_eq!(boundary.admission_root, finalizer.boundary.admission_root);
    assert_eq!(boundary.gcroot_root, "/nix/var/nix/gcroots/theblob-materializations");
}

#[test]
fn only_job_files_are_listed_as_jobs() {
    let listed = vec!["/q/request-61.job".to_string(), "/q/.tmp".to_string(), "/q/request-62.job".to_string(), "/q/job".to_string()];
    assert_eq!(
        blob_nixos::begin_queue::job_entries(listed),
        vec!["/q/request-61.job".to_string(), "/q/request-62.job".to_string()]
    );
}
