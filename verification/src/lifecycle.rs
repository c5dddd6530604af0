//! Conservative lifecycle decisions over materialization state: cancelling or
//! expiring queued work, releasing derivation GC roots, and retiring
//! candidates and terminal jobs. Unknown or ambiguous liveness is retained.
use vstd::prelude::*;
use crate::begin_queue::{
    begin_job_text, canonical_begin_job, parse_begin_job, parse_begin_job_result, BeginJobView,
    MaterializationBeginJob, DEFAULT_BEGIN_JOB_ROOT,
};
use crate::fsmeta::{is_protected_file, protected_file, FileFacts};
use crate::candidate_producer::{DEFAULT_CANDIDATE_RECEIPT_ROOT, DEFAULT_CANDIDATE_SOURCE_GCROOT_ROOT};
use crate::ids::SystemOperationId;
use crate::lines::{
    ascii_lines, field_line, hex_list_lines, lemma_ascii_lines_concat, lemma_hex_list_lines_plain,
    lines_text, plain_ascii, RecordWriter,
};
use crate::materialization_authority::{
    canonical_intent, intent_text, lemma_decimal_line, lemma_hex_line, parse_intent, parse_intent_result,
    MaterializationAuthorityError, MaterializationIntent,
};
use crate::materialization_begin::{
    FileTrustedMaterializationCandidateStore, MaterializationBeginError, DEFAULT_MATERIALIZATION_ADMISSION_ROOT,
    DEFAULT_MATERIALIZATION_INTENT_ROOT, DEFAULT_PENDING_GCROOT_ROOT, DEFAULT_TRUSTED_CANDIDATE_ROOT,
};
use crate::paths::{
    exact_store_path, has_extension, hex_name, is_exact_store_path, join, join_name, path_has_extension,
    path_parts, same_path,
};
use crate::request_publisher::{
    admission_text, canonical_materialization_admission, parse_admission_result,
    parse_materialization_admission, MaterializationAdmission,
};
use crate::request_store::fl;
use crate::text::{ascii_chars, bytes_equal, decimal, hex_of_text, is_ascii_bytes, texts_view, utf8};

verus! {

pub const DEFAULT_ADMITTED_CLOSURE_GCROOT_ROOT: &'static str =
    "/nix/var/nix/gcroots/theblob-admitted-closures";

pub const DEFAULT_MATERIALIZATION_LIFECYCLE_ROOT: &'static str =
    "/var/lib/theblob/materialization-lifecycle";

pub const MAX_LIFECYCLE_RECORD_BYTES: u64 = 262144;

pub const MAX_LIFECYCLE_RECEIPTS: usize = 4096;

#[derive(Debug)]
pub enum LifecycleError {
    InvalidLayout(String),
    InvalidRecord(String),
    NonCanonicalRecord(String),
    StateConflict(String),
    OwnerMismatch,
    UnsafeCancellation(String),
    UnsafeRetirement(String),
    MissingAdmittedClosureRoot(SystemOperationId),
    AdmittedClosureRootConflict(SystemOperationId),
    DerivationGcRootConflict(SystemOperationId),
    ReceiptCapacityExceeded,
    Authority(MaterializationAuthorityError),
    Begin(MaterializationBeginError),
    Io(String),
}

/// What reconciling a derivation GC root did with it.
#[derive(Clone, Copy, Debug, PartialEq, Eq, Structural)]
pub enum DerivationGcRootDisposition {
    Absent,
    RetainedForRecovery,
    ReleasedAfterAdmission,
    ReleasedAfterFailure,
    OrphanRetained,
}

/// The state directory a begin job was found in.
#[derive(Clone, Copy, Debug, PartialEq, Eq, Structural)]
pub enum BeginState {
    Queued,
    Running,
    Completed,
    Failed,
}

pub open spec fn begin_state_name(s: BeginState) -> Seq<char> {
    match s {
        BeginState::Queued => "queued"@,
        BeginState::Running => "running"@,
        BeginState::Completed => "completed"@,
        BeginState::Failed => "failed"@,
    }
}

pub open spec fn is_terminal(s: BeginState) -> bool {
    s == BeginState::Completed || s == BeginState::Failed
}

impl BeginState {
    pub fn name(self) -> (r: &'static str)
        ensures
            r@ == begin_state_name(self),
    {
        match self {
            BeginState::Queued => "queued",
            BeginState::Running => "running",
            BeginState::Completed => "completed",
            BeginState::Failed => "failed",
        }
    }

    pub fn terminal(self) -> (r: bool)
        ensures
            r == is_terminal(self),
    {
        match self {
            BeginState::Completed | BeginState::Failed => true,
            _ => false,
        }
    }
}

/// A begin job as found on disk.
pub struct ObservedBeginJob {
    pub state: BeginState,
    pub job: MaterializationBeginJob,
    pub path: String,
}

/// Whether a record of age `now - created` is at least `minimum` old. A clock
/// that went backwards never makes a record old.
pub fn age_at_least(now: u64, created: u64, minimum: u64) -> (r: bool)
    ensures
        r == (now >= created && now - created >= minimum),
{
    match now.checked_sub(created) {
        Some(age) => age >= minimum,
        None => false,
    }
}

// ---------------------------------------------------------------------------
// Receipts
// ---------------------------------------------------------------------------

pub open spec fn job_field(job: Option<BeginJobView>, which: int) -> Seq<char> {
    match job {
        Some(j) => if which == 0 {
            j.request_id
        } else if which == 1 {
            j.manifest_id
        } else {
            j.operation
        },
        None => ""@,
    }
}

pub open spec fn receipt_head(
    kind: Seq<char>,
    subject: Seq<char>,
    occurred: u64,
    job: Option<BeginJobView>,
    evidence_count: nat,
) -> Seq<Seq<u8>> {
    seq![
        utf8("theblob-materialization-lifecycle-receipt-v1"@),
        fl("kind"@, hex_of_text(kind)),
        fl("subject-id"@, hex_of_text(subject)),
        fl("occurred-at-unix-ms"@, decimal(occurred as nat)),
        fl("request-id"@, hex_of_text(job_field(job, 0))),
        fl("manifest-id"@, hex_of_text(job_field(job, 1))),
        fl("operation"@, hex_of_text(job_field(job, 2))),
        fl("evidence-count"@, decimal(evidence_count)),
    ]
}

/// The lines of a lifecycle receipt.
pub open spec fn receipt_lines(
    kind: Seq<char>,
    subject: Seq<char>,
    occurred: u64,
    job: Option<BeginJobView>,
    evidence: Seq<Seq<char>>,
) -> Seq<Seq<u8>> {
    receipt_head(kind, subject, occurred, job, evidence.len()) + hex_list_lines(
        utf8("evidence-"@),
        evidence,
    )
}

pub open spec fn opt_job(job: Option<&MaterializationBeginJob>) -> Option<BeginJobView> {
    match job {
        Some(j) => Some(j@),
        None => None,
    }
}

pub proof fn lemma_receipt_lines_ascii(
    kind: Seq<char>,
    subject: Seq<char>,
    occurred: u64,
    job: Option<BeginJobView>,
    evidence: Seq<Seq<char>>,
)
    ensures
        ascii_lines(receipt_lines(kind, subject, occurred, job, evidence)),
{
    reveal_strlit("theblob-materialization-lifecycle-receipt-v1");
    reveal_strlit("kind");
    reveal_strlit("subject-id");
    reveal_strlit("occurred-at-unix-ms");
    reveal_strlit("request-id");
    reveal_strlit("manifest-id");
    reveal_strlit("operation");
    reveal_strlit("evidence-count");
    reveal_strlit("evidence-");
    crate::lines::lemma_plain_ascii_bytes("theblob-materialization-lifecycle-receipt-v1"@);
    lemma_hex_line("kind"@, kind);
    lemma_hex_line("subject-id"@, subject);
    lemma_decimal_line("occurred-at-unix-ms"@, occurred as nat);
    lemma_hex_line("request-id"@, job_field(job, 0));
    lemma_hex_line("manifest-id"@, job_field(job, 1));
    lemma_hex_line("operation"@, job_field(job, 2));
    lemma_decimal_line("evidence-count"@, evidence.len());
    lemma_hex_list_lines_plain("evidence-"@, evidence);
    let h = receipt_head(kind, subject, occurred, job, evidence.len());
    assert(ascii_lines(h));
    lemma_ascii_lines_concat(h, hex_list_lines(utf8("evidence-"@), evidence));
}

/// The canonical text of a lifecycle receipt: identifiers only as hexadecimal.
pub fn canonical_lifecycle_receipt(
    kind: &str,
    subject_id: &str,
    occurred_at_unix_ms: u64,
    job: Option<&MaterializationBeginJob>,
    evidence: &Vec<String>,
) -> (r: String)
    ensures
        utf8(r@) == lines_text(
            receipt_lines(kind@, subject_id@, occurred_at_unix_ms, opt_job(job), texts_view(evidence@)),
        ),
        r@ == ascii_chars(
            lines_text(
                receipt_lines(
                    kind@,
                    subject_id@,
                    occurred_at_unix_ms,
                    opt_job(job),
                    texts_view(evidence@),
                ),
            ),
        ),
{
    let mut w = RecordWriter::new();
    w.literal("theblob-materialization-lifecycle-receipt-v1");
    w.hex_field("kind".as_bytes(), kind);
    w.hex_field("subject-id".as_bytes(), subject_id);
    w.decimal_field("occurred-at-unix-ms".as_bytes(), occurred_at_unix_ms);
    match job {
        Some(j) => {
            w.hex_field("request-id".as_bytes(), j.request_id.as_str());
            w.hex_field("manifest-id".as_bytes(), j.manifest_id.as_str());
            w.hex_field("operation".as_bytes(), j.operation.as_str());
        },
        None => {
            w.hex_field("request-id".as_bytes(), "");
            w.hex_field("manifest-id".as_bytes(), "");
            w.hex_field("operation".as_bytes(), "");
        },
    }
    w.decimal_field("evidence-count".as_bytes(), evidence.len() as u64);
    let ghost h = receipt_head(
        kind@,
        subject_id@,
        occurred_at_unix_ms,
        opt_job(job),
        texts_view(evidence@).len(),
    );
    assert(w.lines() =~= h);
    w.hex_list("evidence-", evidence);
    proof {
        lemma_receipt_lines_ascii(
            kind@,
            subject_id@,
            occurred_at_unix_ms,
            opt_job(job),
            texts_view(evidence@),
        );
    }
    w.finish()
}

/// Whether a receipt already on disk is one for `kind` and `subject`.
pub open spec fn receipt_prefix(kind: Seq<char>, subject: Seq<char>) -> Seq<char> {
    "theblob-materialization-lifecycle-receipt-v1\nkind="@ + ascii_chars(hex_of_text(kind))
        + "\nsubject-id="@ + ascii_chars(hex_of_text(subject)) + "\n"@
}

/// `require_receipt`'s check on the text of an existing receipt: it must
/// start with the receipt header, kind and subject lines.
pub fn check_receipt_prefix(text: &str, kind: &str, subject_id: &str) -> (r: Result<(), LifecycleError>)
    ensures
        r is Ok <==> crate::text::has_prefix(utf8(text@), utf8(receipt_prefix(kind@, subject_id@))),
        r matches Err(e) ==> e is NonCanonicalRecord,
{
    let hk = crate::text::hex_text(kind);
    let hs = crate::text::hex_text(subject_id);
    let prefix = "theblob-materialization-lifecycle-receipt-v1\nkind=".to_owned().concat(
        hk.as_str(),
    ).concat("\nsubject-id=").concat(hs.as_str()).concat("\n");
    assert(prefix@ == receipt_prefix(kind@, subject_id@));
    if crate::text::starts_with(text.as_bytes(), prefix.as_str().as_bytes()) {
        Ok(())
    } else {
        Err(LifecycleError::NonCanonicalRecord(text.to_owned()))
    }
}

// ---------------------------------------------------------------------------
// Layout
// ---------------------------------------------------------------------------

/// Every root the lifecycle manager reads or changes.
#[derive(Clone, Debug, PartialEq, Eq)]
pub struct LifecyclePaths {
    pub begin_job_root: String,
    pub candidate_root: String,
    pub candidate_receipt_root: String,
    pub candidate_source_gcroot_root: String,
    pub intent_root: String,
    pub admission_root: String,
    pub derivation_gcroot_root: String,
    pub admitted_closure_gcroot_root: String,
    pub lifecycle_root: String,
}

/// The production directories of the materialization lifecycle.
pub open spec fn production_lifecycle_paths(p: LifecyclePaths) -> bool {
    &&& p.begin_job_root@ == DEFAULT_BEGIN_JOB_ROOT@
    &&& p.candidate_root@ == DEFAULT_TRUSTED_CANDIDATE_ROOT@
    &&& p.candidate_receipt_root@ == DEFAULT_CANDIDATE_RECEIPT_ROOT@
    &&& p.candidate_source_gcroot_root@ == DEFAULT_CANDIDATE_SOURCE_GCROOT_ROOT@
    &&& p.intent_root@ == DEFAULT_MATERIALIZATION_INTENT_ROOT@
    &&& p.admission_root@ == DEFAULT_MATERIALIZATION_ADMISSION_ROOT@
    &&& p.derivation_gcroot_root@ == DEFAULT_PENDING_GCROOT_ROOT@
    &&& p.admitted_closure_gcroot_root@ == DEFAULT_ADMITTED_CLOSURE_GCROOT_ROOT@
    &&& p.lifecycle_root@ == DEFAULT_MATERIALIZATION_LIFECYCLE_ROOT@
}

impl LifecyclePaths {
    pub fn production_default() -> (r: Self)
        ensures
            production_lifecycle_paths(r),
    {
        LifecyclePaths {
            begin_job_root: DEFAULT_BEGIN_JOB_ROOT.to_owned(),
            candidate_root: DEFAULT_TRUSTED_CANDIDATE_ROOT.to_owned(),
            candidate_receipt_root: DEFAULT_CANDIDATE_RECEIPT_ROOT.to_owned(),
            candidate_source_gcroot_root: DEFAULT_CANDIDATE_SOURCE_GCROOT_ROOT.to_owned(),
            intent_root: DEFAULT_MATERIALIZATION_INTENT_ROOT.to_owned(),
            admission_root: DEFAULT_MATERIALIZATION_ADMISSION_ROOT.to_owned(),
            derivation_gcroot_root: DEFAULT_PENDING_GCROOT_ROOT.to_owned(),
            admitted_closure_gcroot_root: DEFAULT_ADMITTED_CLOSURE_GCROOT_ROOT.to_owned(),
            lifecycle_root: DEFAULT_MATERIALIZATION_LIFECYCLE_ROOT.to_owned(),
        }
    }
}

/// `<base>/<prefix><hex of value><suffix>`.
pub open spec fn hex_entry(base: Seq<char>, prefix: Seq<char>, value: Seq<char>, suffix: Seq<char>) -> Seq<u8> {
    join(utf8(base), utf8(prefix) + hex_of_text(value) + utf8(suffix))
}

pub(crate) fn hex_entry_path(base: &str, prefix: &str, value: &str, suffix: &str) -> (r: String)
    ensures
        utf8(r@) == hex_entry(base@, prefix@, value@, suffix@),
{
    let name = hex_name(prefix, value, suffix);
    join_name(base, name.as_slice())
}

pub(crate) fn child(base: &str, name: &str) -> (r: String)
    ensures
        utf8(r@) == join(utf8(base@), utf8(name@)),
{
    proof {
        vstd::utf8::encode_utf8_valid_utf8(name@);
    }
    join_name(base, name.as_bytes())
}

/// How a GC root path was found: absent, something other than a symlink, or
/// a symlink and its target.
pub enum LinkObservation {
    Missing,
    NotSymlink,
    Target(String),
}

/// A symlink whose target names the same path as `expected`.
pub open spec fn link_points_to(link: LinkObservation, expected: Seq<char>) -> bool {
    link matches LinkObservation::Target(t) && path_parts(utf8(t@)) == path_parts(utf8(expected))
}

/// The symlink must exist and point exactly at `expected`.
pub fn require_link_target(
    link: &LinkObservation,
    expected: &str,
    missing: LifecycleError,
    conflict: LifecycleError,
) -> (r: Result<(), LifecycleError>)
    ensures
        link is Missing ==> r == Err::<(), LifecycleError>(missing),
        !(link is Missing) && !link_points_to(*link, expected@) ==> r == Err::<(), LifecycleError>(
            conflict,
        ),
        link_points_to(*link, expected@) ==> r is Ok,
{
    match link {
        LinkObservation::Missing => Err(missing),
        LinkObservation::NotSymlink => Err(conflict),
        LinkObservation::Target(t) => if same_path(t.as_str().as_bytes(), expected.as_bytes()) {
            Ok(())
        } else {
            Err(conflict)
        },
    }
}

/// An exact store path that is a derivation.
pub open spec fn exact_derivation(p: Seq<char>) -> bool {
    is_exact_store_path(utf8(p)) && has_extension(utf8(p), utf8("drv"@))
}

/// An exact store path that is not a derivation.
pub open spec fn exact_output(p: Seq<char>) -> bool {
    is_exact_store_path(utf8(p)) && !has_extension(utf8(p), utf8("drv"@))
}

fn is_drv(path: &str) -> (r: bool)
    ensures
        r == has_extension(utf8(path@), utf8("drv"@)),
{
    let dot_drv: [u8; 4] = [46, 100, 114, 118];
    proof {
        reveal_strlit("drv");
        vstd::utf8::is_ascii_chars_encode_utf8("drv"@);
        assert(utf8("drv"@) =~= seq![100u8, 114u8, 118u8]) by {
            let e = utf8("drv"@);
            assert(e[0] == "drv"@[0] as u8);
            assert(e[1] == "drv"@[1] as u8);
            assert(e[2] == "drv"@[2] as u8);
        }
        assert(dot_drv@.skip(1) =~= utf8("drv"@));
    }
    path_has_extension(path.as_bytes(), dot_drv.as_slice())
}

/// A derivation GC root must point at an exact `.drv` store path.
pub fn validate_exact_derivation(path: &str) -> (r: Result<(), LifecycleError>)
    ensures
        r is Ok <==> exact_derivation(path@),
        r matches Err(e) ==> e is InvalidRecord,
{
    if exact_store_path(path.as_bytes()) && is_drv(path) {
        Ok(())
    } else {
        Err(LifecycleError::InvalidRecord(path.to_owned()))
    }
}

/// A closure to retain must be an exact store path that is not a derivation.
pub fn validate_exact_store_output(path: &str) -> (r: Result<(), LifecycleError>)
    ensures
        r is Ok <==> exact_output(path@),
        r matches Err(e) ==> e is InvalidRecord,
{
    if exact_store_path(path.as_bytes()) && !is_drv(path) {
        Ok(())
    } else {
        Err(LifecycleError::InvalidRecord(path.to_owned()))
    }
}

/// Which intent directory.
#[derive(Clone, Copy, Debug, PartialEq, Eq, Structural)]
pub enum IntentState {
    Pending,
    Completed,
}

pub open spec fn intent_state_name(s: IntentState) -> Seq<char> {
    match s {
        IntentState::Pending => "pending"@,
        IntentState::Completed => "completed"@,
    }
}

/// A queued job to move to `failed`, once the receipt that explains why exists.
pub struct QueuedRetirement {
    pub receipt_path: String,
    pub receipt_text: String,
    pub failed_path: String,
}

/// Conservative lifecycle decisions; unknown or ambiguous liveness is retained.
pub struct RootMaterializationLifecycleManager {
    paths: LifecyclePaths,
    candidates: FileTrustedMaterializationCandidateStore,
    expected_owner_uid: u32,
}

impl RootMaterializationLifecycleManager {
    pub closed spec fn paths_spec(&self) -> LifecyclePaths {
        self.paths
    }

    pub closed spec fn owner(&self) -> u32 {
        self.expected_owner_uid
    }

    pub fn production_default() -> (r: Self)
        ensures
            production_lifecycle_paths(r.paths_spec()),
            r.owner() == 0,
    {
        Self::new(LifecyclePaths::production_default(), 0)
    }

    pub fn new(paths: LifecyclePaths, expected_owner_uid: u32) -> (r: Self)
        ensures
            r.paths_spec() == paths,
            r.owner() == expected_owner_uid,
    {
        let candidates = FileTrustedMaterializationCandidateStore::new(
            paths.candidate_root.as_str(),
            expected_owner_uid,
        );
        RootMaterializationLifecycleManager { paths, candidates, expected_owner_uid }
    }

    pub fn paths(&self) -> (r: &LifecyclePaths)
        ensures
            *r == self.paths_spec(),
    {
        &self.paths
    }

    /// `<lifecycle root>/receipts`.
    pub fn receipt_root(&self) -> (r: String)
        ensures
            utf8(r@) == join(utf8(self.paths_spec().lifecycle_root@), utf8("receipts"@)),
    {
        child(self.paths.lifecycle_root.as_str(), "receipts")
    }

    /// `<receipts>/<kind>-<hex of subject>.receipt`.
    pub fn receipt_path(&self, kind: &str, subject_id: &str) -> (r: String)
        ensures
            utf8(r@) == join(
                join(utf8(self.paths_spec().lifecycle_root@), utf8("receipts"@)),
                utf8(kind@ + "-"@) + hex_of_text(subject_id@) + utf8(".receipt"@),
            ),
    {
        let root = self.receipt_root();
        let prefix = kind.to_owned().concat("-");
        let name = hex_name(prefix.as_str(), subject_id, ".receipt");
        join_name(root.as_str(), name.as_slice())
    }

    /// `<begin jobs>/<state>/request-<hex>.job`.
    pub fn job_path(&self, state: BeginState, request_id: &str) -> (r: String)
        ensures
            utf8(r@) == hex_entry(
                decoded_text(join(utf8(self.paths_spec().begin_job_root@), utf8(begin_state_name(state)))),
                "request-"@,
                request_id@,
                ".job"@,
            ),
    {
        let dir = child(self.paths.begin_job_root.as_str(), state.name());
        proof {
            crate::text::lemma_utf8_round_trip(dir@);
        }
        hex_entry_path(dir.as_str(), "request-", request_id, ".job")
    }

    /// `<intents>/<pending|completed>/operation-<hex>.intent`.
    pub fn intent_path(&self, state: IntentState, operation: &str) -> (r: String)
        ensures
            utf8(r@) == hex_entry(
                decoded_text(join(utf8(self.paths_spec().intent_root@), utf8(intent_state_name(state)))),
                "operation-"@,
                operation@,
                ".intent"@,
            ),
    {
        let name = match state {
            IntentState::Pending => "pending",
            IntentState::Completed => "completed",
        };
        let dir = child(self.paths.intent_root.as_str(), name);
        proof {
            crate::text::lemma_utf8_round_trip(dir@);
        }
        hex_entry_path(dir.as_str(), "operation-", operation, ".intent")
    }

    /// `<admissions>/operation-<hex>.admission`.
    pub fn admission_path(&self, operation: &str) -> (r: String)
        ensures
            utf8(r@) == hex_entry(self.paths_spec().admission_root@, "operation-"@, operation@, ".admission"@),
    {
        hex_entry_path(self.paths.admission_root.as_str(), "operation-", operation, ".admission")
    }

    /// `<derivation roots>/operation-<hex>-derivation`.
    pub fn derivation_gcroot_path(&self, operation: &str) -> (r: String)
        ensures
            utf8(r@) == hex_entry(
                self.paths_spec().derivation_gcroot_root@,
                "operation-"@,
                operation@,
                "-derivation"@,
            ),
    {
        hex_entry_path(self.paths.derivation_gcroot_root.as_str(), "operation-", operation, "-derivation")
    }

    /// `<closure roots>/operation-<hex>-closure`.
    pub fn admitted_closure_gcroot_path(&self, operation: &str) -> (r: String)
        ensures
            utf8(r@) == hex_entry(
                self.paths_spec().admitted_closure_gcroot_root@,
                "operation-"@,
                operation@,
                "-closure"@,
            ),
    {
        hex_entry_path(
            self.paths.admitted_closure_gcroot_root.as_str(),
            "operation-",
            operation,
            "-closure",
        )
    }

    /// `<candidates>/manifest-<hex>.candidate`.
    pub fn candidate_manifest_path(&self, manifest_id: &str) -> (r: String)
        ensures
            utf8(r@) == hex_entry(self.paths_spec().candidate_root@, "manifest-"@, manifest_id@, ".candidate"@),
    {
        hex_entry_path(self.paths.candidate_root.as_str(), "manifest-", manifest_id, ".candidate")
    }

    /// `<candidate receipts>/manifest-<hex>.receipt`.
    pub fn candidate_producer_receipt_path(&self, manifest_id: &str) -> (r: String)
        ensures
            utf8(r@) == hex_entry(
                self.paths_spec().candidate_receipt_root@,
                "manifest-"@,
                manifest_id@,
                ".receipt"@,
            ),
    {
        hex_entry_path(self.paths.candidate_receipt_root.as_str(), "manifest-", manifest_id, ".receipt")
    }

    /// `<source roots>/manifest-<hex>-source`.
    pub fn candidate_source_gcroot_path(&self, manifest_id: &str) -> (r: String)
        ensures
            utf8(r@) == hex_entry(
                self.paths_spec().candidate_source_gcroot_root@,
                "manifest-"@,
                manifest_id@,
                "-source"@,
            ),
    {
        hex_entry_path(
            self.paths.candidate_source_gcroot_root.as_str(),
            "manifest-",
            manifest_id,
            "-source",
        )
    }
}

/// The indices of the observed jobs whose operation is `operation`.
pub open spec fn jobs_with_operation(jobs: Seq<ObservedBeginJob>, operation: Seq<char>) -> Seq<int>
    decreases jobs.len(),
{
    if jobs.len() == 0 {
        Seq::<int>::empty()
    } else {
        let init = jobs_with_operation(jobs.drop_last(), operation);
        if jobs.last().job.operation@ == operation {
            init.push(jobs.len() - 1)
        } else {
            init
        }
    }
}

/// The indices of the observed jobs for the manifest `manifest_id`.
pub open spec fn jobs_with_manifest(jobs: Seq<ObservedBeginJob>, manifest_id: Seq<char>) -> Seq<int>
    decreases jobs.len(),
{
    if jobs.len() == 0 {
        Seq::<int>::empty()
    } else {
        let init = jobs_with_manifest(jobs.drop_last(), manifest_id);
        if jobs.last().job.manifest_id@ == manifest_id {
            init.push(jobs.len() - 1)
        } else {
            init
        }
    }
}

/// The one begin job of an operation among all observed jobs: none is an
/// answer, two are a conflict.
pub fn job_for_operation(jobs: &Vec<ObservedBeginJob>, operation: &str) -> (r: Result<
    Option<usize>,
    LifecycleError,
>)
    ensures
        jobs_with_operation(jobs@, operation@).len() == 0 ==> r == Ok::<Option<usize>, LifecycleError>(
            None,
        ),
        jobs_with_operation(jobs@, operation@).len() == 1 ==> (r matches Ok(Some(i)) && i
            == jobs_with_operation(jobs@, operation@)[0]),
        jobs_with_operation(jobs@, operation@).len() > 1 ==> r matches Err(
            LifecycleError::StateConflict(_),
        ),
{
    let mut found: Option<usize> = None;
    let mut i: usize = 0;
    while i < jobs.len()
        invariant
            i <= jobs@.len(),
            jobs_with_operation(jobs@.take(i as int), operation@).len() <= 1,
            match found {
                None => jobs_with_operation(jobs@.take(i as int), operation@).len() == 0,
                Some(k) => jobs_with_operation(jobs@.take(i as int), operation@) == seq![k as int],
            },
        decreases jobs.len() - i,
    {
        proof {
            assert(jobs@.take(i + 1).drop_last() =~= jobs@.take(i as int));
        }
        if crate::text::str_eq(jobs[i].job.operation.as_str(), operation) {
            if found.is_some() {
                proof {
                    lemma_jobs_with_operation_prefix(jobs@, operation@, i + 1);
                }
                return Err(LifecycleError::StateConflict(operation.to_owned()));
            }
            found = Some(i);
        }
        i = i + 1;
    }
    assert(jobs@.take(jobs@.len() as int) =~= jobs@);
    Ok(found)
}

/// Matches found in a prefix are matches of the whole list.
proof fn lemma_jobs_with_operation_prefix(jobs: Seq<ObservedBeginJob>, operation: Seq<char>, n: int)
    requires
        0 <= n <= jobs.len(),
    ensures
        jobs_with_operation(jobs, operation).len() >= jobs_with_operation(jobs.take(n), operation).len(),
    decreases jobs.len() - n,
{
    if n < jobs.len() {
        lemma_jobs_with_operation_prefix(jobs, operation, n + 1);
        assert(jobs.take(n + 1).drop_last() =~= jobs.take(n));
    } else {
        assert(jobs.take(n) =~= jobs);
    }
}

/// The positions of the observed jobs that belong to a manifest, in order.
pub fn jobs_for_manifest(jobs: &Vec<ObservedBeginJob>, manifest_id: &str) -> (r: Vec<usize>)
    ensures
        r@.map_values(|i: usize| i as int) == jobs_with_manifest(jobs@, manifest_id@),
{
    let mut out: Vec<usize> = Vec::new();
    let mut i: usize = 0;
    while i < jobs.len()
        invariant
            i <= jobs@.len(),
            out@.map_values(|k: usize| k as int) == jobs_with_manifest(jobs@.take(i as int), manifest_id@),
        decreases jobs.len() - i,
    {
        proof {
            assert(jobs@.take(i + 1).drop_last() =~= jobs@.take(i as int));
        }
        let ghost before = out@;
        if crate::text::str_eq(jobs[i].job.manifest_id.as_str(), manifest_id) {
            out.push(i);
            assert(out@.map_values(|k: usize| k as int) =~= before.map_values(|k: usize| k as int).push(
                i as int,
            ));
        }
        i = i + 1;
    }
    assert(jobs@.take(jobs@.len() as int) =~= jobs@);
    out
}

/// The job of a request, from the jobs found at its path in each state
/// directory: each must be that request's job, and exactly one may exist.
pub fn job_for_request(found: &Vec<ObservedBeginJob>, request_id: &str) -> (r: Result<
    usize,
    LifecycleError,
>)
    ensures
        (found@.len() > 1 || exists|i: int|
            0 <= i < found@.len() && (#[trigger] found@[i]).job.request_id@ != request_id@) ==> (r matches Err(
            LifecycleError::StateConflict(m),
        ) && m@ == request_id@),
        found@.len() == 0 ==> r matches Err(LifecycleError::InvalidRecord(_)),
        (found@.len() == 1 && found@[0].job.request_id@ == request_id@) ==> r == Ok::<
            usize,
            LifecycleError,
        >(0),
{
    let mut i: usize = 0;
    while i < found.len()
        invariant
            i <= found@.len(),
            forall|k: int| 0 <= k < i ==> (#[trigger] found@[k]).job.request_id@ == request_id@,
        decreases found.len() - i,
    {
        if !crate::text::str_eq(found[i].job.request_id.as_str(), request_id) {
            return Err(LifecycleError::StateConflict(request_id.to_owned()));
        }
        i = i + 1;
    }
    if found.len() > 1 {
        return Err(LifecycleError::StateConflict(request_id.to_owned()));
    }
    if found.len() == 0 {
        return Err(LifecycleError::InvalidRecord("unknown request".to_owned()));
    }
    Ok(0)
}

impl RootMaterializationLifecycleManager {
    pub fn expected_owner_uid(&self) -> (r: u32)
        ensures
            r == self.owner(),
    {
        self.expected_owner_uid
    }

    /// A record the manager reads must be a closed, root-owned, bounded file.
    pub fn check_record_file(&self, path: &str, facts: &FileFacts) -> (r: Result<(), LifecycleError>)
        ensures
            r is Ok <==> protected_file(*facts, self.owner()) && facts.len <= MAX_LIFECYCLE_RECORD_BYTES,
            r matches Err(e) ==> (e matches LifecycleError::InvalidRecord(m) && m@ == path@),
    {
        if !is_protected_file(facts, self.expected_owner_uid) || facts.len > MAX_LIFECYCLE_RECORD_BYTES {
            return Err(LifecycleError::InvalidRecord(path.to_owned()));
        }
        Ok(())
    }

    /// The checks `load_job_path` makes on a begin job record: a closed,
    /// root-owned, bounded file holding a canonical job.
    pub fn load_job_record(&self, path: &str, facts: &FileFacts, text: &str) -> (r: Result<
        MaterializationBeginJob,
        LifecycleError,
    >)
        ensures
            !(protected_file(*facts, self.owner()) && facts.len <= MAX_LIFECYCLE_RECORD_BYTES) ==> (r matches Err(
                LifecycleError::InvalidRecord(m),
            ) && m@ == path@),
            (protected_file(*facts, self.owner()) && facts.len <= MAX_LIFECYCLE_RECORD_BYTES)
                ==> match parse_begin_job_result(utf8(text@)) {
                Err(_) => r matches Err(LifecycleError::InvalidRecord(_)),
                Ok(v) => if begin_job_text(v) != utf8(text@) {
                    r matches Err(LifecycleError::NonCanonicalRecord(m)) && m@ == path@
                } else {
                    r matches Ok(j) && j@ == v
                },
            },
    {
        if !is_protected_file(facts, self.expected_owner_uid) || facts.len > MAX_LIFECYCLE_RECORD_BYTES {
            return Err(LifecycleError::InvalidRecord(path.to_owned()));
        }
        let job = match parse_begin_job(text) {
            Ok(j) => j,
            Err(_) => {
                return Err(LifecycleError::InvalidRecord("invalid begin job".to_owned()));
            },
        };
        let canonical = canonical_begin_job(&job);
        if !bytes_equal(canonical.as_str().as_bytes(), text.as_bytes()) {
            return Err(LifecycleError::NonCanonicalRecord(path.to_owned()));
        }
        Ok(job)
    }

    /// The checks `load_intent` makes on an intent record of `operation`.
    pub fn load_intent_record(&self, path: &str, operation: &str, facts: &FileFacts, text: &str) -> (r: Result<
        MaterializationIntent,
        LifecycleError,
    >)
        ensures
            !(protected_file(*facts, self.owner()) && facts.len <= MAX_LIFECYCLE_RECORD_BYTES) ==> (r matches Err(
                LifecycleError::InvalidRecord(m),
            ) && m@ == path@),
            (protected_file(*facts, self.owner()) && facts.len <= MAX_LIFECYCLE_RECORD_BYTES)
                ==> match parse_intent_result(utf8(text@)) {
                Err(e) => r matches Err(LifecycleError::Authority(f)) && f == e,
                Ok(v) => if v.materialization_operation != operation@ || intent_text(v) != utf8(text@) {
                    r matches Err(LifecycleError::NonCanonicalRecord(m)) && m@ == path@
                } else {
                    r matches Ok(i) && i@ == v
                },
            },
    {
        if !is_protected_file(facts, self.expected_owner_uid) || facts.len > MAX_LIFECYCLE_RECORD_BYTES {
            return Err(LifecycleError::InvalidRecord(path.to_owned()));
        }
        let intent = match parse_intent(text) {
            Ok(i) => i,
            Err(e) => {
                return Err(LifecycleError::Authority(e));
            },
        };
        let canonical = canonical_intent(&intent);
        if !crate::text::str_eq(intent.materialization_operation.as_str(), operation) || !bytes_equal(
            canonical.as_str().as_bytes(),
            text.as_bytes(),
        ) {
            return Err(LifecycleError::NonCanonicalRecord(path.to_owned()));
        }
        Ok(intent)
    }

    /// The checks `load_admission` makes on the admission record of `operation`.
    pub fn load_admission_record(&self, path: &str, operation: &str, facts: &FileFacts, text: &str) -> (r: Result<
        MaterializationAdmission,
        LifecycleError,
    >)
        ensures
            !(protected_file(*facts, self.owner()) && facts.len <= MAX_LIFECYCLE_RECORD_BYTES) ==> (r matches Err(
                LifecycleError::InvalidRecord(m),
            ) && m@ == path@),
            (protected_file(*facts, self.owner()) && facts.len <= MAX_LIFECYCLE_RECORD_BYTES)
                ==> match parse_admission_result(utf8(text@)) {
                Err(_) => r matches Err(LifecycleError::InvalidRecord(_)),
                Ok(v) => if v.materialization_operation != operation@ || admission_text(v) != utf8(
                    text@,
                ) {
                    r matches Err(LifecycleError::NonCanonicalRecord(m)) && m@ == path@
                } else {
                    r matches Ok(a) && a@ == v
                },
            },
    {
        if !is_protected_file(facts, self.expected_owner_uid) || facts.len > MAX_LIFECYCLE_RECORD_BYTES {
            return Err(LifecycleError::InvalidRecord(path.to_owned()));
        }
        let admission = match parse_materialization_admission(text) {
            Ok(a) => a,
            Err(_) => {
                return Err(LifecycleError::InvalidRecord("invalid admission".to_owned()));
            },
        };
        let canonical = canonical_materialization_admission(&admission);
        if !crate::text::str_eq(admission.materialization_operation.as_str(), operation) || !bytes_equal(
            canonical.as_str().as_bytes(),
            text.as_bytes(),
        ) {
            return Err(LifecycleError::NonCanonicalRecord(path.to_owned()));
        }
        Ok(admission)
    }
}

/// Whether an operation left any native durable state: an intent, an
/// admission or a derivation GC root.
pub open spec fn has_native_state(n: NativeState) -> bool {
    n.pending_intent || n.completed_intent is Some || n.admission is Some || n.derivation_root_present
}

/// Where a queued retirement writes its receipt (`receipts/<kind>-<hex>.receipt`)
/// and where the job moves (`failed/request-<hex>.job`).
pub open spec fn queued_retirement_paths(
    paths: LifecyclePaths,
    q: QueuedRetirement,
    kind: Seq<char>,
    subject_id: Seq<char>,
    job_request_id: Seq<char>,
) -> bool {
    &&& utf8(q.receipt_path@) == join(
        join(utf8(paths.lifecycle_root@), utf8("receipts"@)),
        utf8(kind + "-"@) + hex_of_text(subject_id) + utf8(".receipt"@),
    )
    &&& utf8(q.failed_path@) == hex_entry(
        decoded_text(join(utf8(paths.begin_job_root@), utf8(begin_state_name(BeginState::Failed)))),
        "request-"@,
        job_request_id,
        ".job"@,
    )
}

/// The text whose UTF-8 bytes are `b`.
pub open spec fn decoded_text(b: Seq<u8>) -> Seq<char> {
    vstd::utf8::decode_utf8(b)
}

impl RootMaterializationLifecycleManager {
    fn queued_retirement(
        &self,
        observed: &ObservedBeginJob,
        kind: &str,
        request_id: &str,
        now_unix_ms: u64,
        decision: &str,
    ) -> (r: QueuedRetirement)
        ensures
            r.receipt_text@ == ascii_chars(
                lines_text(
                    receipt_lines(
                        kind@,
                        request_id@,
                        now_unix_ms,
                        Some(observed.job@),
                        seq![decision@],
                    ),
                ),
            ),
            queued_retirement_paths(self.paths_spec(), r, kind@, request_id@, observed.job.request_id@),
    {
        let mut evidence: Vec<String> = Vec::new();
        evidence.push(decision.to_owned());
        assert(texts_view(evidence@) =~= seq![decision@]);
        let receipt_text = canonical_lifecycle_receipt(
            kind,
            request_id,
            now_unix_ms,
            Some(&observed.job),
            &evidence,
        );
        QueuedRetirement {
            receipt_path: self.receipt_path(kind, request_id),
            receipt_text,
            failed_path: self.job_path(BeginState::Failed, observed.job.request_id.as_str()),
        }
    }

    /// Cancels a queued request of its own requester before a worker claims it:
    /// only a queued job of that requester, and only while its operation has no
    /// native durable state (`has_native_state`). The result says which receipt to
    /// write and where the job moves.
    pub fn cancel_queued(
        &self,
        observed: &ObservedBeginJob,
        request_id: &str,
        requester_uid: u32,
        now_unix_ms: u64,
        native: &NativeState,
    ) -> (r: Result<QueuedRetirement, LifecycleError>)
        ensures
            observed.job.requester_uid != requester_uid ==> r matches Err(
                LifecycleError::OwnerMismatch,
            ),
            observed.job.requester_uid == requester_uid && (observed.state != BeginState::Queued
                || has_native_state(*native)) ==> r matches Err(LifecycleError::UnsafeCancellation(_)),
            observed.job.requester_uid == requester_uid && observed.state == BeginState::Queued
                && !has_native_state(*native) ==> (r matches Ok(q) && q.receipt_text@ == ascii_chars(
                lines_text(
                    receipt_lines(
                        "queued-cancel"@,
                        request_id@,
                        now_unix_ms,
                        Some(observed.job@),
                        seq!["decision:cancel-before-worker-claim"@],
                    ),
                ),
            ) && queued_retirement_paths(
                self.paths_spec(),
                q,
                "queued-cancel"@,
                request_id@,
                observed.job.request_id@,
            )),
    {
        if observed.job.requester_uid != requester_uid {
            return Err(LifecycleError::OwnerMismatch);
        }
        if observed.state != BeginState::Queued {
            return Err(LifecycleError::UnsafeCancellation(request_id.to_owned().concat(" is not queued")));
        }
        if native.pending_intent || native.completed_intent.is_some() || native.admission.is_some()
            || native.derivation_root_present {
            return Err(
                LifecycleError::UnsafeCancellation(
                    request_id.to_owned().concat(" already has native durable state"),
                ),
            );
        }
        Ok(
            self.queued_retirement(
                observed,
                "queued-cancel",
                request_id,
                now_unix_ms,
                "decision:cancel-before-worker-claim",
            ),
        )
    }

    /// Expires a queued request that has waited at least `stale_after_ms`,
    /// under the same conditions as a cancellation.
    pub fn expire_queued(
        &self,
        observed: &ObservedBeginJob,
        request_id: &str,
        now_unix_ms: u64,
        stale_after_ms: u64,
        native: &NativeState,
    ) -> (r: Result<QueuedRetirement, LifecycleError>)
        ensures
            (observed.state != BeginState::Queued || !(now_unix_ms >= observed.job.enqueued_at_unix_ms
                && now_unix_ms - observed.job.enqueued_at_unix_ms >= stale_after_ms) || has_native_state(*native))
                ==> r matches Err(LifecycleError::UnsafeCancellation(_)),
            (observed.state == BeginState::Queued && now_unix_ms >= observed.job.enqueued_at_unix_ms
                && now_unix_ms - observed.job.enqueued_at_unix_ms >= stale_after_ms && !has_native_state(*native))
                ==> (r matches Ok(q) && q.receipt_text@ == ascii_chars(
                lines_text(
                    receipt_lines(
                        "queued-expiry"@,
                        request_id@,
                        now_unix_ms,
                        Some(observed.job@),
                        seq!["decision:expire-before-worker-claim"@],
                    ),
                ),
            ) && queued_retirement_paths(
                self.paths_spec(),
                q,
                "queued-expiry"@,
                request_id@,
                observed.job.request_id@,
            )),
    {
        if observed.state != BeginState::Queued {
            return Err(LifecycleError::UnsafeCancellation(request_id.to_owned().concat(" is not queued")));
        }
        if !age_at_least(now_unix_ms, observed.job.enqueued_at_unix_ms, stale_after_ms) {
            return Err(LifecycleError::UnsafeCancellation(request_id.to_owned().concat(" is not stale")));
        }
        if native.pending_intent || native.completed_intent.is_some() || native.admission.is_some()
            || native.derivation_root_present {
            return Err(
                LifecycleError::UnsafeCancellation(
                    request_id.to_owned().concat(" already has native durable state"),
                ),
            );
        }
        Ok(
            self.queued_retirement(
                observed,
                "queued-expiry",
                request_id,
                now_unix_ms,
                "decision:expire-before-worker-claim",
            ),
        )
    }
}

// ---------------------------------------------------------------------------
// Derivation GC roots
// ---------------------------------------------------------------------------

/// What to do with a derivation GC root: keep it, or release it once a
/// receipt records why.
#[derive(Clone, Copy, Debug, PartialEq, Eq, Structural)]
pub enum GcRootStep {
    Keep(DerivationGcRootDisposition),
    Release(DerivationGcRootDisposition),
}

/// A pending intent still owns its derivation root, which must point at the
/// intent's derivation.
pub fn gcroot_with_pending_intent(
    operation: &str,
    root: &LinkObservation,
    pending: &MaterializationIntent,
) -> (r: Result<GcRootStep, LifecycleError>)
    ensures
        link_points_to(*root, pending.derivation_path@) ==> r == Ok::<GcRootStep, LifecycleError>(
            GcRootStep::Keep(DerivationGcRootDisposition::RetainedForRecovery),
        ),
        !link_points_to(*root, pending.derivation_path@) ==> (r matches Err(
            LifecycleError::DerivationGcRootConflict(o),
        ) && o@ == operation@),
{
    require_link_target(
        root,
        pending.derivation_path.as_str(),
        LifecycleError::DerivationGcRootConflict(operation.to_owned()),
        LifecycleError::DerivationGcRootConflict(operation.to_owned()),
    )?;
    Ok(GcRootStep::Keep(DerivationGcRootDisposition::RetainedForRecovery))
}

/// An admitted operation may release its derivation root only once its
/// completed intent agrees with the admission and the admitted closure is
/// durably rooted; a root that is there must point at the completed
/// intent's derivation.
pub fn gcroot_with_admission(
    operation: &str,
    admission: &MaterializationAdmission,
    completed: Option<&MaterializationIntent>,
    closure_root: &LinkObservation,
    root: &LinkObservation,
) -> (r: Result<GcRootStep, LifecycleError>)
    ensures
        completed is None ==> r matches Err(LifecycleError::UnsafeRetirement(_)),
        completed matches Some(c) ==> {
            &&& path_parts(utf8(c.expected_output@)) != path_parts(utf8(admission.system_closure@))
                ==> (r matches Err(LifecycleError::StateConflict(_)))
            &&& path_parts(utf8(c.expected_output@)) == path_parts(utf8(admission.system_closure@))
                ==> {
                &&& closure_root is Missing ==> (r matches Err(
                    LifecycleError::MissingAdmittedClosureRoot(o),
                ) && o@ == operation@)
                &&& !(closure_root is Missing) && !link_points_to(
                    *closure_root,
                    admission.system_closure@,
                ) ==> (r matches Err(LifecycleError::AdmittedClosureRootConflict(o)) && o@
                    == operation@)
                &&& link_points_to(*closure_root, admission.system_closure@) ==> {
                    &&& root is Missing ==> r == Ok::<GcRootStep, LifecycleError>(
                        GcRootStep::Keep(DerivationGcRootDisposition::Absent),
                    )
                    &&& !(root is Missing) && link_points_to(*root, c.derivation_path@) ==> r
                        == Ok::<GcRootStep, LifecycleError>(
                        GcRootStep::Release(DerivationGcRootDisposition::ReleasedAfterAdmission),
                    )
                    &&& !(root is Missing) && !link_points_to(*root, c.derivation_path@) ==> (r matches Err(
                        LifecycleError::DerivationGcRootConflict(o),
                    ) && o@ == operation@)
                }
            }
        },
{
    let completed = match completed {
        Some(c) => c,
        None => {
            return Err(
                LifecycleError::UnsafeRetirement(
                    operation.to_owned().concat(" has an admission but no completed intent"),
                ),
            );
        },
    };
    if !same_path(
        completed.expected_output.as_str().as_bytes(),
        admission.system_closure.as_str().as_bytes(),
    ) {
        return Err(
            LifecycleError::StateConflict(
                operation.to_owned().concat(": completed intent and admission disagree"),
            ),
        );
    }
    require_link_target(
        closure_root,
        admission.system_closure.as_str(),
        LifecycleError::MissingAdmittedClosureRoot(operation.to_owned()),
        LifecycleError::AdmittedClosureRootConflict(operation.to_owned()),
    )?;
    match root {
        LinkObservation::Missing => {
            return Ok(GcRootStep::Keep(DerivationGcRootDisposition::Absent));
        },
        _ => {},
    }
    require_link_target(
        root,
        completed.derivation_path.as_str(),
        LifecycleError::DerivationGcRootConflict(operation.to_owned()),
        LifecycleError::DerivationGcRootConflict(operation.to_owned()),
    )?;
    Ok(GcRootStep::Release(DerivationGcRootDisposition::ReleasedAfterAdmission))
}

/// Without intent or admission, the begin job decides: a failed job without
/// a completed intent may release a root that points at an exact derivation;
/// any other job keeps it; a root with no job at all is kept as an orphan.
pub fn gcroot_by_job(
    operation: &str,
    job_state: Option<BeginState>,
    completed_present: bool,
    root: &LinkObservation,
) -> (r: Result<GcRootStep, LifecycleError>)
    ensures
        job_state == Some(BeginState::Failed) ==> {
            &&& completed_present ==> (r matches Err(LifecycleError::UnsafeRetirement(_)))
            &&& !completed_present && root is Missing ==> r == Ok::<GcRootStep, LifecycleError>(
                GcRootStep::Keep(DerivationGcRootDisposition::Absent),
            )
            &&& !completed_present && !(root is Missing) ==> (if root matches LinkObservation::Target(
                t,
            ) && exact_derivation(t@) {
                r == Ok::<GcRootStep, LifecycleError>(
                    GcRootStep::Release(DerivationGcRootDisposition::ReleasedAfterFailure),
                )
            } else {
                (r matches Err(LifecycleError::DerivationGcRootConflict(o)) && o@ == operation@)
            })
        },
        (job_state matches Some(s) && s != BeginState::Failed) ==> r == Ok::<GcRootStep, LifecycleError>(
            GcRootStep::Keep(
                if root is Missing {
                    DerivationGcRootDisposition::Absent
                } else {
                    DerivationGcRootDisposition::RetainedForRecovery
                },
            ),
        ),
        job_state is None ==> r == Ok::<GcRootStep, LifecycleError>(
            GcRootStep::Keep(
                if root is Missing {
                    DerivationGcRootDisposition::Absent
                } else {
                    DerivationGcRootDisposition::OrphanRetained
                },
            ),
        ),
{
    let root_exists = match root {
        LinkObservation::Missing => false,
        _ => true,
    };
    match job_state {
        Some(BeginState::Failed) => {
            if completed_present {
                return Err(
                    LifecycleError::UnsafeRetirement(
                        operation.to_owned().concat(": failed job has a completed intent"),
                    ),
                );
            }
            if !root_exists {
                return Ok(GcRootStep::Keep(DerivationGcRootDisposition::Absent));
            }
            match root {
                LinkObservation::Target(t) => {
                    if validate_exact_derivation(t.as_str()).is_err() {
                        return Err(LifecycleError::DerivationGcRootConflict(operation.to_owned()));
                    }
                },
                _ => {
                    return Err(LifecycleError::DerivationGcRootConflict(operation.to_owned()));
                },
            }
            Ok(GcRootStep::Release(DerivationGcRootDisposition::ReleasedAfterFailure))
        },
        Some(_) => {
            if root_exists {
                Ok(GcRootStep::Keep(DerivationGcRootDisposition::RetainedForRecovery))
            } else {
                Ok(GcRootStep::Keep(DerivationGcRootDisposition::Absent))
            }
        },
        None => {
            if root_exists {
                Ok(GcRootStep::Keep(DerivationGcRootDisposition::OrphanRetained))
            } else {
                Ok(GcRootStep::Keep(DerivationGcRootDisposition::Absent))
            }
        },
    }
}

// ---------------------------------------------------------------------------
// Retirement
// ---------------------------------------------------------------------------

/// The latest enqueue time among the observed jobs.
pub open spec fn newest_enqueue(jobs: Seq<ObservedBeginJob>) -> u64
    decreases jobs.len(),
{
    if jobs.len() == 0 {
        0
    } else {
        let rest = newest_enqueue(jobs.drop_last());
        let t = jobs.last().job.enqueued_at_unix_ms;
        if jobs.len() == 1 || t > rest {
            t
        } else {
            rest
        }
    }
}

/// The newest enqueue time is the latest one: no job was enqueued after it,
/// and some job was enqueued exactly then.
pub proof fn lemma_newest_enqueue_is_latest(jobs: Seq<ObservedBeginJob>)
    ensures
        forall|i: int|
            0 <= i < jobs.len() ==> #[trigger] jobs[i].job.enqueued_at_unix_ms <= newest_enqueue(jobs),
        jobs.len() > 0 ==> exists|i: int|
            0 <= i < jobs.len() && #[trigger] jobs[i].job.enqueued_at_unix_ms == newest_enqueue(jobs),
    decreases jobs.len(),
{
    if jobs.len() > 0 {
        let init = jobs.drop_last();
        lemma_newest_enqueue_is_latest(init);
        assert forall|i: int| 0 <= i < jobs.len() implies #[trigger] jobs[i].job.enqueued_at_unix_ms
            <= newest_enqueue(jobs) by {
            if i < init.len() {
                assert(init[i] == jobs[i]);
            }
        }
        if jobs.len() == 1 || jobs.last().job.enqueued_at_unix_ms > newest_enqueue(init) {
            assert(jobs[jobs.len() - 1].job.enqueued_at_unix_ms == newest_enqueue(jobs));
        } else {
            let k = choose|k: int| 0 <= k < init.len() && #[trigger] init[k].job.enqueued_at_unix_ms
                == newest_enqueue(init);
            assert(jobs[k] == init[k]);
            assert(jobs[k].job.enqueued_at_unix_ms == newest_enqueue(jobs));
        }
    }
}

/// A candidate is retired only once every one of its jobs has aged past the
/// retention window, and then it is retired: the window is measured from the
/// newest job.
pub proof fn lemma_retirement_waits_for_every_job(jobs: Seq<ObservedBeginJob>, now: u64, retention_ms: u64)
    requires
        jobs.len() > 0,
    ensures
        (now >= newest_enqueue(jobs) && now - newest_enqueue(jobs) >= retention_ms) <==> (forall|i: int|
            #![trigger jobs[i]]
            0 <= i < jobs.len() ==> now >= jobs[i].job.enqueued_at_unix_ms && now
                - jobs[i].job.enqueued_at_unix_ms >= retention_ms),
{
    lemma_newest_enqueue_is_latest(jobs);
    let k = choose|k: int| 0 <= k < jobs.len() && #[trigger] jobs[k].job.enqueued_at_unix_ms
        == newest_enqueue(jobs);
    if forall|i: int|
        #![trigger jobs[i]]
        0 <= i < jobs.len() ==> now >= jobs[i].job.enqueued_at_unix_ms && now
            - jobs[i].job.enqueued_at_unix_ms >= retention_ms {
        assert(now >= jobs[k].job.enqueued_at_unix_ms);
    }
}

/// The decision a derivation GC root release records.
pub open spec fn release_decision(d: DerivationGcRootDisposition) -> Seq<char> {
    if d == DerivationGcRootDisposition::ReleasedAfterAdmission {
        "decision:admission-and-closure-root-durable"@
    } else {
        "decision:failed-job-without-native-state"@
    }
}

/// The evidence of a derivation GC root release.
pub fn derivation_release_evidence(disposition: DerivationGcRootDisposition) -> (r: Vec<String>)
    ensures
        texts_view(r@) == seq![release_decision(disposition)],
{
    let mut r: Vec<String> = Vec::new();
    if disposition == DerivationGcRootDisposition::ReleasedAfterAdmission {
        r.push("decision:admission-and-closure-root-durable".to_owned());
    } else {
        r.push("decision:failed-job-without-native-state".to_owned());
    }
    assert(texts_view(r@) =~= seq![release_decision(disposition)]);
    r
}

/// The evidence of a terminal job retirement: the state it ended in.
pub fn terminal_job_evidence(state: BeginState) -> (r: Vec<String>)
    ensures
        texts_view(r@) == seq!["terminal-state:"@ + begin_state_name(state)],
{
    let mut r: Vec<String> = Vec::new();
    let mut e = "terminal-state:".to_owned();
    e.append(state.name());
    r.push(e);
    assert(texts_view(r@) =~= seq!["terminal-state:"@ + begin_state_name(state)]);
    r
}


/// What `retire_candidate` decides from the jobs of a manifest before it looks
/// at each of them: there must be jobs, all terminal, and the newest must be
/// at least `retention_ms` old.
pub fn check_candidate_retirement(
    manifest_id: &str,
    jobs: &Vec<ObservedBeginJob>,
    now_unix_ms: u64,
    retention_ms: u64,
) -> (r: Result<(), LifecycleError>)
    ensures
        r is Ok <==> (jobs@.len() > 0 && (forall|i: int|
            0 <= i < jobs@.len() ==> is_terminal(#[trigger] jobs@[i].state)) && now_unix_ms
            >= newest_enqueue(jobs@) && now_unix_ms - newest_enqueue(jobs@) >= retention_ms),
        r is Ok <==> (jobs@.len() > 0 && forall|i: int|
            #![trigger jobs@[i]]
            0 <= i < jobs@.len() ==> is_terminal(jobs@[i].state) && now_unix_ms
                >= jobs@[i].job.enqueued_at_unix_ms && now_unix_ms - jobs@[i].job.enqueued_at_unix_ms
                >= retention_ms),
        r matches Err(e) ==> e is UnsafeRetirement,
{
    if jobs.len() == 0 {
        return Err(
            LifecycleError::UnsafeRetirement(
                manifest_id.to_owned().concat(": unused candidate retirement is not proved"),
            ),
        );
    }
    let mut newest: u64 = 0;
    let mut i: usize = 0;
    while i < jobs.len()
        invariant
            0 < jobs@.len(),
            i <= jobs@.len(),
            forall|k: int| 0 <= k < i ==> is_terminal(#[trigger] jobs@[k].state),
            i > 0 ==> newest == newest_enqueue(jobs@.take(i as int)),
        decreases jobs.len() - i,
    {
        if !jobs[i].state.terminal() {
            return Err(
                LifecycleError::UnsafeRetirement(
                    manifest_id.to_owned().concat(": candidate still has queued or running work"),
                ),
            );
        }
        let t = jobs[i].job.enqueued_at_unix_ms;
        proof {
            assert(jobs@.take(i + 1).drop_last() =~= jobs@.take(i as int));
        }
        if i == 0 || t > newest {
            newest = t;
        }
        i = i + 1;
    }
    assert(jobs@.take(jobs@.len() as int) =~= jobs@);
    proof {
        lemma_retirement_waits_for_every_job(jobs@, now_unix_ms, retention_ms);
    }
    if !age_at_least(now_unix_ms, newest, retention_ms) {
        return Err(
            LifecycleError::UnsafeRetirement(
                manifest_id.to_owned().concat(": retention window is still open"),
            ),
        );
    }
    Ok(())
}

/// What `retire_terminal_job` decides before the durable checks: the job must
/// be terminal, past its retention, and its candidate no longer selectable.
pub fn check_terminal_job_retirement(
    observed: &ObservedBeginJob,
    now_unix_ms: u64,
    retention_ms: u64,
    manifest_selectable: bool,
) -> (r: Result<(), LifecycleError>)
    ensures
        r is Ok <==> (is_terminal(observed.state) && now_unix_ms >= observed.job.enqueued_at_unix_ms
            && now_unix_ms - observed.job.enqueued_at_unix_ms >= retention_ms && !manifest_selectable),
        r matches Err(e) ==> e is UnsafeRetirement,
{
    if !observed.state.terminal() {
        return Err(LifecycleError::UnsafeRetirement(observed.job.request_id.clone().concat(" is not terminal")));
    }
    if !age_at_least(now_unix_ms, observed.job.enqueued_at_unix_ms, retention_ms) {
        return Err(
            LifecycleError::UnsafeRetirement(
                observed.job.request_id.clone().concat(": retention window is still open"),
            ),
        );
    }
    if manifest_selectable {
        return Err(
            LifecycleError::UnsafeRetirement(
                observed.job.manifest_id.clone().concat(" is still selectable"),
            ),
        );
    }
    Ok(())
}

/// What was found of an operation's native durable state.
pub struct NativeState {
    pub pending_intent: bool,
    pub completed_intent: Option<MaterializationIntent>,
    pub admission: Option<MaterializationAdmission>,
    pub derivation_root_present: bool,
    pub closure_root: LinkObservation,
}

/// A completed operation's native state is settled: no pending intent, a
/// completed intent and an admission that agree, and its closure rooted.
pub open spec fn completed_settled(n: NativeState) -> bool {
    &&& !n.pending_intent
    &&& n.completed_intent matches Some(c)
    &&& n.admission matches Some(a)
    &&& path_parts(utf8(c.expected_output@)) == path_parts(utf8(a.system_closure@))
    &&& link_points_to(n.closure_root, a.system_closure@)
}

/// A terminal job may be retired only when its native state is settled: a
/// completed job has exactly one completed intent and admission that agree,
/// and a rooted closure; a failed job has no native state at all.
pub fn require_terminal_job_reclaimable(observed: &ObservedBeginJob, native: &NativeState) -> (r: Result<(), LifecycleError>)
    ensures
        observed.state == BeginState::Completed ==> (r is Ok <==> completed_settled(*native)),
        observed.state == BeginState::Failed ==> (r is Ok <==> (!native.pending_intent
            && native.completed_intent is None && native.admission is None
            && !native.derivation_root_present)),
        !is_terminal(observed.state) ==> r matches Err(LifecycleError::UnsafeRetirement(_)),
{
    let operation = observed.job.operation.as_str();
    match observed.state {
        BeginState::Completed => {
            if native.pending_intent {
                return Err(LifecycleError::UnsafeRetirement(operation.to_owned().concat(": completed job still has a pending intent")));
            }
            let completed = match &native.completed_intent {
                Some(c) => c,
                None => {
                    return Err(LifecycleError::UnsafeRetirement(operation.to_owned().concat(": completed job has no completed intent")));
                },
            };
            let admission = match &native.admission {
                Some(a) => a,
                None => {
                    return Err(LifecycleError::UnsafeRetirement(operation.to_owned().concat(": completed job has no admission")));
                },
            };
            if !same_path(
                completed.expected_output.as_str().as_bytes(),
                admission.system_closure.as_str().as_bytes(),
            ) {
                return Err(LifecycleError::StateConflict(operation.to_owned().concat(": completed intent and admission disagree")));
            }
            require_link_target(
                &native.closure_root,
                admission.system_closure.as_str(),
                LifecycleError::MissingAdmittedClosureRoot(operation.to_owned()),
                LifecycleError::AdmittedClosureRootConflict(operation.to_owned()),
            )
        },
        BeginState::Failed => {
            if native.pending_intent || native.completed_intent.is_some() || native.admission.is_some()
                || native.derivation_root_present {
                return Err(LifecycleError::UnsafeRetirement(operation.to_owned().concat(": failed job still has native durable state")));
            }
            Ok(())
        },
        _ => Err(LifecycleError::UnsafeRetirement(observed.job.request_id.clone().concat(" is not terminal"))),
    }
}


// ---------------------------------------------------------------------------
// Candidate retirement inputs
// ---------------------------------------------------------------------------

/// The lines a producer receipt must hold for a candidate: its header first, then
/// the manifest, candidate, SystemSpec and source lines anywhere.
pub open spec fn producer_receipt_lines(c: crate::materialization_begin::CandidateView) -> Seq<Seq<u8>> {
    seq![
        utf8("theblob-candidate-manifest-receipt-v1"@),
        field_line(utf8("manifest-id"@), hex_of_text(c.manifest_id)),
        field_line(utf8("candidate"@), hex_of_text(c.candidate)),
        field_line(utf8("system-spec"@), hex_of_text(c.system_spec)),
        field_line(utf8("immutable-flake-root"@), hex_of_text(c.immutable_flake_root)),
    ]
}

/// A producer receipt text names the candidate it must describe.
pub open spec fn producer_receipt_matches(text: Seq<u8>, c: crate::materialization_begin::CandidateView) -> bool {
    let ls = crate::candidate_source_retirement::text_lines(text);
    let req = producer_receipt_lines(c);
    &&& text.len() > 0 && text.last() == 10
    &&& ls.len() > 0 && ls[0] == req[0]
    &&& forall|k: int| 1 <= k < 5 ==> ls.contains(#[trigger] req[k])
}

fn contains_line(ls: &Vec<Vec<u8>>, line: &[u8]) -> (r: bool)
    ensures
        r == ls@.map_values(|l: Vec<u8>| l@).contains(line@),
{
    let ghost all = ls@.map_values(|l: Vec<u8>| l@);
    let mut i: usize = 0;
    while i < ls.len()
        invariant
            all == ls@.map_values(|l: Vec<u8>| l@),
            i <= ls.len(),
            forall|k: int| 0 <= k < i ==> all[k] != line@,
        decreases ls.len() - i,
    {
        if crate::text::bytes_equal(ls[i].as_slice(), line) {
            assert(all[i as int] == line@);
            return true;
        }
        i = i + 1;
    }
    false
}

fn field_bytes(key: &str, value: &str) -> (r: Vec<u8>)
    ensures
        r@ == field_line(utf8(key@), hex_of_text(value@)),
{
    let mut r: Vec<u8> = Vec::new();
    crate::text::push_all(&mut r, key.as_bytes());
    r.push(61);
    crate::text::push_hex(&mut r, value.as_bytes());
    assert(r@ =~= field_line(utf8(key@), hex_of_text(value@)));
    r
}

/// The candidate's producer receipt must name its manifest, candidate, SystemSpec
/// and source, after the receipt header.
pub fn require_candidate_receipt_identity(
    text: &str,
    candidate: &crate::materialization_begin::TrustedMaterializationCandidate,
) -> (r: Result<(), LifecycleError>)
    ensures
        r is Ok <==> producer_receipt_matches(utf8(text@), candidate@),
        r matches Err(e) ==> e is NonCanonicalRecord,
{
    let b = text.as_bytes();
    let lines = crate::candidate_source_retirement::text_lines_of(b);
    let ghost ls = lines@.map_values(|l: Vec<u8>| l@);
    let req1 = field_bytes("manifest-id", candidate.manifest_id.as_str());
    let req2 = field_bytes("candidate", candidate.candidate.as_str());
    let req3 = field_bytes("system-spec", candidate.system_spec.as_str());
    let req4 = field_bytes("immutable-flake-root", candidate.immutable_flake_root.as_str());
    let first_ok = lines.len() > 0 && crate::text::bytes_equal(
        lines[0].as_slice(),
        "theblob-candidate-manifest-receipt-v1".as_bytes(),
    );
    let ok = first_ok && contains_line(&lines, req1.as_slice()) && contains_line(&lines, req2.as_slice())
        && contains_line(&lines, req3.as_slice()) && contains_line(&lines, req4.as_slice()) && b.len()
        > 0 && b[b.len() - 1] == 10;
    proof {
        let req = producer_receipt_lines(candidate@);
        if lines@.len() > 0 {
            assert(ls[0] == lines@[0]@);
        }
        assert(req[1] == req1@);
        assert(req[2] == req2@);
        assert(req[3] == req3@);
        assert(req[4] == req4@);
        if ok {
            assert forall|k: int| 1 <= k < 5 implies ls.contains(#[trigger] req[k]) by {
                if k == 1 {} else if k == 2 {} else if k == 3 {} else {}
            }
        }
    }
    if !ok {
        let mut m = "candidate producer receipt does not match ".to_owned();
        m.append(candidate.manifest_id.as_str());
        return Err(LifecycleError::NonCanonicalRecord(m));
    }
    Ok(())
}

/// The evidence a candidate retirement receipt records: the retained source and the
/// number of terminal jobs.
pub fn candidate_retirement_evidence(
    candidate: &crate::materialization_begin::TrustedMaterializationCandidate,
    terminal_jobs: u64,
) -> (r: Vec<String>)
    ensures
        texts_view(r@) == seq![
            "source-retained:"@ + candidate.immutable_flake_root@,
            "terminal-jobs:"@ + crate::privileged_helper::number_text(terminal_jobs as nat),
        ],
{
    let mut r: Vec<String> = Vec::new();
    let mut a = "source-retained:".to_owned();
    a.append(candidate.immutable_flake_root.as_str());
    r.push(a);
    let mut b = "terminal-jobs:".to_owned();
    let n = crate::privileged_helper::decimal_text(terminal_jobs);
    b.append(n.as_str());
    r.push(b);
    assert(texts_view(r@) =~= seq![
        "source-retained:"@ + candidate.immutable_flake_root@,
        "terminal-jobs:"@ + crate::privileged_helper::number_text(terminal_jobs as nat),
    ]);
    r
}

/// A new receipt is written only while the receipt directory holds fewer than the cap.
pub fn check_receipt_capacity(existing_receipts: usize) -> (r: Result<(), LifecycleError>)
    ensures
        r is Ok <==> existing_receipts < MAX_LIFECYCLE_RECEIPTS,
        r matches Err(e) ==> e is ReceiptCapacityExceeded,
{
    if existing_receipts >= MAX_LIFECYCLE_RECEIPTS {
        return Err(LifecycleError::ReceiptCapacityExceeded);
    }
    Ok(())
}

// ---------------------------------------------------------------------------
// The safe finalizer
// ---------------------------------------------------------------------------

/// Completes a materialization only after its expected output is rooted, so the
/// admitted closure is retained before the derivation root is released.
pub struct RootSafeMaterializationFinalizer {
    pub boundary: crate::materialization_begin::RootMaterializationBeginBoundary,
    pub closure_roots: String,
    pub expected_owner_uid: u32,
}

impl RootSafeMaterializationFinalizer {
    pub fn production_default(local_node: &str) -> (r: Self)
        ensures
            r.boundary.local_node@ == local_node@,
            r.boundary.candidates.root_spec() == DEFAULT_TRUSTED_CANDIDATE_ROOT@,
            r.boundary.candidates.owner() == 0,
            r.boundary.intent_root@ == DEFAULT_MATERIALIZATION_INTENT_ROOT@,
            r.boundary.admission_root@ == DEFAULT_MATERIALIZATION_ADMISSION_ROOT@,
            r.boundary.gcroot_root@ == DEFAULT_PENDING_GCROOT_ROOT@,
            r.boundary.expected_owner_uid == 0,
            r.closure_roots@ == DEFAULT_ADMITTED_CLOSURE_GCROOT_ROOT@,
            r.expected_owner_uid == 0,
    {
        Self::new(
            local_node,
            DEFAULT_TRUSTED_CANDIDATE_ROOT,
            DEFAULT_MATERIALIZATION_INTENT_ROOT,
            DEFAULT_MATERIALIZATION_ADMISSION_ROOT,
            DEFAULT_PENDING_GCROOT_ROOT,
            DEFAULT_ADMITTED_CLOSURE_GCROOT_ROOT,
            0,
        )
    }

    pub fn new(
        local_node: &str,
        candidate_root: &str,
        intent_root: &str,
        admission_root: &str,
        derivation_roots: &str,
        closure_roots: &str,
        expected_owner_uid: u32,
    ) -> (r: Self)
        ensures
            r.boundary.local_node@ == local_node@,
            r.boundary.candidates.root_spec() == candidate_root@,
            r.boundary.candidates.owner() == expected_owner_uid,
            r.boundary.expected_owner_uid == expected_owner_uid,
            r.boundary.intent_root@ == intent_root@,
            r.boundary.admission_root@ == admission_root@,
            r.boundary.gcroot_root@ == derivation_roots@,
            r.closure_roots@ == closure_roots@,
            r.expected_owner_uid == expected_owner_uid,
    {
        RootSafeMaterializationFinalizer {
            boundary: crate::materialization_begin::RootMaterializationBeginBoundary::new(
                local_node,
                candidate_root,
                intent_root,
                admission_root,
                derivation_roots,
                expected_owner_uid,
            ),
            closure_roots: closure_roots.to_owned(),
            expected_owner_uid,
        }
    }

    /// `<closure roots>/operation-<hex>-closure`.
    pub fn admitted_closure_gcroot_path(&self, operation: &str) -> (r: String)
        ensures
            utf8(r@) == hex_entry(self.closure_roots@, "operation-"@, operation@, "-closure"@),
    {
        hex_entry_path(self.closure_roots.as_str(), "operation-", operation, "-closure")
    }

    /// How to retain an expected output before completion: it must be an exact,
    /// realized output, the closure root directory must be root-owned and closed, and
    /// the root must be absent (`Create`) or already point at it.
    pub fn retain_closure(
        &self,
        operation: &str,
        closure: &str,
        closure_exists: bool,
        closure_roots: &crate::fsmeta::FileFacts,
        link: &LinkObservation,
    ) -> (r: Result<crate::materialization_begin::RetainAction, LifecycleError>)
        ensures
            !exact_output(closure@) ==> r matches Err(LifecycleError::InvalidRecord(_)),
            exact_output(closure@) && !closure_exists ==> r matches Err(LifecycleError::UnsafeRetirement(_)),
            exact_output(closure@) && closure_exists && !crate::fsmeta::protected_directory(
                *closure_roots,
                self.expected_owner_uid,
            ) ==> r matches Err(LifecycleError::InvalidLayout(_)),
            exact_output(closure@) && closure_exists && crate::fsmeta::protected_directory(
                *closure_roots,
                self.expected_owner_uid,
            ) ==> (if link is Missing {
                r == Ok::<crate::materialization_begin::RetainAction, LifecycleError>(
                    crate::materialization_begin::RetainAction::Create,
                )
            } else if link_points_to(*link, closure@) {
                r == Ok::<crate::materialization_begin::RetainAction, LifecycleError>(
                    crate::materialization_begin::RetainAction::AlreadyHeld,
                )
            } else {
                r matches Err(LifecycleError::AdmittedClosureRootConflict(op)) && op@ == operation@
            }),
    {
        validate_exact_store_output(closure)?;
        if !closure_exists {
            let mut m = "cannot retain unrealized closure ".to_owned();
            m.append(closure);
            return Err(LifecycleError::UnsafeRetirement(m));
        }
        if !crate::fsmeta::is_protected_directory(closure_roots, self.expected_owner_uid) {
            return Err(LifecycleError::InvalidLayout(self.closure_roots.clone()));
        }
        match crate::materialization_begin::retain_action(link, closure) {
            crate::materialization_begin::RetainAction::Conflict => Err(
                LifecycleError::AdmittedClosureRootConflict(operation.to_owned()),
            ),
            a => Ok(a),
        }
    }

    /// After completion, the admission must be of this operation and for the expected
    /// output, and the closure root must hold that output.
    pub fn check_finalized(
        operation: &str,
        pending: &MaterializationIntent,
        admission: &MaterializationAdmission,
        closure_root: &LinkObservation,
    ) -> (r: Result<(), LifecycleError>)
        ensures
            admission.materialization_operation@ != operation@ || path_parts(
                utf8(admission.system_closure@),
            ) != path_parts(utf8(pending.expected_output@)) ==> r matches Err(
                LifecycleError::StateConflict(_),
            ),
            admission.materialization_operation@ == operation@ && path_parts(
                utf8(admission.system_closure@),
            ) == path_parts(utf8(pending.expected_output@)) ==> (if closure_root is Missing {
                r matches Err(LifecycleError::MissingAdmittedClosureRoot(op)) && op@ == operation@
            } else if link_points_to(*closure_root, admission.system_closure@) {
                r is Ok
            } else {
                r matches Err(LifecycleError::AdmittedClosureRootConflict(op)) && op@ == operation@
            }),
    {
        if !crate::text::str_eq(admission.materialization_operation.as_str(), operation)
            || !same_path(admission.system_closure.as_str().as_bytes(), pending.expected_output.as_str().as_bytes()) {
            let mut m = "admission identity changed for ".to_owned();
            m.append(operation);
            return Err(LifecycleError::StateConflict(m));
        }
        require_link_target(
            closure_root,
            admission.system_closure.as_str(),
            LifecycleError::MissingAdmittedClosureRoot(operation.to_owned()),
            LifecycleError::AdmittedClosureRootConflict(operation.to_owned()),
        )
    }
}

} // verus!
