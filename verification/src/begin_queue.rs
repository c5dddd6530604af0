//! The durable queue of materialization begin jobs: one root-owned job file per
//! request, moved between state directories as the worker makes progress.
use vstd::prelude::*;
use crate::fsmeta::{is_protected_directory, is_protected_file, protected_directory, protected_file, FileFacts};
use crate::lifecycle::{link_points_to, LinkObservation};
use crate::materialization_authority::{
    IntentView, MaterializationAuthorityError, MaterializationIntent, MaterializationIntentSpec,
    ResolvedMaterializationDerivation,
};
use crate::materialization_begin::{
    derivation_gcroot_path, same_resolution, FileTrustedMaterializationCandidateStore,
    TrustedMaterializationCandidate, DEFAULT_MATERIALIZATION_ADMISSION_ROOT,
    DEFAULT_MATERIALIZATION_INTENT_ROOT, DEFAULT_PENDING_GCROOT_ROOT,
};
use crate::paths::{is_store_subpath, path_parts, same_path};
use crate::text::str_eq;
use crate::ids::SystemOperationId;
use crate::lines::{
    all_lines_plain, field_line, hex_text_field, lemma_field_line, lemma_split_lines_text,
    lines_text, plain_ascii, split_lines, u32_field, u64_field, LineCursor, RecordWriter,
};
use crate::materialization_authority::{lemma_decimal_line, lemma_hex_line};
use crate::paths::{hex_name, join, join_name};
use crate::text::{
    all_alnum_or, ascii_chars, bytes_equal, decimal, has_prefix, hex_of_text, is_alnum,
    has_suffix, is_ascii_bytes, lemma_decimal_round_trip, texts_view, lemma_hex_text_round_trip, starts_with, utf8,
};

verus! {

pub const DEFAULT_BEGIN_JOB_ROOT: &'static str = "/var/lib/theblob/materialization-begin-jobs";

pub const DEFAULT_TRUSTED_CANDIDATE_ROOT: &'static str = "/var/lib/theblob/materialization-candidates";

pub const MAX_BEGIN_JOB_BYTES: u64 = 16384;

/// One queued request to begin a materialization.
#[derive(Clone, Debug, PartialEq, Eq)]
pub struct MaterializationBeginJob {
    pub request_id: String,
    pub requester_uid: u32,
    pub requester_system_bus_name: String,
    pub manifest_id: String,
    pub operation: SystemOperationId,
    pub enqueued_at_unix_ms: u64,
}

pub struct BeginJobView {
    pub request_id: Seq<char>,
    pub requester_uid: u32,
    pub requester_system_bus_name: Seq<char>,
    pub manifest_id: Seq<char>,
    pub operation: Seq<char>,
    pub enqueued_at_unix_ms: u64,
}

impl View for MaterializationBeginJob {
    type V = BeginJobView;

    open spec fn view(&self) -> BeginJobView {
        BeginJobView {
            request_id: self.request_id@,
            requester_uid: self.requester_uid,
            requester_system_bus_name: self.requester_system_bus_name@,
            manifest_id: self.manifest_id@,
            operation: self.operation@,
            enqueued_at_unix_ms: self.enqueued_at_unix_ms,
        }
    }
}

/// Where a job stands; each state is one directory of the queue.
#[derive(Debug, Clone, Copy, PartialEq, Eq, Structural)]
pub enum MaterializationBeginJobState {
    Queued,
    Running,
    Completed,
    Failed,
}

pub open spec fn state_directory(state: MaterializationBeginJobState) -> Seq<char> {
    match state {
        MaterializationBeginJobState::Queued => "queued"@,
        MaterializationBeginJobState::Running => "running"@,
        MaterializationBeginJobState::Completed => "completed"@,
        MaterializationBeginJobState::Failed => "failed"@,
    }
}

impl MaterializationBeginJobState {
    /// The directory that holds the jobs in this state.
    pub fn directory(self) -> (r: &'static str)
        ensures
            r@ == state_directory(self),
    {
        match self {
            MaterializationBeginJobState::Queued => "queued",
            MaterializationBeginJobState::Running => "running",
            MaterializationBeginJobState::Completed => "completed",
            MaterializationBeginJobState::Failed => "failed",
        }
    }
}

/// A job and the state it was found in.
#[derive(Clone, Debug, PartialEq, Eq)]
pub struct MaterializationBeginJobStatus {
    pub state: MaterializationBeginJobState,
    pub job: MaterializationBeginJob,
}

#[derive(Clone, Debug, PartialEq, Eq)]
pub enum MaterializationBeginQueueError {
    InvalidLayout,
    InvalidSender,
    InvalidRequestId,
    InvalidJobFile,
    JobTooLarge,
    Malformed,
    NonCanonical,
    Missing(String),
    OwnerMismatch,
    StateConflict,
    Manifest(String),
    RandomSource(String),
    Clock(String),
    Io(String),
}

/// Every byte is an ASCII letter or digit, or one of `extra`.
pub open spec fn alnum_or(b: Seq<u8>, extra: Seq<u8>) -> bool {
    forall|i: int| 0 <= i < b.len() ==> #[trigger] is_alnum(b[i]) || extra.contains(b[i])
}

/// A begin request id: `begin-request:` and at most 256 bytes of letters, digits, `:`, `-`, `_`.
pub open spec fn request_id_ok(b: Seq<u8>) -> bool {
    &&& has_prefix(b, utf8("begin-request:"@))
    &&& b.len() <= 256
    &&& alnum_or(b, seq![58u8, 45u8, 95u8])
}

/// A unique D-Bus name: `:` and at most 256 bytes of letters, digits, `:`, `.`, `-`, `_`.
pub open spec fn sender_ok(b: Seq<u8>) -> bool {
    &&& b.len() > 0 && b[0] == 58
    &&& b.len() <= 256
    &&& alnum_or(b, seq![58u8, 46u8, 45u8, 95u8])
}

/// Rejects request ids that could carry path or shell syntax.
pub fn validate_request_id(value: &str) -> (r: Result<(), MaterializationBeginQueueError>)
    ensures
        r is Ok <==> request_id_ok(utf8(value@)),
        r matches Err(e) ==> e == MaterializationBeginQueueError::InvalidRequestId,
{
    let b = value.as_bytes();
    let extra: [u8; 3] = [58, 45, 95];
    assert(extra@ =~= seq![58u8, 45u8, 95u8]);
    if !starts_with(b, "begin-request:".as_bytes()) || b.len() > 256 || !all_alnum_or(
        b,
        extra.as_slice(),
    ) {
        return Err(MaterializationBeginQueueError::InvalidRequestId);
    }
    Ok(())
}

/// Accepts only the shape of a unique system-bus name, such as `:1.42`.
pub fn validate_sender(value: &str) -> (r: Result<(), MaterializationBeginQueueError>)
    ensures
        r is Ok <==> sender_ok(utf8(value@)),
        r matches Err(e) ==> e == MaterializationBeginQueueError::InvalidSender,
{
    let b = value.as_bytes();
    let extra: [u8; 4] = [58, 46, 45, 95];
    assert(extra@ =~= seq![58u8, 46u8, 45u8, 95u8]);
    if !(b.len() > 0 && b[0] == 58) || b.len() > 256 || !all_alnum_or(b, extra.as_slice()) {
        return Err(MaterializationBeginQueueError::InvalidSender);
    }
    Ok(())
}

pub open spec fn begin_job_lines(v: BeginJobView) -> Seq<Seq<u8>> {
    seq![
        utf8("theblob-materialization-begin-job-v1"@),
        field_line(utf8("request-id"@), hex_of_text(v.request_id)),
        field_line(utf8("requester-uid"@), decimal(v.requester_uid as nat)),
        field_line(utf8("requester-system-bus"@), hex_of_text(v.requester_system_bus_name)),
        field_line(utf8("manifest-id"@), hex_of_text(v.manifest_id)),
        field_line(utf8("operation"@), hex_of_text(v.operation)),
        field_line(utf8("enqueued-at-unix-ms"@), decimal(v.enqueued_at_unix_ms as nat)),
    ]
}

/// The canonical UTF-8 bytes of a begin job.
pub open spec fn begin_job_text(v: BeginJobView) -> Seq<u8> {
    lines_text(begin_job_lines(v))
}

pub open spec fn begin_job_fields(ls: Seq<Seq<u8>>) -> Option<BeginJobView> {
    if ls.len() == 8 && ls[0] == utf8("theblob-materialization-begin-job-v1"@) && hex_text_field(
        ls[1],
        utf8("request-id"@),
        false,
    ) is Some && u32_field(ls[2], utf8("requester-uid"@)) is Some && hex_text_field(
        ls[3],
        utf8("requester-system-bus"@),
        false,
    ) is Some && hex_text_field(ls[4], utf8("manifest-id"@), false) is Some && hex_text_field(
        ls[5],
        utf8("operation"@),
        false,
    ) is Some && u64_field(ls[6], utf8("enqueued-at-unix-ms"@)) is Some && ls[7].len() == 0 {
        Some(
            BeginJobView {
                request_id: hex_text_field(ls[1], utf8("request-id"@), false)->0,
                requester_uid: u32_field(ls[2], utf8("requester-uid"@))->0,
                requester_system_bus_name: hex_text_field(
                    ls[3],
                    utf8("requester-system-bus"@),
                    false,
                )->0,
                manifest_id: hex_text_field(ls[4], utf8("manifest-id"@), false)->0,
                operation: hex_text_field(ls[5], utf8("operation"@), false)->0,
                enqueued_at_unix_ms: u64_field(ls[6], utf8("enqueued-at-unix-ms"@))->0,
            },
        )
    } else {
        None
    }
}

/// The rules a begin job satisfies once read.
pub open spec fn begin_job_valid(v: BeginJobView) -> bool {
    &&& request_id_ok(utf8(v.request_id))
    &&& sender_ok(utf8(v.requester_system_bus_name))
    &&& 1 <= utf8(v.manifest_id).len() <= 256
}

/// What `parse_begin_job` returns for the UTF-8 bytes of a text.
pub open spec fn parse_begin_job_result(b: Seq<u8>) -> Result<BeginJobView, MaterializationBeginQueueError> {
    if b.len() > MAX_BEGIN_JOB_BYTES {
        Err(MaterializationBeginQueueError::JobTooLarge)
    } else {
        match begin_job_fields(split_lines(b)) {
            None => Err(MaterializationBeginQueueError::Malformed),
            Some(v) => if !request_id_ok(utf8(v.request_id)) {
                Err(MaterializationBeginQueueError::InvalidRequestId)
            } else if !sender_ok(utf8(v.requester_system_bus_name)) {
                Err(MaterializationBeginQueueError::InvalidSender)
            } else if utf8(v.manifest_id).len() == 0 || utf8(v.manifest_id).len() > 256 {
                Err(MaterializationBeginQueueError::Malformed)
            } else {
                Ok(v)
            },
        }
    }
}

proof fn lemma_begin_job_literals()
    ensures
        plain_ascii("theblob-materialization-begin-job-v1"@),
        plain_ascii("request-id"@),
        plain_ascii("requester-uid"@),
        plain_ascii("requester-system-bus"@),
        plain_ascii("manifest-id"@),
        plain_ascii("operation"@),
        plain_ascii("enqueued-at-unix-ms"@),
{
    reveal_strlit("theblob-materialization-begin-job-v1");
    reveal_strlit("request-id");
    reveal_strlit("requester-uid");
    reveal_strlit("requester-system-bus");
    reveal_strlit("manifest-id");
    reveal_strlit("operation");
    reveal_strlit("enqueued-at-unix-ms");
}

proof fn lemma_begin_job_lines_plain(v: BeginJobView)
    ensures
        all_lines_plain(begin_job_lines(v)),
        forall|k: int| 0 <= k < begin_job_lines(v).len() ==> is_ascii_bytes(#[trigger] begin_job_lines(v)[k]),
{
    lemma_begin_job_literals();
    crate::lines::lemma_plain_ascii_bytes("theblob-materialization-begin-job-v1"@);
    lemma_hex_line("request-id"@, v.request_id);
    lemma_decimal_line("requester-uid"@, v.requester_uid as nat);
    lemma_hex_line("requester-system-bus"@, v.requester_system_bus_name);
    lemma_hex_line("manifest-id"@, v.manifest_id);
    lemma_hex_line("operation"@, v.operation);
    lemma_decimal_line("enqueued-at-unix-ms"@, v.enqueued_at_unix_ms as nat);
}

/// Serializes a begin job in its versioned, field-ordered, hex-encoded form.
pub fn canonical_begin_job(job: &MaterializationBeginJob) -> (r: String)
    ensures
        utf8(r@) == begin_job_text(job@),
        r@ == ascii_chars(begin_job_text(job@)),
{
    let mut w = RecordWriter::new();
    w.literal("theblob-materialization-begin-job-v1");
    w.hex_field("request-id".as_bytes(), job.request_id.as_str());
    w.decimal_field("requester-uid".as_bytes(), job.requester_uid as u64);
    w.hex_field("requester-system-bus".as_bytes(), job.requester_system_bus_name.as_str());
    w.hex_field("manifest-id".as_bytes(), job.manifest_id.as_str());
    w.hex_field("operation".as_bytes(), job.operation.as_str());
    w.decimal_field("enqueued-at-unix-ms".as_bytes(), job.enqueued_at_unix_ms);
    proof {
        assert(w.lines() =~= begin_job_lines(job@));
        lemma_begin_job_lines_plain(job@);
    }
    w.finish()
}

/// Reads a begin job, rejecting any deviation from its exact field order.
pub fn parse_begin_job(text: &str) -> (r: Result<MaterializationBeginJob, MaterializationBeginQueueError>)
    ensures
        match r {
            Ok(j) => parse_begin_job_result(utf8(text@)) == Ok::<BeginJobView, MaterializationBeginQueueError>(j@),
            Err(e) => parse_begin_job_result(utf8(text@)) == Err::<BeginJobView, MaterializationBeginQueueError>(e),
        },
{
    let bytes = text.as_bytes();
    if bytes.len() as u64 > MAX_BEGIN_JOB_BYTES {
        return Err(MaterializationBeginQueueError::JobTooLarge);
    }
    let mut c = LineCursor::new(bytes);
    let ghost ls = c.lines();
    if !c.literal("theblob-materialization-begin-job-v1".as_bytes()) {
        return Err(MaterializationBeginQueueError::Malformed);
    }
    let request_id = match c.hex_field("request-id".as_bytes(), false) {
        Some(v) => v,
        None => return Err(MaterializationBeginQueueError::Malformed),
    };
    let requester_uid = match c.u32_field("requester-uid".as_bytes()) {
        Some(v) => v,
        None => return Err(MaterializationBeginQueueError::Malformed),
    };
    let requester_system_bus_name = match c.hex_field("requester-system-bus".as_bytes(), false) {
        Some(v) => v,
        None => return Err(MaterializationBeginQueueError::Malformed),
    };
    let manifest_id = match c.hex_field("manifest-id".as_bytes(), false) {
        Some(v) => v,
        None => return Err(MaterializationBeginQueueError::Malformed),
    };
    let operation = match c.hex_field("operation".as_bytes(), false) {
        Some(v) => v,
        None => return Err(MaterializationBeginQueueError::Malformed),
    };
    let enqueued_at_unix_ms = match c.u64_field("enqueued-at-unix-ms".as_bytes()) {
        Some(v) => v,
        None => return Err(MaterializationBeginQueueError::Malformed),
    };
    if !c.finish() {
        return Err(MaterializationBeginQueueError::Malformed);
    }
    let job = MaterializationBeginJob {
        request_id,
        requester_uid,
        requester_system_bus_name,
        manifest_id,
        operation,
        enqueued_at_unix_ms,
    };
    assert(begin_job_fields(ls) == Some(job@));
    validate_request_id(job.request_id.as_str())?;
    validate_sender(job.requester_system_bus_name.as_str())?;
    let manifest_len = job.manifest_id.as_str().as_bytes().len();
    if manifest_len == 0 || manifest_len > 256 {
        return Err(MaterializationBeginQueueError::Malformed);
    }
    Ok(job)
}

/// Reading the canonical text of a valid begin job gives the job back.
pub proof fn lemma_begin_job_round_trip(v: BeginJobView)
    requires
        begin_job_valid(v),
        begin_job_text(v).len() <= MAX_BEGIN_JOB_BYTES,
    ensures
        parse_begin_job_result(begin_job_text(v)) == Ok::<BeginJobView, MaterializationBeginQueueError>(v),
{
    let ls = begin_job_lines(v);
    lemma_begin_job_lines_plain(v);
    lemma_split_lines_text(ls);
    let sp = split_lines(begin_job_text(v));
    assert(sp == ls.push(Seq::<u8>::empty()));
    assert(sp.len() == 8);
    assert forall|k: int| 0 <= k < 7 implies #[trigger] sp[k] == ls[k] by {}
    lemma_field_line(utf8("request-id"@), hex_of_text(v.request_id));
    lemma_field_line(utf8("requester-uid"@), decimal(v.requester_uid as nat));
    lemma_field_line(utf8("requester-system-bus"@), hex_of_text(v.requester_system_bus_name));
    lemma_field_line(utf8("manifest-id"@), hex_of_text(v.manifest_id));
    lemma_field_line(utf8("operation"@), hex_of_text(v.operation));
    lemma_field_line(utf8("enqueued-at-unix-ms"@), decimal(v.enqueued_at_unix_ms as nat));
    lemma_hex_text_round_trip(v.request_id, false);
    lemma_hex_text_round_trip(v.requester_system_bus_name, false);
    lemma_hex_text_round_trip(v.manifest_id, false);
    lemma_hex_text_round_trip(v.operation, false);
    lemma_decimal_round_trip(v.requester_uid as nat);
    lemma_decimal_round_trip(v.enqueued_at_unix_ms as nat);
    assert(sp[7] == Seq::<u8>::empty());
    assert(begin_job_fields(sp) == Some(v));
}

/// Equality of two begin jobs, field by field.
pub fn same_job(a: &MaterializationBeginJob, b: &MaterializationBeginJob) -> (r: bool)
    ensures
        r == (a@ == b@),
{
    crate::text::str_eq(a.request_id.as_str(), b.request_id.as_str()) && a.requester_uid
        == b.requester_uid && crate::text::str_eq(
        a.requester_system_bus_name.as_str(),
        b.requester_system_bus_name.as_str(),
    ) && crate::text::str_eq(a.manifest_id.as_str(), b.manifest_id.as_str())
        && crate::text::str_eq(a.operation.as_str(), b.operation.as_str()) && a.enqueued_at_unix_ms
        == b.enqueued_at_unix_ms
}

/// The checks on a job file of `len` bytes holding `text`: size, exact parse and
/// canonical form.
pub open spec fn job_text_outcome(len: u64, text: Seq<char>) -> Result<BeginJobView, MaterializationBeginQueueError> {
    if len > MAX_BEGIN_JOB_BYTES {
        Err(MaterializationBeginQueueError::JobTooLarge)
    } else {
        match parse_begin_job_result(utf8(text)) {
            Err(e) => Err(e),
            Ok(v) => if begin_job_text(v) != utf8(text) {
                Err(MaterializationBeginQueueError::NonCanonical)
            } else {
                Ok(v)
            },
        }
    }
}

/// The root-owned begin job queue.
#[derive(Clone, Debug, PartialEq, Eq)]
pub struct FileMaterializationBeginQueue {
    root: String,
    candidate_root: String,
    expected_owner_uid: u32,
}

/// The entries of a state directory that are job files (`.job`), in the order listed.
pub open spec fn job_entries_of(entries: Seq<Seq<char>>) -> Seq<Seq<char>> {
    entries.filter(|e: Seq<char>| has_suffix(utf8(e), utf8(".job"@)))
}

/// Keeps the `.job` entries of a listed state directory, in order.
pub fn job_entries(entries: Vec<String>) -> (r: Vec<String>)
    ensures
        texts_view(r@) == job_entries_of(texts_view(entries@)),
{
    let ghost all = texts_view(entries@);
    let ghost f = |e: Seq<char>| has_suffix(utf8(e), utf8(".job"@));
    let mut r: Vec<String> = Vec::new();
    let mut i: usize = 0;
    while i < entries.len()
        invariant
            i <= entries@.len(),
            all == texts_view(entries@),
            f == (|e: Seq<char>| has_suffix(utf8(e), utf8(".job"@))),
            texts_view(r@) == all.take(i as int).filter(f),
        decreases entries.len() - i,
    {
        proof {
            assert(all.take(i + 1).drop_last() =~= all.take(i as int));
            reveal(Seq::filter);
        }
        let ghost before = texts_view(r@);
        if crate::text::ends_with(entries[i].as_str().as_bytes(), ".job".as_bytes()) {
            r.push(entries[i].clone());
            proof {
                assert(texts_view(r@) =~= before.push(all[i as int]));
            }
        }
        i = i + 1;
    }
    assert(all.take(all.len() as int) =~= all);
    r
}

impl FileMaterializationBeginQueue {
    pub closed spec fn root_spec(&self) -> Seq<char> {
        self.root@
    }

    pub closed spec fn candidate_root_spec(&self) -> Seq<char> {
        self.candidate_root@
    }

    pub closed spec fn owner(&self) -> u32 {
        self.expected_owner_uid
    }

    pub fn production_default() -> (r: Self)
        ensures
            r.root_spec() == DEFAULT_BEGIN_JOB_ROOT@,
            r.candidate_root_spec() == DEFAULT_TRUSTED_CANDIDATE_ROOT@,
            r.owner() == 0,
    {
        Self::new(DEFAULT_BEGIN_JOB_ROOT, DEFAULT_TRUSTED_CANDIDATE_ROOT, 0)
    }

    pub fn new(root: &str, candidate_root: &str, expected_owner_uid: u32) -> (r: Self)
        ensures
            r.root_spec() == root@,
            r.candidate_root_spec() == candidate_root@,
            r.owner() == expected_owner_uid,
    {
        FileMaterializationBeginQueue {
            root: root.to_owned(),
            candidate_root: candidate_root.to_owned(),
            expected_owner_uid,
        }
    }

    pub fn root(&self) -> (r: &str)
        ensures
            r@ == self.root_spec(),
    {
        self.root.as_str()
    }

    /// The root of the trusted candidate manifests the queue refers to.
    pub fn candidate_root(&self) -> (r: &str)
        ensures
            r@ == self.candidate_root_spec(),
    {
        self.candidate_root.as_str()
    }

    pub fn expected_owner_uid(&self) -> (r: u32)
        ensures
            r == self.owner(),
    {
        self.expected_owner_uid
    }

    /// `<root>/<state>`.
    pub fn state_dir(&self, state: MaterializationBeginJobState) -> (r: String)
        ensures
            utf8(r@) == join(utf8(self.root_spec()), utf8(state_directory(state))),
    {
        let dir = state.directory();
        proof {
            vstd::utf8::encode_utf8_valid_utf8(dir@);
        }
        join_name(self.root.as_str(), dir.as_bytes())
    }

    /// `<root>/<state>/request-<hex>.job`.
    pub fn job_path(&self, state: MaterializationBeginJobState, request_id: &str) -> (r: String)
        ensures
            utf8(r@) == join(
                join(utf8(self.root_spec()), utf8(state_directory(state))),
                utf8("request-"@) + hex_of_text(request_id@) + utf8(".job"@),
            ),
    {
        let dir = self.state_dir(state);
        let name = hex_name("request-", request_id, ".job");
        join_name(dir.as_str(), name.as_slice())
    }

    /// The checks `read_job_path` makes once it has the file's metadata and text.
    pub fn check_job_file(&self, facts: &FileFacts, text: &str) -> (r: Result<MaterializationBeginJob, MaterializationBeginQueueError>)
        ensures
            !protected_file(*facts, self.owner()) ==> r == Err::<
                MaterializationBeginJob,
                MaterializationBeginQueueError,
            >(MaterializationBeginQueueError::InvalidJobFile),
            protected_file(*facts, self.owner()) ==> match r {
                Ok(j) => job_text_outcome(facts.len, text@) == Ok::<BeginJobView, MaterializationBeginQueueError>(j@),
                Err(e) => job_text_outcome(facts.len, text@) == Err::<BeginJobView, MaterializationBeginQueueError>(e),
            },
    {
        if !is_protected_file(facts, self.expected_owner_uid) {
            return Err(MaterializationBeginQueueError::InvalidJobFile);
        }
        if facts.len > MAX_BEGIN_JOB_BYTES {
            return Err(MaterializationBeginQueueError::JobTooLarge);
        }
        let job = parse_begin_job(text)?;
        let canonical = canonical_begin_job(&job);
        if !bytes_equal(canonical.as_str().as_bytes(), text.as_bytes()) {
            return Err(MaterializationBeginQueueError::NonCanonical);
        }
        Ok(job)
    }
}

/// The status of a request given what each state directory held for it, in the
/// order queued, running, completed, failed: a job in two states is a conflict,
/// in none is missing, and a job of another requester is not shown.
pub fn job_status_for_uid(
    request_id: &str,
    observed: Vec<(MaterializationBeginJobState, MaterializationBeginJob)>,
    requester_uid: u32,
) -> (r: Result<MaterializationBeginJobStatus, MaterializationBeginQueueError>)
    ensures
        observed@.len() > 1 ==> r == Err::<MaterializationBeginJobStatus, MaterializationBeginQueueError>(
            MaterializationBeginQueueError::StateConflict,
        ),
        observed@.len() == 0 ==> (r matches Err(MaterializationBeginQueueError::Missing(m)) && m@
            == request_id@),
        observed@.len() == 1 && observed@[0].1.requester_uid != requester_uid ==> r == Err::<
            MaterializationBeginJobStatus,
            MaterializationBeginQueueError,
        >(MaterializationBeginQueueError::OwnerMismatch),
        observed@.len() == 1 && observed@[0].1.requester_uid == requester_uid ==> (r matches Ok(s)
            && s.state == observed@[0].0 && s.job@ == observed@[0].1@),
{
    if observed.len() > 1 {
        return Err(MaterializationBeginQueueError::StateConflict);
    }
    let mut observed = observed;
    match observed.pop() {
        None => Err(MaterializationBeginQueueError::Missing(request_id.to_owned())),
        Some((state, job)) => {
            if job.requester_uid != requester_uid {
                return Err(MaterializationBeginQueueError::OwnerMismatch);
            }
            Ok(MaterializationBeginJobStatus { state, job })
        },
    }
}


// ---------------------------------------------------------------------------
// Queue transitions
// ---------------------------------------------------------------------------

/// The queue root and its four state directories, as observed.
pub struct QueueLayoutFacts {
    pub root: FileFacts,
    pub queued: FileFacts,
    pub running: FileFacts,
    pub completed: FileFacts,
    pub failed: FileFacts,
}

pub open spec fn queue_layout_ok(f: QueueLayoutFacts, owner: u32) -> bool {
    &&& protected_directory(f.root, owner)
    &&& protected_directory(f.queued, owner)
    &&& protected_directory(f.running, owner)
    &&& protected_directory(f.completed, owner)
    &&& protected_directory(f.failed, owner)
}

/// Whether a job file of one request exists in each state, in the order
/// queued, running, completed, failed.
pub struct StatePresence {
    pub queued: bool,
    pub running: bool,
    pub completed: bool,
    pub failed: bool,
}

pub open spec fn present_in(p: StatePresence, state: MaterializationBeginJobState) -> bool {
    match state {
        MaterializationBeginJobState::Queued => p.queued,
        MaterializationBeginJobState::Running => p.running,
        MaterializationBeginJobState::Completed => p.completed,
        MaterializationBeginJobState::Failed => p.failed,
    }
}

/// A job in any state other than `expected` is a conflict.
pub open spec fn only_in(p: StatePresence, expected: MaterializationBeginJobState) -> bool {
    forall|s: MaterializationBeginJobState| s != expected ==> !#[trigger] present_in(p, s)
}

/// The rename that moves a running job to a terminal state.
pub struct TerminalMove {
    pub running_path: String,
    pub terminal_path: String,
}

/// `begin-request:<nonce>`.
pub open spec fn request_id_text(nonce: Seq<char>) -> Seq<char> {
    "begin-request:"@ + nonce
}

/// `op:materialize-<nonce>`.
pub open spec fn operation_text(nonce: Seq<char>) -> Seq<char> {
    "op:materialize-"@ + nonce
}

fn prefixed(prefix: &str, value: &str) -> (r: String)
    ensures
        r@ == prefix@ + value@,
{
    let mut s = prefix.to_owned();
    s.append(value);
    s
}

/// Whether a job file of a request was left in a state other than `expected`.
pub fn reject_other_state(presence: &StatePresence, expected: MaterializationBeginJobState) -> (r: Result<
    (),
    MaterializationBeginQueueError,
>)
    ensures
        r is Ok <==> only_in(*presence, expected),
        r matches Err(e) ==> e == MaterializationBeginQueueError::StateConflict,
{
    let conflict = (presence.queued && expected != MaterializationBeginJobState::Queued) || (
    presence.running && expected != MaterializationBeginJobState::Running) || (presence.completed
        && expected != MaterializationBeginJobState::Completed) || (presence.failed && expected
        != MaterializationBeginJobState::Failed);
    proof {
        if !conflict {
            assert forall|s: MaterializationBeginJobState| s != expected implies !#[trigger] present_in(
                *presence,
                s,
            ) by {
                match s {
                    MaterializationBeginJobState::Queued => {},
                    MaterializationBeginJobState::Running => {},
                    MaterializationBeginJobState::Completed => {},
                    MaterializationBeginJobState::Failed => {},
                }
            }
        } else {
            if presence.queued && expected != MaterializationBeginJobState::Queued {
                assert(present_in(*presence, MaterializationBeginJobState::Queued));
            } else if presence.running && expected != MaterializationBeginJobState::Running {
                assert(present_in(*presence, MaterializationBeginJobState::Running));
            } else if presence.completed && expected != MaterializationBeginJobState::Completed {
                assert(present_in(*presence, MaterializationBeginJobState::Completed));
            } else {
                assert(present_in(*presence, MaterializationBeginJobState::Failed));
            }
        }
    }
    if conflict {
        return Err(MaterializationBeginQueueError::StateConflict);
    }
    Ok(())
}

impl FileMaterializationBeginQueue {
    /// The root and its four state directories are root-owned and closed to others.
    pub fn validate_layout(&self, facts: &QueueLayoutFacts) -> (r: Result<(), MaterializationBeginQueueError>)
        ensures
            r is Ok <==> queue_layout_ok(*facts, self.owner()),
            r matches Err(e) ==> e == MaterializationBeginQueueError::InvalidLayout,
    {
        if !is_protected_directory(&facts.root, self.expected_owner_uid)
            || !is_protected_directory(&facts.queued, self.expected_owner_uid)
            || !is_protected_directory(&facts.running, self.expected_owner_uid)
            || !is_protected_directory(&facts.completed, self.expected_owner_uid)
            || !is_protected_directory(&facts.failed, self.expected_owner_uid) {
            return Err(MaterializationBeginQueueError::InvalidLayout);
        }
        Ok(())
    }

    /// The job to enqueue for a request, given the layout, whether the manifest loaded
    /// (its error otherwise), two fresh nonces and the clock.
    ///
    /// Both the request id and the operation id are generated in root, so a retry of
    /// the same job reconciles the same operation.
    pub fn enqueue(
        &self,
        layout: &QueueLayoutFacts,
        requester_uid: u32,
        requester_system_bus_name: &str,
        manifest_id: &str,
        manifest: Result<(), String>,
        request_nonce: Result<String, String>,
        operation_nonce: Result<String, String>,
        clock: Result<u64, String>,
    ) -> (r: Result<MaterializationBeginJob, MaterializationBeginQueueError>)
        ensures
            !queue_layout_ok(*layout, self.owner()) ==> r == Err::<
                MaterializationBeginJob,
                MaterializationBeginQueueError,
            >(MaterializationBeginQueueError::InvalidLayout),
            queue_layout_ok(*layout, self.owner()) && !sender_ok(utf8(requester_system_bus_name@))
                ==> r == Err::<MaterializationBeginJob, MaterializationBeginQueueError>(
                MaterializationBeginQueueError::InvalidSender,
            ),
            queue_layout_ok(*layout, self.owner()) && sender_ok(utf8(requester_system_bus_name@))
                ==> match (manifest, request_nonce, operation_nonce, clock) {
                (Err(m), _, _, _) => r == Err::<MaterializationBeginJob, MaterializationBeginQueueError>(
                    MaterializationBeginQueueError::Manifest(m),
                ),
                (Ok(_), Err(m), _, _) => r == Err::<
                    MaterializationBeginJob,
                    MaterializationBeginQueueError,
                >(MaterializationBeginQueueError::RandomSource(m)),
                (Ok(_), Ok(_), Err(m), _) => r == Err::<
                    MaterializationBeginJob,
                    MaterializationBeginQueueError,
                >(MaterializationBeginQueueError::RandomSource(m)),
                (Ok(_), Ok(_), Ok(_), Err(m)) => r == Err::<
                    MaterializationBeginJob,
                    MaterializationBeginQueueError,
                >(MaterializationBeginQueueError::Clock(m)),
                (Ok(_), Ok(rn), Ok(on), Ok(now)) => r matches Ok(j) && j@ == (BeginJobView {
                    request_id: request_id_text(rn@),
                    requester_uid,
                    requester_system_bus_name: requester_system_bus_name@,
                    manifest_id: manifest_id@,
                    operation: operation_text(on@),
                    enqueued_at_unix_ms: now,
                }),
            },
    {
        self.validate_layout(layout)?;
        validate_sender(requester_system_bus_name)?;
        match manifest {
            Ok(_) => {},
            Err(m) => return Err(MaterializationBeginQueueError::Manifest(m)),
        }
        let request_nonce = match request_nonce {
            Ok(n) => n,
            Err(m) => return Err(MaterializationBeginQueueError::RandomSource(m)),
        };
        let operation_nonce = match operation_nonce {
            Ok(n) => n,
            Err(m) => return Err(MaterializationBeginQueueError::RandomSource(m)),
        };
        let now = match clock {
            Ok(t) => t,
            Err(m) => return Err(MaterializationBeginQueueError::Clock(m)),
        };
        Ok(
            MaterializationBeginJob {
                request_id: prefixed("begin-request:", request_nonce.as_str()),
                requester_uid,
                requester_system_bus_name: requester_system_bus_name.to_owned(),
                manifest_id: manifest_id.to_owned(),
                operation: prefixed("op:materialize-", operation_nonce.as_str()),
                enqueued_at_unix_ms: now,
            },
        )
    }

    /// A queued job may be claimed only when no other state holds it.
    pub fn check_claim(presence: &StatePresence) -> (r: Result<(), MaterializationBeginQueueError>)
        ensures
            r is Ok <==> only_in(*presence, MaterializationBeginJobState::Queued),
            r matches Err(e) ==> e == MaterializationBeginQueueError::StateConflict,
    {
        reject_other_state(presence, MaterializationBeginJobState::Queued)
    }

    /// A running job goes back to the queue only when no terminal or queued copy exists.
    pub fn check_recover(presence: &StatePresence) -> (r: Result<(), MaterializationBeginQueueError>)
        ensures
            r is Ok <==> !presence.completed && !presence.failed && !presence.queued,
            r matches Err(e) ==> e == MaterializationBeginQueueError::StateConflict,
    {
        if presence.completed || presence.failed || presence.queued {
            return Err(MaterializationBeginQueueError::StateConflict);
        }
        Ok(())
    }

    /// `<root>/<state>/request-<hex>.job`, as bytes.
    pub open spec fn job_file(&self, state: MaterializationBeginJobState, request_id: Seq<char>) -> Seq<u8> {
        join(
            join(utf8(self.root_spec()), utf8(state_directory(state))),
            utf8("request-"@) + hex_of_text(request_id) + utf8(".job"@),
        )
    }

    /// Why a running job cannot move to `terminal`, in the order the checks run; `None`
    /// when it can.
    pub open spec fn terminal_error(
        &self,
        request_id: Seq<char>,
        terminal: MaterializationBeginJobState,
        layout: QueueLayoutFacts,
        running: Result<MaterializationBeginJob, MaterializationBeginQueueError>,
        presence: StatePresence,
        terminal_exists: bool,
    ) -> Option<MaterializationBeginQueueError> {
        if !queue_layout_ok(layout, self.owner()) {
            Some(MaterializationBeginQueueError::InvalidLayout)
        } else if !request_id_ok(utf8(request_id)) {
            Some(MaterializationBeginQueueError::InvalidRequestId)
        } else if terminal != MaterializationBeginJobState::Completed && terminal
            != MaterializationBeginJobState::Failed {
            Some(MaterializationBeginQueueError::StateConflict)
        } else {
            match running {
                Err(e) => Some(e),
                Ok(_) => if !only_in(presence, MaterializationBeginJobState::Running) || terminal_exists {
                    Some(MaterializationBeginQueueError::StateConflict)
                } else {
                    None
                },
            }
        }
    }

    /// The move of a running job to `terminal`, given the layout, the running job as read,
    /// where else the request is found and whether the terminal file already exists.
    pub fn mark_terminal(
        &self,
        request_id: &str,
        terminal: MaterializationBeginJobState,
        layout: &QueueLayoutFacts,
        running: &Result<MaterializationBeginJob, MaterializationBeginQueueError>,
        presence: &StatePresence,
        terminal_exists: bool,
    ) -> (r: Result<TerminalMove, MaterializationBeginQueueError>)
        ensures
            match self.terminal_error(request_id@, terminal, *layout, *running, *presence, terminal_exists) {
                Some(e) => r == Err::<TerminalMove, MaterializationBeginQueueError>(e),
                None => r matches Ok(m) && utf8(m.running_path@) == self.job_file(
                    MaterializationBeginJobState::Running,
                    request_id@,
                ) && utf8(m.terminal_path@) == self.job_file(terminal, request_id@),
            },
    {
        self.validate_layout(layout)?;
        validate_request_id(request_id)?;
        match terminal {
            MaterializationBeginJobState::Completed => {},
            MaterializationBeginJobState::Failed => {},
            _ => return Err(MaterializationBeginQueueError::StateConflict),
        }
        match running {
            Ok(_) => {},
            Err(e) => return Err(e.clone_error()),
        }
        reject_other_state(presence, MaterializationBeginJobState::Running)?;
        if terminal_exists {
            return Err(MaterializationBeginQueueError::StateConflict);
        }
        Ok(
            TerminalMove {
                running_path: self.job_path(MaterializationBeginJobState::Running, request_id),
                terminal_path: self.job_path(terminal, request_id),
            },
        )
    }

    /// Moves a running job to `completed`; see [`Self::mark_terminal`].
    pub fn mark_completed(
        &self,
        request_id: &str,
        layout: &QueueLayoutFacts,
        running: &Result<MaterializationBeginJob, MaterializationBeginQueueError>,
        presence: &StatePresence,
        terminal_exists: bool,
    ) -> (r: Result<TerminalMove, MaterializationBeginQueueError>)
        ensures
            match self.terminal_error(
                request_id@,
                MaterializationBeginJobState::Completed,
                *layout,
                *running,
                *presence,
                terminal_exists,
            ) {
                Some(e) => r == Err::<TerminalMove, MaterializationBeginQueueError>(e),
                None => r matches Ok(m) && utf8(m.running_path@) == self.job_file(
                    MaterializationBeginJobState::Running,
                    request_id@,
                ) && utf8(m.terminal_path@) == self.job_file(
                    MaterializationBeginJobState::Completed,
                    request_id@,
                ),
            },
    {
        self.mark_terminal(
            request_id,
            MaterializationBeginJobState::Completed,
            layout,
            running,
            presence,
            terminal_exists,
        )
    }

    /// Moves a running job to `failed`; see [`Self::mark_terminal`].
    pub fn mark_failed(
        &self,
        request_id: &str,
        layout: &QueueLayoutFacts,
        running: &Result<MaterializationBeginJob, MaterializationBeginQueueError>,
        presence: &StatePresence,
        terminal_exists: bool,
    ) -> (r: Result<TerminalMove, MaterializationBeginQueueError>)
        ensures
            match self.terminal_error(
                request_id@,
                MaterializationBeginJobState::Failed,
                *layout,
                *running,
                *presence,
                terminal_exists,
            ) {
                Some(e) => r == Err::<TerminalMove, MaterializationBeginQueueError>(e),
                None => r matches Ok(m) && utf8(m.running_path@) == self.job_file(
                    MaterializationBeginJobState::Running,
                    request_id@,
                ) && utf8(m.terminal_path@) == self.job_file(
                    MaterializationBeginJobState::Failed,
                    request_id@,
                ),
            },
    {
        self.mark_terminal(
            request_id,
            MaterializationBeginJobState::Failed,
            layout,
            running,
            presence,
            terminal_exists,
        )
    }

    /// After the move, the terminal file must hold the same job.
    pub fn confirm_terminal(
        job: &MaterializationBeginJob,
        observed: &MaterializationBeginJob,
    ) -> (r: Result<(), MaterializationBeginQueueError>)
        ensures
            r is Ok <==> job@ == observed@,
            r matches Err(e) ==> e == MaterializationBeginQueueError::StateConflict,
    {
        if !same_job(job, observed) {
            return Err(MaterializationBeginQueueError::StateConflict);
        }
        Ok(())
    }
}

impl MaterializationBeginQueueError {
    /// A copy of this error.
    pub fn clone_error(&self) -> (r: Self)
        ensures
            r == *self,
    {
        match self {
            MaterializationBeginQueueError::InvalidLayout => MaterializationBeginQueueError::InvalidLayout,
            MaterializationBeginQueueError::InvalidSender => MaterializationBeginQueueError::InvalidSender,
            MaterializationBeginQueueError::InvalidRequestId => MaterializationBeginQueueError::InvalidRequestId,
            MaterializationBeginQueueError::InvalidJobFile => MaterializationBeginQueueError::InvalidJobFile,
            MaterializationBeginQueueError::JobTooLarge => MaterializationBeginQueueError::JobTooLarge,
            MaterializationBeginQueueError::Malformed => MaterializationBeginQueueError::Malformed,
            MaterializationBeginQueueError::NonCanonical => MaterializationBeginQueueError::NonCanonical,
            MaterializationBeginQueueError::Missing(m) => MaterializationBeginQueueError::Missing(m.clone()),
            MaterializationBeginQueueError::OwnerMismatch => MaterializationBeginQueueError::OwnerMismatch,
            MaterializationBeginQueueError::StateConflict => MaterializationBeginQueueError::StateConflict,
            MaterializationBeginQueueError::Manifest(m) => MaterializationBeginQueueError::Manifest(m.clone()),
            MaterializationBeginQueueError::RandomSource(m) => MaterializationBeginQueueError::RandomSource(m.clone()),
            MaterializationBeginQueueError::Clock(m) => MaterializationBeginQueueError::Clock(m.clone()),
            MaterializationBeginQueueError::Io(m) => MaterializationBeginQueueError::Io(m.clone()),
        }
    }
}


// ---------------------------------------------------------------------------
// The recoverable coordinator
// ---------------------------------------------------------------------------

#[derive(Clone, Debug, PartialEq, Eq)]
pub enum RecoverableBeginError {
    Queue(MaterializationBeginQueueError),
    Manifest(String),
    InvalidImmutableSource,
    Authority(MaterializationAuthorityError),
    Inspector(String),
    InvalidGcRoot,
    GcRootConflict,
    IdentityMismatch,
    Clock(String),
    Io(String),
}

/// The root-side coordinator of the begin worker. The operation id is durable in the
/// job before evaluation starts, so a retry reconciles the same operation.
pub struct RecoverableMaterializationBeginCoordinator {
    pub local_node: String,
    pub candidates: FileTrustedMaterializationCandidateStore,
    pub intent_root: String,
    pub admission_root: String,
    pub gcroot_root: String,
    pub expected_owner_uid: u32,
}

/// An intent belongs to a job and its candidate on this node.
pub open spec fn intent_matches(
    node: Seq<char>,
    job: BeginJobView,
    c: crate::materialization_begin::CandidateView,
    i: IntentView,
) -> bool {
    &&& i.node == node
    &&& i.materialization_operation == job.operation
    &&& i.candidate == c.candidate
    &&& i.system_spec == c.system_spec
    &&& i.immutable_flake_root == c.immutable_flake_root
    &&& i.installable_attribute == c.installable_attribute
}

/// An intent is reconciled for a job exactly when it is the one the job's
/// candidate would give on this node: same node, operation, candidate,
/// SystemSpec, immutable flake source and installable attribute.
pub proof fn lemma_reconciled_intent_is_the_candidates(
    node: Seq<char>,
    job: BeginJobView,
    c: crate::materialization_begin::CandidateView,
    i: IntentView,
)
    ensures
        intent_matches(node, job, c, i) <==> {
            &&& i.node == node
            &&& i.materialization_operation == job.operation
            &&& i.candidate == c.candidate
            &&& i.system_spec == c.system_spec
            &&& i.immutable_flake_root == c.immutable_flake_root
            &&& i.installable_attribute == c.installable_attribute
        },
{
}

impl RecoverableMaterializationBeginCoordinator {
    pub fn production_default(local_node: &str) -> (r: Self)
        ensures
            r.local_node@ == local_node@,
            r.candidates.root_spec() == DEFAULT_TRUSTED_CANDIDATE_ROOT@,
            r.candidates.owner() == 0,
            r.intent_root@ == DEFAULT_MATERIALIZATION_INTENT_ROOT@,
            r.admission_root@ == DEFAULT_MATERIALIZATION_ADMISSION_ROOT@,
            r.gcroot_root@ == DEFAULT_PENDING_GCROOT_ROOT@,
            r.expected_owner_uid == 0,
    {
        Self::new(
            local_node,
            DEFAULT_TRUSTED_CANDIDATE_ROOT,
            DEFAULT_MATERIALIZATION_INTENT_ROOT,
            DEFAULT_MATERIALIZATION_ADMISSION_ROOT,
            DEFAULT_PENDING_GCROOT_ROOT,
            0,
        )
    }

    pub fn new(
        local_node: &str,
        candidate_root: &str,
        intent_root: &str,
        admission_root: &str,
        gcroot_root: &str,
        expected_owner_uid: u32,
    ) -> (r: Self)
        ensures
            r.local_node@ == local_node@,
            r.candidates.root_spec() == candidate_root@,
            r.candidates.owner() == expected_owner_uid,
            r.intent_root@ == intent_root@,
            r.admission_root@ == admission_root@,
            r.gcroot_root@ == gcroot_root@,
            r.expected_owner_uid == expected_owner_uid,
    {
        RecoverableMaterializationBeginCoordinator {
            local_node: local_node.to_owned(),
            candidates: FileTrustedMaterializationCandidateStore::new(candidate_root, expected_owner_uid),
            intent_root: intent_root.to_owned(),
            admission_root: admission_root.to_owned(),
            gcroot_root: gcroot_root.to_owned(),
            expected_owner_uid,
        }
    }

    /// The GC root that retains the pending derivation of `operation`.
    pub fn gcroot_path(&self, operation: &str) -> (r: String)
        ensures
            utf8(r@) == join(
                utf8(self.gcroot_root@),
                utf8("operation-"@) + hex_of_text(operation@) + utf8("-derivation"@),
            ),
    {
        derivation_gcroot_path(self.gcroot_root.as_str(), operation)
    }

    /// An existing intent must belong to this job, its candidate and this node.
    pub fn validate_existing(
        &self,
        job: &MaterializationBeginJob,
        candidate: &TrustedMaterializationCandidate,
        intent: &MaterializationIntent,
    ) -> (r: Result<(), RecoverableBeginError>)
        ensures
            r is Ok <==> intent_matches(self.local_node@, job@, candidate@, intent@),
            r is Ok ==> intent.node@ == self.local_node@ && intent.materialization_operation@
                == job.operation@ && intent.candidate@ == candidate.candidate@ && intent.system_spec@
                == candidate.system_spec@ && intent.immutable_flake_root@
                == candidate.immutable_flake_root@ && intent.installable_attribute@
                == candidate.installable_attribute@,
            r is Err ==> r == Err::<(), RecoverableBeginError>(RecoverableBeginError::IdentityMismatch),
    {
        if !str_eq(intent.node.as_str(), self.local_node.as_str())
            || !str_eq(intent.materialization_operation.as_str(), job.operation.as_str())
            || !str_eq(intent.candidate.as_str(), candidate.candidate.as_str())
            || !str_eq(intent.system_spec.as_str(), candidate.system_spec.as_str())
            || !str_eq(intent.immutable_flake_root.as_str(), candidate.immutable_flake_root.as_str())
            || !str_eq(intent.installable_attribute.as_str(), candidate.installable_attribute.as_str()) {
            return Err(RecoverableBeginError::IdentityMismatch);
        }
        Ok(())
    }

    /// The first step of `start_or_reconcile`: the job's candidate as loaded (its error
    /// otherwise) and the pending intent of the job's operation, if it was loaded.
    ///
    /// `Ok(Some(intent))` reconciles an intent that already exists; `Ok(None)` means
    /// the operation must be begun.
    pub fn reconcile_existing(
        &self,
        job: &MaterializationBeginJob,
        candidate: &Result<TrustedMaterializationCandidate, String>,
        pending: Result<MaterializationIntent, MaterializationAuthorityError>,
    ) -> (r: Result<Option<MaterializationIntent>, RecoverableBeginError>)
        ensures
            match candidate {
                Err(m) => r == Err::<Option<MaterializationIntent>, RecoverableBeginError>(
                    RecoverableBeginError::Manifest(*m),
                ),
                Ok(c) => if !is_store_subpath(utf8(c.immutable_flake_root@)) {
                    r == Err::<Option<MaterializationIntent>, RecoverableBeginError>(
                        RecoverableBeginError::InvalidImmutableSource,
                    )
                } else {
                    match pending {
                        Ok(i) => if intent_matches(self.local_node@, job@, c@, i@) {
                            r matches Ok(Some(j)) && j@ == i@
                        } else {
                            r == Err::<Option<MaterializationIntent>, RecoverableBeginError>(
                                RecoverableBeginError::IdentityMismatch,
                            )
                        },
                        Err(MaterializationAuthorityError::IntentMissing(_)) => r == Ok::<
                            Option<MaterializationIntent>,
                            RecoverableBeginError,
                        >(None),
                        Err(e) => r == Err::<Option<MaterializationIntent>, RecoverableBeginError>(
                            RecoverableBeginError::Authority(e),
                        ),
                    }
                },
            },
    {
        let c = match candidate {
            Ok(c) => c,
            Err(m) => return Err(RecoverableBeginError::Manifest(m.clone())),
        };
        if crate::materialization_authority::validate_immutable_store_subpath(c.immutable_flake_root.as_str()).is_err() {
            return Err(RecoverableBeginError::InvalidImmutableSource);
        }
        match pending {
            Ok(intent) => {
                self.validate_existing(job, c, &intent)?;
                Ok(Some(intent))
            },
            Err(MaterializationAuthorityError::IntentMissing(_)) => Ok(None),
            Err(e) => Err(RecoverableBeginError::Authority(e)),
        }
    }

    /// The intent spec for the job's operation: this node, the candidate and the time.
    pub fn intent_spec(
        &self,
        job: &MaterializationBeginJob,
        candidate: &TrustedMaterializationCandidate,
        created_at_unix_ms: u64,
    ) -> (r: MaterializationIntentSpec)
        ensures
            r.node@ == self.local_node@,
            r.candidate@ == candidate.candidate@,
            r.system_spec@ == candidate.system_spec@,
            r.materialization_operation@ == job.operation@,
            r.immutable_flake_root@ == candidate.immutable_flake_root@,
            r.installable_attribute@ == candidate.installable_attribute@,
            r.created_at_unix_ms == created_at_unix_ms,
    {
        MaterializationIntentSpec {
            node: self.local_node.clone(),
            candidate: candidate.candidate.clone(),
            system_spec: candidate.system_spec.clone(),
            materialization_operation: job.operation.clone(),
            immutable_flake_root: candidate.immutable_flake_root.clone(),
            installable_attribute: candidate.installable_attribute.clone(),
            created_at_unix_ms,
        }
    }

    /// The last step of `start_or_reconcile`: what `begin` gave, and, when it failed,
    /// the pending intent reloaded (a concurrent attempt may have recorded it).
    ///
    /// The intent kept must belong to the job and name the resolved derivation and output.
    pub fn settle_begin(
        &self,
        job: &MaterializationBeginJob,
        candidate: &TrustedMaterializationCandidate,
        resolved: &ResolvedMaterializationDerivation,
        begun: Result<MaterializationIntent, MaterializationAuthorityError>,
        reloaded: Result<MaterializationIntent, MaterializationAuthorityError>,
    ) -> (r: Result<MaterializationIntent, RecoverableBeginError>)
        ensures
            match (begun, reloaded) {
                (Err(e), Err(_)) => r == Err::<MaterializationIntent, RecoverableBeginError>(
                    RecoverableBeginError::Authority(e),
                ),
                (Ok(i), _) | (Err(_), Ok(i)) => if !intent_matches(
                    self.local_node@,
                    job@,
                    candidate@,
                    i@,
                ) || !same_resolution(i@, *resolved) {
                    r == Err::<MaterializationIntent, RecoverableBeginError>(
                        RecoverableBeginError::IdentityMismatch,
                    )
                } else {
                    r matches Ok(j) && j@ == i@
                },
            },
    {
        let intent = match begun {
            Ok(i) => i,
            Err(e) => match reloaded {
                Ok(i) => i,
                Err(_) => return Err(RecoverableBeginError::Authority(e)),
            },
        };
        self.validate_existing(job, candidate, &intent)?;
        if !same_path(intent.derivation_path.as_str().as_bytes(), resolved.derivation_path.as_str().as_bytes())
            || !same_path(intent.expected_output.as_str().as_bytes(), resolved.expected_output.as_str().as_bytes()) {
            return Err(RecoverableBeginError::IdentityMismatch);
        }
        Ok(intent)
    }
}

} // verus!
