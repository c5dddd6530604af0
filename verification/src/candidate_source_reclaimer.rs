//! Reclaiming the immutable source of a retired candidate: only after its
//! selection is retired and no lease or begin job refers to it, and only with
//! a strict lifecycle receipt naming the exact source.
use vstd::prelude::*;
use crate::begin_queue::{
    begin_job_text, canonical_begin_job, parse_begin_job, parse_begin_job_result,
    MaterializationBeginJob, DEFAULT_BEGIN_JOB_ROOT, MAX_BEGIN_JOB_BYTES,
};
use crate::fsmeta::{is_protected_file, protected_file, FileFacts};
use crate::candidate_lease::{lease_id_ok, validate_id, DEFAULT_CANDIDATE_ENQUEUE_LEASE_ROOT};
use crate::candidate_producer::{DEFAULT_CANDIDATE_RECEIPT_ROOT, DEFAULT_CANDIDATE_SOURCE_GCROOT_ROOT};
use crate::lifecycle::{
    hex_entry, job_field, lemma_receipt_lines_ascii, link_points_to, receipt_head, receipt_lines,
    LinkObservation,
    DEFAULT_MATERIALIZATION_LIFECYCLE_ROOT, MAX_LIFECYCLE_RECORD_BYTES,
};
use crate::lines::{
    ascii_lines, field_value, hex_list_at, hex_list_lines, hex_text_field, lemma_field_line,
    lemma_hex_list_round_trip, lemma_split_lines_text, lines_text, opt_texts, split_lines,
    LineCursor,
};
use crate::materialization_begin::DEFAULT_TRUSTED_CANDIDATE_ROOT;
use crate::paths::{
    exact_store_path, has_extension, hex_name, is_exact_store_path, join, join_name, path_has_extension,
    path_parts, same_path,
};
use crate::request_store::{fl, hexf};
use crate::text::{
    bytes_equal, decimal, has_prefix, hex_of_text, lemma_decimal_round_trip, lemma_hex_text_round_trip,
    parse_u64, parse_u64_spec, push_decimal, starts_with, texts_view, utf8,
};

verus! {

/// The most evidence items a lifecycle receipt may carry.
pub const MAX_RECEIPT_EVIDENCE: usize = 128;

#[derive(Clone, Copy, Debug, PartialEq, Eq, Structural)]
pub enum CandidateSourceReclaimDisposition {
    Reclaimed,
    AlreadyReclaimed,
}

#[derive(Clone, Debug, PartialEq, Eq)]
pub enum CandidateSourceReclaimError {
    InvalidLayout(String),
    InvalidManifestId,
    SelectionStillPresent,
    ProducerReceiptStillPresent,
    MissingCandidateRetirementReceipt,
    InvalidLifecycleReceipt(String),
    ActiveEnqueueLeases(usize),
    ActiveBeginJobs(usize),
    MissingSourceRoot,
    SourceRootConflict,
    SourceMissing,
    ReceiptCapacityExceeded,
    Lease(String),
    Io(String),
}

/// A lifecycle receipt as read back.
#[derive(Clone, Debug, PartialEq, Eq)]
pub struct LifecycleReceipt {
    pub kind: String,
    pub subject_id: String,
    pub occurred_at_unix_ms: u64,
    pub request_id: String,
    pub manifest_id: String,
    pub operation: String,
    pub evidence: Vec<String>,
}

pub struct ReceiptView {
    pub kind: Seq<char>,
    pub subject_id: Seq<char>,
    pub occurred_at_unix_ms: u64,
    pub request_id: Seq<char>,
    pub manifest_id: Seq<char>,
    pub operation: Seq<char>,
    pub evidence: Seq<Seq<char>>,
}

impl View for LifecycleReceipt {
    type V = ReceiptView;

    open spec fn view(&self) -> ReceiptView {
        ReceiptView {
            kind: self.kind@,
            subject_id: self.subject_id@,
            occurred_at_unix_ms: self.occurred_at_unix_ms,
            request_id: self.request_id@,
            manifest_id: self.manifest_id@,
            operation: self.operation@,
            evidence: texts_view(self.evidence@),
        }
    }
}

/// A number written exactly as `to_string` writes it.
pub open spec fn canonical_u64(v: Seq<u8>) -> Option<u64> {
    match parse_u64_spec(v) {
        Some(n) => if decimal(n as nat) == v {
            Some(n)
        } else {
            None
        },
        None => None,
    }
}

pub open spec fn canonical_count(v: Seq<u8>) -> Option<nat> {
    match canonical_u64(v) {
        Some(n) => if n <= MAX_RECEIPT_EVIDENCE {
            Some(n as nat)
        } else {
            None
        },
        None => None,
    }
}

pub open spec fn number_field(line: Seq<u8>, key: Seq<char>) -> Option<u64> {
    match field_value(line, utf8(key)) {
        Some(v) => canonical_u64(v),
        None => None,
    }
}

pub open spec fn count_of(line: Seq<u8>, key: Seq<char>) -> Option<nat> {
    match field_value(line, utf8(key)) {
        Some(v) => canonical_count(v),
        None => None,
    }
}

/// The receipt held by the lines of a receipt file, read strictly.
#[verifier::opaque]
pub open spec fn receipt_fields(ls: Seq<Seq<u8>>) -> Option<ReceiptView> {
    if !(ls.len() >= 8 && ls[0] == utf8("theblob-materialization-lifecycle-receipt-v1"@)
        && hexf(ls[1], "kind"@) is Some && hexf(ls[2], "subject-id"@) is Some && number_field(
        ls[3],
        "occurred-at-unix-ms"@,
    ) is Some && hexf(ls[4], "request-id"@) is Some && hexf(ls[5], "manifest-id"@) is Some
        && hexf(ls[6], "operation"@) is Some && count_of(ls[7], "evidence-count"@) is Some) {
        None
    } else {
        let n = count_of(ls[7], "evidence-count"@)->0;
        match hex_list_at(ls, 8, utf8("evidence-"@), n, false) {
            None => None,
            Some(evidence) => if ls.len() == 9 + n && ls[8 + n as int].len() == 0 {
                Some(
                    ReceiptView {
                        kind: hexf(ls[1], "kind"@)->0,
                        subject_id: hexf(ls[2], "subject-id"@)->0,
                        occurred_at_unix_ms: number_field(ls[3], "occurred-at-unix-ms"@)->0,
                        request_id: hexf(ls[4], "request-id"@)->0,
                        manifest_id: hexf(ls[5], "manifest-id"@)->0,
                        operation: hexf(ls[6], "operation"@)->0,
                        evidence,
                    },
                )
            } else {
                None
            },
        }
    }
}

/// What `parse_lifecycle_receipt` accepts.
pub open spec fn parsed_receipt(b: Seq<u8>) -> Option<ReceiptView> {
    if b.len() > MAX_LIFECYCLE_RECORD_BYTES {
        None
    } else {
        receipt_fields(split_lines(b))
    }
}

fn invalid(what: &str) -> (e: CandidateSourceReclaimError)
    ensures
        e is InvalidLifecycleReceipt,
{
    CandidateSourceReclaimError::InvalidLifecycleReceipt(what.to_owned())
}

fn canonical_number(raw: &[u8]) -> (r: Option<u64>)
    ensures
        r == canonical_u64(raw@),
{
    match parse_u64(raw) {
        Some(n) => {
            let mut d: Vec<u8> = Vec::new();
            push_decimal(&mut d, n);
            assert(d@ =~= decimal(n as nat));
            if bytes_equal(d.as_slice(), raw) {
                Some(n)
            } else {
                None
            }
        },
        None => None,
    }
}

/// Reads a lifecycle receipt strictly: lowercase hexadecimal text, numbers
/// in canonical decimal, at most 128 evidence items, nothing after them.
#[verifier::rlimit(40)]
pub fn parse_lifecycle_receipt(text: &str) -> (r: Result<LifecycleReceipt, CandidateSourceReclaimError>)
    ensures
        match r {
            Ok(x) => parsed_receipt(utf8(text@)) == Some(x@),
            Err(e) => e is InvalidLifecycleReceipt && parsed_receipt(utf8(text@)) is None,
        },
{
    let bytes = text.as_bytes();
    if bytes.len() as u64 > MAX_LIFECYCLE_RECORD_BYTES {
        return Err(invalid("receipt too large"));
    }
    proof {
        reveal(receipt_fields);
    }
    let mut c = LineCursor::new(bytes);
    let ghost ls = c.lines();
    if !c.literal("theblob-materialization-lifecycle-receipt-v1".as_bytes()) {
        return Err(invalid("header"));
    }
    let kind = match c.hex_field("kind".as_bytes(), false) {
        Some(v) => v,
        None => return Err(invalid("kind")),
    };
    let subject_id = match c.hex_field("subject-id".as_bytes(), false) {
        Some(v) => v,
        None => return Err(invalid("subject-id")),
    };
    let occurred_at_unix_ms = match c.field("occurred-at-unix-ms".as_bytes()) {
        Some(raw) => match canonical_number(raw.as_slice()) {
            Some(n) => n,
            None => return Err(invalid("occurred-at-unix-ms")),
        },
        None => return Err(invalid("occurred-at-unix-ms")),
    };
    let request_id = match c.hex_field("request-id".as_bytes(), false) {
        Some(v) => v,
        None => return Err(invalid("request-id")),
    };
    let manifest_id = match c.hex_field("manifest-id".as_bytes(), false) {
        Some(v) => v,
        None => return Err(invalid("manifest-id")),
    };
    let operation = match c.hex_field("operation".as_bytes(), false) {
        Some(v) => v,
        None => return Err(invalid("operation")),
    };
    let count = match c.field("evidence-count".as_bytes()) {
        Some(raw) => match canonical_number(raw.as_slice()) {
            Some(n) => if n <= 128 {
                n as usize
            } else {
                return Err(invalid("noncanonical evidence-count"));
            },
            None => return Err(invalid("evidence-count")),
        },
        None => return Err(invalid("evidence-count")),
    };
    let evidence = match c.hex_list("evidence-", count, false) {
        Some(v) => v,
        None => return Err(invalid("evidence")),
    };
    if !c.finish() {
        return Err(invalid("trailing fields"));
    }
    let receipt = LifecycleReceipt {
        kind,
        subject_id,
        occurred_at_unix_ms,
        request_id,
        manifest_id,
        operation,
        evidence,
    };
    assert(receipt_fields(ls) == Some(receipt@));
    Ok(receipt)
}

/// Reading back the canonical text of a lifecycle receipt with at most 128
/// evidence items gives its fields back; a receipt written without a job
/// reads back with empty request, manifest and operation.
#[verifier::rlimit(40)]
pub proof fn lemma_receipt_round_trip(
    kind: Seq<char>,
    subject: Seq<char>,
    occurred: u64,
    job: Option<crate::begin_queue::BeginJobView>,
    evidence: Seq<Seq<char>>,
)
    requires
        evidence.len() <= MAX_RECEIPT_EVIDENCE,
        lines_text(receipt_lines(kind, subject, occurred, job, evidence)).len()
            <= MAX_LIFECYCLE_RECORD_BYTES,
    ensures
        parsed_receipt(lines_text(receipt_lines(kind, subject, occurred, job, evidence))) == Some(
            ReceiptView {
                kind,
                subject_id: subject,
                occurred_at_unix_ms: occurred,
                request_id: job_field(job, 0),
                manifest_id: job_field(job, 1),
                operation: job_field(job, 2),
                evidence,
            },
        ),
{
    reveal(receipt_fields);
    let ls = receipt_lines(kind, subject, occurred, job, evidence);
    lemma_receipt_lines_ascii(kind, subject, occurred, job, evidence);
    lemma_split_lines_text(ls);
    let sp = split_lines(lines_text(ls));
    assert(sp == ls.push(Seq::<u8>::empty()));
    let h = receipt_head(kind, subject, occurred, job, evidence.len());
    let el = hex_list_lines(utf8("evidence-"@), evidence);
    let n = evidence.len();
    assert forall|k: int| 0 <= k < 8 implies #[trigger] sp[k] == h[k] by {
        assert(sp[k] == ls[k]);
    }
    lemma_field_line(utf8("kind"@), hex_of_text(kind));
    lemma_field_line(utf8("subject-id"@), hex_of_text(subject));
    lemma_field_line(utf8("occurred-at-unix-ms"@), decimal(occurred as nat));
    lemma_field_line(utf8("request-id"@), hex_of_text(job_field(job, 0)));
    lemma_field_line(utf8("manifest-id"@), hex_of_text(job_field(job, 1)));
    lemma_field_line(utf8("operation"@), hex_of_text(job_field(job, 2)));
    lemma_field_line(utf8("evidence-count"@), decimal(n));
    lemma_hex_text_round_trip(kind, false);
    lemma_hex_text_round_trip(subject, false);
    lemma_hex_text_round_trip(job_field(job, 0), false);
    lemma_hex_text_round_trip(job_field(job, 1), false);
    lemma_hex_text_round_trip(job_field(job, 2), false);
    lemma_decimal_round_trip(occurred as nat);
    lemma_decimal_round_trip(n);
    assert(sp[3] == h[3]);
    assert(sp[7] == h[7]);
    assert(number_field(sp[3], "occurred-at-unix-ms"@) == Some(occurred));
    assert(count_of(sp[7], "evidence-count"@) == Some(n));
    assert forall|i: int| 0 <= i < n implies sp[8 + i] == #[trigger] el[i] by {
        assert(sp[8 + i] == ls[8 + i]);
    }
    lemma_hex_list_round_trip(sp, 8, utf8("evidence-"@), evidence, false);
    assert(sp[8 + n as int] == Seq::<u8>::empty());
}

/// The paths named by `source-retained:<path>` evidence items, in order.
pub open spec fn retained_sources(evidence: Seq<Seq<char>>) -> Seq<Seq<char>>
    decreases evidence.len(),
{
    if evidence.len() == 0 {
        Seq::<Seq<char>>::empty()
    } else {
        let init = retained_sources(evidence.drop_last());
        let e = evidence.last();
        let p = "source-retained:"@;
        if e.len() >= p.len() && e.take(p.len() as int) == p {
            init.push(e.skip(p.len() as int))
        } else {
            init
        }
    }
}

/// The evidence of a candidate retirement receipt the lifecycle manager writes
/// (`candidate_retirement_evidence`) names exactly the retained source, so
/// `retirement_source` reads that source back from it.
pub proof fn lemma_candidate_retirement_names_its_source(root: Seq<char>, terminal_jobs: u64)
    ensures
        retained_sources(
            seq![
                "source-retained:"@ + root,
                "terminal-jobs:"@ + crate::privileged_helper::number_text(terminal_jobs as nat),
            ],
        ) == seq![root],
{
    reveal_strlit("source-retained:");
    reveal_strlit("terminal-jobs:");
    let first = "source-retained:"@ + root;
    let second = "terminal-jobs:"@ + crate::privileged_helper::number_text(terminal_jobs as nat);
    let ev = seq![first, second];
    let p = "source-retained:"@;
    assert(ev.drop_last() =~= seq![first]);
    assert(seq![first].drop_last() =~= Seq::<Seq<char>>::empty());
    assert(first.take(p.len() as int) =~= p);
    assert(first.skip(p.len() as int) =~= root);
    assert(second[0] == 't');
    assert(second.len() >= p.len() ==> second.take(p.len() as int) != p) by {
        if second.len() >= p.len() {
            assert(second.take(p.len() as int)[0] == 't');
        }
    }
    assert(retained_sources(Seq::<Seq<char>>::empty()) == Seq::<Seq<char>>::empty());
    assert(seq![first].last() == first);
    assert(retained_sources(seq![first]) =~= seq![root]);
    assert(ev.last() == second);
    assert(retained_sources(ev) == retained_sources(seq![first]));
}

/// The text after `prefix`, if `value` starts with it.
pub fn strip_text_prefix(value: &str, prefix: &str) -> (r: Option<String>)
    ensures
        (value@.len() >= prefix@.len() && value@.take(prefix@.len() as int) == prefix@) ==> (r matches Some(
            t,
        ) && t@ == value@.skip(prefix@.len() as int)),
        !(value@.len() >= prefix@.len() && value@.take(prefix@.len() as int) == prefix@) ==> r is None,
{
    let n = value.unicode_len();
    let k = prefix.unicode_len();
    if n < k {
        return None;
    }
    let head = value.substring_char(0, k);
    if !crate::text::str_eq(head, prefix) {
        return None;
    }
    Some(value.substring_char(k, n).to_owned())
}

/// The source a candidate retirement receipt names: there must be exactly one
/// `source-retained:` evidence item.
pub fn retirement_source(receipt: &LifecycleReceipt) -> (r: Result<String, CandidateSourceReclaimError>)
    ensures
        retained_sources(receipt@.evidence).len() == 1 ==> (r matches Ok(s) && s@ == retained_sources(
            receipt@.evidence,
        )[0]),
        retained_sources(receipt@.evidence).len() != 1 ==> (r matches Err(e) && e is InvalidLifecycleReceipt),
{
    let ghost ev = receipt@.evidence;
    let mut found: Vec<String> = Vec::new();
    let mut i: usize = 0;
    while i < receipt.evidence.len()
        invariant
            i <= receipt.evidence@.len(),
            ev == texts_view(receipt.evidence@),
            texts_view(found@) == retained_sources(ev.take(i as int)),
        decreases receipt.evidence.len() - i,
    {
        let ghost before = texts_view(found@);
        proof {
            assert(ev.take(i + 1).drop_last() =~= ev.take(i as int));
            assert(ev.take(i + 1).last() == receipt.evidence@[i as int]@);
        }
        match strip_text_prefix(receipt.evidence[i].as_str(), "source-retained:") {
            Some(rest) => {
                let ghost rv = rest@;
                found.push(rest);
                assert(texts_view(found@) =~= before.push(rv));
            },
            None => {},
        }
        i = i + 1;
    }
    assert(ev.take(receipt.evidence@.len() as int) =~= ev);
    if found.len() != 1 {
        return Err(invalid("candidate retirement source evidence"));
    }
    let mut found = found;
    let ghost all = texts_view(found@);
    let s = found.pop().unwrap();
    assert(s@ == all[0]);
    Ok(s)
}

/// How many evidence items are exactly `item`.
pub open spec fn count_items(evidence: Seq<Seq<char>>, item: Seq<char>) -> nat
    decreases evidence.len(),
{
    if evidence.len() == 0 {
        0
    } else {
        count_items(evidence.drop_last(), item) + if evidence.last() == item {
            1nat
        } else {
            0nat
        }
    }
}

/// An existing source retirement receipt must name this source exactly once
/// and record the drain decision.
pub fn require_source_retirement_identity(receipt: &LifecycleReceipt, source: &str) -> (r: Result<(), CandidateSourceReclaimError>)
    ensures
        r is Ok <==> (count_items(receipt@.evidence, "source:"@ + source@) == 1 && count_items(
            receipt@.evidence,
            "decision:manifest-retired-lease-and-job-drain-proved"@,
        ) > 0),
        r matches Err(e) ==> e is InvalidLifecycleReceipt,
{
    let expected = "source:".to_owned().concat(source);
    let decision = "decision:manifest-retired-lease-and-job-drain-proved".to_owned();
    let ghost ev = receipt@.evidence;
    let mut same: u64 = 0;
    let mut decided: u64 = 0;
    let mut i: usize = 0;
    while i < receipt.evidence.len()
        invariant
            i <= receipt.evidence@.len(),
            ev == texts_view(receipt.evidence@),
            expected@ == "source:"@ + source@,
            decision@ == "decision:manifest-retired-lease-and-job-drain-proved"@,
            same == count_items(ev.take(i as int), expected@),
            decided == count_items(ev.take(i as int), decision@),
            same <= i,
            decided <= i,
        decreases receipt.evidence.len() - i,
    {
        proof {
            assert(ev.take(i + 1).drop_last() =~= ev.take(i as int));
            assert(ev.take(i + 1).last() == receipt.evidence@[i as int]@);
        }
        if receipt.evidence[i] == expected {
            same = same + 1;
        }
        if receipt.evidence[i] == decision {
            decided = decided + 1;
        }
        i = i + 1;
    }
    assert(ev.take(receipt.evidence@.len() as int) =~= ev);
    if same != 1 || decided == 0 {
        return Err(invalid("source retirement identity"));
    }
    Ok(())
}

/// The manifest id a reclaim names: `manifest:`, at most 256 printable bytes.
pub fn validate_manifest_id(value: &str) -> (r: Result<(), CandidateSourceReclaimError>)
    ensures
        r is Ok <==> lease_id_ok(utf8(value@), utf8("manifest:"@)),
        r matches Err(e) ==> e == CandidateSourceReclaimError::InvalidManifestId,
{
    match validate_id(value, "manifest:") {
        Ok(()) => Ok(()),
        Err(_) => Err(CandidateSourceReclaimError::InvalidManifestId),
    }
}

/// The evidence that a source retirement receipt is for exactly this source.
pub open spec fn names_source_once(evidence: Seq<Seq<char>>, source: Seq<char>) -> bool {
    count_items(evidence, "source:"@ + source) == 1 && count_items(
        evidence,
        "decision:manifest-retired-lease-and-job-drain-proved"@,
    ) > 0
}

/// What `reclaim_decision` answers, check by check in the order it makes them.
pub open spec fn reclaim_outcome(
    r: Result<ReclaimStep, CandidateSourceReclaimError>,
    manifest_id: Seq<char>,
    now_unix_ms: u64,
    selection_present: bool,
    producer_receipt_present: bool,
    retirement: ReceiptView,
    active_leases: usize,
    active_jobs: usize,
    existing: Option<ReceiptView>,
    source_root: LinkObservation,
    source_exists: bool,
) -> bool {
    let sources = retained_sources(retirement.evidence);
    if !lease_id_ok(utf8(manifest_id), utf8("manifest:"@)) {
        r == Err::<ReclaimStep, CandidateSourceReclaimError>(
            CandidateSourceReclaimError::InvalidManifestId,
        )
    } else if selection_present {
        r == Err::<ReclaimStep, CandidateSourceReclaimError>(
            CandidateSourceReclaimError::SelectionStillPresent,
        )
    } else if producer_receipt_present {
        r == Err::<ReclaimStep, CandidateSourceReclaimError>(
            CandidateSourceReclaimError::ProducerReceiptStillPresent,
        )
    } else if sources.len() != 1 || !is_exact_store_path(utf8(sources[0])) {
        r matches Err(CandidateSourceReclaimError::InvalidLifecycleReceipt(_))
    } else if active_leases != 0 {
        r == Err::<ReclaimStep, CandidateSourceReclaimError>(
            CandidateSourceReclaimError::ActiveEnqueueLeases(active_leases),
        )
    } else if active_jobs != 0 {
        r == Err::<ReclaimStep, CandidateSourceReclaimError>(
            CandidateSourceReclaimError::ActiveBeginJobs(active_jobs),
        )
    } else {
        let source = sources[0];
        match existing {
            Some(e) => if !names_source_once(e.evidence, source) {
                r matches Err(CandidateSourceReclaimError::InvalidLifecycleReceipt(_))
            } else if source_root is Missing {
                r == Ok::<ReclaimStep, CandidateSourceReclaimError>(ReclaimStep::Done)
            } else if !link_points_to(source_root, source) {
                r == Err::<ReclaimStep, CandidateSourceReclaimError>(
                    CandidateSourceReclaimError::SourceRootConflict,
                )
            } else {
                r == Ok::<ReclaimStep, CandidateSourceReclaimError>(ReclaimStep::RemoveRoot)
            },
            None => if source_root is Missing {
                r == Err::<ReclaimStep, CandidateSourceReclaimError>(
                    CandidateSourceReclaimError::MissingSourceRoot,
                )
            } else if !link_points_to(source_root, source) {
                r == Err::<ReclaimStep, CandidateSourceReclaimError>(
                    CandidateSourceReclaimError::SourceRootConflict,
                )
            } else if !source_exists {
                r == Err::<ReclaimStep, CandidateSourceReclaimError>(
                    CandidateSourceReclaimError::SourceMissing,
                )
            } else {
                r matches Ok(ReclaimStep::RecordThenRemoveRoot(text)) && utf8(text@) == lines_text(
                    receipt_lines(
                        "candidate-source-retirement"@,
                        manifest_id,
                        now_unix_ms,
                        None,
                        seq![
                            "source:"@ + source,
                            "decision:manifest-retired-lease-and-job-drain-proved"@,
                        ],
                    ),
                )
            },
        }
    }
}

/// Every root the reclaimer reads or changes.
#[derive(Clone, Debug, PartialEq, Eq)]
pub struct CandidateSourceReclaimerPaths {
    pub candidate_root: String,
    pub producer_receipt_root: String,
    pub begin_job_root: String,
    pub enqueue_lease_root: String,
    pub lifecycle_root: String,
    pub source_gcroot_root: String,
}

/// The production directories the source reclaimer reads.
pub open spec fn production_reclaimer_paths(p: CandidateSourceReclaimerPaths) -> bool {
    &&& p.candidate_root@ == DEFAULT_TRUSTED_CANDIDATE_ROOT@
    &&& p.producer_receipt_root@ == DEFAULT_CANDIDATE_RECEIPT_ROOT@
    &&& p.begin_job_root@ == DEFAULT_BEGIN_JOB_ROOT@
    &&& p.enqueue_lease_root@ == DEFAULT_CANDIDATE_ENQUEUE_LEASE_ROOT@
    &&& p.lifecycle_root@ == DEFAULT_MATERIALIZATION_LIFECYCLE_ROOT@
    &&& p.source_gcroot_root@ == DEFAULT_CANDIDATE_SOURCE_GCROOT_ROOT@
}

impl CandidateSourceReclaimerPaths {
    pub fn production_default() -> (r: Self)
        ensures
            production_reclaimer_paths(r),
    {
        CandidateSourceReclaimerPaths {
            candidate_root: DEFAULT_TRUSTED_CANDIDATE_ROOT.to_owned(),
            producer_receipt_root: DEFAULT_CANDIDATE_RECEIPT_ROOT.to_owned(),
            begin_job_root: DEFAULT_BEGIN_JOB_ROOT.to_owned(),
            enqueue_lease_root: DEFAULT_CANDIDATE_ENQUEUE_LEASE_ROOT.to_owned(),
            lifecycle_root: DEFAULT_MATERIALIZATION_LIFECYCLE_ROOT.to_owned(),
            source_gcroot_root: DEFAULT_CANDIDATE_SOURCE_GCROOT_ROOT.to_owned(),
        }
    }
}

/// What to do once every reclaim check passed.
#[derive(Clone, Debug, PartialEq, Eq)]
pub enum ReclaimStep {
    /// The source was already reclaimed under an earlier receipt.
    Done,
    /// Remove the source GC root; the receipt already exists.
    RemoveRoot,
    /// Write this source retirement receipt, then remove the source GC root.
    RecordThenRemoveRoot(String),
}

/// Reclaims candidate sources.
pub struct RootCandidateSourceReclaimer {
    paths: CandidateSourceReclaimerPaths,
    leases: crate::candidate_lease::FileCandidateEnqueueLeaseStore,
    expected_owner_uid: u32,
}

/// How many of `jobs` belong to `manifest_id`.
pub open spec fn manifest_job_count(jobs: Seq<MaterializationBeginJob>, manifest_id: Seq<char>) -> nat
    decreases jobs.len(),
{
    if jobs.len() == 0 {
        0
    } else {
        manifest_job_count(jobs.drop_last(), manifest_id) + if jobs.last().manifest_id@ == manifest_id {
            1nat
        } else {
            0nat
        }
    }
}

/// Counts the begin jobs of a manifest, whatever their state.
pub fn count_manifest_jobs(jobs: &Vec<MaterializationBeginJob>, manifest_id: &str) -> (r: usize)
    ensures
        r == manifest_job_count(jobs@, manifest_id@),
{
    let mut count: usize = 0;
    let mut i: usize = 0;
    while i < jobs.len()
        invariant
            i <= jobs@.len(),
            count <= i,
            count == manifest_job_count(jobs@.take(i as int), manifest_id@),
        decreases jobs.len() - i,
    {
        proof {
            assert(jobs@.take(i + 1).drop_last() =~= jobs@.take(i as int));
        }
        if crate::text::str_eq(jobs[i].manifest_id.as_str(), manifest_id) {
            count = count + 1;
        }
        i = i + 1;
    }
    assert(jobs@.take(jobs@.len() as int) =~= jobs@);
    count
}

impl RootCandidateSourceReclaimer {
    pub closed spec fn paths_spec(&self) -> CandidateSourceReclaimerPaths {
        self.paths
    }

    pub closed spec fn owner(&self) -> u32 {
        self.expected_owner_uid
    }

    pub fn production_default() -> (r: Self)
        ensures
            production_reclaimer_paths(r.paths_spec()),
            r.owner() == 0,
    {
        Self::new(CandidateSourceReclaimerPaths::production_default(), 0)
    }

    pub fn new(paths: CandidateSourceReclaimerPaths, expected_owner_uid: u32) -> (r: Self)
        ensures
            r.paths_spec() == paths,
            r.owner() == expected_owner_uid,
    {
        let leases = crate::candidate_lease::FileCandidateEnqueueLeaseStore::new(
            paths.enqueue_lease_root.as_str(),
            expected_owner_uid,
        );
        RootCandidateSourceReclaimer { paths, leases, expected_owner_uid }
    }

    pub fn paths(&self) -> (r: &CandidateSourceReclaimerPaths)
        ensures
            *r == self.paths_spec(),
    {
        &self.paths
    }

    pub fn expected_owner_uid(&self) -> (r: u32)
        ensures
            r == self.owner(),
    {
        self.expected_owner_uid
    }

    /// `<source roots>/manifest-<hex>-source`.
    pub fn source_gcroot_path(&self, manifest_id: &str) -> (r: String)
        ensures
            utf8(r@) == hex_entry(
                self.paths_spec().source_gcroot_root@,
                "manifest-"@,
                manifest_id@,
                "-source"@,
            ),
    {
        let name = hex_name("manifest-", manifest_id, "-source");
        join_name(self.paths.source_gcroot_root.as_str(), name.as_slice())
    }

    /// `<lifecycle>/receipts/<kind>-<hex>.receipt`.
    pub fn receipt_path(&self, kind: &str, subject_id: &str) -> (r: String)
        ensures
            utf8(r@) == join(
                join(utf8(self.paths_spec().lifecycle_root@), utf8("receipts"@)),
                utf8(kind@ + "-"@) + hex_of_text(subject_id@) + utf8(".receipt"@),
            ),
    {
        proof {
            vstd::utf8::encode_utf8_valid_utf8("receipts"@);
        }
        let root = join_name(self.paths.lifecycle_root.as_str(), "receipts".as_bytes());
        let prefix = kind.to_owned().concat("-");
        let name = hex_name(prefix.as_str(), subject_id, ".receipt");
        join_name(root.as_str(), name.as_slice())
    }

    /// The checks `load_optional_receipt` makes on a lifecycle receipt of
    /// `kind` for `subject_id`: a closed, root-owned, bounded file holding a
    /// strict receipt of that kind and subject.
    pub fn check_receipt_record(
        &self,
        kind: &str,
        subject_id: &str,
        path: &str,
        facts: &FileFacts,
        text: &str,
    ) -> (r: Result<LifecycleReceipt, CandidateSourceReclaimError>)
        ensures
            !(protected_file(*facts, self.owner()) && facts.len <= MAX_LIFECYCLE_RECORD_BYTES) ==> (r matches Err(
                CandidateSourceReclaimError::InvalidLayout(m),
            ) && m@ == path@),
            (protected_file(*facts, self.owner()) && facts.len <= MAX_LIFECYCLE_RECORD_BYTES)
                ==> match parsed_receipt(utf8(text@)) {
                None => r matches Err(CandidateSourceReclaimError::InvalidLifecycleReceipt(_)),
                Some(v) => if v.kind != kind@ || v.subject_id != subject_id@ {
                    r matches Err(CandidateSourceReclaimError::InvalidLifecycleReceipt(m)) && m@ == path@
                } else {
                    r matches Ok(x) && x@ == v
                },
            },
    {
        if !is_protected_file(facts, self.expected_owner_uid) || facts.len > MAX_LIFECYCLE_RECORD_BYTES {
            return Err(CandidateSourceReclaimError::InvalidLayout(path.to_owned()));
        }
        let receipt = parse_lifecycle_receipt(text)?;
        if !crate::text::str_eq(receipt.kind.as_str(), kind) || !crate::text::str_eq(
            receipt.subject_id.as_str(),
            subject_id,
        ) {
            return Err(CandidateSourceReclaimError::InvalidLifecycleReceipt(path.to_owned()));
        }
        Ok(receipt)
    }

    /// Where a begin job of `request_id` lives in the state directory `state`:
    /// `<begin jobs>/<state>/request-<hex>.job`.
    pub open spec fn job_location(&self, state: Seq<char>, request_id: Seq<char>) -> Seq<u8> {
        join(
            join(utf8(self.paths_spec().begin_job_root@), utf8(state)),
            utf8("request-"@) + hex_of_text(request_id) + utf8(".job"@),
        )
    }

    /// The checks `jobs_for_manifest` makes on one entry of a begin job state
    /// directory: a `.job` file, closed, root-owned and bounded, holding a
    /// canonical job at the path its own request id names.
    pub fn begin_job_entry(&self, state: &str, path: &str, facts: &FileFacts, text: &str) -> (r: Result<
        MaterializationBeginJob,
        CandidateSourceReclaimError,
    >)
        ensures
            !has_extension(utf8(path@), utf8("job"@)) ==> (r matches Err(
                CandidateSourceReclaimError::InvalidLayout(m),
            ) && m@ == path@),
            has_extension(utf8(path@), utf8("job"@)) && !(protected_file(*facts, self.owner())
                && facts.len <= MAX_BEGIN_JOB_BYTES) ==> (r matches Err(
                CandidateSourceReclaimError::InvalidLayout(m),
            ) && m@ == path@),
            has_extension(utf8(path@), utf8("job"@)) && protected_file(*facts, self.owner())
                && facts.len <= MAX_BEGIN_JOB_BYTES ==> match parse_begin_job_result(utf8(text@)) {
                Err(_) => r matches Err(CandidateSourceReclaimError::InvalidLayout(_)),
                Ok(v) => if begin_job_text(v) != utf8(text@) || path_parts(utf8(path@)) != path_parts(
                    self.job_location(state@, v.request_id),
                ) {
                    r matches Err(CandidateSourceReclaimError::InvalidLayout(m)) && m@ == path@
                } else {
                    r matches Ok(j) && j@ == v
                },
            },
    {
        let dot_job: [u8; 4] = [46, 106, 111, 98];
        proof {
            reveal_strlit("job");
            vstd::utf8::is_ascii_chars_encode_utf8("job"@);
            assert(utf8("job"@) =~= seq![106u8, 111u8, 98u8]) by {
                let e = utf8("job"@);
                assert(e[0] == "job"@[0] as u8);
                assert(e[1] == "job"@[1] as u8);
                assert(e[2] == "job"@[2] as u8);
            }
            assert(dot_job@.skip(1) =~= utf8("job"@));
        }
        if !path_has_extension(path.as_bytes(), dot_job.as_slice()) {
            return Err(CandidateSourceReclaimError::InvalidLayout(path.to_owned()));
        }
        if !is_protected_file(facts, self.expected_owner_uid) || facts.len > MAX_BEGIN_JOB_BYTES {
            return Err(CandidateSourceReclaimError::InvalidLayout(path.to_owned()));
        }
        let job = match parse_begin_job(text) {
            Ok(j) => j,
            Err(_) => {
                return Err(CandidateSourceReclaimError::InvalidLayout("invalid begin job".to_owned()));
            },
        };
        let canonical = canonical_begin_job(&job);
        proof {
            vstd::utf8::encode_utf8_valid_utf8(state@);
        }
        let dir = join_name(self.paths.begin_job_root.as_str(), state.as_bytes());
        let name = hex_name("request-", job.request_id.as_str(), ".job");
        let expected = join_name(dir.as_str(), name.as_slice());
        if !bytes_equal(canonical.as_str().as_bytes(), text.as_bytes()) || !same_path(
            path.as_bytes(),
            expected.as_str().as_bytes(),
        ) {
            return Err(CandidateSourceReclaimError::InvalidLayout(path.to_owned()));
        }
        Ok(job)
    }

    /// The reclaim decision once the durable state is read: the selection and
    /// producer receipt must be gone, the retirement receipt must name one
    /// exact store source, no lease or begin job may refer to the manifest,
    /// and the source root must still point at that source.
    pub fn reclaim_decision(
        &self,
        manifest_id: &str,
        now_unix_ms: u64,
        selection_present: bool,
        producer_receipt_present: bool,
        retirement: &LifecycleReceipt,
        active_leases: usize,
        active_jobs: usize,
        existing: Option<&LifecycleReceipt>,
        source_root: &LinkObservation,
        source_exists: bool,
    ) -> (r: Result<ReclaimStep, CandidateSourceReclaimError>)
        ensures
            reclaim_outcome(
                r,
                manifest_id@,
                now_unix_ms,
                selection_present,
                producer_receipt_present,
                retirement@,
                active_leases,
                active_jobs,
                match existing {
                    Some(e) => Some(e@),
                    None => None,
                },
                *source_root,
                source_exists,
            ),
    {
        validate_manifest_id(manifest_id)?;
        if selection_present {
            return Err(CandidateSourceReclaimError::SelectionStillPresent);
        }
        if producer_receipt_present {
            return Err(CandidateSourceReclaimError::ProducerReceiptStillPresent);
        }
        let source = retirement_source(retirement)?;
        if !exact_store_path(source.as_str().as_bytes()) {
            return Err(invalid("invalid exact source path"));
        }
        if active_leases != 0 {
            return Err(CandidateSourceReclaimError::ActiveEnqueueLeases(active_leases));
        }
        if active_jobs != 0 {
            return Err(CandidateSourceReclaimError::ActiveBeginJobs(active_jobs));
        }
        let root_matches = match source_root {
            LinkObservation::Target(t) => same_path(t.as_str().as_bytes(), source.as_str().as_bytes()),
            _ => false,
        };
        match existing {
            Some(receipt) => {
                require_source_retirement_identity(receipt, source.as_str())?;
                match source_root {
                    LinkObservation::Missing => {
                        return Ok(ReclaimStep::Done);
                    },
                    _ => {},
                }
                if !root_matches {
                    return Err(CandidateSourceReclaimError::SourceRootConflict);
                }
                Ok(ReclaimStep::RemoveRoot)
            },
            None => {
                match source_root {
                    LinkObservation::Missing => {
                        return Err(CandidateSourceReclaimError::MissingSourceRoot);
                    },
                    _ => {},
                }
                if !root_matches {
                    return Err(CandidateSourceReclaimError::SourceRootConflict);
                }
                if !source_exists {
                    return Err(CandidateSourceReclaimError::SourceMissing);
                }
                let text = source_retirement_receipt(manifest_id, source.as_str(), now_unix_ms);
                Ok(ReclaimStep::RecordThenRemoveRoot(text))
            },
        }
    }
}

/// The receipt that records a source reclaim.
pub fn source_retirement_receipt(manifest_id: &str, source: &str, now_unix_ms: u64) -> (r: String)
    ensures
        utf8(r@) == lines_text(
            receipt_lines(
                "candidate-source-retirement"@,
                manifest_id@,
                now_unix_ms,
                None,
                seq!["source:"@ + source@, "decision:manifest-retired-lease-and-job-drain-proved"@],
            ),
        ),
{
    let mut evidence: Vec<String> = Vec::new();
    evidence.push("source:".to_owned().concat(source));
    evidence.push("decision:manifest-retired-lease-and-job-drain-proved".to_owned());
    assert(texts_view(evidence@) =~= seq![
        "source:"@ + source@,
        "decision:manifest-retired-lease-and-job-drain-proved"@,
    ]);
    crate::lifecycle::canonical_lifecycle_receipt(
        "candidate-source-retirement",
        manifest_id,
        now_unix_ms,
        None,
        &evidence,
    )
}

} // verus!
