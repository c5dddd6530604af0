//! Root-owned materialization admissions: the verified closure of one finished
//! materialization, which later activation requests may refer to.
use vstd::prelude::*;
use crate::fsmeta::{is_protected_directory, is_protected_file, protected_directory, protected_file, FileFacts};
use crate::ids::{NodeId, SystemCandidateId, SystemOperationId, SystemSpecId};
use crate::lines::{
    all_lines_plain, count_field, field_line, hex_text_field, indexed_key, lemma_field_line,
    lemma_hex_line_bytes, lemma_indexed_key_plain,
    lemma_split_lines_text, lines_text, make_indexed_key, no_newline, plain_ascii, split_lines,
    u64_field, LineCursor, RecordWriter,
};
use crate::materialization_authority::{lemma_decimal_line, lemma_hex_line};
use crate::paths::{exact_store_path, hex_name, is_exact_store_path, join, join_name};
use crate::activation::{
    activation_mode, planned, ImmutableActivationError, ImmutableNixOsActivationPlanner, MaterializedNixOsCandidate,
    PlanView, PreparedPrivilegedActivation, PreparedView,
};
use crate::authority::{
    grant_from_outcome, outcome_answer, pkcheck_program_ok, unique_bus_name,
    PkcheckAuthorizationChecker, PkcheckCommandOutcome, PkcheckCommandRunner,
    PolkitAuthorizationError, PolkitAuthorizationRequest,
};
use crate::privileged_helper::{decimal_text, number_text};
use crate::request_store::{
    request_state_name, FilePreparedActivationRequestStore, RequestState,
    DEFAULT_PREPARED_REQUEST_ROOT,
};
use crate::system::{
    SystemAuthorityClass, SystemCandidateAction, SystemCandidateOperation, SystemEffectClass,
    SystemOperationViolation,
};
use crate::text::{
    ascii_chars, bytes_equal, decimal, hex_of_text, is_ascii_bytes, lemma_decimal_round_trip,
    lemma_hex_text_round_trip, lemma_utf8_round_trip, same_texts, str_eq, texts_view, utf8,
};

verus! {

pub const DEFAULT_MATERIALIZATION_ADMISSION_ROOT: &'static str =
    "/var/lib/theblob/materialization-admissions";

pub const DEFAULT_PUBLISHED_AUTHORIZATION_TTL_MS: u64 = 120000;

pub const MAX_MATERIALIZATION_ADMISSION_BYTES: u64 = 16384;

/// The most provenance lines an admission may carry.
pub const MAX_ADMISSION_PROVENANCE: usize = 128;

/// One verified, root-admitted materialization result.
#[derive(Clone, Debug, PartialEq, Eq)]
pub struct MaterializationAdmission {
    pub node: NodeId,
    pub candidate: SystemCandidateId,
    pub system_spec: SystemSpecId,
    pub materialization_operation: SystemOperationId,
    pub system_closure: String,
    pub admitted_at_unix_ms: u64,
    pub provenance: Vec<String>,
}

pub struct AdmissionView {
    pub node: Seq<char>,
    pub candidate: Seq<char>,
    pub system_spec: Seq<char>,
    pub materialization_operation: Seq<char>,
    pub system_closure: Seq<char>,
    pub admitted_at_unix_ms: u64,
    pub provenance: Seq<Seq<char>>,
}

impl View for MaterializationAdmission {
    type V = AdmissionView;

    open spec fn view(&self) -> AdmissionView {
        AdmissionView {
            node: self.node@,
            candidate: self.candidate@,
            system_spec: self.system_spec@,
            materialization_operation: self.materialization_operation@,
            system_closure: self.system_closure@,
            admitted_at_unix_ms: self.admitted_at_unix_ms,
            provenance: texts_view(self.provenance@),
        }
    }
}

#[derive(Clone, Debug, PartialEq, Eq)]
pub enum MaterializationAdmissionError {
    Missing(SystemOperationId),
    InvalidRoot,
    InvalidFile,
    TooLarge,
    Malformed(String),
    NonCanonical,
    OperationMismatch,
    InvalidSystemClosure,
    Io(String),
}

/// The kind of an admission failure, without its message.
#[derive(Clone, Debug, PartialEq, Eq)]
pub enum AdmissionFailure {
    TooLarge,
    Malformed,
    InvalidSystemClosure,
    OperationMismatch,
    NonCanonical,
}

pub open spec fn admission_failure(e: MaterializationAdmissionError) -> Option<AdmissionFailure> {
    match e {
        MaterializationAdmissionError::TooLarge => Some(AdmissionFailure::TooLarge),
        MaterializationAdmissionError::Malformed(_) => Some(AdmissionFailure::Malformed),
        MaterializationAdmissionError::InvalidSystemClosure => Some(
            AdmissionFailure::InvalidSystemClosure,
        ),
        MaterializationAdmissionError::OperationMismatch => Some(AdmissionFailure::OperationMismatch),
        MaterializationAdmissionError::NonCanonical => Some(AdmissionFailure::NonCanonical),
        _ => None,
    }
}

/// Rejects a closure that is not exactly one store object.
pub fn validate_store_closure(value: &str) -> (r: Result<(), MaterializationAdmissionError>)
    ensures
        r is Ok <==> is_exact_store_path(utf8(value@)),
        r matches Err(e) ==> e == MaterializationAdmissionError::InvalidSystemClosure,
{
    if exact_store_path(value.as_bytes()) {
        Ok(())
    } else {
        Err(MaterializationAdmissionError::InvalidSystemClosure)
    }
}

pub open spec fn provenance_key(i: nat) -> Seq<u8> {
    indexed_key(utf8("provenance-"@), i, Seq::<u8>::empty())
}

pub open spec fn admission_lines(v: AdmissionView) -> Seq<Seq<u8>> {
    seq![
        utf8("theblob-materialization-admission-v1"@),
        field_line(utf8("materialization-operation"@), hex_of_text(v.materialization_operation)),
        field_line(utf8("node"@), hex_of_text(v.node)),
        field_line(utf8("candidate"@), hex_of_text(v.candidate)),
        field_line(utf8("system-spec"@), hex_of_text(v.system_spec)),
        field_line(utf8("system-closure"@), hex_of_text(v.system_closure)),
        field_line(utf8("admitted-at-unix-ms"@), decimal(v.admitted_at_unix_ms as nat)),
        field_line(utf8("provenance-count"@), decimal(v.provenance.len())),
    ] + Seq::new(
        v.provenance.len(),
        |i: int| field_line(provenance_key(i as nat), hex_of_text(v.provenance[i])),
    )
}

/// The canonical UTF-8 bytes of an admission.
pub open spec fn admission_text(v: AdmissionView) -> Seq<u8> {
    lines_text(admission_lines(v))
}

pub open spec fn admission_fields(ls: Seq<Seq<u8>>) -> Option<AdmissionView> {
    if ls.len() >= 9 && ls[0] == utf8("theblob-materialization-admission-v1"@) && hex_text_field(
        ls[1],
        utf8("materialization-operation"@),
        false,
    ) is Some && hex_text_field(ls[2], utf8("node"@), false) is Some && hex_text_field(
        ls[3],
        utf8("candidate"@),
        false,
    ) is Some && hex_text_field(ls[4], utf8("system-spec"@), false) is Some && hex_text_field(
        ls[5],
        utf8("system-closure"@),
        false,
    ) is Some && u64_field(ls[6], utf8("admitted-at-unix-ms"@)) is Some && count_field(
        ls[7],
        utf8("provenance-count"@),
        MAX_ADMISSION_PROVENANCE as nat,
    ) is Some && ls.len() == 9 + count_field(
        ls[7],
        utf8("provenance-count"@),
        MAX_ADMISSION_PROVENANCE as nat,
    )->0 && (forall|i: int|
        0 <= i < ls.len() - 9 ==> (#[trigger] hex_text_field(
            ls[8 + i],
            provenance_key(i as nat),
            false,
        )) is Some) && ls[ls.len() - 1].len() == 0 {
        Some(
            AdmissionView {
                materialization_operation: hex_text_field(
                    ls[1],
                    utf8("materialization-operation"@),
                    false,
                )->0,
                node: hex_text_field(ls[2], utf8("node"@), false)->0,
                candidate: hex_text_field(ls[3], utf8("candidate"@), false)->0,
                system_spec: hex_text_field(ls[4], utf8("system-spec"@), false)->0,
                system_closure: hex_text_field(ls[5], utf8("system-closure"@), false)->0,
                admitted_at_unix_ms: u64_field(ls[6], utf8("admitted-at-unix-ms"@))->0,
                provenance: Seq::new(
                    (ls.len() - 9) as nat,
                    |i: int| hex_text_field(ls[8 + i], provenance_key(i as nat), false)->0,
                ),
            },
        )
    } else {
        None
    }
}

/// What `parse_materialization_admission` decides for the UTF-8 bytes of a text.
pub open spec fn parse_admission_result(b: Seq<u8>) -> Result<AdmissionView, AdmissionFailure> {
    if b.len() > MAX_MATERIALIZATION_ADMISSION_BYTES {
        Err(AdmissionFailure::TooLarge)
    } else {
        match admission_fields(split_lines(b)) {
            None => Err(AdmissionFailure::Malformed),
            Some(v) => if !is_exact_store_path(utf8(v.system_closure)) {
                Err(AdmissionFailure::InvalidSystemClosure)
            } else {
                Ok(v)
            },
        }
    }
}

proof fn lemma_admission_literals()
    ensures
        plain_ascii("theblob-materialization-admission-v1"@),
        plain_ascii("materialization-operation"@),
        plain_ascii("node"@),
        plain_ascii("candidate"@),
        plain_ascii("system-spec"@),
        plain_ascii("system-closure"@),
        plain_ascii("admitted-at-unix-ms"@),
        plain_ascii("provenance-count"@),
        plain_ascii("provenance-"@),
        plain_ascii(""@),
{
    reveal_strlit("theblob-materialization-admission-v1");
    reveal_strlit("materialization-operation");
    reveal_strlit("node");
    reveal_strlit("candidate");
    reveal_strlit("system-spec");
    reveal_strlit("system-closure");
    reveal_strlit("admitted-at-unix-ms");
    reveal_strlit("provenance-count");
    reveal_strlit("provenance-");
    reveal_strlit("");
}

proof fn lemma_admission_lines_plain(v: AdmissionView)
    ensures
        all_lines_plain(admission_lines(v)),
        forall|k: int| 0 <= k < admission_lines(v).len() ==> is_ascii_bytes(#[trigger] admission_lines(v)[k]),
{
    lemma_admission_literals();
    crate::lines::lemma_plain_ascii_bytes("theblob-materialization-admission-v1"@);
    lemma_hex_line("materialization-operation"@, v.materialization_operation);
    lemma_hex_line("node"@, v.node);
    lemma_hex_line("candidate"@, v.candidate);
    lemma_hex_line("system-spec"@, v.system_spec);
    lemma_hex_line("system-closure"@, v.system_closure);
    lemma_decimal_line("admitted-at-unix-ms"@, v.admitted_at_unix_ms as nat);
    lemma_decimal_line("provenance-count"@, v.provenance.len());
    let ls = admission_lines(v);
    assert forall|k: int| 8 <= k < ls.len() implies no_newline(#[trigger] ls[k]) && is_ascii_bytes(
        ls[k],
    ) by {
        lemma_indexed_key_plain("provenance-"@, (k - 8) as nat, ""@);
        crate::lines::lemma_empty_utf8();
        lemma_hex_line_bytes(provenance_key((k - 8) as nat), v.provenance[k - 8]);
    }
}

/// Serializes an admission in its versioned, field-ordered, hex-encoded form.
pub fn canonical_materialization_admission(admission: &MaterializationAdmission) -> (r: String)
    ensures
        utf8(r@) == admission_text(admission@),
        r@ == ascii_chars(admission_text(admission@)),
{
    let mut w = RecordWriter::new();
    w.literal("theblob-materialization-admission-v1");
    w.hex_field("materialization-operation".as_bytes(), admission.materialization_operation.as_str());
    w.hex_field("node".as_bytes(), admission.node.as_str());
    w.hex_field("candidate".as_bytes(), admission.candidate.as_str());
    w.hex_field("system-spec".as_bytes(), admission.system_spec.as_str());
    w.hex_field("system-closure".as_bytes(), admission.system_closure.as_str());
    w.decimal_field("admitted-at-unix-ms".as_bytes(), admission.admitted_at_unix_ms);
    w.decimal_field("provenance-count".as_bytes(), admission.provenance.len() as u64);
    let ghost v = admission@;
    let ghost head = w.lines();
    let mut i: usize = 0;
    while i < admission.provenance.len()
        invariant
            v == admission@,
            i <= admission.provenance@.len(),
            w.inv(),
            head.len() == 8,
            w.lines() == head + Seq::new(
                i as nat,
                |j: int| field_line(provenance_key(j as nat), hex_of_text(v.provenance[j])),
            ),
        decreases admission.provenance.len() - i,
    {
        let key = make_indexed_key("provenance-", i as u64, "");
        proof {
            crate::lines::lemma_empty_utf8();
            assert(key@ =~= provenance_key(i as nat));
            assert(v.provenance[i as int] == admission.provenance@[i as int]@);
        }
        w.hex_field(key.as_slice(), admission.provenance[i].as_str());
        i = i + 1;
        assert(w.lines() =~= head + Seq::new(
            i as nat,
            |j: int| field_line(provenance_key(j as nat), hex_of_text(v.provenance[j])),
        ));
    }
    proof {
        assert(w.lines() =~= admission_lines(v));
        lemma_admission_lines_plain(v);
    }
    w.finish()
}

fn malformed(what: &str) -> (e: MaterializationAdmissionError)
    ensures
        e is Malformed,
{
    let mut m = "malformed admission: ".to_owned();
    m.append(what);
    MaterializationAdmissionError::Malformed(m)
}

/// Reads an admission record, rejecting any deviation from its exact field order.
pub fn parse_materialization_admission(text: &str) -> (r: Result<MaterializationAdmission, MaterializationAdmissionError>)
    ensures
        match r {
            Ok(a) => parse_admission_result(utf8(text@)) == Ok::<AdmissionView, AdmissionFailure>(a@),
            Err(e) => admission_failure(e) matches Some(f) && parse_admission_result(utf8(text@))
                == Err::<AdmissionView, AdmissionFailure>(f),
        },
{
    let bytes = text.as_bytes();
    if bytes.len() as u64 > MAX_MATERIALIZATION_ADMISSION_BYTES {
        return Err(MaterializationAdmissionError::TooLarge);
    }
    let mut c = LineCursor::new(bytes);
    let ghost ls = c.lines();
    if !c.literal("theblob-materialization-admission-v1".as_bytes()) {
        return Err(malformed("header"));
    }
    let materialization_operation = match c.hex_field("materialization-operation".as_bytes(), false) {
        Some(v) => v,
        None => return Err(malformed("materialization-operation")),
    };
    let node = match c.hex_field("node".as_bytes(), false) {
        Some(v) => v,
        None => return Err(malformed("node")),
    };
    let candidate = match c.hex_field("candidate".as_bytes(), false) {
        Some(v) => v,
        None => return Err(malformed("candidate")),
    };
    let system_spec = match c.hex_field("system-spec".as_bytes(), false) {
        Some(v) => v,
        None => return Err(malformed("system-spec")),
    };
    let system_closure = match c.hex_field("system-closure".as_bytes(), false) {
        Some(v) => v,
        None => return Err(malformed("system-closure")),
    };
    let admitted_at_unix_ms = match c.u64_field("admitted-at-unix-ms".as_bytes()) {
        Some(v) => v,
        None => return Err(malformed("admitted-at-unix-ms")),
    };
    let count = match c.count_field("provenance-count".as_bytes(), MAX_ADMISSION_PROVENANCE) {
        Some(v) => v,
        None => return Err(malformed("provenance-count")),
    };
    let mut provenance: Vec<String> = Vec::new();
    let mut i: usize = 0;
    while i < count
        invariant
            c.lines() == ls,
            c.position() == 8 + i,
            ls == split_lines(utf8(text@)),
            utf8(text@).len() <= MAX_MATERIALIZATION_ADMISSION_BYTES,
            ls.len() >= 8,
            count_field(ls[7], utf8("provenance-count"@), MAX_ADMISSION_PROVENANCE as nat) == Some(
                count as nat,
            ),
            i <= count,
            count <= MAX_ADMISSION_PROVENANCE,
            provenance@.len() == i,
            forall|j: int|
                0 <= j < i ==> (#[trigger] hex_text_field(ls[8 + j], provenance_key(j as nat), false))
                    == Some(provenance@[j]@),
        decreases count - i,
    {
        let key = make_indexed_key("provenance-", i as u64, "");
        proof {
            crate::lines::lemma_empty_utf8();
            assert(key@ =~= provenance_key(i as nat));
        }
        match c.hex_field(key.as_slice(), false) {
            Some(v) => provenance.push(v),
            None => {
                proof {
                    let ii = i as int;
                    if ls.len() > 8 + ii {
                        assert(hex_text_field(ls[8 + ii], provenance_key(ii as nat), false) is None);
                    }
                    assert(admission_fields(ls) is None);
                }
                return Err(malformed("provenance"));
            },
        }
        i = i + 1;
    }
    if !c.finish() {
        return Err(malformed("trailing or missing data"));
    }
    let admission = MaterializationAdmission {
        node,
        candidate,
        system_spec,
        materialization_operation,
        system_closure,
        admitted_at_unix_ms,
        provenance,
    };
    proof {
        assert(ls.len() == 9 + count);
        assert(texts_view(admission.provenance@) =~= Seq::new(
            (ls.len() - 9) as nat,
            |j: int| hex_text_field(ls[8 + j], provenance_key(j as nat), false)->0,
        ));
        assert(admission_fields(ls) == Some(admission@));
    }
    validate_store_closure(admission.system_closure.as_str())?;
    Ok(admission)
}

/// Reading the canonical text of an admission with an exact closure gives it back.
pub proof fn lemma_admission_round_trip(v: AdmissionView)
    requires
        is_exact_store_path(utf8(v.system_closure)),
        v.provenance.len() <= MAX_ADMISSION_PROVENANCE,
        admission_text(v).len() <= MAX_MATERIALIZATION_ADMISSION_BYTES,
    ensures
        parse_admission_result(admission_text(v)) == Ok::<AdmissionView, AdmissionFailure>(v),
{
    let ls = admission_lines(v);
    lemma_admission_lines_plain(v);
    lemma_split_lines_text(ls);
    let sp = split_lines(admission_text(v));
    assert(sp == ls.push(Seq::<u8>::empty()));
    let n = v.provenance.len();
    assert(sp.len() == 9 + n);
    lemma_field_line(utf8("materialization-operation"@), hex_of_text(v.materialization_operation));
    lemma_field_line(utf8("node"@), hex_of_text(v.node));
    lemma_field_line(utf8("candidate"@), hex_of_text(v.candidate));
    lemma_field_line(utf8("system-spec"@), hex_of_text(v.system_spec));
    lemma_field_line(utf8("system-closure"@), hex_of_text(v.system_closure));
    lemma_field_line(utf8("admitted-at-unix-ms"@), decimal(v.admitted_at_unix_ms as nat));
    lemma_field_line(utf8("provenance-count"@), decimal(n));
    lemma_hex_text_round_trip(v.materialization_operation, false);
    lemma_hex_text_round_trip(v.node, false);
    lemma_hex_text_round_trip(v.candidate, false);
    lemma_hex_text_round_trip(v.system_spec, false);
    lemma_hex_text_round_trip(v.system_closure, false);
    lemma_decimal_round_trip(v.admitted_at_unix_ms as nat);
    lemma_decimal_round_trip(n);
    assert(sp[1] == ls[1]);
    assert(sp[2] == ls[2]);
    assert(sp[3] == ls[3]);
    assert(sp[4] == ls[4]);
    assert(sp[5] == ls[5]);
    assert(sp[6] == ls[6]);
    assert(sp[7] == ls[7]);
    assert(count_field(sp[7], utf8("provenance-count"@), MAX_ADMISSION_PROVENANCE as nat) == Some(n));
    assert forall|i: int| 0 <= i < sp.len() - 9 implies (#[trigger] hex_text_field(
        sp[8 + i],
        provenance_key(i as nat),
        false,
    )) == Some(v.provenance[i]) by {
        assert(sp[8 + i] == ls[8 + i]);
        lemma_field_line(provenance_key(i as nat), hex_of_text(v.provenance[i]));
        lemma_hex_text_round_trip(v.provenance[i], false);
    }
    assert(sp[sp.len() - 1] == Seq::<u8>::empty());
    let got = admission_fields(sp)->0;
    assert(got.provenance =~= v.provenance);
    assert(admission_fields(sp) == Some(v));
}

/// The root-owned store of materialization admissions.
#[derive(Clone, Debug, PartialEq, Eq)]
pub struct FileMaterializationAdmissionStore {
    root: String,
    expected_owner_uid: u32,
}

impl FileMaterializationAdmissionStore {
    pub closed spec fn root_spec(&self) -> Seq<char> {
        self.root@
    }

    pub closed spec fn owner(&self) -> u32 {
        self.expected_owner_uid
    }

    pub fn production_default() -> (r: Self)
        ensures
            r.root_spec() == DEFAULT_MATERIALIZATION_ADMISSION_ROOT@,
            r.owner() == 0,
    {
        Self::new(DEFAULT_MATERIALIZATION_ADMISSION_ROOT, 0)
    }

    pub fn new(root: &str, expected_owner_uid: u32) -> (r: Self)
        ensures
            r.root_spec() == root@,
            r.owner() == expected_owner_uid,
    {
        FileMaterializationAdmissionStore { root: root.to_owned(), expected_owner_uid }
    }

    pub fn root(&self) -> (r: &str)
        ensures
            r@ == self.root_spec(),
    {
        self.root.as_str()
    }

    pub fn expected_owner_uid(&self) -> (r: u32)
        ensures
            r == self.owner(),
    {
        self.expected_owner_uid
    }

    /// `<root>/operation-<hex>.admission`.
    pub fn path(&self, operation: &str) -> (r: String)
        ensures
            utf8(r@) == join(
                utf8(self.root_spec()),
                utf8("operation-"@) + hex_of_text(operation@) + utf8(".admission"@),
            ),
    {
        let name = hex_name("operation-", operation, ".admission");
        join_name(self.root.as_str(), name.as_slice())
    }

    /// The checks `load` makes once it has read the root directory's metadata,
    /// the file's metadata and the file's text.
    pub fn check_loaded(
        &self,
        operation: &str,
        root_facts: &FileFacts,
        file_facts: &FileFacts,
        text: &str,
    ) -> (r: Result<MaterializationAdmission, MaterializationAdmissionError>)
        ensures
            !protected_directory(*root_facts, self.owner()) ==> r == Err::<
                MaterializationAdmission,
                MaterializationAdmissionError,
            >(MaterializationAdmissionError::InvalidRoot),
            protected_directory(*root_facts, self.owner()) && !protected_file(*file_facts, self.owner())
                ==> r == Err::<MaterializationAdmission, MaterializationAdmissionError>(
                MaterializationAdmissionError::InvalidFile,
            ),
            protected_directory(*root_facts, self.owner()) && protected_file(*file_facts, self.owner())
                ==> match r {
                Ok(a) => admission_text_outcome(file_facts.len, text@, operation@) == Ok::<
                    AdmissionView,
                    AdmissionFailure,
                >(a@),
                Err(e) => admission_failure(e) matches Some(f) && admission_text_outcome(
                    file_facts.len,
                    text@,
                    operation@,
                ) == Err::<AdmissionView, AdmissionFailure>(f),
            },
    {
        if !is_protected_directory(root_facts, self.expected_owner_uid) {
            return Err(MaterializationAdmissionError::InvalidRoot);
        }
        if !is_protected_file(file_facts, self.expected_owner_uid) {
            return Err(MaterializationAdmissionError::InvalidFile);
        }
        check_admission_text(file_facts.len, text, operation)
    }
}

/// The checks on an admission file of `len` bytes holding `text` for `operation`:
/// size, exact parse, operation identity, canonical form and closure shape.
pub open spec fn admission_text_outcome(len: u64, text: Seq<char>, operation: Seq<char>) -> Result<
    AdmissionView,
    AdmissionFailure,
> {
    if len > MAX_MATERIALIZATION_ADMISSION_BYTES {
        Err(AdmissionFailure::TooLarge)
    } else {
        match parse_admission_result(utf8(text)) {
            Err(f) => Err(f),
            Ok(v) => if v.materialization_operation != operation {
                Err(AdmissionFailure::OperationMismatch)
            } else if admission_text(v) != utf8(text) {
                Err(AdmissionFailure::NonCanonical)
            } else {
                Ok(v)
            },
        }
    }
}

/// Decides whether a loaded admission text is the exact admission of `operation`.
pub fn check_admission_text(len: u64, text: &str, operation: &str) -> (r: Result<MaterializationAdmission, MaterializationAdmissionError>)
    ensures
        match r {
            Ok(a) => admission_text_outcome(len, text@, operation@) == Ok::<AdmissionView, AdmissionFailure>(a@),
            Err(e) => admission_failure(e) matches Some(f) && admission_text_outcome(len, text@, operation@)
                == Err::<AdmissionView, AdmissionFailure>(f),
        },
{
    if len > MAX_MATERIALIZATION_ADMISSION_BYTES {
        return Err(MaterializationAdmissionError::TooLarge);
    }
    let admission = parse_materialization_admission(text)?;
    if !str_eq(admission.materialization_operation.as_str(), operation) {
        return Err(MaterializationAdmissionError::OperationMismatch);
    }
    let canonical = canonical_materialization_admission(&admission);
    if !bytes_equal(canonical.as_str().as_bytes(), text.as_bytes()) {
        return Err(MaterializationAdmissionError::NonCanonical);
    }
    Ok(admission)
}


/// Field-by-field equality of two admissions.
pub fn same_admission(a: &MaterializationAdmission, b: &MaterializationAdmission) -> (r: bool)
    ensures
        r == (a@ == b@),
{
    let r = str_eq(a.node.as_str(), b.node.as_str()) && str_eq(a.candidate.as_str(), b.candidate.as_str())
        && str_eq(a.system_spec.as_str(), b.system_spec.as_str()) && str_eq(
        a.materialization_operation.as_str(),
        b.materialization_operation.as_str(),
    ) && str_eq(a.system_closure.as_str(), b.system_closure.as_str()) && a.admitted_at_unix_ms
        == b.admitted_at_unix_ms && same_texts(&a.provenance, &b.provenance);
    proof {
        if a@ == b@ {
            assert(a@.provenance == b@.provenance);
        }
    }
    r
}


// ---------------------------------------------------------------------------
// Publishing prepared activation requests
// ---------------------------------------------------------------------------

/// A request root published, and the caller it was authorized for.
#[derive(Clone, Debug, PartialEq, Eq)]
pub struct PublishedPreparedActivation {
    pub authorization: String,
    pub authorized_system_bus_name: String,
    pub request_path: String,
    pub prepared: PreparedPrivilegedActivation,
}

#[derive(Clone, Debug, PartialEq, Eq)]
pub enum PreparedRequestPublishError {
    Admission(MaterializationAdmissionError),
    AdmissionNodeMismatch,
    /// The read-only probe of the host failed.
    Probe(String),
    /// The node's readiness failed the physical-test profile, for these reasons.
    ReadinessRejected(Vec<String>),
    Plan(ImmutableActivationError),
    Polkit(PolkitAuthorizationError),
    ClockOverflow,
    RandomSource(String),
    InvalidRequestRoot,
    RequestAlreadyExists(String),
    InvalidCreatedRequest,
    Io(String),
}

/// The readiness of the local node, as observed and accepted for the action.
pub struct NodeReadiness {
    pub node: String,
    pub observed_at_unix_ms: u64,
    pub evidence: Vec<String>,
}

/// The request root and its four state directories, as observed.
pub struct RequestLayoutFacts {
    pub root: FileFacts,
    pub ready: FileFacts,
    pub inflight: FileFacts,
    pub completed: FileFacts,
    pub failed: FileFacts,
}

pub open spec fn request_layout_ok(f: RequestLayoutFacts, owner: u32) -> bool {
    &&& protected_directory(f.root, owner)
    &&& protected_directory(f.ready, owner)
    &&& protected_directory(f.inflight, owner)
    &&& protected_directory(f.completed, owner)
    &&& protected_directory(f.failed, owner)
}

/// Root's publisher of exact, polkit-authorized activation requests.
pub struct RootPreparedActivationPublisher {
    pub local_node: String,
    pub admissions: FileMaterializationAdmissionStore,
    pub request_root: String,
    pub expected_owner_uid: u32,
    pub authorization_ttl_ms: u64,
}

/// The operation a published request runs.
pub open spec fn published_operation(
    nonce: Seq<char>,
    a: AdmissionView,
    action: SystemCandidateAction,
) -> (Seq<char>, Seq<char>, Seq<char>, SystemCandidateAction) {
    ("op:published-"@ + nonce, a.candidate, a.system_spec, action)
}

/// Why the planner refuses `op` on an admitted closure when the operation's own
/// policy check passed, checked in the planner's order.
pub open spec fn plan_refusal(op: SystemCandidateOperation, a: AdmissionView) -> Option<ImmutableActivationError> {
    if !is_exact_store_path(utf8(a.system_closure)) {
        Some(ImmutableActivationError::InvalidNixStoreClosure)
    } else if op.candidate@ != a.candidate {
        Some(ImmutableActivationError::CandidateMismatch)
    } else if op.system_spec@ != a.system_spec {
        Some(ImmutableActivationError::SystemSpecMismatch)
    } else if activation_mode(op.action) is None {
        Some(ImmutableActivationError::UnsupportedAction(op.action))
    } else {
        None
    }
}

/// What a publication refuses before `pkcheck` runs: the plan (the operation's
/// policy, the admitted closure, the action), the authorization clock, the
/// caller's bus name and the `pkcheck` program, in that order. What follows
/// `pkcheck`'s answer is `publish_granted`'s.
pub open spec fn refused_before_polkit(
    a: AdmissionView,
    action: SystemCandidateAction,
    policy: Result<(), Vec<SystemOperationViolation>>,
    observed_at_unix_ms: u64,
    ttl: u64,
    bus_name: Seq<char>,
    pkcheck_program: Seq<char>,
    r: Result<PublishedPreparedActivation, PreparedRequestPublishError>,
) -> bool {
    match policy {
        Err(v) => r matches Err(
            PreparedRequestPublishError::Plan(ImmutableActivationError::InvalidOperation(w)),
        ) && w@ == v@,
        Ok(()) => if !is_exact_store_path(utf8(a.system_closure)) {
            r == Err::<PublishedPreparedActivation, PreparedRequestPublishError>(
                PreparedRequestPublishError::Plan(ImmutableActivationError::InvalidNixStoreClosure),
            )
        } else if activation_mode(action) is None {
            r == Err::<PublishedPreparedActivation, PreparedRequestPublishError>(
                PreparedRequestPublishError::Plan(ImmutableActivationError::UnsupportedAction(action)),
            )
        } else if observed_at_unix_ms + ttl > u64::MAX {
            r == Err::<PublishedPreparedActivation, PreparedRequestPublishError>(
                PreparedRequestPublishError::ClockOverflow,
            )
        } else if !unique_bus_name(utf8(bus_name)) {
            r == Err::<PublishedPreparedActivation, PreparedRequestPublishError>(
                PreparedRequestPublishError::Polkit(PolkitAuthorizationError::InvalidSystemBusName),
            )
        } else if !pkcheck_program_ok(pkcheck_program) {
            r == Err::<PublishedPreparedActivation, PreparedRequestPublishError>(
                PreparedRequestPublishError::Polkit(PolkitAuthorizationError::InvalidPkcheckProgram),
            )
        } else {
            r is Ok || r matches Err(PreparedRequestPublishError::Polkit(_)) || r == Err::<
                PublishedPreparedActivation,
                PreparedRequestPublishError,
            >(PreparedRequestPublishError::InvalidRequestRoot) || r matches Err(
                PreparedRequestPublishError::RequestAlreadyExists(_),
            )
        },
    }
}

/// A granted publication of `prepared`: the request layout must be root-owned
/// and closed, no file of the authorization may exist yet, and then the request
/// is published in `ready` for the granted caller.
pub open spec fn granted_publication(
    request_root: Seq<char>,
    owner: u32,
    prepared: PreparedPrivilegedActivation,
    granted_bus_name: Seq<char>,
    layout: RequestLayoutFacts,
    existing: Seq<bool>,
    r: Result<PublishedPreparedActivation, PreparedRequestPublishError>,
) -> bool {
    if !request_layout_ok(layout, owner) {
        r == Err::<PublishedPreparedActivation, PreparedRequestPublishError>(
            PreparedRequestPublishError::InvalidRequestRoot,
        )
    } else if existing.contains(true) {
        r matches Err(PreparedRequestPublishError::RequestAlreadyExists(a)) && a@ == prepared.authorization@
    } else {
        r matches Ok(p) && p.prepared == prepared && p.authorization@ == prepared.authorization@
            && p.authorized_system_bus_name@ == granted_bus_name && utf8(p.request_path@) == join(
            join(utf8(request_root), utf8(request_state_name(RequestState::Ready))),
            utf8("authorization-"@) + hex_of_text(prepared.authorization@) + utf8(".request"@),
        )
    }
}

/// The prepared request built from an admission, a readiness record and a nonce.
pub open spec fn prepared_of(
    a: AdmissionView,
    op: SystemCandidateOperation,
    readiness_node: Seq<char>,
    observed_at: u64,
    readiness_evidence: Seq<Seq<char>>,
    nonce: Seq<char>,
    ttl: u64,
    plan: PlanView,
) -> PreparedView {
    let expires = (observed_at + ttl) as u64;
    PreparedView {
        node: readiness_node,
        readiness_observed_at_unix_ms: observed_at,
        authorization: "auth:published-"@ + nonce,
        authorization_expires_at_unix_ms: expires,
        prepared_at_unix_ms: observed_at,
        plan,
        readiness_evidence: readiness_evidence.push(
            "materialization-admission:"@ + a.materialization_operation,
        ),
        authorization_evidence: seq![
            "authorization:"@ + "auth:published-"@ + nonce,
            "expires-at-unix-ms:"@ + number_text(expires as nat),
            "grant-stage:root-request-publisher-polkit"@,
        ],
    }
}

fn labelled(label: &str, value: &str) -> (r: String)
    ensures
        r@ == label@ + value@,
{
    let mut r = label.to_owned();
    r.append(value);
    r
}

/// The authorization id of a request published with `nonce`.
pub fn published_authorization(nonce: &str) -> (r: String)
    ensures
        r@ == "auth:published-"@ + nonce@,
{
    labelled("auth:published-", nonce)
}

impl RootPreparedActivationPublisher {
    pub fn production_default(local_node: &str) -> (r: Self)
        ensures
            r.local_node@ == local_node@,
            r.admissions.root_spec() == DEFAULT_MATERIALIZATION_ADMISSION_ROOT@,
            r.admissions.owner() == 0,
            r.request_root@ == DEFAULT_PREPARED_REQUEST_ROOT@,
            r.expected_owner_uid == 0,
            r.authorization_ttl_ms == DEFAULT_PUBLISHED_AUTHORIZATION_TTL_MS,
    {
        Self::new(
            local_node,
            DEFAULT_MATERIALIZATION_ADMISSION_ROOT,
            DEFAULT_PREPARED_REQUEST_ROOT,
            0,
            DEFAULT_PUBLISHED_AUTHORIZATION_TTL_MS,
        )
    }

    pub fn new(
        local_node: &str,
        admission_root: &str,
        request_root: &str,
        expected_owner_uid: u32,
        authorization_ttl_ms: u64,
    ) -> (r: Self)
        ensures
            r.local_node@ == local_node@,
            r.admissions.root_spec() == admission_root@,
            r.admissions.owner() == expected_owner_uid,
            r.request_root@ == request_root@,
            r.expected_owner_uid == expected_owner_uid,
            r.authorization_ttl_ms == authorization_ttl_ms,
    {
        RootPreparedActivationPublisher {
            local_node: local_node.to_owned(),
            admissions: FileMaterializationAdmissionStore::new(admission_root, expected_owner_uid),
            request_root: request_root.to_owned(),
            expected_owner_uid,
            authorization_ttl_ms,
        }
    }

    /// `<request root>/<state>/authorization-<hex>.request`.
    pub fn state_path(&self, state: RequestState, authorization: &str) -> (r: String)
        ensures
            utf8(r@) == join(
                join(utf8(self.request_root@), utf8(request_state_name(state))),
                utf8("authorization-"@) + hex_of_text(authorization@) + utf8(".request"@),
            ),
    {
        let store = FilePreparedActivationRequestStore::new(self.request_root.as_str(), self.expected_owner_uid);
        store.request_path(state, authorization)
    }

    /// The operation of a published request: `op:published-<nonce>` on the admitted
    /// candidate, with the effect class and authority the system model gives `action`.
    pub fn published_operation(
        nonce: &str,
        admission: &MaterializationAdmission,
        action: SystemCandidateAction,
        effect_class: SystemEffectClass,
        authority: SystemAuthorityClass,
    ) -> (r: SystemCandidateOperation)
        ensures
            (r.id@, r.candidate@, r.system_spec@, r.action) == published_operation(nonce@, admission@, action),
            r.effect_class == effect_class,
            r.authority == authority,
    {
        SystemCandidateOperation {
            id: labelled("op:published-", nonce),
            candidate: admission.candidate.clone(),
            system_spec: admission.system_spec.clone(),
            action,
            effect_class,
            authority,
        }
    }

    /// Builds the exact request for an admission: the plan from the admitted closure,
    /// the readiness record, and an authorization that expires `ttl` after readiness.
    pub fn build_prepared(
        &self,
        admission: &MaterializationAdmission,
        operation: &SystemCandidateOperation,
        policy: Result<(), Vec<SystemOperationViolation>>,
        readiness: &NodeReadiness,
        nonce: &str,
    ) -> (r: Result<PreparedPrivilegedActivation, PreparedRequestPublishError>)
        ensures
            policy matches Err(v) ==> (r matches Err(
                PreparedRequestPublishError::Plan(ImmutableActivationError::InvalidOperation(w)),
            ) && w@ == v@),
            policy is Ok ==> match plan_refusal(*operation, admission@) {
                Some(e) => r == Err::<PreparedPrivilegedActivation, PreparedRequestPublishError>(
                    PreparedRequestPublishError::Plan(e),
                ),
                None => if readiness.observed_at_unix_ms + self.authorization_ttl_ms > u64::MAX {
                    r == Err::<PreparedPrivilegedActivation, PreparedRequestPublishError>(
                        PreparedRequestPublishError::ClockOverflow,
                    )
                } else {
                    r matches Ok(p) && p@ == prepared_of(
                        admission@,
                        *operation,
                        readiness.node@,
                        readiness.observed_at_unix_ms,
                        texts_view(readiness.evidence@),
                        nonce@,
                        self.authorization_ttl_ms,
                        planned(
                            *operation,
                            MaterializedNixOsCandidate {
                                candidate: admission.candidate,
                                system_spec: admission.system_spec,
                                materialization_operation: admission.materialization_operation,
                                system_closure: admission.system_closure,
                            },
                        ),
                    )
                },
            },
    {
        let materialized = MaterializedNixOsCandidate {
            candidate: admission.candidate.clone(),
            system_spec: admission.system_spec.clone(),
            materialization_operation: admission.materialization_operation.clone(),
            system_closure: admission.system_closure.clone(),
        };
        let plan = match ImmutableNixOsActivationPlanner::plan(operation, policy, &materialized) {
            Ok(p) => p,
            Err(e) => return Err(PreparedRequestPublishError::Plan(e)),
        };
        let prepared_at_unix_ms = readiness.observed_at_unix_ms;
        let expires = match prepared_at_unix_ms.checked_add(self.authorization_ttl_ms) {
            Some(t) => t,
            None => return Err(PreparedRequestPublishError::ClockOverflow),
        };
        let authorization = published_authorization(nonce);
        let mut readiness_evidence = crate::text::copy_texts(&readiness.evidence);
        readiness_evidence.push(
            labelled("materialization-admission:", admission.materialization_operation.as_str()),
        );
        let mut authorization_evidence: Vec<String> = Vec::new();
        authorization_evidence.push(labelled("authorization:", authorization.as_str()));
        let expires_text = decimal_text(expires);
        authorization_evidence.push(labelled("expires-at-unix-ms:", expires_text.as_str()));
        authorization_evidence.push("grant-stage:root-request-publisher-polkit".to_owned());
        let prepared = PreparedPrivilegedActivation {
            node: readiness.node.clone(),
            readiness_observed_at_unix_ms: readiness.observed_at_unix_ms,
            authorization,
            authorization_expires_at_unix_ms: expires,
            prepared_at_unix_ms,
            plan,
            readiness_evidence,
            authorization_evidence,
        };
        proof {
            assert(prepared@.readiness_evidence =~= texts_view(readiness.evidence@).push(
                "materialization-admission:"@ + admission.materialization_operation@,
            ));
            assert(prepared@.authorization_evidence =~= seq![
                "authorization:"@ + ("auth:published-"@ + nonce@),
                "expires-at-unix-ms:"@ + number_text(expires as nat),
                "grant-stage:root-request-publisher-polkit"@,
            ]);
            assert("authorization:"@ + ("auth:published-"@ + nonce@) =~= "authorization:"@
                + "auth:published-"@ + nonce@);
        }
        Ok(prepared)
    }

    /// The request layout is root-owned and closed to others, and no file of the
    /// authorization exists yet in any state.
    pub fn check_publishable(
        &self,
        authorization: &str,
        layout: &RequestLayoutFacts,
        existing: &Vec<bool>,
    ) -> (r: Result<(), PreparedRequestPublishError>)
        ensures
            !request_layout_ok(*layout, self.expected_owner_uid) ==> r == Err::<
                (),
                PreparedRequestPublishError,
            >(PreparedRequestPublishError::InvalidRequestRoot),
            request_layout_ok(*layout, self.expected_owner_uid) ==> (r is Ok <==> !existing@.contains(
                true,
            )),
            request_layout_ok(*layout, self.expected_owner_uid) && existing@.contains(true) ==> (
            r matches Err(PreparedRequestPublishError::RequestAlreadyExists(a)) && a@
                == authorization@),
    {
        if !is_protected_directory(&layout.root, self.expected_owner_uid)
            || !is_protected_directory(&layout.ready, self.expected_owner_uid)
            || !is_protected_directory(&layout.inflight, self.expected_owner_uid)
            || !is_protected_directory(&layout.completed, self.expected_owner_uid)
            || !is_protected_directory(&layout.failed, self.expected_owner_uid) {
            return Err(PreparedRequestPublishError::InvalidRequestRoot);
        }
        let mut i: usize = 0;
        while i < existing.len()
            invariant
                request_layout_ok(*layout, self.expected_owner_uid),
                i <= existing@.len(),
                forall|j: int| 0 <= j < i ==> !existing@[j],
            decreases existing.len() - i,
        {
            if existing[i] {
                assert(existing@.contains(true)) by {
                    assert(existing@[i as int] == true);
                }
                return Err(PreparedRequestPublishError::RequestAlreadyExists(authorization.to_owned()));
            }
            i = i + 1;
        }
        Ok(())
    }

    /// The request file just created is root-owned and closed to others.
    pub fn check_created_request(&self, facts: &FileFacts) -> (r: Result<(), PreparedRequestPublishError>)
        ensures
            r is Ok <==> protected_file(*facts, self.expected_owner_uid),
            r is Err ==> r == Err::<(), PreparedRequestPublishError>(
                PreparedRequestPublishError::InvalidCreatedRequest,
            ),
    {
        if !is_protected_file(facts, self.expected_owner_uid) {
            return Err(PreparedRequestPublishError::InvalidCreatedRequest);
        }
        Ok(())
    }

    /// One publication, from the admission as loaded and the node's readiness: the
    /// admission must be this node's, the request is built in root, polkit must grant
    /// it to the caller, and the layout must leave room for it.
    ///
    /// The caller supplies only its bus name, the admission's operation and the action;
    /// closure, candidate, SystemSpec, readiness and argv never come from the caller.
    pub fn publish_user_initiated<R: PkcheckCommandRunner>(
        &self,
        system_bus_name: &str,
        admission: Result<MaterializationAdmission, MaterializationAdmissionError>,
        readiness: Result<NodeReadiness, PreparedRequestPublishError>,
        operation_classes: (SystemEffectClass, SystemAuthorityClass),
        action: SystemCandidateAction,
        policy: Result<(), Vec<SystemOperationViolation>>,
        nonce: Result<String, String>,
        checker: &PkcheckAuthorizationChecker<R>,
        layout: &RequestLayoutFacts,
        existing: &Vec<bool>,
    ) -> (r: Result<PublishedPreparedActivation, PreparedRequestPublishError>)
        ensures
            admission matches Err(e) ==> r == Err::<PublishedPreparedActivation, PreparedRequestPublishError>(
                PreparedRequestPublishError::Admission(e),
            ),
            admission matches Ok(a) && a.node@ != self.local_node@ ==> r == Err::<
                PublishedPreparedActivation,
                PreparedRequestPublishError,
            >(PreparedRequestPublishError::AdmissionNodeMismatch),
            admission matches Ok(a) && a.node@ == self.local_node@ ==> (readiness matches Err(e)
                ==> r == Err::<PublishedPreparedActivation, PreparedRequestPublishError>(e)),
            admission matches Ok(a) && a.node@ == self.local_node@ && readiness is Ok ==> (
            nonce matches Err(m) ==> r == Err::<PublishedPreparedActivation, PreparedRequestPublishError>(
                PreparedRequestPublishError::RandomSource(m),
            )),
            admission matches Ok(a) ==> (readiness matches Ok(rd) ==> (a.node@ == self.local_node@
                && nonce is Ok ==> refused_before_polkit(
                a@,
                action,
                policy,
                rd.observed_at_unix_ms,
                self.authorization_ttl_ms,
                system_bus_name@,
                checker.program_spec(),
                r,
            ))),
            readiness is Ok && (r matches Err(PreparedRequestPublishError::InvalidRequestRoot))
                ==> !request_layout_ok(
                *layout,
                self.expected_owner_uid,
            ),
            readiness is Ok && (r matches Err(PreparedRequestPublishError::RequestAlreadyExists(_)))
                ==> existing@.contains(
                true,
            ),
            r matches Ok(p) ==> {
                &&& admission is Ok && readiness is Ok && nonce is Ok
                &&& p.authorization@ == p.prepared.authorization@
                &&& p.prepared.authorization@ == "auth:published-"@ + nonce->Ok_0@
                &&& p.prepared.node@ == readiness->Ok_0.node@
                &&& p.prepared.plan.system_closure@ == admission->Ok_0.system_closure@
                &&& p.prepared.plan.candidate@ == admission->Ok_0.candidate@
                &&& p.prepared.plan.action == action
                &&& p.authorized_system_bus_name@ == system_bus_name@
                &&& request_layout_ok(*layout, self.expected_owner_uid)
                &&& !existing@.contains(true)
                &&& utf8(p.request_path@) == join(
                    join(utf8(self.request_root@), utf8(request_state_name(RequestState::Ready))),
                    utf8("authorization-"@) + hex_of_text(p.prepared.authorization@) + utf8(
                        ".request"@,
                    ),
                )
            },
    {
        let admission = match admission {
            Ok(a) => a,
            Err(e) => return Err(PreparedRequestPublishError::Admission(e)),
        };
        if !str_eq(admission.node.as_str(), self.local_node.as_str()) {
            return Err(PreparedRequestPublishError::AdmissionNodeMismatch);
        }
        let readiness = match readiness {
            Ok(r) => r,
            Err(e) => return Err(e),
        };
        let nonce = match nonce {
            Ok(n) => n,
            Err(m) => return Err(PreparedRequestPublishError::RandomSource(m)),
        };
        let operation = Self::published_operation(
            nonce.as_str(),
            &admission,
            action,
            operation_classes.0,
            operation_classes.1,
        );
        let prepared = self.build_prepared(&admission, &operation, policy, &readiness, nonce.as_str())?;
        let request = match PolkitAuthorizationRequest::for_prepared(system_bus_name, &prepared) {
            Ok(q) => q,
            Err(e) => return Err(PreparedRequestPublishError::Polkit(e)),
        };
        let outcome = checker.ask(&request);
        self.publish_granted(prepared, &request, outcome, layout, existing)
    }

    /// What follows polkit's answer for `request`: only a grant (`pkcheck`
    /// exit status 0) publishes, and only where the layout leaves room; the
    /// grant's caller is the one recorded.
    pub fn publish_granted(
        &self,
        prepared: PreparedPrivilegedActivation,
        request: &PolkitAuthorizationRequest,
        outcome: Result<PkcheckCommandOutcome, PolkitAuthorizationError>,
        layout: &RequestLayoutFacts,
        existing: &Vec<bool>,
    ) -> (r: Result<PublishedPreparedActivation, PreparedRequestPublishError>)
        ensures
            outcome matches Err(e) ==> r == Err::<PublishedPreparedActivation, PreparedRequestPublishError>(
                PreparedRequestPublishError::Polkit(e),
            ),
            outcome matches Ok(o) ==> (o.exit_code != Some(0i32) ==> (r matches Err(
                PreparedRequestPublishError::Polkit(e),
            ) && outcome_answer(*request, o, prepared.prepared_at_unix_ms, Err(e)))),
            outcome matches Ok(o) ==> o.exit_code == Some(0i32) ==> granted_publication(
                self.request_root@,
                self.expected_owner_uid,
                prepared,
                request.bus_name_spec(),
                *layout,
                existing@,
                r,
            ),
    {
        let outcome = match outcome {
            Ok(o) => o,
            Err(e) => return Err(PreparedRequestPublishError::Polkit(e)),
        };
        let grant = match grant_from_outcome(request, outcome, prepared.prepared_at_unix_ms) {
            Ok(g) => g,
            Err(e) => return Err(PreparedRequestPublishError::Polkit(e)),
        };
        self.check_publishable(prepared.authorization.as_str(), layout, existing)?;
        let request_path = self.state_path(RequestState::Ready, prepared.authorization.as_str());
        Ok(
            PublishedPreparedActivation {
                authorization: prepared.authorization.clone(),
                authorized_system_bus_name: grant.system_bus_name().to_owned(),
                request_path,
                prepared,
            },
        )
    }
}

} // verus!
