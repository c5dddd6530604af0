//! Leases that a materialization request holds on a trusted candidate while it
//! is being enqueued: one root-owned file per (manifest, request) pair, which
//! retirement of the candidate must wait for.
use vstd::prelude::*;
use crate::fsmeta::{is_protected_directory, is_protected_file, protected_directory, protected_file, FileFacts};
use crate::ids::SystemOperationId;
use crate::lines::{
    all_lines_plain, field_line, hex_text_field, lemma_field_line, lemma_split_lines_text,
    lines_text, plain_ascii, split_lines, u32_field, u64_field, LineCursor, RecordWriter,
};
use crate::materialization_authority::{lemma_decimal_line, lemma_hex_line};
use crate::paths::{has_extension, join, join_name, path_has_extension, path_parts, same_path};
use crate::text::{
    all_graphic, ascii_chars, bytes_equal, decimal, has_prefix, hex_encode, hex_of_text, is_ascii_bytes,
    is_graphic, lemma_ascii_chars, lemma_decimal_round_trip, lemma_hex_encode_ascii,
    lemma_hex_text_round_trip, push_all, push_hex, starts_with, str_eq, utf8,
};
use vstd::utf8::{encode_utf8_valid_utf8, valid_utf8, valid_utf8_concat};

verus! {

pub const DEFAULT_CANDIDATE_ENQUEUE_LEASE_ROOT: &'static str =
    "/var/lib/theblob/materialization-candidate-enqueue-leases";

pub const MAX_CANDIDATE_ENQUEUE_LEASE_BYTES: u64 = 16384;

pub const MAX_CANDIDATE_ENQUEUE_LEASES: usize = 4096;

/// A request's hold on a candidate manifest while it is enqueued.
#[derive(Clone, Debug, PartialEq, Eq)]
pub struct CandidateEnqueueLease {
    pub manifest_id: String,
    pub request_id: String,
    pub operation: SystemOperationId,
    pub requester_uid: u32,
    pub requester_system_bus_name: String,
    pub acquired_at_unix_ms: u64,
}

pub struct LeaseView {
    pub manifest_id: Seq<char>,
    pub request_id: Seq<char>,
    pub operation: Seq<char>,
    pub requester_uid: u32,
    pub requester_system_bus_name: Seq<char>,
    pub acquired_at_unix_ms: u64,
}

impl View for CandidateEnqueueLease {
    type V = LeaseView;

    open spec fn view(&self) -> LeaseView {
        LeaseView {
            manifest_id: self.manifest_id@,
            request_id: self.request_id@,
            operation: self.operation@,
            requester_uid: self.requester_uid,
            requester_system_bus_name: self.requester_system_bus_name@,
            acquired_at_unix_ms: self.acquired_at_unix_ms,
        }
    }
}

#[derive(Clone, Debug, PartialEq, Eq)]
pub enum CandidateEnqueueLeaseError {
    InvalidLayout,
    InvalidIdentifier,
    InvalidFile,
    TooLarge,
    Malformed,
    NonCanonical,
    CapacityExceeded,
    Missing(String),
    Conflict,
    Io(String),
}

/// Every byte printable ASCII other than the space.
pub open spec fn all_graphic_bytes(b: Seq<u8>) -> bool {
    forall|i: int| 0 <= i < b.len() ==> #[trigger] is_graphic(b[i])
}

/// An identifier: `prefix`, at most 256 bytes, all printable and without spaces.
pub open spec fn lease_id_ok(b: Seq<u8>, prefix: Seq<u8>) -> bool {
    has_prefix(b, prefix) && b.len() <= 256 && all_graphic_bytes(b)
}

/// A system-bus name: `:`, at most 128 bytes, all printable and without spaces.
pub open spec fn lease_bus_name_ok(b: Seq<u8>) -> bool {
    b.len() > 0 && b[0] == 58 && b.len() <= 128 && all_graphic_bytes(b)
}

/// The identifiers a lease must carry.
pub open spec fn lease_valid(v: LeaseView) -> bool {
    &&& lease_id_ok(utf8(v.manifest_id), utf8("manifest:"@))
    &&& lease_id_ok(utf8(v.request_id), utf8("begin-request:"@))
    &&& lease_id_ok(utf8(v.operation), utf8("op:materialize-"@))
    &&& lease_bus_name_ok(utf8(v.requester_system_bus_name))
}

/// Checks that `value` starts with `prefix` and is a short printable identifier.
pub fn validate_id(value: &str, prefix: &str) -> (r: Result<(), CandidateEnqueueLeaseError>)
    ensures
        r is Ok <==> lease_id_ok(utf8(value@), utf8(prefix@)),
        r matches Err(e) ==> e == CandidateEnqueueLeaseError::InvalidIdentifier,
{
    let b = value.as_bytes();
    if !starts_with(b, prefix.as_bytes()) || b.len() > 256 || !all_graphic(b) {
        return Err(CandidateEnqueueLeaseError::InvalidIdentifier);
    }
    Ok(())
}

/// Checks every identifier of a lease, in field order.
pub fn validate_lease(lease: &CandidateEnqueueLease) -> (r: Result<(), CandidateEnqueueLeaseError>)
    ensures
        r is Ok <==> lease_valid(lease@),
        r matches Err(e) ==> e == CandidateEnqueueLeaseError::InvalidIdentifier,
{
    validate_id(lease.manifest_id.as_str(), "manifest:")?;
    validate_id(lease.request_id.as_str(), "begin-request:")?;
    validate_id(lease.operation.as_str(), "op:materialize-")?;
    let b = lease.requester_system_bus_name.as_str().as_bytes();
    if !(b.len() > 0 && b[0] == 58) || b.len() > 128 || !all_graphic(b) {
        return Err(CandidateEnqueueLeaseError::InvalidIdentifier);
    }
    Ok(())
}

pub open spec fn lease_lines(v: LeaseView) -> Seq<Seq<u8>> {
    seq![
        utf8("theblob-candidate-enqueue-lease-v1"@),
        field_line(utf8("manifest-id"@), hex_of_text(v.manifest_id)),
        field_line(utf8("request-id"@), hex_of_text(v.request_id)),
        field_line(utf8("operation"@), hex_of_text(v.operation)),
        field_line(utf8("requester-uid"@), decimal(v.requester_uid as nat)),
        field_line(utf8("requester-system-bus"@), hex_of_text(v.requester_system_bus_name)),
        field_line(utf8("acquired-at-unix-ms"@), decimal(v.acquired_at_unix_ms as nat)),
    ]
}

/// The canonical UTF-8 bytes of a lease.
pub open spec fn lease_text(v: LeaseView) -> Seq<u8> {
    lines_text(lease_lines(v))
}

/// The fields of a lease record; hexadecimal digits may be of either case.
pub open spec fn lease_fields(ls: Seq<Seq<u8>>) -> Option<LeaseView> {
    if ls.len() == 8 && ls[0] == utf8("theblob-candidate-enqueue-lease-v1"@) && hex_text_field(
        ls[1],
        utf8("manifest-id"@),
        true,
    ) is Some && hex_text_field(ls[2], utf8("request-id"@), true) is Some && hex_text_field(
        ls[3],
        utf8("operation"@),
        true,
    ) is Some && u32_field(ls[4], utf8("requester-uid"@)) is Some && hex_text_field(
        ls[5],
        utf8("requester-system-bus"@),
        true,
    ) is Some && u64_field(ls[6], utf8("acquired-at-unix-ms"@)) is Some && ls[7].len() == 0 {
        Some(
            LeaseView {
                manifest_id: hex_text_field(ls[1], utf8("manifest-id"@), true)->0,
                request_id: hex_text_field(ls[2], utf8("request-id"@), true)->0,
                operation: hex_text_field(ls[3], utf8("operation"@), true)->0,
                requester_uid: u32_field(ls[4], utf8("requester-uid"@))->0,
                requester_system_bus_name: hex_text_field(
                    ls[5],
                    utf8("requester-system-bus"@),
                    true,
                )->0,
                acquired_at_unix_ms: u64_field(ls[6], utf8("acquired-at-unix-ms"@))->0,
            },
        )
    } else {
        None
    }
}

/// What `parse_candidate_enqueue_lease` returns for the UTF-8 bytes of a text.
pub open spec fn parse_lease_result(b: Seq<u8>) -> Result<LeaseView, CandidateEnqueueLeaseError> {
    if b.len() > MAX_CANDIDATE_ENQUEUE_LEASE_BYTES {
        Err(CandidateEnqueueLeaseError::TooLarge)
    } else {
        match lease_fields(split_lines(b)) {
            None => Err(CandidateEnqueueLeaseError::Malformed),
            Some(v) => if lease_valid(v) {
                Ok(v)
            } else {
                Err(CandidateEnqueueLeaseError::InvalidIdentifier)
            },
        }
    }
}

proof fn lemma_lease_lines_plain(v: LeaseView)
    ensures
        all_lines_plain(lease_lines(v)),
        forall|k: int| 0 <= k < lease_lines(v).len() ==> is_ascii_bytes(#[trigger] lease_lines(v)[k]),
{
    reveal_strlit("theblob-candidate-enqueue-lease-v1");
    reveal_strlit("manifest-id");
    reveal_strlit("request-id");
    reveal_strlit("operation");
    reveal_strlit("requester-uid");
    reveal_strlit("requester-system-bus");
    reveal_strlit("acquired-at-unix-ms");
    crate::lines::lemma_plain_ascii_bytes("theblob-candidate-enqueue-lease-v1"@);
    lemma_hex_line("manifest-id"@, v.manifest_id);
    lemma_hex_line("request-id"@, v.request_id);
    lemma_hex_line("operation"@, v.operation);
    lemma_decimal_line("requester-uid"@, v.requester_uid as nat);
    lemma_hex_line("requester-system-bus"@, v.requester_system_bus_name);
    lemma_decimal_line("acquired-at-unix-ms"@, v.acquired_at_unix_ms as nat);
}

/// Serializes a lease in its versioned, field-ordered, hex-encoded form.
pub fn canonical_candidate_enqueue_lease(lease: &CandidateEnqueueLease) -> (r: String)
    ensures
        utf8(r@) == lease_text(lease@),
        r@ == ascii_chars(lease_text(lease@)),
{
    let mut w = RecordWriter::new();
    w.literal("theblob-candidate-enqueue-lease-v1");
    w.hex_field("manifest-id".as_bytes(), lease.manifest_id.as_str());
    w.hex_field("request-id".as_bytes(), lease.request_id.as_str());
    w.hex_field("operation".as_bytes(), lease.operation.as_str());
    w.decimal_field("requester-uid".as_bytes(), lease.requester_uid as u64);
    w.hex_field("requester-system-bus".as_bytes(), lease.requester_system_bus_name.as_str());
    w.decimal_field("acquired-at-unix-ms".as_bytes(), lease.acquired_at_unix_ms);
    proof {
        assert(w.lines() =~= lease_lines(lease@));
        lemma_lease_lines_plain(lease@);
    }
    w.finish()
}

/// Reads a lease, rejecting trailing or missing fields and invalid identifiers.
pub fn parse_candidate_enqueue_lease(text: &str) -> (r: Result<CandidateEnqueueLease, CandidateEnqueueLeaseError>)
    ensures
        match r {
            Ok(l) => parse_lease_result(utf8(text@)) == Ok::<LeaseView, CandidateEnqueueLeaseError>(l@),
            Err(e) => parse_lease_result(utf8(text@)) == Err::<LeaseView, CandidateEnqueueLeaseError>(e),
        },
{
    let bytes = text.as_bytes();
    if bytes.len() as u64 > MAX_CANDIDATE_ENQUEUE_LEASE_BYTES {
        return Err(CandidateEnqueueLeaseError::TooLarge);
    }
    let mut c = LineCursor::new(bytes);
    let ghost ls = c.lines();
    if !c.literal("theblob-candidate-enqueue-lease-v1".as_bytes()) {
        return Err(CandidateEnqueueLeaseError::Malformed);
    }
    let manifest_id = match c.hex_field("manifest-id".as_bytes(), true) {
        Some(v) => v,
        None => return Err(CandidateEnqueueLeaseError::Malformed),
    };
    let request_id = match c.hex_field("request-id".as_bytes(), true) {
        Some(v) => v,
        None => return Err(CandidateEnqueueLeaseError::Malformed),
    };
    let operation = match c.hex_field("operation".as_bytes(), true) {
        Some(v) => v,
        None => return Err(CandidateEnqueueLeaseError::Malformed),
    };
    let requester_uid = match c.u32_field("requester-uid".as_bytes()) {
        Some(v) => v,
        None => return Err(CandidateEnqueueLeaseError::Malformed),
    };
    let requester_system_bus_name = match c.hex_field("requester-system-bus".as_bytes(), true) {
        Some(v) => v,
        None => return Err(CandidateEnqueueLeaseError::Malformed),
    };
    let acquired_at_unix_ms = match c.u64_field("acquired-at-unix-ms".as_bytes()) {
        Some(v) => v,
        None => return Err(CandidateEnqueueLeaseError::Malformed),
    };
    if !c.finish() {
        return Err(CandidateEnqueueLeaseError::Malformed);
    }
    let lease = CandidateEnqueueLease {
        manifest_id,
        request_id,
        operation,
        requester_uid,
        requester_system_bus_name,
        acquired_at_unix_ms,
    };
    assert(lease_fields(ls) == Some(lease@));
    validate_lease(&lease)?;
    Ok(lease)
}

/// Reading the canonical text of a valid lease gives the lease back.
pub proof fn lemma_lease_round_trip(v: LeaseView)
    requires
        lease_valid(v),
        lease_text(v).len() <= MAX_CANDIDATE_ENQUEUE_LEASE_BYTES,
    ensures
        parse_lease_result(lease_text(v)) == Ok::<LeaseView, CandidateEnqueueLeaseError>(v),
{
    let ls = lease_lines(v);
    lemma_lease_lines_plain(v);
    lemma_split_lines_text(ls);
    let sp = split_lines(lease_text(v));
    assert(sp == ls.push(Seq::<u8>::empty()));
    assert forall|k: int| 0 <= k < 7 implies #[trigger] sp[k] == ls[k] by {}
    lemma_field_line(utf8("manifest-id"@), hex_of_text(v.manifest_id));
    lemma_field_line(utf8("request-id"@), hex_of_text(v.request_id));
    lemma_field_line(utf8("operation"@), hex_of_text(v.operation));
    lemma_field_line(utf8("requester-uid"@), decimal(v.requester_uid as nat));
    lemma_field_line(utf8("requester-system-bus"@), hex_of_text(v.requester_system_bus_name));
    lemma_field_line(utf8("acquired-at-unix-ms"@), decimal(v.acquired_at_unix_ms as nat));
    lemma_hex_text_round_trip(v.manifest_id, true);
    lemma_hex_text_round_trip(v.request_id, true);
    lemma_hex_text_round_trip(v.operation, true);
    lemma_hex_text_round_trip(v.requester_system_bus_name, true);
    lemma_decimal_round_trip(v.requester_uid as nat);
    lemma_decimal_round_trip(v.acquired_at_unix_ms as nat);
    assert(sp[7] == Seq::<u8>::empty());
    assert(lease_fields(sp) == Some(v));
}

/// Equality of two leases, field by field.
pub fn same_lease(a: &CandidateEnqueueLease, b: &CandidateEnqueueLease) -> (r: bool)
    ensures
        r == (a@ == b@),
{
    str_eq(a.manifest_id.as_str(), b.manifest_id.as_str()) && str_eq(
        a.request_id.as_str(),
        b.request_id.as_str(),
    ) && str_eq(a.operation.as_str(), b.operation.as_str()) && a.requester_uid
        == b.requester_uid && str_eq(
        a.requester_system_bus_name.as_str(),
        b.requester_system_bus_name.as_str(),
    ) && a.acquired_at_unix_ms == b.acquired_at_unix_ms
}

/// The file name of a lease: `manifest-<hex>-request-<hex>.lease`.
pub open spec fn lease_file_name(v: LeaseView) -> Seq<u8> {
    utf8("manifest-"@) + hex_of_text(v.manifest_id) + utf8("-request-"@) + hex_of_text(
        v.request_id,
    ) + utf8(".lease"@)
}

fn lease_name(lease: &CandidateEnqueueLease) -> (r: Vec<u8>)
    ensures
        r@ == lease_file_name(lease@),
        valid_utf8(r@),
{
    let mut r: Vec<u8> = Vec::new();
    push_all(&mut r, "manifest-".as_bytes());
    push_hex(&mut r, lease.manifest_id.as_str().as_bytes());
    push_all(&mut r, "-request-".as_bytes());
    push_hex(&mut r, lease.request_id.as_str().as_bytes());
    push_all(&mut r, ".lease".as_bytes());
    proof {
        let a = utf8("manifest-"@);
        let h1 = hex_of_text(lease.manifest_id@);
        let b = utf8("-request-"@);
        let h2 = hex_of_text(lease.request_id@);
        let c = utf8(".lease"@);
        lemma_hex_encode_ascii(utf8(lease.manifest_id@));
        lemma_hex_encode_ascii(utf8(lease.request_id@));
        lemma_ascii_chars(h1);
        lemma_ascii_chars(h2);
        encode_utf8_valid_utf8("manifest-"@);
        encode_utf8_valid_utf8("-request-"@);
        encode_utf8_valid_utf8(".lease"@);
        valid_utf8_concat(a, h1);
        valid_utf8_concat(a + h1, b);
        valid_utf8_concat(a + h1 + b, h2);
        valid_utf8_concat(a + h1 + b + h2, c);
        assert(r@ =~= a + h1 + b + h2 + c);
    }
    r
}

/// The checks on a lease file read from `path` with `len` bytes of `text`: size,
/// exact parse, canonical form and the path the lease itself names.
pub open spec fn lease_file_outcome(
    root: Seq<char>,
    path: Seq<u8>,
    len: u64,
    text: Seq<char>,
) -> Result<LeaseView, CandidateEnqueueLeaseError> {
    if len > MAX_CANDIDATE_ENQUEUE_LEASE_BYTES {
        Err(CandidateEnqueueLeaseError::TooLarge)
    } else {
        match parse_lease_result(utf8(text)) {
            Err(e) => Err(e),
            Ok(v) => if lease_text(v) != utf8(text) || path_parts(join(utf8(root), lease_file_name(v)))
                != path_parts(path) {
                Err(CandidateEnqueueLeaseError::NonCanonical)
            } else {
                Ok(v)
            },
        }
    }
}

/// The leases of one manifest, in the order they were listed.
pub open spec fn leases_of(leases: Seq<LeaseView>, manifest_id: Seq<char>) -> Seq<LeaseView>
    decreases leases.len(),
{
    if leases.len() == 0 {
        Seq::<LeaseView>::empty()
    } else {
        let init = leases_of(leases.drop_last(), manifest_id);
        if leases.last().manifest_id == manifest_id {
            init.push(leases.last())
        } else {
            init
        }
    }
}

/// The root-owned directory of enqueue leases.
#[derive(Clone, Debug, PartialEq, Eq)]
pub struct FileCandidateEnqueueLeaseStore {
    root: String,
    expected_owner_uid: u32,
}

impl FileCandidateEnqueueLeaseStore {
    pub closed spec fn root_spec(&self) -> Seq<char> {
        self.root@
    }

    pub closed spec fn owner(&self) -> u32 {
        self.expected_owner_uid
    }

    pub fn production_default() -> (r: Self)
        ensures
            r.root_spec() == DEFAULT_CANDIDATE_ENQUEUE_LEASE_ROOT@,
            r.owner() == 0,
    {
        Self::new(DEFAULT_CANDIDATE_ENQUEUE_LEASE_ROOT, 0)
    }

    pub fn new(root: &str, expected_owner_uid: u32) -> (r: Self)
        ensures
            r.root_spec() == root@,
            r.owner() == expected_owner_uid,
    {
        FileCandidateEnqueueLeaseStore { root: root.to_owned(), expected_owner_uid }
    }

    pub fn root(&self) -> (r: &str)
        ensures
            r@ == self.root_spec(),
    {
        self.root.as_str()
    }

    pub fn expected_owner_uid(&self) -> (r: u32)
        ensures
            r == self.owner(),
    {
        self.expected_owner_uid
    }

    /// `<root>/manifest-<hex>-request-<hex>.lease`.
    pub fn path(&self, lease: &CandidateEnqueueLease) -> (r: String)
        ensures
            utf8(r@) == join(utf8(self.root_spec()), lease_file_name(lease@)),
    {
        let name = lease_name(lease);
        join_name(self.root.as_str(), name.as_slice())
    }

    /// The lease root must be a private directory of the expected owner; `root`
    /// is what `symlink_metadata` reported for it, `None` when it could not.
    pub fn validate_layout(&self, root: Option<&FileFacts>) -> (r: Result<(), CandidateEnqueueLeaseError>)
        ensures
            r is Ok <==> (root matches Some(f) && protected_directory(*f, self.owner())),
            r matches Err(e) ==> e == CandidateEnqueueLeaseError::InvalidLayout,
    {
        match root {
            Some(f) => if is_protected_directory(f, self.expected_owner_uid) {
                Ok(())
            } else {
                Err(CandidateEnqueueLeaseError::InvalidLayout)
            },
            None => Err(CandidateEnqueueLeaseError::InvalidLayout),
        }
    }

    /// The checks made on a lease file at `path` once its metadata and text are read.
    pub fn check_lease_file(&self, path: &str, facts: &FileFacts, text: &str) -> (r: Result<CandidateEnqueueLease, CandidateEnqueueLeaseError>)
        ensures
            !protected_file(*facts, self.owner()) ==> r == Err::<
                CandidateEnqueueLease,
                CandidateEnqueueLeaseError,
            >(CandidateEnqueueLeaseError::InvalidFile),
            protected_file(*facts, self.owner()) ==> match r {
                Ok(l) => lease_file_outcome(self.root_spec(), utf8(path@), facts.len, text@) == Ok::<
                    LeaseView,
                    CandidateEnqueueLeaseError,
                >(l@),
                Err(e) => lease_file_outcome(self.root_spec(), utf8(path@), facts.len, text@)
                    == Err::<LeaseView, CandidateEnqueueLeaseError>(e),
            },
    {
        if !is_protected_file(facts, self.expected_owner_uid) {
            return Err(CandidateEnqueueLeaseError::InvalidFile);
        }
        if facts.len > MAX_CANDIDATE_ENQUEUE_LEASE_BYTES {
            return Err(CandidateEnqueueLeaseError::TooLarge);
        }
        let lease = parse_candidate_enqueue_lease(text)?;
        let canonical = canonical_candidate_enqueue_lease(&lease);
        let expected = self.path(&lease);
        if !bytes_equal(canonical.as_str().as_bytes(), text.as_bytes()) || !same_path(
            expected.as_str().as_bytes(),
            path.as_bytes(),
        ) {
            return Err(CandidateEnqueueLeaseError::NonCanonical);
        }
        Ok(lease)
    }

    /// What `acquire` decides before it writes: the lease's identifiers, then
    /// room for one more among the `held` leases already present.
    pub fn check_acquire(&self, lease: &CandidateEnqueueLease, held: usize) -> (r: Result<(), CandidateEnqueueLeaseError>)
        ensures
            !lease_valid(lease@) ==> r == Err::<(), CandidateEnqueueLeaseError>(
                CandidateEnqueueLeaseError::InvalidIdentifier,
            ),
            lease_valid(lease@) && held >= MAX_CANDIDATE_ENQUEUE_LEASES ==> r == Err::<
                (),
                CandidateEnqueueLeaseError,
            >(CandidateEnqueueLeaseError::CapacityExceeded),
            lease_valid(lease@) && held < MAX_CANDIDATE_ENQUEUE_LEASES ==> r is Ok,
    {
        validate_lease(lease)?;
        if held >= MAX_CANDIDATE_ENQUEUE_LEASES {
            return Err(CandidateEnqueueLeaseError::CapacityExceeded);
        }
        Ok(())
    }

    /// What `release` decides once it has read the lease file: only the exact
    /// lease it names may be removed.
    pub fn check_release(&self, lease: &CandidateEnqueueLease, observed: &CandidateEnqueueLease) -> (r: Result<(), CandidateEnqueueLeaseError>)
        ensures
            r is Ok <==> observed@ == lease@,
            r matches Err(e) ==> e == CandidateEnqueueLeaseError::Conflict,
    {
        if !same_lease(observed, lease) {
            return Err(CandidateEnqueueLeaseError::Conflict);
        }
        Ok(())
    }
}

/// The checks `list` makes on the sorted directory entries before it reads them:
/// not more than the capacity, and each entry a `.lease` file. The index of the
/// first entry that is not is returned as the error's place.
pub fn check_listing(paths: &Vec<String>) -> (r: Result<(), CandidateEnqueueLeaseError>)
    ensures
        paths@.len() > MAX_CANDIDATE_ENQUEUE_LEASES ==> r == Err::<(), CandidateEnqueueLeaseError>(
            CandidateEnqueueLeaseError::CapacityExceeded,
        ),
        paths@.len() <= MAX_CANDIDATE_ENQUEUE_LEASES ==> (r is Ok <==> forall|i: int|
            0 <= i < paths@.len() ==> has_extension(utf8(#[trigger] paths@[i]@), utf8("lease"@))),
        r matches Err(e) ==> (e == CandidateEnqueueLeaseError::CapacityExceeded || e
            == CandidateEnqueueLeaseError::InvalidFile),
{
    if paths.len() > MAX_CANDIDATE_ENQUEUE_LEASES {
        return Err(CandidateEnqueueLeaseError::CapacityExceeded);
    }
    let dot_lease: [u8; 6] = [46, 108, 101, 97, 115, 101];
    proof {
        reveal_strlit("lease");
        vstd::utf8::is_ascii_chars_encode_utf8("lease"@);
        assert(utf8("lease"@) =~= seq![108u8, 101u8, 97u8, 115u8, 101u8]) by {
            let e = utf8("lease"@);
            assert(e[0] == "lease"@[0] as u8);
            assert(e[1] == "lease"@[1] as u8);
            assert(e[2] == "lease"@[2] as u8);
            assert(e[3] == "lease"@[3] as u8);
            assert(e[4] == "lease"@[4] as u8);
        }
        assert(dot_lease@.skip(1) =~= utf8("lease"@));
    }
    let mut i: usize = 0;
    while i < paths.len()
        invariant
            i <= paths@.len(),
            dot_lease@.len() == 6 && dot_lease@[0] == 46,
            dot_lease@.skip(1) == utf8("lease"@),
            paths@.len() <= MAX_CANDIDATE_ENQUEUE_LEASES,
            forall|k: int| 0 <= k < i ==> has_extension(utf8(#[trigger] paths@[k]@), utf8("lease"@)),
        decreases paths.len() - i,
    {
        if !path_has_extension(paths[i].as_str().as_bytes(), dot_lease.as_slice()) {
            return Err(CandidateEnqueueLeaseError::InvalidFile);
        }
        i = i + 1;
    }
    Ok(())
}

/// A copy of a lease.
pub fn copy_lease(l: &CandidateEnqueueLease) -> (r: CandidateEnqueueLease)
    ensures
        r@ == l@,
{
    CandidateEnqueueLease {
        manifest_id: l.manifest_id.clone(),
        request_id: l.request_id.clone(),
        operation: l.operation.clone(),
        requester_uid: l.requester_uid,
        requester_system_bus_name: l.requester_system_bus_name.clone(),
        acquired_at_unix_ms: l.acquired_at_unix_ms,
    }
}

/// `for_manifest`: the manifest id must be valid; then the listed leases that
/// belong to it, in order.
pub fn leases_for_manifest(manifest_id: &str, leases: &Vec<CandidateEnqueueLease>) -> (r: Result<Vec<CandidateEnqueueLease>, CandidateEnqueueLeaseError>)
    ensures
        !lease_id_ok(utf8(manifest_id@), utf8("manifest:"@)) ==> r == Err::<
            Vec<CandidateEnqueueLease>,
            CandidateEnqueueLeaseError,
        >(CandidateEnqueueLeaseError::InvalidIdentifier),
        lease_id_ok(utf8(manifest_id@), utf8("manifest:"@)) ==> (r matches Ok(v) && v@.map_values(
            |l: CandidateEnqueueLease| l@,
        ) == leases_of(leases@.map_values(|l: CandidateEnqueueLease| l@), manifest_id@)),
{
    validate_id(manifest_id, "manifest:")?;
    let ghost all = leases@.map_values(|l: CandidateEnqueueLease| l@);
    let mut out: Vec<CandidateEnqueueLease> = Vec::new();
    let mut i: usize = 0;
    while i < leases.len()
        invariant
            i <= leases@.len(),
            all == leases@.map_values(|l: CandidateEnqueueLease| l@),
            out@.map_values(|l: CandidateEnqueueLease| l@) == leases_of(all.take(i as int), manifest_id@),
        decreases leases.len() - i,
    {
        let ghost before = out@.map_values(|l: CandidateEnqueueLease| l@);
        assert(all.take(i + 1).drop_last() =~= all.take(i as int));
        assert(all.take(i + 1).last() == leases@[i as int]@);
        if str_eq(leases[i].manifest_id.as_str(), manifest_id) {
            out.push(copy_lease(&leases[i]));
            assert(out@.map_values(|l: CandidateEnqueueLease| l@) =~= before.push(leases@[i as int]@));
        } else {
            assert(out@.map_values(|l: CandidateEnqueueLease| l@) =~= before);
        }
        i = i + 1;
    }
    assert(all.take(leases@.len() as int) =~= all);
    Ok(out)
}

} // verus!
