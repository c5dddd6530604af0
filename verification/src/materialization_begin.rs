//! Root-owned trusted candidate manifests: the immutable source and installable
//! attribute one candidate may be materialized from.
use vstd::prelude::*;
use crate::fsmeta::{is_protected_directory, is_protected_file, protected_directory, protected_file, FileFacts};
use crate::ids::{SystemCandidateId, SystemSpecId};
use crate::lines::{
    all_lines_plain, count_field, field_line, hex_text_field, indexed_key, lemma_field_line,
    lemma_split_lines_text, lines_text, make_indexed_key, plain_ascii, split_lines, LineCursor,
    RecordWriter,
};
use crate::materialization_authority::{
    installable_attribute_ok, lemma_decimal_line, lemma_hex_line, store_subpath_check,
    StoreSubpathDefect,
};
use crate::paths::{hex_name, is_store_subpath, join, join_name, path_parts, same_path};
use crate::lifecycle::{link_points_to, LinkObservation};
use crate::materialization_authority::{
    IntentView, MaterializationAuthorityError, MaterializationIntent, MaterializationIntentSpec,
    ResolvedMaterializationDerivation,
};
use crate::request_publisher::MaterializationAdmission;
use crate::lines::{lemma_hex_line_bytes, lemma_indexed_key_plain};
use crate::text::texts_view;
use crate::text::{
    all_alnum_or, ascii_chars, bytes_equal, decimal, hex_of_text, is_alnum, is_ascii_bytes,
    lemma_decimal_round_trip, lemma_hex_text_round_trip, str_eq, utf8,
};

verus! {

pub const DEFAULT_TRUSTED_CANDIDATE_ROOT: &'static str = "/var/lib/theblob/materialization-candidates";

pub const DEFAULT_MATERIALIZATION_INTENT_ROOT: &'static str = "/var/lib/theblob/materialization-intents";

pub const DEFAULT_MATERIALIZATION_ADMISSION_ROOT: &'static str =
    "/var/lib/theblob/materialization-admissions";

pub const DEFAULT_PENDING_GCROOT_ROOT: &'static str = "/nix/var/nix/gcroots/theblob-materializations";

pub const MAX_TRUSTED_CANDIDATE_BYTES: u64 = 32768;

/// The most provenance lines a candidate manifest may carry.
pub const MAX_CANDIDATE_PROVENANCE: usize = 128;

/// A candidate that root has accepted for materialization.
#[derive(Clone, Debug, PartialEq, Eq)]
pub struct TrustedMaterializationCandidate {
    pub manifest_id: String,
    pub candidate: SystemCandidateId,
    pub system_spec: SystemSpecId,
    pub immutable_flake_root: String,
    pub installable_attribute: String,
    pub provenance: Vec<String>,
}

pub struct CandidateView {
    pub manifest_id: Seq<char>,
    pub candidate: Seq<char>,
    pub system_spec: Seq<char>,
    pub immutable_flake_root: Seq<char>,
    pub installable_attribute: Seq<char>,
    pub provenance: Seq<Seq<char>>,
}

impl View for TrustedMaterializationCandidate {
    type V = CandidateView;

    open spec fn view(&self) -> CandidateView {
        CandidateView {
            manifest_id: self.manifest_id@,
            candidate: self.candidate@,
            system_spec: self.system_spec@,
            immutable_flake_root: self.immutable_flake_root@,
            installable_attribute: self.installable_attribute@,
            provenance: texts_view(self.provenance@),
        }
    }
}

#[derive(Clone, Debug, PartialEq, Eq)]
pub enum TrustedCandidateError {
    Missing(String),
    InvalidRoot,
    InvalidFile,
    TooLarge,
    Malformed,
    NonCanonical,
    ManifestMismatch,
    InvalidManifestId,
    InvalidImmutableFlakeRoot,
    InvalidInstallableAttribute,
    Io(String),
}

#[derive(Clone, Debug, PartialEq, Eq)]
pub enum MaterializationBeginError {
    Candidate(TrustedCandidateError),
    Authority(crate::materialization_authority::MaterializationAuthorityError),
    Inspector(String),
    InvalidGcRoot,
    GcRootConflict,
    IdentityChanged,
    Clock(String),
    RandomSource(String),
    Io(String),
}

/// A manifest id: 1 to 256 bytes of ASCII letters, digits, `:`, `-`, `_`, `.`.
pub open spec fn manifest_id_ok(b: Seq<u8>) -> bool {
    &&& 1 <= b.len() <= 256
    &&& forall|i: int|
        0 <= i < b.len() ==> #[trigger] is_alnum(b[i]) || seq![58u8, 45u8, 95u8, 46u8].contains(b[i])
}

/// Rejects manifest ids that are empty, too long, or hold shell or path syntax.
pub fn validate_manifest_id(value: &str) -> (r: Result<(), String>)
    ensures
        r is Ok <==> manifest_id_ok(utf8(value@)),
        r matches Err(m) ==> m@ == (if 1 <= utf8(value@).len() <= 256 {
            "invalid manifest id"@
        } else {
            "invalid manifest id length"@
        }),
{
    let b = value.as_bytes();
    if b.len() == 0 || b.len() > 256 {
        return Err("invalid manifest id length".to_owned());
    }
    let extra: [u8; 4] = [58, 45, 95, 46];
    assert(extra@ =~= seq![58u8, 45u8, 95u8, 46u8]);
    if !all_alnum_or(b, extra.as_slice()) {
        return Err("invalid manifest id".to_owned());
    }
    Ok(())
}

/// Rejects an installable attribute that is empty, too long, or holds shell or path syntax.
pub fn validate_installable_attribute(value: &str) -> (r: Result<(), String>)
    ensures
        r is Ok <==> installable_attribute_ok(utf8(value@)),
{
    crate::materialization_authority::validate_installable_attribute(value)
}

/// Rejects a source that is not an absolute path inside one store object.
pub fn validate_immutable_store_subpath(path: &str) -> (r: Result<(), String>)
    ensures
        r is Ok <==> is_store_subpath(utf8(path@)),
        r matches Err(m) ==> m@ == (if crate::paths::has_root(utf8(path@)) {
            "source is outside an exact Nix store object"@
        } else {
            "source is not absolute"@
        }),
{
    match store_subpath_check(path.as_bytes()) {
        None => Ok(()),
        Some(StoreSubpathDefect::NotAbsolute) => Err("source is not absolute".to_owned()),
        Some(_) => Err("source is outside an exact Nix store object".to_owned()),
    }
}

pub open spec fn provenance_key(i: nat) -> Seq<u8> {
    indexed_key(utf8("provenance-"@), i, Seq::<u8>::empty())
}

pub open spec fn candidate_lines(v: CandidateView) -> Seq<Seq<u8>> {
    seq![
        utf8("theblob-trusted-materialization-candidate-v1"@),
        field_line(utf8("manifest-id"@), hex_of_text(v.manifest_id)),
        field_line(utf8("candidate"@), hex_of_text(v.candidate)),
        field_line(utf8("system-spec"@), hex_of_text(v.system_spec)),
        field_line(utf8("immutable-flake-root"@), hex_of_text(v.immutable_flake_root)),
        field_line(utf8("installable-attribute"@), hex_of_text(v.installable_attribute)),
        field_line(utf8("provenance-count"@), decimal(v.provenance.len())),
    ] + Seq::new(
        v.provenance.len(),
        |i: int| field_line(provenance_key(i as nat), hex_of_text(v.provenance[i])),
    )
}

/// The canonical UTF-8 bytes of a trusted candidate.
pub open spec fn candidate_text(v: CandidateView) -> Seq<u8> {
    lines_text(candidate_lines(v))
}

pub open spec fn candidate_fields(ls: Seq<Seq<u8>>) -> Option<CandidateView> {
    if ls.len() >= 8 && ls[0] == utf8("theblob-trusted-materialization-candidate-v1"@)
        && hex_text_field(ls[1], utf8("manifest-id"@), false) is Some && hex_text_field(
        ls[2],
        utf8("candidate"@),
        false,
    ) is Some && hex_text_field(ls[3], utf8("system-spec"@), false) is Some && hex_text_field(
        ls[4],
        utf8("immutable-flake-root"@),
        false,
    ) is Some && hex_text_field(ls[5], utf8("installable-attribute"@), false) is Some
        && count_field(ls[6], utf8("provenance-count"@), MAX_CANDIDATE_PROVENANCE as nat) is Some
        && ls.len() == 8 + count_field(
        ls[6],
        utf8("provenance-count"@),
        MAX_CANDIDATE_PROVENANCE as nat,
    )->0 && (forall|i: int|
        0 <= i < ls.len() - 8 ==> (#[trigger] hex_text_field(
            ls[7 + i],
            provenance_key(i as nat),
            false,
        )) is Some) && ls[ls.len() - 1].len() == 0 {
        Some(
            CandidateView {
                manifest_id: hex_text_field(ls[1], utf8("manifest-id"@), false)->0,
                candidate: hex_text_field(ls[2], utf8("candidate"@), false)->0,
                system_spec: hex_text_field(ls[3], utf8("system-spec"@), false)->0,
                immutable_flake_root: hex_text_field(ls[4], utf8("immutable-flake-root"@), false)->0,
                installable_attribute: hex_text_field(
                    ls[5],
                    utf8("installable-attribute"@),
                    false,
                )->0,
                provenance: Seq::new(
                    (ls.len() - 8) as nat,
                    |i: int| hex_text_field(ls[7 + i], provenance_key(i as nat), false)->0,
                ),
            },
        )
    } else {
        None
    }
}

/// The rules a trusted candidate satisfies once read.
pub open spec fn candidate_valid(v: CandidateView) -> bool {
    &&& manifest_id_ok(utf8(v.manifest_id))
    &&& is_store_subpath(utf8(v.immutable_flake_root))
    &&& installable_attribute_ok(utf8(v.installable_attribute))
}

/// What `parse_trusted_candidate` returns for the UTF-8 bytes of a text.
pub open spec fn parse_candidate_result(b: Seq<u8>) -> Result<CandidateView, TrustedCandidateError> {
    if b.len() > MAX_TRUSTED_CANDIDATE_BYTES {
        Err(TrustedCandidateError::TooLarge)
    } else {
        match candidate_fields(split_lines(b)) {
            None => Err(TrustedCandidateError::Malformed),
            Some(v) => if !manifest_id_ok(utf8(v.manifest_id)) {
                Err(TrustedCandidateError::InvalidManifestId)
            } else if !is_store_subpath(utf8(v.immutable_flake_root)) {
                Err(TrustedCandidateError::InvalidImmutableFlakeRoot)
            } else if !installable_attribute_ok(utf8(v.installable_attribute)) {
                Err(TrustedCandidateError::InvalidInstallableAttribute)
            } else {
                Ok(v)
            },
        }
    }
}

proof fn lemma_candidate_literals()
    ensures
        plain_ascii("theblob-trusted-materialization-candidate-v1"@),
        plain_ascii("manifest-id"@),
        plain_ascii("candidate"@),
        plain_ascii("system-spec"@),
        plain_ascii("immutable-flake-root"@),
        plain_ascii("installable-attribute"@),
        plain_ascii("provenance-count"@),
        plain_ascii("provenance-"@),
{
    reveal_strlit("theblob-trusted-materialization-candidate-v1");
    reveal_strlit("manifest-id");
    reveal_strlit("candidate");
    reveal_strlit("system-spec");
    reveal_strlit("immutable-flake-root");
    reveal_strlit("installable-attribute");
    reveal_strlit("provenance-count");
    reveal_strlit("provenance-");
}

proof fn lemma_candidate_lines_plain(v: CandidateView)
    ensures
        all_lines_plain(candidate_lines(v)),
        forall|k: int| 0 <= k < candidate_lines(v).len() ==> is_ascii_bytes(#[trigger] candidate_lines(v)[k]),
{
    lemma_candidate_literals();
    crate::lines::lemma_empty_utf8();
    crate::lines::lemma_plain_ascii_bytes("theblob-trusted-materialization-candidate-v1"@);
    lemma_hex_line("manifest-id"@, v.manifest_id);
    lemma_hex_line("candidate"@, v.candidate);
    lemma_hex_line("system-spec"@, v.system_spec);
    lemma_hex_line("immutable-flake-root"@, v.immutable_flake_root);
    lemma_hex_line("installable-attribute"@, v.installable_attribute);
    lemma_decimal_line("provenance-count"@, v.provenance.len());
    let ls = candidate_lines(v);
    assert forall|k: int| 7 <= k < ls.len() implies crate::lines::no_newline(#[trigger] ls[k])
        && is_ascii_bytes(ls[k]) by {
        lemma_indexed_key_plain("provenance-"@, (k - 7) as nat, ""@);
        lemma_hex_line_bytes(provenance_key((k - 7) as nat), v.provenance[k - 7]);
    }
}

/// Serializes a trusted candidate in its versioned, field-ordered, hex-encoded form.
pub fn canonical_trusted_candidate(candidate: &TrustedMaterializationCandidate) -> (r: String)
    ensures
        utf8(r@) == candidate_text(candidate@),
        r@ == ascii_chars(candidate_text(candidate@)),
{
    let mut w = RecordWriter::new();
    w.literal("theblob-trusted-materialization-candidate-v1");
    w.hex_field("manifest-id".as_bytes(), candidate.manifest_id.as_str());
    w.hex_field("candidate".as_bytes(), candidate.candidate.as_str());
    w.hex_field("system-spec".as_bytes(), candidate.system_spec.as_str());
    w.hex_field("immutable-flake-root".as_bytes(), candidate.immutable_flake_root.as_str());
    w.hex_field("installable-attribute".as_bytes(), candidate.installable_attribute.as_str());
    w.decimal_field("provenance-count".as_bytes(), candidate.provenance.len() as u64);
    let ghost v = candidate@;
    let ghost head = w.lines();
    let mut i: usize = 0;
    while i < candidate.provenance.len()
        invariant
            v == candidate@,
            i <= candidate.provenance@.len(),
            w.inv(),
            head.len() == 7,
            w.lines() == head + Seq::new(
                i as nat,
                |j: int| field_line(provenance_key(j as nat), hex_of_text(v.provenance[j])),
            ),
        decreases candidate.provenance.len() - i,
    {
        let key = make_indexed_key("provenance-", i as u64, "");
        proof {
            crate::lines::lemma_empty_utf8();
            assert(key@ =~= provenance_key(i as nat));
            assert(v.provenance[i as int] == candidate.provenance@[i as int]@);
        }
        w.hex_field(key.as_slice(), candidate.provenance[i].as_str());
        i = i + 1;
        assert(w.lines() =~= head + Seq::new(
            i as nat,
            |j: int| field_line(provenance_key(j as nat), hex_of_text(v.provenance[j])),
        ));
    }
    proof {
        assert(w.lines() =~= candidate_lines(v));
        lemma_candidate_lines_plain(v);
    }
    w.finish()
}

/// Reads a trusted candidate, rejecting any deviation from its exact field order.
pub fn parse_trusted_candidate(text: &str) -> (r: Result<TrustedMaterializationCandidate, TrustedCandidateError>)
    ensures
        match r {
            Ok(c) => parse_candidate_result(utf8(text@)) == Ok::<CandidateView, TrustedCandidateError>(c@),
            Err(e) => parse_candidate_result(utf8(text@)) == Err::<CandidateView, TrustedCandidateError>(e),
        },
{
    let bytes = text.as_bytes();
    if bytes.len() as u64 > MAX_TRUSTED_CANDIDATE_BYTES {
        return Err(TrustedCandidateError::TooLarge);
    }
    let mut c = LineCursor::new(bytes);
    let ghost ls = c.lines();
    if !c.literal("theblob-trusted-materialization-candidate-v1".as_bytes()) {
        return Err(TrustedCandidateError::Malformed);
    }
    let manifest_id = match c.hex_field("manifest-id".as_bytes(), false) {
        Some(v) => v,
        None => return Err(TrustedCandidateError::Malformed),
    };
    let candidate = match c.hex_field("candidate".as_bytes(), false) {
        Some(v) => v,
        None => return Err(TrustedCandidateError::Malformed),
    };
    let system_spec = match c.hex_field("system-spec".as_bytes(), false) {
        Some(v) => v,
        None => return Err(TrustedCandidateError::Malformed),
    };
    let immutable_flake_root = match c.hex_field("immutable-flake-root".as_bytes(), false) {
        Some(v) => v,
        None => return Err(TrustedCandidateError::Malformed),
    };
    let installable_attribute = match c.hex_field("installable-attribute".as_bytes(), false) {
        Some(v) => v,
        None => return Err(TrustedCandidateError::Malformed),
    };
    let count = match c.count_field("provenance-count".as_bytes(), MAX_CANDIDATE_PROVENANCE) {
        Some(v) => v,
        None => return Err(TrustedCandidateError::Malformed),
    };
    let mut provenance: Vec<String> = Vec::new();
    let mut i: usize = 0;
    while i < count
        invariant
            c.lines() == ls,
            c.position() == 7 + i,
            ls == split_lines(utf8(text@)),
            utf8(text@).len() <= MAX_TRUSTED_CANDIDATE_BYTES,
            ls.len() >= 7,
            count_field(ls[6], utf8("provenance-count"@), MAX_CANDIDATE_PROVENANCE as nat) == Some(
                count as nat,
            ),
            i <= count,
            count <= MAX_CANDIDATE_PROVENANCE,
            provenance@.len() == i,
            forall|j: int|
                0 <= j < i ==> (#[trigger] hex_text_field(ls[7 + j], provenance_key(j as nat), false))
                    == Some(provenance@[j]@),
        decreases count - i,
    {
        let key = make_indexed_key("provenance-", i as u64, "");
        proof {
            crate::lines::lemma_empty_utf8();
            assert(key@ =~= provenance_key(i as nat));
        }
        match c.hex_field(key.as_slice(), false) {
            Some(v) => provenance.push(v),
            None => {
                proof {
                    let ii = i as int;
                    if ls.len() > 7 + ii {
                        assert(hex_text_field(ls[7 + ii], provenance_key(ii as nat), false) is None);
                    }
                    assert(candidate_fields(ls) is None);
                }
                return Err(TrustedCandidateError::Malformed);
            },
        }
        i = i + 1;
    }
    if !c.finish() {
        return Err(TrustedCandidateError::Malformed);
    }
    let result = TrustedMaterializationCandidate {
        manifest_id,
        candidate,
        system_spec,
        immutable_flake_root,
        installable_attribute,
        provenance,
    };
    proof {
        assert(ls.len() == 8 + count);
        assert(texts_view(result.provenance@) =~= Seq::new(
            (ls.len() - 8) as nat,
            |j: int| hex_text_field(ls[7 + j], provenance_key(j as nat), false)->0,
        ));
        assert(candidate_fields(ls) == Some(result@));
    }
    if validate_manifest_id(result.manifest_id.as_str()).is_err() {
        return Err(TrustedCandidateError::InvalidManifestId);
    }
    if validate_immutable_store_subpath(result.immutable_flake_root.as_str()).is_err() {
        return Err(TrustedCandidateError::InvalidImmutableFlakeRoot);
    }
    if validate_installable_attribute(result.installable_attribute.as_str()).is_err() {
        return Err(TrustedCandidateError::InvalidInstallableAttribute);
    }
    Ok(result)
}

/// Reading the canonical text of a valid trusted candidate gives it back.
pub proof fn lemma_candidate_round_trip(v: CandidateView)
    requires
        candidate_valid(v),
        v.provenance.len() <= MAX_CANDIDATE_PROVENANCE,
        candidate_text(v).len() <= MAX_TRUSTED_CANDIDATE_BYTES,
    ensures
        parse_candidate_result(candidate_text(v)) == Ok::<CandidateView, TrustedCandidateError>(v),
{
    let ls = candidate_lines(v);
    lemma_candidate_lines_plain(v);
    lemma_split_lines_text(ls);
    let sp = split_lines(candidate_text(v));
    assert(sp == ls.push(Seq::<u8>::empty()));
    let n = v.provenance.len();
    assert(sp.len() == 8 + n);
    lemma_field_line(utf8("manifest-id"@), hex_of_text(v.manifest_id));
    lemma_field_line(utf8("candidate"@), hex_of_text(v.candidate));
    lemma_field_line(utf8("system-spec"@), hex_of_text(v.system_spec));
    lemma_field_line(utf8("immutable-flake-root"@), hex_of_text(v.immutable_flake_root));
    lemma_field_line(utf8("installable-attribute"@), hex_of_text(v.installable_attribute));
    lemma_field_line(utf8("provenance-count"@), decimal(n));
    lemma_hex_text_round_trip(v.manifest_id, false);
    lemma_hex_text_round_trip(v.candidate, false);
    lemma_hex_text_round_trip(v.system_spec, false);
    lemma_hex_text_round_trip(v.immutable_flake_root, false);
    lemma_hex_text_round_trip(v.installable_attribute, false);
    lemma_decimal_round_trip(n);
    assert(sp[1] == ls[1]);
    assert(sp[2] == ls[2]);
    assert(sp[3] == ls[3]);
    assert(sp[4] == ls[4]);
    assert(sp[5] == ls[5]);
    assert(sp[6] == ls[6]);
    assert(count_field(sp[6], utf8("provenance-count"@), MAX_CANDIDATE_PROVENANCE as nat) == Some(n));
    assert forall|i: int| 0 <= i < sp.len() - 8 implies (#[trigger] hex_text_field(
        sp[7 + i],
        provenance_key(i as nat),
        false,
    )) == Some(v.provenance[i]) by {
        assert(sp[7 + i] == ls[7 + i]);
        lemma_field_line(provenance_key(i as nat), hex_of_text(v.provenance[i]));
        lemma_hex_text_round_trip(v.provenance[i], false);
    }
    assert(sp[sp.len() - 1] == Seq::<u8>::empty());
    let got = candidate_fields(sp)->0;
    assert(got.provenance =~= v.provenance);
    assert(candidate_fields(sp) == Some(v));
}

/// The checks on a candidate file of `len` bytes holding `text` for `manifest_id`.
pub open spec fn candidate_text_outcome(len: u64, text: Seq<char>, manifest_id: Seq<char>) -> Result<
    CandidateView,
    TrustedCandidateError,
> {
    if len > MAX_TRUSTED_CANDIDATE_BYTES {
        Err(TrustedCandidateError::TooLarge)
    } else {
        match parse_candidate_result(utf8(text)) {
            Err(e) => Err(e),
            Ok(v) => if v.manifest_id != manifest_id {
                Err(TrustedCandidateError::ManifestMismatch)
            } else if candidate_text(v) != utf8(text) {
                Err(TrustedCandidateError::NonCanonical)
            } else {
                Ok(v)
            },
        }
    }
}

/// The root-owned store of trusted candidate manifests.
#[derive(Clone, Debug, PartialEq, Eq)]
pub struct FileTrustedMaterializationCandidateStore {
    root: String,
    expected_owner_uid: u32,
}

impl FileTrustedMaterializationCandidateStore {
    pub closed spec fn root_spec(&self) -> Seq<char> {
        self.root@
    }

    pub closed spec fn owner(&self) -> u32 {
        self.expected_owner_uid
    }

    pub fn production_default() -> (r: Self)
        ensures
            r.root_spec() == DEFAULT_TRUSTED_CANDIDATE_ROOT@,
            r.owner() == 0,
    {
        Self::new(DEFAULT_TRUSTED_CANDIDATE_ROOT, 0)
    }

    pub fn new(root: &str, expected_owner_uid: u32) -> (r: Self)
        ensures
            r.root_spec() == root@,
            r.owner() == expected_owner_uid,
    {
        FileTrustedMaterializationCandidateStore { root: root.to_owned(), expected_owner_uid }
    }

    pub fn root(&self) -> (r: &str)
        ensures
            r@ == self.root_spec(),
    {
        self.root.as_str()
    }

    pub fn expected_owner_uid(&self) -> (r: u32)
        ensures
            r == self.owner(),
    {
        self.expected_owner_uid
    }

    /// `<root>/manifest-<hex>.candidate`.
    pub fn path(&self, manifest_id: &str) -> (r: String)
        ensures
            utf8(r@) == join(
                utf8(self.root_spec()),
                utf8("manifest-"@) + hex_of_text(manifest_id@) + utf8(".candidate"@),
            ),
    {
        let name = hex_name("manifest-", manifest_id, ".candidate");
        join_name(self.root.as_str(), name.as_slice())
    }

    /// The checks `load` makes once it has the root's and the file's metadata and the text.
    pub fn check_loaded(
        &self,
        manifest_id: &str,
        root_facts: &FileFacts,
        file_facts: &FileFacts,
        text: &str,
    ) -> (r: Result<TrustedMaterializationCandidate, TrustedCandidateError>)
        ensures
            !manifest_id_ok(utf8(manifest_id@)) ==> r == Err::<
                TrustedMaterializationCandidate,
                TrustedCandidateError,
            >(TrustedCandidateError::InvalidManifestId),
            manifest_id_ok(utf8(manifest_id@)) && !protected_directory(*root_facts, self.owner())
                ==> r == Err::<TrustedMaterializationCandidate, TrustedCandidateError>(
                TrustedCandidateError::InvalidRoot,
            ),
            manifest_id_ok(utf8(manifest_id@)) && protected_directory(*root_facts, self.owner())
                && !protected_file(*file_facts, self.owner()) ==> r == Err::<
                TrustedMaterializationCandidate,
                TrustedCandidateError,
            >(TrustedCandidateError::InvalidFile),
            manifest_id_ok(utf8(manifest_id@)) && protected_directory(*root_facts, self.owner())
                && protected_file(*file_facts, self.owner()) ==> match r {
                Ok(c) => candidate_text_outcome(file_facts.len, text@, manifest_id@) == Ok::<
                    CandidateView,
                    TrustedCandidateError,
                >(c@),
                Err(e) => candidate_text_outcome(file_facts.len, text@, manifest_id@) == Err::<
                    CandidateView,
                    TrustedCandidateError,
                >(e),
            },
    {
        if validate_manifest_id(manifest_id).is_err() {
            return Err(TrustedCandidateError::InvalidManifestId);
        }
        if !is_protected_directory(root_facts, self.expected_owner_uid) {
            return Err(TrustedCandidateError::InvalidRoot);
        }
        if !is_protected_file(file_facts, self.expected_owner_uid) {
            return Err(TrustedCandidateError::InvalidFile);
        }
        if file_facts.len > MAX_TRUSTED_CANDIDATE_BYTES {
            return Err(TrustedCandidateError::TooLarge);
        }
        let candidate = parse_trusted_candidate(text)?;
        if !str_eq(candidate.manifest_id.as_str(), manifest_id) {
            return Err(TrustedCandidateError::ManifestMismatch);
        }
        let canonical = canonical_trusted_candidate(&candidate);
        if !bytes_equal(canonical.as_str().as_bytes(), text.as_bytes()) {
            return Err(TrustedCandidateError::NonCanonical);
        }
        Ok(candidate)
    }
}

/// `<gcroot root>/operation-<hex>-derivation`, the GC root that retains a
/// pending derivation.
pub fn derivation_gcroot_path(gcroot_root: &str, operation: &str) -> (r: String)
    ensures
        utf8(r@) == join(
            utf8(gcroot_root@),
            utf8("operation-"@) + hex_of_text(operation@) + utf8("-derivation"@),
        ),
{
    let name = hex_name("operation-", operation, "-derivation");
    join_name(gcroot_root, name.as_slice())
}


// ---------------------------------------------------------------------------
// Pending derivation GC roots
// ---------------------------------------------------------------------------

/// What retaining a derivation under its GC root takes.
#[derive(Clone, Copy, Debug, PartialEq, Eq, Structural)]
pub enum RetainAction {
    /// The root is absent: create the symlink.
    Create,
    /// The root already points at the derivation.
    AlreadyHeld,
    /// Something else is at the root.
    Conflict,
}

/// Decides how to retain `derivation` given what is at its GC root.
pub fn retain_action(link: &LinkObservation, derivation: &str) -> (r: RetainAction)
    ensures
        link is Missing ==> r == RetainAction::Create,
        !(link is Missing) && link_points_to(*link, derivation@) ==> r == RetainAction::AlreadyHeld,
        !(link is Missing) && !link_points_to(*link, derivation@) ==> r == RetainAction::Conflict,
{
    match link {
        LinkObservation::Missing => RetainAction::Create,
        LinkObservation::NotSymlink => RetainAction::Conflict,
        LinkObservation::Target(t) => if same_path(t.as_str().as_bytes(), derivation.as_bytes()) {
            RetainAction::AlreadyHeld
        } else {
            RetainAction::Conflict
        },
    }
}

/// How a held GC root was found: unreadable (the error), not a symlink (`Ok(None)`), or
/// a symlink and its target.
pub open spec fn root_holds(observed: Result<Option<String>, String>, derivation: Seq<char>) -> bool {
    observed matches Ok(Some(t)) && path_parts(utf8(t@)) == path_parts(utf8(derivation))
}

/// A pending derivation must still be held by its GC root and still exist.
pub fn require_held(
    observed: &Result<Option<String>, String>,
    derivation: &str,
    derivation_exists: bool,
) -> (r: Result<(), MaterializationBeginError>)
    ensures
        observed matches Err(m) ==> r == Err::<(), MaterializationBeginError>(
            MaterializationBeginError::Io(*m),
        ),
        observed is Ok ==> (r is Ok <==> root_holds(*observed, derivation@) && derivation_exists),
        observed is Ok && r is Err ==> r == Err::<(), MaterializationBeginError>(
            MaterializationBeginError::GcRootConflict,
        ),
{
    match observed {
        Err(m) => Err(MaterializationBeginError::Io(m.clone())),
        Ok(None) => Err(MaterializationBeginError::GcRootConflict),
        Ok(Some(t)) => if same_path(t.as_str().as_bytes(), derivation.as_bytes()) && derivation_exists {
            Ok(())
        } else {
            Err(MaterializationBeginError::GcRootConflict)
        },
    }
}

// ---------------------------------------------------------------------------
// The begin boundary
// ---------------------------------------------------------------------------

/// Root's boundary that begins a materialization from one trusted candidate.
pub struct RootMaterializationBeginBoundary {
    pub local_node: String,
    pub candidates: FileTrustedMaterializationCandidateStore,
    pub intent_root: String,
    pub admission_root: String,
    pub gcroot_root: String,
    pub expected_owner_uid: u32,
}

/// The intent spec of a materialization of `candidate` on `node`.
pub open spec fn begin_spec_of(
    node: Seq<char>,
    c: CandidateView,
    operation: Seq<char>,
    now: u64,
) -> (Seq<char>, Seq<char>, Seq<char>, Seq<char>, Seq<char>, Seq<char>, u64) {
    (node, c.candidate, c.system_spec, operation, c.immutable_flake_root, c.installable_attribute, now)
}

pub open spec fn intent_spec_view(s: MaterializationIntentSpec) -> (
    Seq<char>,
    Seq<char>,
    Seq<char>,
    Seq<char>,
    Seq<char>,
    Seq<char>,
    u64,
) {
    (
        s.node@,
        s.candidate@,
        s.system_spec@,
        s.materialization_operation@,
        s.immutable_flake_root@,
        s.installable_attribute@,
        s.created_at_unix_ms,
    )
}

/// The intent names the derivation and output that were resolved.
pub open spec fn same_resolution(i: IntentView, d: ResolvedMaterializationDerivation) -> bool {
    &&& path_parts(utf8(i.derivation_path)) == path_parts(utf8(d.derivation_path@))
    &&& path_parts(utf8(i.expected_output)) == path_parts(utf8(d.expected_output@))
}

/// `op:materialize-<nonce>`.
pub fn materialize_operation(nonce: &str) -> (r: String)
    ensures
        r@ == "op:materialize-"@ + nonce@,
{
    let mut r = "op:materialize-".to_owned();
    r.append(nonce);
    r
}

impl RootMaterializationBeginBoundary {
    pub fn production_default(local_node: &str) -> (r: Self)
        ensures
            r.local_node@ == local_node@,
            r.candidates.root_spec() == DEFAULT_TRUSTED_CANDIDATE_ROOT@,
            r.candidates.owner() == 0,
            r.intent_root@ == DEFAULT_MATERIALIZATION_INTENT_ROOT@,
            r.admission_root@ == DEFAULT_MATERIALIZATION_ADMISSION_ROOT@,
            r.gcroot_root@ == DEFAULT_PENDING_GCROOT_ROOT@,
            r.expected_owner_uid == 0,
    {
        Self::new(
            local_node,
            DEFAULT_TRUSTED_CANDIDATE_ROOT,
            DEFAULT_MATERIALIZATION_INTENT_ROOT,
            DEFAULT_MATERIALIZATION_ADMISSION_ROOT,
            DEFAULT_PENDING_GCROOT_ROOT,
            0,
        )
    }

    pub fn new(
        local_node: &str,
        candidate_root: &str,
        intent_root: &str,
        admission_root: &str,
        gcroot_root: &str,
        expected_owner_uid: u32,
    ) -> (r: Self)
        ensures
            r.local_node@ == local_node@,
            r.candidates.root_spec() == candidate_root@,
            r.candidates.owner() == expected_owner_uid,
            r.intent_root@ == intent_root@,
            r.admission_root@ == admission_root@,
            r.gcroot_root@ == gcroot_root@,
            r.expected_owner_uid == expected_owner_uid,
    {
        RootMaterializationBeginBoundary {
            local_node: local_node.to_owned(),
            candidates: FileTrustedMaterializationCandidateStore::new(candidate_root, expected_owner_uid),
            intent_root: intent_root.to_owned(),
            admission_root: admission_root.to_owned(),
            gcroot_root: gcroot_root.to_owned(),
            expected_owner_uid,
        }
    }

    /// The GC root that retains the pending derivation of `operation`.
    pub fn gcroot_path(&self, operation: &str) -> (r: String)
        ensures
            utf8(r@) == join(
                utf8(self.gcroot_root@),
                utf8("operation-"@) + hex_of_text(operation@) + utf8("-derivation"@),
            ),
    {
        derivation_gcroot_path(self.gcroot_root.as_str(), operation)
    }

    /// The GC root directory is root-owned and closed to others.
    pub fn validate_gcroot_root(&self, facts: &FileFacts) -> (r: Result<(), MaterializationBeginError>)
        ensures
            r is Ok <==> protected_directory(*facts, self.expected_owner_uid),
            r is Err ==> r == Err::<(), MaterializationBeginError>(MaterializationBeginError::InvalidGcRoot),
    {
        if !is_protected_directory(facts, self.expected_owner_uid) {
            return Err(MaterializationBeginError::InvalidGcRoot);
        }
        Ok(())
    }

    /// The first steps of `begin`: the trusted candidate as loaded, its source, the
    /// derivation the inspector resolved and the fresh nonce. The candidate alone
    /// decides what is materialized; the caller selects only the manifest id.
    pub fn prepare_begin(
        &self,
        candidate: Result<TrustedMaterializationCandidate, TrustedCandidateError>,
        resolved: Result<ResolvedMaterializationDerivation, String>,
        nonce: Result<String, String>,
    ) -> (r: Result<(TrustedMaterializationCandidate, ResolvedMaterializationDerivation, String), MaterializationBeginError>)
        ensures
            match candidate {
                Err(e) => r == Err::<(TrustedMaterializationCandidate, ResolvedMaterializationDerivation, String), MaterializationBeginError>(
                    MaterializationBeginError::Candidate(e),
                ),
                Ok(c) => if !is_store_subpath(utf8(c.immutable_flake_root@)) {
                    r == Err::<(TrustedMaterializationCandidate, ResolvedMaterializationDerivation, String), MaterializationBeginError>(
                        MaterializationBeginError::Candidate(TrustedCandidateError::InvalidImmutableFlakeRoot),
                    )
                } else {
                    match (resolved, nonce) {
                        (Err(m), _) => r == Err::<(TrustedMaterializationCandidate, ResolvedMaterializationDerivation, String), MaterializationBeginError>(
                            MaterializationBeginError::Inspector(m),
                        ),
                        (Ok(_), Err(m)) => r == Err::<(TrustedMaterializationCandidate, ResolvedMaterializationDerivation, String), MaterializationBeginError>(
                            MaterializationBeginError::RandomSource(m),
                        ),
                        (Ok(d), Ok(n)) => r matches Ok((c2, d2, op)) && c2@ == c@ && d2 == d && op@
                            == "op:materialize-"@ + n@,
                    }
                },
            },
    {
        let candidate = match candidate {
            Ok(c) => c,
            Err(e) => return Err(MaterializationBeginError::Candidate(e)),
        };
        if validate_immutable_store_subpath(candidate.immutable_flake_root.as_str()).is_err() {
            return Err(MaterializationBeginError::Candidate(TrustedCandidateError::InvalidImmutableFlakeRoot));
        }
        let resolved = match resolved {
            Ok(d) => d,
            Err(m) => return Err(MaterializationBeginError::Inspector(m)),
        };
        let nonce = match nonce {
            Ok(n) => n,
            Err(m) => return Err(MaterializationBeginError::RandomSource(m)),
        };
        let operation = materialize_operation(nonce.as_str());
        Ok((candidate, resolved, operation))
    }

    /// The intent spec root records for a candidate: this node, the candidate's
    /// identities, source and attribute, the operation and the time.
    pub fn intent_spec(
        &self,
        candidate: &TrustedMaterializationCandidate,
        operation: &str,
        created_at_unix_ms: u64,
    ) -> (r: MaterializationIntentSpec)
        ensures
            intent_spec_view(r) == begin_spec_of(self.local_node@, candidate@, operation@, created_at_unix_ms),
    {
        MaterializationIntentSpec {
            node: self.local_node.clone(),
            candidate: candidate.candidate.clone(),
            system_spec: candidate.system_spec.clone(),
            materialization_operation: operation.to_owned(),
            immutable_flake_root: candidate.immutable_flake_root.clone(),
            installable_attribute: candidate.installable_attribute.clone(),
            created_at_unix_ms,
        }
    }

    /// The intent root recorded must name what was resolved before the GC root was taken.
    pub fn check_begun(
        begun: Result<MaterializationIntent, MaterializationAuthorityError>,
        resolved: &ResolvedMaterializationDerivation,
    ) -> (r: Result<MaterializationIntent, MaterializationBeginError>)
        ensures
            match begun {
                Err(e) => r == Err::<MaterializationIntent, MaterializationBeginError>(
                    MaterializationBeginError::Authority(e),
                ),
                Ok(i) => if same_resolution(i@, *resolved) {
                    r matches Ok(j) && j@ == i@
                } else {
                    r == Err::<MaterializationIntent, MaterializationBeginError>(
                        MaterializationBeginError::IdentityChanged,
                    )
                },
            },
    {
        let intent = match begun {
            Ok(i) => i,
            Err(e) => return Err(MaterializationBeginError::Authority(e)),
        };
        if !same_path(intent.derivation_path.as_str().as_bytes(), resolved.derivation_path.as_str().as_bytes())
            || !same_path(intent.expected_output.as_str().as_bytes(), resolved.expected_output.as_str().as_bytes()) {
            return Err(MaterializationBeginError::IdentityChanged);
        }
        Ok(intent)
    }

    /// Completion admits only the output the pending intent predicted.
    pub fn check_completed(
        pending: &MaterializationIntent,
        admitted: Result<MaterializationAdmission, MaterializationAuthorityError>,
    ) -> (r: Result<MaterializationAdmission, MaterializationBeginError>)
        ensures
            match admitted {
                Err(e) => r == Err::<MaterializationAdmission, MaterializationBeginError>(
                    MaterializationBeginError::Authority(e),
                ),
                Ok(a) => if a.system_closure@ == pending.expected_output@ {
                    r matches Ok(b) && b@ == a@
                } else {
                    r == Err::<MaterializationAdmission, MaterializationBeginError>(
                        MaterializationBeginError::IdentityChanged,
                    )
                },
            },
    {
        let admission = match admitted {
            Ok(a) => a,
            Err(e) => return Err(MaterializationBeginError::Authority(e)),
        };
        if !str_eq(admission.system_closure.as_str(), pending.expected_output.as_str()) {
            return Err(MaterializationBeginError::IdentityChanged);
        }
        Ok(admission)
    }
}

} // verus!
