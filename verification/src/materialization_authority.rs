//! Root-owned materialization intents: the exact derivation and output that a
//! non-privileged build is allowed to realize, recorded before it starts.
use vstd::prelude::*;
use crate::ids::{NodeId, SystemCandidateId, SystemOperationId, SystemSpecId};
use crate::lines::{
    all_lines_plain, field_line, hex_text_field, lemma_decimal_plain, lemma_field_line,
    lemma_field_line_plain, lemma_hex_plain, lemma_plain_ascii_bytes, lemma_plain_concat,
    lemma_split_lines_text, lines_text, no_newline, plain_ascii, split_lines, u64_field,
    LineCursor, RecordWriter,
};
use crate::paths::{
    exact_store_path, has_drv_extension, is_exact_store_path, is_store_subpath, join, join_path,
    path_is_drv, store_subpath,
};
use crate::text::{
    ascii_chars, bytes_equal, decimal, hex_encode, hex_of_text, is_alnum, is_ascii_bytes,
    lemma_decimal_round_trip, lemma_hex_text_round_trip, nonblank_lines, nonblank_text_lines,
    parse_u64_spec, push_all, push_hex, str_eq, texts_view, trim_text, trimmed, utf8,
};
use crate::fsmeta::{is_protected_directory, is_protected_file, protected_directory, protected_file, FileFacts};
use crate::lifecycle::{child, decoded_text, hex_entry, hex_entry_path, intent_state_name, IntentState};
use crate::paths::{path_parts, same_path};
use crate::request_publisher::{AdmissionView, MaterializationAdmission};

verus! {

pub const DEFAULT_MATERIALIZATION_INTENT_ROOT: &'static str = "/var/lib/theblob/materialization-intents";

pub const DEFAULT_MATERIALIZATION_ADMISSION_ROOT: &'static str =
    "/var/lib/theblob/materialization-admissions";

pub const MAX_MATERIALIZATION_INTENT_BYTES: u64 = 32768;

/// What the caller asks to materialize, before the derivation is resolved.
#[derive(Clone, Debug, PartialEq, Eq)]
pub struct MaterializationIntentSpec {
    pub node: NodeId,
    pub candidate: SystemCandidateId,
    pub system_spec: SystemSpecId,
    pub materialization_operation: SystemOperationId,
    pub immutable_flake_root: String,
    pub installable_attribute: String,
    pub created_at_unix_ms: u64,
}

/// The durable intent: which exact derivation and output one operation may realize.
#[derive(Clone, Debug, PartialEq, Eq)]
pub struct MaterializationIntent {
    pub node: NodeId,
    pub candidate: SystemCandidateId,
    pub system_spec: SystemSpecId,
    pub materialization_operation: SystemOperationId,
    pub immutable_flake_root: String,
    pub installable_attribute: String,
    pub derivation_path: String,
    pub expected_output: String,
    pub created_at_unix_ms: u64,
}

/// The text content of a [`MaterializationIntent`].
pub struct IntentView {
    pub node: Seq<char>,
    pub candidate: Seq<char>,
    pub system_spec: Seq<char>,
    pub materialization_operation: Seq<char>,
    pub immutable_flake_root: Seq<char>,
    pub installable_attribute: Seq<char>,
    pub derivation_path: Seq<char>,
    pub expected_output: Seq<char>,
    pub created_at_unix_ms: u64,
}

impl View for MaterializationIntent {
    type V = IntentView;

    open spec fn view(&self) -> IntentView {
        IntentView {
            node: self.node@,
            candidate: self.candidate@,
            system_spec: self.system_spec@,
            materialization_operation: self.materialization_operation@,
            immutable_flake_root: self.immutable_flake_root@,
            installable_attribute: self.installable_attribute@,
            derivation_path: self.derivation_path@,
            expected_output: self.expected_output@,
            created_at_unix_ms: self.created_at_unix_ms,
        }
    }
}

impl MaterializationIntent {
    /// The Nix build target for the output of the exact derivation: `<drv>^out`.
    pub fn build_target(&self) -> (r: String)
        ensures
            r@ == self.derivation_path@ + "^out"@,
    {
        let mut r = self.derivation_path.clone();
        r.append("^out");
        r
    }
}

/// The derivation and output the inspector resolved for an installable.
#[derive(Clone, Debug, PartialEq, Eq)]
pub struct ResolvedMaterializationDerivation {
    pub derivation_path: String,
    pub expected_output: String,
}

/// What the inspector verified about a realized output.
#[derive(Clone, Debug, PartialEq, Eq)]
pub struct VerifiedMaterializationOutput {
    pub deriver: String,
    pub nar_hash: String,
}

/// The configuration of the inspector that runs `nix` and `nix-store`.
#[derive(Clone, Debug, PartialEq, Eq)]
pub struct StdNixMaterializationInspector {
    nix_program: String,
    nix_store_program: String,
}

impl StdNixMaterializationInspector {
    pub fn new(nix_program: &str, nix_store_program: &str) -> (r: Self)
        ensures
            r.nix_program()@ == nix_program@,
            r.nix_store_program()@ == nix_store_program@,
    {
        StdNixMaterializationInspector {
            nix_program: nix_program.to_owned(),
            nix_store_program: nix_store_program.to_owned(),
        }
    }

    pub closed spec fn nix_program(&self) -> String {
        self.nix_program
    }

    pub closed spec fn nix_store_program(&self) -> String {
        self.nix_store_program
    }

    /// The `nix` executable.
    pub fn nix(&self) -> (r: &str)
        ensures
            r@ == self.nix_program()@,
    {
        self.nix_program.as_str()
    }

    /// The `nix-store` executable.
    pub fn nix_store(&self) -> (r: &str)
        ensures
            r@ == self.nix_store_program()@,
    {
        self.nix_store_program.as_str()
    }
}

#[derive(Clone, Debug, PartialEq, Eq)]
pub enum MaterializationAuthorityError {
    InvalidIntentRoot,
    InvalidAdmissionRoot,
    InvalidImmutableFlakeRoot,
    InvalidInstallableAttribute,
    InvalidDerivation,
    InvalidExpectedOutput,
    IntentAlreadyExists(SystemOperationId),
    IntentMissing(SystemOperationId),
    InvalidIntentFile,
    NonCanonicalIntent,
    IntentMismatch,
    AdmissionConflict,
    Inspector(String),
    Io(String),
}

// ---------------------------------------------------------------------------
// Identifier and path rules
// ---------------------------------------------------------------------------

/// An installable attribute: 1 to 512 bytes of ASCII letters, digits, `.`, `-`, `_`.
pub open spec fn installable_attribute_ok(b: Seq<u8>) -> bool {
    &&& 1 <= b.len() <= 512
    &&& forall|i: int|
        0 <= i < b.len() ==> #[trigger] is_alnum(b[i]) || b[i] == 46 || b[i] == 45 || b[i] == 95
}

/// Rejects an installable attribute that is empty, too long, or holds shell or path syntax.
pub fn validate_installable_attribute(value: &str) -> (r: Result<(), String>)
    ensures
        r is Ok <==> installable_attribute_ok(utf8(value@)),
        r matches Err(m) ==> m@ == (if 1 <= utf8(value@).len() <= 512 {
            "invalid installable attribute"@
        } else {
            "invalid installable attribute length"@
        }),
{
    let b = value.as_bytes();
    if b.len() == 0 || b.len() > 512 {
        return Err("invalid installable attribute length".to_owned());
    }
    let extra: [u8; 3] = [46, 45, 95];
    let ok = crate::text::all_alnum_or(b, extra.as_slice());
    assert(extra@ =~= seq![46u8, 45u8, 95u8]);
    if !ok {
        return Err("invalid installable attribute".to_owned());
    }
    Ok(())
}

/// Why a path is not inside one store object, if it is not.
#[derive(Clone, Debug, PartialEq, Eq)]
pub enum StoreSubpathDefect {
    NotAbsolute,
    OutsideStore,
    UnsafeComponents,
}

pub open spec fn store_subpath_defect(p: Seq<u8>) -> Option<StoreSubpathDefect> {
    let c = crate::paths::path_parts(p);
    if !crate::paths::has_root(p) {
        Some(StoreSubpathDefect::NotAbsolute)
    } else if c.len() < 4 || c[0] != crate::paths::PathPart::RootDir || c[1]
        != crate::paths::PathPart::Normal(crate::paths::nix_bytes()) || c[2]
        != crate::paths::PathPart::Normal(crate::paths::store_bytes()) {
        Some(StoreSubpathDefect::OutsideStore)
    } else if !is_store_subpath(p) {
        Some(StoreSubpathDefect::UnsafeComponents)
    } else {
        None
    }
}

/// Classifies a path against `/nix/store/<name>[/..]`.
pub fn store_subpath_check(path: &[u8]) -> (r: Option<StoreSubpathDefect>)
    ensures
        r == store_subpath_defect(path@),
        r is None <==> is_store_subpath(path@),
{
    if !(path.len() > 0 && path[0] == 47) {
        return Some(StoreSubpathDefect::NotAbsolute);
    }
    if store_subpath(path) {
        return None;
    }
    let c = crate::paths::components(path);
    if c.len() < 4 {
        return Some(StoreSubpathDefect::OutsideStore);
    }
    let head = match &c[0] {
        crate::paths::Component::RootDir => true,
        _ => false,
    };
    let nix = match &c[1] {
        crate::paths::Component::Normal(v) => v.len() == 3 && v[0] == 110 && v[1] == 105 && v[2]
            == 120,
        _ => false,
    };
    let store = match &c[2] {
        crate::paths::Component::Normal(v) => v.len() == 5 && v[0] == 115 && v[1] == 116 && v[2]
            == 111 && v[3] == 114 && v[4] == 101,
        _ => false,
    };
    proof {
        let parts = crate::paths::parts_view(c@);
        assert(parts[0] == c@[0].part());
        assert(parts[1] == c@[1].part());
        assert(parts[2] == c@[2].part());
        match c@[1] {
            crate::paths::Component::Normal(v) => {
                if v@ == crate::paths::nix_bytes() {
                    assert(v@.len() == 3 && v@[0] == 110 && v@[1] == 105 && v@[2] == 120);
                } else if v@.len() == 3 && v@[0] == 110 && v@[1] == 105 && v@[2] == 120 {
                    assert(v@ =~= crate::paths::nix_bytes());
                }
            },
            _ => {},
        }
        match c@[2] {
            crate::paths::Component::Normal(v) => {
                if v@ == crate::paths::store_bytes() {
                    assert(v@.len() == 5 && v@[0] == 115 && v@[1] == 116 && v@[2] == 111 && v@[3]
                        == 114 && v@[4] == 101);
                } else if v@.len() == 5 && v@[0] == 115 && v@[1] == 116 && v@[2] == 111 && v@[3]
                    == 114 && v@[4] == 101 {
                    assert(v@ =~= crate::paths::store_bytes());
                }
            },
            _ => {},
        }
    }
    if !head || !nix || !store {
        return Some(StoreSubpathDefect::OutsideStore);
    }
    Some(StoreSubpathDefect::UnsafeComponents)
}

/// Rejects a flake root that is not an absolute path inside one store object.
pub fn validate_immutable_store_subpath(path: &str) -> (r: Result<(), String>)
    ensures
        r is Ok <==> is_store_subpath(utf8(path@)),
        r matches Err(m) ==> m@ == match store_subpath_defect(utf8(path@)) {
            Some(StoreSubpathDefect::NotAbsolute) => "flake root is not absolute"@,
            Some(StoreSubpathDefect::OutsideStore) => "flake root is outside /nix/store"@,
            _ => "flake root has unsafe path components"@,
        },
{
    match store_subpath_check(path.as_bytes()) {
        None => Ok(()),
        Some(StoreSubpathDefect::NotAbsolute) => Err("flake root is not absolute".to_owned()),
        Some(StoreSubpathDefect::OutsideStore) => Err(
            "flake root is outside /nix/store".to_owned(),
        ),
        Some(StoreSubpathDefect::UnsafeComponents) => Err(
            "flake root has unsafe path components".to_owned(),
        ),
    }
}

/// Rejects anything but exactly `/nix/store/<name>`.
pub fn validate_exact_store_path(path: &str) -> (r: Result<(), String>)
    ensures
        r is Ok <==> is_exact_store_path(utf8(path@)),
        r matches Err(m) ==> m@ == "invalid exact Nix store path"@,
{
    if exact_store_path(path.as_bytes()) {
        Ok(())
    } else {
        Err("invalid exact Nix store path".to_owned())
    }
}

pub open spec fn derivation_path_ok(p: Seq<u8>) -> bool {
    is_exact_store_path(p) && has_drv_extension(p)
}

pub open spec fn output_path_ok(p: Seq<u8>) -> bool {
    is_exact_store_path(p) && !has_drv_extension(p)
}

/// Accepts only an exact store path with the `drv` extension.
pub fn validate_derivation_path(path: &str) -> (r: Result<(), String>)
    ensures
        r is Ok <==> derivation_path_ok(utf8(path@)),
        r matches Err(m) ==> m@ == (if is_exact_store_path(utf8(path@)) {
            "path is not a .drv store derivation"@
        } else {
            "invalid exact Nix store path"@
        }),
{
    validate_exact_store_path(path)?;
    if !path_is_drv(path.as_bytes()) {
        return Err("path is not a .drv store derivation".to_owned());
    }
    Ok(())
}

/// Accepts only an exact store path that is not a derivation.
pub fn validate_output_path(path: &str) -> (r: Result<(), String>)
    ensures
        r is Ok <==> output_path_ok(utf8(path@)),
        r matches Err(m) ==> m@ == (if is_exact_store_path(utf8(path@)) {
            "expected output cannot be a derivation path"@
        } else {
            "invalid exact Nix store path"@
        }),
{
    validate_exact_store_path(path)?;
    if path_is_drv(path.as_bytes()) {
        return Err("expected output cannot be a derivation path".to_owned());
    }
    Ok(())
}

// ---------------------------------------------------------------------------
// The canonical intent record
// ---------------------------------------------------------------------------

pub open spec fn intent_lines(v: IntentView) -> Seq<Seq<u8>> {
    seq![
        utf8("theblob-materialization-intent-v1"@),
        field_line(utf8("materialization-operation"@), hex_of_text(v.materialization_operation)),
        field_line(utf8("node"@), hex_of_text(v.node)),
        field_line(utf8("candidate"@), hex_of_text(v.candidate)),
        field_line(utf8("system-spec"@), hex_of_text(v.system_spec)),
        field_line(utf8("immutable-flake-root"@), hex_of_text(v.immutable_flake_root)),
        field_line(utf8("installable-attribute"@), hex_of_text(v.installable_attribute)),
        field_line(utf8("derivation-path"@), hex_of_text(v.derivation_path)),
        field_line(utf8("expected-output"@), hex_of_text(v.expected_output)),
        field_line(utf8("created-at-unix-ms"@), decimal(v.created_at_unix_ms as nat)),
    ]
}

/// The canonical UTF-8 bytes of an intent.
pub open spec fn intent_text(v: IntentView) -> Seq<u8> {
    lines_text(intent_lines(v))
}

/// The intent spelled by the lines of a record, if they have its exact shape.
pub open spec fn intent_fields(ls: Seq<Seq<u8>>) -> Option<IntentView> {
    if ls.len() == 11 && ls[0] == utf8("theblob-materialization-intent-v1"@) && hex_text_field(
        ls[1],
        utf8("materialization-operation"@),
        false,
    ) is Some && hex_text_field(ls[2], utf8("node"@), false) is Some && hex_text_field(
        ls[3],
        utf8("candidate"@),
        false,
    ) is Some && hex_text_field(ls[4], utf8("system-spec"@), false) is Some && hex_text_field(
        ls[5],
        utf8("immutable-flake-root"@),
        false,
    ) is Some && hex_text_field(ls[6], utf8("installable-attribute"@), false) is Some
        && hex_text_field(ls[7], utf8("derivation-path"@), false) is Some && hex_text_field(
        ls[8],
        utf8("expected-output"@),
        false,
    ) is Some && u64_field(ls[9], utf8("created-at-unix-ms"@)) is Some && ls[10].len() == 0 {
        Some(
            IntentView {
                materialization_operation: hex_text_field(
                    ls[1],
                    utf8("materialization-operation"@),
                    false,
                )->0,
                node: hex_text_field(ls[2], utf8("node"@), false)->0,
                candidate: hex_text_field(ls[3], utf8("candidate"@), false)->0,
                system_spec: hex_text_field(ls[4], utf8("system-spec"@), false)->0,
                immutable_flake_root: hex_text_field(ls[5], utf8("immutable-flake-root"@), false)->0,
                installable_attribute: hex_text_field(
                    ls[6],
                    utf8("installable-attribute"@),
                    false,
                )->0,
                derivation_path: hex_text_field(ls[7], utf8("derivation-path"@), false)->0,
                expected_output: hex_text_field(ls[8], utf8("expected-output"@), false)->0,
                created_at_unix_ms: u64_field(ls[9], utf8("created-at-unix-ms"@))->0,
            },
        )
    } else {
        None
    }
}

/// The fields of an intent satisfy the rules `parse_intent` checks after reading.
pub open spec fn intent_fields_valid(v: IntentView) -> bool {
    &&& is_store_subpath(utf8(v.immutable_flake_root))
    &&& installable_attribute_ok(utf8(v.installable_attribute))
    &&& derivation_path_ok(utf8(v.derivation_path))
    &&& output_path_ok(utf8(v.expected_output))
}

/// What `parse_intent` returns for the UTF-8 bytes of a text.
pub open spec fn parse_intent_result(b: Seq<u8>) -> Result<IntentView, MaterializationAuthorityError> {
    if b.len() > MAX_MATERIALIZATION_INTENT_BYTES {
        Err(MaterializationAuthorityError::InvalidIntentFile)
    } else {
        match intent_fields(split_lines(b)) {
            None => Err(MaterializationAuthorityError::InvalidIntentFile),
            Some(v) => if !is_store_subpath(utf8(v.immutable_flake_root)) {
                Err(MaterializationAuthorityError::InvalidImmutableFlakeRoot)
            } else if !installable_attribute_ok(utf8(v.installable_attribute)) {
                Err(MaterializationAuthorityError::InvalidInstallableAttribute)
            } else if !derivation_path_ok(utf8(v.derivation_path)) {
                Err(MaterializationAuthorityError::InvalidDerivation)
            } else if !output_path_ok(utf8(v.expected_output)) {
                Err(MaterializationAuthorityError::InvalidExpectedOutput)
            } else {
                Ok(v)
            },
        }
    }
}

proof fn lemma_intent_literals()
    ensures
        plain_ascii("theblob-materialization-intent-v1"@),
        plain_ascii("materialization-operation"@),
        plain_ascii("node"@),
        plain_ascii("candidate"@),
        plain_ascii("system-spec"@),
        plain_ascii("immutable-flake-root"@),
        plain_ascii("installable-attribute"@),
        plain_ascii("derivation-path"@),
        plain_ascii("expected-output"@),
        plain_ascii("created-at-unix-ms"@),
{
    reveal_strlit("theblob-materialization-intent-v1");
    reveal_strlit("materialization-operation");
    reveal_strlit("node");
    reveal_strlit("candidate");
    reveal_strlit("system-spec");
    reveal_strlit("immutable-flake-root");
    reveal_strlit("installable-attribute");
    reveal_strlit("derivation-path");
    reveal_strlit("expected-output");
    reveal_strlit("created-at-unix-ms");
}

/// A hexadecimal field line is newline-free ASCII.
pub proof fn lemma_hex_line(key: Seq<char>, value: Seq<char>)
    requires
        plain_ascii(key),
    ensures
        no_newline(field_line(utf8(key), hex_of_text(value))),
        is_ascii_bytes(field_line(utf8(key), hex_of_text(value))),
{
    lemma_plain_ascii_bytes(key);
    lemma_hex_plain(utf8(value));
    lemma_field_line_plain(utf8(key), hex_of_text(value));
    let l = field_line(utf8(key), hex_of_text(value));
    assert forall|i: int| 0 <= i < l.len() implies #[trigger] l[i] < 128 by {
        if i < utf8(key).len() {
            assert(l[i] == utf8(key)[i]);
        } else if i > utf8(key).len() {
            assert(l[i] == hex_of_text(value)[i - utf8(key).len() - 1]);
        }
    }
}

/// A decimal field line is newline-free ASCII.
pub proof fn lemma_decimal_line(key: Seq<char>, n: nat)
    requires
        plain_ascii(key),
    ensures
        no_newline(field_line(utf8(key), decimal(n))),
        is_ascii_bytes(field_line(utf8(key), decimal(n))),
{
    lemma_plain_ascii_bytes(key);
    lemma_decimal_plain(n);
    lemma_field_line_plain(utf8(key), decimal(n));
    let l = field_line(utf8(key), decimal(n));
    assert forall|i: int| 0 <= i < l.len() implies #[trigger] l[i] < 128 by {
        if i < utf8(key).len() {
            assert(l[i] == utf8(key)[i]);
        } else if i > utf8(key).len() {
            assert(l[i] == decimal(n)[i - utf8(key).len() - 1]);
        }
    }
}

proof fn lemma_intent_lines_plain(v: IntentView)
    ensures
        all_lines_plain(intent_lines(v)),
        forall|k: int| 0 <= k < intent_lines(v).len() ==> is_ascii_bytes(#[trigger] intent_lines(v)[k]),
{
    lemma_intent_literals();
    lemma_plain_ascii_bytes("theblob-materialization-intent-v1"@);
    lemma_hex_line("materialization-operation"@, v.materialization_operation);
    lemma_hex_line("node"@, v.node);
    lemma_hex_line("candidate"@, v.candidate);
    lemma_hex_line("system-spec"@, v.system_spec);
    lemma_hex_line("immutable-flake-root"@, v.immutable_flake_root);
    lemma_hex_line("installable-attribute"@, v.installable_attribute);
    lemma_hex_line("derivation-path"@, v.derivation_path);
    lemma_hex_line("expected-output"@, v.expected_output);
    lemma_decimal_line("created-at-unix-ms"@, v.created_at_unix_ms as nat);
}

/// Serializes an intent in its versioned, field-ordered, hex-encoded form.
pub fn canonical_intent(intent: &MaterializationIntent) -> (r: String)
    ensures
        utf8(r@) == intent_text(intent@),
        r@ == ascii_chars(intent_text(intent@)),
{
    let mut w = RecordWriter::new();
    w.literal("theblob-materialization-intent-v1");
    w.hex_field("materialization-operation".as_bytes(), intent.materialization_operation.as_str());
    w.hex_field("node".as_bytes(), intent.node.as_str());
    w.hex_field("candidate".as_bytes(), intent.candidate.as_str());
    w.hex_field("system-spec".as_bytes(), intent.system_spec.as_str());
    w.hex_field("immutable-flake-root".as_bytes(), intent.immutable_flake_root.as_str());
    w.hex_field("installable-attribute".as_bytes(), intent.installable_attribute.as_str());
    w.hex_field("derivation-path".as_bytes(), intent.derivation_path.as_str());
    w.hex_field("expected-output".as_bytes(), intent.expected_output.as_str());
    w.decimal_field("created-at-unix-ms".as_bytes(), intent.created_at_unix_ms);
    proof {
        assert(w.lines() =~= intent_lines(intent@));
        lemma_intent_lines_plain(intent@);
    }
    w.finish()
}

/// Reads an intent record, rejecting any deviation from its exact field order.
pub fn parse_intent(text: &str) -> (r: Result<MaterializationIntent, MaterializationAuthorityError>)
    ensures
        match r {
            Ok(i) => parse_intent_result(utf8(text@)) == Ok::<IntentView, MaterializationAuthorityError>(i@),
            Err(e) => parse_intent_result(utf8(text@)) == Err::<IntentView, MaterializationAuthorityError>(e),
        },
{
    let bytes = text.as_bytes();
    if bytes.len() as u64 > MAX_MATERIALIZATION_INTENT_BYTES {
        return Err(MaterializationAuthorityError::InvalidIntentFile);
    }
    let mut c = LineCursor::new(bytes);
    let ghost ls = c.lines();
    if !c.literal("theblob-materialization-intent-v1".as_bytes()) {
        return Err(MaterializationAuthorityError::InvalidIntentFile);
    }
    let materialization_operation = match c.hex_field("materialization-operation".as_bytes(), false) {
        Some(v) => v,
        None => return Err(MaterializationAuthorityError::InvalidIntentFile),
    };
    let node = match c.hex_field("node".as_bytes(), false) {
        Some(v) => v,
        None => return Err(MaterializationAuthorityError::InvalidIntentFile),
    };
    let candidate = match c.hex_field("candidate".as_bytes(), false) {
        Some(v) => v,
        None => return Err(MaterializationAuthorityError::InvalidIntentFile),
    };
    let system_spec = match c.hex_field("system-spec".as_bytes(), false) {
        Some(v) => v,
        None => return Err(MaterializationAuthorityError::InvalidIntentFile),
    };
    let immutable_flake_root = match c.hex_field("immutable-flake-root".as_bytes(), false) {
        Some(v) => v,
        None => return Err(MaterializationAuthorityError::InvalidIntentFile),
    };
    let installable_attribute = match c.hex_field("installable-attribute".as_bytes(), false) {
        Some(v) => v,
        None => return Err(MaterializationAuthorityError::InvalidIntentFile),
    };
    let derivation_path = match c.hex_field("derivation-path".as_bytes(), false) {
        Some(v) => v,
        None => return Err(MaterializationAuthorityError::InvalidIntentFile),
    };
    let expected_output = match c.hex_field("expected-output".as_bytes(), false) {
        Some(v) => v,
        None => return Err(MaterializationAuthorityError::InvalidIntentFile),
    };
    let created_at_unix_ms = match c.u64_field("created-at-unix-ms".as_bytes()) {
        Some(v) => v,
        None => return Err(MaterializationAuthorityError::InvalidIntentFile),
    };
    if !c.finish() {
        return Err(MaterializationAuthorityError::InvalidIntentFile);
    }
    let intent = MaterializationIntent {
        node,
        candidate,
        system_spec,
        materialization_operation,
        immutable_flake_root,
        installable_attribute,
        derivation_path,
        expected_output,
        created_at_unix_ms,
    };
    assert(intent_fields(ls) == Some(intent@));
    if validate_immutable_store_subpath(intent.immutable_flake_root.as_str()).is_err() {
        return Err(MaterializationAuthorityError::InvalidImmutableFlakeRoot);
    }
    if validate_installable_attribute(intent.installable_attribute.as_str()).is_err() {
        return Err(MaterializationAuthorityError::InvalidInstallableAttribute);
    }
    if validate_derivation_path(intent.derivation_path.as_str()).is_err() {
        return Err(MaterializationAuthorityError::InvalidDerivation);
    }
    if validate_output_path(intent.expected_output.as_str()).is_err() {
        return Err(MaterializationAuthorityError::InvalidExpectedOutput);
    }
    Ok(intent)
}

/// Reading the canonical text of a valid intent gives the intent back.
pub proof fn lemma_intent_round_trip(v: IntentView)
    requires
        intent_fields_valid(v),
        intent_text(v).len() <= MAX_MATERIALIZATION_INTENT_BYTES,
    ensures
        parse_intent_result(intent_text(v)) == Ok::<IntentView, MaterializationAuthorityError>(v),
{
    let ls = intent_lines(v);
    lemma_intent_lines_plain(v);
    lemma_split_lines_text(ls);
    let sp = split_lines(intent_text(v));
    assert(sp == ls.push(Seq::<u8>::empty()));
    assert(sp.len() == 11);
    assert forall|k: int| 0 <= k < 10 implies #[trigger] sp[k] == ls[k] by {}
    lemma_field_line(utf8("materialization-operation"@), hex_of_text(v.materialization_operation));
    lemma_field_line(utf8("node"@), hex_of_text(v.node));
    lemma_field_line(utf8("candidate"@), hex_of_text(v.candidate));
    lemma_field_line(utf8("system-spec"@), hex_of_text(v.system_spec));
    lemma_field_line(utf8("immutable-flake-root"@), hex_of_text(v.immutable_flake_root));
    lemma_field_line(utf8("installable-attribute"@), hex_of_text(v.installable_attribute));
    lemma_field_line(utf8("derivation-path"@), hex_of_text(v.derivation_path));
    lemma_field_line(utf8("expected-output"@), hex_of_text(v.expected_output));
    lemma_field_line(utf8("created-at-unix-ms"@), decimal(v.created_at_unix_ms as nat));
    lemma_hex_text_round_trip(v.materialization_operation, false);
    lemma_hex_text_round_trip(v.node, false);
    lemma_hex_text_round_trip(v.candidate, false);
    lemma_hex_text_round_trip(v.system_spec, false);
    lemma_hex_text_round_trip(v.immutable_flake_root, false);
    lemma_hex_text_round_trip(v.installable_attribute, false);
    lemma_hex_text_round_trip(v.derivation_path, false);
    lemma_hex_text_round_trip(v.expected_output, false);
    lemma_decimal_round_trip(v.created_at_unix_ms as nat);
    assert(sp[10] == Seq::<u8>::empty());
    assert(intent_fields(sp) == Some(v));
}


// ---------------------------------------------------------------------------
// The inspector
// ---------------------------------------------------------------------------

/// Resolves a flake installable to its exact derivation and verifies realized outputs.
pub trait NixMaterializationInspector {
    fn resolve_exact_derivation(&self, immutable_flake_root: &str, installable_attribute: &str) -> Result<
        ResolvedMaterializationDerivation,
        String,
    >;

    fn verify_realized_output(&self, derivation_path: &str, expected_output: &str) -> Result<
        VerifiedMaterializationOutput,
        String,
    >;
}

/// What `format!("{:?}", lines)` writes for a list of texts.
pub uninterp spec fn debug_text_list(items: Seq<Seq<char>>) -> Seq<char>;

/// Wraps `format!("{:?}", ..)` on a list of texts: its `Debug` rendering, a function of
/// the texts alone.
#[verifier::external_body]
pub(crate) fn debug_list(items: &Vec<String>) -> (r: String)
    ensures
        r@ == debug_text_list(texts_view(items@)),
{
    format!("{:?}", items)
}

/// What `one_store_line` gives for an inspector's output.
pub open spec fn one_store_line_result(text: Seq<char>, derivation: bool) -> Result<Seq<char>, Seq<char>> {
    let ls = nonblank_lines(text);
    if ls.len() != 1 {
        Err("expected exactly one Nix store path, observed "@ + debug_text_list(ls))
    } else if !is_exact_store_path(utf8(ls[0])) {
        Err("invalid exact Nix store path"@)
    } else if derivation && !has_drv_extension(utf8(ls[0])) {
        Err("path is not a .drv store derivation"@)
    } else if !derivation && has_drv_extension(utf8(ls[0])) {
        Err("expected output cannot be a derivation path"@)
    } else {
        Ok(ls[0])
    }
}

/// The one store path an inspector command printed: a derivation, or an output.
pub fn one_store_line(text: &str, derivation: bool) -> (r: Result<String, String>)
    ensures
        match r {
            Ok(p) => one_store_line_result(text@, derivation) == Ok::<Seq<char>, Seq<char>>(p@),
            Err(m) => one_store_line_result(text@, derivation) == Err::<Seq<char>, Seq<char>>(m@),
        },
{
    let lines = nonblank_text_lines(text);
    if lines.len() != 1 {
        let mut m = "expected exactly one Nix store path, observed ".to_owned();
        let shown = debug_list(&lines);
        m.append(shown.as_str());
        return Err(m);
    }
    let path = lines[0].clone();
    proof {
        assert(texts_view(lines@)[0] == lines@[0]@);
    }
    if derivation {
        validate_derivation_path(path.as_str())?;
    } else {
        validate_output_path(path.as_str())?;
    }
    Ok(path)
}

/// `<flake root>#<attribute>`, the installable the inspector resolves.
pub fn installable_target(immutable_flake_root: &str, installable_attribute: &str) -> (r: String)
    ensures
        r@ == immutable_flake_root@ + "#"@ + installable_attribute@,
{
    let mut r = immutable_flake_root.to_owned();
    r.append("#");
    r.append(installable_attribute);
    r
}

/// What `verify_realized_output` concludes from the deriver and hash the store reported.
pub open spec fn realized_output_result(
    derivation_path: Seq<char>,
    deriver_stdout: Seq<char>,
    hash_stdout: Seq<char>,
) -> Result<(Seq<char>, Seq<char>), Seq<char>> {
    let observed = trimmed(deriver_stdout);
    if path_parts(utf8(observed)) != path_parts(utf8(derivation_path)) {
        Err("output deriver mismatch: expected "@ + derivation_path + ", observed "@ + observed)
    } else if trimmed(hash_stdout).len() == 0 {
        Err("nix store returned an empty output hash"@)
    } else {
        Ok((observed, trimmed(hash_stdout)))
    }
}

impl StdNixMaterializationInspector {
    /// The checks on the inputs of a resolution that need no store access.
    pub fn check_resolve_inputs(immutable_flake_root: &str, installable_attribute: &str) -> (r: Result<
        (),
        String,
    >)
        ensures
            r is Ok <==> is_store_subpath(utf8(immutable_flake_root@)) && installable_attribute_ok(
                utf8(installable_attribute@),
            ),
    {
        validate_immutable_store_subpath(immutable_flake_root)?;
        validate_installable_attribute(installable_attribute)?;
        Ok(())
    }

    /// The checks on the inputs of a verification.
    pub fn check_verify_inputs(derivation_path: &str, expected_output: &str) -> (r: Result<(), String>)
        ensures
            r is Ok <==> derivation_path_ok(utf8(derivation_path@)) && output_path_ok(
                utf8(expected_output@),
            ),
    {
        validate_derivation_path(derivation_path)?;
        validate_output_path(expected_output)?;
        Ok(())
    }

    /// Accepts a realized output only if the store names the expected deriver and a hash.
    pub fn realized_output(derivation_path: &str, deriver_stdout: &str, hash_stdout: &str) -> (r: Result<
        VerifiedMaterializationOutput,
        String,
    >)
        ensures
            match r {
                Ok(v) => realized_output_result(derivation_path@, deriver_stdout@, hash_stdout@)
                    == Ok::<(Seq<char>, Seq<char>), Seq<char>>((v.deriver@, v.nar_hash@)),
                Err(m) => realized_output_result(derivation_path@, deriver_stdout@, hash_stdout@)
                    == Err::<(Seq<char>, Seq<char>), Seq<char>>(m@),
            },
    {
        let observed = trim_text(deriver_stdout);
        if !same_path(observed.as_str().as_bytes(), derivation_path.as_bytes()) {
            let mut m = "output deriver mismatch: expected ".to_owned();
            m.append(derivation_path);
            m.append(", observed ");
            m.append(observed.as_str());
            return Err(m);
        }
        let nar_hash = trim_text(hash_stdout);
        if nar_hash.unicode_len() == 0 {
            return Err("nix store returned an empty output hash".to_owned());
        }
        Ok(VerifiedMaterializationOutput { deriver: observed, nar_hash })
    }
}

// ---------------------------------------------------------------------------
// The admission authority
// ---------------------------------------------------------------------------

/// The intent root, its `pending` and `completed` directories and the admission root.
pub struct AuthorityLayoutFacts {
    pub intent_root: FileFacts,
    pub pending: FileFacts,
    pub completed: FileFacts,
    pub admission_root: FileFacts,
}

/// Which records of one operation already exist.
pub struct OperationRecords {
    pub pending_intent: bool,
    pub completed_intent: bool,
    pub admission: bool,
}

/// Root's authority over materialization intents and admissions.
pub struct RootMaterializationAdmissionAuthority {
    pub intent_root: String,
    pub admission_root: String,
    pub expected_owner_uid: u32,
}

pub open spec fn authority_layout_result(facts: AuthorityLayoutFacts, owner: u32) -> Result<
    (),
    MaterializationAuthorityError,
> {
    if !protected_directory(facts.intent_root, owner) || !protected_directory(facts.pending, owner)
        || !protected_directory(facts.completed, owner) {
        Err(MaterializationAuthorityError::InvalidIntentRoot)
    } else if !protected_directory(facts.admission_root, owner) {
        Err(MaterializationAuthorityError::InvalidAdmissionRoot)
    } else {
        Ok(())
    }
}

/// The intent recorded for an operation spec and the derivation resolved for it.
pub open spec fn intent_of(spec: MaterializationIntentSpec, resolved: ResolvedMaterializationDerivation) -> IntentView {
    IntentView {
        node: spec.node@,
        candidate: spec.candidate@,
        system_spec: spec.system_spec@,
        materialization_operation: spec.materialization_operation@,
        immutable_flake_root: spec.immutable_flake_root@,
        installable_attribute: spec.installable_attribute@,
        derivation_path: resolved.derivation_path@,
        expected_output: resolved.expected_output@,
        created_at_unix_ms: spec.created_at_unix_ms,
    }
}

/// The provenance of an admission of an intent and its verified output.
pub open spec fn admission_provenance(i: IntentView, deriver: Seq<char>, nar_hash: Seq<char>) -> Seq<Seq<char>> {
    seq![
        "immutable-flake-root:"@ + i.immutable_flake_root,
        "installable-attribute:"@ + i.installable_attribute,
        "derivation:"@ + i.derivation_path,
        "expected-output:"@ + i.expected_output,
        "verified-deriver:"@ + deriver,
        "verified-nar-hash:"@ + nar_hash,
        "verification:nix-path-info+store-verify+deriver"@,
    ]
}

/// The admission of a pending intent whose output was verified.
pub open spec fn admission_of(i: IntentView, deriver: Seq<char>, nar_hash: Seq<char>, admitted_at: u64) -> AdmissionView {
    AdmissionView {
        node: i.node,
        candidate: i.candidate,
        system_spec: i.system_spec,
        materialization_operation: i.materialization_operation,
        system_closure: i.expected_output,
        admitted_at_unix_ms: admitted_at,
        provenance: admission_provenance(i, deriver, nar_hash),
    }
}

/// What loading an intent file of the given metadata and text gives.
pub open spec fn intent_file_result(
    operation: Seq<char>,
    f: FileFacts,
    text: Seq<char>,
    owner: u32,
) -> Result<IntentView, MaterializationAuthorityError> {
    if !protected_file(f, owner) || f.len > MAX_MATERIALIZATION_INTENT_BYTES {
        Err(MaterializationAuthorityError::InvalidIntentFile)
    } else {
        match parse_intent_result(utf8(text)) {
            Err(e) => Err(e),
            Ok(v) => if v.materialization_operation != operation {
                Err(MaterializationAuthorityError::IntentMismatch)
            } else if intent_text(v) != utf8(text) {
                Err(MaterializationAuthorityError::NonCanonicalIntent)
            } else {
                Ok(v)
            },
        }
    }
}

impl RootMaterializationAdmissionAuthority {
    pub fn production_default() -> (r: Self)
        ensures
            r.intent_root@ == DEFAULT_MATERIALIZATION_INTENT_ROOT@,
            r.admission_root@ == DEFAULT_MATERIALIZATION_ADMISSION_ROOT@,
            r.expected_owner_uid == 0,
    {
        Self::new(DEFAULT_MATERIALIZATION_INTENT_ROOT, DEFAULT_MATERIALIZATION_ADMISSION_ROOT, 0)
    }

    pub fn new(intent_root: &str, admission_root: &str, expected_owner_uid: u32) -> (r: Self)
        ensures
            r.intent_root@ == intent_root@,
            r.admission_root@ == admission_root@,
            r.expected_owner_uid == expected_owner_uid,
    {
        RootMaterializationAdmissionAuthority {
            intent_root: intent_root.to_owned(),
            admission_root: admission_root.to_owned(),
            expected_owner_uid,
        }
    }

    /// `<intent root>/<pending|completed>`.
    pub fn intent_dir(&self, state: IntentState) -> (r: String)
        ensures
            utf8(r@) == join(utf8(self.intent_root@), utf8(intent_state_name(state))),
    {
        let name = match state {
            IntentState::Pending => "pending",
            IntentState::Completed => "completed",
        };
        child(self.intent_root.as_str(), name)
    }

    /// `<intent root>/<pending|completed>/operation-<hex>.intent`.
    pub fn intent_path(&self, state: IntentState, operation: &str) -> (r: String)
        ensures
            utf8(r@) == hex_entry(
                decoded_text(join(utf8(self.intent_root@), utf8(intent_state_name(state)))),
                "operation-"@,
                operation@,
                ".intent"@,
            ),
    {
        let name = match state {
            IntentState::Pending => "pending",
            IntentState::Completed => "completed",
        };
        let dir = child(self.intent_root.as_str(), name);
        proof {
            crate::text::lemma_utf8_round_trip(dir@);
        }
        hex_entry_path(dir.as_str(), "operation-", operation, ".intent")
    }

    /// `<admission root>/operation-<hex>.admission`.
    pub fn admission_path(&self, operation: &str) -> (r: String)
        ensures
            utf8(r@) == hex_entry(self.admission_root@, "operation-"@, operation@, ".admission"@),
    {
        hex_entry_path(self.admission_root.as_str(), "operation-", operation, ".admission")
    }

    /// The intent directories and the admission root are root-owned and closed to others.
    pub fn validate_layout(&self, facts: &AuthorityLayoutFacts) -> (r: Result<(), MaterializationAuthorityError>)
        ensures
            r == authority_layout_result(*facts, self.expected_owner_uid),
    {
        if !is_protected_directory(&facts.intent_root, self.expected_owner_uid) {
            return Err(MaterializationAuthorityError::InvalidIntentRoot);
        }
        if !is_protected_directory(&facts.pending, self.expected_owner_uid) {
            return Err(MaterializationAuthorityError::InvalidIntentRoot);
        }
        if !is_protected_directory(&facts.completed, self.expected_owner_uid) {
            return Err(MaterializationAuthorityError::InvalidIntentRoot);
        }
        if !is_protected_directory(&facts.admission_root, self.expected_owner_uid) {
            return Err(MaterializationAuthorityError::InvalidAdmissionRoot);
        }
        Ok(())
    }
    /// The checks `begin` makes before it asks the inspector anything: the
    /// layout, the flake root and attribute, and that the operation has no
    /// intent or admission yet.
    pub fn check_begin(
        &self,
        spec: &MaterializationIntentSpec,
        layout: &AuthorityLayoutFacts,
        existing: &OperationRecords,
    ) -> (r: Result<(), MaterializationAuthorityError>)
        ensures
            authority_layout_result(*layout, self.expected_owner_uid) matches Err(e) ==> r
                == Err::<(), MaterializationAuthorityError>(e),
            authority_layout_result(*layout, self.expected_owner_uid) is Ok ==> {
                if !is_store_subpath(utf8(spec.immutable_flake_root@)) {
                    r == Err::<(), MaterializationAuthorityError>(
                        MaterializationAuthorityError::InvalidImmutableFlakeRoot,
                    )
                } else if !installable_attribute_ok(utf8(spec.installable_attribute@)) {
                    r == Err::<(), MaterializationAuthorityError>(
                        MaterializationAuthorityError::InvalidInstallableAttribute,
                    )
                } else if existing.pending_intent || existing.completed_intent {
                    (r matches Err(MaterializationAuthorityError::IntentAlreadyExists(op)) && op@
                        == spec.materialization_operation@)
                } else if existing.admission {
                    r == Err::<(), MaterializationAuthorityError>(
                        MaterializationAuthorityError::AdmissionConflict,
                    )
                } else {
                    r is Ok
                }
            },
    {
        self.validate_layout(layout)?;
        if validate_immutable_store_subpath(spec.immutable_flake_root.as_str()).is_err() {
            return Err(MaterializationAuthorityError::InvalidImmutableFlakeRoot);
        }
        if validate_installable_attribute(spec.installable_attribute.as_str()).is_err() {
            return Err(MaterializationAuthorityError::InvalidInstallableAttribute);
        }
        if existing.pending_intent || existing.completed_intent {
            return Err(
                MaterializationAuthorityError::IntentAlreadyExists(
                    spec.materialization_operation.clone(),
                ),
            );
        }
        if existing.admission {
            return Err(MaterializationAuthorityError::AdmissionConflict);
        }
        Ok(())
    }


    /// The intent to record for `spec`, given the layout, the records that already exist
    /// for its operation and what the inspector resolved.
    ///
    /// An operation is begun once: an existing intent or admission refuses it. The
    /// derivation and output are recorded only as exact store paths.
    pub fn begin(
        &self,
        spec: &MaterializationIntentSpec,
        layout: &AuthorityLayoutFacts,
        existing: &OperationRecords,
        resolved: Result<ResolvedMaterializationDerivation, String>,
    ) -> (r: Result<MaterializationIntent, MaterializationAuthorityError>)
        ensures
            authority_layout_result(*layout, self.expected_owner_uid) matches Err(e) ==> r
                == Err::<MaterializationIntent, MaterializationAuthorityError>(e),
            authority_layout_result(*layout, self.expected_owner_uid) is Ok ==> {
                if !is_store_subpath(utf8(spec.immutable_flake_root@)) {
                    r == Err::<MaterializationIntent, MaterializationAuthorityError>(
                        MaterializationAuthorityError::InvalidImmutableFlakeRoot,
                    )
                } else if !installable_attribute_ok(utf8(spec.installable_attribute@)) {
                    r == Err::<MaterializationIntent, MaterializationAuthorityError>(
                        MaterializationAuthorityError::InvalidInstallableAttribute,
                    )
                } else if existing.pending_intent || existing.completed_intent {
                    (r matches Err(MaterializationAuthorityError::IntentAlreadyExists(op)) && op@
                        == spec.materialization_operation@)
                } else if existing.admission {
                    r == Err::<MaterializationIntent, MaterializationAuthorityError>(
                        MaterializationAuthorityError::AdmissionConflict,
                    )
                } else {
                    match resolved {
                        Err(m) => r == Err::<MaterializationIntent, MaterializationAuthorityError>(
                            MaterializationAuthorityError::Inspector(m),
                        ),
                        Ok(d) => if !derivation_path_ok(utf8(d.derivation_path@)) {
                            r == Err::<MaterializationIntent, MaterializationAuthorityError>(
                                MaterializationAuthorityError::InvalidDerivation,
                            )
                        } else if !output_path_ok(utf8(d.expected_output@)) {
                            r == Err::<MaterializationIntent, MaterializationAuthorityError>(
                                MaterializationAuthorityError::InvalidExpectedOutput,
                            )
                        } else {
                            (r matches Ok(i) && i@ == intent_of(*spec, d))
                        },
                    }
                }
            },
    {
        self.check_begin(spec, layout, existing)?;
        let resolved = match resolved {
            Ok(d) => d,
            Err(m) => return Err(MaterializationAuthorityError::Inspector(m)),
        };
        if validate_derivation_path(resolved.derivation_path.as_str()).is_err() {
            return Err(MaterializationAuthorityError::InvalidDerivation);
        }
        if validate_output_path(resolved.expected_output.as_str()).is_err() {
            return Err(MaterializationAuthorityError::InvalidExpectedOutput);
        }
        Ok(
            MaterializationIntent {
                node: spec.node.clone(),
                candidate: spec.candidate.clone(),
                system_spec: spec.system_spec.clone(),
                materialization_operation: spec.materialization_operation.clone(),
                immutable_flake_root: spec.immutable_flake_root.clone(),
                installable_attribute: spec.installable_attribute.clone(),
                derivation_path: resolved.derivation_path,
                expected_output: resolved.expected_output,
                created_at_unix_ms: spec.created_at_unix_ms,
            },
        )
    }

    /// The checks of loading an intent file, given its metadata (`None` when absent) and text.
    pub fn check_intent_file(&self, operation: &str, facts: Option<FileFacts>, text: &str) -> (r: Result<
        MaterializationIntent,
        MaterializationAuthorityError,
    >)
        ensures
            facts is None ==> (r matches Err(MaterializationAuthorityError::IntentMissing(op)) && op@
                == operation@),
            facts matches Some(f) ==> match r {
                Ok(i) => intent_file_result(operation@, f, text@, self.expected_owner_uid) == Ok::<
                    IntentView,
                    MaterializationAuthorityError,
                >(i@),
                Err(e) => intent_file_result(operation@, f, text@, self.expected_owner_uid) == Err::<
                    IntentView,
                    MaterializationAuthorityError,
                >(e),
            },
    {
        let f = match facts {
            None => return Err(MaterializationAuthorityError::IntentMissing(operation.to_owned())),
            Some(f) => f,
        };
        if !is_protected_file(&f, self.expected_owner_uid) || f.len > MAX_MATERIALIZATION_INTENT_BYTES {
            return Err(MaterializationAuthorityError::InvalidIntentFile);
        }
        let intent = parse_intent(text)?;
        if !str_eq(intent.materialization_operation.as_str(), operation) {
            return Err(MaterializationAuthorityError::IntentMismatch);
        }
        let canonical = canonical_intent(&intent);
        if !bytes_equal(canonical.as_str().as_bytes(), text.as_bytes()) {
            return Err(MaterializationAuthorityError::NonCanonicalIntent);
        }
        Ok(intent)
    }

    /// The admission of a pending intent once the inspector verified its output.
    ///
    /// Root accepts no output path from the caller: it admits only the output it
    /// predicted in the intent, and only when the store names the intent's derivation
    /// as its deriver.
    pub fn complete(
        &self,
        layout: &AuthorityLayoutFacts,
        intent: &MaterializationIntent,
        verified: Result<VerifiedMaterializationOutput, String>,
        admitted_at_unix_ms: u64,
    ) -> (r: Result<MaterializationAdmission, MaterializationAuthorityError>)
        ensures
            authority_layout_result(*layout, self.expected_owner_uid) matches Err(e) ==> r
                == Err::<MaterializationAdmission, MaterializationAuthorityError>(e),
            authority_layout_result(*layout, self.expected_owner_uid) is Ok ==> match verified {
                Err(m) => r == Err::<MaterializationAdmission, MaterializationAuthorityError>(
                    MaterializationAuthorityError::Inspector(m),
                ),
                Ok(v) => if path_parts(utf8(v.deriver@)) != path_parts(utf8(intent.derivation_path@)) {
                    r == Err::<MaterializationAdmission, MaterializationAuthorityError>(
                        MaterializationAuthorityError::IntentMismatch,
                    )
                } else {
                    (r matches Ok(a) && a@ == admission_of(
                        intent@,
                        v.deriver@,
                        v.nar_hash@,
                        admitted_at_unix_ms,
                    ))
                },
            },
    {
        self.validate_layout(layout)?;
        let verified = match verified {
            Ok(v) => v,
            Err(m) => return Err(MaterializationAuthorityError::Inspector(m)),
        };
        if !same_path(verified.deriver.as_str().as_bytes(), intent.derivation_path.as_str().as_bytes()) {
            return Err(MaterializationAuthorityError::IntentMismatch);
        }
        let mut provenance: Vec<String> = Vec::new();
        provenance.push(labelled("immutable-flake-root:", intent.immutable_flake_root.as_str()));
        provenance.push(labelled("installable-attribute:", intent.installable_attribute.as_str()));
        provenance.push(labelled("derivation:", intent.derivation_path.as_str()));
        provenance.push(labelled("expected-output:", intent.expected_output.as_str()));
        provenance.push(labelled("verified-deriver:", verified.deriver.as_str()));
        provenance.push(labelled("verified-nar-hash:", verified.nar_hash.as_str()));
        provenance.push("verification:nix-path-info+store-verify+deriver".to_owned());
        let admission = MaterializationAdmission {
            node: intent.node.clone(),
            candidate: intent.candidate.clone(),
            system_spec: intent.system_spec.clone(),
            materialization_operation: intent.materialization_operation.clone(),
            system_closure: intent.expected_output.clone(),
            admitted_at_unix_ms,
            provenance,
        };
        proof {
            assert(admission@.provenance =~= admission_provenance(
                intent@,
                verified.deriver@,
                verified.nar_hash@,
            ));
        }
        Ok(admission)
    }

    /// Where an admission is already recorded it must be this one; otherwise it is created.
    /// `true` means the admission still has to be written.
    pub fn reconcile_admission(
        existing: Option<Result<MaterializationAdmission, ()>>,
        admission: &MaterializationAdmission,
    ) -> (r: Result<bool, MaterializationAuthorityError>)
        ensures
            match existing {
                None => r == Ok::<bool, MaterializationAuthorityError>(true),
                Some(Err(_)) => r == Err::<bool, MaterializationAuthorityError>(
                    MaterializationAuthorityError::AdmissionConflict,
                ),
                Some(Ok(a)) => if a@ == admission@ {
                    r == Ok::<bool, MaterializationAuthorityError>(false)
                } else {
                    r == Err::<bool, MaterializationAuthorityError>(
                        MaterializationAuthorityError::AdmissionConflict,
                    )
                },
            },
    {
        match existing {
            None => Ok(true),
            Some(Err(_)) => Err(MaterializationAuthorityError::AdmissionConflict),
            Some(Ok(a)) => if crate::request_publisher::same_admission(&a, admission) {
                Ok(false)
            } else {
                Err(MaterializationAuthorityError::AdmissionConflict)
            },
        }
    }

    /// After admission a pending intent moves to `completed`, unless one is already there.
    /// `true` means the pending intent still has to be moved.
    pub fn settle_intent(pending_exists: bool, completed_exists: bool) -> (r: Result<
        bool,
        MaterializationAuthorityError,
    >)
        ensures
            r == if !pending_exists {
                Ok::<bool, MaterializationAuthorityError>(false)
            } else if completed_exists {
                Err(MaterializationAuthorityError::IntentMismatch)
            } else {
                Ok(true)
            },
    {
        if !pending_exists {
            return Ok(false);
        }
        if completed_exists {
            return Err(MaterializationAuthorityError::IntentMismatch);
        }
        Ok(true)
    }
}

fn labelled(label: &str, value: &str) -> (r: String)
    ensures
        r@ == label@ + value@,
{
    let mut r = label.to_owned();
    r.append(value);
    r
}

} // verus!
