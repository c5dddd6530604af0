//! The root producer of trusted candidates: it turns a canonical SystemSpec
//! into an immutable flake source, a candidate manifest and a receipt.
use vstd::prelude::*;
use crate::fsmeta::{is_protected_directory, protected_directory, FileFacts};
use crate::lines::{
    field_line, hex_list_lines, lines_text, no_newline, plain_ascii, RecordWriter,
};
use crate::materialization_authority::{
    debug_list, debug_text_list, lemma_decimal_line, lemma_hex_line, store_subpath_check, store_subpath_defect,
    StoreSubpathDefect,
};
use crate::materialization_begin::{CandidateView, TrustedMaterializationCandidate};
use crate::nixos::{steps_view, NixBackendError, NixTranslation, StepView};
use crate::paths::{hex_name, is_store_subpath, join, join_name};
use crate::nixos::{module_trace, translation_outcome, validation_view, NixBackendErrorView, NixOsBackend};
use crate::system_spec::{
    accept_parsed_system_spec, parse_system_spec_fields, spec_fields_result, system_spec_text, SpecView,
    SystemArchitecture, SystemSpec,
};
use crate::text::{
    ascii_chars, copy_texts, decimal, hex_bytes_text, hex_encode, hex_of_text, is_ascii_bytes, nonblank_lines,
    nonblank_text_lines, texts_view, utf8,
};

pub use crate::system_spec::{
    canonical_system_spec, parse_canonical_system_spec, CanonicalSystemSpecError,
    MAX_CANONICAL_SYSTEM_SPEC_BYTES,
};

verus! {

pub const DEFAULT_TRUSTED_CANDIDATE_ROOT: &'static str = "/var/lib/theblob/materialization-candidates";

pub const DEFAULT_CANDIDATE_RECEIPT_ROOT: &'static str = "/var/lib/theblob/candidate-manifest-receipts";

pub const DEFAULT_CANDIDATE_STAGING_ROOT: &'static str = "/var/lib/theblob/candidate-source-staging";

pub const DEFAULT_CANDIDATE_SOURCE_GCROOT_ROOT: &'static str =
    "/nix/var/nix/gcroots/theblob-candidate-sources";

/// The name the producer records as the actor of its causal records.
pub const PRODUCER_ACTOR: &'static str = "blob-nix-nixos-candidate-producer";

/// The directory name of a staged candidate source.
pub const CANDIDATE_SOURCE_NAME: &'static str = "theblob-candidate-source";

/// What root recorded when it produced a candidate manifest.
#[derive(Clone, Debug, PartialEq, Eq)]
pub struct CandidateManifestReceipt {
    pub causal_id: String,
    pub occurred_at_unix_ms: u64,
    pub requester_system_bus_name: String,
    pub manifest_id: String,
    pub candidate: String,
    pub system_spec: String,
    pub immutable_flake_root: String,
    pub canonical_system_spec: String,
    pub translation_evidence: Vec<String>,
}

pub struct ReceiptView {
    pub causal_id: Seq<char>,
    pub occurred_at_unix_ms: u64,
    pub requester_system_bus_name: Seq<char>,
    pub manifest_id: Seq<char>,
    pub candidate: Seq<char>,
    pub system_spec: Seq<char>,
    pub immutable_flake_root: Seq<char>,
    pub canonical_system_spec: Seq<char>,
    pub translation_evidence: Seq<Seq<char>>,
}

impl View for CandidateManifestReceipt {
    type V = ReceiptView;

    open spec fn view(&self) -> ReceiptView {
        ReceiptView {
            causal_id: self.causal_id@,
            occurred_at_unix_ms: self.occurred_at_unix_ms,
            requester_system_bus_name: self.requester_system_bus_name@,
            manifest_id: self.manifest_id@,
            candidate: self.candidate@,
            system_spec: self.system_spec@,
            immutable_flake_root: self.immutable_flake_root@,
            canonical_system_spec: self.canonical_system_spec@,
            translation_evidence: texts_view(self.translation_evidence@),
        }
    }
}

/// A produced manifest and receipt, and where they and the source root belong.
#[derive(Clone, Debug, PartialEq, Eq)]
pub struct ProducedCandidateManifest {
    pub manifest: TrustedMaterializationCandidate,
    pub manifest_path: String,
    pub receipt: CandidateManifestReceipt,
    pub receipt_path: String,
    pub source_gcroot: String,
}

/// Why the producer refused or failed.
#[derive(Clone, Debug, PartialEq, Eq)]
pub enum CandidateProducerError {
    InvalidSender,
    SystemSpec(CanonicalSystemSpecError),
    Backend(NixBackendError),
    Source(String),
    InvalidManifestRoot,
    InvalidReceiptRoot,
    InvalidSourceGcRoot,
    ManifestConflict,
    ReceiptConflict,
    SourceGcRootConflict,
    Clock(String),
    RandomSource(String),
    InvalidCreatedManifest,
    InvalidCreatedReceipt,
    Io(String),
}

/// Builds the immutable flake source of a translated SystemSpec.
pub trait CandidateSourceBuilder {
    fn build_immutable_source(&self, spec: &SystemSpec, translation: &NixTranslation) -> Result<
        String,
        String,
    >;
}

/// The builder that stages a flake and adds it to the Nix store.
pub struct StdNixCandidateSourceBuilder {
    pub nix_program: String,
    pub nixpkgs_source: String,
    pub base_module_source: String,
    pub staging_root: String,
    pub expected_owner_uid: u32,
}

impl StdNixCandidateSourceBuilder {
    pub fn new(
        nix_program: &str,
        nixpkgs_source: &str,
        base_module_source: &str,
        staging_root: &str,
        expected_owner_uid: u32,
    ) -> (r: Self)
        ensures
            r.nix_program@ == nix_program@,
            r.nixpkgs_source@ == nixpkgs_source@,
            r.base_module_source@ == base_module_source@,
            r.staging_root@ == staging_root@,
            r.expected_owner_uid == expected_owner_uid,
    {
        StdNixCandidateSourceBuilder {
            nix_program: nix_program.to_owned(),
            nixpkgs_source: nixpkgs_source.to_owned(),
            base_module_source: base_module_source.to_owned(),
            staging_root: staging_root.to_owned(),
            expected_owner_uid,
        }
    }
}

// ---------------------------------------------------------------------------
// The receipt text
// ---------------------------------------------------------------------------

pub open spec fn rl(key: Seq<char>, value: Seq<u8>) -> Seq<u8> {
    field_line(utf8(key), value)
}

pub open spec fn receipt_lines(v: ReceiptView) -> Seq<Seq<u8>> {
    seq![
        utf8("theblob-candidate-manifest-receipt-v1"@),
        rl("causal-id"@, hex_of_text(v.causal_id)),
        rl("occurred-at-unix-ms"@, decimal(v.occurred_at_unix_ms as nat)),
        rl("requester-system-bus"@, hex_of_text(v.requester_system_bus_name)),
        rl("manifest-id"@, hex_of_text(v.manifest_id)),
        rl("candidate"@, hex_of_text(v.candidate)),
        rl("system-spec"@, hex_of_text(v.system_spec)),
        rl("immutable-flake-root"@, hex_of_text(v.immutable_flake_root)),
        rl("canonical-system-spec"@, hex_of_text(v.canonical_system_spec)),
        rl("translation-evidence-count"@, decimal(v.translation_evidence.len())),
    ] + hex_list_lines(utf8("translation-evidence-"@), v.translation_evidence)
}

/// The canonical UTF-8 bytes of a producer receipt.
pub open spec fn receipt_text(v: ReceiptView) -> Seq<u8> {
    lines_text(receipt_lines(v))
}

proof fn lemma_receipt_lines_plain(v: ReceiptView)
    ensures
        forall|k: int| 0 <= k < receipt_lines(v).len() ==> is_ascii_bytes(#[trigger] receipt_lines(v)[k]),
{
    reveal_strlit("theblob-candidate-manifest-receipt-v1");
    reveal_strlit("causal-id");
    reveal_strlit("occurred-at-unix-ms");
    reveal_strlit("requester-system-bus");
    reveal_strlit("manifest-id");
    reveal_strlit("candidate");
    reveal_strlit("system-spec");
    reveal_strlit("immutable-flake-root");
    reveal_strlit("canonical-system-spec");
    reveal_strlit("translation-evidence-count");
    reveal_strlit("translation-evidence-");
    crate::lines::lemma_plain_ascii_bytes("theblob-candidate-manifest-receipt-v1"@);
    lemma_hex_line("causal-id"@, v.causal_id);
    lemma_decimal_line("occurred-at-unix-ms"@, v.occurred_at_unix_ms as nat);
    lemma_hex_line("requester-system-bus"@, v.requester_system_bus_name);
    lemma_hex_line("manifest-id"@, v.manifest_id);
    lemma_hex_line("candidate"@, v.candidate);
    lemma_hex_line("system-spec"@, v.system_spec);
    lemma_hex_line("immutable-flake-root"@, v.immutable_flake_root);
    lemma_hex_line("canonical-system-spec"@, v.canonical_system_spec);
    lemma_decimal_line("translation-evidence-count"@, v.translation_evidence.len());
    crate::lines::lemma_hex_list_lines_plain("translation-evidence-"@, v.translation_evidence);
    let ls = receipt_lines(v);
    let tail = hex_list_lines(utf8("translation-evidence-"@), v.translation_evidence);
    assert forall|k: int| 0 <= k < ls.len() implies is_ascii_bytes(#[trigger] ls[k]) by {
        if k >= 10 {
            assert(ls[k] == tail[k - 10]);
        }
    }
}

/// Serializes a producer receipt in its versioned, field-ordered, hex-encoded form.
pub fn canonical_candidate_receipt(receipt: &CandidateManifestReceipt) -> (r: String)
    ensures
        utf8(r@) == receipt_text(receipt@),
        r@ == ascii_chars(receipt_text(receipt@)),
{
    let mut w = RecordWriter::new();
    w.literal("theblob-candidate-manifest-receipt-v1");
    w.hex_field("causal-id".as_bytes(), receipt.causal_id.as_str());
    w.decimal_field("occurred-at-unix-ms".as_bytes(), receipt.occurred_at_unix_ms);
    w.hex_field("requester-system-bus".as_bytes(), receipt.requester_system_bus_name.as_str());
    w.hex_field("manifest-id".as_bytes(), receipt.manifest_id.as_str());
    w.hex_field("candidate".as_bytes(), receipt.candidate.as_str());
    w.hex_field("system-spec".as_bytes(), receipt.system_spec.as_str());
    w.hex_field("immutable-flake-root".as_bytes(), receipt.immutable_flake_root.as_str());
    w.hex_field("canonical-system-spec".as_bytes(), receipt.canonical_system_spec.as_str());
    w.decimal_field(
        "translation-evidence-count".as_bytes(),
        receipt.translation_evidence.len() as u64,
    );
    w.hex_list("translation-evidence-", &receipt.translation_evidence);
    proof {
        assert(w.lines() =~= receipt_lines(receipt@));
        lemma_receipt_lines_plain(receipt@);
    }
    w.finish()
}

// ---------------------------------------------------------------------------
// The candidate flake
// ---------------------------------------------------------------------------

/// A text escaped for a double-quoted Nix string: `\`, `"` and `${` are escaped.
pub open spec fn nix_escape(s: Seq<char>) -> Seq<char>
    decreases s.len(),
{
    if s.len() == 0 {
        Seq::<char>::empty()
    } else if s[0] == '\\' {
        seq!['\\', '\\'] + nix_escape(s.drop_first())
    } else if s[0] == '"' {
        seq!['\\', '"'] + nix_escape(s.drop_first())
    } else if s[0] == '$' && s.len() > 1 && s[1] == '{' {
        seq!['\\', '$', '{'] + nix_escape(s.skip(2))
    } else {
        seq![s[0]] + nix_escape(s.drop_first())
    }
}

/// Escapes a text for a double-quoted Nix string.
pub fn nix_string(value: &str) -> (r: String)
    ensures
        r@ == nix_escape(value@),
{
    proof {
        reveal_strlit("\\\\");
        reveal_strlit("\\\"");
        reveal_strlit("\\${");
    }
    let n = value.unicode_len();
    let mut out = String::new();
    let mut run: usize = 0;
    let mut i: usize = 0;
    assert(value@.skip(0) =~= value@);
    while i < n
        invariant
            n == value@.len(),
            run <= i <= n,
            out@ + value@.subrange(run as int, i as int) + nix_escape(value@.skip(i as int))
                == nix_escape(value@),
        decreases n - i,
    {
        let c = value.get_char(i);
        let ghost rest = value@.skip(i as int);
        assert(rest[0] == c);
        if c == '\\' || c == '"' || (c == '$' && i + 1 < n && value.get_char(i + 1) == '{') {
            let ghost before = out@ + value@.subrange(run as int, i as int);
            let piece = value.substring_char(run, i);
            out.append(piece);
            assert(out@ == before);
            if c == '\\' {
                out.append("\\\\");
                proof {
                    reveal_strlit("\\\\");
                    assert("\\\\"@ =~= seq!['\\', '\\']);
                    assert(rest.drop_first() =~= value@.skip(i + 1));
                    assert(nix_escape(rest) == seq!['\\', '\\'] + nix_escape(rest.drop_first()));
                    assert(out@ + nix_escape(value@.skip(i + 1)) =~= before + nix_escape(rest));
                }
                i = i + 1;
            } else if c == '"' {
                out.append("\\\"");
                proof {
                    reveal_strlit("\\\"");
                    assert("\\\""@ =~= seq!['\\', '"']);
                    assert(rest.drop_first() =~= value@.skip(i + 1));
                    assert(nix_escape(rest) == seq!['\\', '"'] + nix_escape(rest.drop_first()));
                    assert(out@ + nix_escape(value@.skip(i + 1)) =~= before + nix_escape(rest));
                }
                i = i + 1;
            } else {
                out.append("\\${");
                proof {
                    reveal_strlit("\\${");
                    assert("\\${"@ =~= seq!['\\', '$', '{']);
                    assert(rest[1] == value@[i + 1]);
                    assert(rest[1] == '{');
                    assert(rest.skip(2) =~= value@.skip(i + 2));
                    assert(nix_escape(rest) == seq!['\\', '$', '{'] + nix_escape(rest.skip(2)));
                    assert(out@ + nix_escape(value@.skip(i + 2)) =~= before + nix_escape(rest));
                }
                i = i + 2;
            }
            run = i;
            proof {
                assert(value@.subrange(run as int, i as int) =~= Seq::<char>::empty());
            }
        } else {
            proof {
                assert(rest.drop_first() =~= value@.skip(i + 1));
                assert(value@.subrange(run as int, i + 1) =~= value@.subrange(run as int, i as int).push(c));
                if c == '$' && rest.len() > 1 {
                    assert(rest[1] == value@[i + 1]);
                }
                assert(nix_escape(rest) == seq![c] + nix_escape(rest.drop_first()));
                assert(out@ + value@.subrange(run as int, i + 1) + nix_escape(value@.skip(i + 1))
                    =~= out@ + value@.subrange(run as int, i as int) + nix_escape(rest));
            }
            i = i + 1;
        }
    }
    let piece = value.substring_char(run, n);
    out.append(piece);
    proof {
        assert(value@.skip(n as int) =~= Seq::<char>::empty());
    }
    out
}

pub open spec fn flake_system(a: SystemArchitecture) -> Seq<char> {
    match a {
        SystemArchitecture::X86_64 => "x86_64-linux"@,
        SystemArchitecture::Aarch64 => "aarch64-linux"@,
    }
}

/// The records of one production of spec `v` from source `src` with nonce
/// `n`: the manifest and receipt, and where the manifest, the receipt and the
/// source GC root go (all named by the manifest id).
pub open spec fn produced_records(
    manifest_root: Seq<char>,
    receipt_root: Seq<char>,
    source_gcroot_root: Seq<char>,
    p: ProducedCandidateManifest,
    v: SpecView,
    requester: Seq<char>,
    canonical_text: Seq<char>,
    src: Seq<char>,
    n: Seq<char>,
    now: u64,
) -> bool {
    &&& p.manifest@ == produced_manifest(v, module_trace(v), requester, src, n)
    &&& p.receipt@ == produced_receipt(v, module_trace(v), requester, canonical_text, src, n, now)
    &&& utf8(p.manifest_path@) == join(
        utf8(manifest_root),
        utf8("manifest-"@) + hex_of_text(manifest_id_text(n)) + utf8(".candidate"@),
    )
    &&& utf8(p.receipt_path@) == join(
        utf8(receipt_root),
        utf8("manifest-"@) + hex_of_text(manifest_id_text(n)) + utf8(".receipt"@),
    )
    &&& utf8(p.source_gcroot@) == join(
        utf8(source_gcroot_root),
        utf8("manifest-"@) + hex_of_text(manifest_id_text(n)) + utf8("-source"@),
    )
}

/// The flake of a candidate source: the trusted nixpkgs input and the two generated modules.
pub open spec fn candidate_flake_text(v: SpecView, nixpkgs_source: Seq<char>) -> Seq<char> {
    "{\n  inputs.nixpkgs.url = \"path:"@ + nix_escape(nixpkgs_source)
        + "\";\n\n  outputs = { self, nixpkgs }: {\n    nixosConfigurations.\""@ + nix_escape(
        v.hostname,
    ) + "\" = nixpkgs.lib.nixosSystem {\n      system = \""@ + flake_system(v.architecture)
        + "\";\n      modules = [ ./base.nix ./generated.nix ];\n    };\n  };\n}\n"@
}

/// Writes the flake of a candidate source.
pub fn canonical_candidate_flake(spec: &SystemSpec, nixpkgs_source: &str) -> (r: Result<String, String>)
    ensures
        r matches Ok(text) && text@ == candidate_flake_text(spec@, nixpkgs_source@),
{
    let system = match spec.architecture {
        SystemArchitecture::X86_64 => "x86_64-linux",
        SystemArchitecture::Aarch64 => "aarch64-linux",
    };
    let nixpkgs = nix_string(nixpkgs_source);
    let hostname = nix_string(spec.hostname.as_str());
    let mut out = String::new();
    out.append("{\n  inputs.nixpkgs.url = \"path:");
    out.append(nixpkgs.as_str());
    out.append("\";\n\n  outputs = { self, nixpkgs }: {\n    nixosConfigurations.\"");
    out.append(hostname.as_str());
    out.append("\" = nixpkgs.lib.nixosSystem {\n      system = \"");
    out.append(system);
    out.append("\";\n      modules = [ ./base.nix ./generated.nix ];\n    };\n  };\n}\n");
    proof {
        reveal_strlit("");
        assert(out@ =~= candidate_flake_text(spec@, nixpkgs_source@));
    }
    Ok(out)
}

// ---------------------------------------------------------------------------
// Store paths
// ---------------------------------------------------------------------------

/// Rejects a path that is not inside one immutable store object.
pub fn validate_store_subpath(path: &str) -> (r: Result<(), String>)
    ensures
        r is Ok <==> is_store_subpath(utf8(path@)),
        r matches Err(m) ==> m@ == match store_subpath_defect(utf8(path@)) {
            Some(StoreSubpathDefect::NotAbsolute) => "path is not absolute"@,
            _ => "path is outside an immutable Nix store object"@,
        },
{
    match store_subpath_check(path.as_bytes()) {
        None => Ok(()),
        Some(StoreSubpathDefect::NotAbsolute) => Err("path is not absolute".to_owned()),
        Some(_) => Err("path is outside an immutable Nix store object".to_owned()),
    }
}

/// The message `validate_store_subpath` gives for a path outside the store.
pub open spec fn store_subpath_message(path: Seq<u8>) -> Seq<char> {
    match store_subpath_defect(path) {
        Some(StoreSubpathDefect::NotAbsolute) => "path is not absolute"@,
        _ => "path is outside an immutable Nix store object"@,
    }
}

/// What `one_store_path` gives for the output of `nix store add`.
pub open spec fn one_store_path_result(text: Seq<char>) -> Result<Seq<char>, Seq<char>> {
    let ls = nonblank_lines(text);
    if ls.len() != 1 {
        Err("expected one store path, observed "@ + debug_text_list(ls))
    } else if !is_store_subpath(utf8(ls[0])) {
        Err(store_subpath_message(utf8(ls[0])))
    } else {
        Ok(ls[0])
    }
}

/// The single store path that `nix store add` printed, blank lines and
/// surrounding white space ignored.
pub fn one_store_path(text: &str) -> (r: Result<String, String>)
    ensures
        match r {
            Ok(p) => one_store_path_result(text@) == Ok::<Seq<char>, Seq<char>>(p@),
            Err(m) => one_store_path_result(text@) == Err::<Seq<char>, Seq<char>>(m@),
        },
{
    let lines = nonblank_text_lines(text);
    if lines.len() != 1 {
        let mut m = "expected one store path, observed ".to_owned();
        let shown = debug_list(&lines);
        m.append(shown.as_str());
        return Err(m);
    }
    let path = lines[0].clone();
    proof {
        assert(texts_view(lines@)[0] == lines@[0]@);
    }
    validate_store_subpath(path.as_str())?;
    Ok(path)
}

impl StdNixCandidateSourceBuilder {
    /// The trusted inputs must each lie inside one immutable store object;
    /// `build_immutable_source` checks this before it stages anything.
    pub fn check_sources(&self) -> (r: Result<(), String>)
        ensures
            !is_store_subpath(utf8(self.nixpkgs_source@)) ==> (r matches Err(m) && m@
                == store_subpath_message(utf8(self.nixpkgs_source@))),
            is_store_subpath(utf8(self.nixpkgs_source@)) && !is_store_subpath(
                utf8(self.base_module_source@),
            ) ==> (r matches Err(m) && m@ == store_subpath_message(
                utf8(self.base_module_source@),
            )),
            r is Ok <==> (is_store_subpath(utf8(self.nixpkgs_source@)) && is_store_subpath(
                utf8(self.base_module_source@),
            )),
    {
        validate_store_subpath(self.nixpkgs_source.as_str())?;
        validate_store_subpath(self.base_module_source.as_str())
    }
}

// ---------------------------------------------------------------------------
// The producer
// ---------------------------------------------------------------------------

/// The three root-owned directories the producer writes to, as observed.
pub struct ProducerLayoutFacts {
    pub manifest_root: FileFacts,
    pub receipt_root: FileFacts,
    pub source_gcroot_root: FileFacts,
}

pub struct RootSystemSpecCandidateProducer {
    pub manifest_root: String,
    pub receipt_root: String,
    pub source_gcroot_root: String,
    pub expected_owner_uid: u32,
}

pub open spec fn manifest_id_text(nonce: Seq<char>) -> Seq<char> {
    "manifest:systemspec-"@ + nonce
}

pub open spec fn candidate_id_text(nonce: Seq<char>) -> Seq<char> {
    "candidate:systemspec-"@ + nonce
}

pub open spec fn causal_id_text(nonce: Seq<char>) -> Seq<char> {
    "causal:candidate-manifest-"@ + nonce
}

pub open spec fn installable_text(hostname: Seq<char>) -> Seq<char> {
    "nixosConfigurations."@ + hostname + ".config.system.build.toplevel"@
}

/// `semantic source -> native target` for each translation step.
pub open spec fn evidence_lines(trace: Seq<StepView>) -> Seq<Seq<char>> {
    Seq::new(trace.len(), |i: int| trace[i].semantic_source + " -> "@ + trace[i].nix_target)
}

/// The provenance a produced manifest carries.
pub open spec fn manifest_provenance(
    nonce: Seq<char>,
    requester: Seq<char>,
    spec_id: Seq<char>,
    source: Seq<char>,
    trace: Seq<StepView>,
) -> Seq<Seq<char>> {
    seq![
        "producer:systemspec-nixos-v1"@,
        "causal-record:"@ + causal_id_text(nonce),
        "requester-system-bus:"@ + requester,
        "system-spec:"@ + spec_id,
        "system-spec-validation:passed"@,
        "nix-translation:deterministic"@,
        "immutable-source:"@ + source,
    ] + Seq::new(trace.len(), |i: int| "translation:"@ + evidence_lines(trace)[i])
}

/// The manifest produced for a SystemSpec, its translation, source and nonce.
pub open spec fn produced_manifest(
    v: SpecView,
    trace: Seq<StepView>,
    requester: Seq<char>,
    source: Seq<char>,
    nonce: Seq<char>,
) -> CandidateView {
    CandidateView {
        manifest_id: manifest_id_text(nonce),
        candidate: candidate_id_text(nonce),
        system_spec: v.id,
        immutable_flake_root: source,
        installable_attribute: installable_text(v.hostname),
        provenance: manifest_provenance(nonce, requester, v.id, source, trace),
    }
}

/// The receipt produced alongside that manifest.
pub open spec fn produced_receipt(
    v: SpecView,
    trace: Seq<StepView>,
    requester: Seq<char>,
    text: Seq<char>,
    source: Seq<char>,
    nonce: Seq<char>,
    now: u64,
) -> ReceiptView {
    ReceiptView {
        causal_id: causal_id_text(nonce),
        occurred_at_unix_ms: now,
        requester_system_bus_name: requester,
        manifest_id: manifest_id_text(nonce),
        candidate: candidate_id_text(nonce),
        system_spec: v.id,
        immutable_flake_root: source,
        canonical_system_spec: text,
        translation_evidence: evidence_lines(trace),
    }
}

fn evidence_of(trace: &Vec<crate::nixos::TranslationStep>) -> (r: Vec<String>)
    ensures
        texts_view(r@) == evidence_lines(steps_view(trace@)),
{
    let ghost t = steps_view(trace@);
    let mut out: Vec<String> = Vec::new();
    let mut i: usize = 0;
    while i < trace.len()
        invariant
            t == steps_view(trace@),
            i <= trace@.len(),
            texts_view(out@) == evidence_lines(t).take(i as int),
        decreases trace.len() - i,
    {
        proof {
            assert(t[i as int] == trace@[i as int]@);
        }
        let mut line = trace[i].semantic_source.clone();
        line.append(" -> ");
        line.append(trace[i].nix_target.as_str());
        assert(line@ == evidence_lines(t)[i as int]);
        let ghost prev = out@;
        out.push(line);
        proof {
            assert(texts_view(out@) =~= texts_view(prev).push(line@));
            assert(evidence_lines(t).take(i + 1) =~= evidence_lines(t).take(i as int).push(line@));
            assert(texts_view(out@) =~= evidence_lines(t).take(i + 1));
        }
        i = i + 1;
    }
    assert(evidence_lines(t).take(trace@.len() as int) =~= evidence_lines(t));
    out
}

fn prefixed(prefix: &str, value: &str) -> (r: String)
    ensures
        r@ == prefix@ + value@,
{
    let mut s = prefix.to_owned();
    s.append(value);
    s
}

impl RootSystemSpecCandidateProducer {
    pub fn production_default() -> (r: Self)
        ensures
            r.manifest_root@ == DEFAULT_TRUSTED_CANDIDATE_ROOT@,
            r.receipt_root@ == DEFAULT_CANDIDATE_RECEIPT_ROOT@,
            r.source_gcroot_root@ == DEFAULT_CANDIDATE_SOURCE_GCROOT_ROOT@,
            r.expected_owner_uid == 0,
    {
        Self::new(
            DEFAULT_TRUSTED_CANDIDATE_ROOT,
            DEFAULT_CANDIDATE_RECEIPT_ROOT,
            DEFAULT_CANDIDATE_SOURCE_GCROOT_ROOT,
            0,
        )
    }

    pub fn new(
        manifest_root: &str,
        receipt_root: &str,
        source_gcroot_root: &str,
        expected_owner_uid: u32,
    ) -> (r: Self)
        ensures
            r.manifest_root@ == manifest_root@,
            r.receipt_root@ == receipt_root@,
            r.source_gcroot_root@ == source_gcroot_root@,
            r.expected_owner_uid == expected_owner_uid,
    {
        RootSystemSpecCandidateProducer {
            manifest_root: manifest_root.to_owned(),
            receipt_root: receipt_root.to_owned(),
            source_gcroot_root: source_gcroot_root.to_owned(),
            expected_owner_uid,
        }
    }

    /// `manifest-<hex id>.candidate` under the manifest root.
    pub fn manifest_path(&self, manifest_id: &str) -> (r: String)
        ensures
            utf8(r@) == join(
                utf8(self.manifest_root@),
                utf8("manifest-"@) + hex_of_text(manifest_id@) + utf8(".candidate"@),
            ),
    {
        let name = hex_name("manifest-", manifest_id, ".candidate");
        join_name(self.manifest_root.as_str(), name.as_slice())
    }

    /// `manifest-<hex id>.receipt` under the receipt root.
    pub fn receipt_path(&self, manifest_id: &str) -> (r: String)
        ensures
            utf8(r@) == join(
                utf8(self.receipt_root@),
                utf8("manifest-"@) + hex_of_text(manifest_id@) + utf8(".receipt"@),
            ),
    {
        let name = hex_name("manifest-", manifest_id, ".receipt");
        join_name(self.receipt_root.as_str(), name.as_slice())
    }

    /// `manifest-<hex id>-source` under the source gcroot root.
    pub fn source_gcroot_path(&self, manifest_id: &str) -> (r: String)
        ensures
            utf8(r@) == join(
                utf8(self.source_gcroot_root@),
                utf8("manifest-"@) + hex_of_text(manifest_id@) + utf8("-source"@),
            ),
    {
        let name = hex_name("manifest-", manifest_id, "-source");
        join_name(self.source_gcroot_root.as_str(), name.as_slice())
    }

    /// The three roots are root-owned directories closed to others, checked in order.
    pub fn validate_layout(&self, facts: &ProducerLayoutFacts) -> (r: Result<(), CandidateProducerError>)
        ensures
            r == if !protected_directory(facts.manifest_root, self.expected_owner_uid) {
                Err(CandidateProducerError::InvalidManifestRoot)
            } else if !protected_directory(facts.receipt_root, self.expected_owner_uid) {
                Err(CandidateProducerError::InvalidReceiptRoot)
            } else if !protected_directory(facts.source_gcroot_root, self.expected_owner_uid) {
                Err(CandidateProducerError::InvalidSourceGcRoot)
            } else {
                Ok(())
            },
    {
        if !is_protected_directory(&facts.manifest_root, self.expected_owner_uid) {
            return Err(CandidateProducerError::InvalidManifestRoot);
        }
        if !is_protected_directory(&facts.receipt_root, self.expected_owner_uid) {
            return Err(CandidateProducerError::InvalidReceiptRoot);
        }
        if !is_protected_directory(&facts.source_gcroot_root, self.expected_owner_uid) {
            return Err(CandidateProducerError::InvalidSourceGcRoot);
        }
        Ok(())
    }

    /// Derives the manifest and receipt of one candidate in root.
    ///
    /// The requester controls only the canonical SystemSpec text. The candidate id,
    /// manifest id, installable attribute and provenance come from the parsed spec, its
    /// translation, the built source and the fresh `nonce`.
    pub fn candidate_records(
        &self,
        requester_system_bus_name: &str,
        canonical_spec_text: &str,
        spec: &SystemSpec,
        translation: &NixTranslation,
        source: &str,
        nonce: &str,
        occurred_at_unix_ms: u64,
    ) -> (r: ProducedCandidateManifest)
        ensures
            r.manifest@ == produced_manifest(
                spec@,
                steps_view(translation.trace@),
                requester_system_bus_name@,
                source@,
                nonce@,
            ),
            r.receipt@ == produced_receipt(
                spec@,
                steps_view(translation.trace@),
                requester_system_bus_name@,
                canonical_spec_text@,
                source@,
                nonce@,
                occurred_at_unix_ms,
            ),
            utf8(r.manifest_path@) == join(
                utf8(self.manifest_root@),
                utf8("manifest-"@) + hex_of_text(manifest_id_text(nonce@)) + utf8(".candidate"@),
            ),
            utf8(r.receipt_path@) == join(
                utf8(self.receipt_root@),
                utf8("manifest-"@) + hex_of_text(manifest_id_text(nonce@)) + utf8(".receipt"@),
            ),
            utf8(r.source_gcroot@) == join(
                utf8(self.source_gcroot_root@),
                utf8("manifest-"@) + hex_of_text(manifest_id_text(nonce@)) + utf8("-source"@),
            ),
    {
        let ghost trace = steps_view(translation.trace@);
        let manifest_id = prefixed("manifest:systemspec-", nonce);
        let candidate = prefixed("candidate:systemspec-", nonce);
        let causal_id = prefixed("causal:candidate-manifest-", nonce);
        let mut installable_attribute = prefixed("nixosConfigurations.", spec.hostname.as_str());
        installable_attribute.append(".config.system.build.toplevel");
        let evidence = evidence_of(&translation.trace);
        let mut provenance: Vec<String> = Vec::new();
        provenance.push("producer:systemspec-nixos-v1".to_owned());
        provenance.push(prefixed("causal-record:", causal_id.as_str()));
        provenance.push(prefixed("requester-system-bus:", requester_system_bus_name));
        provenance.push(prefixed("system-spec:", spec.id.as_str()));
        provenance.push("system-spec-validation:passed".to_owned());
        provenance.push("nix-translation:deterministic".to_owned());
        provenance.push(prefixed("immutable-source:", source));
        let ghost head = texts_view(provenance@);
        let mut i: usize = 0;
        while i < evidence.len()
            invariant
                i <= evidence@.len(),
                texts_view(evidence@) == evidence_lines(trace),
                head.len() == 7,
                texts_view(provenance@) == head + Seq::new(
                    i as nat,
                    |j: int| "translation:"@ + evidence_lines(trace)[j],
                ),
            decreases evidence.len() - i,
        {
            proof {
                assert(texts_view(evidence@)[i as int] == evidence@[i as int]@);
            }
            let item = prefixed("translation:", evidence[i].as_str());
            let ghost prev = provenance@;
            provenance.push(item);
            proof {
                assert(item@ == "translation:"@ + evidence_lines(trace)[i as int]);
                assert(texts_view(provenance@) =~= texts_view(prev).push(item@));
                assert(texts_view(provenance@) =~= head + Seq::new(
                    (i + 1) as nat,
                    |j: int| "translation:"@ + evidence_lines(trace)[j],
                ));
            }
            i = i + 1;
        }
        proof {
            assert(evidence_lines(trace).len() == trace.len());
            assert(texts_view(provenance@) =~= manifest_provenance(
                nonce@,
                requester_system_bus_name@,
                spec.id@,
                source@,
                trace,
            ));
        }
        let manifest_path = self.manifest_path(manifest_id.as_str());
        let receipt_path = self.receipt_path(manifest_id.as_str());
        let source_gcroot = self.source_gcroot_path(manifest_id.as_str());
        let manifest = TrustedMaterializationCandidate {
            manifest_id: manifest_id.clone(),
            candidate: candidate.clone(),
            system_spec: spec.id.clone(),
            immutable_flake_root: source.to_owned(),
            installable_attribute,
            provenance,
        };
        let receipt = CandidateManifestReceipt {
            causal_id,
            occurred_at_unix_ms,
            requester_system_bus_name: requester_system_bus_name.to_owned(),
            manifest_id,
            candidate,
            system_spec: spec.id.clone(),
            immutable_flake_root: source.to_owned(),
            canonical_system_spec: canonical_spec_text.to_owned(),
            translation_evidence: evidence,
        };
        ProducedCandidateManifest { manifest, manifest_path, receipt, receipt_path, source_gcroot }
    }
    /// The checks `produce` makes before it asks for an immutable source: the
    /// sender, the layout, the canonical SystemSpec and its validation, and the
    /// translation whose module the source will hold.
    pub fn prepare_production(
        &self,
        requester_system_bus_name: &str,
        canonical_spec_text: &str,
        layout: &ProducerLayoutFacts,
        validation: Result<(), Vec<String>>,
    ) -> (r: Result<(SystemSpec, NixTranslation), CandidateProducerError>)
        ensures
            !sender_ok(requester_system_bus_name@) ==> r == Err::<
                (SystemSpec, NixTranslation),
                CandidateProducerError,
            >(CandidateProducerError::InvalidSender),
            sender_ok(requester_system_bus_name@) ==> match self.validate_layout_spec(*layout) {
                Err(e) => r == Err::<(SystemSpec, NixTranslation), CandidateProducerError>(e),
                Ok(_) => match spec_fields_result(utf8(canonical_spec_text@)) {
                    Err(e) => r == Err::<(SystemSpec, NixTranslation), CandidateProducerError>(
                        CandidateProducerError::SystemSpec(e),
                    ),
                    Ok(v) => match validation {
                        Err(violations) => r == Err::<
                            (SystemSpec, NixTranslation),
                            CandidateProducerError,
                        >(
                            CandidateProducerError::SystemSpec(
                                CanonicalSystemSpecError::InvalidSystemSpec(violations),
                            ),
                        ),
                        Ok(_) => if system_spec_text(v) != utf8(canonical_spec_text@) {
                            r == Err::<(SystemSpec, NixTranslation), CandidateProducerError>(
                                CandidateProducerError::SystemSpec(
                                    CanonicalSystemSpecError::NonCanonical,
                                ),
                            )
                        } else {
                            match translation_outcome(v, Ok(())) {
                                Err(ev) => r matches Err(CandidateProducerError::Backend(e)) && e@
                                    == ev,
                                Ok((m, t)) => r matches Ok((s, x)) && s@ == v && x.module_text@ == m
                                    && steps_view(x.trace@) == t,
                            }
                        },
                    },
                },
            },
    {
        if !sender_starts_unique(requester_system_bus_name) {
            return Err(CandidateProducerError::InvalidSender);
        }
        match self.validate_layout(layout) {
            Ok(_) => {},
            Err(e) => return Err(e),
        }
        let spec = match parse_system_spec_fields(canonical_spec_text) {
            Ok(s) => s,
            Err(e) => return Err(CandidateProducerError::SystemSpec(e)),
        };
        let spec = match accept_parsed_system_spec(spec, canonical_spec_text, validation) {
            Ok(s) => s,
            Err(e) => return Err(CandidateProducerError::SystemSpec(e)),
        };
        let translation = match NixOsBackend::translate(&spec, Ok(())) {
            Ok(t) => t,
            Err(e) => return Err(CandidateProducerError::Backend(e)),
        };
        Ok((spec, translation))
    }


    /// One production, given what the outside steps gave back: the semantic validation
    /// of the parsed spec, the built source, the nonce and the clock.
    ///
    /// The checks run in order: the sender, the three roots, the SystemSpec text and its
    /// semantic validation, the translation, the source, the nonce and the clock.
    #[verifier::rlimit(30)]
    pub fn produce(
        &self,
        requester_system_bus_name: &str,
        canonical_spec_text: &str,
        layout: &ProducerLayoutFacts,
        validation: Result<(), Vec<String>>,
        source: Result<String, String>,
        nonce: Result<[u8; 16], String>,
        clock: Result<u64, String>,
    ) -> (r: Result<ProducedCandidateManifest, CandidateProducerError>)
        ensures
            !sender_ok(requester_system_bus_name@) ==> r == Err::<
                ProducedCandidateManifest,
                CandidateProducerError,
            >(CandidateProducerError::InvalidSender),
            sender_ok(requester_system_bus_name@) ==> match self.validate_layout_spec(*layout) {
                Err(e) => r == Err::<ProducedCandidateManifest, CandidateProducerError>(e),
                Ok(_) => match spec_fields_result(utf8(canonical_spec_text@)) {
                    Err(e) => r == Err::<ProducedCandidateManifest, CandidateProducerError>(
                        CandidateProducerError::SystemSpec(e),
                    ),
                    Ok(v) => match validation {
                        Err(violations) => r == Err::<
                            ProducedCandidateManifest,
                            CandidateProducerError,
                        >(
                            CandidateProducerError::SystemSpec(
                                CanonicalSystemSpecError::InvalidSystemSpec(violations),
                            ),
                        ),
                        Ok(_) => if system_spec_text(v) != utf8(canonical_spec_text@) {
                            r == Err::<ProducedCandidateManifest, CandidateProducerError>(
                                CandidateProducerError::SystemSpec(
                                    CanonicalSystemSpecError::NonCanonical,
                                ),
                            )
                        } else {
                            match translation_outcome(v, Ok(())) {
                                Err(ev) => r matches Err(CandidateProducerError::Backend(e)) && e@
                                    == ev,
                                Ok(_) => match source {
                                    Err(m) => r == Err::<
                                        ProducedCandidateManifest,
                                        CandidateProducerError,
                                    >(CandidateProducerError::Source(m)),
                                    Ok(src) => if !is_store_subpath(utf8(src@)) {
                                        r matches Err(CandidateProducerError::Source(_))
                                    } else {
                                        match nonce {
                                            Err(m) => r == Err::<
                                                ProducedCandidateManifest,
                                                CandidateProducerError,
                                            >(CandidateProducerError::RandomSource(m)),
                                            Ok(n) => match clock {
                                                Err(m) => r == Err::<
                                                    ProducedCandidateManifest,
                                                    CandidateProducerError,
                                                >(CandidateProducerError::Clock(m)),
                                                Ok(now) => r matches Ok(p) && produced_records(
                                                    self.manifest_root@,
                                                    self.receipt_root@,
                                                    self.source_gcroot_root@,
                                                    p,
                                                    v,
                                                    requester_system_bus_name@,
                                                    canonical_spec_text@,
                                                    src@,
                                                    ascii_chars(hex_encode(n@)),
                                                    now,
                                                ),
                                            },
                                        }
                                    },
                                },
                            }
                        },
                    },
                },
            },
    {
        let (spec, translation) = self.prepare_production(
            requester_system_bus_name,
            canonical_spec_text,
            layout,
            validation,
        )?;
        let source = match source {
            Ok(s) => s,
            Err(m) => return Err(CandidateProducerError::Source(m)),
        };
        match validate_store_subpath(source.as_str()) {
            Ok(_) => {},
            Err(m) => return Err(CandidateProducerError::Source(m)),
        }
        let nonce = match nonce {
            Ok(n) => n,
            Err(m) => return Err(CandidateProducerError::RandomSource(m)),
        };
        let now = match clock {
            Ok(t) => t,
            Err(m) => return Err(CandidateProducerError::Clock(m)),
        };
        let nonce = hex_bytes_text(&nonce);
        Ok(
            self.candidate_records(
                requester_system_bus_name,
                canonical_spec_text,
                &spec,
                &translation,
                source.as_str(),
                nonce.as_str(),
                now,
            ),
        )
    }

    pub open spec fn validate_layout_spec(&self, facts: ProducerLayoutFacts) -> Result<
        (),
        CandidateProducerError,
    > {
        if !protected_directory(facts.manifest_root, self.expected_owner_uid) {
            Err(CandidateProducerError::InvalidManifestRoot)
        } else if !protected_directory(facts.receipt_root, self.expected_owner_uid) {
            Err(CandidateProducerError::InvalidReceiptRoot)
        } else if !protected_directory(facts.source_gcroot_root, self.expected_owner_uid) {
            Err(CandidateProducerError::InvalidSourceGcRoot)
        } else {
            Ok(())
        }
    }

    /// Where a produced manifest, receipt or source root already exists, nothing is published.
    pub fn check_publication(
        manifest_exists: bool,
        receipt_exists: bool,
    ) -> (r: Result<(), CandidateProducerError>)
        ensures
            r == if manifest_exists {
                Err(CandidateProducerError::ManifestConflict)
            } else if receipt_exists {
                Err(CandidateProducerError::ReceiptConflict)
            } else {
                Ok(())
            },
    {
        if manifest_exists {
            return Err(CandidateProducerError::ManifestConflict);
        }
        if receipt_exists {
            return Err(CandidateProducerError::ReceiptConflict);
        }
        Ok(())
    }

    /// The files just created are root-owned and closed to others.
    pub fn check_created(
        &self,
        manifest: &FileFacts,
        receipt: &FileFacts,
    ) -> (r: Result<(), CandidateProducerError>)
        ensures
            r == if !crate::fsmeta::protected_file(*manifest, self.expected_owner_uid) {
                Err(CandidateProducerError::InvalidCreatedManifest)
            } else if !crate::fsmeta::protected_file(*receipt, self.expected_owner_uid) {
                Err(CandidateProducerError::InvalidCreatedReceipt)
            } else {
                Ok(())
            },
    {
        if !crate::fsmeta::is_protected_file(manifest, self.expected_owner_uid) {
            return Err(CandidateProducerError::InvalidCreatedManifest);
        }
        if !crate::fsmeta::is_protected_file(receipt, self.expected_owner_uid) {
            return Err(CandidateProducerError::InvalidCreatedReceipt);
        }
        Ok(())
    }
}

/// A unique bus name starts with `:` (its first UTF-8 byte is `:`).
pub open spec fn sender_ok(name: Seq<char>) -> bool {
    utf8(name).len() > 0 && utf8(name)[0] == 58
}

fn sender_starts_unique(name: &str) -> (r: bool)
    ensures
        r == sender_ok(name@),
{
    let b = name.as_bytes();
    b.len() > 0 && b[0] == 58
}

} // verus!
