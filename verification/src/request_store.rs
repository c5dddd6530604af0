//! The root-owned store of prepared activation requests: one canonical request
//! file per authorization, moved from `ready` to `inflight` when claimed and on
//! to `completed` or `failed`.
use vstd::prelude::*;
use crate::activation::{copy_prepared, ImmutableNixOsActivationPlan, PlanView, PreparedPrivilegedActivation, PreparedView};
use crate::fsmeta::{is_protected_directory, is_protected_file, protected_directory, protected_file, FileFacts};
use crate::ids::SystemAuthorizationId;
use crate::lines::{
    all_lines_plain, ascii_lines, count_field, lemma_ascii_lines_concat, opt_bytes, opt_texts, field_line, field_value, hex_list_at, hex_list_lines, hex_text_field,
    lemma_field_line, lemma_hex_list_lines_plain, lemma_hex_list_round_trip, lemma_split_lines_text,
    lines_text, no_newline, plain_ascii, split_lines, u64_field, LineCursor, RecordWriter,
};
use crate::materialization_authority::{lemma_decimal_line, lemma_hex_line};
use crate::paths::{hex_name, join, join_name};
use crate::system::{SystemAuthorityClass, SystemCandidateAction, SystemEffectClass};
use crate::text::{
    ascii_chars, bytes_equal, decimal, hex_of_text, is_ascii_bytes, lemma_decimal_round_trip,
    lemma_hex_text_round_trip, same_texts, texts_view, utf8,
};

verus! {

pub const DEFAULT_PREPARED_REQUEST_ROOT: &'static str = "/var/lib/theblob/prepared-activations";

pub const MAX_PREPARED_REQUEST_BYTES: u64 = 65536;

/// The most arguments a prepared command may carry.
pub const MAX_PREPARED_ARGS: usize = 16;

/// The most items of each evidence or effect list.
pub const MAX_PREPARED_LIST: usize = 256;

#[derive(Clone, Debug, PartialEq, Eq)]
pub enum PreparedActivationRequestStoreError {
    MissingReady(SystemAuthorizationId),
    AlreadyClaimed(SystemAuthorizationId),
    TerminalState(SystemAuthorizationId),
    RequestMismatch,
    RequestChangedAfterAuthorization,
    InvalidLayout,
    InvalidRequestFile,
    RequestTooLarge,
    NonCanonicalRequest,
    Malformed(String),
    Io(String),
}

// ---------------------------------------------------------------------------
// Tokens
// ---------------------------------------------------------------------------

pub open spec fn action_name(action: SystemCandidateAction) -> Seq<char> {
    match action {
        SystemCandidateAction::Materialize => "materialize"@,
        SystemCandidateAction::PreviewActivation => "preview-activation"@,
        SystemCandidateAction::TestActivation => "test-activation"@,
        SystemCandidateAction::BuildIsolatedVm => "build-isolated-vm"@,
    }
}

pub open spec fn effect_name(effect: SystemEffectClass) -> Seq<char> {
    match effect {
        SystemEffectClass::MaterializationOnly => "materialization-only"@,
        SystemEffectClass::PreviewHooks => "preview-hooks"@,
        SystemEffectClass::TemporaryLiveActivation => "temporary-live-activation"@,
    }
}

pub open spec fn authority_name(authority: SystemAuthorityClass) -> Seq<char> {
    match authority {
        SystemAuthorityClass::User => "user"@,
        SystemAuthorityClass::HostAdministrator => "host-administrator"@,
    }
}

/// The actions a prepared request may carry.
pub open spec fn parsed_action(b: Seq<u8>) -> Option<SystemCandidateAction> {
    if b == utf8("preview-activation"@) {
        Some(SystemCandidateAction::PreviewActivation)
    } else if b == utf8("test-activation"@) {
        Some(SystemCandidateAction::TestActivation)
    } else {
        None
    }
}

pub open spec fn parsed_effect(b: Seq<u8>) -> Option<SystemEffectClass> {
    if b == utf8("preview-hooks"@) {
        Some(SystemEffectClass::PreviewHooks)
    } else if b == utf8("temporary-live-activation"@) {
        Some(SystemEffectClass::TemporaryLiveActivation)
    } else {
        None
    }
}

pub open spec fn parsed_authority(b: Seq<u8>) -> Option<SystemAuthorityClass> {
    if b == utf8("host-administrator"@) {
        Some(SystemAuthorityClass::HostAdministrator)
    } else {
        None
    }
}

pub fn action_token(action: SystemCandidateAction) -> (r: &'static str)
    ensures
        r@ == action_name(action),
{
    match action {
        SystemCandidateAction::Materialize => "materialize",
        SystemCandidateAction::PreviewActivation => "preview-activation",
        SystemCandidateAction::TestActivation => "test-activation",
        SystemCandidateAction::BuildIsolatedVm => "build-isolated-vm",
    }
}

pub fn effect_token(effect: SystemEffectClass) -> (r: &'static str)
    ensures
        r@ == effect_name(effect),
{
    match effect {
        SystemEffectClass::MaterializationOnly => "materialization-only",
        SystemEffectClass::PreviewHooks => "preview-hooks",
        SystemEffectClass::TemporaryLiveActivation => "temporary-live-activation",
    }
}

pub fn authority_token(authority: SystemAuthorityClass) -> (r: &'static str)
    ensures
        r@ == authority_name(authority),
{
    match authority {
        SystemAuthorityClass::User => "user",
        SystemAuthorityClass::HostAdministrator => "host-administrator",
    }
}

pub fn parse_action(value: &[u8]) -> (r: Option<SystemCandidateAction>)
    ensures
        r == parsed_action(value@),
{
    if bytes_equal(value, "preview-activation".as_bytes()) {
        Some(SystemCandidateAction::PreviewActivation)
    } else if bytes_equal(value, "test-activation".as_bytes()) {
        Some(SystemCandidateAction::TestActivation)
    } else {
        None
    }
}

pub fn parse_effect(value: &[u8]) -> (r: Option<SystemEffectClass>)
    ensures
        r == parsed_effect(value@),
{
    if bytes_equal(value, "preview-hooks".as_bytes()) {
        Some(SystemEffectClass::PreviewHooks)
    } else if bytes_equal(value, "temporary-live-activation".as_bytes()) {
        Some(SystemEffectClass::TemporaryLiveActivation)
    } else {
        None
    }
}

pub fn parse_authority(value: &[u8]) -> (r: Option<SystemAuthorityClass>)
    ensures
        r == parsed_authority(value@),
{
    if bytes_equal(value, "host-administrator".as_bytes()) {
        Some(SystemAuthorityClass::HostAdministrator)
    } else {
        None
    }
}

proof fn lemma_tokens()
    ensures
        plain_ascii(action_name(SystemCandidateAction::Materialize)),
        plain_ascii(action_name(SystemCandidateAction::PreviewActivation)),
        plain_ascii(action_name(SystemCandidateAction::TestActivation)),
        plain_ascii(action_name(SystemCandidateAction::BuildIsolatedVm)),
        plain_ascii(effect_name(SystemEffectClass::MaterializationOnly)),
        plain_ascii(effect_name(SystemEffectClass::PreviewHooks)),
        plain_ascii(effect_name(SystemEffectClass::TemporaryLiveActivation)),
        plain_ascii(authority_name(SystemAuthorityClass::User)),
        plain_ascii(authority_name(SystemAuthorityClass::HostAdministrator)),
{
    reveal_strlit("materialize");
    reveal_strlit("preview-activation");
    reveal_strlit("test-activation");
    reveal_strlit("build-isolated-vm");
    reveal_strlit("materialization-only");
    reveal_strlit("preview-hooks");
    reveal_strlit("temporary-live-activation");
    reveal_strlit("user");
    reveal_strlit("host-administrator");
}

/// A token line `key=token` of newline-free ASCII is newline-free ASCII.
proof fn lemma_token_line(key: Seq<char>, token: Seq<char>)
    requires
        plain_ascii(key),
        plain_ascii(token),
    ensures
        no_newline(field_line(utf8(key), utf8(token))),
        is_ascii_bytes(field_line(utf8(key), utf8(token))),
{
    crate::lines::lemma_plain_ascii_bytes(key);
    crate::lines::lemma_plain_ascii_bytes(token);
    crate::lines::lemma_field_line_plain(utf8(key), utf8(token));
    let l = field_line(utf8(key), utf8(token));
    assert forall|i: int| 0 <= i < l.len() implies #[trigger] l[i] < 128 by {
        if i < utf8(key).len() {
            assert(l[i] == utf8(key)[i]);
        } else if i > utf8(key).len() {
            assert(l[i] == utf8(token)[i - utf8(key).len() - 1]);
        }
    }
}

/// The three token lines of a request or permit are newline-free ASCII.
pub proof fn lemma_token_lines(
    action: SystemCandidateAction,
    effect: SystemEffectClass,
    authority: SystemAuthorityClass,
)
    ensures
        no_newline(fl("action"@, utf8(action_name(action)))),
        is_ascii_bytes(fl("action"@, utf8(action_name(action)))),
        no_newline(fl("effect-class"@, utf8(effect_name(effect)))),
        is_ascii_bytes(fl("effect-class"@, utf8(effect_name(effect)))),
        no_newline(fl("authority"@, utf8(authority_name(authority)))),
        is_ascii_bytes(fl("authority"@, utf8(authority_name(authority)))),
{
    lemma_tokens();
    reveal_strlit("action");
    reveal_strlit("effect-class");
    reveal_strlit("authority");
    lemma_token_line("action"@, action_name(action));
    lemma_token_line("effect-class"@, effect_name(effect));
    lemma_token_line("authority"@, authority_name(authority));
}

// ---------------------------------------------------------------------------
// The canonical request text
// ---------------------------------------------------------------------------

pub open spec fn fl(key: Seq<char>, value: Seq<u8>) -> Seq<u8> {
    field_line(utf8(key), value)
}

/// The first eight lines: header, authorization, timing and the operation.
pub open spec fn prepared_head_a(v: PreparedView) -> Seq<Seq<u8>> {
    seq![
        utf8("theblob-prepared-activation-v1"@),
        fl("authorization"@, hex_of_text(v.authorization)),
        fl("node"@, hex_of_text(v.node)),
        fl("readiness-observed-at-unix-ms"@, decimal(v.readiness_observed_at_unix_ms as nat)),
        fl("authorization-expires-at-unix-ms"@, decimal(v.authorization_expires_at_unix_ms as nat)),
        fl("prepared-at-unix-ms"@, decimal(v.prepared_at_unix_ms as nat)),
        fl("operation"@, hex_of_text(v.plan.operation_id)),
        fl("candidate"@, hex_of_text(v.plan.candidate)),
    ]
}

/// The next eight lines: what the plan runs, up to the argument count.
pub open spec fn prepared_head_b(v: PreparedView) -> Seq<Seq<u8>> {
    seq![
        fl("system-spec"@, hex_of_text(v.plan.system_spec)),
        fl("materialization-operation"@, hex_of_text(v.plan.materialization_operation)),
        fl("action"@, utf8(action_name(v.plan.action))),
        fl("effect-class"@, utf8(effect_name(v.plan.effect_class))),
        fl("authority"@, utf8(authority_name(v.plan.authority))),
        fl("system-closure"@, hex_of_text(v.plan.system_closure)),
        fl("program"@, hex_of_text(v.plan.program)),
        fl("args-count"@, decimal(v.plan.args.len())),
    ]
}

/// The sixteen lines before the argument list.
pub open spec fn prepared_head_lines(v: PreparedView) -> Seq<Seq<u8>> {
    prepared_head_a(v) + prepared_head_b(v)
}

/// Every line of a prepared request, in order.
pub open spec fn prepared_lines(v: PreparedView) -> Seq<Seq<u8>> {
    prepared_head_lines(v) + hex_list_lines(utf8("arg-"@), v.plan.args) + seq![
        fl("expected-effects-count"@, decimal(v.plan.expected_effects.len())),
    ] + hex_list_lines(utf8("expected-effect-"@), v.plan.expected_effects) + seq![
        fl("rollback-semantics"@, hex_of_text(v.plan.rollback_semantics)),
        fl("readiness-evidence-count"@, decimal(v.readiness_evidence.len())),
    ] + hex_list_lines(utf8("readiness-evidence-"@), v.readiness_evidence) + seq![
        fl("authorization-evidence-count"@, decimal(v.authorization_evidence.len())),
    ] + hex_list_lines(utf8("authorization-evidence-"@), v.authorization_evidence)
}

/// The canonical UTF-8 bytes of a prepared request.
pub open spec fn prepared_text(v: PreparedView) -> Seq<u8> {
    lines_text(prepared_lines(v))
}

pub open spec fn hexf(line: Seq<u8>, key: Seq<char>) -> Option<Seq<char>> {
    hex_text_field(line, utf8(key), false)
}

pub open spec fn head_ok(ls: Seq<Seq<u8>>) -> bool {
    &&& ls.len() >= 16
    &&& ls[0] == utf8("theblob-prepared-activation-v1"@)
    &&& hexf(ls[1], "authorization"@) is Some
    &&& hexf(ls[2], "node"@) is Some
    &&& u64_field(ls[3], utf8("readiness-observed-at-unix-ms"@)) is Some
    &&& u64_field(ls[4], utf8("authorization-expires-at-unix-ms"@)) is Some
    &&& u64_field(ls[5], utf8("prepared-at-unix-ms"@)) is Some
    &&& hexf(ls[6], "operation"@) is Some
    &&& hexf(ls[7], "candidate"@) is Some
    &&& hexf(ls[8], "system-spec"@) is Some
    &&& hexf(ls[9], "materialization-operation"@) is Some
    &&& field_value(ls[10], utf8("action"@)) matches Some(a) && parsed_action(a) is Some
    &&& field_value(ls[11], utf8("effect-class"@)) matches Some(e) && parsed_effect(e) is Some
    &&& field_value(ls[12], utf8("authority"@)) matches Some(a) && parsed_authority(a) is Some
    &&& hexf(ls[13], "system-closure"@) is Some
    &&& hexf(ls[14], "program"@) is Some
    &&& count_field(ls[15], utf8("args-count"@), MAX_PREPARED_ARGS as nat) is Some
}

/// The request the lines spell, given the four lists read from them.
pub open spec fn prepared_from(
    ls: Seq<Seq<u8>>,
    args: Seq<Seq<char>>,
    expected_effects: Seq<Seq<char>>,
    rollback_semantics: Seq<char>,
    readiness_evidence: Seq<Seq<char>>,
    authorization_evidence: Seq<Seq<char>>,
) -> PreparedView {
    PreparedView {
        node: hexf(ls[2], "node"@)->0,
        readiness_observed_at_unix_ms: u64_field(ls[3], utf8("readiness-observed-at-unix-ms"@))->0,
        authorization: hexf(ls[1], "authorization"@)->0,
        authorization_expires_at_unix_ms: u64_field(
            ls[4],
            utf8("authorization-expires-at-unix-ms"@),
        )->0,
        prepared_at_unix_ms: u64_field(ls[5], utf8("prepared-at-unix-ms"@))->0,
        plan: PlanView {
            operation_id: hexf(ls[6], "operation"@)->0,
            candidate: hexf(ls[7], "candidate"@)->0,
            system_spec: hexf(ls[8], "system-spec"@)->0,
            materialization_operation: hexf(ls[9], "materialization-operation"@)->0,
            system_closure: hexf(ls[13], "system-closure"@)->0,
            action: parsed_action(field_value(ls[10], utf8("action"@))->0)->0,
            effect_class: parsed_effect(field_value(ls[11], utf8("effect-class"@))->0)->0,
            authority: parsed_authority(field_value(ls[12], utf8("authority"@))->0)->0,
            program: hexf(ls[14], "program"@)->0,
            args,
            expected_effects,
            rollback_semantics,
        },
        readiness_evidence,
        authorization_evidence,
    }
}

/// The request held by the lines of a request file, read field by field.
#[verifier::opaque]
pub open spec fn prepared_fields(ls: Seq<Seq<u8>>) -> Option<PreparedView> {
    if !head_ok(ls) {
        None
    } else {
        let na = count_field(ls[15], utf8("args-count"@), MAX_PREPARED_ARGS as nat)->0;
        match hex_list_at(ls, 16, utf8("arg-"@), na, false) {
            None => None,
            Some(args) => {
                let p1: int = 16 + na as int;
                if !(p1 < ls.len() && count_field(
                    ls[p1],
                    utf8("expected-effects-count"@),
                    MAX_PREPARED_LIST as nat,
                ) is Some) {
                    None
                } else {
                    let ne = count_field(
                        ls[p1],
                        utf8("expected-effects-count"@),
                        MAX_PREPARED_LIST as nat,
                    )->0;
                    match hex_list_at(ls, p1 + 1, utf8("expected-effect-"@), ne, false) {
                        None => None,
                        Some(effects) => {
                            let p2: int = p1 + 1 + ne;
                            if !(p2 + 1 < ls.len() && hexf(ls[p2], "rollback-semantics"@) is Some
                                && count_field(
                                ls[p2 + 1],
                                utf8("readiness-evidence-count"@),
                                MAX_PREPARED_LIST as nat,
                            ) is Some) {
                                None
                            } else {
                                let nr = count_field(
                                    ls[p2 + 1],
                                    utf8("readiness-evidence-count"@),
                                    MAX_PREPARED_LIST as nat,
                                )->0;
                                match hex_list_at(
                                    ls,
                                    p2 + 2,
                                    utf8("readiness-evidence-"@),
                                    nr,
                                    false,
                                ) {
                                    None => None,
                                    Some(readiness) => {
                                        let p3: int = p2 + 2 + nr;
                                        if !(p3 < ls.len() && count_field(
                                            ls[p3],
                                            utf8("authorization-evidence-count"@),
                                            MAX_PREPARED_LIST as nat,
                                        ) is Some) {
                                            None
                                        } else {
                                            let nz = count_field(
                                                ls[p3],
                                                utf8("authorization-evidence-count"@),
                                                MAX_PREPARED_LIST as nat,
                                            )->0;
                                            match hex_list_at(
                                                ls,
                                                p3 + 1,
                                                utf8("authorization-evidence-"@),
                                                nz,
                                                false,
                                            ) {
                                                None => None,
                                                Some(authz) => {
                                                    let p4: int = p3 + 1 + nz;
                                                    if ls.len() == p4 + 1 && ls[p4].len() == 0 {
                                                        Some(
                                                            prepared_from(
                                                                ls,
                                                                args,
                                                                effects,
                                                                hexf(
                                                                    ls[p2],
                                                                    "rollback-semantics"@,
                                                                )->0,
                                                                readiness,
                                                                authz,
                                                            ),
                                                        )
                                                    } else {
                                                        None
                                                    }
                                                },
                                            }
                                        }
                                    },
                                }
                            }
                        },
                    }
                }
            },
        }
    }
}

proof fn lemma_prepared_literals()
    ensures
        plain_ascii("theblob-prepared-activation-v1"@),
        plain_ascii("authorization"@),
        plain_ascii("node"@),
        plain_ascii("readiness-observed-at-unix-ms"@),
        plain_ascii("authorization-expires-at-unix-ms"@),
        plain_ascii("prepared-at-unix-ms"@),
        plain_ascii("operation"@),
        plain_ascii("candidate"@),
        plain_ascii("system-spec"@),
        plain_ascii("materialization-operation"@),
        plain_ascii("action"@),
        plain_ascii("effect-class"@),
        plain_ascii("authority"@),
        plain_ascii("system-closure"@),
        plain_ascii("program"@),
        plain_ascii("args-count"@),
        plain_ascii("arg-"@),
        plain_ascii("expected-effects-count"@),
        plain_ascii("expected-effect-"@),
        plain_ascii("rollback-semantics"@),
        plain_ascii("readiness-evidence-count"@),
        plain_ascii("readiness-evidence-"@),
        plain_ascii("authorization-evidence-count"@),
        plain_ascii("authorization-evidence-"@),
{
    reveal_strlit("theblob-prepared-activation-v1");
    reveal_strlit("authorization");
    reveal_strlit("node");
    reveal_strlit("readiness-observed-at-unix-ms");
    reveal_strlit("authorization-expires-at-unix-ms");
    reveal_strlit("prepared-at-unix-ms");
    reveal_strlit("operation");
    reveal_strlit("candidate");
    reveal_strlit("system-spec");
    reveal_strlit("materialization-operation");
    reveal_strlit("action");
    reveal_strlit("effect-class");
    reveal_strlit("authority");
    reveal_strlit("system-closure");
    reveal_strlit("program");
    reveal_strlit("args-count");
    reveal_strlit("arg-");
    reveal_strlit("expected-effects-count");
    reveal_strlit("expected-effect-");
    reveal_strlit("rollback-semantics");
    reveal_strlit("readiness-evidence-count");
    reveal_strlit("readiness-evidence-");
    reveal_strlit("authorization-evidence-count");
    reveal_strlit("authorization-evidence-");
}

proof fn lemma_one_ascii_line(l: Seq<u8>)
    requires
        no_newline(l),
        is_ascii_bytes(l),
    ensures
        ascii_lines(seq![l]),
{
}

proof fn lemma_two_ascii_lines(l: Seq<u8>, m: Seq<u8>)
    requires
        no_newline(l),
        is_ascii_bytes(l),
        no_newline(m),
        is_ascii_bytes(m),
    ensures
        ascii_lines(seq![l, m]),
{
}

proof fn lemma_prepared_lines_ascii(v: PreparedView)
    ensures
        ascii_lines(prepared_lines(v)),
{
    lemma_prepared_literals();
    lemma_tokens();
    crate::lines::lemma_plain_ascii_bytes("theblob-prepared-activation-v1"@);
    lemma_hex_line("authorization"@, v.authorization);
    lemma_hex_line("node"@, v.node);
    lemma_decimal_line("readiness-observed-at-unix-ms"@, v.readiness_observed_at_unix_ms as nat);
    lemma_decimal_line("authorization-expires-at-unix-ms"@, v.authorization_expires_at_unix_ms as nat);
    lemma_decimal_line("prepared-at-unix-ms"@, v.prepared_at_unix_ms as nat);
    lemma_hex_line("operation"@, v.plan.operation_id);
    lemma_hex_line("candidate"@, v.plan.candidate);
    lemma_hex_line("system-spec"@, v.plan.system_spec);
    lemma_hex_line("materialization-operation"@, v.plan.materialization_operation);
    lemma_token_line("action"@, action_name(v.plan.action));
    lemma_token_line("effect-class"@, effect_name(v.plan.effect_class));
    lemma_token_line("authority"@, authority_name(v.plan.authority));
    lemma_hex_line("system-closure"@, v.plan.system_closure);
    lemma_hex_line("program"@, v.plan.program);
    lemma_decimal_line("args-count"@, v.plan.args.len());
    lemma_decimal_line("expected-effects-count"@, v.plan.expected_effects.len());
    lemma_hex_line("rollback-semantics"@, v.plan.rollback_semantics);
    lemma_decimal_line("readiness-evidence-count"@, v.readiness_evidence.len());
    lemma_decimal_line("authorization-evidence-count"@, v.authorization_evidence.len());
    lemma_hex_list_lines_plain("arg-"@, v.plan.args);
    lemma_hex_list_lines_plain("expected-effect-"@, v.plan.expected_effects);
    lemma_hex_list_lines_plain("readiness-evidence-"@, v.readiness_evidence);
    lemma_hex_list_lines_plain("authorization-evidence-"@, v.authorization_evidence);
    let h = prepared_head_lines(v);
    assert(ascii_lines(h));
    let a = hex_list_lines(utf8("arg-"@), v.plan.args);
    let e1 = seq![fl("expected-effects-count"@, decimal(v.plan.expected_effects.len()))];
    let el = hex_list_lines(utf8("expected-effect-"@), v.plan.expected_effects);
    let r2 = seq![
        fl("rollback-semantics"@, hex_of_text(v.plan.rollback_semantics)),
        fl("readiness-evidence-count"@, decimal(v.readiness_evidence.len())),
    ];
    let rl = hex_list_lines(utf8("readiness-evidence-"@), v.readiness_evidence);
    let z1 = seq![fl("authorization-evidence-count"@, decimal(v.authorization_evidence.len()))];
    let zl = hex_list_lines(utf8("authorization-evidence-"@), v.authorization_evidence);
    lemma_one_ascii_line(fl("expected-effects-count"@, decimal(v.plan.expected_effects.len())));
    lemma_two_ascii_lines(
        fl("rollback-semantics"@, hex_of_text(v.plan.rollback_semantics)),
        fl("readiness-evidence-count"@, decimal(v.readiness_evidence.len())),
    );
    lemma_one_ascii_line(fl("authorization-evidence-count"@, decimal(v.authorization_evidence.len())));
    lemma_ascii_lines_concat(h, a);
    lemma_ascii_lines_concat(h + a, e1);
    lemma_ascii_lines_concat(h + a + e1, el);
    lemma_ascii_lines_concat(h + a + e1 + el, r2);
    lemma_ascii_lines_concat(h + a + e1 + el + r2, rl);
    lemma_ascii_lines_concat(h + a + e1 + el + r2 + rl, z1);
    lemma_ascii_lines_concat(h + a + e1 + el + r2 + rl + z1, zl);
    assert(prepared_lines(v) == h + a + e1 + el + r2 + rl + z1 + zl);
}

fn write_prepared_head_a(w: &mut RecordWriter, prepared: &PreparedPrivilegedActivation)
    requires
        old(w).inv(),
    ensures
        final(w).inv(),
        final(w).lines() == old(w).lines() + prepared_head_a(prepared@),
{
    let ghost start = w.lines();
    let plan = &prepared.plan;
    w.literal("theblob-prepared-activation-v1");
    w.hex_field("authorization".as_bytes(), prepared.authorization.as_str());
    w.hex_field("node".as_bytes(), prepared.node.as_str());
    w.decimal_field("readiness-observed-at-unix-ms".as_bytes(), prepared.readiness_observed_at_unix_ms);
    w.decimal_field(
        "authorization-expires-at-unix-ms".as_bytes(),
        prepared.authorization_expires_at_unix_ms,
    );
    w.decimal_field("prepared-at-unix-ms".as_bytes(), prepared.prepared_at_unix_ms);
    w.hex_field("operation".as_bytes(), plan.operation_id.as_str());
    w.hex_field("candidate".as_bytes(), plan.candidate.as_str());
    assert(w.lines() =~= start + prepared_head_a(prepared@));
}

fn write_prepared_head_b(w: &mut RecordWriter, prepared: &PreparedPrivilegedActivation)
    requires
        old(w).inv(),
    ensures
        final(w).inv(),
        final(w).lines() == old(w).lines() + prepared_head_b(prepared@),
{
    let ghost start = w.lines();
    let plan = &prepared.plan;
    w.hex_field("system-spec".as_bytes(), plan.system_spec.as_str());
    w.hex_field("materialization-operation".as_bytes(), plan.materialization_operation.as_str());
    w.raw_field("action".as_bytes(), action_token(plan.action).as_bytes());
    w.raw_field("effect-class".as_bytes(), effect_token(plan.effect_class).as_bytes());
    w.raw_field("authority".as_bytes(), authority_token(plan.authority).as_bytes());
    w.hex_field("system-closure".as_bytes(), plan.system_closure.as_str());
    w.hex_field("program".as_bytes(), plan.program.as_str());
    w.decimal_field("args-count".as_bytes(), plan.args.len() as u64);
    assert(w.lines() =~= start + prepared_head_b(prepared@));
}

/// Serializes a prepared request: versioned, field-ordered, text as lowercase
/// hexadecimal UTF-8, each list preceded by its count.
#[verifier::spinoff_prover]
#[verifier::rlimit(40)]
pub fn canonical_text(prepared: &PreparedPrivilegedActivation) -> (r: String)
    ensures
        utf8(r@) == prepared_text(prepared@),
        r@ == ascii_chars(prepared_text(prepared@)),
{
    let plan = &prepared.plan;
    let mut w = RecordWriter::new();
    write_prepared_head_a(&mut w, prepared);
    write_prepared_head_b(&mut w, prepared);
    let ghost v = prepared@;
    let ghost h = prepared_head_lines(v);
    assert(w.lines() =~= h);
    w.hex_list("arg-", &plan.args);
    let ghost p1 = h + hex_list_lines(utf8("arg-"@), v.plan.args);
    w.decimal_field("expected-effects-count".as_bytes(), plan.expected_effects.len() as u64);
    let ghost p2 = p1 + seq![fl("expected-effects-count"@, decimal(v.plan.expected_effects.len()))];
    assert(w.lines() =~= p2);
    w.hex_list("expected-effect-", &plan.expected_effects);
    let ghost p3 = p2 + hex_list_lines(utf8("expected-effect-"@), v.plan.expected_effects);
    w.hex_field("rollback-semantics".as_bytes(), plan.rollback_semantics.as_str());
    w.decimal_field("readiness-evidence-count".as_bytes(), prepared.readiness_evidence.len() as u64);
    let ghost p4 = p3 + seq![
        fl("rollback-semantics"@, hex_of_text(v.plan.rollback_semantics)),
        fl("readiness-evidence-count"@, decimal(v.readiness_evidence.len())),
    ];
    assert(w.lines() =~= p4);
    w.hex_list("readiness-evidence-", &prepared.readiness_evidence);
    let ghost p5 = p4 + hex_list_lines(utf8("readiness-evidence-"@), v.readiness_evidence);
    w.decimal_field(
        "authorization-evidence-count".as_bytes(),
        prepared.authorization_evidence.len() as u64,
    );
    let ghost p6 = p5 + seq![
        fl("authorization-evidence-count"@, decimal(v.authorization_evidence.len())),
    ];
    assert(w.lines() =~= p6);
    w.hex_list("authorization-evidence-", &prepared.authorization_evidence);
    proof {
        assert(w.lines() == prepared_lines(v));
        lemma_prepared_lines_ascii(v);
    }
    w.finish()
}

fn malformed(what: &str) -> (e: PreparedActivationRequestStoreError)
    ensures
        e is Malformed,
{
    let mut m = "malformed request: ".to_owned();
    m.append(what);
    PreparedActivationRequestStoreError::Malformed(m)
}

/// Reads a prepared request, rejecting unknown, duplicated, reordered, missing
/// or trailing fields, uppercase hexadecimal and oversized lists.
#[verifier::rlimit(60)]
pub fn parse_canonical_text(text: &str) -> (r: Result<PreparedPrivilegedActivation, PreparedActivationRequestStoreError>)
    ensures
        utf8(text@).len() > MAX_PREPARED_REQUEST_BYTES ==> r == Err::<
            PreparedPrivilegedActivation,
            PreparedActivationRequestStoreError,
        >(PreparedActivationRequestStoreError::RequestTooLarge),
        utf8(text@).len() <= MAX_PREPARED_REQUEST_BYTES ==> match r {
            Ok(p) => prepared_fields(split_lines(utf8(text@))) == Some(p@),
            Err(e) => e is Malformed && prepared_fields(split_lines(utf8(text@))) is None,
        },
{
    let bytes = text.as_bytes();
    if bytes.len() as u64 > MAX_PREPARED_REQUEST_BYTES {
        return Err(PreparedActivationRequestStoreError::RequestTooLarge);
    }
    proof {
        reveal(prepared_fields);
    }
    let mut c = LineCursor::new(bytes);
    let ghost ls = c.lines();
    if !c.literal("theblob-prepared-activation-v1".as_bytes()) {
        return Err(malformed("header"));
    }
    let authorization = match c.hex_field("authorization".as_bytes(), false) {
        Some(v) => v,
        None => return Err(malformed("authorization")),
    };
    let node = match c.hex_field("node".as_bytes(), false) {
        Some(v) => v,
        None => return Err(malformed("node")),
    };
    let readiness_observed_at_unix_ms = match c.u64_field("readiness-observed-at-unix-ms".as_bytes()) {
        Some(v) => v,
        None => return Err(malformed("readiness-observed-at-unix-ms")),
    };
    let authorization_expires_at_unix_ms = match c.u64_field(
        "authorization-expires-at-unix-ms".as_bytes(),
    ) {
        Some(v) => v,
        None => return Err(malformed("authorization-expires-at-unix-ms")),
    };
    let prepared_at_unix_ms = match c.u64_field("prepared-at-unix-ms".as_bytes()) {
        Some(v) => v,
        None => return Err(malformed("prepared-at-unix-ms")),
    };
    let operation_id = match c.hex_field("operation".as_bytes(), false) {
        Some(v) => v,
        None => return Err(malformed("operation")),
    };
    let candidate = match c.hex_field("candidate".as_bytes(), false) {
        Some(v) => v,
        None => return Err(malformed("candidate")),
    };
    let system_spec = match c.hex_field("system-spec".as_bytes(), false) {
        Some(v) => v,
        None => return Err(malformed("system-spec")),
    };
    let materialization_operation = match c.hex_field("materialization-operation".as_bytes(), false) {
        Some(v) => v,
        None => return Err(malformed("materialization-operation")),
    };
    let action = match c.field("action".as_bytes()) {
        Some(v) => match parse_action(v.as_slice()) {
            Some(a) => a,
            None => return Err(malformed("unsupported prepared activation action")),
        },
        None => return Err(malformed("action")),
    };
    let effect_class = match c.field("effect-class".as_bytes()) {
        Some(v) => match parse_effect(v.as_slice()) {
            Some(e) => e,
            None => return Err(malformed("unsupported prepared activation effect class")),
        },
        None => return Err(malformed("effect-class")),
    };
    let authority = match c.field("authority".as_bytes()) {
        Some(v) => match parse_authority(v.as_slice()) {
            Some(a) => a,
            None => return Err(malformed("unsupported prepared activation authority")),
        },
        None => return Err(malformed("authority")),
    };
    let system_closure = match c.hex_field("system-closure".as_bytes(), false) {
        Some(v) => v,
        None => return Err(malformed("system-closure")),
    };
    let program = match c.hex_field("program".as_bytes(), false) {
        Some(v) => v,
        None => return Err(malformed("program")),
    };
    let args_count = match c.count_field("args-count".as_bytes(), MAX_PREPARED_ARGS) {
        Some(v) => v,
        None => return Err(malformed("args-count")),
    };
    assert(head_ok(ls));
    let args = match c.hex_list("arg-", args_count, false) {
        Some(v) => v,
        None => return Err(malformed("arg")),
    };
    let expected_count = match c.count_field("expected-effects-count".as_bytes(), MAX_PREPARED_LIST) {
        Some(v) => v,
        None => return Err(malformed("expected-effects-count")),
    };
    let expected_effects = match c.hex_list("expected-effect-", expected_count, false) {
        Some(v) => v,
        None => return Err(malformed("expected-effect")),
    };
    let rollback_semantics = match c.hex_field("rollback-semantics".as_bytes(), false) {
        Some(v) => v,
        None => return Err(malformed("rollback-semantics")),
    };
    let readiness_count = match c.count_field(
        "readiness-evidence-count".as_bytes(),
        MAX_PREPARED_LIST,
    ) {
        Some(v) => v,
        None => return Err(malformed("readiness-evidence-count")),
    };
    let readiness_evidence = match c.hex_list("readiness-evidence-", readiness_count, false) {
        Some(v) => v,
        None => return Err(malformed("readiness-evidence")),
    };
    let authorization_count = match c.count_field(
        "authorization-evidence-count".as_bytes(),
        MAX_PREPARED_LIST,
    ) {
        Some(v) => v,
        None => return Err(malformed("authorization-evidence-count")),
    };
    let authorization_evidence = match c.hex_list(
        "authorization-evidence-",
        authorization_count,
        false,
    ) {
        Some(v) => v,
        None => return Err(malformed("authorization-evidence")),
    };
    if !c.finish() {
        return Err(malformed("trailing or missing request data"));
    }
    let prepared = PreparedPrivilegedActivation {
        node,
        readiness_observed_at_unix_ms,
        authorization,
        authorization_expires_at_unix_ms,
        prepared_at_unix_ms,
        plan: ImmutableNixOsActivationPlan {
            operation_id,
            candidate,
            system_spec,
            materialization_operation,
            system_closure,
            action,
            effect_class,
            authority,
            program,
            args,
            expected_effects,
            rollback_semantics,
        },
        readiness_evidence,
        authorization_evidence,
    };
    assert(prepared_fields(ls) == Some(prepared@));
    Ok(prepared)
}

/// The requests the parser reads back: an activation action with a matching
/// kind of effect, host-administrator authority, and lists within their limits.
pub open spec fn prepared_parsable(v: PreparedView) -> bool {
    &&& (v.plan.action == SystemCandidateAction::PreviewActivation || v.plan.action
        == SystemCandidateAction::TestActivation)
    &&& (v.plan.effect_class == SystemEffectClass::PreviewHooks || v.plan.effect_class
        == SystemEffectClass::TemporaryLiveActivation)
    &&& v.plan.authority == SystemAuthorityClass::HostAdministrator
    &&& v.plan.args.len() <= MAX_PREPARED_ARGS
    &&& v.plan.expected_effects.len() <= MAX_PREPARED_LIST
    &&& v.readiness_evidence.len() <= MAX_PREPARED_LIST
    &&& v.authorization_evidence.len() <= MAX_PREPARED_LIST
}

proof fn lemma_token_round_trip(v: PreparedView)
    requires
        prepared_parsable(v),
    ensures
        parsed_action(utf8(action_name(v.plan.action))) == Some(v.plan.action),
        parsed_effect(utf8(effect_name(v.plan.effect_class))) == Some(v.plan.effect_class),
        parsed_authority(utf8(authority_name(v.plan.authority))) == Some(v.plan.authority),
{
    reveal_strlit("preview-activation");
    reveal_strlit("test-activation");
    reveal_strlit("preview-hooks");
    reveal_strlit("temporary-live-activation");
    crate::text::lemma_utf8_round_trip("preview-activation"@);
    crate::text::lemma_utf8_round_trip("test-activation"@);
    crate::text::lemma_utf8_round_trip("preview-hooks"@);
    crate::text::lemma_utf8_round_trip("temporary-live-activation"@);
    assert("preview-activation"@ != "test-activation"@) by {
        assert("preview-activation"@.len() != "test-activation"@.len());
    }
    assert("preview-hooks"@ != "temporary-live-activation"@) by {
        assert("preview-hooks"@.len() != "temporary-live-activation"@.len());
    }
}

/// Reading the canonical text of a request the parser can hold gives the
/// request back, field for field.
#[verifier::rlimit(80)]
pub proof fn lemma_prepared_round_trip(v: PreparedView)
    requires
        prepared_parsable(v),
    ensures
        prepared_fields(split_lines(prepared_text(v))) == Some(v),
{
    reveal(prepared_fields);
    let ls = prepared_lines(v);
    lemma_prepared_lines_ascii(v);
    assert(all_lines_plain(ls));
    lemma_split_lines_text(ls);
    let sp = split_lines(prepared_text(v));
    assert(sp == ls.push(Seq::<u8>::empty()));
    let h = prepared_head_lines(v);
    let a = hex_list_lines(utf8("arg-"@), v.plan.args);
    let e1 = seq![fl("expected-effects-count"@, decimal(v.plan.expected_effects.len()))];
    let el = hex_list_lines(utf8("expected-effect-"@), v.plan.expected_effects);
    let r2 = seq![
        fl("rollback-semantics"@, hex_of_text(v.plan.rollback_semantics)),
        fl("readiness-evidence-count"@, decimal(v.readiness_evidence.len())),
    ];
    let rl = hex_list_lines(utf8("readiness-evidence-"@), v.readiness_evidence);
    let z1 = seq![fl("authorization-evidence-count"@, decimal(v.authorization_evidence.len()))];
    let zl = hex_list_lines(utf8("authorization-evidence-"@), v.authorization_evidence);
    assert(ls == h + a + e1 + el + r2 + rl + z1 + zl);
    let na = v.plan.args.len();
    let ne = v.plan.expected_effects.len();
    let nr = v.readiness_evidence.len();
    let nz = v.authorization_evidence.len();
    let p1: int = 16 + na as int;
    let p2: int = p1 + 1 + ne;
    let p3: int = p2 + 2 + nr;
    let p4: int = p3 + 1 + nz;
    assert(ls.len() == p4);
    assert(sp.len() == p4 + 1);
    // the head
    assert forall|k: int| 0 <= k < 16 implies #[trigger] sp[k] == h[k] by {
        assert(sp[k] == ls[k]);
    }
    lemma_token_round_trip(v);
    lemma_field_line(utf8("authorization"@), hex_of_text(v.authorization));
    lemma_field_line(utf8("node"@), hex_of_text(v.node));
    lemma_field_line(utf8("readiness-observed-at-unix-ms"@), decimal(v.readiness_observed_at_unix_ms as nat));
    lemma_field_line(utf8("authorization-expires-at-unix-ms"@), decimal(v.authorization_expires_at_unix_ms as nat));
    lemma_field_line(utf8("prepared-at-unix-ms"@), decimal(v.prepared_at_unix_ms as nat));
    lemma_field_line(utf8("operation"@), hex_of_text(v.plan.operation_id));
    lemma_field_line(utf8("candidate"@), hex_of_text(v.plan.candidate));
    lemma_field_line(utf8("system-spec"@), hex_of_text(v.plan.system_spec));
    lemma_field_line(utf8("materialization-operation"@), hex_of_text(v.plan.materialization_operation));
    lemma_field_line(utf8("action"@), utf8(action_name(v.plan.action)));
    lemma_field_line(utf8("effect-class"@), utf8(effect_name(v.plan.effect_class)));
    lemma_field_line(utf8("authority"@), utf8(authority_name(v.plan.authority)));
    lemma_field_line(utf8("system-closure"@), hex_of_text(v.plan.system_closure));
    lemma_field_line(utf8("program"@), hex_of_text(v.plan.program));
    lemma_field_line(utf8("args-count"@), decimal(na));
    lemma_hex_text_round_trip(v.authorization, false);
    lemma_hex_text_round_trip(v.node, false);
    lemma_hex_text_round_trip(v.plan.operation_id, false);
    lemma_hex_text_round_trip(v.plan.candidate, false);
    lemma_hex_text_round_trip(v.plan.system_spec, false);
    lemma_hex_text_round_trip(v.plan.materialization_operation, false);
    lemma_hex_text_round_trip(v.plan.system_closure, false);
    lemma_hex_text_round_trip(v.plan.program, false);
    lemma_decimal_round_trip(v.readiness_observed_at_unix_ms as nat);
    lemma_decimal_round_trip(v.authorization_expires_at_unix_ms as nat);
    lemma_decimal_round_trip(v.prepared_at_unix_ms as nat);
    lemma_decimal_round_trip(na);
    assert(sp[1] == h[1]);
    assert(sp[15] == h[15]);
    assert(head_ok(sp));
    // the lists and the lines between them
    assert forall|i: int| 0 <= i < na implies sp[16 + i] == #[trigger] a[i] by {
        assert(sp[16 + i] == ls[16 + i]);
    }
    lemma_hex_list_round_trip(sp, 16, utf8("arg-"@), v.plan.args, false);
    assert(sp[p1] == ls[p1]);
    assert(sp[p1] == e1[0]);
    lemma_field_line(utf8("expected-effects-count"@), decimal(ne));
    lemma_decimal_round_trip(ne);
    assert forall|i: int| 0 <= i < ne implies sp[p1 + 1 + i] == #[trigger] el[i] by {
        assert(sp[p1 + 1 + i] == ls[p1 + 1 + i]);
    }
    lemma_hex_list_round_trip(sp, p1 + 1, utf8("expected-effect-"@), v.plan.expected_effects, false);
    assert(sp[p2] == ls[p2]);
    assert(sp[p2] == r2[0]);
    assert(sp[p2 + 1] == ls[p2 + 1]);
    assert(sp[p2 + 1] == r2[1]);
    lemma_field_line(utf8("rollback-semantics"@), hex_of_text(v.plan.rollback_semantics));
    lemma_hex_text_round_trip(v.plan.rollback_semantics, false);
    lemma_field_line(utf8("readiness-evidence-count"@), decimal(nr));
    lemma_decimal_round_trip(nr);
    assert forall|i: int| 0 <= i < nr implies sp[p2 + 2 + i] == #[trigger] rl[i] by {
        assert(sp[p2 + 2 + i] == ls[p2 + 2 + i]);
    }
    lemma_hex_list_round_trip(sp, p2 + 2, utf8("readiness-evidence-"@), v.readiness_evidence, false);
    assert(sp[p3] == ls[p3]);
    assert(sp[p3] == z1[0]);
    lemma_field_line(utf8("authorization-evidence-count"@), decimal(nz));
    lemma_decimal_round_trip(nz);
    assert forall|i: int| 0 <= i < nz implies sp[p3 + 1 + i] == #[trigger] zl[i] by {
        assert(sp[p3 + 1 + i] == ls[p3 + 1 + i]);
    }
    lemma_hex_list_round_trip(sp, p3 + 1, utf8("authorization-evidence-"@), v.authorization_evidence, false);
    assert(sp[p4] == Seq::<u8>::empty());
    let got = prepared_fields(sp)->0;
    assert(prepared_fields(sp) == Some(
        prepared_from(
            sp,
            v.plan.args,
            v.plan.expected_effects,
            v.plan.rollback_semantics,
            v.readiness_evidence,
            v.authorization_evidence,
        ),
    ));
    assert(got.plan == v.plan);
    assert(got == v);
}

// ---------------------------------------------------------------------------
// The store
// ---------------------------------------------------------------------------

/// The directory a request is in.
#[derive(Clone, Copy, Debug, PartialEq, Eq, Structural)]
pub enum RequestState {
    Ready,
    Inflight,
    Completed,
    Failed,
}

pub open spec fn request_state_name(state: RequestState) -> Seq<char> {
    match state {
        RequestState::Ready => "ready"@,
        RequestState::Inflight => "inflight"@,
        RequestState::Completed => "completed"@,
        RequestState::Failed => "failed"@,
    }
}

impl RequestState {
    pub fn name(self) -> (r: &'static str)
        ensures
            r@ == request_state_name(self),
    {
        match self {
            RequestState::Ready => "ready",
            RequestState::Inflight => "inflight",
            RequestState::Completed => "completed",
            RequestState::Failed => "failed",
        }
    }
}

/// Equality of two prepared requests, field by field.
pub fn same_prepared(a: &PreparedPrivilegedActivation, b: &PreparedPrivilegedActivation) -> (r: bool)
    ensures
        r == (a@ == b@),
{
    let pa = &a.plan;
    let pb = &b.plan;
    let plan_same = pa.operation_id == pb.operation_id && pa.candidate == pb.candidate
        && pa.system_spec == pb.system_spec && pa.materialization_operation
        == pb.materialization_operation && pa.system_closure == pb.system_closure && pa.action
        == pb.action && pa.effect_class == pb.effect_class && pa.authority == pb.authority
        && pa.program == pb.program && same_texts(&pa.args, &pb.args) && same_texts(
        &pa.expected_effects,
        &pb.expected_effects,
    ) && pa.rollback_semantics == pb.rollback_semantics;
    let r = plan_same && a.node == b.node && a.readiness_observed_at_unix_ms
        == b.readiness_observed_at_unix_ms && a.authorization == b.authorization
        && a.authorization_expires_at_unix_ms == b.authorization_expires_at_unix_ms
        && a.prepared_at_unix_ms == b.prepared_at_unix_ms && same_texts(
        &a.readiness_evidence,
        &b.readiness_evidence,
    ) && same_texts(&a.authorization_evidence, &b.authorization_evidence);
    proof {
        if r {
            assert(a@.plan == b@.plan);
        }
    }
    r
}

/// What reading a request text for an authorization comes to.
pub enum RequestVerdict {
    TooLarge,
    Malformed,
    Mismatch,
    NonCanonical,
    Accepted(PreparedView),
}

/// The text must parse, name the expected authorization and be canonical.
pub open spec fn request_text_verdict(text: Seq<char>, authorization: Seq<char>) -> RequestVerdict {
    if utf8(text).len() > MAX_PREPARED_REQUEST_BYTES {
        RequestVerdict::TooLarge
    } else {
        match prepared_fields(split_lines(utf8(text))) {
            None => RequestVerdict::Malformed,
            Some(v) => if v.authorization != authorization {
                RequestVerdict::Mismatch
            } else if prepared_text(v) != utf8(text) {
                RequestVerdict::NonCanonical
            } else {
                RequestVerdict::Accepted(v)
            },
        }
    }
}

/// A result that reports a verdict.
pub open spec fn reports(
    r: Result<PreparedPrivilegedActivation, PreparedActivationRequestStoreError>,
    verdict: RequestVerdict,
) -> bool {
    match verdict {
        RequestVerdict::TooLarge => r == Err::<
            PreparedPrivilegedActivation,
            PreparedActivationRequestStoreError,
        >(PreparedActivationRequestStoreError::RequestTooLarge),
        RequestVerdict::Malformed => r matches Err(PreparedActivationRequestStoreError::Malformed(_)),
        RequestVerdict::Mismatch => r == Err::<
            PreparedPrivilegedActivation,
            PreparedActivationRequestStoreError,
        >(PreparedActivationRequestStoreError::RequestMismatch),
        RequestVerdict::NonCanonical => r == Err::<
            PreparedPrivilegedActivation,
            PreparedActivationRequestStoreError,
        >(PreparedActivationRequestStoreError::NonCanonicalRequest),
        RequestVerdict::Accepted(v) => r matches Ok(p) && p@ == v,
    }
}

/// A claim on a prepared request, bound to the store that made it.
pub struct ClaimedPreparedActivationRequest {
    pub prepared: PreparedPrivilegedActivation,
    root: String,
    expected_owner_uid: u32,
}

impl ClaimedPreparedActivationRequest {
    pub closed spec fn root_spec(&self) -> Seq<char> {
        self.root@
    }

    pub closed spec fn owner(&self) -> u32 {
        self.expected_owner_uid
    }

    /// The claimed request.
    pub closed spec fn prepared_view(&self) -> PreparedView {
        self.prepared@
    }
}

/// The root-owned store of prepared activation requests.
pub struct FilePreparedActivationRequestStore {
    root: String,
    expected_owner_uid: u32,
}

impl FilePreparedActivationRequestStore {
    pub closed spec fn root_spec(&self) -> Seq<char> {
        self.root@
    }

    pub closed spec fn owner(&self) -> u32 {
        self.expected_owner_uid
    }

    pub fn production_default() -> (r: Self)
        ensures
            r.root_spec() == DEFAULT_PREPARED_REQUEST_ROOT@,
            r.owner() == 0,
    {
        Self::new(DEFAULT_PREPARED_REQUEST_ROOT, 0)
    }

    pub fn new(root: &str, expected_owner_uid: u32) -> (r: Self)
        ensures
            r.root_spec() == root@,
            r.owner() == expected_owner_uid,
    {
        FilePreparedActivationRequestStore { root: root.to_owned(), expected_owner_uid }
    }

    pub fn root(&self) -> (r: &str)
        ensures
            r@ == self.root_spec(),
    {
        self.root.as_str()
    }

    pub fn expected_owner_uid(&self) -> (r: u32)
        ensures
            r == self.owner(),
    {
        self.expected_owner_uid
    }

    /// `<root>/<state>`.
    pub fn state_dir(&self, state: RequestState) -> (r: String)
        ensures
            utf8(r@) == join(utf8(self.root_spec()), utf8(request_state_name(state))),
    {
        let name = state.name();
        proof {
            vstd::utf8::encode_utf8_valid_utf8(name@);
        }
        join_name(self.root.as_str(), name.as_bytes())
    }

    /// `<root>/<state>/authorization-<hex>.request`.
    pub fn request_path(&self, state: RequestState, authorization: &str) -> (r: String)
        ensures
            utf8(r@) == join(
                join(utf8(self.root_spec()), utf8(request_state_name(state))),
                utf8("authorization-"@) + hex_of_text(authorization@) + utf8(".request"@),
            ),
    {
        let dir = self.state_dir(state);
        let name = hex_name("authorization-", authorization, ".request");
        join_name(dir.as_str(), name.as_slice())
    }

    /// `<root>/<state>/authorization-<hex>.claim`.
    pub fn claim_path(&self, state: RequestState, authorization: &str) -> (r: String)
        ensures
            utf8(r@) == join(
                join(utf8(self.root_spec()), utf8(request_state_name(state))),
                utf8("authorization-"@) + hex_of_text(authorization@) + utf8(".claim"@),
            ),
    {
        let dir = self.state_dir(state);
        let name = hex_name("authorization-", authorization, ".claim");
        join_name(dir.as_str(), name.as_slice())
    }

    /// The root and each state directory must be private directories of the owner.
    pub fn validate_layout(
        &self,
        root: &FileFacts,
        ready: &FileFacts,
        inflight: &FileFacts,
        completed: &FileFacts,
        failed: &FileFacts,
    ) -> (r: Result<(), PreparedActivationRequestStoreError>)
        ensures
            r is Ok <==> (protected_directory(*root, self.owner()) && protected_directory(
                *ready,
                self.owner(),
            ) && protected_directory(*inflight, self.owner()) && protected_directory(
                *completed,
                self.owner(),
            ) && protected_directory(*failed, self.owner())),
            r matches Err(e) ==> e == PreparedActivationRequestStoreError::InvalidLayout,
    {
        let o = self.expected_owner_uid;
        if is_protected_directory(root, o) && is_protected_directory(ready, o)
            && is_protected_directory(inflight, o) && is_protected_directory(completed, o)
            && is_protected_directory(failed, o) {
            Ok(())
        } else {
            Err(PreparedActivationRequestStoreError::InvalidLayout)
        }
    }

    /// The checks `read_request_path` makes on a request file once it has its
    /// metadata and text.
    #[verifier::rlimit(50)]
    pub fn check_request_file(&self, facts: &FileFacts, text: &str, authorization: &str) -> (r: Result<PreparedPrivilegedActivation, PreparedActivationRequestStoreError>)
        ensures
            !protected_file(*facts, self.owner()) ==> r == Err::<
                PreparedPrivilegedActivation,
                PreparedActivationRequestStoreError,
            >(PreparedActivationRequestStoreError::InvalidRequestFile),
            protected_file(*facts, self.owner()) && facts.len > MAX_PREPARED_REQUEST_BYTES ==> r
                == Err::<PreparedPrivilegedActivation, PreparedActivationRequestStoreError>(
                PreparedActivationRequestStoreError::RequestTooLarge,
            ),
            protected_file(*facts, self.owner()) && facts.len <= MAX_PREPARED_REQUEST_BYTES ==> reports(
                r,
                request_text_verdict(text@, authorization@),
            ),
    {
        if !is_protected_file(facts, self.expected_owner_uid) {
            return Err(PreparedActivationRequestStoreError::InvalidRequestFile);
        }
        if facts.len > MAX_PREPARED_REQUEST_BYTES {
            return Err(PreparedActivationRequestStoreError::RequestTooLarge);
        }
        let ghost verdict = request_text_verdict(text@, authorization@);
        let prepared = match parse_canonical_text(text) {
            Ok(p) => p,
            Err(e) => {
                return Err(e);
            },
        };
        let ghost v = prepared@;
        assert(prepared_fields(split_lines(utf8(text@))) == Some(v));
        if !crate::text::str_eq(prepared.authorization.as_str(), authorization) {
            assert(verdict == RequestVerdict::Mismatch);
            return Err(PreparedActivationRequestStoreError::RequestMismatch);
        }
        let canonical = canonical_text(&prepared);
        if !bytes_equal(canonical.as_str().as_bytes(), text.as_bytes()) {
            assert(verdict == RequestVerdict::NonCanonical);
            return Err(PreparedActivationRequestStoreError::NonCanonicalRequest);
        }
        assert(verdict == RequestVerdict::Accepted(v));
        Ok(prepared)
    }

    /// The claim `claim_exact` returns once the request has moved to `inflight`.
    pub fn claimed(&self, expected: &PreparedPrivilegedActivation) -> (r: ClaimedPreparedActivationRequest)
        ensures
            r.prepared_view() == expected@,
            r.root_spec() == self.root_spec(),
            r.owner() == self.owner(),
    {
        ClaimedPreparedActivationRequest {
            prepared: copy_prepared(expected),
            root: self.root.clone(),
            expected_owner_uid: self.expected_owner_uid,
        }
    }

    /// What `mark_completed` and `mark_failed` decide before they move a
    /// claim: it must come from this store, the inflight request must still be
    /// the claimed one, and the request must not already be terminal.
    pub fn check_terminal(
        &self,
        claimed: &ClaimedPreparedActivationRequest,
        observed: &PreparedPrivilegedActivation,
        terminal_present: bool,
    ) -> (r: Result<(), PreparedActivationRequestStoreError>)
        ensures
            (claimed.root_spec() != self.root_spec() || claimed.owner() != self.owner()
                || observed@ != claimed.prepared_view()) ==> r == Err::<
                (),
                PreparedActivationRequestStoreError,
            >(PreparedActivationRequestStoreError::RequestMismatch),
            (claimed.root_spec() == self.root_spec() && claimed.owner() == self.owner()
                && observed@ == claimed.prepared_view() && terminal_present) ==> (r matches Err(
                PreparedActivationRequestStoreError::TerminalState(a),
            ) && a@ == claimed.prepared_view().authorization),
            (claimed.root_spec() == self.root_spec() && claimed.owner() == self.owner()
                && observed@ == claimed.prepared_view() && !terminal_present) ==> r is Ok,
    {
        if claimed.root != self.root || claimed.expected_owner_uid != self.expected_owner_uid {
            return Err(PreparedActivationRequestStoreError::RequestMismatch);
        }
        if !same_prepared(observed, &claimed.prepared) {
            return Err(PreparedActivationRequestStoreError::RequestMismatch);
        }
        if terminal_present {
            return Err(
                PreparedActivationRequestStoreError::TerminalState(
                    claimed.prepared.authorization.clone(),
                ),
            );
        }
        Ok(())
    }
}

/// What `reject_non_ready_state` decides from which files exist: a request or
/// claim in `completed` or `failed` is terminal, one in `inflight` is claimed.
pub fn classify_request_state(authorization: &str, terminal_present: bool, inflight_present: bool) -> (r: Result<(), PreparedActivationRequestStoreError>)
    ensures
        terminal_present ==> (r matches Err(PreparedActivationRequestStoreError::TerminalState(a))
            && a@ == authorization@),
        !terminal_present && inflight_present ==> (r matches Err(
            PreparedActivationRequestStoreError::AlreadyClaimed(a),
        ) && a@ == authorization@),
        !terminal_present && !inflight_present ==> r is Ok,
{
    if terminal_present {
        return Err(PreparedActivationRequestStoreError::TerminalState(authorization.to_owned()));
    }
    if inflight_present {
        return Err(PreparedActivationRequestStoreError::AlreadyClaimed(authorization.to_owned()));
    }
    Ok(())
}

/// The ready request read before a claim must be exactly the authorized one.
pub fn check_ready_read(
    expected: &PreparedPrivilegedActivation,
    before: &PreparedPrivilegedActivation,
) -> (r: Result<(), PreparedActivationRequestStoreError>)
    ensures
        r is Ok <==> before@ == expected@,
        r is Err ==> r == Err::<(), PreparedActivationRequestStoreError>(
            PreparedActivationRequestStoreError::RequestMismatch,
        ),
{
    if !same_prepared(before, expected) {
        return Err(PreparedActivationRequestStoreError::RequestMismatch);
    }
    Ok(())
}

/// What `claim_exact` decides on the request it read before claiming and on
/// the one it read again after the durable claim receipt: both must be the
/// authorized request; a request that vanished or changed in between is
/// reported as changed after authorization.
pub fn check_claim_reads(
    expected: &PreparedPrivilegedActivation,
    before: &PreparedPrivilegedActivation,
    after: Result<PreparedPrivilegedActivation, PreparedActivationRequestStoreError>,
) -> (r: Result<(), PreparedActivationRequestStoreError>)
    ensures
        before@ != expected@ ==> r == Err::<(), PreparedActivationRequestStoreError>(
            PreparedActivationRequestStoreError::RequestMismatch,
        ),
        before@ == expected@ ==> match after {
            Ok(p) => if p@ == expected@ {
                r is Ok
            } else {
                r == Err::<(), PreparedActivationRequestStoreError>(
                    PreparedActivationRequestStoreError::RequestChangedAfterAuthorization,
                )
            },
            Err(PreparedActivationRequestStoreError::MissingReady(_)) => r == Err::<
                (),
                PreparedActivationRequestStoreError,
            >(PreparedActivationRequestStoreError::RequestChangedAfterAuthorization),
            Err(e) => r == Err::<(), PreparedActivationRequestStoreError>(e),
        },
{
    if !same_prepared(before, expected) {
        return Err(PreparedActivationRequestStoreError::RequestMismatch);
    }
    match after {
        Ok(p) => if same_prepared(&p, expected) {
            Ok(())
        } else {
            Err(PreparedActivationRequestStoreError::RequestChangedAfterAuthorization)
        },
        Err(PreparedActivationRequestStoreError::MissingReady(_)) => Err(
            PreparedActivationRequestStoreError::RequestChangedAfterAuthorization,
        ),
        Err(e) => Err(e),
    }
}

pub open spec fn claim_lines(expected: PreparedView) -> Seq<Seq<u8>> {
    seq![
        utf8("theblob-prepared-activation-claim-v1"@),
        fl("authorization"@, hex_of_text(expected.authorization)),
        fl("prepared-at-unix-ms"@, decimal(expected.prepared_at_unix_ms as nat)),
    ]
}

/// The durable claim receipt written before a request moves to `inflight`.
pub fn claim_receipt_text(expected: &PreparedPrivilegedActivation) -> (r: String)
    ensures
        utf8(r@) == lines_text(claim_lines(expected@)),
{
    let mut w = RecordWriter::new();
    w.literal("theblob-prepared-activation-claim-v1");
    w.hex_field("authorization".as_bytes(), expected.authorization.as_str());
    w.decimal_field("prepared-at-unix-ms".as_bytes(), expected.prepared_at_unix_ms);
    proof {
        reveal_strlit("theblob-prepared-activation-claim-v1");
        lemma_prepared_literals();
        crate::lines::lemma_plain_ascii_bytes("theblob-prepared-activation-claim-v1"@);
        lemma_hex_line("authorization"@, expected@.authorization);
        lemma_decimal_line("prepared-at-unix-ms"@, expected@.prepared_at_unix_ms as nat);
        assert(w.lines() =~= claim_lines(expected@));
    }
    w.finish()
}

} // verus!
