//! Trusted activation permits: the root-owned capability an OS-authenticated
//! issuer grants for exactly one prepared activation, and which the privileged
//! boundary destroys before it may act.
use vstd::prelude::*;
use crate::activation::{PreparedPrivilegedActivation, PreparedView};
use crate::fsmeta::{is_protected_directory, is_protected_file, protected_directory, protected_file, FileFacts};
use crate::ids::{NodeId, SystemAuthorizationId, SystemCandidateId, SystemOperationId, SystemSpecId};
use crate::lines::{
    all_lines_plain, ascii_lines, field_line, field_value, hex_list_lines, lemma_ascii_lines_concat,
    lemma_field_line, lemma_hex_list_lines_plain, lemma_split_lines_text, lines_text, list_key,
    plain_ascii, split_lines, RecordWriter,
};
use crate::materialization_authority::{lemma_decimal_line, lemma_hex_line};
use crate::paths::{hex_name, join, join_name};
use crate::request_store::{
    action_name, action_token, authority_name, authority_token, effect_name, effect_token, fl,
};
use crate::system::{SystemAuthorityClass, SystemCandidateAction, SystemEffectClass};
use crate::text::{
    ascii_chars, bytes_equal, copy_texts, decimal, hex_of_text, is_ascii_bytes,
    lemma_decimal_round_trip, lemma_hex_text_round_trip, lemma_utf8_round_trip, texts_view, utf8,
};

verus! {

pub const DEFAULT_TRUSTED_PERMIT_ROOT: &'static str = "/var/lib/theblob/activation-permits";

/// Every execution-sensitive field of one prepared activation.
#[derive(Clone, Debug, PartialEq, Eq)]
pub struct TrustedActivationPermit {
    pub authorization: SystemAuthorizationId,
    pub node: NodeId,
    pub operation: SystemOperationId,
    pub candidate: SystemCandidateId,
    pub system_spec: SystemSpecId,
    pub materialization_operation: SystemOperationId,
    pub action: SystemCandidateAction,
    pub effect_class: SystemEffectClass,
    pub authority: SystemAuthorityClass,
    pub system_closure: String,
    pub program: String,
    pub args: Vec<String>,
    pub readiness_observed_at_unix_ms: u64,
    pub prepared_at_unix_ms: u64,
    pub authorization_expires_at_unix_ms: u64,
}

pub struct PermitView {
    pub authorization: Seq<char>,
    pub node: Seq<char>,
    pub operation: Seq<char>,
    pub candidate: Seq<char>,
    pub system_spec: Seq<char>,
    pub materialization_operation: Seq<char>,
    pub action: SystemCandidateAction,
    pub effect_class: SystemEffectClass,
    pub authority: SystemAuthorityClass,
    pub system_closure: Seq<char>,
    pub program: Seq<char>,
    pub args: Seq<Seq<char>>,
    pub readiness_observed_at_unix_ms: u64,
    pub prepared_at_unix_ms: u64,
    pub authorization_expires_at_unix_ms: u64,
}

impl View for TrustedActivationPermit {
    type V = PermitView;

    open spec fn view(&self) -> PermitView {
        PermitView {
            authorization: self.authorization@,
            node: self.node@,
            operation: self.operation@,
            candidate: self.candidate@,
            system_spec: self.system_spec@,
            materialization_operation: self.materialization_operation@,
            action: self.action,
            effect_class: self.effect_class,
            authority: self.authority,
            system_closure: self.system_closure@,
            program: self.program@,
            args: texts_view(self.args@),
            readiness_observed_at_unix_ms: self.readiness_observed_at_unix_ms,
            prepared_at_unix_ms: self.prepared_at_unix_ms,
            authorization_expires_at_unix_ms: self.authorization_expires_at_unix_ms,
        }
    }
}

/// The permit a prepared activation needs.
pub open spec fn permit_of(p: PreparedView) -> PermitView {
    PermitView {
        authorization: p.authorization,
        node: p.node,
        operation: p.plan.operation_id,
        candidate: p.plan.candidate,
        system_spec: p.plan.system_spec,
        materialization_operation: p.plan.materialization_operation,
        action: p.plan.action,
        effect_class: p.plan.effect_class,
        authority: p.plan.authority,
        system_closure: p.plan.system_closure,
        program: p.plan.program,
        args: p.plan.args,
        readiness_observed_at_unix_ms: p.readiness_observed_at_unix_ms,
        prepared_at_unix_ms: p.prepared_at_unix_ms,
        authorization_expires_at_unix_ms: p.authorization_expires_at_unix_ms,
    }
}

pub open spec fn permit_head_a(v: PermitView) -> Seq<Seq<u8>> {
    seq![
        utf8("theblob-activation-permit-v1"@),
        fl("authorization"@, hex_of_text(v.authorization)),
        fl("node"@, hex_of_text(v.node)),
        fl("operation"@, hex_of_text(v.operation)),
        fl("candidate"@, hex_of_text(v.candidate)),
        fl("system-spec"@, hex_of_text(v.system_spec)),
        fl("materialization-operation"@, hex_of_text(v.materialization_operation)),
    ]
}

pub open spec fn permit_head_b(v: PermitView) -> Seq<Seq<u8>> {
    seq![
        fl("action"@, utf8(action_name(v.action))),
        fl("effect-class"@, utf8(effect_name(v.effect_class))),
        fl("authority"@, utf8(authority_name(v.authority))),
        fl("system-closure"@, hex_of_text(v.system_closure)),
        fl("program"@, hex_of_text(v.program)),
        fl("args-count"@, decimal(v.args.len())),
    ]
}

pub open spec fn permit_head_lines(v: PermitView) -> Seq<Seq<u8>> {
    permit_head_a(v) + permit_head_b(v)
}

pub open spec fn permit_tail_lines(v: PermitView) -> Seq<Seq<u8>> {
    seq![
        fl("readiness-observed-at-unix-ms"@, decimal(v.readiness_observed_at_unix_ms as nat)),
        fl("prepared-at-unix-ms"@, decimal(v.prepared_at_unix_ms as nat)),
        fl("authorization-expires-at-unix-ms"@, decimal(v.authorization_expires_at_unix_ms as nat)),
    ]
}

pub open spec fn permit_lines(v: PermitView) -> Seq<Seq<u8>> {
    permit_head_lines(v) + hex_list_lines(utf8("arg-"@), v.args) + permit_tail_lines(v)
}

/// The canonical UTF-8 bytes of a permit.
pub open spec fn permit_text(v: PermitView) -> Seq<u8> {
    lines_text(permit_lines(v))
}

proof fn lemma_permit_literals()
    ensures
        plain_ascii("theblob-activation-permit-v1"@),
        plain_ascii("authorization"@),
        plain_ascii("node"@),
        plain_ascii("operation"@),
        plain_ascii("candidate"@),
        plain_ascii("system-spec"@),
        plain_ascii("materialization-operation"@),
        plain_ascii("action"@),
        plain_ascii("effect-class"@),
        plain_ascii("authority"@),
        plain_ascii("system-closure"@),
        plain_ascii("program"@),
        plain_ascii("args-count"@),
        plain_ascii("arg-"@),
        plain_ascii("readiness-observed-at-unix-ms"@),
        plain_ascii("prepared-at-unix-ms"@),
        plain_ascii("authorization-expires-at-unix-ms"@),
{
    reveal_strlit("theblob-activation-permit-v1");
    reveal_strlit("authorization");
    reveal_strlit("node");
    reveal_strlit("operation");
    reveal_strlit("candidate");
    reveal_strlit("system-spec");
    reveal_strlit("materialization-operation");
    reveal_strlit("action");
    reveal_strlit("effect-class");
    reveal_strlit("authority");
    reveal_strlit("system-closure");
    reveal_strlit("program");
    reveal_strlit("args-count");
    reveal_strlit("arg-");
    reveal_strlit("readiness-observed-at-unix-ms");
    reveal_strlit("prepared-at-unix-ms");
    reveal_strlit("authorization-expires-at-unix-ms");
}

proof fn lemma_permit_lines_ascii(v: PermitView)
    ensures
        ascii_lines(permit_lines(v)),
{
    lemma_permit_literals();
    crate::request_store::lemma_token_lines(v.action, v.effect_class, v.authority);
    crate::lines::lemma_plain_ascii_bytes("theblob-activation-permit-v1"@);
    lemma_hex_line("authorization"@, v.authorization);
    lemma_hex_line("node"@, v.node);
    lemma_hex_line("operation"@, v.operation);
    lemma_hex_line("candidate"@, v.candidate);
    lemma_hex_line("system-spec"@, v.system_spec);
    lemma_hex_line("materialization-operation"@, v.materialization_operation);
    lemma_hex_line("system-closure"@, v.system_closure);
    lemma_hex_line("program"@, v.program);
    lemma_decimal_line("args-count"@, v.args.len());
    lemma_decimal_line("readiness-observed-at-unix-ms"@, v.readiness_observed_at_unix_ms as nat);
    lemma_decimal_line("prepared-at-unix-ms"@, v.prepared_at_unix_ms as nat);
    lemma_decimal_line("authorization-expires-at-unix-ms"@, v.authorization_expires_at_unix_ms as nat);
    lemma_hex_list_lines_plain("arg-"@, v.args);
    let h = permit_head_lines(v);
    let a = hex_list_lines(utf8("arg-"@), v.args);
    let t = permit_tail_lines(v);
    assert(ascii_lines(h));
    assert(ascii_lines(t));
    lemma_ascii_lines_concat(h, a);
    lemma_ascii_lines_concat(h + a, t);
}

impl TrustedActivationPermit {
    /// The permit that authorizes exactly `prepared`.
    pub fn from_prepared(prepared: &PreparedPrivilegedActivation) -> (r: Self)
        ensures
            r@ == permit_of(prepared@),
    {
        let plan = &prepared.plan;
        TrustedActivationPermit {
            authorization: prepared.authorization.clone(),
            node: prepared.node.clone(),
            operation: plan.operation_id.clone(),
            candidate: plan.candidate.clone(),
            system_spec: plan.system_spec.clone(),
            materialization_operation: plan.materialization_operation.clone(),
            action: plan.action,
            effect_class: plan.effect_class,
            authority: plan.authority,
            system_closure: plan.system_closure.clone(),
            program: plan.program.clone(),
            args: copy_texts(&plan.args),
            readiness_observed_at_unix_ms: prepared.readiness_observed_at_unix_ms,
            prepared_at_unix_ms: prepared.prepared_at_unix_ms,
            authorization_expires_at_unix_ms: prepared.authorization_expires_at_unix_ms,
        }
    }

    fn write_head_a(&self, w: &mut RecordWriter)
        requires
            old(w).inv(),
        ensures
            final(w).inv(),
            final(w).lines() == old(w).lines() + permit_head_a(self@),
    {
        let ghost start = w.lines();
        w.literal("theblob-activation-permit-v1");
        w.hex_field("authorization".as_bytes(), self.authorization.as_str());
        w.hex_field("node".as_bytes(), self.node.as_str());
        w.hex_field("operation".as_bytes(), self.operation.as_str());
        w.hex_field("candidate".as_bytes(), self.candidate.as_str());
        w.hex_field("system-spec".as_bytes(), self.system_spec.as_str());
        w.hex_field("materialization-operation".as_bytes(), self.materialization_operation.as_str());
        assert(w.lines() =~= start + permit_head_a(self@));
    }

    fn write_head_b(&self, w: &mut RecordWriter)
        requires
            old(w).inv(),
        ensures
            final(w).inv(),
            final(w).lines() == old(w).lines() + permit_head_b(self@),
    {
        let ghost start = w.lines();
        w.raw_field("action".as_bytes(), action_token(self.action).as_bytes());
        w.raw_field("effect-class".as_bytes(), effect_token(self.effect_class).as_bytes());
        w.raw_field("authority".as_bytes(), authority_token(self.authority).as_bytes());
        w.hex_field("system-closure".as_bytes(), self.system_closure.as_str());
        w.hex_field("program".as_bytes(), self.program.as_str());
        w.decimal_field("args-count".as_bytes(), self.args.len() as u64);
        assert(w.lines() =~= start + permit_head_b(self@));
    }

    /// The canonical, versioned text of the permit; text fields are lowercase
    /// hexadecimal UTF-8, so no value can add a line of its own.
    pub fn canonical_text(&self) -> (r: String)
        ensures
            utf8(r@) == permit_text(self@),
            r@ == ascii_chars(permit_text(self@)),
    {
        let mut w = RecordWriter::new();
        self.write_head_a(&mut w);
        self.write_head_b(&mut w);
        let ghost h = permit_head_lines(self@);
        assert(w.lines() =~= h);
        w.hex_list("arg-", &self.args);
        let ghost ha = h + hex_list_lines(utf8("arg-"@), self@.args);
        w.decimal_field(
            "readiness-observed-at-unix-ms".as_bytes(),
            self.readiness_observed_at_unix_ms,
        );
        w.decimal_field("prepared-at-unix-ms".as_bytes(), self.prepared_at_unix_ms);
        w.decimal_field(
            "authorization-expires-at-unix-ms".as_bytes(),
            self.authorization_expires_at_unix_ms,
        );
        proof {
            assert(w.lines() =~= ha + permit_tail_lines(self@));
            lemma_permit_lines_ascii(self@);
        }
        w.finish()
    }
}

/// Two lines with the same key and hexadecimal values are equal only for equal texts.
proof fn lemma_hex_line_injective(key: Seq<u8>, x: Seq<char>, y: Seq<char>)
    requires
        field_line(key, hex_of_text(x)) == field_line(key, hex_of_text(y)),
    ensures
        x == y,
{
    lemma_field_line(key, hex_of_text(x));
    lemma_field_line(key, hex_of_text(y));
    lemma_hex_text_round_trip(x, false);
    lemma_hex_text_round_trip(y, false);
}

proof fn lemma_decimal_line_injective(key: Seq<u8>, x: nat, y: nat)
    requires
        field_line(key, decimal(x)) == field_line(key, decimal(y)),
    ensures
        x == y,
{
    lemma_field_line(key, decimal(x));
    lemma_field_line(key, decimal(y));
    lemma_decimal_round_trip(x);
    lemma_decimal_round_trip(y);
}

proof fn lemma_token_texts_injective(key: Seq<u8>, x: Seq<char>, y: Seq<char>)
    requires
        field_line(key, utf8(x)) == field_line(key, utf8(y)),
    ensures
        x == y,
{
    lemma_field_line(key, utf8(x));
    lemma_field_line(key, utf8(y));
    lemma_utf8_round_trip(x);
    lemma_utf8_round_trip(y);
}

proof fn lemma_names_injective(
    a1: SystemCandidateAction,
    a2: SystemCandidateAction,
    e1: SystemEffectClass,
    e2: SystemEffectClass,
    u1: SystemAuthorityClass,
    u2: SystemAuthorityClass,
)
    ensures
        action_name(a1) == action_name(a2) ==> a1 == a2,
        effect_name(e1) == effect_name(e2) ==> e1 == e2,
        authority_name(u1) == authority_name(u2) ==> u1 == u2,
{
    reveal_strlit("materialize");
    reveal_strlit("preview-activation");
    reveal_strlit("test-activation");
    reveal_strlit("build-isolated-vm");
    reveal_strlit("materialization-only");
    reveal_strlit("preview-hooks");
    reveal_strlit("temporary-live-activation");
    reveal_strlit("user");
    reveal_strlit("host-administrator");
    if action_name(a1) == action_name(a2) && a1 != a2 {
        assert(action_name(a1).len() != action_name(a2).len() || action_name(a1)[0] != action_name(
            a2,
        )[0]);
    }
    if effect_name(e1) == effect_name(e2) && e1 != e2 {
        assert(effect_name(e1).len() != effect_name(e2).len());
    }
    if authority_name(u1) == authority_name(u2) && u1 != u2 {
        assert(authority_name(u1).len() != authority_name(u2).len());
    }
}

/// Two prepared requests whose permits read the same agree on every
/// execution-sensitive field: changing any one of them changes the permit text.
pub proof fn lemma_request_permits_bind_every_field(a: PreparedView, b: PreparedView)
    requires
        permit_text(permit_of(a)) == permit_text(permit_of(b)),
    ensures
        a.authorization == b.authorization,
        a.node == b.node,
        a.plan.operation_id == b.plan.operation_id,
        a.plan.candidate == b.plan.candidate,
        a.plan.system_spec == b.plan.system_spec,
        a.plan.materialization_operation == b.plan.materialization_operation,
        a.plan.system_closure == b.plan.system_closure,
        a.plan.action == b.plan.action,
        a.plan.effect_class == b.plan.effect_class,
        a.plan.authority == b.plan.authority,
        a.plan.program == b.plan.program,
        a.plan.args == b.plan.args,
        a.readiness_observed_at_unix_ms == b.readiness_observed_at_unix_ms,
        a.prepared_at_unix_ms == b.prepared_at_unix_ms,
        a.authorization_expires_at_unix_ms == b.authorization_expires_at_unix_ms,
{
    lemma_permit_text_injective(permit_of(a), permit_of(b));
}

/// A permit's canonical text determines every one of its fields: two permits
/// with the same text are the same permit, so no execution-sensitive field can
/// change without changing the text.
#[verifier::rlimit(40)]
pub proof fn lemma_permit_text_injective(a: PermitView, b: PermitView)
    requires
        permit_text(a) == permit_text(b),
    ensures
        a == b,
{
    let la = permit_lines(a);
    let lb = permit_lines(b);
    lemma_permit_lines_ascii(a);
    lemma_permit_lines_ascii(b);
    assert(all_lines_plain(la));
    assert(all_lines_plain(lb));
    lemma_split_lines_text(la);
    lemma_split_lines_text(lb);
    assert(la.push(Seq::<u8>::empty()) == lb.push(Seq::<u8>::empty()));
    assert(la.len() == lb.len());
    assert forall|k: int| 0 <= k < la.len() implies #[trigger] la[k] == lb[k] by {
        assert(la.push(Seq::<u8>::empty())[k] == lb.push(Seq::<u8>::empty())[k]);
    }
    assert(la[1] == lb[1]);
    lemma_hex_line_injective(utf8("authorization"@), a.authorization, b.authorization);
    assert(la[2] == lb[2]);
    lemma_hex_line_injective(utf8("node"@), a.node, b.node);
    assert(la[3] == lb[3]);
    lemma_hex_line_injective(utf8("operation"@), a.operation, b.operation);
    assert(la[4] == lb[4]);
    lemma_hex_line_injective(utf8("candidate"@), a.candidate, b.candidate);
    assert(la[5] == lb[5]);
    lemma_hex_line_injective(utf8("system-spec"@), a.system_spec, b.system_spec);
    assert(la[6] == lb[6]);
    lemma_hex_line_injective(
        utf8("materialization-operation"@),
        a.materialization_operation,
        b.materialization_operation,
    );
    assert(la[7] == lb[7]);
    lemma_token_texts_injective(utf8("action"@), action_name(a.action), action_name(b.action));
    assert(la[8] == lb[8]);
    lemma_token_texts_injective(
        utf8("effect-class"@),
        effect_name(a.effect_class),
        effect_name(b.effect_class),
    );
    assert(la[9] == lb[9]);
    lemma_token_texts_injective(
        utf8("authority"@),
        authority_name(a.authority),
        authority_name(b.authority),
    );
    lemma_names_injective(a.action, b.action, a.effect_class, b.effect_class, a.authority, b.authority);
    assert(la[10] == lb[10]);
    lemma_hex_line_injective(utf8("system-closure"@), a.system_closure, b.system_closure);
    assert(la[11] == lb[11]);
    lemma_hex_line_injective(utf8("program"@), a.program, b.program);
    assert(la[12] == lb[12]);
    lemma_decimal_line_injective(utf8("args-count"@), a.args.len(), b.args.len());
    let n: int = a.args.len() as int;
    assert forall|i: int| 0 <= i < n implies #[trigger] a.args[i] == b.args[i] by {
        assert(la[13 + i] == hex_list_lines(utf8("arg-"@), a.args)[i]);
        assert(lb[13 + i] == hex_list_lines(utf8("arg-"@), b.args)[i]);
        lemma_hex_line_injective(list_key(utf8("arg-"@), i as nat), a.args[i], b.args[i]);
    }
    assert(a.args =~= b.args);
    assert(la[13 + n] == lb[13 + n]);
    assert(la[13 + n] == permit_tail_lines(a)[0]);
    assert(lb[13 + n] == permit_tail_lines(b)[0]);
    lemma_decimal_line_injective(
        utf8("readiness-observed-at-unix-ms"@),
        a.readiness_observed_at_unix_ms as nat,
        b.readiness_observed_at_unix_ms as nat,
    );
    assert(la[14 + n] == lb[14 + n]);
    assert(la[14 + n] == permit_tail_lines(a)[1]);
    assert(lb[14 + n] == permit_tail_lines(b)[1]);
    lemma_decimal_line_injective(
        utf8("prepared-at-unix-ms"@),
        a.prepared_at_unix_ms as nat,
        b.prepared_at_unix_ms as nat,
    );
    assert(la[15 + n] == lb[15 + n]);
    assert(la[15 + n] == permit_tail_lines(a)[2]);
    assert(lb[15 + n] == permit_tail_lines(b)[2]);
    lemma_decimal_line_injective(
        utf8("authorization-expires-at-unix-ms"@),
        a.authorization_expires_at_unix_ms as nat,
        b.authorization_expires_at_unix_ms as nat,
    );
}

#[derive(Clone, Debug, PartialEq, Eq)]
pub enum TrustedActivationPermitError {
    MissingOrAlreadyConsumed(SystemAuthorizationId),
    PermitMismatch,
    InvalidPermitRoot,
    InvalidPermitFile,
    Io(String),
}

/// Authenticates and destroys the exact permit for a prepared activation.
pub trait TrustedActivationPermitStore {
    fn consume_matching(&mut self, prepared: &PreparedPrivilegedActivation) -> Result<
        (),
        TrustedActivationPermitError,
    >;
}

/// A permit store held in memory, for composition and tests: a set of
/// canonical permit texts.
pub struct InMemoryTrustedActivationPermitStore {
    permits: Vec<String>,
}

impl InMemoryTrustedActivationPermitStore {
    /// The canonical texts of the permits held.
    pub closed spec fn held(&self) -> Set<Seq<char>> {
        texts_view(self.permits@).to_set()
    }

    pub fn new() -> (r: Self)
        ensures
            r.held() == Set::<Seq<char>>::empty(),
    {
        let r = InMemoryTrustedActivationPermitStore { permits: Vec::new() };
        assert(texts_view(r.permits@).to_set() =~= Set::<Seq<char>>::empty());
        r
    }

    fn position(&self, text: &String) -> (r: Option<usize>)
        ensures
            match r {
                Some(i) => i < self.permits@.len() && self.permits@[i as int]@ == text@,
                None => !self.held().contains(text@),
            },
    {
        let mut i: usize = 0;
        while i < self.permits.len()
            invariant
                i <= self.permits@.len(),
                forall|j: int| 0 <= j < i ==> #[trigger] texts_view(self.permits@)[j] != text@,
            decreases self.permits.len() - i,
        {
            if self.permits[i] == *text {
                return Some(i);
            }
            i = i + 1;
        }
        assert(!texts_view(self.permits@).contains(text@)) by {
            if texts_view(self.permits@).contains(text@) {
                let k = choose|k: int|
                    0 <= k < texts_view(self.permits@).len() && texts_view(self.permits@)[k]
                        == text@;
                assert(texts_view(self.permits@)[k] != text@);
            }
        }
        None
    }

    /// Adds a permit.
    pub fn grant(&mut self, permit: TrustedActivationPermit)
        ensures
            final(self).held() == old(self).held().insert(ascii_chars(permit_text(permit@))),
    {
        let text = permit.canonical_text();
        match self.position(&text) {
            Some(i) => {
                proof {
                    assert(texts_view(self.permits@)[i as int] == text@);
                    assert(old(self).held().insert(text@) =~= old(self).held());
                }
            },
            None => {
                let ghost before = self.permits@;
                self.permits.push(text);
                proof {
                    assert(texts_view(self.permits@) =~= texts_view(before).push(text@));
                    texts_view(before).lemma_push_to_set_commute(text@);
                }
            },
        }
    }

    /// Adds the permit for exactly `prepared`.
    pub fn grant_for(&mut self, prepared: &PreparedPrivilegedActivation)
        ensures
            final(self).held() == old(self).held().insert(
                ascii_chars(permit_text(permit_of(prepared@))),
            ),
    {
        self.grant(TrustedActivationPermit::from_prepared(prepared));
    }
}

/// The text under which a request's permit is held.
pub open spec fn permit_key(p: PreparedView) -> Seq<char> {
    ascii_chars(permit_text(permit_of(p)))
}

pub(crate) proof fn lemma_ascii_chars_injective(a: Seq<u8>, b: Seq<u8>)
    requires
        ascii_chars(a) == ascii_chars(b),
    ensures
        a == b,
{
    assert(ascii_chars(a).len() == a.len());
    assert(ascii_chars(b).len() == b.len());
    assert(a.len() == b.len());
    assert forall|i: int| 0 <= i < a.len() implies a[i] == b[i] by {
        assert(ascii_chars(a)[i] == ascii_chars(b)[i]);
        assert(ascii_chars(a)[i] == a[i] as char);
        assert(ascii_chars(b)[i] == b[i] as char);
        assert((a[i] as char) as int == a[i] as int);
        assert((b[i] as char) as int == b[i] as int);
        assert(a[i] as int == b[i] as int);
    }
    assert(a =~= b);
}

/// A spent permit is gone: once `consume_matching` has taken the permit of a
/// request, the store no longer holds it, so the same request is refused the
/// next time.
pub proof fn lemma_consumed_permit_is_spent(
    before: &InMemoryTrustedActivationPermitStore,
    after: &InMemoryTrustedActivationPermitStore,
    used: PreparedView,
)
    requires
        after.held() == before.held().remove(permit_key(used)),
    ensures
        !after.held().contains(permit_key(used)),
{
}

/// Spending the permit of one request never spends the permit of a request
/// that differs from it in any execution-sensitive field.
pub proof fn lemma_other_permit_survives(
    before: &InMemoryTrustedActivationPermitStore,
    after: &InMemoryTrustedActivationPermitStore,
    used: PreparedView,
    other: PreparedView,
)
    requires
        after.held() == before.held().remove(permit_key(used)),
        before.held().contains(permit_key(other)),
        permit_of(used) != permit_of(other),
    ensures
        after.held().contains(permit_key(other)),
{
    if permit_key(used) == permit_key(other) {
        lemma_ascii_chars_injective(permit_text(permit_of(used)), permit_text(permit_of(other)));
        lemma_permit_text_injective(permit_of(used), permit_of(other));
    }
}

impl TrustedActivationPermitStore for InMemoryTrustedActivationPermitStore {
    fn consume_matching(&mut self, prepared: &PreparedPrivilegedActivation) -> (r: Result<
        (),
        TrustedActivationPermitError,
    >)
        ensures
            old(self).held().contains(ascii_chars(permit_text(permit_of(prepared@)))) ==> (r is Ok
                && final(self).held() == old(self).held().remove(
                ascii_chars(permit_text(permit_of(prepared@))),
            )),
            !old(self).held().contains(ascii_chars(permit_text(permit_of(prepared@)))) ==> (r matches Err(
                TrustedActivationPermitError::MissingOrAlreadyConsumed(a),
            ) && a@ == prepared.authorization@ && final(self).held() == old(self).held()),
    {
        let expected = TrustedActivationPermit::from_prepared(prepared).canonical_text();
        match self.position(&expected) {
            Some(i) => {
                let ghost before = texts_view(self.permits@);
                proof {
                    assert(before[i as int] == expected@);
                    assert(before.contains(expected@));
                }
                // every text is held once: drop all copies of this one
                let mut kept: Vec<String> = Vec::new();
                let mut j: usize = 0;
                while j < self.permits.len()
                    invariant
                        j <= self.permits@.len(),
                        before == texts_view(self.permits@),
                        texts_view(kept@).to_set() == before.take(j as int).to_set().remove(expected@),
                    decreases self.permits.len() - j,
                {
                    let ghost kv = texts_view(kept@);
                    proof {
                        assert(before.take(j + 1) =~= before.take(j as int).push(before[j as int]));
                        before.take(j as int).lemma_push_to_set_commute(before[j as int]);
                    }
                    if self.permits[j] != expected {
                        let t = self.permits[j].clone();
                        kept.push(t);
                        proof {
                            assert(texts_view(kept@) =~= kv.push(t@));
                            kv.lemma_push_to_set_commute(t@);
                            assert(texts_view(kept@).to_set() =~= before.take(j + 1).to_set().remove(
                                expected@,
                            ));
                        }
                    } else {
                        assert(texts_view(kept@).to_set() =~= before.take(j + 1).to_set().remove(
                            expected@,
                        ));
                    }
                    j = j + 1;
                }
                assert(before.take(before.len() as int) =~= before);
                self.permits = kept;
                Ok(())
            },
            None => Err(
                TrustedActivationPermitError::MissingOrAlreadyConsumed(prepared.authorization.clone()),
            ),
        }
    }
}

/// The consume side of the root-owned permit directory.
pub struct FileTrustedActivationPermitStore {
    root: String,
    expected_owner_uid: u32,
}

impl FileTrustedActivationPermitStore {
    pub closed spec fn root_spec(&self) -> Seq<char> {
        self.root@
    }

    pub closed spec fn owner(&self) -> u32 {
        self.expected_owner_uid
    }

    pub fn production_default() -> (r: Self)
        ensures
            r.root_spec() == DEFAULT_TRUSTED_PERMIT_ROOT@,
            r.owner() == 0,
    {
        Self::new(DEFAULT_TRUSTED_PERMIT_ROOT, 0)
    }

    pub fn new(root: &str, expected_owner_uid: u32) -> (r: Self)
        ensures
            r.root_spec() == root@,
            r.owner() == expected_owner_uid,
    {
        FileTrustedActivationPermitStore { root: root.to_owned(), expected_owner_uid }
    }

    pub fn root(&self) -> (r: &str)
        ensures
            r@ == self.root_spec(),
    {
        self.root.as_str()
    }

    /// The permit directory must be a private directory of the owner.
    pub fn check_root(&self, facts: &FileFacts) -> (r: Result<(), TrustedActivationPermitError>)
        ensures
            r is Ok <==> protected_directory(*facts, self.owner()),
            r matches Err(e) ==> e == TrustedActivationPermitError::InvalidPermitRoot,
    {
        if is_protected_directory(facts, self.expected_owner_uid) {
            Ok(())
        } else {
            Err(TrustedActivationPermitError::InvalidPermitRoot)
        }
    }

    /// `<root>/authorization-<hex>.permit`.
    pub fn permit_path(&self, authorization: &str) -> (r: String)
        ensures
            utf8(r@) == join(
                utf8(self.root_spec()),
                utf8("authorization-"@) + hex_of_text(authorization@) + utf8(".permit"@),
            ),
    {
        let name = hex_name("authorization-", authorization, ".permit");
        join_name(self.root.as_str(), name.as_slice())
    }

    /// A permit must be a private regular file of the owner with mode `0600`.
    pub fn check_file(&self, facts: &FileFacts) -> (r: Result<(), TrustedActivationPermitError>)
        ensures
            r is Ok <==> protected_file(*facts, self.owner()),
            r matches Err(e) ==> e == TrustedActivationPermitError::InvalidPermitFile,
    {
        if is_protected_file(facts, self.expected_owner_uid) {
            Ok(())
        } else {
            Err(TrustedActivationPermitError::InvalidPermitFile)
        }
    }

    /// The permit read from the file must be exactly the one `prepared` needs.
    pub fn check_permit_text(&self, prepared: &PreparedPrivilegedActivation, observed: &str) -> (r: Result<(), TrustedActivationPermitError>)
        ensures
            r is Ok <==> utf8(observed@) == permit_text(permit_of(prepared@)),
            r matches Err(e) ==> e == TrustedActivationPermitError::PermitMismatch,
    {
        let expected = TrustedActivationPermit::from_prepared(prepared).canonical_text();
        if bytes_equal(expected.as_str().as_bytes(), observed.as_bytes()) {
            proof {
                lemma_utf8_round_trip(expected@);
                lemma_utf8_round_trip(observed@);
            }
            Ok(())
        } else {
            Err(TrustedActivationPermitError::PermitMismatch)
        }
    }
}

} // verus!
