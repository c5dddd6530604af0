//! The root helper that runs a prepared NixOS activation: it re-checks every
//! execution-sensitive field of the request, consumes the authorization once,
//! runs exactly the candidate's `switch-to-configuration` and restores the
//! recorded baseline when a temporary activation does not end where it must.
use vstd::prelude::*;
use crate::activation::{activation_mode, switch_program, PreparedPrivilegedActivation, PreparedView};
use crate::fsmeta::FileFacts;
use crate::ids::{NodeId, SystemAuthorizationId};
use crate::paths::{exact_store_path, hex_name, is_exact_store_path, join, join_name, path_parts, same_path};
use crate::system::{SystemAuthorityClass, SystemCandidateAction, SystemEffectClass};
use crate::text::{
    ascii_chars, ascii_string, decimal, hex_of_text, lemma_decimal_ascii, push_decimal, texts_view,
    utf8,
};

verus! {

pub const DEFAULT_EXECUTION_LEDGER_ROOT: &'static str = "/var/lib/theblob/privileged-executions";

pub const DEFAULT_MAX_PREPARED_AGE_MS: u64 = 30000;

pub const DEFAULT_MAX_READINESS_AGE_MS: u64 = 120000;

/// How old a prepared request and its readiness observation may be.
#[derive(Clone, Copy, Debug, PartialEq, Eq, Structural)]
pub struct PrivilegedActivationRuntimePolicy {
    pub max_prepared_age_ms: u64,
    pub max_readiness_age_ms: u64,
}

impl Default for PrivilegedActivationRuntimePolicy {
    fn default() -> (r: Self)
        ensures
            r.max_prepared_age_ms == DEFAULT_MAX_PREPARED_AGE_MS,
            r.max_readiness_age_ms == DEFAULT_MAX_READINESS_AGE_MS,
    {
        PrivilegedActivationRuntimePolicy {
            max_prepared_age_ms: DEFAULT_MAX_PREPARED_AGE_MS,
            max_readiness_age_ms: DEFAULT_MAX_READINESS_AGE_MS,
        }
    }
}

#[derive(Clone, Copy, Debug, PartialEq, Eq, Structural)]
pub enum PrivilegedActivationCommandStatus {
    Succeeded,
    Failed,
}

/// What one run of an activation command reported.
#[derive(Clone, Debug, PartialEq, Eq)]
pub struct PrivilegedCommandOutcome {
    pub status: PrivilegedActivationCommandStatus,
    pub exit_code: Option<i32>,
    pub stdout: String,
    pub stderr: String,
    pub duration_us: u64,
}

impl PrivilegedCommandOutcome {
    pub fn succeeded(&self) -> (r: bool)
        ensures
            r == (self.status == PrivilegedActivationCommandStatus::Succeeded),
    {
        self.status == PrivilegedActivationCommandStatus::Succeeded
    }
}

/// The report of one privileged activation.
#[derive(Clone, Debug, PartialEq, Eq)]
pub struct PrivilegedActivationExecution {
    pub node: NodeId,
    pub authorization: SystemAuthorizationId,
    pub action: SystemCandidateAction,
    pub before_system_closure: String,
    pub after_system_closure: String,
    pub command: PrivilegedCommandOutcome,
    pub rollback_attempted: bool,
    pub rollback_succeeded: bool,
}

pub open spec fn action_debug_name(action: SystemCandidateAction) -> Seq<char> {
    match action {
        SystemCandidateAction::Materialize => "Materialize"@,
        SystemCandidateAction::PreviewActivation => "PreviewActivation"@,
        SystemCandidateAction::TestActivation => "TestActivation"@,
        SystemCandidateAction::BuildIsolatedVm => "BuildIsolatedVm"@,
    }
}

pub open spec fn status_debug_name(status: PrivilegedActivationCommandStatus) -> Seq<char> {
    match status {
        PrivilegedActivationCommandStatus::Succeeded => "Succeeded"@,
        PrivilegedActivationCommandStatus::Failed => "Failed"@,
    }
}

pub open spec fn bool_text(b: bool) -> Seq<char> {
    if b {
        "true"@
    } else {
        "false"@
    }
}

/// The decimal digits of `n` as text.
pub open spec fn number_text(n: nat) -> Seq<char> {
    ascii_chars(decimal(n))
}

/// `n` in decimal.
pub fn decimal_text(n: u64) -> (r: String)
    ensures
        r@ == number_text(n as nat),
{
    let mut b: Vec<u8> = Vec::new();
    push_decimal(&mut b, n);
    proof {
        lemma_decimal_ascii(n as nat);
        assert(b@ =~= decimal(n as nat));
    }
    ascii_string(b)
}

fn prefixed(prefix: &str, value: &str) -> (r: String)
    ensures
        r@ == prefix@ + value@,
{
    prefix.to_owned().concat(value)
}

fn action_debug(action: SystemCandidateAction) -> (r: &'static str)
    ensures
        r@ == action_debug_name(action),
{
    match action {
        SystemCandidateAction::Materialize => "Materialize",
        SystemCandidateAction::PreviewActivation => "PreviewActivation",
        SystemCandidateAction::TestActivation => "TestActivation",
        SystemCandidateAction::BuildIsolatedVm => "BuildIsolatedVm",
    }
}

fn bool_word(b: bool) -> (r: &'static str)
    ensures
        r@ == bool_text(b),
{
    if b {
        "true"
    } else {
        "false"
    }
}

impl PrivilegedActivationExecution {
    /// The evidence lines recorded for the execution, in a fixed order.
    pub fn evidence_lines(&self) -> (r: Vec<String>)
        ensures
            texts_view(r@) == seq![
                "node:"@ + self.node@,
                "authorization:"@ + self.authorization@,
                "action:"@ + action_debug_name(self.action),
                "before-system-closure:"@ + self.before_system_closure@,
                "after-system-closure:"@ + self.after_system_closure@,
                "command-status:"@ + status_debug_name(self.command.status),
                "command-duration-us:"@ + number_text(self.command.duration_us as nat),
                "rollback-attempted:"@ + bool_text(self.rollback_attempted),
                "rollback-succeeded:"@ + bool_text(self.rollback_succeeded),
            ],
    {
        let status = match self.command.status {
            PrivilegedActivationCommandStatus::Succeeded => "Succeeded",
            PrivilegedActivationCommandStatus::Failed => "Failed",
        };
        let duration = decimal_text(self.command.duration_us);
        let mut r: Vec<String> = Vec::new();
        r.push(prefixed("node:", self.node.as_str()));
        r.push(prefixed("authorization:", self.authorization.as_str()));
        r.push(prefixed("action:", action_debug(self.action)));
        r.push(prefixed("before-system-closure:", self.before_system_closure.as_str()));
        r.push(prefixed("after-system-closure:", self.after_system_closure.as_str()));
        r.push(prefixed("command-status:", status));
        r.push(prefixed("command-duration-us:", duration.as_str()));
        r.push(prefixed("rollback-attempted:", bool_word(self.rollback_attempted)));
        r.push(prefixed("rollback-succeeded:", bool_word(self.rollback_succeeded)));
        assert(texts_view(r@) =~= seq![
            "node:"@ + self.node@,
            "authorization:"@ + self.authorization@,
            "action:"@ + action_debug_name(self.action),
            "before-system-closure:"@ + self.before_system_closure@,
            "after-system-closure:"@ + self.after_system_closure@,
            "command-status:"@ + status_debug_name(self.command.status),
            "command-duration-us:"@ + number_text(self.command.duration_us as nat),
            "rollback-attempted:"@ + bool_text(self.rollback_attempted),
            "rollback-succeeded:"@ + bool_text(self.rollback_succeeded),
        ]);
        r
    }
}

#[derive(Clone, Debug, PartialEq, Eq)]
pub enum PrivilegedExecutionLedgerError {
    AlreadyConsumed(SystemAuthorizationId),
    Io(String),
    InvalidLedgerRoot,
}

/// The replay barrier of the privileged boundary: an authorization can be
/// consumed at most once.
pub trait PrivilegedExecutionLedger {
    fn consume_once(&mut self, authorization: &str, prepared_at_unix_ms: u64) -> Result<
        (),
        PrivilegedExecutionLedgerError,
    >;
}

/// A ledger held in memory, for composition and tests.
pub struct InMemoryPrivilegedExecutionLedger {
    consumed: Vec<String>,
}

impl InMemoryPrivilegedExecutionLedger {
    /// The authorizations consumed so far.
    pub closed spec fn consumed_set(&self) -> Set<Seq<char>> {
        texts_view(self.consumed@).to_set()
    }

    pub fn new() -> (r: Self)
        ensures
            r.consumed_set() == Set::<Seq<char>>::empty(),
    {
        let r = InMemoryPrivilegedExecutionLedger { consumed: Vec::new() };
        assert(texts_view(r.consumed@).to_set() =~= Set::<Seq<char>>::empty());
        r
    }

    pub fn was_consumed(&self, id: &str) -> (r: bool)
        ensures
            r == self.consumed_set().contains(id@),
    {
        let mut i: usize = 0;
        while i < self.consumed.len()
            invariant
                i <= self.consumed@.len(),
                forall|j: int| 0 <= j < i ==> #[trigger] texts_view(self.consumed@)[j] != id@,
            decreases self.consumed.len() - i,
        {
            if crate::text::str_eq(self.consumed[i].as_str(), id) {
                assert(texts_view(self.consumed@)[i as int] == id@);
                assert(texts_view(self.consumed@).contains(id@));
                return true;
            }
            i = i + 1;
        }
        assert(!texts_view(self.consumed@).contains(id@)) by {
            if texts_view(self.consumed@).contains(id@) {
                let k = choose|k: int| 0 <= k < texts_view(self.consumed@).len() && texts_view(self.consumed@)[k] == id@;
                assert(texts_view(self.consumed@)[k] != id@);
            }
        }
        false
    }
}

/// An authorization is spent once: after `consume_once` recorded it, the
/// ledger holds it, so a second `consume_once` for it is refused.
pub proof fn lemma_consumed_authorization_is_spent(
    before: &InMemoryPrivilegedExecutionLedger,
    after: &InMemoryPrivilegedExecutionLedger,
    authorization: Seq<char>,
)
    requires
        after.consumed_set() == before.consumed_set().insert(authorization),
    ensures
        after.consumed_set().contains(authorization),
{
}

impl PrivilegedExecutionLedger for InMemoryPrivilegedExecutionLedger {
    fn consume_once(&mut self, authorization: &str, prepared_at_unix_ms: u64) -> (r: Result<
        (),
        PrivilegedExecutionLedgerError,
    >)
        ensures
            old(self).consumed_set().contains(authorization@) ==> (r matches Err(
                PrivilegedExecutionLedgerError::AlreadyConsumed(a),
            ) && a@ == authorization@ && final(self).consumed_set() == old(self).consumed_set()),
            !old(self).consumed_set().contains(authorization@) ==> (r is Ok && final(self).consumed_set()
                == old(self).consumed_set().insert(authorization@)),
    {
        if self.was_consumed(authorization) {
            return Err(PrivilegedExecutionLedgerError::AlreadyConsumed(authorization.to_owned()));
        }
        let ghost before = self.consumed@;
        self.consumed.push(authorization.to_owned());
        proof {
            assert(texts_view(self.consumed@) =~= texts_view(before).push(authorization@));
            texts_view(before).lemma_push_to_set_commute(authorization@);
        }
        Ok(())
    }
}

/// The durable ledger: one `create_new` receipt file per authorization in a
/// directory provisioned ahead of time.
pub struct FilePrivilegedExecutionLedger {
    root: String,
}

impl FilePrivilegedExecutionLedger {
    pub closed spec fn root_spec(&self) -> Seq<char> {
        self.root@
    }

    pub fn new(root: &str) -> (r: Self)
        ensures
            r.root_spec() == root@,
    {
        FilePrivilegedExecutionLedger { root: root.to_owned() }
    }

    pub fn production_default() -> (r: Self)
        ensures
            r.root_spec() == DEFAULT_EXECUTION_LEDGER_ROOT@,
    {
        Self::new(DEFAULT_EXECUTION_LEDGER_ROOT)
    }

    pub fn root(&self) -> (r: &str)
        ensures
            r@ == self.root_spec(),
    {
        self.root.as_str()
    }

    /// The ledger root must be a real directory that group and others cannot access.
    pub fn check_root(&self, facts: &FileFacts) -> (r: Result<(), PrivilegedExecutionLedgerError>)
        ensures
            r is Ok <==> (!facts.is_symlink && facts.is_dir && facts.mode & 0o077 == 0),
            r matches Err(e) ==> e == PrivilegedExecutionLedgerError::InvalidLedgerRoot,
    {
        if facts.is_symlink || !facts.is_dir {
            return Err(PrivilegedExecutionLedgerError::InvalidLedgerRoot);
        }
        if facts.mode & 0o077 != 0 {
            return Err(PrivilegedExecutionLedgerError::InvalidLedgerRoot);
        }
        Ok(())
    }

    /// `<root>/authorization-<hex>.used`.
    pub fn receipt_path(&self, authorization: &str) -> (r: String)
        ensures
            utf8(r@) == join(
                utf8(self.root_spec()),
                utf8("authorization-"@) + hex_of_text(authorization@) + utf8(".used"@),
            ),
    {
        let name = hex_name("authorization-", authorization, ".used");
        join_name(self.root.as_str(), name.as_slice())
    }
}

/// The text of a consumed-authorization receipt.
pub fn ledger_receipt_text(authorization: &str, prepared_at_unix_ms: u64) -> (r: String)
    ensures
        r@ == "authorization="@ + authorization@ + "\nprepared-at-unix-ms="@ + number_text(
            prepared_at_unix_ms as nat,
        ) + "\n"@,
{
    let n = decimal_text(prepared_at_unix_ms);
    prefixed("authorization=", authorization).concat("\nprepared-at-unix-ms=").concat(
        n.as_str(),
    ).concat("\n")
}

/// What the helper observes of the host; each observation may fail with a message.
pub trait NixOsActivationHost {
    fn canonicalize_path(&self, path: &str) -> Result<String, String>;

    fn current_system_closure(&self) -> Result<String, String>;

    fn boot_default_closure(&self) -> Result<String, String>;

    fn executable_exists(&self, path: &str) -> Result<bool, String>;
}

/// Runs one activation program with one argument.
pub trait PrivilegedCommandRunner {
    fn run(&self, program: &str, argument: &str) -> Result<PrivilegedCommandOutcome, String>;
}

#[derive(Clone, Debug, PartialEq, Eq)]
pub enum PrivilegedActivationError {
    NodeMismatch { expected: NodeId, prepared: NodeId },
    TimestampOrderInvalid,
    PreparedActivationStale,
    ReadinessStale,
    AuthorizationExpired,
    UnsupportedAction(SystemCandidateAction),
    AuthorityMismatch,
    EffectClassMismatch,
    InvalidSystemClosure,
    NonCanonicalSystemClosure,
    ProgramMismatch,
    ArgumentsMismatch,
    EvidenceMismatch,
    HostObservation(String),
    CandidateExecutableMissing,
    RollbackExecutableMissing,
    CurrentSystemNotBootDefault,
    ExecutionLedger(PrivilegedExecutionLedgerError),
    Spawn(String),
    UnexpectedLiveSystemChange,
    TestActivationPostconditionFailed,
    RollbackFailed,
}

/// The effect class an activation action must declare.
pub open spec fn required_effect(action: SystemCandidateAction) -> SystemEffectClass {
    if action == SystemCandidateAction::PreviewActivation {
        SystemEffectClass::PreviewHooks
    } else {
        SystemEffectClass::TemporaryLiveActivation
    }
}

/// The evidence a prepared request must carry about its authorization and readiness.
pub open spec fn evidence_complete(p: PreparedView) -> bool {
    &&& p.authorization_evidence.contains("authorization:"@ + p.authorization)
    &&& p.authorization_evidence.contains(
        "expires-at-unix-ms:"@ + number_text(p.authorization_expires_at_unix_ms as nat),
    )
    &&& p.readiness_evidence.contains("node:"@ + p.node)
    &&& p.readiness_evidence.contains(
        "observed-at-unix-ms:"@ + number_text(p.readiness_observed_at_unix_ms as nat),
    )
}

/// The first rule a prepared request for the local node breaks at time `now`,
/// checked in order: timestamps, freshness, expiry, action, authority, effect,
/// closure, program, arguments, evidence.
pub open spec fn activation_defect(
    policy: PrivilegedActivationRuntimePolicy,
    p: PreparedView,
    now: u64,
) -> Option<PrivilegedActivationError> {
    if p.readiness_observed_at_unix_ms > p.prepared_at_unix_ms || p.prepared_at_unix_ms > now
        || p.authorization_expires_at_unix_ms <= p.prepared_at_unix_ms {
        Some(PrivilegedActivationError::TimestampOrderInvalid)
    } else if now - p.prepared_at_unix_ms > policy.max_prepared_age_ms {
        Some(PrivilegedActivationError::PreparedActivationStale)
    } else if now - p.readiness_observed_at_unix_ms > policy.max_readiness_age_ms {
        Some(PrivilegedActivationError::ReadinessStale)
    } else if now >= p.authorization_expires_at_unix_ms {
        Some(PrivilegedActivationError::AuthorizationExpired)
    } else if activation_mode(p.plan.action) is None {
        Some(PrivilegedActivationError::UnsupportedAction(p.plan.action))
    } else if p.plan.authority != SystemAuthorityClass::HostAdministrator {
        Some(PrivilegedActivationError::AuthorityMismatch)
    } else if p.plan.effect_class != required_effect(p.plan.action) {
        Some(PrivilegedActivationError::EffectClassMismatch)
    } else if !is_exact_store_path(utf8(p.plan.system_closure)) {
        Some(PrivilegedActivationError::InvalidSystemClosure)
    } else if p.plan.program != switch_program(p.plan.system_closure) {
        Some(PrivilegedActivationError::ProgramMismatch)
    } else if p.plan.args != seq![activation_mode(p.plan.action)->0] {
        Some(PrivilegedActivationError::ArgumentsMismatch)
    } else if !evidence_complete(p) {
        Some(PrivilegedActivationError::EvidenceMismatch)
    } else {
        None
    }
}

/// Each freshness rule is measured against its own limit. A request that is
/// accepted was prepared no more than `max_prepared_age_ms` ago, observed ready
/// no more than `max_readiness_age_ms` ago, and is not yet expired; and for a
/// well-ordered request that is fresh enough, readiness is refused exactly when
/// the observation is older than `max_readiness_age_ms`.
pub proof fn lemma_freshness_limits(policy: PrivilegedActivationRuntimePolicy, p: PreparedView, now: u64)
    ensures
        activation_defect(policy, p, now) is None ==> {
            &&& p.readiness_observed_at_unix_ms <= p.prepared_at_unix_ms <= now
            &&& now - p.prepared_at_unix_ms <= policy.max_prepared_age_ms
            &&& now - p.readiness_observed_at_unix_ms <= policy.max_readiness_age_ms
            &&& now < p.authorization_expires_at_unix_ms
        },
        (p.readiness_observed_at_unix_ms <= p.prepared_at_unix_ms <= now
            && p.prepared_at_unix_ms < p.authorization_expires_at_unix_ms
            && now - p.prepared_at_unix_ms <= policy.max_prepared_age_ms) ==> (activation_defect(
            policy,
            p,
            now,
        ) == Some(PrivilegedActivationError::ReadinessStale) <==> now - p.readiness_observed_at_unix_ms
            > policy.max_readiness_age_ms),
        (p.readiness_observed_at_unix_ms <= p.prepared_at_unix_ms <= now
            && p.prepared_at_unix_ms < p.authorization_expires_at_unix_ms) ==> (activation_defect(
            policy,
            p,
            now,
        ) == Some(PrivilegedActivationError::PreparedActivationStale) <==> now - p.prepared_at_unix_ms
            > policy.max_prepared_age_ms),
        (p.readiness_observed_at_unix_ms <= p.prepared_at_unix_ms <= now
            && p.prepared_at_unix_ms < p.authorization_expires_at_unix_ms
            && now - p.prepared_at_unix_ms <= policy.max_prepared_age_ms
            && now - p.readiness_observed_at_unix_ms <= policy.max_readiness_age_ms) ==> (
        activation_defect(policy, p, now) == Some(PrivilegedActivationError::AuthorizationExpired)
            <==> now >= p.authorization_expires_at_unix_ms),
        (activation_defect(policy, p, now) == Some(PrivilegedActivationError::TimestampOrderInvalid))
            <==> !(p.readiness_observed_at_unix_ms <= p.prepared_at_unix_ms <= now
            && p.prepared_at_unix_ms < p.authorization_expires_at_unix_ms),
{
}

fn texts_contain(v: &Vec<String>, s: &String) -> (r: bool)
    ensures
        r == texts_view(v@).contains(s@),
{
    let mut i: usize = 0;
    while i < v.len()
        invariant
            i <= v@.len(),
            forall|j: int| 0 <= j < i ==> #[trigger] texts_view(v@)[j] != s@,
        decreases v.len() - i,
    {
        if v[i] == *s {
            assert(texts_view(v@)[i as int] == s@);
            return true;
        }
        i = i + 1;
    }
    false
}

/// Accepts only an exact store object path.
pub fn valid_store_closure(path: &str) -> (r: bool)
    ensures
        r == is_exact_store_path(utf8(path@)),
{
    exact_store_path(path.as_bytes())
}

/// The execution-sensitive checks of the privileged boundary.
pub struct PrivilegedNixOsActivationHelper {
    local_node: NodeId,
    policy: PrivilegedActivationRuntimePolicy,
}

impl PrivilegedNixOsActivationHelper {
    pub closed spec fn local(&self) -> Seq<char> {
        self.local_node@
    }

    pub closed spec fn runtime_policy(&self) -> PrivilegedActivationRuntimePolicy {
        self.policy
    }

    pub fn new(local_node: &str) -> (r: Self)
        ensures
            r.local() == local_node@,
            r.runtime_policy().max_prepared_age_ms == DEFAULT_MAX_PREPARED_AGE_MS,
            r.runtime_policy().max_readiness_age_ms == DEFAULT_MAX_READINESS_AGE_MS,
    {
        PrivilegedNixOsActivationHelper {
            local_node: local_node.to_owned(),
            policy: PrivilegedActivationRuntimePolicy::default(),
        }
    }

    pub fn with_policy(local_node: &str, policy: PrivilegedActivationRuntimePolicy) -> (r: Self)
        ensures
            r.local() == local_node@,
            r.runtime_policy() == policy,
    {
        PrivilegedNixOsActivationHelper { local_node: local_node.to_owned(), policy }
    }

    /// Rejects a prepared request that is not for this node, is stale, expired
    /// or out of order, or asks for anything but the exact non-persistent
    /// activation of its own closure with matching evidence.
    pub fn validate_prepared(&self, prepared: &PreparedPrivilegedActivation, now_unix_ms: u64) -> (r: Result<(), PrivilegedActivationError>)
        ensures
            prepared.node@ != self.local() ==> (r matches Err(
                PrivilegedActivationError::NodeMismatch { expected, prepared: q },
            ) && expected@ == self.local() && q@ == prepared.node@),
            prepared.node@ == self.local() ==> match activation_defect(
                self.runtime_policy(),
                prepared@,
                now_unix_ms,
            ) {
                Some(e) => r == Err::<(), PrivilegedActivationError>(e),
                None => r is Ok,
            },
    {
        if prepared.node != self.local_node {
            return Err(
                PrivilegedActivationError::NodeMismatch {
                    expected: self.local_node.clone(),
                    prepared: prepared.node.clone(),
                },
            );
        }
        if prepared.readiness_observed_at_unix_ms > prepared.prepared_at_unix_ms
            || prepared.prepared_at_unix_ms > now_unix_ms
            || prepared.authorization_expires_at_unix_ms <= prepared.prepared_at_unix_ms {
            return Err(PrivilegedActivationError::TimestampOrderInvalid);
        }
        if now_unix_ms - prepared.prepared_at_unix_ms > self.policy.max_prepared_age_ms {
            return Err(PrivilegedActivationError::PreparedActivationStale);
        }
        if now_unix_ms - prepared.readiness_observed_at_unix_ms > self.policy.max_readiness_age_ms {
            return Err(PrivilegedActivationError::ReadinessStale);
        }
        if now_unix_ms >= prepared.authorization_expires_at_unix_ms {
            return Err(PrivilegedActivationError::AuthorizationExpired);
        }
        let plan = &prepared.plan;
        let (expected_effect, expected_argument) = match plan.action {
            SystemCandidateAction::PreviewActivation => (
                SystemEffectClass::PreviewHooks,
                "dry-activate",
            ),
            SystemCandidateAction::TestActivation => (
                SystemEffectClass::TemporaryLiveActivation,
                "test",
            ),
            other => {
                return Err(PrivilegedActivationError::UnsupportedAction(other));
            },
        };
        if plan.authority != SystemAuthorityClass::HostAdministrator {
            return Err(PrivilegedActivationError::AuthorityMismatch);
        }
        if plan.effect_class != expected_effect {
            return Err(PrivilegedActivationError::EffectClassMismatch);
        }
        if !valid_store_closure(plan.system_closure.as_str()) {
            return Err(PrivilegedActivationError::InvalidSystemClosure);
        }
        let expected_program = plan.system_closure.clone().concat("/bin/switch-to-configuration");
        if plan.program != expected_program {
            return Err(PrivilegedActivationError::ProgramMismatch);
        }
        if !(plan.args.len() == 1 && crate::text::str_eq(plan.args[0].as_str(), expected_argument)) {
            proof {
                if texts_view(plan.args@) == seq![activation_mode(plan.action)->0] {
                    assert(texts_view(plan.args@).len() == 1);
                    assert(texts_view(plan.args@)[0] == plan.args@[0]@);
                }
            }
            return Err(PrivilegedActivationError::ArgumentsMismatch);
        }
        assert(texts_view(plan.args@) =~= seq![activation_mode(plan.action)->0]);
        let authorization_evidence = prefixed("authorization:", prepared.authorization.as_str());
        let expires = decimal_text(prepared.authorization_expires_at_unix_ms);
        let expiry_evidence = prefixed("expires-at-unix-ms:", expires.as_str());
        let node_evidence = prefixed("node:", prepared.node.as_str());
        let observed = decimal_text(prepared.readiness_observed_at_unix_ms);
        let readiness_evidence = prefixed("observed-at-unix-ms:", observed.as_str());
        if !texts_contain(&prepared.authorization_evidence, &authorization_evidence)
            || !texts_contain(&prepared.authorization_evidence, &expiry_evidence) || !texts_contain(
            &prepared.readiness_evidence,
            &node_evidence,
        ) || !texts_contain(&prepared.readiness_evidence, &readiness_evidence) {
            return Err(PrivilegedActivationError::EvidenceMismatch);
        }
        Ok(())
    }

    /// Where an activation starts: a request that is not for this node or
    /// breaks a rule is refused at once; otherwise the candidate closure is
    /// canonicalized first.
    pub fn activation_start(&self, prepared: &PreparedPrivilegedActivation, now_unix_ms: u64) -> (r: ActivationNext)
        ensures
            start_ok(self.local(), self.runtime_policy(), prepared@, now_unix_ms, r),
            next_wf(prepared@, r),
            r matches ActivationNext::Call { stage, call } ==> stage_kind(stage) == call_kind(call)
                && stage_rank(stage) == 11 && valid_for(self.local(), self.runtime_policy(), prepared@, now_unix_ms),
    {
        match self.validate_prepared(prepared, now_unix_ms) {
            Ok(()) => {},
            Err(e) => {
                return ActivationNext::Done(Err(e));
            },
        }
        ActivationNext::Call {
            stage: ActivationStage::CheckCanonical,
            call: ActivationCall::Canonicalize(prepared.plan.system_closure.clone()),
        }
    }

    /// One step of an activation: given where it stands and what the last
    /// outside call answered, the next call to make or the result.
    pub fn activation_step(
        &self,
        prepared: &PreparedPrivilegedActivation,
        stage: ActivationStage,
        answer: ActivationAnswer,
    ) -> (r: ActivationNext)
        requires
            stage_kind(stage) == answer_kind(answer),
            prepared@.plan.args.len() == 1,
        ensures
            step_ok(prepared@, stage, answer, r),
            r matches ActivationNext::Call { stage: s2, call } ==> stage_kind(s2) == call_kind(call)
                && stage_rank(s2) < stage_rank(stage),
            stage_wf(prepared@, stage) ==> (r matches ActivationNext::Done(Err(e)) && early_refusal(e)
                ==> stage_rank(stage) >= 7),
            stage_wf(prepared@, stage) ==> next_wf(prepared@, r),
    {
        let plan = &prepared.plan;
        match stage {
            ActivationStage::CheckCanonical => match answer {
                ActivationAnswer::Path(Ok(c)) => {
                    if !same_path(c.as_str().as_bytes(), plan.system_closure.as_str().as_bytes()) {
                        return ActivationNext::Done(Err(PrivilegedActivationError::NonCanonicalSystemClosure));
                    }
                    ActivationNext::Call {
                        stage: ActivationStage::CheckCandidateExecutable,
                        call: ActivationCall::ExecutableExists(plan.program.clone()),
                    }
                },
                ActivationAnswer::Path(Err(m)) => ActivationNext::Done(Err(PrivilegedActivationError::HostObservation(m))),
                _ => ActivationNext::Done(Err(PrivilegedActivationError::HostObservation(String::new()))),
            },
            ActivationStage::CheckCandidateExecutable => match answer {
                ActivationAnswer::Exists(Ok(true)) => ActivationNext::Call {
                    stage: ActivationStage::ReadBefore,
                    call: ActivationCall::CurrentSystem,
                },
                ActivationAnswer::Exists(Ok(false)) => ActivationNext::Done(Err(PrivilegedActivationError::CandidateExecutableMissing)),
                ActivationAnswer::Exists(Err(m)) => ActivationNext::Done(Err(PrivilegedActivationError::HostObservation(m))),
                _ => ActivationNext::Done(Err(PrivilegedActivationError::HostObservation(String::new()))),
            },
            ActivationStage::ReadBefore => match answer {
                ActivationAnswer::Path(Ok(before)) => ActivationNext::Call {
                    stage: ActivationStage::ReadBootDefault { before },
                    call: ActivationCall::BootDefault,
                },
                ActivationAnswer::Path(Err(m)) => ActivationNext::Done(Err(PrivilegedActivationError::HostObservation(m))),
                _ => ActivationNext::Done(Err(PrivilegedActivationError::HostObservation(String::new()))),
            },
            ActivationStage::ReadBootDefault { before } => match answer {
                ActivationAnswer::Path(Ok(boot_default)) => {
                    if !valid_store_closure(before.as_str()) || !valid_store_closure(boot_default.as_str()) {
                        return ActivationNext::Done(Err(PrivilegedActivationError::InvalidSystemClosure));
                    }
                    if !same_path(before.as_str().as_bytes(), boot_default.as_str().as_bytes()) {
                        return ActivationNext::Done(Err(PrivilegedActivationError::CurrentSystemNotBootDefault));
                    }
                    let program = rollback_program(&before);
                    ActivationNext::Call {
                        stage: ActivationStage::CheckRollbackExecutable { before },
                        call: ActivationCall::ExecutableExists(program),
                    }
                },
                ActivationAnswer::Path(Err(m)) => ActivationNext::Done(Err(PrivilegedActivationError::HostObservation(m))),
                _ => ActivationNext::Done(Err(PrivilegedActivationError::HostObservation(String::new()))),
            },
            ActivationStage::CheckRollbackExecutable { before } => match answer {
                ActivationAnswer::Exists(Ok(true)) => ActivationNext::Call {
                    stage: ActivationStage::ConsumeLedger { before },
                    call: ActivationCall::ConsumeLedger {
                        authorization: prepared.authorization.clone(),
                        prepared_at_unix_ms: prepared.prepared_at_unix_ms,
                    },
                },
                ActivationAnswer::Exists(Ok(false)) => ActivationNext::Done(Err(PrivilegedActivationError::RollbackExecutableMissing)),
                ActivationAnswer::Exists(Err(m)) => ActivationNext::Done(Err(PrivilegedActivationError::HostObservation(m))),
                _ => ActivationNext::Done(Err(PrivilegedActivationError::HostObservation(String::new()))),
            },
            ActivationStage::ConsumeLedger { before } => match answer {
                ActivationAnswer::Ledger(Ok(())) => {
                    assert(texts_view(plan.args@).len() == 1);
                    ActivationNext::Call {
                        stage: ActivationStage::RunCandidate { before },
                        call: ActivationCall::Run { program: plan.program.clone(), argument: plan.args[0].clone() },
                    }
                },
                ActivationAnswer::Ledger(Err(e)) => ActivationNext::Done(Err(PrivilegedActivationError::ExecutionLedger(e))),
                _ => ActivationNext::Done(Err(PrivilegedActivationError::HostObservation(String::new()))),
            },
            ActivationStage::RunCandidate { before } => match answer {
                ActivationAnswer::Ran(Ok(command)) => ActivationNext::Call {
                    stage: ActivationStage::ReadAfter { before, command },
                    call: ActivationCall::CurrentSystem,
                },
                ActivationAnswer::Ran(Err(m)) => ActivationNext::Done(Err(PrivilegedActivationError::Spawn(m))),
                _ => ActivationNext::Done(Err(PrivilegedActivationError::HostObservation(String::new()))),
            },
            ActivationStage::ReadAfter { before, command } => match answer {
                ActivationAnswer::Path(Ok(after)) => {
                    if !valid_store_closure(after.as_str()) {
                        return ActivationNext::Done(Err(PrivilegedActivationError::InvalidSystemClosure));
                    }
                    let failure = match plan.action {
                        SystemCandidateAction::PreviewActivation => {
                            if same_path(after.as_str().as_bytes(), before.as_str().as_bytes()) {
                                return ActivationNext::Done(Ok(self.report(prepared, before, after, command, false)));
                            }
                            Some(PrivilegedActivationError::UnexpectedLiveSystemChange)
                        },
                        _ => {
                            if command.succeeded() {
                                if same_path(after.as_str().as_bytes(), plan.system_closure.as_str().as_bytes()) {
                                    return ActivationNext::Done(Ok(self.report(prepared, before, after, command, false)));
                                }
                                Some(PrivilegedActivationError::TestActivationPostconditionFailed)
                            } else {
                                None
                            }
                        },
                    };
                    let program = rollback_program(&before);
                    ActivationNext::Call {
                        stage: ActivationStage::RunRollback { before, command, failure },
                        call: ActivationCall::Run { program, argument: "test".to_owned() },
                    }
                },
                ActivationAnswer::Path(Err(m)) => ActivationNext::Done(Err(PrivilegedActivationError::HostObservation(m))),
                _ => ActivationNext::Done(Err(PrivilegedActivationError::HostObservation(String::new()))),
            },
            ActivationStage::RunRollback { before, command, failure } => match answer {
                ActivationAnswer::Ran(Ok(rollback)) => {
                    if !rollback.succeeded() {
                        return ActivationNext::Done(Err(PrivilegedActivationError::RollbackFailed));
                    }
                    ActivationNext::Call {
                        stage: ActivationStage::CheckRestored { before, command, failure },
                        call: ActivationCall::CurrentSystem,
                    }
                },
                ActivationAnswer::Ran(Err(m)) => ActivationNext::Done(Err(PrivilegedActivationError::Spawn(m))),
                _ => ActivationNext::Done(Err(PrivilegedActivationError::HostObservation(String::new()))),
            },
            ActivationStage::CheckRestored { before, command, failure } => match answer {
                ActivationAnswer::Path(Ok(restored)) => {
                    if !same_path(restored.as_str().as_bytes(), before.as_str().as_bytes()) {
                        return ActivationNext::Done(Err(PrivilegedActivationError::RollbackFailed));
                    }
                    match failure {
                        Some(e) => ActivationNext::Done(Err(e)),
                        None => ActivationNext::Call {
                            stage: ActivationStage::ReadAfterRollback { before, command },
                            call: ActivationCall::CurrentSystem,
                        },
                    }
                },
                ActivationAnswer::Path(Err(m)) => ActivationNext::Done(Err(PrivilegedActivationError::HostObservation(m))),
                _ => ActivationNext::Done(Err(PrivilegedActivationError::HostObservation(String::new()))),
            },
            ActivationStage::ReadAfterRollback { before, command } => match answer {
                ActivationAnswer::Path(Ok(after)) => ActivationNext::Done(Ok(self.report(prepared, before, after, command, true))),
                ActivationAnswer::Path(Err(m)) => ActivationNext::Done(Err(PrivilegedActivationError::HostObservation(m))),
                _ => ActivationNext::Done(Err(PrivilegedActivationError::HostObservation(String::new()))),
            },
        }
    }

    fn report(
        &self,
        prepared: &PreparedPrivilegedActivation,
        before: String,
        after: String,
        command: PrivilegedCommandOutcome,
        rolled_back: bool,
    ) -> (x: PrivilegedActivationExecution)
        ensures
            execution_of(prepared@, x, before, after, command, rolled_back),
    {
        PrivilegedActivationExecution {
            node: prepared.node.clone(),
            authorization: prepared.authorization.clone(),
            action: prepared.plan.action,
            before_system_closure: before,
            after_system_closure: after,
            command,
            rollback_attempted: rolled_back,
            rollback_succeeded: rolled_back,
        }
    }

    /// Runs a prepared activation on this host by driving `activation_start`
    /// and `activation_step`, making each outside call they ask for. Whatever
    /// the host reports, a request that fails validation is refused before the
    /// replay ledger is touched; a preview that succeeds left the live system
    /// where it was; a test activation that succeeds ends on exactly the
    /// candidate closure; and a failed test activation is reported only once the
    /// baseline is restored.
    pub fn execute<H: NixOsActivationHost, R: PrivilegedCommandRunner, L: PrivilegedExecutionLedger>(
        &self,
        prepared: &PreparedPrivilegedActivation,
        now_unix_ms: u64,
        host: &H,
        runner: &R,
        ledger: &mut L,
    ) -> (r: Result<PrivilegedActivationExecution, PrivilegedActivationError>)
        ensures
            exists|nexts: Seq<ActivationNext>, answers: Seq<ActivationAnswer>|
                activation_run(self.local(), self.runtime_policy(), prepared@, now_unix_ms, nexts, answers)
                && nexts.last() == ActivationNext::Done(r),
            prepared.node@ != self.local() ==> (r matches Err(
                PrivilegedActivationError::NodeMismatch { expected, prepared: q },
            ) && expected@ == self.local() && q@ == prepared.node@),
            prepared.node@ == self.local() ==> (activation_defect(
                self.runtime_policy(),
                prepared@,
                now_unix_ms,
            ) matches Some(e) ==> r == Err::<PrivilegedActivationExecution, PrivilegedActivationError>(
                e,
            )),
            !valid_for(self.local(), self.runtime_policy(), prepared@, now_unix_ms) ==> *final(ledger) == *old(ledger),
            (r matches Err(e) && early_refusal(e)) ==> *final(ledger) == *old(ledger),
            r matches Ok(x) ==> valid_for(self.local(), self.runtime_policy(), prepared@, now_unix_ms)
                && ok_report(prepared@, x),
    {
        let mut next = self.activation_start(prepared, now_unix_ms);
        let ghost mut nexts: Seq<ActivationNext> = seq![next];
        let ghost mut answers: Seq<ActivationAnswer> = Seq::empty();
        loop
            invariant
                nexts.len() == answers.len() + 1,
                nexts.last() == next,
                activation_run(self.local(), self.runtime_policy(), prepared@, now_unix_ms, nexts, answers),
                next_wf(prepared@, next),
                !valid_for(self.local(), self.runtime_policy(), prepared@, now_unix_ms) ==> (next is Done
                    && *ledger == *old(ledger)),
                next matches ActivationNext::Call { stage, call } ==> stage_kind(stage) == call_kind(call)
                    && valid_for(self.local(), self.runtime_policy(), prepared@, now_unix_ms)
                    && (stage_rank(stage) >= 6 ==> *ledger == *old(ledger)),
                next matches ActivationNext::Done(Err(e)) && early_refusal(e) ==> *ledger == *old(ledger),
                next matches ActivationNext::Done(Ok(_)) ==> valid_for(self.local(), self.runtime_policy(), prepared@, now_unix_ms),
                prepared.node@ != self.local() ==> next == nexts[0],
                prepared.node@ == self.local() && activation_defect(self.runtime_policy(), prepared@, now_unix_ms) is Some ==> next == nexts[0],
            decreases next_rank(next),
        {
            match next {
                ActivationNext::Done(r) => {
                    return r;
                },
                ActivationNext::Call { stage, call } => {
                    let ghost cur = ActivationNext::Call { stage, call };
                    assert(texts_view(prepared.plan.args@).len() == 1);
                    let answer = perform(&call, host, runner, ledger);
                    let n = self.activation_step(prepared, stage, answer);
                    proof {
                        let old_nexts = nexts;
                        let old_answers = answers;
                        assert(old_nexts.last() == cur);
                        answers = old_answers.push(answer);
                        nexts = old_nexts.push(n);
                        assert(nexts[0] == old_nexts[0]);
                        assert forall|i: int| #![trigger answers[i]] 0 <= i < answers.len() implies step_from(
                            prepared@,
                            nexts[i],
                            answers[i],
                            nexts[i + 1],
                        ) by {
                            if i < old_answers.len() {
                                assert(old_answers[i] == answers[i]);
                                assert(old_nexts[i] == nexts[i]);
                                assert(old_nexts[i + 1] == nexts[i + 1]);
                            } else {
                                assert(i == old_nexts.len() - 1);
                                assert(nexts[i] == cur);
                                assert(nexts[i + 1] == n);
                            }
                        }
                    }
                    next = n;
                },
            }
        }
    }
}

/// The outside calls an activation makes, each asked by `activation_step`.
pub enum ActivationCall {
    Canonicalize(String),
    ExecutableExists(String),
    CurrentSystem,
    BootDefault,
    ConsumeLedger { authorization: String, prepared_at_unix_ms: u64 },
    Run { program: String, argument: String },
}

/// What an outside call answered.
pub enum ActivationAnswer {
    Path(Result<String, String>),
    Exists(Result<bool, String>),
    Ledger(Result<(), PrivilegedExecutionLedgerError>),
    Ran(Result<PrivilegedCommandOutcome, String>),
}

/// Where an activation stands between two outside calls, with what it
/// observed so far. A rollback remembers the refusal to report once the
/// baseline is back (`None`: a failed test activation, reported as such).
pub enum ActivationStage {
    CheckCanonical,
    CheckCandidateExecutable,
    ReadBefore,
    ReadBootDefault { before: String },
    CheckRollbackExecutable { before: String },
    ConsumeLedger { before: String },
    RunCandidate { before: String },
    ReadAfter { before: String, command: PrivilegedCommandOutcome },
    RunRollback { before: String, command: PrivilegedCommandOutcome, failure: Option<PrivilegedActivationError> },
    CheckRestored { before: String, command: PrivilegedCommandOutcome, failure: Option<PrivilegedActivationError> },
    ReadAfterRollback { before: String, command: PrivilegedCommandOutcome },
}

/// The next outside call, or the result of the activation.
pub enum ActivationNext {
    Call { stage: ActivationStage, call: ActivationCall },
    Done(Result<PrivilegedActivationExecution, PrivilegedActivationError>),
}

/// The switch program of the recorded baseline, the one a rollback runs.
pub open spec fn rollback_program_bytes(before: Seq<char>) -> Seq<u8> {
    join(utf8(before), utf8("bin/switch-to-configuration"@))
}

/// Two closure paths name the same place.
pub open spec fn same_place(a: Seq<char>, b: Seq<char>) -> bool {
    path_parts(utf8(a)) == path_parts(utf8(b))
}

fn rollback_program(before: &String) -> (r: String)
    ensures
        utf8(r@) == rollback_program_bytes(before@),
{
    proof {
        vstd::utf8::encode_utf8_valid_utf8("bin/switch-to-configuration"@);
    }
    join_name(before.as_str(), "bin/switch-to-configuration".as_bytes())
}

pub open spec fn answer_kind(a: ActivationAnswer) -> int {
    match a {
        ActivationAnswer::Path(_) => 0,
        ActivationAnswer::Exists(_) => 1,
        ActivationAnswer::Ledger(_) => 2,
        ActivationAnswer::Ran(_) => 3,
    }
}

pub open spec fn call_kind(c: ActivationCall) -> int {
    match c {
        ActivationCall::Canonicalize(_) => 0,
        ActivationCall::CurrentSystem => 0,
        ActivationCall::BootDefault => 0,
        ActivationCall::ExecutableExists(_) => 1,
        ActivationCall::ConsumeLedger { .. } => 2,
        ActivationCall::Run { .. } => 3,
    }
}

/// The kind of answer a stage waits for.
pub open spec fn stage_kind(s: ActivationStage) -> int {
    match s {
        ActivationStage::CheckCanonical => 0,
        ActivationStage::CheckCandidateExecutable => 1,
        ActivationStage::ReadBefore => 0,
        ActivationStage::ReadBootDefault { .. } => 0,
        ActivationStage::CheckRollbackExecutable { .. } => 1,
        ActivationStage::ConsumeLedger { .. } => 2,
        ActivationStage::RunCandidate { .. } => 3,
        ActivationStage::ReadAfter { .. } => 0,
        ActivationStage::RunRollback { .. } => 3,
        ActivationStage::CheckRestored { .. } => 0,
        ActivationStage::ReadAfterRollback { .. } => 0,
    }
}

/// Stages in the order an activation passes them, last first.
pub open spec fn stage_rank(s: ActivationStage) -> nat {
    match s {
        ActivationStage::CheckCanonical => 11,
        ActivationStage::CheckCandidateExecutable => 10,
        ActivationStage::ReadBefore => 9,
        ActivationStage::ReadBootDefault { .. } => 8,
        ActivationStage::CheckRollbackExecutable { .. } => 7,
        ActivationStage::ConsumeLedger { .. } => 6,
        ActivationStage::RunCandidate { .. } => 5,
        ActivationStage::ReadAfter { .. } => 4,
        ActivationStage::RunRollback { .. } => 3,
        ActivationStage::CheckRestored { .. } => 2,
        ActivationStage::ReadAfterRollback { .. } => 1,
    }
}

pub open spec fn next_rank(n: ActivationNext) -> nat {
    match n {
        ActivationNext::Call { stage, .. } => stage_rank(stage),
        ActivationNext::Done(_) => 0,
    }
}

/// The refusals that come before the replay ledger is asked.
pub open spec fn early_refusal(e: PrivilegedActivationError) -> bool {
    e == PrivilegedActivationError::NonCanonicalSystemClosure
        || e == PrivilegedActivationError::CandidateExecutableMissing
        || e == PrivilegedActivationError::RollbackExecutableMissing
        || e == PrivilegedActivationError::CurrentSystemNotBootDefault
}

/// The request is for the local node and breaks no rule at `now`.
pub open spec fn valid_for(
    local: Seq<char>,
    policy: PrivilegedActivationRuntimePolicy,
    p: PreparedView,
    now: u64,
) -> bool {
    p.node == local && activation_defect(policy, p, now) is None
}

/// The report of an activation of `p` with these observations.
pub open spec fn execution_of(
    p: PreparedView,
    x: PrivilegedActivationExecution,
    before: String,
    after: String,
    command: PrivilegedCommandOutcome,
    rolled_back: bool,
) -> bool {
    &&& x.node@ == p.node
    &&& x.authorization@ == p.authorization
    &&& x.action == p.plan.action
    &&& x.before_system_closure == before
    &&& x.after_system_closure == after
    &&& x.command == command
    &&& x.rollback_attempted == rolled_back
    &&& x.rollback_succeeded == rolled_back
}

/// What every successful report promises.
pub open spec fn ok_report(p: PreparedView, x: PrivilegedActivationExecution) -> bool {
    &&& x.node@ == p.node
    &&& x.authorization@ == p.authorization
    &&& x.action == p.plan.action
    &&& is_exact_store_path(utf8(x.before_system_closure@))
    &&& x.action == SystemCandidateAction::PreviewActivation ==> same_place(
        x.after_system_closure@,
        x.before_system_closure@,
    ) && !x.rollback_attempted && !x.rollback_succeeded
    &&& (x.action == SystemCandidateAction::TestActivation && x.command.status
        == PrivilegedActivationCommandStatus::Succeeded) ==> same_place(
        x.after_system_closure@,
        p.plan.system_closure,
    ) && !x.rollback_attempted && !x.rollback_succeeded
    &&& (x.action == SystemCandidateAction::TestActivation && x.command.status
        != PrivilegedActivationCommandStatus::Succeeded) ==> x.rollback_attempted
        && x.rollback_succeeded
}

/// What holds of the observations a stage carries.
pub open spec fn stage_wf(p: PreparedView, s: ActivationStage) -> bool {
    match s {
        ActivationStage::CheckRollbackExecutable { before } => is_exact_store_path(utf8(before@)),
        ActivationStage::ConsumeLedger { before } => is_exact_store_path(utf8(before@)),
        ActivationStage::RunCandidate { before } => is_exact_store_path(utf8(before@)),
        ActivationStage::ReadAfter { before, .. } => is_exact_store_path(utf8(before@)),
        ActivationStage::RunRollback { before, command, failure } => is_exact_store_path(utf8(before@))
            && (failure matches Some(e) ==> !early_refusal(e))
            && (failure is None ==> p.plan.action != SystemCandidateAction::PreviewActivation
            && command.status != PrivilegedActivationCommandStatus::Succeeded),
        ActivationStage::CheckRestored { before, command, failure } => is_exact_store_path(utf8(before@))
            && (failure matches Some(e) ==> !early_refusal(e))
            && (failure is None ==> p.plan.action != SystemCandidateAction::PreviewActivation
            && command.status != PrivilegedActivationCommandStatus::Succeeded),
        ActivationStage::ReadAfterRollback { before, command } => is_exact_store_path(utf8(before@))
            && p.plan.action != SystemCandidateAction::PreviewActivation
            && command.status != PrivilegedActivationCommandStatus::Succeeded,
        _ => true,
    }
}

pub open spec fn next_wf(p: PreparedView, n: ActivationNext) -> bool {
    match n {
        ActivationNext::Call { stage, .. } => stage_wf(p, stage),
        ActivationNext::Done(Ok(x)) => ok_report(p, x),
        ActivationNext::Done(Err(_)) => true,
    }
}

/// How an activation starts.
pub open spec fn start_ok(
    local: Seq<char>,
    policy: PrivilegedActivationRuntimePolicy,
    p: PreparedView,
    now: u64,
    n: ActivationNext,
) -> bool {
    if p.node != local {
        n matches ActivationNext::Done(Err(PrivilegedActivationError::NodeMismatch { expected, prepared: q }))
            && expected@ == local && q@ == p.node
    } else {
        match activation_defect(policy, p, now) {
            Some(e) => n == ActivationNext::Done(Err(e)),
            None => n matches ActivationNext::Call {
                stage: ActivationStage::CheckCanonical,
                call: ActivationCall::Canonicalize(c),
            } && c@ == p.plan.system_closure,
        }
    }
}

/// The rollback of a test or preview: the baseline's own switch program, run
/// temporarily, remembering what to report once the baseline is back.
pub open spec fn asks_rollback(
    n: ActivationNext,
    before: String,
    command: PrivilegedCommandOutcome,
    failure: Option<PrivilegedActivationError>,
) -> bool {
    n matches ActivationNext::Call {
        stage: ActivationStage::RunRollback { before: b, command: c, failure: f },
        call: ActivationCall::Run { program, argument },
    } && b == before && c == command && f == failure && utf8(program@) == rollback_program_bytes(before@)
        && argument@ == "test"@
}

/// One step of an activation of `p`: from stage `s`, given the answer `a` of
/// the call the stage made, the next call (with the stage it leads to) or the
/// result.
pub open spec fn step_ok(p: PreparedView, s: ActivationStage, a: ActivationAnswer, n: ActivationNext) -> bool {
    match s {
        ActivationStage::CheckCanonical => match a {
            ActivationAnswer::Path(Ok(c)) => if same_place(c@, p.plan.system_closure) {
                n matches ActivationNext::Call {
                    stage: ActivationStage::CheckCandidateExecutable,
                    call: ActivationCall::ExecutableExists(x),
                } && x@ == p.plan.program
            } else {
                n == ActivationNext::Done(Err(PrivilegedActivationError::NonCanonicalSystemClosure))
            },
            ActivationAnswer::Path(Err(m)) => n == ActivationNext::Done(Err(PrivilegedActivationError::HostObservation(m))),
            _ => false,
        },
        ActivationStage::CheckCandidateExecutable => match a {
            ActivationAnswer::Exists(Ok(true)) => n == ActivationNext::Call {
                stage: ActivationStage::ReadBefore,
                call: ActivationCall::CurrentSystem,
            },
            ActivationAnswer::Exists(Ok(false)) => n == ActivationNext::Done(Err(PrivilegedActivationError::CandidateExecutableMissing)),
            ActivationAnswer::Exists(Err(m)) => n == ActivationNext::Done(Err(PrivilegedActivationError::HostObservation(m))),
            _ => false,
        },
        ActivationStage::ReadBefore => match a {
            ActivationAnswer::Path(Ok(before)) => n == ActivationNext::Call {
                stage: ActivationStage::ReadBootDefault { before },
                call: ActivationCall::BootDefault,
            },
            ActivationAnswer::Path(Err(m)) => n == ActivationNext::Done(Err(PrivilegedActivationError::HostObservation(m))),
            _ => false,
        },
        ActivationStage::ReadBootDefault { before } => match a {
            ActivationAnswer::Path(Ok(boot_default)) => if !is_exact_store_path(utf8(before@))
                || !is_exact_store_path(utf8(boot_default@)) {
                n == ActivationNext::Done(Err(PrivilegedActivationError::InvalidSystemClosure))
            } else if !same_place(before@, boot_default@) {
                n == ActivationNext::Done(Err(PrivilegedActivationError::CurrentSystemNotBootDefault))
            } else {
                n matches ActivationNext::Call {
                    stage: ActivationStage::CheckRollbackExecutable { before: b },
                    call: ActivationCall::ExecutableExists(x),
                } && b == before && utf8(x@) == rollback_program_bytes(before@)
            },
            ActivationAnswer::Path(Err(m)) => n == ActivationNext::Done(Err(PrivilegedActivationError::HostObservation(m))),
            _ => false,
        },
        ActivationStage::CheckRollbackExecutable { before } => match a {
            ActivationAnswer::Exists(Ok(true)) => n matches ActivationNext::Call {
                stage: ActivationStage::ConsumeLedger { before: b },
                call: ActivationCall::ConsumeLedger { authorization, prepared_at_unix_ms },
            } && b == before && authorization@ == p.authorization && prepared_at_unix_ms == p.prepared_at_unix_ms,
            ActivationAnswer::Exists(Ok(false)) => n == ActivationNext::Done(Err(PrivilegedActivationError::RollbackExecutableMissing)),
            ActivationAnswer::Exists(Err(m)) => n == ActivationNext::Done(Err(PrivilegedActivationError::HostObservation(m))),
            _ => false,
        },
        ActivationStage::ConsumeLedger { before } => match a {
            ActivationAnswer::Ledger(Ok(())) => n matches ActivationNext::Call {
                stage: ActivationStage::RunCandidate { before: b },
                call: ActivationCall::Run { program, argument },
            } && b == before && program@ == p.plan.program && argument@ == p.plan.args[0],
            ActivationAnswer::Ledger(Err(e)) => n == ActivationNext::Done(Err(PrivilegedActivationError::ExecutionLedger(e))),
            _ => false,
        },
        ActivationStage::RunCandidate { before } => match a {
            ActivationAnswer::Ran(Ok(command)) => n == ActivationNext::Call {
                stage: ActivationStage::ReadAfter { before, command },
                call: ActivationCall::CurrentSystem,
            },
            ActivationAnswer::Ran(Err(m)) => n == ActivationNext::Done(Err(PrivilegedActivationError::Spawn(m))),
            _ => false,
        },
        ActivationStage::ReadAfter { before, command } => match a {
            ActivationAnswer::Path(Ok(after)) => if !is_exact_store_path(utf8(after@)) {
                n == ActivationNext::Done(Err(PrivilegedActivationError::InvalidSystemClosure))
            } else if p.plan.action == SystemCandidateAction::PreviewActivation {
                if same_place(after@, before@) {
                    n matches ActivationNext::Done(Ok(x)) && execution_of(p, x, before, after, command, false)
                } else {
                    asks_rollback(n, before, command, Some(PrivilegedActivationError::UnexpectedLiveSystemChange))
                }
            } else if command.status == PrivilegedActivationCommandStatus::Succeeded {
                if same_place(after@, p.plan.system_closure) {
                    n matches ActivationNext::Done(Ok(x)) && execution_of(p, x, before, after, command, false)
                } else {
                    asks_rollback(n, before, command, Some(PrivilegedActivationError::TestActivationPostconditionFailed))
                }
            } else {
                asks_rollback(n, before, command, None)
            },
            ActivationAnswer::Path(Err(m)) => n == ActivationNext::Done(Err(PrivilegedActivationError::HostObservation(m))),
            _ => false,
        },
        ActivationStage::RunRollback { before, command, failure } => match a {
            ActivationAnswer::Ran(Ok(rollback)) => if rollback.status != PrivilegedActivationCommandStatus::Succeeded {
                n == ActivationNext::Done(Err(PrivilegedActivationError::RollbackFailed))
            } else {
                n == ActivationNext::Call {
                    stage: ActivationStage::CheckRestored { before, command, failure },
                    call: ActivationCall::CurrentSystem,
                }
            },
            ActivationAnswer::Ran(Err(m)) => n == ActivationNext::Done(Err(PrivilegedActivationError::Spawn(m))),
            _ => false,
        },
        ActivationStage::CheckRestored { before, command, failure } => match a {
            ActivationAnswer::Path(Ok(restored)) => if !same_place(restored@, before@) {
                n == ActivationNext::Done(Err(PrivilegedActivationError::RollbackFailed))
            } else {
                match failure {
                    Some(e) => n == ActivationNext::Done(Err(e)),
                    None => n == ActivationNext::Call {
                        stage: ActivationStage::ReadAfterRollback { before, command },
                        call: ActivationCall::CurrentSystem,
                    },
                }
            },
            ActivationAnswer::Path(Err(m)) => n == ActivationNext::Done(Err(PrivilegedActivationError::HostObservation(m))),
            _ => false,
        },
        ActivationStage::ReadAfterRollback { before, command } => match a {
            ActivationAnswer::Path(Ok(after)) => n matches ActivationNext::Done(Ok(x)) && execution_of(
                p,
                x,
                before,
                after,
                command,
                true,
            ),
            ActivationAnswer::Path(Err(m)) => n == ActivationNext::Done(Err(PrivilegedActivationError::HostObservation(m))),
            _ => false,
        },
    }
}

/// A run of an activation: it starts as `start_ok` says, each answer is the
/// answer to the call the previous step asked, and each step is `step_ok`.
pub open spec fn activation_run(
    local: Seq<char>,
    policy: PrivilegedActivationRuntimePolicy,
    p: PreparedView,
    now: u64,
    nexts: Seq<ActivationNext>,
    answers: Seq<ActivationAnswer>,
) -> bool {
    &&& nexts.len() == answers.len() + 1
    &&& start_ok(local, policy, p, now, nexts[0])
    &&& forall|i: int|
        #![trigger answers[i]]
        0 <= i < answers.len() ==> step_from(p, nexts[i], answers[i], nexts[i + 1])
}

/// A step from `cur`, which must have asked for a call.
pub open spec fn step_from(p: PreparedView, cur: ActivationNext, a: ActivationAnswer, n: ActivationNext) -> bool {
    match cur {
        ActivationNext::Call { stage, .. } => step_ok(p, stage, a, n),
        ActivationNext::Done(_) => false,
    }
}

fn perform<H: NixOsActivationHost, R: PrivilegedCommandRunner, L: PrivilegedExecutionLedger>(
    call: &ActivationCall,
    host: &H,
    runner: &R,
    ledger: &mut L,
) -> (a: ActivationAnswer)
    ensures
        answer_kind(a) == call_kind(*call),
        call_kind(*call) != 2 ==> *final(ledger) == *old(ledger),
{
    match call {
        ActivationCall::Canonicalize(path) => ActivationAnswer::Path(host.canonicalize_path(path.as_str())),
        ActivationCall::ExecutableExists(path) => ActivationAnswer::Exists(host.executable_exists(path.as_str())),
        ActivationCall::CurrentSystem => ActivationAnswer::Path(host.current_system_closure()),
        ActivationCall::BootDefault => ActivationAnswer::Path(host.boot_default_closure()),
        ActivationCall::ConsumeLedger { authorization, prepared_at_unix_ms } => ActivationAnswer::Ledger(
            ledger.consume_once(authorization.as_str(), *prepared_at_unix_ms),
        ),
        ActivationCall::Run { program, argument } => ActivationAnswer::Ran(runner.run(program.as_str(), argument.as_str())),
    }
}

} // verus!
