//! OS authorization of activations through polkit's `pkcheck`, and the
//! root-owned issuer that turns an exact, fresh grant into a trusted permit.
use vstd::prelude::*;
use crate::activation::{PreparedPrivilegedActivation, PreparedView};
use crate::fsmeta::{is_protected_directory, is_protected_file, protected_directory, protected_file, FileFacts};
use crate::ids::SystemAuthorizationId;
use crate::paths::{file_name, has_root, hex_name, join, join_name, path_file_name, split_on};
use crate::permit::{
    lemma_ascii_chars_injective, lemma_permit_text_injective, permit_of, permit_text, TrustedActivationPermit,
    PermitView, DEFAULT_TRUSTED_PERMIT_ROOT,
};
use crate::privileged_helper::{
    activation_defect, PrivilegedActivationError, PrivilegedActivationRuntimePolicy,
    PrivilegedNixOsActivationHelper,
};
use crate::system::SystemCandidateAction;
use crate::text::{ascii_chars, bytes_equal, hex_of_text, is_alnum, texts_view, utf8};

verus! {

pub const PREVIEW_POLKIT_ACTION_ID: &'static str = "org.theblob.nixos.preview-activation";

pub const TEST_POLKIT_ACTION_ID: &'static str = "org.theblob.nixos.test-activation";

pub const DEFAULT_MAX_POLKIT_GRANT_AGE_MS: u64 = 60000;

/// The polkit actions an activation can ask for.
#[derive(Clone, Copy, Debug, PartialEq, Eq, Structural)]
pub enum PolkitActivationAction {
    PreviewActivation,
    TestActivation,
}

pub open spec fn polkit_action_id(a: PolkitActivationAction) -> Seq<char> {
    match a {
        PolkitActivationAction::PreviewActivation => PREVIEW_POLKIT_ACTION_ID@,
        PolkitActivationAction::TestActivation => TEST_POLKIT_ACTION_ID@,
    }
}

/// The polkit action of an activation action, if it has one.
pub open spec fn polkit_action_of(action: SystemCandidateAction) -> Option<PolkitActivationAction> {
    match action {
        SystemCandidateAction::PreviewActivation => Some(PolkitActivationAction::PreviewActivation),
        SystemCandidateAction::TestActivation => Some(PolkitActivationAction::TestActivation),
        _ => None,
    }
}

#[derive(Clone, Debug, PartialEq, Eq)]
pub enum PolkitAuthorizationError {
    InvalidSystemBusName,
    InvalidPkcheckProgram,
    UnsupportedAction(SystemCandidateAction),
    Denied(String),
    NoAuthenticationAgent(String),
    Dismissed(String),
    CheckFailed { exit_code: Option<i32>, stderr: String },
    Spawn(String),
}

impl PolkitActivationAction {
    pub fn action_id(self) -> (r: &'static str)
        ensures
            r@ == polkit_action_id(self),
    {
        match self {
            PolkitActivationAction::PreviewActivation => PREVIEW_POLKIT_ACTION_ID,
            PolkitActivationAction::TestActivation => TEST_POLKIT_ACTION_ID,
        }
    }

    pub fn from_prepared(prepared: &PreparedPrivilegedActivation) -> (r: Result<Self, PolkitAuthorizationError>)
        ensures
            match polkit_action_of(prepared.plan.action) {
                Some(a) => r == Ok::<Self, PolkitAuthorizationError>(a),
                None => r == Err::<Self, PolkitAuthorizationError>(
                    PolkitAuthorizationError::UnsupportedAction(prepared.plan.action),
                ),
            },
    {
        match prepared.plan.action {
            SystemCandidateAction::PreviewActivation => Ok(PolkitActivationAction::PreviewActivation),
            SystemCandidateAction::TestActivation => Ok(PolkitActivationAction::TestActivation),
            other => Err(PolkitAuthorizationError::UnsupportedAction(other)),
        }
    }
}

// ---------------------------------------------------------------------------
// Unique system-bus names
// ---------------------------------------------------------------------------

pub open spec fn bus_byte(b: u8) -> bool {
    is_alnum(b) || b == 95 || b == 45
}

/// A nonempty element of letters, digits, `_` and `-`.
pub open spec fn bus_element(p: Seq<u8>) -> bool {
    p.len() > 0 && forall|i: int| 0 <= i < p.len() ==> #[trigger] bus_byte(p[i])
}

/// A unique connection name such as `:1.42`: 4 to 255 bytes, `:` and at
/// least two dot-separated elements.
pub open spec fn unique_bus_name(b: Seq<u8>) -> bool {
    &&& 4 <= b.len() <= 255
    &&& b[0] == 58
    &&& split_on(b.skip(1), 46).len() >= 2
    &&& forall|k: int|
        0 <= k < split_on(b.skip(1), 46).len() ==> #[trigger] bus_element(split_on(b.skip(1), 46)[k])
}

/// Whether `name` is a unique system-bus connection name.
pub fn valid_unique_system_bus_name(name: &str) -> (r: bool)
    ensures
        r == unique_bus_name(utf8(name@)),
{
    let b = name.as_bytes();
    if b.len() < 4 || b.len() > 255 || b[0] != 58 {
        return false;
    }
    let ghost rest = b@.skip(1);
    let mut i: usize = 1;
    let mut elements: usize = 1;
    let mut current: usize = 0;
    while i < b.len()
        invariant
            1 <= i <= b.len(),
            b@ == utf8(name@),
            4 <= b@.len() <= 255,
            b@[0] == 58,
            rest == b@.skip(1),
            elements == split_on(rest.take(i - 1), 46).len(),
            current == split_on(rest.take(i - 1), 46).last().len(),
            forall|k: int|
                0 <= k < split_on(rest.take(i - 1), 46).len() - 1 ==> #[trigger] bus_element(
                    split_on(rest.take(i - 1), 46)[k],
                ),
            forall|j: int|
                0 <= j < split_on(rest.take(i - 1), 46).last().len() ==> #[trigger] bus_byte(
                    split_on(rest.take(i - 1), 46).last()[j],
                ),
            elements <= i,
            current < i,
        decreases b.len() - i,
    {
        let x = b[i];
        let ghost pre = rest.take(i - 1);
        let ghost now = rest.take(i as int);
        proof {
            assert(now.drop_last() =~= pre);
            assert(now.last() == x);
            crate::paths::lemma_split_on_nonempty(pre, 46);
        }
        if x == 46 {
            if current == 0 {
                proof {
                    let s = split_on(now, 46);
                    assert(s == split_on(pre, 46).push(Seq::<u8>::empty()));
                    assert(s[elements - 1] == split_on(pre, 46).last());
                    assert(!bus_element(s[elements - 1]));
                    assert(prefix_dead(s));
                    lemma_split_prefix_parts(rest, i as int);
                }
                return false;
            }
            elements = elements + 1;
            current = 0;
        } else {
            if !(crate::text::byte_is_alnum(x) || x == 95 || x == 45) {
                proof {
                    let s = split_on(now, 46);
                    assert(s == split_on(pre, 46).update(
                        split_on(pre, 46).len() - 1,
                        split_on(pre, 46).last().push(x),
                    ));
                    assert(s.last() == split_on(pre, 46).last().push(x));
                    assert(!bus_byte(s.last()[s.last().len() - 1]));
                    assert(prefix_dead(s));
                    lemma_split_prefix_parts(rest, i as int);
                }
                return false;
            }
            current = current + 1;
        }
        i = i + 1;
        proof {
            let s = split_on(now, 46);
            let p = split_on(pre, 46);
            if x == 46 {
                assert(s == p.push(Seq::<u8>::empty()));
                assert forall|k: int| 0 <= k < s.len() - 1 implies #[trigger] bus_element(s[k]) by {
                    if k < p.len() - 1 {
                        assert(s[k] == p[k]);
                    } else {
                        assert(s[k] == p.last());
                    }
                }
            } else {
                assert(s == p.update(p.len() - 1, p.last().push(x)));
                assert forall|k: int| 0 <= k < s.len() - 1 implies #[trigger] bus_element(s[k]) by {
                    assert(s[k] == p[k]);
                }
                assert forall|j: int| 0 <= j < s.last().len() implies #[trigger] bus_byte(
                    s.last()[j],
                ) by {
                    if j < p.last().len() {
                        assert(s.last()[j] == p.last()[j]);
                    }
                }
            }
        }
    }
    proof {
        assert(rest.take(b.len() - 1) =~= rest);
        crate::paths::lemma_split_on_nonempty(rest, 46);
    }
    let r = elements >= 2 && current > 0;
    proof {
        let s = split_on(rest, 46);
        if r {
            assert forall|k: int| 0 <= k < s.len() implies #[trigger] bus_element(s[k]) by {
                if k == s.len() - 1 {
                    assert(s[k] == s.last());
                }
            }
        } else if elements >= 2 {
            assert(!bus_element(s[s.len() - 1]));
        }
    }
    r
}

/// The elements of a name's prefix already rule the name out: a finished
/// element is not valid, or the unfinished one holds a byte no element may.
pub open spec fn prefix_dead(s: Seq<Seq<u8>>) -> bool {
    ||| exists|k: int| 0 <= k < s.len() - 1 && !#[trigger] bus_element(s[k])
    ||| exists|j: int| 0 <= j < s.last().len() && !#[trigger] bus_byte(s.last()[j])
}

/// A prefix that rules the name out rules it out for every continuation.
proof fn lemma_split_prefix_parts(rest: Seq<u8>, i: int)
    requires
        1 <= i <= rest.len(),
        prefix_dead(split_on(rest.take(i), 46)),
    ensures
        !(forall|k: int|
            0 <= k < split_on(rest, 46).len() ==> #[trigger] bus_element(split_on(rest, 46)[k])),
    decreases rest.len() - i,
{
    let a = rest.take(i);
    crate::paths::lemma_split_on_nonempty(a, 46);
    let sa = split_on(a, 46);
    if i < rest.len() {
        let b = rest.take(i + 1);
        assert(b.drop_last() =~= a);
        let sb = split_on(b, 46);
        if exists|k: int| 0 <= k < sa.len() - 1 && !#[trigger] bus_element(sa[k]) {
            let k = choose|k: int| 0 <= k < sa.len() - 1 && !#[trigger] bus_element(sa[k]);
            if b.last() == 46 {
                assert(sb == sa.push(Seq::<u8>::empty()));
                assert(sb[k] == sa[k]);
            } else {
                assert(sb == sa.update(sa.len() - 1, sa.last().push(b.last())));
                assert(sb[k] == sa[k]);
            }
            assert(prefix_dead(sb));
        } else {
            let j = choose|j: int| 0 <= j < sa.last().len() && !#[trigger] bus_byte(sa.last()[j]);
            if b.last() == 46 {
                assert(sb == sa.push(Seq::<u8>::empty()));
                assert(sb[sa.len() - 1] == sa.last());
                assert(!bus_element(sb[sa.len() - 1]));
            } else {
                assert(sb == sa.update(sa.len() - 1, sa.last().push(b.last())));
                assert(sb.last()[j] == sa.last()[j]);
            }
            assert(prefix_dead(sb));
        }
        lemma_split_prefix_parts(rest, i + 1);
    } else {
        assert(a =~= rest);
        if exists|k: int| 0 <= k < sa.len() - 1 && !#[trigger] bus_element(sa[k]) {
        } else {
            let j = choose|j: int| 0 <= j < sa.last().len() && !#[trigger] bus_byte(sa.last()[j]);
            assert(!bus_element(sa[sa.len() - 1]));
        }
    }
}

// ---------------------------------------------------------------------------
// Requests, check plans and grants
// ---------------------------------------------------------------------------

/// What an unprivileged caller asks polkit to authorize: a prepared
/// activation, bound to its exact permit and to the caller's bus name.
#[derive(Clone, Debug, PartialEq, Eq)]
pub struct PolkitAuthorizationRequest {
    system_bus_name: String,
    action: PolkitActivationAction,
    approved_permit: TrustedActivationPermit,
}

impl PolkitAuthorizationRequest {
    pub closed spec fn bus_name_spec(&self) -> Seq<char> {
        self.system_bus_name@
    }

    pub closed spec fn action_spec(&self) -> PolkitActivationAction {
        self.action
    }

    pub closed spec fn permit_spec(&self) -> PermitView {
        self.approved_permit@
    }

    /// A request for `prepared` from the connection `system_bus_name`.
    pub fn for_prepared(system_bus_name: &str, prepared: &PreparedPrivilegedActivation) -> (r: Result<Self, PolkitAuthorizationError>)
        ensures
            !unique_bus_name(utf8(system_bus_name@)) ==> r == Err::<Self, PolkitAuthorizationError>(
                PolkitAuthorizationError::InvalidSystemBusName,
            ),
            unique_bus_name(utf8(system_bus_name@)) ==> match polkit_action_of(prepared.plan.action) {
                None => r == Err::<Self, PolkitAuthorizationError>(
                    PolkitAuthorizationError::UnsupportedAction(prepared.plan.action),
                ),
                Some(a) => r matches Ok(q) && q.bus_name_spec() == system_bus_name@ && q.action_spec()
                    == a && q.permit_spec() == permit_of(prepared@),
            },
    {
        if !valid_unique_system_bus_name(system_bus_name) {
            return Err(PolkitAuthorizationError::InvalidSystemBusName);
        }
        let action = PolkitActivationAction::from_prepared(prepared)?;
        Ok(
            PolkitAuthorizationRequest {
                system_bus_name: system_bus_name.to_owned(),
                action,
                approved_permit: TrustedActivationPermit::from_prepared(prepared),
            },
        )
    }

    pub fn system_bus_name(&self) -> (r: &str)
        ensures
            r@ == self.bus_name_spec(),
    {
        self.system_bus_name.as_str()
    }

    pub fn action(&self) -> (r: PolkitActivationAction)
        ensures
            r == self.action_spec(),
    {
        self.action
    }

    pub fn approved_permit(&self) -> (r: &TrustedActivationPermit)
        ensures
            r@ == self.permit_spec(),
    {
        &self.approved_permit
    }
}

/// `pkcheck` given by absolute path and by that exact file name.
pub open spec fn pkcheck_program_ok(p: Seq<char>) -> bool {
    has_root(utf8(p)) && file_name(utf8(p)) == Some(utf8("pkcheck"@))
}

fn check_pkcheck_program(program: &str) -> (r: bool)
    ensures
        r == pkcheck_program_ok(program@),
{
    let b = program.as_bytes();
    if !(b.len() > 0 && b[0] == 47) {
        return false;
    }
    match path_file_name(b) {
        Some(n) => bytes_equal(n.as_slice(), "pkcheck".as_bytes()),
        None => false,
    }
}

/// The arguments of a check: the action, the caller's bus name, user
/// interaction, and the details an authentication agent shows.
pub open spec fn check_args(bus: Seq<char>, action: PolkitActivationAction, permit: PermitView) -> Seq<Seq<char>> {
    seq![
        "--action-id"@,
        polkit_action_id(action),
        "--system-bus-name"@,
        bus,
        "--allow-user-interaction"@,
        "--detail"@,
        "theblob_node"@,
        permit.node,
        "--detail"@,
        "theblob_candidate"@,
        permit.candidate,
        "--detail"@,
        "theblob_system_spec"@,
        permit.system_spec,
        "--detail"@,
        "theblob_action"@,
        polkit_action_id(action),
        "--detail"@,
        "theblob_system_closure"@,
        permit.system_closure,
    ]
}

/// The exact `pkcheck` invocation for a request.
#[derive(Clone, Debug, PartialEq, Eq)]
pub struct PolkitCheckPlan {
    pub program: String,
    pub args: Vec<String>,
}

impl PolkitCheckPlan {
    pub fn new(pkcheck_program: &str, request: &PolkitAuthorizationRequest) -> (r: Result<Self, PolkitAuthorizationError>)
        ensures
            !pkcheck_program_ok(pkcheck_program@) ==> r == Err::<Self, PolkitAuthorizationError>(
                PolkitAuthorizationError::InvalidPkcheckProgram,
            ),
            pkcheck_program_ok(pkcheck_program@) ==> (r matches Ok(p) && p.program@
                == pkcheck_program@ && texts_view(p.args@) == check_args(
                request.bus_name_spec(),
                request.action_spec(),
                request.permit_spec(),
            )),
    {
        if !check_pkcheck_program(pkcheck_program) {
            return Err(PolkitAuthorizationError::InvalidPkcheckProgram);
        }
        let permit = request.approved_permit();
        let id = request.action().action_id();
        let mut args: Vec<String> = Vec::new();
        args.push("--action-id".to_owned());
        args.push(id.to_owned());
        args.push("--system-bus-name".to_owned());
        args.push(request.system_bus_name().to_owned());
        args.push("--allow-user-interaction".to_owned());
        args.push("--detail".to_owned());
        args.push("theblob_node".to_owned());
        args.push(permit.node.clone());
        args.push("--detail".to_owned());
        args.push("theblob_candidate".to_owned());
        args.push(permit.candidate.clone());
        args.push("--detail".to_owned());
        args.push("theblob_system_spec".to_owned());
        args.push(permit.system_spec.clone());
        args.push("--detail".to_owned());
        args.push("theblob_action".to_owned());
        args.push(id.to_owned());
        args.push("--detail".to_owned());
        args.push("theblob_system_closure".to_owned());
        args.push(permit.system_closure.clone());
        assert(texts_view(args@) =~= check_args(
            request.bus_name_spec(),
            request.action_spec(),
            request.permit_spec(),
        ));
        Ok(PolkitCheckPlan { program: pkcheck_program.to_owned(), args })
    }
}

/// What one run of `pkcheck` reported.
#[derive(Clone, Debug, PartialEq, Eq)]
pub struct PkcheckCommandOutcome {
    pub exit_code: Option<i32>,
    pub stdout: String,
    pub stderr: String,
}

/// Runs a `pkcheck` plan.
pub trait PkcheckCommandRunner {
    fn run(&self, plan: &PolkitCheckPlan) -> Result<PkcheckCommandOutcome, String>;
}

/// A successful OS authorization. It has no public constructor: it comes only
/// from a checker.
#[derive(Clone, Debug, PartialEq, Eq)]
pub struct OsAuthorizationGrant {
    system_bus_name: String,
    action: PolkitActivationAction,
    approved_permit_canonical: String,
    checked_at_unix_ms: u64,
}

impl OsAuthorizationGrant {
    pub closed spec fn bus_name_spec(&self) -> Seq<char> {
        self.system_bus_name@
    }

    pub closed spec fn action_spec(&self) -> PolkitActivationAction {
        self.action
    }

    /// The canonical text of the permit the grant approved.
    pub closed spec fn approved_spec(&self) -> Seq<char> {
        self.approved_permit_canonical@
    }

    pub closed spec fn checked_at_spec(&self) -> u64 {
        self.checked_at_unix_ms
    }

    pub fn system_bus_name(&self) -> (r: &str)
        ensures
            r@ == self.bus_name_spec(),
    {
        self.system_bus_name.as_str()
    }

    pub fn action(&self) -> (r: PolkitActivationAction)
        ensures
            r == self.action_spec(),
    {
        self.action
    }

    pub fn checked_at_unix_ms(&self) -> (r: u64)
        ensures
            r == self.checked_at_spec(),
    {
        self.checked_at_unix_ms
    }

    pub fn approved_permit_canonical(&self) -> (r: &str)
        ensures
            r@ == self.approved_spec(),
    {
        self.approved_permit_canonical.as_str()
    }
}

/// The answer a `pkcheck` outcome gives for a request checked at `now_unix_ms`.
pub open spec fn outcome_answer(
    request: PolkitAuthorizationRequest,
    outcome: PkcheckCommandOutcome,
    now_unix_ms: u64,
    r: Result<OsAuthorizationGrant, PolkitAuthorizationError>,
) -> bool {
    &&& outcome.exit_code == Some(0i32) ==> (r matches Ok(g) && g.bus_name_spec()
        == request.bus_name_spec() && g.action_spec() == request.action_spec()
        && g.approved_spec() == ascii_chars(permit_text(request.permit_spec()))
        && g.checked_at_spec() == now_unix_ms)
    &&& outcome.exit_code == Some(1i32) ==> (r matches Err(PolkitAuthorizationError::Denied(m)) && m
        == outcome.stderr)
    &&& outcome.exit_code == Some(2i32) ==> (r matches Err(
        PolkitAuthorizationError::NoAuthenticationAgent(m),
    ) && m == outcome.stderr)
    &&& outcome.exit_code == Some(3i32) ==> (r matches Err(PolkitAuthorizationError::Dismissed(m))
        && m == outcome.stderr)
    &&& !(outcome.exit_code matches Some(c) && 0 <= c <= 3) ==> (r matches Err(
        PolkitAuthorizationError::CheckFailed { exit_code, stderr },
    ) && exit_code == outcome.exit_code && stderr == outcome.stderr)
}

/// What a `pkcheck` exit status means: 0 grants, 1 denies, 2 finds no
/// authentication agent, 3 was dismissed, anything else failed.
pub fn grant_from_outcome(
    request: &PolkitAuthorizationRequest,
    outcome: PkcheckCommandOutcome,
    now_unix_ms: u64,
) -> (r: Result<OsAuthorizationGrant, PolkitAuthorizationError>)
    ensures
        outcome_answer(*request, outcome, now_unix_ms, r),
{
    match outcome.exit_code {
        Some(0) => Ok(
            OsAuthorizationGrant {
                system_bus_name: request.system_bus_name.clone(),
                action: request.action,
                approved_permit_canonical: request.approved_permit.canonical_text(),
                checked_at_unix_ms: now_unix_ms,
            },
        ),
        Some(1) => Err(PolkitAuthorizationError::Denied(outcome.stderr)),
        Some(2) => Err(PolkitAuthorizationError::NoAuthenticationAgent(outcome.stderr)),
        Some(3) => Err(PolkitAuthorizationError::Dismissed(outcome.stderr)),
        exit_code => Err(PolkitAuthorizationError::CheckFailed { exit_code, stderr: outcome.stderr }),
    }
}

/// Asks polkit, through `pkcheck`, whether the caller may run an activation.
pub struct PkcheckAuthorizationChecker<R> {
    program: String,
    runner: R,
}

impl<R: PkcheckCommandRunner> PkcheckAuthorizationChecker<R> {
    pub closed spec fn program_spec(&self) -> Seq<char> {
        self.program@
    }

    pub fn new(pkcheck_program: &str, runner: R) -> (r: Result<Self, PolkitAuthorizationError>)
        ensures
            !pkcheck_program_ok(pkcheck_program@) ==> r is Err && (r matches Err(e)
                && e == PolkitAuthorizationError::InvalidPkcheckProgram),
            pkcheck_program_ok(pkcheck_program@) ==> (r matches Ok(c) && c.program_spec()
                == pkcheck_program@),
    {
        if !check_pkcheck_program(pkcheck_program) {
            return Err(PolkitAuthorizationError::InvalidPkcheckProgram);
        }
        Ok(PkcheckAuthorizationChecker { program: pkcheck_program.to_owned(), runner })
    }

    /// Runs `pkcheck` for a request and hands back what it reported, without
    /// reading it: an unusable program is refused before anything runs.
    pub fn ask(&self, request: &PolkitAuthorizationRequest) -> (r: Result<PkcheckCommandOutcome, PolkitAuthorizationError>)
        ensures
            !pkcheck_program_ok(self.program_spec()) ==> r == Err::<
                PkcheckCommandOutcome,
                PolkitAuthorizationError,
            >(PolkitAuthorizationError::InvalidPkcheckProgram),
            pkcheck_program_ok(self.program_spec()) ==> (r is Ok || r matches Err(
                PolkitAuthorizationError::Spawn(_),
            )),
    {
        let plan = PolkitCheckPlan::new(self.program.as_str(), request)?;
        match self.runner.run(&plan) {
            Ok(o) => Ok(o),
            Err(m) => Err(PolkitAuthorizationError::Spawn(m)),
        }
    }

    /// Checks a user-initiated request; user interaction is always allowed.
    /// Whatever `pkcheck` reports, a grant is only ever for this request's
    /// caller, action and exact permit, at time `now_unix_ms`.
    pub fn check_user_initiated(&self, request: &PolkitAuthorizationRequest, now_unix_ms: u64) -> (r: Result<OsAuthorizationGrant, PolkitAuthorizationError>)
        ensures
            !pkcheck_program_ok(self.program_spec()) ==> r == Err::<
                OsAuthorizationGrant,
                PolkitAuthorizationError,
            >(PolkitAuthorizationError::InvalidPkcheckProgram),
            pkcheck_program_ok(self.program_spec()) ==> (r matches Err(
                PolkitAuthorizationError::Spawn(_),
            ) || exists|o: PkcheckCommandOutcome| outcome_answer(*request, o, now_unix_ms, r)),
            r matches Ok(g) ==> g.bus_name_spec() == request.bus_name_spec() && g.action_spec()
                == request.action_spec() && g.approved_spec() == ascii_chars(
                permit_text(request.permit_spec()),
            ) && g.checked_at_spec() == now_unix_ms,
    {
        let outcome = self.ask(request)?;
        let ghost o = outcome;
        let r = grant_from_outcome(request, outcome, now_unix_ms);
        assert(outcome_answer(*request, o, now_unix_ms, r));
        r
    }
}

// ---------------------------------------------------------------------------
// The permit issuer
// ---------------------------------------------------------------------------

/// A permit the issuer wrote.
#[derive(Clone, Debug, PartialEq, Eq)]
pub struct IssuedActivationPermit {
    pub authorization: SystemAuthorizationId,
    pub authorized_system_bus_name: String,
    pub action_id: String,
    pub permit_path: String,
    pub issued_at_unix_ms: u64,
}

#[derive(Clone, Debug, PartialEq, Eq)]
pub enum PermitIssueError {
    PreparedRejected(PrivilegedActivationError),
    UnsupportedAction(SystemCandidateAction),
    GrantTimestampInvalid,
    GrantStale,
    GrantActionMismatch,
    GrantExactBindingMismatch,
    InvalidPermitRoot,
    AlreadyIssued(SystemAuthorizationId),
    InvalidCreatedPermit,
    Io(String),
}

/// The first reason a validated request and a grant do not make a permit:
/// the grant was checked before the request was prepared or in the future,
/// is too old, is for another action, or approved another permit.
pub open spec fn grant_defect(
    max_grant_age_ms: u64,
    p: PreparedView,
    g_checked: u64,
    g_action: PolkitActivationAction,
    g_approved: Seq<char>,
    now: u64,
) -> Option<PermitIssueError> {
    if g_checked < p.prepared_at_unix_ms || g_checked > now {
        Some(PermitIssueError::GrantTimestampInvalid)
    } else if now - g_checked > max_grant_age_ms {
        Some(PermitIssueError::GrantStale)
    } else if polkit_action_of(p.plan.action) is None {
        Some(PermitIssueError::UnsupportedAction(p.plan.action))
    } else if g_action != polkit_action_of(p.plan.action)->0 {
        Some(PermitIssueError::GrantActionMismatch)
    } else if g_approved != ascii_chars(permit_text(permit_of(p))) {
        Some(PermitIssueError::GrantExactBindingMismatch)
    } else {
        None
    }
}

/// A grant's age is measured from when polkit checked it: for a grant checked
/// between the request's preparation and now, the issuer refuses it as stale
/// exactly when it was checked more than `max_grant_age_ms` ago, and a grant
/// the issuer accepts was checked within `max_grant_age_ms` of now.
pub proof fn lemma_grant_age_from_check(
    max_grant_age_ms: u64,
    p: PreparedView,
    g_checked: u64,
    g_action: PolkitActivationAction,
    g_approved: Seq<char>,
    now: u64,
)
    ensures
        p.prepared_at_unix_ms <= g_checked <= now ==> (grant_defect(
            max_grant_age_ms,
            p,
            g_checked,
            g_action,
            g_approved,
            now,
        ) == Some(PermitIssueError::GrantStale) <==> now - g_checked > max_grant_age_ms),
        grant_defect(max_grant_age_ms, p, g_checked, g_action, g_approved, now) is None ==> (
        p.prepared_at_unix_ms <= g_checked <= now && now - g_checked <= max_grant_age_ms
            && polkit_action_of(p.plan.action) == Some(g_action) && g_approved == ascii_chars(
            permit_text(permit_of(p)),
        )),
        (grant_defect(max_grant_age_ms, p, g_checked, g_action, g_approved, now) == Some(
            PermitIssueError::GrantTimestampInvalid,
        )) <==> !(p.prepared_at_unix_ms <= g_checked <= now),
{
}

/// A grant cannot be rebound: if one grant lets the issuer write the permit
/// of two prepared requests, the two permits are the same, field for field
/// (node, operation, candidate, SystemSpec, closure, action, timestamps).
pub proof fn lemma_grant_binds_one_permit(
    max_grant_age_ms: u64,
    p1: PreparedView,
    p2: PreparedView,
    g_checked: u64,
    g_action: PolkitActivationAction,
    g_approved: Seq<char>,
    now: u64,
)
    requires
        grant_defect(max_grant_age_ms, p1, g_checked, g_action, g_approved, now) is None,
        grant_defect(max_grant_age_ms, p2, g_checked, g_action, g_approved, now) is None,
    ensures
        permit_of(p1) == permit_of(p2),
{
    lemma_ascii_chars_injective(permit_text(permit_of(p1)), permit_text(permit_of(p2)));
    lemma_permit_text_injective(permit_of(p1), permit_of(p2));
}

/// Writes trusted permits into the root-owned permit directory.
pub struct RootOwnedActivationPermitIssuer {
    root: String,
    expected_owner_uid: u32,
    max_grant_age_ms: u64,
    validator: PrivilegedNixOsActivationHelper,
}

impl RootOwnedActivationPermitIssuer {
    pub closed spec fn root_spec(&self) -> Seq<char> {
        self.root@
    }

    pub closed spec fn owner(&self) -> u32 {
        self.expected_owner_uid
    }

    pub closed spec fn max_grant_age(&self) -> u64 {
        self.max_grant_age_ms
    }

    pub closed spec fn local(&self) -> Seq<char> {
        self.validator.local()
    }

    pub closed spec fn runtime_policy(&self) -> PrivilegedActivationRuntimePolicy {
        self.validator.runtime_policy()
    }

    pub fn production_default(local_node: &str) -> (r: Self)
        ensures
            r.root_spec() == DEFAULT_TRUSTED_PERMIT_ROOT@,
            r.owner() == 0,
            r.max_grant_age() == DEFAULT_MAX_POLKIT_GRANT_AGE_MS,
            r.local() == local_node@,
            r.runtime_policy().max_prepared_age_ms == crate::privileged_helper::DEFAULT_MAX_PREPARED_AGE_MS,
            r.runtime_policy().max_readiness_age_ms == crate::privileged_helper::DEFAULT_MAX_READINESS_AGE_MS,
    {
        Self::new(local_node, DEFAULT_TRUSTED_PERMIT_ROOT, 0)
    }

    pub fn new(local_node: &str, root: &str, expected_owner_uid: u32) -> (r: Self)
        ensures
            r.root_spec() == root@,
            r.owner() == expected_owner_uid,
            r.max_grant_age() == DEFAULT_MAX_POLKIT_GRANT_AGE_MS,
            r.local() == local_node@,
            r.runtime_policy().max_prepared_age_ms == crate::privileged_helper::DEFAULT_MAX_PREPARED_AGE_MS,
            r.runtime_policy().max_readiness_age_ms == crate::privileged_helper::DEFAULT_MAX_READINESS_AGE_MS,
    {
        RootOwnedActivationPermitIssuer {
            root: root.to_owned(),
            expected_owner_uid,
            max_grant_age_ms: DEFAULT_MAX_POLKIT_GRANT_AGE_MS,
            validator: PrivilegedNixOsActivationHelper::new(local_node),
        }
    }

    pub fn with_policy(
        local_node: &str,
        root: &str,
        expected_owner_uid: u32,
        max_grant_age_ms: u64,
        runtime_policy: PrivilegedActivationRuntimePolicy,
    ) -> (r: Self)
        ensures
            r.root_spec() == root@,
            r.owner() == expected_owner_uid,
            r.max_grant_age() == max_grant_age_ms,
            r.local() == local_node@,
            r.runtime_policy() == runtime_policy,
    {
        RootOwnedActivationPermitIssuer {
            root: root.to_owned(),
            expected_owner_uid,
            max_grant_age_ms,
            validator: PrivilegedNixOsActivationHelper::with_policy(local_node, runtime_policy),
        }
    }

    /// What `issue` decides before it writes anything: the request must pass
    /// the privileged validation and the grant must be fresh and for exactly
    /// this request. On success, the polkit action and the permit's text.
    pub fn authorize(
        &self,
        prepared: &PreparedPrivilegedActivation,
        grant: &OsAuthorizationGrant,
        now_unix_ms: u64,
    ) -> (r: Result<(PolkitActivationAction, String), PermitIssueError>)
        ensures
            prepared.node@ != self.local() ==> (r matches Err(
                PermitIssueError::PreparedRejected(
                    PrivilegedActivationError::NodeMismatch { expected, prepared: q },
                ),
            ) && expected@ == self.local() && q@ == prepared.node@),
            prepared.node@ == self.local() ==> match activation_defect(
                self.runtime_policy(),
                prepared@,
                now_unix_ms,
            ) {
                Some(e) => r == Err::<(PolkitActivationAction, String), PermitIssueError>(
                    PermitIssueError::PreparedRejected(e),
                ),
                None => match grant_defect(
                    self.max_grant_age(),
                    prepared@,
                    grant.checked_at_spec(),
                    grant.action_spec(),
                    grant.approved_spec(),
                    now_unix_ms,
                ) {
                    Some(e) => r == Err::<(PolkitActivationAction, String), PermitIssueError>(e),
                    None => r matches Ok((a, text)) && a == grant.action_spec() && text@
                        == ascii_chars(permit_text(permit_of(prepared@))),
                },
            },
    {
        match self.validator.validate_prepared(prepared, now_unix_ms) {
            Ok(()) => {},
            Err(e) => {
                return Err(PermitIssueError::PreparedRejected(e));
            },
        }
        if grant.checked_at_unix_ms < prepared.prepared_at_unix_ms || grant.checked_at_unix_ms
            > now_unix_ms {
            return Err(PermitIssueError::GrantTimestampInvalid);
        }
        if now_unix_ms - grant.checked_at_unix_ms > self.max_grant_age_ms {
            return Err(PermitIssueError::GrantStale);
        }
        let expected_action = match PolkitActivationAction::from_prepared(prepared) {
            Ok(a) => a,
            Err(_) => {
                return Err(PermitIssueError::UnsupportedAction(prepared.plan.action));
            },
        };
        if grant.action != expected_action {
            return Err(PermitIssueError::GrantActionMismatch);
        }
        let canonical = TrustedActivationPermit::from_prepared(prepared).canonical_text();
        if grant.approved_permit_canonical != canonical {
            return Err(PermitIssueError::GrantExactBindingMismatch);
        }
        Ok((expected_action, canonical))
    }

    pub fn root(&self) -> (r: &str)
        ensures
            r@ == self.root_spec(),
    {
        self.root.as_str()
    }

    /// The permit directory must be a private directory of the owner.
    pub fn check_root(&self, facts: &FileFacts) -> (r: Result<(), PermitIssueError>)
        ensures
            r is Ok <==> protected_directory(*facts, self.owner()),
            r matches Err(e) ==> e == PermitIssueError::InvalidPermitRoot,
    {
        if is_protected_directory(facts, self.expected_owner_uid) {
            Ok(())
        } else {
            Err(PermitIssueError::InvalidPermitRoot)
        }
    }

    /// `<root>/authorization-<hex>.permit`.
    pub fn permit_path(&self, authorization: &str) -> (r: String)
        ensures
            utf8(r@) == join(
                utf8(self.root_spec()),
                utf8("authorization-"@) + hex_of_text(authorization@) + utf8(".permit"@),
            ),
    {
        let name = hex_name("authorization-", authorization, ".permit");
        join_name(self.root.as_str(), name.as_slice())
    }

    /// The file just created must be a private regular file of the owner.
    pub fn check_created(&self, facts: &FileFacts) -> (r: Result<(), PermitIssueError>)
        ensures
            r is Ok <==> protected_file(*facts, self.owner()),
            r matches Err(e) ==> e == PermitIssueError::InvalidCreatedPermit,
    {
        if is_protected_file(facts, self.expected_owner_uid) {
            Ok(())
        } else {
            Err(PermitIssueError::InvalidCreatedPermit)
        }
    }
}

/// The record of a permit written at `path` for `grant`.
pub fn issued_permit(
    prepared: &PreparedPrivilegedActivation,
    grant: &OsAuthorizationGrant,
    action: PolkitActivationAction,
    path: String,
    now_unix_ms: u64,
) -> (r: IssuedActivationPermit)
    ensures
        r.authorization@ == prepared.authorization@,
        r.authorized_system_bus_name@ == grant.bus_name_spec(),
        r.action_id@ == polkit_action_id(action),
        r.permit_path == path,
        r.issued_at_unix_ms == now_unix_ms,
{
    IssuedActivationPermit {
        authorization: prepared.authorization.clone(),
        authorized_system_bus_name: grant.system_bus_name.clone(),
        action_id: action.action_id().to_owned(),
        permit_path: path,
        issued_at_unix_ms: now_unix_ms,
    }
}

} // verus!
