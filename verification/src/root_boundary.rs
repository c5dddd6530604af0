//! The root-owned entry point for privileged activations: a prepared request
//! must pass validation, then an exact trusted permit must be destroyed, and
//! only then may the helper attempt the activation.
use vstd::prelude::*;
use crate::activation::PreparedPrivilegedActivation;
pub use crate::permit::{
    FileTrustedActivationPermitStore, InMemoryTrustedActivationPermitStore, TrustedActivationPermit,
    TrustedActivationPermitError, TrustedActivationPermitStore,
};
use crate::privileged_helper::{
    activation_defect, activation_run, ok_report, valid_for, ActivationAnswer, ActivationNext,
    NixOsActivationHost,
    PrivilegedActivationError, PrivilegedActivationExecution, PrivilegedActivationRuntimePolicy,
    PrivilegedCommandRunner, PrivilegedExecutionLedger, PrivilegedNixOsActivationHelper,
};

verus! {

#[derive(Clone, Debug, PartialEq, Eq)]
pub enum RootActivationBoundaryError {
    PreparedRejected(PrivilegedActivationError),
    TrustedPermitRejected(TrustedActivationPermitError),
    RuntimeRejected(PrivilegedActivationError),
}

/// The public entry point of a root service: validation, then the trusted
/// permit, then the activation mechanism.
pub struct RootOwnedNixOsActivationBoundary {
    runtime: PrivilegedNixOsActivationHelper,
}

impl RootOwnedNixOsActivationBoundary {
    pub closed spec fn local(&self) -> Seq<char> {
        self.runtime.local()
    }

    pub closed spec fn runtime_policy(&self) -> PrivilegedActivationRuntimePolicy {
        self.runtime.runtime_policy()
    }

    pub fn new(local_node: &str) -> (r: Self)
        ensures
            r.local() == local_node@,
            r.runtime_policy().max_prepared_age_ms == crate::privileged_helper::DEFAULT_MAX_PREPARED_AGE_MS,
            r.runtime_policy().max_readiness_age_ms == crate::privileged_helper::DEFAULT_MAX_READINESS_AGE_MS,
    {
        RootOwnedNixOsActivationBoundary { runtime: PrivilegedNixOsActivationHelper::new(local_node) }
    }

    pub fn with_policy(local_node: &str, policy: PrivilegedActivationRuntimePolicy) -> (r: Self)
        ensures
            r.local() == local_node@,
            r.runtime_policy() == policy,
    {
        RootOwnedNixOsActivationBoundary {
            runtime: PrivilegedNixOsActivationHelper::with_policy(local_node, policy),
        }
    }

    /// Executes a prepared activation on the authority of a trusted permit. A
    /// request that fails validation spends neither the permit nor the replay
    /// ledger; a refused permit leaves the ledger untouched, and only once the
    /// store consumed the permit does the helper's activation run start. The
    /// store's own answer is not part of this contract: stores are implemented
    /// by their users.
    pub fn execute<
        H: NixOsActivationHost,
        R: PrivilegedCommandRunner,
        P: TrustedActivationPermitStore,
        L: PrivilegedExecutionLedger,
    >(
        &self,
        prepared: &PreparedPrivilegedActivation,
        now_unix_ms: u64,
        host: &H,
        runner: &R,
        permits: &mut P,
        replay_ledger: &mut L,
    ) -> (r: Result<PrivilegedActivationExecution, RootActivationBoundaryError>)
        ensures
            prepared.node@ != self.local() ==> (r matches Err(
                RootActivationBoundaryError::PreparedRejected(
                    PrivilegedActivationError::NodeMismatch { expected, prepared: q },
                ),
            ) && expected@ == self.local() && q@ == prepared.node@),
            prepared.node@ == self.local() ==> (activation_defect(
                self.runtime_policy(),
                prepared@,
                now_unix_ms,
            ) matches Some(e) ==> r == Err::<PrivilegedActivationExecution, RootActivationBoundaryError>(
                RootActivationBoundaryError::PreparedRejected(e),
            )),
            !(prepared.node@ == self.local() && activation_defect(
                self.runtime_policy(),
                prepared@,
                now_unix_ms,
            ) is None) ==> *final(permits) == *old(permits) && *final(replay_ledger)
                == *old(replay_ledger),
            r matches Err(RootActivationBoundaryError::TrustedPermitRejected(_))
                ==> valid_for(self.local(), self.runtime_policy(), prepared@, now_unix_ms)
                && *final(replay_ledger) == *old(replay_ledger),
            r matches Err(RootActivationBoundaryError::RuntimeRejected(e)) ==> exists|
                nexts: Seq<ActivationNext>,
                answers: Seq<ActivationAnswer>,
            |
                activation_run(self.local(), self.runtime_policy(), prepared@, now_unix_ms, nexts, answers)
                    && nexts.last() == ActivationNext::Done(Err(e)),
            r matches Ok(x) ==> valid_for(self.local(), self.runtime_policy(), prepared@, now_unix_ms)
                && ok_report(prepared@, x) && exists|nexts: Seq<ActivationNext>, answers: Seq<ActivationAnswer>|
                activation_run(self.local(), self.runtime_policy(), prepared@, now_unix_ms, nexts, answers)
                    && nexts.last() == ActivationNext::Done(Ok(x)),
    {
        match self.runtime.validate_prepared(prepared, now_unix_ms) {
            Ok(()) => {},
            Err(e) => {
                return Err(RootActivationBoundaryError::PreparedRejected(e));
            },
        }
        match permits.consume_matching(prepared) {
            Ok(()) => {},
            Err(e) => {
                return Err(RootActivationBoundaryError::TrustedPermitRejected(e));
            },
        }
        match self.runtime.execute(prepared, now_unix_ms, host, runner, replay_ledger) {
            Ok(x) => Ok(x),
            Err(e) => Err(RootActivationBoundaryError::RuntimeRejected(e)),
        }
    }
}

} // verus!
