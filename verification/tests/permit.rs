use blob_nixos::activation::{ImmutableNixOsActivationPlan, PreparedPrivilegedActivation};
use blob_nixos::permit::{
    InMemoryTrustedActivationPermitStore, TrustedActivationPermit, TrustedActivationPermitError,
    TrustedActivationPermitStore,
};
use blob_nixos::system::{SystemAuthorityClass, SystemCandidateAction, SystemEffectClass};

fn prepared() -> PreparedPrivilegedActivation {
    let closure = "/nix/store/candidate-nixos-system-blob-pilot";
    PreparedPrivilegedActivation {
        node: "node:lab".into(),
        readiness_observed_at_unix_ms: 1_000,
        authorization: "auth:one".into(),
        authorization_expires_at_unix_ms: 61_000,
        prepared_at_unix_ms: 2_000,
        plan: ImmutableNixOsActivationPlan {
            operation_id: "op:activate".into(),
            candidate: "candidate:one".into(),
            system_spec: "system:one".into(),
            materialization_operation: "op:materialize".into(),
            system_closure: closure.into(),
            action: SystemCandidateAction::TestActivation,
            effect_class: SystemEffectClass::TemporaryLiveActivation,
            authority: SystemAuthorityClass::HostAdministrator,
            program: format!("{closure}/bin/switch-to-configuration"),
            args: vec!["test".into()],
            expected_effects: vec![],
            rollback_semantics: "reboot restores baseline".into(),
        },
        readiness_evidence: vec![],
        authorization_evidence: vec![],
    }
}

#[test]
fn canonical_permit_binds_every_execution_sensitive_field() {
    let baseline = TrustedActivationPermit::from_prepared(&prepared()).canonical_text();
    let mutations: Vec<Box<dyn Fn(&mut PreparedPrivilegedActivation)>> = vec![
        Box::new(|p| p.node = "node:other".into()),
        Box::new(|p| p.plan.operation_id = "op:other".into()),
        Box::new(|p| p.plan.candidate = "candidate:other".into()),
        Box::new(|p| p.plan.system_spec = "system:other".into()),
        Box::new(|p| p.plan.materialization_operation = "op:other-materialize".into()),
        Box::new(|p| p.plan.system_closure = "/nix/store/other".into()),
        Box::new(|p| p.plan.action = SystemCandidateAction::PreviewActivation),
        Box::new(|p| p.plan.effect_class = SystemEffectClass::PreviewHooks),
        Box::new(|p| p.plan.authority = SystemAuthorityClass::User),
        Box::new(|p| p.plan.program = "/bin/sh".into()),
        Box::new(|p| p.plan.args = vec!["switch".into()]),
        Box::new(|p| p.readiness_observed_at_unix_ms += 1),
        Box::new(|p| p.prepared_at_unix_ms += 1),
        Box::new(|p| p.authorization_expires_at_unix_ms += 1),
    ];
    for mutate in mutations {
        let mut changed = prepared();
        mutate(&mut changed);
        assert_ne!(baseline, TrustedActivationPermit::from_prepared(&changed).canonical_text());
    }
}

#[test]
fn in_memory_permit_is_exact_and_single_use() {
    let request = prepared();
    let mut store = InMemoryTrustedActivationPermitStore::new();
    store.grant_for(&request);
    store.consume_matching(&request).expect("first exact use");
    assert!(matches!(
        store.consume_matching(&request),
        Err(TrustedActivationPermitError::MissingOrAlreadyConsumed(_))
    ));
}

#[test]
fn forged_request_does_not_consume_a_real_permit() {
    let request = prepared();
    let mut forged = request.clone();
    forged.plan.system_closure = "/nix/store/forged".into();
    forged.plan.program = "/nix/store/forged/bin/switch-to-configuration".into();
    let mut store = InMemoryTrustedActivationPermitStore::new();
    store.grant_for(&request);
    assert!(matches!(
        store.consume_matching(&forged),
        Err(TrustedActivationPermitError::MissingOrAlreadyConsumed(_))
    ));
    store.consume_matching(&request).expect("real permit remains available");
}
